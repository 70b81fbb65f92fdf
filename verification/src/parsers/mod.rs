pub mod psf;
