pub mod sinks;
