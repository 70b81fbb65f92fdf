use krabos::arch::x86_64::gdt::{
    gdt_entries, GdtAccessByte, GdtDescriptor, GdtFlag, GdtSegmentDescriptor, SegmentSelector,
    CPL_RING_0, CPL_RING_3,
};

#[test]
fn test_serialize_gdtsegdesc() {
    let segdesc = GdtSegmentDescriptor {
        limit: 0xA5277,
        base: 0xDF627451,
        access: GdtAccessByte::accessed()
            | GdtAccessByte::kernel_privilege()
            | GdtAccessByte::read_write()
            | GdtAccessByte::present(),
        flags: GdtFlag::long_mode() | GdtFlag::granularity(),
    };
    let result: u64 = segdesc.into();

    // base_up[0b1101_1111] flags[0b1010] limit_up[0b1010]  ab[0b10000011] base_up[0b0110_0010]
    // base_low[0b0111_0100_0101_0001] limit_low[0b0101001001110111]
    assert_eq!(result, 0xDFAA836274515277);
}

#[test]
fn null_descriptor_is_zero() {
    let segdesc = GdtSegmentDescriptor {
        limit: 0,
        base: 0,
        access: GdtAccessByte::empty(),
        flags: GdtFlag::empty(),
    };
    let result: u64 = segdesc.into();
    assert_eq!(result, 0);
}

#[test]
fn descriptor_drops_bits_outside_its_fields() {
    // Limit bits above 19 and flag bits above 3 have no place in a descriptor.
    let segdesc = GdtSegmentDescriptor {
        limit: 0xFFFF_FFFF,
        base: 0,
        access: GdtAccessByte::empty(),
        flags: GdtFlag { bits: 0xF0 },
    };
    let result: u64 = segdesc.into();
    assert_eq!(result, 0x000F_0000_0000_FFFF);
}

#[test]
fn kernel_gdt_entries() {
    let table = gdt_entries();
    assert_eq!(
        table,
        [
            0,
            0x00AF_9900_0000_FFFF,
            0x00CF_9300_0000_FFFF,
            0x00AF_F900_0000_FFFF,
            0x00CF_F300_0000_FFFF,
        ]
    );
}

#[test]
fn access_byte_flags() {
    assert_eq!(GdtAccessByte::accessed().bits(), 0x01);
    assert_eq!(GdtAccessByte::read_write().bits(), 0x02);
    assert_eq!(GdtAccessByte::direction_conforming().bits(), 0x04);
    assert_eq!(GdtAccessByte::executable().bits(), 0x08);
    assert_eq!(GdtAccessByte::descriptor_type().bits(), 0x10);
    assert_eq!(GdtAccessByte::user_mode_privilege().bits(), 0x60);
    assert_eq!(GdtAccessByte::kernel_privilege().bits(), 0x00);
    assert_eq!(GdtAccessByte::present().bits(), 0x80);
    assert_eq!(GdtFlag::long_mode().bits(), 0x02);
    assert_eq!(GdtFlag::size().bits(), 0x04);
    assert_eq!(GdtFlag::granularity().bits(), 0x08);
}

#[test]
fn gdt_register_image() {
    let desc = GdtDescriptor::new(0xFFFF_8000_0000_1000, 5);
    assert_eq!(desc.size, 39);
    assert_eq!(desc.gdt, 0xFFFF_8000_0000_1000);
}

#[test]
fn segment_selector_encoding() {
    let kernel_code: u16 = SegmentSelector {
        global_descriptor_table: true,
        index: 1,
        requested_privilege: CPL_RING_0,
    }
    .into();
    assert_eq!(kernel_code, 0x08);
    let user_local: u16 = SegmentSelector {
        global_descriptor_table: false,
        index: 0x546,
        requested_privilege: CPL_RING_3,
    }
    .into();
    assert_eq!(user_local, 0x2A37);
}

#[test]
fn descriptor_fields_read_back() {
    let segdesc = GdtSegmentDescriptor {
        limit: 0xA5277,
        base: 0xDF627451,
        access: GdtAccessByte::accessed() | GdtAccessByte::present(),
        flags: GdtFlag::granularity(),
    };
    let d: u64 = segdesc.into();
    assert_eq!(((d >> 16) & 0xFF_FFFF) | ((d >> 56) << 24), 0xDF627451);
    assert_eq!((d & 0xFFFF) | (((d >> 48) & 0xF) << 16), 0xA5277);
    assert_eq!((d >> 40) & 0xFF, 0x81);
    assert_eq!((d >> 52) & 0xF, 0x8);
}
