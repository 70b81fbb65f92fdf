use krabos::arch::x86_64::build_idt;
use krabos::arch::x86_64::gdt::{SegmentSelector, CPL_RING_0, CPL_RING_3};
use krabos::arch::x86_64::interrupts::idt::{
    IdtDescriptor, IdtGateDescriptor, IdtGateDescriptorProperties, IdtGateType,
};

#[test]
fn idt_test_serialize() {
    let segsel = SegmentSelector {
        global_descriptor_table: true,
        index: 0x546,
        requested_privilege: CPL_RING_3,
    };
    let properties = IdtGateDescriptorProperties {
        privilege_level: CPL_RING_3,
        gate_type: IdtGateType::Interrupt,
    };
    let idtgdesc = IdtGateDescriptor::new(0xF8D99A8B66647936, segsel, properties, 0b110);
    let ll = idtgdesc.ep_ll;
    let hh = idtgdesc.ep_hh;
    let lh = idtgdesc.ep_lh;

    assert_eq!(ll, 0x7936);
    assert_eq!(hh, 0xF8D99A8B);
    assert_eq!(lh, 0x6664);
    assert_eq!(std::mem::size_of::<IdtGateDescriptor>() * 8, 128);
}

#[test]
fn gate_descriptor_other_fields() {
    let segsel = SegmentSelector {
        global_descriptor_table: true,
        index: 0x546,
        requested_privilege: CPL_RING_3,
    };
    let properties = IdtGateDescriptorProperties {
        privilege_level: CPL_RING_3,
        gate_type: IdtGateType::Interrupt,
    };
    let gate = IdtGateDescriptor::new(0xF8D99A8B66647936, segsel, properties, 0b1110);
    assert_eq!(gate.segment_selector, 0x2A33);
    assert_eq!(gate.properties, 0xEE);
    assert_eq!(gate.ist_offset, 0b110);
    assert_eq!(gate._reserved, 0);
}

#[test]
fn gate_properties_byte() {
    let trap: u8 = IdtGateDescriptorProperties {
        gate_type: IdtGateType::Trap,
        privilege_level: CPL_RING_0,
    }
    .into();
    assert_eq!(trap, 0x8F);
    let interrupt: u8 = IdtGateDescriptorProperties {
        gate_type: IdtGateType::Interrupt,
        privilege_level: CPL_RING_3,
    }
    .into();
    assert_eq!(interrupt, 0xEE);
    // Only two bits of privilege level fit; the present bit stays set.
    let wide: u8 = IdtGateDescriptorProperties {
        gate_type: IdtGateType::Interrupt,
        privilege_level: 0xFF,
    }
    .into();
    assert_eq!(wide, 0xEE);
}

#[test]
fn kernel_idt() {
    let handlers: Vec<u64> = (0..256u64).map(|n| 0xFFFF_FFFF_8000_0000 + n * 16).collect();
    let idt = build_idt(&handlers);
    assert_eq!(idt.len(), 256);
    for (n, gate) in idt.iter().enumerate() {
        let entry = 0xFFFF_FFFF_8000_0000u64 + n as u64 * 16;
        assert_eq!(gate.ep_ll, entry as u16);
        assert_eq!(gate.ep_lh, (entry >> 16) as u16);
        assert_eq!(gate.ep_hh, (entry >> 32) as u32);
        assert_eq!(gate.segment_selector, 0x08);
        assert_eq!(gate.properties, 0x8E);
        assert_eq!(gate.ist_offset, 0);
    }
}

#[test]
fn idt_register_image() {
    let desc = IdtDescriptor::new(0x1000);
    assert_eq!(desc.size, 4095);
    assert_eq!(desc.idt_offset, 0x1000);
}

#[test]
fn default_gate_is_empty() {
    let gate = IdtGateDescriptor::default();
    assert_eq!(gate.ep_ll, 0);
    assert_eq!(gate.ep_lh, 0);
    assert_eq!(gate.ep_hh, 0);
    assert_eq!(gate.properties, 0);
    assert_eq!(gate.segment_selector, 0);
}
