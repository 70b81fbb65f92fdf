//! The interrupt descriptor table: gate descriptors and the register image
//! that `lidt` loads.
use vstd::prelude::*;
use vstd::std_specs::convert::FromSpecImpl;
use crate::arch::x86_64::gdt::{SegmentSelector, selector_value};

verus! {

/// Number of gates in the interrupt descriptor table.
pub const IDT_ENTRIES: usize = 256;

/// Size in bytes of one gate descriptor.
pub const IDT_GATE_DESCRIPTOR_SIZE: usize = 16;

pub enum IdtGateType {
    Interrupt,
    Trap,
}

/// Type field of a descriptor: 0xE for a 64-bit interrupt gate, 0xF for a trap gate.
pub open spec fn gate_type_value(t: IdtGateType) -> u8 {
    match t {
        IdtGateType::Interrupt => 0xE,
        IdtGateType::Trap => 0xF,
    }
}

impl IdtGateType {
    pub fn value(&self) -> (v: u8)
        ensures
            v == gate_type_value(*self),
    {
        match self {
            IdtGateType::Interrupt => 0xE,
            IdtGateType::Trap => 0xF,
        }
    }
}

pub struct IdtGateDescriptorProperties {
    pub gate_type: IdtGateType,
    pub privilege_level: u8,
}

/// The type-and-attributes byte of a gate: gate type in bits 0-3, descriptor
/// privilege level in bits 5-6, the present bit 7 set.
pub open spec fn properties_value(gate_type: IdtGateType, privilege_level: u8) -> u8 {
    (gate_type_value(gate_type) + (privilege_level % 4) * 32 + 0x80) as u8
}

impl From<IdtGateDescriptorProperties> for u8 {
    fn from(properties: IdtGateDescriptorProperties) -> (ret: u8) {
        let mut ret: u8 = 0;
        let gate = properties.gate_type.value();
        let pl = properties.privilege_level;
        ret = ret | gate;
        ret = ret | (pl << 5);
        ret = ret | (1 << 7);
        proof {
            assert(0u8 | gate | (pl << 5u8) | (1u8 << 7u8) == (gate + (pl % 4) * 32 + 0x80) as u8)
                by (bit_vector)
                requires
                    gate == 0xE || gate == 0xF,
            ;
        }
        ret
    }
}

impl FromSpecImpl<IdtGateDescriptorProperties> for u8 {
    open spec fn obeys_from_spec() -> bool {
        true
    }

    open spec fn from_spec(properties: IdtGateDescriptorProperties) -> u8 {
        properties_value(properties.gate_type, properties.privilege_level)
    }
}

/// A 16-byte gate descriptor. The entry point is split over `ep_ll` (bits
/// 0-15), `ep_lh` (bits 16-31) and `ep_hh` (bits 32-63).
pub struct IdtGateDescriptor {
    pub ep_ll: u16,
    pub segment_selector: u16,
    pub ist_offset: u8,
    pub properties: u8,
    pub ep_lh: u16,
    pub ep_hh: u32,
    pub _reserved: u32,
}

impl IdtGateDescriptor {
    /// The entry point the descriptor holds.
    pub open spec fn entry_point(&self) -> int {
        self.ep_ll + self.ep_lh * 0x1_0000 + self.ep_hh * 0x1_0000_0000
    }

    /// Descriptor for handler `entry_point`, run with code segment `selector`,
    /// with the given type and privilege, on interrupt stack `ist_offset`
    /// (its low three bits).
    pub open spec fn gate(
        entry_point: u64,
        selector: SegmentSelector,
        properties: IdtGateDescriptorProperties,
        ist_offset: u8,
    ) -> IdtGateDescriptor {
        IdtGateDescriptor {
            ep_ll: (entry_point % 0x1_0000) as u16,
            segment_selector: selector_value(
                selector.global_descriptor_table,
                selector.index,
                selector.requested_privilege,
            ),
            ist_offset: ist_offset % 8,
            properties: properties_value(properties.gate_type, properties.privilege_level),
            ep_lh: ((entry_point / 0x1_0000) % 0x1_0000) as u16,
            ep_hh: (entry_point / 0x1_0000_0000) as u32,
            _reserved: 0,
        }
    }

    pub fn new(
        entry_point: u64,
        segment_selector: SegmentSelector,
        properties: IdtGateDescriptorProperties,
        ist_offset: u8,
    ) -> (ret: Self)
        ensures
            ret == Self::gate(entry_point, segment_selector, properties, ist_offset),
            ret.entry_point() == entry_point,
            ret.ep_ll == entry_point % 0x1_0000,
            ret.ep_lh == (entry_point / 0x1_0000) % 0x1_0000,
            ret.ep_hh == entry_point / 0x1_0000_0000,
            ret.ist_offset == ist_offset & 0x7,
            ist_offset < 8 ==> ret.ist_offset == ist_offset,
            ret._reserved == 0,
    {
        let ghost sel = segment_selector;
        let ghost props = properties;
        let mut ret = IdtGateDescriptor::default();
        ret.ep_ll = entry_point as u16;
        ret.segment_selector = segment_selector.into();
        ret.ist_offset = ist_offset & 0x7;
        ret.properties = properties.into();
        ret.ep_lh = (entry_point >> 16) as u16;
        ret.ep_hh = (entry_point >> 32) as u32;
        proof {
            assert(entry_point as u16 == (entry_point % 0x1_0000) as u16) by (bit_vector);
            assert((entry_point >> 16u64) as u16 == ((entry_point / 0x1_0000) % 0x1_0000) as u16)
                by (bit_vector);
            assert((entry_point >> 32u64) as u32 == (entry_point / 0x1_0000_0000) as u32)
                by (bit_vector);
            assert(ist_offset & 7 == ist_offset % 8 && (ist_offset < 8 ==> ist_offset & 7 == ist_offset)) by (bit_vector);
            assert(entry_point % 0x1_0000 + ((entry_point / 0x1_0000) % 0x1_0000) * 0x1_0000 + (
            entry_point / 0x1_0000_0000) * 0x1_0000_0000 == entry_point) by (bit_vector);
        }
        ret
    }
}

impl Default for IdtGateDescriptor {
    fn default() -> (d: Self)
        ensures
            d == (IdtGateDescriptor {
                ep_ll: 0,
                segment_selector: 0,
                ist_offset: 0,
                properties: 0,
                ep_lh: 0,
                ep_hh: 0,
                _reserved: 0,
            }),
    {
        IdtGateDescriptor {
            ep_ll: 0,
            segment_selector: 0,
            ist_offset: 0,
            properties: 0,
            ep_lh: 0,
            ep_hh: 0,
            _reserved: 0,
        }
    }
}

/// The register image that `lidt` loads: the table's size in bytes minus one,
/// and its address.
pub struct IdtDescriptor {
    pub size: u16,
    pub idt_offset: u64,
}

impl IdtDescriptor {
    /// The register image for a full table of 256 gates at address `idt_offset`.
    pub fn new(idt_offset: u64) -> (desc: Self)
        ensures
            desc.idt_offset == idt_offset,
            desc.size == 4095,
    {
        IdtDescriptor {
            size: (IDT_GATE_DESCRIPTOR_SIZE * IDT_ENTRIES) as u16 - 1,
            idt_offset,
        }
    }
}

/// The type-and-attributes byte gives back its type field, the privilege level
/// (two bits), and always has the present bit set.
pub proof fn lemma_properties_fields(gate_type: IdtGateType, privilege_level: u8)
    ensures
        ({
            let v = properties_value(gate_type, privilege_level);
            &&& v & 0x1F == gate_type_value(gate_type)
            &&& (v >> 5u8) & 3 == privilege_level & 3
            &&& v >> 7u8 == 1
        }),
{
    let g = gate_type_value(gate_type);
    let v = properties_value(gate_type, privilege_level);
    assert(v & 0x1F == g && (v >> 5u8) & 3 == privilege_level & 3 && v >> 7u8 == 1) by (bit_vector)
        requires
            g == 0xE || g == 0xF,
            v == (g + (privilege_level % 4) * 32 + 0x80) as u8,
    ;
}

} // verus!
