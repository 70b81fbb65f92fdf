pub mod cpu;
pub mod gdt;
pub mod interrupts;

use vstd::prelude::*;
use crate::arch::x86_64::gdt::{CPL_RING_0, SegmentSelector};
use crate::arch::x86_64::interrupts::idt::{
    IDT_ENTRIES,
    IdtGateDescriptor,
    IdtGateDescriptorProperties,
    IdtGateType,
};

verus! {

/// Descriptor the kernel installs for handler `entry_point`: an interrupt gate
/// for ring 0 into the kernel code segment (GDT descriptor 1), on the current stack.
pub open spec fn kernel_gate(entry_point: u64) -> IdtGateDescriptor {
    IdtGateDescriptor::gate(
        entry_point,
        SegmentSelector { global_descriptor_table: true, index: 1, requested_privilege: CPL_RING_0 },
        IdtGateDescriptorProperties { gate_type: IdtGateType::Interrupt, privilege_level: CPL_RING_0 },
        0,
    )
}

/// The interrupt descriptor table for the 256 handlers at `handlers`: gate `n`
/// enters handler `n`.
pub fn build_idt(handlers: &[u64]) -> (idt: Vec<IdtGateDescriptor>)
    requires
        handlers@.len() == IDT_ENTRIES,
    ensures
        idt@.len() == IDT_ENTRIES,
        forall|n: int| 0 <= n < IDT_ENTRIES ==> #[trigger] idt@[n] == kernel_gate(handlers@[n]),
{
    let mut idt: Vec<IdtGateDescriptor> = Vec::new();
    let mut n: usize = 0;
    while n < IDT_ENTRIES
        invariant
            handlers@.len() == IDT_ENTRIES,
            n <= IDT_ENTRIES,
            idt@.len() == n,
            forall|k: int| 0 <= k < n ==> #[trigger] idt@[k] == kernel_gate(handlers@[k]),
        decreases IDT_ENTRIES - n,
    {
        let gate = IdtGateDescriptor::new(
            handlers[n],
            SegmentSelector { global_descriptor_table: true, index: 1, requested_privilege: CPL_RING_0 },
            IdtGateDescriptorProperties {
                gate_type: IdtGateType::Interrupt,
                privilege_level: CPL_RING_0,
            },
            0,
        );
        idt.push(gate);
        n = n + 1;
    }
    idt
}

} // verus!
