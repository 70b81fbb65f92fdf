//! Physical memory: the bootloader's memory map and the page frame allocator.
pub mod pfa;

use vstd::prelude::*;

verus! {

/// Memory map entry types, numbered as the Limine boot protocol numbers them.
pub const ENTRY_USABLE: u64 = 0;

pub const ENTRY_RESERVED: u64 = 1;

pub const ENTRY_ACPI_RECLAIMABLE: u64 = 2;

pub const ENTRY_ACPI_NVS: u64 = 3;

pub const ENTRY_BAD_MEMORY: u64 = 4;

pub const ENTRY_BOOTLOADER_RECLAIMABLE: u64 = 5;

pub const ENTRY_EXECUTABLE_AND_MODULES: u64 = 6;

pub const ENTRY_FRAMEBUFFER: u64 = 7;

/// One region of physical memory as the bootloader reports it.
#[derive(Clone, Copy, PartialEq, Eq, Structural, Debug)]
pub struct MemoryMapEntry {
    pub base: u64,
    pub length: u64,
    pub entry_type: u64,
}

/// How the memory map listing names a region of type `entry_type`.
pub open spec fn entry_type_name(entry_type: u64) -> Seq<char> {
    if entry_type == ENTRY_USABLE {
        "Free memory"@
    } else if entry_type == ENTRY_FRAMEBUFFER {
        "VESA Framebuffer"@
    } else if entry_type == ENTRY_EXECUTABLE_AND_MODULES {
        "Current kernel"@
    } else if entry_type == ENTRY_ACPI_NVS {
        "Reserved ACPI"@
    } else if entry_type == ENTRY_ACPI_RECLAIMABLE {
        "Reclaimable ACPI"@
    } else if entry_type == ENTRY_BAD_MEMORY {
        "Unusable memory (Bad or corrupted memory)"@
    } else {
        "Unknown"@
    }
}

/// One line of the memory map listing: the region's bounds, what it holds and
/// its size in whole MiB.
pub struct MemoryMapLine {
    pub start: u64,
    pub end: u64,
    pub description: &'static str,
    pub size_mib: u64,
}

/// The listing line for `entry`; reserved regions are left out of the listing.
pub fn describe_entry(entry: &MemoryMapEntry) -> (line: Option<MemoryMapLine>)
    requires
        entry.entry_type != ENTRY_RESERVED ==> entry.base + entry.length <= u64::MAX,
    ensures
        line is None <==> entry.entry_type == ENTRY_RESERVED,
        line matches Some(l) ==> {
            &&& l.start == entry.base
            &&& l.end == entry.base + entry.length
            &&& l.description@ == entry_type_name(entry.entry_type)
            &&& l.size_mib == entry.length / 1024 / 1024
        },
        line matches Some(l) ==> {
            &&& entry.entry_type == ENTRY_USABLE ==> l.description@ == "Free memory"@
            &&& entry.entry_type == ENTRY_FRAMEBUFFER ==> l.description@ == "VESA Framebuffer"@
            &&& entry.entry_type == ENTRY_EXECUTABLE_AND_MODULES ==> l.description@
                == "Current kernel"@
            &&& entry.entry_type == ENTRY_ACPI_NVS ==> l.description@ == "Reserved ACPI"@
            &&& entry.entry_type == ENTRY_ACPI_RECLAIMABLE ==> l.description@
                == "Reclaimable ACPI"@
            &&& entry.entry_type == ENTRY_BAD_MEMORY ==> l.description@
                == "Unusable memory (Bad or corrupted memory)"@
            &&& entry.entry_type == ENTRY_BOOTLOADER_RECLAIMABLE ==> l.description@ == "Unknown"@
            &&& entry.entry_type > ENTRY_FRAMEBUFFER ==> l.description@ == "Unknown"@
            &&& l.description@ == "Free memory"@ <==> entry.entry_type == ENTRY_USABLE
            &&& l.description@ == "Current kernel"@ <==> entry.entry_type
                == ENTRY_EXECUTABLE_AND_MODULES
        },
{
    if entry.entry_type == ENTRY_RESERVED {
        return None;
    }
    let description = if entry.entry_type == ENTRY_USABLE {
        "Free memory"
    } else if entry.entry_type == ENTRY_FRAMEBUFFER {
        "VESA Framebuffer"
    } else if entry.entry_type == ENTRY_EXECUTABLE_AND_MODULES {
        "Current kernel"
    } else if entry.entry_type == ENTRY_ACPI_NVS {
        "Reserved ACPI"
    } else if entry.entry_type == ENTRY_ACPI_RECLAIMABLE {
        "Reclaimable ACPI"
    } else if entry.entry_type == ENTRY_BAD_MEMORY {
        "Unusable memory (Bad or corrupted memory)"
    } else {
        "Unknown"
    };
    proof {
        reveal_strlit("Free memory");
        reveal_strlit("VESA Framebuffer");
        reveal_strlit("Current kernel");
        reveal_strlit("Reserved ACPI");
        reveal_strlit("Reclaimable ACPI");
        reveal_strlit("Unusable memory (Bad or corrupted memory)");
        reveal_strlit("Unknown");
        assert("Free memory"@.len() == 11);
        assert("Current kernel"@.len() == 14);
        assert("VESA Framebuffer"@.len() == 16);
        assert("Reserved ACPI"@.len() == 13);
        assert("Reclaimable ACPI"@.len() == 16);
        assert("Unknown"@.len() == 7);
    }
    Some(
        MemoryMapLine {
            start: entry.base,
            end: entry.base + entry.length,
            description,
            size_mib: entry.length / 1024 / 1024,
        },
    )
}

} // verus!
