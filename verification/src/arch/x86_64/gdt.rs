//! The global descriptor table: segment descriptors and segment selectors.
use vstd::prelude::*;
use vstd::std_specs::convert::FromSpecImpl;
use vstd::std_specs::ops::BitOrSpecImpl;

verus! {

/// User mode CPU privilege level.
pub const CPL_RING_3: u8 = 0b11;

/// Kernel CPU privilege level.
pub const CPL_RING_0: u8 = 0b00;

/// The access byte of a segment descriptor.
#[derive(Clone, Copy, PartialEq, Eq, Structural, Debug)]
pub struct GdtAccessByte {
    pub bits: u8,
}

impl GdtAccessByte {
    pub fn empty() -> (a: Self)
        ensures
            a.bits == 0,
    {
        GdtAccessByte { bits: 0 }
    }

    pub fn accessed() -> (a: Self)
        ensures
            a.bits == 1,
    {
        GdtAccessByte { bits: 1 }
    }

    pub fn read_write() -> (a: Self)
        ensures
            a.bits == 0x02,
    {
        GdtAccessByte { bits: 0x02 }
    }

    pub fn direction_conforming() -> (a: Self)
        ensures
            a.bits == 0x04,
    {
        GdtAccessByte { bits: 0x04 }
    }

    pub fn executable() -> (a: Self)
        ensures
            a.bits == 0x08,
    {
        GdtAccessByte { bits: 0x08 }
    }

    pub fn descriptor_type() -> (a: Self)
        ensures
            a.bits == 0x10,
    {
        GdtAccessByte { bits: 0x10 }
    }

    pub fn user_mode_privilege() -> (a: Self)
        ensures
            a.bits == 0x60,
    {
        GdtAccessByte { bits: 0x60 }
    }

    pub fn kernel_privilege() -> (a: Self)
        ensures
            a.bits == 0x00,
    {
        GdtAccessByte { bits: 0x00 }
    }

    pub fn present() -> (a: Self)
        ensures
            a.bits == 0x80,
    {
        GdtAccessByte { bits: 0x80 }
    }

    pub fn bits(&self) -> (b: u8)
        ensures
            b == self.bits,
    {
        self.bits
    }
}

impl core::ops::BitOr for GdtAccessByte {
    type Output = GdtAccessByte;

    fn bitor(self, rhs: GdtAccessByte) -> (union: GdtAccessByte) {
        GdtAccessByte { bits: self.bits | rhs.bits }
    }
}

impl BitOrSpecImpl for GdtAccessByte {
    open spec fn obeys_bitor_spec() -> bool {
        true
    }

    open spec fn bitor_req(self, rhs: GdtAccessByte) -> bool {
        true
    }

    open spec fn bitor_spec(self, rhs: GdtAccessByte) -> GdtAccessByte {
        GdtAccessByte { bits: self.bits | rhs.bits }
    }
}

/// The flags nibble of a segment descriptor.
#[derive(Clone, Copy, PartialEq, Eq, Structural, Debug)]
pub struct GdtFlag {
    pub bits: u8,
}

impl GdtFlag {
    pub fn empty() -> (f: Self)
        ensures
            f.bits == 0,
    {
        GdtFlag { bits: 0 }
    }

    pub fn long_mode() -> (f: Self)
        ensures
            f.bits == 0x02,
    {
        GdtFlag { bits: 0x02 }
    }

    pub fn size() -> (f: Self)
        ensures
            f.bits == 0x04,
    {
        GdtFlag { bits: 0x04 }
    }

    pub fn granularity() -> (f: Self)
        ensures
            f.bits == 0x08,
    {
        GdtFlag { bits: 0x08 }
    }

    pub fn bits(&self) -> (b: u8)
        ensures
            b == self.bits,
    {
        self.bits
    }
}

impl core::ops::BitOr for GdtFlag {
    type Output = GdtFlag;

    fn bitor(self, rhs: GdtFlag) -> (union: GdtFlag) {
        GdtFlag { bits: self.bits | rhs.bits }
    }
}

impl BitOrSpecImpl for GdtFlag {
    open spec fn obeys_bitor_spec() -> bool {
        true
    }

    open spec fn bitor_req(self, rhs: GdtFlag) -> bool {
        true
    }

    open spec fn bitor_spec(self, rhs: GdtFlag) -> GdtFlag {
        GdtFlag { bits: self.bits | rhs.bits }
    }
}

pub struct GdtSegmentDescriptor {
    pub limit: u32,
    pub base: u32,
    pub flags: GdtFlag,
    pub access: GdtAccessByte,
}

/// The 64-bit x86 segment descriptor with the given fields: limit bits 0-15,
/// base bits 0-23, the access byte, limit bits 16-19, the flags nibble and
/// base bits 24-31, from the least significant bit up.
pub open spec fn segment_descriptor(base: u32, limit: u32, flags: u8, access: u8) -> int {
    (limit % 0x1_0000) + (base % 0x100_0000) * 0x1_0000 + access * 0x100_0000_0000 + ((limit
        / 0x1_0000) % 0x10) * 0x1_0000_0000_0000 + (flags % 0x10) * 0x10_0000_0000_0000 + (base
        / 0x100_0000) * 0x100_0000_0000_0000
}

impl GdtSegmentDescriptor {
    pub open spec fn encoding(self) -> u64 {
        segment_descriptor(self.base, self.limit, self.flags.bits, self.access.bits) as u64
    }
}

proof fn lemma_pack_segment(base: u32, limit: u32, flags: u8, access: u8)
    ensures
        ((base as u64 & 0xFF00_0000) << 32u64) | ((flags as u64 & 0xF) << 52u64) | ((limit as u64
            & 0xF_0000) << 32u64) | ((access as u64 & 0xFF) << 40u64) | ((base as u64 & 0xFF_0000)
            << 16u64) | ((base as u64 & 0x00_FFFF) << 16u64) | (limit as u64 & 0xFFFF)
            == segment_descriptor(base, limit, flags, access),
{
    assert(((base as u64 & 0xFF00_0000) << 32u64) | ((flags as u64 & 0xF) << 52u64) | ((limit as u64
        & 0xF_0000) << 32u64) | ((access as u64 & 0xFF) << 40u64) | ((base as u64 & 0xFF_0000)
        << 16u64) | ((base as u64 & 0x00_FFFF) << 16u64) | (limit as u64 & 0xFFFF) == (limit
        % 0x1_0000) + (base % 0x100_0000) * 0x1_0000 + access * 0x100_0000_0000 + ((limit
        / 0x1_0000) % 0x10) * 0x1_0000_0000_0000 + (flags % 0x10) * 0x10_0000_0000_0000 + (base
        / 0x100_0000) * 0x100_0000_0000_0000) by (bit_vector);
}

impl From<GdtSegmentDescriptor> for u64 {
    fn from(desc: GdtSegmentDescriptor) -> (ret: u64) {
        let mut ret: u64 = 0;
        ret = ret | ((desc.base as u64 & 0xFF00_0000) << 32);
        ret = ret | ((desc.flags.bits() as u64 & 0xF) << 52);
        ret = ret | ((desc.limit as u64 & 0xF_0000) << 32);
        ret = ret | ((desc.access.bits() as u64 & 0xFF) << 40);
        ret = ret | ((desc.base as u64 & 0xFF_0000) << 16);
        ret = ret | ((desc.base as u64 & 0x00_FFFF) << 16);
        ret = ret | (desc.limit as u64 & 0xFFFF);
        proof {
            lemma_pack_segment(desc.base, desc.limit, desc.flags.bits, desc.access.bits);
            let (b, f, l, a) = (desc.base as u64, desc.flags.bits as u64, desc.limit as u64, desc.access.bits as u64);
            assert(0u64 | ((b & 0xFF00_0000) << 32u64) | ((f & 0xF) << 52u64) | ((l & 0xF_0000) << 32u64)
                | ((a & 0xFF) << 40u64) | ((b & 0xFF_0000) << 16u64) | ((b & 0x00_FFFF) << 16u64) | (l
                & 0xFFFF) == ((b & 0xFF00_0000) << 32u64) | ((f & 0xF) << 52u64) | ((l & 0xF_0000)
                << 32u64) | ((a & 0xFF) << 40u64) | ((b & 0xFF_0000) << 16u64) | ((b & 0x00_FFFF)
                << 16u64) | (l & 0xFFFF)) by (bit_vector);
        }
        ret
    }
}

impl FromSpecImpl<GdtSegmentDescriptor> for u64 {
    open spec fn obeys_from_spec() -> bool {
        true
    }

    open spec fn from_spec(desc: GdtSegmentDescriptor) -> u64 {
        desc.encoding()
    }
}

/// The register image that `lgdt` loads: the table's size in bytes minus one,
/// and its address.
pub struct GdtDescriptor {
    pub size: u16,
    pub gdt: u64,
}

impl GdtDescriptor {
    /// The register image for a table of `entries` descriptors at address `gdt`.
    pub fn new(gdt: u64, entries: usize) -> (desc: Self)
        requires
            1 <= entries,
            entries * 8 <= usize::MAX,
        ensures
            desc.gdt == gdt,
            desc.size == (entries * 8 - 1) as u16,
    {
        GdtDescriptor { gdt, size: (entries * 8 - 1) as u16 }
    }
}

/// The descriptors the kernel loads, in table order.
pub open spec fn kernel_gdt() -> Seq<u64> {
    seq![
        segment_descriptor(0, 0, 0, 0) as u64,
        segment_descriptor(0, 0xFFFFF, 0x08u8 | 0x02u8, 0x80u8 | 0x00u8 | 0x10u8 | 0x08u8 | 0x01u8) as u64,
        segment_descriptor(0, 0xFFFFF, 0x08u8 | 0x04u8, 0x80u8 | 0x00u8 | 0x10u8 | 0x02u8 | 0x01u8) as u64,
        segment_descriptor(0, 0xFFFFF, 0x08u8 | 0x02u8, 0x80u8 | 0x60u8 | 0x10u8 | 0x08u8 | 0x01u8) as u64,
        segment_descriptor(0, 0xFFFFF, 0x08u8 | 0x04u8, 0x80u8 | 0x60u8 | 0x10u8 | 0x02u8 | 0x01u8) as u64,
    ]
}

/// The global descriptor table of the kernel: the null descriptor, then flat
/// 4 GiB code and data segments for kernel mode and then for user mode. Code
/// segments are 64-bit; all use page granularity.
pub fn gdt_entries() -> (table: [u64; 5])
    ensures
        table@ == kernel_gdt(),
        table@ == seq![
            0u64,
            0x00AF_9900_0000_FFFFu64,
            0x00CF_9300_0000_FFFFu64,
            0x00AF_F900_0000_FFFFu64,
            0x00CF_F300_0000_FFFFu64,
        ],
{
    let null: u64 = GdtSegmentDescriptor {
        base: 0,
        limit: 0,
        access: GdtAccessByte::empty(),
        flags: GdtFlag::empty(),
    }.into();
    let kernel_code: u64 = GdtSegmentDescriptor {
        base: 0,
        limit: 0xFFFFF,
        access: GdtAccessByte::present() | GdtAccessByte::kernel_privilege()
            | GdtAccessByte::descriptor_type() | GdtAccessByte::executable()
            | GdtAccessByte::accessed(),
        flags: GdtFlag::granularity() | GdtFlag::long_mode(),
    }.into();
    let kernel_data: u64 = GdtSegmentDescriptor {
        base: 0,
        limit: 0xFFFFF,
        access: GdtAccessByte::present() | GdtAccessByte::kernel_privilege()
            | GdtAccessByte::descriptor_type() | GdtAccessByte::read_write()
            | GdtAccessByte::accessed(),
        flags: GdtFlag::granularity() | GdtFlag::size(),
    }.into();
    let user_code: u64 = GdtSegmentDescriptor {
        base: 0,
        limit: 0xFFFFF,
        access: GdtAccessByte::present() | GdtAccessByte::user_mode_privilege()
            | GdtAccessByte::descriptor_type() | GdtAccessByte::executable()
            | GdtAccessByte::accessed(),
        flags: GdtFlag::granularity() | GdtFlag::long_mode(),
    }.into();
    let user_data: u64 = GdtSegmentDescriptor {
        base: 0,
        limit: 0xFFFFF,
        access: GdtAccessByte::present() | GdtAccessByte::user_mode_privilege()
            | GdtAccessByte::descriptor_type() | GdtAccessByte::read_write()
            | GdtAccessByte::accessed(),
        flags: GdtFlag::granularity() | GdtFlag::size(),
    }.into();
    proof {
        assert(0x80u8 | 0x00u8 | 0x10u8 | 0x08u8 | 0x01u8 == 0x99u8) by (bit_vector);
        assert(0x80u8 | 0x00u8 | 0x10u8 | 0x02u8 | 0x01u8 == 0x93u8) by (bit_vector);
        assert(0x80u8 | 0x60u8 | 0x10u8 | 0x08u8 | 0x01u8 == 0xF9u8) by (bit_vector);
        assert(0x80u8 | 0x60u8 | 0x10u8 | 0x02u8 | 0x01u8 == 0xF3u8) by (bit_vector);
        assert(0x08u8 | 0x02u8 == 0x0Au8) by (bit_vector);
        assert(0x08u8 | 0x04u8 == 0x0Cu8) by (bit_vector);
    }
    let table = [null, kernel_code, kernel_data, user_code, user_data];
    assert(table@ =~= kernel_gdt());
    table
}

/// A segment selector: the index of a descriptor, whether it is in the global
/// (rather than a local) descriptor table, and the requested privilege level.
pub struct SegmentSelector {
    pub global_descriptor_table: bool,
    pub index: u16,
    pub requested_privilege: u8,
}

/// The 16-bit selector value: requested privilege level in bits 0-1, the table
/// indicator in bit 2 (set for a local table), the index in bits 3-15.
pub open spec fn selector_value(global: bool, index: u16, rpl: u8) -> u16 {
    ((rpl % 4) + (if global {
        0int
    } else {
        4int
    }) + (index % 0x2000) * 8) as u16
}

impl From<SegmentSelector> for u16 {
    fn from(selector: SegmentSelector) -> (value: u16) {
        let table: u16 = if selector.global_descriptor_table {
            0
        } else {
            1
        };
        let index = selector.index;
        let rpl = selector.requested_privilege;
        proof {
            assert((index << 3u16) | (table << 2u16) | ((rpl & 3u8) as u16) == ((rpl % 4) + table
                * 4 + (index % 0x2000) * 8) as u16) by (bit_vector)
                requires
                    table == 0 || table == 1,
            ;
        }
        (index << 3) | (table << 2) | ((rpl & 3) as u16)
    }
}

impl FromSpecImpl<SegmentSelector> for u16 {
    open spec fn obeys_from_spec() -> bool {
        true
    }

    open spec fn from_spec(selector: SegmentSelector) -> u16 {
        selector_value(
            selector.global_descriptor_table,
            selector.index,
            selector.requested_privilege,
        )
    }
}

/// A segment descriptor gives back what it was made of: the 32-bit base, the
/// low 20 bits of the limit, the access byte and the low four bits of the flags
/// can each be read from their bit fields of the 64-bit value.
pub proof fn lemma_segment_descriptor_fields(base: u32, limit: u32, flags: u8, access: u8)
    ensures
        ({
            let d = segment_descriptor(base, limit, flags, access) as u64;
            &&& (((d >> 16u64) & 0xFF_FFFF) | ((d >> 56u64) << 24u64)) == base as u64
            &&& ((d & 0xFFFF) | (((d >> 48u64) & 0xF) << 16u64)) == (limit & 0xF_FFFF) as u64
            &&& (d >> 40u64) & 0xFF == access as u64
            &&& (d >> 52u64) & 0xF == (flags & 0xF) as u64
        }),
{
    let d = segment_descriptor(base, limit, flags, access) as u64;
    assert({
        &&& (((d >> 16u64) & 0xFF_FFFF) | ((d >> 56u64) << 24u64)) == base as u64
        &&& ((d & 0xFFFF) | (((d >> 48u64) & 0xF) << 16u64)) == (limit & 0xF_FFFF) as u64
        &&& (d >> 40u64) & 0xFF == access as u64
        &&& (d >> 52u64) & 0xF == (flags & 0xF) as u64
    }) by (bit_vector)
        requires
            d == ((limit % 0x1_0000) + (base % 0x100_0000) * 0x1_0000 + access * 0x100_0000_0000
                + ((limit / 0x1_0000) % 0x10) * 0x1_0000_0000_0000 + (flags % 0x10)
                * 0x10_0000_0000_0000 + (base / 0x100_0000) * 0x100_0000_0000_0000) as u64,
    ;
}

/// A selector gives back its requested privilege level (two bits), its table
/// indicator and its 13-bit index.
pub proof fn lemma_selector_fields(global: bool, index: u16, rpl: u8)
    ensures
        ({
            let v = selector_value(global, index, rpl);
            &&& v & 3 == (rpl & 3) as u16
            &&& (v >> 2u16) & 1 == if global {
                0u16
            } else {
                1u16
            }
            &&& v >> 3u16 == index & 0x1FFF
        }),
{
    let t: u16 = if global {
        0
    } else {
        1
    };
    let v = selector_value(global, index, rpl);
    assert(v & 3 == (rpl & 3) as u16 && (v >> 2u16) & 1 == t && v >> 3u16 == index & 0x1FFF)
        by (bit_vector)
        requires
            t == 0 || t == 1,
            v == ((rpl % 4) + t * 4 + (index % 0x2000) * 8) as u16,
    ;
}

} // verus!
