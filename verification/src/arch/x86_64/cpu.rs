//! CPU identification: the feature flags that `cpuid` reports.
use vstd::prelude::*;

verus! {

/// The `cpuid` leaves the kernel knows of.
#[derive(Debug)]
pub enum CpuIdRequest {
    BasicFeatures,
    ExtendedFeatures,
}

impl CpuIdRequest {
    /// The value of `eax` that asks for this leaf.
    pub fn leaf(&self) -> (leaf: u32)
        ensures
            leaf == match self {
                CpuIdRequest::BasicFeatures => 0x01u32,
                CpuIdRequest::ExtendedFeatures => 0x07u32,
            },
    {
        match self {
            CpuIdRequest::BasicFeatures => 0x01,
            CpuIdRequest::ExtendedFeatures => 0x07,
        }
    }
}

/// Position of each register in the four registers `cpuid` returns.
pub enum CpuIdRegisterOrder {
    EAX,
    EBX,
    ECX,
    EDX,
}

impl CpuIdRegisterOrder {
    pub open spec fn spec_index(&self) -> usize {
        match self {
            CpuIdRegisterOrder::EAX => 0,
            CpuIdRegisterOrder::EBX => 1,
            CpuIdRegisterOrder::ECX => 2,
            CpuIdRegisterOrder::EDX => 3,
        }
    }

    pub fn index(&self) -> (i: usize)
        ensures
            i == self.spec_index(),
    {
        match self {
            CpuIdRegisterOrder::EAX => 0,
            CpuIdRegisterOrder::EBX => 1,
            CpuIdRegisterOrder::ECX => 2,
            CpuIdRegisterOrder::EDX => 3,
        }
    }
}

/// The basic feature flags: bits 0-31 are `edx`, bits 32-63 are `ecx` of leaf 1.
#[derive(Clone, Copy, PartialEq, Eq, Structural, Debug)]
pub struct BasicFeaturesFlags {
    pub bits: u64,
}

impl BasicFeaturesFlags {
    /* EDX */
    pub const FPU: u64 = 1;
    pub const VME: u64 = 1 << 1;
    pub const DE: u64 = 1 << 2;
    pub const PSE: u64 = 1 << 3;
    pub const TSC: u64 = 1 << 4;
    pub const MSR: u64 = 1 << 5;
    pub const PAE: u64 = 1 << 6;
    pub const MCE: u64 = 1 << 7;
    pub const CX8: u64 = 1 << 8;
    pub const APIC: u64 = 1 << 9;
    pub const SEP: u64 = 1 << 11;
    pub const MTRR: u64 = 1 << 12;
    pub const PGE: u64 = 1 << 13;
    pub const MCA: u64 = 1 << 14;
    pub const CMOV: u64 = 1 << 15;
    pub const PAT: u64 = 1 << 16;
    pub const PSE36: u64 = 1 << 17;
    pub const PSN: u64 = 1 << 18;
    pub const CLFLUSH: u64 = 1 << 19;
    pub const NX: u64 = 1 << 20;
    pub const DS: u64 = 1 << 21;
    pub const ACPI: u64 = 1 << 22;
    pub const MMX: u64 = 1 << 23;
    pub const FXSR: u64 = 1 << 24;
    pub const SSE: u64 = 1 << 25;
    pub const SSE2: u64 = 1 << 26;
    pub const SS: u64 = 1 << 27;
    pub const HTT: u64 = 1 << 28;
    pub const TM: u64 = 1 << 29;
    pub const IA64: u64 = 1 << 30;
    pub const PBE: u64 = 1 << 31;
    /* ECX */
    pub const SSE3: u64 = 1 << 32;
    pub const PCLMUL: u64 = 1 << 33;
    pub const DTES64: u64 = 1 << 34;
    pub const MONITOR: u64 = 1 << 35;
    pub const DS_CPL: u64 = 1 << 36;
    pub const VMX: u64 = 1 << 37;
    pub const SMX: u64 = 1 << 38;
    pub const EST: u64 = 1 << 39;
    pub const TM2: u64 = 1 << 40;
    pub const SSSE3: u64 = 1 << 41;
    pub const CID: u64 = 1 << 42;
    pub const SDBG: u64 = 1 << 43;
    pub const FMA: u64 = 1 << 44;
    pub const CX16: u64 = 1 << 45;
    pub const XTPR: u64 = 1 << 46;
    pub const PDCM: u64 = 1 << 47;
    pub const PCID: u64 = 1 << 49;
    pub const DCA: u64 = 1 << 50;
    pub const SSE4_1: u64 = 1 << 51;
    pub const SSE4_2: u64 = 1 << 52;
    pub const X2APIC: u64 = 1 << 53;
    pub const MOVBE: u64 = 1 << 54;
    pub const POPCNT: u64 = 1 << 55;
    pub const AES: u64 = 1 << 57;
    pub const XSAVE: u64 = 1 << 56;
    pub const OSXSAVE: u64 = 1 << 59;
    pub const AVX: u64 = 1 << 60;
    pub const F16C: u64 = 1 << 61;
    pub const RDRAND: u64 = 1 << 62;
    pub const HYPERVISOR: u64 = 1 << 63;

    /// Every flag above: all bits but 10, 48 and 58, which name no feature.
    pub const KNOWN: u64 = 0xFBFE_FFFF_FFFF_FBFF;

    /// The flags among `bits` that name a feature.
    pub fn from_bits_truncate(bits: u64) -> (flags: Self)
        ensures
            flags.bits == bits & Self::KNOWN,
    {
        BasicFeaturesFlags { bits: bits & Self::KNOWN }
    }

    pub fn empty() -> (flags: Self)
        ensures
            flags.bits == 0,
    {
        BasicFeaturesFlags { bits: 0 }
    }

    pub fn bits(&self) -> (bits: u64)
        ensures
            bits == self.bits,
    {
        self.bits
    }

    /// Whether every flag of `other` is set.
    pub fn contains(&self, other: u64) -> (yes: bool)
        ensures
            yes == (self.bits & other == other),
    {
        self.bits & other == other
    }
}

pub struct BasicFeatures {
    pub flags: BasicFeaturesFlags,
}

pub struct CpuInfo {
    pub basic_features: Option<BasicFeatures>,
}

/// The basic feature flags that leaf 1 of `cpuid` reports in `regs` (in
/// [`CpuIdRegisterOrder`]): `edx` in the low half, `ecx` in the high half.
pub open spec fn basic_feature_bits(regs: Seq<u32>) -> u64 {
    ((regs[3] + regs[2] * 0x1_0000_0000) as u64) & BasicFeaturesFlags::KNOWN
}

impl CpuInfo {
    pub fn new() -> (info: Self)
        ensures
            info.basic_features.is_none(),
    {
        CpuInfo { basic_features: None }
    }

    /// Records what `cpuid` answered to `request` in `regs`. Basic features are
    /// recorded; other leaves are not supported and leave `self` unchanged, which
    /// the result reports as `false`.
    pub fn record_response(&mut self, request: CpuIdRequest, regs: [u32; 4]) -> (supported: bool)
        ensures
            supported == (request is BasicFeatures),
            supported ==> final(self).basic_features == Some(
                BasicFeatures { flags: BasicFeaturesFlags { bits: basic_feature_bits(regs@) } },
            ),
            !supported ==> final(self).basic_features == old(self).basic_features,
    {
        match request {
            CpuIdRequest::BasicFeatures => {
                let edx = regs[CpuIdRegisterOrder::EDX.index()];
                let ecx = regs[CpuIdRegisterOrder::ECX.index()];
                proof {
                    assert(edx as u64 | ((ecx as u64) << 32u64) == (edx + ecx * 0x1_0000_0000) as u64)
                        by (bit_vector);
                }
                self.basic_features = Some(
                    BasicFeatures {
                        flags: BasicFeaturesFlags::from_bits_truncate(
                            edx as u64 | ((ecx as u64) << 32),
                        ),
                    },
                );
                true
            },
            _ => false,
        }
    }
}

/// Each feature bit that leaf 1 reports is recorded at its place: bit `k` of
/// the flags is bit `k` of `edx` for `k < 32` and bit `k - 32` of `ecx` above,
/// except bits 10, 48 and 58, which name no feature and are always clear.
pub proof fn lemma_basic_feature_bits(regs: Seq<u32>, k: u64)
    requires
        regs.len() == 4,
        k < 64,
    ensures
        ({
            let bit = (basic_feature_bits(regs) >> k) & 1;
            if k == 10 || k == 48 || k == 58 {
                bit == 0
            } else if k < 32 {
                bit == ((regs[3] >> k) & 1) as u64
            } else {
                bit == ((regs[2] >> ((k - 32) as u32)) & 1) as u64
            }
        }),
{
    let edx = regs[3];
    let ecx = regs[2];
    let flags = basic_feature_bits(regs);
    assert(flags == ((edx + ecx * 0x1_0000_0000) as u64) & 0xFBFE_FFFF_FFFF_FBFFu64);
    assert({
        let bit = (flags >> k) & 1;
        if k == 10 || k == 48 || k == 58 {
            bit == 0
        } else if k < 32 {
            bit == ((edx >> k) & 1) as u64
        } else {
            bit == ((ecx >> ((k - 32) as u32)) & 1) as u64
        }
    }) by (bit_vector)
        requires
            flags == ((edx + ecx * 0x1_0000_0000) as u64) & 0xFBFE_FFFF_FFFF_FBFFu64,
            k < 64,
    ;
}

/// `KNOWN` is exactly the union of the named feature flags.
pub proof fn lemma_known_is_union_of_flags()
    ensures
        BasicFeaturesFlags::KNOWN == BasicFeaturesFlags::FPU | BasicFeaturesFlags::VME | BasicFeaturesFlags::DE | BasicFeaturesFlags::PSE | BasicFeaturesFlags::TSC | BasicFeaturesFlags::MSR | BasicFeaturesFlags::PAE | BasicFeaturesFlags::MCE | BasicFeaturesFlags::CX8 | BasicFeaturesFlags::APIC | BasicFeaturesFlags::SEP | BasicFeaturesFlags::MTRR | BasicFeaturesFlags::PGE | BasicFeaturesFlags::MCA | BasicFeaturesFlags::CMOV | BasicFeaturesFlags::PAT | BasicFeaturesFlags::PSE36 | BasicFeaturesFlags::PSN | BasicFeaturesFlags::CLFLUSH | BasicFeaturesFlags::NX | BasicFeaturesFlags::DS | BasicFeaturesFlags::ACPI | BasicFeaturesFlags::MMX | BasicFeaturesFlags::FXSR | BasicFeaturesFlags::SSE | BasicFeaturesFlags::SSE2 | BasicFeaturesFlags::SS | BasicFeaturesFlags::HTT | BasicFeaturesFlags::TM | BasicFeaturesFlags::IA64 | BasicFeaturesFlags::PBE | BasicFeaturesFlags::SSE3 | BasicFeaturesFlags::PCLMUL | BasicFeaturesFlags::DTES64 | BasicFeaturesFlags::MONITOR | BasicFeaturesFlags::DS_CPL | BasicFeaturesFlags::VMX | BasicFeaturesFlags::SMX | BasicFeaturesFlags::EST | BasicFeaturesFlags::TM2 | BasicFeaturesFlags::SSSE3 | BasicFeaturesFlags::CID | BasicFeaturesFlags::SDBG | BasicFeaturesFlags::FMA | BasicFeaturesFlags::CX16 | BasicFeaturesFlags::XTPR | BasicFeaturesFlags::PDCM | BasicFeaturesFlags::PCID | BasicFeaturesFlags::DCA | BasicFeaturesFlags::SSE4_1 | BasicFeaturesFlags::SSE4_2 | BasicFeaturesFlags::X2APIC | BasicFeaturesFlags::MOVBE | BasicFeaturesFlags::POPCNT | BasicFeaturesFlags::AES | BasicFeaturesFlags::XSAVE | BasicFeaturesFlags::OSXSAVE | BasicFeaturesFlags::AVX | BasicFeaturesFlags::F16C | BasicFeaturesFlags::RDRAND | BasicFeaturesFlags::HYPERVISOR,
{
    assert(BasicFeaturesFlags::KNOWN == BasicFeaturesFlags::FPU | BasicFeaturesFlags::VME | BasicFeaturesFlags::DE | BasicFeaturesFlags::PSE | BasicFeaturesFlags::TSC | BasicFeaturesFlags::MSR | BasicFeaturesFlags::PAE | BasicFeaturesFlags::MCE | BasicFeaturesFlags::CX8 | BasicFeaturesFlags::APIC | BasicFeaturesFlags::SEP | BasicFeaturesFlags::MTRR | BasicFeaturesFlags::PGE | BasicFeaturesFlags::MCA | BasicFeaturesFlags::CMOV | BasicFeaturesFlags::PAT | BasicFeaturesFlags::PSE36 | BasicFeaturesFlags::PSN | BasicFeaturesFlags::CLFLUSH | BasicFeaturesFlags::NX | BasicFeaturesFlags::DS | BasicFeaturesFlags::ACPI | BasicFeaturesFlags::MMX | BasicFeaturesFlags::FXSR | BasicFeaturesFlags::SSE | BasicFeaturesFlags::SSE2 | BasicFeaturesFlags::SS | BasicFeaturesFlags::HTT | BasicFeaturesFlags::TM | BasicFeaturesFlags::IA64 | BasicFeaturesFlags::PBE | BasicFeaturesFlags::SSE3 | BasicFeaturesFlags::PCLMUL | BasicFeaturesFlags::DTES64 | BasicFeaturesFlags::MONITOR | BasicFeaturesFlags::DS_CPL | BasicFeaturesFlags::VMX | BasicFeaturesFlags::SMX | BasicFeaturesFlags::EST | BasicFeaturesFlags::TM2 | BasicFeaturesFlags::SSSE3 | BasicFeaturesFlags::CID | BasicFeaturesFlags::SDBG | BasicFeaturesFlags::FMA | BasicFeaturesFlags::CX16 | BasicFeaturesFlags::XTPR | BasicFeaturesFlags::PDCM | BasicFeaturesFlags::PCID | BasicFeaturesFlags::DCA | BasicFeaturesFlags::SSE4_1 | BasicFeaturesFlags::SSE4_2 | BasicFeaturesFlags::X2APIC | BasicFeaturesFlags::MOVBE | BasicFeaturesFlags::POPCNT | BasicFeaturesFlags::AES | BasicFeaturesFlags::XSAVE | BasicFeaturesFlags::OSXSAVE | BasicFeaturesFlags::AVX | BasicFeaturesFlags::F16C | BasicFeaturesFlags::RDRAND | BasicFeaturesFlags::HYPERVISOR) by (bit_vector);
}

} // verus!
