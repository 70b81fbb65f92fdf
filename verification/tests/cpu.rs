use krabos::arch::x86_64::cpu::{
    BasicFeaturesFlags, CpuIdRegisterOrder, CpuIdRequest, CpuInfo,
};

#[test]
fn new_cpu_info_is_empty() {
    assert!(CpuInfo::new().basic_features.is_none());
}

#[test]
fn basic_features_are_recorded() {
    let mut info = CpuInfo::new();
    // eax, ebx, ecx, edx; edx has APIC (bit 9) and the unnamed bit 10 set,
    // ecx has SSE3 (bit 0) and HYPERVISOR (bit 31).
    let regs: [u32; 4] = [0x000806EC, 0, 0x8000_0001, 0x0000_0600];
    assert!(info.record_response(CpuIdRequest::BasicFeatures, regs));
    let flags = info.basic_features.as_ref().unwrap().flags;
    assert_eq!(flags.bits(), 0x8000_0001_0000_0200);
    assert!(flags.contains(BasicFeaturesFlags::APIC));
    assert!(flags.contains(BasicFeaturesFlags::SSE3 | BasicFeaturesFlags::HYPERVISOR));
    assert!(!flags.contains(BasicFeaturesFlags::FPU));
}

#[test]
fn extended_features_are_not_supported() {
    let mut info = CpuInfo::new();
    assert!(!info.record_response(CpuIdRequest::ExtendedFeatures, [1, 2, 3, 4]));
    assert!(info.basic_features.is_none());
}

#[test]
fn truncation_keeps_named_flags() {
    assert_eq!(BasicFeaturesFlags::from_bits_truncate(u64::MAX).bits(), BasicFeaturesFlags::KNOWN);
    assert_eq!(BasicFeaturesFlags::from_bits_truncate(1 << 10).bits(), 0);
    assert_eq!(BasicFeaturesFlags::from_bits_truncate(1 << 48).bits(), 0);
    assert_eq!(BasicFeaturesFlags::from_bits_truncate(1 << 58).bits(), 0);
    assert_eq!(BasicFeaturesFlags::empty().bits(), 0);
}

#[test]
fn leaves_and_register_order() {
    assert_eq!(CpuIdRequest::BasicFeatures.leaf(), 1);
    assert_eq!(CpuIdRequest::ExtendedFeatures.leaf(), 7);
    assert_eq!(CpuIdRegisterOrder::EAX.index(), 0);
    assert_eq!(CpuIdRegisterOrder::EBX.index(), 1);
    assert_eq!(CpuIdRegisterOrder::ECX.index(), 2);
    assert_eq!(CpuIdRegisterOrder::EDX.index(), 3);
}
