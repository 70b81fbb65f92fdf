use krabos::generic::memory::pfa::PageFrameAllocator;
use krabos::generic::memory::{
    describe_entry, MemoryMapEntry, ENTRY_ACPI_NVS, ENTRY_BAD_MEMORY, ENTRY_FRAMEBUFFER,
    ENTRY_RESERVED, ENTRY_USABLE,
};

fn entry(base: u64, length: u64, entry_type: u64) -> MemoryMapEntry {
    MemoryMapEntry { base, length, entry_type }
}

fn sample_map() -> Vec<MemoryMapEntry> {
    vec![
        entry(0x10_0000, 0x3000, ENTRY_USABLE),
        // Below 64 KiB: never handed out.
        entry(0x1000, 0x1_0000, ENTRY_USABLE),
        // Not a whole number of frames: the partial frame counts.
        entry(0x20_0000, 0x1800, ENTRY_USABLE),
        entry(0x30_0000, 0x2000, ENTRY_RESERVED),
        // Shorter than a frame.
        entry(0x40_0000, 0x800, ENTRY_USABLE),
    ]
}

#[test]
fn frames_in_map_order() {
    let map = sample_map();
    assert!(PageFrameAllocator::accepts(&map, 4096));
    let mut pfa = PageFrameAllocator::new(map, 4096);
    assert_eq!(pfa.size(), 5 * 4096);
    let frames: Vec<u64> = (0..5).map(|_| pfa.allocate()).collect();
    assert_eq!(frames, vec![0x10_0000, 0x10_1000, 0x10_2000, 0x20_0000, 0x20_1000]);
}

#[test]
fn size_counts_whole_frames_times_frame_size() {
    let map = vec![entry(0x20_0000, 0x10_0000, ENTRY_USABLE)];
    let pfa = PageFrameAllocator::new(map, 0x20_0000);
    // A region shorter than one frame is not used.
    assert_eq!(pfa.size(), 0);
    let map = vec![entry(0x20_0000, 0x30_0000, ENTRY_USABLE)];
    let pfa = PageFrameAllocator::new(map, 0x20_0000);
    assert_eq!(pfa.size(), 2 * 0x20_0000);
}

#[test]
fn empty_map() {
    let pfa = PageFrameAllocator::new(Vec::new(), 4096);
    assert_eq!(pfa.size(), 0);
}

#[test]
fn accepts_rejects_unusable_settings() {
    assert!(!PageFrameAllocator::accepts(&sample_map(), 0));
    let overflowing = vec![entry(u64::MAX - 0x100, 0x2000, ENTRY_USABLE)];
    assert!(!PageFrameAllocator::accepts(&overflowing, 4096));
    // A reserved region may run to the end of the address space.
    let reserved = vec![entry(u64::MAX - 0x100, 0x2000, ENTRY_RESERVED)];
    assert!(PageFrameAllocator::accepts(&reserved, 4096));
    // Frame count times frame size must fit in a usize.
    let half = entry(0x1_0000_0000, 0x8000_0000_0000_0000, ENTRY_USABLE);
    assert!(PageFrameAllocator::accepts(&vec![half], 1));
    assert!(!PageFrameAllocator::accepts(&vec![half, half], 1));
}

#[test]
fn memory_map_listing() {
    assert!(describe_entry(&entry(0x1000, 0x2000, ENTRY_RESERVED)).is_none());
    let line = describe_entry(&entry(0x10_0000, 0x30_0000, ENTRY_USABLE)).unwrap();
    assert_eq!(line.start, 0x10_0000);
    assert_eq!(line.end, 0x40_0000);
    assert_eq!(line.description, "Free memory");
    assert_eq!(line.size_mib, 3);
    assert_eq!(
        describe_entry(&entry(0, 0x8_0000, ENTRY_FRAMEBUFFER)).unwrap().description,
        "VESA Framebuffer"
    );
    assert_eq!(
        describe_entry(&entry(0, 1, ENTRY_ACPI_NVS)).unwrap().description,
        "Reserved ACPI"
    );
    assert_eq!(
        describe_entry(&entry(0, 1, ENTRY_BAD_MEMORY)).unwrap().description,
        "Unusable memory (Bad or corrupted memory)"
    );
    assert_eq!(describe_entry(&entry(0, 1, 5)).unwrap().description, "Unknown");
    assert_eq!(describe_entry(&entry(0, 1, 99)).unwrap().description, "Unknown");
    assert_eq!(describe_entry(&entry(0, 0x1F_FFFF, ENTRY_USABLE)).unwrap().size_mib, 1);
}

#[test]
fn frames_are_distinct_and_inside_usable_regions() {
    let map = vec![
        entry(0x10_0000, 0x8000, ENTRY_USABLE),
        entry(0x20_0000, 0x4000, ENTRY_USABLE),
        entry(0x30_0000, 0x4000, ENTRY_BAD_MEMORY),
    ];
    let mut pfa = PageFrameAllocator::new(map.clone(), 4096);
    let count = pfa.size() / 4096;
    assert_eq!(count, 12);
    let frames: Vec<u64> = (0..count).map(|_| pfa.allocate()).collect();
    for (i, a) in frames.iter().enumerate() {
        for b in &frames[i + 1..] {
            assert_ne!(a, b);
        }
        assert!(map[..2]
            .iter()
            .any(|e| e.base <= *a && *a < e.base + e.length && (*a - e.base) % 4096 == 0));
    }
}
