use smp_boot::memory::{
    ElfSection, MemoryManager, MemoryMapEntry, MultibootTagElfSections, MultibootTagMemoryMap,
};
use smp_boot::phys_memory::PhysMemory;

fn usable(addr: u64, length: u64) -> MemoryMapEntry {
    MemoryMapEntry { addr, length, m_type: 1, reserved: 0 }
}

fn map_of(entries_address: usize, entries: Vec<MemoryMapEntry>) -> MultibootTagMemoryMap {
    MultibootTagMemoryMap {
        s_type: 6,
        size: 16 + 24 * entries.len() as u32,
        entry_size: 24,
        entry_version: 0,
        entries_address,
        entries,
    }
}

fn sections_of(sections: Vec<ElfSection>) -> MultibootTagElfSections {
    MultibootTagElfSections {
        s_type: 9,
        size: 20 + 64 * sections.len() as u32,
        num: sections.len() as u32,
        entsize: 64,
        shndx: 0,
        sections,
    }
}

fn section(flags: u64, addr: u64, size: u64) -> ElfSection {
    ElfSection {
        section_name: 0,
        section_type: 1,
        section_flags: flags,
        section_addr: addr,
        section_offset: 0,
        section_size: size,
        section_link: 0,
        section_info: 0,
        section_addralign: 16,
        section_entry_size: 0,
    }
}

fn manager_of(entries_address: usize, entries: Vec<MemoryMapEntry>) -> MemoryManager {
    MemoryManager::new(&map_of(entries_address, entries), &sections_of(vec![]))
}

fn overlap(a: usize, n: usize, b: usize, m: usize) -> bool {
    n > 0 && m > 0 && a < b + m && b < a + n
}

#[test]
fn three_pages_from_one_usable_entry() {
    let mut manager = manager_of(0x9000, vec![usable(0x100000, 0x100000)]);
    assert_eq!(manager.allocate(0x1000), Some(0x100000));
    assert_eq!(manager.allocate(0x1000), Some(0x101000));
    assert_eq!(manager.allocate(0x1000), Some(0x102000));
}

#[test]
fn empty_manager_is_exhausted() {
    let mut manager = MemoryManager::const_new();
    assert_eq!(manager.allocate(1), None);
    assert_eq!(manager.allocate(0), None);
    assert_eq!(manager.alloc_with_align(1, 16), None);
}

#[test]
fn allocation_skips_records_that_are_not_usable() {
    let reserved = MemoryMapEntry { addr: 0x1000, length: 0x10000, m_type: 2, reserved: 0 };
    let mut manager = manager_of(0x500, vec![reserved, usable(0x100000, 0x2000)]);
    assert_eq!(manager.allocate(0x1000), Some(0x100000));
}

#[test]
fn allocation_takes_the_first_record_that_is_large_enough() {
    let mut manager =
        manager_of(0x500, vec![usable(0x10000, 0x800), usable(0x20000, 0x4000), usable(0x40000, 0x4000)]);
    assert_eq!(manager.allocate(0x1000), Some(0x20000));
    assert_eq!(manager.allocate(0x800), Some(0x10000));
    assert_eq!(manager.allocate(0x3000), Some(0x21000));
    assert_eq!(manager.allocate(0x1000), Some(0x40000));
}

#[test]
fn allocation_fails_when_nothing_is_large_enough() {
    let mut manager = manager_of(0x500, vec![usable(0x10000, 0x800), usable(0x20000, 0x800)]);
    assert_eq!(manager.allocate(0x801), None);
    assert_eq!(manager.allocate(0x800), Some(0x10000));
    assert_eq!(manager.allocate(0x800), Some(0x20000));
    assert_eq!(manager.allocate(1), None);
}

#[test]
fn allocation_of_nothing_leaves_the_map_alone() {
    let mut manager = manager_of(0x500, vec![usable(0x10000, 0x1000)]);
    assert_eq!(manager.allocate(0), Some(0x10000));
    assert_eq!(manager.allocate(0x1000), Some(0x10000));
}

#[test]
fn allocation_steps_over_the_storage_of_the_map() {
    // Two records of 24 bytes each are stored at 0x10010, inside the first
    // bytes of the usable record.
    let mut manager = manager_of(0x10010, vec![usable(0x10000, 0x1000), usable(0x80000, 0x100)]);
    assert_eq!(manager.allocate(0x100), Some(0x10010 + 48));
    assert_eq!(manager.allocate(0x100), Some(0x10010 + 48 + 0x100));
    // What is left of the first record ends where it always ended.
    let left = 0x11000 - (0x10010 + 48 + 0x200);
    assert_eq!(manager.allocate(left + 1), None);
    assert_eq!(manager.allocate(left), Some(0x10010 + 48 + 0x200));
    assert_eq!(manager.allocate(1), Some(0x80000));
}

#[test]
fn allocation_passes_a_record_too_small_behind_the_storage() {
    let mut manager = manager_of(0x10010, vec![usable(0x10000, 0x100), usable(0x80000, 0x1000)]);
    // Behind the storage, which ends at 0x10040, 0xc0 bytes are left.
    assert_eq!(manager.allocate(0xc1), Some(0x80000));
    assert_eq!(manager.allocate(0xc0), Some(0x10040));
}

#[test]
fn record_behind_the_address_space_is_never_used() {
    let mut manager = manager_of(0x500, vec![usable(u64::MAX - 0x10, 0x1000), usable(0x1000, 0x100)]);
    assert_eq!(manager.allocate(0x10), Some(0x1000));
}

#[test]
fn reserve_cuts_the_front_of_the_holding_record() {
    let mut manager = manager_of(0x500, vec![usable(0x100000, 0x100000)]);
    manager.reserve(0x101000, 0x2000);
    assert_eq!(manager.allocate(0x1000), Some(0x103000));
    // The record now spans 0x103000..0x200000, less the page just taken.
    assert_eq!(manager.allocate(0x200000 - 0x104000 + 1), None);
    assert_eq!(manager.allocate(0x200000 - 0x104000), Some(0x104000));
}

#[test]
fn reserve_leaves_ranges_at_the_boundary_alone() {
    let mut manager = manager_of(0x500, vec![usable(0x100000, 0x100000)]);
    manager.reserve(0x100000, 0x1000);
    manager.reserve(0x1ff000, 0x1000);
    manager.reserve(0x0ff000, 0x2000);
    assert_eq!(manager.allocate(0x100000), Some(0x100000));
}

#[test]
fn reserve_touches_only_the_first_holder() {
    let mut manager = manager_of(0x500, vec![usable(0x100000, 0x10000), usable(0x100000, 0x10000)]);
    manager.reserve(0x104000, 0x1000);
    assert_eq!(manager.allocate(0x10000), Some(0x100000));
    assert_eq!(manager.allocate(0xb000), Some(0x105000));
}

#[test]
fn new_reserves_the_sections_that_occupy_memory() {
    let map = map_of(0x500, vec![usable(0x100000, 0x100000)]);
    let sections = sections_of(vec![
        section(0, 0x150000, 0x1000),
        section(2, 0x101000, 0x3000),
        section(6, 0x104000, 0x1000),
        section(1, 0x180000, 0x1000),
    ]);
    let mut manager = MemoryManager::new(&map, &sections);
    // 0x104000 is the record's own base after the first reservation, so the
    // second section is not strictly inside it and stays.
    assert_eq!(manager.allocate(0x1000), Some(0x104000));
}

#[test]
fn new_reserves_sections_one_after_another() {
    let map = map_of(0x500, vec![usable(0x100000, 0x100000)]);
    let sections = sections_of(vec![section(2, 0x101000, 0x3000), section(3, 0x105000, 0x2000)]);
    let mut manager = MemoryManager::new(&map, &sections);
    assert_eq!(manager.allocate(0x1000), Some(0x107000));
}

#[test]
fn aligned_allocation_returns_a_multiple_inside_the_record() {
    let mut manager = manager_of(0x500, vec![usable(0x100010, 0x10000)]);
    let address = manager.alloc_with_align(0x800, 0x1000).unwrap();
    assert_eq!(address, 0x101000);
    assert_eq!(address % 0x1000, 0);
    // 0x800 + 0x1000 bytes were taken from 0x100010 on.
    assert_eq!(manager.allocate(1), Some(0x100010 + 0x1800));
}

#[test]
fn aligned_allocation_moves_an_aligned_address_to_the_next_multiple() {
    let mut manager = manager_of(0x500, vec![usable(0x100000, 0x10000)]);
    assert_eq!(manager.alloc_with_align(0x8000, 0x10), Some(0x100010));
    assert_eq!(manager.allocate(1), Some(0x108010));
}

#[test]
fn aligned_allocation_keeps_address_zero() {
    let mut manager = manager_of(0x50000, vec![usable(0, 0x10000)]);
    assert_eq!(manager.alloc_with_align(0x100, 0x1000), Some(0));
    assert_eq!(manager.allocate(1), Some(0x1100));
}

#[test]
fn aligned_allocation_needs_room_for_the_slack() {
    let mut manager = manager_of(0x500, vec![usable(0x100000, 0x1800)]);
    assert_eq!(manager.alloc_with_align(0x801, 0x1000), None);
    assert_eq!(manager.alloc_with_align(0x800, 0x1000), Some(0x101000));
}

#[test]
fn aligned_allocation_takes_any_alignment() {
    let mut manager = manager_of(0x500, vec![usable(1000, 10000)]);
    let address = manager.alloc_with_align(10, 7).unwrap();
    assert_eq!(address, 1001);
    assert_eq!(address % 7, 0);
}

#[test]
fn aligned_allocation_of_a_size_that_cannot_exist_fails() {
    let mut manager = manager_of(0x500, vec![usable(0x1000, 0x1000)]);
    assert_eq!(manager.alloc_with_align(usize::MAX, 0x1000), None);
    assert_eq!(manager.allocate(0x1000), Some(0x1000));
}

#[test]
fn allocations_never_overlap_each_other_or_a_reserved_range() {
    let mut manager = manager_of(0x500, vec![usable(0x10000, 0x3000), usable(0x20000, 0x8000)]);
    manager.reserve(0x21000, 0x1000);
    let sizes = [0x100usize, 0x1000, 0x30, 0x2000, 0x800, 0x1000, 0x1000, 0x4000];
    let mut taken: Vec<(usize, usize)> = Vec::new();
    for size in sizes {
        if let Some(address) = manager.allocate(size) {
            assert!(!overlap(address, size, 0x21000, 0x1000));
            for (other, other_size) in &taken {
                assert!(!overlap(address, size, *other, *other_size));
            }
            let in_first = 0x10000 <= address && address + size <= 0x13000;
            let in_second = 0x20000 <= address && address + size <= 0x28000;
            assert!(in_first || in_second);
            taken.push((address, size));
        }
    }
    assert_eq!(taken.len(), 7);
}

#[test]
fn aligned_allocations_stay_inside_the_reported_record() {
    let mut manager = manager_of(0x500, vec![usable(0x10008, 0x4000)]);
    let mut count = 0;
    while let Some(address) = manager.alloc_with_align(0x300, 0x100) {
        assert_eq!(address % 0x100, 0);
        assert!(0x10008 <= address && address + 0x300 <= 0x14008);
        count += 1;
    }
    assert_eq!(count, 0x10);
}

#[test]
fn entry_is_decoded_from_its_24_bytes() {
    let mut bytes = vec![0u8; 30];
    bytes[3..11].copy_from_slice(&0x1122334455667788u64.to_le_bytes());
    bytes[11..19].copy_from_slice(&0x0000000100000000u64.to_le_bytes());
    bytes[19..23].copy_from_slice(&1u32.to_le_bytes());
    bytes[23..27].copy_from_slice(&0xdeadbeefu32.to_le_bytes());
    assert_eq!(
        MemoryMapEntry::decode(&bytes, 3),
        Some(MemoryMapEntry {
            addr: 0x1122334455667788,
            length: 0x100000000,
            m_type: 1,
            reserved: 0xdeadbeef
        })
    );
    assert_eq!(MemoryMapEntry::decode(&bytes, 7), None);
    assert_eq!(MemoryMapEntry::decode(&bytes, usize::MAX), None);
}

#[test]
fn entry_usable_tells_type_and_range() {
    assert!(usable(0x1000, 0x1000).usable());
    assert!(!MemoryMapEntry { addr: 0x1000, length: 0x1000, m_type: 3, reserved: 0 }.usable());
    assert!(!usable(u64::MAX, 1).usable());
    assert!(usable(u64::MAX - 1, 1).usable());
}

#[test]
fn section_is_decoded_from_its_64_bytes() {
    let mut bytes = vec![0u8; 64];
    bytes[0..4].copy_from_slice(&7u32.to_le_bytes());
    bytes[4..8].copy_from_slice(&1u32.to_le_bytes());
    bytes[8..16].copy_from_slice(&6u64.to_le_bytes());
    bytes[16..24].copy_from_slice(&0x100000u64.to_le_bytes());
    bytes[24..32].copy_from_slice(&0x1000u64.to_le_bytes());
    bytes[32..40].copy_from_slice(&0x2345u64.to_le_bytes());
    bytes[40..44].copy_from_slice(&3u32.to_le_bytes());
    bytes[44..48].copy_from_slice(&4u32.to_le_bytes());
    bytes[48..56].copy_from_slice(&16u64.to_le_bytes());
    bytes[56..64].copy_from_slice(&24u64.to_le_bytes());
    let decoded = ElfSection::decode(&bytes, 0).unwrap();
    assert_eq!(
        decoded,
        ElfSection {
            section_name: 7,
            section_type: 1,
            section_flags: 6,
            section_addr: 0x100000,
            section_offset: 0x1000,
            section_size: 0x2345,
            section_link: 3,
            section_info: 4,
            section_addralign: 16,
            section_entry_size: 24,
        }
    );
    assert!(decoded.is_allocated());
    assert!(!section(5, 0, 0).is_allocated());
    assert_eq!(ElfSection::decode(&bytes, 1), None);
}

fn memory_map_tag(size: u32, entry_size: u32, entries: &[MemoryMapEntry]) -> Vec<u8> {
    let mut bytes = Vec::new();
    bytes.extend_from_slice(&6u32.to_le_bytes());
    bytes.extend_from_slice(&size.to_le_bytes());
    bytes.extend_from_slice(&entry_size.to_le_bytes());
    bytes.extend_from_slice(&0u32.to_le_bytes());
    for entry in entries {
        bytes.extend_from_slice(&entry.addr.to_le_bytes());
        bytes.extend_from_slice(&entry.length.to_le_bytes());
        bytes.extend_from_slice(&entry.m_type.to_le_bytes());
        bytes.extend_from_slice(&entry.reserved.to_le_bytes());
    }
    bytes
}

#[test]
fn memory_map_tag_is_read_with_its_records() {
    let entries = [usable(0x100000, 0x100000), MemoryMapEntry { addr: 0, length: 0x1000, m_type: 2, reserved: 5 }];
    let bytes = memory_map_tag(16 + 48, 24, &entries);
    let mem = PhysMemory::new(0x8000, &bytes);
    let map = MultibootTagMemoryMap::read(&mem, 0x8000).unwrap();
    assert_eq!(map.s_type, 6);
    assert_eq!(map.size, 64);
    assert_eq!(map.entry_size, 24);
    assert_eq!(map.entry_version, 0);
    assert_eq!(map.entries_address, 0x8010);
    assert_eq!(map.entries, entries.to_vec());
}

#[test]
fn memory_map_tag_that_cannot_be_read_is_refused() {
    let entries = [usable(0x100000, 0x100000)];
    let good = memory_map_tag(16 + 24, 24, &entries);
    assert!(MultibootTagMemoryMap::read(&PhysMemory::new(0x8000, &good), 0x8000).is_some());
    assert!(MultibootTagMemoryMap::read(&PhysMemory::new(0x8000, &good), 0x8008).is_none());
    assert!(MultibootTagMemoryMap::read(&PhysMemory::new(0x8000, &good), 0x7000).is_none());
    let zero_entry_size = memory_map_tag(16 + 24, 0, &entries);
    assert!(MultibootTagMemoryMap::read(&PhysMemory::new(0x8000, &zero_entry_size), 0x8000).is_none());
    let short_size = memory_map_tag(15, 24, &entries);
    assert!(MultibootTagMemoryMap::read(&PhysMemory::new(0x8000, &short_size), 0x8000).is_none());
    let counts_too_many = memory_map_tag(16 + 48, 24, &entries);
    assert!(MultibootTagMemoryMap::read(&PhysMemory::new(0x8000, &counts_too_many), 0x8000).is_none());
    let header_only = memory_map_tag(16, 24, &[]);
    let empty = MultibootTagMemoryMap::read(&PhysMemory::new(0x8000, &header_only), 0x8000).unwrap();
    assert!(empty.entries.is_empty());
}

#[test]
fn section_list_tag_is_read_with_its_descriptors() {
    let mut bytes = Vec::new();
    for value in [9u32, 20 + 128, 2, 64, 1] {
        bytes.extend_from_slice(&value.to_le_bytes());
    }
    for (flags, addr, size) in [(2u64, 0x100000u64, 0x2000u64), (0, 0, 0x40)] {
        let mut descriptor = vec![0u8; 64];
        descriptor[8..16].copy_from_slice(&flags.to_le_bytes());
        descriptor[16..24].copy_from_slice(&addr.to_le_bytes());
        descriptor[32..40].copy_from_slice(&size.to_le_bytes());
        bytes.extend_from_slice(&descriptor);
    }
    let mem = PhysMemory::new(0x4000, &bytes);
    let list = MultibootTagElfSections::read(&mem, 0x4000).unwrap();
    assert_eq!((list.s_type, list.size, list.num, list.entsize, list.shndx), (9, 148, 2, 64, 1));
    assert_eq!(list.sections.len(), 2);
    assert_eq!(list.sections[0].section_flags, 2);
    assert_eq!(list.sections[0].section_addr, 0x100000);
    assert_eq!(list.sections[0].section_size, 0x2000);
    assert_eq!(list.sections[1].section_size, 0x40);
    let cut = PhysMemory::new(0x4000, &bytes[..bytes.len() - 1]);
    assert!(MultibootTagElfSections::read(&cut, 0x4000).is_none());
}
