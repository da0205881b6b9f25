use security_monitor::error::Error;
use security_monitor::memory::{
    MemoryLayout, MemoryTracker, NonConfidentialMemory, NonConfidentialMemoryAddress, SharedPage,
};
use security_monitor::mmu::page_table_entry::{PageTableConfiguration, PageTablePermission};
use security_monitor::mmu::{ConfidentialVmVirtualAddress, PagingSystem, RootPageTable, Translation};
use security_monitor::transformations::SharePageRequest;

const NON_CONFIDENTIAL_START: u64 = 0x8000_0000;
const CONFIDENTIAL_START: u64 = 0xA000_0000;
const CONFIDENTIAL_END: u64 = 0xA010_0000;
const ROOT: u64 = 0x8000_0000;
const VALID: u64 = 0x1;
const LEAF_BITS: u64 = 0xDF;

fn layout() -> MemoryLayout {
    MemoryLayout::new(NON_CONFIDENTIAL_START, CONFIDENTIAL_START, CONFIDENTIAL_START, CONFIDENTIAL_END).unwrap()
}

fn pointer_to(address: u64) -> u64 {
    ((address >> 12) << 10) | VALID
}

fn leaf_to(address: u64) -> u64 {
    ((address >> 12) << 10) | LEAF_BITS
}

/// Page tables of the hypervisor that map the guest-physical address
/// 0x4000_0000 to the page at 0x8100_0000, which holds 0xAB in every byte.
fn hypervisor_memory() -> NonConfidentialMemory {
    let mut memory = NonConfidentialMemory::new();
    memory.write_word(ROOT, pointer_to(0x8001_0000));
    memory.write_word(0x8001_0000, pointer_to(0x8002_0000));
    memory.write_word(0x8002_0000 + 8, pointer_to(0x8003_0000));
    memory.write_word(0x8003_0000, pointer_to(0x8004_0000));
    memory.write_word(0x8004_0000, leaf_to(0x8100_0000));
    for index in 0..512u64 {
        memory.write_word(0x8100_0000 + 8 * index, 0xABAB_ABAB_ABAB_ABAB);
    }
    memory
}

fn copy(memory: &NonConfidentialMemory, tracker: &mut MemoryTracker) -> Result<RootPageTable, Error> {
    let address = NonConfidentialMemoryAddress::new(ROOT, &layout()).unwrap();
    RootPageTable::copy_from_non_confidential_memory(address, PagingSystem::Sv57x4, memory, tracker)
}

fn shared_page(hypervisor_address: u64, guest_address: u64) -> SharedPage {
    SharedPage::new(hypervisor_address, SharePageRequest::new(guest_address).unwrap(), &layout()).unwrap()
}

#[test]
fn copied_tree_holds_the_content_of_the_hypervisor_page() {
    let memory = hypervisor_memory();
    let mut tracker = MemoryTracker::new(layout()).unwrap();
    assert_eq!(tracker.number_of_free_frames(), 256);
    let root = copy(&memory, &mut tracker).unwrap();
    // four frames for the root table, one for each of the four tables below, one for the page
    assert_eq!(tracker.number_of_free_frames(), 256 - 9);
    assert_eq!(root.address().as_u64(), CONFIDENTIAL_START);

    match root.translate(ConfidentialVmVirtualAddress(0x4000_0000), &layout()) {
        Translation::Confidential { address, word, permission, configuration } => {
            assert!(CONFIDENTIAL_START <= address && address < CONFIDENTIAL_END);
            assert_eq!(word & 0xff, 0xAB);
            assert_eq!(word, 0xABAB_ABAB_ABAB_ABAB);
            assert_eq!(permission, PageTablePermission { can_read: true, can_write: true, can_execute: true });
            assert!(configuration.is_accessible_to_user);
        }
        other => panic!("not mapped to confidential memory: {:?}", other),
    }
    assert_eq!(root.translate(ConfidentialVmVirtualAddress(0x4000_0ff8), &layout()).clone(), {
        match root.translate(ConfidentialVmVirtualAddress(0x4000_0000), &layout()) {
            Translation::Confidential { address, word, permission, configuration } => {
                Translation::Confidential { address: address + 0xff8, word, permission, configuration }
            }
            other => other,
        }
    });
    assert_eq!(root.translate(ConfidentialVmVirtualAddress(0x4000_1000), &layout()), Translation::NotMapped);

    root.release(&mut tracker);
    assert_eq!(tracker.number_of_free_frames(), 256);
}

#[test]
fn shared_page_is_mapped_and_mapped_again() {
    let memory = hypervisor_memory();
    let mut tracker = MemoryTracker::new(layout()).unwrap();
    let mut root = copy(&memory, &mut tracker).unwrap();
    let before = tracker.number_of_free_frames();

    root.map_shared_page(&shared_page(0x9000_0000, 0x5000_0000), &mut tracker).unwrap();
    let expected = Translation::Shared {
        page: 0x9000_0000,
        permission: PageTablePermission { can_read: true, can_write: true, can_execute: false },
        configuration: PageTableConfiguration {
            is_accessible_to_user: true,
            was_accessed: true,
            is_global_mapping: false,
            is_dirty: true,
        },
    };
    assert_eq!(root.translate(ConfidentialVmVirtualAddress(0x5000_0000), &layout()), expected);
    // 0x5000_0000 shares the tables of levels 5 to 2 with 0x4000_0000: one table was missing
    assert_eq!(tracker.number_of_free_frames(), before - 1);
    let after_first = tracker.number_of_free_frames();

    root.map_shared_page(&shared_page(0x9100_0000, 0x5000_0000), &mut tracker).unwrap();
    match root.translate(ConfidentialVmVirtualAddress(0x5000_0000), &layout()) {
        Translation::Shared { page, .. } => assert_eq!(page, 0x9100_0000),
        other => panic!("not shared: {:?}", other),
    }
    assert_eq!(tracker.number_of_free_frames(), after_first);
    // the private mapping beside it is untouched
    match root.translate(ConfidentialVmVirtualAddress(0x4000_0000), &layout()) {
        Translation::Confidential { word, .. } => assert_eq!(word, 0xABAB_ABAB_ABAB_ABAB),
        other => panic!("not mapped to confidential memory: {:?}", other),
    }
}

#[test]
fn sharing_a_private_page_returns_it_to_the_pool() {
    let memory = hypervisor_memory();
    let mut tracker = MemoryTracker::new(layout()).unwrap();
    let mut root = copy(&memory, &mut tracker).unwrap();
    let before = tracker.number_of_free_frames();
    root.map_shared_page(&shared_page(0x9000_0000, 0x4000_0000), &mut tracker).unwrap();
    assert_eq!(tracker.number_of_free_frames(), before + 1);
    match root.translate(ConfidentialVmVirtualAddress(0x4000_0000), &layout()) {
        Translation::Shared { page, .. } => assert_eq!(page, 0x9000_0000),
        other => panic!("not shared: {:?}", other),
    }
}

#[test]
fn pointer_in_a_table_of_the_lowest_level_is_refused() {
    let mut memory = hypervisor_memory();
    memory.write_word(0x8004_0000 + 8, pointer_to(0x8005_0000));
    let mut tracker = MemoryTracker::new(layout()).unwrap();
    assert_eq!(copy(&memory, &mut tracker).err(), Some(Error::PageTableCorrupted()));
    assert_eq!(tracker.number_of_free_frames(), 256);
}

#[test]
fn leaf_outside_of_non_confidential_memory_is_refused() {
    let mut memory = hypervisor_memory();
    memory.write_word(0x8004_0000 + 16, leaf_to(CONFIDENTIAL_START));
    let mut tracker = MemoryTracker::new(layout()).unwrap();
    assert_eq!(copy(&memory, &mut tracker).err(), Some(Error::PageTableCorrupted()));
    assert_eq!(tracker.number_of_free_frames(), 256);
}

#[test]
fn copy_fails_when_the_pool_is_too_small() {
    let memory = hypervisor_memory();
    let small = MemoryLayout::new(NON_CONFIDENTIAL_START, CONFIDENTIAL_START, CONFIDENTIAL_START, CONFIDENTIAL_START + 0x8000).unwrap();
    let mut tracker = MemoryTracker::new(small).unwrap();
    let address = NonConfidentialMemoryAddress::new(ROOT, &small).unwrap();
    let result = RootPageTable::copy_from_non_confidential_memory(address, PagingSystem::Sv57x4, &memory, &mut tracker);
    assert_eq!(result.err(), Some(Error::OutOfMemory()));
    assert_eq!(tracker.number_of_free_frames(), 8);
}

#[test]
fn shared_page_is_checked_before_it_is_mapped() {
    let memory = hypervisor_memory();
    let mut tracker = MemoryTracker::new(layout()).unwrap();
    let mut root = copy(&memory, &mut tracker).unwrap();
    let request = SharePageRequest::new(0x5000_0000).unwrap();
    assert_eq!(SharedPage::new(CONFIDENTIAL_START, request, &layout()).err(), Some(Error::InvalidAddress()));
    assert_eq!(SharedPage::new(0x9000_0008, request, &layout()).err(), Some(Error::InvalidAddress()));
    assert_eq!(SharePageRequest::new(0x5000_0004).err(), Some(Error::InvalidAddress()));

    let out_of_range = shared_page(0x9000_0000, 0x800_0000_0000_0000);
    let before = tracker.number_of_free_frames();
    assert_eq!(root.map_shared_page(&out_of_range, &mut tracker), Err(Error::PageTableConfiguration()));
    assert_eq!(tracker.number_of_free_frames(), before);
}

#[test]
fn mapping_fails_without_memory_for_the_missing_tables() {
    let memory = hypervisor_memory();
    let exact = MemoryLayout::new(NON_CONFIDENTIAL_START, CONFIDENTIAL_START, CONFIDENTIAL_START, CONFIDENTIAL_START + 0x9000).unwrap();
    let mut tracker = MemoryTracker::new(exact).unwrap();
    let address = NonConfidentialMemoryAddress::new(ROOT, &exact).unwrap();
    let mut root =
        RootPageTable::copy_from_non_confidential_memory(address, PagingSystem::Sv57x4, &memory, &mut tracker).unwrap();
    assert_eq!(tracker.number_of_free_frames(), 0);
    let page = SharedPage::new(0x9000_0000, SharePageRequest::new(0x5000_0000).unwrap(), &exact).unwrap();
    assert_eq!(root.map_shared_page(&page, &mut tracker), Err(Error::OutOfMemory()));
    assert_eq!(tracker.number_of_free_frames(), 0);
    assert_eq!(root.translate(ConfidentialVmVirtualAddress(0x5000_0000), &exact), Translation::NotMapped);
}

#[test]
fn upper_half_of_the_root_table_is_reached() {
    let memory = hypervisor_memory();
    let mut tracker = MemoryTracker::new(layout()).unwrap();
    let mut root = copy(&memory, &mut tracker).unwrap();
    let before = tracker.number_of_free_frames();
    // the address indexes slot 1024 of the root table: four tables are missing below it
    root.map_shared_page(&shared_page(0x9000_0000, 1 << 58), &mut tracker).unwrap();
    assert_eq!(tracker.number_of_free_frames(), before - 4);
    match root.translate(ConfidentialVmVirtualAddress(1 << 58), &layout()) {
        Translation::Shared { page, .. } => assert_eq!(page, 0x9000_0000),
        other => panic!("not shared: {:?}", other),
    }
    // the address that differs in the eleventh bit of the root index only is not mapped
    assert_eq!(root.translate(ConfidentialVmVirtualAddress(0), &layout()), Translation::NotMapped);
    let top = (1u64 << 59) - 0x1000;
    root.map_shared_page(&shared_page(0x9000_1000, top), &mut tracker).unwrap();
    match root.translate(ConfidentialVmVirtualAddress(top), &layout()) {
        Translation::Shared { page, .. } => assert_eq!(page, 0x9000_1000),
        other => panic!("not shared: {:?}", other),
    }
    assert_eq!(
        root.map_shared_page(&shared_page(0x9000_0000, 1 << 59), &mut tracker),
        Err(Error::PageTableConfiguration())
    );
}

#[test]
fn same_share_twice_changes_nothing() {
    let memory = hypervisor_memory();
    let mut tracker = MemoryTracker::new(layout()).unwrap();
    let mut root = copy(&memory, &mut tracker).unwrap();
    let page = shared_page(0x9000_0000, 0x5000_0000);
    root.map_shared_page(&page, &mut tracker).unwrap();
    let image = root.memory_image(&layout());
    let free = tracker.number_of_free_frames();
    root.map_shared_page(&page, &mut tracker).unwrap();
    assert_eq!(root.memory_image(&layout()), image);
    assert_eq!(tracker.number_of_free_frames(), free);
}

#[test]
fn tables_are_taken_from_the_lowest_free_frames() {
    let memory = hypervisor_memory();
    let mut tracker = MemoryTracker::new(layout()).unwrap();
    let mut root = copy(&memory, &mut tracker).unwrap();
    // the copy took the frames 0 to 8; the table that is missing takes frame 9
    assert!(!tracker.is_frame_free(CONFIDENTIAL_START + 8 * 0x1000));
    assert!(tracker.is_frame_free(CONFIDENTIAL_START + 9 * 0x1000));
    root.map_shared_page(&shared_page(0x9000_0000, 0x5000_0000), &mut tracker).unwrap();
    assert!(!tracker.is_frame_free(CONFIDENTIAL_START + 9 * 0x1000));
    assert!(tracker.is_frame_free(CONFIDENTIAL_START + 10 * 0x1000));
}
