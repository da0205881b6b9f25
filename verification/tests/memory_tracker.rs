use security_monitor::error::Error;
use security_monitor::memory::{MemoryLayout, MemoryTracker};
use security_monitor::mmu::PageSize;

fn layout() -> MemoryLayout {
    // confidential memory that starts 4 KiB below a 2 MiB boundary and holds two aligned runs of 2 MiB
    MemoryLayout::new(0x8000_0000, 0x9000_0000, 0xA01F_F000, 0xA060_0000).unwrap()
}

#[test]
fn pages_come_out_adjacent_and_ascending() {
    let mut tracker = MemoryTracker::new(layout()).unwrap();
    assert_eq!(tracker.number_of_free_frames(), 1025);
    let pages = tracker.acquire_continuous_pages(3, PageSize::Size4KiB).unwrap();
    let addresses: Vec<u64> = pages.iter().map(|page| page.address().as_u64()).collect();
    assert_eq!(addresses, vec![0xA01F_F000, 0xA020_0000, 0xA020_1000]);
    assert_eq!(pages[0].number_of_words(), 512);
    assert_eq!(pages[0].read_word(511), Some(0));
    assert_eq!(pages[0].read_word(512), None);
    assert_eq!(tracker.number_of_free_frames(), 1022);
    assert!(!tracker.is_frame_free(0xA020_0000));
    assert!(tracker.is_frame_free(0xA020_2000));
}

#[test]
fn large_pages_are_aligned_and_split_and_merge() {
    let mut tracker = MemoryTracker::new(layout()).unwrap();
    // the first 2 MiB boundary lies one frame into confidential memory
    let large = tracker.acquire_continuous_pages(1, PageSize::Size2MiB).unwrap().remove(0);
    assert_eq!(large.address().as_u64(), 0xA020_0000);
    assert_eq!(large.size(), PageSize::Size2MiB);
    assert_eq!(tracker.number_of_free_frames(), 513);
    // the first two adjacent frames lie in the only other aligned run: no second large page
    let small = tracker.acquire_continuous_pages(2, PageSize::Size4KiB).unwrap();
    assert_eq!(small[0].address().as_u64(), 0xA040_0000);
    assert_eq!(small[1].address().as_u64(), 0xA040_1000);
    let single = tracker.acquire_continuous_pages(1, PageSize::Size4KiB).unwrap().remove(0);
    assert_eq!(single.address().as_u64(), 0xA01F_F000);
    tracker.release_page(single);
    assert_eq!(tracker.acquire_continuous_pages(1, PageSize::Size2MiB).err(), Some(Error::OutOfMemory()));
    // released frames merge into a large page again
    for page in small {
        tracker.release_page(page);
    }
    let again = tracker.acquire_continuous_pages(1, PageSize::Size2MiB).unwrap().remove(0);
    assert_eq!(again.address().as_u64(), 0xA040_0000);
    tracker.release_page(large);
    tracker.release_page(again);
    assert_eq!(tracker.number_of_free_frames(), 1025);
}

#[test]
fn pool_refuses_what_it_cannot_serve() {
    let mut tracker = MemoryTracker::new(layout()).unwrap();
    assert_eq!(tracker.acquire_continuous_pages(1026, PageSize::Size4KiB).err(), Some(Error::OutOfMemory()));
    assert_eq!(tracker.acquire_continuous_pages(usize::MAX, PageSize::Size2MiB).err(), Some(Error::OutOfMemory()));
    assert_eq!(tracker.acquire_continuous_pages(1, PageSize::Size1GiB).err(), Some(Error::OutOfMemory()));
    assert_eq!(tracker.acquire_continuous_pages(1, PageSize::Size128TiB).err(), Some(Error::OutOfMemory()));
    assert_eq!(tracker.acquire_continuous_pages(0, PageSize::Size4KiB).unwrap().len(), 0);
    assert_eq!(tracker.number_of_free_frames(), 1025);
    assert_eq!(MemoryLayout::new(0x8000_0000, 0x9000_0000, 0x8800_0000, 0xA000_0000), Err(Error::InvalidAddress()));
    assert_eq!(MemoryLayout::new(0x8000_0000, 0x9000_0000, 0xA000_0800, 0xA010_0000), Err(Error::InvalidAddress()));
}
