use security_monitor::mmu::page_table_entry::{
    PageTableAddress, PageTableBits, PageTableConfiguration, PageTablePermission,
};
use security_monitor::mmu::{ConfidentialVmVirtualAddress, PageSize, PageTableLevel, PagingSystem};

#[test]
fn levels_go_down_to_the_pages() {
    let system = PagingSystem::Sv57x4;
    assert_eq!(system.levels(), PageTableLevel::Level5);
    assert_eq!(PageTableLevel::Level5.lower(), Some(PageTableLevel::Level4));
    assert_eq!(PageTableLevel::Level4.lower(), Some(PageTableLevel::Level3));
    assert_eq!(PageTableLevel::Level3.lower(), Some(PageTableLevel::Level2));
    assert_eq!(PageTableLevel::Level2.lower(), Some(PageTableLevel::Level1));
    assert_eq!(PageTableLevel::Level1.lower(), None);
    assert_eq!(PagingSystem::from(10), Some(PagingSystem::Sv57x4));
    assert_eq!(PagingSystem::from(9), None);
    assert_eq!(PagingSystem::from(0), None);
    assert_eq!(system.hgatp_mode(), 10);
}

#[test]
fn root_table_is_four_times_as_large() {
    let system = PagingSystem::Sv57x4;
    assert_eq!(system.entry_size(), 8);
    assert_eq!(system.entries(PageTableLevel::Level5), 2048);
    assert_eq!(system.size_in_bytes(PageTableLevel::Level5), 16384);
    assert_eq!(system.configuration_pages(PageTableLevel::Level5), 4);
    for level in [PageTableLevel::Level4, PageTableLevel::Level3, PageTableLevel::Level2, PageTableLevel::Level1] {
        assert_eq!(system.entries(level), 512);
        assert_eq!(system.size_in_bytes(level), 4096);
        assert_eq!(system.configuration_pages(level), 1);
    }
}

#[test]
fn page_sizes_follow_the_levels() {
    let system = PagingSystem::Sv57x4;
    assert_eq!(system.page_size(PageTableLevel::Level1), PageSize::Size4KiB);
    assert_eq!(system.page_size(PageTableLevel::Level2), PageSize::Size2MiB);
    assert_eq!(system.page_size(PageTableLevel::Level3), PageSize::Size1GiB);
    assert_eq!(system.page_size(PageTableLevel::Level4), PageSize::Size512GiB);
    assert_eq!(system.page_size(PageTableLevel::Level5), PageSize::Size128TiB);
    assert_eq!(PageSize::Size4KiB.in_bytes(), 4096);
    assert_eq!(PageSize::Size2MiB.in_bytes(), 2 * 1024 * 1024);
    assert_eq!(PageSize::Size1GiB.in_bytes(), 1 << 30);
    assert_eq!(PageSize::Size512GiB.in_bytes(), 1 << 39);
    assert_eq!(PageSize::Size128TiB.in_bytes(), 1 << 47);
    assert_eq!(PageSize::Size2MiB.in_frames(), 512);
}

#[test]
fn address_is_cut_into_indices() {
    let system = PagingSystem::Sv57x4;
    let address = ConfidentialVmVirtualAddress((0x2a5 << 48) | (0x1ff << 39) | (0x001 << 30) | (0x155 << 21) | (0x0aa << 12) | 0xfff);
    assert_eq!(address.address() >> 48, 0x2a5);
    assert_eq!(system.vpn(address, PageTableLevel::Level5), 0x2a5);
    assert_eq!(system.vpn(address, PageTableLevel::Level4), 0x1ff);
    assert_eq!(system.vpn(address, PageTableLevel::Level3), 0x001);
    assert_eq!(system.vpn(address, PageTableLevel::Level2), 0x155);
    assert_eq!(system.vpn(address, PageTableLevel::Level1), 0x0aa);
    // the index into the root table has eleven bits: two more than the others
    let high = ConfidentialVmVirtualAddress(0xffff << 48);
    assert_eq!(system.vpn(high, PageTableLevel::Level5), 0x7ff);
    assert_eq!(system.vpn(ConfidentialVmVirtualAddress(1 << 58), PageTableLevel::Level5), 1024);
    assert_eq!(system.vpn(ConfidentialVmVirtualAddress(0x4000_0000), PageTableLevel::Level3), 1);
}

#[test]
fn raw_entry_is_taken_apart() {
    let raw: u64 = ((0x8100_0000u64 >> 12) << 10) | 0x300 | 0xd7;
    assert!(PageTableBits::is_valid(raw));
    assert!(PageTableBits::is_leaf(raw));
    assert!(!PageTableBits::is_valid(raw & !1));
    assert!(!PageTableBits::is_leaf(((0x8100_0000u64 >> 12) << 10) | 0x1));
    assert_eq!(PageTableAddress::decode(raw), 0x8100_0000);
    assert_eq!(PageTableAddress::encode(0x8100_0abc), (0x8100_0000u64 >> 12) << 10);
    assert_eq!(PageTableAddress::decode(u64::MAX), 0xff_ffff_ffff_f000);
    assert_eq!(
        PageTablePermission::decode(raw),
        PageTablePermission { can_read: true, can_write: true, can_execute: false }
    );
    assert_eq!(PageTablePermission::decode(raw).encode(), 0x6);
    assert_eq!(
        PageTableConfiguration::decode(raw),
        PageTableConfiguration { is_accessible_to_user: true, was_accessed: true, is_global_mapping: false, is_dirty: true }
    );
    assert_eq!(PageTableConfiguration::decode(raw).encode(), 0xd0);
    assert_eq!(PageTableConfiguration::empty().encode(), 0);
    assert_eq!(PageTableConfiguration::shared_page_configuration().encode(), 0xd0);
    assert_eq!(PageTablePermission::shared_page_permission().encode(), 0x6);
    assert_eq!(PageTableConfiguration::decode(0x20).is_global_mapping, true);
    assert_eq!(PageTablePermission::decode(0x8).can_execute, true);
}
