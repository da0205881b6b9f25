//! The 64-bit page-table entry and its parts.
use crate::memory::{NonConfidentialMemoryAddress, Page};
use crate::mmu::page_table::PageTable;
use vstd::prelude::*;

verus! {

/// Bit 0: the entry is valid.
pub const PTE_VALID: u64 = 0x1;

/// Bit 1: the page can be read.
pub const PTE_READ: u64 = 0x2;

/// Bit 2: the page can be written.
pub const PTE_WRITE: u64 = 0x4;

/// Bit 3: instructions can be fetched from the page.
pub const PTE_EXECUTE: u64 = 0x8;

/// Bit 4: the page is accessible to user mode.
pub const PTE_USER: u64 = 0x10;

/// Bit 5: the mapping is global.
pub const PTE_GLOBAL: u64 = 0x20;

/// Bit 6: the page was accessed.
pub const PTE_ACCESSED: u64 = 0x40;

/// Bit 7: the page was written.
pub const PTE_DIRTY: u64 = 0x80;

/// Position of the physical page number in an entry.
pub const PTE_PPN_SHIFT: u64 = 10;

/// The 44 bits of a physical page number.
pub const PTE_PPN_MASK: u64 = 0xfff_ffff_ffff;

/// Position of the physical page number in an address.
pub const ADDRESS_PPN_SHIFT: u64 = 12;

/// Tests on the bits of a raw entry that tell what kind of entry it is.
pub struct PageTableBits;

impl PageTableBits {
    pub open spec fn spec_is_valid(raw_entry: u64) -> bool {
        raw_entry & PTE_VALID != 0
    }

    /// Of a valid entry: whether it maps a page, which it does if it grants
    /// any access, and points to the next table otherwise.
    pub open spec fn spec_is_leaf(raw_entry: u64) -> bool {
        raw_entry & (PTE_READ | PTE_WRITE | PTE_EXECUTE) != 0
    }

    pub fn is_valid(raw_entry: u64) -> (valid: bool)
        ensures
            valid == Self::spec_is_valid(raw_entry),
    {
        raw_entry & PTE_VALID != 0
    }

    pub fn is_leaf(raw_entry: u64) -> (leaf: bool)
        ensures
            leaf == Self::spec_is_leaf(raw_entry),
    {
        raw_entry & (PTE_READ | PTE_WRITE | PTE_EXECUTE) != 0
    }
}

/// The physical address in an entry.
pub struct PageTableAddress;

impl PageTableAddress {
    /// The address that the physical page number of the entry stands for.
    pub open spec fn spec_decode(raw_entry: u64) -> u64 {
        ((raw_entry >> PTE_PPN_SHIFT) & PTE_PPN_MASK) << ADDRESS_PPN_SHIFT
    }

    /// The bits of an entry that stand for the page at the address.
    pub open spec fn spec_encode(address: u64) -> u64 {
        ((address >> ADDRESS_PPN_SHIFT) & PTE_PPN_MASK) << PTE_PPN_SHIFT
    }

    pub fn decode(raw_entry: u64) -> (address: u64)
        ensures
            address == Self::spec_decode(raw_entry),
    {
        ((raw_entry >> PTE_PPN_SHIFT) & PTE_PPN_MASK) << ADDRESS_PPN_SHIFT
    }

    pub fn encode(address: u64) -> (bits: u64)
        ensures
            bits == Self::spec_encode(address),
    {
        ((address >> ADDRESS_PPN_SHIFT) & PTE_PPN_MASK) << PTE_PPN_SHIFT
    }
}

/// The bits of an entry that do not grant access: user, global, accessed and
/// dirty.
#[derive(Debug, Clone, Copy, PartialEq, Eq, Structural)]
pub struct PageTableConfiguration {
    pub is_accessible_to_user: bool,
    pub was_accessed: bool,
    pub is_global_mapping: bool,
    pub is_dirty: bool,
}

impl PageTableConfiguration {
    pub open spec fn spec_decode(raw_entry: u64) -> PageTableConfiguration {
        PageTableConfiguration {
            is_accessible_to_user: raw_entry & PTE_USER != 0,
            was_accessed: raw_entry & PTE_ACCESSED != 0,
            is_global_mapping: raw_entry & PTE_GLOBAL != 0,
            is_dirty: raw_entry & PTE_DIRTY != 0,
        }
    }

    pub open spec fn spec_encode(self) -> u64 {
        (if self.is_accessible_to_user {
            PTE_USER
        } else {
            0
        }) | (if self.was_accessed {
            PTE_ACCESSED
        } else {
            0
        }) | (if self.is_global_mapping {
            PTE_GLOBAL
        } else {
            0
        }) | (if self.is_dirty {
            PTE_DIRTY
        } else {
            0
        })
    }

    pub open spec fn spec_empty() -> PageTableConfiguration {
        PageTableConfiguration {
            is_accessible_to_user: false,
            was_accessed: false,
            is_global_mapping: false,
            is_dirty: false,
        }
    }

    pub open spec fn spec_shared_page_configuration() -> PageTableConfiguration {
        PageTableConfiguration {
            is_accessible_to_user: true,
            was_accessed: true,
            is_global_mapping: false,
            is_dirty: true,
        }
    }

    pub fn decode(raw_entry: u64) -> (configuration: Self)
        ensures
            configuration == Self::spec_decode(raw_entry),
    {
        Self {
            is_accessible_to_user: raw_entry & PTE_USER != 0,
            was_accessed: raw_entry & PTE_ACCESSED != 0,
            is_global_mapping: raw_entry & PTE_GLOBAL != 0,
            is_dirty: raw_entry & PTE_DIRTY != 0,
        }
    }

    pub fn encode(&self) -> (bits: u64)
        ensures
            bits == self.spec_encode(),
    {
        let user: u64 = if self.is_accessible_to_user {
            PTE_USER
        } else {
            0
        };
        let accessed: u64 = if self.was_accessed {
            PTE_ACCESSED
        } else {
            0
        };
        let global: u64 = if self.is_global_mapping {
            PTE_GLOBAL
        } else {
            0
        };
        let dirty: u64 = if self.is_dirty {
            PTE_DIRTY
        } else {
            0
        };
        user | accessed | global | dirty
    }

    /// The configuration of an entry that points to a table which the
    /// monitor made.
    pub fn empty() -> (configuration: Self)
        ensures
            configuration == Self::spec_empty(),
    {
        Self { is_accessible_to_user: false, was_accessed: false, is_global_mapping: false, is_dirty: false }
    }

    /// The configuration of every shared page: accessible to the guest, and
    /// marked accessed and dirty so that no access to it faults for the sake
    /// of these marks.
    pub fn shared_page_configuration() -> (configuration: Self)
        ensures
            configuration == Self::spec_shared_page_configuration(),
    {
        Self { is_accessible_to_user: true, was_accessed: true, is_global_mapping: false, is_dirty: true }
    }
}

/// The access that an entry grants.
#[derive(Debug, Clone, Copy, PartialEq, Eq, Structural)]
pub struct PageTablePermission {
    pub can_read: bool,
    pub can_write: bool,
    pub can_execute: bool,
}

impl PageTablePermission {
    pub open spec fn spec_decode(raw_entry: u64) -> PageTablePermission {
        PageTablePermission {
            can_read: raw_entry & PTE_READ != 0,
            can_write: raw_entry & PTE_WRITE != 0,
            can_execute: raw_entry & PTE_EXECUTE != 0,
        }
    }

    pub open spec fn spec_encode(self) -> u64 {
        (if self.can_read {
            PTE_READ
        } else {
            0
        }) | (if self.can_write {
            PTE_WRITE
        } else {
            0
        }) | (if self.can_execute {
            PTE_EXECUTE
        } else {
            0
        })
    }

    pub open spec fn spec_shared_page_permission() -> PageTablePermission {
        PageTablePermission { can_read: true, can_write: true, can_execute: false }
    }

    pub fn decode(raw_entry: u64) -> (permission: Self)
        ensures
            permission == Self::spec_decode(raw_entry),
    {
        Self {
            can_read: raw_entry & PTE_READ != 0,
            can_write: raw_entry & PTE_WRITE != 0,
            can_execute: raw_entry & PTE_EXECUTE != 0,
        }
    }

    pub fn encode(&self) -> (bits: u64)
        ensures
            bits == self.spec_encode(),
    {
        let read: u64 = if self.can_read {
            PTE_READ
        } else {
            0
        };
        let write: u64 = if self.can_write {
            PTE_WRITE
        } else {
            0
        };
        let execute: u64 = if self.can_execute {
            PTE_EXECUTE
        } else {
            0
        };
        read | write | execute
    }

    /// The access to every shared page: reads and writes, no instruction
    /// fetch.
    pub fn shared_page_permission() -> (permission: Self)
        ensures
            permission == Self::spec_shared_page_permission(),
    {
        Self { can_read: true, can_write: true, can_execute: false }
    }
}

/// An entry of a page table of a confidential VM.
pub enum PageTableEntry {
    /// The slot is empty.
    NotValid,
    /// Maps to a page of confidential memory, which the entry owns.
    Leaf(Box<Page>, PageTableConfiguration, PageTablePermission),
    /// Points to the page table of the next lower level, which the entry
    /// owns.
    Pointer(Box<PageTable>, PageTableConfiguration),
    /// Maps to a page of non-confidential memory, which the entry does not
    /// own.
    Shared(NonConfidentialMemoryAddress, PageTableConfiguration, PageTablePermission),
}

} // verus!
