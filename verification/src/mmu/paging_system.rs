use crate::mmu::page_size::PageSize;
use vstd::prelude::*;

verus! {

/// Guest-physical address of a confidential VM: the input of the G-stage
/// translation.
#[derive(Clone, Copy, Debug, PartialEq, Eq, Structural)]
pub struct ConfidentialVmVirtualAddress(pub u64);

impl ConfidentialVmVirtualAddress {
    pub fn address(&self) -> (address: u64)
        ensures
            address == self.0,
    {
        self.0
    }
}

/// Value of the MODE field of `hgatp` that selects the five-level scheme.
pub const HGATP_MODE_SV57X4: u64 = 10;

/// The supported G-stage paging schemes.
#[derive(Debug, Copy, Clone, PartialEq, Eq, Structural)]
pub enum PagingSystem {
    Sv57x4,
}

/// Level of a page table in the tree; the root of Sv57x4 is at `Level5`.
#[derive(Debug, Copy, Clone, PartialEq, Eq, Structural)]
pub enum PageTableLevel {
    Level5,
    Level4,
    Level3,
    Level2,
    Level1,
}

impl PageTableLevel {
    /// The level as a number, 1 for the tables whose entries map 4 KiB pages.
    pub open spec fn number(self) -> nat {
        match self {
            PageTableLevel::Level5 => 5,
            PageTableLevel::Level4 => 4,
            PageTableLevel::Level3 => 3,
            PageTableLevel::Level2 => 2,
            PageTableLevel::Level1 => 1,
        }
    }

    pub open spec fn spec_lower(self) -> Option<PageTableLevel> {
        match self {
            PageTableLevel::Level5 => Some(PageTableLevel::Level4),
            PageTableLevel::Level4 => Some(PageTableLevel::Level3),
            PageTableLevel::Level3 => Some(PageTableLevel::Level2),
            PageTableLevel::Level2 => Some(PageTableLevel::Level1),
            PageTableLevel::Level1 => None,
        }
    }

    /// The level of the tables that entries of this level point to.
    pub fn lower(&self) -> (lower: Option<Self>)
        ensures
            lower == self.spec_lower(),
            lower matches Some(l) ==> l.number() + 1 == self.number(),
            lower is None <==> *self == PageTableLevel::Level1,
    {
        match self {
            Self::Level5 => Some(Self::Level4),
            Self::Level4 => Some(Self::Level3),
            Self::Level3 => Some(Self::Level2),
            Self::Level2 => Some(Self::Level1),
            Self::Level1 => None,
        }
    }
}

impl PagingSystem {
    pub open spec fn spec_entries(self, level: PageTableLevel) -> nat {
        match level {
            PageTableLevel::Level5 => 2048,
            _ => 512,
        }
    }

    pub open spec fn spec_vpn(self, virtual_address: u64, level: PageTableLevel) -> u64 {
        match level {
            PageTableLevel::Level5 => (virtual_address >> 48) & 0x7ff,
            PageTableLevel::Level4 => (virtual_address >> 39) & 0x1ff,
            PageTableLevel::Level3 => (virtual_address >> 30) & 0x1ff,
            PageTableLevel::Level2 => (virtual_address >> 21) & 0x1ff,
            PageTableLevel::Level1 => (virtual_address >> 12) & 0x1ff,
        }
    }

    pub open spec fn spec_page_size(self, level: PageTableLevel) -> PageSize {
        match level {
            PageTableLevel::Level5 => PageSize::Size128TiB,
            PageTableLevel::Level4 => PageSize::Size512GiB,
            PageTableLevel::Level3 => PageSize::Size1GiB,
            PageTableLevel::Level2 => PageSize::Size2MiB,
            PageTableLevel::Level1 => PageSize::Size4KiB,
        }
    }

    /// The paging scheme that a value of `hgatp.MODE` selects, if it is a
    /// supported one.
    pub fn from(mode: u64) -> (paging_system: Option<Self>)
        ensures
            paging_system == if mode == HGATP_MODE_SV57X4 {
                Some(PagingSystem::Sv57x4)
            } else {
                None
            },
    {
        if mode == HGATP_MODE_SV57X4 {
            Some(PagingSystem::Sv57x4)
        } else {
            None
        }
    }

    /// The value of `hgatp.MODE` that selects this scheme.
    pub fn hgatp_mode(&self) -> (mode: u64)
        ensures
            mode == HGATP_MODE_SV57X4,
    {
        match self {
            Self::Sv57x4 => HGATP_MODE_SV57X4,
        }
    }

    /// The level of the root page table.
    pub fn levels(&self) -> (level: PageTableLevel)
        ensures
            level == PageTableLevel::Level5,
    {
        match self {
            PagingSystem::Sv57x4 => PageTableLevel::Level5,
        }
    }

    /// Number of 4 KiB pages that hold a page table of the given level.
    pub fn configuration_pages(&self, level: PageTableLevel) -> (pages: usize)
        ensures
            pages * 0x1000 == self.spec_entries(level) * 8,
            pages == if level == PageTableLevel::Level5 { 4int } else { 1int },
    {
        self.size_in_bytes(level) / 0x1000
    }

    /// Size of one page-table entry in bytes.
    pub fn entry_size(&self) -> (size: usize)
        ensures
            size == 8,
    {
        match self {
            PagingSystem::Sv57x4 => 8,
        }
    }

    /// Size in bytes of a page table of the given level.
    pub fn size_in_bytes(&self, level: PageTableLevel) -> (size: usize)
        ensures
            size == self.spec_entries(level) * 8,
    {
        self.entries(level) * self.entry_size()
    }

    /// Number of entries of a page table of the given level. The root table
    /// of a G-stage scheme is extended by two bits.
    pub fn entries(&self, level: PageTableLevel) -> (entries: usize)
        ensures
            entries == self.spec_entries(level),
    {
        match self {
            PagingSystem::Sv57x4 => match level {
                PageTableLevel::Level5 => 2048,
                _ => 512,
            },
        }
    }

    /// Index into a page table of the given level at which the translation of
    /// the address continues.
    pub fn vpn(&self, virtual_address: ConfidentialVmVirtualAddress, level: PageTableLevel) -> (index: usize)
        ensures
            index == self.spec_vpn(virtual_address.0, level),
            index < self.spec_entries(level),
    {
        let address: u64 = virtual_address.address();
        proof {
            assert((address >> 48) & 0x7ff < 2048) by (bit_vector);
            assert((address >> 39) & 0x1ff < 512) by (bit_vector);
            assert((address >> 30) & 0x1ff < 512) by (bit_vector);
            assert((address >> 21) & 0x1ff < 512) by (bit_vector);
            assert((address >> 12) & 0x1ff < 512) by (bit_vector);
        }
        match self {
            PagingSystem::Sv57x4 => match level {
                PageTableLevel::Level5 => ((address >> 48) & 0x7ff) as usize,
                PageTableLevel::Level4 => ((address >> 39) & 0x1ff) as usize,
                PageTableLevel::Level3 => ((address >> 30) & 0x1ff) as usize,
                PageTableLevel::Level2 => ((address >> 21) & 0x1ff) as usize,
                PageTableLevel::Level1 => ((address >> 12) & 0x1ff) as usize,
            },
        }
    }

    /// Size of the page that a leaf entry of the given level maps.
    pub fn page_size(&self, level: PageTableLevel) -> (size: PageSize)
        ensures
            size == self.spec_page_size(level),
    {
        match level {
            PageTableLevel::Level5 => PageSize::Size128TiB,
            PageTableLevel::Level4 => PageSize::Size512GiB,
            PageTableLevel::Level3 => PageSize::Size1GiB,
            PageTableLevel::Level2 => PageSize::Size2MiB,
            PageTableLevel::Level1 => PageSize::Size4KiB,
        }
    }
}

} // verus!
