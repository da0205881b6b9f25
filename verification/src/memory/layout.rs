use crate::error::Error;
use vstd::prelude::*;

verus! {

/// Size in bytes of a frame, the unit in which confidential memory is
/// handed out.
pub const FRAME_SIZE: u64 = 0x1000;

/// Number of 64-bit words in a frame.
pub const WORDS_PER_FRAME: usize = 512;

/// Number of frames that a physical address can name: a physical page number
/// has 44 bits.
pub const FRAME_LIMIT: u64 = 0x1000_0000_0000;

/// The two regions of physical memory, fixed at boot: confidential memory,
/// which the monitor owns, and non-confidential memory, which the hypervisor
/// sees.
#[derive(Debug, Clone, Copy, PartialEq, Eq, Structural)]
pub struct MemoryLayout {
    pub non_confidential_start: u64,
    pub non_confidential_end: u64,
    pub confidential_start: u64,
    pub confidential_end: u64,
}

impl MemoryLayout {
    /// The ends of confidential memory are frame boundaries, the regions do
    /// not overlap, and every frame of both regions has a physical page
    /// number.
    pub open spec fn wf(self) -> bool {
        &&& self.non_confidential_start <= self.non_confidential_end
        &&& self.confidential_start <= self.confidential_end
        &&& self.confidential_start % FRAME_SIZE == 0
        &&& self.confidential_end % FRAME_SIZE == 0
        &&& self.confidential_end <= FRAME_LIMIT * FRAME_SIZE
        &&& self.non_confidential_end <= FRAME_LIMIT * FRAME_SIZE
        &&& (self.non_confidential_end <= self.confidential_start || self.confidential_end
            <= self.non_confidential_start)
    }

    /// Number of the first frame of confidential memory.
    pub open spec fn first_frame(self) -> int {
        self.confidential_start as int / FRAME_SIZE as int
    }

    /// Number of the frame that follows the last frame of confidential
    /// memory.
    pub open spec fn end_frame(self) -> int {
        self.confidential_end as int / FRAME_SIZE as int
    }

    pub open spec fn is_confidential_frame(self, frame: int) -> bool {
        self.first_frame() <= frame < self.end_frame()
    }

    /// Whether the `size` bytes from `address` on lie in confidential memory.
    pub open spec fn in_confidential(self, address: int, size: int) -> bool {
        self.confidential_start <= address && address + size <= self.confidential_end
    }

    /// Whether the `size` bytes from `address` on lie in non-confidential
    /// memory.
    pub open spec fn in_non_confidential(self, address: int, size: int) -> bool {
        self.non_confidential_start <= address && address + size <= self.non_confidential_end
    }

    pub open spec fn spec_new(
        non_confidential_start: u64,
        non_confidential_end: u64,
        confidential_start: u64,
        confidential_end: u64,
    ) -> Result<MemoryLayout, Error> {
        let layout = MemoryLayout {
            non_confidential_start,
            non_confidential_end,
            confidential_start,
            confidential_end,
        };
        if layout.wf() {
            Ok(layout)
        } else {
            Err(Error::InvalidAddress())
        }
    }

    /// The layout with the given regions, if they can be the two regions of
    /// physical memory.
    pub fn new(
        non_confidential_start: u64,
        non_confidential_end: u64,
        confidential_start: u64,
        confidential_end: u64,
    ) -> (layout: Result<Self, Error>)
        ensures
            layout == Self::spec_new(
                non_confidential_start,
                non_confidential_end,
                confidential_start,
                confidential_end,
            ),
    {
        let ordered = non_confidential_start <= non_confidential_end && confidential_start <= confidential_end;
        let aligned = confidential_start % FRAME_SIZE == 0 && confidential_end % FRAME_SIZE == 0;
        let disjoint = non_confidential_end <= confidential_start || confidential_end <= non_confidential_start;
        if ordered && aligned && confidential_end <= 0x100_0000_0000_0000 && non_confidential_end
            <= 0x100_0000_0000_0000 && disjoint {
            Ok(Self { non_confidential_start, non_confidential_end, confidential_start, confidential_end })
        } else {
            Err(Error::InvalidAddress())
        }
    }

    /// Whether the `size` bytes from `address` on lie in non-confidential
    /// memory.
    pub fn is_in_non_confidential_range(&self, address: u64, size: u64) -> (inside: bool)
        ensures
            inside == self.in_non_confidential(address as int, size as int),
    {
        self.non_confidential_start <= address && address <= self.non_confidential_end && size
            <= self.non_confidential_end - address
    }

    /// Whether the `size` bytes from `address` on lie in confidential memory.
    pub fn is_in_confidential_range(&self, address: u64, size: u64) -> (inside: bool)
        ensures
            inside == self.in_confidential(address as int, size as int),
    {
        self.confidential_start <= address && address <= self.confidential_end && size <= self.confidential_end
            - address
    }
}

/// An address that was found to lie in non-confidential memory.
#[derive(Debug, Clone, Copy, PartialEq, Eq, Structural)]
pub struct NonConfidentialMemoryAddress(u64);

impl NonConfidentialMemoryAddress {
    pub closed spec fn value(self) -> u64 {
        self.0
    }

    /// Checks that the address lies in non-confidential memory.
    pub fn new(address: u64, layout: &MemoryLayout) -> (result: Result<Self, Error>)
        ensures
            layout.in_non_confidential(address as int, 1) ==> result is Ok && result->Ok_0.value() == address,
            !layout.in_non_confidential(address as int, 1) ==> result == Err::<Self, Error>(
                Error::InvalidAddress(),
            ),
    {
        if layout.is_in_non_confidential_range(address, 1) {
            Ok(Self(address))
        } else {
            Err(Error::InvalidAddress())
        }
    }

    pub fn as_u64(&self) -> (address: u64)
        ensures
            address == self.value(),
    {
        self.0
    }
}

/// An address in confidential memory.
#[derive(Debug, Clone, Copy, PartialEq, Eq, Structural)]
pub struct ConfidentialMemoryAddress(u64);

impl ConfidentialMemoryAddress {
    pub closed spec fn value(self) -> u64 {
        self.0
    }

    /// Checks that the address lies in confidential memory.
    pub fn new(address: u64, layout: &MemoryLayout) -> (result: Result<Self, Error>)
        ensures
            layout.in_confidential(address as int, 1) ==> result is Ok && result->Ok_0.value() == address,
            !layout.in_confidential(address as int, 1) ==> result == Err::<Self, Error>(Error::InvalidAddress()),
    {
        if layout.is_in_confidential_range(address, 1) {
            Ok(Self(address))
        } else {
            Err(Error::InvalidAddress())
        }
    }

    /// The address of a frame that a page from the pool starts at.
    pub(crate) fn of_frame(frame: u64) -> (address: Self)
        requires
            frame < FRAME_LIMIT,
        ensures
            address.value() == frame * FRAME_SIZE,
    {
        Self(frame * FRAME_SIZE)
    }

    pub fn as_u64(&self) -> (address: u64)
        ensures
            address == self.value(),
    {
        self.0
    }
}

} // verus!
