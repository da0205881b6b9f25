use vstd::prelude::*;

verus! {

/// Size classes of pages that a G-stage translation can map.
#[derive(Clone, Copy, Debug, PartialEq, Eq, Structural)]
pub enum PageSize {
    Size4KiB,
    Size2MiB,
    Size1GiB,
    Size512GiB,
    Size128TiB,
}

impl PageSize {
    /// Number of bytes that a page of this class spans.
    pub open spec fn bytes(self) -> nat {
        match self {
            PageSize::Size4KiB => 0x1000,
            PageSize::Size2MiB => 0x20_0000,
            PageSize::Size1GiB => 0x4000_0000,
            PageSize::Size512GiB => 0x80_0000_0000,
            PageSize::Size128TiB => 0x8000_0000_0000,
        }
    }

    /// Number of 4 KiB frames that a page of this class spans.
    pub open spec fn frames(self) -> nat {
        match self {
            PageSize::Size4KiB => 1,
            PageSize::Size2MiB => 0x200,
            PageSize::Size1GiB => 0x4_0000,
            PageSize::Size512GiB => 0x800_0000,
            PageSize::Size128TiB => 0x8_0000_0000,
        }
    }

    pub fn in_bytes(&self) -> (bytes: u64)
        ensures
            bytes == self.bytes(),
    {
        match self {
            PageSize::Size4KiB => 0x1000,
            PageSize::Size2MiB => 0x20_0000,
            PageSize::Size1GiB => 0x4000_0000,
            PageSize::Size512GiB => 0x80_0000_0000,
            PageSize::Size128TiB => 0x8000_0000_0000,
        }
    }

    pub fn in_frames(&self) -> (frames: u64)
        ensures
            frames == self.frames(),
            frames * 0x1000 == self.bytes(),
    {
        match self {
            PageSize::Size4KiB => 1,
            PageSize::Size2MiB => 0x200,
            PageSize::Size1GiB => 0x4_0000,
            PageSize::Size512GiB => 0x800_0000,
            PageSize::Size128TiB => 0x8_0000_0000,
        }
    }
}

} // verus!
