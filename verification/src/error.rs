use vstd::prelude::*;

verus! {

/// Reasons for which an operation of the monitor fails.
#[derive(Debug, Clone, Copy, PartialEq, Eq, Structural)]
pub enum Error {
    /// The pool of confidential pages cannot serve the request.
    OutOfMemory(),
    /// A page table supplied by the hypervisor references an illegal address
    /// or has a shape that the paging scheme does not allow.
    PageTableCorrupted(),
    /// The requested address is out of the range that the page table covers.
    PageTableConfiguration(),
    /// The trapping instruction is none of the loads and stores that the
    /// monitor emulates; carries the instruction word.
    InvalidRiscvInstruction(u64),
    /// A request is already pending on the confidential hart.
    PendingRequest(),
    /// An address is outside of its memory region or is not aligned.
    InvalidAddress(),
    /// The confidential VM or the confidential hart does not exist.
    InvalidConfidentialVmId(),
    /// The confidential hart is not available: it runs, or it is not bound to
    /// the confidential VM.
    InvalidHartId(),
    /// The pool of bounce buffers was not set up.
    DmaNotInitialized(),
    /// The block device failed.
    VirtioError(),
}

} // verus!
