use crate::error::Error;
use crate::memory::layout::{
    ConfidentialMemoryAddress, MemoryLayout, NonConfidentialMemoryAddress, FRAME_LIMIT, FRAME_SIZE, WORDS_PER_FRAME,
};
use crate::memory::non_confidential::NonConfidentialMemory;
use crate::mmu::paging_system::ConfidentialVmVirtualAddress;
use crate::mmu::PageSize;
use crate::transformations::SharePageRequest;
use vstd::prelude::*;

verus! {

/// A page of confidential memory and what it holds. A page is handed out by
/// the memory tracker and belongs to whoever holds the value, until it is
/// released to the tracker again.
pub struct Page {
    frame: u64,
    size: PageSize,
    content: Vec<u64>,
}

impl View for Page {
    type V = Seq<u64>;

    /// The 64-bit words that the page holds.
    closed spec fn view(&self) -> Seq<u64> {
        self.content@
    }
}

impl Page {
    /// Number of the first frame of the page.
    pub closed spec fn spec_frame(&self) -> int {
        self.frame as int
    }

    pub closed spec fn spec_size(&self) -> PageSize {
        self.size
    }

    /// Physical address at which the page starts.
    pub open spec fn spec_address(&self) -> int {
        self.spec_frame() * FRAME_SIZE as int
    }

    /// The page is aligned to its size, it ends where physical addresses
    /// end at the latest, and it holds as many words as its size has.
    pub open spec fn wf(&self) -> bool {
        &&& self.spec_frame() % self.spec_size().frames() as int == 0
        &&& 0 <= self.spec_frame()
        &&& self.spec_frame() + self.spec_size().frames() <= FRAME_LIMIT
        &&& self@.len() == self.spec_size().frames() * WORDS_PER_FRAME
    }

    /// Whether the frame is one of the frames of the page.
    pub open spec fn covers(&self, frame: int) -> bool {
        self.spec_frame() <= frame < self.spec_frame() + self.spec_size().frames()
    }

    /// Whether the page lies in confidential memory.
    pub open spec fn is_confidential(&self, layout: MemoryLayout) -> bool {
        layout.first_frame() <= self.spec_frame() && self.spec_frame() + self.spec_size().frames()
            <= layout.end_frame()
    }

    /// Makes the value that stands for the frames from `frame` on.
    pub(crate) fn new(frame: u64, size: PageSize, content: Vec<u64>) -> (page: Self)
        ensures
            page.spec_frame() == frame,
            page.spec_size() == size,
            page@ == content@,
    {
        Self { frame, size, content }
    }

    pub(crate) fn frame(&self) -> (frame: u64)
        ensures
            frame == self.spec_frame(),
    {
        self.frame
    }

    pub fn address(&self) -> (address: ConfidentialMemoryAddress)
        requires
            self.wf(),
        ensures
            address.value() == self.spec_address(),
    {
        ConfidentialMemoryAddress::of_frame(self.frame)
    }

    pub fn size(&self) -> (size: PageSize)
        ensures
            size == self.spec_size(),
    {
        self.size
    }

    /// Number of 64-bit words that the page holds.
    pub fn number_of_words(&self) -> (words: usize)
        ensures
            words == self@.len(),
    {
        self.content.len()
    }

    /// The word with the given index, if the page has that many words.
    pub fn read_word(&self, index: usize) -> (word: Option<u64>)
        ensures
            word == if index < self@.len() {
                Some(self@[index as int])
            } else {
                None
            },
    {
        if index < self.content.len() {
            Some(self.content[index])
        } else {
            None
        }
    }

    /// Writes the word with the given index.
    pub fn write_word(&mut self, index: usize, word: u64)
        requires
            index < old(self)@.len(),
        ensures
            final(self)@ == old(self)@.update(index as int, word),
            final(self).spec_frame() == old(self).spec_frame(),
            final(self).spec_size() == old(self).spec_size(),
    {
        self.content[index] = word;
    }

    /// Appends to `image` the words of the page, each with its physical
    /// address.
    pub fn write_image(&self, image: &mut Vec<(u64, u64)>)
        requires
            self.wf(),
        ensures
            final(image)@ == old(image)@ + crate::mmu::page_table_view::words_image(self.spec_address(), self@),
    {
        let start: u64 = self.frame * FRAME_SIZE;
        let words: usize = self.content.len();
        let ghost before = image@;
        let mut index: usize = 0;
        while index < words
            invariant
                self.wf(),
                index <= words,
                words == self@.len(),
                start == self.spec_address(),
                image@.len() == before.len() + index,
                forall|k: int| 0 <= k < before.len() ==> image@[k] == before[k],
                forall|k: int|
                    0 <= k < index ==> image@[before.len() + k] == ((start + 8 * k) as u64, self@[k]),
            decreases words - index,
        {
            image.push((start + 8 * (index as u64), self.content[index]));
            index += 1;
        }
        assert(image@ =~= before + crate::mmu::page_table_view::words_image(self.spec_address(), self@));
    }

    /// What `words` words of non-confidential memory from `address` on hold.
    pub open spec fn source_words(memory: NonConfidentialMemory, address: int, words: nat) -> Seq<u64> {
        Seq::new(words, |i: int| memory.word(address + 8 * i))
    }

    /// Fills the page with what non-confidential memory holds from the
    /// address on. Fails, and leaves the page as it is, unless all of that
    /// memory is non-confidential.
    pub fn copy_from_non_confidential_memory(
        &mut self,
        address: NonConfidentialMemoryAddress,
        memory: &NonConfidentialMemory,
        layout: &MemoryLayout,
    ) -> (result: Result<(), Error>)
        ensures
            final(self).spec_frame() == old(self).spec_frame(),
            final(self).spec_size() == old(self).spec_size(),
            layout.in_non_confidential(address.value() as int, 8 * old(self)@.len() as int) ==> result is Ok
                && final(self)@ == Self::source_words(*memory, address.value() as int, old(self)@.len()),
            !layout.in_non_confidential(address.value() as int, 8 * old(self)@.len() as int) ==> result
                == Err::<(), Error>(Error::InvalidAddress()) && final(self)@ == old(self)@,
    {
        let start: u64 = address.as_u64();
        let words: usize = self.content.len();
        if words as u64 > u64::MAX / 8 || !layout.is_in_non_confidential_range(start, 8 * (words as u64)) {
            return Err(Error::InvalidAddress());
        }
        let mut index: usize = 0;
        while index < words
            invariant
                index <= words,
                words == self.content.len(),
                self.spec_frame() == old(self).spec_frame(),
                self.spec_size() == old(self).spec_size(),
                start + 8 * words <= u64::MAX,
                start == address.value(),
                forall|i: int| 0 <= i < index ==> self.content@[i] == memory.word(start + 8 * i),
            decreases words - index,
        {
            let word: u64 = memory.read_word(start + 8 * (index as u64));
            self.content[index] = word;
            index += 1;
        }
        assert(self@ =~= Self::source_words(*memory, address.value() as int, old(self)@.len()));
        Ok(())
    }
}

/// A 4 KiB page of non-confidential memory that a confidential VM sees at
/// one of its guest-physical addresses.
#[derive(Debug, Clone, Copy, PartialEq, Eq, Structural)]
pub struct SharedPage {
    hypervisor_address: NonConfidentialMemoryAddress,
    confidential_vm_virtual_address: ConfidentialVmVirtualAddress,
}

impl SharedPage {
    pub closed spec fn spec_hypervisor_address(&self) -> u64 {
        self.hypervisor_address.value()
    }

    pub closed spec fn spec_confidential_vm_virtual_address(&self) -> u64 {
        self.confidential_vm_virtual_address.0
    }

    /// Whether the hypervisor may offer the page at `hypervisor_address` to
    /// be shared: it is a whole 4 KiB page of non-confidential memory.
    pub open spec fn acceptable(hypervisor_address: u64, layout: MemoryLayout) -> bool {
        hypervisor_address % FRAME_SIZE == 0 && layout.in_non_confidential(
            hypervisor_address as int,
            FRAME_SIZE as int,
        )
    }

    /// Pairs the page that the confidential VM asked to share with the page
    /// that the hypervisor offers for it.
    pub fn new(hypervisor_address: u64, request: SharePageRequest, layout: &MemoryLayout) -> (result: Result<
        Self,
        Error,
    >)
        ensures
            Self::acceptable(hypervisor_address, *layout) ==> result is Ok
                && result->Ok_0.spec_hypervisor_address() == hypervisor_address
                && result->Ok_0.spec_confidential_vm_virtual_address()
                == request.confidential_vm_virtual_address.0,
            !Self::acceptable(hypervisor_address, *layout) ==> result == Err::<Self, Error>(
                Error::InvalidAddress(),
            ),
    {
        if hypervisor_address % FRAME_SIZE != 0 || !layout.is_in_non_confidential_range(
            hypervisor_address,
            FRAME_SIZE,
        ) {
            return Err(Error::InvalidAddress());
        }
        let address = NonConfidentialMemoryAddress::new(hypervisor_address, layout)?;
        Ok(
            Self {
                hypervisor_address: address,
                confidential_vm_virtual_address: request.confidential_vm_virtual_address(),
            },
        )
    }

    pub fn hypervisor_address(&self) -> (address: NonConfidentialMemoryAddress)
        ensures
            address.value() == self.spec_hypervisor_address(),
    {
        self.hypervisor_address
    }

    pub fn confidential_vm_virtual_address(&self) -> (address: ConfidentialVmVirtualAddress)
        ensures
            address.0 == self.spec_confidential_vm_virtual_address(),
    {
        self.confidential_vm_virtual_address
    }
}

} // verus!
