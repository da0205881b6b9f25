use crate::error::Error;
use crate::memory::layout::{FRAME_SIZE, WORDS_PER_FRAME};
use crate::memory::{ConfidentialMemoryAddress, MemoryLayout, MemoryTracker, NonConfidentialMemory,
    NonConfidentialMemoryAddress, Page};
use crate::mmu::paging_system::{PageTableLevel, PagingSystem};
use crate::memory::tracker::{pool_first_fit, pool_without};
use crate::mmu::PageSize;
use vstd::prelude::*;

verus! {

/// The memory that the hardware reads a page table from: adjacent 4 KiB
/// pages of confidential memory that hold the raw entries.
pub struct PageTableMemory {
    pages: Vec<Page>,
    number_of_entries: usize,
}

impl View for PageTableMemory {
    type V = Seq<u64>;

    /// The raw entries, in the order of their indices.
    closed spec fn view(&self) -> Seq<u64> {
        Seq::new(
            self.number_of_entries as nat,
            |i: int| self.pages@[i / WORDS_PER_FRAME as int]@[i % WORDS_PER_FRAME as int],
        )
    }
}

impl PageTableMemory {
    /// Number of the first frame of the memory.
    pub closed spec fn spec_start_frame(&self) -> int {
        self.pages@[0].spec_frame()
    }

    /// Number of frames that the memory takes.
    pub closed spec fn spec_frames(&self) -> int {
        self.pages@.len() as int
    }

    /// Physical address of the first raw entry.
    pub open spec fn spec_start_address(&self) -> int {
        self.spec_start_frame() * FRAME_SIZE as int
    }

    /// Whether the frame is one of the frames of the memory.
    pub open spec fn owns(&self, frame: int) -> bool {
        self.spec_start_frame() <= frame < self.spec_start_frame() + self.spec_frames()
    }

    /// The memory is made of adjacent 4 KiB pages, and they hold exactly
    /// the raw entries.
    pub closed spec fn wf(&self) -> bool {
        &&& self.pages@.len() >= 1
        &&& self.number_of_entries == self.pages@.len() * WORDS_PER_FRAME
        &&& forall|i: int|
            0 <= i < self.pages@.len() ==> {
                &&& (#[trigger] self.pages@[i]).wf()
                &&& self.pages@[i].spec_size() == PageSize::Size4KiB
                &&& self.pages@[i].spec_frame() == self.pages@[0].spec_frame() + i
            }
    }

    /// Whether the memory lies in confidential memory.
    pub open spec fn is_confidential(&self, layout: MemoryLayout) -> bool {
        layout.first_frame() <= self.spec_start_frame() && self.spec_start_frame() + self.spec_frames()
            <= layout.end_frame()
    }

    /// The memory is not empty, it holds 512 raw entries per frame, and its
    /// frames have physical page numbers.
    pub proof fn lemma_extent(&self)
        requires
            self.wf(),
        ensures
            self.spec_frames() >= 1,
            self@.len() == self.spec_frames() * WORDS_PER_FRAME,
            0 <= self.spec_start_frame(),
            self.spec_start_frame() + self.spec_frames() <= crate::memory::layout::FRAME_LIMIT,
    {
        assert(self.pages@[self.pages@.len() - 1].wf());
        assert(self.pages@[0].wf());
    }

    fn from_pages(pages: Vec<Page>, layout: Ghost<MemoryLayout>) -> (memory: Self)
        requires
            pages@.len() >= 1,
            pages@.len() * WORDS_PER_FRAME <= usize::MAX,
            MemoryTracker::handed_out(pages@, pages@[0].spec_frame(), PageSize::Size4KiB, layout@),
        ensures
            memory.wf(),
            memory.is_confidential(layout@),
            memory.spec_start_frame() == pages@[0].spec_frame(),
            memory.spec_frames() == pages@.len(),
            memory@.len() == pages@.len() * WORDS_PER_FRAME,
            forall|i: int| 0 <= i < memory@.len() ==> memory@[i] == 0,
    {
        let number_of_entries: usize = pages.len() * WORDS_PER_FRAME;
        let memory = Self { pages, number_of_entries };
        proof {
            assert(memory.pages@[0].is_confidential(layout@));
            assert(memory.pages@[memory.pages@.len() - 1].is_confidential(layout@));
            assert forall|i: int| 0 <= i < memory@.len() implies memory@[i] == 0 by {
                let page = memory.pages@[i / WORDS_PER_FRAME as int];
                assert(page.wf());
            }
        }
        memory
    }

    /// Takes zeroed memory for a page table of the given level from the
    /// pool. Fails only if the pool holds no run of pages for it.
    pub fn empty(paging_system: PagingSystem, level: PageTableLevel, tracker: &mut MemoryTracker) -> (result: Result<
        Self,
        Error,
    >)
        requires
            old(tracker).wf(),
        ensures
            final(tracker).wf(),
            final(tracker).layout() == old(tracker).layout(),
            result matches Ok(memory) ==> {
                &&& memory.wf()
                &&& memory.is_confidential(old(tracker).layout())
                &&& memory@.len() == paging_system.spec_entries(level)
                &&& forall|i: int| 0 <= i < memory@.len() ==> memory@[i] == 0
                &&& forall|frame: int| memory.owns(frame) ==> #[trigger] old(tracker).is_free(frame)
                &&& forall|frame: int|
                    #![trigger final(tracker).is_free(frame)]
                #![trigger old(tracker).is_free(frame)]
                    #![trigger old(tracker).is_free(frame)]
                    final(tracker).is_free(frame) == (old(tracker).is_free(frame) && !memory.owns(frame))
            },
            result matches Err(error) ==> {
                &&& error == Error::OutOfMemory()
                &&& forall|frame: int|
                    #![trigger final(tracker).is_free(frame)]
                    #![trigger old(tracker).is_free(frame)]
                    final(tracker).is_free(frame) == old(tracker).is_free(frame)
            },
            result is Err <==> forall|start: int|
                !old(tracker).can_serve(start, Self::spec_pages(paging_system, level), PageSize::Size4KiB),
            (match pool_first_fit(
                old(tracker).free_set(),
                Self::spec_pages(paging_system, level),
                PageSize::Size4KiB,
            ) {
                Some(start) => result matches Ok(memory) && memory.spec_start_frame() == start
                    && memory.spec_frames() == Self::spec_pages(paging_system, level)
                    && final(tracker).free_set() == pool_without(
                    old(tracker).free_set(),
                    start,
                    Self::spec_pages(paging_system, level) as int,
                ),
                None => result is Err && final(tracker).free_set() == old(tracker).free_set(),
            }),
    {
        let number_of_pages: usize = paging_system.configuration_pages(level);
        assert(number_of_pages == Self::spec_pages(paging_system, level));
        assert(number_of_pages * PageSize::Size4KiB.frames() == number_of_pages);
        let acquired = tracker.acquire_continuous_pages(number_of_pages, PageSize::Size4KiB);
        let pages = match acquired {
            Ok(pages) => pages,
            Err(error) => {
                return Err(error);
            },
        };
        proof {
            let start = pages@[0].spec_frame();
            assert(old(tracker).can_serve(start, number_of_pages, PageSize::Size4KiB));
        }
        Ok(Self::from_pages(pages, Ghost(tracker.layout())))
    }

    /// Number of 4 KiB pages that hold a page table of the given level.
    pub open spec fn spec_pages(paging_system: PagingSystem, level: PageTableLevel) -> usize {
        if level == PageTableLevel::Level5 {
            4
        } else {
            1
        }
    }

    /// What the `entries` raw entries of a page table at `address` in
    /// non-confidential memory hold.
    pub open spec fn source(memory: NonConfidentialMemory, address: int, entries: nat) -> Seq<u64> {
        Seq::new(entries, |i: int| memory.word(address + 8 * i))
    }

    /// Takes memory for a page table of the given level from the pool and
    /// copies into it the raw entries of the page table that the hypervisor
    /// keeps at the address. Takes nothing, and fails, if that table does
    /// not lie in non-confidential memory.
    pub fn copy_from_non_confidential_memory(
        address: NonConfidentialMemoryAddress,
        paging_system: PagingSystem,
        level: PageTableLevel,
        memory: &NonConfidentialMemory,
        tracker: &mut MemoryTracker,
    ) -> (result: Result<Self, Error>)
        requires
            old(tracker).wf(),
        ensures
            final(tracker).wf(),
            final(tracker).layout() == old(tracker).layout(),
            result matches Ok(table) ==> {
                &&& table.wf()
                &&& table.is_confidential(old(tracker).layout())
                &&& table@ == Self::source(*memory, address.value() as int, paging_system.spec_entries(level))
                &&& old(tracker).layout().in_non_confidential(
                    address.value() as int,
                    8 * paging_system.spec_entries(level) as int,
                )
                &&& forall|frame: int| table.owns(frame) ==> #[trigger] old(tracker).is_free(frame)
                &&& forall|frame: int|
                    #![trigger final(tracker).is_free(frame)]
                #![trigger old(tracker).is_free(frame)]
                    #![trigger old(tracker).is_free(frame)]
                    final(tracker).is_free(frame) == (old(tracker).is_free(frame) && !table.owns(frame))
            },
            result matches Err(error) ==> {
                &&& forall|frame: int|
                    #![trigger final(tracker).is_free(frame)]
                    #![trigger old(tracker).is_free(frame)]
                    final(tracker).is_free(frame) == old(tracker).is_free(frame)
                &&& error == if old(tracker).layout().in_non_confidential(
                    address.value() as int,
                    8 * paging_system.spec_entries(level) as int,
                ) {
                    Error::OutOfMemory()
                } else {
                    Error::PageTableCorrupted()
                }
            },
            result is Err <==> !old(tracker).layout().in_non_confidential(
                address.value() as int,
                8 * paging_system.spec_entries(level) as int,
            ) || forall|start: int|
                !old(tracker).can_serve(start, Self::spec_pages(paging_system, level), PageSize::Size4KiB),
            old(tracker).layout().in_non_confidential(
                address.value() as int,
                8 * paging_system.spec_entries(level) as int,
            ) ==> (match pool_first_fit(
                old(tracker).free_set(),
                Self::spec_pages(paging_system, level),
                PageSize::Size4KiB,
            ) {
                Some(start) => result matches Ok(table) && table.spec_start_frame() == start
                    && table.spec_frames() == Self::spec_pages(paging_system, level)
                    && final(tracker).free_set() == pool_without(
                    old(tracker).free_set(),
                    start,
                    Self::spec_pages(paging_system, level) as int,
                ),
                None => result is Err && final(tracker).free_set() == old(tracker).free_set(),
            }),
            result is Err ==> final(tracker).free_set() == old(tracker).free_set(),
    {
        let size: usize = paging_system.size_in_bytes(level);
        let start: u64 = address.as_u64();
        let layout: MemoryLayout = tracker.current_layout();
        if !layout.is_in_non_confidential_range(start, size as u64) {
            proof {
                assert(tracker.free_set() =~= old(tracker).free_set());
            }
            return Err(Error::PageTableCorrupted());
        }
        let mut table = Self::empty(paging_system, level, tracker)?;
        let ghost fresh = table;
        let entries: usize = table.number_of_entries;
        let mut index: usize = 0;
        while index < entries
            invariant
                index <= entries,
                entries == table.number_of_entries,
                entries == paging_system.spec_entries(level),
                table.wf(),
                start == address.value(),
                start + 8 * entries <= u64::MAX,
                table.spec_start_frame() == fresh.spec_start_frame(),
                table.spec_frames() == fresh.spec_frames(),
                forall|i: int| 0 <= i < index ==> table@[i] == memory.word(start + 8 * i),
            decreases entries - index,
        {
            let word: u64 = memory.read_word(start + 8 * (index as u64));
            table.set_entry(index, word);
            index += 1;
        }
        assert(table@ =~= Self::source(*memory, address.value() as int, paging_system.spec_entries(level)));
        Ok(table)
    }

    /// Physical address of the first raw entry: what `hgatp` or the entry of
    /// the table above holds.
    pub fn start_address(&self) -> (address: ConfidentialMemoryAddress)
        requires
            self.wf(),
        ensures
            address.value() == self.spec_start_address(),
    {
        self.pages[0].address()
    }

    pub fn number_of_entries(&self) -> (entries: usize)
        ensures
            entries == self@.len(),
    {
        self.number_of_entries
    }

    /// The raw entry with the given index, if the table has that many.
    pub fn entry(&self, index: usize) -> (raw_entry: Option<u64>)
        requires
            self.wf(),
        ensures
            raw_entry == if index < self@.len() {
                Some(self@[index as int])
            } else {
                None
            },
    {
        if index < self.number_of_entries {
            self.pages[index / WORDS_PER_FRAME].read_word(index % WORDS_PER_FRAME)
        } else {
            None
        }
    }

    /// Writes the raw entry with the given index.
    pub fn set_entry(&mut self, index: usize, raw_entry: u64)
        requires
            old(self).wf(),
            index < old(self)@.len(),
        ensures
            final(self).wf(),
            final(self)@ == old(self)@.update(index as int, raw_entry),
            final(self).spec_start_frame() == old(self).spec_start_frame(),
            final(self).spec_frames() == old(self).spec_frames(),
    {
        let page_index: usize = index / WORDS_PER_FRAME;
        assert(old(self).pages@[page_index as int].wf());
        self.pages[page_index].write_word(index % WORDS_PER_FRAME, raw_entry);
        proof {
            assert(final(self)@ =~= old(self)@.update(index as int, raw_entry)) by {
                assert forall|i: int| 0 <= i < self@.len() implies self@[i] == old(self)@.update(
                    index as int,
                    raw_entry,
                )[i] by {
                    let p = i / WORDS_PER_FRAME as int;
                    if p != page_index {
                        assert(self.pages@[p] == old(self).pages@[p]);
                    }
                }
            }
        }
    }

    /// Appends to `image` the raw entries, each with its physical address.
    pub fn write_image(&self, image: &mut Vec<(u64, u64)>)
        requires
            self.wf(),
        ensures
            final(image)@ == old(image)@ + crate::mmu::page_table_view::words_image(
                self.spec_start_address(),
                self@,
            ),
    {
        proof {
            self.lemma_extent();
        }
        let start: u64 = self.start_address().as_u64();
        let ghost before = image@;
        let mut index: usize = 0;
        while index < self.number_of_entries
            invariant
                self.wf(),
                index <= self.number_of_entries,
                self.number_of_entries == self@.len(),
                start == self.spec_start_address(),
                start + 8 * self@.len() <= u64::MAX,
                image@.len() == before.len() + index,
                forall|k: int| 0 <= k < before.len() ==> image@[k] == before[k],
                forall|k: int|
                    0 <= k < index ==> image@[before.len() + k] == ((start + 8 * k) as u64, self@[k]),
            decreases self.number_of_entries - index,
        {
            let raw_entry: u64 = match self.entry(index) {
                Some(raw_entry) => raw_entry,
                None => 0,
            };
            image.push((start + 8 * (index as u64), raw_entry));
            index += 1;
        }
        assert(image@ =~= before + crate::mmu::page_table_view::words_image(self.spec_start_address(), self@));
    }

    /// Puts the memory back into the pool.
    pub fn release(self, tracker: &mut MemoryTracker)
        requires
            old(tracker).wf(),
            self.wf(),
        ensures
            final(tracker).wf(),
            final(tracker).layout() == old(tracker).layout(),
            forall|frame: int|
                #![trigger final(tracker).is_free(frame)]
                #![trigger old(tracker).is_free(frame)]
                final(tracker).is_free(frame) == (old(tracker).is_free(frame) || (self.owns(frame)
                    && old(tracker).layout().is_confidential_frame(frame))),
    {
        let mut pages = self.pages;
        let ghost all = pages@;
        let ghost layout = tracker.layout();
        while pages.len() > 0
            invariant
                tracker.wf(),
                tracker.layout() == layout,
                pages@.len() <= all.len(),
                pages@ == all.take(pages@.len() as int),
                all == self.pages@,
                self.wf(),
                forall|frame: int|
                    #![trigger tracker.is_free(frame)]
                    #![trigger old(tracker).is_free(frame)]
                    tracker.is_free(frame) == (old(tracker).is_free(frame) || (self.owns(frame) && frame
                        >= self.spec_start_frame() + pages@.len() && layout.is_confidential_frame(frame))),
            decreases pages@.len(),
        {
            let ghost remaining = pages@.len();
            let page = pages.pop().unwrap();
            proof {
                assert(page == all[remaining - 1]);
                assert(self.pages@[remaining - 1].wf());
                assert(page.covers(self.spec_start_frame() + remaining - 1));
                assert(pages@ =~= all.take(remaining - 1));
            }
            tracker.release_page(page);
        }
    }
}

} // verus!
