use crate::error::Error;
use crate::memory::layout::FRAME_SIZE;
use crate::memory::{
    ConfidentialMemoryAddress, MemoryLayout, MemoryTracker, NonConfidentialMemory, NonConfidentialMemoryAddress,
    SharedPage,
};
use crate::mmu::page_table_entry::{
    PageTableAddress, PageTableBits, PageTableConfiguration, PageTableEntry, PageTablePermission, PTE_VALID,
};
use crate::mmu::page_table_memory::PageTableMemory;
use crate::memory::tracker::{pool_first_fit, pool_without};
use crate::mmu::page_table_view::{
    copy_outcome, entries_outcome, entry_outcome, exclusive, lemma_entries_outcome_stays_failed, lemma_exclusive_push,
    lemma_exclusive_update, source_entry_is_sound, source_is_sound, EntryView, TableView, Translation,
};
use crate::mmu::paging_system::{ConfidentialVmVirtualAddress, PageTableLevel, PagingSystem};
use crate::mmu::PageSize;
use vstd::prelude::*;

verus! {

/// A page table of a confidential VM: the raw entries in confidential
/// memory and, entry by entry, what they stand for.
pub struct PageTable {
    level: PageTableLevel,
    page_table_memory: PageTableMemory,
    entries: Vec<PageTableEntry>,
}

impl View for PageTable {
    type V = TableView;

    /// The table and everything below it, as a mathematical tree.
    closed spec fn view(&self) -> TableView {
        self.model()
    }
}

impl PageTable {
    /// The level of the table.
    pub closed spec fn spec_level(&self) -> PageTableLevel {
        self.level
    }

    pub closed spec fn model(&self) -> TableView
        decreases self.spec_level().number(), 1nat,
    {
        TableView {
            level: self.level,
            start_frame: self.page_table_memory.spec_start_frame(),
            frames: self.page_table_memory.spec_frames(),
            raw: self.page_table_memory@,
            entries: Seq::new(self.entries@.len(), |i: int| Self::entry_view(self.entries@[i], self.level)),
        }
    }

    /// What an entry of a table of the given level stands for.
    pub closed spec fn entry_view(entry: PageTableEntry, level: PageTableLevel) -> EntryView
        decreases level.number(), 0nat,
    {
        match entry {
            PageTableEntry::NotValid => EntryView::NotValid,
            PageTableEntry::Leaf(page, configuration, permission) => EntryView::Leaf {
                frame: page.spec_frame(),
                size: page.spec_size(),
                content: page@,
                configuration,
                permission,
            },
            PageTableEntry::Pointer(table, configuration) => if table.spec_level().number() < level.number() {
                EntryView::Pointer { table: table.model(), configuration }
            } else {
                EntryView::NotValid
            },
            PageTableEntry::Shared(address, configuration, permission) => EntryView::Shared {
                address: address.value(),
                configuration,
                permission,
            },
        }
    }

    /// What the entries of a table of the given level stand for.
    pub closed spec fn entry_views(entries: Seq<PageTableEntry>, level: PageTableLevel) -> Seq<EntryView> {
        Seq::new(entries.len(), |i: int| Self::entry_view(entries[i], level))
    }

    /// What the model does not show: the memory of the raw entries is well
    /// formed, and every table hangs below a table of a higher level.
    pub closed spec fn inv(&self) -> bool
        decreases self.spec_level().number(), 1nat,
    {
        &&& self.page_table_memory.wf()
        &&& forall|i: int| 0 <= i < self.entries@.len() ==> Self::entry_inv(#[trigger] self.entries@[i], self.level)
    }

    pub closed spec fn entry_inv(entry: PageTableEntry, level: PageTableLevel) -> bool
        decreases level.number(), 0nat,
    {
        match entry {
            PageTableEntry::Pointer(table, _) => table.spec_level().number() < level.number() && table.inv(),
            _ => true,
        }
    }

    /// The table is a page table of a confidential VM in the given memory.
    pub open spec fn wf(&self, layout: MemoryLayout) -> bool {
        self.inv() && self@.wf(layout)
    }

    /// The raw entry that stands for an entry of a table of the given level.
    fn encode_entry(entry: &PageTableEntry, level: PageTableLevel) -> (raw_entry: u64)
        requires
            Self::entry_inv(*entry, level),
            entry matches PageTableEntry::Leaf(page, _, _) ==> page.wf(),
        ensures
            raw_entry == Self::entry_view(*entry, level).encode(),
    {
        match entry {
            PageTableEntry::NotValid => 0,
            PageTableEntry::Leaf(page, configuration, permission) => {
                PTE_VALID | permission.encode() | configuration.encode() | PageTableAddress::encode(
                    page.address().as_u64(),
                )
            },
            PageTableEntry::Pointer(table, configuration) => {
                PTE_VALID | configuration.encode() | PageTableAddress::encode(table.address().as_u64())
            },
            PageTableEntry::Shared(address, configuration, permission) => {
                PTE_VALID | permission.encode() | configuration.encode() | PageTableAddress::encode(
                    address.as_u64(),
                )
            },
        }
    }

    /// A page table of the given level with no valid entry, in memory taken
    /// from the pool. Fails only if the pool holds no run of pages for it.
    pub fn empty(paging_system: PagingSystem, level: PageTableLevel, tracker: &mut MemoryTracker) -> (result: Result<
        Self,
        Error,
    >)
        requires
            old(tracker).wf(),
        ensures
            final(tracker).wf(),
            final(tracker).layout() == old(tracker).layout(),
            result matches Ok(table) ==> {
                &&& table.wf(old(tracker).layout())
                &&& table@.level == level
                &&& forall|i: int| 0 <= i < table@.entries.len() ==> table@.entries[i] is NotValid
                &&& forall|frame: int| table@.owns(frame) ==> #[trigger] old(tracker).is_free(frame)
                &&& forall|frame: int|
                    #![trigger final(tracker).is_free(frame)]
                    #![trigger old(tracker).is_free(frame)]
                    final(tracker).is_free(frame) == (old(tracker).is_free(frame) && !table@.owns(frame))
            },
            result matches Err(error) ==> {
                &&& error == Error::OutOfMemory()
                &&& forall|frame: int|
                    #![trigger final(tracker).is_free(frame)]
                    #![trigger old(tracker).is_free(frame)]
                    final(tracker).is_free(frame) == old(tracker).is_free(frame)
            },
            result is Err <==> forall|start: int|
                !old(tracker).can_serve(
                    start,
                    PageTableMemory::spec_pages(paging_system, level),
                    PageSize::Size4KiB,
                ),
            (match pool_first_fit(
                old(tracker).free_set(),
                PageTableMemory::spec_pages(paging_system, level),
                PageSize::Size4KiB,
            ) {
                Some(start) => result matches Ok(table) && table@ == TableView::empty(level, start)
                    && final(tracker).free_set() == pool_without(
                    old(tracker).free_set(),
                    start,
                    PageTableMemory::spec_pages(paging_system, level) as int,
                ),
                None => result is Err && final(tracker).free_set() == old(tracker).free_set(),
            }),
    {
        let page_table_memory = PageTableMemory::empty(paging_system, level, tracker)?;
        let number_of_entries: usize = page_table_memory.number_of_entries();
        let mut entries: Vec<PageTableEntry> = Vec::new();
        let mut index: usize = 0;
        while index < number_of_entries
            invariant
                index <= number_of_entries,
                entries@.len() == index,
                forall|i: int| 0 <= i < index ==> entries@[i] is NotValid,
            decreases number_of_entries - index,
        {
            entries.push(PageTableEntry::NotValid);
            index += 1;
        }
        let table = Self { level, page_table_memory, entries };
        proof {
            page_table_memory.lemma_extent();
            assert forall|i: int| 0 <= i < table@.entries.len() implies {
                &&& (#[trigger] table@.entries[i]) is NotValid
                &&& table@.raw[i] == table@.entries[i].encode()
            } by {
                assert(table.entries@[i] is NotValid);
            }
            let emptied = TableView::empty(level, page_table_memory.spec_start_frame());
            assert(table@.raw =~= emptied.raw);
            assert(table@.entries =~= emptied.entries);
            assert forall|frame: int| table@.owns(frame) == page_table_memory.owns(frame) by {
                if table@.owns(frame) && !page_table_memory.owns(frame) {
                    let i = choose|i: int| 0 <= i < table@.entries.len()
                        && (#[trigger] table@.entries[i]).owns(frame);
                    assert(table@.entries[i] is NotValid);
                }
            }
        }
        Ok(table)
    }

    /// Whether `entry` is the finished copy of the raw entry `source` of a
    /// table of the hypervisor, and `raw_entry` the word that now stands in
    /// its place.
    pub closed spec fn copied(
        entry: PageTableEntry,
        raw_entry: u64,
        source: u64,
        level: PageTableLevel,
        layout: MemoryLayout,
        memory: NonConfidentialMemory,
    ) -> bool {
        &&& Self::entry_inv(entry, level)
        &&& Self::entry_view(entry, level).wf(level, layout)
        &&& Self::entry_view(entry, level).mirrors(source, memory)
        &&& raw_entry == Self::entry_view(entry, level).encode()
        &&& source_entry_is_sound(memory, layout, source, level)
    }

    /// Copies what one raw entry of a table of the hypervisor stands for
    /// into confidential memory: the page of a leaf, the table of a pointer
    /// with all that hangs below it.
    fn copy_entry(
        source: u64,
        paging_system: PagingSystem,
        level: PageTableLevel,
        memory: &NonConfidentialMemory,
        tracker: &mut MemoryTracker,
    ) -> (result: Result<PageTableEntry, Error>)
        requires
            old(tracker).wf(),
        ensures
            final(tracker).wf(),
            final(tracker).layout() == old(tracker).layout(),
            result matches Ok(entry) ==> {
                &&& Self::entry_inv(entry, level)
                &&& Self::entry_view(entry, level).wf(level, old(tracker).layout())
                &&& Self::entry_view(entry, level).mirrors(source, *memory)
                &&& source_entry_is_sound(*memory, old(tracker).layout(), source, level)
                &&& forall|frame: int|
                    Self::entry_view(entry, level).owns(frame) ==> #[trigger] old(tracker).is_free(frame)
                &&& forall|frame: int|
                    #![trigger final(tracker).is_free(frame)]
                    #![trigger old(tracker).is_free(frame)]
                    final(tracker).is_free(frame) == (old(tracker).is_free(frame) && !Self::entry_view(
                        entry,
                        level,
                    ).owns(frame))
            },
            result matches Err(error) ==> {
                &&& error == Error::OutOfMemory() || error == Error::PageTableCorrupted()
                &&& error == Error::PageTableCorrupted() ==> !source_entry_is_sound(
                    *memory,
                    old(tracker).layout(),
                    source,
                    level,
                )
                &&& forall|frame: int|
                    #![trigger final(tracker).is_free(frame)]
                    #![trigger old(tracker).is_free(frame)]
                    final(tracker).is_free(frame) == old(tracker).is_free(frame)
            },
            (match entry_outcome(*memory, old(tracker).layout(), source, level, old(tracker).free_set()) {
                Ok(left) => result is Ok && final(tracker).free_set() == left,
                Err(error) => result == Err::<PageTableEntry, Error>(error),
            }),
        decreases level.number(), 0nat,
    {
        let layout: MemoryLayout = tracker.current_layout();
        if !PageTableBits::is_valid(source) {
            proof {
                assert(tracker.free_set() =~= old(tracker).free_set());
            }
            return Ok(PageTableEntry::NotValid);
        }
        let target: u64 = PageTableAddress::decode(source);
        let configuration = PageTableConfiguration::decode(source);
        if PageTableBits::is_leaf(source) {
            let page_size = paging_system.page_size(level);
            if !layout.is_in_non_confidential_range(target, page_size.in_bytes()) {
                return Err(Error::PageTableCorrupted());
            }
            let address = match NonConfidentialMemoryAddress::new(target, &layout) {
                Ok(address) => address,
                Err(_) => {
                    return Err(Error::PageTableCorrupted());
                },
            };
            let mut pages = match tracker.acquire_continuous_pages(1, page_size) {
                Ok(pages) => pages,
                Err(error) => {
                    return Err(error);
                },
            };
            let mut page = pages.remove(0);
            assert(page.wf());
            assert(1 * page_size.frames() == page_size.frames()) by (nonlinear_arith);
            match page.copy_from_non_confidential_memory(address, memory, &layout) {
                Ok(_) => {},
                Err(_) => {
                    tracker.release_page(page);
                    return Err(Error::PageTableCorrupted());
                },
            }
            let permission = PageTablePermission::decode(source);
            assert(source & (0x2u64 | 0x4u64 | 0x8u64) != 0 ==> (source & 0x2 != 0 || source & 0x4 != 0
                || source & 0x8
                != 0)) by (bit_vector);
            let entry = PageTableEntry::Leaf(Box::new(page), configuration, permission);
            proof {
                let view = Self::entry_view(entry, level);
                assert(view matches EntryView::Leaf { content, .. } && content =~= Seq::new(
                    content.len(),
                    |i: int| memory.word(PageTableAddress::spec_decode(source) + 8 * i),
                ));
            }
            Ok(entry)
        } else {
            let lower_level = match level.lower() {
                Some(lower_level) => lower_level,
                None => {
                    return Err(Error::PageTableCorrupted());
                },
            };
            let address = match NonConfidentialMemoryAddress::new(target, &layout) {
                Ok(address) => address,
                Err(_) => {
                    return Err(Error::PageTableCorrupted());
                },
            };
            let page_table = Self::copy_from_non_confidential_memory(
                address,
                paging_system,
                lower_level,
                memory,
                tracker,
            )?;
            Ok(PageTableEntry::Pointer(Box::new(page_table), configuration))
        }
    }

    /// Copies the page table that the hypervisor keeps at the address, with
    /// all that hangs below it, into confidential memory. The raw entries
    /// are copied first and read from the copy; each is then written anew so
    /// that it references the copy of its target. On failure everything that
    /// was taken from the pool is back in the pool.
    pub fn copy_from_non_confidential_memory(
        address: NonConfidentialMemoryAddress,
        paging_system: PagingSystem,
        level: PageTableLevel,
        memory: &NonConfidentialMemory,
        tracker: &mut MemoryTracker,
    ) -> (result: Result<Self, Error>)
        requires
            old(tracker).wf(),
        ensures
            final(tracker).wf(),
            final(tracker).layout() == old(tracker).layout(),
            result matches Ok(table) ==> {
                &&& table.wf(old(tracker).layout())
                &&& table@.level == level
                &&& table@.mirrors(address.value() as int, *memory)
                &&& source_is_sound(*memory, old(tracker).layout(), address.value() as int, level)
                &&& forall|frame: int| table@.owns(frame) ==> #[trigger] old(tracker).is_free(frame)
                &&& forall|frame: int|
                    #![trigger final(tracker).is_free(frame)]
                    #![trigger old(tracker).is_free(frame)]
                    final(tracker).is_free(frame) == (old(tracker).is_free(frame) && !table@.owns(frame))
            },
            result matches Err(error) ==> {
                &&& error == Error::OutOfMemory() || error == Error::PageTableCorrupted()
                &&& error == Error::PageTableCorrupted() ==> !source_is_sound(
                    *memory,
                    old(tracker).layout(),
                    address.value() as int,
                    level,
                )
                &&& forall|frame: int|
                    #![trigger final(tracker).is_free(frame)]
                    #![trigger old(tracker).is_free(frame)]
                    final(tracker).is_free(frame) == old(tracker).is_free(frame)
                &&& final(tracker).free_set() == old(tracker).free_set()
            },
            (match copy_outcome(
                *memory,
                old(tracker).layout(),
                address.value() as int,
                level,
                old(tracker).free_set(),
            ) {
                Ok(left) => result is Ok && final(tracker).free_set() == left,
                Err(error) => result == Err::<Self, Error>(error),
            }),
        decreases level.number(), 1nat,
    {
        let ghost layout = tracker.layout();
        let ghost start = address.value() as int;
        let mut page_table_memory = match PageTableMemory::copy_from_non_confidential_memory(
            address,
            paging_system,
            level,
            memory,
            tracker,
        ) {
            Ok(page_table_memory) => page_table_memory,
            Err(error) => {
                return Err(error);
            },
        };
        let ghost region = page_table_memory;
        let ghost taken = tracker.free_set();
        proof {
            assert(copy_outcome(*memory, layout, start, level, old(tracker).free_set()) == entries_outcome(
                *memory,
                layout,
                start,
                level,
                taken,
                paging_system.spec_entries(level),
            ));
        }
        let number_of_entries: usize = paging_system.entries(level);
        let mut entries: Vec<PageTableEntry> = Vec::new();
        let mut index: usize = 0;
        while index < number_of_entries
            invariant
                tracker.wf(),
                tracker.layout() == layout,
                old(tracker).layout() == layout,
                start == address.value(),
                index <= number_of_entries,
                number_of_entries == paging_system.spec_entries(level),
                page_table_memory.wf(),
                page_table_memory@.len() == number_of_entries,
                page_table_memory.spec_start_frame() == region.spec_start_frame(),
                page_table_memory.spec_frames() == region.spec_frames(),
                region.is_confidential(layout),
                layout.in_non_confidential(start, 8 * number_of_entries as int),
                entries@.len() == index,
                forall|i: int|
                    0 <= i < index ==> Self::copied(
                        #[trigger] entries@[i],
                        page_table_memory@[i],
                        memory.word(start + 8 * i),
                        level,
                        layout,
                        *memory,
                    ),
                forall|i: int| index <= i < number_of_entries ==> page_table_memory@[i] == memory.word(start + 8 * i),
                exclusive(region.spec_start_frame(), region.spec_frames(), Self::entry_views(entries@, level)),
                entries_outcome(*memory, layout, start, level, taken, index as nat) == Ok::<Set<int>, Error>(
                    tracker.free_set(),
                ),
                copy_outcome(*memory, layout, start, level, old(tracker).free_set()) == entries_outcome(
                    *memory,
                    layout,
                    start,
                    level,
                    taken,
                    number_of_entries as nat,
                ),
                forall|frame: int|
                    (region.owns(frame) || Self::entries_own(entries@, level, frame))
                        ==> #[trigger] old(tracker).is_free(frame),
                forall|frame: int|
                    #![trigger tracker.is_free(frame)]
                    #![trigger old(tracker).is_free(frame)]
                    tracker.is_free(frame) == (old(tracker).is_free(frame) && !region.owns(frame)
                        && !Self::entries_own(entries@, level, frame)),
            decreases number_of_entries - index,
        {
            let source: u64 = match page_table_memory.entry(index) {
                Some(source) => source,
                None => 0,
            };
            let ghost before = *tracker;
            match Self::copy_entry(source, paging_system, level, memory, tracker) {
                Ok(entry) => {
                    proof {
                        assert(source == memory.word(start + 8 * index));
                        assert(entries_outcome(*memory, layout, start, level, taken, (index + 1) as nat) == Ok::<
                            Set<int>,
                            Error,
                        >(tracker.free_set()));
                    }
                    let raw_entry: u64 = Self::encode_entry(&entry, level);
                    let ghost raw_before = page_table_memory@;
                    page_table_memory.set_entry(index, raw_entry);
                    proof {
                        Self::lemma_entries_own_push(entries@, entry, level);
                        let views = Self::entry_views(entries@, level);
                        let view = Self::entry_view(entry, level);
                        assert forall|frame: int|
                            region.spec_start_frame() <= frame < region.spec_start_frame()
                                + region.spec_frames() implies !(#[trigger] view.owns(frame)) by {
                            if view.owns(frame) {
                                assert(before.is_free(frame));
                                assert(region.owns(frame));
                            }
                        }
                        assert forall|i: int, frame: int| 0 <= i < views.len() implies !(#[trigger] views[i].owns(
                            frame,
                        ) && #[trigger] view.owns(frame)) by {
                            if view.owns(frame) && views[i].owns(frame) {
                                assert(before.is_free(frame));
                                assert(Self::entry_view(entries@[i], level).owns(frame));
                                assert(Self::entries_own(entries@, level, frame));
                            }
                        }
                        lemma_exclusive_push(region.spec_start_frame(), region.spec_frames(), views, view);
                        assert(Self::entry_views(entries@.push(entry), level) =~= views.push(view));
                        assert forall|i: int| 0 <= i < index + 1 implies Self::copied(
                            #[trigger] entries@.push(entry)[i],
                            page_table_memory@[i],
                            memory.word(start + 8 * i),
                            level,
                            layout,
                            *memory,
                        ) by {
                            if i < index {
                                assert(entries@.push(entry)[i] == entries@[i]);
                                assert(page_table_memory@[i] == raw_before[i]);
                            }
                        }
                    }
                    entries.push(entry);
                },
                Err(error) => {
                    proof {
                        assert forall|i: int| 0 <= i < entries@.len() implies Self::entry_inv(
                            #[trigger] entries@[i],
                            level,
                        ) && Self::entry_view(entries@[i], level).wf(level, layout) by {
                            assert(Self::copied(
                                entries@[i],
                                page_table_memory@[i],
                                memory.word(start + 8 * i),
                                level,
                                layout,
                                *memory,
                            ));
                        }
                        if error == Error::PageTableCorrupted() {
                            assert(source == memory.word(start + 8 * index));
                            assert(!source_is_sound(*memory, layout, start, level));
                        }
                        assert(source == memory.word(start + 8 * index));
                        assert(entries_outcome(*memory, layout, start, level, taken, (index + 1) as nat) == Err::<
                            Set<int>,
                            Error,
                        >(error));
                        lemma_entries_outcome_stays_failed(
                            *memory,
                            layout,
                            start,
                            level,
                            taken,
                            (index + 1) as nat,
                            number_of_entries as nat,
                        );
                    }
                    Self::release_entries(entries, level, tracker);
                    page_table_memory.release(tracker);
                    proof {
                        assert(tracker.free_set() =~= old(tracker).free_set());
                        assert forall|frame: int| region.owns(frame) implies layout.is_confidential_frame(frame) by {}
                    }
                    return Err(error);
                },
            }
            index += 1;
        }
        let table = Self { level, page_table_memory, entries };
        proof {
            page_table_memory.lemma_extent();
            table.lemma_owns();
            assert(table@.entries =~= Self::entry_views(table.entries@, level));
            assert forall|i: int| 0 <= i < table.entries@.len() implies Self::entry_inv(
                #[trigger] table.entries@[i],
                level,
            ) by {
                assert(Self::copied(
                    table.entries@[i],
                    page_table_memory@[i],
                    memory.word(start + 8 * i),
                    level,
                    layout,
                    *memory,
                ));
            }
            assert forall|i: int| 0 <= i < table@.entries.len() implies {
                &&& (#[trigger] table@.entries[i]).wf(level, layout)
                &&& table@.raw[i] == table@.entries[i].encode()
                &&& table@.entries[i].mirrors(memory.word(start + 8 * i), *memory)
            } by {
                assert(Self::copied(
                    table.entries@[i],
                    page_table_memory@[i],
                    memory.word(start + 8 * i),
                    level,
                    layout,
                    *memory,
                ));
            }
            assert forall|i: int| 0 <= i < number_of_entries implies source_entry_is_sound(
                *memory,
                layout,
                #[trigger] memory.word(start + 8 * i),
                level,
            ) by {
                assert(Self::copied(
                    table.entries@[i],
                    page_table_memory@[i],
                    memory.word(start + 8 * i),
                    level,
                    layout,
                    *memory,
                ));
            }
        }
        Ok(table)
    }

    /// Whether one of the entries but the one at `index` owns the frame.
    pub closed spec fn others_own(entries: Seq<PageTableEntry>, index: int, level: PageTableLevel, frame: int)
        -> bool {
        exists|i: int| 0 <= i < entries.len() && i != index && Self::entry_view(#[trigger] entries[i],
            level).owns(frame)
    }

    proof fn lemma_entries_own_split(entries: Seq<PageTableEntry>, index: int, level: PageTableLevel)
        requires
            0 <= index < entries.len(),
        ensures
            forall|frame: int|
                #![trigger Self::entries_own(entries, level, frame)]
                Self::entries_own(entries, level, frame) == (Self::others_own(entries, index, level, frame)
                    || Self::entry_view(entries[index], level).owns(frame)),
    {
        assert forall|frame: int|
            #![trigger Self::entries_own(entries, level, frame)]
            Self::entries_own(entries, level, frame) == (Self::others_own(entries, index, level, frame)
                || Self::entry_view(entries[index], level).owns(frame)) by {
            if Self::entries_own(entries, level, frame) {
                let i = choose|i: int|
                    0 <= i < entries.len() && Self::entry_view(#[trigger] entries[i], level).owns(frame);
                if i != index {
                    assert(Self::others_own(entries, index, level, frame));
                }
            }
        }
    }

    proof fn lemma_others_own_update(
        entries: Seq<PageTableEntry>,
        index: int,
        entry: PageTableEntry,
        level: PageTableLevel,
    )
        requires
            0 <= index < entries.len(),
        ensures
            forall|frame: int|
                #![trigger Self::others_own(entries.update(index, entry), index, level, frame)]
                Self::others_own(entries.update(index, entry), index, level, frame) == Self::others_own(
                    entries,
                    index,
                    level,
                    frame,
                ),
    {
        let updated = entries.update(index, entry);
        assert forall|frame: int|
            #![trigger Self::others_own(entries.update(index, entry), index, level, frame)]
            Self::others_own(updated, index, level, frame) == Self::others_own(entries, index, level, frame) by {
            if Self::others_own(updated, index, level, frame) {
                let i = choose|i: int|
                    0 <= i < updated.len() && i != index && Self::entry_view(#[trigger] updated[i],
                        level).owns(frame);
                assert(entries[i] == updated[i]);
            }
            if Self::others_own(entries, index, level, frame) {
                let i = choose|i: int|
                    0 <= i < entries.len() && i != index && Self::entry_view(#[trigger] entries[i],
                        level).owns(frame);
                assert(entries[i] == updated[i]);
            }
        }
    }

    /// Puts an entry into the slot with the given index, writes the raw
    /// entry that stands for it, and puts what the entry that was in the
    /// slot owned back into the pool.
    fn set_entry(&mut self, index: usize, entry: PageTableEntry, tracker: &mut MemoryTracker)
        requires
            old(tracker).wf(),
            old(self).wf(old(tracker).layout()),
            index < old(self)@.entries.len(),
            Self::entry_inv(entry, old(self).spec_level()),
            Self::entry_view(entry, old(self).spec_level()).wf(old(self).spec_level(), old(tracker).layout()),
            forall|frame: int|
                #[trigger] Self::entry_view(entry, old(self).spec_level()).owns(frame) ==> !old(self)@.owns(frame),
        ensures
            final(tracker).wf(),
            final(tracker).layout() == old(tracker).layout(),
            final(self).wf(old(tracker).layout()),
            final(self).spec_level() == old(self).spec_level(),
            final(self)@ == (TableView {
                raw: old(self)@.raw.update(
                    index as int,
                    Self::entry_view(entry, old(self).spec_level()).encode(),
                ),
                entries: old(self)@.entries.update(index as int, Self::entry_view(entry, old(self).spec_level())),
                ..old(self)@
            }),
            forall|frame: int|
                #![trigger final(tracker).is_free(frame)]
                #![trigger old(tracker).is_free(frame)]
                final(tracker).is_free(frame) == (old(tracker).is_free(frame)
                    || old(self)@.entries[index as int].owns(
                    frame,
                )),
            forall|frame: int|
                #![trigger final(self)@.owns(frame)]
                final(self)@.owns(frame) == ((old(self)@.owns(frame) && !old(self)@.entries[index as int].owns(frame))
                    || Self::entry_view(entry, old(self).spec_level()).owns(frame)),
    {
        let ghost layout = tracker.layout();
        let ghost before = *self;
        let level = self.level;
        let raw_entry: u64 = Self::encode_entry(&entry, level);
        proof {
            assert(before@.entries[index as int].wf(level, layout));
            assert(Self::entry_inv(before.entries@[index as int], level));
        }
        self.page_table_memory.set_entry(index, raw_entry);
        let mut displaced = entry;
        core::mem::swap(&mut self.entries[index], &mut displaced);
        proof {
            assert(self.entries@ == before.entries@.update(index as int, entry));
            assert(displaced == before.entries@[index as int]);
            assert(self@.entries =~= before@.entries.update(index as int, Self::entry_view(entry, level)));
            assert forall|i: int| 0 <= i < self.entries@.len() implies Self::entry_inv(
                #[trigger] self.entries@[i],
                level,
            ) by {
                if i != index {
                    assert(Self::entry_inv(before.entries@[i], level));
                }
            }
            assert forall|i: int| 0 <= i < self@.entries.len() implies {
                &&& (#[trigger] self@.entries[i]).wf(level, layout)
                &&& self@.raw[i] == self@.entries[i].encode()
            } by {
                if i != index {
                    assert(before@.entries[i].wf(level, layout));
                }
            }
            before.lemma_owns();
            self.lemma_owns();
            Self::lemma_entries_own_split(before.entries@, index as int, level);
            Self::lemma_entries_own_split(self.entries@, index as int, level);
            Self::lemma_others_own_update(before.entries@, index as int, entry, level);
            let view = Self::entry_view(entry, level);
            let start = before@.start_frame;
            let frames = before@.frames;
            assert forall|frame: int| start <= frame < start + frames implies !(#[trigger] view.owns(frame)) by {
                if view.owns(frame) {
                    assert(!before@.owns(frame));
                }
            }
            assert forall|i: int, frame: int| 0 <= i < before@.entries.len() && i != index implies !(
            #[trigger] before@.entries[i].owns(frame) && #[trigger] view.owns(frame)) by {
                if view.owns(frame) && before@.entries[i].owns(frame) {
                    assert(!before@.owns(frame));
                }
            }
            lemma_exclusive_update(start, frames, before@.entries, index as int, view);
            assert forall|frame: int|
                #![trigger self@.owns(frame)]
                self@.owns(frame) == ((before@.owns(frame) && !before@.entries[index as int].owns(frame))
                    || view.owns(frame)) by {
                let displaced_owns = before@.entries[index as int].owns(frame);
                assert(displaced_owns == Self::entry_view(before.entries@[index as int], level).owns(frame));
                if displaced_owns {
                    assert(!before.page_table_memory.owns(frame));
                    if Self::others_own(before.entries@, index as int, level, frame) {
                        let i = choose|i: int|
                            0 <= i < before.entries@.len() && i != index && Self::entry_view(
                                #[trigger] before.entries@[i],
                                level,
                            ).owns(frame);
                        assert(before@.entries[i].owns(frame));
                    }
                }
            }
        }
        Self::release_entry(displaced, level, tracker);
    }

    /// Maps the guest-physical address of the shared page to the page of
    /// non-confidential memory that the hypervisor offers for it. Walks
    /// down from this table and makes the tables that are missing on the
    /// way. A page of confidential memory that was mapped there goes back
    /// into the pool; a shared page that was mapped there is replaced.
    /// On failure the tables and the pool are what they were.
    pub fn map_shared_page(
        &mut self,
        paging_system: PagingSystem,
        shared_page: &SharedPage,
        tracker: &mut MemoryTracker,
    ) -> (result: Result<(), Error>)
        requires
            old(tracker).wf(),
            old(self).wf(old(tracker).layout()),
            SharedPage::acceptable(shared_page.spec_hypervisor_address(), old(tracker).layout()),
            forall|frame: int| old(self)@.owns(frame) ==> !(#[trigger] old(tracker).is_free(frame)),
        ensures
            final(tracker).wf(),
            final(tracker).layout() == old(tracker).layout(),
            final(self).wf(old(tracker).layout()),
            final(self).spec_level() == old(self).spec_level(),
            final(self)@.start_frame == old(self)@.start_frame,
            final(self)@.frames == old(self)@.frames,
            forall|frame: int| final(self)@.owns(frame) ==> !(#[trigger] final(tracker).is_free(frame)),
            result matches Ok(_) ==> {
                let address = shared_page.spec_confidential_vm_virtual_address();
                &&& final(self)@.resolve(address) == EntryView::shared(shared_page.spec_hypervisor_address())
                &&& forall|other: u64|
                    !(#[trigger] final(self)@.resolve_together(address, other)) ==> final(self)@.resolve(other)
                        == old(self)@.resolve(other)
                &&& forall|frame: int|
                    #![trigger final(self)@.owns(frame)]
                    #![trigger final(tracker).is_free(frame)]
                    (final(self)@.owns(frame) || final(tracker).is_free(frame)) == (old(self)@.owns(frame)
                        || old(tracker).is_free(frame))
            },
            result matches Err(error) ==> {
                &&& error == Error::OutOfMemory()
                &&& final(self)@ == old(self)@
                &&& forall|frame: int|
                    #![trigger final(tracker).is_free(frame)]
                    #![trigger old(tracker).is_free(frame)]
                    final(tracker).is_free(frame) == old(tracker).is_free(frame)
                &&& old(self)@.resolve(shared_page.spec_confidential_vm_virtual_address()) is NotValid
                &&& old(self)@.resolve_level(shared_page.spec_confidential_vm_virtual_address())
                    != PageTableLevel::Level1
                &&& final(tracker).free_set() == old(tracker).free_set()
            },
            (match old(self)@.mapped(
                shared_page.spec_confidential_vm_virtual_address(),
                shared_page.spec_hypervisor_address(),
                old(tracker).free_set(),
            ) {
                Some((view, left)) => result is Ok && final(self)@ == view && final(tracker).free_set() == left,
                None => result is Err,
            }),
        decreases old(self).spec_level().number(),
    {
        let ghost layout = tracker.layout();
        let ghost before = *self;
        let ghost pool = *tracker;
        let ghost address = shared_page.spec_confidential_vm_virtual_address();
        let ghost shared = shared_page.spec_hypervisor_address();
        let ghost goal = self@.mapped(address, shared, tracker.free_set());
        let level = self.level;
        let index: usize = paging_system.vpn(shared_page.confidential_vm_virtual_address(), level);
        proof {
            assert(index == before@.index_of(address));
            assert(before@.entries[index as int].wf(level, layout));
            assert(Self::entry_inv(before.entries@[index as int], level));
            before.lemma_owns();
        }
        let is_pointer = match &self.entries[index] {
            PageTableEntry::Pointer(_, _) => true,
            _ => false,
        };
        if is_pointer {
            proof {
                let child = before.entries@[index as int]->Pointer_0;
                assert forall|frame: int| child@.owns(frame) implies !(#[trigger] pool.is_free(frame)) by {
                    assert(Self::entry_view(before.entries@[index as int], level).owns(frame));
                    assert(Self::entries_own(before.entries@, level, frame));
                    assert(before@.owns(frame));
                }
            }
            let result = match &mut self.entries[index] {
                PageTableEntry::Pointer(next_page_table, _) => next_page_table.map_shared_page(
                    paging_system,
                    shared_page,
                    tracker,
                ),
                _ => Ok(()),
            };
            proof {
                let old_entry = before.entries@[index as int];
                let new_entry = self.entries@[index as int];
                assert(self.entries@ == before.entries@.update(index as int, new_entry));
                assert(self@.entries =~= before@.entries.update(index as int, Self::entry_view(new_entry, level)));
                Self::lemma_entries_own_split(before.entries@, index as int, level);
                {
                    let old_child = old_entry->Pointer_0;
                    let new_child = new_entry->Pointer_0;
                    let view = Self::entry_view(new_entry, level);
                    let start = before@.start_frame;
                    let frames = before@.frames;
                    assert(before@.entries[index as int] matches EntryView::Pointer { table, .. } && table
                        == old_child@);
                    assert forall|frame: int| #[trigger] view.owns(frame) implies (old_child@.owns(frame)
                        || pool.is_free(frame)) by {
                        assert(view.owns(frame) == new_child@.owns(frame));
                        if result is Ok {
                            assert((new_child@.owns(frame) || tracker.is_free(frame)) == (old_child@.owns(frame)
                                || pool.is_free(frame)));
                        }
                    }
                    assert forall|frame: int| start <= frame < start + frames implies !(#[trigger] view.owns(
                        frame,
                    )) by {
                        if view.owns(frame) {
                            assert(before@.owns(frame));
                            if old_child@.owns(frame) {
                                assert(before@.entries[index as int].owns(frame));
                            }
                        }
                    }
                    assert forall|i: int, frame: int| 0 <= i < before@.entries.len() && i != index implies !(
                    #[trigger] before@.entries[i].owns(frame) && #[trigger] view.owns(frame)) by {
                        if view.owns(frame) && before@.entries[i].owns(frame) {
                            assert(before@.owns(frame));
                            if old_child@.owns(frame) {
                                assert(before@.entries[index as int].owns(frame));
                            }
                        }
                    }
                    lemma_exclusive_update(start, frames, before@.entries, index as int, view);
                }
                assert forall|i: int| 0 <= i < self.entries@.len() implies Self::entry_inv(
                    #[trigger] self.entries@[i],
                    level,
                ) by {
                    if i != index {
                        assert(Self::entry_inv(before.entries@[i], level));
                    }
                }
                assert forall|i: int| 0 <= i < self@.entries.len() implies {
                    &&& (#[trigger] self@.entries[i]).wf(level, layout)
                    &&& self@.raw[i] == self@.entries[i].encode()
                } by {
                    if i != index {
                        assert(before@.entries[i].wf(level, layout));
                    } else {
                        assert(before@.raw[i] == before@.entries[i].encode());
                    }
                }
                self.lemma_owns();
                Self::lemma_entries_own_split(before.entries@, index as int, level);
                Self::lemma_entries_own_split(self.entries@, index as int, level);
                Self::lemma_others_own_update(before.entries@, index as int, new_entry, level);
                assert forall|frame: int| self@.owns(frame) implies !(#[trigger] tracker.is_free(frame)) by {
                    let old_child = old_entry->Pointer_0;
                    let new_child = new_entry->Pointer_0;
                    assert(Self::entry_view(new_entry, level).owns(frame) == new_child@.owns(frame));
                    assert(Self::entry_view(old_entry, level).owns(frame) == old_child@.owns(frame));
                    assert(self@.owns(frame) == (self.page_table_memory.owns(frame) || Self::entries_own(
                        self.entries@,
                        level,
                        frame,
                    )));
                    assert(before@.owns(frame) == (before.page_table_memory.owns(frame) || Self::entries_own(
                        before.entries@,
                        level,
                        frame,
                    )));
                    if tracker.is_free(frame) && !new_child@.owns(frame) {
                        assert(before@.owns(frame));
                        if result is Ok {
                            assert((new_child@.owns(frame) || tracker.is_free(frame)) == (old_child@.owns(frame)
                                || pool.is_free(frame)));
                            assert(old_child@.owns(frame));
                            assert(before@.entries[index as int].owns(frame));
                            if Self::others_own(before.entries@, index as int, level, frame) {
                                let i = choose|i: int|
                                    0 <= i < before.entries@.len() && i != index && Self::entry_view(
                                        #[trigger] before.entries@[i],
                                        level,
                                    ).owns(frame);
                                assert(before@.entries[i].owns(frame));
                            }
                        }
                    }
                }
                {
                    let old_child = old_entry->Pointer_0;
                    let new_child = new_entry->Pointer_0;
                    let configuration = before@.entries[index as int]->Pointer_configuration;
                    assert(before@.entries[index as int] == (EntryView::Pointer { table: old_child@, configuration }));
                    assert(self@.entries[index as int] == (EntryView::Pointer { table: new_child@, configuration }));
                    assert(goal == match old_child@.mapped(address, shared, pool.free_set()) {
                        Some((lower, left)) => Some(
                            (
                                before@.with_entry(
                                    index as int,
                                    EntryView::Pointer { table: lower, configuration },
                                ),
                                left,
                            ),
                        ),
                        None => None,
                    });
                    if result is Ok {
                        assert(self@.entries[index as int].encode() == before@.entries[index as int].encode());
                        assert(self@.raw =~= before@.raw.update(index as int, self@.entries[index as int].encode()));
                        assert(self@ == before@.with_entry(index as int, self@.entries[index as int]));
                    }
                }
                if result is Err {
                    assert(self@.entries =~= before@.entries);
                } else {
                    assert(self@.index_of(address) == index);
                    assert(self@.resolve(address) == EntryView::shared(shared_page.spec_hypervisor_address()));
                    let old_child = old_entry->Pointer_0;
                    let new_child = new_entry->Pointer_0;
                    assert(old_entry is Pointer);
                    assert(new_entry is Pointer);
                    assert(before@.entries[index as int] matches EntryView::Pointer { table, .. } && table
                        == old_child@);
                    assert(self@.entries[index as int] matches EntryView::Pointer { table, .. } && table
                        == new_child@);
                    assert forall|other: u64|
                        !(#[trigger] self@.resolve_together(address, other)) implies self@.resolve(other)
                        == before@.resolve(other) by {
                        let i = self@.index_of(other);
                        if i != index {
                            if 0 <= i < self@.entries.len() {
                                assert(self@.entries[i] == before@.entries[i]);
                            }
                        } else {
                            assert(!new_child@.resolve_together(address, other));
                            assert(new_child@.resolve(other) == old_child@.resolve(other));
                        }
                    }
                    assert forall|frame: int|
                        #![trigger self@.owns(frame)]
                        #![trigger tracker.is_free(frame)]
                        (self@.owns(frame) || tracker.is_free(frame)) == (before@.owns(frame) || pool.is_free(
                            frame,
                        )) by {
                        assert(self@.owns(frame) == (self.page_table_memory.owns(frame) || Self::entries_own(
                            self.entries@,
                            level,
                            frame,
                        )));
                        assert(before@.owns(frame) == (before.page_table_memory.owns(frame) || Self::entries_own(
                            before.entries@,
                            level,
                            frame,
                        )));
                        assert(Self::entry_view(new_entry, level).owns(frame) == new_child@.owns(frame));
                        assert(Self::entry_view(old_entry, level).owns(frame) == old_child@.owns(frame));
                        assert((new_child@.owns(frame) || tracker.is_free(frame)) == (old_child@.owns(frame)
                            || pool.is_free(frame)));
                        assert(Self::others_own(self.entries@, index as int, level, frame) == Self::others_own(
                            before.entries@,
                            index as int,
                            level,
                            frame,
                        ));
                    }
                }
            }
            return result;
        }
        let is_empty = match &self.entries[index] {
            PageTableEntry::NotValid => true,
            _ => false,
        };
        let hypervisor_address = shared_page.hypervisor_address();
        let new_entry = if !is_empty || level == PageTableLevel::Level1 {
            proof {
                let displaced = before@.entries[index as int];
                assert(displaced == Self::entry_view(before.entries@[index as int], level));
                assert(goal == Some(
                    (
                        before@.with_entry(index as int, EntryView::shared(shared)),
                        tracker.free_set().union(displaced.owned_frames()),
                    ),
                ));
            }
            PageTableEntry::Shared(
                hypervisor_address,
                PageTableConfiguration::shared_page_configuration(),
                PageTablePermission::shared_page_permission(),
            )
        } else {
            // the table of the next lower level is missing
            let lower_level = match level.lower() {
                Some(lower_level) => lower_level,
                None => level,
            };
            proof {
                assert(before@.entries[index as int] is NotValid);
                assert(level.spec_lower() == Some(lower_level));
                assert(PageTableMemory::spec_pages(paging_system, lower_level) == 1);
            }
            let mut next_page_table = match PageTable::empty(paging_system, lower_level, tracker) {
                Ok(next_page_table) => next_page_table,
                Err(error) => {
                    proof {
                        assert(goal is None);
                    }
                    return Err(error);
                },
            };
            let ghost fresh = next_page_table;
            let ghost start = fresh@.start_frame;
            let ghost emptied = tracker.free_set();
            proof {
                assert(pool_first_fit(pool.free_set(), 1, PageSize::Size4KiB) == Some(start));
                assert(fresh@ == TableView::empty(lower_level, start));
                assert(emptied == pool_without(pool.free_set(), start, 1));
                assert(goal == match fresh@.mapped(address, shared, emptied) {
                    Some((child, left)) => Some(
                        (
                            before@.with_entry(
                                index as int,
                                EntryView::Pointer {
                                    table: child,
                                    configuration: PageTableConfiguration::spec_empty(),
                                },
                            ),
                            left,
                        ),
                    ),
                    None => None,
                });
            }
            match next_page_table.map_shared_page(paging_system, shared_page, tracker) {
                Ok(_) => {},
                Err(error) => {
                    next_page_table.release(tracker);
                    proof {
                        assert(goal is None);
                        assert(tracker.free_set() =~= pool.free_set());
                    }
                    return Err(error);
                },
            }
            proof {
                let built = PageTableEntry::Pointer(Box::new(next_page_table), PageTableConfiguration::spec_empty());
                assert(Self::entry_view(built, level) == (EntryView::Pointer {
                    table: next_page_table@,
                    configuration: PageTableConfiguration::spec_empty(),
                }));
                assert(tracker.free_set().union(before@.entries[index as int].owned_frames())
                    =~= tracker.free_set());
                assert(goal == Some(
                    (
                        before@.with_entry(index as int, Self::entry_view(built, level)),
                        tracker.free_set().union(before@.entries[index as int].owned_frames()),
                    ),
                ));
            }
            proof {
                assert forall|other: u64| fresh@.resolve(other) is NotValid by {
                    let i = fresh@.index_of(other);
                    if 0 <= i < fresh@.entries.len() {
                        assert(fresh@.entries[i] is NotValid);
                    }
                }
                assert forall|other: u64|
                    !(#[trigger] next_page_table@.resolve_together(address, other)) implies next_page_table@.resolve(
                    other,
                ) is NotValid by {
                    assert(next_page_table@.resolve(other) == fresh@.resolve(other));
                }
                assert forall|frame: int| #[trigger] next_page_table@.owns(frame) implies pool.is_free(frame) by {
                    if !fresh@.owns(frame) {
                        assert(tracker.is_free(frame) || next_page_table@.owns(frame));
                    }
                }
                let candidate = PageTableEntry::Pointer(
                    Box::new(next_page_table),
                    PageTableConfiguration::spec_empty(),
                );
                assert forall|frame: int| #[trigger]
                    Self::entry_view(candidate, level).owns(frame) implies pool.is_free(frame) by {
                    assert(next_page_table@.owns(frame));
                }
                assert forall|frame: int| #[trigger] tracker.is_free(frame) implies pool.is_free(frame) by {
                    if !fresh@.owns(frame) {
                        assert(tracker.is_free(frame) || next_page_table@.owns(frame));
                    }
                }
            }
            PageTableEntry::Pointer(Box::new(next_page_table), PageTableConfiguration::empty())
        };
        let ghost installed = Self::entry_view(new_entry, level);
        let ghost halfway = *tracker;
        proof {
            assert forall|frame: int| #[trigger] installed.owns(frame) implies !before@.owns(frame) by {
                assert(pool.is_free(frame));
            }
            assert forall|frame: int| #[trigger] halfway.is_free(frame) implies pool.is_free(frame) by {}
        }
        self.set_entry(index, new_entry, tracker);
        proof {
            assert forall|frame: int| self@.owns(frame) implies !(#[trigger] tracker.is_free(frame)) by {
                assert(tracker.is_free(frame) == (halfway.is_free(frame) || before@.entries[index as int].owns(
                    frame,
                )));
                if tracker.is_free(frame) {
                    if installed.owns(frame) {
                        assert(pool.is_free(frame));
                    }
                    if before@.entries[index as int].owns(frame) {
                        assert(Self::entry_view(before.entries@[index as int], level).owns(frame));
                        assert(Self::entries_own(before.entries@, level, frame));
                        assert(before@.owns(frame));
                    }
                }
            }
        }
        proof {
            assert(self@.entries[index as int] == installed);
            assert(self@.index_of(address) == index);
            assert(self@.resolve(address) == EntryView::shared(shared_page.spec_hypervisor_address()));
            assert forall|other: u64| !(#[trigger] self@.resolve_together(address, other)) implies self@.resolve(
                other,
            ) == before@.resolve(other) by {
                let i = self@.index_of(other);
                if i != index {
                    if 0 <= i < self@.entries.len() {
                        assert(self@.entries[i] == before@.entries[i]);
                    }
                } else if installed is Pointer {
                    let table = installed->table;
                    assert(before@.entries[index as int] is NotValid);
                    assert(before@.resolve(other) is NotValid);
                    assert(self@.resolve_together(address, other) == table.resolve_together(address, other));
                    assert(self@.resolve(other) == table.resolve(other));
                } else {
                    assert(self@.resolve_together(address, other));
                }
            }
            assert forall|frame: int|
                #![trigger self@.owns(frame)]
                #![trigger tracker.is_free(frame)]
                (self@.owns(frame) || tracker.is_free(frame)) == (before@.owns(frame) || pool.is_free(frame)) by {
                assert(tracker.is_free(frame) == (halfway.is_free(frame) || before@.entries[index as int].owns(
                    frame,
                )));
                if installed.owns(frame) {
                    assert(pool.is_free(frame));
                }
                if before@.entries[index as int].owns(frame) {
                    assert(Self::entry_view(before.entries@[index as int], level).owns(frame));
                    assert(Self::entries_own(before.entries@, level, frame));
                }
                if pool.is_free(frame) && !halfway.is_free(frame) {
                    assert(installed.owns(frame));
                }
            }
            let displaced = before@.entries[index as int];
            assert(goal == Some(
                (before@.with_entry(index as int, installed), halfway.free_set().union(displaced.owned_frames())),
            ));
            assert(self@ == before@.with_entry(index as int, installed));
            assert(tracker.free_set() =~= halfway.free_set().union(displaced.owned_frames()));
        }
        Ok(())
    }

    /// What a guest finds at a guest-physical address: follows the entries
    /// from this table down to a leaf, a shared page or an empty slot.
    pub fn translate(&self, paging_system: PagingSystem, address: ConfidentialVmVirtualAddress,
        layout: &MemoryLayout) -> (translation: Translation)
        requires
            self.wf(*layout),
        ensures
            translation == self@.translate(address.0),
        decreases self.spec_level().number(),
    {
        let index: usize = paging_system.vpn(address, self.level);
        proof {
            assert(self@.entries[index as int].wf(self.level, *layout));
            assert(Self::entry_inv(self.entries@[index as int], self.level));
            assert(self@.index_of(address.0) == index);
        }
        match &self.entries[index] {
            PageTableEntry::NotValid => Translation::NotMapped,
            PageTableEntry::Leaf(page, configuration, permission) => {
                let size: u64 = page.size().in_bytes();
                let offset: u64 = address.address() % size;
                let start: u64 = page.address().as_u64();
                let words: usize = page.number_of_words();
                proof {
                    assert(page.spec_size().bytes() == page.spec_size().frames() * FRAME_SIZE);
                    assert(0 <= offset / 8 < words);
                    assert(self@.resolve(address.0) == self@.entries[index as int]);
                }
                let word: u64 = match page.read_word((offset / 8) as usize) {
                    Some(word) => word,
                    None => 0,
                };
                Translation::Confidential {
                    address: start + offset,
                    word,
                    permission: *permission,
                    configuration: *configuration,
                }
            },
            PageTableEntry::Pointer(page_table, _) => page_table.translate(paging_system, address, layout),
            PageTableEntry::Shared(shared, configuration, permission) => Translation::Shared {
                page: shared.as_u64(),
                permission: *permission,
                configuration: *configuration,
            },
        }
    }

    /// Appends to `image` what the table and everything below it keeps in
    /// confidential memory, word by word with the physical addresses: what
    /// has to stand in memory for the hardware to translate as the tables
    /// say.
    pub fn write_image(&self, image: &mut Vec<(u64, u64)>, layout: &MemoryLayout)
        requires
            self.wf(*layout),
        ensures
            final(image)@ == old(image)@ + self@.image(),
        decreases self.spec_level().number(),
    {
        let ghost before = image@;
        let ghost view = self@;
        let ghost raw_image = crate::mmu::page_table_view::words_image(view.start_frame * FRAME_SIZE, view.raw);
        self.page_table_memory.write_image(image);
        let mut index: usize = 0;
        while index < self.entries.len()
            invariant
                self.wf(*layout),
                view == self@,
                index <= self.entries@.len(),
                self.entries@.len() == view.entries.len(),
                image@ == before + raw_image + TableView::entries_image(view.entries, index as nat),
            decreases self.entries@.len() - index,
        {
            let ghost so_far = image@;
            proof {
                assert(view.entries[index as int].wf(view.level, *layout));
                assert(Self::entry_inv(self.entries@[index as int], self.level));
                assert(view.entries[index as int] == Self::entry_view(self.entries@[index as int], self.level));
            }
            match &self.entries[index] {
                PageTableEntry::Leaf(page, _, _) => {
                    page.write_image(image);
                },
                PageTableEntry::Pointer(page_table, _) => {
                    page_table.write_image(image, layout);
                },
                _ => {},
            }
            proof {
                let added = view.entries[index as int].image();
                assert(image@ =~= so_far + added);
                assert(TableView::entries_image(view.entries, (index + 1) as nat) == TableView::entries_image(
                    view.entries,
                    index as nat,
                ) + added);
                assert(image@ =~= before + raw_image + TableView::entries_image(view.entries, (index + 1) as nat));
            }
            index += 1;
        }
        assert(image@ =~= before + view.image());
    }

    /// Physical address of the first raw entry of the table.
    pub fn address(&self) -> (address: ConfidentialMemoryAddress)
        requires
            self.inv(),
        ensures
            address.value() == self@.start_frame * FRAME_SIZE,
    {
        self.page_table_memory.start_address()
    }

    pub fn level(&self) -> (level: PageTableLevel)
        ensures
            level == self@.level,
    {
        self.level
    }

    /// Whether one of the entries owns the frame.
    pub closed spec fn entries_own(entries: Seq<PageTableEntry>, level: PageTableLevel, frame: int) -> bool {
        exists|i: int| 0 <= i < entries.len() && Self::entry_view(#[trigger] entries[i], level).owns(frame)
    }

    proof fn lemma_entries_own_push(entries: Seq<PageTableEntry>, entry: PageTableEntry, level: PageTableLevel)
        ensures
            forall|frame: int|
                #![trigger Self::entries_own(entries.push(entry), level, frame)]
                Self::entries_own(entries.push(entry), level, frame) == (Self::entries_own(entries, level, frame)
                    || Self::entry_view(entry, level).owns(frame)),
    {
        let longer = entries.push(entry);
        assert forall|frame: int|
            #![trigger Self::entries_own(entries.push(entry), level, frame)]
            Self::entries_own(longer, level, frame) == (Self::entries_own(entries, level, frame)
                || Self::entry_view(entry, level).owns(frame)) by {
            if Self::entries_own(longer, level, frame) {
                let i = choose|i: int|
                    0 <= i < longer.len() && Self::entry_view(#[trigger] longer[i], level).owns(frame);
                if i < entries.len() {
                    assert(longer[i] == entries[i]);
                }
            }
            if Self::entries_own(entries, level, frame) {
                let i = choose|i: int|
                    0 <= i < entries.len() && Self::entry_view(#[trigger] entries[i], level).owns(frame);
                assert(longer[i] == entries[i]);
            }
            if Self::entry_view(entry, level).owns(frame) {
                assert(longer[entries.len() as int] == entry);
            }
        }
    }

    /// A table owns the frames of its raw entries and what its entries own.
    proof fn lemma_owns(&self)
        ensures
            forall|frame: int|
                #![trigger self@.owns(frame)]
                self@.owns(frame) == (self.page_table_memory.owns(frame) || Self::entries_own(
                    self.entries@,
                    self.level,
                    frame,
                )),
    {
        let view = self@;
        assert forall|frame: int|
            #![trigger self@.owns(frame)]
            view.owns(frame) == (self.page_table_memory.owns(frame) || Self::entries_own(
                self.entries@,
                self.level,
                frame,
            )) by {
            if exists|i: int| 0 <= i < view.entries.len() && (#[trigger] view.entries[i]).owns(frame) {
                let i = choose|i: int| 0 <= i < view.entries.len() && (#[trigger] view.entries[i]).owns(frame);
                assert(Self::entry_view(self.entries@[i], self.level).owns(frame));
            }
            if Self::entries_own(self.entries@, self.level, frame) {
                let i = choose|i: int|
                    0 <= i < self.entries@.len() && Self::entry_view(#[trigger] self.entries@[i], self.level).owns(
                        frame,
                    );
                assert(view.entries[i].owns(frame));
            }
        }
    }

    /// Puts the table with everything below it back into the pool: the
    /// pages of its leaves, the tables that it points to, and the memory of
    /// its raw entries. Shared pages are not touched.
    pub fn release(self, tracker: &mut MemoryTracker)
        requires
            old(tracker).wf(),
            self.wf(old(tracker).layout()),
        ensures
            final(tracker).wf(),
            final(tracker).layout() == old(tracker).layout(),
            forall|frame: int|
                #![trigger final(tracker).is_free(frame)]
                #![trigger old(tracker).is_free(frame)]
                final(tracker).is_free(frame) == (old(tracker).is_free(frame) || self@.owns(frame)),
        decreases self.spec_level().number(), 2nat,
    {
        let ghost layout = tracker.layout();
        proof {
            self.page_table_memory.lemma_extent();
            self.lemma_owns();
            assert forall|i: int| 0 <= i < self.entries@.len() implies Self::entry_view(
                #[trigger] self.entries@[i],
                self.level,
            ).wf(self.level, layout) by {
                assert(self@.entries[i].wf(self.level, layout));
            }
        }
        let level = self.level;
        let page_table_memory = self.page_table_memory;
        Self::release_entries(self.entries, level, tracker);
        page_table_memory.release(tracker);
        proof {
            assert forall|frame: int| page_table_memory.owns(frame) implies layout.is_confidential_frame(frame) by {}
        }
    }

    /// Puts what the entries own back into the pool.
    fn release_entries(entries: Vec<PageTableEntry>, level: PageTableLevel, tracker: &mut MemoryTracker)
        requires
            old(tracker).wf(),
            forall|i: int| 0 <= i < entries@.len() ==> Self::entry_inv(#[trigger] entries@[i], level),
            forall|i: int|
                0 <= i < entries@.len() ==> Self::entry_view(#[trigger] entries@[i], level).wf(
                    level,
                    old(tracker).layout(),
                ),
        ensures
            final(tracker).wf(),
            final(tracker).layout() == old(tracker).layout(),
            forall|frame: int|
                #![trigger final(tracker).is_free(frame)]
                #![trigger old(tracker).is_free(frame)]
                final(tracker).is_free(frame) == (old(tracker).is_free(frame) || Self::entries_own(
                    entries@,
                    level,
                    frame,
                )),
        decreases level.number(), 1nat,
    {
        let ghost layout = tracker.layout();
        let ghost all = entries@;
        let mut entries = entries;
        while entries.len() > 0
            invariant
                tracker.wf(),
                tracker.layout() == layout,
                entries@.len() <= all.len(),
                entries@ == all.take(entries@.len() as int),
                forall|i: int| 0 <= i < all.len() ==> Self::entry_inv(#[trigger] all[i], level),
                forall|i: int| 0 <= i < all.len() ==> Self::entry_view(#[trigger] all[i], level).wf(level, layout),
                forall|frame: int|
                    #![trigger tracker.is_free(frame)]
                    #![trigger old(tracker).is_free(frame)]
                    tracker.is_free(frame) == (old(tracker).is_free(frame) || exists|i: int|
                        entries@.len() <= i < all.len() && Self::entry_view(#[trigger] all[i], level).owns(frame)),
            decreases entries@.len(),
        {
            let ghost remaining = entries@.len();
            let ghost before = *tracker;
            let entry = entries.pop().unwrap();
            proof {
                assert(entry == all[remaining - 1]);
                assert(entries@ =~= all.take(remaining - 1));
            }
            Self::release_entry(entry, level, tracker);
            proof {
                assert forall|frame: int|
                    #![trigger tracker.is_free(frame)]
                    #![trigger old(tracker).is_free(frame)]
                    tracker.is_free(frame) == (old(tracker).is_free(frame) || exists|i: int|
                        remaining - 1 <= i < all.len() && Self::entry_view(#[trigger] all[i], level).owns(frame)) by {
                    let earlier = exists|i: int|
                        remaining <= i < all.len() && Self::entry_view(#[trigger] all[i], level).owns(frame);
                    assert(before.is_free(frame) == (old(tracker).is_free(frame) || earlier));
                    if exists|i: int|
                        remaining - 1 <= i < all.len() && Self::entry_view(#[trigger] all[i], level).owns(frame) {
                        let i = choose|i: int|
                            remaining - 1 <= i < all.len() && Self::entry_view(#[trigger] all[i], level).owns(frame);
                        if i != remaining - 1 {
                            assert(earlier);
                        }
                    }
                }
            }
        }
    }

    /// Puts what an entry owns back into the pool.
    fn release_entry(entry: PageTableEntry, level: PageTableLevel, tracker: &mut MemoryTracker)
        requires
            old(tracker).wf(),
            Self::entry_inv(entry, level),
            Self::entry_view(entry, level).wf(level, old(tracker).layout()),
        ensures
            final(tracker).wf(),
            final(tracker).layout() == old(tracker).layout(),
            forall|frame: int|
                #![trigger final(tracker).is_free(frame)]
                #![trigger old(tracker).is_free(frame)]
                final(tracker).is_free(frame) == (old(tracker).is_free(frame) || Self::entry_view(
                    entry,
                    level,
                ).owns(frame)),
        decreases level.number(), 0nat,
    {
        match entry {
            PageTableEntry::Leaf(page, _, _) => {
                tracker.release_page(*page);
            },
            PageTableEntry::Pointer(table, _) => {
                (*table).release(tracker);
            },
            _ => {},
        }
    }
}

/// The root of the page-table tree of a confidential VM: what `hgatp`
/// points the hardware at.
pub struct RootPageTable {
    paging_system: PagingSystem,
    page_table: PageTable,
}

impl View for RootPageTable {
    type V = TableView;

    /// The tree, from the root table down.
    closed spec fn view(&self) -> TableView {
        self.page_table@
    }
}

impl RootPageTable {
    /// The tree is that of a confidential VM in the given memory.
    pub closed spec fn wf(&self, layout: MemoryLayout) -> bool {
        self.page_table.wf(layout) && self.page_table.spec_level() == PageTableLevel::Level5
    }

    /// Whether the page tables translate the guest-physical address at all:
    /// none of its bits above the 59 that index the tables and the page is
    /// set.
    pub open spec fn in_range(address: u64) -> bool {
        address < 0x800_0000_0000_0000
    }

    /// What a tree that is well formed is made of.
    pub proof fn lemma_wf(&self, layout: MemoryLayout)
        requires
            self.wf(layout),
        ensures
            self@.wf(layout),
            self@.level == PageTableLevel::Level5,
    {
    }

    /// Copies the page tables that the hypervisor keeps for a VM, from the
    /// root table at the address down to the pages, into confidential
    /// memory. On failure everything that was taken from the pool is back
    /// in the pool.
    pub fn copy_from_non_confidential_memory(
        address: NonConfidentialMemoryAddress,
        paging_system: PagingSystem,
        memory: &NonConfidentialMemory,
        tracker: &mut MemoryTracker,
    ) -> (result: Result<Self, Error>)
        requires
            old(tracker).wf(),
        ensures
            final(tracker).wf(),
            final(tracker).layout() == old(tracker).layout(),
            result matches Ok(root) ==> {
                &&& root.wf(old(tracker).layout())
                &&& root@.mirrors(address.value() as int, *memory)
                &&& source_is_sound(*memory, old(tracker).layout(), address.value() as int, PageTableLevel::Level5)
                &&& forall|frame: int| root@.owns(frame) ==> #[trigger] old(tracker).is_free(frame)
                &&& forall|frame: int|
                    #![trigger final(tracker).is_free(frame)]
                    #![trigger old(tracker).is_free(frame)]
                    final(tracker).is_free(frame) == (old(tracker).is_free(frame) && !root@.owns(frame))
            },
            result matches Err(error) ==> {
                &&& error == Error::OutOfMemory() || error == Error::PageTableCorrupted()
                &&& error == Error::PageTableCorrupted() ==> !source_is_sound(
                    *memory,
                    old(tracker).layout(),
                    address.value() as int,
                    PageTableLevel::Level5,
                )
                &&& forall|frame: int|
                    #![trigger final(tracker).is_free(frame)]
                    #![trigger old(tracker).is_free(frame)]
                    final(tracker).is_free(frame) == old(tracker).is_free(frame)
                &&& final(tracker).free_set() == old(tracker).free_set()
            },
            (match copy_outcome(
                *memory,
                old(tracker).layout(),
                address.value() as int,
                PageTableLevel::Level5,
                old(tracker).free_set(),
            ) {
                Ok(left) => result is Ok && final(tracker).free_set() == left,
                Err(error) => result == Err::<Self, Error>(error),
            }),
    {
        let page_table = PageTable::copy_from_non_confidential_memory(
            address,
            paging_system,
            paging_system.levels(),
            memory,
            tracker,
        )?;
        Ok(Self { paging_system, page_table })
    }

    /// Maps the guest-physical address of the shared page to the page of
    /// non-confidential memory that the hypervisor offers for it. Refuses a
    /// page that does not lie in non-confidential memory and an address
    /// that the page tables do not translate. On failure the page tables
    /// and the pool are what they were.
    pub fn map_shared_page(&mut self, shared_page: &SharedPage, tracker: &mut MemoryTracker) -> (result: Result<
        (),
        Error,
    >)
        requires
            old(tracker).wf(),
            old(self).wf(old(tracker).layout()),
            forall|frame: int| old(self)@.owns(frame) ==> !(#[trigger] old(tracker).is_free(frame)),
        ensures
            final(tracker).wf(),
            final(tracker).layout() == old(tracker).layout(),
            final(self).wf(old(tracker).layout()),
            final(self)@.start_frame == old(self)@.start_frame,
            forall|frame: int| final(self)@.owns(frame) ==> !(#[trigger] final(tracker).is_free(frame)),
            result matches Ok(_) ==> {
                let address = shared_page.spec_confidential_vm_virtual_address();
                &&& final(self)@.resolve(address) == EntryView::shared(shared_page.spec_hypervisor_address())
                &&& forall|other: u64|
                    !(#[trigger] final(self)@.resolve_together(address, other)) ==> final(self)@.resolve(other)
                        == old(self)@.resolve(other)
                &&& forall|frame: int|
                    #![trigger final(self)@.owns(frame)]
                    #![trigger final(tracker).is_free(frame)]
                    (final(self)@.owns(frame) || final(tracker).is_free(frame)) == (old(self)@.owns(frame)
                        || old(tracker).is_free(frame))
            },
            result matches Err(error) ==> {
                &&& final(self)@ == old(self)@
                &&& forall|frame: int|
                    #![trigger final(tracker).is_free(frame)]
                    #![trigger old(tracker).is_free(frame)]
                    final(tracker).is_free(frame) == old(tracker).is_free(frame)
                &&& error == Self::spec_map_error(*shared_page, old(tracker).layout())
            },
            !SharedPage::acceptable(shared_page.spec_hypervisor_address(), old(tracker).layout())
                || !Self::in_range(shared_page.spec_confidential_vm_virtual_address()) ==> result is Err,
            result is Ok <==> SharedPage::acceptable(shared_page.spec_hypervisor_address(), old(tracker).layout())
                && Self::in_range(shared_page.spec_confidential_vm_virtual_address()) && old(self)@.mapped(
                shared_page.spec_confidential_vm_virtual_address(),
                shared_page.spec_hypervisor_address(),
                old(tracker).free_set(),
            ) is Some,
            result is Ok ==> Some((final(self)@, final(tracker).free_set())) == old(self)@.mapped(
                shared_page.spec_confidential_vm_virtual_address(),
                shared_page.spec_hypervisor_address(),
                old(tracker).free_set(),
            ),
            result is Err ==> final(tracker).free_set() == old(tracker).free_set(),
            result is Err && SharedPage::acceptable(shared_page.spec_hypervisor_address(), old(tracker).layout())
                && Self::in_range(shared_page.spec_confidential_vm_virtual_address()) ==> {
                &&& old(self)@.resolve(shared_page.spec_confidential_vm_virtual_address()) is NotValid
                &&& old(self)@.resolve_level(shared_page.spec_confidential_vm_virtual_address())
                    != PageTableLevel::Level1
            },
    {
        let layout: MemoryLayout = tracker.current_layout();
        let hypervisor_address: u64 = shared_page.hypervisor_address().as_u64();
        if hypervisor_address % FRAME_SIZE != 0 || !layout.is_in_non_confidential_range(
            hypervisor_address,
            FRAME_SIZE,
        ) {
            return Err(Error::InvalidAddress());
        }
        if shared_page.confidential_vm_virtual_address().address() >= 0x800_0000_0000_0000 {
            return Err(Error::PageTableConfiguration());
        }
        self.page_table.map_shared_page(self.paging_system, shared_page, tracker)
    }

    /// The error with which mapping the shared page fails, if it fails: the
    /// page that the hypervisor offers is refused first, then the address
    /// of the guest; what remains is that the pool cannot serve a table that
    /// is missing.
    pub open spec fn spec_map_error(shared_page: SharedPage, layout: MemoryLayout) -> Error {
        if !SharedPage::acceptable(shared_page.spec_hypervisor_address(), layout) {
            Error::InvalidAddress()
        } else if !Self::in_range(shared_page.spec_confidential_vm_virtual_address()) {
            Error::PageTableConfiguration()
        } else {
            Error::OutOfMemory()
        }
    }

    /// Physical address of the root table: what `hgatp` holds of it.
    pub fn address(&self) -> (address: ConfidentialMemoryAddress)
        requires
            exists|layout: MemoryLayout| self.wf(layout),
        ensures
            address.value() == self@.start_frame * FRAME_SIZE,
    {
        self.page_table.address()
    }

    pub fn paging_system(&self) -> (paging_system: &PagingSystem)
        ensures
            *paging_system == PagingSystem::Sv57x4,
    {
        &self.paging_system
    }

    /// What a guest finds at a guest-physical address.
    pub fn translate(&self, address: ConfidentialVmVirtualAddress, layout: &MemoryLayout)
        -> (translation: Translation)
        requires
            self.wf(*layout),
        ensures
            translation == self@.translate(address.0),
    {
        self.page_table.translate(self.paging_system, address, layout)
    }

    /// What the tree keeps in confidential memory, word by word with the
    /// physical addresses.
    pub fn memory_image(&self, layout: &MemoryLayout) -> (image: Vec<(u64, u64)>)
        requires
            self.wf(*layout),
        ensures
            image@ == self@.image(),
    {
        let mut image: Vec<(u64, u64)> = Vec::new();
        self.page_table.write_image(&mut image, layout);
        assert(image@ =~= self@.image());
        image
    }

    /// Puts every table and every page of the tree back into the pool.
    pub fn release(self, tracker: &mut MemoryTracker)
        requires
            old(tracker).wf(),
            self.wf(old(tracker).layout()),
        ensures
            final(tracker).wf(),
            final(tracker).layout() == old(tracker).layout(),
            forall|frame: int|
                #![trigger final(tracker).is_free(frame)]
                #![trigger old(tracker).is_free(frame)]
                final(tracker).is_free(frame) == (old(tracker).is_free(frame) || self@.owns(frame)),
    {
        self.page_table.release(tracker)
    }
}

} // verus!
