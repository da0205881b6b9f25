//! The mathematical model of a page-table tree.
use crate::memory::layout::{MemoryLayout, FRAME_LIMIT, FRAME_SIZE, WORDS_PER_FRAME};
use crate::error::Error;
use crate::memory::tracker::{pool_first_fit, pool_without};
use crate::memory::NonConfidentialMemory;
use crate::mmu::page_table_memory::PageTableMemory;
use crate::mmu::page_table_entry::{
    PageTableAddress, PageTableBits, PageTableConfiguration, PageTablePermission, PTE_VALID,
};
use crate::mmu::paging_system::{PageTableLevel, PagingSystem};
use crate::mmu::PageSize;
use vstd::prelude::*;

verus! {

/// What an entry of a page table stands for.
pub enum EntryView {
    /// The slot is empty.
    NotValid,
    /// The entry maps to the page of confidential memory that starts at
    /// frame `frame` and holds `content`; the entry owns the page.
    Leaf {
        frame: int,
        size: PageSize,
        content: Seq<u64>,
        configuration: PageTableConfiguration,
        permission: PageTablePermission,
    },
    /// The entry points to the table of the next lower level, which it owns.
    Pointer { table: TableView, configuration: PageTableConfiguration },
    /// The entry maps to non-confidential memory, which it does not own.
    Shared { address: u64, configuration: PageTableConfiguration, permission: PageTablePermission },
}

/// A page table with all that hangs below it: the frames that hold its raw
/// entries, the raw entries as the hardware reads them, and what each of
/// them stands for.
pub struct TableView {
    pub level: PageTableLevel,
    pub start_frame: int,
    pub frames: int,
    pub raw: Seq<u64>,
    pub entries: Seq<EntryView>,
}

/// Where the translation of an address ends.
#[derive(Debug, Clone, Copy, PartialEq, Eq, Structural)]
pub enum Translation {
    /// No entry maps the address.
    NotMapped,
    /// The address lies in a page of confidential memory; `word` is what the
    /// page holds at the address.
    Confidential { address: u64, word: u64, permission: PageTablePermission, configuration: PageTableConfiguration },
    /// The address lies in the shared page that starts at `page`.
    Shared { page: u64, permission: PageTablePermission, configuration: PageTableConfiguration },
}

impl EntryView {
    /// The raw entry that the hardware reads for this entry: the physical
    /// page number of the target, the bits of permission and configuration,
    /// and the valid bit.
    pub open spec fn encode(self) -> u64 {
        match self {
            EntryView::NotValid => 0,
            EntryView::Leaf { frame, configuration, permission, .. } => PTE_VALID | permission.spec_encode()
                | configuration.spec_encode() | PageTableAddress::spec_encode((frame * FRAME_SIZE) as u64),
            EntryView::Pointer { table, configuration } => PTE_VALID | configuration.spec_encode()
                | PageTableAddress::spec_encode((table.start_frame * FRAME_SIZE) as u64),
            EntryView::Shared { address, configuration, permission } => PTE_VALID | permission.spec_encode()
                | configuration.spec_encode() | PageTableAddress::spec_encode(address),
        }
    }

    /// The entry of a shared page at the address.
    pub open spec fn shared(address: u64) -> EntryView {
        EntryView::Shared {
            address,
            configuration: PageTableConfiguration::spec_shared_page_configuration(),
            permission: PageTablePermission::spec_shared_page_permission(),
        }
    }

    /// What the entry keeps in confidential memory: the words of the page
    /// of a leaf, the image of the table of a pointer.
    pub open spec fn image(self) -> Seq<(u64, u64)>
        decreases self,
    {
        match self {
            EntryView::Leaf { frame, content, .. } => words_image(frame * FRAME_SIZE, content),
            EntryView::Pointer { table, .. } => table.image(),
            _ => Seq::empty(),
        }
    }

    /// The frames that the entry owns.
    pub open spec fn owned_frames(self) -> Set<int> {
        Set::new(|frame: int| self.owns(frame))
    }

    /// Whether the frame belongs to the page of the entry or to the tables
    /// and pages below it.
    pub open spec fn owns(self, frame: int) -> bool
        decreases self,
    {
        match self {
            EntryView::Leaf { frame: first, size, .. } => first <= frame < first + size.frames(),
            EntryView::Pointer { table, .. } => table.owns(frame),
            _ => false,
        }
    }

    /// Whether the entry can stand in a page table of the given level of a
    /// confidential VM.
    pub open spec fn wf(self, level: PageTableLevel, layout: MemoryLayout) -> bool
        decreases self,
    {
        match self {
            EntryView::NotValid => true,
            EntryView::Leaf { frame, size, content, permission, .. } => {
                &&& permission.can_read || permission.can_write || permission.can_execute
                &&& size == PagingSystem::Sv57x4.spec_page_size(level)
                &&& 0 <= frame
                &&& frame % size.frames() as int == 0
                &&& frame + size.frames() <= FRAME_LIMIT
                &&& content.len() == size.frames() * WORDS_PER_FRAME
                &&& layout.first_frame() <= frame
                &&& frame + size.frames() <= layout.end_frame()
            },
            EntryView::Pointer { table, .. } => {
                &&& level.spec_lower() == Some(table.level)
                &&& table.wf(layout)
            },
            EntryView::Shared { address, permission, .. } => {
                &&& permission.can_read || permission.can_write || permission.can_execute
                &&& address % FRAME_SIZE == 0
                &&& layout.in_non_confidential(address as int, FRAME_SIZE as int)
            },
        }
    }

    /// Whether the entry is the copy of what the raw entry `source` of a
    /// page table of the hypervisor stands for: an empty slot for an invalid
    /// entry, a page with the content of the hypervisor's page for a leaf,
    /// and the copy of the hypervisor's lower table for a pointer, each with
    /// the configuration and the permission of the source.
    pub open spec fn mirrors(self, source: u64, memory: NonConfidentialMemory) -> bool
        decreases self,
    {
        if !PageTableBits::spec_is_valid(source) {
            self is NotValid
        } else if PageTableBits::spec_is_leaf(source) {
            &&& self matches EntryView::Leaf { content, configuration, permission, .. }
            &&& configuration == PageTableConfiguration::spec_decode(source)
            &&& permission == PageTablePermission::spec_decode(source)
            &&& content == Seq::new(
                content.len(),
                |i: int| memory.word(PageTableAddress::spec_decode(source) + 8 * i),
            )
        } else {
            &&& self matches EntryView::Pointer { table, configuration }
            &&& configuration == PageTableConfiguration::spec_decode(source)
            &&& table.mirrors(PageTableAddress::spec_decode(source) as int, memory)
        }
    }
}

/// Whether no frame is owned twice among the frames from `start` on, which
/// hold the raw entries of a table, and what the entries of the table own.
pub open spec fn exclusive(start: int, frames: int, entries: Seq<EntryView>) -> bool {
    &&& forall|i: int, frame: int|
        0 <= i < entries.len() && start <= frame < start + frames ==> !(#[trigger] entries[i].owns(frame))
    &&& forall|i: int, j: int, frame: int|
        0 <= i < entries.len() && 0 <= j < entries.len() && i != j ==> !(#[trigger] entries[i].owns(frame)
            && #[trigger] entries[j].owns(frame))
}

/// A further entry that owns nothing of what is owned already keeps
/// ownership exclusive.
pub proof fn lemma_exclusive_push(start: int, frames: int, entries: Seq<EntryView>, entry: EntryView)
    requires
        exclusive(start, frames, entries),
        forall|frame: int| start <= frame < start + frames ==> !(#[trigger] entry.owns(frame)),
        forall|i: int, frame: int|
            0 <= i < entries.len() ==> !(#[trigger] entries[i].owns(frame) && #[trigger] entry.owns(frame)),
    ensures
        exclusive(start, frames, entries.push(entry)),
{
    let longer = entries.push(entry);
    assert forall|i: int, frame: int|
        0 <= i < longer.len() && start <= frame < start + frames implies !(#[trigger] longer[i].owns(frame)) by {
        if i < entries.len() {
            assert(longer[i] == entries[i]);
        }
    }
    assert forall|i: int, j: int, frame: int|
        0 <= i < longer.len() && 0 <= j < longer.len() && i != j implies !(#[trigger] longer[i].owns(frame)
            && #[trigger] longer[j].owns(frame)) by {
        if i < entries.len() {
            assert(longer[i] == entries[i]);
        }
        if j < entries.len() {
            assert(longer[j] == entries[j]);
        }
    }
}

/// An entry that owns nothing of what the table and the other entries own
/// can take the place of an entry and keeps ownership exclusive.
pub proof fn lemma_exclusive_update(start: int, frames: int, entries: Seq<EntryView>, index: int, entry: EntryView)
    requires
        exclusive(start, frames, entries),
        0 <= index < entries.len(),
        forall|frame: int| start <= frame < start + frames ==> !(#[trigger] entry.owns(frame)),
        forall|i: int, frame: int|
            0 <= i < entries.len() && i != index ==> !(#[trigger] entries[i].owns(frame) && #[trigger] entry.owns(
                frame,
            )),
    ensures
        exclusive(start, frames, entries.update(index, entry)),
{
    let updated = entries.update(index, entry);
    assert forall|i: int, frame: int|
        0 <= i < updated.len() && start <= frame < start + frames implies !(#[trigger] updated[i].owns(frame)) by {
        if i != index {
            assert(updated[i] == entries[i]);
        }
    }
    assert forall|i: int, j: int, frame: int|
        0 <= i < updated.len() && 0 <= j < updated.len() && i != j implies !(#[trigger] updated[i].owns(frame)
            && #[trigger] updated[j].owns(frame)) by {
        if i != index {
            assert(updated[i] == entries[i]);
        }
        if j != index {
            assert(updated[j] == entries[j]);
        }
    }
}

/// The words of a stretch of memory that starts at `base`, each with its
/// physical address.
pub open spec fn words_image(base: int, words: Seq<u64>) -> Seq<(u64, u64)> {
    Seq::new(words.len(), |i: int| ((base + 8 * i) as u64, words[i]))
}

impl TableView {
    /// What the tree keeps in confidential memory, word by word, each word
    /// with its physical address: the raw entries of the table, then for
    /// each entry in turn the page of a leaf or the image of the table
    /// below.
    pub open spec fn image(self) -> Seq<(u64, u64)>
        decreases self, 0nat,
    {
        words_image(self.start_frame * FRAME_SIZE, self.raw) + Self::entries_image(self.entries, self.entries.len())
    }

    /// The image of what the first `count` of the entries own.
    pub open spec fn entries_image(entries: Seq<EntryView>, count: nat) -> Seq<(u64, u64)>
        decreases entries, count,
    {
        if count == 0 || count > entries.len() {
            Seq::empty()
        } else {
            Self::entries_image(entries, (count - 1) as nat) + entries[count - 1].image()
        }
    }

    /// Whether the frame holds raw entries of this table, or belongs to a
    /// table or page below it.
    pub open spec fn owns(self, frame: int) -> bool
        decreases self,
    {
        ||| self.start_frame <= frame < self.start_frame + self.frames
        ||| exists|i: int| 0 <= i < self.entries.len() && (#[trigger] self.entries[i]).owns(frame)
    }

    /// The table is one of a confidential VM: it has as many entries as its
    /// level asks for, its raw entries lie in confidential memory and agree
    /// with what they stand for, every page that an entry maps to lies in
    /// confidential memory unless the entry is a shared one, no frame is
    /// owned twice, and the same holds of every table below.
    pub open spec fn wf(self, layout: MemoryLayout) -> bool
        decreases self,
    {
        &&& self.entries.len() == PagingSystem::Sv57x4.spec_entries(self.level)
        &&& self.raw.len() == self.entries.len()
        &&& self.frames * WORDS_PER_FRAME == self.entries.len()
        &&& 0 <= self.start_frame
        &&& self.start_frame + self.frames <= FRAME_LIMIT
        &&& layout.first_frame() <= self.start_frame
        &&& self.start_frame + self.frames <= layout.end_frame()
        &&& forall|i: int|
            0 <= i < self.entries.len() ==> {
                &&& (#[trigger] self.entries[i]).wf(self.level, layout)
                &&& self.raw[i] == self.entries[i].encode()
            }
        &&& exclusive(self.start_frame, self.frames, self.entries)
    }

    /// Whether the table is the copy of the page table that the hypervisor
    /// keeps at the address, entry by entry and down to the pages.
    pub open spec fn mirrors(self, address: int, memory: NonConfidentialMemory) -> bool
        decreases self,
    {
        forall|i: int|
            0 <= i < self.entries.len() ==> (#[trigger] self.entries[i]).mirrors(
                memory.word(address + 8 * i),
                memory,
            )
    }

    /// Index of the entry of this table at which the translation of the
    /// address goes on.
    pub open spec fn index_of(self, address: u64) -> int {
        PagingSystem::Sv57x4.spec_vpn(address, self.level) as int
    }

    /// The entry at which the translation of the address ends: a leaf, a
    /// shared page, or an empty slot.
    pub open spec fn resolve(self, address: u64) -> EntryView
        decreases self,
    {
        let index = self.index_of(address);
        if 0 <= index < self.entries.len() {
            match self.entries[index] {
                EntryView::Pointer { table, .. } => table.resolve(address),
                entry => entry,
            }
        } else {
            EntryView::NotValid
        }
    }

    /// Whether the translations of the two addresses end at the same entry.
    pub open spec fn resolve_together(self, address: u64, other: u64) -> bool
        decreases self,
    {
        let index = self.index_of(address);
        &&& index == self.index_of(other)
        &&& 0 <= index < self.entries.len() ==> match self.entries[index] {
            EntryView::Pointer { table, .. } => table.resolve_together(address, other),
            _ => true,
        }
    }

    /// Level of the table that holds the entry at which the translation of
    /// the address ends.
    pub open spec fn resolve_level(self, address: u64) -> PageTableLevel
        decreases self,
    {
        let index = self.index_of(address);
        if 0 <= index < self.entries.len() {
            match self.entries[index] {
                EntryView::Pointer { table, .. } => table.resolve_level(address),
                _ => self.level,
            }
        } else {
            self.level
        }
    }

    /// The table of the given level that holds no valid entry and whose raw
    /// entries stand in the frames from `start` on.
    pub open spec fn empty(level: PageTableLevel, start: int) -> TableView {
        TableView {
            level,
            start_frame: start,
            frames: PageTableMemory::spec_pages(PagingSystem::Sv57x4, level) as int,
            raw: Seq::new(PagingSystem::Sv57x4.spec_entries(level), |i: int| 0u64),
            entries: Seq::new(PagingSystem::Sv57x4.spec_entries(level), |i: int| EntryView::NotValid),
        }
    }

    /// The table with the entry and the raw entry that stands for it in the
    /// slot with the given index.
    pub open spec fn with_entry(self, index: int, entry: EntryView) -> TableView {
        TableView {
            raw: self.raw.update(index, entry.encode()),
            entries: self.entries.update(index, entry),
            ..self
        }
    }

    /// What mapping a shared page makes of the table and of the pool, given
    /// the free frames of the pool: the new table and the free frames that
    /// are left; `None` where the pool cannot serve a table that is missing.
    ///
    /// The walk follows pointer entries. An empty slot above the lowest
    /// level gets a fresh table, taken from the lowest free frame, in which
    /// the walk goes on. Where the walk ends otherwise, the entry of the
    /// shared page takes the place of the entry that was there, and what
    /// that entry owned is free again.
    pub open spec fn mapped(self, address: u64, shared: u64, free: Set<int>) -> Option<(TableView, Set<int>)>
        decreases self.level.number(),
    {
        let index = self.index_of(address);
        match self.entries[index] {
            EntryView::Pointer { table, configuration } => if table.level.number() < self.level.number() {
                match table.mapped(address, shared, free) {
                    Some((lower, left)) => Some(
                        (self.with_entry(index, EntryView::Pointer { table: lower, configuration }), left),
                    ),
                    None => None,
                }
            } else {
                None
            },
            entry => if entry is NotValid && self.level.spec_lower() is Some {
                let lower = self.level.spec_lower()->Some_0;
                match pool_first_fit(free, 1, PageSize::Size4KiB) {
                    Some(start) => match Self::empty(lower, start).mapped(
                        address,
                        shared,
                        pool_without(free, start, 1),
                    ) {
                        Some((child, left)) => Some(
                            (
                                self.with_entry(
                                    index,
                                    EntryView::Pointer {
                                        table: child,
                                        configuration: PageTableConfiguration::spec_empty(),
                                    },
                                ),
                                left,
                            ),
                        ),
                        None => None,
                    },
                    None => None,
                }
            } else {
                Some((self.with_entry(index, EntryView::shared(shared)), free.union(entry.owned_frames())))
            },
        }
    }

    /// The table and every table below it has as many entries and raw
    /// entries as its level asks for, and every pointer entry points to a
    /// table of the next lower level.
    pub open spec fn shaped(self) -> bool
        decreases self,
    {
        &&& self.entries.len() == PagingSystem::Sv57x4.spec_entries(self.level)
        &&& self.raw.len() == self.entries.len()
        &&& forall|i: int|
            0 <= i < self.entries.len() ==> match #[trigger] self.entries[i] {
                EntryView::Pointer { table, .. } => self.level.spec_lower() == Some(table.level) && table.shaped(),
                _ => true,
            }
    }

    /// The table that is reached from this one by following the pointer
    /// entries with the given indices, if they are pointer entries.
    pub open spec fn descend(self, path: Seq<int>) -> Option<TableView>
        decreases path.len(),
    {
        if path.len() == 0 {
            Some(self)
        } else if 0 <= path[0] < self.entries.len() {
            match self.entries[path[0]] {
                EntryView::Pointer { table, .. } => table.descend(path.drop_first()),
                _ => None,
            }
        } else {
            None
        }
    }

    /// What a guest finds at a guest-physical address.
    pub open spec fn translate(self, address: u64) -> Translation {
        match self.resolve(address) {
            EntryView::Leaf { frame, size, content, configuration, permission } => {
                let offset = address as int % size.bytes() as int;
                Translation::Confidential {
                    address: (frame * FRAME_SIZE + offset) as u64,
                    word: content[offset / 8],
                    permission,
                    configuration,
                }
            },
            EntryView::Shared { address: page, configuration, permission } => Translation::Shared {
                page,
                permission,
                configuration,
            },
            _ => Translation::NotMapped,
        }
    }
}

impl Translation {
    /// The word of confidential memory that the translation ends at.
    pub open spec fn word(self) -> Option<u64> {
        match self {
            Translation::Confidential { word, .. } => Some(word),
            _ => None,
        }
    }
}

/// What the guest of the hypervisor finds at a guest-physical address: the
/// translation that the page table at `table` in non-confidential memory
/// gives, and the word that memory holds there. `None` where no entry maps
/// the address.
pub open spec fn hypervisor_word(memory: NonConfidentialMemory, table: int, level: PageTableLevel, address: u64)
    -> Option<
    u64,
>
    decreases level.number(),
{
    let source = memory.word(table + 8 * PagingSystem::Sv57x4.spec_vpn(address, level));
    if !PageTableBits::spec_is_valid(source) {
        None
    } else if PageTableBits::spec_is_leaf(source) {
        let offset = address as int % PagingSystem::Sv57x4.spec_page_size(level).bytes() as int;
        Some(memory.word(PageTableAddress::spec_decode(source) + 8 * (offset / 8)))
    } else {
        match level.spec_lower() {
            Some(lower) => hypervisor_word(memory, PageTableAddress::spec_decode(source) as int, lower, address),
            None => None,
        }
    }
}

/// How the copy of the page table that the hypervisor keeps at the address
/// ends, given the free frames of the pool: with the free frames that are
/// left, or with the error of the first step that fails. The copy takes the
/// memory of the table first and then goes through the entries in the order
/// of their indices; each leaf takes a page, each pointer the copy of the
/// table below. A step fails with `PageTableCorrupted` if what it copies
/// does not lie in non-confidential memory or if a table of the lowest
/// level points on, and with `OutOfMemory` if the pool cannot serve it.
pub open spec fn copy_outcome(
    memory: NonConfidentialMemory,
    layout: MemoryLayout,
    table: int,
    level: PageTableLevel,
    free: Set<int>,
) -> Result<Set<int>, Error>
    decreases level.number(), 2nat, 0nat,
{
    let pages = PageTableMemory::spec_pages(PagingSystem::Sv57x4, level);
    if !layout.in_non_confidential(table, 8 * PagingSystem::Sv57x4.spec_entries(level) as int) {
        Err(Error::PageTableCorrupted())
    } else {
        match pool_first_fit(free, pages, PageSize::Size4KiB) {
            None => Err(Error::OutOfMemory()),
            Some(start) => entries_outcome(
                memory,
                layout,
                table,
                level,
                pool_without(free, start, pages as int),
                PagingSystem::Sv57x4.spec_entries(level),
            ),
        }
    }
}

/// How the copy of the first `count` entries of a table ends.
pub open spec fn entries_outcome(
    memory: NonConfidentialMemory,
    layout: MemoryLayout,
    table: int,
    level: PageTableLevel,
    free: Set<int>,
    count: nat,
) -> Result<Set<int>, Error>
    decreases level.number(), 1nat, count,
{
    if count == 0 {
        Ok(free)
    } else {
        match entries_outcome(memory, layout, table, level, free, (count - 1) as nat) {
            Ok(left) => entry_outcome(memory, layout, memory.word(table + 8 * (count - 1)), level, left),
            Err(error) => Err(error),
        }
    }
}

/// How the copy of what one raw entry stands for ends.
pub open spec fn entry_outcome(
    memory: NonConfidentialMemory,
    layout: MemoryLayout,
    source: u64,
    level: PageTableLevel,
    free: Set<int>,
) -> Result<Set<int>, Error>
    decreases level.number(), 0nat, 0nat,
{
    if !PageTableBits::spec_is_valid(source) {
        Ok(free)
    } else if PageTableBits::spec_is_leaf(source) {
        let size = PagingSystem::Sv57x4.spec_page_size(level);
        if !layout.in_non_confidential(PageTableAddress::spec_decode(source) as int, size.bytes() as int) {
            Err(Error::PageTableCorrupted())
        } else {
            match pool_first_fit(free, 1, size) {
                None => Err(Error::OutOfMemory()),
                Some(start) => Ok(pool_without(free, start, size.frames() as int)),
            }
        }
    } else {
        match level.spec_lower() {
            Some(lower) => copy_outcome(memory, layout, PageTableAddress::spec_decode(source) as int, lower, free),
            None => Err(Error::PageTableCorrupted()),
        }
    }
}

/// Once the copy of an entry has failed, the copy of the table has failed
/// with that error.
pub proof fn lemma_entries_outcome_stays_failed(
    memory: NonConfidentialMemory,
    layout: MemoryLayout,
    table: int,
    level: PageTableLevel,
    free: Set<int>,
    failed: nat,
    count: nat,
)
    requires
        failed <= count,
        entries_outcome(memory, layout, table, level, free, failed) is Err,
    ensures
        entries_outcome(memory, layout, table, level, free, count) == entries_outcome(
            memory,
            layout,
            table,
            level,
            free,
            failed,
        ),
    decreases count,
{
    if failed < count {
        lemma_entries_outcome_stays_failed(memory, layout, table, level, free, failed, (count - 1) as nat);
    }
}

/// Whether the page table that the hypervisor keeps at the address can be
/// copied: the table and everything that it references lie in
/// non-confidential memory, and no entry of a table of the lowest level
/// points to a further table.
pub open spec fn source_is_sound(memory: NonConfidentialMemory, layout: MemoryLayout, table: int,
    level: PageTableLevel) -> bool
    decreases level.number(), 1nat,
{
    &&& layout.in_non_confidential(table, 8 * PagingSystem::Sv57x4.spec_entries(level) as int)
    &&& forall|i: int|
        0 <= i < PagingSystem::Sv57x4.spec_entries(level) ==> source_entry_is_sound(
            memory,
            layout,
            #[trigger] memory.word(table + 8 * i),
            level,
        )
}

/// Whether the raw entry of a table of the hypervisor can be copied.
pub open spec fn source_entry_is_sound(memory: NonConfidentialMemory, layout: MemoryLayout, source: u64,
    level: PageTableLevel) -> bool
    decreases level.number(), 0nat,
{
    if !PageTableBits::spec_is_valid(source) {
        true
    } else if PageTableBits::spec_is_leaf(source) {
        layout.in_non_confidential(
            PageTableAddress::spec_decode(source) as int,
            PagingSystem::Sv57x4.spec_page_size(level).bytes() as int,
        )
    } else {
        match level.spec_lower() {
            Some(lower) => source_is_sound(memory, layout, PageTableAddress::spec_decode(source) as int, lower),
            None => false,
        }
    }
}

/// What the bits of a raw entry hold that is put together of a physical
/// page number and the bits of permission and configuration.
proof fn lemma_bits_of_raw_entry(
    number: u64,
    read: u64,
    write: u64,
    execute: u64,
    user: u64,
    accessed: u64,
    global: u64,
    dirty: u64,
)
    by (bit_vector)
    requires
        number <= 0xfff_ffff_ffff,
        read == 0 || read == 0x2,
        write == 0 || write == 0x4,
        execute == 0 || execute == 0x8,
        user == 0 || user == 0x10,
        accessed == 0 || accessed == 0x40,
        global == 0 || global == 0x20,
        dirty == 0 || dirty == 0x80,
    ensures
        ({
            let raw = 0x1u64 | (read | write | execute) | (user | accessed | global | dirty) | (((((number * 0x1000)
                as u64) >> 12) & 0xfff_ffff_ffff) << 10);
            &&& raw & 0x1 != 0
            &&& raw & 0x2 == read
            &&& raw & 0x4 == write
            &&& raw & 0x8 == execute
            &&& raw & 0x10 == user
            &&& raw & 0x40 == accessed
            &&& raw & 0x20 == global
            &&& raw & 0x80 == dirty
            &&& ((raw >> 10) & 0xfff_ffff_ffff) << 12 == number * 0x1000
            &&& (raw & (0x2u64 | 0x4u64 | 0x8u64) != 0) == (read != 0 || write != 0 || execute != 0)
        }),
{
}

/// A raw entry means to the hardware what the entry means that it stands
/// for: it is valid unless the slot is empty, it names the page of a leaf,
/// the table of a pointer or the shared page, it is a leaf exactly if it is
/// no pointer, and it carries the permission and the configuration of the
/// entry.
pub proof fn lemma_raw_entry_means_entry(entry: EntryView, level: PageTableLevel, layout: MemoryLayout)
    requires
        layout.wf(),
        entry.wf(level, layout),
    ensures
        PageTableBits::spec_is_valid(entry.encode()) == !(entry is NotValid),
        entry matches EntryView::Leaf { frame, configuration, permission, .. } ==> {
            &&& PageTableBits::spec_is_leaf(entry.encode())
            &&& PageTableAddress::spec_decode(entry.encode()) == frame * FRAME_SIZE
            &&& PageTablePermission::spec_decode(entry.encode()) == permission
            &&& PageTableConfiguration::spec_decode(entry.encode()) == configuration
        },
        entry matches EntryView::Pointer { table, configuration } ==> {
            &&& !PageTableBits::spec_is_leaf(entry.encode())
            &&& PageTableAddress::spec_decode(entry.encode()) == table.start_frame * FRAME_SIZE
            &&& PageTableConfiguration::spec_decode(entry.encode()) == configuration
        },
        entry matches EntryView::Shared { address, configuration, permission } ==> {
            &&& PageTableBits::spec_is_leaf(entry.encode())
            &&& PageTableAddress::spec_decode(entry.encode()) == address
            &&& PageTablePermission::spec_decode(entry.encode()) == permission
            &&& PageTableConfiguration::spec_decode(entry.encode()) == configuration
        },
{
    match entry {
        EntryView::NotValid => {
            assert(0u64 & 0x1 == 0) by (bit_vector);
        },
        EntryView::Leaf { frame, configuration, permission, .. } => {
            lemma_bits_of_raw_entry(
                frame as u64,
                if permission.can_read { 0x2 } else { 0 },
                if permission.can_write { 0x4 } else { 0 },
                if permission.can_execute { 0x8 } else { 0 },
                if configuration.is_accessible_to_user { 0x10 } else { 0 },
                if configuration.was_accessed { 0x40 } else { 0 },
                if configuration.is_global_mapping { 0x20 } else { 0 },
                if configuration.is_dirty { 0x80 } else { 0 },
            );
        },
        EntryView::Pointer { table, configuration } => {
            lemma_bits_of_raw_entry(
                table.start_frame as u64,
                0,
                0,
                0,
                if configuration.is_accessible_to_user { 0x10 } else { 0 },
                if configuration.was_accessed { 0x40 } else { 0 },
                if configuration.is_global_mapping { 0x20 } else { 0 },
                if configuration.is_dirty { 0x80 } else { 0 },
            );
            assert(0x1u64 | (0u64 | 0u64 | 0u64) | configuration.spec_encode() | PageTableAddress::spec_encode(
                (table.start_frame * FRAME_SIZE) as u64,
            ) == 0x1u64 | configuration.spec_encode() | PageTableAddress::spec_encode(
                (table.start_frame * FRAME_SIZE) as u64,
            )) by {
                let c = configuration.spec_encode();
                let a = PageTableAddress::spec_encode((table.start_frame * FRAME_SIZE) as u64);
                assert(0x1u64 | (0u64 | 0u64 | 0u64) | c | a == 0x1u64 | c | a) by (bit_vector);
            }
        },
        EntryView::Shared { address, configuration, permission } => {
            let number = address / FRAME_SIZE;
            assert(number * 0x1000 == address);
            lemma_bits_of_raw_entry(
                number,
                if permission.can_read { 0x2 } else { 0 },
                if permission.can_write { 0x4 } else { 0 },
                if permission.can_execute { 0x8 } else { 0 },
                if configuration.is_accessible_to_user { 0x10 } else { 0 },
                if configuration.was_accessed { 0x40 } else { 0 },
                if configuration.is_global_mapping { 0x20 } else { 0 },
                if configuration.is_dirty { 0x80 } else { 0 },
            );
        },
    }
}

/// A well-formed table is shaped.
pub proof fn lemma_wf_is_shaped(table: TableView, layout: MemoryLayout)
    requires
        table.wf(layout),
    ensures
        table.shaped(),
    decreases table,
{
    assert forall|i: int| 0 <= i < table.entries.len() implies match #[trigger] table.entries[i] {
        EntryView::Pointer { table: lower, .. } => table.level.spec_lower() == Some(lower.level) && lower.shaped(),
        _ => true,
    } by {
        assert(table.entries[i].wf(table.level, layout));
        match table.entries[i] {
            EntryView::Pointer { table: lower, .. } => {
                lemma_wf_is_shaped(lower, layout);
            },
            _ => {},
        }
    }
}

/// Mapping a shared page keeps the level and the place of the table, and
/// the table stays shaped.
pub proof fn lemma_mapped_keeps_shape(table: TableView, address: u64, shared: u64, free: Set<int>)
    requires
        table.shaped(),
        table.mapped(address, shared, free) is Some,
    ensures
        ({
            let after = table.mapped(address, shared, free)->Some_0.0;
            &&& after.level == table.level
            &&& after.start_frame == table.start_frame
            &&& after.frames == table.frames
            &&& after.shaped()
        }),
    decreases table.level.number(),
{
    let index = table.index_of(address);
    lemma_index_in_range(address, table.level);
    let after = table.mapped(address, shared, free)->Some_0.0;
    match table.entries[index] {
        EntryView::Pointer { table: lower, configuration } => {
            lemma_mapped_keeps_shape(lower, address, shared, free);
            let below = lower.mapped(address, shared, free)->Some_0.0;
            assert(after == table.with_entry(index, EntryView::Pointer { table: below, configuration }));
            assert forall|i: int| 0 <= i < after.entries.len() implies match #[trigger] after.entries[i] {
                EntryView::Pointer { table: t, .. } => after.level.spec_lower() == Some(t.level) && t.shaped(),
                _ => true,
            } by {
                if i != index {
                    assert(after.entries[i] == table.entries[i]);
                }
            }
        },
        entry => {
            if entry is NotValid && table.level.spec_lower() is Some {
                let lower = table.level.spec_lower()->Some_0;
                let start = pool_first_fit(free, 1, PageSize::Size4KiB)->Some_0;
                let fresh = TableView::empty(lower, start);
                assert(fresh.shaped()) by {
                    assert forall|i: int| 0 <= i < fresh.entries.len() implies match #[trigger] fresh.entries[i] {
                        EntryView::Pointer { table: t, .. } => fresh.level.spec_lower() == Some(t.level)
                            && t.shaped(),
                        _ => true,
                    } by {}
                }
                lemma_mapped_keeps_shape(fresh, address, shared, pool_without(free, start, 1));
                assert forall|i: int| 0 <= i < after.entries.len() implies match #[trigger] after.entries[i] {
                    EntryView::Pointer { table: t, .. } => after.level.spec_lower() == Some(t.level)
                        && t.shaped(),
                    _ => true,
                } by {
                    if i != index {
                        assert(after.entries[i] == table.entries[i]);
                    }
                }
            } else {
                assert forall|i: int| 0 <= i < after.entries.len() implies match #[trigger] after.entries[i] {
                    EntryView::Pointer { table: t, .. } => after.level.spec_lower() == Some(t.level)
                        && t.shaped(),
                    _ => true,
                } by {
                    if i != index {
                        assert(after.entries[i] == table.entries[i]);
                    }
                }
            }
        },
    }
}

/// Where the walk for the address ends at a leaf or at a shared page, or
/// at an empty slot of the lowest level, mapping a shared page succeeds
/// whatever the pool holds, and the pool gains exactly what the entry
/// owned at which the walk ended: the page of a leaf, nothing otherwise.
pub proof fn lemma_mapped_without_table(table: TableView, address: u64, shared: u64, free: Set<int>)
    requires
        table.shaped(),
        !(table.resolve(address) is NotValid) || table.resolve_level(address) == PageTableLevel::Level1,
    ensures
        table.mapped(address, shared, free) is Some,
        table.mapped(address, shared, free)->Some_0.1 == free.union(table.resolve(address).owned_frames()),
        table.mapped(address, shared, free)->Some_0.0.resolve(address) == EntryView::shared(shared),
    decreases table.level.number(),
{
    let index = table.index_of(address);
    lemma_index_in_range(address, table.level);
    match table.entries[index] {
        EntryView::Pointer { table: lower, .. } => {
            lemma_mapped_without_table(lower, address, shared, free);
            lemma_mapped_keeps_shape(lower, address, shared, free);
            lemma_mapped_keeps_shape(table, address, shared, free);
        },
        _ => {
            lemma_mapped_keeps_shape(table, address, shared, free);
        },
    }
}

/// Mapping the same shared page again changes nothing: the table and the
/// pool are what the first mapping left.
pub proof fn lemma_mapped_again(table: TableView, address: u64, shared: u64, free: Set<int>)
    requires
        table.shaped(),
        table.mapped(address, shared, free) is Some,
    ensures
        ({
            let (after, left) = table.mapped(address, shared, free)->Some_0;
            after.mapped(address, shared, left) == Some((after, left))
        }),
    decreases table.level.number(),
{
    let index = table.index_of(address);
    lemma_index_in_range(address, table.level);
    let (after, left) = table.mapped(address, shared, free)->Some_0;
    lemma_mapped_keeps_shape(table, address, shared, free);
    match table.entries[index] {
        EntryView::Pointer { table: lower, configuration } => {
            lemma_mapped_again(lower, address, shared, free);
            lemma_mapped_keeps_shape(lower, address, shared, free);
            let below = lower.mapped(address, shared, free)->Some_0.0;
            let entry = EntryView::Pointer { table: below, configuration };
            assert(after == table.with_entry(index, entry));
            assert(after.with_entry(index, entry).raw =~= after.raw);
            assert(after.with_entry(index, entry).entries =~= after.entries);
        },
        entry => {
            if entry is NotValid && table.level.spec_lower() is Some {
                let lower = table.level.spec_lower()->Some_0;
                let start = pool_first_fit(free, 1, PageSize::Size4KiB)->Some_0;
                let fresh = TableView::empty(lower, start);
                let rest = pool_without(free, start, 1);
                assert(fresh.shaped()) by {
                    assert forall|i: int| 0 <= i < fresh.entries.len() implies match #[trigger] fresh.entries[i] {
                        EntryView::Pointer { table: t, .. } => fresh.level.spec_lower() == Some(t.level)
                            && t.shaped(),
                        _ => true,
                    } by {}
                }
                lemma_mapped_again(fresh, address, shared, rest);
                lemma_mapped_keeps_shape(fresh, address, shared, rest);
                let child = fresh.mapped(address, shared, rest)->Some_0.0;
                let built = EntryView::Pointer { table: child, configuration: PageTableConfiguration::spec_empty() };
                assert(after == table.with_entry(index, built));
                assert(after.with_entry(index, built).raw =~= after.raw);
                assert(after.with_entry(index, built).entries =~= after.entries);
            } else {
                let mapping = EntryView::shared(shared);
                assert(after == table.with_entry(index, mapping));
                assert(after.with_entry(index, mapping).raw =~= after.raw);
                assert(after.with_entry(index, mapping).entries =~= after.entries);
                assert(left.union(mapping.owned_frames()) =~= left);
            }
        },
    }
}

/// The index into a page table at which the translation of an address goes
/// on is the index of an entry of the table.
pub proof fn lemma_index_in_range(address: u64, level: PageTableLevel)
    ensures
        0 <= PagingSystem::Sv57x4.spec_vpn(address, level) < PagingSystem::Sv57x4.spec_entries(level),
{
    assert((address >> 48) & 0x7ff < 2048) by (bit_vector);
    assert((address >> 39) & 0x1ff < 512) by (bit_vector);
    assert((address >> 30) & 0x1ff < 512) by (bit_vector);
    assert((address >> 21) & 0x1ff < 512) by (bit_vector);
    assert((address >> 12) & 0x1ff < 512) by (bit_vector);
}

/// Isolation: wherever the translation of a guest-physical address ends at
/// a leaf, the page of that leaf lies in confidential memory, and no part of
/// it in non-confidential memory.
pub proof fn lemma_leaves_are_confidential(table: TableView, layout: MemoryLayout, address: u64)
    requires
        layout.wf(),
        table.wf(layout),
    ensures
        table.resolve(address) matches EntryView::Leaf { frame, size, .. } ==> {
            &&& layout.in_confidential(frame * FRAME_SIZE, size.bytes() as int)
            &&& forall|byte: int|
                frame * FRAME_SIZE <= byte < frame * FRAME_SIZE + size.bytes() ==> !layout.in_non_confidential(
                    byte,
                    1,
                )
        },
    decreases table,
{
    let index = table.index_of(address);
    lemma_index_in_range(address, table.level);
    match table.entries[index] {
        EntryView::Pointer { table: lower, .. } => {
            assert(table.entries[index].wf(table.level, layout));
            lemma_leaves_are_confidential(lower, layout, address);
        },
        EntryView::Leaf { frame, size, .. } => {
            assert(table.entries[index].wf(table.level, layout));
            assert(size.bytes() == size.frames() * FRAME_SIZE);
        },
        _ => {},
    }
}

/// Isolation of everything that a page-table tree owns: the frames of its
/// tables and of the pages of its leaves are frames of confidential memory.
pub proof fn lemma_owned_frames_are_confidential(table: TableView, layout: MemoryLayout, frame: int)
    requires
        table.wf(layout),
        table.owns(frame),
    ensures
        layout.is_confidential_frame(frame),
    decreases table,
{
    if !(table.start_frame <= frame < table.start_frame + table.frames) {
        let i = choose|i: int| 0 <= i < table.entries.len() && (#[trigger] table.entries[i]).owns(frame);
        assert(table.entries[i].wf(table.level, layout));
        match table.entries[i] {
            EntryView::Pointer { table: lower, .. } => {
                lemma_owned_frames_are_confidential(lower, layout, frame);
            },
            _ => {},
        }
    }
}

/// Agreement of the two representations: in a table and in every table
/// below it, each raw entry is the word that stands for the entry at its
/// index, and the entry is one that a table of that level can hold. `path`
/// picks the table: the indices of the pointer entries to follow from the
/// root.
pub proof fn lemma_raw_entries_agree(table: TableView, layout: MemoryLayout, path: Seq<int>, index: int)
    requires
        table.wf(layout),
        table.descend(path) is Some,
        0 <= index < table.descend(path)->Some_0.entries.len(),
    ensures
        table.descend(path)->Some_0.raw[index] == table.descend(path)->Some_0.entries[index].encode(),
        table.descend(path)->Some_0.entries[index].wf(table.descend(path)->Some_0.level, layout),
    decreases path.len(),
{
    if path.len() > 0 {
        let first = path[0];
        assert(table.entries[first].wf(table.level, layout));
        match table.entries[first] {
            EntryView::Pointer { table: lower, .. } => {
                lemma_raw_entries_agree(lower, layout, path.drop_first(), index);
            },
            _ => {},
        }
    }
}

/// Round trip of the copy: at every guest-physical address, the copy of a
/// page table of the hypervisor translates to a word of confidential memory
/// exactly where the table of the hypervisor translates to a word, and that
/// word is the same.
pub proof fn lemma_copy_preserves_content(
    table: TableView,
    layout: MemoryLayout,
    memory: NonConfidentialMemory,
    source: int,
    address: u64,
)
    requires
        table.wf(layout),
        table.mirrors(source, memory),
    ensures
        table.translate(address).word() == hypervisor_word(memory, source, table.level, address),
    decreases table,
{
    let index = table.index_of(address);
    lemma_index_in_range(address, table.level);
    let entry = table.entries[index];
    let raw = memory.word(source + 8 * index);
    assert(entry.wf(table.level, layout));
    assert(entry.mirrors(raw, memory));
    match entry {
        EntryView::Pointer { table: lower, .. } => {
            lemma_copy_preserves_content(lower, layout, memory, PageTableAddress::spec_decode(raw) as int, address);
            assert(table.resolve(address) == lower.resolve(address));
        },
        EntryView::Leaf { frame, size, content, .. } => {
            let offset = address as int % size.bytes() as int;
            assert(size.bytes() == size.frames() * FRAME_SIZE);
            assert(0 <= offset / 8 < content.len());
        },
        _ => {},
    }
}

} // verus!
