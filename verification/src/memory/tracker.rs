use crate::error::Error;
use crate::memory::layout::{MemoryLayout, FRAME_SIZE, WORDS_PER_FRAME};
use crate::memory::page::Page;
use crate::mmu::PageSize;
use vstd::arithmetic::div_mod::{lemma_fundamental_div_mod, lemma_mod_add_multiples_vanish};
use vstd::prelude::*;

verus! {

/// The pool of confidential memory: of every frame of confidential memory
/// the tracker knows whether it is free or handed out as part of a page.
/// A page of any size can be taken wherever all of its frames are free, so
/// free neighbours merge into larger pages and large free pages split into
/// smaller ones without further bookkeeping.
pub struct MemoryTracker {
    layout: MemoryLayout,
    free: Vec<bool>,
}

/// Number of frames that are marked free.
pub open spec fn count_free(marks: Seq<bool>) -> nat
    decreases marks.len(),
{
    if marks.len() == 0 {
        0
    } else {
        count_free(marks.drop_last()) + if marks.last() {
            1nat
        } else {
            0nat
        }
    }
}

/// Whether a pool with the given free frames can hand out `number_of_pages`
/// adjacent pages of the given size from frame `start` on: the pages are
/// aligned to their size, all of their frames are free, and a page of that
/// size can be held on this machine.
pub open spec fn pool_fits(free: Set<int>, start: int, number_of_pages: usize, size: PageSize) -> bool {
    &&& start % size.frames() as int == 0
    &&& size.frames() * WORDS_PER_FRAME <= usize::MAX
    &&& forall|frame: int| start <= frame < start + number_of_pages * size.frames() ==> #[trigger] free.contains(frame)
}

/// Whether `start` is the lowest frame from which the pool can hand the
/// pages out.
pub open spec fn pool_fits_first(free: Set<int>, start: int, number_of_pages: usize, size: PageSize) -> bool {
    &&& pool_fits(free, start, number_of_pages, size)
    &&& forall|other: int| #[trigger] pool_fits(free, other, number_of_pages, size) ==> start <= other
}

/// The frame at which the pages start that the pool hands out: the lowest
/// one from which it can. `None` where it cannot hand them out at all.
pub open spec fn pool_first_fit(free: Set<int>, number_of_pages: usize, size: PageSize) -> Option<int> {
    if exists|start: int| pool_fits(free, start, number_of_pages, size) {
        Some(choose|start: int| pool_fits_first(free, start, number_of_pages, size))
    } else {
        None
    }
}

/// The free frames that are left when the `frames` frames from `start` on
/// leave the pool.
pub open spec fn pool_without(free: Set<int>, start: int, frames: int) -> Set<int> {
    Set::new(|frame: int| free.contains(frame) && !(start <= frame < start + frames))
}

/// The lowest frame from which the pool can hand pages out is the one at
/// which the pages start that it hands out.
pub proof fn lemma_first_fit(free: Set<int>, start: int, number_of_pages: usize, size: PageSize)
    requires
        pool_fits_first(free, start, number_of_pages, size),
    ensures
        pool_first_fit(free, number_of_pages, size) == Some(start),
{
    let chosen = choose|first: int| pool_fits_first(free, first, number_of_pages, size);
    assert(pool_fits_first(free, chosen, number_of_pages, size));
    assert(pool_fits(free, chosen, number_of_pages, size));
    assert(pool_fits(free, start, number_of_pages, size));
}

/// A vector of `words` zeros.
fn zeroed(words: usize) -> (content: Vec<u64>)
    ensures
        content@.len() == words,
        forall|i: int| 0 <= i < words ==> content@[i] == 0,
{
    let mut content: Vec<u64> = Vec::new();
    let mut index: usize = 0;
    while index < words
        invariant
            index <= words,
            content@.len() == index,
            forall|i: int| 0 <= i < index ==> content@[i] == 0,
        decreases words - index,
    {
        content.push(0);
        index += 1;
    }
    content
}

/// Between two multiples of a number lies at least that number.
proof fn lemma_multiples_are_apart(a: int, b: int, k: int)
    requires
        k > 0,
        a % k == 0,
        b % k == 0,
        a < b,
    ensures
        a + k <= b,
{
    lemma_fundamental_div_mod(a, k);
    lemma_fundamental_div_mod(b, k);
    let qa = a / k;
    let qb = b / k;
    assert(a == k * qa);
    assert(b == k * qb);
    assert(qa < qb) by (nonlinear_arith)
        requires
            k > 0,
            k * qa < k * qb,
    ;
    assert(k * qa + k <= k * qb) by (nonlinear_arith)
        requires
            k > 0,
            qa + 1 <= qb,
    ;
}

impl MemoryTracker {
    /// The regions of physical memory that the tracker was made for.
    pub closed spec fn layout(&self) -> MemoryLayout {
        self.layout
    }

    /// Whether the frame belongs to confidential memory and is in the pool.
    pub closed spec fn is_free(&self, frame: int) -> bool {
        self.layout.is_confidential_frame(frame) && self.free@[frame - self.layout.first_frame()]
    }

    /// The frames in the pool.
    pub open spec fn free_set(&self) -> Set<int> {
        Set::new(|frame: int| self.is_free(frame))
    }

    /// The regions of a well-formed tracker are well formed.
    pub proof fn lemma_layout_wf(&self)
        requires
            self.wf(),
        ensures
            self.layout().wf(),
    {
    }

    /// The pool can hand pages out from a frame exactly if its free frames
    /// allow it.
    pub proof fn lemma_can_serve(&self, start: int, number_of_pages: usize, size: PageSize)
        ensures
            self.can_serve(start, number_of_pages, size) == pool_fits(
                self.free_set(),
                start,
                number_of_pages,
                size,
            ),
    {
        if self.can_serve(start, number_of_pages, size) {
            assert forall|frame: int|
                start <= frame < start + number_of_pages * size.frames() implies #[trigger] self.free_set().contains(
                frame,
            ) by {
                assert(self.is_free(frame));
            }
        }
        if pool_fits(self.free_set(), start, number_of_pages, size) {
            assert forall|frame: int|
                start <= frame < start + number_of_pages * size.frames() implies #[trigger] self.is_free(frame) by {
                assert(self.free_set().contains(frame));
            }
        }
    }

    /// Number of frames in the pool.
    pub closed spec fn free_frames(&self) -> nat {
        count_free(self.free@)
    }

    /// The tracker knows of every frame of confidential memory.
    pub closed spec fn wf(&self) -> bool {
        &&& self.layout.wf()
        &&& self.free@.len() == self.layout.end_frame() - self.layout.first_frame()
    }

    /// Whether all of the `frames` frames from `start` on are in the pool.
    pub open spec fn run_is_free(&self, start: int, frames: int) -> bool {
        forall|frame: int| start <= frame < start + frames ==> #[trigger] self.is_free(frame)
    }

    /// Whether the pool can hand out `number_of_pages` adjacent pages of the
    /// given size of which the first starts at frame `start`: the pages are
    /// aligned to their size, all of their frames are in the pool, and a
    /// page of that size can be held on this machine.
    pub open spec fn can_serve(&self, start: int, number_of_pages: usize, size: PageSize) -> bool {
        &&& start % size.frames() as int == 0
        &&& size.frames() * WORDS_PER_FRAME <= usize::MAX
        &&& self.run_is_free(start, number_of_pages * size.frames())
    }

    /// Whether `pages` are adjacent pages of the given size, in ascending
    /// order from frame `start` on, that lie in confidential memory and hold
    /// zeros.
    pub open spec fn handed_out(pages: Seq<Page>, start: int, size: PageSize, layout: MemoryLayout) -> bool {
        forall|i: int|
            0 <= i < pages.len() ==> {
                &&& (#[trigger] pages[i]).wf()
                &&& pages[i].spec_size() == size
                &&& pages[i].spec_frame() == start + i * size.frames()
                &&& pages[i].is_confidential(layout)
                &&& forall|w: int| 0 <= w < pages[i]@.len() ==> pages[i]@[w] == 0
            }
    }

    /// A tracker with every frame of confidential memory in the pool. Fails
    /// if the machine cannot count that many frames.
    pub fn new(layout: MemoryLayout) -> (result: Result<Self, Error>)
        requires
            layout.wf(),
        ensures
            result matches Ok(tracker) ==> {
                &&& tracker.wf()
                &&& tracker.layout() == layout
                &&& forall|frame: int| #[trigger] tracker.is_free(frame) == layout.is_confidential_frame(frame)
            },
            result matches Err(error) ==> error == Error::OutOfMemory() && layout.end_frame() - layout.first_frame()
                > usize::MAX,
            result is Ok <==> layout.end_frame() - layout.first_frame() <= usize::MAX,
    {
        let frames: u64 = layout.confidential_end / FRAME_SIZE - layout.confidential_start / FRAME_SIZE;
        if frames > usize::MAX as u64 {
            return Err(Error::OutOfMemory());
        }
        let mut free: Vec<bool> = Vec::new();
        let mut index: u64 = 0;
        while index < frames
            invariant
                index <= frames,
                free@.len() == index,
                forall|i: int| 0 <= i < index ==> free@[i],
            decreases frames - index,
        {
            free.push(true);
            index += 1;
        }
        Ok(Self { layout, free })
    }

    /// The regions of physical memory that the tracker was made for.
    pub fn current_layout(&self) -> (layout: MemoryLayout)
        ensures
            layout == self.layout(),
            self.wf() ==> layout.wf(),
    {
        self.layout
    }

    /// Number of frames in the pool.
    pub fn number_of_free_frames(&self) -> (frames: usize)
        ensures
            frames == self.free_frames(),
    {
        let mut frames: usize = 0;
        let mut index: usize = 0;
        while index < self.free.len()
            invariant
                index <= self.free@.len(),
                frames == count_free(self.free@.take(index as int)),
                frames <= index,
            decreases self.free@.len() - index,
        {
            proof {
                assert(self.free@.take(index + 1).drop_last() =~= self.free@.take(index as int));
            }
            if self.free[index] {
                frames += 1;
            }
            index += 1;
        }
        proof {
            assert(self.free@.take(index as int) =~= self.free@);
        }
        frames
    }

    /// Whether the frame at the address is in the pool.
    pub fn is_frame_free(&self, address: u64) -> (free: bool)
        requires
            self.wf(),
        ensures
            free == self.is_free(address as int / FRAME_SIZE as int),
    {
        let frame: u64 = address / FRAME_SIZE;
        let first: u64 = self.layout.confidential_start / FRAME_SIZE;
        let end: u64 = self.layout.confidential_end / FRAME_SIZE;
        let count: usize = self.free.len();
        if first <= frame && frame < end {
            self.free[(frame - first) as usize]
        } else {
            false
        }
    }

    /// Finds out whether all of the `frames` frames from `start` on are in
    /// the pool.
    fn check_run(&self, start: u64, frames: u64) -> (free: bool)
        requires
            self.wf(),
            self.layout.first_frame() <= start,
            start + frames <= self.layout.end_frame(),
        ensures
            free == self.run_is_free(start as int, frames as int),
    {
        let first: u64 = self.layout.confidential_start / FRAME_SIZE;
        let count: usize = self.free.len();
        let mut offset: u64 = 0;
        while offset < frames
            invariant
                self.wf(),
                count == self.free@.len(),
                first == self.layout.first_frame(),
                first <= start,
                start + frames <= self.layout.end_frame(),
                offset <= frames,
                self.run_is_free(start as int, offset as int),
            decreases frames - offset,
        {
            if !self.free[(start - first + offset) as usize] {
                assert(!self.is_free(start + offset));
                return false;
            }
            offset += 1;
        }
        true
    }

    /// Takes the `frames` frames from `start` on out of the pool.
    fn take_run(&mut self, start: u64, frames: u64)
        requires
            old(self).wf(),
            old(self).layout.first_frame() <= start,
            start + frames <= old(self).layout.end_frame(),
        ensures
            final(self).wf(),
            final(self).layout() == old(self).layout(),
            forall|frame: int|
                #![trigger final(self).is_free(frame)]
                #![trigger old(self).is_free(frame)]
                final(self).is_free(frame) == (old(self).is_free(frame) && !(start <= frame < start + frames)),
    {
        let first: u64 = self.layout.confidential_start / FRAME_SIZE;
        let count: usize = self.free.len();
        let mut offset: u64 = 0;
        while offset < frames
            invariant
                self.wf(),
                count == self.free@.len(),
                self.layout == old(self).layout,
                first == self.layout.first_frame(),
                first <= start,
                start + frames <= self.layout.end_frame(),
                offset <= frames,
                forall|frame: int|
                    #![trigger self.is_free(frame)]
                    #![trigger old(self).is_free(frame)]
                    self.is_free(frame) == (old(self).is_free(frame) && !(start <= frame < start + offset)),
            decreases frames - offset,
        {
            self.free[(start - first + offset) as usize] = false;
            offset += 1;
        }
    }

    /// Makes the pages that stand for a run of frames taken from the pool.
    fn make_pages(start: u64, number_of_pages: usize, size: PageSize, layout: &MemoryLayout) -> (pages: Vec<Page>)
        requires
            layout.wf(),
            start % size.frames() as u64 == 0,
            size.frames() * WORDS_PER_FRAME <= usize::MAX,
            layout.first_frame() <= start,
            start + number_of_pages * size.frames() <= layout.end_frame(),
        ensures
            pages@.len() == number_of_pages,
            Self::handed_out(pages@, start as int, size, *layout),
    {
        let per_page: u64 = size.in_frames();
        let words: usize = (per_page * 512) as usize;
        let mut pages: Vec<Page> = Vec::new();
        let mut frame: u64 = start;
        let mut index: usize = 0;
        while index < number_of_pages
            invariant
                layout.wf(),
                index <= number_of_pages,
                per_page == size.frames(),
                words == per_page * 512,
                frame == start + index * per_page,
                frame % per_page == 0,
                layout.first_frame() <= start,
                start + number_of_pages * per_page <= layout.end_frame(),
                pages@.len() == index,
                Self::handed_out(pages@, start as int, size, *layout),
            decreases number_of_pages - index,
        {
            proof {
                assert((index + 1) * per_page == index * per_page + per_page) by (nonlinear_arith);
                assert((index + 1) * per_page <= number_of_pages * per_page) by (nonlinear_arith)
                    requires
                        index + 1 <= number_of_pages,
                        per_page >= 0,
                ;
                lemma_mod_add_multiples_vanish(frame as int, per_page as int);
            }
            let page = Page::new(frame, size, zeroed(words));
            pages.push(page);
            frame += per_page;
            index += 1;
        }
        pages
    }

    /// Hands out `number_of_pages` pages of the given size that are adjacent
    /// in memory, in ascending order of their addresses, filled with zeros.
    /// Fails only if the pool holds no such run of pages.
    pub fn acquire_continuous_pages(&mut self, number_of_pages: usize, size: PageSize) -> (result: Result<
        Vec<Page>,
        Error,
    >)
        requires
            old(self).wf(),
        ensures
            final(self).wf(),
            final(self).layout() == old(self).layout(),
            result matches Ok(pages) ==> {
                let start = if number_of_pages > 0 {
                    pages@[0].spec_frame()
                } else {
                    0
                };
                &&& pages@.len() == number_of_pages
                &&& old(self).can_serve(start, number_of_pages, size)
                &&& Self::handed_out(pages@, start, size, old(self).layout())
                &&& forall|frame: int|
                    #![trigger final(self).is_free(frame)]
                    #![trigger old(self).is_free(frame)]
                    final(self).is_free(frame) == (old(self).is_free(frame) && !(start <= frame < start
                        + number_of_pages * size.frames()))
                &&& final(self).free_set() == pool_without(
                    old(self).free_set(),
                    start,
                    number_of_pages * size.frames(),
                )
                &&& number_of_pages > 0 ==> pool_first_fit(old(self).free_set(), number_of_pages, size) == Some(
                    start,
                )
            },
            result matches Err(error) ==> {
                &&& error == Error::OutOfMemory()
                &&& forall|start: int| !old(self).can_serve(start, number_of_pages, size)
                &&& forall|frame: int|
                    #![trigger final(self).is_free(frame)]
                    #![trigger old(self).is_free(frame)]
                    final(self).is_free(frame) == old(self).is_free(frame)
                &&& final(self).free_set() == old(self).free_set()
            },
            result is Ok <==> pool_first_fit(old(self).free_set(), number_of_pages, size) is Some,
    {
        let per_page: u64 = size.in_frames();
        if per_page > (usize::MAX / 512) as u64 {
            proof {
                assert(self.free_set() =~= old(self).free_set());
            }
            return Err(Error::OutOfMemory());
        }
        if number_of_pages == 0 {
            assert(0int % size.frames() as int == 0);
            assert(number_of_pages * size.frames() == 0) by (nonlinear_arith)
                requires
                    number_of_pages == 0,
            ;
            proof {
                assert(pool_fits(self.free_set(), 0, number_of_pages, size));
                assert(self.free_set() =~= pool_without(old(self).free_set(), 0, 0));
            }
            return Ok(Vec::new());
        }
        let count: u64 = self.free.len() as u64;
        let first: u64 = self.layout.confidential_start / FRAME_SIZE;
        if number_of_pages as u64 > count / per_page {
            proof {
                let frames = number_of_pages * per_page;
                assert(frames > count) by (nonlinear_arith)
                    requires
                        frames == number_of_pages * per_page,
                        number_of_pages > count / per_page,
                        per_page > 0,
                        count >= 0,
                ;
                assert forall|start: int| !old(self).can_serve(start, number_of_pages, size) by {
                    if old(self).can_serve(start, number_of_pages, size) {
                        assert(self.is_free(start));
                        assert(self.is_free(start + frames - 1));
                    }
                }
                assert forall|start: int| !pool_fits(old(self).free_set(), start, number_of_pages, size) by {
                    old(self).lemma_can_serve(start, number_of_pages, size);
                }
                assert(self.free_set() =~= old(self).free_set());
            }
            return Err(Error::OutOfMemory());
        }
        proof {
            assert(number_of_pages * per_page <= count) by (nonlinear_arith)
                requires
                    number_of_pages <= count / per_page,
                    per_page > 0,
                    count >= 0,
            ;
        }
        let frames: u64 = number_of_pages as u64 * per_page;
        proof {
            assert(frames >= 1) by (nonlinear_arith)
                requires
                    frames == number_of_pages * per_page,
                    number_of_pages >= 1,
                    per_page >= 1,
            ;
        }
        let remainder: u64 = first % per_page;
        let mut start: u64 = if remainder == 0 {
            first
        } else {
            first + (per_page - remainder)
        };
        proof {
            lemma_fundamental_div_mod(first as int, per_page as int);
            if remainder != 0 {
                let q = first as int / per_page as int;
                assert(start == per_page * (q + 1)) by (nonlinear_arith)
                    requires
                        first == per_page * q + remainder,
                        start == first + (per_page - remainder),
                ;
                vstd::arithmetic::div_mod::lemma_mod_multiples_basic(q + 1, per_page as int);
                assert((per_page * (q + 1)) % per_page as int == 0) by (nonlinear_arith)
                    requires
                        ((q + 1) * per_page) % per_page as int == 0,
                ;
            }
            assert forall|s: int| first <= s < start implies !self.can_serve(s, number_of_pages, size) by {
                if s % per_page as int == 0 && s > first {
                    let q = first as int / per_page as int;
                    assert(per_page * q < s);
                    lemma_fundamental_div_mod(s, per_page as int);
                    let qs = s / per_page as int;
                    assert(q < qs) by (nonlinear_arith)
                        requires
                            per_page > 0,
                            per_page * q < per_page * qs,
                    ;
                    assert(per_page * (q + 1) <= per_page * qs) by (nonlinear_arith)
                        requires
                            per_page > 0,
                            q + 1 <= qs,
                    ;
                    assert(start == per_page * (q + 1)) by (nonlinear_arith)
                        requires
                            first == per_page * q + remainder,
                            start == first + (per_page - remainder),
                    ;
                }
            }
        }
        while start - first <= count - frames
            invariant
                self.wf(),
                *self == *old(self),
                per_page == size.frames(),
                per_page * 512 <= usize::MAX,
                per_page > 0,
                frames == number_of_pages * per_page,
                frames >= 1,
                frames <= count,
                count == self.free@.len(),
                first == self.layout.first_frame(),
                first <= start,
                start <= first + count + per_page,
                start % per_page == 0,
                forall|s: int| first <= s < start ==> !self.can_serve(s, number_of_pages, size),
            decreases first + count + per_page - start,
        {
            if self.check_run(start, frames) {
                proof {
                    assert(old(self).can_serve(start as int, number_of_pages, size));
                    old(self).lemma_can_serve(start as int, number_of_pages, size);
                    assert forall|other: int| #[trigger]
                        pool_fits(old(self).free_set(), other, number_of_pages, size) implies start <= other by {
                        old(self).lemma_can_serve(other, number_of_pages, size);
                        if other < first {
                            assert(self.is_free(other));
                        }
                    }
                    lemma_first_fit(old(self).free_set(), start as int, number_of_pages, size);
                }
                self.take_run(start, frames);
                let pages = Self::make_pages(start, number_of_pages, size, &self.layout);
                proof {
                    assert(pages@[0].spec_frame() == start + 0 * size.frames());
                    assert(self.free_set() =~= pool_without(old(self).free_set(), start as int, frames as int));
                }
                return Ok(pages);
            }
            proof {
                assert forall|s: int| first <= s < start + per_page implies !self.can_serve(
                    s,
                    number_of_pages,
                    size,
                ) by {
                    if start < s && s % per_page as int == 0 {
                        lemma_multiples_are_apart(start as int, s, per_page as int);
                    }
                }
                lemma_mod_add_multiples_vanish(start as int, per_page as int);
            }
            start += per_page;
        }
        proof {
            assert forall|s: int| !old(self).can_serve(s, number_of_pages, size) by {
                if old(self).can_serve(s, number_of_pages, size) {
                    assert(self.is_free(s));
                    assert(self.is_free(s + frames - 1));
                }
            }
            assert forall|s: int| !pool_fits(old(self).free_set(), s, number_of_pages, size) by {
                old(self).lemma_can_serve(s, number_of_pages, size);
            }
            assert(self.free_set() =~= old(self).free_set());
        }
        Err(Error::OutOfMemory())
    }

    /// Puts the frames of a page back into the pool. Frames that are not
    /// confidential memory are left alone.
    pub fn release_page(&mut self, page: Page)
        requires
            old(self).wf(),
        ensures
            final(self).wf(),
            final(self).layout() == old(self).layout(),
            forall|frame: int|
                #![trigger final(self).is_free(frame)]
                #![trigger old(self).is_free(frame)]
                final(self).is_free(frame) == (old(self).is_free(frame) || (page.covers(frame)
                    && old(self).layout().is_confidential_frame(frame))),
    {
        let first: u64 = self.layout.confidential_start / FRAME_SIZE;
        let end: u64 = self.layout.confidential_end / FRAME_SIZE;
        let page_start: u64 = page.frame();
        let per_page: u64 = page.size().in_frames();
        let count: usize = self.free.len();
        let mut frame: u64 = if page_start < first {
            first
        } else {
            page_start
        };
        while frame < end && frame - page_start < per_page
            invariant
                self.wf(),
                count == self.free@.len(),
                self.layout == old(self).layout,
                first == self.layout.first_frame(),
                end == self.layout.end_frame(),
                page_start == page.spec_frame(),
                per_page == page.spec_size().frames(),
                page_start <= frame,
                first <= frame,
                forall|f: int|
                    #![trigger self.is_free(f)]
                    self.is_free(f) == (old(self).is_free(f) || (page.covers(f) && f < frame
                        && self.layout.is_confidential_frame(f))),
            decreases end - frame,
        {
            let ghost before = *self;
            self.free[(frame - first) as usize] = true;
            assert(self.free@ == before.free@.update(frame - first, true));
            assert forall|f: int|
                #![trigger self.is_free(f)]
                self.is_free(f) == (old(self).is_free(f) || (page.covers(f) && f < frame + 1
                    && self.layout.is_confidential_frame(f))) by {
                assert(before.is_free(f) == (old(self).is_free(f) || (page.covers(f) && f < frame
                    && self.layout.is_confidential_frame(f))));
                if f == frame {
                    assert(self.is_free(f));
                    assert(page.covers(f));
                } else {
                    assert(self.is_free(f) == before.is_free(f));
                }
            }
            frame += 1;
        }
    }
}

} // verus!
