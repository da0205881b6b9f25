use crate::control_data::confidential_hart::ConfidentialHart;
use crate::control_data::confidential_vm::{ConfidentialVm, ConfidentialVmId, VMID_LIMIT};
use crate::error::Error;
use crate::hart::HartState;
use crate::memory::{MemoryLayout, MemoryTracker, NonConfidentialMemory, NonConfidentialMemoryAddress, SharedPage};
use crate::mmu::page_table_view::{copy_outcome, source_is_sound, EntryView, Translation};
use crate::mmu::{ConfidentialVmVirtualAddress, PageTableLevel, PagingSystem, RootPageTable};
use crate::transformations::PendingRequest;
use vstd::prelude::*;

verus! {

/// Everything that the monitor keeps: the pool of confidential memory and
/// the confidential VMs that live on it.
pub struct ControlData {
    tracker: MemoryTracker,
    confidential_vms: Vec<ConfidentialVm>,
}

impl ControlData {
    /// The pool of confidential memory.
    pub closed spec fn tracker(&self) -> MemoryTracker {
        self.tracker
    }

    /// The confidential VMs that live.
    pub closed spec fn vms(&self) -> Seq<ConfidentialVm> {
        self.confidential_vms@
    }

    pub open spec fn layout(&self) -> MemoryLayout {
        self.tracker().layout()
    }

    /// Whether the page tables of the VM at position `position` own the
    /// frame, as a table or as the page of a leaf.
    pub open spec fn vm_owns(&self, position: int, frame: int) -> bool {
        self.vms()[position].page_tables().owns(frame)
    }

    /// Whether some confidential VM owns the frame.
    pub open spec fn owned(&self, frame: int) -> bool {
        exists|i: int| 0 <= i < self.vms().len() && #[trigger] self.vm_owns(i, frame)
    }

    /// Every frame of confidential memory is either in the pool or owned by
    /// exactly one confidential VM.
    pub open spec fn ownership_is_conserved(&self) -> bool {
        &&& forall|i: int, frame: int|
            0 <= i < self.vms().len() && #[trigger] self.vm_owns(i, frame) ==> !self.tracker().is_free(frame)
        &&& forall|i: int, j: int, frame: int|
            0 <= i < self.vms().len() && 0 <= j < self.vms().len() && i != j ==> !(#[trigger] self.vm_owns(i, frame)
                && #[trigger] self.vm_owns(j, frame))
        &&& forall|frame: int|
            self.layout().is_confidential_frame(frame) ==> (#[trigger] self.tracker().is_free(frame)
                || self.owned(frame))
    }

    /// The confidential VMs are well formed, no identifier is used twice,
    /// and ownership of confidential memory is conserved.
    pub open spec fn wf(&self) -> bool {
        &&& self.tracker().wf()
        &&& forall|i: int| 0 <= i < self.vms().len() ==> (#[trigger] self.vms()[i]).wf(self.layout())
        &&& forall|i: int, j: int|
            0 <= i < self.vms().len() && 0 <= j < self.vms().len() && i != j ==> (#[trigger] self.vms()[i]).spec_id()
                != (#[trigger] self.vms()[j]).spec_id()
        &&& self.ownership_is_conserved()
    }

    /// Physical address of the root page table that a value of `hgatp`
    /// names.
    pub open spec fn spec_root_address(hgatp: u64) -> u64 {
        (hgatp & 0xfff_ffff_ffff) << 12
    }

    /// The paging mode that a value of `hgatp` selects.
    pub open spec fn spec_mode(hgatp: u64) -> u64 {
        hgatp >> 60
    }

    /// No confidential VM, and all of confidential memory in the pool.
    pub fn new(layout: MemoryLayout) -> (result: Result<Self, Error>)
        requires
            layout.wf(),
        ensures
            result matches Ok(control_data) ==> {
                &&& control_data.wf()
                &&& control_data.layout() == layout
                &&& control_data.vms().len() == 0
                &&& forall|frame: int|
                    #[trigger] control_data.tracker().is_free(frame) == layout.is_confidential_frame(frame)
            },
            result matches Err(error) ==> error == Error::OutOfMemory(),
            result is Ok <==> layout.end_frame() - layout.first_frame() <= usize::MAX,
    {
        let tracker = MemoryTracker::new(layout)?;
        Ok(Self { tracker, confidential_vms: Vec::new() })
    }

    /// Number of frames in the pool.
    pub fn number_of_free_frames(&self) -> (frames: usize)
        ensures
            frames == self.tracker().free_frames(),
    {
        self.tracker.number_of_free_frames()
    }

    pub fn memory_layout(&self) -> (layout: MemoryLayout)
        ensures
            layout == self.layout(),
    {
        self.tracker.current_layout()
    }

    pub fn number_of_confidential_vms(&self) -> (number: usize)
        ensures
            number == self.vms().len(),
    {
        self.confidential_vms.len()
    }

    /// Position of the VM with the given identifier.
    fn find(&self, id: ConfidentialVmId) -> (position: Option<usize>)
        ensures
            position matches Some(p) ==> p < self.vms().len() && self.vms()[p as int].spec_id() == id,
            position matches Some(p) ==> self.is_first_position(p as int, id) && p == self.first_position(id),
            position is None ==> forall|i: int| 0 <= i < self.vms().len()
                ==> (#[trigger] self.vms()[i]).spec_id() != id,
            position is Some <==> self.lives(id),
    {
        let mut index: usize = 0;
        while index < self.confidential_vms.len()
            invariant
                index <= self.vms().len(),
                forall|i: int| 0 <= i < index ==> (#[trigger] self.vms()[i]).spec_id() != id,
            decreases self.vms().len() - index,
        {
            if self.confidential_vms[index].id().as_u64() == id.as_u64() {
                proof {
                    self.lemma_first_position(index as int, id);
                }
                return Some(index);
            }
            index += 1;
        }
        None
    }

    /// Whether `position` is the first position at which a VM with the
    /// identifier stands.
    pub open spec fn is_first_position(&self, position: int, id: ConfidentialVmId) -> bool {
        &&& 0 <= position < self.vms().len()
        &&& self.vms()[position].spec_id() == id
        &&& forall|i: int| 0 <= i < position ==> (#[trigger] self.vms()[i]).spec_id() != id
    }

    /// The first position at which a VM with the identifier stands, where
    /// one lives. In a well-formed registry it is the only one.
    pub open spec fn first_position(&self, id: ConfidentialVmId) -> int {
        choose|position: int| self.is_first_position(position, id)
    }

    /// There is one first position at most.
    pub proof fn lemma_first_position(&self, position: int, id: ConfidentialVmId)
        requires
            self.is_first_position(position, id),
        ensures
            self.first_position(id) == position,
            self.lives(id),
    {
        let chosen = self.first_position(id);
        assert(self.is_first_position(chosen, id));
        if chosen < position {
            assert(self.vms()[chosen].spec_id() != id);
        }
        if position < chosen {
            assert(self.vms()[position].spec_id() != id);
        }
    }

    /// Whether a confidential VM with the identifier lives.
    pub open spec fn lives(&self, id: ConfidentialVmId) -> bool {
        exists|i: int| 0 <= i < self.vms().len() && (#[trigger] self.vms()[i]).spec_id() == id
    }

    /// An identifier that no living VM has: the smallest one above zero.
    fn fresh_id(&self) -> (id: Option<ConfidentialVmId>)
        ensures
            id matches Some(fresh) ==> 0 < fresh.0 < VMID_LIMIT && !self.lives(fresh),
            id matches Some(fresh) ==> forall|smaller: u64|
                0 < smaller < fresh.0 ==> #[trigger] self.lives(ConfidentialVmId(smaller)),
            id is None ==> forall|candidate: u64|
                0 < candidate < VMID_LIMIT ==> #[trigger] self.lives(ConfidentialVmId(candidate)),
            id is Some <==> self.has_free_id(),
    {
        let mut candidate: u64 = 1;
        while candidate < VMID_LIMIT
            invariant
                1 <= candidate <= VMID_LIMIT,
                forall|smaller: u64| 0 < smaller < candidate ==> #[trigger] self.lives(ConfidentialVmId(smaller)),
            decreases VMID_LIMIT - candidate,
        {
            match self.find(ConfidentialVmId::new(candidate)) {
                None => {
                    assert(!self.lives(ConfidentialVmId(candidate)));
                    return Some(ConfidentialVmId::new(candidate));
                },
                Some(position) => {
                    assert(self.vms()[position as int].spec_id() == ConfidentialVmId(candidate));
                },
            }
            candidate += 1;
        }
        None
    }

    /// The harts of a VM that is made of the VM of the calling hart: the
    /// calling hart goes on as hart 0 and waits for the answer to its call,
    /// the others start from its control and status registers.
    fn make_harts(caller: &HartState, number_of_harts: usize) -> (harts: Vec<ConfidentialHart>)
        requires
            number_of_harts >= 1,
        ensures
            harts@.len() == number_of_harts,
            harts@[0].pending() == Some(PendingRequest::SbiRequest()),
            harts@[0].state().gprs.0@ == caller.gprs.0@,
            harts@[0].state().fprs.0@ == caller.fprs.0@,
            forall|i: int|
                0 <= i < number_of_harts ==> {
                    &&& !(#[trigger] harts@[i]).spec_is_dummy()
                    &&& ConfidentialHart::reset_from(harts@[i].state(), i as usize, *caller)
                },
            forall|i: int|
                1 <= i < number_of_harts ==> (#[trigger] harts@[i]).pending() is None
                    && harts@[i].state().registers_cleared(),
    {
        let mut harts: Vec<ConfidentialHart> = Vec::new();
        harts.push(ConfidentialHart::from_vm_hart(0, caller));
        let mut index: usize = 1;
        while index < number_of_harts
            invariant
                1 <= index <= number_of_harts,
                harts@.len() == index,
                harts@[0].pending() == Some(PendingRequest::SbiRequest()),
                harts@[0].state().gprs.0@ == caller.gprs.0@,
                harts@[0].state().fprs.0@ == caller.fprs.0@,
                forall|i: int|
                    0 <= i < index ==> {
                        &&& !(#[trigger] harts@[i]).spec_is_dummy()
                        &&& ConfidentialHart::reset_from(harts@[i].state(), i as usize, *caller)
                    },
                forall|i: int|
                    1 <= i < index ==> (#[trigger] harts@[i]).pending() is None
                        && harts@[i].state().registers_cleared(),
            decreases number_of_harts - index,
        {
            harts.push(ConfidentialHart::from_vm_hart_reset(index, caller));
            index += 1;
        }
        harts
    }

    /// Makes a confidential VM of the VM whose hart calls: copies the page
    /// tables that `hgatp` of the calling hart names into confidential
    /// memory and makes the confidential harts. On failure nothing has
    /// changed: no VM is made, and the pool is what it was.
    pub fn promote_to_confidential_vm(
        &mut self,
        caller: &HartState,
        number_of_harts: usize,
        memory: &NonConfidentialMemory,
    ) -> (result: Result<ConfidentialVmId, Error>)
        requires
            old(self).wf(),
        ensures
            final(self).wf(),
            final(self).layout() == old(self).layout(),
            result matches Ok(id) ==> {
                let vm = final(self).vms().last();
                &&& final(self).vms().len() == old(self).vms().len() + 1
                &&& final(self).vms().drop_last() == old(self).vms()
                &&& vm.spec_id() == id
                &&& 0 < id.0 < VMID_LIMIT
                &&& !old(self).lives(id)
                &&& Self::spec_mode(caller.hgatp) == crate::mmu::paging_system::HGATP_MODE_SV57X4
                &&& vm.page_tables().mirrors(Self::spec_root_address(caller.hgatp) as int, *memory)
                &&& source_is_sound(
                    *memory,
                    old(self).layout(),
                    Self::spec_root_address(caller.hgatp) as int,
                    PageTableLevel::Level5,
                )
                &&& vm.harts().len() == number_of_harts
                &&& vm.harts()[0].pending() == Some(PendingRequest::SbiRequest())
                &&& vm.harts()[0].state().gprs.0@ == caller.gprs.0@
                &&& forall|i: int| 0 <= i < number_of_harts ==> !(#[trigger] vm.harts()[i]).spec_is_dummy()
                &&& forall|frame: int|
                    #![trigger final(self).tracker().is_free(frame)]
                    #![trigger old(self).tracker().is_free(frame)]
                    final(self).tracker().is_free(frame) == (old(self).tracker().is_free(frame)
                        && !vm.page_tables().owns(frame))
            },
            result matches Err(error) ==> {
                &&& final(self).vms() == old(self).vms()
                &&& forall|frame: int|
                    #![trigger final(self).tracker().is_free(frame)]
                    #![trigger old(self).tracker().is_free(frame)]
                    final(self).tracker().is_free(frame) == old(self).tracker().is_free(frame)
                &&& number_of_harts == 0 ==> error == Error::InvalidHartId()
                &&& number_of_harts != 0 && Self::spec_mode(caller.hgatp)
                    != crate::mmu::paging_system::HGATP_MODE_SV57X4 ==> error == Error::PageTableCorrupted()
                &&& error == Error::InvalidAddress() ==> !old(self).layout().in_non_confidential(
                    Self::spec_root_address(caller.hgatp) as int,
                    1,
                )
                &&& final(self).tracker().free_set() == old(self).tracker().free_set()
                &&& error == Error::PageTableCorrupted() && Self::spec_mode(caller.hgatp)
                    == crate::mmu::paging_system::HGATP_MODE_SV57X4 ==> !source_is_sound(
                    *memory,
                    old(self).layout(),
                    Self::spec_root_address(caller.hgatp) as int,
                    PageTableLevel::Level5,
                )
            },
            (match old(self).promotion_outcome(*caller, number_of_harts, *memory) {
                Ok(left) => result is Ok && final(self).tracker().free_set() == left,
                Err(error) => result == Err::<ConfidentialVmId, Error>(error),
            }),
            result matches Ok(id) ==> forall|smaller: u64|
                0 < smaller < id.0 ==> #[trigger] old(self).lives(ConfidentialVmId(smaller)),
    {
        if number_of_harts == 0 {
            return Err(Error::InvalidHartId());
        }
        let layout: MemoryLayout = self.tracker.current_layout();
        let paging_system = match PagingSystem::from(caller.hgatp >> 60) {
            Some(paging_system) => paging_system,
            None => {
                return Err(Error::PageTableCorrupted());
            },
        };
        let root_address: u64 = (caller.hgatp & 0xfff_ffff_ffff) << 12;
        let address = match NonConfidentialMemoryAddress::new(root_address, &layout) {
            Ok(address) => address,
            Err(error) => {
                return Err(error);
            },
        };
        let id = match self.fresh_id() {
            Some(id) => id,
            None => {
                return Err(Error::OutOfMemory());
            },
        };
        let ghost pool = self.tracker;
        let root_page_table = match RootPageTable::copy_from_non_confidential_memory(
            address,
            paging_system,
            memory,
            &mut self.tracker,
        ) {
            Ok(root_page_table) => root_page_table,
            Err(error) => {
                proof {
                    assert forall|i: int| 0 <= i < self.vms().len() implies (#[trigger] self.vms()[i]).wf(
                        self.layout(),
                    ) by {
                        assert(old(self).vms()[i].wf(layout));
                    }
                    assert forall|i: int, j: int, frame: int|
                        0 <= i < self.vms().len() && 0 <= j < self.vms().len() && i != j implies !(
                    #[trigger] self.vm_owns(i, frame) && #[trigger] self.vm_owns(j, frame)) by {
                        assert(!(old(self).vm_owns(i, frame) && old(self).vm_owns(j, frame)));
                    }
                    assert forall|i: int, frame: int|
                        0 <= i < self.vms().len() && #[trigger] self.vm_owns(i, frame)
                            implies !self.tracker().is_free(
                        frame,
                    ) by {
                        assert(old(self).vm_owns(i, frame));
                    }
                    assert forall|frame: int| self.layout().is_confidential_frame(frame) implies (
                    #[trigger] self.tracker().is_free(frame) || self.owned(frame)) by {
                        if !self.tracker().is_free(frame) {
                            assert(!pool.is_free(frame));
                            assert(old(self).owned(frame));
                            let i = choose|i: int| 0 <= i < old(self).vms().len() && #[trigger] old(self).vm_owns(
                                i,
                                frame,
                            );
                            assert(self.vm_owns(i, frame));
                        }
                    }
                }
                return Err(error);
            },
        };
        let harts = Self::make_harts(caller, number_of_harts);
        let vm = ConfidentialVm::new(id, root_page_table, harts, &layout);
        let ghost before = self.confidential_vms@;
        self.confidential_vms.push(vm);
        proof {
            let after = self.confidential_vms@;
            let n = before.len() as int;
            assert(after.drop_last() =~= before);
            assert forall|i: int| 0 <= i < after.len() implies (#[trigger] after[i]).wf(layout) by {
                if i < n {
                    assert(after[i] == before[i]);
                    assert(old(self).vms()[i].wf(layout));
                }
            }
            assert(!old(self).lives(id));
            assert forall|i: int, j: int| 0 <= i < after.len() && 0 <= j < after.len() && i != j implies (
            #[trigger] after[i]).spec_id() != (#[trigger] after[j]).spec_id() by {
                if i < n {
                    assert(after[i] == before[i]);
                    assert(old(self).vms()[i].spec_id() == before[i].spec_id());
                }
                if j < n {
                    assert(after[j] == before[j]);
                    assert(old(self).vms()[j].spec_id() == before[j].spec_id());
                }
                if i < n && j < n {
                    assert(old(self).vms()[i].spec_id() != old(self).vms()[j].spec_id());
                }
            }
            assert forall|i: int, frame: int| 0 <= i < after.len() && #[trigger] self.vm_owns(i, frame) implies
                !self.tracker().is_free(frame) by {
                if i < n {
                    assert(after[i] == before[i]);
                    assert(old(self).vm_owns(i, frame));
                }
            }
            assert forall|i: int, j: int, frame: int|
                0 <= i < after.len() && 0 <= j < after.len() && i != j implies !(#[trigger] self.vm_owns(i, frame)
                && #[trigger] self.vm_owns(j, frame)) by {
                if i < n {
                    assert(after[i] == before[i]);
                    assert(self.vm_owns(i, frame) == old(self).vm_owns(i, frame));
                }
                if j < n {
                    assert(after[j] == before[j]);
                    assert(self.vm_owns(j, frame) == old(self).vm_owns(j, frame));
                }
            }
            assert forall|frame: int| self.layout().is_confidential_frame(frame) implies (
            #[trigger] self.tracker().is_free(frame) || self.owned(frame)) by {
                if !self.tracker().is_free(frame) {
                    if pool.is_free(frame) {
                        assert(self.vm_owns(n, frame));
                    } else {
                        assert(old(self).owned(frame));
                        let i = choose|i: int| 0 <= i < before.len() && #[trigger] old(self).vm_owns(i, frame);
                        assert(after[i] == before[i]);
                        assert(self.vm_owns(i, frame));
                    }
                }
            }
        }
        Ok(id)
    }

    /// Destroys a confidential VM: everything that its page tables own goes
    /// back into the pool.
    pub fn remove_confidential_vm(&mut self, id: ConfidentialVmId) -> (result: Result<(), Error>)
        requires
            old(self).wf(),
        ensures
            final(self).wf(),
            final(self).layout() == old(self).layout(),
            result is Ok <==> old(self).lives(id),
            result matches Err(error) ==> {
                &&& error == Error::InvalidConfidentialVmId()
                &&& final(self).vms() == old(self).vms()
                &&& forall|frame: int|
                    #![trigger final(self).tracker().is_free(frame)]
                    #![trigger old(self).tracker().is_free(frame)]
                    final(self).tracker().is_free(frame) == old(self).tracker().is_free(frame)
            },
            result matches Ok(_) ==> {
                &&& !final(self).lives(id)
                &&& final(self).vms().len() + 1 == old(self).vms().len()
                &&& exists|position: int|
                    0 <= position < old(self).vms().len() && old(self).vms()[position].spec_id() == id
                        && final(self).vms() == old(self).vms().remove(position) && forall|frame: int|
                        #![trigger final(self).tracker().is_free(frame)]
                        #![trigger old(self).tracker().is_free(frame)]
                        final(self).tracker().is_free(frame) == (old(self).tracker().is_free(frame)
                            || old(self).vm_owns(position, frame))
            },
    {
        let position = match self.find(id) {
            Some(position) => position,
            None => {
                return Err(Error::InvalidConfidentialVmId());
            },
        };
        let ghost before = self.confidential_vms@;
        let ghost pool = self.tracker;
        let ghost layout = self.tracker.layout();
        let vm = self.confidential_vms.remove(position);
        vm.release(&mut self.tracker);
        proof {
            let after = self.confidential_vms@;
            let p = position as int;
            assert(after == before.remove(p));
            assert forall|i: int| 0 <= i < after.len() implies after[i] == before[if i < p {
                i
            } else {
                i + 1
            }] by {}
            assert forall|i: int| 0 <= i < after.len() implies (#[trigger] after[i]).wf(layout) by {
                let k = if i < p {
                    i
                } else {
                    i + 1
                };
                assert(old(self).vms()[k].wf(layout));
            }
            assert forall|i: int, j: int| 0 <= i < after.len() && 0 <= j < after.len() && i != j implies (
            #[trigger] after[i]).spec_id() != (#[trigger] after[j]).spec_id() by {
                let ki = if i < p {
                    i
                } else {
                    i + 1
                };
                let kj = if j < p {
                    j
                } else {
                    j + 1
                };
                assert(before[ki].spec_id() != before[kj].spec_id());
            }
            assert forall|i: int, frame: int| 0 <= i < after.len() && #[trigger] self.vm_owns(i, frame) implies
                !self.tracker().is_free(frame) by {
                let k = if i < p {
                    i
                } else {
                    i + 1
                };
                assert(old(self).vm_owns(k, frame));
                assert(!(old(self).vm_owns(k, frame) && old(self).vm_owns(p, frame)));
            }
            assert forall|i: int, j: int, frame: int|
                0 <= i < after.len() && 0 <= j < after.len() && i != j implies !(#[trigger] self.vm_owns(i, frame)
                && #[trigger] self.vm_owns(j, frame)) by {
                let ki = if i < p {
                    i
                } else {
                    i + 1
                };
                let kj = if j < p {
                    j
                } else {
                    j + 1
                };
                assert(!(old(self).vm_owns(ki, frame) && old(self).vm_owns(kj, frame)));
            }
            assert forall|frame: int| self.layout().is_confidential_frame(frame) implies (
            #[trigger] self.tracker().is_free(frame) || self.owned(frame)) by {
                if !self.tracker().is_free(frame) {
                    assert(old(self).owned(frame));
                    let k = choose|k: int| 0 <= k < before.len() && #[trigger] old(self).vm_owns(k, frame);
                    assert(k != p);
                    let i = if k < p {
                        k
                    } else {
                        k - 1
                    };
                    assert(after[i] == before[k]);
                    assert(self.vm_owns(i, frame));
                }
            }
            assert(!self.lives(id)) by {
                if self.lives(id) {
                    let i = choose|i: int| 0 <= i < after.len() && (#[trigger] after[i]).spec_id() == id;
                    let k = if i < p {
                        i
                    } else {
                        i + 1
                    };
                    assert(before[k].spec_id() != before[p].spec_id());
                }
            }
        }
        Ok(())
    }

    /// Takes a confidential hart out of its VM, to run it on a physical
    /// hart.
    pub fn steal_confidential_hart(&mut self, id: ConfidentialVmId, hart_id: usize) -> (result: Result<
        ConfidentialHart,
        Error,
    >)
        requires
            old(self).wf(),
        ensures
            final(self).wf(),
            final(self).tracker() == old(self).tracker(),
            final(self).vms().len() == old(self).vms().len(),
            forall|i: int|
                0 <= i < old(self).vms().len() ==> {
                    &&& (#[trigger] final(self).vms()[i]).spec_id() == old(self).vms()[i].spec_id()
                    &&& final(self).vms()[i].page_tables() == old(self).vms()[i].page_tables()
                    &&& final(self).vms()[i].harts().len() == old(self).vms()[i].harts().len()
                },
            !old(self).lives(id) ==> result == Err::<ConfidentialHart, Error>(Error::InvalidConfidentialVmId())
                && final(self).vms() == old(self).vms(),
            old(self).lives(id) ==> exists|p: int|
                0 <= p < old(self).vms().len() && old(self).vms()[p].spec_id() == id && {
                    let vm = old(self).vms()[p];
                    &&& result is Err <==> hart_id >= vm.harts().len() || vm.harts()[hart_id as int].spec_is_dummy()
                    &&& result matches Err(error) ==> error == Error::InvalidHartId() && final(self).vms()[p].harts()
                        == vm.harts()
                    &&& result matches Ok(hart) ==> hart == vm.harts()[hart_id as int]
                        && final(self).vms()[p].harts()[hart_id as int].spec_is_dummy()
                },
    {
        let position = match self.find(id) {
            Some(position) => position,
            None => {
                return Err(Error::InvalidConfidentialVmId());
            },
        };
        let ghost before = self.confidential_vms@;
        let ghost layout = self.tracker.layout();
        assert(before[position as int].wf(layout));
        let result = self.confidential_vms[position].steal_confidential_hart(hart_id);
        proof {
            let after = self.confidential_vms@;
            assert forall|i: int| 0 <= i < after.len() implies (#[trigger] after[i]).wf(layout) by {
                assert(old(self).vms()[i].wf(layout));
            }
            assert forall|i: int, frame: int| 0 <= i < after.len() implies self.vm_owns(i, frame)
                == old(self).vm_owns(i, frame) by {}
            assert forall|frame: int| self.owned(frame) == old(self).owned(frame) by {
                if self.owned(frame) {
                    let i = choose|i: int| 0 <= i < after.len() && #[trigger] self.vm_owns(i, frame);
                    assert(old(self).vm_owns(i, frame));
                }
                if old(self).owned(frame) {
                    let i = choose|i: int| 0 <= i < before.len() && #[trigger] old(self).vm_owns(i, frame);
                    assert(self.vm_owns(i, frame));
                }
            }
            assert forall|i: int, j: int| 0 <= i < after.len() && 0 <= j < after.len() && i != j implies (
            #[trigger] after[i]).spec_id() != (#[trigger] after[j]).spec_id() by {
                assert(before[i].spec_id() != before[j].spec_id());
            }
        }
        result
    }

    /// Puts a confidential hart that ran on a physical hart back into its
    /// VM. Hands the hart back if the VM does not live or does not miss it.
    pub fn return_confidential_hart(&mut self, id: ConfidentialVmId, hart: ConfidentialHart) -> (result: Result<
        (),
        ConfidentialHart,
    >)
        requires
            old(self).wf(),
        ensures
            final(self).wf(),
            final(self).tracker() == old(self).tracker(),
            final(self).vms().len() == old(self).vms().len(),
            forall|i: int|
                0 <= i < old(self).vms().len() ==> {
                    &&& (#[trigger] final(self).vms()[i]).spec_id() == old(self).vms()[i].spec_id()
                    &&& final(self).vms()[i].page_tables() == old(self).vms()[i].page_tables()
                    &&& final(self).vms()[i].harts().len() == old(self).vms()[i].harts().len()
                },
            result matches Err(returned) ==> returned == hart && forall|i: int|
                0 <= i < old(self).vms().len() ==> (#[trigger] final(self).vms()[i]).harts()
                    == old(self).vms()[i].harts(),
            !old(self).lives(id) ==> result is Err,
            old(self).lives(id) ==> exists|p: int|
                0 <= p < old(self).vms().len() && old(self).vms()[p].spec_id() == id && {
                    let vm = old(self).vms()[p];
                    &&& result is Ok <==> hart.state().id < vm.harts().len() && !hart.spec_is_dummy()
                        && vm.harts()[hart.state().id as int].spec_is_dummy()
                    &&& result is Ok ==> final(self).vms()[p].harts() == vm.harts().update(
                        hart.state().id as int,
                        hart,
                    )
                },
    {
        let position = match self.find(id) {
            Some(position) => position,
            None => {
                return Err(hart);
            },
        };
        let ghost before = self.confidential_vms@;
        let ghost layout = self.tracker.layout();
        assert(before[position as int].wf(layout));
        let result = self.confidential_vms[position].return_confidential_hart(hart);
        proof {
            let after = self.confidential_vms@;
            assert forall|i: int| 0 <= i < after.len() implies (#[trigger] after[i]).wf(layout) by {
                assert(old(self).vms()[i].wf(layout));
            }
            assert forall|i: int, frame: int| 0 <= i < after.len() implies self.vm_owns(i, frame)
                == old(self).vm_owns(i, frame) by {}
            assert forall|frame: int| self.owned(frame) == old(self).owned(frame) by {
                if self.owned(frame) {
                    let i = choose|i: int| 0 <= i < after.len() && #[trigger] self.vm_owns(i, frame);
                    assert(old(self).vm_owns(i, frame));
                }
                if old(self).owned(frame) {
                    let i = choose|i: int| 0 <= i < before.len() && #[trigger] old(self).vm_owns(i, frame);
                    assert(self.vm_owns(i, frame));
                }
            }
            assert forall|i: int, j: int| 0 <= i < after.len() && 0 <= j < after.len() && i != j implies (
            #[trigger] after[i]).spec_id() != (#[trigger] after[j]).spec_id() by {
                assert(before[i].spec_id() != before[j].spec_id());
            }
        }
        result
    }

    /// What mapping the shared page makes of the page tables of the VM with
    /// the identifier and of the pool; `None` where the pool cannot serve a
    /// table that is missing.
    pub open spec fn spec_mapped(&self, id: ConfidentialVmId, shared_page: SharedPage) -> Option<
        (crate::mmu::TableView, Set<int>),
    > {
        self.vms()[self.first_position(id)].page_tables().mapped(
            shared_page.spec_confidential_vm_virtual_address(),
            shared_page.spec_hypervisor_address(),
            self.tracker().free_set(),
        )
    }

    /// Whether an identifier is left for a further confidential VM.
    pub open spec fn has_free_id(&self) -> bool {
        exists|candidate: u64| 0 < candidate < VMID_LIMIT && !#[trigger] self.lives(ConfidentialVmId(candidate))
    }

    /// How the promotion of the VM of the calling hart ends: with the free
    /// frames that are left in the pool, or with the error of the first
    /// check or step that fails. The number of harts is checked first, then
    /// the paging mode, the address of the root table and whether an
    /// identifier is left; then the page tables are copied.
    pub open spec fn promotion_outcome(
        &self,
        caller: HartState,
        number_of_harts: usize,
        memory: NonConfidentialMemory,
    ) -> Result<Set<int>, Error> {
        if number_of_harts == 0 {
            Err(Error::InvalidHartId())
        } else if Self::spec_mode(caller.hgatp) != crate::mmu::paging_system::HGATP_MODE_SV57X4 {
            Err(Error::PageTableCorrupted())
        } else if !self.layout().in_non_confidential(Self::spec_root_address(caller.hgatp) as int, 1) {
            Err(Error::InvalidAddress())
        } else if !self.has_free_id() {
            Err(Error::OutOfMemory())
        } else {
            copy_outcome(
                memory,
                self.layout(),
                Self::spec_root_address(caller.hgatp) as int,
                PageTableLevel::Level5,
                self.tracker().free_set(),
            )
        }
    }

    /// Maps a shared page into the page tables of a confidential VM. On
    /// failure the page tables and the pool are what they were.
    pub fn map_shared_page(&mut self, id: ConfidentialVmId, shared_page: &SharedPage) -> (result: Result<(), Error>)
        requires
            old(self).wf(),
        ensures
            final(self).wf(),
            final(self).layout() == old(self).layout(),
            final(self).vms().len() == old(self).vms().len(),
            forall|i: int|
                0 <= i < old(self).vms().len() ==> {
                    &&& (#[trigger] final(self).vms()[i]).spec_id() == old(self).vms()[i].spec_id()
                    &&& final(self).vms()[i].harts() == old(self).vms()[i].harts()
                    &&& old(self).vms()[i].spec_id() != id ==> final(self).vms()[i].page_tables()
                        == old(self).vms()[i].page_tables()
                },
            !old(self).lives(id) ==> result == Err::<(), Error>(Error::InvalidConfidentialVmId()),
            result matches Err(error) ==> {
                &&& forall|i: int|
                    0 <= i < old(self).vms().len() ==> (#[trigger] final(self).vms()[i]).page_tables()
                        == old(self).vms()[i].page_tables()
                &&& forall|frame: int|
                    #![trigger final(self).tracker().is_free(frame)]
                    #![trigger old(self).tracker().is_free(frame)]
                    final(self).tracker().is_free(frame) == old(self).tracker().is_free(frame)
                &&& old(self).lives(id) ==> error == RootPageTable::spec_map_error(*shared_page, old(self).layout())
            },
            old(self).lives(id) && (!SharedPage::acceptable(
                shared_page.spec_hypervisor_address(),
                old(self).layout(),
            ) || !RootPageTable::in_range(shared_page.spec_confidential_vm_virtual_address())) ==> result is Err,
            result is Ok <==> old(self).lives(id) && SharedPage::acceptable(
                shared_page.spec_hypervisor_address(),
                old(self).layout(),
            ) && RootPageTable::in_range(shared_page.spec_confidential_vm_virtual_address()) && old(
                self,
            ).spec_mapped(id, *shared_page) is Some,
            result is Ok ==> Some(
                (
                    final(self).vms()[old(self).first_position(id)].page_tables(),
                    final(self).tracker().free_set(),
                ),
            ) == old(self).spec_mapped(id, *shared_page),
            result is Err ==> final(self).tracker().free_set() == old(self).tracker().free_set(),
            result matches Ok(_) ==> exists|p: int|
                0 <= p < old(self).vms().len() && old(self).vms()[p].spec_id() == id && {
                    let address = shared_page.spec_confidential_vm_virtual_address();
                    let tables = final(self).vms()[p].page_tables();
                    &&& tables.resolve(address) == EntryView::shared(shared_page.spec_hypervisor_address())
                    &&& forall|other: u64|
                        !(#[trigger] tables.resolve_together(address, other)) ==> tables.resolve(other)
                            == old(self).vms()[p].page_tables().resolve(other)
                },
    {
        let position = match self.find(id) {
            Some(position) => position,
            None => {
                return Err(Error::InvalidConfidentialVmId());
            },
        };
        let ghost before = self.confidential_vms@;
        let ghost pool = self.tracker;
        let ghost layout = self.tracker.layout();
        let ghost p = position as int;
        proof {
            assert(before[p].wf(layout));
            assert forall|frame: int| before[p].page_tables().owns(frame) implies !(#[trigger] pool.is_free(
                frame,
            )) by {
                assert(old(self).vm_owns(p, frame));
            }
        }
        let result = self.confidential_vms[position].map_shared_page(shared_page, &mut self.tracker);
        proof {
            let after = self.confidential_vms@;
            assert forall|i: int| 0 <= i < after.len() && i != p implies after[i] == before[i] by {}
            assert forall|i: int| 0 <= i < after.len() implies (#[trigger] after[i]).wf(layout) by {
                assert(old(self).vms()[i].wf(layout));
            }
            assert forall|i: int, j: int| 0 <= i < after.len() && 0 <= j < after.len() && i != j implies (
            #[trigger] after[i]).spec_id() != (#[trigger] after[j]).spec_id() by {
                assert(before[i].spec_id() != before[j].spec_id());
            }
            // what the VM owns now, it owned before or took from the pool
            assert forall|frame: int| #[trigger] self.vm_owns(p, frame) implies old(self).vm_owns(p, frame)
                || pool.is_free(frame) by {
                if result is Ok {
                    assert((after[p].page_tables().owns(frame) || self.tracker.is_free(frame)) == (
                    before[p].page_tables().owns(frame) || pool.is_free(frame)));
                }
            }
            assert forall|frame: int| #[trigger] self.tracker.is_free(frame) implies old(self).vm_owns(p, frame)
                || pool.is_free(frame) by {
                if result is Ok {
                    assert((after[p].page_tables().owns(frame) || self.tracker.is_free(frame)) == (
                    before[p].page_tables().owns(frame) || pool.is_free(frame)));
                }
            }
            assert forall|i: int, frame: int| 0 <= i < after.len() && #[trigger] self.vm_owns(i, frame) implies
                !self.tracker().is_free(frame) by {
                if i != p {
                    assert(old(self).vm_owns(i, frame));
                    assert(!(old(self).vm_owns(i, frame) && old(self).vm_owns(p, frame)));
                }
            }
            assert forall|i: int, j: int, frame: int|
                0 <= i < after.len() && 0 <= j < after.len() && i != j implies !(#[trigger] self.vm_owns(i, frame)
                && #[trigger] self.vm_owns(j, frame)) by {
                if self.vm_owns(i, frame) && self.vm_owns(j, frame) {
                    if i != p && j != p {
                        assert(!(old(self).vm_owns(i, frame) && old(self).vm_owns(j, frame)));
                    } else if i == p {
                        assert(old(self).vm_owns(j, frame));
                        assert(!(old(self).vm_owns(j, frame) && old(self).vm_owns(p, frame)));
                    } else {
                        assert(old(self).vm_owns(i, frame));
                        assert(!(old(self).vm_owns(i, frame) && old(self).vm_owns(p, frame)));
                    }
                }
            }
            assert forall|frame: int| self.layout().is_confidential_frame(frame) implies (
            #[trigger] self.tracker().is_free(frame) || self.owned(frame)) by {
                if !self.tracker().is_free(frame) {
                    if pool.is_free(frame) {
                        assert(result is Ok);
                        assert((after[p].page_tables().owns(frame) || self.tracker.is_free(frame)) == (
                        before[p].page_tables().owns(frame) || pool.is_free(frame)));
                        assert(self.vm_owns(p, frame));
                    } else {
                        assert(old(self).owned(frame));
                        let k = choose|k: int| 0 <= k < before.len() && #[trigger] old(self).vm_owns(k, frame);
                        if k != p {
                            assert(self.vm_owns(k, frame));
                        } else {
                            if result is Ok {
                                assert((after[p].page_tables().owns(frame) || self.tracker.is_free(frame)) == (
                                before[p].page_tables().owns(frame) || pool.is_free(frame)));
                            }
                            assert(self.vm_owns(p, frame));
                        }
                    }
                }
            }
        }
        result
    }

    /// What a guest of a confidential VM finds at a guest-physical address.
    pub fn translate(&self, id: ConfidentialVmId, address: ConfidentialVmVirtualAddress) -> (translation: Option<
        Translation,
    >)
        requires
            self.wf(),
        ensures
            translation is Some <==> self.lives(id),
            translation matches Some(t) ==> exists|p: int|
                0 <= p < self.vms().len() && self.vms()[p].spec_id() == id && t
                    == self.vms()[p].page_tables().translate(
                    address.0,
                ),
    {
        match self.find(id) {
            Some(position) => {
                let layout = self.tracker.current_layout();
                assert(self.vms()[position as int].wf(layout));
                Some(self.confidential_vms[position].root_page_table().translate(address, &layout))
            },
            None => None,
        }
    }

    /// What the page tables of a confidential VM keep in confidential
    /// memory, word by word with the physical addresses.
    pub fn memory_image(&self, id: ConfidentialVmId) -> (image: Option<Vec<(u64, u64)>>)
        requires
            self.wf(),
        ensures
            image is Some <==> self.lives(id),
            image matches Some(words) ==> exists|p: int|
                0 <= p < self.vms().len() && self.vms()[p].spec_id() == id && words@
                    == self.vms()[p].page_tables().image(),
    {
        match self.find(id) {
            Some(position) => {
                let layout = self.tracker.current_layout();
                assert(self.vms()[position as int].wf(layout));
                Some(self.confidential_vms[position].root_page_table().memory_image(&layout))
            },
            None => None,
        }
    }

    /// The confidential hart with the given identifier, as it rests in its
    /// VM: there is one exactly if the VM lives and has a hart with that
    /// identifier. A hart that runs is stood for by its dummy.
    pub fn confidential_hart(&self, id: ConfidentialVmId, hart_id: usize) -> (hart: Option<&ConfidentialHart>)
        ensures
            hart is Some <==> self.lives(id) && hart_id < self.vms()[self.first_position(id)].harts().len(),
            hart matches Some(h) ==> *h == self.vms()[self.first_position(id)].harts()[hart_id as int],
            hart matches Some(h) ==> exists|p: int|
                0 <= p < self.vms().len() && self.vms()[p].spec_id() == id && hart_id < self.vms()[p].harts().len()
                    && *h == self.vms()[p].harts()[hart_id as int],
            !self.lives(id) ==> hart is None,
    {
        match self.find(id) {
            Some(position) => self.confidential_vms[position].confidential_hart(hart_id),
            None => None,
        }
    }
}

/// Conservation of ownership: every frame of confidential memory is in the
/// pool or owned by a confidential VM, never both, and never owned by two
/// VMs or twice within the page tables of one.
pub proof fn lemma_ownership_is_conserved(control_data: ControlData, frame: int)
    requires
        control_data.wf(),
        control_data.layout().is_confidential_frame(frame),
    ensures
        control_data.tracker().is_free(frame) != control_data.owned(frame),
        forall|i: int, j: int|
            0 <= i < control_data.vms().len() && 0 <= j < control_data.vms().len() && control_data.vm_owns(i, frame)
                && control_data.vm_owns(j, frame) ==> i == j,
{
    if control_data.owned(frame) {
        let i = choose|i: int| 0 <= i < control_data.vms().len() && #[trigger] control_data.vm_owns(i, frame);
        assert(!control_data.tracker().is_free(frame));
    }
    assert forall|i: int, j: int|
        0 <= i < control_data.vms().len() && 0 <= j < control_data.vms().len() && control_data.vm_owns(i, frame)
            && control_data.vm_owns(j, frame) implies i == j by {
        if i != j {
            assert(!(control_data.vm_owns(i, frame) && control_data.vm_owns(j, frame)));
        }
    }
}

} // verus!
