use crate::control_data::confidential_hart::ConfidentialHart;
use crate::error::Error;
use crate::memory::{MemoryLayout, MemoryTracker, SharedPage};
use crate::mmu::page_table_view::{EntryView, TableView};
use crate::mmu::{PageTableLevel, RootPageTable};
use vstd::prelude::*;

verus! {

/// Number of identifiers that the VMID field of `hgatp` can hold.
pub const VMID_LIMIT: u64 = 0x4000;

/// Identifier of a confidential VM: what the VMID field of `hgatp` holds
/// while one of its harts runs.
#[derive(Debug, Clone, Copy, PartialEq, Eq, Structural)]
pub struct ConfidentialVmId(pub u64);

impl ConfidentialVmId {
    pub fn new(value: u64) -> (id: Self)
        ensures
            id.0 == value,
    {
        Self(value)
    }

    pub fn as_u64(&self) -> (value: u64)
        ensures
            value == self.0,
    {
        self.0
    }
}

/// A confidential VM: its page tables and its harts. A hart that runs on a
/// physical hart is taken out of the VM, and a dummy stands in its place.
pub struct ConfidentialVm {
    id: ConfidentialVmId,
    root_page_table: RootPageTable,
    confidential_harts: Vec<ConfidentialHart>,
}

impl ConfidentialVm {
    pub closed spec fn spec_id(&self) -> ConfidentialVmId {
        self.id
    }

    /// The page tables of the VM, from the root down.
    pub closed spec fn page_tables(&self) -> TableView {
        self.root_page_table@
    }

    /// The harts of the VM, in the order of their identifiers.
    pub closed spec fn harts(&self) -> Seq<ConfidentialHart> {
        self.confidential_harts@
    }

    /// The page tables are those of a confidential VM in the given memory.
    pub closed spec fn wf(&self, layout: MemoryLayout) -> bool {
        self.root_page_table.wf(layout)
    }

    /// What a well-formed VM is made of.
    pub proof fn lemma_wf(&self, layout: MemoryLayout)
        requires
            self.wf(layout),
        ensures
            self.page_tables().wf(layout),
            self.page_tables().level == PageTableLevel::Level5,
    {
        self.root_page_table.lemma_wf(layout);
    }

    /// The value of `hgatp` that makes a hart of the VM with the given
    /// identifier use the page tables whose root is at the address: the
    /// mode, the identifier, and the physical page number of the root.
    pub open spec fn spec_hgatp(mode: u64, id: u64, root_address: u64) -> u64 {
        (mode << 60) | ((id & 0x3fff) << 44) | ((root_address >> 12) & 0xfff_ffff_ffff)
    }

    /// Makes a VM of page tables and harts, and points every hart at the
    /// page tables.
    pub fn new(id: ConfidentialVmId, root_page_table: RootPageTable, confidential_harts: Vec<ConfidentialHart>,
        layout: &MemoryLayout) -> (vm: Self)
        requires
            root_page_table.wf(*layout),
        ensures
            vm.wf(*layout),
            vm.spec_id() == id,
            vm.page_tables() == root_page_table@,
            vm.harts().len() == confidential_harts@.len(),
            forall|i: int|
                0 <= i < vm.harts().len() ==> {
                    &&& (#[trigger] vm.harts()[i]).state().hgatp == Self::spec_hgatp(
                        crate::mmu::paging_system::HGATP_MODE_SV57X4,
                        id.0,
                        (root_page_table@.start_frame * crate::memory::layout::FRAME_SIZE) as u64,
                    )
                    &&& vm.harts()[i].state().same_csrs_except(confidential_harts@[i].state(), false, true, false)
                    &&& vm.harts()[i].state().gprs == confidential_harts@[i].state().gprs
                    &&& vm.harts()[i].state().fprs == confidential_harts@[i].state().fprs
                    &&& vm.harts()[i].state().id == confidential_harts@[i].state().id
                    &&& vm.harts()[i].pending() == confidential_harts@[i].pending()
                    &&& vm.harts()[i].spec_is_dummy() == confidential_harts@[i].spec_is_dummy()
                },
    {
        let mode: u64 = root_page_table.paging_system().hgatp_mode();
        let root_address: u64 = root_page_table.address().as_u64();
        let hgatp: u64 = (mode << 60) | ((id.0 & 0x3fff) << 44) | ((root_address >> 12) & 0xfff_ffff_ffff);
        let ghost given = confidential_harts@;
        let mut confidential_harts = confidential_harts;
        let mut index: usize = 0;
        while index < confidential_harts.len()
            invariant
                index <= confidential_harts@.len(),
                confidential_harts@.len() == given.len(),
                forall|i: int| index <= i < given.len() ==> confidential_harts@[i] == given[i],
                forall|i: int|
                    0 <= i < index ==> {
                        &&& (#[trigger] confidential_harts@[i]).state().hgatp == hgatp
                        &&& confidential_harts@[i].state().same_csrs_except(given[i].state(), false, true, false)
                        &&& confidential_harts@[i].state().gprs == given[i].state().gprs
                        &&& confidential_harts@[i].state().fprs == given[i].state().fprs
                        &&& confidential_harts@[i].state().id == given[i].state().id
                        &&& confidential_harts@[i].pending() == given[i].pending()
                        &&& confidential_harts@[i].spec_is_dummy() == given[i].spec_is_dummy()
                    },
            decreases confidential_harts@.len() - index,
        {
            confidential_harts[index].set_hgatp(hgatp);
            index += 1;
        }
        Self { id, root_page_table, confidential_harts }
    }

    pub fn id(&self) -> (id: ConfidentialVmId)
        ensures
            id == self.spec_id(),
    {
        self.id
    }

    pub fn number_of_harts(&self) -> (harts: usize)
        ensures
            harts == self.harts().len(),
    {
        self.confidential_harts.len()
    }

    pub fn root_page_table(&self) -> (root: &RootPageTable)
        ensures
            root@ == self.page_tables(),
            forall|layout: MemoryLayout| self.wf(layout) ==> root.wf(layout),
    {
        &self.root_page_table
    }

    /// The confidential hart with the given identifier, as it rests in the
    /// VM.
    pub fn confidential_hart(&self, hart_id: usize) -> (hart: Option<&ConfidentialHart>)
        ensures
            hart matches Some(h) ==> hart_id < self.harts().len() && *h == self.harts()[hart_id as int],
            hart is Some <==> hart_id < self.harts().len(),
    {
        if hart_id < self.confidential_harts.len() {
            Some(&self.confidential_harts[hart_id])
        } else {
            None
        }
    }

    /// Takes the confidential hart with the given identifier out of the VM,
    /// to run it on a physical hart. A dummy takes its place. Fails if the
    /// VM has no such hart or if the hart is out already.
    pub fn steal_confidential_hart(&mut self, hart_id: usize) -> (result: Result<ConfidentialHart, Error>)
        ensures
            final(self).spec_id() == old(self).spec_id(),
            final(self).page_tables() == old(self).page_tables(),
            forall|layout: MemoryLayout| old(self).wf(layout) ==> final(self).wf(layout),
            final(self).harts().len() == old(self).harts().len(),
            result matches Ok(hart) ==> {
                &&& hart_id < old(self).harts().len()
                &&& hart == old(self).harts()[hart_id as int]
                &&& !hart.spec_is_dummy()
                &&& final(self).harts()[hart_id as int].spec_is_dummy()
                &&& final(self).harts()[hart_id as int].pending() is None
                &&& forall|i: int|
                    0 <= i < old(self).harts().len() && i != hart_id ==> final(self).harts()[i]
                        == old(self).harts()[i]
            },
            result matches Err(error) ==> error == Error::InvalidHartId() && final(self).harts() == old(self).harts(),
            result is Err <==> hart_id >= old(self).harts().len()
                || old(self).harts()[hart_id as int].spec_is_dummy(),
    {
        if hart_id >= self.confidential_harts.len() {
            return Err(Error::InvalidHartId());
        }
        if self.confidential_harts[hart_id].is_dummy() {
            return Err(Error::InvalidHartId());
        }
        let mut hart = ConfidentialHart::dummy(hart_id);
        core::mem::swap(&mut self.confidential_harts[hart_id], &mut hart);
        Ok(hart)
    }

    /// Puts a confidential hart that ran on a physical hart back into the
    /// VM, in place of the dummy that stood for it. Fails, and hands the
    /// hart back, if the VM does not miss this hart.
    pub fn return_confidential_hart(&mut self, hart: ConfidentialHart) -> (result: Result<(), ConfidentialHart>)
        ensures
            final(self).spec_id() == old(self).spec_id(),
            final(self).page_tables() == old(self).page_tables(),
            forall|layout: MemoryLayout| old(self).wf(layout) ==> final(self).wf(layout),
            final(self).harts().len() == old(self).harts().len(),
            result matches Ok(_) ==> final(self).harts() == old(self).harts().update(hart.state().id as int, hart),
            result matches Err(returned) ==> returned == hart && final(self).harts() == old(self).harts(),
            result is Ok <==> hart.state().id < old(self).harts().len() && !hart.spec_is_dummy()
                && old(self).harts()[hart.state().id as int].spec_is_dummy(),
    {
        let hart_id: usize = hart.confidential_hart_id();
        if hart_id >= self.confidential_harts.len() || hart.is_dummy() {
            return Err(hart);
        }
        if !self.confidential_harts[hart_id].is_dummy() {
            return Err(hart);
        }
        let mut hart = hart;
        core::mem::swap(&mut self.confidential_harts[hart_id], &mut hart);
        Ok(())
    }

    /// Maps a shared page into the page tables of the VM.
    pub fn map_shared_page(&mut self, shared_page: &SharedPage, tracker: &mut MemoryTracker) -> (result: Result<
        (),
        Error,
    >)
        requires
            old(tracker).wf(),
            old(self).wf(old(tracker).layout()),
            forall|frame: int| old(self).page_tables().owns(frame) ==> !(#[trigger] old(tracker).is_free(frame)),
        ensures
            final(tracker).wf(),
            final(tracker).layout() == old(tracker).layout(),
            final(self).wf(old(tracker).layout()),
            final(self).spec_id() == old(self).spec_id(),
            final(self).harts() == old(self).harts(),
            final(self).page_tables().start_frame == old(self).page_tables().start_frame,
            forall|frame: int|
                final(self).page_tables().owns(frame) ==> !(#[trigger] final(tracker).is_free(frame)),
            result matches Ok(_) ==> {
                let address = shared_page.spec_confidential_vm_virtual_address();
                &&& final(self).page_tables().resolve(address) == EntryView::shared(
                    shared_page.spec_hypervisor_address(),
                )
                &&& forall|other: u64|
                    !(#[trigger] final(self).page_tables().resolve_together(address, other))
                        ==> final(self).page_tables().resolve(other) == old(self).page_tables().resolve(other)
                &&& forall|frame: int|
                    #![trigger final(self).page_tables().owns(frame)]
                    #![trigger final(tracker).is_free(frame)]
                    (final(self).page_tables().owns(frame) || final(tracker).is_free(frame))
                        == (old(self).page_tables().owns(frame) || old(tracker).is_free(frame))
            },
            result matches Err(error) ==> {
                &&& final(self).page_tables() == old(self).page_tables()
                &&& forall|frame: int|
                    #![trigger final(tracker).is_free(frame)]
                    #![trigger old(tracker).is_free(frame)]
                    final(tracker).is_free(frame) == old(tracker).is_free(frame)
                &&& error == RootPageTable::spec_map_error(*shared_page, old(tracker).layout())
            },
            !SharedPage::acceptable(shared_page.spec_hypervisor_address(), old(tracker).layout())
                || !RootPageTable::in_range(shared_page.spec_confidential_vm_virtual_address()) ==> result is Err,
            result is Ok <==> SharedPage::acceptable(shared_page.spec_hypervisor_address(), old(tracker).layout())
                && RootPageTable::in_range(shared_page.spec_confidential_vm_virtual_address()) && old(
                self,
            ).page_tables().mapped(
                shared_page.spec_confidential_vm_virtual_address(),
                shared_page.spec_hypervisor_address(),
                old(tracker).free_set(),
            ) is Some,
            result is Ok ==> Some((final(self).page_tables(), final(tracker).free_set())) == old(
                self,
            ).page_tables().mapped(
                shared_page.spec_confidential_vm_virtual_address(),
                shared_page.spec_hypervisor_address(),
                old(tracker).free_set(),
            ),
            result is Err ==> final(tracker).free_set() == old(tracker).free_set(),
            result is Err && SharedPage::acceptable(shared_page.spec_hypervisor_address(), old(tracker).layout())
                && RootPageTable::in_range(shared_page.spec_confidential_vm_virtual_address()) ==> {
                &&& old(self).page_tables().resolve(shared_page.spec_confidential_vm_virtual_address()) is NotValid
                &&& old(self).page_tables().resolve_level(shared_page.spec_confidential_vm_virtual_address())
                    != PageTableLevel::Level1
            },
    {
        self.root_page_table.map_shared_page(shared_page, tracker)
    }

    /// Ends the VM: its page tables and pages go back into the pool.
    pub fn release(self, tracker: &mut MemoryTracker)
        requires
            old(tracker).wf(),
            self.wf(old(tracker).layout()),
        ensures
            final(tracker).wf(),
            final(tracker).layout() == old(tracker).layout(),
            forall|frame: int|
                #![trigger final(tracker).is_free(frame)]
                #![trigger old(tracker).is_free(frame)]
                final(tracker).is_free(frame) == (old(tracker).is_free(frame) || self.page_tables().owns(frame)),
    {
        self.root_page_table.release(tracker)
    }
}

} // verus!
