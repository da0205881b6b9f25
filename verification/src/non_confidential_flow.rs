//! What the monitor does when the hypervisor calls it.
use crate::control_data::confidential_hart::ConfidentialHart;
use crate::control_data::confidential_vm::ConfidentialVmId;
use crate::control_data::storage::ControlData;
use crate::error::Error;
use crate::hart::{GpRegister, HartState};
use crate::memory::{NonConfidentialMemory, SharedPage};
use crate::transformations::{
    ExposeToConfidentialVm, GuestLoadPageFaultResult, GuestStorePageFaultResult, PendingRequest, SbiResult,
    ECALL_INSTRUCTION_LENGTH,
};
use vstd::prelude::*;

verus! {

/// The SBI error code for a call that failed.
pub const SBI_ERR_FAILED: u64 = 0xffff_ffff_ffff_ffff;

/// What is exposed to a confidential hart that waited on a request, given
/// the registers in which the hypervisor left its answer: the answer to an
/// SBI call is in `a0` and `a1`, the value of an emulated load in the
/// register that the load names. A hart that waited on nothing just goes
/// on. A hart that waits for a shared page cannot go on before the page is
/// mapped.
pub open spec fn spec_transformation(pending: Option<PendingRequest>, hypervisor: HartState) -> Result<
    ExposeToConfidentialVm,
    Error,
> {
    match pending {
        None => Ok(ExposeToConfidentialVm::Resume()),
        Some(PendingRequest::SbiRequest()) => Ok(
            ExposeToConfidentialVm::SbiResult(
                SbiResult {
                    a0: hypervisor.spec_gpr(GpRegister::a0),
                    a1: hypervisor.spec_gpr(GpRegister::a1),
                    pc_offset: ECALL_INSTRUCTION_LENGTH,
                },
            ),
        ),
        Some(PendingRequest::GuestLoadPageFault(request)) => Ok(
            ExposeToConfidentialVm::GuestLoadPageFaultResult(
                GuestLoadPageFaultResult {
                    result_gpr: request.result_gpr,
                    value: hypervisor.spec_gpr(request.result_gpr),
                    instruction_length: request.instruction_length,
                },
            ),
        ),
        Some(PendingRequest::GuestStorePageFault(request)) => Ok(
            ExposeToConfidentialVm::GuestStorePageFaultResult(
                GuestStorePageFaultResult { instruction_length: request.instruction_length },
            ),
        ),
        Some(PendingRequest::SharePage(_)) => Err(Error::PendingRequest()),
    }
}

/// Pairs the request that a confidential hart waits on with the answer of
/// the hypervisor.
pub fn transformation(pending: Option<PendingRequest>, hypervisor: &HartState) -> (result: Result<
    ExposeToConfidentialVm,
    Error,
>)
    ensures
        result == spec_transformation(pending, *hypervisor),
{
    match pending {
        None => Ok(ExposeToConfidentialVm::Resume()),
        Some(PendingRequest::SbiRequest()) => Ok(ExposeToConfidentialVm::SbiResult(SbiResult::ecall(hypervisor))),
        Some(PendingRequest::GuestLoadPageFault(request)) => {
            let value: u64 = hypervisor.gpr(request.result_gpr());
            Ok(ExposeToConfidentialVm::GuestLoadPageFaultResult(GuestLoadPageFaultResult::new(&request, value)))
        },
        Some(PendingRequest::GuestStorePageFault(request)) => Ok(
            ExposeToConfidentialVm::GuestStorePageFaultResult(GuestStorePageFaultResult::new(&request)),
        ),
        Some(PendingRequest::SharePage(_)) => Err(Error::PendingRequest()),
    }
}

/// Answers the request that a confidential hart waits on and lets the hart
/// go on: the pending request is consumed, and the answer is written into
/// the registers of the hart. A hart that cannot go on yet is left as it
/// was.
pub fn resume(hart: &mut ConfidentialHart, hypervisor: &HartState) -> (result: Result<(), Error>)
    ensures
        final(hart).spec_is_dummy() == old(hart).spec_is_dummy(),
        match spec_transformation(old(hart).pending(), *hypervisor) {
            Ok(answer) => {
                &&& result is Ok
                &&& final(hart).pending() is None
                &&& ConfidentialHart::applied(old(hart).state(), answer, final(hart).state())
            },
            Err(error) => {
                &&& result == Err::<(), Error>(error)
                &&& final(hart).pending() == old(hart).pending()
                &&& final(hart).state() == old(hart).state()
            },
        },
{
    let answer = transformation(hart.pending_request(), hypervisor)?;
    hart.take_request();
    hart.apply(answer);
    Ok(())
}

/// The answer that the calling hart of the hypervisor gets for a call to
/// the monitor: the value on success, the error code on failure.
pub fn answer_to_hypervisor(outcome: Result<u64, Error>) -> (answer: SbiResult)
    ensures
        answer == match outcome {
            Ok(value) => SbiResult { a0: 0, a1: value, pc_offset: ECALL_INSTRUCTION_LENGTH },
            Err(_) => SbiResult { a0: SBI_ERR_FAILED, a1: 0, pc_offset: ECALL_INSTRUCTION_LENGTH },
        },
{
    match outcome {
        Ok(value) => SbiResult::success(value),
        Err(_) => SbiResult::failure(SBI_ERR_FAILED),
    }
}

/// Promotes the VM of the calling hart to a confidential VM and answers the
/// call: the identifier of the confidential VM on success, an error code
/// otherwise. A VM that cannot be promoted stays what it was.
pub fn esm(control_data: &mut ControlData, caller: &HartState, number_of_harts: usize,
    memory: &NonConfidentialMemory) -> (result: (
    Result<ConfidentialVmId, Error>,
    SbiResult,
))
    requires
        old(control_data).wf(),
    ensures
        final(control_data).wf(),
        final(control_data).layout() == old(control_data).layout(),
        result.0 matches Ok(id) ==> {
            &&& final(control_data).vms().len() == old(control_data).vms().len() + 1
            &&& final(control_data).vms().drop_last() == old(control_data).vms()
            &&& final(control_data).vms().last().spec_id() == id
            &&& !old(control_data).lives(id)
            &&& final(control_data).vms().last().page_tables().mirrors(
                ControlData::spec_root_address(caller.hgatp) as int,
                *memory,
            )
            &&& final(control_data).vms().last().harts().len() == number_of_harts
            &&& final(control_data).vms().last().harts()[0].pending() == Some(PendingRequest::SbiRequest())
            &&& result.1 == (SbiResult { a0: 0, a1: id.0, pc_offset: ECALL_INSTRUCTION_LENGTH })
        },
        (match old(control_data).promotion_outcome(*caller, number_of_harts, *memory) {
            Ok(left) => result.0 is Ok && final(control_data).tracker().free_set() == left,
            Err(error) => result.0 == Err::<ConfidentialVmId, Error>(error),
        }),
        result.0 matches Ok(id) ==> 0 < id.0 < crate::control_data::confidential_vm::VMID_LIMIT && forall|smaller: u64|
            0 < smaller < id.0 ==> #[trigger] old(control_data).lives(ConfidentialVmId(smaller)),
        result.0 is Err ==> {
            &&& final(control_data).vms() == old(control_data).vms()
            &&& forall|frame: int|
                #![trigger final(control_data).tracker().is_free(frame)]
                #![trigger old(control_data).tracker().is_free(frame)]
                final(control_data).tracker().is_free(frame) == old(control_data).tracker().is_free(frame)
            &&& result.1 == (SbiResult { a0: SBI_ERR_FAILED, a1: 0, pc_offset: ECALL_INSTRUCTION_LENGTH })
        },
{
    let outcome = control_data.promote_to_confidential_vm(caller, number_of_harts, memory);
    let answer = match outcome {
        Ok(id) => answer_to_hypervisor(Ok(id.as_u64())),
        Err(error) => answer_to_hypervisor(Err(error)),
    };
    (outcome, answer)
}

/// How the completion of the sharing of a page ends, given the request that
/// the hart waits on: with what the mapping makes of the page tables of the
/// VM and of the pool, or with the error of the first check that fails. The
/// hart has to wait for a shared page, the page that the hypervisor offers
/// has to be a page of non-confidential memory, the VM has to live, its
/// page tables have to translate the address, and the pool has to serve the
/// tables that are missing.
pub open spec fn spec_page_in(
    control_data: ControlData,
    id: ConfidentialVmId,
    pending: Option<PendingRequest>,
    hypervisor_address: u64,
) -> Result<(crate::mmu::TableView, Set<int>), Error> {
    match pending {
        Some(PendingRequest::SharePage(request)) => {
            let address = request.confidential_vm_virtual_address.0;
            if !SharedPage::acceptable(hypervisor_address, control_data.layout()) {
                Err(Error::InvalidAddress())
            } else if !control_data.lives(id) {
                Err(Error::InvalidConfidentialVmId())
            } else if !crate::mmu::RootPageTable::in_range(address) {
                Err(Error::PageTableConfiguration())
            } else {
                match control_data.vms()[control_data.first_position(id)].page_tables().mapped(
                    address,
                    hypervisor_address,
                    control_data.tracker().free_set(),
                ) {
                    Some(outcome) => Ok(outcome),
                    None => Err(Error::OutOfMemory()),
                }
            }
        },
        _ => Err(Error::PendingRequest()),
    }
}

/// Completes the sharing of a page: maps the page that the hypervisor
/// offers at the guest-physical address that the confidential hart asked
/// for, and answers the call of the hart. `hart` is the hart that waits,
/// taken out of its VM. Unless all of it succeeds, the hart, the page
/// tables and the pool are left as they were.
pub fn page_in(
    control_data: &mut ControlData,
    id: ConfidentialVmId,
    hart: &mut ConfidentialHart,
    hypervisor_address: u64,
) -> (result: Result<(), Error>)
    requires
        old(control_data).wf(),
    ensures
        final(control_data).wf(),
        final(control_data).layout() == old(control_data).layout(),
        final(control_data).vms().len() == old(control_data).vms().len(),
        final(hart).spec_is_dummy() == old(hart).spec_is_dummy(),
        !(old(hart).pending() matches Some(PendingRequest::SharePage(_))) ==> result == Err::<(), Error>(
            Error::PendingRequest(),
        ),
        old(hart).pending() matches Some(PendingRequest::SharePage(request)) && !SharedPage::acceptable(
            hypervisor_address,
            old(control_data).layout(),
        ) ==> result == Err::<(), Error>(Error::InvalidAddress()),
        (match spec_page_in(*old(control_data), id, old(hart).pending(), hypervisor_address) {
            Ok((tables, left)) => {
                &&& result is Ok
                &&& final(control_data).vms()[old(control_data).first_position(id)].page_tables() == tables
                &&& final(control_data).tracker().free_set() == left
            },
            Err(error) => result == Err::<(), Error>(error),
        }),
        result is Err ==> final(control_data).tracker().free_set() == old(control_data).tracker().free_set(),
        result matches Err(_) ==> {
            &&& final(hart).pending() == old(hart).pending()
            &&& final(hart).state() == old(hart).state()
            &&& forall|i: int|
                0 <= i < old(control_data).vms().len() ==> (#[trigger] final(control_data).vms()[i]).page_tables()
                    == old(control_data).vms()[i].page_tables()
            &&& forall|frame: int|
                #![trigger final(control_data).tracker().is_free(frame)]
                #![trigger old(control_data).tracker().is_free(frame)]
                final(control_data).tracker().is_free(frame) == old(control_data).tracker().is_free(frame)
        },
        result matches Ok(_) ==> {
            &&& old(hart).pending() matches Some(PendingRequest::SharePage(request))
            &&& final(hart).pending() is None
            &&& ConfidentialHart::applied(
                old(hart).state(),
                ExposeToConfidentialVm::SbiResult(SbiResult { a0: 0, a1: 0, pc_offset: ECALL_INSTRUCTION_LENGTH }),
                final(hart).state(),
            )
            &&& exists|p: int|
                0 <= p < old(control_data).vms().len() && old(control_data).vms()[p].spec_id() == id
                    && final(control_data).vms()[p].page_tables().resolve(
                    request.confidential_vm_virtual_address.0,
                ) == crate::mmu::EntryView::shared(hypervisor_address)
        },
{
    let request = match hart.pending_request() {
        Some(PendingRequest::SharePage(request)) => request,
        _ => {
            return Err(Error::PendingRequest());
        },
    };
    let layout = control_data.memory_layout();
    let shared_page = SharedPage::new(hypervisor_address, request, &layout)?;
    control_data.map_shared_page(id, &shared_page)?;
    hart.take_request();
    hart.apply(ExposeToConfidentialVm::SbiResult(SbiResult::success(0)));
    Ok(())
}

} // verus!
