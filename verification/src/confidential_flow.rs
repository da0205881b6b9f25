//! What the monitor does when a confidential hart traps.
use crate::control_data::confidential_hart::ConfidentialHart;
use crate::control_data::instruction::{decoded_instruction, spec_low_word, spec_result_gpr};
use crate::error::Error;
use crate::hart::{GpRegister, HartState};
use crate::transformations::{
    ExposeToConfidentialVm, ExposeToHypervisor, PendingRequest, SbiResult, TrapReason, MCAUSE_INTERRUPT_BIT,
};
use crate::{ACE_EXT_ID, ACE_SHARE_PAGE_FID, SBI_BASE_EXT_ID, SBI_PROBE_EXTENSION_FID};
use vstd::prelude::*;

verus! {

/// How the monitor leaves the handler of a trap of a confidential hart.
#[derive(Debug, Clone, Copy, PartialEq, Eq, Structural)]
pub enum ConfidentialFlowExit {
    /// The monitor answered the trap; the confidential hart goes on.
    ResumeConfidentialHart,
    /// The hypervisor has to act; the hart waits for its answer.
    ExitToHypervisor(ExposeToHypervisor),
}

/// What the handler of a trap decides, given the state of the trapped hart,
/// the word at its program counter, and the register that a faulting load
/// or store names: the request that the hart waits on, if any, and how the
/// monitor leaves. An error if the trap cannot be handled.
pub open spec fn spec_decision(state: HartState, word: u64, register: Result<GpRegister, Error>) -> Result<
    (Option<PendingRequest>, ConfidentialFlowExit),
    Error,
> {
    match TrapReason::spec_from_hart_state(state) {
        TrapReason::Interrupt => Ok(
            (
                None,
                ConfidentialFlowExit::ExitToHypervisor(
                    ExposeToHypervisor::Interrupt((state.mcause - MCAUSE_INTERRUPT_BIT) as u64),
                ),
            ),
        ),
        TrapReason::VsEcall(extension, function) => if extension == SBI_BASE_EXT_ID && function
            == SBI_PROBE_EXTENSION_FID && state.spec_gpr(GpRegister::a0) == ACE_EXT_ID {
            Ok((None, ConfidentialFlowExit::ResumeConfidentialHart))
        } else if extension == ACE_EXT_ID && function == ACE_SHARE_PAGE_FID {
            match ConfidentialHart::spec_share_page_request(state) {
                Ok((request, call)) => Ok(
                    (
                        Some(PendingRequest::SharePage(request)),
                        ConfidentialFlowExit::ExitToHypervisor(ExposeToHypervisor::SbiRequest(call)),
                    ),
                ),
                Err(error) => Err(error),
            }
        } else {
            Ok(
                (
                    Some(PendingRequest::SbiRequest()),
                    ConfidentialFlowExit::ExitToHypervisor(
                        ExposeToHypervisor::SbiRequest(crate::transformations::SbiRequest::spec_from_hart_state(state)),
                    ),
                ),
            )
        },
        TrapReason::GuestLoadPageFault => match ConfidentialHart::spec_load_requests(state, word, register) {
            Ok((request, load)) => Ok(
                (
                    Some(PendingRequest::GuestLoadPageFault(request)),
                    ConfidentialFlowExit::ExitToHypervisor(ExposeToHypervisor::MmioLoadRequest(load)),
                ),
            ),
            Err(error) => Err(error),
        },
        TrapReason::GuestStorePageFault => match ConfidentialHart::spec_store_requests(state, word, register) {
            Ok((request, store)) => Ok(
                (
                    Some(PendingRequest::GuestStorePageFault(request)),
                    ConfidentialFlowExit::ExitToHypervisor(ExposeToHypervisor::MmioStoreRequest(store)),
                ),
            ),
            Err(error) => Err(error),
        },
        _ => Ok((None, ConfidentialFlowExit::ExitToHypervisor(ExposeToHypervisor::Trap(state.mcause)))),
    }
}

/// Handles the trap of a confidential hart. `word` is what memory holds at
/// the program counter of the hart, read through the translation of the
/// guest; it matters for page faults only.
///
/// A call that the monitor answers itself is answered in the registers of
/// the hart, and the hart goes on. Everything else leaves to the
/// hypervisor, and what the hart waits on is recorded as its pending
/// request. If the trap cannot be handled, or the hart waits on a request
/// already, the hart is left as it was.
pub fn handle_trap(hart: &mut ConfidentialHart, word: u64) -> (result: Result<ConfidentialFlowExit, Error>)
    ensures
        final(hart).spec_is_dummy() == old(hart).spec_is_dummy(),
        ({
            let register = spec_result_gpr(
                ConfidentialHart::spec_trimmed(word),
                decoded_instruction(spec_low_word(ConfidentialHart::spec_trimmed(word))),
            );
            match spec_decision(old(hart).state(), word, register) {
                Ok((pending, exit)) => if pending is Some && old(hart).pending() is Some {
                    &&& result == Err::<ConfidentialFlowExit, Error>(Error::PendingRequest())
                    &&& final(hart).state() == old(hart).state()
                    &&& final(hart).pending() == old(hart).pending()
                } else {
                    &&& result == Ok::<ConfidentialFlowExit, Error>(exit)
                    &&& final(hart).pending() == if pending is Some {
                        pending
                    } else {
                        old(hart).pending()
                    }
                    &&& if exit == ConfidentialFlowExit::ResumeConfidentialHart {
                        ConfidentialHart::applied(
                            old(hart).state(),
                            ExposeToConfidentialVm::SbiResult(
                                SbiResult { a0: 0, a1: 1,
                                    pc_offset: crate::transformations::ECALL_INSTRUCTION_LENGTH },
                            ),
                            final(hart).state(),
                        )
                    } else {
                        final(hart).state() == old(hart).state()
                    }
                },
                Err(error) => {
                    &&& result == Err::<ConfidentialFlowExit, Error>(error)
                    &&& final(hart).state() == old(hart).state()
                    &&& final(hart).pending() == old(hart).pending()
                },
            }
        }),
{
    match hart.trap_reason() {
        TrapReason::Interrupt => {
            let code: u64 = hart.hart_state().mcause - MCAUSE_INTERRUPT_BIT;
            Ok(ConfidentialFlowExit::ExitToHypervisor(ExposeToHypervisor::Interrupt(code)))
        },
        TrapReason::VsEcall(extension, function) => {
            if extension == SBI_BASE_EXT_ID && function == SBI_PROBE_EXTENSION_FID && hart.hart_state().gpr(
                GpRegister::a0,
            ) == ACE_EXT_ID {
                hart.apply(ExposeToConfidentialVm::SbiResult(SbiResult::success(1)));
                Ok(ConfidentialFlowExit::ResumeConfidentialHart)
            } else if extension == ACE_EXT_ID && function == ACE_SHARE_PAGE_FID {
                let (request, call) = hart.share_page_request()?;
                hart.set_pending_request(PendingRequest::SharePage(request))?;
                Ok(ConfidentialFlowExit::ExitToHypervisor(ExposeToHypervisor::SbiRequest(call)))
            } else {
                let call = hart.hypercall_request();
                hart.set_pending_request(PendingRequest::SbiRequest())?;
                Ok(ConfidentialFlowExit::ExitToHypervisor(ExposeToHypervisor::SbiRequest(call)))
            }
        },
        TrapReason::GuestLoadPageFault => {
            let (request, load) = hart.guest_load_page_fault_request(word)?;
            hart.set_pending_request(PendingRequest::GuestLoadPageFault(request))?;
            Ok(ConfidentialFlowExit::ExitToHypervisor(ExposeToHypervisor::MmioLoadRequest(load)))
        },
        TrapReason::GuestStorePageFault => {
            let (request, store) = hart.guest_store_page_fault_request(word)?;
            hart.set_pending_request(PendingRequest::GuestStorePageFault(request))?;
            Ok(ConfidentialFlowExit::ExitToHypervisor(ExposeToHypervisor::MmioStoreRequest(store)))
        },
        _ => {
            let cause: u64 = hart.hart_state().mcause;
            Ok(ConfidentialFlowExit::ExitToHypervisor(ExposeToHypervisor::Trap(cause)))
        },
    }
}

} // verus!
