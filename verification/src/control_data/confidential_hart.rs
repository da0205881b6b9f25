use crate::control_data::confidential_vm::ConfidentialVmId;
use crate::control_data::instruction::{
    decoded_instruction, read_result_gpr, spec_instruction_length, spec_instruction_mask, spec_low_half,
    spec_low_word, spec_result_gpr, trim_instruction,
};
use crate::error::Error;
use crate::hart::{FpRegisters, GpRegister, GpRegisters, HartState};
use crate::transformations::{
    ExposeToConfidentialVm, GuestLoadPageFaultRequest, GuestLoadPageFaultResult, GuestStorePageFaultRequest,
    GuestStorePageFaultResult, MmioLoadRequest, MmioStoreRequest, PendingRequest, SbiRequest, SbiResult,
    SharePageRequest, TrapReason,
};
use vstd::prelude::*;

verus! {

/// Interrupts that a confidential hart handles itself: the software, timer
/// and external interrupts of VS-level.
pub const DELEGATED_INTERRUPTS: u64 = 0b0100_0100_0100;

/// Exceptions that a confidential hart handles itself.
pub const DELEGATED_EXCEPTIONS: u64 = 0b1011_0011_1111_1111;

/// The program counter after an instruction of the given length, counted as
/// the hart counts: modulo 2^64.
pub open spec fn spec_advance(pc: u64, length: u64) -> u64 {
    ((pc + length) % 0x1_0000_0000_0000_0000) as u64
}

/// The exception code or interrupt number that `mcause` holds.
pub open spec fn spec_cause_code(mcause: u64) -> u64 {
    mcause & 0x7fff_ffff_ffff_ffff
}

/// The state of one hart of a confidential VM while the hart does not run.
/// The state is written by the constructors and by `apply`, and by nothing
/// else.
pub struct ConfidentialHart {
    confidential_hart_state: HartState,
    pending_request: Option<PendingRequest>,
    // a dummy hart is not bound to any confidential VM
    dummy: bool,
}

impl ConfidentialHart {
    /// Registers and control and status registers of the hart.
    pub closed spec fn state(&self) -> HartState {
        self.confidential_hart_state
    }

    /// The request that the hypervisor has yet to answer, if there is one.
    pub closed spec fn pending(&self) -> Option<PendingRequest> {
        self.pending_request
    }

    /// Whether the hart is bound to no confidential VM.
    pub closed spec fn spec_is_dummy(&self) -> bool {
        self.dummy
    }

    /// Whether `state` is what a hart starts from when it is made of the
    /// snapshot `from`: the delegation registers are forced to the monitor's
    /// policy, and every other control and status register is that of the
    /// snapshot.
    pub open spec fn reset_from(state: HartState, id: usize, from: HartState) -> bool {
        &&& state.id == id
        &&& state.same_csrs_except(from, false, false, true)
        &&& state.mideleg == DELEGATED_INTERRUPTS
        &&& state.hideleg == DELEGATED_INTERRUPTS
        &&& state.medeleg == DELEGATED_EXCEPTIONS
        &&& state.hedeleg == DELEGATED_EXCEPTIONS
    }

    /// Whether `after` is the state that applying the transformation to
    /// `before` leaves.
    pub open spec fn applied(before: HartState, transformation: ExposeToConfidentialVm, after: HartState) -> bool {
        &&& after.id == before.id
        &&& after.fprs == before.fprs
        &&& after.same_csrs_except(before, true, false, false)
        &&& match transformation {
            ExposeToConfidentialVm::SbiResult(result) => {
                &&& after.gprs.0@ == before.gprs.0@.update(GpRegister::a0.number(), result.a0).update(
                    GpRegister::a1.number(),
                    result.a1,
                )
                &&& after.mepc == spec_advance(before.mepc, result.pc_offset)
            },
            ExposeToConfidentialVm::GuestLoadPageFaultResult(result) => {
                &&& after.gprs.0@ == before.gprs.0@.update(result.result_gpr.number(), result.value)
                &&& after.mepc == spec_advance(before.mepc, result.instruction_length as u64)
            },
            ExposeToConfidentialVm::GuestStorePageFaultResult(result) => {
                &&& after.gprs.0@ == before.gprs.0@
                &&& after.mepc == spec_advance(before.mepc, result.instruction_length as u64)
            },
            ExposeToConfidentialVm::Resume() => {
                &&& after.gprs.0@ == before.gprs.0@
                &&& after.mepc == before.mepc
            },
        }
    }

    /// A hart that is bound to no confidential VM.
    pub fn dummy(id: usize) -> (hart: Self)
        ensures
            hart.spec_is_dummy(),
            hart.pending() is None,
            hart.state().id == id,
            hart.state().registers_cleared(),
            hart.state().csrs_cleared(),
    {
        let confidential_hart_state = HartState::empty(id);
        Self { confidential_hart_state, pending_request: None, dummy: true }
    }

    /// A confidential hart that starts from the control and status registers
    /// of a hart of the hypervisor's VM, with cleared register files.
    pub fn from_vm_hart_reset(id: usize, from: &HartState) -> (hart: Self)
        ensures
            !hart.spec_is_dummy(),
            hart.pending() is None,
            Self::reset_from(hart.state(), id, *from),
            hart.state().registers_cleared(),
    {
        let mut confidential_hart_state = HartState::from_existing(id, from);

        // VS-level interrupts go directly to the confidential VM; all others
        // trap in the monitor.
        confidential_hart_state.mideleg = DELEGATED_INTERRUPTS;
        confidential_hart_state.hideleg = confidential_hart_state.mideleg;

        // exceptions that the confidential VM handles itself
        confidential_hart_state.medeleg = DELEGATED_EXCEPTIONS;
        confidential_hart_state.hedeleg = confidential_hart_state.medeleg;

        Self { confidential_hart_state, pending_request: None, dummy: false }
    }

    /// The confidential hart that continues the hart which asked for the
    /// promotion of its VM: it keeps the register files, and it waits for the
    /// answer to that call.
    pub fn from_vm_hart(id: usize, from: &HartState) -> (hart: Self)
        ensures
            !hart.spec_is_dummy(),
            hart.pending() == Some(PendingRequest::SbiRequest()),
            Self::reset_from(hart.state(), id, *from),
            hart.state().gprs.0@ == from.gprs.0@,
            hart.state().fprs.0@ == from.fprs.0@,
    {
        let mut confidential_hart = Self::from_vm_hart_reset(id, from);
        confidential_hart.confidential_hart_state.gprs = GpRegisters(from.gprs.0);
        confidential_hart.confidential_hart_state.fprs = FpRegisters(from.fprs.0);

        // The hart was made by an SBI call. The monitor passes the call on to
        // the hypervisor, and the hypervisor's answer resumes the hart.
        confidential_hart.pending_request = Some(PendingRequest::SbiRequest());
        confidential_hart
    }

    /// The VMID field of `hgatp`: bits 57 to 44.
    pub open spec fn spec_confidential_vm_id(hgatp: u64) -> u64 {
        (hgatp >> 44) & 0x3fff
    }

    /// Identifier of the confidential VM that the hart belongs to.
    pub fn confidential_vm_id(&self) -> (id: ConfidentialVmId)
        ensures
            id.0 == Self::spec_confidential_vm_id(self.state().hgatp),
    {
        ConfidentialVmId::new((self.confidential_hart_state.hgatp >> 44) & 0x3fff)
    }

    pub fn confidential_hart_id(&self) -> (id: usize)
        ensures
            id == self.state().id,
    {
        self.confidential_hart_state.id
    }

    /// The registers of the hart, as they are restored when it resumes.
    pub fn hart_state(&self) -> (state: &HartState)
        ensures
            *state == self.state(),
    {
        &self.confidential_hart_state
    }

    /// Whether `after` is what the hart holds once the registers that the
    /// trap vector saved are taken over: everything that was saved, but for
    /// the identifier of the hart, `hgatp` and the delegation registers,
    /// which the guest does not decide on.
    pub open spec fn trapped(before: HartState, saved: HartState, after: HartState) -> bool {
        &&& after.id == before.id
        &&& after.gprs == saved.gprs
        &&& after.fprs == saved.fprs
        &&& after.same_csrs_except(saved, false, true, true)
        &&& after.hgatp == before.hgatp
        &&& after.mideleg == before.mideleg
        &&& after.hideleg == before.hideleg
        &&& after.medeleg == before.medeleg
        &&& after.hedeleg == before.hedeleg
    }

    /// Takes over the registers of the hart as the trap vector saved them
    /// when the hart trapped.
    pub fn store_trapped_state(&mut self, saved: &HartState)
        ensures
            Self::trapped(old(self).state(), *saved, final(self).state()),
            final(self).pending() == old(self).pending(),
            final(self).spec_is_dummy() == old(self).spec_is_dummy(),
    {
        let mut state = *saved;
        state.id = self.confidential_hart_state.id;
        state.hgatp = self.confidential_hart_state.hgatp;
        state.mideleg = self.confidential_hart_state.mideleg;
        state.hideleg = self.confidential_hart_state.hideleg;
        state.medeleg = self.confidential_hart_state.medeleg;
        state.hedeleg = self.confidential_hart_state.hedeleg;
        self.confidential_hart_state = state;
    }

    /// Takes the pending request out of the hart.
    pub fn take_request(&mut self) -> (request: Option<PendingRequest>)
        ensures
            request == old(self).pending(),
            final(self).pending() is None,
            final(self).state() == old(self).state(),
            final(self).spec_is_dummy() == old(self).spec_is_dummy(),
    {
        self.pending_request.take()
    }

    pub fn is_dummy(&self) -> (dummy: bool)
        ensures
            dummy == self.spec_is_dummy(),
    {
        self.dummy
    }

    /// The pending request, left in place.
    pub fn pending_request(&self) -> (request: Option<PendingRequest>)
        ensures
            request == self.pending(),
    {
        self.pending_request
    }

    /// Records the request that the hypervisor has to answer before the hart
    /// resumes. A hart has at most one such request: a second one is
    /// refused, and the first stays.
    pub fn set_pending_request(&mut self, request: PendingRequest) -> (result: Result<(), Error>)
        ensures
            old(self).pending() is None ==> result is Ok && final(self).pending() == Some(request),
            old(self).pending() is Some ==> result == Err::<(), Error>(Error::PendingRequest())
                && final(self).pending() == old(self).pending(),
            final(self).state() == old(self).state(),
            final(self).spec_is_dummy() == old(self).spec_is_dummy(),
    {
        if self.pending_request.is_some() {
            return Err(Error::PendingRequest());
        }
        self.pending_request = Some(request);
        Ok(())
    }

    /// Points the hart at the root page table of its confidential VM.
    pub fn set_hgatp(&mut self, hgatp: u64)
        ensures
            final(self).state().hgatp == hgatp,
            final(self).state().same_csrs_except(old(self).state(), false, true, false),
            final(self).state().gprs == old(self).state().gprs,
            final(self).state().fprs == old(self).state().fprs,
            final(self).state().id == old(self).state().id,
            final(self).pending() == old(self).pending(),
            final(self).spec_is_dummy() == old(self).spec_is_dummy(),
    {
        self.confidential_hart_state.hgatp = hgatp;
    }

    /// Writes a result into the registers of the hart and moves its program
    /// counter past the instruction that trapped.
    pub fn apply(&mut self, transformation: ExposeToConfidentialVm)
        ensures
            Self::applied(old(self).state(), transformation, final(self).state()),
            final(self).pending() == old(self).pending(),
            final(self).spec_is_dummy() == old(self).spec_is_dummy(),
    {
        match transformation {
            ExposeToConfidentialVm::SbiResult(v) => self.apply_sbi_result(v),
            ExposeToConfidentialVm::GuestLoadPageFaultResult(v) => self.apply_guest_load_page_fault_result(v),
            ExposeToConfidentialVm::GuestStorePageFaultResult(v) => self.apply_guest_store_page_fault_result(v),
            ExposeToConfidentialVm::Resume() => {},
        }
    }

    pub fn apply_sbi_result(&mut self, result: SbiResult)
        ensures
            Self::applied(old(self).state(), ExposeToConfidentialVm::SbiResult(result), final(self).state()),
            final(self).pending() == old(self).pending(),
            final(self).spec_is_dummy() == old(self).spec_is_dummy(),
    {
        self.confidential_hart_state.set_gpr(GpRegister::a0, result.a0());
        self.confidential_hart_state.set_gpr(GpRegister::a1, result.a1());
        self.confidential_hart_state.mepc = self.confidential_hart_state.mepc.wrapping_add(result.pc_offset());
    }

    pub fn apply_guest_load_page_fault_result(&mut self, result: GuestLoadPageFaultResult)
        ensures
            Self::applied(
                old(self).state(),
                ExposeToConfidentialVm::GuestLoadPageFaultResult(result),
                final(self).state(),
            ),
            final(self).pending() == old(self).pending(),
            final(self).spec_is_dummy() == old(self).spec_is_dummy(),
    {
        self.confidential_hart_state.set_gpr(result.result_gpr(), result.value());
        self.confidential_hart_state.mepc = self.confidential_hart_state.mepc.wrapping_add(
            result.instruction_length() as u64,
        );
    }

    pub fn apply_guest_store_page_fault_result(&mut self, result: GuestStorePageFaultResult)
        ensures
            Self::applied(
                old(self).state(),
                ExposeToConfidentialVm::GuestStorePageFaultResult(result),
                final(self).state(),
            ),
            final(self).pending() == old(self).pending(),
            final(self).spec_is_dummy() == old(self).spec_is_dummy(),
    {
        self.confidential_hart_state.mepc = self.confidential_hart_state.mepc.wrapping_add(
            result.instruction_length() as u64,
        );
    }

    /// Why the hart trapped into the monitor.
    pub fn trap_reason(&self) -> (reason: TrapReason)
        ensures
            reason == TrapReason::spec_from_hart_state(self.state()),
    {
        TrapReason::from_hart_state(&self.confidential_hart_state)
    }

    /// The SBI call that the hart made.
    pub fn hypercall_request(&self) -> (request: SbiRequest)
        ensures
            request == SbiRequest::spec_from_hart_state(self.state()),
    {
        SbiRequest::from_hart_state(&self.confidential_hart_state)
    }

    /// What a load that faulted on a guest page becomes, given the register
    /// that the instruction loads into: the request that the monitor keeps,
    /// and the load that the hypervisor emulates.
    pub open spec fn spec_load_requests(
        state: HartState,
        word: u64,
        register: Result<GpRegister, Error>,
    ) -> Result<(GuestLoadPageFaultRequest, MmioLoadRequest), Error> {
        let length = spec_instruction_length(spec_low_half(word));
        let instruction = word & spec_instruction_mask(length);
        match register {
            Ok(result_gpr) => Ok(
                (
                    GuestLoadPageFaultRequest { instruction_length: length, result_gpr },
                    MmioLoadRequest {
                        code: spec_cause_code(state.mcause),
                        stval: state.mtval,
                        htval: state.mtval2,
                        instruction,
                    },
                ),
            ),
            Err(error) => Err(error),
        }
    }

    /// What a store that faulted on a guest page becomes, given the register
    /// that holds the value to store.
    pub open spec fn spec_store_requests(
        state: HartState,
        word: u64,
        register: Result<GpRegister, Error>,
    ) -> Result<(GuestStorePageFaultRequest, MmioStoreRequest), Error> {
        let length = spec_instruction_length(spec_low_half(word));
        let instruction = word & spec_instruction_mask(length);
        match register {
            Ok(gpr) => Ok(
                (
                    GuestStorePageFaultRequest { instruction_length: length },
                    MmioStoreRequest {
                        code: spec_cause_code(state.mcause),
                        stval: state.mtval,
                        htval: state.mtval2,
                        instruction,
                        gpr,
                        gpr_value: state.spec_gpr(gpr),
                    },
                ),
            ),
            Err(error) => Err(error),
        }
    }

    /// The instruction that remains of the word read at the faulting program
    /// counter.
    pub open spec fn spec_trimmed(word: u64) -> u64 {
        word & spec_instruction_mask(spec_instruction_length(spec_low_half(word)))
    }

    /// Turns a load that faulted on a guest page into the request that the
    /// monitor keeps and the load that the hypervisor emulates. `word` is
    /// what memory holds at the faulting program counter, read through the
    /// guest's address translation.
    pub fn guest_load_page_fault_request(&self, word: u64) -> (requests: Result<
        (GuestLoadPageFaultRequest, MmioLoadRequest),
        Error,
    >)
        ensures
            requests == Self::spec_load_requests(
                self.state(),
                word,
                spec_result_gpr(Self::spec_trimmed(word),
                    decoded_instruction(spec_low_word(Self::spec_trimmed(word)))),
            ),
    {
        let mcause: u64 = self.confidential_hart_state.mcause & 0x7fff_ffff_ffff_ffff;
        let (instruction, instruction_length) = trim_instruction(word);
        let gpr = read_result_gpr(instruction)?;
        let mtval: u64 = self.confidential_hart_state.mtval;
        let mtval2: u64 = self.confidential_hart_state.mtval2;

        let load_fault_request = GuestLoadPageFaultRequest::new(instruction_length, gpr);
        let mmio_load_request = MmioLoadRequest::new(mcause, mtval, mtval2, instruction);

        Ok((load_fault_request, mmio_load_request))
    }

    /// Turns a store that faulted on a guest page into the request that the
    /// monitor keeps and the store that the hypervisor emulates. `word` is
    /// what memory holds at the faulting program counter, read through the
    /// guest's address translation.
    pub fn guest_store_page_fault_request(&self, word: u64) -> (requests: Result<
        (GuestStorePageFaultRequest, MmioStoreRequest),
        Error,
    >)
        ensures
            requests == Self::spec_store_requests(
                self.state(),
                word,
                spec_result_gpr(Self::spec_trimmed(word),
                    decoded_instruction(spec_low_word(Self::spec_trimmed(word)))),
            ),
    {
        let mcause: u64 = self.confidential_hart_state.mcause & 0x7fff_ffff_ffff_ffff;
        let (instruction, instruction_length) = trim_instruction(word);
        let gpr = read_result_gpr(instruction)?;
        let gpr_value: u64 = self.confidential_hart_state.gpr(gpr);
        let mtval: u64 = self.confidential_hart_state.mtval;
        let mtval2: u64 = self.confidential_hart_state.mtval2;

        let guest_store_page_fault_request = GuestStorePageFaultRequest::new(instruction_length);
        let mmio_store_request = MmioStoreRequest::new(mcause, mtval, mtval2, instruction, gpr, gpr_value);

        Ok((guest_store_page_fault_request, mmio_store_request))
    }

    pub open spec fn spec_share_page_request(state: HartState) -> Result<(SharePageRequest, SbiRequest), Error> {
        let address = state.spec_gpr(GpRegister::a0);
        match SharePageRequest::spec_new(address) {
            Ok(request) => Ok((request, SbiRequest::spec_kvm_ace_page_in(address))),
            Err(error) => Err(error),
        }
    }

    /// Reads from `a0` the guest-physical address of the page that the
    /// confidential VM wants to share. Returns the request that the monitor
    /// keeps and the call by which it asks the hypervisor for a page.
    pub fn share_page_request(&self) -> (requests: Result<(SharePageRequest, SbiRequest), Error>)
        ensures
            requests == Self::spec_share_page_request(self.state()),
    {
        let shared_page_address: u64 = self.confidential_hart_state.gpr(GpRegister::a0);
        let share_page_request = SharePageRequest::new(shared_page_address)?;
        let sbi_request = SbiRequest::kvm_ace_page_in(shared_page_address);

        Ok((share_page_request, sbi_request))
    }
}

/// After the result of an emulated load or store is applied, the program
/// counter is that of the next instruction, as long as that address exists:
/// the hart does not run the faulting instruction again.
pub proof fn lemma_apply_advances_mepc(before: HartState, transformation: ExposeToConfidentialVm, after: HartState)
    requires
        ConfidentialHart::applied(before, transformation, after),
        transformation matches ExposeToConfidentialVm::GuestLoadPageFaultResult(result) ==> before.mepc
            + result.instruction_length <= u64::MAX,
        transformation matches ExposeToConfidentialVm::GuestStorePageFaultResult(result) ==> before.mepc
            + result.instruction_length <= u64::MAX,
    ensures
        transformation matches ExposeToConfidentialVm::GuestLoadPageFaultResult(result) ==> after.mepc
            == before.mepc + result.instruction_length,
        transformation matches ExposeToConfidentialVm::GuestStorePageFaultResult(result) ==> after.mepc
            == before.mepc + result.instruction_length,
{
}

} // verus!
