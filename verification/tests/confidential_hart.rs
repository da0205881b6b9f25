use security_monitor::control_data::instruction::{read_result_gpr, trim_instruction};
use security_monitor::control_data::ConfidentialHart;
use security_monitor::error::Error;
use security_monitor::hart::{GpRegister, HartState};
use security_monitor::transformations::{
    ExposeToConfidentialVm, GuestLoadPageFaultResult, MmioLoadRequest, PendingRequest, SbiRequest,
};

fn guest_state() -> HartState {
    let mut state = HartState::empty(0);
    state.mepc = 0x2000;
    state.mcause = 21;
    state.mtval = 0xC000_0000;
    state.set_gpr(GpRegister::a0, 0xC000_0000);
    state
}

#[test]
fn mmio_load_fault_is_decoded_and_applied() {
    let mut hart = ConfidentialHart::from_vm_hart(0, &guest_state());
    assert_eq!(hart.take_request(), Some(PendingRequest::SbiRequest()));
    // lw x5, 0(x10), followed in memory by another instruction
    let word: u64 = 0xffff_ffff_0005_2283;
    let (request, mmio) = hart.guest_load_page_fault_request(word).unwrap();
    assert_eq!(request.instruction_length(), 4);
    assert_eq!(request.result_gpr(), GpRegister::t0);
    assert_eq!(mmio, MmioLoadRequest::new(21, 0xC000_0000, 0, 0x0005_2283));
    hart.set_pending_request(PendingRequest::GuestLoadPageFault(request)).unwrap();

    let result = GuestLoadPageFaultResult::new(&request, 0xDEAD_BEEF);
    hart.apply(ExposeToConfidentialVm::GuestLoadPageFaultResult(result));
    assert_eq!(hart.hart_state().gpr(GpRegister::t0), 0xDEAD_BEEF);
    assert_eq!(hart.hart_state().mepc, 0x2004);
}

#[test]
fn second_pending_request_is_refused() {
    let mut hart = ConfidentialHart::from_vm_hart_reset(3, &guest_state());
    let first = PendingRequest::SbiRequest();
    assert_eq!(hart.set_pending_request(first), Ok(()));
    let request = SbiRequest::kvm_ace_page_in(0x5000_0000);
    assert_eq!(request.a0(), 0x5000_0000);
    let second = hart.guest_load_page_fault_request(0x0005_2283).unwrap().0;
    assert_eq!(hart.set_pending_request(PendingRequest::GuestLoadPageFault(second)), Err(Error::PendingRequest()));
    assert_eq!(hart.pending_request(), Some(first));
}

#[test]
fn trimmed_instruction_keeps_its_own_bytes() {
    assert_eq!(trim_instruction(0x1234_5678_9abc_4188), (0x4188, 2));
    assert_eq!(read_result_gpr(0x4188), Ok(GpRegister::a0));
}
