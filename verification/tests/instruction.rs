use security_monitor::control_data::instruction::{read_result_gpr, result_gpr, trim_instruction, MemoryInstruction};
use security_monitor::control_data::ConfidentialHart;
use security_monitor::error::Error;
use security_monitor::hart::{GpRegister, HartState};
use security_monitor::transformations::{
    ExposeToConfidentialVm, GuestStorePageFaultResult, SbiRequest, SbiResult, SharePageRequest, TrapReason,
};

#[test]
fn loads_name_their_destination() {
    assert_eq!(read_result_gpr(0x0200_8283), Ok(GpRegister::t0)); // lb x5,32(x1)
    assert_eq!(read_result_gpr(0x0041_1f03), Ok(GpRegister::t5)); // lh x30,4(x2)
    assert_eq!(read_result_gpr(0x0205_2403), Ok(GpRegister::s0)); // lw x8,32(x10)
    assert_eq!(read_result_gpr(0x0005_3503), Ok(GpRegister::a0)); // ld x10,0(x10)
    assert_eq!(read_result_gpr(0x0005_4583), Ok(GpRegister::a1)); // lbu x11,0(x10)
    assert_eq!(read_result_gpr(0x0005_5603), Ok(GpRegister::a2)); // lhu x12,0(x10)
    assert_eq!(read_result_gpr(0x0005_6683), Ok(GpRegister::a3)); // lwu x13,0(x10)
}

#[test]
fn stores_name_their_source() {
    assert_eq!(read_result_gpr(0x00f5_0023), Ok(GpRegister::a5)); // sb x15,0(x10)
    assert_eq!(read_result_gpr(0x0105_1023), Ok(GpRegister::a6)); // sh x16,0(x10)
    assert_eq!(read_result_gpr(0x0115_2023), Ok(GpRegister::a7)); // sw x17,0(x10)
    assert_eq!(read_result_gpr(0x01f5_3023), Ok(GpRegister::t6)); // sd x31,0(x10)
}

#[test]
fn compressed_loads_and_stores_name_their_register() {
    assert_eq!(read_result_gpr(0x43b0), Ok(GpRegister::a2)); // c.lw a2,64(a5)
    assert_eq!(read_result_gpr(0x6188), Ok(GpRegister::a0)); // c.ld a0,0(a1)
    assert_eq!(read_result_gpr(0xc3b0), Ok(GpRegister::a2)); // c.sw a2,64(a5)
    assert_eq!(read_result_gpr(0xf5e0), Ok(GpRegister::s0)); // c.sd s0,232(a1)
    assert_eq!(read_result_gpr(0x4502), Ok(GpRegister::zero)); // c.lwsp a0,0(sp)
    assert_eq!(read_result_gpr(0x6502), Ok(GpRegister::zero)); // c.ldsp a0,0(sp)
    assert_eq!(read_result_gpr(0xc83e), Ok(GpRegister::a5)); // c.swsp a5,16(sp)
    assert_eq!(read_result_gpr(0xec26), Ok(GpRegister::s1)); // c.sdsp s1,24(sp)
}

#[test]
fn other_instructions_are_refused() {
    assert_eq!(read_result_gpr(0x0000_0073), Err(Error::InvalidRiscvInstruction(0x73))); // ecall
    assert_eq!(read_result_gpr(0x0000_0001), Err(Error::InvalidRiscvInstruction(1))); // c.nop
    assert_eq!(read_result_gpr(0x00b5_0533), Err(Error::InvalidRiscvInstruction(0x00b5_0533))); // add
    assert_eq!(result_gpr(0x73, MemoryInstruction::LoadWord(32)), Err(Error::InvalidRiscvInstruction(0x73)));
    assert_eq!(result_gpr(0x73, MemoryInstruction::StoreByte(31)), Ok(GpRegister::t6));
    assert_eq!(result_gpr(0x4502, MemoryInstruction::Other), Ok(GpRegister::zero));
    // the decoder's answer goes before the bits of a compressed instruction
    assert_eq!(result_gpr(0x4502, MemoryInstruction::LoadDouble(7)), Ok(GpRegister::t2));
}

#[test]
fn instruction_is_as_long_as_its_lowest_bits_say() {
    assert_eq!(trim_instruction(0xffff_ffff_ffff_4501), (0x4501, 2));
    assert_eq!(trim_instruction(0xffff_ffff_0005_2283), (0x0005_2283, 4));
    assert_eq!(trim_instruction(0xffff_1234_5678_001f), (0x1234_5678_001f, 6));
    assert_eq!(trim_instruction(0x1234_5678_9abc_003f), (0x1234_5678_9abc_003f, 10));
    assert_eq!(trim_instruction(0x1234_5678_9abc_707f), (0x1234_5678_9abc_707f, 24));
}

#[test]
fn registers_are_found_by_number() {
    assert_eq!(GpRegister::from_index(0), Some(GpRegister::zero));
    assert_eq!(GpRegister::from_index(10), Some(GpRegister::a0));
    assert_eq!(GpRegister::from_index(17), Some(GpRegister::a7));
    assert_eq!(GpRegister::from_index(31), Some(GpRegister::t6));
    assert_eq!(GpRegister::from_index(32), None);
    for index in 0..32 {
        assert_eq!(GpRegister::from_index(index).unwrap().index(), index);
    }
}

#[test]
fn cause_tells_why_the_hart_trapped() {
    let mut state = HartState::empty(4);
    state.set_gpr(GpRegister::a7, 0x510000);
    state.set_gpr(GpRegister::a6, 2000);
    state.set_gpr(GpRegister::a0, 1);
    state.set_gpr(GpRegister::a5, 6);
    let mut reason = |mcause: u64| {
        state.mcause = mcause;
        TrapReason::from_hart_state(&state)
    };
    assert_eq!(reason(9), TrapReason::HsEcall(0x510000, 2000));
    assert_eq!(reason(10), TrapReason::VsEcall(0x510000, 2000));
    assert_eq!(reason(21), TrapReason::GuestLoadPageFault);
    assert_eq!(reason(23), TrapReason::GuestStorePageFault);
    assert_eq!(reason(20), TrapReason::Unknown);
    assert_eq!(reason(0x8000_0000_0000_0005), TrapReason::Interrupt);
    assert_eq!(SbiRequest::from_hart_state(&state), SbiRequest::new(0x510000, 2000, 1, 0, 0, 0, 0, 6));
    assert_eq!(SbiRequest::kvm_ace_page_in(0x5000_0000), SbiRequest::new(0x509999, 2, 0x5000_0000, 0, 0, 0, 0, 0));
}

#[test]
fn results_move_the_program_counter() {
    let mut state = HartState::empty(1);
    state.mepc = 0xffff_ffff_ffff_fffe;
    state.hgatp = (10 << 60) | (0x2a << 44) | 0x80000;
    let mut hart = ConfidentialHart::from_vm_hart_reset(1, &state);
    assert!(!hart.is_dummy());
    assert_eq!(hart.confidential_vm_id().as_u64(), 0x2a);
    assert_eq!(hart.confidential_hart_id(), 1);
    // the program counter wraps where addresses end
    hart.apply(ExposeToConfidentialVm::SbiResult(SbiResult::new(7, 8, 4)));
    assert_eq!(hart.hart_state().mepc, 2);
    assert_eq!(hart.hart_state().gpr(GpRegister::a0), 7);
    assert_eq!(hart.hart_state().gpr(GpRegister::a1), 8);
    let store = security_monitor::transformations::GuestStorePageFaultRequest::new(2);
    hart.apply(ExposeToConfidentialVm::GuestStorePageFaultResult(GuestStorePageFaultResult::new(&store)));
    assert_eq!(hart.hart_state().mepc, 4);
    hart.apply(ExposeToConfidentialVm::Resume());
    assert_eq!(hart.hart_state().mepc, 4);
    hart.set_hgatp(5);
    assert_eq!(hart.hart_state().hgatp, 5);

    let mut saved = HartState::empty(9);
    saved.mepc = 0x80;
    saved.mideleg = 0xffff;
    saved.set_gpr(GpRegister::a0, 0x5000_0800);
    hart.store_trapped_state(&saved);
    assert_eq!(hart.hart_state().mepc, 0x80);
    assert_eq!(hart.hart_state().mideleg, 0b0100_0100_0100);
    assert_eq!(hart.hart_state().hgatp, 5);
    assert_eq!(hart.confidential_hart_id(), 1);
    assert_eq!(hart.share_page_request().err(), Some(Error::InvalidAddress()));
    assert_eq!(SharePageRequest::new(0x5000_0000).unwrap().confidential_vm_virtual_address().address(), 0x5000_0000);

    let dummy = ConfidentialHart::dummy(3);
    assert!(dummy.is_dummy());
    assert_eq!(dummy.pending_request(), None);
    assert_eq!(dummy.confidential_hart_id(), 3);
}
