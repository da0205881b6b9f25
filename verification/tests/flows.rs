use security_monitor::confidential_flow::{handle_trap, ConfidentialFlowExit};
use security_monitor::control_data::{ConfidentialVmId, ControlData};
use security_monitor::error::Error;
use security_monitor::hart::{GpRegister, HartState};
use security_monitor::memory::{MemoryLayout, NonConfidentialMemory};
use security_monitor::mmu::{ConfidentialVmVirtualAddress, Translation};
use security_monitor::non_confidential_flow::{esm, page_in, resume, transformation, SBI_ERR_FAILED};
use security_monitor::transformations::{
    ExposeToConfidentialVm, ExposeToHypervisor, MmioStoreRequest, PendingRequest, SbiRequest, SbiResult,
};
use security_monitor::{ACE_EXT_ID, ACE_SHARE_PAGE_FID, SBI_BASE_EXT_ID, SBI_PROBE_EXTENSION_FID};

const ROOT: u64 = 0x8000_0000;

fn layout() -> MemoryLayout {
    MemoryLayout::new(0x8000_0000, 0xA000_0000, 0xA000_0000, 0xA010_0000).unwrap()
}

fn pointer_to(address: u64) -> u64 {
    ((address >> 12) << 10) | 0x1
}

fn hypervisor_memory() -> NonConfidentialMemory {
    let mut memory = NonConfidentialMemory::new();
    memory.write_word(ROOT, pointer_to(0x8001_0000));
    memory.write_word(0x8001_0000, pointer_to(0x8002_0000));
    memory.write_word(0x8002_0000 + 8, pointer_to(0x8003_0000));
    memory.write_word(0x8003_0000, pointer_to(0x8004_0000));
    memory.write_word(0x8004_0000, ((0x8100_0000u64 >> 12) << 10) | 0xDF);
    for index in 0..512u64 {
        memory.write_word(0x8100_0000 + 8 * index, 0xABAB_ABAB_ABAB_ABAB);
    }
    memory
}

/// State of the hart of the hypervisor's VM that asks for the promotion.
fn calling_hart() -> HartState {
    let mut state = HartState::empty(0);
    state.hgatp = (10 << 60) | (ROOT >> 12);
    state.mepc = 0x1000;
    state.set_gpr(GpRegister::a7, ACE_EXT_ID);
    state.set_gpr(GpRegister::sp, 0x7000);
    state
}

fn promoted() -> (ControlData, ConfidentialVmId) {
    let mut control_data = ControlData::new(layout()).unwrap();
    let (outcome, _) = esm(&mut control_data, &calling_hart(), 2, &hypervisor_memory());
    (control_data, outcome.unwrap())
}

#[test]
fn promotion_copies_the_vm_into_confidential_memory() {
    let mut control_data = ControlData::new(layout()).unwrap();
    assert_eq!(control_data.number_of_free_frames(), 256);
    let (outcome, answer) = esm(&mut control_data, &calling_hart(), 2, &hypervisor_memory());
    let id = outcome.unwrap();
    assert_eq!(id, ConfidentialVmId(1));
    assert_eq!(answer, SbiResult::new(0, 1, 4));
    assert_eq!(control_data.number_of_confidential_vms(), 1);
    // five tables, of which the root takes four frames, and one page
    assert_eq!(control_data.number_of_free_frames(), 256 - 9);
    match control_data.translate(id, ConfidentialVmVirtualAddress(0x4000_0000)) {
        Some(Translation::Confidential { word, address, .. }) => {
            assert_eq!(word & 0xff, 0xAB);
            assert!(0xA000_0000 <= address && address < 0xA010_0000);
        }
        other => panic!("not mapped to confidential memory: {:?}", other),
    }

    let hart = control_data.confidential_hart(id, 0).unwrap();
    assert_eq!(hart.pending_request(), Some(PendingRequest::SbiRequest()));
    assert_eq!(hart.hart_state().gpr(GpRegister::sp), 0x7000);
    assert_eq!(hart.hart_state().mideleg, 0b0100_0100_0100);
    assert_eq!(hart.hart_state().hideleg, 0b0100_0100_0100);
    assert_eq!(hart.hart_state().medeleg, 0xB3FF);
    assert_eq!(hart.hart_state().hedeleg, 0xB3FF);
    assert_eq!(hart.confidential_vm_id(), id);
    assert_eq!(hart.hart_state().hgatp, (10 << 60) | (1 << 44) | (0xA000_0000 >> 12));
    let second = control_data.confidential_hart(id, 1).unwrap();
    assert_eq!(second.pending_request(), None);
    assert_eq!(second.hart_state().gpr(GpRegister::sp), 0);
    assert_eq!(second.confidential_hart_id(), 1);
    assert!(control_data.confidential_hart(id, 2).is_none());

    assert_eq!(control_data.remove_confidential_vm(id), Ok(()));
    assert_eq!(control_data.number_of_free_frames(), 256);
    assert_eq!(control_data.remove_confidential_vm(id), Err(Error::InvalidConfidentialVmId()));
}

/// Translates as the hardware does: reads the raw entries out of the image
/// of memory, from the root table down.
fn hardware_walk(image: &std::collections::HashMap<u64, u64>, root: u64, address: u64) -> Option<(u64, u64)> {
    let mut table = root;
    for (shift, mask) in [(48, 0x7ff), (39, 0x1ff), (30, 0x1ff), (21, 0x1ff), (12, 0x1ff)] {
        let raw = image[&(table + 8 * ((address >> shift) & mask))];
        if raw & 0x1 == 0 {
            return None;
        }
        let target = ((raw >> 10) & 0xfff_ffff_ffff) << 12;
        if raw & 0xe != 0 {
            return Some((target + (address & ((1 << shift) - 1)), raw & 0x3ff));
        }
        table = target;
    }
    None
}

#[test]
fn hardware_translates_as_the_tables_say() {
    let (mut control_data, id) = promoted();
    let words = control_data.memory_image(id).unwrap();
    // the root table, four tables below it, and one page
    assert_eq!(words.len(), 2048 + 4 * 512 + 512);
    assert_eq!(words[0].0, 0xA000_0000);
    let image: std::collections::HashMap<u64, u64> = words.iter().copied().collect();
    assert_eq!(image.len(), words.len());
    let (physical, bits) = hardware_walk(&image, 0xA000_0000, 0x4000_0010).unwrap();
    assert_eq!(image[&physical], 0xABAB_ABAB_ABAB_ABAB);
    assert_eq!(bits, 0xDF);
    match control_data.translate(id, ConfidentialVmVirtualAddress(0x4000_0010)) {
        Some(Translation::Confidential { address, .. }) => assert_eq!(address, physical),
        other => panic!("not mapped to confidential memory: {:?}", other),
    }
    assert_eq!(hardware_walk(&image, 0xA000_0000, 0x5000_0000), None);

    let mut hart = control_data.steal_confidential_hart(id, 0).unwrap();
    hart.take_request();
    let mut trapped = *hart.hart_state();
    trapped.mcause = 10;
    trapped.set_gpr(GpRegister::a7, ACE_EXT_ID);
    trapped.set_gpr(GpRegister::a6, ACE_SHARE_PAGE_FID);
    trapped.set_gpr(GpRegister::a0, 0x5000_0000);
    hart.store_trapped_state(&trapped);
    handle_trap(&mut hart, 0).unwrap();
    page_in(&mut control_data, id, &mut hart, 0x9000_0000).unwrap();
    let image: std::collections::HashMap<u64, u64> = control_data.memory_image(id).unwrap().into_iter().collect();
    // valid, readable, writable, for the guest, accessed and dirty: not executable
    assert_eq!(hardware_walk(&image, 0xA000_0000, 0x5000_0ff8), Some((0x9000_0ff8, 0xD7)));
    assert!(control_data.memory_image(ConfidentialVmId(7)).is_none());
}

#[test]
fn failed_promotion_changes_nothing() {
    let mut control_data = ControlData::new(layout()).unwrap();
    let mut memory = hypervisor_memory();
    memory.write_word(0x8004_0000 + 8, pointer_to(0x8005_0000));
    let (outcome, answer) = esm(&mut control_data, &calling_hart(), 1, &memory);
    assert_eq!(outcome, Err(Error::PageTableCorrupted()));
    assert_eq!(answer, SbiResult::new(SBI_ERR_FAILED, 0, 4));
    assert_eq!(control_data.number_of_confidential_vms(), 0);
    assert_eq!(control_data.number_of_free_frames(), 256);

    let mut unsupported = calling_hart();
    unsupported.hgatp = (8 << 60) | (ROOT >> 12);
    assert_eq!(esm(&mut control_data, &unsupported, 1, &hypervisor_memory()).0, Err(Error::PageTableCorrupted()));
    let mut outside = calling_hart();
    outside.hgatp = (10 << 60) | (0xA000_0000 >> 12);
    assert_eq!(esm(&mut control_data, &outside, 1, &hypervisor_memory()).0, Err(Error::InvalidAddress()));
    assert_eq!(esm(&mut control_data, &calling_hart(), 0, &hypervisor_memory()).0, Err(Error::InvalidHartId()));
    assert_eq!(control_data.number_of_free_frames(), 256);
}

#[test]
fn identifiers_of_living_vms_differ() {
    let mut control_data = ControlData::new(layout()).unwrap();
    let first = esm(&mut control_data, &calling_hart(), 1, &hypervisor_memory()).0.unwrap();
    let second = esm(&mut control_data, &calling_hart(), 1, &hypervisor_memory()).0.unwrap();
    assert_eq!((first, second), (ConfidentialVmId(1), ConfidentialVmId(2)));
    assert_eq!(control_data.number_of_free_frames(), 256 - 18);
    control_data.remove_confidential_vm(first).unwrap();
    let third = esm(&mut control_data, &calling_hart(), 1, &hypervisor_memory()).0.unwrap();
    assert_eq!(third, ConfidentialVmId(1));
    assert_eq!(control_data.number_of_free_frames(), 256 - 18);
}

#[test]
fn shared_page_goes_through_the_hypervisor() {
    let (mut control_data, id) = promoted();
    let mut hart = control_data.steal_confidential_hart(id, 0).unwrap();
    assert!(control_data.confidential_hart(id, 0).unwrap().is_dummy());
    assert_eq!(control_data.steal_confidential_hart(id, 0).err(), Some(Error::InvalidHartId()));
    assert_eq!(control_data.steal_confidential_hart(id, 7).err(), Some(Error::InvalidHartId()));
    assert_eq!(control_data.steal_confidential_hart(ConfidentialVmId(9), 0).err(), Some(Error::InvalidConfidentialVmId()));

    // the promotion is answered first
    let mut hypervisor = HartState::empty(0);
    resume(&mut hart, &hypervisor).unwrap();
    assert_eq!(hart.pending_request(), None);
    assert_eq!(hart.hart_state().mepc, 0x1004);

    // the guest asks to share the page at 0x5000_0000
    let mut trapped = *hart.hart_state();
    trapped.mcause = 10;
    trapped.set_gpr(GpRegister::a7, ACE_EXT_ID);
    trapped.set_gpr(GpRegister::a6, ACE_SHARE_PAGE_FID);
    trapped.set_gpr(GpRegister::a0, 0x5000_0000);
    trapped.set_gpr(GpRegister::a1, 1);
    let mut hart = security_monitor::control_data::ConfidentialHart::from_vm_hart(0, &trapped);
    hart.take_request();
    let exit = handle_trap(&mut hart, 0).unwrap();
    assert_eq!(
        exit,
        ConfidentialFlowExit::ExitToHypervisor(ExposeToHypervisor::SbiRequest(SbiRequest::kvm_ace_page_in(
            0x5000_0000
        )))
    );
    assert!(matches!(hart.pending_request(), Some(PendingRequest::SharePage(_))));
    // the hart cannot go on before the page is mapped
    assert_eq!(resume(&mut hart, &hypervisor), Err(Error::PendingRequest()));

    let before = control_data.number_of_free_frames();
    assert_eq!(page_in(&mut control_data, id, &mut hart, 0xA000_0000), Err(Error::InvalidAddress()));
    assert_eq!(page_in(&mut control_data, ConfidentialVmId(9), &mut hart, 0x9000_0000), Err(Error::InvalidConfidentialVmId()));
    assert!(matches!(hart.pending_request(), Some(PendingRequest::SharePage(_))));
    assert_eq!(control_data.number_of_free_frames(), before);

    page_in(&mut control_data, id, &mut hart, 0x9000_0000).unwrap();
    assert_eq!(hart.pending_request(), None);
    assert_eq!(hart.hart_state().gpr(GpRegister::a0), 0);
    assert_eq!(hart.hart_state().mepc, trapped.mepc + 4);
    match control_data.translate(id, ConfidentialVmVirtualAddress(0x5000_0000)) {
        Some(Translation::Shared { page, permission, configuration }) => {
            assert_eq!(page, 0x9000_0000);
            assert!(permission.can_read && permission.can_write && !permission.can_execute);
            assert!(configuration.is_accessible_to_user);
        }
        other => panic!("not shared: {:?}", other),
    }
    assert_eq!(page_in(&mut control_data, id, &mut hart, 0x9000_0000), Err(Error::PendingRequest()));

    hypervisor.set_gpr(GpRegister::a0, 5);
    assert_eq!(transformation(None, &hypervisor), Ok(ExposeToConfidentialVm::Resume()));
    // a hart that was not taken out cannot be put back
    let stranger = security_monitor::control_data::ConfidentialHart::from_vm_hart_reset(1, &trapped);
    assert!(control_data.return_confidential_hart(id, stranger).is_err());
    assert!(control_data.return_confidential_hart(id, hart).is_ok());
    assert!(!control_data.confidential_hart(id, 0).unwrap().is_dummy());
}

#[test]
fn trapped_hart_is_routed_by_the_cause() {
    let mut state = HartState::empty(0);
    state.mepc = 0x2000;
    state.mtval = 0xC000_0000;
    state.mtval2 = 0x3000_0000;
    state.set_gpr(GpRegister::a0, ACE_EXT_ID);
    state.set_gpr(GpRegister::a5, 0x55);
    state.set_gpr(GpRegister::a6, SBI_PROBE_EXTENSION_FID);
    state.set_gpr(GpRegister::a7, SBI_BASE_EXT_ID);
    let hart_with = |mcause: u64| {
        let mut state = state;
        state.mcause = mcause;
        let mut hart = security_monitor::control_data::ConfidentialHart::from_vm_hart(0, &state);
        hart.take_request();
        hart
    };

    // the monitor answers the probe for its own extension itself
    let mut hart = hart_with(10);
    assert_eq!(handle_trap(&mut hart, 0), Ok(ConfidentialFlowExit::ResumeConfidentialHart));
    assert_eq!(hart.hart_state().gpr(GpRegister::a0), 0);
    assert_eq!(hart.hart_state().gpr(GpRegister::a1), 1);
    assert_eq!(hart.hart_state().mepc, 0x2004);
    assert_eq!(hart.pending_request(), None);

    // sd a5, 8(a0)
    let mut hart = hart_with(23);
    let exit = handle_trap(&mut hart, 0x00f5_3423).unwrap();
    let expected = MmioStoreRequest::new(23, 0xC000_0000, 0x3000_0000, 0x00f5_3423, GpRegister::a5, 0x55);
    assert_eq!(exit, ConfidentialFlowExit::ExitToHypervisor(ExposeToHypervisor::MmioStoreRequest(expected)));
    assert!(matches!(hart.pending_request(), Some(PendingRequest::GuestStorePageFault(_))));
    // a second trap before the answer is refused, and the first request stays
    let pending = hart.pending_request();
    assert_eq!(handle_trap(&mut hart, 0x00f5_3423), Err(Error::PendingRequest()));
    assert_eq!(hart.pending_request(), pending);
    resume(&mut hart, &HartState::empty(0)).unwrap();
    assert_eq!(hart.hart_state().mepc, 0x2004);

    // an instruction that is no load or store
    let mut hart = hart_with(21);
    assert_eq!(handle_trap(&mut hart, 0x0000_0073), Err(Error::InvalidRiscvInstruction(0x73)));
    assert_eq!(hart.pending_request(), None);

    let mut hart = hart_with(0x8000_0000_0000_0009);
    assert_eq!(handle_trap(&mut hart, 0), Ok(ConfidentialFlowExit::ExitToHypervisor(ExposeToHypervisor::Interrupt(9))));
    let mut hart = hart_with(2);
    assert_eq!(handle_trap(&mut hart, 0), Ok(ConfidentialFlowExit::ExitToHypervisor(ExposeToHypervisor::Trap(2))));
}
