//! Requests that a trapped confidential hart raises and results that are
//! exposed to it when it resumes.
use crate::error::Error;
use crate::hart::{GpRegister, HartState};
use crate::mmu::paging_system::ConfidentialVmVirtualAddress;
use crate::mmu::PageSize;
use vstd::prelude::*;

verus! {

/// Identifier of the SBI extension that the hypervisor offers to the monitor.
pub const KVM_ACE_EXTID: u64 = 0x509999;

/// Function of the hypervisor's extension that asks it for a page to share.
pub const KVM_ACE_PAGE_IN_FID: u64 = 2;

/// Length in bytes of the `ecall` instruction.
pub const ECALL_INSTRUCTION_LENGTH: u64 = 4;

/// Bit of `mcause` that tells interrupts from exceptions.
pub const MCAUSE_INTERRUPT_BIT: u64 = 0x8000_0000_0000_0000;

pub const CAUSE_SUPERVISOR_ECALL: u64 = 9;

pub const CAUSE_VIRTUAL_SUPERVISOR_ECALL: u64 = 10;

pub const CAUSE_LOAD_GUEST_PAGE_FAULT: u64 = 21;

pub const CAUSE_STORE_GUEST_PAGE_FAULT: u64 = 23;

/// Why a hart trapped into the monitor.
#[derive(Debug, Clone, Copy, PartialEq, Eq, Structural)]
pub enum TrapReason {
    Interrupt,
    /// Environment call from VS-mode, with extension and function identifier.
    VsEcall(u64, u64),
    /// Environment call from HS-mode, with extension and function identifier.
    HsEcall(u64, u64),
    GuestLoadPageFault,
    GuestStorePageFault,
    Unknown,
}

impl TrapReason {
    pub open spec fn spec_from_hart_state(state: HartState) -> TrapReason {
        if state.mcause >= MCAUSE_INTERRUPT_BIT {
            TrapReason::Interrupt
        } else if state.mcause == CAUSE_SUPERVISOR_ECALL {
            TrapReason::HsEcall(state.spec_gpr(GpRegister::a7), state.spec_gpr(GpRegister::a6))
        } else if state.mcause == CAUSE_VIRTUAL_SUPERVISOR_ECALL {
            TrapReason::VsEcall(state.spec_gpr(GpRegister::a7), state.spec_gpr(GpRegister::a6))
        } else if state.mcause == CAUSE_LOAD_GUEST_PAGE_FAULT {
            TrapReason::GuestLoadPageFault
        } else if state.mcause == CAUSE_STORE_GUEST_PAGE_FAULT {
            TrapReason::GuestStorePageFault
        } else {
            TrapReason::Unknown
        }
    }

    /// Reads the reason of the trap from `mcause` and, for environment calls,
    /// from the registers `a7` and `a6`.
    pub fn from_hart_state(state: &HartState) -> (reason: Self)
        ensures
            reason == Self::spec_from_hart_state(*state),
    {
        if state.mcause >= MCAUSE_INTERRUPT_BIT {
            TrapReason::Interrupt
        } else if state.mcause == CAUSE_SUPERVISOR_ECALL {
            TrapReason::HsEcall(state.gpr(GpRegister::a7), state.gpr(GpRegister::a6))
        } else if state.mcause == CAUSE_VIRTUAL_SUPERVISOR_ECALL {
            TrapReason::VsEcall(state.gpr(GpRegister::a7), state.gpr(GpRegister::a6))
        } else if state.mcause == CAUSE_LOAD_GUEST_PAGE_FAULT {
            TrapReason::GuestLoadPageFault
        } else if state.mcause == CAUSE_STORE_GUEST_PAGE_FAULT {
            TrapReason::GuestStorePageFault
        } else {
            TrapReason::Unknown
        }
    }
}

/// An SBI call: extension, function and the six argument registers.
#[derive(Debug, Clone, Copy, PartialEq, Eq, Structural)]
pub struct SbiRequest {
    pub extension_id: u64,
    pub function_id: u64,
    pub a0: u64,
    pub a1: u64,
    pub a2: u64,
    pub a3: u64,
    pub a4: u64,
    pub a5: u64,
}

impl SbiRequest {
    pub open spec fn spec_from_hart_state(state: HartState) -> SbiRequest {
        SbiRequest {
            extension_id: state.spec_gpr(GpRegister::a7),
            function_id: state.spec_gpr(GpRegister::a6),
            a0: state.spec_gpr(GpRegister::a0),
            a1: state.spec_gpr(GpRegister::a1),
            a2: state.spec_gpr(GpRegister::a2),
            a3: state.spec_gpr(GpRegister::a3),
            a4: state.spec_gpr(GpRegister::a4),
            a5: state.spec_gpr(GpRegister::a5),
        }
    }

    pub open spec fn spec_kvm_ace_page_in(page_address: u64) -> SbiRequest {
        SbiRequest {
            extension_id: KVM_ACE_EXTID,
            function_id: KVM_ACE_PAGE_IN_FID,
            a0: page_address,
            a1: 0,
            a2: 0,
            a3: 0,
            a4: 0,
            a5: 0,
        }
    }

    pub fn new(extension_id: u64, function_id: u64, a0: u64, a1: u64, a2: u64, a3: u64, a4: u64, a5: u64)
        -> (request: Self)
        ensures
            request == (SbiRequest { extension_id, function_id, a0, a1, a2, a3, a4, a5 }),
    {
        Self { extension_id, function_id, a0, a1, a2, a3, a4, a5 }
    }

    /// The call that the registers `a7`, `a6` and `a0` to `a5` of the hart
    /// hold.
    pub fn from_hart_state(state: &HartState) -> (request: Self)
        ensures
            request == Self::spec_from_hart_state(*state),
    {
        Self::new(
            state.gpr(GpRegister::a7),
            state.gpr(GpRegister::a6),
            state.gpr(GpRegister::a0),
            state.gpr(GpRegister::a1),
            state.gpr(GpRegister::a2),
            state.gpr(GpRegister::a3),
            state.gpr(GpRegister::a4),
            state.gpr(GpRegister::a5),
        )
    }

    /// The call by which the monitor asks the hypervisor for a page that the
    /// confidential VM shares at the given guest-physical address.
    pub fn kvm_ace_page_in(page_address: u64) -> (request: Self)
        ensures
            request == Self::spec_kvm_ace_page_in(page_address),
    {
        Self::new(KVM_ACE_EXTID, KVM_ACE_PAGE_IN_FID, page_address, 0, 0, 0, 0, 0)
    }

    pub fn extension_id(&self) -> (value: u64)
        ensures
            value == self.extension_id,
    {
        self.extension_id
    }

    pub fn function_id(&self) -> (value: u64)
        ensures
            value == self.function_id,
    {
        self.function_id
    }

    pub fn a0(&self) -> (value: u64)
        ensures
            value == self.a0,
    {
        self.a0
    }

    pub fn a1(&self) -> (value: u64)
        ensures
            value == self.a1,
    {
        self.a1
    }
}

/// The answer to an SBI call: error code, value, and the number of bytes by
/// which the program counter moves past the call.
#[derive(Debug, Clone, Copy, PartialEq, Eq, Structural)]
pub struct SbiResult {
    pub a0: u64,
    pub a1: u64,
    pub pc_offset: u64,
}

impl SbiResult {
    pub fn new(a0: u64, a1: u64, pc_offset: u64) -> (result: Self)
        ensures
            result == (SbiResult { a0, a1, pc_offset }),
    {
        Self { a0, a1, pc_offset }
    }

    /// A successful answer that carries a value.
    pub fn success(value: u64) -> (result: Self)
        ensures
            result == (SbiResult { a0: 0, a1: value, pc_offset: ECALL_INSTRUCTION_LENGTH }),
    {
        Self::new(0, value, ECALL_INSTRUCTION_LENGTH)
    }

    /// An answer that reports the given SBI error code.
    pub fn failure(code: u64) -> (result: Self)
        ensures
            result == (SbiResult { a0: code, a1: 0, pc_offset: ECALL_INSTRUCTION_LENGTH }),
    {
        Self::new(code, 0, ECALL_INSTRUCTION_LENGTH)
    }

    /// The answer that the hypervisor left in the registers `a0` and `a1`.
    pub fn ecall(state: &HartState) -> (result: Self)
        ensures
            result == (SbiResult {
                a0: state.spec_gpr(GpRegister::a0),
                a1: state.spec_gpr(GpRegister::a1),
                pc_offset: ECALL_INSTRUCTION_LENGTH,
            }),
    {
        Self::new(state.gpr(GpRegister::a0), state.gpr(GpRegister::a1), ECALL_INSTRUCTION_LENGTH)
    }

    pub fn a0(&self) -> (value: u64)
        ensures
            value == self.a0,
    {
        self.a0
    }

    pub fn a1(&self) -> (value: u64)
        ensures
            value == self.a1,
    {
        self.a1
    }

    pub fn pc_offset(&self) -> (value: u64)
        ensures
            value == self.pc_offset,
    {
        self.pc_offset
    }
}

/// What the monitor keeps of a load that faulted on a guest page until the
/// hypervisor has emulated it.
#[derive(Debug, Clone, Copy, PartialEq, Eq, Structural)]
pub struct GuestLoadPageFaultRequest {
    pub instruction_length: usize,
    pub result_gpr: GpRegister,
}

impl GuestLoadPageFaultRequest {
    pub fn new(instruction_length: usize, result_gpr: GpRegister) -> (request: Self)
        ensures
            request == (GuestLoadPageFaultRequest { instruction_length, result_gpr }),
    {
        Self { instruction_length, result_gpr }
    }

    pub fn instruction_length(&self) -> (length: usize)
        ensures
            length == self.instruction_length,
    {
        self.instruction_length
    }

    pub fn result_gpr(&self) -> (register: GpRegister)
        ensures
            register == self.result_gpr,
    {
        self.result_gpr
    }
}

/// The value that an emulated load returns to the confidential hart.
#[derive(Debug, Clone, Copy, PartialEq, Eq, Structural)]
pub struct GuestLoadPageFaultResult {
    pub result_gpr: GpRegister,
    pub value: u64,
    pub instruction_length: usize,
}

impl GuestLoadPageFaultResult {
    /// Pairs the pending request with the value that the hypervisor loaded.
    pub fn new(request: &GuestLoadPageFaultRequest, value: u64) -> (result: Self)
        ensures
            result == (GuestLoadPageFaultResult {
                result_gpr: request.result_gpr,
                value,
                instruction_length: request.instruction_length,
            }),
    {
        Self { result_gpr: request.result_gpr(), value, instruction_length: request.instruction_length() }
    }

    pub fn result_gpr(&self) -> (register: GpRegister)
        ensures
            register == self.result_gpr,
    {
        self.result_gpr
    }

    pub fn value(&self) -> (value: u64)
        ensures
            value == self.value,
    {
        self.value
    }

    pub fn instruction_length(&self) -> (length: usize)
        ensures
            length == self.instruction_length,
    {
        self.instruction_length
    }
}

/// What the monitor keeps of a store that faulted on a guest page until the
/// hypervisor has emulated it.
#[derive(Debug, Clone, Copy, PartialEq, Eq, Structural)]
pub struct GuestStorePageFaultRequest {
    pub instruction_length: usize,
}

impl GuestStorePageFaultRequest {
    pub fn new(instruction_length: usize) -> (request: Self)
        ensures
            request == (GuestStorePageFaultRequest { instruction_length }),
    {
        Self { instruction_length }
    }

    pub fn instruction_length(&self) -> (length: usize)
        ensures
            length == self.instruction_length,
    {
        self.instruction_length
    }
}

/// Completion of an emulated store.
#[derive(Debug, Clone, Copy, PartialEq, Eq, Structural)]
pub struct GuestStorePageFaultResult {
    pub instruction_length: usize,
}

impl GuestStorePageFaultResult {
    pub fn new(request: &GuestStorePageFaultRequest) -> (result: Self)
        ensures
            result == (GuestStorePageFaultResult { instruction_length: request.instruction_length }),
    {
        Self { instruction_length: request.instruction_length() }
    }

    pub fn instruction_length(&self) -> (length: usize)
        ensures
            length == self.instruction_length,
    {
        self.instruction_length
    }
}

/// A load from a device, as the hypervisor gets it to emulate.
#[derive(Debug, Clone, Copy, PartialEq, Eq, Structural)]
pub struct MmioLoadRequest {
    pub code: u64,
    pub stval: u64,
    pub htval: u64,
    pub instruction: u64,
}

impl MmioLoadRequest {
    pub fn new(code: u64, stval: u64, htval: u64, instruction: u64) -> (request: Self)
        ensures
            request == (MmioLoadRequest { code, stval, htval, instruction }),
    {
        Self { code, stval, htval, instruction }
    }

    pub fn code(&self) -> (value: u64)
        ensures
            value == self.code,
    {
        self.code
    }

    pub fn stval(&self) -> (value: u64)
        ensures
            value == self.stval,
    {
        self.stval
    }

    pub fn htval(&self) -> (value: u64)
        ensures
            value == self.htval,
    {
        self.htval
    }

    pub fn instruction(&self) -> (value: u64)
        ensures
            value == self.instruction,
    {
        self.instruction
    }
}

/// A store to a device, as the hypervisor gets it to emulate.
#[derive(Debug, Clone, Copy, PartialEq, Eq, Structural)]
pub struct MmioStoreRequest {
    pub code: u64,
    pub stval: u64,
    pub htval: u64,
    pub instruction: u64,
    pub gpr: GpRegister,
    pub gpr_value: u64,
}

impl MmioStoreRequest {
    pub fn new(code: u64, stval: u64, htval: u64, instruction: u64, gpr: GpRegister, gpr_value: u64)
        -> (request: Self)
        ensures
            request == (MmioStoreRequest { code, stval, htval, instruction, gpr, gpr_value }),
    {
        Self { code, stval, htval, instruction, gpr, gpr_value }
    }

    pub fn code(&self) -> (value: u64)
        ensures
            value == self.code,
    {
        self.code
    }

    pub fn stval(&self) -> (value: u64)
        ensures
            value == self.stval,
    {
        self.stval
    }

    pub fn htval(&self) -> (value: u64)
        ensures
            value == self.htval,
    {
        self.htval
    }

    pub fn instruction(&self) -> (value: u64)
        ensures
            value == self.instruction,
    {
        self.instruction
    }

    pub fn gpr(&self) -> (register: GpRegister)
        ensures
            register == self.gpr,
    {
        self.gpr
    }

    pub fn gpr_value(&self) -> (value: u64)
        ensures
            value == self.gpr_value,
    {
        self.gpr_value
    }
}

/// The wish of a confidential VM to share the 4 KiB page at one of its
/// guest-physical addresses with the hypervisor.
#[derive(Debug, Clone, Copy, PartialEq, Eq, Structural)]
pub struct SharePageRequest {
    pub confidential_vm_virtual_address: ConfidentialVmVirtualAddress,
    pub page_size: PageSize,
}

impl SharePageRequest {
    /// Whether a guest-physical address can be shared: it is the start of a
    /// 4 KiB page.
    pub open spec fn valid_address(address: u64) -> bool {
        address % 0x1000 == 0
    }

    pub open spec fn spec_new(address: u64) -> Result<SharePageRequest, Error> {
        if Self::valid_address(address) {
            Ok(
                SharePageRequest {
                    confidential_vm_virtual_address: ConfidentialVmVirtualAddress(address),
                    page_size: PageSize::Size4KiB,
                },
            )
        } else {
            Err(Error::InvalidAddress())
        }
    }

    pub fn new(address: u64) -> (request: Result<Self, Error>)
        ensures
            request == Self::spec_new(address),
    {
        if address % 0x1000 != 0 {
            return Err(Error::InvalidAddress());
        }
        Ok(Self { confidential_vm_virtual_address: ConfidentialVmVirtualAddress(address),
            page_size: PageSize::Size4KiB })
    }

    pub fn confidential_vm_virtual_address(&self) -> (address: ConfidentialVmVirtualAddress)
        ensures
            address == self.confidential_vm_virtual_address,
    {
        self.confidential_vm_virtual_address
    }

    pub fn page_size(&self) -> (size: PageSize)
        ensures
            size == self.page_size,
    {
        self.page_size
    }
}

/// Work that the hypervisor has to finish before a confidential hart resumes.
#[derive(Debug, Clone, Copy, PartialEq, Eq, Structural)]
pub enum PendingRequest {
    SbiRequest(),
    GuestLoadPageFault(GuestLoadPageFaultRequest),
    GuestStorePageFault(GuestStorePageFaultRequest),
    SharePage(SharePageRequest),
}

/// What the monitor hands to the hypervisor when a confidential hart
/// leaves.
#[derive(Debug, Clone, Copy, PartialEq, Eq, Structural)]
pub enum ExposeToHypervisor {
    /// An SBI call that the hypervisor has to answer.
    SbiRequest(SbiRequest),
    /// A load from a device that the hypervisor has to emulate.
    MmioLoadRequest(MmioLoadRequest),
    /// A store to a device that the hypervisor has to emulate.
    MmioStoreRequest(MmioStoreRequest),
    /// An interrupt that is not delegated to the confidential VM.
    Interrupt(u64),
    /// A trap that the monitor does not handle, with the value of `mcause`.
    Trap(u64),
}

/// What is written into the state of a confidential hart when it resumes.
#[derive(Debug, Clone, Copy, PartialEq, Eq, Structural)]
pub enum ExposeToConfidentialVm {
    SbiResult(SbiResult),
    GuestLoadPageFaultResult(GuestLoadPageFaultResult),
    GuestStorePageFaultResult(GuestStorePageFaultResult),
    Resume(),
}

} // verus!
