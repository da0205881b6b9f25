use vstd::prelude::*;

verus! {

/// The general-purpose registers, in the order of their numbers.
#[allow(non_camel_case_types)]
#[derive(Debug, Clone, Copy, PartialEq, Eq, Structural)]
pub enum GpRegister {
    zero,
    ra,
    sp,
    gp,
    tp,
    t0,
    t1,
    t2,
    s0,
    s1,
    a0,
    a1,
    a2,
    a3,
    a4,
    a5,
    a6,
    a7,
    s2,
    s3,
    s4,
    s5,
    s6,
    s7,
    s8,
    s9,
    s10,
    s11,
    t3,
    t4,
    t5,
    t6,
}

impl GpRegister {
    /// The number of the register, `x0` to `x31`.
    pub open spec fn number(self) -> int {
        match self {
            GpRegister::zero => 0,
            GpRegister::ra => 1,
            GpRegister::sp => 2,
            GpRegister::gp => 3,
            GpRegister::tp => 4,
            GpRegister::t0 => 5,
            GpRegister::t1 => 6,
            GpRegister::t2 => 7,
            GpRegister::s0 => 8,
            GpRegister::s1 => 9,
            GpRegister::a0 => 10,
            GpRegister::a1 => 11,
            GpRegister::a2 => 12,
            GpRegister::a3 => 13,
            GpRegister::a4 => 14,
            GpRegister::a5 => 15,
            GpRegister::a6 => 16,
            GpRegister::a7 => 17,
            GpRegister::s2 => 18,
            GpRegister::s3 => 19,
            GpRegister::s4 => 20,
            GpRegister::s5 => 21,
            GpRegister::s6 => 22,
            GpRegister::s7 => 23,
            GpRegister::s8 => 24,
            GpRegister::s9 => 25,
            GpRegister::s10 => 26,
            GpRegister::s11 => 27,
            GpRegister::t3 => 28,
            GpRegister::t4 => 29,
            GpRegister::t5 => 30,
            GpRegister::t6 => 31,
        }
    }

    /// The register with the given number, if there is one.
    pub open spec fn with_number(number: int) -> Option<GpRegister> {
        if number == 0 {
            Some(GpRegister::zero)
        } else if number == 1 {
            Some(GpRegister::ra)
        } else if number == 2 {
            Some(GpRegister::sp)
        } else if number == 3 {
            Some(GpRegister::gp)
        } else if number == 4 {
            Some(GpRegister::tp)
        } else if number == 5 {
            Some(GpRegister::t0)
        } else if number == 6 {
            Some(GpRegister::t1)
        } else if number == 7 {
            Some(GpRegister::t2)
        } else if number == 8 {
            Some(GpRegister::s0)
        } else if number == 9 {
            Some(GpRegister::s1)
        } else if number == 10 {
            Some(GpRegister::a0)
        } else if number == 11 {
            Some(GpRegister::a1)
        } else if number == 12 {
            Some(GpRegister::a2)
        } else if number == 13 {
            Some(GpRegister::a3)
        } else if number == 14 {
            Some(GpRegister::a4)
        } else if number == 15 {
            Some(GpRegister::a5)
        } else if number == 16 {
            Some(GpRegister::a6)
        } else if number == 17 {
            Some(GpRegister::a7)
        } else if number == 18 {
            Some(GpRegister::s2)
        } else if number == 19 {
            Some(GpRegister::s3)
        } else if number == 20 {
            Some(GpRegister::s4)
        } else if number == 21 {
            Some(GpRegister::s5)
        } else if number == 22 {
            Some(GpRegister::s6)
        } else if number == 23 {
            Some(GpRegister::s7)
        } else if number == 24 {
            Some(GpRegister::s8)
        } else if number == 25 {
            Some(GpRegister::s9)
        } else if number == 26 {
            Some(GpRegister::s10)
        } else if number == 27 {
            Some(GpRegister::s11)
        } else if number == 28 {
            Some(GpRegister::t3)
        } else if number == 29 {
            Some(GpRegister::t4)
        } else if number == 30 {
            Some(GpRegister::t5)
        } else if number == 31 {
            Some(GpRegister::t6)
        } else {
            None
        }
    }

    /// The register with the given number, if there is one.
    pub fn from_index(index: usize) -> (register: Option<Self>)
        ensures
            register == Self::with_number(index as int),
            register is Some <==> index < 32,
            register matches Some(r) ==> r.number() == index,
    {
        match index {
            0 => Some(GpRegister::zero),
            1 => Some(GpRegister::ra),
            2 => Some(GpRegister::sp),
            3 => Some(GpRegister::gp),
            4 => Some(GpRegister::tp),
            5 => Some(GpRegister::t0),
            6 => Some(GpRegister::t1),
            7 => Some(GpRegister::t2),
            8 => Some(GpRegister::s0),
            9 => Some(GpRegister::s1),
            10 => Some(GpRegister::a0),
            11 => Some(GpRegister::a1),
            12 => Some(GpRegister::a2),
            13 => Some(GpRegister::a3),
            14 => Some(GpRegister::a4),
            15 => Some(GpRegister::a5),
            16 => Some(GpRegister::a6),
            17 => Some(GpRegister::a7),
            18 => Some(GpRegister::s2),
            19 => Some(GpRegister::s3),
            20 => Some(GpRegister::s4),
            21 => Some(GpRegister::s5),
            22 => Some(GpRegister::s6),
            23 => Some(GpRegister::s7),
            24 => Some(GpRegister::s8),
            25 => Some(GpRegister::s9),
            26 => Some(GpRegister::s10),
            27 => Some(GpRegister::s11),
            28 => Some(GpRegister::t3),
            29 => Some(GpRegister::t4),
            30 => Some(GpRegister::t5),
            31 => Some(GpRegister::t6),
            _ => None,
        }
    }

    pub fn index(self) -> (index: usize)
        ensures
            index == self.number(),
            index < 32,
    {
        match self {
            GpRegister::zero => 0,
            GpRegister::ra => 1,
            GpRegister::sp => 2,
            GpRegister::gp => 3,
            GpRegister::tp => 4,
            GpRegister::t0 => 5,
            GpRegister::t1 => 6,
            GpRegister::t2 => 7,
            GpRegister::s0 => 8,
            GpRegister::s1 => 9,
            GpRegister::a0 => 10,
            GpRegister::a1 => 11,
            GpRegister::a2 => 12,
            GpRegister::a3 => 13,
            GpRegister::a4 => 14,
            GpRegister::a5 => 15,
            GpRegister::a6 => 16,
            GpRegister::a7 => 17,
            GpRegister::s2 => 18,
            GpRegister::s3 => 19,
            GpRegister::s4 => 20,
            GpRegister::s5 => 21,
            GpRegister::s6 => 22,
            GpRegister::s7 => 23,
            GpRegister::s8 => 24,
            GpRegister::s9 => 25,
            GpRegister::s10 => 26,
            GpRegister::s11 => 27,
            GpRegister::t3 => 28,
            GpRegister::t4 => 29,
            GpRegister::t5 => 30,
            GpRegister::t6 => 31,
        }
    }
}

/// Values of the general-purpose registers, indexed by register number.
#[derive(Debug, Clone, Copy)]
pub struct GpRegisters(pub [u64; 32]);

/// Values of the floating-point registers, indexed by register number.
#[derive(Debug, Clone, Copy)]
pub struct FpRegisters(pub [u64; 32]);

/// Registers and control and status registers of one hart: all that is saved
/// when the hart traps and restored when it resumes.
#[derive(Debug, Clone, Copy)]
pub struct HartState {
    pub gprs: GpRegisters,
    pub fprs: FpRegisters,
    pub id: usize,
    pub fcsr: u64,
    pub mepc: u64,
    pub mstatus: u64,
    pub mcause: u64,
    pub mideleg: u64,
    pub medeleg: u64,
    pub mie: u64,
    pub mip: u64,
    pub mtinst: u64,
    pub mtval: u64,
    pub mtval2: u64,
    pub sstatus: u64,
    pub sscratch: u64,
    pub sepc: u64,
    pub scounteren: u64,
    pub hstatus: u64,
    pub hedeleg: u64,
    pub hideleg: u64,
    pub hie: u64,
    pub hip: u64,
    pub hvip: u64,
    pub hgatp: u64,
    pub htimedelta: u64,
    pub htval: u64,
    pub htinst: u64,
    pub vsstatus: u64,
    pub vsie: u64,
    pub vsip: u64,
    pub vstvec: u64,
    pub vsscratch: u64,
    pub vsepc: u64,
    pub vscause: u64,
    pub vstval: u64,
    pub vsatp: u64,
}

impl HartState {
    /// Value of a general-purpose register.
    pub open spec fn spec_gpr(self, register: GpRegister) -> u64 {
        self.gprs.0@[register.number()]
    }

    /// Whether the two states agree on every control and status register,
    /// but for those that the flags leave out: `mepc`, `hgatp`, and the four
    /// delegation registers `mideleg`, `medeleg`, `hideleg` and `hedeleg`.
    pub open spec fn same_csrs_except(
        self,
        other: HartState,
        except_mepc: bool,
        except_hgatp: bool,
        except_delegation: bool,
    ) -> bool {
        &&& self.fcsr == other.fcsr
        &&& (except_mepc || self.mepc == other.mepc)
        &&& self.mstatus == other.mstatus
        &&& self.mcause == other.mcause
        &&& (except_delegation || self.mideleg == other.mideleg)
        &&& (except_delegation || self.medeleg == other.medeleg)
        &&& self.mie == other.mie
        &&& self.mip == other.mip
        &&& self.mtinst == other.mtinst
        &&& self.mtval == other.mtval
        &&& self.mtval2 == other.mtval2
        &&& self.sstatus == other.sstatus
        &&& self.sscratch == other.sscratch
        &&& self.sepc == other.sepc
        &&& self.scounteren == other.scounteren
        &&& self.hstatus == other.hstatus
        &&& (except_delegation || self.hedeleg == other.hedeleg)
        &&& (except_delegation || self.hideleg == other.hideleg)
        &&& self.hie == other.hie
        &&& self.hip == other.hip
        &&& self.hvip == other.hvip
        &&& (except_hgatp || self.hgatp == other.hgatp)
        &&& self.htimedelta == other.htimedelta
        &&& self.htval == other.htval
        &&& self.htinst == other.htinst
        &&& self.vsstatus == other.vsstatus
        &&& self.vsie == other.vsie
        &&& self.vsip == other.vsip
        &&& self.vstvec == other.vstvec
        &&& self.vsscratch == other.vsscratch
        &&& self.vsepc == other.vsepc
        &&& self.vscause == other.vscause
        &&& self.vstval == other.vstval
        &&& self.vsatp == other.vsatp
    }

    /// Whether the two states agree on every control and status register.
    pub open spec fn same_csrs(self, other: HartState) -> bool {
        self.same_csrs_except(other, false, false, false)
    }

    /// Whether every register of both register files holds zero.
    pub open spec fn registers_cleared(self) -> bool {
        &&& forall|i: int| 0 <= i < 32 ==> self.gprs.0@[i] == 0
        &&& forall|i: int| 0 <= i < 32 ==> self.fprs.0@[i] == 0
    }

    /// The state of a hart that has not run yet: everything is zero.
    pub fn empty(id: usize) -> (state: Self)
        ensures
            state.id == id,
            state.registers_cleared(),
            state.csrs_cleared(),
    {
        HartState {
            gprs: GpRegisters([0;32]),
            fprs: FpRegisters([0;32]),
            id,
            fcsr: 0,
            mepc: 0,
            mstatus: 0,
            mcause: 0,
            mideleg: 0,
            medeleg: 0,
            mie: 0,
            mip: 0,
            mtinst: 0,
            mtval: 0,
            mtval2: 0,
            sstatus: 0,
            sscratch: 0,
            sepc: 0,
            scounteren: 0,
            hstatus: 0,
            hedeleg: 0,
            hideleg: 0,
            hie: 0,
            hip: 0,
            hvip: 0,
            hgatp: 0,
            htimedelta: 0,
            htval: 0,
            htinst: 0,
            vsstatus: 0,
            vsie: 0,
            vsip: 0,
            vstvec: 0,
            vsscratch: 0,
            vsepc: 0,
            vscause: 0,
            vstval: 0,
            vsatp: 0,
        }
    }

    /// Whether every control and status register holds zero.
    pub open spec fn csrs_cleared(self) -> bool {
        &&& self.fcsr == 0
        &&& self.mepc == 0
        &&& self.mstatus == 0
        &&& self.mcause == 0
        &&& self.mideleg == 0
        &&& self.medeleg == 0
        &&& self.mie == 0
        &&& self.mip == 0
        &&& self.mtinst == 0
        &&& self.mtval == 0
        &&& self.mtval2 == 0
        &&& self.sstatus == 0
        &&& self.sscratch == 0
        &&& self.sepc == 0
        &&& self.scounteren == 0
        &&& self.hstatus == 0
        &&& self.hedeleg == 0
        &&& self.hideleg == 0
        &&& self.hie == 0
        &&& self.hip == 0
        &&& self.hvip == 0
        &&& self.hgatp == 0
        &&& self.htimedelta == 0
        &&& self.htval == 0
        &&& self.htinst == 0
        &&& self.vsstatus == 0
        &&& self.vsie == 0
        &&& self.vsip == 0
        &&& self.vstvec == 0
        &&& self.vsscratch == 0
        &&& self.vsepc == 0
        &&& self.vscause == 0
        &&& self.vstval == 0
        &&& self.vsatp == 0
    }

    /// A state with the control and status registers of an existing one and
    /// cleared register files.
    pub fn from_existing(id: usize, existing: &HartState) -> (state: Self)
        ensures
            state.id == id,
            state.registers_cleared(),
            state.same_csrs(*existing),
    {
        HartState {
            gprs: GpRegisters([0;32]),
            fprs: FpRegisters([0;32]),
            id,
            fcsr: existing.fcsr,
            mepc: existing.mepc,
            mstatus: existing.mstatus,
            mcause: existing.mcause,
            mideleg: existing.mideleg,
            medeleg: existing.medeleg,
            mie: existing.mie,
            mip: existing.mip,
            mtinst: existing.mtinst,
            mtval: existing.mtval,
            mtval2: existing.mtval2,
            sstatus: existing.sstatus,
            sscratch: existing.sscratch,
            sepc: existing.sepc,
            scounteren: existing.scounteren,
            hstatus: existing.hstatus,
            hedeleg: existing.hedeleg,
            hideleg: existing.hideleg,
            hie: existing.hie,
            hip: existing.hip,
            hvip: existing.hvip,
            hgatp: existing.hgatp,
            htimedelta: existing.htimedelta,
            htval: existing.htval,
            htinst: existing.htinst,
            vsstatus: existing.vsstatus,
            vsie: existing.vsie,
            vsip: existing.vsip,
            vstvec: existing.vstvec,
            vsscratch: existing.vsscratch,
            vsepc: existing.vsepc,
            vscause: existing.vscause,
            vstval: existing.vstval,
            vsatp: existing.vsatp,
        }
    }

    pub fn gpr(&self, register: GpRegister) -> (value: u64)
        ensures
            value == self.spec_gpr(register),
    {
        self.gprs.0[register.index()]
    }

    pub fn set_gpr(&mut self, register: GpRegister, value: u64)
        ensures
            final(self).gprs.0@ == old(self).gprs.0@.update(register.number(), value),
            final(self).fprs == old(self).fprs,
            final(self).id == old(self).id,
            final(self).same_csrs(*old(self)),
    {
        self.gprs.0[register.index()] = value;
    }
}

} // verus!
