//! The general registers of each backend, in the order in which their
//! values are handed out.

use crate::arch::Backend;
use vstd::prelude::*;

verus! {

/// The general registers of the ARM backend.
#[derive(Clone, Copy, Debug, PartialEq, Eq, Structural)]
pub enum ArmRegister {
    R0,
    R1,
    R2,
    R3,
    R4,
    R5,
    R6,
    R7,
    R8,
    /// The static base register, R9.
    Sb,
    /// The stack limit register, R10.
    Sl,
    /// The frame pointer, R11.
    Fp,
    /// The intra-procedure-call register, R12.
    Ip,
    /// The stack pointer.
    Sp,
    /// The link register.
    Lr,
    /// The program counter.
    Pc,
}

/// The general registers of the MIPS backend.
#[derive(Clone, Copy, Debug, PartialEq, Eq, Structural)]
pub enum MipsRegister {
    Pc,
    Zero,
    At,
    V0,
    V1,
    A0,
    A1,
    A2,
    A3,
    T0,
    T1,
    T2,
    T3,
    T4,
    T5,
    T6,
    T7,
    S0,
    S1,
    S2,
    S3,
    S4,
    S5,
    S6,
    S7,
    T8,
    T9,
    K0,
    K1,
    Gp,
    Sp,
    Fp,
    Ra,
}

/// A register of one of the backends.
#[derive(Clone, Copy, Debug, PartialEq, Eq, Structural)]
pub enum Register {
    Arm(ArmRegister),
    Mips(MipsRegister),
}

/// The general registers of the ARM backend in their fixed order: R0 to R8,
/// static base, stack limit, frame pointer, intra-procedure-call register,
/// stack pointer, link register, program counter.
pub open spec fn arm_order() -> Seq<ArmRegister> {
    seq![
        ArmRegister::R0,
        ArmRegister::R1,
        ArmRegister::R2,
        ArmRegister::R3,
        ArmRegister::R4,
        ArmRegister::R5,
        ArmRegister::R6,
        ArmRegister::R7,
        ArmRegister::R8,
        ArmRegister::Sb,
        ArmRegister::Sl,
        ArmRegister::Fp,
        ArmRegister::Ip,
        ArmRegister::Sp,
        ArmRegister::Lr,
        ArmRegister::Pc,
    ]
}

/// The general registers of the MIPS backend in their fixed order: program
/// counter, zero, assembler temporary, the two value registers, the four
/// argument registers, T0 to T7, S0 to S7, T8 and T9, the two kernel
/// registers, global pointer, stack pointer, frame pointer, return address.
pub open spec fn mips_order() -> Seq<MipsRegister> {
    seq![
        MipsRegister::Pc,
        MipsRegister::Zero,
        MipsRegister::At,
        MipsRegister::V0,
        MipsRegister::V1,
        MipsRegister::A0,
        MipsRegister::A1,
        MipsRegister::A2,
        MipsRegister::A3,
        MipsRegister::T0,
        MipsRegister::T1,
        MipsRegister::T2,
        MipsRegister::T3,
        MipsRegister::T4,
        MipsRegister::T5,
        MipsRegister::T6,
        MipsRegister::T7,
        MipsRegister::S0,
        MipsRegister::S1,
        MipsRegister::S2,
        MipsRegister::S3,
        MipsRegister::S4,
        MipsRegister::S5,
        MipsRegister::S6,
        MipsRegister::S7,
        MipsRegister::T8,
        MipsRegister::T9,
        MipsRegister::K0,
        MipsRegister::K1,
        MipsRegister::Gp,
        MipsRegister::Sp,
        MipsRegister::Fp,
        MipsRegister::Ra,
    ]
}

/// The general registers of a backend in their fixed order.
pub open spec fn general_order(backend: Backend) -> Seq<Register> {
    match backend {
        Backend::Arm => arm_order().map_values(|r: ArmRegister| Register::Arm(r)),
        Backend::Mips => mips_order().map_values(|r: MipsRegister| Register::Mips(r)),
    }
}

/// The stack pointer of a backend.
pub open spec fn stack_pointer_of(backend: Backend) -> Register {
    match backend {
        Backend::Arm => Register::Arm(ArmRegister::Sp),
        Backend::Mips => Register::Mips(MipsRegister::Sp),
    }
}

/// The general registers of the ARM backend in their fixed order.
pub fn arm_registers() -> (r: Vec<ArmRegister>)
    ensures
        r@ == arm_order(),
        r@.len() == 16,
{
    let r = vec![
        ArmRegister::R0,
        ArmRegister::R1,
        ArmRegister::R2,
        ArmRegister::R3,
        ArmRegister::R4,
        ArmRegister::R5,
        ArmRegister::R6,
        ArmRegister::R7,
        ArmRegister::R8,
        ArmRegister::Sb,
        ArmRegister::Sl,
        ArmRegister::Fp,
        ArmRegister::Ip,
        ArmRegister::Sp,
        ArmRegister::Lr,
        ArmRegister::Pc,
    ];
    assert(r@ =~= arm_order());
    r
}

/// The general registers of the MIPS backend in their fixed order.
pub fn mips_registers() -> (r: Vec<MipsRegister>)
    ensures
        r@ == mips_order(),
        r@.len() == 33,
{
    let r = vec![
        MipsRegister::Pc,
        MipsRegister::Zero,
        MipsRegister::At,
        MipsRegister::V0,
        MipsRegister::V1,
        MipsRegister::A0,
        MipsRegister::A1,
        MipsRegister::A2,
        MipsRegister::A3,
        MipsRegister::T0,
        MipsRegister::T1,
        MipsRegister::T2,
        MipsRegister::T3,
        MipsRegister::T4,
        MipsRegister::T5,
        MipsRegister::T6,
        MipsRegister::T7,
        MipsRegister::S0,
        MipsRegister::S1,
        MipsRegister::S2,
        MipsRegister::S3,
        MipsRegister::S4,
        MipsRegister::S5,
        MipsRegister::S6,
        MipsRegister::S7,
        MipsRegister::T8,
        MipsRegister::T9,
        MipsRegister::K0,
        MipsRegister::K1,
        MipsRegister::Gp,
        MipsRegister::Sp,
        MipsRegister::Fp,
        MipsRegister::Ra,
    ];
    assert(r@ =~= mips_order());
    r
}

impl Backend {
    /// The general registers of the backend in the order in which their
    /// values are handed out: sixteen for ARM, thirty-three for MIPS.
    pub fn general_registers(self) -> (r: Vec<Register>)
        ensures
            r@ == general_order(self),
            self == Backend::Arm ==> r@.len() == 16,
            self == Backend::Mips ==> r@.len() == 33,
    {
        let mut out: Vec<Register> = Vec::new();
        match self {
            Backend::Arm => {
                let regs = arm_registers();
                let mut i: usize = 0;
                while i < regs.len()
                    invariant
                        i <= regs.len(),
                        regs@ == arm_order(),
                        out@ == arm_order().take(i as int).map_values(
                            |r: ArmRegister| Register::Arm(r),
                        ),
                    decreases regs.len() - i,
                {
                    out.push(Register::Arm(regs[i]));
                    assert(out@ =~= arm_order().take(i + 1).map_values(
                        |r: ArmRegister| Register::Arm(r),
                    ));
                    i += 1;
                }
                assert(arm_order().take(regs.len() as int) =~= arm_order());
            },
            Backend::Mips => {
                let regs = mips_registers();
                let mut i: usize = 0;
                while i < regs.len()
                    invariant
                        i <= regs.len(),
                        regs@ == mips_order(),
                        out@ == mips_order().take(i as int).map_values(
                            |r: MipsRegister| Register::Mips(r),
                        ),
                    decreases regs.len() - i,
                {
                    out.push(Register::Mips(regs[i]));
                    assert(out@ =~= mips_order().take(i + 1).map_values(
                        |r: MipsRegister| Register::Mips(r),
                    ));
                    i += 1;
                }
                assert(mips_order().take(regs.len() as int) =~= mips_order());
            },
        }
        out
    }

    /// The register that holds the stack pointer on the backend.
    pub fn stack_pointer(self) -> (r: Register)
        ensures
            r == stack_pointer_of(self),
    {
        match self {
            Backend::Arm => Register::Arm(ArmRegister::Sp),
            Backend::Mips => Register::Mips(MipsRegister::Sp),
        }
    }
}

/// The stack pointer is among the general registers of its backend: at
/// index thirteen for ARM and thirty for MIPS.
pub proof fn lemma_stack_pointer_listed(backend: Backend)
    ensures
        backend == Backend::Arm ==> general_order(backend)[13] == stack_pointer_of(backend),
        backend == Backend::Mips ==> general_order(backend)[30] == stack_pointer_of(backend),
{
}

} // verus!
