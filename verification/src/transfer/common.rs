//! What every instruction checks of its operands, and the shape of results.
use crate::ast::Operand;
use crate::machine::env::VerifierEnv;
use crate::machine::error::VerificationError;
use crate::machine::reg::Reg;
use crate::machine::reg_types::RegType;
use crate::machine::state::{Machine, State};
use vstd::prelude::*;

verus! {

/// A list of states is the one state `m`, or empty if there is none.
pub open spec fn yields(r: Seq<State>, m: Option<Machine>) -> bool {
    match m {
        Some(s) => r.len() == 1 && r[0]@ == s && r[0].wf(),
        None => r.len() == 0,
    }
}

/// A list of one state.
pub fn one(state: State) -> (r: Vec<State>)
    requires
        state.wf(),
    ensures
        yields(r@, Some(state@)),
{
    let mut v: Vec<State> = Vec::new();
    v.push(state);
    v
}

pub open spec fn readable(s: Machine, reg: Reg) -> bool {
    !(s.ty(reg) is NotInit)
}

pub open spec fn unreadable(s: Machine, reg: Reg) -> VerificationError {
    VerificationError::RegisterNotReadable { pc: s.pc, reg }
}

/// Checks that a register was initialized.
pub fn check_reg_readable(env: &mut VerifierEnv, state: &State, reg: Reg) -> (r: bool)
    requires
        state.wf(),
    ensures
        final(env).cfg == old(env).cfg,
        r == readable(state@, reg),
        final(env)@ == old(env)@.fail_if(!r, unreadable(state@, reg)),
{
    if matches!(state.types.get(reg), RegType::NotInit) {
        env.fail(VerificationError::RegisterNotReadable { pc: state.pc, reg });
        false
    } else {
        true
    }
}

/// The registers an operand reads were initialized.
pub open spec fn operand_readable(s: Machine, src: Operand) -> bool {
    src matches Operand::Reg(r) ==> readable(s, r)
}

/// Checks that the register of an operand was initialized.
pub fn check_operand_readable(env: &mut VerifierEnv, state: &State, src: Operand) -> (r: bool)
    requires
        state.wf(),
    ensures
        final(env).cfg == old(env).cfg,
        r == operand_readable(state@, src),
        final(env)@ == match src {
            Operand::Reg(x) => old(env)@.fail_if(!r, unreadable(state@, x)),
            Operand::Imm(_) => old(env)@,
        },
{
    match src {
        Operand::Reg(x) => check_reg_readable(env, state, x),
        Operand::Imm(_) => true,
    }
}

pub open spec fn unwritable(s: Machine, reg: Reg) -> VerificationError {
    VerificationError::RegisterNotWritable { pc: s.pc, reg }
}

/// Checks that a register may be written: all but the frame pointer may.
pub fn check_reg_writable(env: &mut VerifierEnv, state: &State, reg: Reg) -> (r: bool)
    ensures
        final(env).cfg == old(env).cfg,
        r == (reg != Reg::R10),
        final(env)@ == old(env)@.fail_if(!r, unwritable(state@, reg)),
{
    if reg == Reg::R10 {
        env.fail(VerificationError::RegisterNotWritable { pc: state.pc, reg });
        false
    } else {
        true
    }
}

} // verus!
