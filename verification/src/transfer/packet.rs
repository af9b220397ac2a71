//! Accesses to packets.
use crate::ast::prog::ProgramKind;
use crate::common::constants;
use crate::machine::env::{EnvConfig, EnvView, VerifierEnv};
use crate::machine::error::VerificationError;
use crate::machine::reg::{Reg, DBM_DIM};
use crate::machine::reg_types::RegType;
use crate::machine::state::{Machine, State};
use crate::num::{divides, same_remainder, trunc_rem, wadd};
use crate::transfer::access::AccessKind;
use vstd::prelude::*;

verus! {

/// Packets start two bytes past an aligned address.
pub const NET_IP_ALIGN: i64 = 2;

/// The first register from index `i` on that points to packet data.
pub open spec fn packet_reg(types: Seq<RegType>, i: int) -> Option<int>
    decreases DBM_DIM - i,
{
    if i >= DBM_DIM {
        None
    } else if types[i] is PtrToPacket {
        Some(i)
    } else {
        packet_reg(types, i + 1)
    }
}

/// The least and the greatest offset into the packet that an access can have,
/// as far as they are known.
pub open spec fn packet_offsets(s: Machine, base: Reg, off: i16) -> (Option<i64>, Option<i64>) {
    if s.ty(base) is PtrToPacket {
        (Some(off as i64), Some(off as i64))
    } else {
        match packet_reg(s.types, 0) {
            Some(i) => {
                let (lo, hi) = s.domain.distance(base, Reg::idx_to_reg(i as usize)->Some_0);
                (
                    if lo != i64::MIN { Some(wadd(lo, off as i64)) } else { None },
                    if hi != i64::MAX { Some(wadd(hi, off as i64)) } else { None },
                )
            },
            None => (None, None),
        }
    }
}

fn get_packet_offset_range(state: &State, base: Reg, insn_off: i16) -> (r: (
    Option<i64>,
    Option<i64>,
))
    requires
        state.wf(),
    ensures
        r == packet_offsets(state@, base, insn_off),
{
    if matches!(state.types.get(base), RegType::PtrToPacket) {
        return (Some(insn_off as i64), Some(insn_off as i64));
    }
    let mut i: usize = 0;
    while i < DBM_DIM
        invariant
            i <= DBM_DIM,
            state.wf(),
            !(state@.ty(base) is PtrToPacket),
            packet_reg(state@.types, 0) == packet_reg(state@.types, i as int),
        decreases DBM_DIM - i,
    {
        if matches!(state.types.regs[i], RegType::PtrToPacket) {
            if let Some(start) = Reg::idx_to_reg(i) {
                let (lo, hi) = state.domain.get_distance_interval(base, start);
                let first: Option<i64> = if lo != i64::MIN {
                    Some(wadd(lo, insn_off as i64))
                } else {
                    None
                };
                let last: Option<i64> = if hi != i64::MAX {
                    Some(wadd(hi, insn_off as i64))
                } else {
                    None
                };
                return (first, last);
            }
        }
        i = i + 1;
    }
    (None, None)
}

/// Whether every offset of an access is aligned in memory.
pub open spec fn packet_aligned(s: Machine, base: Reg, off: i16, size: i64) -> bool {
    size == 1 || match packet_offsets(s, base, off) {
        (Some(lo), Some(hi)) => trunc_rem(lo, size) == trunc_rem(hi, size) && wadd(
            NET_IP_ALIGN,
            lo,
        ) as int % size as int == 0 && wadd(NET_IP_ALIGN, hi) as int % size as int == 0,
        _ => false,
    }
}

/// Whether every offset of an access is aligned in memory.
pub fn check_packet_alignment(state: &State, base: Reg, off: i16, size: i64) -> (r: bool)
    requires
        state.wf(),
        size > 0,
    ensures
        r == packet_aligned(state@, base, off, size),
{
    if size == 1 {
        return true;
    }
    match get_packet_offset_range(state, base, off) {
        (Some(lo), Some(hi)) => same_remainder(lo, hi, size) && divides(
            size,
            wadd(NET_IP_ALIGN, lo),
        ) && divides(size, wadd(NET_IP_ALIGN, hi)),
        _ => false,
    }
}

pub open spec fn spec_prog_kind_support_direct_packet_write(k: ProgramKind) -> bool {
    !(k is LwtIn || k is LwtOut)
}

/// Whether programs of a type may write to the packet.
#[verifier::when_used_as_spec(spec_prog_kind_support_direct_packet_write)]
pub fn prog_kind_support_direct_packet_write(prog_kind: ProgramKind) -> (r: bool)
    ensures
        r == spec_prog_kind_support_direct_packet_write(prog_kind),
{
    match prog_kind {
        ProgramKind::LwtIn | ProgramKind::LwtOut => false,
        _ => true,
    }
}

/// What an access to packet data reports.
pub open spec fn packet_checked(
    cfg: EnvConfig,
    v: EnvView,
    s: Machine,
    base: Reg,
    off: i16,
    size: i64,
    pc: usize,
    kind: AccessKind,
) -> EnvView {
    if kind is Write && !prog_kind_support_direct_packet_write(cfg.ctx.prog_kind) {
        v.fail(VerificationError::IllegalPacketStore { pc, off, size })
    } else {
        let (start_ok, end_ok) = s.domain.region_access(
            base,
            off as i64,
            size,
            Reg::AnchorData,
            Reg::AnchorDataEnd,
        );
        let v = v.fail_if(
            !start_ok || !end_ok,
            if kind is Read {
                VerificationError::UnsafePacketLoad { pc, off, size }
            } else {
                VerificationError::UnsafePacketStore { pc, off, size }
            },
        );
        v.fail_if(
            cfg.ctx.has_flag(constants::F_LOAD_WITH_STRICT_ALIGNMENT) && !(kind is HelperBuffer)
                && !packet_aligned(s, base, off, size),
            VerificationError::MisalignedPacketAccess { pc, off, size },
        )
    }
}

/// Checks an access to packet data.
pub fn check_packet_access(
    env: &mut VerifierEnv,
    state: &State,
    base: Reg,
    off: i16,
    size: i64,
    pc: usize,
    kind: AccessKind,
)
    requires
        state.wf(),
        size > 0,
    ensures
        final(env).cfg == old(env).cfg,
        final(env)@ == packet_checked(old(env).cfg, old(env)@, state@, base, off, size, pc, kind),
{
    if matches!(kind, AccessKind::Write) && !prog_kind_support_direct_packet_write(
        env.cfg.ctx.prog_kind,
    ) {
        env.fail(VerificationError::IllegalPacketStore { pc, off, size });
        return;
    }
    let (start_ok, end_ok) = state.domain.verify_packet_bounds(base, off as i64, size);
    if !start_ok || !end_ok {
        if matches!(kind, AccessKind::Read) {
            env.fail(VerificationError::UnsafePacketLoad { pc, off, size });
        } else {
            env.fail(VerificationError::UnsafePacketStore { pc, off, size });
        }
    }
    if env.cfg.ctx.has_flag(constants::F_LOAD_WITH_STRICT_ALIGNMENT) && !matches!(
        kind,
        AccessKind::HelperBuffer
    ) && !check_packet_alignment(state, base, off, size) {
        env.fail(VerificationError::MisalignedPacketAccess { pc, off, size });
    }
}

/// What an access to packet metadata reports.
pub open spec fn packet_meta_checked(
    v: EnvView,
    s: Machine,
    base: Reg,
    off: i16,
    size: i64,
    pc: usize,
) -> EnvView {
    let (start_ok, end_ok) = s.domain.region_access(
        base,
        off as i64,
        size,
        Reg::AnchorDataMeta,
        Reg::AnchorData,
    );
    v.fail_if(!start_ok || !end_ok, VerificationError::UnsafePacketLoad { pc, off, size })
}

/// Checks an access to packet metadata.
pub fn check_packet_meta_access(
    env: &mut VerifierEnv,
    state: &State,
    base: Reg,
    off: i16,
    size: i64,
    pc: usize,
)
    requires
        state.wf(),
    ensures
        final(env).cfg == old(env).cfg,
        final(env)@ == packet_meta_checked(old(env)@, state@, base, off, size, pc),
{
    let (start_ok, end_ok) = state.domain.verify_packet_meta_bounds(base, off as i64, size);
    if !start_ok || !end_ok {
        env.fail(VerificationError::UnsafePacketLoad { pc, off, size });
    }
}

} // verus!
