use vstd::prelude::*;

use crate::cpu::alu_regs;
use crate::cpu::byte_read;
use crate::cpu::byte_written;
use crate::cpu::fits;
use crate::cpu::sat_sub;
use crate::cpu::step;
use crate::cpu::store_word;
use crate::cpu::tick_timers;
use crate::cpu::transition;
use crate::cpu::word_at;
use crate::cpu::xorshift;
use crate::cpu::CpuError;
use crate::cpu::CpuView;
use crate::cpu::TickResult;
use crate::decode::addr_of;
use crate::decode::decode_spec;
use crate::decode::low_byte;
use crate::decode::n0;
use crate::decode::n1;
use crate::decode::n3;
use crate::decode::AluOp;
use crate::decode::Instruction;

verus! {

/// A byte written to an address in range reads back unchanged.
pub proof fn lemma_write_then_read(s: CpuView, a: u16, b: u8)
    requires
        s.wf(),
        fits(a as int, 1),
    ensures
        byte_read(byte_written(s, a, b), a) == Ok::<u8, CpuError>(b),
{
}

/// `8xy4` leaves in VF 1 exactly when the true sum of Vx and Vy exceeds 255,
/// and in Vx the sum modulo 256 unless Vx is VF itself.
pub proof fn lemma_add_carry(v: Seq<u8>, x: u8, y: u8)
    requires
        v.len() == 16,
        x < 16,
        y < 16,
    ensures
        alu_regs(v, x, y, AluOp::Add)[15] == (if v[x as int] + v[y as int] > 255 {
            1u8
        } else {
            0u8
        }),
        x != 15 ==> alu_regs(v, x, y, AluOp::Add)[x as int] == (v[x as int] + v[y as int]) % 256,
{
}

/// Decrementing a timer by `p` and then by `q`, never below zero, is
/// decrementing it by `p + q`.
proof fn lemma_sat_sub_twice(t: u8, p: int, q: int)
    requires
        p >= 0,
        q >= 0,
    ensures
        sat_sub(sat_sub(t, p), q) == sat_sub(t, p + q),
{
}

/// Advancing the timers by `a` and then by `b` milliseconds is advancing
/// them by `a + b`: the leftover carries what a period has not used.
pub proof fn lemma_timers_additive(s: CpuView, a: u32, b: u32)
    requires
        a + b <= u32::MAX,
    ensures
        tick_timers(tick_timers(s, a), b) == tick_timers(s, (a + b) as u32),
{
    let c = s.carry as int;
    let t1 = a + c;
    let t2 = b + t1 % 16;
    assert(t1 / 16 + t2 / 16 == (a + b + c) / 16 && t2 % 16 == (a + b + c) % 16) by {
        assert(t1 == 16 * (t1 / 16) + t1 % 16);
        assert(0 <= t1 % 16 < 16);
        assert(t2 == 16 * (t2 / 16) + t2 % 16);
        assert(0 <= t2 % 16 < 16);
        assert(a + b + c == 16 * (t1 / 16 + t2 / 16) + t2 % 16);
        vstd::arithmetic::div_mod::lemma_fundamental_div_mod_converse(
            a + b + c,
            16,
            t1 / 16 + t2 / 16,
            t2 % 16,
        );
    }
    lemma_sat_sub_twice(s.dt, t1 / 16, t2 / 16);
    lemma_sat_sub_twice(s.st, t1 / 16, t2 / 16);
}

/// Five ticks of 4 ms decrement the timers exactly as one tick of 20 ms.
pub proof fn lemma_five_short_ticks(s: CpuView)
    ensures
        tick_timers(tick_timers(tick_timers(tick_timers(tick_timers(s, 4), 4), 4), 4), 4)
            == tick_timers(s, 20),
{
    lemma_timers_additive(s, 4, 4);
    lemma_timers_additive(s, 8, 4);
    lemma_timers_additive(s, 12, 4);
    lemma_timers_additive(s, 16, 4);
}

/// Whether the tick from `s` would execute `Fx15` or `Fx18`, the two
/// instructions that set a timer.
pub open spec fn sets_timer(s: CpuView) -> bool {
    &&& s.waiting is None
    &&& fits(s.pc as int, 2)
    &&& match decode_spec(word_at(s.mem, s.pc as int)) {
        Ok(Instruction::SetDelay { .. }) | Ok(Instruction::SetSound { .. }) => true,
        _ => false,
    }
}

/// The two timers and the leftover milliseconds.
pub open spec fn timers(s: CpuView) -> (u8, u8, u32) {
    (s.dt, s.st, s.carry)
}

/// A tick that sets no timer leaves the timers and the leftover as the
/// timer update alone leaves them.
pub proof fn lemma_step_timers(s: CpuView, ms: u32, keys: u16)
    requires
        !sets_timer(s),
    ensures
        timers(step(s, ms, keys).0) == timers(tick_timers(s, ms)),
{
}

/// Five ticks of 4 ms, none of which sets a timer, leave the timers and the
/// leftover exactly as a single timer update of 20 ms does.
pub proof fn lemma_five_short_clock_ticks(
    s0: CpuView,
    s1: CpuView,
    s2: CpuView,
    s3: CpuView,
    s4: CpuView,
    s5: CpuView,
    keys: Seq<u16>,
)
    requires
        keys.len() == 5,
        s1 == step(s0, 4, keys[0]).0,
        s2 == step(s1, 4, keys[1]).0,
        s3 == step(s2, 4, keys[2]).0,
        s4 == step(s3, 4, keys[3]).0,
        s5 == step(s4, 4, keys[4]).0,
        !sets_timer(s0),
        !sets_timer(s1),
        !sets_timer(s2),
        !sets_timer(s3),
        !sets_timer(s4),
    ensures
        timers(s5) == timers(tick_timers(s0, 20)),
{
    lemma_step_timers(s0, 4, keys[0]);
    lemma_step_timers(s1, 4, keys[1]);
    lemma_step_timers(s2, 4, keys[2]);
    lemma_step_timers(s3, 4, keys[3]);
    lemma_step_timers(s4, 4, keys[4]);
    lemma_timers_additive(s0, 4, 4);
    lemma_timers_additive(s0, 8, 4);
    lemma_timers_additive(s0, 12, 4);
    lemma_timers_additive(s0, 16, 4);
}

/// Storing V0..Vx at I with `Fx55` and loading them back from I with
/// `Fx65` restores every register.
pub proof fn lemma_store_load_round_trip(s: CpuView, x: u8, keys: u16)
    requires
        s.wf(),
        x < 16,
        fits(s.i as int, x + 1),
    ensures
        transition(s, Instruction::StoreRegs { x }, keys) is Ok,
        transition(transition(s, Instruction::StoreRegs { x }, keys)->Ok_0.0, Instruction::LoadRegs { x }, keys) is Ok,
        transition(
            transition(s, Instruction::StoreRegs { x }, keys)->Ok_0.0,
            Instruction::LoadRegs { x },
            keys,
        )->Ok_0.0.v == s.v,
{
    let s1 = transition(s, Instruction::StoreRegs { x }, keys)->Ok_0.0;
    let s2 = transition(s1, Instruction::LoadRegs { x }, keys)->Ok_0.0;
    assert(s1.mem.subrange(s.i as int, s.i + x + 1) =~= s.v.subrange(0, x + 1));
    assert(s2.v =~= s.v);
}

/// A fetched word that matches no instruction is reported as
/// `UnknownOpcode`, and leaves registers, memory and program counter as
/// they were.
pub proof fn lemma_unknown_opcode(s: CpuView, ms: u32, keys: u16)
    requires
        s.wf(),
        s.waiting is None,
        fits(s.pc as int, 2),
        decode_spec(word_at(s.mem, s.pc as int)) is Err,
    ensures
        step(s, ms, keys).1 == Err::<TickResult, CpuError>(
            CpuError::UnknownOpcode { opcode: word_at(s.mem, s.pc as int) },
        ),
        step(s, ms, keys).0.mem == s.mem,
        step(s, ms, keys).0.v == s.v,
        step(s, ms, keys).0.pc == s.pc,
        step(s, ms, keys).0.sp == s.sp,
        step(s, ms, keys).0.i == s.i,
{
}

/// `Cxkk` draws the next byte of the random source, which is a function of
/// its state alone, and stores it masked with `kk`: two machines whose
/// sources are in the same state store the same value and move their
/// sources to the same state.
pub proof fn lemma_random_deterministic(s: CpuView, t: CpuView, x: u8, kk: u8, keys: u16)
    requires
        s.wf(),
        t.wf(),
        x < 16,
        s.prng == t.prng,
    ensures
        transition(s, Instruction::Random { x, kk }, keys)->Ok_0.0.v[x as int]
            == transition(t, Instruction::Random { x, kk }, keys)->Ok_0.0.v[x as int],
        transition(s, Instruction::Random { x, kk }, keys)->Ok_0.0.v[x as int] == (xorshift(s.prng) as u8) & kk,
        transition(s, Instruction::Random { x, kk }, keys)->Ok_0.0.prng
            == transition(t, Instruction::Random { x, kk }, keys)->Ok_0.0.prng,
{
}

/// A word stored big-endian reads back unchanged.
pub proof fn lemma_word_round_trip(mem: Seq<u8>, a: int, w: u16)
    requires
        0 <= a,
        a + 2 <= mem.len(),
    ensures
        word_at(store_word(mem, a, w), a) == w,
{
    let hi = (w >> 8u16) as u8;
    let lo = w as u8;
    assert(((hi as u16) * 256 + lo as u16) == w) by (bit_vector)
        requires hi == (w >> 8u16) as u8, lo == w as u8;
}

/// `2nnn` followed, at `nnn`, by `00EE` brings the program counter back to
/// the instruction after the call and the stack pointer back to where it
/// was, when the stack has room and the pushed word does not overwrite the
/// return instruction.
pub proof fn lemma_call_then_return(
    s: CpuView,
    nnn: u16,
    ms1: u32,
    keys1: u16,
    ms2: u32,
    keys2: u16,
)
    requires
        s.wf(),
        s.waiting is None,
        nnn < 0x1000,
        fits(s.pc as int, 2),
        word_at(s.mem, s.pc as int) == 0x2000 + nnn,
        s.sp >= 2,
        fits(nnn as int, 2),
        word_at(s.mem, nnn as int) == 0x00ee,
        nnn + 2 <= s.sp - 2 || nnn >= s.sp,
    ensures
        step(s, ms1, keys1).1 == Ok::<TickResult, CpuError>(TickResult::Executed),
        step(step(s, ms1, keys1).0, ms2, keys2).1 == Ok::<TickResult, CpuError>(
            TickResult::Executed,
        ),
        step(step(s, ms1, keys1).0, ms2, keys2).0.pc == s.pc + 2,
        step(step(s, ms1, keys1).0, ms2, keys2).0.sp == s.sp,
        step(step(s, ms1, keys1).0, ms2, keys2).0.v == s.v,
        step(step(s, ms1, keys1).0, ms2, keys2).0.i == s.i,
{
    let w = (0x2000 + nnn) as u16;
    assert(n0(w) == 2 && addr_of(w) == nnn && w != 0x00e0 && w != 0x00ee) by (bit_vector)
        requires w == 0x2000 + nnn, nnn < 0x1000u16;
    let t = tick_timers(s, ms1);
    let s1 = step(s, ms1, keys1).0;
    assert(decode_spec(w) == Ok::<Instruction, CpuError>(Instruction::Call { addr: nnn }));
    assert(s1.mem == store_word(t.mem, s.sp - 2, (s.pc + 2) as u16));
    assert(word_at(s1.mem, nnn as int) == 0x00ee);
    lemma_word_round_trip(t.mem, s.sp - 2, (s.pc + 2) as u16);
}

/// `6xkk` sets Vx to `kk`; a following `3xkk` then skips the instruction
/// after it, moving the program counter on by four instead of two.
pub proof fn lemma_load_then_skip(
    s: CpuView,
    x: u8,
    kk: u8,
    ms1: u32,
    keys1: u16,
    ms2: u32,
    keys2: u16,
)
    requires
        s.wf(),
        s.waiting is None,
        x < 16,
        fits(s.pc as int, 4),
        word_at(s.mem, s.pc as int) == 0x6000 + x * 256 + kk,
        word_at(s.mem, s.pc + 2) == 0x3000 + x * 256 + kk,
    ensures
        step(s, ms1, keys1).0.v[x as int] == kk,
        step(s, ms1, keys1).1 == Ok::<TickResult, CpuError>(TickResult::Executed),
        step(s, ms1, keys1).0.v == s.v.update(x as int, kk),
        step(s, ms1, keys1).0.pc == s.pc + 2,
        step(s, ms1, keys1).0.mem == s.mem,
        step(s, ms1, keys1).0.i == s.i,
        step(s, ms1, keys1).0.sp == s.sp,
        step(step(s, ms1, keys1).0, ms2, keys2).1 == Ok::<TickResult, CpuError>(
            TickResult::Executed,
        ),
        step(step(s, ms1, keys1).0, ms2, keys2).0.pc == s.pc + 6,
{
    let w1 = (0x6000 + x * 256 + kk) as u16;
    let w2 = (0x3000 + x * 256 + kk) as u16;
    assert(n0(w1) == 6 && n1(w1) == x && low_byte(w1) == kk && w1 != 0x00e0 && w1 != 0x00ee)
        by (bit_vector)
        requires w1 == 0x6000u16 + (x as u16) * 256u16 + (kk as u16), x < 16u8;
    assert(n0(w2) == 3 && n1(w2) == x && low_byte(w2) == kk && w2 != 0x00e0 && w2 != 0x00ee)
        by (bit_vector)
        requires w2 == 0x3000u16 + (x as u16) * 256u16 + (kk as u16), x < 16u8;
    assert(decode_spec(w1) == Ok::<Instruction, CpuError>(Instruction::LoadImm { x, kk }));
    assert(decode_spec(w2) == Ok::<Instruction, CpuError>(Instruction::SkipEqImm { x, kk }));
}

} // verus!
