use vstd::prelude::*;

use crate::decode::decode;
use crate::decode::decode_spec;
use crate::decode::operands_in_range;
use crate::decode::AluOp;
use crate::decode::Instruction;

verus! {

/// Size of the address space in bytes.
pub const MEMORY_SIZE: usize = 4096;

/// Where the stack pointer starts; the stack grows down from here.
pub const STACK_BASE: u16 = 0x200;

/// Milliseconds per timer decrement (about 60 Hz).
pub const TICK_PERIOD_MS: u32 = 16;

/// Initial state of the random source.
pub const PRNG_SEED: u32 = 0x0badf00d;

/// Address of the sprite for digit 0; each digit's sprite is five bytes.
pub const FONT_BASE: u16 = 0;

/// The conditions under which an access or an instruction fails.
#[derive(Clone, Copy, Debug, PartialEq, Eq, Structural)]
pub enum CpuError {
    /// A memory access starting at `addr` reached outside `0..4096`.
    AddressOutOfRange { addr: u16 },
    /// A push or a pop at stack pointer `sp` would leave the stack region
    /// `0..0x200`.
    StackFault { sp: u16 },
    /// The fetched word `opcode` matches no instruction.
    UnknownOpcode { opcode: u16 },
}

/// What a tick asks of the host besides the state change.
#[derive(Clone, Copy, Debug, PartialEq, Eq, Structural)]
pub enum TickResult {
    /// An instruction completed with no outside effect.
    Executed,
    /// `00E0` completed: the host clears the display.
    ClearScreen,
    /// `Dxyn` completed: the host draws the `n` bytes at the index register
    /// at (`x`, `y`) and reports a collision through `set_vf_cond`.
    Draw { x: u8, y: u8, n: u8 },
    /// The machine waits for a key (`Fx0A`); the program counter stays on
    /// that instruction.
    WaitingForKey,
}

/// The machine state as mathematical values.
pub struct CpuView {
    pub v: Seq<u8>,
    pub i: u16,
    pub pc: u16,
    pub sp: u16,
    pub mem: Seq<u8>,
    pub dt: u8,
    pub st: u8,
    pub carry: u32,
    pub prng: u32,
    pub waiting: Option<u8>,
}

impl CpuView {
    /// Sixteen registers, 4096 bytes of memory, an even stack pointer within
    /// the stack region, a leftover below one timer period, and a key wait
    /// that names a register and sits on a fetched instruction.
    pub open spec fn wf(self) -> bool {
        &&& self.v.len() == 16
        &&& self.mem.len() == 4096
        &&& self.sp <= STACK_BASE
        &&& self.sp % 2 == 0
        &&& self.carry < TICK_PERIOD_MS
        &&& self.waiting is Some ==> self.waiting->0 < 16 && self.pc + 2 <= 4096
    }
}

/// The big-endian word at `a`.
pub open spec fn word_at(mem: Seq<u8>, a: int) -> u16 {
    (mem[a] as int * 256 + mem[a + 1] as int) as u16
}

/// `mem` with the big-endian word `w` stored at `a`.
pub open spec fn store_word(mem: Seq<u8>, a: int, w: u16) -> Seq<u8> {
    mem.update(a, (w >> 8u16) as u8).update(a + 1, w as u8)
}

/// `mem` with `data` stored from `a` on.
pub open spec fn store_bytes(mem: Seq<u8>, a: int, data: Seq<u8>) -> Seq<u8> {
    Seq::new(mem.len(), |k: int| if a <= k < a + data.len() { data[k - a] } else { mem[k] })
}

/// Whether `a` is an address and `len` bytes from `a` lie within memory
/// (an empty block too must start at an address).
pub open spec fn fits(a: int, len: int) -> bool {
    0 <= a && a < MEMORY_SIZE && a + len <= MEMORY_SIZE
}

/// The state after writing `b` at `a`; unchanged when `a` is out of range.
pub open spec fn byte_written(s: CpuView, a: u16, b: u8) -> CpuView {
    if fits(a as int, 1) {
        CpuView { mem: s.mem.update(a as int, b), ..s }
    } else {
        s
    }
}

/// The byte at `a`, or the error for an address out of range.
pub open spec fn byte_read(s: CpuView, a: u16) -> Result<u8, CpuError> {
    if fits(a as int, 1) {
        Ok(s.mem[a as int])
    } else {
        Err(CpuError::AddressOutOfRange { addr: a })
    }
}

/// `t` decreased by `n`, but not below zero.
pub open spec fn sat_sub(t: u8, n: int) -> u8 {
    if t as int > n {
        (t as int - n) as u8
    } else {
        0
    }
}

/// The timers after `ms` more milliseconds: every full period of the
/// elapsed time plus the leftover decrements both timers once.
pub open spec fn tick_timers(s: CpuView, ms: u32) -> CpuView {
    let total = ms as int + s.carry as int;
    let ticks = total / (TICK_PERIOD_MS as int);
    CpuView {
        dt: sat_sub(s.dt, ticks),
        st: sat_sub(s.st, ticks),
        carry: (total % (TICK_PERIOD_MS as int)) as u32,
        ..s
    }
}

/// One xorshift step of the random source.
pub open spec fn xorshift(s: u32) -> u32 {
    let a = s ^ (s << 13u32);
    let b = a ^ (a >> 17u32);
    b ^ (b << 5u32)
}

/// Result and flag of the `8xyN` operation `op` on `x` and `y`.
fn alu_result(op: AluOp, x: u8, y: u8) -> (r: (u8, Option<u8>))
    ensures
        r == alu(op, x, y),
{
    match op {
        AluOp::Ld => (y, None),
        AluOp::Or => (x | y, None),
        AluOp::And => (x & y, None),
        AluOp::Xor => (x ^ y, None),
        AluOp::Add => (
            ((x as u16 + y as u16) % 256) as u8,
            Some(if x as u16 + y as u16 > 255 { 1 } else { 0 }),
        ),
        AluOp::Sub => (
            ((x as u16 + 256 - y as u16) % 256) as u8,
            Some(if x >= y { 1 } else { 0 }),
        ),
        AluOp::Shr => (x >> 1, Some(x & 1)),
        AluOp::SubN => (
            ((y as u16 + 256 - x as u16) % 256) as u8,
            Some(if y >= x { 1 } else { 0 }),
        ),
        AluOp::Shl => (x << 1, Some(x >> 7)),
    }
}

/// Whether key `k` is down in the key mask `keys` (bit `k` set).
pub open spec fn key_down(keys: u16, k: u8) -> bool {
    k < 16 && (keys >> (k as u16)) & 1u16 == 1u16
}

/// The first key from `k` on that is down, or 16 if none is.
pub open spec fn first_key(keys: u16, k: nat) -> u8
    decreases 16 - k,
{
    if k >= 16 {
        16
    } else if key_down(keys, k as u8) {
        k as u8
    } else {
        first_key(keys, k + 1)
    }
}

/// Result and flag of an `8xyN` operation on `x` and `y`; the flag, when
/// there is one, goes to VF after the result is written.
pub open spec fn alu(op: AluOp, x: u8, y: u8) -> (u8, Option<u8>) {
    match op {
        AluOp::Ld => (y, None),
        AluOp::Or => (x | y, None),
        AluOp::And => (x & y, None),
        AluOp::Xor => (x ^ y, None),
        AluOp::Add => (((x + y) % 256) as u8, Some(if x + y > 255 { 1u8 } else { 0u8 })),
        AluOp::Sub => (((x - y) % 256) as u8, Some(if x >= y { 1u8 } else { 0u8 })),
        AluOp::Shr => (x >> 1u8, Some(x & 1u8)),
        AluOp::SubN => (((y - x) % 256) as u8, Some(if y >= x { 1u8 } else { 0u8 })),
        AluOp::Shl => (x << 1u8, Some(x >> 7u8)),
    }
}

/// Registers after an `8xyN` operation.
pub open spec fn alu_regs(v: Seq<u8>, x: u8, y: u8, op: AluOp) -> Seq<u8> {
    let (res, flag) = alu(op, v[x as int], v[y as int]);
    let w = v.update(x as int, res);
    match flag {
        Some(f) => w.update(15, f),
        None => w,
    }
}

/// The three decimal digits of `b`, hundreds first.
pub open spec fn bcd_digits(b: u8) -> Seq<u8> {
    seq![(b / 100) as u8, ((b / 10) % 10) as u8, (b % 10) as u8]
}

/// State with the program counter on `pc`.
pub open spec fn goto(s: CpuView, pc: int) -> CpuView {
    CpuView { pc: pc as u16, ..s }
}

/// State with register `x` set to `b`, then continuing at `pc`.
pub open spec fn set_reg_at(s: CpuView, x: u8, b: u8, pc: int) -> CpuView {
    CpuView { v: s.v.update(x as int, b), pc: pc as u16, ..s }
}

/// The program counter after a conditional skip.
pub open spec fn skip_to(next: int, cond: bool) -> int {
    if cond {
        next + 2
    } else {
        next
    }
}

/// The transition of a decoded instruction from a state whose program
/// counter is on it: the new state and what the host must do, or the
/// error, in which case nothing changes.
pub open spec fn transition(s: CpuView, ins: Instruction, keys: u16) -> Result<
    (CpuView, TickResult),
    CpuError,
> {
    let next = s.pc + 2;
    match ins {
        Instruction::ClearScreen => Ok((goto(s, next), TickResult::ClearScreen)),
        Instruction::Return => if s.sp + 2 <= STACK_BASE {
            Ok((CpuView { pc: word_at(s.mem, s.sp as int), sp: (s.sp + 2) as u16, ..s }, TickResult::Executed))
        } else {
            Err(CpuError::StackFault { sp: s.sp })
        },
        Instruction::Jump { addr } => Ok((goto(s, addr as int), TickResult::Executed)),
        Instruction::Call { addr } => if s.sp >= 2 {
            Ok((
                CpuView {
                    mem: store_word(s.mem, s.sp - 2, next as u16),
                    sp: (s.sp - 2) as u16,
                    pc: addr,
                    ..s
                },
                TickResult::Executed,
            ))
        } else {
            Err(CpuError::StackFault { sp: s.sp })
        },
        Instruction::SkipEqImm { x, kk } => Ok(
            (goto(s, skip_to(next, s.v[x as int] == kk)), TickResult::Executed),
        ),
        Instruction::SkipNeImm { x, kk } => Ok(
            (goto(s, skip_to(next, s.v[x as int] != kk)), TickResult::Executed),
        ),
        Instruction::SkipEqReg { x, y } => Ok(
            (goto(s, skip_to(next, s.v[x as int] == s.v[y as int])), TickResult::Executed),
        ),
        Instruction::SkipNeReg { x, y } => Ok(
            (goto(s, skip_to(next, s.v[x as int] != s.v[y as int])), TickResult::Executed),
        ),
        Instruction::LoadImm { x, kk } => Ok((set_reg_at(s, x, kk, next), TickResult::Executed)),
        Instruction::AddImm { x, kk } => Ok(
            (set_reg_at(s, x, ((s.v[x as int] + kk) % 256) as u8, next), TickResult::Executed),
        ),
        Instruction::Alu { x, y, op } => Ok(
            (CpuView { v: alu_regs(s.v, x, y, op), pc: next as u16, ..s }, TickResult::Executed),
        ),
        Instruction::LoadI { addr } => Ok(
            (CpuView { i: addr, pc: next as u16, ..s }, TickResult::Executed),
        ),
        Instruction::JumpV0 { addr } => Ok((goto(s, addr + s.v[0]), TickResult::Executed)),
        Instruction::Random { x, kk } => Ok(
            (
                CpuView {
                    prng: xorshift(s.prng),
                    ..set_reg_at(s, x, (xorshift(s.prng) as u8) & kk, next)
                },
                TickResult::Executed,
            ),
        ),
        Instruction::Draw { x, y, n } => if fits(s.i as int, n as int) {
            Ok((goto(s, next), TickResult::Draw { x: s.v[x as int], y: s.v[y as int], n }))
        } else {
            Err(CpuError::AddressOutOfRange { addr: s.i })
        },
        Instruction::SkipKey { x } => Ok(
            (goto(s, skip_to(next, key_down(keys, s.v[x as int]))), TickResult::Executed),
        ),
        Instruction::SkipNotKey { x } => Ok(
            (goto(s, skip_to(next, !key_down(keys, s.v[x as int]))), TickResult::Executed),
        ),
        Instruction::LoadDelay { x } => Ok((set_reg_at(s, x, s.dt, next), TickResult::Executed)),
        Instruction::WaitKey { x } => if keys != 0 {
            Ok((set_reg_at(s, x, first_key(keys, 0), next), TickResult::Executed))
        } else {
            Ok((CpuView { waiting: Some(x), ..s }, TickResult::WaitingForKey))
        },
        Instruction::SetDelay { x } => Ok(
            (CpuView { dt: s.v[x as int], pc: next as u16, ..s }, TickResult::Executed),
        ),
        Instruction::SetSound { x } => Ok(
            (CpuView { st: s.v[x as int], pc: next as u16, ..s }, TickResult::Executed),
        ),
        Instruction::AddI { x } => Ok(
            (
                CpuView { i: ((s.i + s.v[x as int]) % 65536) as u16, pc: next as u16, ..s },
                TickResult::Executed,
            ),
        ),
        Instruction::Font { x } => Ok(
            (
                CpuView { i: (FONT_BASE + 5 * (s.v[x as int] % 16)) as u16, pc: next as u16, ..s },
                TickResult::Executed,
            ),
        ),
        Instruction::Bcd { x } => if fits(s.i as int, 3) {
            Ok(
                (
                    CpuView {
                        mem: store_bytes(s.mem, s.i as int, bcd_digits(s.v[x as int])),
                        pc: next as u16,
                        ..s
                    },
                    TickResult::Executed,
                ),
            )
        } else {
            Err(CpuError::AddressOutOfRange { addr: s.i })
        },
        Instruction::StoreRegs { x } => if fits(s.i as int, x + 1) {
            Ok(
                (
                    CpuView {
                        mem: store_bytes(s.mem, s.i as int, s.v.subrange(0, x + 1)),
                        pc: next as u16,
                        ..s
                    },
                    TickResult::Executed,
                ),
            )
        } else {
            Err(CpuError::AddressOutOfRange { addr: s.i })
        },
        Instruction::LoadRegs { x } => if fits(s.i as int, x + 1) {
            Ok(
                (
                    CpuView {
                        v: store_bytes(s.v, 0, s.mem.subrange(s.i as int, s.i + x + 1)),
                        pc: next as u16,
                        ..s
                    },
                    TickResult::Executed,
                ),
            )
        } else {
            Err(CpuError::AddressOutOfRange { addr: s.i })
        },
    }
}

/// One tick: the timers advance by `ms`; then a pending key wait completes
/// when a key is down, or else the word at the program counter is fetched,
/// decoded and executed. On an error the timers have advanced and nothing
/// else has changed.
pub open spec fn step(s: CpuView, ms: u32, keys: u16) -> (CpuView, Result<TickResult, CpuError>) {
    let t = tick_timers(s, ms);
    match t.waiting {
        Some(x) => if keys == 0 {
            (t, Ok(TickResult::WaitingForKey))
        } else {
            (
                CpuView { waiting: None, ..set_reg_at(t, x, first_key(keys, 0), t.pc + 2) },
                Ok(TickResult::Executed),
            )
        },
        None => if !fits(t.pc as int, 2) {
            (t, Err(CpuError::AddressOutOfRange { addr: t.pc }))
        } else {
            match decode_spec(word_at(t.mem, t.pc as int)) {
                Err(e) => (t, Err(e)),
                Ok(ins) => match transition(t, ins, keys) {
                    Ok((n, r)) => (n, Ok(r)),
                    Err(e) => (t, Err(e)),
                },
            }
        },
    }
}


/// Whether key `k` is down in the key mask `keys`.
fn key_is_down(keys: u16, k: u8) -> (r: bool)
    ensures
        r == key_down(keys, k),
{
    k < 16 && (keys >> (k as u16)) & 1 == 1
}

/// The lowest key that is down in `keys`, or 16 when none is.
fn first_pressed_key(keys: u16) -> (r: u8)
    ensures
        r == first_key(keys, 0),
{
    let mut k: u8 = 0;
    while k < 16
        invariant
            k <= 16,
            first_key(keys, k as nat) == first_key(keys, 0),
        decreases 16 - k,
    {
        if key_is_down(keys, k) {
            return k;
        }
        k = k + 1;
    }
    16
}

/// The register file.
#[derive(Debug)]
pub struct Registers {
    v_regs: Vec<u8>,
    i: u16,
    pc: u16,
    sp: u16,
}

/// The machine: registers, memory, timers and random source.
#[derive(Debug)]
pub struct CPU {
    regs: Registers,
    memory: Vec<u8>,
    dt: u8,
    st: u8,
    timedelta_error: u32,
    prng_val: u32,
    waiting_key: Option<u8>,
}

impl View for CPU {
    type V = CpuView;

    closed spec fn view(&self) -> CpuView {
        CpuView {
            v: self.regs.v_regs@,
            i: self.regs.i,
            pc: self.regs.pc,
            sp: self.regs.sp,
            mem: self.memory@,
            dt: self.dt,
            st: self.st,
            carry: self.timedelta_error,
            prng: self.prng_val,
            waiting: self.waiting_key,
        }
    }
}

/// The state of a new machine: all zero, stack pointer at its base, random
/// source at its seed.
pub open spec fn initial() -> CpuView {
    CpuView {
        v: Seq::new(16, |k: int| 0u8),
        i: 0,
        pc: 0,
        sp: STACK_BASE,
        mem: Seq::new(4096, |k: int| 0u8),
        dt: 0,
        st: 0,
        carry: 0,
        prng: PRNG_SEED,
        waiting: None,
    }
}

impl CPU {
    /// A machine with zeroed memory and registers, the stack pointer at its
    /// base and the random source at its seed.
    pub fn new() -> (r: Self)
        ensures
            r@ == initial(),
            r@.wf(),
    {
        let r = CPU {
            regs: Registers { v_regs: vec![0u8; 16], i: 0, pc: 0, sp: STACK_BASE },
            memory: vec![0u8; MEMORY_SIZE],
            dt: 0,
            st: 0,
            timedelta_error: 0,
            prng_val: PRNG_SEED,
            waiting_key: None,
        };
        assert(r@.v =~= initial().v);
        assert(r@.mem =~= initial().mem);
        r
    }

    /// Sets the program counter (the entry point before execution starts).
    pub fn go(&mut self, addr: u16)
        requires
            old(self)@.wf(),
            old(self)@.waiting is None,
        ensures
            final(self)@ == goto(old(self)@, addr as int),
            final(self)@.wf(),
    {
        self.regs.pc = addr;
    }

    pub fn get_pc(&self) -> (r: u16)
        ensures
            r == self@.pc,
    {
        self.regs.pc
    }

    pub fn get_sp(&self) -> (r: u16)
        ensures
            r == self@.sp,
    {
        self.regs.sp
    }

    pub fn get_i(&self) -> (r: u16)
        ensures
            r == self@.i,
    {
        self.regs.i
    }

    pub fn set_i(&mut self, value: u16)
        requires
            old(self)@.wf(),
        ensures
            final(self)@ == (CpuView { i: value, ..old(self)@ }),
            final(self)@.wf(),
    {
        self.regs.i = value;
    }

    pub fn get_reg(&self, x: u8) -> (r: u8)
        requires
            self@.wf(),
            x < 16,
        ensures
            r == self@.v[x as int],
    {
        self.regs.v_regs[x as usize]
    }

    pub fn set_reg(&mut self, x: u8, value: u8)
        requires
            old(self)@.wf(),
            x < 16,
        ensures
            final(self)@ == (CpuView { v: old(self)@.v.update(x as int, value), ..old(self)@ }),
            final(self)@.wf(),
    {
        self.regs.v_regs[x as usize] = value;
    }

    pub fn get_delay_timer(&self) -> (r: u8)
        ensures
            r == self@.dt,
    {
        self.dt
    }

    pub fn get_sound_timer(&self) -> (r: u8)
        ensures
            r == self@.st,
    {
        self.st
    }

    /// Whether the machine waits for a key (`Fx0A`).
    pub fn is_waiting_for_key(&self) -> (r: bool)
        ensures
            r == (self@.waiting is Some),
    {
        self.waiting_key.is_some()
    }

    pub fn write_byte(&mut self, addr: u16, data: u8) -> (r: Result<(), CpuError>)
        requires
            old(self)@.wf(),
        ensures
            r == (if fits(addr as int, 1) {
                Ok(())
            } else {
                Err(CpuError::AddressOutOfRange { addr })
            }),
            final(self)@ == byte_written(old(self)@, addr, data),
            final(self)@.wf(),
    {
        if (addr as usize) < MEMORY_SIZE {
            self.memory[addr as usize] = data;
            Ok(())
        } else {
            Err(CpuError::AddressOutOfRange { addr })
        }
    }

    pub fn read_byte(&self, addr: u16) -> (r: Result<u8, CpuError>)
        requires
            self@.wf(),
        ensures
            r == byte_read(self@, addr),
    {
        if (addr as usize) < MEMORY_SIZE {
            Ok(self.memory[addr as usize])
        } else {
            Err(CpuError::AddressOutOfRange { addr })
        }
    }

    /// Stores `data` big-endian at `addr` and `addr + 1`.
    pub fn write_word(&mut self, addr: u16, data: u16) -> (r: Result<(), CpuError>)
        requires
            old(self)@.wf(),
        ensures
            r == (if fits(addr as int, 2) {
                Ok(())
            } else {
                Err(CpuError::AddressOutOfRange { addr })
            }),
            final(self)@ == (if fits(addr as int, 2) {
                CpuView { mem: store_word(old(self)@.mem, addr as int, data), ..old(self)@ }
            } else {
                old(self)@
            }),
            final(self)@.wf(),
    {
        if (addr as usize) + 2 <= MEMORY_SIZE {
            self.memory[addr as usize] = (data >> 8) as u8;
            self.memory[addr as usize + 1] = data as u8;
            Ok(())
        } else {
            Err(CpuError::AddressOutOfRange { addr })
        }
    }

    /// The big-endian word at `addr` and `addr + 1`.
    pub fn read_word(&self, addr: u16) -> (r: Result<u16, CpuError>)
        requires
            self@.wf(),
        ensures
            r == (if fits(addr as int, 2) {
                Ok(word_at(self@.mem, addr as int))
            } else {
                Err(CpuError::AddressOutOfRange { addr })
            }),
    {
        if (addr as usize) + 2 <= MEMORY_SIZE {
            let hi = self.memory[addr as usize];
            let lo = self.memory[addr as usize + 1];
            Ok((hi as u16) * 256 + lo as u16)
        } else {
            Err(CpuError::AddressOutOfRange { addr })
        }
    }

    /// Copies `data` into memory from `addr` on.
    pub fn write_bytes(&mut self, addr: u16, data: &Vec<u8>) -> (r: Result<(), CpuError>)
        requires
            old(self)@.wf(),
        ensures
            r == (if fits(addr as int, data@.len() as int) {
                Ok(())
            } else {
                Err(CpuError::AddressOutOfRange { addr })
            }),
            final(self)@ == (if fits(addr as int, data@.len() as int) {
                CpuView { mem: store_bytes(old(self)@.mem, addr as int, data@), ..old(self)@ }
            } else {
                old(self)@
            }),
            final(self)@.wf(),
    {
        if (addr as usize) >= MEMORY_SIZE || data.len() > MEMORY_SIZE - (addr as usize) {
            return Err(CpuError::AddressOutOfRange { addr });
        }
        let mut k: usize = 0;
        assert(store_bytes(old(self)@.mem, addr as int, data@.subrange(0, 0)) =~= old(self)@.mem);
        while k < data.len()
            invariant
                k <= data@.len(),
                addr as int + data@.len() <= MEMORY_SIZE,
                self@ == (CpuView {
                    mem: store_bytes(old(self)@.mem, addr as int, data@.subrange(0, k as int)),
                    ..old(self)@
                }),
                self@.mem.len() == 4096,
            decreases data@.len() - k,
        {
            self.memory[addr as usize + k] = data[k];
            k = k + 1;
            assert(self@.mem =~= store_bytes(
                old(self)@.mem,
                addr as int,
                data@.subrange(0, k as int),
            ));
        }
        assert(data@.subrange(0, k as int) =~= data@);
        Ok(())
    }

    /// The `size` bytes from `addr` on.
    pub fn read_bytes(&self, addr: u16, size: usize) -> (r: Result<Vec<u8>, CpuError>)
        requires
            self@.wf(),
        ensures
            r is Ok <==> fits(addr as int, size as int),
            r is Ok ==> r->Ok_0@ == self@.mem.subrange(addr as int, addr + size),
            r is Err ==> r == Err::<Vec<u8>, CpuError>(CpuError::AddressOutOfRange { addr }),
    {
        if (addr as usize) >= MEMORY_SIZE || size > MEMORY_SIZE - (addr as usize) {
            return Err(CpuError::AddressOutOfRange { addr });
        }
        let mut v: Vec<u8> = Vec::new();
        let mut k: usize = 0;
        while k < size
            invariant
                k <= size,
                addr as int + size <= MEMORY_SIZE,
                self@.wf(),
                v@ =~= self@.mem.subrange(addr as int, addr + k),
            decreases size - k,
        {
            v.push(self.memory[addr as usize + k]);
            k = k + 1;
            assert(v@ =~= self@.mem.subrange(addr as int, addr + k));
        }
        Ok(v)
    }

    /// A copy of the whole memory.
    pub fn read_memory(&self) -> (r: Vec<u8>)
        requires
            self@.wf(),
        ensures
            r@ == self@.mem,
    {
        let mut v: Vec<u8> = Vec::new();
        let mut k: usize = 0;
        while k < MEMORY_SIZE
            invariant
                k <= MEMORY_SIZE,
                self@.wf(),
                v@ =~= self@.mem.subrange(0, k as int),
            decreases MEMORY_SIZE - k,
        {
            v.push(self.memory[k]);
            k = k + 1;
            assert(v@ =~= self@.mem.subrange(0, k as int));
        }
        assert(self@.mem.subrange(0, 4096) =~= self@.mem);
        v
    }

    /// VF = 1.
    pub fn set_vf(&mut self)
        requires
            old(self)@.wf(),
        ensures
            final(self)@ == (CpuView { v: old(self)@.v.update(15, 1u8), ..old(self)@ }),
            final(self)@.wf(),
    {
        self.regs.v_regs[0xf] = 1;
    }

    /// VF = 1 if `cond`, else 0; also how a host reports a sprite collision.
    pub fn set_vf_cond(&mut self, cond: bool)
        requires
            old(self)@.wf(),
        ensures
            final(self)@ == (CpuView {
                v: old(self)@.v.update(15, if cond { 1u8 } else { 0u8 }),
                ..old(self)@
            }),
            final(self)@.wf(),
    {
        self.regs.v_regs[0xf] = if cond {
            1
        } else {
            0
        };
    }

    /// VF = 0.
    pub fn clear_vf(&mut self)
        requires
            old(self)@.wf(),
        ensures
            final(self)@ == (CpuView { v: old(self)@.v.update(15, 0u8), ..old(self)@ }),
            final(self)@.wf(),
    {
        self.regs.v_regs[0xf] = 0;
    }

    /// Performs the `8xyN` operation `op` with `dest` as Vx and `src` as Vy.
    fn binary_reg_op(&mut self, dest: u8, src: u8, op: AluOp)
        requires
            old(self)@.wf(),
            dest < 16,
            src < 16,
        ensures
            final(self)@ == (CpuView { v: alu_regs(old(self)@.v, dest, src, op), ..old(self)@ }),
            final(self)@.wf(),
            op == AluOp::Add ==> final(self)@.v[15] == (if old(self)@.v[dest as int]
                + old(self)@.v[src as int] > 255 {
                1u8
            } else {
                0u8
            }),
            op == AluOp::Add && dest != 15 ==> final(self)@.v[dest as int] == (old(self)@.v[
                dest as int] + old(self)@.v[src as int]) % 256,
    {
        let x = self.regs.v_regs[dest as usize];
        let y = self.regs.v_regs[src as usize];
        let (res, flag) = alu_result(op, x, y);
        self.regs.v_regs[dest as usize] = res;
        match flag {
            Some(f) => {
                self.regs.v_regs[0xf] = f;
            },
            None => {},
        }
        assert(self@.v =~= alu_regs(old(self)@.v, dest, src, op));
    }

    /// Moves the program counter on by one more instruction if `cond`.
    fn skip_cond(&mut self, cond: bool)
        requires
            old(self)@.wf(),
            old(self)@.waiting is None,
            old(self)@.pc <= MEMORY_SIZE,
        ensures
            final(self)@ == goto(old(self)@, skip_to(old(self)@.pc as int, cond)),
            final(self)@.wf(),
    {
        if cond {
            self.regs.pc = self.regs.pc + 2;
        }
    }

    /// Advances the random source and returns the low byte of its new state.
    fn random(&mut self) -> (r: u8)
        requires
            old(self)@.wf(),
        ensures
            final(self)@ == (CpuView { prng: xorshift(old(self)@.prng), ..old(self)@ }),
            r == xorshift(old(self)@.prng) as u8,
            final(self)@.wf(),
    {
        self.prng_val = self.prng_val ^ (self.prng_val << 13);
        self.prng_val = self.prng_val ^ (self.prng_val >> 17);
        self.prng_val = self.prng_val ^ (self.prng_val << 5);
        self.prng_val as u8
    }

    /// Stores the first `nr` registers from `addr` on; fails, storing
    /// nothing, when the block does not fit in memory.
    fn store_regs(&mut self, addr: u16, nr: u8) -> (r: Result<(), CpuError>)
        requires
            old(self)@.wf(),
            nr <= 16,
        ensures
            r == (if fits(addr as int, nr as int) {
                Ok(())
            } else {
                Err(CpuError::AddressOutOfRange { addr })
            }),
            final(self)@ == (if fits(addr as int, nr as int) {
                CpuView {
                    mem: store_bytes(old(self)@.mem, addr as int, old(self)@.v.subrange(0, nr as int)),
                    ..old(self)@
                }
            } else {
                old(self)@
            }),
            final(self)@.wf(),
    {
        if (addr as usize) >= MEMORY_SIZE || (addr as usize) + (nr as usize) > MEMORY_SIZE {
            return Err(CpuError::AddressOutOfRange { addr });
        }
        let mut k: u8 = 0;
        assert(store_bytes(old(self)@.mem, addr as int, old(self)@.v.subrange(0, 0))
            =~= old(self)@.mem);
        while k < nr
            invariant
                k <= nr,
                nr <= 16,
                fits(addr as int, nr as int),
                self@ == (CpuView {
                    mem: store_bytes(old(self)@.mem, addr as int, old(self)@.v.subrange(0, k as int)),
                    ..old(self)@
                }),
                old(self)@.wf(),
            decreases nr - k,
        {
            self.memory[addr as usize + k as usize] = self.regs.v_regs[k as usize];
            k = k + 1;
            assert(self@.mem =~= store_bytes(
                old(self)@.mem,
                addr as int,
                old(self)@.v.subrange(0, k as int),
            ));
        }
        Ok(())
    }

    /// Loads the first `nr` registers from the bytes from `addr` on; fails,
    /// loading nothing, when the block does not fit in memory.
    fn load_regs(&mut self, addr: u16, nr: u8) -> (r: Result<(), CpuError>)
        requires
            old(self)@.wf(),
            nr <= 16,
        ensures
            r == (if fits(addr as int, nr as int) {
                Ok(())
            } else {
                Err(CpuError::AddressOutOfRange { addr })
            }),
            final(self)@ == (if fits(addr as int, nr as int) {
                CpuView {
                    v: store_bytes(old(self)@.v, 0, old(self)@.mem.subrange(addr as int, addr + nr)),
                    ..old(self)@
                }
            } else {
                old(self)@
            }),
            final(self)@.wf(),
    {
        if (addr as usize) >= MEMORY_SIZE || (addr as usize) + (nr as usize) > MEMORY_SIZE {
            return Err(CpuError::AddressOutOfRange { addr });
        }
        let mut k: u8 = 0;
        assert(store_bytes(old(self)@.v, 0, old(self)@.mem.subrange(addr as int, addr + 0))
            =~= old(self)@.v);
        while k < nr
            invariant
                k <= nr,
                nr <= 16,
                fits(addr as int, nr as int),
                self@ == (CpuView {
                    v: store_bytes(old(self)@.v, 0, old(self)@.mem.subrange(addr as int, addr + k)),
                    ..old(self)@
                }),
                old(self)@.wf(),
            decreases nr - k,
        {
            self.regs.v_regs[k as usize] = self.memory[addr as usize + k as usize];
            k = k + 1;
            assert(self@.v =~= store_bytes(
                old(self)@.v,
                0,
                old(self)@.mem.subrange(addr as int, addr + k),
            ));
        }
        Ok(())
    }

    /// Stores the three decimal digits of `b` from `addr` on.
    fn store_bcd(&mut self, addr: u16, b: u8)
        requires
            old(self)@.wf(),
            fits(addr as int, 3),
        ensures
            final(self)@ == (CpuView {
                mem: store_bytes(old(self)@.mem, addr as int, bcd_digits(b)),
                ..old(self)@
            }),
            final(self)@.wf(),
    {
        self.memory[addr as usize] = b / 100;
        self.memory[addr as usize + 1] = (b / 10) % 10;
        self.memory[addr as usize + 2] = b % 10;
        assert(self@.mem =~= store_bytes(old(self)@.mem, addr as int, bcd_digits(b)));
    }

    /// Returns from a subroutine: the program counter is popped.
    fn do_ret(&mut self) -> (r: Result<(), CpuError>)
        requires
            old(self)@.wf(),
            old(self)@.waiting is None,
        ensures
            match transition(old(self)@, Instruction::Return, 0) {
                Ok((n, t)) => r == Ok::<(), CpuError>(()) && final(self)@ == n,
                Err(e) => r == Err::<(), CpuError>(e) && final(self)@ == old(self)@,
            },
            final(self)@.wf(),
    {
        match self.pop_word() {
            Ok(w) => {
                self.regs.pc = w;
                Ok(())
            },
            Err(e) => Err(e),
        }
    }

    /// Calls the subroutine at `addr`: `ret` is pushed, then the program
    /// counter set to `addr`.
    fn do_call(&mut self, addr: u16, ret: u16) -> (r: Result<(), CpuError>)
        requires
            old(self)@.wf(),
            old(self)@.waiting is None,
            ret == old(self)@.pc + 2,
        ensures
            match transition(old(self)@, Instruction::Call { addr }, 0) {
                Ok((n, t)) => r == Ok::<(), CpuError>(()) && final(self)@ == n,
                Err(e) => r == Err::<(), CpuError>(e) && final(self)@ == old(self)@,
            },
            final(self)@.wf(),
    {
        match self.push_word(ret) {
            Ok(()) => {
                self.regs.pc = addr;
                Ok(())
            },
            Err(e) => Err(e),
        }
    }

    /// Decrements both timers by the full periods in `ms_delta` plus the
    /// leftover of earlier calls, keeping the new leftover.
    fn update_timers(&mut self, ms_delta: u32)
        requires
            old(self)@.wf(),
        ensures
            final(self)@ == tick_timers(old(self)@, ms_delta),
            final(self)@.wf(),
    {
        let total: u64 = ms_delta as u64 + self.timedelta_error as u64;
        let timer_ticks: u64 = total / (TICK_PERIOD_MS as u64);
        self.timedelta_error = (total % (TICK_PERIOD_MS as u64)) as u32;
        self.st = if (self.st as u64) > timer_ticks {
            self.st - timer_ticks as u8
        } else {
            0
        };
        self.dt = if (self.dt as u64) > timer_ticks {
            self.dt - timer_ticks as u8
        } else {
            0
        };
    }

    /// Executes a decoded instruction whose word is at the program counter.
    /// On an error nothing changes.
    fn execute(&mut self, ins: Instruction, keys: u16) -> (r: Result<TickResult, CpuError>)
        requires
            old(self)@.wf(),
            old(self)@.waiting is None,
            fits(old(self)@.pc as int, 2),
            operands_in_range(ins),
        ensures
            match transition(old(self)@, ins, keys) {
                Ok((n, t)) => r == Ok::<TickResult, CpuError>(t) && final(self)@ == n,
                Err(e) => r == Err::<TickResult, CpuError>(e) && final(self)@ == old(self)@,
            },
            final(self)@.wf(),
    {
        let next = self.regs.pc + 2;
        match ins {
            Instruction::ClearScreen => {
                self.regs.pc = next;
                Ok(TickResult::ClearScreen)
            },
            Instruction::Return => match self.do_ret() {
                Ok(()) => Ok(TickResult::Executed),
                Err(e) => Err(e),
            },
            Instruction::Jump { addr } => {
                self.regs.pc = addr;
                Ok(TickResult::Executed)
            },
            Instruction::Call { addr } => match self.do_call(addr, next) {
                Ok(()) => Ok(TickResult::Executed),
                Err(e) => Err(e),
            },
            Instruction::SkipEqImm { x, kk } => {
                let c = self.regs.v_regs[x as usize] == kk;
                self.regs.pc = next;
                self.skip_cond(c);
                Ok(TickResult::Executed)
            },
            Instruction::SkipNeImm { x, kk } => {
                let c = self.regs.v_regs[x as usize] != kk;
                self.regs.pc = next;
                self.skip_cond(c);
                Ok(TickResult::Executed)
            },
            Instruction::SkipEqReg { x, y } => {
                let c = self.regs.v_regs[x as usize] == self.regs.v_regs[y as usize];
                self.regs.pc = next;
                self.skip_cond(c);
                Ok(TickResult::Executed)
            },
            Instruction::SkipNeReg { x, y } => {
                let c = self.regs.v_regs[x as usize] != self.regs.v_regs[y as usize];
                self.regs.pc = next;
                self.skip_cond(c);
                Ok(TickResult::Executed)
            },
            Instruction::LoadImm { x, kk } => {
                self.regs.v_regs[x as usize] = kk;
                self.regs.pc = next;
                Ok(TickResult::Executed)
            },
            Instruction::AddImm { x, kk } => {
                let vx = self.regs.v_regs[x as usize];
                self.regs.v_regs[x as usize] = ((vx as u16 + kk as u16) % 256) as u8;
                self.regs.pc = next;
                Ok(TickResult::Executed)
            },
            Instruction::Alu { x, y, op } => {
                self.binary_reg_op(x, y, op);
                self.regs.pc = next;
                Ok(TickResult::Executed)
            },
            Instruction::LoadI { addr } => {
                self.regs.i = addr;
                self.regs.pc = next;
                Ok(TickResult::Executed)
            },
            Instruction::JumpV0 { addr } => {
                self.regs.pc = addr + self.regs.v_regs[0] as u16;
                Ok(TickResult::Executed)
            },
            Instruction::Random { x, kk } => {
                let b = self.random();
                self.regs.v_regs[x as usize] = b & kk;
                self.regs.pc = next;
                Ok(TickResult::Executed)
            },
            Instruction::Draw { x, y, n } => {
                if (self.regs.i as usize) >= MEMORY_SIZE
                    || (self.regs.i as usize) + (n as usize) > MEMORY_SIZE {
                    return Err(CpuError::AddressOutOfRange { addr: self.regs.i });
                }
                let vx = self.regs.v_regs[x as usize];
                let vy = self.regs.v_regs[y as usize];
                self.regs.pc = next;
                Ok(TickResult::Draw { x: vx, y: vy, n })
            },
            Instruction::SkipKey { x } => {
                let c = key_is_down(keys, self.regs.v_regs[x as usize]);
                self.regs.pc = next;
                self.skip_cond(c);
                Ok(TickResult::Executed)
            },
            Instruction::SkipNotKey { x } => {
                let c = !key_is_down(keys, self.regs.v_regs[x as usize]);
                self.regs.pc = next;
                self.skip_cond(c);
                Ok(TickResult::Executed)
            },
            Instruction::LoadDelay { x } => {
                self.regs.v_regs[x as usize] = self.dt;
                self.regs.pc = next;
                Ok(TickResult::Executed)
            },
            Instruction::WaitKey { x } => {
                if keys != 0 {
                    self.regs.v_regs[x as usize] = first_pressed_key(keys);
                    self.regs.pc = next;
                    Ok(TickResult::Executed)
                } else {
                    self.waiting_key = Some(x);
                    Ok(TickResult::WaitingForKey)
                }
            },
            Instruction::SetDelay { x } => {
                self.dt = self.regs.v_regs[x as usize];
                self.regs.pc = next;
                Ok(TickResult::Executed)
            },
            Instruction::SetSound { x } => {
                self.st = self.regs.v_regs[x as usize];
                self.regs.pc = next;
                Ok(TickResult::Executed)
            },
            Instruction::AddI { x } => {
                let vx = self.regs.v_regs[x as usize];
                self.regs.i = ((self.regs.i as u32 + vx as u32) % 65536) as u16;
                self.regs.pc = next;
                Ok(TickResult::Executed)
            },
            Instruction::Font { x } => {
                let vx = self.regs.v_regs[x as usize];
                self.regs.i = FONT_BASE + 5 * (vx % 16) as u16;
                self.regs.pc = next;
                Ok(TickResult::Executed)
            },
            Instruction::Bcd { x } => {
                if (self.regs.i as usize) + 3 > MEMORY_SIZE {
                    return Err(CpuError::AddressOutOfRange { addr: self.regs.i });
                }
                let vx = self.regs.v_regs[x as usize];
                self.store_bcd(self.regs.i, vx);
                self.regs.pc = next;
                Ok(TickResult::Executed)
            },
            Instruction::StoreRegs { x } => {
                match self.store_regs(self.regs.i, x + 1) {
                    Ok(()) => {
                        self.regs.pc = next;
                        Ok(TickResult::Executed)
                    },
                    Err(e) => Err(e),
                }
            },
            Instruction::LoadRegs { x } => {
                match self.load_regs(self.regs.i, x + 1) {
                    Ok(()) => {
                        self.regs.pc = next;
                        Ok(TickResult::Executed)
                    },
                    Err(e) => Err(e),
                }
            },
        }
    }

    /// One tick of the machine: the timers advance by `ms_delta`
    /// milliseconds, then one instruction runs, or a pending key wait is
    /// checked against `keys` (bit `k` set when key `k` is down).
    pub fn clock(&mut self, ms_delta: u32, keys: u16) -> (r: Result<TickResult, CpuError>)
        requires
            old(self)@.wf(),
        ensures
            (final(self)@, r) == step(old(self)@, ms_delta, keys),
            final(self)@.wf(),
    {
        self.update_timers(ms_delta);
        if let Some(x) = self.waiting_key {
            if keys == 0 {
                return Ok(TickResult::WaitingForKey);
            }
            self.regs.v_regs[x as usize] = first_pressed_key(keys);
            self.regs.pc = self.regs.pc + 2;
            self.waiting_key = None;
            return Ok(TickResult::Executed);
        }
        let insn = match self.read_word(self.regs.pc) {
            Ok(w) => w,
            Err(e) => return Err(e),
        };
        let ins = match decode(insn) {
            Ok(i) => i,
            Err(e) => return Err(e),
        };
        self.execute(ins, keys)
    }

    /// Pushes `data` on the stack: the stack pointer moves down by two and
    /// the word is stored there.
    pub fn push_word(&mut self, data: u16) -> (r: Result<(), CpuError>)
        requires
            old(self)@.wf(),
        ensures
            r == (if old(self)@.sp >= 2 {
                Ok(())
            } else {
                Err(CpuError::StackFault { sp: old(self)@.sp })
            }),
            final(self)@ == (if old(self)@.sp >= 2 {
                CpuView {
                    mem: store_word(old(self)@.mem, old(self)@.sp - 2, data),
                    sp: (old(self)@.sp - 2) as u16,
                    ..old(self)@
                }
            } else {
                old(self)@
            }),
            final(self)@.wf(),
    {
        if self.regs.sp < 2 {
            return Err(CpuError::StackFault { sp: self.regs.sp });
        }
        self.regs.sp = self.regs.sp - 2;
        self.write_word(self.regs.sp, data)
    }

    /// Pops the word at the stack pointer, which moves up by two.
    pub fn pop_word(&mut self) -> (r: Result<u16, CpuError>)
        requires
            old(self)@.wf(),
        ensures
            r == (if old(self)@.sp + 2 <= STACK_BASE {
                Ok(word_at(old(self)@.mem, old(self)@.sp as int))
            } else {
                Err(CpuError::StackFault { sp: old(self)@.sp })
            }),
            final(self)@ == (if old(self)@.sp + 2 <= STACK_BASE {
                CpuView { sp: (old(self)@.sp + 2) as u16, ..old(self)@ }
            } else {
                old(self)@
            }),
            final(self)@.wf(),
    {
        if self.regs.sp > STACK_BASE - 2 {
            return Err(CpuError::StackFault { sp: self.regs.sp });
        }
        let data = self.read_word(self.regs.sp);
        self.regs.sp = self.regs.sp + 2;
        match data {
            Ok(w) => Ok(w),
            Err(e) => Err(e),
        }
    }
}
} // verus!
