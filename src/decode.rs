use vstd::prelude::*;

use crate::cpu::CpuError;
use crate::nibbles::bytes_to_nibbles;
use crate::nibbles::nibbles3_to_u16;

verus! {

/// The register-to-register operations of the `8xyN` family.
#[derive(Clone, Copy, Debug, PartialEq, Eq, Structural)]
pub enum AluOp {
    /// `8xy0`: Vx = Vy.
    Ld,
    /// `8xy1`: Vx = Vx OR Vy.
    Or,
    /// `8xy2`: Vx = Vx AND Vy.
    And,
    /// `8xy3`: Vx = Vx XOR Vy.
    Xor,
    /// `8xy4`: Vx = Vx + Vy, carry into VF.
    Add,
    /// `8xy5`: Vx = Vx - Vy, VF = no borrow.
    Sub,
    /// `8xy6`: Vx = Vx >> 1, VF = the bit shifted out.
    Shr,
    /// `8xy7`: Vx = Vy - Vx, VF = no borrow.
    SubN,
    /// `8xyE`: Vx = Vx << 1, VF = the bit shifted out.
    Shl,
}

/// A decoded instruction word. `x` and `y` are register indices (below 16),
/// `kk` an immediate byte, `addr` a 12-bit address and `n` a nibble.
#[derive(Clone, Copy, Debug, PartialEq, Eq, Structural)]
pub enum Instruction {
    ClearScreen,
    Return,
    Jump { addr: u16 },
    Call { addr: u16 },
    SkipEqImm { x: u8, kk: u8 },
    SkipNeImm { x: u8, kk: u8 },
    SkipEqReg { x: u8, y: u8 },
    LoadImm { x: u8, kk: u8 },
    AddImm { x: u8, kk: u8 },
    Alu { x: u8, y: u8, op: AluOp },
    SkipNeReg { x: u8, y: u8 },
    LoadI { addr: u16 },
    JumpV0 { addr: u16 },
    Random { x: u8, kk: u8 },
    Draw { x: u8, y: u8, n: u8 },
    SkipKey { x: u8 },
    SkipNotKey { x: u8 },
    LoadDelay { x: u8 },
    WaitKey { x: u8 },
    SetDelay { x: u8 },
    SetSound { x: u8 },
    AddI { x: u8 },
    Font { x: u8 },
    Bcd { x: u8 },
    StoreRegs { x: u8 },
    LoadRegs { x: u8 },
}

/// Highest nibble of an instruction word.
pub open spec fn n0(w: u16) -> u8 {
    (w >> 12u16) as u8
}

/// Second nibble: the `x` operand.
pub open spec fn n1(w: u16) -> u8 {
    ((w >> 8u16) & 0xfu16) as u8
}

/// Third nibble: the `y` operand.
pub open spec fn n2(w: u16) -> u8 {
    ((w >> 4u16) & 0xfu16) as u8
}

/// Lowest nibble.
pub open spec fn n3(w: u16) -> u8 {
    (w & 0xfu16) as u8
}

/// Low byte: the `kk` operand.
pub open spec fn low_byte(w: u16) -> u8 {
    (w & 0xffu16) as u8
}

/// Low twelve bits: the `nnn` operand.
pub open spec fn addr_of(w: u16) -> u16 {
    w & 0xfffu16
}

/// The operation that the low nibble of an `8xyN` word names, if any.
pub open spec fn alu_op_of(n: u8) -> Option<AluOp> {
    if n == 0 {
        Some(AluOp::Ld)
    } else if n == 1 {
        Some(AluOp::Or)
    } else if n == 2 {
        Some(AluOp::And)
    } else if n == 3 {
        Some(AluOp::Xor)
    } else if n == 4 {
        Some(AluOp::Add)
    } else if n == 5 {
        Some(AluOp::Sub)
    } else if n == 6 {
        Some(AluOp::Shr)
    } else if n == 7 {
        Some(AluOp::SubN)
    } else if n == 0xe {
        Some(AluOp::Shl)
    } else {
        None
    }
}

/// The instruction table: what each instruction word means, or
/// `UnknownOpcode` for a word that no pattern matches.
pub open spec fn decode_spec(w: u16) -> Result<Instruction, CpuError> {
    let x = n1(w);
    let y = n2(w);
    let kk = low_byte(w);
    let addr = addr_of(w);
    let hi = n0(w);
    if w == 0x00e0 {
        Ok(Instruction::ClearScreen)
    } else if w == 0x00ee {
        Ok(Instruction::Return)
    } else if hi == 1 {
        Ok(Instruction::Jump { addr })
    } else if hi == 2 {
        Ok(Instruction::Call { addr })
    } else if hi == 3 {
        Ok(Instruction::SkipEqImm { x, kk })
    } else if hi == 4 {
        Ok(Instruction::SkipNeImm { x, kk })
    } else if hi == 5 && n3(w) == 0 {
        Ok(Instruction::SkipEqReg { x, y })
    } else if hi == 6 {
        Ok(Instruction::LoadImm { x, kk })
    } else if hi == 7 {
        Ok(Instruction::AddImm { x, kk })
    } else if hi == 8 && alu_op_of(n3(w)).is_some() {
        Ok(Instruction::Alu { x, y, op: alu_op_of(n3(w)).unwrap() })
    } else if hi == 9 && n3(w) == 0 {
        Ok(Instruction::SkipNeReg { x, y })
    } else if hi == 0xa {
        Ok(Instruction::LoadI { addr })
    } else if hi == 0xb {
        Ok(Instruction::JumpV0 { addr })
    } else if hi == 0xc {
        Ok(Instruction::Random { x, kk })
    } else if hi == 0xd {
        Ok(Instruction::Draw { x, y, n: n3(w) })
    } else if hi == 0xe && kk == 0x9e {
        Ok(Instruction::SkipKey { x })
    } else if hi == 0xe && kk == 0xa1 {
        Ok(Instruction::SkipNotKey { x })
    } else if hi == 0xf && kk == 0x07 {
        Ok(Instruction::LoadDelay { x })
    } else if hi == 0xf && kk == 0x0a {
        Ok(Instruction::WaitKey { x })
    } else if hi == 0xf && kk == 0x15 {
        Ok(Instruction::SetDelay { x })
    } else if hi == 0xf && kk == 0x18 {
        Ok(Instruction::SetSound { x })
    } else if hi == 0xf && kk == 0x1e {
        Ok(Instruction::AddI { x })
    } else if hi == 0xf && kk == 0x29 {
        Ok(Instruction::Font { x })
    } else if hi == 0xf && kk == 0x33 {
        Ok(Instruction::Bcd { x })
    } else if hi == 0xf && kk == 0x55 {
        Ok(Instruction::StoreRegs { x })
    } else if hi == 0xf && kk == 0x65 {
        Ok(Instruction::LoadRegs { x })
    } else {
        Err(CpuError::UnknownOpcode { opcode: w })
    }
}

/// Every register operand of a decoded instruction is below 16.
pub open spec fn operands_in_range(i: Instruction) -> bool {
    match i {
        Instruction::SkipEqImm { x, .. } | Instruction::SkipNeImm { x, .. }
        | Instruction::LoadImm { x, .. } | Instruction::AddImm { x, .. }
        | Instruction::Random { x, .. } | Instruction::SkipKey { x }
        | Instruction::SkipNotKey { x } | Instruction::LoadDelay { x }
        | Instruction::WaitKey { x } | Instruction::SetDelay { x }
        | Instruction::SetSound { x } | Instruction::AddI { x } | Instruction::Font { x }
        | Instruction::Bcd { x } | Instruction::StoreRegs { x }
        | Instruction::LoadRegs { x } => x < 16,
        Instruction::SkipEqReg { x, y } | Instruction::SkipNeReg { x, y }
        | Instruction::Alu { x, y, .. } => x < 16 && y < 16,
        Instruction::Draw { x, y, n } => x < 16 && y < 16 && n < 16,
        Instruction::Jump { addr } | Instruction::Call { addr } | Instruction::LoadI { addr }
        | Instruction::JumpV0 { addr } => addr < 0x1000,
        _ => true,
    }
}

/// Decoded words carry operands in range.
pub proof fn lemma_decode_operands(w: u16)
    ensures
        decode_spec(w) is Ok ==> operands_in_range(decode_spec(w)->Ok_0),
{
    assert(n1(w) < 16 && n2(w) < 16 && n3(w) < 16 && addr_of(w) < 0x1000) by (bit_vector);
}

fn alu_op(n: u8) -> (r: Option<AluOp>)
    ensures
        r == alu_op_of(n),
{
    match n {
        0x0 => Some(AluOp::Ld),
        0x1 => Some(AluOp::Or),
        0x2 => Some(AluOp::And),
        0x3 => Some(AluOp::Xor),
        0x4 => Some(AluOp::Add),
        0x5 => Some(AluOp::Sub),
        0x6 => Some(AluOp::Shr),
        0x7 => Some(AluOp::SubN),
        0xe => Some(AluOp::Shl),
        _ => None,
    }
}

/// Splits an instruction word into its operand fields and looks it up in
/// the instruction table.
pub fn decode(insn: u16) -> (r: Result<Instruction, CpuError>)
    ensures
        r == decode_spec(insn),
        r is Ok ==> operands_in_range(r->Ok_0),
{
    proof {
        lemma_decode_operands(insn);
    }
    let insn_bytes: [u8; 2] = [(insn >> 8) as u8, insn as u8];
    let nib = bytes_to_nibbles(&insn_bytes);
    proof {
        let w = insn;
        assert(((w >> 8u16) as u8) >> 4u8 == n0(w)) by (bit_vector);
        assert(((w >> 8u16) as u8) & 0x0fu8 == n1(w)) by (bit_vector);
        assert((w as u8) >> 4u8 == n2(w)) by (bit_vector);
        assert((w as u8) & 0x0fu8 == n3(w)) by (bit_vector);
        assert(w as u8 == low_byte(w)) by (bit_vector);
        assert(n1(w) < 16 && n2(w) < 16 && n3(w) < 16 && n0(w) < 16) by (bit_vector);
        assert(addr_of(w) as int == n1(w) as int * 256 + n2(w) as int * 16 + n3(w) as int)
            by (bit_vector);
        assert(nib@[0] == n0(w) && nib@[1] == n1(w) && nib@[2] == n2(w) && nib@[3] == n3(w));
    }
    let x = nib[1];
    let y = nib[2];
    let kk = insn_bytes[1];
    let hi = nib[0];
    if insn == 0x00e0 {
        Ok(Instruction::ClearScreen)
    } else if insn == 0x00ee {
        Ok(Instruction::Return)
    } else if hi == 1 {
        Ok(Instruction::Jump { addr: nibbles3_to_u16(nib.as_slice()) })
    } else if hi == 2 {
        Ok(Instruction::Call { addr: nibbles3_to_u16(nib.as_slice()) })
    } else if hi == 3 {
        Ok(Instruction::SkipEqImm { x, kk })
    } else if hi == 4 {
        Ok(Instruction::SkipNeImm { x, kk })
    } else if hi == 5 && nib[3] == 0 {
        Ok(Instruction::SkipEqReg { x, y })
    } else if hi == 6 {
        Ok(Instruction::LoadImm { x, kk })
    } else if hi == 7 {
        Ok(Instruction::AddImm { x, kk })
    } else if hi == 8 {
        match alu_op(nib[3]) {
            Some(op) => Ok(Instruction::Alu { x, y, op }),
            None => Err(CpuError::UnknownOpcode { opcode: insn }),
        }
    } else if hi == 9 && nib[3] == 0 {
        Ok(Instruction::SkipNeReg { x, y })
    } else if hi == 0xa {
        Ok(Instruction::LoadI { addr: nibbles3_to_u16(nib.as_slice()) })
    } else if hi == 0xb {
        Ok(Instruction::JumpV0 { addr: nibbles3_to_u16(nib.as_slice()) })
    } else if hi == 0xc {
        Ok(Instruction::Random { x, kk })
    } else if hi == 0xd {
        Ok(Instruction::Draw { x, y, n: nib[3] })
    } else if hi == 0xe && kk == 0x9e {
        Ok(Instruction::SkipKey { x })
    } else if hi == 0xe && kk == 0xa1 {
        Ok(Instruction::SkipNotKey { x })
    } else if hi == 0xf && kk == 0x07 {
        Ok(Instruction::LoadDelay { x })
    } else if hi == 0xf && kk == 0x0a {
        Ok(Instruction::WaitKey { x })
    } else if hi == 0xf && kk == 0x15 {
        Ok(Instruction::SetDelay { x })
    } else if hi == 0xf && kk == 0x18 {
        Ok(Instruction::SetSound { x })
    } else if hi == 0xf && kk == 0x1e {
        Ok(Instruction::AddI { x })
    } else if hi == 0xf && kk == 0x29 {
        Ok(Instruction::Font { x })
    } else if hi == 0xf && kk == 0x33 {
        Ok(Instruction::Bcd { x })
    } else if hi == 0xf && kk == 0x55 {
        Ok(Instruction::StoreRegs { x })
    } else if hi == 0xf && kk == 0x65 {
        Ok(Instruction::LoadRegs { x })
    } else {
        Err(CpuError::UnknownOpcode { opcode: insn })
    }
}

} // verus!
