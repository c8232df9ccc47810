//! Instruction decoding: from a 16-bit big-endian instruction word to a tagged
//! instruction value.
//!
//! The top 4 bits of the word select a primary category; categories 0x0, 0x8,
//! 0xE and 0xF fan out further on the low nibble or low byte. A word that
//! matches no documented pattern decodes to `Unknown`, which the engine treats
//! as a no-op that still advances the program counter.

use vstd::prelude::*;

verus! {

/// One decoded CHIP-8 instruction.
///
/// Payload conventions: `x` and `y` are 4-bit register indices, `kk` is an
/// 8-bit immediate, `nnn` is a 12-bit address, `n` is a 4-bit sprite height.
#[derive(Clone, Copy, PartialEq, Eq, Structural, Debug)]
pub enum Instr {
    /// 0nnn: machine-language routine on historical hardware; ignored here.
    Sys,
    /// 00E0: clear the display.
    Cls,
    /// 00EE: return from subroutine.
    Ret,
    /// 1nnn: jump to nnn.
    Jp(u16),
    /// 2nnn: call subroutine at nnn.
    Call(u16),
    /// 3xkk: skip next instruction if Vx == kk.
    SeImm(u8, u8),
    /// 4xkk: skip next instruction if Vx != kk.
    SneImm(u8, u8),
    /// 5xy0: skip next instruction if Vx == Vy.
    SeReg(u8, u8),
    /// 6xkk: Vx := kk.
    LdImm(u8, u8),
    /// 7xkk: Vx := Vx + kk, 8-bit wraparound, no flag effect.
    AddImm(u8, u8),
    /// 8xy0: Vx := Vy.
    LdReg(u8, u8),
    /// 8xy1: Vx := Vx | Vy.
    OrReg(u8, u8),
    /// 8xy2: Vx := Vx & Vy.
    AndReg(u8, u8),
    /// 8xy3: Vx := Vx ^ Vy.
    XorReg(u8, u8),
    /// 8xy4: Vx := low 8 bits of Vx + Vy; VF := carry.
    AddReg(u8, u8),
    /// 8xy5: Vx := Vx - Vy wrapping; VF := 1 if Vx >= Vy (no borrow).
    SubReg(u8, u8),
    /// 8xy6: VF := LSB of Vx before the shift; Vx := Vx >> 1.
    Shr(u8),
    /// 8xy7: Vx := Vy - Vx wrapping; VF := 1 if Vy >= Vx.
    SubnReg(u8, u8),
    /// 8xyE: VF := MSB of Vx before the shift; Vx := low 8 bits of Vx << 1.
    Shl(u8),
    /// 9xy0: skip next instruction if Vx != Vy.
    SneReg(u8, u8),
    /// Annn: I := nnn.
    LdI(u16),
    /// Bnnn: jump to nnn + V0, 16-bit wraparound.
    JpV0(u16),
    /// Cxkk: Vx := (random byte) & kk.
    Rnd(u8, u8),
    /// Dxyn: draw the n-row sprite at memory address I at (Vx, Vy); VF := collision.
    Drw(u8, u8, u8),
    /// Ex9E: skip next instruction if key Vx is held.
    Skp(u8),
    /// ExA1: skip next instruction if key Vx is not held.
    Sknp(u8),
    /// Fx07: Vx := delay timer.
    LdFromDt(u8),
    /// Fx0A: block until any key is held; Vx := lowest-indexed held key.
    WaitKey(u8),
    /// Fx15: delay timer := Vx.
    LdDt(u8),
    /// Fx18: sound timer := Vx.
    LdSt(u8),
    /// Fx1E: I := I + Vx, 16-bit wraparound.
    AddI(u8),
    /// Fx29: I := glyph-set base + 5 * (Vx & 0xF).
    LdGlyph(u8),
    /// Fx33: memory[I..I+3] := hundreds, tens, ones digits of Vx.
    Bcd(u8),
    /// Fx55: memory[I..=I+x] := V0..=Vx.
    DumpRegs(u8),
    /// Fx65: V0..=Vx := memory[I..=I+x].
    LoadRegs(u8),
    /// Any word that matches no documented pattern: a no-op.
    Unknown,
}

impl Instr {
    /// Every register index carried by a decoded instruction is below 16,
    /// every address below 4096, every sprite height below 16.
    pub open spec fn bounded(self) -> bool {
        match self {
            Instr::Sys => true,
            Instr::Cls => true,
            Instr::Ret => true,
            Instr::Jp(nnn) => nnn < 4096,
            Instr::Call(nnn) => nnn < 4096,
            Instr::SeImm(x, _) => x < 16,
            Instr::SneImm(x, _) => x < 16,
            Instr::SeReg(x, y) => x < 16 && y < 16,
            Instr::LdImm(x, _) => x < 16,
            Instr::AddImm(x, _) => x < 16,
            Instr::LdReg(x, y) => x < 16 && y < 16,
            Instr::OrReg(x, y) => x < 16 && y < 16,
            Instr::AndReg(x, y) => x < 16 && y < 16,
            Instr::XorReg(x, y) => x < 16 && y < 16,
            Instr::AddReg(x, y) => x < 16 && y < 16,
            Instr::SubReg(x, y) => x < 16 && y < 16,
            Instr::Shr(x) => x < 16,
            Instr::SubnReg(x, y) => x < 16 && y < 16,
            Instr::Shl(x) => x < 16,
            Instr::SneReg(x, y) => x < 16 && y < 16,
            Instr::LdI(nnn) => nnn < 4096,
            Instr::JpV0(nnn) => nnn < 4096,
            Instr::Rnd(x, _) => x < 16,
            Instr::Drw(x, y, n) => x < 16 && y < 16 && n < 16,
            Instr::Skp(x) => x < 16,
            Instr::Sknp(x) => x < 16,
            Instr::LdFromDt(x) => x < 16,
            Instr::WaitKey(x) => x < 16,
            Instr::LdDt(x) => x < 16,
            Instr::LdSt(x) => x < 16,
            Instr::AddI(x) => x < 16,
            Instr::LdGlyph(x) => x < 16,
            Instr::Bcd(x) => x < 16,
            Instr::DumpRegs(x) => x < 16,
            Instr::LoadRegs(x) => x < 16,
            Instr::Unknown => true,
        }
    }
}

/// What `decode` returns for each instruction word, written with plain
/// arithmetic over the word's nibble fields.
pub open spec fn decoded(op: u16) -> Instr {
    let x = ((op / 256) % 16) as u8;
    let y = ((op / 16) % 16) as u8;
    let kk = (op % 256) as u8;
    let nnn = (op % 4096) as u16;
    let n = (op % 16) as u8;
    match op / 4096 {
        0x0 => if op == 0x00E0 {
            Instr::Cls
        } else if op == 0x00EE {
            Instr::Ret
        } else {
            Instr::Sys
        },
        0x1 => Instr::Jp(nnn),
        0x2 => Instr::Call(nnn),
        0x3 => Instr::SeImm(x, kk),
        0x4 => Instr::SneImm(x, kk),
        0x5 => if op % 16 == 0 {
            Instr::SeReg(x, y)
        } else {
            Instr::Unknown
        },
        0x6 => Instr::LdImm(x, kk),
        0x7 => Instr::AddImm(x, kk),
        0x8 => match op % 16 {
            0x0 => Instr::LdReg(x, y),
            0x1 => Instr::OrReg(x, y),
            0x2 => Instr::AndReg(x, y),
            0x3 => Instr::XorReg(x, y),
            0x4 => Instr::AddReg(x, y),
            0x5 => Instr::SubReg(x, y),
            0x6 => Instr::Shr(x),
            0x7 => Instr::SubnReg(x, y),
            0xE => Instr::Shl(x),
            _ => Instr::Unknown,
        },
        0x9 => if op % 16 == 0 {
            Instr::SneReg(x, y)
        } else {
            Instr::Unknown
        },
        0xA => Instr::LdI(nnn),
        0xB => Instr::JpV0(nnn),
        0xC => Instr::Rnd(x, kk),
        0xD => Instr::Drw(x, y, n),
        0xE => if op % 256 == 0x9E {
            Instr::Skp(x)
        } else if op % 256 == 0xA1 {
            Instr::Sknp(x)
        } else {
            Instr::Unknown
        },
        _ => match op % 256 {
            0x07 => Instr::LdFromDt(x),
            0x0A => Instr::WaitKey(x),
            0x15 => Instr::LdDt(x),
            0x18 => Instr::LdSt(x),
            0x1E => Instr::AddI(x),
            0x29 => Instr::LdGlyph(x),
            0x33 => Instr::Bcd(x),
            0x55 => Instr::DumpRegs(x),
            0x65 => Instr::LoadRegs(x),
            _ => Instr::Unknown,
        },
    }
}

/// The nibble fields read by mask and shift agree with their arithmetic
/// definitions, and each lies within its width.
proof fn lemma_opcode_fields(op: u16)
    by (bit_vector)
    ensures
        op >> 12u16 == op / 4096,
        (op >> 8u16) & 0xF == (op / 256) % 16,
        (op >> 4u16) & 0xF == (op / 16) % 16,
        op & 0xFF == op % 256,
        op & 0x0FFF == op % 4096,
        op & 0xF == op % 16,
        op / 4096 < 16,
        (op / 256) % 16 < 16,
        (op / 16) % 16 < 16,
        op % 256 < 256,
        op % 4096 < 4096,
        op % 16 < 16,
{
}

/// Decode one instruction word.
pub fn decode(op: u16) -> (instr: Instr)
    ensures
        instr == decoded(op),
        instr.bounded(),
{
    proof {
        lemma_opcode_fields(op);
    }
    let x = ((op >> 8u16) & 0xF) as u8;
    let y = ((op >> 4u16) & 0xF) as u8;
    let kk = (op & 0xFF) as u8;
    let nnn = op & 0x0FFF;
    let n = (op & 0xF) as u8;
    match op >> 12u16 {
        0x0 => if op == 0x00E0 {
            Instr::Cls
        } else if op == 0x00EE {
            Instr::Ret
        } else {
            Instr::Sys
        },
        0x1 => Instr::Jp(nnn),
        0x2 => Instr::Call(nnn),
        0x3 => Instr::SeImm(x, kk),
        0x4 => Instr::SneImm(x, kk),
        0x5 => if n == 0 {
            Instr::SeReg(x, y)
        } else {
            Instr::Unknown
        },
        0x6 => Instr::LdImm(x, kk),
        0x7 => Instr::AddImm(x, kk),
        0x8 => match n {
            0x0 => Instr::LdReg(x, y),
            0x1 => Instr::OrReg(x, y),
            0x2 => Instr::AndReg(x, y),
            0x3 => Instr::XorReg(x, y),
            0x4 => Instr::AddReg(x, y),
            0x5 => Instr::SubReg(x, y),
            0x6 => Instr::Shr(x),
            0x7 => Instr::SubnReg(x, y),
            0xE => Instr::Shl(x),
            _ => Instr::Unknown,
        },
        0x9 => if n == 0 {
            Instr::SneReg(x, y)
        } else {
            Instr::Unknown
        },
        0xA => Instr::LdI(nnn),
        0xB => Instr::JpV0(nnn),
        0xC => Instr::Rnd(x, kk),
        0xD => Instr::Drw(x, y, n),
        0xE => if kk == 0x9E {
            Instr::Skp(x)
        } else if kk == 0xA1 {
            Instr::Sknp(x)
        } else {
            Instr::Unknown
        },
        _ => match kk {
            0x07 => Instr::LdFromDt(x),
            0x0A => Instr::WaitKey(x),
            0x15 => Instr::LdDt(x),
            0x18 => Instr::LdSt(x),
            0x1E => Instr::AddI(x),
            0x29 => Instr::LdGlyph(x),
            0x33 => Instr::Bcd(x),
            0x55 => Instr::DumpRegs(x),
            0x65 => Instr::LoadRegs(x),
            _ => Instr::Unknown,
        },
    }
}

} // verus!
