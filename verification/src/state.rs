//! The mathematical model of the machine and its one-instruction transition.
//!
//! `MachineState` is the view of the executable machine: plain sequences and
//! integers. `cycle` says, for every state and every value a random byte may
//! take, exactly what one fetch-decode-execute step produces: the next state
//! and the outcome handed to the driver.

use vstd::prelude::*;
use crate::decode::{decoded, Instr};
use crate::draw::{cells01, draw_collision, draw_gfx};

verus! {

/// The abstract machine state.
pub struct MachineState {
    /// 4096 bytes of addressable memory.
    pub mem: Seq<u8>,
    /// The sixteen 8-bit general registers V0..VF.
    pub v: Seq<u8>,
    /// The 16-bit index register.
    pub i: u16,
    /// The program counter: address of the next instruction to fetch.
    pub pc: u16,
    /// The live return addresses, most recent last; capacity 16.
    pub stack: Seq<u16>,
    /// The delay timer.
    pub delay: u8,
    /// The sound timer; non-zero means the tone is on.
    pub sound: u8,
    /// The 64 x 32 one-bit display grid, row-major, each cell 0 or 1.
    pub gfx: Seq<u8>,
    /// The 16-key input latch: is key k currently held?
    pub keys: Seq<bool>,
}

impl MachineState {
    /// Well-formedness: the fixed sizes of the machine's parts, the stack
    /// capacity, and the one-bit display cells.
    pub open spec fn wf(self) -> bool {
        self.mem.len() == 4096 && self.v.len() == 16 && self.stack.len() <= 16 && self.gfx.len()
            == 2048 && cells01(self.gfx) && self.keys.len() == 16
    }
}

/// Outcome of one successful engine step.
#[derive(Clone, Copy, PartialEq, Eq, Structural, Debug)]
pub enum CycleOutcome {
    /// An instruction was executed.
    Executed,
    /// The blocking input instruction found no key held: the state is
    /// unchanged and the same instruction will be fetched again.
    AwaitingKey,
}

/// A fatal condition: the loaded program or the engine state is corrupted and
/// execution must stop.
#[derive(Clone, Copy, PartialEq, Eq, Structural, Debug)]
pub enum Fatal {
    /// Return with an empty call stack.
    StackUnderflow,
    /// Call with a full call stack.
    StackOverflow,
    /// The program counter does not address two bytes of memory.
    PcOutOfBounds,
    /// An index-register-derived address reaches past the end of memory.
    MemoryOutOfBounds,
}

/// The big-endian 16-bit instruction word at the program counter.
pub open spec fn fetched(s: MachineState) -> u16 {
    (s.mem[s.pc as int] * 256 + s.mem[s.pc as int + 1]) as u16
}

/// The lowest index at or above `k` of a held key, or 16 if none is held.
pub open spec fn lowest_key_from(keys: Seq<bool>, k: int) -> int
    decreases 16 - k,
{
    if k < 0 || k >= 16 {
        16
    } else if keys[k] {
        k
    } else {
        lowest_key_from(keys, k + 1)
    }
}

/// `lowest_key_from` stays between `k` and 16, lands on a held key when it is
/// below 16, and skips held keys nowhere.
pub proof fn lemma_lowest_key_bounds(keys: Seq<bool>, k: int)
    requires
        0 <= k <= 16,
    ensures
        k <= lowest_key_from(keys, k) <= 16,
        lowest_key_from(keys, k) < 16 ==> keys[lowest_key_from(keys, k)],
        forall|j: int| k <= j < lowest_key_from(keys, k) ==> !keys[j],
    decreases 16 - k,
{
    if k < 16 && !keys[k] {
        lemma_lowest_key_bounds(keys, k + 1);
    }
}

/// The lowest-indexed held key, or 16 if none is held.
pub open spec fn lowest_key(keys: Seq<bool>) -> int {
    lowest_key_from(keys, 0)
}

/// Is any of the sixteen keys held?
pub open spec fn any_key(keys: Seq<bool>) -> bool {
    lowest_key(keys) < 16
}

/// Is the key whose index register Vx holds currently held? Values of Vx at
/// or above 16 are treated as never pressed.
pub open spec fn key_held(s: MachineState, x: int) -> bool {
    s.v[x] < 16 && s.keys[s.v[x] as int]
}

/// The state with the program counter advanced past one 2-byte instruction,
/// with 16-bit wraparound.
pub open spec fn advanced(s: MachineState) -> MachineState {
    MachineState { pc: ((s.pc + 2) % 0x10000) as u16, ..s }
}

/// The state after a conditional skip: the program counter moves past two
/// instructions when `skip` holds, past one otherwise.
pub open spec fn skipped(s: MachineState, skip: bool) -> MachineState {
    MachineState {
        pc: if skip {
            ((s.pc + 4) % 0x10000) as u16
        } else {
            ((s.pc + 2) % 0x10000) as u16
        },
        ..s
    }
}

/// The advanced state with register Vx overwritten.
pub open spec fn set_reg(s: MachineState, x: u8, val: u8) -> MachineState {
    MachineState { v: s.v.update(x as int, val), ..advanced(s) }
}

/// The advanced state with register Vx overwritten and then the flag
/// register VF, so the flag is the last register write.
pub open spec fn set_reg_flag(s: MachineState, x: u8, val: u8, flag: u8) -> MachineState {
    MachineState { v: s.v.update(x as int, val).update(15, flag), ..advanced(s) }
}

/// An all-zero display grid.
pub open spec fn blank_gfx() -> Seq<u8> {
    Seq::new(2048, |k: int| 0u8)
}

/// Memory after the three decimal digits of Vx are stored at I, I+1, I+2:
/// hundreds, tens, ones.
pub open spec fn bcd_mem(s: MachineState, x: u8) -> Seq<u8> {
    let val = s.v[x as int];
    s.mem.update(s.i as int, (val / 100) as u8).update(
        s.i as int + 1,
        ((val / 10) % 10) as u8,
    ).update(s.i as int + 2, (val % 10) as u8)
}

/// Memory after registers V0 through Vx inclusive are dumped at I.
pub open spec fn dumped_mem(s: MachineState, x: u8) -> Seq<u8> {
    Seq::new(
        4096,
        |j: int|
            if s.i as int <= j <= s.i as int + x as int {
                s.v[j - s.i as int]
            } else {
                s.mem[j]
            },
    )
}

/// The registers after V0 through Vx inclusive are loaded from memory at I.
pub open spec fn loaded_regs(s: MachineState, x: u8) -> Seq<u8> {
    Seq::new(
        16,
        |j: int|
            if j <= x as int {
                s.mem[s.i as int + j]
            } else {
                s.v[j]
            },
    )
}

/// The state and outcome after executing one decoded instruction on state
/// `s`, where `rnd` is the byte the random source produced. Only the random
/// instruction reads `rnd`.
pub open spec fn step(s: MachineState, instr: Instr, rnd: u8) -> (MachineState, Result<
    CycleOutcome,
    Fatal,
>) {
    let done = Ok::<CycleOutcome, Fatal>(CycleOutcome::Executed);
    match instr {
        Instr::Sys => (advanced(s), done),
        Instr::Cls => (MachineState { gfx: blank_gfx(), ..advanced(s) }, done),
        Instr::Ret => if s.stack.len() == 0 {
            (s, Err(Fatal::StackUnderflow))
        } else {
            (MachineState { pc: s.stack.last(), stack: s.stack.drop_last(), ..s }, done)
        },
        Instr::Jp(nnn) => (MachineState { pc: nnn, ..s }, done),
        Instr::Call(nnn) => if s.stack.len() >= 16 {
            (s, Err(Fatal::StackOverflow))
        } else {
            (
                MachineState {
                    pc: nnn,
                    stack: s.stack.push(((s.pc + 2) % 0x10000) as u16),
                    ..s
                },
                done,
            )
        },
        Instr::SeImm(x, kk) => (skipped(s, s.v[x as int] == kk), done),
        Instr::SneImm(x, kk) => (skipped(s, s.v[x as int] != kk), done),
        Instr::SeReg(x, y) => (skipped(s, s.v[x as int] == s.v[y as int]), done),
        Instr::LdImm(x, kk) => (set_reg(s, x, kk), done),
        Instr::AddImm(x, kk) => (set_reg(s, x, ((s.v[x as int] + kk) % 256) as u8), done),
        Instr::LdReg(x, y) => (set_reg(s, x, s.v[y as int]), done),
        Instr::OrReg(x, y) => (set_reg(s, x, s.v[x as int] | s.v[y as int]), done),
        Instr::AndReg(x, y) => (set_reg(s, x, s.v[x as int] & s.v[y as int]), done),
        Instr::XorReg(x, y) => (set_reg(s, x, s.v[x as int] ^ s.v[y as int]), done),
        Instr::AddReg(x, y) => {
            let sum = s.v[x as int] + s.v[y as int];
            (
                set_reg_flag(
                    s,
                    x,
                    (sum % 256) as u8,
                    if sum > 255 {
                        1
                    } else {
                        0
                    },
                ),
                done,
            )
        },
        Instr::SubReg(x, y) => (
            set_reg_flag(
                s,
                x,
                ((s.v[x as int] - s.v[y as int]) % 256) as u8,
                if s.v[x as int] >= s.v[y as int] {
                    1
                } else {
                    0
                },
            ),
            done,
        ),
        Instr::Shr(x) => (
            set_reg_flag(s, x, (s.v[x as int] / 2) as u8, (s.v[x as int] % 2) as u8),
            done,
        ),
        Instr::SubnReg(x, y) => (
            set_reg_flag(
                s,
                x,
                ((s.v[y as int] - s.v[x as int]) % 256) as u8,
                if s.v[y as int] >= s.v[x as int] {
                    1
                } else {
                    0
                },
            ),
            done,
        ),
        Instr::Shl(x) => (
            set_reg_flag(
                s,
                x,
                ((s.v[x as int] * 2) % 256) as u8,
                (s.v[x as int] / 128) as u8,
            ),
            done,
        ),
        Instr::SneReg(x, y) => (skipped(s, s.v[x as int] != s.v[y as int]), done),
        Instr::LdI(nnn) => (MachineState { i: nnn, ..advanced(s) }, done),
        Instr::JpV0(nnn) => (
            MachineState { pc: ((nnn + s.v[0]) % 0x10000) as u16, ..s },
            done,
        ),
        Instr::Rnd(x, kk) => (set_reg(s, x, rnd & kk), done),
        Instr::Drw(x, y, n) => if s.i as int + n as int > 4096 {
            (s, Err(Fatal::MemoryOutOfBounds))
        } else {
            let vx = s.v[x as int] as int;
            let vy = s.v[y as int] as int;
            (
                MachineState {
                    gfx: draw_gfx(s.gfx, s.mem, s.i as int, vx, vy, n as int),
                    v: s.v.update(
                        15,
                        if draw_collision(s.gfx, s.mem, s.i as int, vx, vy, n as int) {
                            1u8
                        } else {
                            0u8
                        },
                    ),
                    ..advanced(s)
                },
                done,
            )
        },
        Instr::Skp(x) => (skipped(s, key_held(s, x as int)), done),
        Instr::Sknp(x) => (skipped(s, !key_held(s, x as int)), done),
        Instr::LdFromDt(x) => (set_reg(s, x, s.delay), done),
        Instr::WaitKey(x) => if any_key(s.keys) {
            (set_reg(s, x, lowest_key(s.keys) as u8), done)
        } else {
            (s, Ok(CycleOutcome::AwaitingKey))
        },
        Instr::LdDt(x) => (MachineState { delay: s.v[x as int], ..advanced(s) }, done),
        Instr::LdSt(x) => (MachineState { sound: s.v[x as int], ..advanced(s) }, done),
        Instr::AddI(x) => (
            MachineState { i: ((s.i + s.v[x as int]) % 0x10000) as u16, ..advanced(s) },
            done,
        ),
        Instr::LdGlyph(x) => (
            MachineState { i: (0x50 + 5 * (s.v[x as int] % 16)) as u16, ..advanced(s) },
            done,
        ),
        Instr::Bcd(x) => if s.i as int + 3 > 4096 {
            (s, Err(Fatal::MemoryOutOfBounds))
        } else {
            (MachineState { mem: bcd_mem(s, x), ..advanced(s) }, done)
        },
        Instr::DumpRegs(x) => if s.i as int + x as int + 1 > 4096 {
            (s, Err(Fatal::MemoryOutOfBounds))
        } else {
            (MachineState { mem: dumped_mem(s, x), ..advanced(s) }, done)
        },
        Instr::LoadRegs(x) => if s.i as int + x as int + 1 > 4096 {
            (s, Err(Fatal::MemoryOutOfBounds))
        } else {
            (MachineState { v: loaded_regs(s, x), ..advanced(s) }, done)
        },
        Instr::Unknown => (advanced(s), done),
    }
}

/// One whole engine cycle on state `s`: fetch the word at the program
/// counter, decode it, and execute it, where `rnd` is the byte the random
/// source produced. A program counter that does not address two bytes of
/// memory is fatal and leaves the state unchanged.
pub open spec fn cycle(s: MachineState, rnd: u8) -> (MachineState, Result<CycleOutcome, Fatal>) {
    if s.pc as int + 1 >= 4096 {
        (s, Err(Fatal::PcOutOfBounds))
    } else {
        step(s, decoded(fetched(s)), rnd)
    }
}

} // verus!
