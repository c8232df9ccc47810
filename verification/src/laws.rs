//! Laws of the instruction semantics, stated and proved over the `step` and
//! `cycle` transition functions.

use vstd::prelude::*;
use vstd::arithmetic::div_mod::lemma_mod_division_less_than_divisor;
use crate::decode::{decoded, Instr};
use crate::state::{
    cycle, fetched, lemma_lowest_key_bounds, lowest_key, step, CycleOutcome, Fatal, MachineState,
};

verus! {

/// Add-with-carry: for all byte values a and b held in Vx and Vy, the
/// register add sets VF to 1 exactly when a + b > 255, and Vx receives
/// (a + b) mod 256 — unless Vx is VF itself, whose last write is the flag.
pub proof fn law_add_with_carry(s: MachineState, x: u8, y: u8, rnd: u8)
    requires
        s.wf(),
        x < 16,
        y < 16,
    ensures
        ({
            let (s1, res) = step(s, Instr::AddReg(x, y), rnd);
            let a = s.v[x as int] as int;
            let b = s.v[y as int] as int;
            res == Ok::<CycleOutcome, Fatal>(CycleOutcome::Executed) && s1.v[15] == (if a + b
                > 255 {
                1u8
            } else {
                0u8
            }) && (x != 15 ==> s1.v[x as int] == (a + b) % 256)
        }),
{
    let a = s.v[x as int] as int;
    let b = s.v[y as int] as int;
    lemma_mod_division_less_than_divisor(a + b, 256);
}

/// Subtract with no-borrow flag: for all byte values a and b held in Vx and
/// Vy, the register subtract sets VF to 1 exactly when a >= b, and Vx
/// receives the wrapping difference (a - b) mod 256 — unless Vx is VF itself,
/// whose last write is the flag.
pub proof fn law_sub_no_borrow(s: MachineState, x: u8, y: u8, rnd: u8)
    requires
        s.wf(),
        x < 16,
        y < 16,
    ensures
        ({
            let (s1, res) = step(s, Instr::SubReg(x, y), rnd);
            let a = s.v[x as int] as int;
            let b = s.v[y as int] as int;
            res == Ok::<CycleOutcome, Fatal>(CycleOutcome::Executed) && s1.v[15] == (if a >= b {
                1u8
            } else {
                0u8
            }) && (x != 15 ==> s1.v[x as int] == (a - b) % 256)
        }),
{
    let a = s.v[x as int] as int;
    let b = s.v[y as int] as int;
    lemma_mod_division_less_than_divisor(a - b, 256);
}

/// The shifts capture the pre-shift low bit (shift right) and high bit
/// (shift left) of Vx in VF, independent of the value the shift leaves in Vx.
pub proof fn law_shift_flags(s: MachineState, x: u8, rnd: u8)
    requires
        s.wf(),
        x < 16,
    ensures
        ({
            let (sr, rr) = step(s, Instr::Shr(x), rnd);
            let (sl, rl) = step(s, Instr::Shl(x), rnd);
            let a = s.v[x as int] as int;
            rr == Ok::<CycleOutcome, Fatal>(CycleOutcome::Executed) && rl == Ok::<
                CycleOutcome,
                Fatal,
            >(CycleOutcome::Executed) && sr.v[15] == a % 2 && sl.v[15] == a / 128 && (x != 15
                ==> sr.v[x as int] == a / 2) && (x != 15 ==> sl.v[x as int] == (a * 2) % 256)
        }),
{
    let a = s.v[x as int] as int;
    lemma_mod_division_less_than_divisor(a * 2, 256);
}

/// Skip-if-equal advances the program counter by 4 when the comparison
/// holds and by 2 otherwise, and touches nothing else.
pub proof fn law_skip_if_equal(s: MachineState, x: u8, kk: u8, rnd: u8)
    requires
        s.wf(),
        x < 16,
        s.pc as int + 4 < 0x10000,
    ensures
        ({
            let (s1, res) = step(s, Instr::SeImm(x, kk), rnd);
            res == Ok::<CycleOutcome, Fatal>(CycleOutcome::Executed) && s1.pc as int == (if s.v[
                x as int
            ] == kk {
                s.pc + 4
            } else {
                s.pc + 2
            }) && s1.v == s.v && s1.mem == s.mem && s1.stack == s.stack && s1.gfx == s.gfx
        }),
{
}

/// Call/return round trip: a call whose target holds the return instruction,
/// followed by that return, leaves the program counter exactly at the
/// instruction after the call, the stack depth unchanged, and every register,
/// memory byte and display cell untouched.
#[verifier::rlimit(100)]
pub proof fn law_call_return_round_trip(s: MachineState, nnn: u16, rnd1: u8, rnd2: u8)
    requires
        s.wf(),
        s.pc as int + 1 < 4096,
        decoded(fetched(s)) == Instr::Call(nnn),
        s.stack.len() < 16,
        nnn as int + 1 < 4096,
        s.mem[nnn as int] == 0x00,
        s.mem[nnn as int + 1] == 0xEE,
    ensures
        ({
            let (s1, r1) = cycle(s, rnd1);
            let (s2, r2) = cycle(s1, rnd2);
            r1 == Ok::<CycleOutcome, Fatal>(CycleOutcome::Executed) && r2 == Ok::<
                CycleOutcome,
                Fatal,
            >(CycleOutcome::Executed) && s2.pc as int == s.pc + 2 && s2.stack == s.stack && s2.v
                == s.v && s2.mem == s.mem && s2.gfx == s.gfx && s2.i == s.i && s2.delay == s.delay
                && s2.sound == s.sound && s2.keys == s.keys
        }),
{
    let (s1, r1) = cycle(s, rnd1);
    assert(s1.pc == nnn);
    assert(fetched(s1) == 0x00EE) by {
        assert(s1.mem[nnn as int] * 256 + s1.mem[nnn as int + 1] == 0xEE);
    }
    assert(decoded(0x00EE) == Instr::Ret);
    let (s2, r2) = cycle(s1, rnd2);
    assert(s1.stack.last() == ((s.pc + 2) % 0x10000) as u16);
    assert(s1.stack.drop_last() =~= s.stack);
    assert(s2.pc as int == s.pc + 2);
}

/// Blocking input with no key held: one engine cycle leaves the whole state
/// — program counter, registers, everything — exactly unchanged and reports
/// that the machine awaits a key, so every further cycle does the same until
/// the host changes the key latch or ticks the timers.
pub proof fn law_wait_key_blocks(s: MachineState, x: u8, rnd: u8)
    requires
        s.wf(),
        s.pc as int + 1 < 4096,
        decoded(fetched(s)) == Instr::WaitKey(x),
        forall|k: int| 0 <= k < 16 ==> !s.keys[k],
    ensures
        cycle(s, rnd) == (s, Ok::<CycleOutcome, Fatal>(CycleOutcome::AwaitingKey)),
{
    lemma_lowest_key_bounds(s.keys, 0);
}

/// Blocking input once a key is held: one engine cycle advances the program
/// counter by exactly 2 and writes the lowest-indexed held key to Vx, leaving
/// every other register and the rest of the state unchanged.
pub proof fn law_wait_key_release(s: MachineState, x: u8, rnd: u8)
    requires
        s.wf(),
        x < 16,
        s.pc as int + 1 < 4096,
        decoded(fetched(s)) == Instr::WaitKey(x),
        exists|k: int| 0 <= k < 16 && s.keys[k],
    ensures
        ({
            let (s1, res) = cycle(s, rnd);
            res == Ok::<CycleOutcome, Fatal>(CycleOutcome::Executed) && s1.pc as int == s.pc + 2
                && s1.v == s.v.update(x as int, lowest_key(s.keys) as u8) && s1.v[x as int] as int
                == lowest_key(s.keys) && s.keys[s1.v[x as int] as int] && (forall|k: int|
                0 <= k < s1.v[x as int] as int ==> !s.keys[k]) && s1.mem == s.mem && s1.stack
                == s.stack && s1.gfx == s.gfx && s1.i == s.i && s1.delay == s.delay && s1.sound
                == s.sound && s1.keys == s.keys
        }),
{
    lemma_lowest_key_bounds(s.keys, 0);
    let lo = lowest_key(s.keys);
    if lo >= 16 {
        let k = choose|k: int| 0 <= k < 16 && s.keys[k];
        assert(!s.keys[k]);
        assert(false);
    }
}

} // verus!
