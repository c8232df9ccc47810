//! The executable machine: state, construction, program loading, the
//! fetch-decode-execute engine, and the timer driver.
//!
//! Every public operation is specified against the abstract `MachineState`
//! view and the `step` / `cycle` transition functions of `crate::state`.

use vstd::prelude::*;
use vstd::arithmetic::div_mod::lemma_fundamental_div_mod_converse;
use crate::decode::{decode, decoded, Instr};
use crate::draw::{blit_sprite, draw_collision, draw_gfx};
use crate::state::{
    advanced, any_key, bcd_mem, blank_gfx, cycle, dumped_mem, fetched, lemma_lowest_key_bounds,
    loaded_regs, lowest_key, lowest_key_from, set_reg, set_reg_flag, skipped, step, CycleOutcome,
    Fatal, MachineState,
};

verus! {

/// Rejected program image: it would not fit in memory.
#[derive(Clone, Copy, PartialEq, Eq, Structural, Debug)]
pub enum LoadError {
    /// The image would write past the end of addressable memory.
    ImageTooLarge,
}

/// The CHIP-8 machine.
pub struct Chip8 {
    /// 4096 bytes of addressable memory.
    pub memory: Vec<u8>,
    /// The sixteen general registers V0..VF.
    pub v: Vec<u8>,
    /// The 16-bit index register.
    pub i: u16,
    /// The program counter.
    pub pc: u16,
    /// The live return addresses, most recent last; capacity 16.
    pub stack: Vec<u16>,
    /// The delay timer.
    pub delay_timer: u8,
    /// The sound timer.
    pub sound_timer: u8,
    /// The 64 x 32 one-bit display grid, row-major.
    pub gfx: Vec<u8>,
    /// The 16-key input latch, written by the host, read by the engine.
    pub keypad: Vec<bool>,
}

impl View for Chip8 {
    type V = MachineState;

    open spec fn view(&self) -> MachineState {
        MachineState {
            mem: self.memory@,
            v: self.v@,
            i: self.i,
            pc: self.pc,
            stack: self.stack@,
            delay: self.delay_timer,
            sound: self.sound_timer,
            gfx: self.gfx@,
            keys: self.keypad@,
        }
    }
}

/// The built-in glyph set: five bytes of sprite rows for each of the sixteen
/// hexadecimal digits, installed at memory 0x50 on creation.
pub open spec fn glyphs() -> Seq<u8> {
    seq![
        0xF0u8, 0x90, 0x90, 0x90, 0xF0,  // 0
        0x20, 0x60, 0x20, 0x20, 0x70,  // 1
        0xF0, 0x10, 0xF0, 0x80, 0xF0,  // 2
        0xF0, 0x10, 0xF0, 0x10, 0xF0,  // 3
        0x90, 0x90, 0xF0, 0x10, 0x10,  // 4
        0xF0, 0x80, 0xF0, 0x10, 0xF0,  // 5
        0xF0, 0x80, 0xF0, 0x90, 0xF0,  // 6
        0xF0, 0x10, 0x20, 0x40, 0x40,  // 7
        0xF0, 0x90, 0xF0, 0x90, 0xF0,  // 8
        0xF0, 0x90, 0xF0, 0x10, 0xF0,  // 9
        0xF0, 0x90, 0xF0, 0x90, 0x90,  // A
        0xE0, 0x90, 0xE0, 0x90, 0xE0,  // B
        0xF0, 0x80, 0x80, 0x80, 0xF0,  // C
        0xE0, 0x90, 0x90, 0x90, 0xE0,  // D
        0xF0, 0x80, 0xF0, 0x80, 0xF0,  // E
        0xF0, 0x80, 0xF0, 0x80, 0x80,  // F
    ]
}

/// A vector of `n` copies of `val`.
fn filled<T: Copy>(n: usize, val: T) -> (v: Vec<T>)
    ensures
        v@.len() == n,
        forall|k: int| 0 <= k < n ==> v@[k] == val,
{
    let mut v: Vec<T> = Vec::new();
    while v.len() < n
        invariant
            v@.len() <= n,
            forall|k: int| 0 <= k < v@.len() ==> v@[k] == val,
        decreases n - v@.len(),
    {
        v.push(val);
    }
    v
}

/// The glyph set as an executable table.
fn glyph_table() -> (v: Vec<u8>)
    ensures
        v@ == glyphs(),
{
    let mut v: Vec<u8> = Vec::new();
    v.push(0xF0);
    v.push(0x90);
    v.push(0x90);
    v.push(0x90);
    v.push(0xF0);
    v.push(0x20);
    v.push(0x60);
    v.push(0x20);
    v.push(0x20);
    v.push(0x70);
    v.push(0xF0);
    v.push(0x10);
    v.push(0xF0);
    v.push(0x80);
    v.push(0xF0);
    v.push(0xF0);
    v.push(0x10);
    v.push(0xF0);
    v.push(0x10);
    v.push(0xF0);
    v.push(0x90);
    v.push(0x90);
    v.push(0xF0);
    v.push(0x10);
    v.push(0x10);
    v.push(0xF0);
    v.push(0x80);
    v.push(0xF0);
    v.push(0x10);
    v.push(0xF0);
    v.push(0xF0);
    v.push(0x80);
    v.push(0xF0);
    v.push(0x90);
    v.push(0xF0);
    v.push(0xF0);
    v.push(0x10);
    v.push(0x20);
    v.push(0x40);
    v.push(0x40);
    v.push(0xF0);
    v.push(0x90);
    v.push(0xF0);
    v.push(0x90);
    v.push(0xF0);
    v.push(0xF0);
    v.push(0x90);
    v.push(0xF0);
    v.push(0x10);
    v.push(0xF0);
    v.push(0xF0);
    v.push(0x90);
    v.push(0xF0);
    v.push(0x90);
    v.push(0x90);
    v.push(0xE0);
    v.push(0x90);
    v.push(0xE0);
    v.push(0x90);
    v.push(0xE0);
    v.push(0xF0);
    v.push(0x80);
    v.push(0x80);
    v.push(0x80);
    v.push(0xF0);
    v.push(0xE0);
    v.push(0x90);
    v.push(0x90);
    v.push(0x90);
    v.push(0xE0);
    v.push(0xF0);
    v.push(0x80);
    v.push(0xF0);
    v.push(0x80);
    v.push(0xF0);
    v.push(0xF0);
    v.push(0x80);
    v.push(0xF0);
    v.push(0x80);
    v.push(0x80);
    proof {
        assert(v@ =~= glyphs());
    }
    v
}

/// Relies on rand::random: one byte from the thread-local generator. Nothing
/// is promised of its value: what callers prove must hold for every byte.
#[verifier::external_body]
fn random_byte() -> u8 {
    rand::random()
}

/// Two big-endian bytes read as one 16-bit word.
proof fn lemma_bytes_to_word(hi: u8, lo: u8)
    by (bit_vector)
    ensures
        ((hi as u16) << 8u16) | (lo as u16) == hi as u16 * 256 + lo as u16,
{
}

/// The mod-65536 form of a 16-bit sum written out as a conditional.
proof fn lemma_mod65536(a: int, b: int)
    requires
        0 <= a < 0x10000,
        0 <= b < 0x10000,
    ensures
        (a + b) % 0x10000 == (if a + b > 0xFFFF {
            a + b - 0x10000
        } else {
            a + b
        }),
{
    if a + b > 0xFFFF {
        lemma_fundamental_div_mod_converse(a + b, 0x10000, 1, a + b - 0x10000);
    } else {
        lemma_fundamental_div_mod_converse(a + b, 0x10000, 0, a + b);
    }
}

/// The mod-256 forms of byte sums, differences and doublings written out as
/// conditionals.
proof fn lemma_mod256(a: int, b: int)
    requires
        0 <= a < 256,
        0 <= b < 256,
    ensures
        (a - b) % 256 == (if a >= b {
            a - b
        } else {
            a - b + 256
        }),
        (a + b) % 256 == (if a + b > 255 {
            a + b - 256
        } else {
            a + b
        }),
        (a * 2) % 256 == (if a >= 128 {
            a * 2 - 256
        } else {
            a * 2
        }),
{
    if a >= b {
        lemma_fundamental_div_mod_converse(a - b, 256, 0, a - b);
    } else {
        lemma_fundamental_div_mod_converse(a - b, 256, -1, a - b + 256);
    }
    if a + b > 255 {
        lemma_fundamental_div_mod_converse(a + b, 256, 1, a + b - 256);
    } else {
        lemma_fundamental_div_mod_converse(a + b, 256, 0, a + b);
    }
    if a >= 128 {
        lemma_fundamental_div_mod_converse(a * 2, 256, 1, a * 2 - 256);
    } else {
        lemma_fundamental_div_mod_converse(a * 2, 256, 0, a * 2);
    }
}

impl Chip8 {
    /// Well-formedness of the machine: the view is a well-formed state.
    pub open spec fn wf(self) -> bool {
        self@.wf()
    }

    /// A fresh machine: zeroed registers, timers, display, keys and stack,
    /// the program counter at 0x200, and the glyph set installed at 0x50.
    pub fn new() -> (m: Chip8)
        ensures
            m.wf(),
            m@.pc == 0x200,
            m@.i == 0,
            m@.stack.len() == 0,
            m@.delay == 0,
            m@.sound == 0,
            forall|k: int| 0 <= k < 16 ==> m@.v[k] == 0,
            forall|k: int| 0 <= k < 2048 ==> m@.gfx[k] == 0,
            forall|k: int| 0 <= k < 16 ==> !m@.keys[k],
            forall|k: int| 0 <= k < 80 ==> m@.mem[0x50 + k] == glyphs()[k],
            forall|k: int| 0 <= k < 4096 && !(0x50 <= k < 0xA0) ==> m@.mem[k] == 0,
    {
        let mut memory = filled::<u8>(4096, 0);
        let font = glyph_table();
        proof {
            assert(glyphs().len() == 80);
        }
        let mut k: usize = 0;
        while k < 80
            invariant
                memory@.len() == 4096,
                font@ == glyphs(),
                glyphs().len() == 80,
                k <= 80,
                forall|j: int| 0 <= j < k ==> memory@[0x50 + j] == glyphs()[j],
                forall|j: int| 0 <= j < 4096 && !(0x50 <= j < 0x50 + k) ==> memory@[j] == 0,
            decreases 80 - k,
        {
            memory.set(0x50 + k, font[k]);
            k += 1;
        }
        Chip8 {
            memory,
            v: filled::<u8>(16, 0),
            i: 0,
            pc: 0x200,
            stack: Vec::new(),
            delay_timer: 0,
            sound_timer: 0,
            gfx: filled::<u8>(2048, 0),
            keypad: filled::<bool>(16, false),
        }
    }

    /// Copy a program image into memory at the program base 0x200. An image
    /// that would write past the end of memory is rejected whole and the
    /// machine is left unchanged. Instruction well-formedness is not checked:
    /// invalid opcodes are a runtime concern of the engine.
    pub fn load_rom(&mut self, rom: &Vec<u8>) -> (r: Result<(), LoadError>)
        requires
            old(self).wf(),
        ensures
            final(self).wf(),
            r is Ok <==> 0x200 + rom@.len() <= 4096,
            r is Err ==> r == Err::<(), LoadError>(LoadError::ImageTooLarge)
                && final(self)@ == old(self)@,
            r is Ok ==> final(self)@ == (MachineState {
                mem: Seq::new(
                    4096,
                    |j: int|
                        if 0x200 <= j < 0x200 + rom@.len() {
                            rom@[j - 0x200]
                        } else {
                            old(self)@.mem[j]
                        },
                ),
                ..old(self)@
            }),
    {
        if rom.len() > 4096 - 0x200 {
            return Err(LoadError::ImageTooLarge);
        }
        let ghost pre = self@;
        let mut k: usize = 0;
        while k < rom.len()
            invariant
                self@ == (MachineState { mem: self@.mem, ..pre }),
                self@.mem.len() == 4096,
                rom@.len() <= 4096 - 0x200,
                k <= rom@.len(),
                forall|j: int| 0x200 <= j < 0x200 + k ==> self@.mem[j] == rom@[j - 0x200],
                forall|j: int|
                    0 <= j < 4096 && !(0x200 <= j < 0x200 + k) ==> self@.mem[j] == pre.mem[j],
            decreases rom@.len() - k,
        {
            self.memory.set(0x200 + k, rom[k]);
            k += 1;
        }
        proof {
            assert(self@.mem =~= Seq::new(
                4096,
                |j: int|
                    if 0x200 <= j < 0x200 + rom@.len() {
                        rom@[j - 0x200]
                    } else {
                        pre.mem[j]
                    },
            ));
        }
        Ok(())
    }

    /// Overwrite the 16-key latch with the host's current key state.
    pub fn update_keys(&mut self, keys: &Vec<bool>)
        requires
            old(self).wf(),
            keys@.len() == 16,
        ensures
            final(self).wf(),
            final(self)@ == (MachineState { keys: keys@, ..old(self)@ }),
    {
        let ghost pre = self@;
        let mut k: usize = 0;
        while k < 16
            invariant
                self@ == (MachineState { keys: self@.keys, ..pre }),
                self@.keys.len() == 16,
                keys@.len() == 16,
                k <= 16,
                forall|j: int| 0 <= j < k ==> self@.keys[j] == keys@[j],
                forall|j: int| k <= j < 16 ==> self@.keys[j] == pre.keys[j],
            decreases 16 - k,
        {
            self.keypad.set(k, keys[k]);
            k += 1;
        }
        proof {
            assert(self@.keys =~= keys@);
        }
    }

    /// The lowest-indexed currently held key, if any key is held.
    pub fn get_pressed_key(&self) -> (r: Option<usize>)
        requires
            self.wf(),
        ensures
            r == (if any_key(self@.keys) {
                Some(lowest_key(self@.keys) as usize)
            } else {
                None::<usize>
            }),
    {
        let mut k: usize = 0;
        while k < 16
            invariant
                self.wf(),
                k <= 16,
                lowest_key(self@.keys) == lowest_key_from(self@.keys, k as int),
            decreases 16 - k,
        {
            if self.keypad[k] {
                return Some(k);
            }
            k += 1;
        }
        None
    }

    /// The big-endian instruction word at the program counter.
    pub fn fetch_opcode(&self) -> (op: u16)
        requires
            self.wf(),
            self@.pc as int + 1 < 4096,
        ensures
            op == fetched(self@),
    {
        let hi = self.memory[self.pc as usize];
        let lo = self.memory[self.pc as usize + 1];
        proof {
            lemma_bytes_to_word(hi, lo);
        }
        ((hi as u16) << 8u16) | (lo as u16)
    }

    /// One tick of the timer driver: each timer goes down by one, clamped at
    /// zero. Called at a fixed logical rate, independent of how many
    /// instructions execute between ticks.
    pub fn tick_timers(&mut self)
        requires
            old(self).wf(),
        ensures
            final(self).wf(),
            final(self)@ == (MachineState {
                delay: if old(self)@.delay > 0 {
                    (old(self)@.delay - 1) as u8
                } else {
                    0
                },
                sound: if old(self)@.sound > 0 {
                    (old(self)@.sound - 1) as u8
                } else {
                    0
                },
                ..old(self)@
            }),
    {
        if self.delay_timer > 0 {
            self.delay_timer = self.delay_timer - 1;
        }
        if self.sound_timer > 0 {
            self.sound_timer = self.sound_timer - 1;
        }
    }

    /// Is the tone on: the sound timer is non-zero.
    pub fn sound_active(&self) -> (b: bool)
        ensures
            b == (self@.sound > 0),
    {
        self.sound_timer > 0
    }

    /// The display as one 32-bit pixel per cell: white where the cell is 1,
    /// black otherwise. The presentation layer shows this buffer unchanged.
    pub fn render(&self) -> (buf: Vec<u32>)
        requires
            self.wf(),
        ensures
            buf@.len() == 2048,
            forall|k: int|
                0 <= k < 2048 ==> buf@[k] == (if self@.gfx[k] == 1 {
                    0xFFFFFFu32
                } else {
                    0u32
                }),
    {
        let mut buf: Vec<u32> = Vec::new();
        let mut k: usize = 0;
        while k < 2048
            invariant
                self.wf(),
                k <= 2048,
                buf@.len() == k,
                forall|j: int|
                    0 <= j < k ==> buf@[j] == (if self@.gfx[j] == 1 {
                        0xFFFFFFu32
                    } else {
                        0u32
                    }),
            decreases 2048 - k,
        {
            if self.gfx[k] == 1 {
                buf.push(0xFFFFFF);
            } else {
                buf.push(0x000000);
            }
            k += 1;
        }
        buf
    }

    /// Clear the display and advance the program counter.
    pub fn op_00e0(&mut self)
        requires
            old(self).wf(),
        ensures
            final(self).wf(),
            final(self)@ == (MachineState { gfx: blank_gfx(), ..advanced(old(self)@) }),
    {
        self.gfx = filled::<u8>(2048, 0);
        self.pc = self.pc.wrapping_add(2);
        proof {
            assert(self@.gfx =~= blank_gfx());
        }
    }

    /// Return from a subroutine: pop the return address into the program
    /// counter. An empty stack is fatal.
    pub fn op_00ee(&mut self) -> (r: Result<(), Fatal>)
        requires
            old(self).wf(),
        ensures
            final(self).wf(),
            old(self)@.stack.len() == 0 ==> r == Err::<(), Fatal>(Fatal::StackUnderflow)
                && final(self)@ == old(self)@,
            old(self)@.stack.len() > 0 ==> r == Ok::<(), Fatal>(()) && final(self)@
                == (MachineState {
                pc: old(self)@.stack.last(),
                stack: old(self)@.stack.drop_last(),
                ..old(self)@
            }),
    {
        match self.stack.pop() {
            None => Err(Fatal::StackUnderflow),
            Some(addr) => {
                self.pc = addr;
                Ok(())
            },
        }
    }

    /// Call the subroutine at `nnn`: push the address of the next instruction
    /// and jump. A full stack is fatal.
    pub fn op_2nnn(&mut self, nnn: u16) -> (r: Result<(), Fatal>)
        requires
            old(self).wf(),
        ensures
            final(self).wf(),
            old(self)@.stack.len() >= 16 ==> r == Err::<(), Fatal>(Fatal::StackOverflow)
                && final(self)@ == old(self)@,
            old(self)@.stack.len() < 16 ==> r == Ok::<(), Fatal>(()) && final(self)@
                == (MachineState {
                pc: nnn,
                stack: old(self)@.stack.push(((old(self)@.pc + 2) % 0x10000) as u16),
                ..old(self)@
            }),
    {
        if self.stack.len() >= 16 {
            return Err(Fatal::StackOverflow);
        }
        let ret = self.pc.wrapping_add(2);
        self.stack.push(ret);
        self.pc = nnn;
        Ok(())
    }

    /// Draw the `n`-row sprite at memory address I at position (Vx, Vy):
    /// XOR-blit with per-pixel wraparound; VF becomes 1 exactly when some 1
    /// sprite pixel lands on a cell that already holds 1, and is written
    /// last.
    pub fn op_dxyn(&mut self, x: u8, y: u8, n: u8)
        requires
            old(self).wf(),
            x < 16,
            y < 16,
            n < 16,
            old(self)@.i as int + n as int <= 4096,
        ensures
            final(self).wf(),
            final(self)@ == (MachineState {
                gfx: draw_gfx(
                    old(self)@.gfx,
                    old(self)@.mem,
                    old(self)@.i as int,
                    old(self)@.v[x as int] as int,
                    old(self)@.v[y as int] as int,
                    n as int,
                ),
                v: old(self)@.v.update(
                    15,
                    if draw_collision(
                        old(self)@.gfx,
                        old(self)@.mem,
                        old(self)@.i as int,
                        old(self)@.v[x as int] as int,
                        old(self)@.v[y as int] as int,
                        n as int,
                    ) {
                        1u8
                    } else {
                        0u8
                    },
                ),
                ..advanced(old(self)@)
            }),
    {
        let vx = self.v[x as usize];
        let vy = self.v[y as usize];
        let coll = blit_sprite(&mut self.gfx, &self.memory, self.i, vx, vy, n);
        if coll {
            self.v.set(15, 1);
        } else {
            self.v.set(15, 0);
        }
        self.pc = self.pc.wrapping_add(2);
    }

    /// Dump registers V0 through Vx inclusive to memory starting at I.
    pub fn op_fx55(&mut self, x: u8)
        requires
            old(self).wf(),
            x < 16,
            old(self)@.i as int + x as int + 1 <= 4096,
        ensures
            final(self).wf(),
            final(self)@ == (MachineState {
                mem: dumped_mem(old(self)@, x),
                ..advanced(old(self)@)
            }),
    {
        let ghost pre = self@;
        let mut k: u8 = 0;
        while k <= x
            invariant
                self@ == (MachineState { mem: self@.mem, ..pre }),
                self@.mem.len() == 4096,
                pre.wf(),
                x < 16,
                k <= x + 1,
                pre.i as int + x as int + 1 <= 4096,
                forall|j: int|
                    pre.i as int <= j < pre.i as int + k as int ==> self@.mem[j] == pre.v[j
                        - pre.i as int],
                forall|j: int|
                    0 <= j < 4096 && !(pre.i as int <= j < pre.i as int + k as int)
                        ==> self@.mem[j] == pre.mem[j],
            decreases x + 1 - k,
        {
            self.memory.set(self.i as usize + k as usize, self.v[k as usize]);
            k += 1;
        }
        self.pc = self.pc.wrapping_add(2);
        proof {
            assert(self@.mem =~= dumped_mem(pre, x));
        }
    }

    /// Load registers V0 through Vx inclusive from memory starting at I.
    pub fn op_fx65(&mut self, x: u8)
        requires
            old(self).wf(),
            x < 16,
            old(self)@.i as int + x as int + 1 <= 4096,
        ensures
            final(self).wf(),
            final(self)@ == (MachineState {
                v: loaded_regs(old(self)@, x),
                ..advanced(old(self)@)
            }),
    {
        let ghost pre = self@;
        let mut k: u8 = 0;
        while k <= x
            invariant
                self@ == (MachineState { v: self@.v, ..pre }),
                self@.v.len() == 16,
                pre.wf(),
                x < 16,
                k <= x + 1,
                pre.i as int + x as int + 1 <= 4096,
                forall|j: int| 0 <= j < k as int ==> self@.v[j] == pre.mem[pre.i as int + j],
                forall|j: int| k as int <= j < 16 ==> self@.v[j] == pre.v[j],
            decreases x + 1 - k,
        {
            let val = self.memory[self.i as usize + k as usize];
            self.v.set(k as usize, val);
            k += 1;
        }
        self.pc = self.pc.wrapping_add(2);
        proof {
            assert(self@.v =~= loaded_regs(pre, x));
        }
    }

    /// Advance the program counter past the current instruction.
    fn do_advance(&mut self)
        requires
            old(self).wf(),
        ensures
            final(self).wf(),
            final(self)@ == advanced(old(self)@),
    {
        self.pc = self.pc.wrapping_add(2);
    }

    /// Set the program counter to a jump target.
    fn do_jump(&mut self, target: u16)
        requires
            old(self).wf(),
        ensures
            final(self).wf(),
            final(self)@ == (MachineState { pc: target, ..old(self)@ }),
    {
        self.pc = target;
    }

    /// Advance the program counter past one instruction, or past two when
    /// `skip` holds.
    fn do_skip(&mut self, skip: bool)
        requires
            old(self).wf(),
        ensures
            final(self).wf(),
            final(self)@ == skipped(old(self)@, skip),
    {
        let adv: u16 = if skip {
            4
        } else {
            2
        };
        self.pc = self.pc.wrapping_add(adv);
    }

    /// Write `val` to register Vx and advance the program counter.
    fn do_set_reg(&mut self, x: u8, val: u8)
        requires
            old(self).wf(),
            x < 16,
        ensures
            final(self).wf(),
            final(self)@ == set_reg(old(self)@, x, val),
    {
        self.v.set(x as usize, val);
        self.pc = self.pc.wrapping_add(2);
    }

    /// Write `val` to register Vx, then the flag to VF — the flag is the last
    /// register write — and advance the program counter.
    fn do_set_reg_flag(&mut self, x: u8, val: u8, flag: u8)
        requires
            old(self).wf(),
            x < 16,
        ensures
            final(self).wf(),
            final(self)@ == set_reg_flag(old(self)@, x, val, flag),
    {
        self.v.set(x as usize, val);
        self.v.set(15, flag);
        self.pc = self.pc.wrapping_add(2);
    }

    /// Write the delay timer and advance the program counter.
    fn do_set_delay(&mut self, val: u8)
        requires
            old(self).wf(),
        ensures
            final(self).wf(),
            final(self)@ == (MachineState { delay: val, ..advanced(old(self)@) }),
    {
        self.delay_timer = val;
        self.pc = self.pc.wrapping_add(2);
    }

    /// Write the sound timer and advance the program counter.
    fn do_set_sound(&mut self, val: u8)
        requires
            old(self).wf(),
        ensures
            final(self).wf(),
            final(self)@ == (MachineState { sound: val, ..advanced(old(self)@) }),
    {
        self.sound_timer = val;
        self.pc = self.pc.wrapping_add(2);
    }

    /// Write the index register and advance the program counter.
    fn do_set_i(&mut self, val: u16)
        requires
            old(self).wf(),
        ensures
            final(self).wf(),
            final(self)@ == (MachineState { i: val, ..advanced(old(self)@) }),
    {
        self.i = val;
        self.pc = self.pc.wrapping_add(2);
    }

    /// Store the three decimal digits of Vx at I, I+1, I+2 and advance the
    /// program counter.
    pub fn op_fx33(&mut self, x: u8)
        requires
            old(self).wf(),
            x < 16,
            old(self)@.i as int + 3 <= 4096,
        ensures
            final(self).wf(),
            final(self)@ == (MachineState { mem: bcd_mem(old(self)@, x), ..advanced(old(self)@) }),
    {
        let val = self.v[x as usize];
        self.memory.set(self.i as usize, val / 100);
        self.memory.set(self.i as usize + 1, (val / 10) % 10);
        self.memory.set(self.i as usize + 2, val % 10);
        self.pc = self.pc.wrapping_add(2);
    }

    /// The blocking input instruction: with no key held, leave the whole
    /// state unchanged and report that the machine awaits a key; once a key
    /// is held, write the lowest-indexed held key to Vx and advance.
    pub fn op_fx0a(&mut self, x: u8) -> (waiting: bool)
        requires
            old(self).wf(),
            x < 16,
        ensures
            final(self).wf(),
            any_key(old(self)@.keys) ==> !waiting && final(self)@ == set_reg(
                old(self)@,
                x,
                lowest_key(old(self)@.keys) as u8,
            ),
            !any_key(old(self)@.keys) ==> waiting && final(self)@ == old(self)@,
    {
        proof {
            lemma_lowest_key_bounds(old(self)@.keys, 0);
        }
        match self.get_pressed_key() {
            Some(k) => {
                self.v.set(x as usize, k as u8);
                self.pc = self.pc.wrapping_add(2);
                false
            },
            None => true,
        }
    }

    /// Execute one control-flow instruction: system, clear, return, jump and
    /// call.
    #[verifier::rlimit(100)]
    fn exec_control(&mut self, instr: Instr, rnd: u8) -> (res: Result<CycleOutcome, Fatal>)
        requires
            old(self).wf(),
            instr.bounded(),
            instr is Sys || instr is Cls || instr is Ret || instr is Jp || instr is Call,
        ensures
            final(self).wf(),
            final(self)@ == step(old(self)@, instr, rnd).0,
            res == step(old(self)@, instr, rnd).1,
    {
        match instr {
            Instr::Sys => {
                self.do_advance();
                Ok(CycleOutcome::Executed)
            },
            Instr::Cls => {
                self.op_00e0();
                Ok(CycleOutcome::Executed)
            },
            Instr::Ret => {
                match self.op_00ee() {
                    Ok(()) => Ok(CycleOutcome::Executed),
                    Err(f) => Err(f),
                }
            },
            Instr::Jp(nnn) => {
                self.do_jump(nnn);
                Ok(CycleOutcome::Executed)
            },
            Instr::Call(nnn) => {
                match self.op_2nnn(nnn) {
                    Ok(()) => Ok(CycleOutcome::Executed),
                    Err(f) => Err(f),
                }
            },
            _ => {
                proof {
                    assert(false);
                }
                Ok(CycleOutcome::Executed)
            },
        }
    }

    /// Execute one conditional skip: the immediate and register compares and
    /// the two key skips.
    #[verifier::rlimit(100)]
    fn exec_skip(&mut self, instr: Instr, rnd: u8) -> (res: Result<CycleOutcome, Fatal>)
        requires
            old(self).wf(),
            instr.bounded(),
            instr is SeImm || instr is SneImm || instr is SeReg || instr is SneReg
                || instr is Skp || instr is Sknp,
        ensures
            final(self).wf(),
            final(self)@ == step(old(self)@, instr, rnd).0,
            res == step(old(self)@, instr, rnd).1,
    {
        match instr {
            Instr::SeImm(x, kk) => {
                let skip = self.v[x as usize] == kk;
                self.do_skip(skip);
            },
            Instr::SneImm(x, kk) => {
                let skip = self.v[x as usize] != kk;
                self.do_skip(skip);
            },
            Instr::SeReg(x, y) => {
                let skip = self.v[x as usize] == self.v[y as usize];
                self.do_skip(skip);
            },
            Instr::SneReg(x, y) => {
                let skip = self.v[x as usize] != self.v[y as usize];
                self.do_skip(skip);
            },
            Instr::Skp(x) => {
                let key = self.v[x as usize];
                let held = key < 16 && self.keypad[key as usize];
                self.do_skip(held);
            },
            Instr::Sknp(x) => {
                let key = self.v[x as usize];
                let held = key < 16 && self.keypad[key as usize];
                self.do_skip(!held);
            },
            _ => {
                proof {
                    assert(false);
                }
            },
        }
        Ok(CycleOutcome::Executed)
    }

    /// Execute one unflagged register instruction: immediate load and add,
    /// the register-register move and bit operations, the random byte, and
    /// the delay-timer read.
    #[verifier::rlimit(100)]
    fn exec_alu(&mut self, instr: Instr, rnd: u8) -> (res: Result<CycleOutcome, Fatal>)
        requires
            old(self).wf(),
            instr.bounded(),
            instr is LdImm || instr is AddImm || instr is LdReg || instr is OrReg
                || instr is AndReg || instr is XorReg || instr is Rnd || instr is LdFromDt,
        ensures
            final(self).wf(),
            final(self)@ == step(old(self)@, instr, rnd).0,
            res == step(old(self)@, instr, rnd).1,
    {
        match instr {
            Instr::LdImm(x, kk) => {
                self.do_set_reg(x, kk);
            },
            Instr::AddImm(x, kk) => {
                let val = self.v[x as usize].wrapping_add(kk);
                self.do_set_reg(x, val);
            },
            Instr::LdReg(x, y) => {
                let val = self.v[y as usize];
                self.do_set_reg(x, val);
            },
            Instr::OrReg(x, y) => {
                let val = self.v[x as usize] | self.v[y as usize];
                self.do_set_reg(x, val);
            },
            Instr::AndReg(x, y) => {
                let val = self.v[x as usize] & self.v[y as usize];
                self.do_set_reg(x, val);
            },
            Instr::XorReg(x, y) => {
                let val = self.v[x as usize] ^ self.v[y as usize];
                self.do_set_reg(x, val);
            },
            Instr::Rnd(x, kk) => {
                self.do_set_reg(x, rnd & kk);
            },
            Instr::LdFromDt(x) => {
                let val = self.delay_timer;
                self.do_set_reg(x, val);
            },
            _ => {
                proof {
                    assert(false);
                }
            },
        }
        Ok(CycleOutcome::Executed)
    }

    /// Execute one flagged arithmetic instruction: the carry add, the two
    /// no-borrow subtracts, and the two shifts. VF receives the flag as the
    /// last register write.
    #[verifier::rlimit(100)]
    fn exec_alu_flag(&mut self, instr: Instr, rnd: u8) -> (res: Result<CycleOutcome, Fatal>)
        requires
            old(self).wf(),
            instr.bounded(),
            instr is AddReg || instr is SubReg || instr is Shr || instr is SubnReg
                || instr is Shl,
        ensures
            final(self).wf(),
            final(self)@ == step(old(self)@, instr, rnd).0,
            res == step(old(self)@, instr, rnd).1,
    {
        match instr {
            Instr::AddReg(x, y) => {
                let a = self.v[x as usize];
                let b = self.v[y as usize];
                proof {
                    lemma_mod256(a as int, b as int);
                }
                let flag: u8 = if (a as u16) + (b as u16) > 255 {
                    1
                } else {
                    0
                };
                self.do_set_reg_flag(x, a.wrapping_add(b), flag);
            },
            Instr::SubReg(x, y) => {
                let a = self.v[x as usize];
                let b = self.v[y as usize];
                proof {
                    lemma_mod256(a as int, b as int);
                }
                let flag: u8 = if a >= b {
                    1
                } else {
                    0
                };
                self.do_set_reg_flag(x, a.wrapping_sub(b), flag);
            },
            Instr::Shr(x) => {
                let a = self.v[x as usize];
                self.do_set_reg_flag(x, a / 2, a % 2);
            },
            Instr::SubnReg(x, y) => {
                let a = self.v[x as usize];
                let b = self.v[y as usize];
                proof {
                    lemma_mod256(b as int, a as int);
                }
                let flag: u8 = if b >= a {
                    1
                } else {
                    0
                };
                self.do_set_reg_flag(x, b.wrapping_sub(a), flag);
            },
            Instr::Shl(x) => {
                let a = self.v[x as usize];
                proof {
                    lemma_mod256(a as int, 0);
                }
                self.do_set_reg_flag(x, a.wrapping_add(a), a / 128);
            },
            _ => {
                proof {
                    assert(false);
                }
            },
        }
        Ok(CycleOutcome::Executed)
    }

    /// Execute one instruction that only touches memory or blocks on input:
    /// draw, the blocking key wait, BCD, and the register block transfers.
    #[verifier::rlimit(100)]
    fn exec_mem(&mut self, instr: Instr, rnd: u8) -> (res: Result<CycleOutcome, Fatal>)
        requires
            old(self).wf(),
            instr.bounded(),
            instr is Drw || instr is WaitKey || instr is Bcd || instr is DumpRegs
                || instr is LoadRegs,
        ensures
            final(self).wf(),
            final(self)@ == step(old(self)@, instr, rnd).0,
            res == step(old(self)@, instr, rnd).1,
    {
        match instr {
            Instr::Drw(x, y, n) => {
                if self.i as usize + n as usize > 4096 {
                    return Err(Fatal::MemoryOutOfBounds);
                }
                self.op_dxyn(x, y, n);
                Ok(CycleOutcome::Executed)
            },
            Instr::WaitKey(x) => {
                if self.op_fx0a(x) {
                    Ok(CycleOutcome::AwaitingKey)
                } else {
                    Ok(CycleOutcome::Executed)
                }
            },
            Instr::Bcd(x) => {
                if self.i as usize + 3 > 4096 {
                    return Err(Fatal::MemoryOutOfBounds);
                }
                self.op_fx33(x);
                Ok(CycleOutcome::Executed)
            },
            Instr::DumpRegs(x) => {
                if self.i as usize + x as usize + 1 > 4096 {
                    return Err(Fatal::MemoryOutOfBounds);
                }
                self.op_fx55(x);
                Ok(CycleOutcome::Executed)
            },
            Instr::LoadRegs(x) => {
                if self.i as usize + x as usize + 1 > 4096 {
                    return Err(Fatal::MemoryOutOfBounds);
                }
                self.op_fx65(x);
                Ok(CycleOutcome::Executed)
            },
            _ => {
                proof {
                    assert(false);
                }
                Ok(CycleOutcome::Executed)
            },
        }
    }

    /// Execute one instruction of the index register and timers: index loads,
    /// the offset jump, glyph address, timer writes, and the unknown-word
    /// no-op.
    #[verifier::rlimit(100)]
    fn exec_misc(&mut self, instr: Instr, rnd: u8) -> (res: Result<CycleOutcome, Fatal>)
        requires
            old(self).wf(),
            instr.bounded(),
            instr is LdI || instr is JpV0 || instr is LdDt || instr is LdSt || instr is AddI
                || instr is LdGlyph || instr is Unknown,
        ensures
            final(self).wf(),
            final(self)@ == step(old(self)@, instr, rnd).0,
            res == step(old(self)@, instr, rnd).1,
    {
        match instr {
            Instr::LdI(nnn) => {
                self.do_set_i(nnn);
            },
            Instr::JpV0(nnn) => {
                proof {
                    lemma_mod65536(nnn as int, self@.v[0] as int);
                }
                let target = nnn.wrapping_add(self.v[0] as u16);
                self.do_jump(target);
            },
            Instr::LdDt(x) => {
                let val = self.v[x as usize];
                self.do_set_delay(val);
            },
            Instr::LdSt(x) => {
                let val = self.v[x as usize];
                self.do_set_sound(val);
            },
            Instr::AddI(x) => {
                proof {
                    lemma_mod65536(self@.i as int, self@.v[x as int] as int);
                }
                let val = self.i.wrapping_add(self.v[x as usize] as u16);
                self.do_set_i(val);
            },
            Instr::LdGlyph(x) => {
                let val = 0x50 + 5 * ((self.v[x as usize] % 16) as u16);
                self.do_set_i(val);
            },
            Instr::Unknown => {
                self.do_advance();
            },
            _ => {
                proof {
                    assert(false);
                }
            },
        }
        Ok(CycleOutcome::Executed)
    }

    /// Execute one decoded instruction on the current state; `rnd` is the
    /// byte the random source produced, read only by the random instruction.
    /// The new state and the outcome are exactly those of the `step`
    /// transition function.
    #[verifier::rlimit(100)]
    pub fn exec_instr(&mut self, instr: Instr, rnd: u8) -> (res: Result<CycleOutcome, Fatal>)
        requires
            old(self).wf(),
            instr.bounded(),
        ensures
            final(self).wf(),
            final(self)@ == step(old(self)@, instr, rnd).0,
            res == step(old(self)@, instr, rnd).1,
    {
        match instr {
            Instr::Sys | Instr::Cls | Instr::Ret | Instr::Jp(_) | Instr::Call(_) => self
                .exec_control(instr, rnd),
            Instr::SeImm(_, _)
            | Instr::SneImm(_, _)
            | Instr::SeReg(_, _)
            | Instr::SneReg(_, _)
            | Instr::Skp(_)
            | Instr::Sknp(_) => self.exec_skip(instr, rnd),
            Instr::LdImm(_, _)
            | Instr::AddImm(_, _)
            | Instr::LdReg(_, _)
            | Instr::OrReg(_, _)
            | Instr::AndReg(_, _)
            | Instr::XorReg(_, _)
            | Instr::Rnd(_, _)
            | Instr::LdFromDt(_) => self.exec_alu(instr, rnd),
            Instr::AddReg(_, _)
            | Instr::SubReg(_, _)
            | Instr::Shr(_)
            | Instr::SubnReg(_, _)
            | Instr::Shl(_) => self.exec_alu_flag(instr, rnd),
            Instr::Drw(_, _, _)
            | Instr::WaitKey(_)
            | Instr::Bcd(_)
            | Instr::DumpRegs(_)
            | Instr::LoadRegs(_) => self.exec_mem(instr, rnd),
            _ => self.exec_misc(instr, rnd),
        }
    }

    /// One whole engine cycle: fetch the word at the program counter, decode
    /// it, execute it. The new state and the outcome are exactly those of the
    /// `cycle` transition function for some byte of the random source; for
    /// every instruction except the random one they are those of `cycle` with
    /// the byte 0.
    pub fn emulate_cycle(&mut self) -> (res: Result<CycleOutcome, Fatal>)
        requires
            old(self).wf(),
        ensures
            final(self).wf(),
            exists|rnd: u8| #[trigger] cycle(old(self)@, rnd) == (final(self)@, res),
            !(decoded(fetched(old(self)@)) is Rnd) ==> cycle(old(self)@, 0) == (
                final(self)@,
                res,
            ),
    {
        if self.pc as usize + 1 >= 4096 {
            proof {
                assert(cycle(self@, 0) == (self@, Err::<CycleOutcome, Fatal>(Fatal::PcOutOfBounds)));
            }
            return Err(Fatal::PcOutOfBounds);
        }
        let op = self.fetch_opcode();
        let instr = decode(op);
        let rnd: u8 = match instr {
            Instr::Rnd(_, _) => random_byte(),
            _ => 0,
        };
        let res = self.exec_instr(instr, rnd);
        proof {
            assert(cycle(old(self)@, rnd) == (self@, res));
        }
        res
    }
}

} // verus!
