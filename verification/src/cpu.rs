//! The machine itself: the owned state aggregate and the executable
//! operations on it, each proved against the semantics in [`crate::step`].

use vstd::prelude::*;

use crate::decode::Instr;
use crate::decode::decode;
use crate::state::CpuView;
use crate::state::Fault;
use crate::state::Wait;
use crate::step::collision;
use crate::step::cycle_ok;
use crate::step::drawn;
use crate::step::fetched;
use crate::step::first_edge;
use crate::step::first_edge_from;
use crate::step::instr_ok;
use crate::step::instr_step;
use crate::step::loaded_regs;
use crate::step::spec_cycle;
use crate::step::sprite_bit;
use crate::step::stored_regs;

verus! {

/// One emulated machine.  The fields are public so that a host can seed
/// memory, feed key states, and read the framebuffer and timers; every
/// verified operation requires and preserves [`CpuView::wf`].
pub struct CPU {
    /// 4096 bytes of memory; the first 80 hold the glyph table.
    pub memory: Vec<u8>,
    /// The sixteen general-purpose registers.
    pub v: Vec<u8>,
    /// The program counter.
    pub pc: usize,
    /// The address register.
    pub i: usize,
    /// The delay timer.
    pub delay_timer: u8,
    /// The sound timer; non-zero means a tone should sound.
    pub sound_timer: u8,
    /// The 32x64 framebuffer, row-major: pixel (row, col) is entry
    /// `row * 64 + col`; each entry is 0 or 1.
    pub graphics: Vec<u8>,
    /// The sixteen call-stack slots.
    pub stack: Vec<u16>,
    /// The stack pointer: how many call-stack slots are occupied.
    pub sp: usize,
    /// The sixteen key-pressed states.
    pub keypad: Vec<bool>,
    /// The key states last seen by the wait-for-key instruction.
    pub keypad_seen: Vec<bool>,
    /// Whether dispatch is running or suspended awaiting a key press.
    pub wait: Wait,
}

impl View for CPU {
    type V = CpuView;

    open spec fn view(&self) -> CpuView {
        CpuView {
            memory: self.memory@,
            v: self.v@,
            pc: self.pc as int,
            i: self.i as int,
            delay_timer: self.delay_timer,
            sound_timer: self.sound_timer,
            graphics: self.graphics@,
            stack: self.stack@,
            sp: self.sp as int,
            keypad: self.keypad@,
            keypad_seen: self.keypad_seen@,
            wait: self.wait,
        }
    }
}

/// The five rows of the glyph for hexadecimal digit `d`.
pub open spec fn glyphs(d: int) -> Seq<u8> {
    if d == 0 {
        seq![0xF0, 0x90, 0x90, 0x90, 0xF0]
    } else if d == 1 {
        seq![0x20, 0x60, 0x20, 0x20, 0x70]
    } else if d == 2 {
        seq![0xF0, 0x10, 0xF0, 0x80, 0xF0]
    } else if d == 3 {
        seq![0xF0, 0x10, 0xF0, 0x10, 0xF0]
    } else if d == 4 {
        seq![0x90, 0x90, 0xF0, 0x10, 0x10]
    } else if d == 5 {
        seq![0xF0, 0x80, 0xF0, 0x10, 0xF0]
    } else if d == 6 {
        seq![0xF0, 0x80, 0xF0, 0x90, 0xF0]
    } else if d == 7 {
        seq![0xF0, 0x10, 0x20, 0x40, 0x40]
    } else if d == 8 {
        seq![0xF0, 0x90, 0xF0, 0x90, 0xF0]
    } else if d == 9 {
        seq![0xF0, 0x90, 0xF0, 0x10, 0xF0]
    } else if d == 10 {
        seq![0xF0, 0x90, 0xF0, 0x90, 0x90]
    } else if d == 11 {
        seq![0xE0, 0x90, 0xE0, 0x90, 0xE0]
    } else if d == 12 {
        seq![0xF0, 0x80, 0x80, 0x80, 0xF0]
    } else if d == 13 {
        seq![0xE0, 0x90, 0x90, 0x90, 0xE0]
    } else if d == 14 {
        seq![0xF0, 0x80, 0xF0, 0x80, 0xF0]
    } else {
        seq![0xF0, 0x80, 0xF0, 0x80, 0x80]
    }
}

/// The byte a freshly constructed machine holds at address `j`: the
/// glyph table over the first 80 addresses, zero everywhere else.
pub open spec fn font_byte(j: int) -> u8 {
    if 0 <= j < 80 {
        glyphs(j / 5)[j % 5]
    } else {
        0
    }
}

/// The state of a freshly constructed machine.
pub open spec fn initial() -> CpuView {
    CpuView {
        memory: Seq::new(4096, |j: int| font_byte(j)),
        v: Seq::new(16, |j: int| 0u8),
        pc: 0x200,
        i: 0,
        delay_timer: 0,
        sound_timer: 0,
        graphics: Seq::new(32 * 64, |p: int| 0u8),
        stack: Seq::new(16, |j: int| 0u16),
        sp: 0,
        keypad: Seq::new(16, |j: int| false),
        keypad_seen: Seq::new(16, |j: int| false),
        wait: Wait::Running,
    }
}

/// The memory image after copying `rom` to addresses `0x200` onward.
pub open spec fn with_rom(memory: Seq<u8>, rom: Seq<u8>) -> Seq<u8> {
    Seq::new(
        4096,
        |a: int| if 0x200 <= a < 0x200 + rom.len() { rom[a - 0x200] } else { memory[a] },
    )
}

/// The five glyph rows for digit `d`, top row first.
fn glyph_rows(d: u8) -> (g: (u8, u8, u8, u8, u8))
    requires
        d < 16,
    ensures
        ({
            let s = glyphs(d as int);
            g.0 == s[0] && g.1 == s[1] && g.2 == s[2] && g.3 == s[3] && g.4 == s[4]
        }),
{
    match d {
        0 => (0xF0, 0x90, 0x90, 0x90, 0xF0),
        1 => (0x20, 0x60, 0x20, 0x20, 0x70),
        2 => (0xF0, 0x10, 0xF0, 0x80, 0xF0),
        3 => (0xF0, 0x10, 0xF0, 0x10, 0xF0),
        4 => (0x90, 0x90, 0xF0, 0x10, 0x10),
        5 => (0xF0, 0x80, 0xF0, 0x10, 0xF0),
        6 => (0xF0, 0x80, 0xF0, 0x90, 0xF0),
        7 => (0xF0, 0x10, 0x20, 0x40, 0x40),
        8 => (0xF0, 0x90, 0xF0, 0x90, 0xF0),
        9 => (0xF0, 0x90, 0xF0, 0x10, 0xF0),
        10 => (0xF0, 0x90, 0xF0, 0x90, 0x90),
        11 => (0xE0, 0x90, 0xE0, 0x90, 0xE0),
        12 => (0xF0, 0x80, 0x80, 0x80, 0xF0),
        13 => (0xE0, 0x90, 0x90, 0x90, 0xE0),
        14 => (0xF0, 0x80, 0xF0, 0x80, 0xF0),
        _ => (0xF0, 0x80, 0xF0, 0x80, 0x80),
    }
}

/// Pixel `p` of the framebuffer after the first `limit` sprite cells
/// (in row-major cell order `8 * dr + dc`) have been XORed in.
spec fn draw_px(
    g0: Seq<u8>,
    memory: Seq<u8>,
    i: int,
    ox: int,
    oy: int,
    limit: int,
    p: int,
) -> u8 {
    let dr = ((p / 64) - oy) % 32;
    let dc = ((p % 64) - ox) % 64;
    if 8 * dr + dc < limit && dc < 8 {
        g0[p] ^ sprite_bit(memory, i, dr, dc)
    } else {
        g0[p]
    }
}

/// Whether one of the first `limit` sprite cells lands on a lit pixel.
spec fn hit_upto(g0: Seq<u8>, memory: Seq<u8>, i: int, ox: int, oy: int, limit: int) -> bool {
    exists|dr: int, dc: int|
        0 <= dr && 0 <= dc < 8 && 8 * dr + dc < limit && sprite_bit(memory, i, dr, dc) == 1
            && g0[((oy + dr) % 32) * 64 + ((ox + dc) % 64)] == 1
}

/// After all `8 * n` cells, the partial-drawing account agrees with the
/// collision predicate of the instruction semantics.
proof fn lemma_hit_collision(g0: Seq<u8>, memory: Seq<u8>, i: int, ox: int, oy: int, n: int)
    ensures
        hit_upto(g0, memory, i, ox, oy, 8 * n) == collision(g0, memory, i, ox, oy, n),
{
    if hit_upto(g0, memory, i, ox, oy, 8 * n) {
        let (dr, dc) = choose|dr: int, dc: int|
            0 <= dr && 0 <= dc < 8 && 8 * dr + dc < 8 * n && sprite_bit(memory, i, dr, dc) == 1
                && g0[((oy + dr) % 32) * 64 + ((ox + dc) % 64)] == 1;
        assert(dr < n);
        assert(collision(g0, memory, i, ox, oy, n));
    }
    if collision(g0, memory, i, ox, oy, n) {
        let (dr, dc) = choose|dr: int, dc: int|
            0 <= dr < n && 0 <= dc < 8 && sprite_bit(memory, i, dr, dc) == 1 && g0[((oy + dr)
                % 32) * 64 + ((ox + dc) % 64)] == 1;
        assert(8 * dr + dc < 8 * n);
        assert(hit_upto(g0, memory, i, ox, oy, 8 * n));
    }
}

/// A vector of `n` copies of `val`.
fn filled<T: Copy>(n: usize, val: T) -> (r: Vec<T>)
    ensures
        r@.len() == n,
        forall|j: int| 0 <= j < n ==> r@[j] == val,
{
    let mut r: Vec<T> = Vec::new();
    let mut k: usize = 0;
    while k < n
        invariant
            k <= n,
            r@.len() == k,
            forall|j: int| 0 <= j < k ==> r@[j] == val,
        decreases n - k,
    {
        r.push(val);
        k += 1;
    }
    r
}

/// A copy of the sixteen key flags.
fn copy_flags(src: &Vec<bool>) -> (r: Vec<bool>)
    ensures
        r@ == src@,
{
    let mut r: Vec<bool> = Vec::new();
    let mut k: usize = 0;
    while k < src.len()
        invariant
            k <= src@.len(),
            r@.len() == k,
            forall|j: int| 0 <= j < k ==> r@[j] == src@[j],
        decreases src@.len() - k,
    {
        r.push(src[k]);
        k += 1;
    }
    proof {
        assert(r@ =~= src@);
    }
    r
}

/// The smallest key index pressed now but not in the snapshot, or 16.
fn find_edge(keypad: &Vec<bool>, seen: &Vec<bool>) -> (k: usize)
    requires
        keypad@.len() == 16,
        seen@.len() == 16,
    ensures
        k == first_edge(keypad@, seen@),
{
    let mut j: usize = 0;
    while j < 16
        invariant
            j <= 16,
            keypad@.len() == 16,
            seen@.len() == 16,
            first_edge(keypad@, seen@) == first_edge_from(keypad@, seen@, j as int),
        decreases 16 - j,
    {
        if keypad[j] && !seen[j] {
            return j;
        }
        j += 1;
    }
    16
}

/// Relies on rand::random: draws one byte, uniformly distributed by the
/// thread-local generator.  Nothing is assumed of the value; callers
/// state what holds for every byte that could come back.
#[verifier::external_body]
fn random_byte() -> u8 {
    rand::random::<u8>()
}

impl CPU {
    /// A machine in its power-on state: the glyph table at the base of
    /// memory, everything else zeroed, and the program counter at 0x200.
    pub fn new() -> (c: CPU)
        ensures
            c@ == initial(),
            c@.wf(),
    {
        let mut memory: Vec<u8> = Vec::new();
        let mut d: u8 = 0;
        while d < 16
            invariant
                d <= 16,
                memory@.len() == 5 * d,
                forall|j: int| 0 <= j < 5 * d ==> memory@[j] == font_byte(j),
            decreases 16 - d,
        {
            let g = glyph_rows(d);
            memory.push(g.0);
            memory.push(g.1);
            memory.push(g.2);
            memory.push(g.3);
            memory.push(g.4);
            proof {
                assert forall|j: int| 5 * d <= j < 5 * d + 5 implies memory@[j] == font_byte(
                    j,
                ) by {
                    assert(j / 5 == d);
                    assert(j % 5 == j - 5 * d);
                }
            }
            d += 1;
        }
        while memory.len() < 4096
            invariant
                80 <= memory@.len() <= 4096,
                forall|j: int| 0 <= j < memory@.len() ==> memory@[j] == font_byte(j),
            decreases 4096 - memory@.len(),
        {
            memory.push(0);
        }
        let c = CPU {
            memory,
            v: filled(16, 0u8),
            pc: 0x200,
            i: 0,
            delay_timer: 0,
            sound_timer: 0,
            graphics: filled(32 * 64, 0u8),
            stack: filled(16, 0u16),
            sp: 0,
            keypad: filled(16, false),
            keypad_seen: filled(16, false),
            wait: Wait::Running,
        };
        proof {
            assert(c@.memory =~= initial().memory);
            assert(c@.v =~= initial().v);
            assert(c@.graphics =~= initial().graphics);
            assert(c@.stack =~= initial().stack);
            assert(c@.keypad =~= initial().keypad);
            assert(c@.keypad_seen =~= initial().keypad_seen);
            assert(c@ =~= initial());
        }
        c
    }

    /// Copy a program image of at most 3584 bytes to memory starting at
    /// address 0x200.  Nothing else changes.
    pub fn load(&mut self, rom_data: &[u8])
        requires
            old(self)@.wf(),
            rom_data@.len() <= 3584,
        ensures
            final(self)@ == (CpuView {
                memory: with_rom(old(self)@.memory, rom_data@),
                ..old(self)@
            }),
            final(self)@.wf(),
    {
        let mut k: usize = 0;
        while k < rom_data.len()
            invariant
                self@.wf(),
                rom_data@.len() <= 3584,
                k <= rom_data@.len(),
                self@ == (CpuView { memory: self@.memory, ..old(self)@ }),
                self@.memory.len() == 4096,
                forall|a: int|
                    0x200 <= a < 0x200 + k ==> self@.memory[a] == rom_data@[a - 0x200],
                forall|a: int|
                    0 <= a < 4096 && !(0x200 <= a < 0x200 + k) ==> self@.memory[a] == old(
                        self,
                    )@.memory[a],
            decreases rom_data@.len() - k,
        {
            let b = rom_data[k];
            self.memory[0x200 + k] = b;
            k += 1;
        }
        proof {
            assert(self@.memory =~= with_rom(old(self)@.memory, rom_data@));
            assert(self@ =~= (CpuView {
                memory: with_rom(old(self)@.memory, rom_data@),
                ..old(self)@
            }));
        }
    }

    /// Record key `key` as pressed or released.  Nothing else changes.
    pub fn set_key(&mut self, key: u8, pressed: bool)
        requires
            old(self)@.wf(),
            key < 16,
        ensures
            final(self)@ == (CpuView {
                keypad: old(self)@.keypad.update(key as int, pressed),
                ..old(self)@
            }),
            final(self)@.wf(),
    {
        self.keypad[key as usize] = pressed;
        proof {
            assert(self@ =~= (CpuView {
                keypad: old(self)@.keypad.update(key as int, pressed),
                ..old(self)@
            }));
        }
    }

    /// Execute one already decoded instruction.  `rnd` is the byte the
    /// random instruction uses; every other instruction ignores it.  The
    /// precondition on the program counter records that the instruction
    /// was fetched from a valid address.
    pub fn execute(&mut self, ins: Instr, rnd: u8) -> (r: Result<(), Fault>)
        requires
            old(self)@.wf(),
            ins.operands_bounded(),
            old(self)@.pc + 1 < 4096,
        ensures
            final(self)@.wf(),
            instr_ok(old(self)@, ins, rnd, final(self)@, r),
    {
        match ins {
            Instr::Clear | Instr::Ret | Instr::Jump { .. } | Instr::Call { .. }
            | Instr::SkipEqImm { .. } | Instr::SkipNeqImm { .. } | Instr::SkipEqReg { .. }
            | Instr::SkipNeqReg { .. } | Instr::SkipKey { .. } | Instr::SkipNotKey { .. }
            | Instr::JumpOffset { .. } | Instr::Unknown => self.step_flow(ins, rnd),
            Instr::LoadImm { .. } | Instr::AddImm { .. } | Instr::LoadReg { .. }
            | Instr::OrReg { .. } | Instr::AndReg { .. } | Instr::XorReg { .. }
            | Instr::AddReg { .. } | Instr::SubReg { .. } | Instr::ShiftRight { .. }
            | Instr::SubnReg { .. } | Instr::ShiftLeft { .. } | Instr::Random { .. }
            | Instr::LoadDelay { .. } => self.step_alu(ins, rnd),
            Instr::LoadAddr { .. } | Instr::WaitKey { .. } | Instr::SetDelay { .. }
            | Instr::SetSound { .. } | Instr::AddAddr { .. } | Instr::FontAddr { .. }
            | Instr::StoreBcd { .. } | Instr::Draw { .. } | Instr::StoreRegs { .. }
            | Instr::LoadRegs { .. } => self.step_mem(ins, rnd),
        }
    }

    /// The control-flow instructions: jumps, calls, returns and skips.
    #[verifier::rlimit(100)]
    fn step_flow(&mut self, ins: Instr, rnd: u8) -> (r: Result<(), Fault>)
        requires
            old(self)@.wf(),
            ins.operands_bounded(),
            old(self)@.pc + 1 < 4096,
            ins is Clear || ins is Ret || ins is Jump || ins is Call || ins is SkipEqImm || ins is SkipNeqImm || ins is SkipEqReg || ins is SkipNeqReg || ins is SkipKey || ins is SkipNotKey || ins is JumpOffset || ins is Unknown,
        ensures
            final(self)@.wf(),
            instr_ok(old(self)@, ins, rnd, final(self)@, r),
    {
        match ins {
            Instr::Clear => {
                self.graphics = filled(32 * 64, 0u8);
                self.pc += 2;
                proof {
                    assert(self@.graphics =~= Seq::new(32 * 64, |p: int| 0u8));
                    assert(self@ =~= instr_step(old(self)@, ins, rnd).0);
                }
                Ok(())
            },
            Instr::Ret => {
                if self.sp == 0 {
                    return Err(Fault::StackUnderflow);
                }
                self.sp -= 1;
                self.pc = self.stack[self.sp] as usize;
                proof {
                    assert(self@ =~= instr_step(old(self)@, ins, rnd).0);
                }
                Ok(())
            },
            Instr::Jump { nnn } => {
                self.pc = nnn as usize;
                proof {
                    assert(self@ =~= instr_step(old(self)@, ins, rnd).0);
                }
                Ok(())
            },
            Instr::Call { nnn } => {
                if self.sp == 16 {
                    return Err(Fault::StackOverflow);
                }
                self.stack[self.sp] = (self.pc + 2) as u16;
                self.sp += 1;
                self.pc = nnn as usize;
                proof {
                    assert(self@ =~= instr_step(old(self)@, ins, rnd).0);
                }
                Ok(())
            },
            Instr::SkipEqImm { x, kk } => {
                if self.v[x as usize] == kk {
                    self.pc += 4;
                } else {
                    self.pc += 2;
                }
                proof {
                    assert(self@ =~= instr_step(old(self)@, ins, rnd).0);
                }
                Ok(())
            },
            Instr::SkipNeqImm { x, kk } => {
                if self.v[x as usize] != kk {
                    self.pc += 4;
                } else {
                    self.pc += 2;
                }
                proof {
                    assert(self@ =~= instr_step(old(self)@, ins, rnd).0);
                }
                Ok(())
            },
            Instr::SkipEqReg { x, y } => {
                if self.v[x as usize] == self.v[y as usize] {
                    self.pc += 4;
                } else {
                    self.pc += 2;
                }
                proof {
                    assert(self@ =~= instr_step(old(self)@, ins, rnd).0);
                }
                Ok(())
            },
            Instr::SkipNeqReg { x, y } => {
                if self.v[x as usize] != self.v[y as usize] {
                    self.pc += 4;
                } else {
                    self.pc += 2;
                }
                proof {
                    assert(self@ =~= instr_step(old(self)@, ins, rnd).0);
                }
                Ok(())
            },
            Instr::SkipKey { x } => {
                let kv = self.v[x as usize];
                let pressed = (kv as usize) < 16 && self.keypad[kv as usize];
                if pressed {
                    self.pc += 4;
                } else {
                    self.pc += 2;
                }
                proof {
                    assert(self@ =~= instr_step(old(self)@, ins, rnd).0);
                }
                Ok(())
            },
            Instr::SkipNotKey { x } => {
                let kv = self.v[x as usize];
                let pressed = (kv as usize) < 16 && self.keypad[kv as usize];
                if pressed {
                    self.pc += 2;
                } else {
                    self.pc += 4;
                }
                proof {
                    assert(self@ =~= instr_step(old(self)@, ins, rnd).0);
                }
                Ok(())
            },
            Instr::JumpOffset { nnn } => {
                self.pc = nnn as usize + self.v[0] as usize;
                proof {
                    assert(self@ =~= instr_step(old(self)@, ins, rnd).0);
                }
                Ok(())
            },
            Instr::Unknown => {
                self.pc += 2;
                proof {
                    assert(self@ =~= instr_step(old(self)@, ins, rnd).0);
                }
                Ok(())
            },
            _ => {
                proof {
                    assert(false);
                }
                Ok(())
            },
        }
    }

    /// The register instructions: loads, arithmetic, logic and shifts.
    #[verifier::rlimit(100)]
    fn step_alu(&mut self, ins: Instr, rnd: u8) -> (r: Result<(), Fault>)
        requires
            old(self)@.wf(),
            ins.operands_bounded(),
            old(self)@.pc + 1 < 4096,
            ins is LoadImm || ins is AddImm || ins is LoadReg || ins is OrReg || ins is AndReg || ins is XorReg || ins is AddReg || ins is SubReg || ins is ShiftRight || ins is SubnReg || ins is ShiftLeft || ins is Random || ins is LoadDelay,
        ensures
            final(self)@.wf(),
            instr_ok(old(self)@, ins, rnd, final(self)@, r),
    {
        match ins {
            Instr::LoadImm { x, kk } => {
                self.v[x as usize] = kk;
                self.pc += 2;
                proof {
                    assert(self@ =~= instr_step(old(self)@, ins, rnd).0);
                }
                Ok(())
            },
            Instr::AddImm { x, kk } => {
                let a = self.v[x as usize];
                let s: u16 = a as u16 + kk as u16;
                self.v[x as usize] = (s % 256) as u8;
                self.pc += 2;
                proof {
                    assert(self@ =~= instr_step(old(self)@, ins, rnd).0);
                }
                Ok(())
            },
            Instr::LoadReg { x, y } => {
                let b = self.v[y as usize];
                self.v[x as usize] = b;
                self.pc += 2;
                proof {
                    assert(self@ =~= instr_step(old(self)@, ins, rnd).0);
                }
                Ok(())
            },
            Instr::OrReg { x, y } => {
                let a = self.v[x as usize];
                let b = self.v[y as usize];
                self.v[x as usize] = a | b;
                self.pc += 2;
                proof {
                    assert(self@ =~= instr_step(old(self)@, ins, rnd).0);
                }
                Ok(())
            },
            Instr::AndReg { x, y } => {
                let a = self.v[x as usize];
                let b = self.v[y as usize];
                self.v[x as usize] = a & b;
                self.pc += 2;
                proof {
                    assert(self@ =~= instr_step(old(self)@, ins, rnd).0);
                }
                Ok(())
            },
            Instr::XorReg { x, y } => {
                let a = self.v[x as usize];
                let b = self.v[y as usize];
                self.v[x as usize] = a ^ b;
                self.pc += 2;
                proof {
                    assert(self@ =~= instr_step(old(self)@, ins, rnd).0);
                }
                Ok(())
            },
            Instr::AddReg { x, y } => {
                let a = self.v[x as usize];
                let b = self.v[y as usize];
                let s: u16 = a as u16 + b as u16;
                self.v[15] = if s > 255 {
                    1
                } else {
                    0
                };
                self.v[x as usize] = (s % 256) as u8;
                self.pc += 2;
                proof {
                    assert(self@ =~= instr_step(old(self)@, ins, rnd).0);
                }
                Ok(())
            },
            Instr::SubReg { x, y } => {
                let a = self.v[x as usize];
                let b = self.v[y as usize];
                self.v[15] = if a >= b {
                    1
                } else {
                    0
                };
                self.v[x as usize] = (((a as u16 + 256) - b as u16) % 256) as u8;
                self.pc += 2;
                proof {
                    assert((a as int - b as int) % 256 == ((a as int + 256) - b as int) % 256);
                    assert(self@ =~= instr_step(old(self)@, ins, rnd).0);
                }
                Ok(())
            },
            Instr::ShiftRight { x } => {
                let a = self.v[x as usize];
                self.v[15] = a & 1;
                self.v[x as usize] = a >> 1u8;
                self.pc += 2;
                proof {
                    assert(self@ =~= instr_step(old(self)@, ins, rnd).0);
                }
                Ok(())
            },
            Instr::SubnReg { x, y } => {
                let a = self.v[x as usize];
                let b = self.v[y as usize];
                self.v[15] = if b >= a {
                    1
                } else {
                    0
                };
                self.v[x as usize] = (((b as u16 + 256) - a as u16) % 256) as u8;
                self.pc += 2;
                proof {
                    assert((b as int - a as int) % 256 == ((b as int + 256) - a as int) % 256);
                    assert(self@ =~= instr_step(old(self)@, ins, rnd).0);
                }
                Ok(())
            },
            Instr::ShiftLeft { x } => {
                let a = self.v[x as usize];
                self.v[15] = a >> 7u8;
                self.v[x as usize] = ((a as u16 * 2) % 256) as u8;
                self.pc += 2;
                proof {
                    assert(self@ =~= instr_step(old(self)@, ins, rnd).0);
                }
                Ok(())
            },
            Instr::Random { x, kk } => {
                self.v[x as usize] = rnd & kk;
                self.pc += 2;
                proof {
                    assert(self@ =~= instr_step(old(self)@, ins, rnd).0);
                }
                Ok(())
            },
            Instr::LoadDelay { x } => {
                let t = self.delay_timer;
                self.v[x as usize] = t;
                self.pc += 2;
                proof {
                    assert(self@ =~= instr_step(old(self)@, ins, rnd).0);
                }
                Ok(())
            },
            _ => {
                proof {
                    assert(false);
                }
                Ok(())
            },
        }
    }

    /// The instructions that touch memory, the address register, the
    /// timers, the framebuffer or the wait state.
    #[verifier::rlimit(100)]
    fn step_mem(&mut self, ins: Instr, rnd: u8) -> (r: Result<(), Fault>)
        requires
            old(self)@.wf(),
            ins.operands_bounded(),
            old(self)@.pc + 1 < 4096,
            ins is LoadAddr || ins is WaitKey || ins is SetDelay || ins is SetSound || ins is AddAddr || ins is FontAddr || ins is StoreBcd || ins is Draw || ins is StoreRegs || ins is LoadRegs,
        ensures
            final(self)@.wf(),
            instr_ok(old(self)@, ins, rnd, final(self)@, r),
    {
        match ins {
            Instr::LoadAddr { nnn } => {
                self.i = nnn as usize;
                self.pc += 2;
                proof {
                    assert(self@ =~= instr_step(old(self)@, ins, rnd).0);
                }
                Ok(())
            },
            Instr::WaitKey { x } => {
                self.keypad_seen = copy_flags(&self.keypad);
                self.wait = Wait::AwaitingKey { target: x };
                self.pc += 2;
                proof {
                    assert(self@ =~= instr_step(old(self)@, ins, rnd).0);
                }
                Ok(())
            },
            Instr::SetDelay { x } => {
                self.delay_timer = self.v[x as usize];
                self.pc += 2;
                proof {
                    assert(self@ =~= instr_step(old(self)@, ins, rnd).0);
                }
                Ok(())
            },
            Instr::SetSound { x } => {
                self.sound_timer = self.v[x as usize];
                self.pc += 2;
                proof {
                    assert(self@ =~= instr_step(old(self)@, ins, rnd).0);
                }
                Ok(())
            },
            Instr::AddAddr { x } => {
                self.i = (self.i + self.v[x as usize] as usize) % 0x10000;
                self.pc += 2;
                proof {
                    assert(self@ =~= instr_step(old(self)@, ins, rnd).0);
                }
                Ok(())
            },
            Instr::FontAddr { x } => {
                self.i = self.v[x as usize] as usize * 5;
                self.pc += 2;
                proof {
                    assert(self@ =~= instr_step(old(self)@, ins, rnd).0);
                }
                Ok(())
            },
            Instr::StoreBcd { x } => {
                if self.i + 3 > 4096 {
                    return Err(Fault::AddressOutOfRange);
                }
                let a = self.v[x as usize];
                self.memory[self.i] = a / 100;
                self.memory[self.i + 1] = (a % 100) / 10;
                self.memory[self.i + 2] = a % 10;
                self.pc += 2;
                proof {
                    assert(self@ =~= instr_step(old(self)@, ins, rnd).0);
                }
                Ok(())
            },
            Instr::Draw { x, y, n } => {
                let r = self.op_draw(x, y, n);
                proof {
                    assert(instr_step(old(self)@, ins, rnd) == instr_step(
                        old(self)@,
                        Instr::Draw { x, y, n },
                        0,
                    ));
                }
                r
            },
            Instr::StoreRegs { x } => {
                let r = self.op_store_regs(x);
                proof {
                    assert(instr_step(old(self)@, ins, rnd) == instr_step(
                        old(self)@,
                        Instr::StoreRegs { x },
                        0,
                    ));
                }
                r
            },
            Instr::LoadRegs { x } => {
                let r = self.op_load_regs(x);
                proof {
                    assert(instr_step(old(self)@, ins, rnd) == instr_step(
                        old(self)@,
                        Instr::LoadRegs { x },
                        0,
                    ));
                }
                r
            },
            _ => {
                proof {
                    assert(false);
                }
                Ok(())
            },
        }
    }

    /// XOR an `n`-row sprite read at the address register onto the
    /// framebuffer, recording a collision in `v[15]`.
    #[verifier::rlimit(100)]
    fn op_draw(&mut self, x: u8, y: u8, n: u8) -> (r: Result<(), Fault>)
        requires
            old(self)@.wf(),
            x < 16,
            y < 16,
            n < 16,
            old(self)@.pc + 1 < 4096,
        ensures
            final(self)@.wf(),
            instr_ok(old(self)@, Instr::Draw { x, y, n }, 0, final(self)@, r),
    {
        let nu = n as usize;
        if nu > 0 && self.i + nu > 4096 {
            return Err(Fault::AddressOutOfRange);
        }
        let ox = (self.v[x as usize] as usize) % 64;
        let oy = (self.v[y as usize] as usize) % 32;
        let ghost pre = self@;
        let mut vf: u8 = 0;
        let mut dr: usize = 0;
        while dr < nu
            invariant
                pre == old(self)@,
                pre.wf(),
                nu == n,
                n < 16,
                ox == pre.v[x as int] as int % 64,
                oy == pre.v[y as int] as int % 32,
                x < 16,
                y < 16,
                ox < 64,
                oy < 32,
                nu > 0 ==> pre.i + nu <= 4096,
                dr <= nu,
                self@ == (CpuView { graphics: self@.graphics, ..pre }),
                self@.graphics.len() == 32 * 64,
                forall|p: int|
                    0 <= p < 32 * 64 ==> self@.graphics[p] == draw_px(
                        pre.graphics,
                        pre.memory,
                        pre.i,
                        ox as int,
                        oy as int,
                        8 * dr,
                        p,
                    ),
                forall|p: int| 0 <= p < 32 * 64 ==> self@.graphics[p] <= 1,
                vf <= 1,
                vf == 1 <==> hit_upto(pre.graphics, pre.memory, pre.i, ox as int, oy as int, 8 * dr),
            decreases nu - dr,
        {
            let byte = self.memory[self.i + dr];
            let mut dc: usize = 0;
            while dc < 8
                invariant
                    pre == old(self)@,
                    pre.wf(),
                    nu == n,
                    n < 16,
                    ox == pre.v[x as int] as int % 64,
                    oy == pre.v[y as int] as int % 32,
                    ox < 64,
                    oy < 32,
                    pre.i + nu <= 4096,
                    dr < nu,
                    dc <= 8,
                    byte == pre.memory[pre.i + dr],
                    self@ == (CpuView { graphics: self@.graphics, ..pre }),
                    self@.graphics.len() == 32 * 64,
                    forall|p: int|
                        0 <= p < 32 * 64 ==> self@.graphics[p] == draw_px(
                            pre.graphics,
                            pre.memory,
                            pre.i,
                            ox as int,
                            oy as int,
                            8 * dr + dc,
                            p,
                        ),
                    forall|p: int| 0 <= p < 32 * 64 ==> self@.graphics[p] <= 1,
                    vf <= 1,
                    vf == 1 <==> hit_upto(
                        pre.graphics,
                        pre.memory,
                        pre.i,
                        ox as int,
                        oy as int,
                        8 * dr + dc,
                    ),
                decreases 8 - dc,
            {
                let ghost limit: int = 8 * dr + dc;
                let py = (oy + dr) % 32;
                let px = (ox + dc) % 64;
                let p = py * 64 + px;
                let sh: u8 = (7 - dc) as u8;
                let bit = (byte >> sh) & 1;
                let cur = self.graphics[p];
                proof {
                    assert(((byte >> sh) & 1) <= 1) by (bit_vector);
                    assert(p / 64 == py && p % 64 == px);
                    assert((py - oy) % 32 == dr as int);
                    assert((px - ox) % 64 == dc as int);
                    assert(bit == sprite_bit(pre.memory, pre.i, dr as int, dc as int));
                    assert(cur == pre.graphics[p as int]);
                }
                if bit == 1 && cur == 1 {
                    vf = 1;
                }
                self.graphics[p] = cur ^ bit;
                proof {
                    assert((cur ^ bit) <= 1) by (bit_vector)
                        requires
                            cur <= 1,
                            bit <= 1,
                    ;
                    assert forall|q: int| 0 <= q < 32 * 64 implies self@.graphics[q] == draw_px(
                        pre.graphics,
                        pre.memory,
                        pre.i,
                        ox as int,
                        oy as int,
                        limit + 1,
                        q,
                    ) by {
                        let drq = ((q / 64) - oy) % 32;
                        let dcq = ((q % 64) - ox) % 64;
                        if q == p {
                            assert(drq == dr && dcq == dc);
                            assert(8 * drq + dcq == limit);
                        } else {
                            if 8 * drq + dcq == limit && dcq < 8 {
                                assert(drq == dr && dcq == dc);
                                assert(q / 64 < 32);
                                assert(q / 64 == py && q % 64 == px);
                                assert(q == p);
                            }
                        }
                    }
                    if vf == 1 {
                        if bit == 1 && cur == 1 {
                            assert(sprite_bit(pre.memory, pre.i, dr as int, dc as int) == 1
                                && pre.graphics[((oy + dr) % 32) * 64 + ((ox + dc) % 64)] == 1);
                            assert(hit_upto(
                                pre.graphics,
                                pre.memory,
                                pre.i,
                                ox as int,
                                oy as int,
                                limit + 1,
                            ));
                        } else {
                            assert(hit_upto(
                                pre.graphics,
                                pre.memory,
                                pre.i,
                                ox as int,
                                oy as int,
                                limit + 1,
                            ));
                        }
                    }
                    if hit_upto(pre.graphics, pre.memory, pre.i, ox as int, oy as int, limit + 1) {
                        let (dra, dca) = choose|dra: int, dca: int|
                            0 <= dra && 0 <= dca < 8 && 8 * dra + dca < limit + 1 && sprite_bit(
                                pre.memory,
                                pre.i,
                                dra,
                                dca,
                            ) == 1 && pre.graphics[((oy + dra) % 32) * 64 + ((ox + dca) % 64)]
                            == 1;
                        if 8 * dra + dca < limit {
                            assert(hit_upto(
                                pre.graphics,
                                pre.memory,
                                pre.i,
                                ox as int,
                                oy as int,
                                limit,
                            ));
                        } else {
                            assert(dra == dr && dca == dc);
                            assert(bit == 1 && cur == 1);
                        }
                        assert(vf == 1);
                    }
                }
                dc += 1;
            }
            dr += 1;
        }
        self.v[15] = vf;
        self.pc += 2;
        proof {
            lemma_hit_collision(
                pre.graphics,
                pre.memory,
                pre.i,
                ox as int,
                oy as int,
                n as int,
            );
            assert forall|p: int| 0 <= p < 32 * 64 implies self@.graphics[p] == drawn(
                pre.graphics,
                pre.memory,
                pre.i,
                ox as int,
                oy as int,
                n as int,
            )[p] by {
                let drp = ((p / 64) - oy) % 32;
                let dcp = ((p % 64) - ox) % 64;
                assert(0 <= drp && 0 <= dcp);
                assert((8 * drp + dcp < 8 * n && dcp < 8) == (drp < n && dcp < 8));
            }
            assert(self@.graphics =~= drawn(
                pre.graphics,
                pre.memory,
                pre.i,
                ox as int,
                oy as int,
                n as int,
            ));
            assert(self@ =~= instr_step(old(self)@, Instr::Draw { x, y, n }, 0).0);
        }
        Ok(())
    }

    /// Store registers `v[0 ..= x]` at memory `i ..= i + x`.
    fn op_store_regs(&mut self, x: u8) -> (r: Result<(), Fault>)
        requires
            old(self)@.wf(),
            x < 16,
            old(self)@.pc + 1 < 4096,
        ensures
            final(self)@.wf(),
            instr_ok(old(self)@, Instr::StoreRegs { x }, 0, final(self)@, r),
    {
        if self.i + (x as usize) + 1 > 4096 {
            return Err(Fault::AddressOutOfRange);
        }
        let mut k: usize = 0;
        while k < x as usize + 1
            invariant
                old(self)@.wf(),
                x < 16,
                k <= x + 1,
                old(self)@.i + x + 1 <= 4096,
                self@ == (CpuView { memory: self@.memory, ..old(self)@ }),
                self@.memory.len() == 4096,
                forall|a: int|
                    old(self)@.i <= a < old(self)@.i + k ==> self@.memory[a] == old(self)@.v[a
                        - old(self)@.i],
                forall|a: int|
                    0 <= a < 4096 && !(old(self)@.i <= a < old(self)@.i + k) ==> self@.memory[a]
                        == old(self)@.memory[a],
            decreases x as int + 1 - k,
        {
            let b = self.v[k];
            self.memory[self.i + k] = b;
            k += 1;
        }
        self.pc += 2;
        proof {
            assert(self@.memory =~= stored_regs(
                old(self)@.memory,
                old(self)@.i,
                old(self)@.v,
                x as int,
            ));
            assert(self@ =~= instr_step(old(self)@, Instr::StoreRegs { x }, 0).0);
        }
        Ok(())
    }

    /// Load registers `v[0 ..= x]` from memory `i ..= i + x`.
    fn op_load_regs(&mut self, x: u8) -> (r: Result<(), Fault>)
        requires
            old(self)@.wf(),
            x < 16,
            old(self)@.pc + 1 < 4096,
        ensures
            final(self)@.wf(),
            instr_ok(old(self)@, Instr::LoadRegs { x }, 0, final(self)@, r),
    {
        if self.i + (x as usize) + 1 > 4096 {
            return Err(Fault::AddressOutOfRange);
        }
        let mut k: usize = 0;
        while k < x as usize + 1
            invariant
                old(self)@.wf(),
                x < 16,
                k <= x + 1,
                old(self)@.i + x + 1 <= 4096,
                self@ == (CpuView { v: self@.v, ..old(self)@ }),
                self@.v.len() == 16,
                forall|j: int| 0 <= j < k ==> self@.v[j] == old(self)@.memory[old(self)@.i + j],
                forall|j: int| k <= j < 16 ==> self@.v[j] == old(self)@.v[j],
            decreases x as int + 1 - k,
        {
            let b = self.memory[self.i + k];
            self.v[k] = b;
            k += 1;
        }
        self.pc += 2;
        proof {
            assert(self@.v =~= loaded_regs(
                old(self)@.v,
                old(self)@.memory,
                old(self)@.i,
                x as int,
            ));
            assert(self@ =~= instr_step(old(self)@, Instr::LoadRegs { x }, 0).0);
        }
        Ok(())
    }

    /// Advance the machine by one cycle: resolve a pending key wait, or
    /// fetch, decode and execute one instruction.  A fault leaves the
    /// state exactly as it was.  Timers are not touched here; the host
    /// drives [`CPU::update_timers`] at its own 60 Hz cadence.
    pub fn emulate_cycle(&mut self) -> (r: Result<(), Fault>)
        requires
            old(self)@.wf(),
        ensures
            final(self)@.wf(),
            exists|rnd: u8| cycle_ok(old(self)@, rnd, final(self)@, r),
    {
        let w = self.wait;
        match w {
            Wait::AwaitingKey { target } => {
                let k = find_edge(&self.keypad, &self.keypad_seen);
                if k < 16 {
                    self.v[target as usize] = k as u8;
                    self.wait = Wait::Running;
                } else {
                    self.keypad_seen = copy_flags(&self.keypad);
                }
                proof {
                    assert(self@ =~= spec_cycle(old(self)@, 0).0);
                    assert(cycle_ok(old(self)@, 0, self@, Ok::<(), Fault>(())));
                }
                Ok(())
            },
            Wait::Running => {
                if self.pc + 1 >= 4096 {
                    proof {
                        assert(cycle_ok(old(self)@, 0, self@, Err::<(), Fault>(
                            Fault::AddressOutOfRange,
                        )));
                    }
                    return Err(Fault::AddressOutOfRange);
                }
                let word: u16 = ((self.memory[self.pc] as u16) << 8u16) | (self.memory[self.pc
                    + 1] as u16);
                let ins = decode(word);
                let rnd = if let Instr::Random { .. } = ins {
                    random_byte()
                } else {
                    0
                };
                let r = self.execute(ins, rnd);
                proof {
                    assert(word == fetched(old(self)@));
                    assert(cycle_ok(old(self)@, rnd, self@, r));
                }
                r
            },
        }
    }

    /// One 60 Hz tick: each timer that is above zero counts down by one.
    /// The host calls this on a wall-clock cadence, independent of how
    /// many instruction cycles have run.
    pub fn update_timers(&mut self)
        requires
            old(self)@.wf(),
        ensures
            final(self)@ == (CpuView {
                delay_timer: if old(self)@.delay_timer > 0 {
                    (old(self)@.delay_timer - 1) as u8
                } else {
                    0
                },
                sound_timer: if old(self)@.sound_timer > 0 {
                    (old(self)@.sound_timer - 1) as u8
                } else {
                    0
                },
                ..old(self)@
            }),
            final(self)@.wf(),
    {
        if self.delay_timer > 0 {
            self.delay_timer = self.delay_timer - 1;
        }
        if self.sound_timer > 0 {
            self.sound_timer = self.sound_timer - 1;
        }
        proof {
            assert(self@ =~= (CpuView {
                delay_timer: if old(self)@.delay_timer > 0 {
                    (old(self)@.delay_timer - 1) as u8
                } else {
                    0
                },
                sound_timer: if old(self)@.sound_timer > 0 {
                    (old(self)@.sound_timer - 1) as u8
                } else {
                    0
                },
                ..old(self)@
            }));
        }
    }
}

} // verus!
