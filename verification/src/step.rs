//! The instruction semantics: a pure function from a machine state and a
//! decoded instruction to the next state, or to a fault that leaves the
//! state untouched.
//!
//! Every executable operation of [`crate::CPU`] is proved to agree with
//! these functions, so they are the single place where the behaviour of
//! each of the 35 instructions is written down.

use vstd::prelude::*;

use crate::decode::Instr;
use crate::decode::spec_decode;
use crate::state::CpuView;
use crate::state::Fault;
use crate::state::Wait;

verus! {

/// Bit `dc` (counting from the most significant, so column order) of the
/// sprite row read at `memory[i + dr]`.
pub open spec fn sprite_bit(memory: Seq<u8>, i: int, dr: int, dc: int) -> u8 {
    (memory[i + dr] >> ((7 - dc) as u8)) & 1
}

/// The framebuffer after XORing an `n`-row sprite, read at `i`, onto the
/// pixel origin `(ox, oy)`, with wraparound on both axes.  `ox` and `oy`
/// are the already reduced coordinates, in `[0, 64)` and `[0, 32)`.
///
/// Pixel `p` sits at row `p / 64`, column `p % 64`; it is touched exactly
/// when its row is among the `n` wrapped sprite rows and its column among
/// the 8 wrapped sprite columns, and then receives the XOR of the
/// corresponding sprite bit.
pub open spec fn drawn(
    graphics: Seq<u8>,
    memory: Seq<u8>,
    i: int,
    ox: int,
    oy: int,
    n: int,
) -> Seq<u8> {
    Seq::new(
        32 * 64,
        |p: int|
            {
                let dr = ((p / 64) - oy) % 32;
                let dc = ((p % 64) - ox) % 64;
                if dr < n && dc < 8 {
                    graphics[p] ^ sprite_bit(memory, i, dr, dc)
                } else {
                    graphics[p]
                }
            },
    )
}

/// Whether drawing that sprite turns some lit pixel off: some sprite bit
/// is 1 on a pixel that is already 1.
pub open spec fn collision(
    graphics: Seq<u8>,
    memory: Seq<u8>,
    i: int,
    ox: int,
    oy: int,
    n: int,
) -> bool {
    exists|dr: int, dc: int|
        0 <= dr < n && 0 <= dc < 8 && sprite_bit(memory, i, dr, dc) == 1 && graphics[((oy + dr)
            % 32) * 64 + ((ox + dc) % 64)] == 1
}

/// Memory after storing `v[0 ..= x]` at addresses `i ..= i + x`.
pub open spec fn stored_regs(memory: Seq<u8>, i: int, v: Seq<u8>, x: int) -> Seq<u8> {
    Seq::new(4096, |a: int| if i <= a <= i + x { v[a - i] } else { memory[a] })
}

/// Registers after loading `v[0 ..= x]` from addresses `i ..= i + x`.
pub open spec fn loaded_regs(v: Seq<u8>, memory: Seq<u8>, i: int, x: int) -> Seq<u8> {
    Seq::new(16, |j: int| if j <= x { memory[i + j] } else { v[j] })
}

/// The smallest key index at or after `k` that is pressed now but was not
/// pressed in the `seen` snapshot; 16 when there is none.
pub open spec fn first_edge_from(keypad: Seq<bool>, seen: Seq<bool>, k: int) -> int
    decreases 16 - k,
{
    if k >= 16 {
        16
    } else if keypad[k] && !seen[k] {
        k
    } else {
        first_edge_from(keypad, seen, k + 1)
    }
}

/// The smallest key index showing a press edge against the `seen`
/// snapshot; 16 when no key does.
pub open spec fn first_edge(keypad: Seq<bool>, seen: Seq<bool>) -> int {
    first_edge_from(keypad, seen, 0)
}

/// The state after executing one decoded instruction, paired with the
/// fault, if any.  A faulting instruction has no effect at all: the
/// returned state is `pre` itself.
///
/// Arithmetic flag conventions: the flag register `v[15]` is computed
/// from the operand values read before any register is overwritten, the
/// flag is written first, and the destination register `v[x]` last, so
/// when `x` is 15 the destination write is the one that survives.
///
/// `rnd` is the byte drawn for the random instruction; no other
/// instruction reads it.
pub open spec fn instr_step(pre: CpuView, ins: Instr, rnd: u8) -> (CpuView, Option<Fault>) {
    match ins {
        Instr::Clear => (
            CpuView { graphics: Seq::new(32 * 64, |p: int| 0u8), pc: pre.pc + 2, ..pre },
            None,
        ),
        Instr::Ret => {
            if pre.sp == 0 {
                (pre, Some(Fault::StackUnderflow))
            } else {
                (CpuView { pc: pre.stack[pre.sp - 1] as int, sp: pre.sp - 1, ..pre }, None)
            }
        },
        Instr::Jump { nnn } => (CpuView { pc: nnn as int, ..pre }, None),
        Instr::Call { nnn } => {
            if pre.sp == 16 {
                (pre, Some(Fault::StackOverflow))
            } else {
                (
                    CpuView {
                        stack: pre.stack.update(pre.sp, (pre.pc + 2) as u16),
                        sp: pre.sp + 1,
                        pc: nnn as int,
                        ..pre
                    },
                    None,
                )
            }
        },
        Instr::SkipEqImm { x, kk } => (
            CpuView { pc: pre.pc + (if pre.v[x as int] == kk { 4int } else { 2int }), ..pre },
            None,
        ),
        Instr::SkipNeqImm { x, kk } => (
            CpuView { pc: pre.pc + (if pre.v[x as int] != kk { 4int } else { 2int }), ..pre },
            None,
        ),
        Instr::SkipEqReg { x, y } => (
            CpuView {
                pc: pre.pc + (if pre.v[x as int] == pre.v[y as int] { 4int } else { 2int }),
                ..pre
            },
            None,
        ),
        Instr::LoadImm { x, kk } => (
            CpuView { v: pre.v.update(x as int, kk), pc: pre.pc + 2, ..pre },
            None,
        ),
        Instr::AddImm { x, kk } => (
            CpuView {
                v: pre.v.update(x as int, ((pre.v[x as int] + kk) % 256) as u8),
                pc: pre.pc + 2,
                ..pre
            },
            None,
        ),
        Instr::LoadReg { x, y } => (
            CpuView { v: pre.v.update(x as int, pre.v[y as int]), pc: pre.pc + 2, ..pre },
            None,
        ),
        Instr::OrReg { x, y } => (
            CpuView {
                v: pre.v.update(x as int, pre.v[x as int] | pre.v[y as int]),
                pc: pre.pc + 2,
                ..pre
            },
            None,
        ),
        Instr::AndReg { x, y } => (
            CpuView {
                v: pre.v.update(x as int, pre.v[x as int] & pre.v[y as int]),
                pc: pre.pc + 2,
                ..pre
            },
            None,
        ),
        Instr::XorReg { x, y } => (
            CpuView {
                v: pre.v.update(x as int, pre.v[x as int] ^ pre.v[y as int]),
                pc: pre.pc + 2,
                ..pre
            },
            None,
        ),
        Instr::AddReg { x, y } => {
            let s = pre.v[x as int] + pre.v[y as int];
            (
                CpuView {
                    v: pre.v.update(15, if s > 255 { 1u8 } else { 0u8 }).update(
                        x as int,
                        (s % 256) as u8,
                    ),
                    pc: pre.pc + 2,
                    ..pre
                },
                None,
            )
        },
        Instr::SubReg { x, y } => {
            let a = pre.v[x as int];
            let b = pre.v[y as int];
            (
                CpuView {
                    v: pre.v.update(15, if a >= b { 1u8 } else { 0u8 }).update(
                        x as int,
                        ((a - b) % 256) as u8,
                    ),
                    pc: pre.pc + 2,
                    ..pre
                },
                None,
            )
        },
        Instr::ShiftRight { x } => {
            let a = pre.v[x as int];
            (
                CpuView {
                    v: pre.v.update(15, a & 1).update(x as int, a >> 1u8),
                    pc: pre.pc + 2,
                    ..pre
                },
                None,
            )
        },
        Instr::SubnReg { x, y } => {
            let a = pre.v[x as int];
            let b = pre.v[y as int];
            (
                CpuView {
                    v: pre.v.update(15, if b >= a { 1u8 } else { 0u8 }).update(
                        x as int,
                        ((b - a) % 256) as u8,
                    ),
                    pc: pre.pc + 2,
                    ..pre
                },
                None,
            )
        },
        Instr::ShiftLeft { x } => {
            let a = pre.v[x as int];
            (
                CpuView {
                    v: pre.v.update(15, a >> 7u8).update(x as int, ((a * 2) % 256) as u8),
                    pc: pre.pc + 2,
                    ..pre
                },
                None,
            )
        },
        Instr::SkipNeqReg { x, y } => (
            CpuView {
                pc: pre.pc + (if pre.v[x as int] != pre.v[y as int] { 4int } else { 2int }),
                ..pre
            },
            None,
        ),
        Instr::LoadAddr { nnn } => (CpuView { i: nnn as int, pc: pre.pc + 2, ..pre }, None),
        Instr::JumpOffset { nnn } => (
            CpuView { pc: nnn + pre.v[0] as int, ..pre },
            None,
        ),
        Instr::Random { x, kk } => (
            CpuView { v: pre.v.update(x as int, rnd & kk), pc: pre.pc + 2, ..pre },
            None,
        ),
        Instr::Draw { x, y, n } => {
            if n > 0 && pre.i + n > 4096 {
                (pre, Some(Fault::AddressOutOfRange))
            } else {
                let ox = pre.v[x as int] as int % 64;
                let oy = pre.v[y as int] as int % 32;
                (
                    CpuView {
                        graphics: drawn(pre.graphics, pre.memory, pre.i, ox, oy, n as int),
                        v: pre.v.update(
                            15,
                            if collision(pre.graphics, pre.memory, pre.i, ox, oy, n as int) {
                                1u8
                            } else {
                                0u8
                            },
                        ),
                        pc: pre.pc + 2,
                        ..pre
                    },
                    None,
                )
            }
        },
        Instr::SkipKey { x } => {
            let k = pre.v[x as int] as int;
            let pressed = k < 16 && pre.keypad[k];
            (CpuView { pc: pre.pc + (if pressed { 4int } else { 2int }), ..pre }, None)
        },
        Instr::SkipNotKey { x } => {
            let k = pre.v[x as int] as int;
            let pressed = k < 16 && pre.keypad[k];
            (CpuView { pc: pre.pc + (if pressed { 2int } else { 4int }), ..pre }, None)
        },
        Instr::LoadDelay { x } => (
            CpuView { v: pre.v.update(x as int, pre.delay_timer), pc: pre.pc + 2, ..pre },
            None,
        ),
        Instr::WaitKey { x } => (
            CpuView {
                wait: Wait::AwaitingKey { target: x },
                keypad_seen: pre.keypad,
                pc: pre.pc + 2,
                ..pre
            },
            None,
        ),
        Instr::SetDelay { x } => (
            CpuView { delay_timer: pre.v[x as int], pc: pre.pc + 2, ..pre },
            None,
        ),
        Instr::SetSound { x } => (
            CpuView { sound_timer: pre.v[x as int], pc: pre.pc + 2, ..pre },
            None,
        ),
        Instr::AddAddr { x } => (
            CpuView { i: (pre.i + pre.v[x as int]) % 0x10000, pc: pre.pc + 2, ..pre },
            None,
        ),
        Instr::FontAddr { x } => (
            CpuView { i: pre.v[x as int] * 5, pc: pre.pc + 2, ..pre },
            None,
        ),
        Instr::StoreBcd { x } => {
            if pre.i + 3 > 4096 {
                (pre, Some(Fault::AddressOutOfRange))
            } else {
                let a = pre.v[x as int];
                (
                    CpuView {
                        memory: pre.memory.update(pre.i, a / 100).update(
                            pre.i + 1,
                            (a % 100) / 10,
                        ).update(pre.i + 2, a % 10),
                        pc: pre.pc + 2,
                        ..pre
                    },
                    None,
                )
            }
        },
        Instr::StoreRegs { x } => {
            if pre.i + x + 1 > 4096 {
                (pre, Some(Fault::AddressOutOfRange))
            } else {
                (
                    CpuView {
                        memory: stored_regs(pre.memory, pre.i, pre.v, x as int),
                        pc: pre.pc + 2,
                        ..pre
                    },
                    None,
                )
            }
        },
        Instr::LoadRegs { x } => {
            if pre.i + x + 1 > 4096 {
                (pre, Some(Fault::AddressOutOfRange))
            } else {
                (
                    CpuView {
                        v: loaded_regs(pre.v, pre.memory, pre.i, x as int),
                        pc: pre.pc + 2,
                        ..pre
                    },
                    None,
                )
            }
        },
        Instr::Unknown => (CpuView { pc: pre.pc + 2, ..pre }, None),
    }
}

/// The big-endian 16-bit word read at the program counter.
pub open spec fn fetched(pre: CpuView) -> u16 {
    ((pre.memory[pre.pc] as u16) << 8u16) | (pre.memory[pre.pc + 1] as u16)
}

/// One whole cycle.  A machine awaiting a key only resolves the wait:
/// when some key shows a press edge against the snapshot, the smallest
/// such index lands in the target register and dispatch resumes;
/// otherwise only the snapshot is refreshed, so a key released and
/// pressed again later still counts as an edge.  A running machine
/// fetches at the program counter (a fault when the word would cross the
/// end of memory) and executes the decoded instruction.
pub open spec fn spec_cycle(pre: CpuView, rnd: u8) -> (CpuView, Option<Fault>) {
    match pre.wait {
        Wait::AwaitingKey { target } => {
            let k = first_edge(pre.keypad, pre.keypad_seen);
            if k < 16 {
                (
                    CpuView { v: pre.v.update(target as int, k as u8), wait: Wait::Running, ..pre },
                    None,
                )
            } else {
                (CpuView { keypad_seen: pre.keypad, ..pre }, None)
            }
        },
        Wait::Running => {
            if pre.pc + 1 >= 4096 {
                (pre, Some(Fault::AddressOutOfRange))
            } else {
                instr_step(pre, spec_decode(fetched(pre)), rnd)
            }
        },
    }
}

/// What executing one decoded instruction guarantees: the new state and
/// the result are exactly what [`instr_step`] says.
pub open spec fn instr_ok(
    pre: CpuView,
    ins: Instr,
    rnd: u8,
    post: CpuView,
    r: Result<(), Fault>,
) -> bool {
    &&& post == instr_step(pre, ins, rnd).0
    &&& match instr_step(pre, ins, rnd).1 {
        None => r is Ok,
        Some(f) => r matches Err(g) && g == f,
    }
}

/// What one call of [`crate::CPU::emulate_cycle`] guarantees, given the
/// byte `rnd` that the random instruction drew: the new state and the
/// result are exactly what [`spec_cycle`] says.
pub open spec fn cycle_ok(pre: CpuView, rnd: u8, post: CpuView, r: Result<(), Fault>) -> bool {
    &&& post == spec_cycle(pre, rnd).0
    &&& match spec_cycle(pre, rnd).1 {
        None => r is Ok,
        Some(f) => r matches Err(g) && g == f,
    }
}

} // verus!
