//! The machine state: its mathematical model, the error kinds, and the
//! well-formedness invariant that every operation preserves.

use vstd::prelude::*;

verus! {

/// A fatal condition detected while executing one instruction.  The
/// instruction takes no effect at all when one of these is reported.
#[derive(Clone, Copy, Debug, PartialEq, Eq)]
pub enum Fault {
    /// A call was attempted with the call stack already at capacity.
    StackOverflow,
    /// A return was attempted with an empty call stack.
    StackUnderflow,
    /// A memory access would touch an address at or beyond 4096.
    AddressOutOfRange,
}

/// Whether the machine is dispatching normally or suspended inside the
/// wait-for-key instruction.
#[derive(Clone, Copy, Debug, PartialEq, Eq)]
pub enum Wait {
    /// Normal fetch-decode-execute dispatch.
    Running,
    /// Dispatch is suspended until a key-press edge is observed; the
    /// pressed key's index is then written into register `target`.
    AwaitingKey { target: u8 },
}

/// The mathematical model of the whole machine: each concrete field of
/// [`crate::CPU`] seen as a sequence or an unbounded integer.
#[verifier::ext_equal]
pub ghost struct CpuView {
    /// 4096 bytes of addressable memory.
    pub memory: Seq<u8>,
    /// The sixteen general-purpose registers; index 15 doubles as the
    /// carry/borrow/collision flag.
    pub v: Seq<u8>,
    /// The program counter.
    pub pc: int,
    /// The address register; only its low 12 bits name an address.
    pub i: int,
    /// The delay timer.
    pub delay_timer: u8,
    /// The sound timer.
    pub sound_timer: u8,
    /// The 32x64 framebuffer, row-major: pixel (row, col) is entry
    /// `row * 64 + col`, and every entry is 0 or 1.
    pub graphics: Seq<u8>,
    /// The sixteen call-stack slots.
    pub stack: Seq<u16>,
    /// The stack pointer: the number of occupied call-stack slots.
    pub sp: int,
    /// The sixteen key-pressed states.
    pub keypad: Seq<bool>,
    /// The key states last seen by the wait-for-key instruction, used to
    /// recognise a press edge.
    pub keypad_seen: Seq<bool>,
    /// Whether dispatch is running or suspended awaiting a key.
    pub wait: Wait,
}

impl CpuView {
    /// The structural invariant: every component has its fixed size,
    /// the pointers lie in their ranges, and each pixel is a single bit.
    pub open spec fn wf(self) -> bool {
        &&& self.memory.len() == 4096
        &&& self.v.len() == 16
        &&& self.graphics.len() == 32 * 64
        &&& (forall|p: int| 0 <= p < 32 * 64 ==> self.graphics[p] <= 1)
        &&& self.stack.len() == 16
        &&& self.keypad.len() == 16
        &&& self.keypad_seen.len() == 16
        &&& 0 <= self.pc <= 0xFFFF
        &&& 0 <= self.i < 0x10000
        &&& 0 <= self.sp <= 16
        &&& (self.wait matches Wait::AwaitingKey { target } ==> target < 16)
    }
}

} // verus!
