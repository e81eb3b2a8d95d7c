//! Decoding a 16-bit instruction word into a typed instruction value.
//!
//! The word's top nibble selects the instruction class; the remaining
//! fields are the register indices `x` (bits 8..12) and `y` (bits 4..8),
//! the low nibble `n`, the low byte `kk`, and the low 12 bits `nnn`.

use vstd::prelude::*;

verus! {

/// One decoded instruction of the 35-instruction set.  A word that
/// matches no defined pattern decodes to `Unknown` and executes as a
/// no-op that only advances the program counter.
#[derive(Clone, Copy, Debug, PartialEq, Eq)]
pub enum Instr {
    /// Set every pixel of the framebuffer to 0.
    Clear,
    /// Pop a return address from the call stack into the program counter.
    Ret,
    /// Jump to address `nnn`.
    Jump { nnn: u16 },
    /// Push the address of the next instruction and jump to `nnn`.
    Call { nnn: u16 },
    /// Skip the next instruction if `v[x] == kk`.
    SkipEqImm { x: u8, kk: u8 },
    /// Skip the next instruction if `v[x] != kk`.
    SkipNeqImm { x: u8, kk: u8 },
    /// Skip the next instruction if `v[x] == v[y]`.
    SkipEqReg { x: u8, y: u8 },
    /// `v[x] <- kk`.
    LoadImm { x: u8, kk: u8 },
    /// `v[x] <- (v[x] + kk) mod 256`, with no flag effect.
    AddImm { x: u8, kk: u8 },
    /// `v[x] <- v[y]`.
    LoadReg { x: u8, y: u8 },
    /// `v[x] <- v[x] | v[y]`.
    OrReg { x: u8, y: u8 },
    /// `v[x] <- v[x] & v[y]`.
    AndReg { x: u8, y: u8 },
    /// `v[x] <- v[x] ^ v[y]`.
    XorReg { x: u8, y: u8 },
    /// `v[x] <- (v[x] + v[y]) mod 256`; `v[15]` reports the carry.
    AddReg { x: u8, y: u8 },
    /// `v[x] <- (v[x] - v[y]) mod 256`; `v[15]` reports not-borrow.
    SubReg { x: u8, y: u8 },
    /// `v[x] <- v[x] >> 1`; `v[15]` holds the shifted-out low bit.
    ShiftRight { x: u8 },
    /// `v[x] <- (v[y] - v[x]) mod 256`; `v[15]` reports not-borrow.
    SubnReg { x: u8, y: u8 },
    /// `v[x] <- (v[x] << 1) mod 256`; `v[15]` holds the shifted-out high bit.
    ShiftLeft { x: u8 },
    /// Skip the next instruction if `v[x] != v[y]`.
    SkipNeqReg { x: u8, y: u8 },
    /// `i <- nnn`.
    LoadAddr { nnn: u16 },
    /// Jump to `nnn + v[0]`.
    JumpOffset { nnn: u16 },
    /// `v[x] <- random byte & kk`.
    Random { x: u8, kk: u8 },
    /// XOR an `n`-row sprite read at `i` onto the framebuffer at origin
    /// `(v[x] mod 64, v[y] mod 32)`; `v[15]` reports a collision.
    Draw { x: u8, y: u8, n: u8 },
    /// Skip the next instruction if key `v[x]` is pressed.
    SkipKey { x: u8 },
    /// Skip the next instruction if key `v[x]` is not pressed.
    SkipNotKey { x: u8 },
    /// `v[x] <- delay timer`.
    LoadDelay { x: u8 },
    /// Suspend dispatch until a key-press edge; the key index lands in `v[x]`.
    WaitKey { x: u8 },
    /// delay timer `<- v[x]`.
    SetDelay { x: u8 },
    /// sound timer `<- v[x]`.
    SetSound { x: u8 },
    /// `i <- (i + v[x]) mod 65536`.
    AddAddr { x: u8 },
    /// `i <-` address of the 5-byte glyph for digit `v[x]`.
    FontAddr { x: u8 },
    /// Store the decimal digits of `v[x]` at `memory[i .. i+3]`.
    StoreBcd { x: u8 },
    /// `memory[i ..= i+x] <- v[0 ..= x]`.
    StoreRegs { x: u8 },
    /// `v[0 ..= x] <- memory[i ..= i+x]`.
    LoadRegs { x: u8 },
    /// A word that matches no defined pattern: a no-op.
    Unknown,
}

impl Instr {
    /// Bounds on the operand fields, as decoding produces them: register
    /// indices and the sprite height are nibbles, addresses are 12 bits.
    pub open spec fn operands_bounded(self) -> bool {
        match self {
            Instr::Clear => true,
            Instr::Ret => true,
            Instr::Jump { nnn } => nnn < 0x1000,
            Instr::Call { nnn } => nnn < 0x1000,
            Instr::SkipEqImm { x, kk } => x < 16,
            Instr::SkipNeqImm { x, kk } => x < 16,
            Instr::SkipEqReg { x, y } => x < 16 && y < 16,
            Instr::LoadImm { x, kk } => x < 16,
            Instr::AddImm { x, kk } => x < 16,
            Instr::LoadReg { x, y } => x < 16 && y < 16,
            Instr::OrReg { x, y } => x < 16 && y < 16,
            Instr::AndReg { x, y } => x < 16 && y < 16,
            Instr::XorReg { x, y } => x < 16 && y < 16,
            Instr::AddReg { x, y } => x < 16 && y < 16,
            Instr::SubReg { x, y } => x < 16 && y < 16,
            Instr::ShiftRight { x } => x < 16,
            Instr::SubnReg { x, y } => x < 16 && y < 16,
            Instr::ShiftLeft { x } => x < 16,
            Instr::SkipNeqReg { x, y } => x < 16 && y < 16,
            Instr::LoadAddr { nnn } => nnn < 0x1000,
            Instr::JumpOffset { nnn } => nnn < 0x1000,
            Instr::Random { x, kk } => x < 16,
            Instr::Draw { x, y, n } => x < 16 && y < 16 && n < 16,
            Instr::SkipKey { x } => x < 16,
            Instr::SkipNotKey { x } => x < 16,
            Instr::LoadDelay { x } => x < 16,
            Instr::WaitKey { x } => x < 16,
            Instr::SetDelay { x } => x < 16,
            Instr::SetSound { x } => x < 16,
            Instr::AddAddr { x } => x < 16,
            Instr::FontAddr { x } => x < 16,
            Instr::StoreBcd { x } => x < 16,
            Instr::StoreRegs { x } => x < 16,
            Instr::LoadRegs { x } => x < 16,
            Instr::Unknown => true,
        }
    }
}

/// The instruction denoted by the 16-bit word `w`.
pub open spec fn spec_decode(w: u16) -> Instr {
    let c = (w >> 12u16) & 0xF;
    let x = ((w >> 8u16) & 0xF) as u8;
    let y = ((w >> 4u16) & 0xF) as u8;
    let n = (w & 0xF) as u8;
    let kk = (w & 0xFF) as u8;
    let nnn = w & 0xFFF;
    if w == 0x00E0 {
        Instr::Clear
    } else if w == 0x00EE {
        Instr::Ret
    } else if c == 0x1 {
        Instr::Jump { nnn }
    } else if c == 0x2 {
        Instr::Call { nnn }
    } else if c == 0x3 {
        Instr::SkipEqImm { x, kk }
    } else if c == 0x4 {
        Instr::SkipNeqImm { x, kk }
    } else if c == 0x5 && n == 0x0 {
        Instr::SkipEqReg { x, y }
    } else if c == 0x6 {
        Instr::LoadImm { x, kk }
    } else if c == 0x7 {
        Instr::AddImm { x, kk }
    } else if c == 0x8 && n == 0x0 {
        Instr::LoadReg { x, y }
    } else if c == 0x8 && n == 0x1 {
        Instr::OrReg { x, y }
    } else if c == 0x8 && n == 0x2 {
        Instr::AndReg { x, y }
    } else if c == 0x8 && n == 0x3 {
        Instr::XorReg { x, y }
    } else if c == 0x8 && n == 0x4 {
        Instr::AddReg { x, y }
    } else if c == 0x8 && n == 0x5 {
        Instr::SubReg { x, y }
    } else if c == 0x8 && n == 0x6 {
        Instr::ShiftRight { x }
    } else if c == 0x8 && n == 0x7 {
        Instr::SubnReg { x, y }
    } else if c == 0x8 && n == 0xE {
        Instr::ShiftLeft { x }
    } else if c == 0x9 && n == 0x0 {
        Instr::SkipNeqReg { x, y }
    } else if c == 0xA {
        Instr::LoadAddr { nnn }
    } else if c == 0xB {
        Instr::JumpOffset { nnn }
    } else if c == 0xC {
        Instr::Random { x, kk }
    } else if c == 0xD {
        Instr::Draw { x, y, n }
    } else if c == 0xE && kk == 0x9E {
        Instr::SkipKey { x }
    } else if c == 0xE && kk == 0xA1 {
        Instr::SkipNotKey { x }
    } else if c == 0xF && kk == 0x07 {
        Instr::LoadDelay { x }
    } else if c == 0xF && kk == 0x0A {
        Instr::WaitKey { x }
    } else if c == 0xF && kk == 0x15 {
        Instr::SetDelay { x }
    } else if c == 0xF && kk == 0x18 {
        Instr::SetSound { x }
    } else if c == 0xF && kk == 0x1E {
        Instr::AddAddr { x }
    } else if c == 0xF && kk == 0x29 {
        Instr::FontAddr { x }
    } else if c == 0xF && kk == 0x33 {
        Instr::StoreBcd { x }
    } else if c == 0xF && kk == 0x55 {
        Instr::StoreRegs { x }
    } else if c == 0xF && kk == 0x65 {
        Instr::LoadRegs { x }
    } else {
        Instr::Unknown
    }
}

/// Every decoded instruction carries operands within their field widths.
pub proof fn lemma_decode_operands_bounded(w: u16)
    ensures
        spec_decode(w).operands_bounded(),
{
    assert((((w >> 8u16) & 0xF) as u8) < 16) by (bit_vector);
    assert((((w >> 4u16) & 0xF) as u8) < 16) by (bit_vector);
    assert(((w & 0xF) as u8) < 16) by (bit_vector);
    assert((w & 0xFFF) < 0x1000) by (bit_vector);
}

/// Extract the operand fields of `w` and select its instruction.
pub fn decode(w: u16) -> (ins: Instr)
    ensures
        ins == spec_decode(w),
        ins.operands_bounded(),
{
    proof {
        lemma_decode_operands_bounded(w);
    }
    let c = (w >> 12u16) & 0xF;
    let x = ((w >> 8u16) & 0xF) as u8;
    let y = ((w >> 4u16) & 0xF) as u8;
    let n = (w & 0xF) as u8;
    let kk = (w & 0xFF) as u8;
    let nnn = w & 0xFFF;
    if w == 0x00E0 {
        Instr::Clear
    } else if w == 0x00EE {
        Instr::Ret
    } else if c == 0x1 {
        Instr::Jump { nnn }
    } else if c == 0x2 {
        Instr::Call { nnn }
    } else if c == 0x3 {
        Instr::SkipEqImm { x, kk }
    } else if c == 0x4 {
        Instr::SkipNeqImm { x, kk }
    } else if c == 0x5 && n == 0x0 {
        Instr::SkipEqReg { x, y }
    } else if c == 0x6 {
        Instr::LoadImm { x, kk }
    } else if c == 0x7 {
        Instr::AddImm { x, kk }
    } else if c == 0x8 && n == 0x0 {
        Instr::LoadReg { x, y }
    } else if c == 0x8 && n == 0x1 {
        Instr::OrReg { x, y }
    } else if c == 0x8 && n == 0x2 {
        Instr::AndReg { x, y }
    } else if c == 0x8 && n == 0x3 {
        Instr::XorReg { x, y }
    } else if c == 0x8 && n == 0x4 {
        Instr::AddReg { x, y }
    } else if c == 0x8 && n == 0x5 {
        Instr::SubReg { x, y }
    } else if c == 0x8 && n == 0x6 {
        Instr::ShiftRight { x }
    } else if c == 0x8 && n == 0x7 {
        Instr::SubnReg { x, y }
    } else if c == 0x8 && n == 0xE {
        Instr::ShiftLeft { x }
    } else if c == 0x9 && n == 0x0 {
        Instr::SkipNeqReg { x, y }
    } else if c == 0xA {
        Instr::LoadAddr { nnn }
    } else if c == 0xB {
        Instr::JumpOffset { nnn }
    } else if c == 0xC {
        Instr::Random { x, kk }
    } else if c == 0xD {
        Instr::Draw { x, y, n }
    } else if c == 0xE && kk == 0x9E {
        Instr::SkipKey { x }
    } else if c == 0xE && kk == 0xA1 {
        Instr::SkipNotKey { x }
    } else if c == 0xF && kk == 0x07 {
        Instr::LoadDelay { x }
    } else if c == 0xF && kk == 0x0A {
        Instr::WaitKey { x }
    } else if c == 0xF && kk == 0x15 {
        Instr::SetDelay { x }
    } else if c == 0xF && kk == 0x18 {
        Instr::SetSound { x }
    } else if c == 0xF && kk == 0x1E {
        Instr::AddAddr { x }
    } else if c == 0xF && kk == 0x29 {
        Instr::FontAddr { x }
    } else if c == 0xF && kk == 0x33 {
        Instr::StoreBcd { x }
    } else if c == 0xF && kk == 0x55 {
        Instr::StoreRegs { x }
    } else if c == 0xF && kk == 0x65 {
        Instr::LoadRegs { x }
    } else {
        Instr::Unknown
    }
}

} // verus!
