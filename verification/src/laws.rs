//! General laws of the instruction set, each proved once and for all
//! from the semantics in [`crate::step`].

use vstd::prelude::*;

use crate::decode::Instr;
use crate::state::CpuView;
use crate::step::collision;
use crate::step::drawn;
use crate::step::instr_step;
use crate::step::sprite_bit;

verus! {

/// The condition a skip-family instruction tests.
pub open spec fn skip_condition(pre: CpuView, ins: Instr) -> bool {
    match ins {
        Instr::SkipEqImm { x, kk } => pre.v[x as int] == kk,
        Instr::SkipNeqImm { x, kk } => pre.v[x as int] != kk,
        Instr::SkipEqReg { x, y } => pre.v[x as int] == pre.v[y as int],
        Instr::SkipNeqReg { x, y } => pre.v[x as int] != pre.v[y as int],
        Instr::SkipKey { x } => pre.v[x as int] < 16 && pre.keypad[pre.v[x as int] as int],
        Instr::SkipNotKey { x } => !(pre.v[x as int] < 16 && pre.keypad[pre.v[x as int] as int]),
        _ => false,
    }
}

/// Clearing the screen leaves every pixel 0, whatever was there before.
pub proof fn lemma_clear_screen(pre: CpuView, rnd: u8)
    requires
        pre.wf(),
    ensures
        instr_step(pre, Instr::Clear, rnd).1 is None,
        forall|p: int|
            0 <= p < 32 * 64 ==> #[trigger] instr_step(pre, Instr::Clear, rnd).0.graphics[p] == 0,
{
}

/// A return directly after a call restores the program counter to its
/// value just after the call instruction: the address of the next
/// instruction, `pc + 2`.  The bound on `pc` only keeps that address
/// inside the 16-bit range a stack slot can hold; a fetched instruction
/// always satisfies it.
pub proof fn lemma_call_then_return(pre: CpuView, nnn: u16, rnd1: u8, rnd2: u8)
    requires
        pre.wf(),
        pre.sp < 16,
        pre.pc + 2 < 0x10000,
    ensures
        instr_step(pre, Instr::Call { nnn }, rnd1).1 is None,
        instr_step(instr_step(pre, Instr::Call { nnn }, rnd1).0, Instr::Ret, rnd2).1 is None,
        instr_step(instr_step(pre, Instr::Call { nnn }, rnd1).0, Instr::Ret, rnd2).0.pc == pre.pc
            + 2,
{
}

/// A skip-family instruction advances the program counter by exactly 4
/// when its condition holds and by exactly 2 when it does not, and never
/// faults.
pub proof fn lemma_skip_steps(pre: CpuView, ins: Instr, rnd: u8)
    requires
        pre.wf(),
        ins.operands_bounded(),
        ins is SkipEqImm || ins is SkipNeqImm || ins is SkipEqReg || ins is SkipNeqReg
            || ins is SkipKey || ins is SkipNotKey,
    ensures
        instr_step(pre, ins, rnd).1 is None,
        skip_condition(pre, ins) ==> instr_step(pre, ins, rnd).0.pc == pre.pc + 4,
        !skip_condition(pre, ins) ==> instr_step(pre, ins, rnd).0.pc == pre.pc + 2,
{
}

/// The add-with-carry law: for any operand values, the destination
/// holds the sum modulo 256 and the flag register is 1 exactly when the
/// true sum exceeds 255.  Stated for destinations other than the flag
/// register itself, which the destination write overrules.
pub proof fn lemma_add_reg_flags(pre: CpuView, x: u8, y: u8, rnd: u8)
    requires
        pre.wf(),
        x < 15,
        y < 16,
    ensures
        instr_step(pre, Instr::AddReg { x, y }, rnd).1 is None,
        instr_step(pre, Instr::AddReg { x, y }, rnd).0.v[x as int] == (pre.v[x as int] + pre.v[y
            as int]) % 256,
        instr_step(pre, Instr::AddReg { x, y }, rnd).0.v[15] == 1 <==> pre.v[x as int] + pre.v[y
            as int] > 255,
{
}

/// The subtract-with-borrow law: the destination holds the difference
/// modulo 256 and the flag register is 1 exactly when no borrow occurs,
/// that is when the minuend is at least the subtrahend.  Stated for
/// destinations other than the flag register itself.
pub proof fn lemma_sub_reg_flags(pre: CpuView, x: u8, y: u8, rnd: u8)
    requires
        pre.wf(),
        x < 15,
        y < 16,
    ensures
        instr_step(pre, Instr::SubReg { x, y }, rnd).1 is None,
        instr_step(pre, Instr::SubReg { x, y }, rnd).0.v[x as int] == (pre.v[x as int] - pre.v[y
            as int]) % 256,
        instr_step(pre, Instr::SubReg { x, y }, rnd).0.v[15] == 1 <==> pre.v[x as int] >= pre.v[y
            as int],
{
}

/// Sprite drawing is self-erasing: drawing the same sprite at the same
/// coordinates twice in succession returns every pixel to its previous
/// value, and the flag register reports the collisions of the second
/// draw.  Stated for coordinate registers other than the flag register,
/// whose value the first draw overwrites.
pub proof fn lemma_draw_self_erasing(pre: CpuView, x: u8, y: u8, n: u8, rnd1: u8, rnd2: u8)
    requires
        pre.wf(),
        x < 15,
        y < 15,
        n < 16,
        n > 0 ==> pre.i + n <= 4096,
    ensures
        instr_step(pre, Instr::Draw { x, y, n }, rnd1).1 is None,
        instr_step(instr_step(pre, Instr::Draw { x, y, n }, rnd1).0, Instr::Draw { x, y, n }, rnd2).1
            is None,
        instr_step(
            instr_step(pre, Instr::Draw { x, y, n }, rnd1).0,
            Instr::Draw { x, y, n },
            rnd2,
        ).0.graphics == pre.graphics,
        ({
            let mid = instr_step(pre, Instr::Draw { x, y, n }, rnd1).0;
            let ox = pre.v[x as int] as int % 64;
            let oy = pre.v[y as int] as int % 32;
            instr_step(mid, Instr::Draw { x, y, n }, rnd2).0.v[15] == (if collision(
                mid.graphics,
                mid.memory,
                mid.i,
                ox,
                oy,
                n as int,
            ) {
                1u8
            } else {
                0u8
            })
        }),
{
    let ox = pre.v[x as int] as int % 64;
    let oy = pre.v[y as int] as int % 32;
    let mid = instr_step(pre, Instr::Draw { x, y, n }, rnd1).0;
    let post = instr_step(mid, Instr::Draw { x, y, n }, rnd2).0;
    assert(mid.v[x as int] == pre.v[x as int]);
    assert(mid.v[y as int] == pre.v[y as int]);
    assert(mid.graphics == drawn(pre.graphics, pre.memory, pre.i, ox, oy, n as int));
    assert(post.graphics == drawn(mid.graphics, mid.memory, mid.i, ox, oy, n as int));
    assert forall|p: int| 0 <= p < 32 * 64 implies post.graphics[p] == pre.graphics[p] by {
        let g = pre.graphics[p];
        let dr = ((p / 64) - oy) % 32;
        let dc = ((p % 64) - ox) % 64;
        let b = sprite_bit(pre.memory, pre.i, dr, dc);
        assert(((g ^ b) ^ b) == g) by (bit_vector);
    }
    assert(post.graphics =~= pre.graphics);
}

} // verus!
