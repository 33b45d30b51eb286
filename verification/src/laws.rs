//! Engine-level laws: properties that relate several execution cycles, or
//! several parts of one, proved once and for all over the ghost semantics
//! `crate::state::step`. Because `VM::process` is proved to implement
//! `step` exactly, each law transfers to the running machine.

use vstd::prelude::*;

use crate::insts::Instruction;
use crate::insts::decode;
use crate::insts::lemma_decode_bounds;
use crate::state::St;
use crate::state::VmError;
use crate::state::all_off;
use crate::state::fb_idx;
use crate::state::fetch;
use crate::state::lemma_blit_rows_frame;
use crate::state::rows_drawn;
use crate::state::step;
use crate::state::timer_dec;

verus! {

/// The decoder realises the nibble-pattern table and nothing else: the two
/// exact words give `ClearScreen` and `Ret` (and only they do), each
/// leading-nibble row gives its variant with the operands extracted as the
/// table states, and every word matching no row gives `ERROR` with the raw
/// word preserved. Decoding is total: a spec function returns exactly one
/// variant for each of the 65536 words.
pub proof fn lemma_decoder_table(w: u16)
    ensures
        decode(w) == Instruction::ClearScreen <==> w == 0x00E0,
        decode(w) == Instruction::Ret <==> w == 0x00EE,
        w >> 12 == 0x1 ==> decode(w) == Instruction::Jump(w & 0x0FFF),
        w >> 12 == 0x2 ==> decode(w) == Instruction::Call(w & 0x0FFF),
        w >> 12 == 0x6 ==> decode(w) == Instruction::SetRegister(
            ((w >> 8) & 0xF) as u8, (w & 0xFF) as u8),
        w >> 12 == 0x7 ==> decode(w) == Instruction::AddRegister(
            ((w >> 8) & 0xF) as u8, (w & 0xFF) as u8),
        w >> 12 == 0xA ==> decode(w) == Instruction::SetI(w & 0x0FFF),
        w >> 12 == 0xD ==> decode(w) == Instruction::Draw(
            (w >> 8) & 0xF, (w >> 4) & 0xF, w & 0xF),
        w != 0x00E0 && w != 0x00EE && w >> 12 != 0x1 && w >> 12 != 0x2 && w >> 12 != 0x6
            && w >> 12 != 0x7 && w >> 12 != 0xA && w >> 12 != 0xD
            ==> decode(w) == Instruction::ERROR(w),
{
    assert(0x00E0u16 >> 12 == 0x0 && 0x00EEu16 >> 12 == 0x0) by (bit_vector);
}

/// A jump lands exactly on its target: after executing `Jump(a)` the
/// program counter equals `a` on the next fetch (the universal +2 does not
/// apply).
pub proof fn lemma_jump_sets_pc(s: St, a: u16)
    requires
        s.pc + 1 < 4096,
        decode(fetch(s)) == Instruction::Jump(a),
    ensures
        step(s).1 == Ok::<(), VmError>(()),
        step(s).0.pc == a as nat,
{
}

/// Call/return round trip: executing `Call(a)` and then, at `a`, `Ret`
/// brings the program counter to the instruction after the call and the
/// call stack back to exactly its pre-call value.
pub proof fn lemma_call_return_round_trip(s: St, a: u16)
    requires
        s.pc + 1 < 4096,
        decode(fetch(s)) == Instruction::Call(a),
        s.stack.len() < 16,
        a + 1 < 4096,
        decode(fetch(step(s).0)) == Instruction::Ret,
    ensures
        step(s).1 == Ok::<(), VmError>(()),
        step(s).0.pc == a as nat,
        step(step(s).0).1 == Ok::<(), VmError>(()),
        step(step(s).0).0.pc == s.pc + 2,
        step(step(s).0).0.stack == s.stack,
{
    let s1 = step(s).0;
    assert(s1.stack == s.stack.push((s.pc + 2) as u16));
    assert(s1.stack.last() == (s.pc + 2) as u16);
    assert(s1.stack.drop_last() =~= s.stack);
}

/// A call with the stack already at depth 16 fails with `StackOverflow`
/// and leaves the state untouched: the overflow is detected, never
/// silently clamped.
pub proof fn lemma_call_overflow(s: St, a: u16)
    requires
        s.pc + 1 < 4096,
        decode(fetch(s)) == Instruction::Call(a),
        s.stack.len() == 16,
    ensures
        step(s).1 == Err::<(), VmError>(VmError::StackOverflow),
        step(s).0 == s,
{
}

/// Clearing the screen is idempotent: a second `ClearScreen` right after a
/// first leaves the framebuffer identical — every cell off — both times.
pub proof fn lemma_clear_screen_idempotent(s: St)
    requires
        s.pc + 1 < 4096,
        decode(fetch(s)) == Instruction::ClearScreen,
        step(s).0.pc + 1 < 4096,
        decode(fetch(step(s).0)) == Instruction::ClearScreen,
    ensures
        step(s).0.fb == all_off(),
        step(step(s).0).0.fb == step(s).0.fb,
{
}

/// A draw never wraps vertically: every framebuffer cell whose screen row
/// lies outside the drawn band keeps its state. Rows that would land at or
/// past the bottom edge are clipped — they reappear nowhere else.
pub proof fn lemma_draw_no_vertical_wrap(s: St, vx: u16, vy: u16, h: u16, x: int, yy: int)
    requires
        s.wf(),
        s.pc + 1 < 4096,
        decode(fetch(s)) == Instruction::Draw(vx, vy, h),
        step(s).1 == Ok::<(), VmError>(()),
        0 <= x < 64,
        0 <= yy < 32,
        yy < s.regs[vy as int] % 32
            || yy >= s.regs[vy as int] % 32 + rows_drawn((s.regs[vy as int] % 32) as int, h as int),
    ensures
        step(s).0.fb[fb_idx(x, yy)] == s.fb[fb_idx(x, yy)],
{
    lemma_decode_bounds(fetch(s));
    let x0 = (s.regs[vx as int] % 64) as int;
    let y0 = (s.regs[vy as int] % 32) as int;
    let nr = rows_drawn(y0, h as int);
    lemma_blit_rows_frame(s.fb, s.mem, s.idx as int, x0, y0, nr, x, yy);
}

/// Timers never underflow: a decrement at zero stays at zero, and a
/// decrement above zero goes down by exactly one.
pub proof fn lemma_timer_floor(t: u8)
    ensures
        t == 0 ==> timer_dec(t) == 0,
        t > 0 ==> timer_dec(t) == t - 1,
{
}

} // verus!
