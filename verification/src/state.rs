//! The mathematical model of the machine.
//!
//! `St` is the ghost image of the interpreter state: memory, registers,
//! call stack, index register, program counter, timers and the framebuffer
//! mirror. `step` is the specification of one fetch-decode-execute cycle as
//! a total function from a state to the next state and an outcome; the
//! executable engine in `vm` is proved to implement it exactly.

use vstd::prelude::*;

use crate::insts::Instruction;
use crate::insts::decode;

verus! {

/// A fatal condition of one execution cycle. All of these end the run:
/// the machine state is not meaningful past them.
#[derive(Debug, Clone, Copy, PartialEq, Eq, Structural)]
pub enum VmError {
    /// The fetched word matches no known instruction pattern; carries the
    /// raw word for diagnostics.
    IllegalOpcode(u16),
    /// A call was executed with the call stack already at depth 16.
    StackOverflow,
    /// A return was executed with an empty call stack.
    StackUnderflow,
    /// An instruction fetch or a sprite read would touch an address past
    /// the 4096-byte memory (address space exhaustion).
    AddressOutOfRange,
}

/// The ghost state of the machine. Field meanings:
/// 4096 bytes of memory, 16 eight-bit registers (register 15 doubles as
/// the carry/collision flag), a call stack of at most 16 return addresses,
/// the 12-bit index register, the program counter, the two 60 Hz countdown
/// timers, and the 64x32 framebuffer stored row-major in `x` (cell (x, y)
/// at `fb_idx(x, y)`).
#[verifier::ext_equal]
pub ghost struct St {
    pub mem: Seq<u8>,
    pub regs: Seq<u8>,
    pub stack: Seq<u16>,
    pub idx: u16,
    pub pc: nat,
    pub delay: u8,
    pub sound: u8,
    pub fb: Seq<bool>,
}

impl St {
    /// Well-formedness: the sizes the data model fixes, the stack bound,
    /// and the significant-bit bounds on the index register and the
    /// program counter.
    pub open spec fn wf(self) -> bool {
        &&& self.mem.len() == 4096
        &&& self.regs.len() == 16
        &&& self.stack.len() <= 16
        &&& self.fb.len() == 2048
        &&& self.pc <= 0xFFFF
        &&& self.idx <= 0xFFF
    }
}

/// Flat framebuffer index of cell (x, y), for x in 0..64 and y in 0..32.
pub open spec fn fb_idx(x: int, y: int) -> int {
    x * 32 + y
}

/// The framebuffer with every cell off.
pub open spec fn all_off() -> Seq<bool> {
    Seq::new(2048, |k: int| false)
}

/// The state of the machine right after construction: zeroed memory with
/// the font table at 0x050..0x0A0, zeroed registers and timers, empty
/// stack, program counter at the start of the program region.
pub open spec fn init_st() -> St {
    St {
        mem: Seq::new(4096, |k: int| if 0x50 <= k < 0xA0 { crate::vm::font()[k - 0x50] } else { 0u8 }),
        regs: Seq::new(16, |k: int| 0u8),
        stack: Seq::empty(),
        idx: 0,
        pc: 0x200,
        delay: 0,
        sound: 0,
        fb: all_off(),
    }
}

/// Length of a program image once clamped to the 3584-byte region
/// 0x200..0x1000.
pub open spec fn clamped_len(n: nat) -> int {
    if n <= 3584 { n as int } else { 3584 }
}

/// Memory after installing a program image at 0x200, silently truncated
/// to the available region; everything outside the written range keeps
/// its old value.
pub open spec fn load_program(mem: Seq<u8>, prog: Seq<u8>) -> Seq<u8> {
    Seq::new(4096, |k: int|
        if 0x200 <= k < 0x200 + clamped_len(prog.len()) { prog[k - 0x200] } else { mem[k] })
}

/// A timer decrement: down by one, floored at zero.
pub open spec fn timer_dec(t: u8) -> u8 {
    if t > 0 { (t - 1) as u8 } else { 0 }
}

/// The 16-bit instruction word at the program counter, big-endian:
/// high byte first.
pub open spec fn fetch(s: St) -> u16 {
    ((s.mem[s.pc as int] as u16) << 8) | (s.mem[s.pc as int + 1] as u16)
}

/// Bit `b` (0 = leftmost pixel) of a sprite row byte, most significant
/// bit first.
pub open spec fn sprite_bit(byte: u8, b: int) -> bool {
    (byte >> ((7 - b) as u8)) & 1 == 1
}

/// The framebuffer after XOR-blitting the first `nb` bits of one sprite
/// row byte onto row `y` starting at column `x0`. A set sprite bit toggles
/// its cell; columns at or past the right edge are clipped.
pub open spec fn blit_bits(fb: Seq<bool>, byte: u8, x0: int, y: int, nb: int) -> Seq<bool>
    decreases nb,
{
    if nb <= 0 {
        fb
    } else {
        let prev = blit_bits(fb, byte, x0, y, nb - 1);
        let x = x0 + nb - 1;
        if sprite_bit(byte, nb - 1) && x < 64 {
            prev.update(fb_idx(x, y), !prev[fb_idx(x, y)])
        } else {
            prev
        }
    }
}

/// Whether blitting the first `nb` bits of one sprite row byte onto row
/// `y` of `fb` turns some lit cell off: a set, unclipped sprite bit lands
/// on a cell that was on.
pub open spec fn collide_bits(fb: Seq<bool>, byte: u8, x0: int, y: int, nb: int) -> bool {
    exists|b: int| 0 <= b < nb && #[trigger] sprite_bit(byte, b) && x0 + b < 64 && fb[fb_idx(x0 + b, y)]
}

/// The framebuffer after blitting the first `nr` sprite rows read from
/// memory at `i`, row `r` landing on screen row `y0 + r`.
pub open spec fn blit_rows(fb: Seq<bool>, mem: Seq<u8>, i: int, x0: int, y0: int, nr: int) -> Seq<bool>
    decreases nr,
{
    if nr <= 0 {
        fb
    } else {
        blit_bits(blit_rows(fb, mem, i, x0, y0, nr - 1), mem[i + nr - 1], x0, y0 + nr - 1, 8)
    }
}

/// Whether sprite row `r` collides when blitted onto `fb`. Rows land on
/// pairwise distinct screen rows, so collision of each row is judged
/// against the framebuffer as it was before the whole draw.
pub open spec fn row_collides(fb: Seq<bool>, mem: Seq<u8>, i: int, x0: int, y0: int, r: int) -> bool {
    collide_bits(fb, mem[i + r], x0, y0 + r, 8)
}

/// Whether any of the first `nr` sprite rows turns a lit cell off.
/// Collision is sticky across the whole draw: one off-toggle anywhere
/// sets the flag.
pub open spec fn collide_rows(fb: Seq<bool>, mem: Seq<u8>, i: int, x0: int, y0: int, nr: int) -> bool {
    exists|r: int| 0 <= r < nr && #[trigger] row_collides(fb, mem, i, x0, y0, r)
}

/// The number of sprite rows actually drawn: the height, clipped at the
/// bottom edge of the screen (rows never wrap vertically).
pub open spec fn rows_drawn(y0: int, h: int) -> int {
    if h <= 32 - y0 { h } else { 32 - y0 }
}

/// One draw instruction on the ghost state: origins wrap modulo the screen
/// size, rows are clipped at the bottom edge, and register 15 receives the
/// collision flag. The sprite's row addresses are checked against the end
/// of memory up front; a sprite that would be read past 0xFFF is a fatal
/// fault and the state is left untouched.
pub open spec fn step_draw(s: St, vx: u16, vy: u16, h: u16) -> (St, Result<(), VmError>) {
    let x0 = s.regs[vx as int] % 64;
    let y0 = s.regs[vy as int] % 32;
    let nr = rows_drawn(y0 as int, h as int);
    if s.idx + nr > 4096 {
        (s, Err(VmError::AddressOutOfRange))
    } else {
        let hit = collide_rows(s.fb, s.mem, s.idx as int, x0 as int, y0 as int, nr);
        (St {
            fb: blit_rows(s.fb, s.mem, s.idx as int, x0 as int, y0 as int, nr),
            regs: s.regs.update(15, if hit { 1u8 } else { 0u8 }),
            pc: (s.pc + 2) as nat,
            ..s
        }, Ok(()))
    }
}

/// One fetch-decode-execute cycle on the ghost state: the authoritative
/// semantics of every instruction. On a fatal outcome (`Err`) the state is
/// returned unchanged: the run is over and the program counter still names
/// the faulting instruction.
pub open spec fn step(s: St) -> (St, Result<(), VmError>) {
    if s.pc + 1 >= 4096 {
        (s, Err(VmError::AddressOutOfRange))
    } else {
        match decode(fetch(s)) {
            Instruction::ClearScreen => (St { fb: all_off(), pc: (s.pc + 2) as nat, ..s }, Ok(())),
            Instruction::Jump(a) => (St { pc: a as nat, ..s }, Ok(())),
            Instruction::Call(a) => if s.stack.len() >= 16 {
                (s, Err(VmError::StackOverflow))
            } else {
                (St { stack: s.stack.push((s.pc + 2) as u16), pc: a as nat, ..s }, Ok(()))
            },
            Instruction::Ret => if s.stack.len() == 0 {
                (s, Err(VmError::StackUnderflow))
            } else {
                (St { stack: s.stack.drop_last(), pc: s.stack.last() as nat, ..s }, Ok(()))
            },
            Instruction::SetRegister(x, v) => (St {
                regs: s.regs.update(x as int, v),
                pc: (s.pc + 2) as nat,
                ..s
            }, Ok(())),
            Instruction::AddRegister(x, v) => (St {
                regs: s.regs.update(x as int, ((s.regs[x as int] + v) % 256) as u8),
                pc: (s.pc + 2) as nat,
                ..s
            }, Ok(())),
            Instruction::SetI(a) => (St { idx: a, pc: (s.pc + 2) as nat, ..s }, Ok(())),
            Instruction::Draw(vx, vy, h) => step_draw(s, vx, vy, h),
            Instruction::ERROR(w) => (s, Err(VmError::IllegalOpcode(w))),
        }
    }
}

/// Distinct cells have distinct flat indices.
pub proof fn lemma_fb_idx_injective(x1: int, y1: int, x2: int, y2: int)
    requires
        0 <= y1 < 32,
        0 <= y2 < 32,
        fb_idx(x1, y1) == fb_idx(x2, y2),
    ensures
        x1 == x2 && y1 == y2,
{
}

/// Blitting one row byte keeps the framebuffer size.
pub proof fn lemma_blit_bits_len(fb: Seq<bool>, byte: u8, x0: int, y: int, nb: int)
    requires
        fb.len() == 2048,
        0 <= x0,
        0 <= y < 32,
    ensures
        blit_bits(fb, byte, x0, y, nb).len() == 2048,
    decreases nb,
{
    if nb > 0 {
        lemma_blit_bits_len(fb, byte, x0, y, nb - 1);
    }
}

/// Blitting one row byte touches no cell outside columns x0..x0+nb of
/// row y.
pub proof fn lemma_blit_bits_frame(fb: Seq<bool>, byte: u8, x0: int, y: int, nb: int, x: int, yy: int)
    requires
        fb.len() == 2048,
        0 <= x0,
        0 <= y < 32,
        0 <= x < 64,
        0 <= yy < 32,
        yy != y || x < x0 || x >= x0 + nb,
    ensures
        blit_bits(fb, byte, x0, y, nb)[fb_idx(x, yy)] == fb[fb_idx(x, yy)],
    decreases nb,
{
    if nb > 0 {
        lemma_blit_bits_frame(fb, byte, x0, y, nb - 1, x, yy);
        lemma_blit_bits_len(fb, byte, x0, y, nb - 1);
        let xt = x0 + nb - 1;
        if sprite_bit(byte, nb - 1) && xt < 64 {
            assert(fb_idx(xt, y) != fb_idx(x, yy)) by {
                if fb_idx(xt, y) == fb_idx(x, yy) {
                    lemma_fb_idx_injective(xt, y, x, yy);
                }
            }
        }
    }
}

/// Blitting `nr` sprite rows keeps the framebuffer size.
pub proof fn lemma_blit_rows_len(fb: Seq<bool>, mem: Seq<u8>, i: int, x0: int, y0: int, nr: int)
    requires
        fb.len() == 2048,
        0 <= x0,
        0 <= y0,
        y0 + nr <= 32,
    ensures
        blit_rows(fb, mem, i, x0, y0, nr).len() == 2048,
    decreases nr,
{
    if nr > 0 {
        lemma_blit_rows_len(fb, mem, i, x0, y0, nr - 1);
        lemma_blit_bits_len(blit_rows(fb, mem, i, x0, y0, nr - 1), mem[i + nr - 1], x0, y0 + nr - 1, 8);
    }
}

/// A draw touches no cell outside screen rows y0..y0+nr: in particular
/// rows clipped at the bottom edge are skipped, never wrapped to the top.
pub proof fn lemma_blit_rows_frame(fb: Seq<bool>, mem: Seq<u8>, i: int, x0: int, y0: int, nr: int, x: int, yy: int)
    requires
        fb.len() == 2048,
        0 <= x0,
        0 <= y0,
        y0 + nr <= 32,
        0 <= x < 64,
        0 <= yy < 32,
        yy < y0 || yy >= y0 + nr,
    ensures
        blit_rows(fb, mem, i, x0, y0, nr)[fb_idx(x, yy)] == fb[fb_idx(x, yy)],
    decreases nr,
{
    if nr > 0 {
        lemma_blit_rows_frame(fb, mem, i, x0, y0, nr - 1, x, yy);
        lemma_blit_rows_len(fb, mem, i, x0, y0, nr - 1);
        lemma_blit_bits_frame(blit_rows(fb, mem, i, x0, y0, nr - 1), mem[i + nr - 1], x0, y0 + nr - 1, 8, x, yy);
    }
}

/// Unfolding collision over one more bit of a row byte.
pub proof fn lemma_collide_bits_step(fb: Seq<bool>, byte: u8, x0: int, y: int, nb: int)
    requires
        0 <= nb,
    ensures
        collide_bits(fb, byte, x0, y, nb + 1) == (collide_bits(fb, byte, x0, y, nb)
            || (sprite_bit(byte, nb) && x0 + nb < 64 && fb[fb_idx(x0 + nb, y)])),
{
    if collide_bits(fb, byte, x0, y, nb) {
        let b = choose|b: int| 0 <= b < nb && #[trigger] sprite_bit(byte, b) && x0 + b < 64
            && fb[fb_idx(x0 + b, y)];
        assert(0 <= b < nb + 1 && sprite_bit(byte, b) && x0 + b < 64 && fb[fb_idx(x0 + b, y)]);
    }
    if sprite_bit(byte, nb) && x0 + nb < 64 && fb[fb_idx(x0 + nb, y)] {
        assert(collide_bits(fb, byte, x0, y, nb + 1));
    }
    if collide_bits(fb, byte, x0, y, nb + 1) {
        let b = choose|b: int| 0 <= b < nb + 1 && #[trigger] sprite_bit(byte, b) && x0 + b < 64
            && fb[fb_idx(x0 + b, y)];
        if b < nb {
            assert(collide_bits(fb, byte, x0, y, nb));
        }
    }
}

/// Unfolding collision over one more sprite row.
pub proof fn lemma_collide_rows_step(fb: Seq<bool>, mem: Seq<u8>, i: int, x0: int, y0: int, nr: int)
    requires
        0 <= nr,
    ensures
        collide_rows(fb, mem, i, x0, y0, nr + 1) == (collide_rows(fb, mem, i, x0, y0, nr)
            || row_collides(fb, mem, i, x0, y0, nr)),
{
    if collide_rows(fb, mem, i, x0, y0, nr) {
        let r = choose|r: int| 0 <= r < nr && #[trigger] row_collides(fb, mem, i, x0, y0, r);
        assert(0 <= r < nr + 1 && row_collides(fb, mem, i, x0, y0, r));
    }
    if row_collides(fb, mem, i, x0, y0, nr) {
        assert(collide_rows(fb, mem, i, x0, y0, nr + 1));
    }
    if collide_rows(fb, mem, i, x0, y0, nr + 1) {
        let r = choose|r: int| 0 <= r < nr + 1 && #[trigger] row_collides(fb, mem, i, x0, y0, r);
        if r < nr {
            assert(collide_rows(fb, mem, i, x0, y0, nr));
        }
    }
}

} // verus!
