//! Instruction words and the decoder.
//!
//! A CHIP-8 instruction is a 16-bit word; the decoder classifies it by the
//! pattern of its four 4-bit nibbles (most significant first) and extracts
//! the operand fields. Decoding is pure and total: every word maps to
//! exactly one variant, with `ERROR` as the catch-all for unknown opcodes.

use vstd::prelude::*;

verus! {

/// One decoded instruction of the base instruction set.
///
/// Operand conventions: `Jump`, `Call` and `SetI` carry a 12-bit address;
/// `SetRegister` and `AddRegister` carry a register index (0..16) and an
/// 8-bit immediate; `Draw` carries two register indices and a sprite height
/// (each a nibble, 0..16); `ERROR` preserves the raw word for diagnostics.
#[derive(Debug, Clone, Copy, PartialEq, Eq, Structural)]
pub enum Instruction {
    ClearScreen,
    Jump(u16),
    SetRegister(u8, u8),
    AddRegister(u8, u8),
    SetI(u16),
    Draw(u16, u16, u16),
    Call(u16),
    Ret,
    ERROR(u16),
}

/// The decoding table: which variant a 16-bit word denotes, and the operand
/// fields extracted from it. Most specific patterns (the two exact words)
/// come first, then the patterns keyed on the leading nibble.
pub open spec fn decode(w: u16) -> Instruction {
    if w == 0x00E0 {
        Instruction::ClearScreen
    } else if w == 0x00EE {
        Instruction::Ret
    } else if w >> 12 == 0x1 {
        Instruction::Jump(w & 0x0FFF)
    } else if w >> 12 == 0x2 {
        Instruction::Call(w & 0x0FFF)
    } else if w >> 12 == 0x6 {
        Instruction::SetRegister(((w >> 8) & 0xF) as u8, (w & 0xFF) as u8)
    } else if w >> 12 == 0x7 {
        Instruction::AddRegister(((w >> 8) & 0xF) as u8, (w & 0xFF) as u8)
    } else if w >> 12 == 0xA {
        Instruction::SetI(w & 0x0FFF)
    } else if w >> 12 == 0xD {
        Instruction::Draw((w >> 8) & 0xF, (w >> 4) & 0xF, w & 0xF)
    } else {
        Instruction::ERROR(w)
    }
}

/// Every operand field a decoded instruction carries is in range: addresses
/// fit in 12 bits, register indices and sprite heights in a nibble.
pub proof fn lemma_decode_bounds(w: u16)
    ensures
        (match decode(w) {
            Instruction::Jump(a) => a <= 0xFFF,
            Instruction::Call(a) => a <= 0xFFF,
            Instruction::SetI(a) => a <= 0xFFF,
            Instruction::SetRegister(x, _) => x < 16,
            Instruction::AddRegister(x, _) => x < 16,
            Instruction::Draw(x, y, n) => x < 16 && y < 16 && n < 16,
            _ => true,
        }),
{
    assert(w & 0x0FFF <= 0xFFF) by (bit_vector);
    assert((w >> 8) & 0xF < 16) by (bit_vector);
    assert((w >> 4) & 0xF < 16) by (bit_vector);
    assert(w & 0xF < 16) by (bit_vector);
}

impl Instruction {
    /// Decode one 16-bit instruction word. Total: never fails, and returns
    /// the variant the nibble table assigns to the word.
    pub fn new(value: u16) -> (r: Instruction)
        ensures
            r == decode(value),
    {
        if value == 0x00E0 {
            Instruction::ClearScreen
        } else if value == 0x00EE {
            Instruction::Ret
        } else if value >> 12 == 0x1 {
            Instruction::Jump(value & 0x0FFF)
        } else if value >> 12 == 0x2 {
            Instruction::Call(value & 0x0FFF)
        } else if value >> 12 == 0x6 {
            Instruction::SetRegister(((value >> 8) & 0xF) as u8, (value & 0xFF) as u8)
        } else if value >> 12 == 0x7 {
            Instruction::AddRegister(((value >> 8) & 0xF) as u8, (value & 0xFF) as u8)
        } else if value >> 12 == 0xA {
            Instruction::SetI(value & 0x0FFF)
        } else if value >> 12 == 0xD {
            Instruction::Draw((value >> 8) & 0xF, (value >> 4) & 0xF, value & 0xF)
        } else {
            Instruction::ERROR(value)
        }
    }
}

} // verus!
