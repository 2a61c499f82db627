use vstd::prelude::*;

use crate::model::operands_in_range;

verus! {

/// A raw instruction word as two bytes: the high byte first.
pub struct Opcode(pub u8, pub u8);

/// The numeric value of the instruction word `hi lo`, read big-endian.
pub open spec fn word(hi: u8, lo: u8) -> int {
    hi as int * 256 + lo as int
}

/// One decoded instruction. Register operands are nibbles (0 to 15),
/// addresses are 12-bit values.
#[derive(Clone, Copy, Debug, PartialEq, Eq, Structural)]
pub enum Instruction {
    Return,
    Jump(u16),
    Call(u16),
    SkipIfEqual(u8, u8),
    SkipIfNotEqual(u8, u8),
    LoadConstant(u8, u8),
    AddConstant(u8, u8),
    Load(u8, u8),
    And(u8, u8),
    Add(u8, u8),
    Sub(u8, u8),
    SetAddress(u16),
    RandomAnd(u8, u8),
    Draw(u8, u8, u8),
    SkipIfNotPressed(u8),
    LoadDelay(u8),
    SetDelay(u8),
    SetFontLocation(u8),
    SetBCD(u8),
    LoadRegisters(u8),
    NotImplemented(u16),
}

/// The instruction that the word `hi lo` encodes. The family is the high
/// nibble of `hi`; `x` is the low nibble of `hi`, `y` and `n` the nibbles of
/// `lo`, `kk` is `lo` and `nnn` the low twelve bits of the word.
pub open spec fn decoded(hi: u8, lo: u8) -> Instruction {
    let family = hi / 16;
    let x = hi % 16;
    let y = lo / 16;
    let n = lo % 16;
    let nnn = (x as int * 256 + lo as int) as u16;
    if hi == 0x00 && lo == 0xEE {
        Instruction::Return
    } else if family == 0x1 {
        Instruction::Jump(nnn)
    } else if family == 0x2 {
        Instruction::Call(nnn)
    } else if family == 0x3 {
        Instruction::SkipIfEqual(x, lo)
    } else if family == 0x4 {
        Instruction::SkipIfNotEqual(x, lo)
    } else if family == 0x6 {
        Instruction::LoadConstant(x, lo)
    } else if family == 0x7 {
        Instruction::AddConstant(x, lo)
    } else if family == 0x8 && n == 0x0 {
        Instruction::Load(x, y)
    } else if family == 0x8 && n == 0x2 {
        Instruction::And(x, y)
    } else if family == 0x8 && n == 0x4 {
        Instruction::Add(x, y)
    } else if family == 0x8 && n == 0x5 {
        Instruction::Sub(x, y)
    } else if family == 0xA {
        Instruction::SetAddress(nnn)
    } else if family == 0xC {
        Instruction::RandomAnd(x, lo)
    } else if family == 0xD {
        Instruction::Draw(x, y, n)
    } else if family == 0xE && lo == 0xA1 {
        Instruction::SkipIfNotPressed(x)
    } else if family == 0xF && lo == 0x07 {
        Instruction::LoadDelay(x)
    } else if family == 0xF && lo == 0x15 {
        Instruction::SetDelay(x)
    } else if family == 0xF && lo == 0x29 {
        Instruction::SetFontLocation(x)
    } else if family == 0xF && lo == 0x33 {
        Instruction::SetBCD(x)
    } else if family == 0xF && lo == 0x65 {
        Instruction::LoadRegisters(x)
    } else {
        Instruction::NotImplemented(word(hi, lo) as u16)
    }
}

/// Whether the 16-bit word `w` matches one of the instruction patterns:
/// `00EE`, `1nnn`, `2nnn`, `3xkk`, `4xkk`, `6xkk`, `7xkk`, `8xy0`, `8xy2`,
/// `8xy4`, `8xy5`, `Annn`, `Cxkk`, `Dxyn`, `ExA1`, `Fx07`, `Fx15`, `Fx29`,
/// `Fx33`, `Fx65`.
pub open spec fn is_defined_pattern(w: u16) -> bool {
    ||| w == 0x00EE
    ||| w & 0xF000 == 0x1000
    ||| w & 0xF000 == 0x2000
    ||| w & 0xF000 == 0x3000
    ||| w & 0xF000 == 0x4000
    ||| w & 0xF000 == 0x6000
    ||| w & 0xF000 == 0x7000
    ||| w & 0xF00F == 0x8000
    ||| w & 0xF00F == 0x8002
    ||| w & 0xF00F == 0x8004
    ||| w & 0xF00F == 0x8005
    ||| w & 0xF000 == 0xA000
    ||| w & 0xF000 == 0xC000
    ||| w & 0xF000 == 0xD000
    ||| w & 0xF0FF == 0xE0A1
    ||| w & 0xF0FF == 0xF007
    ||| w & 0xF0FF == 0xF015
    ||| w & 0xF0FF == 0xF029
    ||| w & 0xF0FF == 0xF033
    ||| w & 0xF0FF == 0xF065
}

proof fn lemma_word_masks(hi: u8, lo: u8, w: u16)
    requires
        w == (hi as u16) * 256 + (lo as u16),
    ensures
        w & 0xF000 == (hi / 16) as u16 * 4096,
        w & 0xF00F == (hi / 16) as u16 * 4096 + (lo % 16) as u16,
        w & 0xF0FF == (hi / 16) as u16 * 4096 + lo as u16,
{
    assert(w & 0xF000 == (hi / 16) as u16 * 4096) by (bit_vector)
        requires w == (hi as u16) * 256 + (lo as u16);
    assert(w & 0xF00F == (hi / 16) as u16 * 4096 + (lo % 16) as u16) by (bit_vector)
        requires w == (hi as u16) * 256 + (lo as u16);
    assert(w & 0xF0FF == (hi / 16) as u16 * 4096 + lo as u16) by (bit_vector)
        requires w == (hi as u16) * 256 + (lo as u16);
}

/// Decoding is total: every instruction word decodes to one instruction, and
/// it decodes to `NotImplemented` exactly when the word matches none of the
/// instruction patterns, in which case it carries the word unchanged.
pub proof fn lemma_decode_total(hi: u8, lo: u8)
    ensures
        (decoded(hi, lo) is NotImplemented) <==> !is_defined_pattern(word(hi, lo) as u16),
        decoded(hi, lo) is NotImplemented ==> decoded(hi, lo) == Instruction::NotImplemented(
            word(hi, lo) as u16,
        ),
{
    let w = word(hi, lo) as u16;
    lemma_word_masks(hi, lo, w);
}

impl Instruction {
    /// Decodes one instruction word.
    pub fn decode(opcode: Opcode) -> (r: Instruction)
        ensures
            r == decoded(opcode.0, opcode.1),
            operands_in_range(r),
    {
        let Opcode(hi, lo) = opcode;
        let x: u8 = hi % 16;
        let y: u8 = lo / 16;
        let n: u8 = lo % 16;
        let nnn: u16 = (x as u16) * 256 + lo as u16;
        match hi / 16 {
            0x0 => if hi == 0x00 && lo == 0xEE {
                Instruction::Return
            } else {
                Instruction::NotImplemented((hi as u16) * 256 + lo as u16)
            },
            0x1 => Instruction::Jump(nnn),
            0x2 => Instruction::Call(nnn),
            0x3 => Instruction::SkipIfEqual(x, lo),
            0x4 => Instruction::SkipIfNotEqual(x, lo),
            0x6 => Instruction::LoadConstant(x, lo),
            0x7 => Instruction::AddConstant(x, lo),
            0x8 => match n {
                0x0 => Instruction::Load(x, y),
                0x2 => Instruction::And(x, y),
                0x4 => Instruction::Add(x, y),
                0x5 => Instruction::Sub(x, y),
                _ => Instruction::NotImplemented((hi as u16) * 256 + lo as u16),
            },
            0xA => Instruction::SetAddress(nnn),
            0xC => Instruction::RandomAnd(x, lo),
            0xD => Instruction::Draw(x, y, n),
            0xE if lo == 0xA1 => Instruction::SkipIfNotPressed(x),
            0xF if lo == 0x07 => Instruction::LoadDelay(x),
            0xF if lo == 0x15 => Instruction::SetDelay(x),
            0xF if lo == 0x29 => Instruction::SetFontLocation(x),
            0xF if lo == 0x33 => Instruction::SetBCD(x),
            0xF if lo == 0x65 => Instruction::LoadRegisters(x),
            _ => Instruction::NotImplemented((hi as u16) * 256 + lo as u16),
        }
    }
}

} // verus!
