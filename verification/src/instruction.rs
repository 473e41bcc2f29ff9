//! Instruction words and their decoding.
use vstd::prelude::*;

verus! {

/// One decoded instruction. Register operands are named `x` and `y` in the
/// comments; `kk` is an 8-bit immediate, `nnn` a 12-bit address and `n` a
/// 4-bit row count.
#[derive(Clone, Copy, Debug, PartialEq, Eq, Structural)]
pub enum Instruction {
    /// `00E0`: clear the display.
    Cls,
    /// `00EE`: return from a subroutine.
    Ret,
    /// `1nnn`: jump to `nnn`.
    Jp(u16),
    /// `2nnn`: call the subroutine at `nnn`.
    Call(u16),
    /// `3xkk`: skip the next instruction if `Vx == kk`.
    Se(u8, u8),
    /// `4xkk`: skip the next instruction if `Vx != kk`.
    Sne(u8, u8),
    /// `5xy0`: skip the next instruction if `Vx == Vy`.
    SeXy(u8, u8),
    /// `6xkk`: `Vx = kk`.
    Ld(u8, u8),
    /// `7xkk`: `Vx = Vx + kk`, without a flag.
    Add(u8, u8),
    /// `8xy0`: `Vx = Vy`.
    LdXy(u8, u8),
    /// `8xy1`: `Vx = Vx | Vy`.
    OrXy(u8, u8),
    /// `8xy2`: `Vx = Vx & Vy`.
    AndXy(u8, u8),
    /// `8xy3`: `Vx = Vx ^ Vy`.
    XorXy(u8, u8),
    /// `8xy4`: `Vx = Vx + Vy`, `VF` = carry.
    AddXy(u8, u8),
    /// `8xy5`: `Vx = Vx - Vy`, `VF` = no borrow.
    SubXy(u8, u8),
    /// `8xy6`: `VF` = lowest bit of `Vx`, then `Vx >>= 1`. The `y` field is
    /// ignored.
    ShrX(u8),
    /// `8xy7`: `Vx = Vy - Vx`, `VF` = no borrow.
    SubnXy(u8, u8),
    /// `8xyE`: `VF` = highest bit of `Vx`, then `Vx <<= 1`. The `y` field is
    /// ignored.
    ShlX(u8),
    /// `9xy0`: skip the next instruction if `Vx != Vy`.
    SneXy(u8, u8),
    /// `Annn`: `I = nnn`.
    LdI(u16),
    /// `Bnnn`: jump to `nnn + V0`.
    Jp0(u16),
    /// `Cxkk`: `Vx` = random byte `& kk`.
    Rnd(u8, u8),
    /// `Dxyn`: draw the `n`-row sprite at `I` at position (`Vx`, `Vy`).
    Drw(u8, u8, u8),
    /// `Ex9E`: skip the next instruction if key `Vx` is pressed.
    Skp(u8),
    /// `ExA1`: skip the next instruction if key `Vx` is not pressed.
    Sknp(u8),
    /// `Fx07`: `Vx` = delay timer.
    LdXDt(u8),
    /// `Fx0A`: wait for a key and store its index in `Vx`.
    LdK(u8),
    /// `Fx15`: delay timer = `Vx`.
    LdDt(u8),
    /// `Fx18`: sound timer = `Vx`.
    LdSt(u8),
    /// `Fx1E`: `I = I + Vx`.
    AddI(u8),
    /// `Fx29`: `I` = address of the glyph of digit `Vx`.
    LdF(u8),
    /// `Fx33`: store the decimal digits of `Vx` at `I`, `I+1`, `I+2`.
    LdB(u8),
    /// `Fx55`: store `V0..=Vx` at `I..`.
    LdVxToI(u8),
    /// `Fx65`: load `V0..=Vx` from `I..`.
    LdIToVx(u8),
    /// A word that matches no instruction template.
    Unsupported(u16),
}

/// Bits 12..15 of an instruction word: the dispatch key.
pub open spec fn word_class(word: u16) -> int {
    word as int / 0x1000
}

/// Bits 8..11 of an instruction word: the register operand `x`.
pub open spec fn word_x(word: u16) -> u8 {
    ((word as int / 0x100) % 0x10) as u8
}

/// Bits 4..7 of an instruction word: the register operand `y`.
pub open spec fn word_y(word: u16) -> u8 {
    ((word as int / 0x10) % 0x10) as u8
}

/// Bits 0..3 of an instruction word: the row count `n`, or the minor
/// dispatch key of class 8.
pub open spec fn word_n(word: u16) -> u8 {
    (word as int % 0x10) as u8
}

/// Bits 0..11 of an instruction word: the address `nnn`.
pub open spec fn word_nnn(word: u16) -> u16 {
    (word as int % 0x1000) as u16
}

/// Bits 0..7 of an instruction word: the immediate `kk`, or the minor
/// dispatch key of classes E and F.
pub open spec fn word_kk(word: u16) -> u8 {
    (word as int % 0x100) as u8
}

impl Instruction {
    /// Operands are within the width of their fields: register indices and
    /// row counts below 16, addresses below 4096.
    pub open spec fn wf(self) -> bool {
        match self {
            Instruction::Cls | Instruction::Ret | Instruction::Unsupported(_) => true,
            Instruction::Jp(nnn) | Instruction::Call(nnn) | Instruction::LdI(nnn)
            | Instruction::Jp0(nnn) => nnn < 0x1000,
            Instruction::Se(x, _) | Instruction::Sne(x, _) | Instruction::Ld(x, _)
            | Instruction::Add(x, _) | Instruction::Rnd(x, _) => x < 16,
            Instruction::SeXy(x, y) | Instruction::LdXy(x, y) | Instruction::OrXy(x, y)
            | Instruction::AndXy(x, y) | Instruction::XorXy(x, y) | Instruction::AddXy(x, y)
            | Instruction::SubXy(x, y) | Instruction::SubnXy(x, y)
            | Instruction::SneXy(x, y) => x < 16 && y < 16,
            Instruction::Drw(x, y, n) => x < 16 && y < 16 && n < 16,
            Instruction::ShrX(x) | Instruction::ShlX(x) | Instruction::Skp(x)
            | Instruction::Sknp(x) | Instruction::LdXDt(x) | Instruction::LdK(x)
            | Instruction::LdDt(x) | Instruction::LdSt(x) | Instruction::AddI(x)
            | Instruction::LdF(x) | Instruction::LdB(x) | Instruction::LdVxToI(x)
            | Instruction::LdIToVx(x) => x < 16,
        }
    }

    /// Whether the instruction consumes a random byte.
    pub open spec fn draws_random(self) -> bool {
        self is Rnd
    }

    /// The instruction that a word stands for. The high nibble selects the
    /// family; classes 8, E and F dispatch further on the low nibble or the
    /// low byte; class 0 knows only the two words `00E0` and `00EE`; classes
    /// 5 and 9 need a zero low nibble.
    pub open spec fn decoded(word: u16) -> Instruction {
        let class = word_class(word);
        let x = word_x(word);
        let y = word_y(word);
        let n = word_n(word);
        let nnn = word_nnn(word);
        let kk = word_kk(word);
        if word == 0x00E0 {
            Instruction::Cls
        } else if word == 0x00EE {
            Instruction::Ret
        } else if class == 0x1 {
            Instruction::Jp(nnn)
        } else if class == 0x2 {
            Instruction::Call(nnn)
        } else if class == 0x3 {
            Instruction::Se(x, kk)
        } else if class == 0x4 {
            Instruction::Sne(x, kk)
        } else if class == 0x5 && n == 0 {
            Instruction::SeXy(x, y)
        } else if class == 0x6 {
            Instruction::Ld(x, kk)
        } else if class == 0x7 {
            Instruction::Add(x, kk)
        } else if class == 0x8 && n == 0x0 {
            Instruction::LdXy(x, y)
        } else if class == 0x8 && n == 0x1 {
            Instruction::OrXy(x, y)
        } else if class == 0x8 && n == 0x2 {
            Instruction::AndXy(x, y)
        } else if class == 0x8 && n == 0x3 {
            Instruction::XorXy(x, y)
        } else if class == 0x8 && n == 0x4 {
            Instruction::AddXy(x, y)
        } else if class == 0x8 && n == 0x5 {
            Instruction::SubXy(x, y)
        } else if class == 0x8 && n == 0x6 {
            Instruction::ShrX(x)
        } else if class == 0x8 && n == 0x7 {
            Instruction::SubnXy(x, y)
        } else if class == 0x8 && n == 0xE {
            Instruction::ShlX(x)
        } else if class == 0x9 && n == 0 {
            Instruction::SneXy(x, y)
        } else if class == 0xA {
            Instruction::LdI(nnn)
        } else if class == 0xB {
            Instruction::Jp0(nnn)
        } else if class == 0xC {
            Instruction::Rnd(x, kk)
        } else if class == 0xD {
            Instruction::Drw(x, y, n)
        } else if class == 0xE && kk == 0x9E {
            Instruction::Skp(x)
        } else if class == 0xE && kk == 0xA1 {
            Instruction::Sknp(x)
        } else if class == 0xF && kk == 0x07 {
            Instruction::LdXDt(x)
        } else if class == 0xF && kk == 0x0A {
            Instruction::LdK(x)
        } else if class == 0xF && kk == 0x15 {
            Instruction::LdDt(x)
        } else if class == 0xF && kk == 0x18 {
            Instruction::LdSt(x)
        } else if class == 0xF && kk == 0x1E {
            Instruction::AddI(x)
        } else if class == 0xF && kk == 0x29 {
            Instruction::LdF(x)
        } else if class == 0xF && kk == 0x33 {
            Instruction::LdB(x)
        } else if class == 0xF && kk == 0x55 {
            Instruction::LdVxToI(x)
        } else if class == 0xF && kk == 0x65 {
            Instruction::LdIToVx(x)
        } else {
            Instruction::Unsupported(word)
        }
    }

    /// Every decoded instruction has operands within their fields.
    pub proof fn lemma_decoded_wf(word: u16)
        ensures
            Instruction::decoded(word).wf(),
    {
    }
}

/// The shifts and masks that cut a word into its fields agree with the
/// arithmetic reading of those fields.
proof fn lemma_fields(word: u16)
    ensures
        (word >> 12) as int == word_class(word),
        ((word & 0x0F00) >> 8) as u8 == word_x(word),
        ((word & 0x00F0) >> 4) as u8 == word_y(word),
        (word & 0x000F) as u8 == word_n(word),
        word & 0x0FFF == word_nnn(word),
        (word & 0x00FF) as u8 == word_kk(word),
{
    assert((word >> 12) == word / 0x1000) by (bit_vector);
    assert(((word & 0x0F00) >> 8) == (word / 0x100) % 0x10) by (bit_vector);
    assert(((word & 0x00F0) >> 4) == (word / 0x10) % 0x10) by (bit_vector);
    assert((word & 0x000F) == word % 0x10) by (bit_vector);
    assert((word & 0x0FFF) == word % 0x1000) by (bit_vector);
    assert((word & 0x00FF) == word % 0x100) by (bit_vector);
}

/// Decodes one instruction word.
pub fn decode(word: u16) -> (instr: Instruction)
    ensures
        instr == Instruction::decoded(word),
        instr.wf(),
{
    proof {
        lemma_fields(word);
    }
    let class: u16 = word >> 12;
    let x: u8 = ((word & 0x0F00) >> 8) as u8;
    let y: u8 = ((word & 0x00F0) >> 4) as u8;
    let n: u8 = (word & 0x000F) as u8;
    let nnn: u16 = word & 0x0FFF;
    let kk: u8 = (word & 0x00FF) as u8;
    match class {
        0x0 => match word {
            0x00E0 => Instruction::Cls,
            0x00EE => Instruction::Ret,
            _ => Instruction::Unsupported(word),
        },
        0x1 => Instruction::Jp(nnn),
        0x2 => Instruction::Call(nnn),
        0x3 => Instruction::Se(x, kk),
        0x4 => Instruction::Sne(x, kk),
        0x5 => match n {
            0x0 => Instruction::SeXy(x, y),
            _ => Instruction::Unsupported(word),
        },
        0x6 => Instruction::Ld(x, kk),
        0x7 => Instruction::Add(x, kk),
        0x8 => match n {
            0x0 => Instruction::LdXy(x, y),
            0x1 => Instruction::OrXy(x, y),
            0x2 => Instruction::AndXy(x, y),
            0x3 => Instruction::XorXy(x, y),
            0x4 => Instruction::AddXy(x, y),
            0x5 => Instruction::SubXy(x, y),
            0x6 => Instruction::ShrX(x),
            0x7 => Instruction::SubnXy(x, y),
            0xE => Instruction::ShlX(x),
            _ => Instruction::Unsupported(word),
        },
        0x9 => match n {
            0x0 => Instruction::SneXy(x, y),
            _ => Instruction::Unsupported(word),
        },
        0xA => Instruction::LdI(nnn),
        0xB => Instruction::Jp0(nnn),
        0xC => Instruction::Rnd(x, kk),
        0xD => Instruction::Drw(x, y, n),
        0xE => match kk {
            0x9E => Instruction::Skp(x),
            0xA1 => Instruction::Sknp(x),
            _ => Instruction::Unsupported(word),
        },
        0xF => match kk {
            0x07 => Instruction::LdXDt(x),
            0x0A => Instruction::LdK(x),
            0x15 => Instruction::LdDt(x),
            0x18 => Instruction::LdSt(x),
            0x1E => Instruction::AddI(x),
            0x29 => Instruction::LdF(x),
            0x33 => Instruction::LdB(x),
            0x55 => Instruction::LdVxToI(x),
            0x65 => Instruction::LdIToVx(x),
            _ => Instruction::Unsupported(word),
        },
        _ => Instruction::Unsupported(word),
    }
}

} // verus!
