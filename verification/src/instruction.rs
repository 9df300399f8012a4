//! The instruction set: one variant per opcode pattern, and the decoder that
//! maps every 16-bit word to its variant.
//!
//! An opcode word is read as four nibbles. The top nibble selects the family;
//! the remaining twelve bits are read, depending on the family, as an address
//! `nnn`, as a register index `x` followed by an immediate byte `kk`, or as two
//! register indices `x`, `y` followed by a nibble `n`.

use vstd::prelude::*;
use vstd::std_specs::convert::FromSpecImpl;

verus! {

/// One decoded instruction.
///
/// Register operands are indices into V0..VF, addresses are twelve bits wide,
/// and every word that matches no pattern is kept whole in `Unknown`.
#[derive(Debug, Clone, Copy, PartialEq, Eq, Structural)]
pub enum Instruction {
    /// `00E0`: blank the display.
    ClearDisplay,
    /// `00EE`: return from a subroutine.
    Return,
    /// `1nnn`: continue at `nnn`.
    Jump(u16),
    /// `2nnn`: call the subroutine at `nnn`.
    Call(u16),
    /// `3xkk`: skip the next instruction if Vx equals `kk`.
    SkipEqualConst(u8, u8),
    /// `4xkk`: skip the next instruction if Vx differs from `kk`.
    SkipNotEqualConst(u8, u8),
    /// `5xy0`: skip the next instruction if Vx equals Vy.
    SkipEqual(u8, u8),
    /// `6xkk`: Vx becomes `kk`.
    SetVConst(u8, u8),
    /// `7xkk`: Vx becomes Vx + `kk`, modulo 256; VF is left alone.
    AddVConst(u8, u8),
    /// `8xy0`: Vx becomes Vy.
    SetV(u8, u8),
    /// `8xy1`: Vx becomes Vx | Vy.
    Or(u8, u8),
    /// `8xy2`: Vx becomes Vx & Vy.
    And(u8, u8),
    /// `8xy3`: Vx becomes Vx ^ Vy.
    Xor(u8, u8),
    /// `8xy4`: Vx becomes Vx + Vy, VF the carry.
    Add(u8, u8),
    /// `8xy5`: Vx becomes Vx - Vy, VF is 1 unless a borrow was needed.
    Sub(u8, u8),
    /// `8xy6`: Vx is shifted right by one, VF takes the bit shifted out.
    ShiftRight(u8),
    /// `8xy7`: Vx becomes Vy - Vx, VF is 1 unless a borrow was needed.
    SubN(u8, u8),
    /// `8xyE`: Vx is shifted left by one, VF takes the bit shifted out.
    ShiftLeft(u8),
    /// `9xy0`: skip the next instruction if Vx differs from Vy.
    SkipNotEqual(u8, u8),
    /// `Annn`: I becomes `nnn`.
    SetI(u16),
    /// `Cxkk`: Vx becomes a random byte masked with `kk`.
    Rand(u8, u8),
    /// `Dxyn`: draw the `n`-row sprite at I to column Vx, row Vy.
    Draw(u8, u8, u8),
    /// `Ex9E`: skip the next instruction if the key numbered Vx is held.
    SkipPressed(u8),
    /// `ExA1`: skip the next instruction if the key numbered Vx is not held.
    SkipNotPressed(u8),
    /// `Fx07`: Vx becomes the delay timer.
    LoadDelay(u8),
    /// `Fx0A`: wait for a key press and put its number in Vx.
    HaltUntilPressed(u8),
    /// `Fx15`: the delay timer becomes Vx.
    SetDelay(u8),
    /// `Fx18`: the sound timer becomes Vx.
    SetSound(u8),
    /// `Fx1E`: I becomes I + Vx.
    AddI(u8),
    /// `Fx29`: I becomes the address of the glyph for Vx.
    LoadFont(u8),
    /// `Fx33`: the three decimal digits of Vx go to memory at I, I+1, I+2.
    StoreBcd(u8),
    /// `Fx55`: V0..Vx go to memory starting at I.
    StoreV(u8),
    /// `Fx65`: V0..Vx are read from memory starting at I.
    LoadV(u8),
    /// Any word outside the table, kept as it was fetched.
    Unknown(u16),
}

/// The top nibble of an opcode word.
pub open spec fn family(word: u16) -> u8 {
    (word as int / 0x1000) as u8
}

/// The low twelve bits of an opcode word.
pub open spec fn field_nnn(word: u16) -> u16 {
    (word as int % 0x1000) as u16
}

/// The second nibble of an opcode word (bits 8 to 11).
pub open spec fn field_x(word: u16) -> u8 {
    ((word as int / 0x100) % 0x10) as u8
}

/// The third nibble of an opcode word (bits 4 to 7).
pub open spec fn field_y(word: u16) -> u8 {
    ((word as int / 0x10) % 0x10) as u8
}

/// The low byte of an opcode word.
pub open spec fn field_kk(word: u16) -> u8 {
    (word as int % 0x100) as u8
}

/// The low nibble of an opcode word.
pub open spec fn field_n(word: u16) -> u8 {
    (word as int % 0x10) as u8
}

/// The register-to-register family `8xyn`, selected by its low nibble.
pub open spec fn decode_alu(word: u16) -> Instruction {
    let x = field_x(word);
    let y = field_y(word);
    match field_n(word) {
        0x0 => Instruction::SetV(x, y),
        0x1 => Instruction::Or(x, y),
        0x2 => Instruction::And(x, y),
        0x3 => Instruction::Xor(x, y),
        0x4 => Instruction::Add(x, y),
        0x5 => Instruction::Sub(x, y),
        0x6 => Instruction::ShiftRight(x),
        0x7 => Instruction::SubN(x, y),
        0xE => Instruction::ShiftLeft(x),
        _ => Instruction::Unknown(word),
    }
}

/// The family `Fxkk`, selected by its low byte.
pub open spec fn decode_misc(word: u16) -> Instruction {
    let x = field_x(word);
    match field_kk(word) {
        0x07 => Instruction::LoadDelay(x),
        0x0A => Instruction::HaltUntilPressed(x),
        0x15 => Instruction::SetDelay(x),
        0x18 => Instruction::SetSound(x),
        0x1E => Instruction::AddI(x),
        0x29 => Instruction::LoadFont(x),
        0x33 => Instruction::StoreBcd(x),
        0x55 => Instruction::StoreV(x),
        0x65 => Instruction::LoadV(x),
        _ => Instruction::Unknown(word),
    }
}

/// The opcode table: the instruction that a word stands for.
pub open spec fn decode(word: u16) -> Instruction {
    let nnn = field_nnn(word);
    let x = field_x(word);
    let y = field_y(word);
    let kk = field_kk(word);
    let n = field_n(word);
    match family(word) {
        0x0 => if nnn == 0x0E0 {
            Instruction::ClearDisplay
        } else if nnn == 0x0EE {
            Instruction::Return
        } else {
            Instruction::Unknown(word)
        },
        0x1 => Instruction::Jump(nnn),
        0x2 => Instruction::Call(nnn),
        0x3 => Instruction::SkipEqualConst(x, kk),
        0x4 => Instruction::SkipNotEqualConst(x, kk),
        0x5 => if n == 0 {
            Instruction::SkipEqual(x, y)
        } else {
            Instruction::Unknown(word)
        },
        0x6 => Instruction::SetVConst(x, kk),
        0x7 => Instruction::AddVConst(x, kk),
        0x8 => decode_alu(word),
        0x9 => if n == 0 {
            Instruction::SkipNotEqual(x, y)
        } else {
            Instruction::Unknown(word)
        },
        0xA => Instruction::SetI(nnn),
        0xC => Instruction::Rand(x, kk),
        0xD => Instruction::Draw(x, y, n),
        0xE => if kk == 0x9E {
            Instruction::SkipPressed(x)
        } else if kk == 0xA1 {
            Instruction::SkipNotPressed(x)
        } else {
            Instruction::Unknown(word)
        },
        0xF => decode_misc(word),
        _ => Instruction::Unknown(word),
    }
}

impl Instruction {
    /// The instructions that only redirect control: jumps, calls, returns and
    /// skips.
    pub open spec fn is_control(self) -> bool {
        matches!(
            self,
            Instruction::Return
                | Instruction::Jump(_)
                | Instruction::Call(_)
                | Instruction::SkipEqualConst(_, _)
                | Instruction::SkipNotEqualConst(_, _)
                | Instruction::SkipEqual(_, _)
                | Instruction::SkipNotEqual(_, _)
                | Instruction::SkipPressed(_)
                | Instruction::SkipNotPressed(_)
        )
    }

    /// The instructions that compute a register from registers, a constant,
    /// the delay timer or a random byte.
    pub open spec fn is_arithmetic(self) -> bool {
        matches!(
            self,
            Instruction::SetVConst(_, _)
                | Instruction::AddVConst(_, _)
                | Instruction::SetV(_, _)
                | Instruction::Or(_, _)
                | Instruction::And(_, _)
                | Instruction::Xor(_, _)
                | Instruction::Add(_, _)
                | Instruction::Sub(_, _)
                | Instruction::SubN(_, _)
                | Instruction::ShiftRight(_)
                | Instruction::ShiftLeft(_)
                | Instruction::Rand(_, _)
                | Instruction::LoadDelay(_)
        )
    }

    /// Whether the operands fit the fields they are decoded from: register
    /// indices and the sprite height in a nibble, addresses in twelve bits.
    pub open spec fn well_formed(self) -> bool {
        match self {
            Instruction::ClearDisplay | Instruction::Return | Instruction::Unknown(_) => true,
            Instruction::Jump(nnn) | Instruction::Call(nnn) | Instruction::SetI(nnn) => nnn
                < 0x1000,
            Instruction::SkipEqualConst(x, _)
            | Instruction::SkipNotEqualConst(x, _)
            | Instruction::SetVConst(x, _)
            | Instruction::AddVConst(x, _)
            | Instruction::Rand(x, _) => x < 16,
            Instruction::SkipEqual(x, y)
            | Instruction::SetV(x, y)
            | Instruction::Or(x, y)
            | Instruction::And(x, y)
            | Instruction::Xor(x, y)
            | Instruction::Add(x, y)
            | Instruction::Sub(x, y)
            | Instruction::SubN(x, y)
            | Instruction::SkipNotEqual(x, y) => x < 16 && y < 16,
            Instruction::Draw(x, y, n) => x < 16 && y < 16 && n < 16,
            Instruction::ShiftRight(x)
            | Instruction::ShiftLeft(x)
            | Instruction::SkipPressed(x)
            | Instruction::SkipNotPressed(x)
            | Instruction::LoadDelay(x)
            | Instruction::HaltUntilPressed(x)
            | Instruction::SetDelay(x)
            | Instruction::SetSound(x)
            | Instruction::AddI(x)
            | Instruction::LoadFont(x)
            | Instruction::StoreBcd(x)
            | Instruction::StoreV(x)
            | Instruction::LoadV(x) => x < 16,
        }
    }
}

/// Masks and shifts extract the same fields as division and remainder.
proof fn lemma_fields(word: u16)
    by (bit_vector)
    ensures
        word >> 12 == word / 0x1000,
        word >> 12 < 0x10,
        word & 0x0FFF == word % 0x1000,
        (word & 0x0F00) >> 8 == (word / 0x100) % 0x10,
        (word & 0x00F0) >> 4 == (word / 0x10) % 0x10,
        word & 0x00FF == word % 0x100,
        word & 0x000F == word % 0x10,
{
}

/// Every word decodes to an instruction whose operands are in range.
pub proof fn lemma_decode_well_formed(word: u16)
    ensures
        decode(word).well_formed(),
{
}

/// A word outside the table is carried unchanged by `Unknown`.
pub proof fn lemma_decode_unknown_keeps_word(word: u16)
    ensures
        decode(word) is Unknown ==> decode(word) == Instruction::Unknown(word),
{
}

fn decode_alu_word(word: u16, x: u8, y: u8) -> (op: Instruction)
    requires
        family(word) == 0x8,
        x == field_x(word),
        y == field_y(word),
    ensures
        op == decode(word),
{
    proof {
        lemma_fields(word);
    }
    match word & 0x000F {
        0x0 => Instruction::SetV(x, y),
        0x1 => Instruction::Or(x, y),
        0x2 => Instruction::And(x, y),
        0x3 => Instruction::Xor(x, y),
        0x4 => Instruction::Add(x, y),
        0x5 => Instruction::Sub(x, y),
        0x6 => Instruction::ShiftRight(x),
        0x7 => Instruction::SubN(x, y),
        0xE => Instruction::ShiftLeft(x),
        _ => Instruction::Unknown(word),
    }
}

fn decode_misc_word(word: u16, x: u8) -> (op: Instruction)
    requires
        family(word) == 0xF,
        x == field_x(word),
    ensures
        op == decode(word),
{
    proof {
        lemma_fields(word);
    }
    match word & 0x00FF {
        0x07 => Instruction::LoadDelay(x),
        0x0A => Instruction::HaltUntilPressed(x),
        0x15 => Instruction::SetDelay(x),
        0x18 => Instruction::SetSound(x),
        0x1E => Instruction::AddI(x),
        0x29 => Instruction::LoadFont(x),
        0x33 => Instruction::StoreBcd(x),
        0x55 => Instruction::StoreV(x),
        0x65 => Instruction::LoadV(x),
        _ => Instruction::Unknown(word),
    }
}

impl From<u16> for Instruction {
    /// Decodes one opcode word. Every word has an instruction: what the table
    /// does not list comes back as `Unknown` with the word inside.
    fn from(word: u16) -> (op: Instruction)
        ensures
            op == decode(word),
            op.well_formed(),
    {
        proof {
            lemma_fields(word);
            lemma_decode_well_formed(word);
        }
        let nnn: u16 = word & 0x0FFF;
        let x: u8 = ((word & 0x0F00) >> 8) as u8;
        let y: u8 = ((word & 0x00F0) >> 4) as u8;
        let kk: u8 = (word & 0x00FF) as u8;
        let n: u8 = (word & 0x000F) as u8;
        match word >> 12 {
            0x0 => match nnn {
                0x0E0 => Instruction::ClearDisplay,
                0x0EE => Instruction::Return,
                _ => Instruction::Unknown(word),
            },
            0x1 => Instruction::Jump(nnn),
            0x2 => Instruction::Call(nnn),
            0x3 => Instruction::SkipEqualConst(x, kk),
            0x4 => Instruction::SkipNotEqualConst(x, kk),
            0x5 => match n {
                0x0 => Instruction::SkipEqual(x, y),
                _ => Instruction::Unknown(word),
            },
            0x6 => Instruction::SetVConst(x, kk),
            0x7 => Instruction::AddVConst(x, kk),
            0x8 => decode_alu_word(word, x, y),
            0x9 => match n {
                0x0 => Instruction::SkipNotEqual(x, y),
                _ => Instruction::Unknown(word),
            },
            0xA => Instruction::SetI(nnn),
            0xC => Instruction::Rand(x, kk),
            0xD => Instruction::Draw(x, y, n),
            0xE => match kk {
                0x9E => Instruction::SkipPressed(x),
                0xA1 => Instruction::SkipNotPressed(x),
                _ => Instruction::Unknown(word),
            },
            0xF => decode_misc_word(word, x),
            _ => Instruction::Unknown(word),
        }
    }
}

impl FromSpecImpl<u16> for Instruction {
    open spec fn obeys_from_spec() -> bool {
        true
    }

    open spec fn from_spec(word: u16) -> Instruction {
        decode(word)
    }
}

} // verus!
