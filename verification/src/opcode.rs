//! The instruction set: the tagged instruction type, its binary encoding and
//! the decoder.

use vstd::prelude::*;
use crate::status::Fault;

verus! {

/// Target of a jump.
#[derive(Clone, Copy, Debug, PartialEq, Eq, Structural)]
pub enum JPType {
    /// Jump to the address.
    Addr(u16),
    /// Jump to the address plus the value of register 0.
    FromV0(u16),
}

/// Second operand of a skip comparison.
#[derive(Clone, Copy, Debug, PartialEq, Eq, Structural)]
pub enum SEType {
    /// An immediate byte.
    Byte(u8),
    /// The number of a register.
    Reg(u8),
}

/// Source or destination of a load.
#[derive(Clone, Copy, Debug, PartialEq, Eq, Structural)]
pub enum LDType {
    /// Register from an immediate byte.
    Byte(u8),
    /// Register from another register.
    Reg(u8),
    /// Index register from an immediate address.
    Addr(u16),
    /// Register from the delay timer.
    FromDT,
    /// Register from the keypad (waits for a key).
    KeyPress,
    /// Delay timer from a register.
    ToDT,
    /// Sound timer from a register.
    ToST,
    /// Index register from the glyph address of a register's digit.
    F,
    /// Memory from the decimal digits of a register.
    B,
    /// Memory from registers 0 up to the named one.
    ToI,
    /// Registers 0 up to the named one from memory.
    FromI,
}

/// What is added.
#[derive(Clone, Copy, Debug, PartialEq, Eq, Structural)]
pub enum AddType {
    /// An immediate byte to a register, without carry.
    Byte(u8),
    /// A register to a register, with carry.
    Reg(u8),
    /// A register to the index register.
    I,
}

/// One decoded instruction. Register operands are register numbers, `x`
/// first, then `y`. The instruction word is given with each variant, one
/// letter or digit per nibble.
#[derive(Clone, Copy, Debug, PartialEq, Eq, Structural)]
pub enum Instruction {
    /// `00E0`: clear the display.
    CLS,
    /// `00EE`: return from a subroutine.
    RET,
    /// `0nnn`: system call. It is recognised and has no effect.
    SYS(u16),
    /// `1nnn`, `Bnnn`: jump.
    JP(JPType),
    /// `2nnn`: call the subroutine at `nnn`.
    CALL(u16),
    /// `3xkk`, `5xy0`: skip the next instruction if register `x` equals the
    /// operand.
    SE(u8, SEType),
    /// `4xkk`, `9xy0`: skip the next instruction if register `x` differs from
    /// the operand.
    SNE(u8, SEType),
    /// `6xkk`, `8xy0`, `Annn`, `Fx07`, `Fx0A`, `Fx15`, `Fx18`, `Fx29`,
    /// `Fx33`, `Fx55`, `Fx65`: load. The register is `x`; an index load has
    /// no register and carries 0 there.
    LD(u8, LDType),
    /// `7xkk`, `8xy4`, `Fx1E`: add.
    ADD(u8, AddType),
    /// `8xy1`: register `x` becomes `x | y`.
    OR(u8, u8),
    /// `8xy2`: register `x` becomes `x & y`.
    AND(u8, u8),
    /// `8xy3`: register `x` becomes `x ^ y`.
    XOR(u8, u8),
    /// `8xy5`: register `x` becomes `x - y`, the flag tells that nothing was
    /// borrowed.
    SUB(u8, u8),
    /// `8xy6`: register `x` is shifted right by one; `y` is not read.
    SHR(u8, u8),
    /// `8xy7`: register `x` becomes `y - x`, the flag tells that nothing was
    /// borrowed.
    SUBN(u8, u8),
    /// `8xyE`: register `x` is shifted left by one; `y` is not read.
    SHL(u8, u8),
    /// `Cxkk`: register `x` becomes a random byte masked by `kk`.
    RND(u8, u8),
    /// `Dxyn`: draw the sprite of `n` rows at the index register, at the
    /// point that registers `x` and `y` name.
    DRW(u8, u8, u8),
    /// `Ex9E`: skip the next instruction if the key that register `x` names
    /// is down.
    SKP(u8),
    /// `ExA1`: skip the next instruction if the key that register `x` names
    /// is up.
    SKNP(u8),
    /// `0000`: the all-zero word, which marks the end of a program image. It
    /// has no effect; a driver may stop on it.
    RAW0,
}

/// The word `family:x:y:n` written as four nibbles.
pub open spec fn word_xyn(family: int, x: u8, y: u8, n: int) -> int {
    family * 0x1000 + x * 0x100 + y * 0x10 + n
}

/// The word `family:x:kk` written as a nibble, a nibble and a byte.
pub open spec fn word_xkk(family: int, x: u8, kk: int) -> int {
    family * 0x1000 + x * 0x100 + kk
}

/// The word `family:nnn` written as a nibble and a 12-bit address.
pub open spec fn word_nnn(family: int, nnn: u16) -> int {
    family * 0x1000 + nnn
}

impl Instruction {
    /// Every operand fits the field that carries it in the instruction word:
    /// register numbers and the sprite height in 4 bits, addresses in 12.
    pub open spec fn wf(self) -> bool {
        match self {
            Instruction::CLS | Instruction::RET | Instruction::RAW0 => true,
            Instruction::SYS(nnn) | Instruction::CALL(nnn) => nnn < 0x1000,
            Instruction::JP(JPType::Addr(nnn)) | Instruction::JP(JPType::FromV0(nnn)) => nnn
                < 0x1000,
            Instruction::SE(x, SEType::Byte(_)) | Instruction::SNE(x, SEType::Byte(_)) => x < 16,
            Instruction::SE(x, SEType::Reg(y)) | Instruction::SNE(x, SEType::Reg(y)) => x < 16 && y
                < 16,
            Instruction::LD(x, LDType::Reg(y)) => x < 16 && y < 16,
            Instruction::LD(x, LDType::Addr(nnn)) => x < 16 && nnn < 0x1000,
            Instruction::LD(x, _) => x < 16,
            Instruction::ADD(x, AddType::Reg(y)) => x < 16 && y < 16,
            Instruction::ADD(x, _) => x < 16,
            Instruction::OR(x, y)
            | Instruction::AND(x, y)
            | Instruction::XOR(x, y)
            | Instruction::SUB(x, y)
            | Instruction::SHR(x, y)
            | Instruction::SUBN(x, y)
            | Instruction::SHL(x, y) => x < 16 && y < 16,
            Instruction::RND(x, _) => x < 16,
            Instruction::DRW(x, y, n) => x < 16 && y < 16 && n < 16,
            Instruction::SKP(x) | Instruction::SKNP(x) => x < 16,
        }
    }

    /// The instruction word that the fields of this instruction make up.
    pub open spec fn word(self) -> int {
        match self {
            Instruction::RAW0 => 0x0000,
            Instruction::CLS => 0x00E0,
            Instruction::RET => 0x00EE,
            Instruction::SYS(nnn) => word_nnn(0x0, nnn),
            Instruction::JP(JPType::Addr(nnn)) => word_nnn(0x1, nnn),
            Instruction::CALL(nnn) => word_nnn(0x2, nnn),
            Instruction::SE(x, SEType::Byte(kk)) => word_xkk(0x3, x, kk as int),
            Instruction::SNE(x, SEType::Byte(kk)) => word_xkk(0x4, x, kk as int),
            Instruction::SE(x, SEType::Reg(y)) => word_xyn(0x5, x, y, 0x0),
            Instruction::LD(x, LDType::Byte(kk)) => word_xkk(0x6, x, kk as int),
            Instruction::ADD(x, AddType::Byte(kk)) => word_xkk(0x7, x, kk as int),
            Instruction::LD(x, LDType::Reg(y)) => word_xyn(0x8, x, y, 0x0),
            Instruction::OR(x, y) => word_xyn(0x8, x, y, 0x1),
            Instruction::AND(x, y) => word_xyn(0x8, x, y, 0x2),
            Instruction::XOR(x, y) => word_xyn(0x8, x, y, 0x3),
            Instruction::ADD(x, AddType::Reg(y)) => word_xyn(0x8, x, y, 0x4),
            Instruction::SUB(x, y) => word_xyn(0x8, x, y, 0x5),
            Instruction::SHR(x, y) => word_xyn(0x8, x, y, 0x6),
            Instruction::SUBN(x, y) => word_xyn(0x8, x, y, 0x7),
            Instruction::SHL(x, y) => word_xyn(0x8, x, y, 0xE),
            Instruction::SNE(x, SEType::Reg(y)) => word_xyn(0x9, x, y, 0x0),
            Instruction::LD(_, LDType::Addr(nnn)) => word_nnn(0xA, nnn),
            Instruction::JP(JPType::FromV0(nnn)) => word_nnn(0xB, nnn),
            Instruction::RND(x, kk) => word_xkk(0xC, x, kk as int),
            Instruction::DRW(x, y, n) => word_xyn(0xD, x, y, n as int),
            Instruction::SKP(x) => word_xkk(0xE, x, 0x9E),
            Instruction::SKNP(x) => word_xkk(0xE, x, 0xA1),
            Instruction::LD(x, LDType::FromDT) => word_xkk(0xF, x, 0x07),
            Instruction::LD(x, LDType::KeyPress) => word_xkk(0xF, x, 0x0A),
            Instruction::LD(x, LDType::ToDT) => word_xkk(0xF, x, 0x15),
            Instruction::LD(x, LDType::ToST) => word_xkk(0xF, x, 0x18),
            Instruction::ADD(x, AddType::I) => word_xkk(0xF, x, 0x1E),
            Instruction::LD(x, LDType::F) => word_xkk(0xF, x, 0x29),
            Instruction::LD(x, LDType::B) => word_xkk(0xF, x, 0x33),
            Instruction::LD(x, LDType::ToI) => word_xkk(0xF, x, 0x55),
            Instruction::LD(x, LDType::FromI) => word_xkk(0xF, x, 0x65),
        }
    }
}

/// The instruction that a word stands for, or the decode fault for a word that
/// matches no defined pattern. The word is read as four nibbles: the leading
/// one selects the family, `x` is the second, `y` the third and `n` the last;
/// `kk` is the low byte and `nnn` the low 12 bits.
pub open spec fn spec_decode(word: u16) -> Result<Instruction, Fault> {
    let family = word / 0x1000;
    let x = ((word / 0x100) % 0x10) as u8;
    let y = ((word / 0x10) % 0x10) as u8;
    let n = (word % 0x10) as u8;
    let kk = (word % 0x100) as u8;
    let nnn = (word % 0x1000) as u16;
    if family == 0x0 {
        if word == 0x0000 {
            Ok(Instruction::RAW0)
        } else if word == 0x00E0 {
            Ok(Instruction::CLS)
        } else if word == 0x00EE {
            Ok(Instruction::RET)
        } else {
            Ok(Instruction::SYS(nnn))
        }
    } else if family == 0x1 {
        Ok(Instruction::JP(JPType::Addr(nnn)))
    } else if family == 0x2 {
        Ok(Instruction::CALL(nnn))
    } else if family == 0x3 {
        Ok(Instruction::SE(x, SEType::Byte(kk)))
    } else if family == 0x4 {
        Ok(Instruction::SNE(x, SEType::Byte(kk)))
    } else if family == 0x5 {
        if n == 0x0 {
            Ok(Instruction::SE(x, SEType::Reg(y)))
        } else {
            Err(Fault::DecodeFault)
        }
    } else if family == 0x6 {
        Ok(Instruction::LD(x, LDType::Byte(kk)))
    } else if family == 0x7 {
        Ok(Instruction::ADD(x, AddType::Byte(kk)))
    } else if family == 0x8 {
        if n == 0x0 {
            Ok(Instruction::LD(x, LDType::Reg(y)))
        } else if n == 0x1 {
            Ok(Instruction::OR(x, y))
        } else if n == 0x2 {
            Ok(Instruction::AND(x, y))
        } else if n == 0x3 {
            Ok(Instruction::XOR(x, y))
        } else if n == 0x4 {
            Ok(Instruction::ADD(x, AddType::Reg(y)))
        } else if n == 0x5 {
            Ok(Instruction::SUB(x, y))
        } else if n == 0x6 {
            Ok(Instruction::SHR(x, y))
        } else if n == 0x7 {
            Ok(Instruction::SUBN(x, y))
        } else if n == 0xE {
            Ok(Instruction::SHL(x, y))
        } else {
            Err(Fault::DecodeFault)
        }
    } else if family == 0x9 {
        if n == 0x0 {
            Ok(Instruction::SNE(x, SEType::Reg(y)))
        } else {
            Err(Fault::DecodeFault)
        }
    } else if family == 0xA {
        Ok(Instruction::LD(0, LDType::Addr(nnn)))
    } else if family == 0xB {
        Ok(Instruction::JP(JPType::FromV0(nnn)))
    } else if family == 0xC {
        Ok(Instruction::RND(x, kk))
    } else if family == 0xD {
        Ok(Instruction::DRW(x, y, n))
    } else if family == 0xE {
        if kk == 0x9E {
            Ok(Instruction::SKP(x))
        } else if kk == 0xA1 {
            Ok(Instruction::SKNP(x))
        } else {
            Err(Fault::DecodeFault)
        }
    } else {
        if kk == 0x07 {
            Ok(Instruction::LD(x, LDType::FromDT))
        } else if kk == 0x0A {
            Ok(Instruction::LD(x, LDType::KeyPress))
        } else if kk == 0x15 {
            Ok(Instruction::LD(x, LDType::ToDT))
        } else if kk == 0x18 {
            Ok(Instruction::LD(x, LDType::ToST))
        } else if kk == 0x1E {
            Ok(Instruction::ADD(x, AddType::I))
        } else if kk == 0x29 {
            Ok(Instruction::LD(x, LDType::F))
        } else if kk == 0x33 {
            Ok(Instruction::LD(x, LDType::B))
        } else if kk == 0x55 {
            Ok(Instruction::LD(x, LDType::ToI))
        } else if kk == 0x65 {
            Ok(Instruction::LD(x, LDType::FromI))
        } else {
            Err(Fault::DecodeFault)
        }
    }
}

/// Masking and shifting a word yields its nibbles, its low byte and its low
/// 12 bits as quotients and remainders.
proof fn lemma_fields(word: u16)
    ensures
        (0xF000 & word) >> 12 == word / 0x1000,
        (0x0F00 & word) >> 8 == (word / 0x100) % 0x10,
        (0x00F0 & word) >> 4 == (word / 0x10) % 0x10,
        0x000F & word == word % 0x10,
        0x00FF & word == word % 0x100,
        0x0FFF & word == word % 0x1000,
{
    assert((0xF000 & word) >> 12 == word / 0x1000 && (0x0F00 & word) >> 8 == (word / 0x100) % 0x10
        && (0x00F0 & word) >> 4 == (word / 0x10) % 0x10 && 0x000F & word == word % 0x10 && 0x00FF
        & word == word % 0x100 && 0x0FFF & word == word % 0x1000) by (bit_vector);
}

impl Instruction {
    /// Decodes one instruction word. Words outside the instruction set are
    /// reported as [`Fault::DecodeFault`]; none is passed over in silence.
    pub fn decode(instruction: u16) -> (decoded: Result<Self, Fault>)
        ensures
            decoded == spec_decode(instruction),
    {
        proof {
            lemma_fields(instruction);
        }
        let nibbles = (
            (0xF000 & instruction) >> 12,
            (0x0F00 & instruction) >> 8,
            (0x00F0 & instruction) >> 4,
            0x000F & instruction,
        );

        let nnn = 0x0FFF & instruction;
        let kk = (0x00FF & instruction) as u8;
        let n = (0x000F & instruction) as u8;
        let x = ((0x0F00 & instruction) >> 8) as u8;
        let y = ((0x00F0 & instruction) >> 4) as u8;

        Ok(
            match nibbles {
                (0x0, 0x0, 0x0, 0x0) => Instruction::RAW0,
                (0x0, 0x0, 0xE, 0x0) => Instruction::CLS,
                (0x0, 0x0, 0xE, 0xE) => Instruction::RET,
                (0x0, _, _, _) => Instruction::SYS(nnn),
                (0x1, _, _, _) => Instruction::JP(JPType::Addr(nnn)),
                (0x2, _, _, _) => Instruction::CALL(nnn),
                (0x3, _, _, _) => Instruction::SE(x, SEType::Byte(kk)),
                (0x4, _, _, _) => Instruction::SNE(x, SEType::Byte(kk)),
                (0x5, _, _, 0x0) => Instruction::SE(x, SEType::Reg(y)),
                (0x6, _, _, _) => Instruction::LD(x, LDType::Byte(kk)),
                (0x7, _, _, _) => Instruction::ADD(x, AddType::Byte(kk)),
                (0x8, _, _, 0x0) => Instruction::LD(x, LDType::Reg(y)),
                (0x8, _, _, 0x1) => Instruction::OR(x, y),
                (0x8, _, _, 0x2) => Instruction::AND(x, y),
                (0x8, _, _, 0x3) => Instruction::XOR(x, y),
                (0x8, _, _, 0x4) => Instruction::ADD(x, AddType::Reg(y)),
                (0x8, _, _, 0x5) => Instruction::SUB(x, y),
                (0x8, _, _, 0x6) => Instruction::SHR(x, y),
                (0x8, _, _, 0x7) => Instruction::SUBN(x, y),
                (0x8, _, _, 0xE) => Instruction::SHL(x, y),
                (0x9, _, _, 0x0) => Instruction::SNE(x, SEType::Reg(y)),
                (0xA, _, _, _) => Instruction::LD(0, LDType::Addr(nnn)),
                (0xB, _, _, _) => Instruction::JP(JPType::FromV0(nnn)),
                (0xC, _, _, _) => Instruction::RND(x, kk),
                (0xD, _, _, _) => Instruction::DRW(x, y, n),
                (0xE, _, 0x9, 0xE) => Instruction::SKP(x),
                (0xE, _, 0xA, 0x1) => Instruction::SKNP(x),
                (0xF, _, 0x0, 0x7) => Instruction::LD(x, LDType::FromDT),
                (0xF, _, 0x0, 0xA) => Instruction::LD(x, LDType::KeyPress),
                (0xF, _, 0x1, 0x5) => Instruction::LD(x, LDType::ToDT),
                (0xF, _, 0x1, 0x8) => Instruction::LD(x, LDType::ToST),
                (0xF, _, 0x1, 0xE) => Instruction::ADD(x, AddType::I),
                (0xF, _, 0x2, 0x9) => Instruction::LD(x, LDType::F),
                (0xF, _, 0x3, 0x3) => Instruction::LD(x, LDType::B),
                (0xF, _, 0x5, 0x5) => Instruction::LD(x, LDType::ToI),
                (0xF, _, 0x6, 0x5) => Instruction::LD(x, LDType::FromI),
                _ => return Err(Fault::DecodeFault),
            },
        )
    }
}

impl Instruction {
    /// The form in which the decoder hands this instruction out. Two
    /// spellings are folded: a system call to address 0 is the all-zero word,
    /// and the register field of an index load is not part of the word.
    pub open spec fn canonical(self) -> Instruction {
        match self {
            Instruction::SYS(nnn) if nnn == 0 => Instruction::RAW0,
            Instruction::LD(_, LDType::Addr(nnn)) => Instruction::LD(0, LDType::Addr(nnn)),
            _ => self,
        }
    }

    /// Whether this is a system call whose address collides with the word of
    /// the clear or the return instruction. Such a call has no word of its
    /// own.
    pub open spec fn shadowed(self) -> bool {
        self matches Instruction::SYS(nnn) && (nnn == 0x0E0 || nnn == 0x0EE)
    }

    /// The word that encodes this instruction, if it has one: it has to be
    /// well-formed and must not be shadowed.
    pub open spec fn spec_encode(self) -> Option<u16> {
        if self.wf() && !self.shadowed() {
            Some(self.word() as u16)
        } else {
            None
        }
    }

    /// Tests at run time whether every operand fits its field.
    pub fn is_wf(&self) -> (ok: bool)
        ensures
            ok == self.wf(),
    {
        match *self {
            Instruction::CLS | Instruction::RET | Instruction::RAW0 => true,
            Instruction::SYS(nnn) | Instruction::CALL(nnn) => nnn < 0x1000,
            Instruction::JP(JPType::Addr(nnn)) | Instruction::JP(JPType::FromV0(nnn)) => nnn
                < 0x1000,
            Instruction::SE(x, SEType::Byte(_)) | Instruction::SNE(x, SEType::Byte(_)) => x < 16,
            Instruction::SE(x, SEType::Reg(y)) | Instruction::SNE(x, SEType::Reg(y)) => x < 16 && y
                < 16,
            Instruction::LD(x, LDType::Reg(y)) => x < 16 && y < 16,
            Instruction::LD(x, LDType::Addr(nnn)) => x < 16 && nnn < 0x1000,
            Instruction::LD(x, _) => x < 16,
            Instruction::ADD(x, AddType::Reg(y)) => x < 16 && y < 16,
            Instruction::ADD(x, _) => x < 16,
            Instruction::OR(x, y)
            | Instruction::AND(x, y)
            | Instruction::XOR(x, y)
            | Instruction::SUB(x, y)
            | Instruction::SHR(x, y)
            | Instruction::SUBN(x, y)
            | Instruction::SHL(x, y) => x < 16 && y < 16,
            Instruction::RND(x, _) => x < 16,
            Instruction::DRW(x, y, n) => x < 16 && y < 16 && n < 16,
            Instruction::SKP(x) | Instruction::SKNP(x) => x < 16,
        }
    }

    /// Encodes the instruction as its 16-bit word. An instruction that is
    /// not well-formed, or that is shadowed by the clear or the return
    /// instruction, has no word.
    pub fn encode(&self) -> (word: Option<u16>)
        ensures
            word == self.spec_encode(),
    {
        if !self.is_wf() {
            return None;
        }
        proof {
            self.lemma_word_in_range();
        }
        Some(
            match *self {
                Instruction::RAW0 => 0x0000,
                Instruction::CLS => 0x00E0,
                Instruction::RET => 0x00EE,
                Instruction::SYS(nnn) => {
                    if nnn == 0x0E0 || nnn == 0x0EE {
                        return None;
                    }
                    nnn
                },
                Instruction::JP(JPType::Addr(nnn)) => 0x1000 + nnn,
                Instruction::CALL(nnn) => 0x2000 + nnn,
                Instruction::SE(x, SEType::Byte(kk)) => pack_xkk(0x3, x, kk),
                Instruction::SNE(x, SEType::Byte(kk)) => pack_xkk(0x4, x, kk),
                Instruction::SE(x, SEType::Reg(y)) => pack_xyn(0x5, x, y, 0x0),
                Instruction::LD(x, LDType::Byte(kk)) => pack_xkk(0x6, x, kk),
                Instruction::ADD(x, AddType::Byte(kk)) => pack_xkk(0x7, x, kk),
                Instruction::LD(x, LDType::Reg(y)) => pack_xyn(0x8, x, y, 0x0),
                Instruction::OR(x, y) => pack_xyn(0x8, x, y, 0x1),
                Instruction::AND(x, y) => pack_xyn(0x8, x, y, 0x2),
                Instruction::XOR(x, y) => pack_xyn(0x8, x, y, 0x3),
                Instruction::ADD(x, AddType::Reg(y)) => pack_xyn(0x8, x, y, 0x4),
                Instruction::SUB(x, y) => pack_xyn(0x8, x, y, 0x5),
                Instruction::SHR(x, y) => pack_xyn(0x8, x, y, 0x6),
                Instruction::SUBN(x, y) => pack_xyn(0x8, x, y, 0x7),
                Instruction::SHL(x, y) => pack_xyn(0x8, x, y, 0xE),
                Instruction::SNE(x, SEType::Reg(y)) => pack_xyn(0x9, x, y, 0x0),
                Instruction::LD(_, LDType::Addr(nnn)) => 0xA000 + nnn,
                Instruction::JP(JPType::FromV0(nnn)) => 0xB000 + nnn,
                Instruction::RND(x, kk) => pack_xkk(0xC, x, kk),
                Instruction::DRW(x, y, n) => pack_xyn(0xD, x, y, n),
                Instruction::SKP(x) => pack_xkk(0xE, x, 0x9E),
                Instruction::SKNP(x) => pack_xkk(0xE, x, 0xA1),
                Instruction::LD(x, LDType::FromDT) => pack_xkk(0xF, x, 0x07),
                Instruction::LD(x, LDType::KeyPress) => pack_xkk(0xF, x, 0x0A),
                Instruction::LD(x, LDType::ToDT) => pack_xkk(0xF, x, 0x15),
                Instruction::LD(x, LDType::ToST) => pack_xkk(0xF, x, 0x18),
                Instruction::ADD(x, AddType::I) => pack_xkk(0xF, x, 0x1E),
                Instruction::LD(x, LDType::F) => pack_xkk(0xF, x, 0x29),
                Instruction::LD(x, LDType::B) => pack_xkk(0xF, x, 0x33),
                Instruction::LD(x, LDType::ToI) => pack_xkk(0xF, x, 0x55),
                Instruction::LD(x, LDType::FromI) => pack_xkk(0xF, x, 0x65),
            },
        )
    }

    /// The fields of a well-formed instruction make up a 16-bit word.
    pub proof fn lemma_word_in_range(self)
        requires
            self.wf(),
        ensures
            0 <= self.word() <= u16::MAX,
    {
    }

    /// Whatever the encoder gives decodes to the instruction that was
    /// encoded, in its canonical form.
    pub proof fn lemma_decode_encode(self)
        ensures
            self.spec_encode() matches Some(word) ==> spec_decode(word) == Ok::<
                Instruction,
                Fault,
            >(self.canonical()),
    {
        if self.wf() && !self.shadowed() {
            match self {
                Instruction::RAW0 | Instruction::CLS | Instruction::RET => {},
                Instruction::SYS(nnn) => lemma_split_nnn(0x0, nnn),
                Instruction::JP(JPType::Addr(nnn)) => lemma_split_nnn(0x1, nnn),
                Instruction::CALL(nnn) => lemma_split_nnn(0x2, nnn),
                Instruction::SE(x, SEType::Byte(kk)) => lemma_split_xkk(0x3, x, kk),
                Instruction::SNE(x, SEType::Byte(kk)) => lemma_split_xkk(0x4, x, kk),
                Instruction::SE(x, SEType::Reg(y)) => lemma_split_xyn(0x5, x, y, 0x0),
                Instruction::LD(x, LDType::Byte(kk)) => lemma_split_xkk(0x6, x, kk),
                Instruction::ADD(x, AddType::Byte(kk)) => lemma_split_xkk(0x7, x, kk),
                Instruction::LD(x, LDType::Reg(y)) => lemma_split_xyn(0x8, x, y, 0x0),
                Instruction::OR(x, y) => lemma_split_xyn(0x8, x, y, 0x1),
                Instruction::AND(x, y) => lemma_split_xyn(0x8, x, y, 0x2),
                Instruction::XOR(x, y) => lemma_split_xyn(0x8, x, y, 0x3),
                Instruction::ADD(x, AddType::Reg(y)) => lemma_split_xyn(0x8, x, y, 0x4),
                Instruction::SUB(x, y) => lemma_split_xyn(0x8, x, y, 0x5),
                Instruction::SHR(x, y) => lemma_split_xyn(0x8, x, y, 0x6),
                Instruction::SUBN(x, y) => lemma_split_xyn(0x8, x, y, 0x7),
                Instruction::SHL(x, y) => lemma_split_xyn(0x8, x, y, 0xE),
                Instruction::SNE(x, SEType::Reg(y)) => lemma_split_xyn(0x9, x, y, 0x0),
                Instruction::LD(_, LDType::Addr(nnn)) => lemma_split_nnn(0xA, nnn),
                Instruction::JP(JPType::FromV0(nnn)) => lemma_split_nnn(0xB, nnn),
                Instruction::RND(x, kk) => lemma_split_xkk(0xC, x, kk),
                Instruction::DRW(x, y, n) => lemma_split_xyn(0xD, x, y, n),
                Instruction::SKP(x) => lemma_split_xkk(0xE, x, 0x9E),
                Instruction::SKNP(x) => lemma_split_xkk(0xE, x, 0xA1),
                Instruction::LD(x, LDType::FromDT) => lemma_split_xkk(0xF, x, 0x07),
                Instruction::LD(x, LDType::KeyPress) => lemma_split_xkk(0xF, x, 0x0A),
                Instruction::LD(x, LDType::ToDT) => lemma_split_xkk(0xF, x, 0x15),
                Instruction::LD(x, LDType::ToST) => lemma_split_xkk(0xF, x, 0x18),
                Instruction::ADD(x, AddType::I) => lemma_split_xkk(0xF, x, 0x1E),
                Instruction::LD(x, LDType::F) => lemma_split_xkk(0xF, x, 0x29),
                Instruction::LD(x, LDType::B) => lemma_split_xkk(0xF, x, 0x33),
                Instruction::LD(x, LDType::ToI) => lemma_split_xkk(0xF, x, 0x55),
                Instruction::LD(x, LDType::FromI) => lemma_split_xkk(0xF, x, 0x65),
            }
        }
    }

    /// Whatever the decoder hands out is well-formed and canonical, and the
    /// encoder gives the decoded word back for it.
    pub proof fn lemma_encode_decode(word: u16)
        ensures
            spec_decode(word) matches Ok(instruction) ==> instruction.wf()
                && instruction.canonical() == instruction && instruction.spec_encode() == Some(
                word,
            ),
    {
        lemma_join(word);
    }

    /// The decoder faults on exactly the words that the encoder gives for no
    /// instruction.
    pub proof fn lemma_decode_fault(word: u16)
        ensures
            spec_decode(word) == Err::<Instruction, Fault>(Fault::DecodeFault) <==> forall|
                instruction: Instruction,
            |
                #[trigger] instruction.spec_encode() != Some(word),
    {
        Self::lemma_encode_decode(word);
        if spec_decode(word) is Err {
            assert forall|instruction: Instruction| #[trigger]
                instruction.spec_encode() != Some(word) by {
                instruction.lemma_decode_encode();
            }
        } else {
            assert(spec_decode(word)->Ok_0.spec_encode() == Some(word));
        }
    }
}

/// The fields of a word put together from a family nibble and an address.
proof fn lemma_split_nnn(family: u16, nnn: u16)
    requires
        family < 16,
        nnn < 0x1000,
    ensures
        0 <= word_nnn(family as int, nnn) <= u16::MAX,
        ({
            let word = word_nnn(family as int, nnn) as u16;
            word / 0x1000 == family && word % 0x1000 == nnn
        }),
{
    let word = family * 0x1000 + nnn;
    assert(word / 0x1000 == family && word % 0x1000 == nnn);
}

/// The fields of a word put together from a family nibble, a register number
/// and a byte.
proof fn lemma_split_xkk(family: u16, x: u8, kk: u8)
    requires
        family < 16,
        x < 16,
    ensures
        0 <= word_xkk(family as int, x, kk as int) <= u16::MAX,
        ({
            let word = word_xkk(family as int, x, kk as int) as u16;
            word / 0x1000 == family && (word / 0x100) % 0x10 == x && word % 0x100 == kk
        }),
{
    let word = family * 0x1000 + x * 0x100 + kk;
    let upper = family * 0x10 + x;
    assert(word == upper * 0x100 + kk);
    assert(word / 0x100 == upper && word % 0x100 == kk);
    assert(upper % 0x10 == x && upper / 0x10 == family);
    assert(word / 0x1000 == family);
}

/// The fields of a word put together from four nibbles.
proof fn lemma_split_xyn(family: u16, x: u8, y: u8, n: u8)
    requires
        family < 16,
        x < 16,
        y < 16,
        n < 16,
    ensures
        0 <= word_xyn(family as int, x, y, n as int) <= u16::MAX,
        ({
            let word = word_xyn(family as int, x, y, n as int) as u16;
            word / 0x1000 == family && (word / 0x100) % 0x10 == x && (word / 0x10) % 0x10 == y
                && word % 0x10 == n
        }),
{
    let word = family * 0x1000 + x * 0x100 + y * 0x10 + n;
    let upper = family * 0x10 + x;
    let middle = upper * 0x10 + y;
    assert(word == middle * 0x10 + n);
    assert(word / 0x10 == middle && word % 0x10 == n);
    assert(middle % 0x10 == y && middle / 0x10 == upper);
    assert(word == upper * 0x100 + (y * 0x10 + n));
    assert(word / 0x100 == upper);
    assert(upper % 0x10 == x && upper / 0x10 == family);
    assert(word / 0x1000 == family);
}

/// A word is the sum of its fields, whichever way it is cut.
proof fn lemma_join(word: u16)
    ensures
        word / 0x1000 < 16,
        word == word_nnn((word / 0x1000) as int, (word % 0x1000) as u16),
        word == word_xkk(
            (word / 0x1000) as int,
            ((word / 0x100) % 0x10) as u8,
            (word % 0x100) as int,
        ),
        word == word_xyn(
            (word / 0x1000) as int,
            ((word / 0x100) % 0x10) as u8,
            ((word / 0x10) % 0x10) as u8,
            (word % 0x10) as int,
        ),
        word % 0x100 == ((word / 0x10) % 0x10) * 0x10 + word % 0x10,
{
    let family = word / 0x1000;
    let x = (word / 0x100) % 0x10;
    let y = (word / 0x10) % 0x10;
    let n = word % 0x10;
    assert(word == (word / 0x10) * 0x10 + n);
    assert(word / 0x10 == (word / 0x100) * 0x10 + y);
    assert(word / 0x100 == family * 0x10 + x);
    assert(word % 0x100 == y * 0x10 + n);
    assert(word % 0x1000 == x * 0x100 + y * 0x10 + n);
}

/// Packs a family nibble, a register number and a byte into a word.
fn pack_xkk(family: u16, x: u8, kk: u8) -> (word: u16)
    requires
        family < 16,
        x < 16,
    ensures
        word == word_xkk(family as int, x, kk as int),
{
    family * 0x1000 + (x as u16) * 0x100 + (kk as u16)
}

/// Packs a family nibble, two register numbers and a final nibble into a
/// word.
fn pack_xyn(family: u16, x: u8, y: u8, n: u8) -> (word: u16)
    requires
        family < 16,
        x < 16,
        y < 16,
        n < 16,
    ensures
        word == word_xyn(family as int, x, y, n as int),
{
    family * 0x1000 + (x as u16) * 0x100 + (y as u16) * 0x10 + (n as u16)
}

} // verus!
