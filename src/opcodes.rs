//! Instruction decoding: turning the two bytes of an instruction word into an [`Opcode`].

use vstd::prelude::*;

verus! {

/// One decoded instruction, with the operands that it carries.
///
/// Register operands are register indices, 12-bit addresses are `u16`,
/// immediate bytes are `u8`.
#[derive(PartialEq, Eq, Debug, Clone, Copy)]
pub enum Opcode {
    /// 0nnn
    SystemAddr(u16),
    /// 00E0
    ClearScreen,
    /// 00EE
    Return,
    /// 1nnn
    JumpAddr(u16),
    /// 2nnn
    CallAddr(u16),
    /// 3xkk
    SkipRegisterEqualsValue(usize, u8),
    /// 4xkk
    SkipRegisterNotEqualsValue(usize, u8),
    /// 5xy0
    SkipRegistersEqual(usize, usize),
    /// 6xkk
    LoadValue(usize, u8),
    /// 7xkk
    AddValue(usize, u8),
    /// 8xy0
    LoadRegisterValue(usize, usize),
    /// 8xy1
    Or(usize, usize),
    /// 8xy2
    And(usize, usize),
    /// 8xy3
    Xor(usize, usize),
    /// 8xy4
    AddRegisters(usize, usize),
    /// 8xy5
    SubtractFromFirstRegister(usize, usize),
    /// 8xy6
    BitShiftRight(usize, usize),
    /// 8xy7
    SubtractFromSecondRegister(usize, usize),
    /// 8xyE
    BitShiftLeft(usize, usize),
    /// 9xy0
    SkipRegistersNotEqual(usize, usize),
    /// Annn
    LoadRegisterI(u16),
    /// Bnnn
    JumpAddrV0(u16),
    /// Cxkk
    Random(usize, u8),
    /// Dxyn
    Draw(usize, usize, u8),
    /// Ex9E
    SkipKeyPressed(usize),
    /// ExA1
    SkipKeyNotPressed(usize),
    /// Fx07
    LoadDelayTimer(usize),
    /// Fx0A
    LoadKeyPress(usize),
    /// Fx15
    SetDelayTimer(usize),
    /// Fx18
    SetSoundTimer(usize),
    /// Fx1E
    AddRegisterI(usize),
    /// Fx29
    SetIHexSpriteLocation(usize),
    /// Fx33
    BinaryCodedDecimal(usize),
    /// Fx55
    StoreRegisters(usize),
    /// Fx65
    LoadRegisters(usize),
}

impl Opcode {
    /// Every register operand names one of the 16 registers and a sprite
    /// height fits in a nibble: what any decoded instruction satisfies.
    pub open spec fn wf(self) -> bool {
        match self {
            Opcode::SkipRegisterEqualsValue(x, _) => x < 16,
            Opcode::SkipRegisterNotEqualsValue(x, _) => x < 16,
            Opcode::SkipRegistersEqual(x, y) => x < 16 && y < 16,
            Opcode::LoadValue(x, _) => x < 16,
            Opcode::AddValue(x, _) => x < 16,
            Opcode::LoadRegisterValue(x, y) => x < 16 && y < 16,
            Opcode::Or(x, y) => x < 16 && y < 16,
            Opcode::And(x, y) => x < 16 && y < 16,
            Opcode::Xor(x, y) => x < 16 && y < 16,
            Opcode::AddRegisters(x, y) => x < 16 && y < 16,
            Opcode::SubtractFromFirstRegister(x, y) => x < 16 && y < 16,
            Opcode::BitShiftRight(x, y) => x < 16 && y < 16,
            Opcode::SubtractFromSecondRegister(x, y) => x < 16 && y < 16,
            Opcode::BitShiftLeft(x, y) => x < 16 && y < 16,
            Opcode::SkipRegistersNotEqual(x, y) => x < 16 && y < 16,
            Opcode::Random(x, _) => x < 16,
            Opcode::Draw(x, y, n) => x < 16 && y < 16 && n < 16,
            Opcode::SkipKeyPressed(x) => x < 16,
            Opcode::SkipKeyNotPressed(x) => x < 16,
            Opcode::LoadDelayTimer(x) => x < 16,
            Opcode::LoadKeyPress(x) => x < 16,
            Opcode::SetDelayTimer(x) => x < 16,
            Opcode::SetSoundTimer(x) => x < 16,
            Opcode::AddRegisterI(x) => x < 16,
            Opcode::SetIHexSpriteLocation(x) => x < 16,
            Opcode::BinaryCodedDecimal(x) => x < 16,
            Opcode::StoreRegisters(x) => x < 16,
            Opcode::LoadRegisters(x) => x < 16,
            _ => true,
        }
    }
}

/// The high nibble of a byte.
pub open spec fn high_nibble(b: u8) -> u8 {
    b / 16
}

/// The low nibble of a byte.
pub open spec fn low_nibble(b: u8) -> u8 {
    b % 16
}

/// The 12-bit address held by an instruction word: the low nibble of the
/// first byte, followed by the whole second byte.
pub open spec fn address_of(first: u8, second: u8) -> u16 {
    (low_nibble(first) as int * 256 + second as int) as u16
}

/// The instruction that the word `first second` encodes, if any.
///
/// `x` is the low nibble of the first byte, `y` the high nibble of the second
/// byte, `kk` the second byte, `n` its low nibble and `nnn` the 12-bit address.
pub open spec fn decode(first: u8, second: u8) -> Option<Opcode> {
    let family = high_nibble(first);
    let x = low_nibble(first) as usize;
    let y = high_nibble(second) as usize;
    let n = low_nibble(second);
    let nnn = address_of(first, second);
    if first == 0x00 && second == 0xE0 {
        Some(Opcode::ClearScreen)
    } else if first == 0x00 && second == 0xEE {
        Some(Opcode::Return)
    } else if family == 0x0 {
        Some(Opcode::SystemAddr(nnn))
    } else if family == 0x1 {
        Some(Opcode::JumpAddr(nnn))
    } else if family == 0x2 {
        Some(Opcode::CallAddr(nnn))
    } else if family == 0x3 {
        Some(Opcode::SkipRegisterEqualsValue(x, second))
    } else if family == 0x4 {
        Some(Opcode::SkipRegisterNotEqualsValue(x, second))
    } else if family == 0x5 {
        if n == 0x0 {
            Some(Opcode::SkipRegistersEqual(x, y))
        } else {
            None
        }
    } else if family == 0x6 {
        Some(Opcode::LoadValue(x, second))
    } else if family == 0x7 {
        Some(Opcode::AddValue(x, second))
    } else if family == 0x8 {
        if n == 0x0 {
            Some(Opcode::LoadRegisterValue(x, y))
        } else if n == 0x1 {
            Some(Opcode::Or(x, y))
        } else if n == 0x2 {
            Some(Opcode::And(x, y))
        } else if n == 0x3 {
            Some(Opcode::Xor(x, y))
        } else if n == 0x4 {
            Some(Opcode::AddRegisters(x, y))
        } else if n == 0x5 {
            Some(Opcode::SubtractFromFirstRegister(x, y))
        } else if n == 0x6 {
            Some(Opcode::BitShiftRight(x, y))
        } else if n == 0x7 {
            Some(Opcode::SubtractFromSecondRegister(x, y))
        } else if n == 0xE {
            Some(Opcode::BitShiftLeft(x, y))
        } else {
            None
        }
    } else if family == 0x9 {
        if n == 0x0 {
            Some(Opcode::SkipRegistersNotEqual(x, y))
        } else {
            None
        }
    } else if family == 0xA {
        Some(Opcode::LoadRegisterI(nnn))
    } else if family == 0xB {
        Some(Opcode::JumpAddrV0(nnn))
    } else if family == 0xC {
        Some(Opcode::Random(x, second))
    } else if family == 0xD {
        Some(Opcode::Draw(x, y, n))
    } else if family == 0xE {
        if second == 0x9E {
            Some(Opcode::SkipKeyPressed(x))
        } else if second == 0xA1 {
            Some(Opcode::SkipKeyNotPressed(x))
        } else {
            None
        }
    } else {
        if second == 0x07 {
            Some(Opcode::LoadDelayTimer(x))
        } else if second == 0x0A {
            Some(Opcode::LoadKeyPress(x))
        } else if second == 0x15 {
            Some(Opcode::SetDelayTimer(x))
        } else if second == 0x18 {
            Some(Opcode::SetSoundTimer(x))
        } else if second == 0x1E {
            Some(Opcode::AddRegisterI(x))
        } else if second == 0x29 {
            Some(Opcode::SetIHexSpriteLocation(x))
        } else if second == 0x33 {
            Some(Opcode::BinaryCodedDecimal(x))
        } else if second == 0x55 {
            Some(Opcode::StoreRegisters(x))
        } else if second == 0x65 {
            Some(Opcode::LoadRegisters(x))
        } else {
            None
        }
    }
}

/// Every instruction that decodes is well formed.
pub proof fn lemma_decoded_opcode_wf(first: u8, second: u8)
    ensures
        decode(first, second) matches Some(op) ==> op.wf(),
{
}

/// The words that no instruction uses fail to decode: `5xyn` and `9xyn` with
/// `n != 0`, `8xyn` with `n` outside `0..=7` and `E`, `Exkk` other than
/// `Ex9E` and `ExA1`, and `Fxkk` other than the nine listed `Fx` forms.
pub proof fn lemma_unmapped_words_fail(first: u8, second: u8)
    ensures
        (high_nibble(first) == 0x5 || high_nibble(first) == 0x9) && low_nibble(second) != 0
            ==> decode(first, second) is None,
        high_nibble(first) == 0x8 && low_nibble(second) > 0x7 && low_nibble(second) != 0xE
            ==> decode(first, second) is None,
        high_nibble(first) == 0xE && second != 0x9E && second != 0xA1 ==> decode(
            first,
            second,
        ) is None,
        high_nibble(first) == 0xF && second != 0x07 && second != 0x0A && second != 0x15
            && second != 0x18 && second != 0x1E && second != 0x29 && second != 0x33 && second
            != 0x55 && second != 0x65 ==> decode(first, second) is None,
{
}

/// The error of a word that encodes no instruction.
#[derive(PartialEq, Eq, Debug, Clone, Copy)]
pub struct UnrecognizedOpcode {
    pub first_byte: u8,
    pub second_byte: u8,
}

/// The bytes of one instruction word, ready to be decoded.
pub struct OpcodeBytes {
    first_byte: u8,
    second_byte: u8,
    first_nibble: u8,
    last_nibble: u8,
}

impl View for OpcodeBytes {
    /// The two bytes of the word.
    type V = (u8, u8);

    closed spec fn view(&self) -> (u8, u8) {
        (self.first_byte, self.second_byte)
    }
}

/// An ASCII upper-case hexadecimal digit.
pub open spec fn hex_digit(d: u8) -> char {
    if d < 10 {
        ((48 + d) as u8) as char
    } else {
        ((55 + d) as u8) as char
    }
}

/// The four upper-case hexadecimal digits of a word, high nibble first.
pub open spec fn hex_word(first: u8, second: u8) -> Seq<char> {
    seq![
        hex_digit(high_nibble(first)),
        hex_digit(low_nibble(first)),
        hex_digit(high_nibble(second)),
        hex_digit(low_nibble(second)),
    ]
}

/// Relies on `format!` with `{:02X}`: each byte as two upper-case
/// hexadecimal digits, zero padded.
#[verifier::external_body]
fn format_hex_word(first: u8, second: u8) -> (r: String)
    ensures
        r@ == hex_word(first, second),
{
    format!("{:02X}{:02X}", first, second)
}

impl OpcodeBytes {
    #[verifier::type_invariant]
    spec fn nibbles_match(&self) -> bool {
        self.first_nibble == high_nibble(self.first_byte) && self.last_nibble == low_nibble(
            self.second_byte,
        )
    }

    /// Returns the word made of the two bytes of `opcode_bytes`.
    #[must_use]
    pub fn build(opcode_bytes: &[u8]) -> (r: OpcodeBytes)
        requires
            opcode_bytes@.len() == 2,
        ensures
            r@ == (opcode_bytes@[0], opcode_bytes@[1]),
    {
        OpcodeBytes {
            first_byte: opcode_bytes[0],
            second_byte: opcode_bytes[1],
            first_nibble: Self::get_upper_nibble_u8(opcode_bytes[0]),
            last_nibble: Self::get_lower_nibble_u8(opcode_bytes[1]),
        }
    }

    /// Returns the high nibble of `byte`.
    pub fn get_upper_nibble_u8(byte: u8) -> (r: u8)
        ensures
            r == high_nibble(byte),
    {
        assert((byte & 0xF0) >> 4 == byte / 16) by (bit_vector);
        (byte & 0xF0) >> 4
    }

    /// Returns the low nibble of `byte`.
    pub fn get_lower_nibble_u8(byte: u8) -> (r: u8)
        ensures
            r == low_nibble(byte),
    {
        assert(byte & 0xF == byte % 16) by (bit_vector);
        byte & 0xF
    }

    /// Returns the high nibble of `byte` as an index.
    pub fn get_upper_nibble(byte: u8) -> (r: usize)
        ensures
            r == high_nibble(byte),
    {
        Self::get_upper_nibble_u8(byte) as usize
    }

    /// Returns the low nibble of `byte` as an index.
    pub fn get_lower_nibble(byte: u8) -> (r: usize)
        ensures
            r == low_nibble(byte),
    {
        Self::get_lower_nibble_u8(byte) as usize
    }

    /// Returns the first byte of the word.
    pub fn first_byte(&self) -> (r: u8)
        ensures
            r == self@.0,
    {
        self.first_byte
    }

    /// Returns the second byte of the word.
    pub fn second_byte(&self) -> (r: u8)
        ensures
            r == self@.1,
    {
        self.second_byte
    }

    /// Returns the high nibble of the first byte: the instruction family.
    pub fn first_nibble(&self) -> (r: u8)
        ensures
            r == high_nibble(self@.0),
    {
        proof {
            use_type_invariant(self);
        }
        self.first_nibble
    }

    /// Returns the low nibble of the second byte.
    pub fn last_nibble(&self) -> (r: u8)
        ensures
            r == low_nibble(self@.1),
    {
        proof {
            use_type_invariant(self);
        }
        self.last_nibble
    }

    /// Returns the 12-bit address held by the word.
    pub fn get_addr(&self) -> (r: u16)
        ensures
            r == address_of(self@.0, self@.1),
    {
        let low = Self::get_lower_nibble(self.first_byte) as u16;
        assert(low << 8 == low * 256) by (bit_vector)
            requires
                low < 16,
        ;
        (low << 8) + (self.second_byte as u16)
    }

    /// Returns the word as four upper-case hexadecimal digits.
    pub fn to_string(&self) -> (r: String)
        ensures
            r@ == hex_word(self@.0, self@.1),
    {
        format_hex_word(self.first_byte, self.second_byte)
    }

    /// Decodes the word, or reports it as unrecognized where no instruction
    /// has that encoding.
    #[must_use]
    pub fn get_opcode(&self) -> (r: Result<Opcode, UnrecognizedOpcode>)
        ensures
            r == (match decode(self@.0, self@.1) {
                Some(op) => Ok(op),
                None => Err(UnrecognizedOpcode { first_byte: self@.0, second_byte: self@.1 }),
            }),
    {
        proof {
            use_type_invariant(self);
        }
        let x = Self::get_lower_nibble(self.first_byte);
        let y = Self::get_upper_nibble(self.second_byte);
        let kk = self.second_byte;
        let opcode_selection_info = (self.first_nibble, self.last_nibble, self.first_byte, kk);
        let opcode = match opcode_selection_info {
            (_, _, 0x00, 0xE0) => Opcode::ClearScreen,
            (_, _, 0x00, 0xEE) => Opcode::Return,
            (0x0, _, _, _) => Opcode::SystemAddr(self.get_addr()),
            (0x1, _, _, _) => Opcode::JumpAddr(self.get_addr()),
            (0x2, _, _, _) => Opcode::CallAddr(self.get_addr()),
            (0x3, _, _, _) => Opcode::SkipRegisterEqualsValue(x, kk),
            (0x4, _, _, _) => Opcode::SkipRegisterNotEqualsValue(x, kk),
            (0x5, 0x0, _, _) => Opcode::SkipRegistersEqual(x, y),
            (0x6, _, _, _) => Opcode::LoadValue(x, kk),
            (0x7, _, _, _) => Opcode::AddValue(x, kk),
            (0x8, 0x0, _, _) => Opcode::LoadRegisterValue(x, y),
            (0x8, 0x1, _, _) => Opcode::Or(x, y),
            (0x8, 0x2, _, _) => Opcode::And(x, y),
            (0x8, 0x3, _, _) => Opcode::Xor(x, y),
            (0x8, 0x4, _, _) => Opcode::AddRegisters(x, y),
            (0x8, 0x5, _, _) => Opcode::SubtractFromFirstRegister(x, y),
            (0x8, 0x6, _, _) => Opcode::BitShiftRight(x, y),
            (0x8, 0x7, _, _) => Opcode::SubtractFromSecondRegister(x, y),
            (0x8, 0xE, _, _) => Opcode::BitShiftLeft(x, y),
            (0x9, 0x0, _, _) => Opcode::SkipRegistersNotEqual(x, y),
            (0xA, _, _, _) => Opcode::LoadRegisterI(self.get_addr()),
            (0xB, _, _, _) => Opcode::JumpAddrV0(self.get_addr()),
            (0xC, _, _, _) => Opcode::Random(x, kk),
            (0xD, _, _, _) => Opcode::Draw(x, y, Self::get_lower_nibble_u8(kk)),
            (0xE, _, _, 0x9E) => Opcode::SkipKeyPressed(x),
            (0xE, _, _, 0xA1) => Opcode::SkipKeyNotPressed(x),
            (0xF, _, _, 0x07) => Opcode::LoadDelayTimer(x),
            (0xF, _, _, 0x0A) => Opcode::LoadKeyPress(x),
            (0xF, _, _, 0x15) => Opcode::SetDelayTimer(x),
            (0xF, _, _, 0x18) => Opcode::SetSoundTimer(x),
            (0xF, _, _, 0x1E) => Opcode::AddRegisterI(x),
            (0xF, _, _, 0x29) => Opcode::SetIHexSpriteLocation(x),
            (0xF, _, _, 0x33) => Opcode::BinaryCodedDecimal(x),
            (0xF, _, _, 0x55) => Opcode::StoreRegisters(x),
            (0xF, _, _, 0x65) => Opcode::LoadRegisters(x),
            _ => {
                return Err(
                    UnrecognizedOpcode { first_byte: self.first_byte, second_byte: self.second_byte },
                );
            },
        };
        Ok(opcode)
    }
}

} // verus!
