//! The symbols of Morse code, the instructions of a script, and the errors
//! of the library.

use vstd::prelude::*;
use vstd::std_specs::convert::FromSpecImpl;
use vstd::std_specs::convert::TryFromSpecImpl;

verus! {

/// One Morse code point: the long tone or the short one.
#[derive(Clone, Copy, Debug, PartialEq, Eq, Structural)]
pub enum MorseCode {
    /// The dash, three units long.
    Dah,
    /// The dot, one unit long.
    Dit,
}

/// One step of a script. A script holds no times: it is the order of play.
#[derive(Clone, Copy, Debug, PartialEq, Eq, Structural)]
pub enum Instruction {
    /// Sound the tone of a symbol.
    Morse(MorseCode),
    /// The silence between two symbols of one letter, one unit long.
    SymbolSpace,
    /// The silence between two letters, three units long.
    LetterSpace,
    /// The silence between two words. No script made from a text holds it,
    /// and it has no length.
    WordSpace,
}

/// Why the library gave no result.
#[derive(Clone, Copy, Debug, PartialEq, Eq, Structural)]
pub enum MorseError {
    /// The text holds a character that is neither `.`, `-` nor the space
    /// between letters. `position` counts characters from 0.
    InvalidSymbol { symbol: char, position: usize },
    /// A tone asks for more samples than the waveform holds.
    WaveTooShort,
    /// The samples take more bytes than the length fields of a WAV stream
    /// can count.
    AudioTooLong,
    /// The WAV encoder reported a failure. `wav_outcome` answers every
    /// failure of the encoder with it; the encoder reports none on what
    /// `encode_wav` hands it.
    FileWriteError,
}

/// Whether `c` is one of the two characters that stand for a symbol.
pub open spec fn is_symbol(c: char) -> bool {
    c == '.' || c == '-'
}

/// The symbol that `c` stands for, where `is_symbol(c)`.
pub open spec fn symbol_of(c: char) -> MorseCode {
    if c == '-' {
        MorseCode::Dah
    } else {
        MorseCode::Dit
    }
}

impl TryFrom<char> for MorseCode {
    type Error = MorseError;

    /// Reads one character as a symbol: `.` is the dot, `-` the dash. Any
    /// other character is refused and handed back in the error, at
    /// position 0 of the one-character text it was read from.
    fn try_from(value: char) -> (r: Result<MorseCode, MorseError>) {
        if value == '-' {
            Ok(MorseCode::Dah)
        } else if value == '.' {
            Ok(MorseCode::Dit)
        } else {
            Err(MorseError::InvalidSymbol { symbol: value, position: 0 })
        }
    }
}

impl TryFromSpecImpl<char> for MorseCode {
    open spec fn obeys_try_from_spec() -> bool {
        true
    }

    open spec fn try_from_spec(value: char) -> Result<MorseCode, MorseError> {
        if is_symbol(value) {
            Ok(symbol_of(value))
        } else {
            Err(MorseError::InvalidSymbol { symbol: value, position: 0 })
        }
    }
}

impl From<MorseCode> for Instruction {
    /// The instruction that sounds `value`.
    fn from(value: MorseCode) -> (r: Instruction) {
        Instruction::Morse(value)
    }
}

impl FromSpecImpl<MorseCode> for Instruction {
    open spec fn obeys_from_spec() -> bool {
        true
    }

    open spec fn from_spec(value: MorseCode) -> Instruction {
        Instruction::Morse(value)
    }
}

} // verus!
