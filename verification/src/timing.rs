//! How long each instruction lasts: in units, in milliseconds, and in
//! samples of a 44.1 kHz stream.

use crate::code::Instruction;
use crate::code::MorseCode;
use vstd::prelude::*;

verus! {

/// Samples per second of every stream the library lays out.
pub const SAMPLE_RATE: u32 = 44100;

/// The one setting that times a script: the length of a dot, in whole
/// milliseconds. A dash and a letter space last three units, a symbol space
/// one. A length between two milliseconds has to be rounded before it gets
/// here, and every count of samples is that of the rounded length.
#[derive(Clone, Copy, Debug, PartialEq, Eq, Structural)]
pub struct RenderConfig {
    /// The unit, in milliseconds.
    pub unit_millis: u32,
}

/// Whether a script can be timed and played: it holds no word space.
pub open spec fn playable(instructions: Seq<Instruction>) -> bool {
    forall|i: int|
        0 <= i < instructions.len() ==> #[trigger] instructions[i] != Instruction::WordSpace
}

/// The length of an instruction in units. A word space has none.
pub open spec fn units(instruction: Instruction) -> nat
    recommends
        instruction != Instruction::WordSpace,
{
    match instruction {
        Instruction::Morse(MorseCode::Dit) => 1,
        Instruction::Morse(MorseCode::Dah) => 3,
        Instruction::SymbolSpace => 1,
        Instruction::LetterSpace => 3,
        Instruction::WordSpace => 0,
    }
}

/// The length of an instruction in milliseconds.
pub open spec fn millis(instruction: Instruction, config: RenderConfig) -> nat {
    units(instruction) * config.unit_millis as nat
}

/// The number of samples that fill `millis` milliseconds: 44100 times the
/// length in seconds, rounded to the nearest whole number, a half upwards.
pub open spec fn sample_count(millis: nat) -> nat {
    (SAMPLE_RATE as nat * millis + 500) / 1000
}

/// The number of samples of an instruction, rounded from its own length
/// alone.
pub open spec fn samples(instruction: Instruction, config: RenderConfig) -> nat {
    sample_count(millis(instruction, config))
}

/// The length of a script in units.
pub open spec fn script_units(instructions: Seq<Instruction>) -> nat
    decreases instructions.len(),
{
    if instructions.len() == 0 {
        0
    } else {
        script_units(instructions.drop_last()) + units(instructions.last())
    }
}

/// The length of a script in milliseconds.
pub open spec fn script_millis(instructions: Seq<Instruction>, config: RenderConfig) -> nat
    decreases instructions.len(),
{
    if instructions.len() == 0 {
        0
    } else {
        script_millis(instructions.drop_last(), config) + millis(instructions.last(), config)
    }
}

/// A script lasts its units, each as long as the configuration says: no
/// instruction has a length of its own.
pub proof fn lemma_script_millis(instructions: Seq<Instruction>, config: RenderConfig)
    ensures
        script_millis(instructions, config) == script_units(instructions)
            * config.unit_millis as nat,
    decreases instructions.len(),
{
    let unit = config.unit_millis as nat;
    if instructions.len() == 0 {
        assert(0 * unit == 0);
    } else {
        let shorter = instructions.drop_last();
        let n = units(instructions.last());
        lemma_script_millis(shorter, config);
        assert((script_units(shorter) + n) * unit == script_units(shorter) * unit + n * unit)
            by (nonlinear_arith);
    }
}

/// A dash has three times the samples of a dot where a dot is a whole
/// number of samples long, as with any unit of whole hundredths of a
/// second. With any other unit the two roundings differ by one sample at
/// most.
pub proof fn lemma_dash_samples(config: RenderConfig)
    ensures
        config.unit_millis % 10 == 0 ==> samples(Instruction::Morse(MorseCode::Dah), config) == 3
            * samples(Instruction::Morse(MorseCode::Dit), config),
        3 * samples(Instruction::Morse(MorseCode::Dit), config) - 1 <= samples(
            Instruction::Morse(MorseCode::Dah),
            config,
        ) <= 3 * samples(Instruction::Morse(MorseCode::Dit), config) + 1,
{
}

/// Tells whether a script can be timed and played.
pub fn is_playable(instructions: &Vec<Instruction>) -> (b: bool)
    ensures
        b == playable(instructions@),
{
    let mut i: usize = 0;
    while i < instructions.len()
        invariant
            i <= instructions.len(),
            playable(instructions@.take(i as int)),
        decreases instructions.len() - i,
    {
        if instructions[i] == Instruction::WordSpace {
            return false;
        }
        proof {
            let longer = instructions@.take(i + 1);
            assert forall|k: int| 0 <= k < longer.len() implies #[trigger] longer[k]
                != Instruction::WordSpace by {
                if k < i {
                    assert(instructions@.take(i as int)[k] == longer[k]);
                }
            }
        }
        i = i + 1;
    }
    proof {
        assert(instructions@.take(i as int) == instructions@);
    }
    true
}

impl RenderConfig {
    /// A configuration whose unit is `unit_millis` milliseconds.
    pub fn new(unit_millis: u32) -> (config: RenderConfig)
        ensures
            config.unit_millis == unit_millis,
    {
        RenderConfig { unit_millis }
    }

    /// The length of `instruction` in milliseconds.
    pub fn millis(&self, instruction: Instruction) -> (r: u64)
        requires
            instruction != Instruction::WordSpace,
        ensures
            r == millis(instruction, *self),
    {
        let unit: u64 = self.unit_millis as u64;
        match instruction {
            Instruction::Morse(MorseCode::Dit) | Instruction::SymbolSpace => unit,
            _ => 3 * unit,
        }
    }

    /// The number of samples of `instruction` in a 44.1 kHz stream.
    pub fn samples(&self, instruction: Instruction) -> (r: u64)
        requires
            instruction != Instruction::WordSpace,
        ensures
            r == samples(instruction, *self),
    {
        let length: u64 = self.millis(instruction);
        (SAMPLE_RATE as u64 * length + 500) / 1000
    }
}

impl Default for RenderConfig {
    /// A unit of three tenths of a second.
    fn default() -> (config: RenderConfig)
        ensures
            config.unit_millis == 300,
    {
        RenderConfig { unit_millis: 300 }
    }
}

} // verus!
