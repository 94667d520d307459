//! A script as samples: each tone cut from the head of a waveform, each
//! pause filled with zeros, every length rounded on its own.

use crate::code::Instruction;
use crate::code::MorseError;
use crate::timing::millis;
use crate::timing::playable;
use crate::timing::sample_count;
use crate::timing::script_millis;
use crate::timing::samples;
use crate::timing::RenderConfig;
use crate::timing::SAMPLE_RATE;
use vstd::prelude::*;

verus! {

/// So many samples of silence.
pub open spec fn silence(count: nat) -> Seq<i16> {
    Seq::new(count, |i: int| 0i16)
}

/// The samples of one instruction. A tone is the waveform from its first
/// sample, as long as the tone lasts: every tone starts the waveform anew.
/// A pause is silence.
pub open spec fn segment(instruction: Instruction, config: RenderConfig, wave: Seq<i16>) -> Seq<
    i16,
>
    recommends
        instruction is Morse ==> samples(instruction, config) <= wave.len(),
{
    match instruction {
        Instruction::Morse(_) => wave.take(samples(instruction, config) as int),
        _ => silence(samples(instruction, config)),
    }
}

/// The samples of a script: those of its instructions, one after another.
pub open spec fn pcm(instructions: Seq<Instruction>, config: RenderConfig, wave: Seq<i16>) -> Seq<
    i16,
>
    decreases instructions.len(),
{
    if instructions.len() == 0 {
        Seq::empty()
    } else {
        pcm(instructions.drop_last(), config, wave) + segment(instructions.last(), config, wave)
    }
}

/// Whether the waveform is long enough for every tone of the script.
pub open spec fn wave_suffices(
    instructions: Seq<Instruction>,
    config: RenderConfig,
    wave_len: nat,
) -> bool {
    forall|i: int|
        0 <= i < instructions.len() && (#[trigger] instructions[i]) is Morse ==> samples(
            instructions[i],
            config,
        ) <= wave_len
}

/// The number of samples of a script: the sum of those of its instructions.
pub open spec fn script_samples(instructions: Seq<Instruction>, config: RenderConfig) -> nat
    decreases instructions.len(),
{
    if instructions.len() == 0 {
        0
    } else {
        script_samples(instructions.drop_last(), config) + samples(instructions.last(), config)
    }
}

/// Every instruction fills exactly its own number of samples, so the
/// stream is as long as their sum.
pub proof fn lemma_pcm_len(instructions: Seq<Instruction>, config: RenderConfig, wave: Seq<i16>)
    requires
        wave_suffices(instructions, config, wave.len()),
    ensures
        pcm(instructions, config, wave).len() == script_samples(instructions, config),
    decreases instructions.len(),
{
    if instructions.len() > 0 {
        let shorter = instructions.drop_last();
        assert forall|i: int| 0 <= i < shorter.len() && (#[trigger] shorter[i]) is Morse implies samples(
            shorter[i],
            config,
        ) <= wave.len() by {
            assert(shorter[i] == instructions[i]);
        }
        lemma_pcm_len(shorter, config, wave);
        assert(instructions.last() == instructions[instructions.len() - 1]);
    }
}

/// Rounding does not add up: the stream differs from the exact length of
/// the script, 44100 samples to the second, by at most half a sample for
/// each instruction.
pub proof fn lemma_no_drift(instructions: Seq<Instruction>, config: RenderConfig)
    ensures
        SAMPLE_RATE * script_millis(instructions, config) - 500 * instructions.len() <= 1000
            * script_samples(instructions, config) <= SAMPLE_RATE * script_millis(
            instructions,
            config,
        ) + 500 * instructions.len(),
    decreases instructions.len(),
{
    if instructions.len() > 0 {
        lemma_no_drift(instructions.drop_last(), config);
        let length = millis(instructions.last(), config);
        assert(SAMPLE_RATE * length - 500 <= 1000 * sample_count(length) <= SAMPLE_RATE * length
            + 500);
    }
}

/// A script holds at least as many samples as any of its beginnings.
pub proof fn lemma_script_samples_grow(
    instructions: Seq<Instruction>,
    config: RenderConfig,
    upto: int,
)
    requires
        0 <= upto <= instructions.len(),
    ensures
        script_samples(instructions.take(upto), config) <= script_samples(instructions, config),
    decreases instructions.len() - upto,
{
    if upto < instructions.len() {
        let longer = instructions.take(upto + 1);
        assert(longer.drop_last() == instructions.take(upto));
        lemma_script_samples_grow(instructions, config, upto + 1);
    } else {
        assert(instructions.take(upto) == instructions);
    }
}

/// Tells how long the waveform must be for a script: as long as its
/// longest tone, and no longer.
pub fn wave_len_needed(instructions: &Vec<Instruction>, config: &RenderConfig) -> (needed: u64)
    requires
        playable(instructions@),
    ensures
        forall|wave_len: nat|
            wave_suffices(instructions@, *config, wave_len) <==> needed <= wave_len,
{
    let mut needed: u64 = 0;
    let mut i: usize = 0;
    while i < instructions.len()
        invariant
            i <= instructions.len(),
            playable(instructions@),
            wave_suffices(instructions@.take(i as int), *config, needed as nat),
            needed == 0 || exists|k: int|
                0 <= k < i && (#[trigger] instructions@[k]) is Morse && samples(
                    instructions@[k],
                    *config,
                ) == needed,
        decreases instructions.len() - i,
    {
        let instruction = instructions[i];
        let ghost before = needed;
        match instruction {
            Instruction::Morse(_) => {
                let count: u64 = config.samples(instruction);
                if count > needed {
                    needed = count;
                }
            },
            _ => {},
        }
        proof {
            let shorter = instructions@.take(i as int);
            let longer = instructions@.take(i + 1);
            assert forall|k: int| 0 <= k < longer.len() && (#[trigger] longer[k]) is Morse implies samples(
                longer[k],
                *config,
            ) <= needed by {
                if k < i {
                    assert(shorter[k] == longer[k]);
                }
            }
            if needed != 0 && needed == before {
                let k = choose|k: int|
                    0 <= k < i && (#[trigger] instructions@[k]) is Morse && samples(
                        instructions@[k],
                        *config,
                    ) == needed;
                assert(0 <= k < i + 1);
            }
        }
        i = i + 1;
    }
    proof {
        assert(instructions@.take(i as int) == instructions@);
        assert forall|wave_len: nat|
            wave_suffices(instructions@, *config, wave_len) <==> needed <= wave_len by {
            if needed <= wave_len {
                assert(wave_suffices(instructions@, *config, wave_len));
            }
            if wave_suffices(instructions@, *config, wave_len) && needed != 0 {
                let k = choose|k: int|
                    0 <= k < i && (#[trigger] instructions@[k]) is Morse && samples(
                        instructions@[k],
                        *config,
                    ) == needed;
                assert(samples(instructions@[k], *config) <= wave_len);
            }
        }
    }
    needed
}

/// Appends `count` samples of silence.
pub fn push_silence(out: &mut Vec<i16>, count: u64)
    ensures
        final(out)@ == old(out)@ + silence(count as nat),
{
    let ghost start = out@;
    let mut done: u64 = 0;
    while done < count
        invariant
            done <= count,
            out@ == start + silence(done as nat),
        decreases count - done,
    {
        out.push(0i16);
        done = done + 1;
        assert(out@ == start + silence(done as nat));
    }
}

/// Appends the first `count` samples of the waveform.
pub fn push_tone(out: &mut Vec<i16>, wave: &Vec<i16>, count: usize)
    requires
        count <= wave@.len(),
    ensures
        final(out)@ == old(out)@ + wave@.take(count as int),
{
    let ghost start = out@;
    let mut done: usize = 0;
    while done < count
        invariant
            done <= count <= wave@.len(),
            out@ == start + wave@.take(done as int),
        decreases count - done,
    {
        out.push(wave[done]);
        done = done + 1;
        assert(out@ == start + wave@.take(done as int));
    }
}

/// Lays a script out as the samples of a 44.1 kHz stream.
///
/// `wave` holds the tone, from its first sample on. Each tone of the script
/// is cut from the head of `wave`, one unit long for a dot and three for a
/// dash, and each pause is filled with zeros. The number of samples of an
/// instruction is rounded from its own length. Where a tone is longer than
/// `wave`, there is no stream.
pub fn render_pcm(instructions: &Vec<Instruction>, config: &RenderConfig, wave: &Vec<i16>) -> (r:
    Result<Vec<i16>, MorseError>)
    requires
        playable(instructions@),
    ensures
        r is Ok <==> wave_suffices(instructions@, *config, wave@.len()),
        match r {
            Ok(stream) => stream@ == pcm(instructions@, *config, wave@),
            Err(e) => e == MorseError::WaveTooShort,
        },
{
    let mut stream: Vec<i16> = Vec::new();
    let mut i: usize = 0;
    while i < instructions.len()
        invariant
            i <= instructions.len(),
            playable(instructions@),
            wave_suffices(instructions@.take(i as int), *config, wave@.len()),
            stream@ == pcm(instructions@.take(i as int), *config, wave@),
        decreases instructions.len() - i,
    {
        let instruction = instructions[i];
        let count: u64 = config.samples(instruction);
        let ghost longer = instructions@.take(i + 1);
        proof {
            assert(longer.drop_last() == instructions@.take(i as int));
            assert(longer.last() == instruction);
        }
        match instruction {
            Instruction::Morse(_) => {
                if count > wave.len() as u64 {
                    return Err(MorseError::WaveTooShort);
                }
                push_tone(&mut stream, wave, count as usize);
            },
            _ => {
                push_silence(&mut stream, count);
            },
        }
        proof {
            assert forall|k: int| 0 <= k < longer.len() && (#[trigger] longer[k]) is Morse implies samples(
                longer[k],
                *config,
            ) <= wave@.len() by {
                if k < i {
                    assert(instructions@.take(i as int)[k] == longer[k]);
                }
            }
        }
        i = i + 1;
    }
    proof {
        assert(instructions@.take(i as int) == instructions@);
    }
    Ok(stream)
}

} // verus!
