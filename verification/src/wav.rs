//! Samples framed as a WAV stream: mono, 16 bits, 44.1 kHz. The bytes are
//! written by the `hound` crate into memory; what they hold is stated here.

use crate::code::Instruction;
use crate::code::MorseError;
use crate::pcm::lemma_pcm_len;
use crate::pcm::lemma_script_samples_grow;
use crate::pcm::pcm;
use crate::pcm::render_pcm;
use crate::pcm::script_samples;
use crate::pcm::wave_suffices;
use crate::sequencer::is_text;
use crate::sequencer::lemma_script_has_no_word_space;
use crate::sequencer::letters;
use crate::sequencer::names_first_invalid;
use crate::sequencer::parse_morse_code;
use crate::sequencer::script;
use crate::timing::playable;
use crate::timing::RenderConfig;
use crate::timing::SAMPLE_RATE;
use vstd::prelude::*;

verus! {

/// The error type of `hound`. Nothing is known of a value of it.
#[verifier::external_type_specification]
#[verifier::external_body]
pub struct ExHoundError(hound::Error);

/// Channels of every stream the library frames.
pub const CHANNELS: u16 = 1;

/// Bits of one sample.
pub const BITS_PER_SAMPLE: u16 = 16;

/// Bytes before the first sample.
pub const HEADER_LEN: usize = 44;

/// Two bytes, the low one first.
pub open spec fn le16(value: nat) -> Seq<u8> {
    seq![(value % 256) as u8, (value / 256 % 256) as u8]
}

/// Four bytes, the lowest first.
pub open spec fn le32(value: nat) -> Seq<u8> {
    seq![
        (value % 256) as u8,
        (value / 256 % 256) as u8,
        (value / 65536 % 256) as u8,
        (value / 16777216 % 256) as u8,
    ]
}

/// The two bytes of a sample: its value in two's complement, the low byte
/// first.
pub open spec fn sample_bytes(sample: i16) -> Seq<u8> {
    if sample >= 0 {
        le16(sample as nat)
    } else {
        le16((sample + 65536) as nat)
    }
}

/// The bytes of the samples, one sample after another.
pub open spec fn data_bytes(samples: Seq<i16>) -> Seq<u8>
    decreases samples.len(),
{
    if samples.len() == 0 {
        Seq::empty()
    } else {
        data_bytes(samples.drop_last()) + sample_bytes(samples.last())
    }
}

/// The 44 bytes before the samples of a 16-bit PCM stream of `data_len`
/// bytes of samples: the RIFF chunk with the length of all that follows it,
/// the form WAVE, the format chunk of 16 bytes (PCM, the channels, the
/// sample rate, the bytes per second, the bytes per frame, the bits per
/// sample), and the head of the data chunk with its length.
pub open spec fn wav_header(channels: u16, sample_rate: u32, data_len: nat) -> Seq<u8> {
    seq![0x52u8, 0x49u8, 0x46u8, 0x46u8] + le32(36 + data_len)
        + seq![0x57u8, 0x41u8, 0x56u8, 0x45u8]
        + seq![0x66u8, 0x6du8, 0x74u8, 0x20u8] + le32(16) + le16(1) + le16(channels as nat)
        + le32(sample_rate as nat) + le32(sample_rate as nat * 2 * channels as nat) + le16(
        2 * channels as nat,
    ) + le16(16) + seq![0x64u8, 0x61u8, 0x74u8, 0x61u8] + le32(data_len)
}

/// A whole stream: the header, then the samples.
pub open spec fn wav_layout(channels: u16, sample_rate: u32, samples: Seq<i16>) -> Seq<u8> {
    wav_header(channels, sample_rate, 2 * samples.len()) + data_bytes(samples)
}

/// The stream of the library: mono, 44.1 kHz.
pub open spec fn wav_stream(samples: Seq<i16>) -> Seq<u8> {
    wav_layout(CHANNELS, SAMPLE_RATE, samples)
}

/// Whether so many samples fit a stream: its length fields are 32 bits
/// wide, and the first of them counts 36 bytes of header besides.
pub open spec fn fits_wav(sample_count: nat) -> bool {
    2 * sample_count + 36 <= u32::MAX
}

/// The number that two bytes at `at` give, the low byte first.
pub open spec fn u16_at(bytes: Seq<u8>, at: int) -> nat {
    bytes[at] as nat + 256 * bytes[at + 1] as nat
}

/// The number that four bytes at `at` give, the lowest first.
pub open spec fn u32_at(bytes: Seq<u8>, at: int) -> nat {
    bytes[at] as nat + 256 * bytes[at + 1] as nat + 65536 * bytes[at + 2] as nat + 16777216
        * bytes[at + 3] as nat
}

/// The sample that a stream holds at place `index`, counted from 0.
pub open spec fn sample_at(bytes: Seq<u8>, index: int) -> int {
    let raw = u16_at(bytes, HEADER_LEN + 2 * index);
    if raw < 32768 {
        raw as int
    } else {
        raw - 65536
    }
}

/// Each sample takes two bytes.
pub proof fn lemma_data_bytes_len(samples: Seq<i16>)
    ensures
        data_bytes(samples).len() == 2 * samples.len(),
    decreases samples.len(),
{
    if samples.len() > 0 {
        lemma_data_bytes_len(samples.drop_last());
    }
}

/// The bytes of sample `index` stand at twice its index, and give the
/// sample back.
pub proof fn lemma_data_bytes_at(samples: Seq<i16>, index: int)
    requires
        0 <= index < samples.len(),
    ensures
        data_bytes(samples).len() == 2 * samples.len(),
        data_bytes(samples).subrange(2 * index, 2 * index + 2) == sample_bytes(samples[index]),
    decreases samples.len(),
{
    let shorter = samples.drop_last();
    lemma_data_bytes_len(samples);
    lemma_data_bytes_len(shorter);
    if index < samples.len() - 1 {
        lemma_data_bytes_at(shorter, index);
        assert(data_bytes(samples).subrange(2 * index, 2 * index + 2) == data_bytes(
            shorter,
        ).subrange(2 * index, 2 * index + 2));
    } else {
        assert(data_bytes(samples).subrange(2 * index, 2 * index + 2) == sample_bytes(
            samples.last(),
        ));
    }
}

/// The header is 44 bytes long and declares what the stream is: PCM, the
/// channels, the sample rate, the bytes per second and per frame, 16 bits
/// per sample, and the two lengths.
pub proof fn lemma_wav_header_fields(channels: u16, sample_rate: u32, data_len: nat)
    requires
        1 <= channels <= 2,
        sample_rate * 2 * channels <= u32::MAX,
        data_len + 36 <= u32::MAX,
    ensures
        ({
            let header = wav_header(channels, sample_rate, data_len);
            &&& header.len() == HEADER_LEN
            &&& header.subrange(0, 4) == seq![0x52u8, 0x49u8, 0x46u8, 0x46u8]
            &&& u32_at(header, 4) == 36 + data_len
            &&& header.subrange(8, 12) == seq![0x57u8, 0x41u8, 0x56u8, 0x45u8]
            &&& header.subrange(12, 16) == seq![0x66u8, 0x6du8, 0x74u8, 0x20u8]
            &&& u32_at(header, 16) == 16
            &&& u16_at(header, 20) == 1
            &&& u16_at(header, 22) == channels
            &&& u32_at(header, 24) == sample_rate
            &&& u32_at(header, 28) == sample_rate * 2 * channels
            &&& u16_at(header, 32) == 2 * channels
            &&& u16_at(header, 34) == 16
            &&& header.subrange(36, 40) == seq![0x64u8, 0x61u8, 0x74u8, 0x61u8]
            &&& u32_at(header, 40) == data_len
        }),
{
    let header = wav_header(channels, sample_rate, data_len);
    let byte_rate = sample_rate as nat * 2 * channels as nat;
    let flat = seq![
        0x52u8,
        0x49u8,
        0x46u8,
        0x46u8,
        le32(36 + data_len)[0],
        le32(36 + data_len)[1],
        le32(36 + data_len)[2],
        le32(36 + data_len)[3],
        0x57u8,
        0x41u8,
        0x56u8,
        0x45u8,
        0x66u8,
        0x6du8,
        0x74u8,
        0x20u8,
        le32(16)[0],
        le32(16)[1],
        le32(16)[2],
        le32(16)[3],
        le16(1)[0],
        le16(1)[1],
        le16(channels as nat)[0],
        le16(channels as nat)[1],
        le32(sample_rate as nat)[0],
        le32(sample_rate as nat)[1],
        le32(sample_rate as nat)[2],
        le32(sample_rate as nat)[3],
        le32(byte_rate)[0],
        le32(byte_rate)[1],
        le32(byte_rate)[2],
        le32(byte_rate)[3],
        le16(2 * channels as nat)[0],
        le16(2 * channels as nat)[1],
        le16(16)[0],
        le16(16)[1],
        0x64u8,
        0x61u8,
        0x74u8,
        0x61u8,
        le32(data_len)[0],
        le32(data_len)[1],
        le32(data_len)[2],
        le32(data_len)[3],
    ];
    assert(header =~= flat);
    lemma_le32_value((36 + data_len) as nat);
    lemma_le32_value(16);
    lemma_le32_value(sample_rate as nat);
    lemma_le32_value(byte_rate);
    lemma_le32_value(data_len);
    lemma_le16_value(1);
    lemma_le16_value(channels as nat);
    lemma_le16_value(2 * channels as nat);
    lemma_le16_value(16);
    assert(header.subrange(0, 4) =~= seq![0x52u8, 0x49u8, 0x46u8, 0x46u8]);
    assert(header.subrange(8, 12) =~= seq![0x57u8, 0x41u8, 0x56u8, 0x45u8]);
    assert(header.subrange(12, 16) =~= seq![0x66u8, 0x6du8, 0x74u8, 0x20u8]);
    assert(header.subrange(36, 40) =~= seq![0x64u8, 0x61u8, 0x74u8, 0x61u8]);
}

/// Two bytes written the low one first give their number back.
pub proof fn lemma_le16_value(value: nat)
    requires
        value <= u16::MAX,
    ensures
        le16(value).len() == 2,
        u16_at(le16(value), 0) == value,
{
}

/// Four bytes written the lowest first give their number back.
pub proof fn lemma_le32_value(value: nat)
    requires
        value <= u32::MAX,
    ensures
        le32(value).len() == 4,
        u32_at(le32(value), 0) == value,
{
}

/// The number at a place in the first of two joined rows of bytes is the
/// number at that place in the first alone.
proof fn lemma_numbers_in_prefix(head: Seq<u8>, tail: Seq<u8>, at: int)
    requires
        0 <= at,
        at + 4 <= head.len(),
    ensures
        u16_at(head + tail, at) == u16_at(head, at),
        u16_at(head + tail, at + 2) == u16_at(head, at + 2),
        u32_at(head + tail, at) == u32_at(head, at),
{
    let joined = head + tail;
    assert(joined[at] == head[at]);
    assert(joined[at + 1] == head[at + 1]);
    assert(joined[at + 2] == head[at + 2]);
    assert(joined[at + 3] == head[at + 3]);
}

/// The two bytes of a sample give the sample back.
proof fn lemma_sample_bytes_value(sample: i16)
    ensures
        sample_bytes(sample).len() == 2,
        sample >= 0 ==> u16_at(sample_bytes(sample), 0) == sample,
        sample < 0 ==> u16_at(sample_bytes(sample), 0) == sample + 65536,
{
    if sample >= 0 {
        lemma_le16_value(sample as nat);
    } else {
        lemma_le16_value((sample + 65536) as nat);
    }
}

/// Every sample can be read back from its place in the stream.
pub proof fn lemma_wav_stream_sample(samples: Seq<i16>, index: int)
    requires
        0 <= index < samples.len(),
    ensures
        sample_at(wav_stream(samples), index) == samples[index],
{
    let header = wav_header(CHANNELS, SAMPLE_RATE, 2 * samples.len());
    let data = data_bytes(samples);
    let bytes = wav_stream(samples);
    let pair = data.subrange(2 * index, 2 * index + 2);
    lemma_wav_header_len(CHANNELS, SAMPLE_RATE, 2 * samples.len());
    lemma_data_bytes_at(samples, index);
    lemma_sample_bytes_value(samples[index]);
    assert(bytes == header + data);
    assert(bytes[44 + 2 * index] == data[2 * index]);
    assert(bytes[44 + 2 * index + 1] == data[2 * index + 1]);
    assert(pair[0] == data[2 * index]);
    assert(pair[1] == data[2 * index + 1]);
    assert(u16_at(bytes, 44 + 2 * index) == u16_at(pair, 0));
}

/// A header is 44 bytes long.
pub proof fn lemma_wav_header_len(channels: u16, sample_rate: u32, data_len: nat)
    ensures
        wav_header(channels, sample_rate, data_len).len() == HEADER_LEN,
{
}

/// What a stream of the library declares of itself: one channel, 44100
/// samples a second, 16 bits a sample, and a data chunk of two bytes for
/// each sample.
pub proof fn lemma_wav_stream(samples: Seq<i16>)
    requires
        fits_wav(samples.len()),
    ensures
        ({
            let bytes = wav_stream(samples);
            &&& bytes.len() == HEADER_LEN + 2 * samples.len()
            &&& u32_at(bytes, 4) == bytes.len() - 8
            &&& u16_at(bytes, 20) == 1
            &&& u16_at(bytes, 22) == 1
            &&& u32_at(bytes, 24) == 44100
            &&& u32_at(bytes, 28) == 88200
            &&& u16_at(bytes, 32) == 2
            &&& u16_at(bytes, 34) == 16
            &&& u32_at(bytes, 40) == 2 * samples.len()
        }),
{
    let data_len: nat = 2 * samples.len();
    let header = wav_header(CHANNELS, SAMPLE_RATE, data_len);
    let data = data_bytes(samples);
    lemma_wav_header_fields(CHANNELS, SAMPLE_RATE, data_len);
    lemma_data_bytes_len(samples);
    assert(wav_stream(samples) == header + data);
    lemma_numbers_in_prefix(header, data, 4);
    lemma_numbers_in_prefix(header, data, 20);
    lemma_numbers_in_prefix(header, data, 24);
    lemma_numbers_in_prefix(header, data, 28);
    lemma_numbers_in_prefix(header, data, 32);
    lemma_numbers_in_prefix(header, data, 40);
}

/// Rendering is repeatable: two renderings of the same script,
/// configuration and waveform both give a stream or both fail, two streams
/// are the same byte for byte, and two failures are the same error.
pub proof fn lemma_render_repeats(
    instructions: Seq<Instruction>,
    config: RenderConfig,
    wave: Seq<i16>,
    first: Result<Vec<u8>, MorseError>,
    second: Result<Vec<u8>, MorseError>,
)
    requires
        rendered(instructions, config, wave, first),
        rendered(instructions, config, wave, second),
    ensures
        match (first, second) {
            (Ok(one), Ok(other)) => one@ == other@,
            (Err(one), Err(other)) => one == other,
            _ => false,
        },
{
}

/// Writes the samples through `hound::WavWriter`, made with
/// `WavWriter::new` over a cursor in memory for integer samples of the
/// given channels, rate and width, fed with `write_sample` and closed with
/// `finalize`, and hands back what the cursor then holds.
///
/// Claimed of hound and not proved. Where all three calls succeed, the
/// bytes are the header of the older, 16-byte format chunk and the samples
/// after it, as `wav_layout` says. They do succeed where the samples fill
/// whole frames: `new` refuses no width of 16 bits, a 16-bit sample is
/// always written, `finalize` refuses only a last frame that lacks a
/// channel, and a cursor over a vector reports no failure of its own. The
/// conditions keep the calls within the header that hound writes for up to
/// two channels of 16 bits, and its 32-bit counts of bytes from running
/// over.
#[verifier::external_body]
fn hound_write(channels: u16, sample_rate: u32, bits_per_sample: u16, samples: &Vec<i16>) -> (r:
    Result<Vec<u8>, hound::Error>)
    requires
        1 <= channels <= 2,
        bits_per_sample == 16,
        sample_rate >= 1,
        sample_rate * 2 * channels <= u32::MAX,
        2 * samples@.len() + 36 <= u32::MAX,
    ensures
        samples@.len() % (channels as nat) == 0 ==> r is Ok,
        r matches Ok(bytes) ==> bytes@ == wav_layout(channels, sample_rate, samples@),
{
    let sample_format = hound::SampleFormat::Int;
    let spec = hound::WavSpec { channels, sample_rate, bits_per_sample, sample_format };
    let mut out = std::io::Cursor::new(Vec::new());
    let mut writer = hound::WavWriter::new(&mut out, spec)?;
    for sample in samples.iter() {
        writer.write_sample(*sample)?;
    }
    writer.finalize()?;
    Ok(out.into_inner())
}

/// What the library makes of the encoder's answer: the bytes as they are,
/// or `FileWriteError` for any failure.
pub fn wav_outcome(encoded: Result<Vec<u8>, hound::Error>) -> (r: Result<Vec<u8>, MorseError>)
    ensures
        match encoded {
            Ok(bytes) => r == Ok::<Vec<u8>, MorseError>(bytes),
            Err(_) => r == Err::<Vec<u8>, MorseError>(MorseError::FileWriteError),
        },
{
    match encoded {
        Ok(bytes) => Ok(bytes),
        Err(_) => Err(MorseError::FileWriteError),
    }
}

/// Tells whether so many samples fit a stream.
pub fn sample_count_fits(sample_count: usize) -> (b: bool)
    ensures
        b == fits_wav(sample_count as nat),
{
    sample_count <= 2147483629
}

/// Frames samples as a mono 16-bit WAV stream at 44.1 kHz.
///
/// There is a stream for every row of samples that the length fields can
/// count, and `AudioTooLong` for every other.
pub fn encode_wav(samples: &Vec<i16>) -> (r: Result<Vec<u8>, MorseError>)
    ensures
        r is Ok <==> fits_wav(samples@.len()),
        match r {
            Ok(bytes) => bytes@ == wav_stream(samples@),
            Err(e) => e == MorseError::AudioTooLong,
        },
{
    if !sample_count_fits(samples.len()) {
        return Err(MorseError::AudioTooLong);
    }
    wav_outcome(hound_write(CHANNELS, SAMPLE_RATE, BITS_PER_SAMPLE, samples))
}

/// Tells whether the samples of a script fit a stream, without making
/// them.
pub fn script_fits(instructions: &Vec<Instruction>, config: &RenderConfig) -> (b: bool)
    requires
        playable(instructions@),
    ensures
        b == fits_wav(script_samples(instructions@, *config)),
{
    let mut total: u64 = 0;
    let mut i: usize = 0;
    while i < instructions.len()
        invariant
            i <= instructions.len(),
            playable(instructions@),
            total == script_samples(instructions@.take(i as int), *config),
            fits_wav(total as nat),
        decreases instructions.len() - i,
    {
        let count: u64 = config.samples(instructions[i]);
        proof {
            let longer = instructions@.take(i + 1);
            assert(longer.drop_last() == instructions@.take(i as int));
            assert(longer.last() == instructions@[i as int]);
            lemma_script_samples_grow(instructions@, *config, i + 1);
        }
        if count > 2147483629 || total + count > 2147483629 {
            return false;
        }
        total = total + count;
        i = i + 1;
    }
    proof {
        assert(instructions@.take(i as int) == instructions@);
    }
    true
}

/// What `render_audio` answers for a script, a configuration and a
/// waveform: the stream, where its samples can be counted and the waveform
/// covers its tones, and else the first of the two that fails.
pub open spec fn rendered(
    instructions: Seq<Instruction>,
    config: RenderConfig,
    wave: Seq<i16>,
    r: Result<Vec<u8>, MorseError>,
) -> bool {
    if !fits_wav(script_samples(instructions, config)) {
        r == Err::<Vec<u8>, MorseError>(MorseError::AudioTooLong)
    } else if !wave_suffices(instructions, config, wave.len()) {
        r == Err::<Vec<u8>, MorseError>(MorseError::WaveTooShort)
    } else {
        r is Ok && r->Ok_0@ == wav_stream(pcm(instructions, config, wave))
    }
}

/// Renders a script as the bytes of a WAV file: the samples of
/// `render_pcm`, framed by `encode_wav`.
///
/// A script of more samples than a stream can count is refused before any
/// sample is made, and one with a tone longer than `wave` after that. Every
/// other script has its stream.
pub fn render_audio(instructions: &Vec<Instruction>, config: &RenderConfig, wave: &Vec<i16>) -> (r:
    Result<Vec<u8>, MorseError>)
    requires
        playable(instructions@),
    ensures
        rendered(instructions@, *config, wave@, r),
{
    if !script_fits(instructions, config) {
        return Err(MorseError::AudioTooLong);
    }
    match render_pcm(instructions, config, wave) {
        Ok(stream) => {
            proof {
                lemma_pcm_len(instructions@, *config, wave@);
            }
            encode_wav(&stream)
        },
        Err(e) => Err(e),
    }
}

/// Reads a text and renders its script as the bytes of a WAV file. A text
/// that holds an unknown character gives no bytes at all.
pub fn render_text(code: &str, config: &RenderConfig, wave: &Vec<i16>) -> (r: Result<
    Vec<u8>,
    MorseError,
>)
    ensures
        !is_text(code@) ==> r is Err && names_first_invalid(code@, r->Err_0),
        is_text(code@) ==> rendered(script(letters(code@)), *config, wave@, r),
{
    match parse_morse_code(code) {
        Ok(instructions) => {
            proof {
                lemma_script_has_no_word_space(letters(code@));
            }
            render_audio(&instructions, config, wave)
        },
        Err(e) => Err(e),
    }
}

} // verus!
