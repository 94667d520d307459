use morse_audio::code::Instruction::{LetterSpace, Morse, SymbolSpace};
use morse_audio::code::MorseCode::{Dah, Dit};
use morse_audio::code::MorseError;
use morse_audio::sequencer::parse_morse_code;
use morse_audio::timing::RenderConfig;
use morse_audio::wav::encode_wav;
use morse_audio::wav::render_audio;
use morse_audio::wav::sample_count_fits;
use morse_audio::wav::script_fits;
use morse_audio::wav::wav_outcome;
use morse_audio::wav::BITS_PER_SAMPLE;
use morse_audio::wav::CHANNELS;
use morse_audio::wav::HEADER_LEN;

fn sine(frequency: f64, len: usize) -> Vec<i16> {
    (0..len)
        .map(|i| {
            let phase = 2.0 * std::f64::consts::PI * frequency * i as f64 / 44100.0;
            (32767.0 * phase.sin()).round() as i16
        })
        .collect()
}

fn u16_at(bytes: &[u8], at: usize) -> u16 {
    u16::from_le_bytes([bytes[at], bytes[at + 1]])
}

fn u32_at(bytes: &[u8], at: usize) -> u32 {
    u32::from_le_bytes([bytes[at], bytes[at + 1], bytes[at + 2], bytes[at + 3]])
}

fn read_back(bytes: &[u8]) -> (hound::WavSpec, Vec<i16>) {
    let mut reader = hound::WavReader::new(std::io::Cursor::new(bytes)).unwrap();
    let spec = reader.spec();
    let samples: Vec<i16> = reader.samples::<i16>().map(|s| s.unwrap()).collect();
    (spec, samples)
}

#[test]
fn the_format_is_mono_16_bit() {
    assert_eq!(CHANNELS, 1);
    assert_eq!(BITS_PER_SAMPLE, 16);
    assert_eq!(HEADER_LEN, 44);
}

#[test]
fn three_samples_are_framed_byte_for_byte() {
    let bytes = encode_wav(&vec![1, -2, 0x1234]).unwrap();
    let expected: Vec<u8> = vec![
        b'R', b'I', b'F', b'F', 42, 0, 0, 0, b'W', b'A', b'V', b'E', //
        b'f', b'm', b't', b' ', 16, 0, 0, 0, 1, 0, 1, 0, //
        0x44, 0xac, 0, 0, 0x88, 0x58, 0x01, 0, 2, 0, 16, 0, //
        b'd', b'a', b't', b'a', 6, 0, 0, 0, //
        0x01, 0x00, 0xfe, 0xff, 0x34, 0x12,
    ];
    assert_eq!(bytes, expected);
}

#[test]
fn no_samples_give_a_bare_header() {
    let bytes = encode_wav(&vec![]).unwrap();
    assert_eq!(bytes.len(), 44);
    assert_eq!(u32_at(&bytes, 4), 36);
    assert_eq!(u32_at(&bytes, 40), 0);
    let (_, samples) = read_back(&bytes);
    assert!(samples.is_empty());
}

#[test]
fn the_header_declares_the_stream() {
    let samples: Vec<i16> = (0..1000).map(|i| (i * 37 % 2001 - 1000) as i16).collect();
    let bytes = encode_wav(&samples).unwrap();
    assert_eq!(bytes.len(), 44 + 2 * 1000);
    assert_eq!(&bytes[0..4], b"RIFF");
    assert_eq!(u32_at(&bytes, 4) as usize, bytes.len() - 8);
    assert_eq!(&bytes[8..12], b"WAVE");
    assert_eq!(&bytes[12..16], b"fmt ");
    assert_eq!(u32_at(&bytes, 16), 16);
    assert_eq!(u16_at(&bytes, 20), 1);
    assert_eq!(u16_at(&bytes, 22), 1);
    assert_eq!(u32_at(&bytes, 24), 44100);
    assert_eq!(u32_at(&bytes, 28), 88200);
    assert_eq!(u16_at(&bytes, 32), 2);
    assert_eq!(u16_at(&bytes, 34), 16);
    assert_eq!(&bytes[36..40], b"data");
    assert_eq!(u32_at(&bytes, 40), 2 * 1000);
}

#[test]
fn a_reader_finds_the_format_and_the_samples() {
    let samples: Vec<i16> = vec![0, 1, -1, 255, 256, -256, i16::MAX, i16::MIN, 12345, -12345];
    let bytes = encode_wav(&samples).unwrap();
    let (spec, back) = read_back(&bytes);
    assert_eq!(spec.channels, 1);
    assert_eq!(spec.sample_rate, 44100);
    assert_eq!(spec.bits_per_sample, 16);
    assert_eq!(spec.sample_format, hound::SampleFormat::Int);
    assert_eq!(back, samples);
}

#[test]
fn samples_are_stored_low_byte_first_in_twos_complement() {
    let bytes = encode_wav(&vec![i16::MIN, -1, i16::MAX, 0x0102]).unwrap();
    assert_eq!(&bytes[44..], &[0x00, 0x80, 0xff, 0xff, 0xff, 0x7f, 0x02, 0x01]);
}

#[test]
fn the_encoder_s_bytes_pass_through() {
    assert_eq!(wav_outcome(Ok(vec![1, 2, 3])), Ok(vec![1, 2, 3]));
    assert_eq!(wav_outcome(Ok(vec![])), Ok(vec![]));
}

#[test]
fn any_failure_of_the_encoder_is_a_file_write_error() {
    assert_eq!(wav_outcome(Err(hound::Error::Unsupported)), Err(MorseError::FileWriteError));
    assert_eq!(wav_outcome(Err(hound::Error::TooWide)), Err(MorseError::FileWriteError));
    let io = std::io::Error::new(std::io::ErrorKind::Other, "full");
    assert_eq!(wav_outcome(Err(hound::Error::IoError(io))), Err(MorseError::FileWriteError));
}

#[test]
fn a_stream_counts_its_bytes_in_32_bits() {
    assert!(sample_count_fits(0));
    assert!(sample_count_fits(277830));
    // 2 x 2147483629 + 36 = 4294967294
    assert!(sample_count_fits(2147483629));
    assert!(!sample_count_fits(2147483630));
    assert!(!sample_count_fits(usize::MAX));
}

#[test]
fn rendering_twice_gives_the_same_bytes() {
    let script = parse_morse_code(".- -... -.-.").unwrap();
    let config = RenderConfig::new(20);
    let wave = sine(440.0, 2646);
    let first = render_audio(&script, &config, &wave).unwrap();
    let second = render_audio(&script, &config, &wave).unwrap();
    assert_eq!(first, second);
}

#[test]
fn a_rendered_dot_has_13230_samples_and_a_dash_three_times_as_many() {
    let config = RenderConfig::default();
    let wave = sine(440.0, 39690);
    let dot = render_audio(&vec![Morse(Dit)], &config, &wave).unwrap();
    let dash = render_audio(&vec![Morse(Dah)], &config, &wave).unwrap();
    assert_eq!(u32_at(&dot, 40), 2 * 13230);
    assert_eq!(u32_at(&dash, 40), 2 * 39690);
    assert_eq!(dot.len(), 44 + 2 * 13230);
    assert_eq!(dash.len(), 44 + 2 * 39690);
}

#[test]
fn a_rendered_file_holds_the_rendered_samples() {
    let script = vec![Morse(Dit), SymbolSpace, Morse(Dah)];
    let config = RenderConfig::new(1);
    let wave = sine(1000.0, 132);
    let bytes = render_audio(&script, &config, &wave).unwrap();
    let (spec, samples) = read_back(&bytes);
    assert_eq!((spec.channels, spec.sample_rate, spec.bits_per_sample), (1, 44100, 16));
    assert_eq!(samples.len(), 44 + 44 + 132);
    assert_eq!(samples[..44], wave[..44]);
    assert_eq!(samples[44..88], [0i16; 44]);
    assert_eq!(samples[88..], wave[..]);
    assert_eq!(u32_at(&bytes, 40) as usize, samples.len() * 2);
}

#[test]
fn sos_lasts_as_long_as_its_instructions() {
    // six dots, three dashes, six symbol spaces and two letter spaces:
    // 6 + 9 + 6 + 6 = 27 units of 0.3 s
    let script = parse_morse_code("... --- ...").unwrap();
    let config = RenderConfig::default();
    let wave = sine(440.0, 39690);
    let bytes = render_audio(&script, &config, &wave).unwrap();
    let reader = hound::WavReader::new(std::io::Cursor::new(&bytes[..])).unwrap();
    let samples = reader.duration();
    assert_eq!(samples, 27 * 13230);
    let seconds = samples as f64 / 44100.0;
    assert!((seconds - 8.1).abs() <= 1.0 / 44100.0);
    assert_eq!(reader.spec().sample_rate, 44100);
}

#[test]
fn nine_dots_in_three_letters_last_six_point_three_seconds() {
    // 9 dots, 6 symbol spaces, 2 letter spaces: 9 x 0.3 + 6 x 0.3 + 2 x 0.9
    let script = parse_morse_code("... ... ...").unwrap();
    let wave = sine(440.0, 13230);
    let bytes = render_audio(&script, &RenderConfig::default(), &wave).unwrap();
    let samples = (bytes.len() - 44) / 2;
    assert_eq!(samples, 277830);
    let seconds = samples as f64 / 44100.0;
    assert!((seconds - 6.3).abs() <= 1.0 / 44100.0);
}

#[test]
fn a_short_wave_gives_no_file() {
    let script = parse_morse_code("-").unwrap();
    let config = RenderConfig::new(1);
    assert_eq!(
        render_audio(&script, &config, &sine(440.0, 131)),
        Err(MorseError::WaveTooShort)
    );
}

#[test]
fn a_script_fits_when_its_samples_can_be_counted() {
    let sos = parse_morse_code("... --- ...").unwrap();
    assert!(script_fits(&sos, &RenderConfig::default()));
    assert!(script_fits(&vec![], &RenderConfig::new(u32::MAX)));
    // one unit of 48696 s is 2147493600 samples, ten thousand too many
    assert!(!script_fits(&vec![SymbolSpace], &RenderConfig::new(48696000)));
    assert!(script_fits(&vec![SymbolSpace], &RenderConfig::new(48695000)));
    // three units of 16232 s are 2147493600 samples
    assert!(!script_fits(&vec![LetterSpace], &RenderConfig::new(16232000)));
    assert!(script_fits(&vec![SymbolSpace], &RenderConfig::new(16232000)));
    // neither half is too long, both together are
    let half = RenderConfig::new(24348000);
    assert!(script_fits(&vec![Morse(Dit)], &half));
    assert!(!script_fits(&vec![Morse(Dit), SymbolSpace], &half));
    assert!(!script_fits(&vec![Morse(Dit), SymbolSpace, Morse(Dit)], &half));
}

#[test]
fn the_count_of_a_script_that_fits_is_exact_at_the_limit() {
    // 2147483629 samples fit and 2147483630 do not: 48695774 ms give
    // 2147483633 samples, 48695773 ms give 2147483589
    assert!(!script_fits(&vec![SymbolSpace], &RenderConfig::new(48695774)));
    assert!(script_fits(&vec![SymbolSpace], &RenderConfig::new(48695773)));
    assert_eq!(RenderConfig::new(48695774).samples(SymbolSpace), 2147483633);
    assert_eq!(RenderConfig::new(48695773).samples(SymbolSpace), 2147483589);
}

#[test]
fn audio_too_long_for_a_stream_is_refused_before_it_is_made() {
    let config = RenderConfig::new(u32::MAX);
    assert_eq!(render_audio(&vec![SymbolSpace], &config, &vec![]), Err(MorseError::AudioTooLong));
    assert_eq!(
        render_audio(&parse_morse_code("... --- ...").unwrap(), &config, &vec![0; 8]),
        Err(MorseError::AudioTooLong)
    );
}

#[test]
fn the_length_is_looked_at_before_the_wave() {
    let config = RenderConfig::new(48696000);
    assert_eq!(render_audio(&vec![Morse(Dit)], &config, &vec![]), Err(MorseError::AudioTooLong));
    let config = RenderConfig::new(1);
    assert_eq!(render_audio(&vec![Morse(Dit)], &config, &vec![]), Err(MorseError::WaveTooShort));
}

#[test]
fn every_row_of_samples_that_fits_has_its_stream() {
    for len in [0usize, 1, 2, 3, 1000, 100_001] {
        let samples: Vec<i16> = (0..len).map(|i| (i % 65536) as u16 as i16).collect();
        let bytes = encode_wav(&samples).unwrap();
        assert_eq!(bytes.len(), 44 + 2 * len);
        assert_eq!(u32_at(&bytes, 40) as usize, 2 * len);
        assert_eq!(read_back(&bytes).1, samples);
    }
}

#[test]
fn a_script_that_fits_and_whose_tones_are_covered_has_its_file() {
    let config = RenderConfig::new(4);
    let wave = sine(600.0, 529);
    for text in ["", ".", "-", ". -", "... --- ...", " .  - "] {
        let script = parse_morse_code(text).unwrap();
        assert!(render_audio(&script, &config, &wave).is_ok());
    }
}
