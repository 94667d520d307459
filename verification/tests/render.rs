use morse_audio::code::Instruction;
use morse_audio::code::Instruction::{LetterSpace, Morse, SymbolSpace};
use morse_audio::code::MorseCode::{Dah, Dit};
use morse_audio::code::MorseError;
use morse_audio::pcm::push_silence;
use morse_audio::pcm::push_tone;
use morse_audio::pcm::render_pcm;
use morse_audio::pcm::wave_len_needed;
use morse_audio::sequencer::parse_morse_code;
use morse_audio::timing::RenderConfig;

/// A waveform whose sample at place i is i + 1, so that every sample shows
/// where it came from and none is zero.
fn ramp(len: usize) -> Vec<i16> {
    (0..len).map(|i| (i + 1) as i16).collect()
}

/// The tone of the given frequency, full scale, 44100 samples a second.
fn sine(frequency: f64, len: usize) -> Vec<i16> {
    (0..len)
        .map(|i| {
            let phase = 2.0 * std::f64::consts::PI * frequency * i as f64 / 44100.0;
            (32767.0 * phase.sin()).round() as i16
        })
        .collect()
}

#[test]
fn silence_is_appended_as_zeros() {
    let mut out = vec![5i16, -5];
    push_silence(&mut out, 3);
    assert_eq!(out, vec![5, -5, 0, 0, 0]);
    push_silence(&mut out, 0);
    assert_eq!(out.len(), 5);
}

#[test]
fn a_tone_is_appended_from_the_head_of_the_wave() {
    let mut out = vec![9i16];
    push_tone(&mut out, &vec![1, 2, 3, 4], 3);
    assert_eq!(out, vec![9, 1, 2, 3]);
    push_tone(&mut out, &vec![1, 2, 3, 4], 0);
    assert_eq!(out, vec![9, 1, 2, 3]);
    push_tone(&mut out, &vec![7, 8], 2);
    assert_eq!(out, vec![9, 1, 2, 3, 7, 8]);
}

#[test]
fn a_dot_renders_13230_samples_and_a_dash_39690() {
    let config = RenderConfig::default();
    let wave = ramp(39690);
    let dot = render_pcm(&vec![Morse(Dit)], &config, &wave).unwrap();
    let dash = render_pcm(&vec![Morse(Dah)], &config, &wave).unwrap();
    assert_eq!(dot.len(), 13230);
    assert_eq!(dash.len(), 39690);
    assert_eq!(dash.len(), 3 * dot.len());
    assert_eq!(dot[..], wave[..13230]);
    assert_eq!(dash, wave);
}

#[test]
fn gaps_render_as_zeros_of_their_own_length() {
    let config = RenderConfig::default();
    let none: Vec<i16> = vec![];
    let short = render_pcm(&vec![SymbolSpace], &config, &none).unwrap();
    let long = render_pcm(&vec![LetterSpace], &config, &none).unwrap();
    assert_eq!(short, vec![0i16; 13230]);
    assert_eq!(long, vec![0i16; 39690]);
}

#[test]
fn every_tone_starts_the_wave_anew() {
    // a unit of 1 ms: 44 samples for a dot, 132 for a dash
    let config = RenderConfig::new(1);
    let wave = ramp(132);
    let script = parse_morse_code(".- .").unwrap();
    let stream = render_pcm(&script, &config, &wave).unwrap();
    let mut expected: Vec<i16> = vec![];
    expected.extend_from_slice(&wave[..44]);
    expected.extend_from_slice(&[0; 44]);
    expected.extend_from_slice(&wave[..132]);
    expected.extend_from_slice(&[0; 132]);
    expected.extend_from_slice(&wave[..44]);
    assert_eq!(stream, expected);
}

#[test]
fn each_length_is_rounded_on_its_own() {
    // 5 ms are 220.5 samples: 221 for each dot and symbol space, 662 for a dash
    let config = RenderConfig::new(5);
    let wave = ramp(662);
    let stream = render_pcm(&parse_morse_code("...").unwrap(), &config, &wave).unwrap();
    assert_eq!(stream.len(), 5 * 221);
    let stream = render_pcm(&parse_morse_code("-").unwrap(), &config, &wave).unwrap();
    assert_eq!(stream.len(), 662);
}

#[test]
fn an_empty_script_renders_no_samples() {
    let none: Vec<Instruction> = vec![];
    assert_eq!(render_pcm(&none, &RenderConfig::default(), &vec![]), Ok(vec![]));
}

#[test]
fn a_unit_of_zero_renders_no_samples() {
    let script = parse_morse_code("... --- ...").unwrap();
    assert_eq!(render_pcm(&script, &RenderConfig::new(0), &vec![]), Ok(vec![]));
}

#[test]
fn a_wave_shorter_than_a_tone_is_refused() {
    let config = RenderConfig::new(1);
    assert_eq!(
        render_pcm(&vec![Morse(Dit)], &config, &ramp(43)),
        Err(MorseError::WaveTooShort)
    );
    assert_eq!(
        render_pcm(&vec![Morse(Dit), SymbolSpace, Morse(Dah)], &config, &ramp(131)),
        Err(MorseError::WaveTooShort)
    );
    assert!(render_pcm(&vec![Morse(Dit), SymbolSpace, Morse(Dit)], &config, &ramp(44)).is_ok());
    assert!(render_pcm(&vec![Morse(Dit), SymbolSpace, Morse(Dah)], &config, &ramp(132)).is_ok());
}

#[test]
fn pauses_need_no_wave() {
    let config = RenderConfig::new(2);
    let stream = render_pcm(&vec![SymbolSpace, LetterSpace], &config, &vec![]).unwrap();
    assert_eq!(stream, vec![0i16; 88 + 265]);
}

#[test]
fn a_sine_tone_is_rendered_sample_for_sample() {
    let config = RenderConfig::new(10);
    let wave = sine(440.0, 1323);
    let stream = render_pcm(&parse_morse_code(".-").unwrap(), &config, &wave).unwrap();
    assert_eq!(stream.len(), 441 + 441 + 1323);
    assert_eq!(stream[0], 0);
    assert_eq!(stream[1], 2053);
    assert_eq!(stream[..441], wave[..441]);
    assert!(stream[441..882].iter().all(|s| *s == 0));
    assert_eq!(stream[882..], wave[..]);
}

#[test]
fn the_wave_must_be_as_long_as_the_longest_tone() {
    let config = RenderConfig::default();
    let none: Vec<Instruction> = vec![];
    assert_eq!(wave_len_needed(&none, &config), 0);
    assert_eq!(wave_len_needed(&vec![SymbolSpace, LetterSpace], &config), 0);
    assert_eq!(wave_len_needed(&parse_morse_code("... .").unwrap(), &config), 13230);
    assert_eq!(wave_len_needed(&parse_morse_code(". -").unwrap(), &config), 39690);
    assert_eq!(wave_len_needed(&parse_morse_code("-.").unwrap(), &config), 39690);
    assert_eq!(wave_len_needed(&parse_morse_code("-").unwrap(), &RenderConfig::new(5)), 662);
}

#[test]
fn a_wave_of_the_needed_length_suffices_and_one_sample_less_does_not() {
    let config = RenderConfig::new(3);
    for text in [".", "-", ".. -", "--. ."] {
        let script = parse_morse_code(text).unwrap();
        let needed = wave_len_needed(&script, &config) as usize;
        assert!(render_pcm(&script, &config, &ramp(needed)).is_ok());
        assert_eq!(
            render_pcm(&script, &config, &ramp(needed - 1)),
            Err(MorseError::WaveTooShort)
        );
    }
}
