//! Morse code as sound.
//!
//! A text of dots and dashes, its letters parted by single spaces, is turned
//! into a script of tones and pauses. The script is then timed in
//! milliseconds for a live player, or laid out sample by sample and framed
//! as a 16-bit mono WAV stream.

pub mod code;
pub mod live;
pub mod pcm;
pub mod sequencer;
pub mod timing;
pub mod wav;
