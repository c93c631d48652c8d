//! Decoding of timecoded stereo audio, as pressed onto timecode vinyl records and control CDs
//! used by digital vinyl systems, into a playback position and direction; and the matching
//! generator of such a signal.
pub mod bits;
pub mod bitstream;
pub mod format;
pub mod generator;
pub mod lfsr;
pub mod timecode;
pub mod util;

pub use format::{serato_control_cd_1_0_0, TimecodeFormat};
pub use generator::{SampleFrame, TimecodeAudioGenerator};
pub use timecode::Timecode;
