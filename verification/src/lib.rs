//! Speaking assistant replies aloud: the configuration, the text-to-speech
//! request rules, the audio arithmetic and the reply bookkeeping of the
//! speaker daemon.

pub mod audio;
pub mod config;
pub mod daemon;
pub mod number;
pub mod report;
pub mod text;
pub mod tts;
