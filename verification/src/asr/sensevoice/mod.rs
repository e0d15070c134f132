//! The recognition engine that works on whole stretches of speech.
pub mod decode;
pub mod download;
pub mod fbank;
pub mod model;
pub mod provider;
pub mod vad;
