//! Codecs.

pub mod opus;

pub use crate::rtc::Codec;
