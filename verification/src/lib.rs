//! Bit-depth analysis and dithered bit-truncation for PCM sample streams.
//!
//! The analyzer streams over decoded samples and derives how many bits the
//! recording actually uses; the noise injector truncates samples to a chosen
//! width and refills the discarded low bits with uniform noise. Both consume
//! plain right-justified signed samples and are indifferent to how the
//! stream was produced.

pub mod analyze;
pub mod genrand;
pub mod noise;
pub mod samplebits;
pub mod track;
