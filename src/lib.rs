//! A score model and the pitch arithmetic beneath it.
//!
//! All quantities are fixed-point integers: pitches are counted in cents
//! (hundredths of a semitone, 0 = C0), beat offsets in ticks
//! (`music::TICKS_PER_BEAT` to a beat), tempi in thousandths of a beat per
//! minute and velocities in thousandths of full scale.
pub mod pitch;
pub mod music;
pub mod render;
