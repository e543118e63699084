//! Core of a per-sample audio delay-effect pipeline: a fixed-capacity
//! circular buffer with independent read and write cursors (the delay line
//! underneath the comb and vibrato effects), and the parameter selectors of
//! the comb filter. The sample arithmetic of the effects themselves is
//! floating point and lives with the caller; the index arithmetic under
//! wraparound, which is where the correctness of a delay line is decided,
//! is specified and proved here.

pub mod comb_filter;
pub mod ring_buffer;
