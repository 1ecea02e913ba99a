//! Multi-pitch extraction: a monophonic pitch detector is queried again and
//! again, and after each answer the pitch it found is removed from the signal
//! with a comb filter in the frequency domain.
//!
//! The sample type `T` is generic (single or double precision). Sample values
//! are opaque to the proofs: what is proved concerns buffer shapes, which
//! positions of a buffer hold which value, which frequency bins a comb filter
//! closes, and the states of an extraction session.

pub mod float;
pub mod utils;
pub mod detector;
