//! Pitch detectors: the interface of a monophonic detector, and the session
//! that draws several pitches out of one signal with it.

pub mod internals;
pub mod polyphonic;

use num_traits::ToPrimitive;
use rustfft::FFTnum;
use vstd::float::float_cast_spec;
use vstd::prelude::*;

use crate::detector::internals::Pitch;
use crate::detector::polyphonic::length_verdict;
use crate::detector::polyphonic::Pitches;
use crate::detector::polyphonic::SessionError;
use crate::detector::polyphonic::NOTCH_WIDTH_HZ;

verus! {

/// Whether a detector admits one answer only to each question.
pub open spec fn is_deterministic<D: PitchDetector<T>, T: Copy>(detector: D) -> bool {
    forall|
        signal: Seq<T>,
        sample_rate: usize,
        power_threshold: T,
        clarity_threshold: T,
        x: Option<Pitch<T>>,
        y: Option<Pitch<T>>,
    |
        #![trigger
            detector.answers(signal, sample_rate, power_threshold, clarity_threshold, x),
            detector.answers(signal, sample_rate, power_threshold, clarity_threshold, y),
        ]
        detector.answers(signal, sample_rate, power_threshold, clarity_threshold, x)
            && detector.answers(signal, sample_rate, power_threshold, clarity_threshold, y) ==> x
            == y
}

/// A monophonic pitch detector.
pub trait PitchDetector<T: Copy> {
    /// Whether `r` is an answer that this detector may give when it is asked
    /// for the strongest pitch of `signal`, sampled at `sample_rate` hertz,
    /// with the two thresholds. Each detector says for itself which answers
    /// those are; one that says nothing may give any.
    open spec fn answers(
        &self,
        signal: Seq<T>,
        sample_rate: usize,
        power_threshold: T,
        clarity_threshold: T,
        r: Option<Pitch<T>>,
    ) -> bool {
        true
    }

    /// The strongest pitch of `signal`, sampled at `sample_rate` hertz, if one
    /// clears both thresholds.
    fn get_pitch(
        &mut self,
        signal: &[T],
        sample_rate: usize,
        power_threshold: T,
        clarity_threshold: T,
    ) -> (r: Option<Pitch<T>>)
        ensures
            old(self).answers(signal@, sample_rate, power_threshold, clarity_threshold, r),
    ;

    /// A session that draws the pitches of `signal` out one after the other,
    /// strongest first, with notches `NOTCH_WIDTH_HZ` hertz wide.
    fn pitches<'a>(
        &'a mut self,
        signal: &[T],
        sample_rate: usize,
        power_threshold: T,
        clarity_threshold: T,
    ) -> (r: Result<Pitches<'a, Self, T>, SessionError>) where
        Self: Sized,
        T: FFTnum + ToPrimitive,

        ensures
            length_verdict(signal@.len()) matches Err(e) ==> r matches Err(f) && f == e,
            length_verdict(signal@.len()) is Ok ==> r is Ok || r matches Err(
                SessionError::Unrepresentable,
            ),
            r matches Ok(s) ==> s.starts_on(
                signal@,
                sample_rate,
                power_threshold,
                clarity_threshold,
            ),
            r matches Ok(s) ==> s.detector() == *old(self),
            r is Err ==> *final(self) == *old(self),
            r matches Ok(s) ==> float_cast_spec(NOTCH_WIDTH_HZ, s.notch_width()),
            r matches Ok(s) ==> float_cast_spec(signal@.len() as usize, s.scale()),
    {
        Pitches::new(self, signal, sample_rate, power_threshold, clarity_threshold)
    }
}

} // verus!
