//! `Pitches`: the pitches of a polyphonic signal, one after the other.
//!
//! Each step asks a monophonic detector for the strongest pitch of what is
//! left of the signal. Before the next step, that pitch is filtered out: the
//! signal is transformed, the bins around the pitch and its harmonics are
//! closed with a comb filter, and the signal is transformed back.

use num_complex::Complex;
use num_traits::ToPrimitive;
use rustfft::FFTnum;
use rustfft::FFTplanner;
use vstd::float::float_cast_spec;
use vstd::prelude::*;
use vstd::slice::slice_to_vec;

use crate::detector::internals::Pitch;
use crate::detector::is_deterministic;
use crate::detector::PitchDetector;
use crate::float::divide;
use crate::float::from_usize;
use crate::float::is_scaled;
use crate::float::multiply;
use crate::utils::buffer::copy_complex_to_real;
use crate::utils::buffer::copy_real_to_complex;
use crate::utils::buffer::new_complex_buffer;
use crate::utils::buffer::new_real_buffer;
use crate::utils::buffer::ComplexComponent;
use crate::utils::filters::comb_filter;
use crate::utils::filters::is_comb_for;
use crate::utils::filters::CombElements;

verus! {

/// The width of the comb filter's notches, in hertz.
pub const NOTCH_WIDTH_HZ: usize = 50;

/// Whether a signal of `len` samples can be transformed. The transforms
/// multiply two numbers below the length, or below one of its prime factors,
/// in `usize` and in 64 bits. No such product overflows where the square of
/// the length fits in a `usize`.
pub open spec fn is_transformable(len: nat) -> bool {
    len * len <= usize::MAX
}

/// `rustfft::FFTplanner<T>`, which makes and keeps the transforms of one
/// direction. Nothing of its contents is visible to the proofs.
#[verifier::external_type_specification]
#[verifier::external_body]
#[verifier::reject_recursive_types(T)]
pub struct ExFFTplanner<T>(FFTplanner<T>);

/// `rustfft::FFTplanner::new`: a planner of forward transforms, or of inverse
/// ones where `inverse` is set.
#[verifier::external_body]
pub(crate) fn new_planner<T: FFTnum>(inverse: bool) -> FFTplanner<T> {
    FFTplanner::new(inverse)
}

/// `rustfft::FFTplanner::plan_fft` for the length of `input`, then
/// `rustfft::FFT::process` of that plan: the unnormalised discrete Fourier
/// transform of `input` is written to `output`, and `input` is left with
/// whatever the transform used it for. `process` stops the program unless
/// both buffers have the planned length, and for a prime length both
/// planning and `process` multiply two numbers below the length in `usize`,
/// hence the two preconditions. Claimed: the two lengths stay as they are.
#[verifier::external_body]
pub(crate) fn transform<T: FFTnum>(
    planner: &mut FFTplanner<T>,
    input: &mut [Complex<T>],
    output: &mut [Complex<T>],
)
    requires
        old(input)@.len() == old(output)@.len(),
        is_transformable(old(input)@.len()),
    ensures
        final(input)@.len() == old(input)@.len(),
        final(output)@.len() == old(output)@.len(),
{
    planner.plan_fft(input.len()).process(input, output);
}

/// Why no session could be started.
#[derive(Clone, Copy, Debug)]
pub enum SessionError {
    /// The signal holds no sample.
    EmptySignal,
    /// The signal holds more samples than can be transformed.
    TooLong,
    /// The sample type cannot represent the signal's length or the notch
    /// width.
    Unrepresentable,
}

impl SessionError {
    /// The error in words.
    pub fn message(&self) -> (text: &'static str)
        ensures
            text@ == (match self {
                SessionError::EmptySignal => "cannot extract pitches from an empty signal"@,
                SessionError::TooLong => "the signal is too long to be transformed"@,
                SessionError::Unrepresentable =>
                    "the sample type cannot represent the length of the signal"@,
            }),
    {
        match self {
            SessionError::EmptySignal => "cannot extract pitches from an empty signal",
            SessionError::TooLong => "the signal is too long to be transformed",
            SessionError::Unrepresentable => {
                "the sample type cannot represent the length of the signal"
            },
        }
    }
}

/// Whether a session can work on a signal of `len` samples.
pub open spec fn length_verdict(len: nat) -> Result<(), SessionError> {
    if len == 0 {
        Err(SessionError::EmptySignal)
    } else if !is_transformable(len) {
        Err(SessionError::TooLong)
    } else {
        Ok(())
    }
}

/// Refuses a signal without samples, and one too long to be transformed.
pub fn check_length(len: usize) -> (r: Result<(), SessionError>)
    ensures
        r == length_verdict(len as nat),
{
    if len == 0 {
        Err(SessionError::EmptySignal)
    } else if len > usize::MAX / len {
        assert(!is_transformable(len as nat)) by (nonlinear_arith)
            requires
                len > 0,
                len > usize::MAX / len,
        ;
        Err(SessionError::TooLong)
    } else {
        assert(is_transformable(len as nat)) by (nonlinear_arith)
            requires
                len > 0,
                len <= usize::MAX / len,
        ;
        Ok(())
    }
}

/// Both halves of `after` are results of multiplying the same half of
/// `before` by `gain` and dividing the product by `norm`.
pub open spec fn is_scaled_entry<T>(before: Complex<T>, gain: T, norm: T, after: Complex<T>) -> bool {
    &&& is_scaled(before.re, gain, norm, after.re)
    &&& is_scaled(before.im, gain, norm, after.im)
}

/// Multiplies each half of each entry of `spectrum` by the gain of its bin
/// and divides it by `norm`. Entries without a gain stay as they are.
pub fn scale_spectrum<T: FFTnum>(spectrum: &mut [Complex<T>], gains: &[T], norm: T)
    ensures
        final(spectrum)@.len() == old(spectrum)@.len(),
        forall|i: int|
            0 <= i < old(spectrum)@.len() && i < gains@.len() ==> is_scaled_entry(
                old(spectrum)@[i],
                gains@[i],
                norm,
                #[trigger] final(spectrum)@[i],
            ),
        forall|i: int|
            gains@.len() <= i < old(spectrum)@.len() ==> final(spectrum)@[i] == old(spectrum)@[i],
{
    let n = spectrum.len();
    let m = gains.len();
    let mut i: usize = 0;
    while i < n && i < m
        invariant
            i <= n,
            i <= m,
            n == spectrum@.len(),
            n == old(spectrum)@.len(),
            m == gains@.len(),
            forall|k: int| i <= k < n ==> spectrum@[k] == old(spectrum)@[k],
            forall|k: int|
                0 <= k < i ==> is_scaled_entry(
                    old(spectrum)@[k],
                    gains@[k],
                    norm,
                    #[trigger] spectrum@[k],
                ),
        decreases n - i,
    {
        let gain = gains[i];
        let re = divide(multiply(spectrum[i].re, gain), norm);
        let im = divide(multiply(spectrum[i].im, gain), norm);
        spectrum[i] = Complex { re: re, im: im };
        i += 1;
    }
}

/// The real halves of the entries of `buffer`.
pub open spec fn real_parts<T>(buffer: Seq<Complex<T>>) -> Seq<T> {
    Seq::new(buffer.len(), |i: int| buffer[i].re)
}

/// Filters `signal` in the frequency domain: transforms it with `forward`,
/// applies `gains` divided by `norm` to the spectrum, transforms back with
/// `inverse` into `work` and keeps the real part. `spectrum` is scratch space.
///
/// With `norm` the number of samples, gains of one return the signal up to
/// rounding.
pub fn filter_signal<T: FFTnum>(
    forward: &mut FFTplanner<T>,
    inverse: &mut FFTplanner<T>,
    signal: &mut [T],
    gains: &[T],
    norm: T,
    work: &mut [Complex<T>],
    spectrum: &mut [Complex<T>],
)
    requires
        old(work)@.len() == old(signal)@.len(),
        old(spectrum)@.len() == old(signal)@.len(),
        is_transformable(old(signal)@.len()),
    ensures
        final(signal)@.len() == old(signal)@.len(),
        final(work)@.len() == old(work)@.len(),
        final(spectrum)@.len() == old(spectrum)@.len(),
        final(signal)@ == real_parts(final(work)@),
{
    copy_real_to_complex(signal, work, ComplexComponent::Re);
    transform(forward, work, spectrum);
    scale_spectrum(spectrum, gains, norm);
    transform(inverse, spectrum, work);
    copy_complex_to_real(work, signal, ComplexComponent::Re);
    assert(signal@ =~= real_parts(work@));
}

/// An extraction session over one signal.
///
/// A session is fresh until its first step, then holds the pitch that it
/// reported last, and is finished once the detector has found nothing.
#[verifier::reject_recursive_types(T)]
pub struct Pitches<'a, D, T: Copy> {
    detector: &'a mut D,
    remaining_signal: Vec<T>,
    sample_rate: usize,
    power_threshold: T,
    clarity_threshold: T,
    previous_pitch: Option<Pitch<T>>,
    finished: bool,
    fft: FFTplanner<T>,
    inv_fft: FFTplanner<T>,
    scratch: Vec<Complex<T>>,
    comb_g: Vec<T>,
    signal_complex: Vec<Complex<T>>,
    norm: T,
    beta: T,
}

impl<'a, D, T: Copy> Pitches<'a, D, T> {
    /// What is left of the signal.
    pub closed spec fn remaining(&self) -> Seq<T> {
        self.remaining_signal@
    }

    /// The pitch that the last step reported and the next step will filter
    /// out.
    pub closed spec fn pending(&self) -> Option<Pitch<T>> {
        self.previous_pitch
    }

    /// Whether the detector has found nothing once.
    pub closed spec fn finished(&self) -> bool {
        self.finished
    }

    /// The sample rate, in hertz.
    pub closed spec fn rate(&self) -> usize {
        self.sample_rate
    }

    /// The power threshold and the clarity threshold handed to the detector.
    pub closed spec fn thresholds(&self) -> (T, T) {
        (self.power_threshold, self.clarity_threshold)
    }

    /// The width of the comb filter's notches, as a sample value.
    pub closed spec fn notch_width(&self) -> T {
        self.beta
    }

    /// The number by which the spectrum is divided before the inverse
    /// transform: the number of samples, as a sample value.
    pub closed spec fn scale(&self) -> T {
        self.norm
    }

    /// The detector that the session asks.
    pub closed spec fn detector(&self) -> D {
        *self.detector
    }

    /// The gains of the comb filter that was applied last.
    pub closed spec fn gains(&self) -> Seq<T> {
        self.comb_g@
    }

    /// What the last inverse transform wrote.
    pub closed spec fn transformed(&self) -> Seq<Complex<T>> {
        self.signal_complex@
    }

    /// The session's invariant: the signal is neither empty nor too long,
    /// every buffer has its length, and a finished session holds no pitch.
    pub closed spec fn wf(&self) -> bool {
        &&& 0 < self.remaining_signal@.len()
        &&& is_transformable(self.remaining_signal@.len())
        &&& self.scratch@.len() == self.remaining_signal@.len()
        &&& self.comb_g@.len() == self.remaining_signal@.len()
        &&& self.signal_complex@.len() == self.remaining_signal@.len()
        &&& self.finished ==> self.previous_pitch is None
    }

    /// A fresh session over `signal` with the given settings.
    pub open spec fn starts_on(
        &self,
        signal: Seq<T>,
        sample_rate: usize,
        power_threshold: T,
        clarity_threshold: T,
    ) -> bool {
        &&& self.wf()
        &&& self.remaining() == signal
        &&& self.pending() is None
        &&& !self.finished()
        &&& self.rate() == sample_rate
        &&& self.thresholds() == (power_threshold, clarity_threshold)
    }

    /// The session after a step in which the detector answered `found`.
    pub open spec fn follows(&self, before: &Self, found: Option<Pitch<T>>) -> bool {
        &&& self.wf()
        &&& self.remaining().len() == before.remaining().len()
        &&& self.rate() == before.rate()
        &&& self.thresholds() == before.thresholds()
        &&& self.notch_width() == before.notch_width()
        &&& self.scale() == before.scale()
        &&& self.pending() == found
        &&& self.finished() == (found is None)
    }
}

impl<'a, D, T: FFTnum + ToPrimitive> Pitches<'a, D, T> {
    /// A fresh session over a copy of `signal`, given the signal's length and
    /// the notch width as sample values, where the sample type has them.
    pub fn assemble(
        detector: &'a mut D,
        signal: &[T],
        sample_rate: usize,
        power_threshold: T,
        clarity_threshold: T,
        norm: Option<T>,
        beta: Option<T>,
    ) -> (r: Result<Self, SessionError>)
        ensures
            length_verdict(signal@.len()) matches Err(e) ==> r matches Err(f) && f == e,
            length_verdict(signal@.len()) is Ok && (norm is None || beta is None) ==> r matches Err(
                SessionError::Unrepresentable,
            ),
            length_verdict(signal@.len()) is Ok && norm is Some && beta is Some ==> (r matches Ok(s)
                && s.starts_on(signal@, sample_rate, power_threshold, clarity_threshold)
                && s.detector() == *old(detector) && Some(s.notch_width()) == beta && Some(
                s.scale(),
            ) == norm),
            r is Err ==> *final(detector) == *old(detector),
    {
        let size = signal.len();
        match check_length(size) {
            Err(e) => {
                return Err(e);
            },
            Ok(_) => {},
        }
        match (norm, beta) {
            (Some(norm), Some(beta)) => {
                let signal_complex: Vec<Complex<T>> = new_complex_buffer(size);
                let scratch: Vec<Complex<T>> = new_complex_buffer(size);
                let comb_g: Vec<T> = new_real_buffer(size);
                let remaining_signal: Vec<T> = slice_to_vec(signal);
                Ok(
                    Pitches {
                        detector,
                        remaining_signal,
                        sample_rate,
                        power_threshold,
                        clarity_threshold,
                        previous_pitch: None,
                        finished: false,
                        fft: new_planner(false),
                        inv_fft: new_planner(true),
                        scratch,
                        comb_g,
                        signal_complex,
                        norm,
                        beta,
                    },
                )
            },
            _ => Err(SessionError::Unrepresentable),
        }
    }

    /// A fresh session over a copy of `signal`, with notches `NOTCH_WIDTH_HZ`
    /// hertz wide. No detection has happened yet.
    ///
    /// An empty signal is refused, and one too long to be transformed. So is
    /// a signal whose length the sample type cannot represent, which happens
    /// with no floating-point type.
    pub fn new(
        detector: &'a mut D,
        signal: &[T],
        sample_rate: usize,
        power_threshold: T,
        clarity_threshold: T,
    ) -> (r: Result<Self, SessionError>)
        ensures
            length_verdict(signal@.len()) matches Err(e) ==> r matches Err(f) && f == e,
            length_verdict(signal@.len()) is Ok ==> r is Ok || r matches Err(
                SessionError::Unrepresentable,
            ),
            r matches Ok(s) ==> s.starts_on(
                signal@,
                sample_rate,
                power_threshold,
                clarity_threshold,
            ),
            r matches Ok(s) ==> s.detector() == *old(detector),
            r matches Ok(s) ==> float_cast_spec(NOTCH_WIDTH_HZ, s.notch_width()),
            r matches Ok(s) ==> float_cast_spec(signal@.len() as usize, s.scale()),
            r is Err ==> *final(detector) == *old(detector),
    {
        let norm: Option<T> = from_usize(signal.len());
        let beta: Option<T> = from_usize(NOTCH_WIDTH_HZ);
        Pitches::assemble(
            detector,
            signal,
            sample_rate,
            power_threshold,
            clarity_threshold,
            norm,
            beta,
        )
    }

    /// Filters `pitch` and its harmonics out of what is left of the signal:
    /// makes the gains of a comb filter for the pitch's frequency with every
    /// element switched on, applies them to the spectrum of the signal, and
    /// keeps the real part of what the inverse transform returns.
    pub fn suppress(&mut self, pitch: Pitch<T>)
        requires
            old(self).wf(),
        ensures
            final(self).wf(),
            final(self).remaining().len() == old(self).remaining().len(),
            final(self).pending() == old(self).pending(),
            final(self).finished() == old(self).finished(),
            final(self).rate() == old(self).rate(),
            final(self).thresholds() == old(self).thresholds(),
            final(self).notch_width() == old(self).notch_width(),
            final(self).scale() == old(self).scale(),
            final(self).detector() == old(self).detector(),
            is_comb_for(
                final(self).gains(),
                pitch.frequency,
                old(self).notch_width(),
                old(self).remaining().len() as usize,
                old(self).rate(),
                (CombElements { fundamental: true, harmonics: true, edges: true }),
            ),
            final(self).remaining() == real_parts(final(self).transformed()),
    {
        let size = self.remaining_signal.len();
        comb_filter(
            pitch.frequency,
            self.beta,
            size,
            self.sample_rate,
            self.comb_g.as_mut_slice(),
            CombElements { fundamental: true, harmonics: true, edges: true },
        );
        filter_signal(
            &mut self.fft,
            &mut self.inv_fft,
            self.remaining_signal.as_mut_slice(),
            self.comb_g.as_slice(),
            self.norm,
            self.signal_complex.as_mut_slice(),
            self.scratch.as_mut_slice(),
        );
    }

    /// Ends a step in which the detector answered `found`: keeps a pitch as
    /// the one to filter out next, finishes the session where nothing was
    /// found, and hands the answer on. A finished session stays finished and
    /// hands on nothing, whatever the answer.
    pub fn record(&mut self, found: Option<Pitch<T>>) -> (r: Option<Pitch<T>>)
        requires
            old(self).wf(),
        ensures
            r == (if old(self).finished() {
                None
            } else {
                found
            }),
            final(self).follows(old(self), r),
            final(self).remaining() == old(self).remaining(),
            final(self).gains() == old(self).gains(),
            final(self).transformed() == old(self).transformed(),
            final(self).detector() == old(self).detector(),
    {
        if self.finished {
            return None;
        }
        match found {
            Some(pitch) => {
                self.previous_pitch = Some(pitch);
            },
            None => {
                self.previous_pitch = None;
                self.finished = true;
            },
        }
        found
    }
}

impl<'a, D: PitchDetector<T>, T: FFTnum + ToPrimitive> Pitches<'a, D, T> {
    /// Whether `pitch` is an answer that some detector of this kind may give
    /// on some signal as long as the session's, with the session's sample
    /// rate and thresholds.
    pub open spec fn may_find(&self, pitch: Pitch<T>) -> bool {
        exists|detector: D, signal: Seq<T>|
            signal.len() == self.remaining().len() && #[trigger] detector.answers(
                signal,
                self.rate(),
                self.thresholds().0,
                self.thresholds().1,
                Some(pitch),
            )
    }

    /// Whether some detector of this kind may find nothing in what is left of
    /// the signal, with the session's sample rate and thresholds.
    pub open spec fn may_find_nothing(&self) -> bool {
        exists|detector: D| #[trigger]
            detector.answers(
                self.remaining(),
                self.rate(),
                self.thresholds().0,
                self.thresholds().1,
                None,
            )
    }

    /// Whether `answer` is what the session's own detector may give in the
    /// next step: on the signal that is left where no pitch is pending, on
    /// some signal of that length where one has to be filtered out first.
    pub open spec fn may_answer_next(&self, answer: Option<Pitch<T>>) -> bool {
        exists|signal: Seq<T>|
            {
                &&& signal.len() == self.remaining().len()
                &&& self.pending() is None ==> signal == self.remaining()
                &&& #[trigger] self.detector().answers(
                    signal,
                    self.rate(),
                    self.thresholds().0,
                    self.thresholds().1,
                    answer,
                )
            }
    }

    /// What one step makes of the session `self`: the session `after` and the
    /// answer `r`.
    pub open spec fn steps_to(&self, after: &Self, r: Option<Pitch<T>>) -> bool {
        // the answer is kept as the pitch to filter out next, and nothing
        // found finishes the session
        &&& after.follows(self, r)
        // a finished session answers nothing, asks nobody and changes nothing
        &&& self.finished() ==> r is None && after.remaining() == self.remaining()
            && after.detector() == self.detector()
        // otherwise the answer is the detector's, on what is then left of
        // the signal, with the session's sample rate and thresholds
        &&& !self.finished() ==> self.detector().answers(
            after.remaining(),
            self.rate(),
            self.thresholds().0,
            self.thresholds().1,
            r,
        )
        // with no pitch pending the signal stays as it is
        &&& self.pending() is None ==> after.remaining() == self.remaining()
        // a pending pitch is filtered out first: the gains are a comb for
        // its frequency, and what is left is the real part of what the
        // inverse transform wrote
        &&& self.pending() matches Some(pitch) ==> is_comb_for(
            after.gains(),
            pitch.frequency,
            self.notch_width(),
            self.remaining().len() as usize,
            self.rate(),
            (CombElements { fundamental: true, harmonics: true, edges: true }),
        )
        &&& self.pending() is Some ==> after.remaining() == real_parts(after.transformed())
    }

    /// One step: the next pitch, or `None` when the detector finds no more.
    ///
    /// The first step asks the detector about the signal as it was given.
    /// Every later step first filters out the pitch that the step before it
    /// reported, so the detector sees a signal from which all earlier pitches
    /// are gone. What comes back is the detector's answer on that signal, with
    /// the session's sample rate and thresholds. Once the detector has found
    /// nothing the session is finished: it answers `None` from then on and
    /// does not ask again.
    pub fn next(&mut self) -> (r: Option<Pitch<T>>)
        requires
            old(self).wf(),
        ensures
            old(self).steps_to(final(self), r),
    {
        if self.finished {
            return None;
        }
        match self.previous_pitch {
            Some(pitch) => {
                self.suppress(pitch);
            },
            None => {},
        }
        let found = self.detector.get_pitch(
            self.remaining_signal.as_slice(),
            self.sample_rate,
            self.power_threshold,
            self.clarity_threshold,
        );
        self.record(found)
    }

    /// The first of `found`, if there is one.
    pub open spec fn first_of(found: Seq<Pitch<T>>) -> Option<Pitch<T>> {
        if found.len() > 0 {
            Some(found[0])
        } else {
            None
        }
    }

    /// The pitches of up to `limit` steps, in the order in which they were
    /// found.
    ///
    /// The first of them is the answer of the session's detector in the
    /// first of these steps, and each is an answer of such a detector on a
    /// signal of the session's length. Fewer than `limit` come back only
    /// where a detector found nothing in what is then left of the signal,
    /// and the session is then finished; otherwise the last of them is the
    /// pitch that the next step will filter out.
    pub fn take(&mut self, limit: usize) -> (found: Vec<Pitch<T>>)
        requires
            old(self).wf(),
        ensures
            final(self).wf(),
            final(self).remaining().len() == old(self).remaining().len(),
            final(self).rate() == old(self).rate(),
            final(self).thresholds() == old(self).thresholds(),
            final(self).notch_width() == old(self).notch_width(),
            final(self).scale() == old(self).scale(),
            found@.len() <= limit,
            old(self).finished() ==> found@.len() == 0,
            limit > 0 && !old(self).finished() ==> old(self).may_answer_next(
                Self::first_of(found@),
            ),
            forall|i: int| 0 <= i < found@.len() ==> old(self).may_find(#[trigger] found@[i]),
            found@.len() < limit ==> final(self).finished(),
            found@.len() < limit && !old(self).finished() ==> final(self).may_find_nothing(),
            found@.len() > 0 && !final(self).finished() ==> final(self).pending() == Some(
                found@.last(),
            ),
            limit == 0 ==> final(self).remaining() == old(self).remaining(),
            limit == 0 ==> final(self).pending() == old(self).pending(),
            limit == 0 ==> final(self).finished() == old(self).finished(),
            limit == 0 ==> final(self).detector() == old(self).detector(),
    {
        let mut found: Vec<Pitch<T>> = Vec::new();
        while found.len() < limit
            invariant_except_break
                found@.len() == 0 ==> self.remaining() == old(self).remaining(),
                found@.len() == 0 ==> self.pending() == old(self).pending(),
                found@.len() == 0 ==> self.finished() == old(self).finished(),
                found@.len() == 0 ==> self.detector() == old(self).detector(),
                !old(self).finished() ==> !self.finished(),
            invariant
                self.wf(),
                self.remaining().len() == old(self).remaining().len(),
                self.rate() == old(self).rate(),
                self.thresholds() == old(self).thresholds(),
                self.notch_width() == old(self).notch_width(),
                self.scale() == old(self).scale(),
                forall|i: int| 0 <= i < found@.len() ==> old(self).may_find(#[trigger] found@[i]),
                found@.len() > 0 ==> old(self).may_answer_next(Some(found@[0])),
                found@.len() <= limit,
                old(self).finished() ==> self.finished() && found@.len() == 0,
                found@.len() > 0 ==> self.pending() == Some(found@.last()) || self.finished(),
            ensures
                found@.len() < limit ==> self.finished(),
                found@.len() < limit && !old(self).finished() ==> self.may_find_nothing(),
                limit > 0 && !old(self).finished() ==> old(self).may_answer_next(
                    Self::first_of(found@),
                ),
                limit == 0 ==> self.remaining() == old(self).remaining(),
                limit == 0 ==> self.pending() == old(self).pending(),
                limit == 0 ==> self.finished() == old(self).finished(),
                limit == 0 ==> self.detector() == old(self).detector(),
            decreases limit - found@.len(),
        {
            let ghost before = *self;
            let answer = self.next();
            proof {
                if !before.finished() {
                    assert(before.detector().answers(
                        self.remaining(),
                        before.rate(),
                        before.thresholds().0,
                        before.thresholds().1,
                        answer,
                    ));
                    if found@.len() == 0 {
                        assert(old(self).may_answer_next(answer));
                    }
                }
            }
            match answer {
                Some(pitch) => {
                    assert(old(self).may_find(pitch));
                    found.push(pitch);
                },
                None => {
                    assert(!old(self).finished() ==> self.may_find_nothing());
                    break ;
                },
            }
        }
        found
    }

    /// Two sessions that agree on detector, sample rate and thresholds, whose
    /// detector admits one answer only to each question, and that hand it
    /// the same signal in their next step, give the same answer in that step.
    pub proof fn lemma_answer_is_determined(
        a: &Self,
        a_next: &Self,
        a_answer: Option<Pitch<T>>,
        b: &Self,
        b_next: &Self,
        b_answer: Option<Pitch<T>>,
    )
        requires
            a.steps_to(a_next, a_answer),
            b.steps_to(b_next, b_answer),
            a.finished() == b.finished(),
            a.detector() == b.detector(),
            a.rate() == b.rate(),
            a.thresholds() == b.thresholds(),
            a_next.remaining() == b_next.remaining(),
            is_deterministic(a.detector()),
        ensures
            a_answer == b_answer,
            a_next.pending() == b_next.pending(),
            a_next.finished() == b_next.finished(),
    {
    }

    /// Two fresh sessions over the same signal with the same settings, whose
    /// detector admits one answer only to each question, give the same
    /// answer in their first step and keep the signal as it is.
    pub proof fn lemma_first_step_is_determined(
        a: &Self,
        a_next: &Self,
        a_answer: Option<Pitch<T>>,
        b: &Self,
        b_next: &Self,
        b_answer: Option<Pitch<T>>,
        signal: Seq<T>,
        sample_rate: usize,
        power_threshold: T,
        clarity_threshold: T,
    )
        requires
            a.starts_on(signal, sample_rate, power_threshold, clarity_threshold),
            b.starts_on(signal, sample_rate, power_threshold, clarity_threshold),
            a.detector() == b.detector(),
            is_deterministic(a.detector()),
            a.steps_to(a_next, a_answer),
            b.steps_to(b_next, b_answer),
        ensures
            a_answer == b_answer,
            a_next.remaining() == signal,
            b_next.remaining() == signal,
            a_next.pending() == b_next.pending(),
            a_next.finished() == b_next.finished(),
    {
        Self::lemma_answer_is_determined(a, a_next, a_answer, b, b_next, b_answer);
    }

    /// What is left of the signal.
    pub fn remaining_signal(&self) -> (signal: &[T])
        ensures
            signal@ == self.remaining(),
    {
        self.remaining_signal.as_slice()
    }

    /// The pitch that the last step reported.
    pub fn previous_pitch(&self) -> (pitch: Option<Pitch<T>>)
        ensures
            pitch == self.pending(),
    {
        self.previous_pitch
    }

    /// Whether the detector has found nothing once.
    pub fn is_finished(&self) -> (finished: bool)
        ensures
            finished == self.finished(),
    {
        self.finished
    }
}

} // verus!
