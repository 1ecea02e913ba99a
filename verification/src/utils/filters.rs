//! A comb filter in the frequency domain: a gain for every bin of a discrete
//! Fourier transform, which closes the bins near a fundamental frequency and
//! near its harmonics and lets all other bins pass.
//!
//! Frequencies are measured on an integer grid of `BIN_STEPS` steps per bin,
//! so which bins a filter closes is decided in integer arithmetic. Only the
//! conversion from hertz to steps works on sample values.

use num_traits::ToPrimitive;
use rustfft::FFTnum;
use vstd::float::float_cast_spec;
use vstd::prelude::*;
use vstd::std_specs::ops::div_ensures;
use vstd::std_specs::ops::mul_ensures;

use crate::float::divide;
use crate::float::from_usize;
use crate::float::multiply;
use crate::float::one;
use crate::float::to_u64;
use crate::float::zero;
use crate::utils::buffer::filled;

verus! {

/// The number of grid steps between two neighbouring bins.
pub const BIN_STEPS: u64 = 256;

/// Which parts of a comb filter are switched on.
#[derive(Clone, Copy, Debug)]
pub struct CombElements {
    /// Close the bins around the fundamental.
    pub fundamental: bool,
    /// Close the bins around every harmonic from the second on.
    pub harmonics: bool,
    /// Close the two edge bins: bin 0, and the Nyquist bin of an even size.
    pub edges: bool,
}

/// The bin below the Nyquist frequency that carries the same frequency as
/// bin `i` of a transform of size `n`.
pub open spec fn folded(i: int, n: int) -> int {
    if 2 * i <= n {
        i
    } else {
        n - i
    }
}

/// The distance between two grid positions.
pub open spec fn distance(a: int, b: int) -> int {
    if a >= b {
        a - b
    } else {
        b - a
    }
}

/// Whether the grid position `pos` lies within `half_width` steps of the
/// `k`-th multiple of `center`.
pub open spec fn hits(pos: int, center: int, half_width: int, k: int) -> bool {
    distance(pos, k * center) <= half_width
}

/// Whether `pos` lies within `half_width` steps of a harmonic from the second
/// on.
pub open spec fn hits_harmonic(pos: int, center: int, half_width: int) -> bool {
    exists|k: int| k >= 2 && #[trigger] hits(pos, center, half_width, k)
}

/// Whether a comb filter centred at grid position `center` closes bin `i` of
/// a transform of size `n`.
pub open spec fn closes(
    i: int,
    n: int,
    center: int,
    half_width: int,
    elements: CombElements,
) -> bool {
    let pos = folded(i, n) * (BIN_STEPS as int);
    ||| elements.fundamental && hits(pos, center, half_width, 1)
    ||| elements.harmonics && hits_harmonic(pos, center, half_width)
    ||| elements.edges && (i == 0 || 2 * i == n)
}

/// The gains of a comb filter over `n` bins: `zero` on the bins that it
/// closes, `one` on all others.
pub open spec fn comb_mask<T>(
    n: nat,
    center: int,
    half_width: int,
    elements: CombElements,
    zero: T,
    one: T,
) -> Seq<T> {
    Seq::new(
        n,
        |i: int|
            if closes(i, n as int, center, half_width, elements) {
                zero
            } else {
                one
            },
    )
}

/// The gains over `n` bins for a pitch at grid position `center` and notches
/// `width` steps wide, half of them to each side. Where either has no grid
/// position, nothing can be closed and every bin passes.
pub open spec fn comb_gains<T>(
    n: nat,
    center: Option<u64>,
    width: Option<u64>,
    elements: CombElements,
    zero: T,
    one: T,
) -> Seq<T> {
    match (center, width) {
        (Some(center), Some(width)) => comb_mask(
            n,
            center as int,
            (width / 2) as int,
            elements,
            zero,
            one,
        ),
        _ => filled(n, one),
    }
}

/// `steps` is a grid position of the frequency `hz` for a transform of `size`
/// bins at `sample_rate` samples per second: a result of converting the two
/// counts and `BIN_STEPS` to sample values, computing
/// `hz * size * BIN_STEPS / sample_rate` with them, and converting the
/// quotient to an integer.
pub open spec fn is_grid_position<T>(hz: T, size: usize, sample_rate: usize, steps: u64) -> bool {
    exists|bins: T, rate: T, scale: T, in_bins: T, in_steps: T, position: T|
        #![trigger
            float_cast_spec::<usize, T>(size, bins),
            float_cast_spec::<usize, T>(sample_rate, rate),
            mul_ensures::<T>(in_bins, scale, in_steps),
            float_cast_spec::<T, u64>(position, steps),
        ]
        {
            &&& float_cast_spec::<usize, T>(size, bins)
            &&& float_cast_spec::<usize, T>(sample_rate, rate)
            &&& float_cast_spec::<usize, T>(BIN_STEPS as usize, scale)
            &&& mul_ensures::<T>(hz, bins, in_bins)
            &&& mul_ensures::<T>(in_bins, scale, in_steps)
            &&& div_ensures::<T>(in_steps, rate, position)
            &&& float_cast_spec::<T, u64>(position, steps)
        }
}

/// What `comb_filter` leaves in a gain buffer of `size` entries: the gains
/// made from some pair of values for a grid position of `frequency` and a
/// grid width of `beta`, or for none where none was found.
pub open spec fn is_comb_for<T>(
    gains: Seq<T>,
    frequency: T,
    beta: T,
    size: usize,
    sample_rate: usize,
    elements: CombElements,
) -> bool {
    exists|center: Option<u64>, width: Option<u64>, zero: T, one: T|
        {
            &&& gains == #[trigger] comb_gains(size as nat, center, width, elements, zero, one)
            &&& center matches Some(c) ==> is_grid_position(frequency, size, sample_rate, c)
            &&& width matches Some(w) ==> is_grid_position(beta, size, sample_rate, w)
        }
}

/// Among the harmonics from the second on, the one just below `pos` and the
/// one just above it decide whether any lies within `half_width` of `pos`.
pub proof fn lemma_nearest_harmonic(pos: int, center: int, half_width: int)
    requires
        pos >= 0,
        center > 0,
        half_width >= 0,
    ensures
        hits_harmonic(pos, center, half_width) <==> {
            let below = pos / center;
            if below >= 2 {
                hits(pos, center, half_width, below) || hits(pos, center, half_width, below + 1)
            } else {
                hits(pos, center, half_width, 2)
            }
        },
{
    let below = pos / center;
    assert(below * center <= pos < (below + 1) * center) by (nonlinear_arith)
        requires
            below == pos / center,
            pos >= 0,
            center > 0,
    ;
    if hits_harmonic(pos, center, half_width) {
        let k = choose|k: int| k >= 2 && #[trigger] hits(pos, center, half_width, k);
        if k <= below {
            assert(k * center <= below * center) by (nonlinear_arith)
                requires
                    k <= below,
                    center > 0,
            ;
            assert(hits(pos, center, half_width, below));
        } else if below >= 1 {
            assert((below + 1) * center <= k * center) by (nonlinear_arith)
                requires
                    below + 1 <= k,
                    center > 0,
            ;
            assert(hits(pos, center, half_width, below + 1));
        } else {
            assert(2 * center <= k * center) by (nonlinear_arith)
                requires
                    2 <= k,
                    center > 0,
            ;
            assert(pos < 2 * center) by (nonlinear_arith)
                requires
                    pos < (below + 1) * center,
                    below < 1,
                    center > 0,
            ;
            assert(hits(pos, center, half_width, 2));
        }
    }
}

/// Every gain is one of the two values that the gains were made from: the
/// one that closes a bin, or the one that lets it pass.
pub proof fn lemma_gains_are_binary<T>(
    n: nat,
    center: Option<u64>,
    width: Option<u64>,
    elements: CombElements,
    zero: T,
    one: T,
    i: int,
)
    requires
        0 <= i < n,
    ensures
        comb_gains(n, center, width, elements, zero, one)[i] == zero || comb_gains(
            n,
            center,
            width,
            elements,
            zero,
            one,
        )[i] == one,
{
}

/// A comb filter treats a bin and its mirror image alike, so it keeps the
/// spectrum of a real signal conjugate-symmetric.
pub proof fn lemma_mask_is_symmetric<T>(
    n: nat,
    center: int,
    half_width: int,
    elements: CombElements,
    zero: T,
    one: T,
    i: int,
)
    requires
        0 < i < n,
    ensures
        comb_mask(n, center, half_width, elements, zero, one)[i] == comb_mask(
            n,
            center,
            half_width,
            elements,
            zero,
            one,
        )[n - i],
{
    assert(folded(i, n as int) == folded(n - i, n as int));
}

/// Whether a comb filter closes bin `i`.
pub fn closes_bin(i: usize, n: usize, center: u64, half_width: u64, elements: CombElements) -> (r:
    bool)
    requires
        i < n,
    ensures
        r == closes(i as int, n as int, center as int, half_width as int, elements),
{
    let j: usize = if i <= n - i {
        i
    } else {
        n - i
    };
    assert(j == folded(i as int, n as int));
    let pos: u128 = (j as u128) * (BIN_STEPS as u128);
    let c: u128 = center as u128;
    let w: u128 = half_width as u128;
    if elements.edges && (i == 0 || i == n - i) {
        return true;
    }
    if elements.fundamental {
        let d: u128 = if pos >= c {
            pos - c
        } else {
            c - pos
        };
        assert(1 * (center as int) == center as int);
        if d <= w {
            return true;
        }
    }
    if elements.harmonics {
        if c == 0 {
            assert forall|k: int| (#[trigger] hits(pos as int, 0, w as int, k)) == (pos <= w) by {
                assert(k * 0 == 0);
            }
            if pos <= w {
                assert(hits(pos as int, 0, w as int, 2));
                return true;
            }
        } else {
            proof {
                lemma_nearest_harmonic(pos as int, c as int, w as int);
            }
            let below: u128 = pos / c;
            assert(below * c <= pos < (below + 1) * c) by (nonlinear_arith)
                requires
                    below == pos / c,
                    c > 0,
            ;
            assert((below + 1) * c == below * c + c) by (nonlinear_arith);
            if below >= 2 {
                if pos - below * c <= w || (below + 1) * c - pos <= w {
                    return true;
                }
            } else {
                let second: u128 = 2 * c;
                let d: u128 = if pos >= second {
                    pos - second
                } else {
                    second - pos
                };
                if d <= w {
                    return true;
                }
            }
        }
    }
    false
}

/// Writes the gains of a comb filter into `gains`, one for each bin.
pub fn fill_comb_mask<T: Copy>(
    gains: &mut [T],
    center: u64,
    half_width: u64,
    elements: CombElements,
    zero: T,
    one: T,
)
    ensures
        final(gains)@ == comb_mask(
            old(gains)@.len(),
            center as int,
            half_width as int,
            elements,
            zero,
            one,
        ),
{
    let n = gains.len();
    let mut i: usize = 0;
    while i < n
        invariant
            i <= n,
            n == gains@.len(),
            n == old(gains)@.len(),
            forall|k: int|
                0 <= k < i ==> gains@[k] == comb_mask(
                    n as nat,
                    center as int,
                    half_width as int,
                    elements,
                    zero,
                    one,
                )[k],
        decreases n - i,
    {
        if closes_bin(i, n, center, half_width, elements) {
            gains[i] = zero;
        } else {
            gains[i] = one;
        }
        i += 1;
    }
    assert(gains@ =~= comb_mask(
        n as nat,
        center as int,
        half_width as int,
        elements,
        zero,
        one,
    ));
}

/// Writes `value` into every entry of `buffer`.
pub fn fill<T: Copy>(buffer: &mut [T], value: T)
    ensures
        final(buffer)@ == filled(old(buffer)@.len(), value),
{
    let n = buffer.len();
    let mut i: usize = 0;
    while i < n
        invariant
            i <= n,
            n == buffer@.len(),
            n == old(buffer)@.len(),
            forall|k: int| 0 <= k < i ==> buffer@[k] == value,
        decreases n - i,
    {
        buffer[i] = value;
        i += 1;
    }
    assert(buffer@ =~= filled(n as nat, value));
}

/// Writes into `gains` the gains for a pitch at grid position `center` and
/// notches `width` steps wide.
pub fn write_comb_gains<T: Copy>(
    gains: &mut [T],
    center: Option<u64>,
    width: Option<u64>,
    elements: CombElements,
    zero: T,
    one: T,
)
    ensures
        final(gains)@ == comb_gains(old(gains)@.len(), center, width, elements, zero, one),
{
    match (center, width) {
        (Some(center), Some(width)) => {
            fill_comb_mask(gains, center, width / 2, elements, zero, one);
        },
        _ => {
            fill(gains, one);
        },
    }
}

/// The grid position of the frequency `hz` for a transform of `size` bins at
/// `sample_rate` samples per second: `hz * size * BIN_STEPS / sample_rate`,
/// computed in the sample type and truncated. `None` where the sample type
/// cannot represent one of the counts, or the position is no integer in
/// range (a negative or undefined frequency, a sample rate of zero).
pub fn hz_to_steps<T: FFTnum + ToPrimitive>(hz: T, size: usize, sample_rate: usize) -> (r: Option<
    u64,
>)
    ensures
        r matches Some(steps) ==> is_grid_position(hz, size, sample_rate, steps),
{
    let bins: Option<T> = from_usize(size);
    let rate: Option<T> = from_usize(sample_rate);
    let scale: Option<T> = from_usize(BIN_STEPS as usize);
    match (bins, rate, scale) {
        (Some(bins), Some(rate), Some(scale)) => {
            let in_bins = multiply(hz, bins);
            let in_steps = multiply(in_bins, scale);
            let position = divide(in_steps, rate);
            to_u64(position)
        },
        _ => None,
    }
}

/// Writes into `comb` the gains of a comb filter for the pitch `frequency`,
/// with notches `beta` hertz wide, over the `size` bins of a transform at
/// `sample_rate` samples per second.
///
/// Where the frequency or the width has no grid position, nothing can be
/// closed and every bin passes.
pub fn comb_filter<T: FFTnum + ToPrimitive>(
    frequency: T,
    beta: T,
    size: usize,
    sample_rate: usize,
    comb: &mut [T],
    elements: CombElements,
)
    requires
        old(comb)@.len() == size,
    ensures
        is_comb_for(final(comb)@, frequency, beta, size, sample_rate, elements),
{
    let zero: T = zero();
    let one: T = one();
    let center = hz_to_steps(frequency, size, sample_rate);
    let width = hz_to_steps(beta, size, sample_rate);
    write_comb_gains(comb, center, width, elements, zero, one);
}

} // verus!
