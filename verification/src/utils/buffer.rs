//! Allocation of real and complex buffers, and copies between the two.

use num_complex::Complex;
use num_traits::Zero;
use vstd::prelude::*;

use crate::float::zero;

verus! {

/// `num_complex::Complex<T>`: a pair of public fields `re` and `im`, both of
/// type `T`. Verus reads the two fields from the definition itself.
#[verifier::external_type_specification]
#[verifier::reject_recursive_types(T)]
pub struct ExComplex<T>(Complex<T>);

/// Which half of a complex number a real sample is stored in or read from.
#[derive(Clone, Copy, Debug)]
pub enum ComplexComponent {
    Re,
    Im,
}

/// The complex number that holds `x` in `component` and `fill` in the other.
pub open spec fn embed<T>(x: T, fill: T, component: ComplexComponent) -> Complex<T> {
    match component {
        ComplexComponent::Re => Complex { re: x, im: fill },
        ComplexComponent::Im => Complex { re: fill, im: x },
    }
}

/// The chosen half of `c`.
pub open spec fn project<T>(c: Complex<T>, component: ComplexComponent) -> T {
    match component {
        ComplexComponent::Re => c.re,
        ComplexComponent::Im => c.im,
    }
}

/// The other half.
pub open spec fn opposite(component: ComplexComponent) -> ComplexComponent {
    match component {
        ComplexComponent::Re => ComplexComponent::Im,
        ComplexComponent::Im => ComplexComponent::Re,
    }
}

/// A complex buffer of `len` entries made from `input`: entry `i` embeds
/// `input[i]`, and every entry past the input holds `fill` in both halves.
pub open spec fn real_to_complex<T>(
    input: Seq<T>,
    len: nat,
    component: ComplexComponent,
    fill: T,
) -> Seq<Complex<T>> {
    Seq::new(
        len,
        |i: int|
            if i < input.len() {
                embed(input[i], fill, component)
            } else {
                Complex { re: fill, im: fill }
            },
    )
}

/// A real buffer of `len` entries made from `input`: entry `i` is the chosen
/// half of `input[i]`, and every entry past the input is `fill`.
pub open spec fn complex_to_real<T>(
    input: Seq<Complex<T>>,
    len: nat,
    component: ComplexComponent,
    fill: T,
) -> Seq<T> {
    Seq::new(
        len,
        |i: int|
            if i < input.len() {
                project(input[i], component)
            } else {
                fill
            },
    )
}

/// The sequence of `len` entries that all equal `value`.
pub open spec fn filled<T>(len: nat, value: T) -> Seq<T> {
    Seq::new(len, |i: int| value)
}

/// `x` followed by `fill` up to length `len`.
pub open spec fn padded<T>(x: Seq<T>, len: nat, fill: T) -> Seq<T> {
    Seq::new(
        len,
        |i: int|
            if i < x.len() {
                x[i]
            } else {
                fill
            },
    )
}

/// A real buffer of `size` entries, each equal to `value`.
pub fn new_real_buffer_with<T: Copy>(size: usize, value: T) -> (buffer: Vec<T>)
    ensures
        buffer@ == filled(size as nat, value),
{
    let mut buffer: Vec<T> = Vec::new();
    let mut i: usize = 0;
    while i < size
        invariant
            i <= size,
            buffer@ == filled(i as nat, value),
        decreases size - i,
    {
        buffer.push(value);
        i += 1;
        assert(buffer@ =~= filled(i as nat, value));
    }
    buffer
}

/// A complex buffer of `size` entries, each equal to `value`.
pub fn new_complex_buffer_with<T: Copy>(size: usize, value: Complex<T>) -> (buffer: Vec<
    Complex<T>,
>)
    ensures
        buffer@ == filled(size as nat, value),
{
    let mut buffer: Vec<Complex<T>> = Vec::new();
    let mut i: usize = 0;
    while i < size
        invariant
            i <= size,
            buffer@ == filled(i as nat, value),
        decreases size - i,
    {
        buffer.push(Complex { re: value.re, im: value.im });
        i += 1;
        assert(buffer@ =~= filled(i as nat, value));
    }
    buffer
}

/// Copies `input` into the chosen half of the first entries of `output`, and
/// writes `fill` everywhere else: into the other half of those entries, and
/// into both halves of the entries past the input.
pub fn copy_real_to_complex_with<T: Copy>(
    input: &[T],
    output: &mut [Complex<T>],
    component: ComplexComponent,
    fill: T,
)
    requires
        input@.len() <= old(output)@.len(),
    ensures
        final(output)@ == real_to_complex(input@, old(output)@.len(), component, fill),
{
    let n = output.len();
    let m = input.len();
    let mut i: usize = 0;
    while i < n
        invariant
            i <= n,
            m == input@.len(),
            m <= n,
            n == output@.len(),
            n == old(output)@.len(),
            forall|k: int|
                0 <= k < i ==> output@[k] == real_to_complex(input@, n as nat, component, fill)[k],
        decreases n - i,
    {
        if i < m {
            let x = input[i];
            match component {
                ComplexComponent::Re => {
                    output[i] = Complex { re: x, im: fill };
                },
                ComplexComponent::Im => {
                    output[i] = Complex { re: fill, im: x };
                },
            }
        } else {
            output[i] = Complex { re: fill, im: fill };
        }
        i += 1;
    }
    assert(output@ =~= real_to_complex(input@, n as nat, component, fill));
}

/// Copies the chosen half of each entry of `input` into `output`, and writes
/// `fill` into the entries of `output` past the input.
pub fn copy_complex_to_real_with<T: Copy>(
    input: &[Complex<T>],
    output: &mut [T],
    component: ComplexComponent,
    fill: T,
)
    requires
        input@.len() <= old(output)@.len(),
    ensures
        final(output)@ == complex_to_real(input@, old(output)@.len(), component, fill),
{
    let n = output.len();
    let m = input.len();
    let mut i: usize = 0;
    while i < n
        invariant
            i <= n,
            m == input@.len(),
            m <= n,
            n == output@.len(),
            n == old(output)@.len(),
            forall|k: int|
                0 <= k < i ==> output@[k] == complex_to_real(input@, n as nat, component, fill)[k],
        decreases n - i,
    {
        if i < m {
            match component {
                ComplexComponent::Re => {
                    output[i] = input[i].re;
                },
                ComplexComponent::Im => {
                    output[i] = input[i].im;
                },
            }
        } else {
            output[i] = fill;
        }
        i += 1;
    }
    assert(output@ =~= complex_to_real(input@, n as nat, component, fill));
}

/// A real buffer of `size` entries, each the zero of `T`.
///
/// The zero is a sample value, which the contract cannot name: it says that
/// one value fills the buffer.
pub fn new_real_buffer<T: Copy + Zero>(size: usize) -> (buffer: Vec<T>)
    ensures
        buffer@.len() == size,
        exists|fill: T| buffer@ == #[trigger] filled(size as nat, fill),
{
    let fill: T = zero();
    new_real_buffer_with(size, fill)
}

/// A complex buffer of `size` entries, each with the zero of `T` in both
/// halves.
///
/// The zero is a sample value, which the contract cannot name: it says that
/// one value fills the buffer.
pub fn new_complex_buffer<T: Copy + Zero>(size: usize) -> (buffer: Vec<Complex<T>>)
    ensures
        buffer@.len() == size,
        exists|fill: T| buffer@ == #[trigger] filled(size as nat, (Complex { re: fill, im: fill })),
{
    let fill: T = zero();
    new_complex_buffer_with(size, Complex { re: fill, im: fill })
}

/// Copies `input` into the chosen half of the first entries of `output` and
/// clears the rest with the zero of `T`: the other half of those entries, and
/// both halves of the entries past the input.
///
/// The zero is a sample value, which the contract cannot name: it says that
/// one value fills all those places.
pub fn copy_real_to_complex<T: Copy + Zero>(
    input: &[T],
    output: &mut [Complex<T>],
    component: ComplexComponent,
)
    requires
        input@.len() <= old(output)@.len(),
    ensures
        exists|fill: T|
            final(output)@ == #[trigger] real_to_complex(
                input@,
                old(output)@.len(),
                component,
                fill,
            ),
{
    let fill: T = zero();
    copy_real_to_complex_with(input, output, component, fill);
}

/// Copies the chosen half of each entry of `input` into `output` and clears
/// the entries of `output` past the input with the zero of `T`.
///
/// The zero is a sample value, which the contract cannot name: it says that
/// one value fills all those places.
pub fn copy_complex_to_real<T: Copy + Zero>(
    input: &[Complex<T>],
    output: &mut [T],
    component: ComplexComponent,
)
    requires
        input@.len() <= old(output)@.len(),
    ensures
        exists|fill: T|
            final(output)@ == #[trigger] complex_to_real(
                input@,
                old(output)@.len(),
                component,
                fill,
            ),
{
    let fill: T = zero();
    copy_complex_to_real_with(input, output, component, fill);
}

/// Converting a real buffer to a complex one and back returns the samples,
/// followed by the fill value up to the length of the last buffer.
pub proof fn lemma_round_trip_selected<T>(
    x: Seq<T>,
    complex_len: nat,
    real_len: nat,
    component: ComplexComponent,
    fill: T,
)
    requires
        x.len() <= complex_len <= real_len,
    ensures
        complex_to_real(real_to_complex(x, complex_len, component, fill), real_len, component, fill)
            == padded(x, real_len, fill),
{
    let c = real_to_complex(x, complex_len, component, fill);
    assert(complex_to_real(c, real_len, component, fill) =~= padded(x, real_len, fill));
}

/// Reading the half that was not chosen gives the fill value at every index.
pub proof fn lemma_round_trip_unselected<T>(
    x: Seq<T>,
    complex_len: nat,
    real_len: nat,
    component: ComplexComponent,
    fill: T,
)
    requires
        x.len() <= complex_len <= real_len,
    ensures
        complex_to_real(
            real_to_complex(x, complex_len, component, fill),
            real_len,
            opposite(component),
            fill,
        ) == filled(real_len, fill),
{
    let c = real_to_complex(x, complex_len, component, fill);
    assert(complex_to_real(c, real_len, opposite(component), fill) =~= filled(real_len, fill));
}

/// Past the input, a converted buffer holds the fill value: in both halves of
/// a complex buffer, and in a real buffer.
pub proof fn lemma_tail_is_fill<T>(
    x: Seq<T>,
    c: Seq<Complex<T>>,
    len: nat,
    component: ComplexComponent,
    fill: T,
    i: int,
)
    requires
        0 <= i < len,
    ensures
        x.len() <= i ==> real_to_complex(x, len, component, fill)[i] == (Complex {
            re: fill,
            im: fill,
        }),
        c.len() <= i ==> complex_to_real(c, len, component, fill)[i] == fill,
{
}

} // verus!
