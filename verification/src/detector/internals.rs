//! The value that a pitch detector reports.

use vstd::prelude::*;

verus! {

/// An estimated fundamental frequency, in hertz, with the detector's own
/// measure of how reliable the estimate is.
#[derive(Clone, Copy, Debug)]
pub struct Pitch<T: Copy> {
    pub frequency: T,
    pub clarity: T,
}

} // verus!
