//! Buffer helpers shared by the detectors.

pub mod buffer;
pub mod filters;
