//! Optional timing spans around enumeration, icon resolution and painting.
use vstd::prelude::*;

verus! {

/// A timing span. Builds without performance diagnostics measure nothing,
/// so the span is empty.
#[derive(Clone, Copy, PartialEq, Eq, Debug)]
pub struct PerfSpan;

impl PerfSpan {
    /// Opens the span named `name`.
    pub fn new(name: &str) -> (s: PerfSpan)
        ensures
            s == PerfSpan,
    {
        PerfSpan
    }
}

} // verus!
