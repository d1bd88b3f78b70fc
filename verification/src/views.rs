//! Types shared with the source-view UI: the per-line trace display states
//! and the columns of the source table.

use vstd::prelude::*;

verus! {

/// Display state of one measurement cell (latency or frequency) for a source
/// line: not traced, trace requested but no data yet, or traced with a value.
#[derive(Clone, Copy, Debug)]
pub enum TraceState<T> {
    Untraced,
    Pending,
    Traced(T),
}

impl<T> TraceState<T> {
    /// True when a measurement value is present.
    pub fn is_traced(&self) -> (r: bool)
        ensures
            r == self is Traced,
    {
        match self {
            TraceState::Traced(_) => true,
            _ => false,
        }
    }
}

/// Columns of the source-view table, in display order.
#[derive(Clone, Copy, Debug, PartialEq, Eq, Hash, Structural)]
pub enum Column {
    Latency,
    Frequency,
    LineNumber,
    Line,
}

} // verus!
