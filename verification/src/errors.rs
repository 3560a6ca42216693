use vstd::prelude::*;

verus! {

/// Error taxonomy of the pipeline.
///
/// Header, coverage and degenerate-interval failures are fatal to a run;
/// per-record failures carry the index of the offending record or line.
#[derive(Clone, Copy, Debug, PartialEq, Eq, Structural)]
pub enum Error {
    /// The point-file header had no terminator line before end of input.
    MalformedHeader,
    /// A record boundary fell short of the fixed record size; carries the
    /// index of the record that could not be completed.
    TruncatedRecord(usize),
    /// Timestamps of the point or pose stream decreased; carries the index
    /// of the record or line at which they did.
    NonMonotonicInput(usize),
    /// Two bracketing poses share a timestamp, so the interpolation
    /// fraction is undefined.
    DegeneratePoseInterval,
    /// The pose time span does not cover the point time span.
    CoverageViolation,
    /// An output write failed (reported by the caller that owns the sink).
    WriteFailure,
    /// A generic open or seek failure (reported by the caller that owns
    /// the files).
    IOFailure,
}

} // verus!
