use vstd::prelude::*;

verus! {

/// Why a decomposition run failed.
///
/// Every failure aborts the run: there is no partial result and no
/// internal retry.
#[derive(Debug, Clone, PartialEq, Eq)]
pub enum Error {
    /// The requested period collection was empty or held a period no
    /// greater than one: non-seasonal data is not supported.
    InvalidInput,
    /// No period survived normalization, so no single-season fit was
    /// ever produced: every requested period exceeded half the series
    /// length.
    NoFitProduced,
    /// A single-season decomposition failed; its message is kept
    /// verbatim.
    UnderlyingDecompositionFailure(String),
}

} // verus!
