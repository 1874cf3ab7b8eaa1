//! Failure kinds reported by the proof accessors and the security estimator.

use vstd::prelude::*;

verus! {

/// Why a proof parameter set was rejected.
///
/// Every failure is a deterministic function of the inputs; none is transient.
#[derive(Clone, Copy, Debug, PartialEq, Eq, Structural)]
pub enum ProofError {
    /// The provable (non-conjectured) security level was requested; no
    /// estimator exists for it.
    Unsupported,
    /// The parameters are malformed: a zero modulus, a domain that is not a
    /// power of two or not larger than the trace, an inexact division, or a
    /// domain depth beyond the machine word.
    InvalidInput,
    /// The parameters are well formed, but the estimate would be negative.
    Overflow,
}

} // verus!
