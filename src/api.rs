//! The error channel for local, non-attributable failures.
use vstd::prelude::*;

verus! {

/// A local, non-attributable failure: the session cannot go on.
#[derive(Clone, Copy, Debug, PartialEq, Eq, Structural)]
pub struct TofnFatal;

pub type TofnResult<T> = Result<T, TofnFatal>;

} // verus!
