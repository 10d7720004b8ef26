use vstd::prelude::*;

verus! {

/// The error returned when a pool is requested with no workers.
#[derive(Debug, Clone, Copy, PartialEq, Eq)]
pub struct PoolCreationError;

} // verus!
