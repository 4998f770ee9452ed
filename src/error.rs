use vstd::prelude::*;

verus! {

/// The configuration error: a pool was asked for with no workers.
#[derive(Debug, Clone, Copy, PartialEq, Eq, Structural)]
pub struct PoolCreationError;

/// Checks a requested pool size: it is valid exactly when it is positive.
pub fn validate_size(size: usize) -> (r: Result<usize, PoolCreationError>)
    ensures
        size == 0 <==> r is Err,
        r is Ok ==> r->Ok_0 == size,
{
    if size == 0 {
        Err(PoolCreationError)
    } else {
        Ok(size)
    }
}

} // verus!
