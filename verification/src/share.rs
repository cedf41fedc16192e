use std::sync::Arc;
use vstd::prelude::*;

verus! {

/// `Arc::clone`: another handle to the same allocation. The value behind
/// the new handle is the value behind `handle`, and nothing is copied.
#[verifier::external_body]
pub(crate) fn clone_arc<T>(handle: &Arc<T>) -> (other: Arc<T>)
    ensures
        other == *handle,
{
    Arc::clone(handle)
}

} // verus!
