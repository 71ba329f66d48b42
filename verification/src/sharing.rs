//! Handles on shared, immutable values.

use std::sync::Arc;
use vstd::prelude::*;

verus! {

/// `Arc::clone` of std: a second handle on the allocation that `handle`
/// points to. The value behind the new handle is the value behind the old one.
#[verifier::external_body]
pub(crate) fn share<T>(handle: &Arc<T>) -> (r: Arc<T>)
    ensures
        r == *handle,
{
    Arc::clone(handle)
}

} // verus!
