//! Shared pointers.

use std::rc::Rc;
use vstd::prelude::*;

verus! {

/// Another pointer to the value that `rc` points to.
///
/// This calls `Rc::clone`, which is documented to make a clone of the pointer that
/// points to the same allocation; so both point to the same value.
#[verifier::external_body]
pub(crate) fn share<T>(rc: &Rc<T>) -> (r: Rc<T>)
    ensures
        r == *rc,
{
    Rc::clone(rc)
}

} // verus!
