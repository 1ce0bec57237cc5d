//! The result of asking once whether an operation is done.

use vstd::prelude::*;

verus! {

/// Done with a value, or not yet.
#[derive(Debug, PartialEq, Eq)]
pub enum Poll<T> {
    /// Done.
    Ready(T),
    /// Not yet; the registered waker will be woken.
    Pending,
}

} // verus!
