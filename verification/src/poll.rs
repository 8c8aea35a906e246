use vstd::prelude::*;

verus! {

/// What polling a future came to: its output, or that it is not done yet.
#[derive(Debug)]
pub enum Poll<T> {
    Ready(T),
    Pending,
}

} // verus!
