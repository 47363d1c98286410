//! Reading a counter that may be absent.
use vstd::prelude::*;

verus! {

#[derive(Debug, PartialEq, Eq, Structural)]
pub struct Counter {
    pub value: u32,
}

/// Reads the counter's value, or returns `None` if there is no counter.
pub fn counter_value(counter: Option<&Counter>) -> (r: Option<u32>)
    ensures
        r == (match counter {
            Some(c) => Some(c.value),
            None => None,
        }),
{
    match counter {
        Some(c) => Some(c.value),
        None => None,
    }
}

} // verus!
