use vstd::prelude::*;

verus! {

/// Whether `n` is even.
pub fn is_even(n: i32) -> (r: bool)
    ensures
        r == (n % 2 == 0),
{
    n % 2 == 0
}

} // verus!
