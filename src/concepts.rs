use vstd::prelude::*;

verus! {

/// Adds two small signed integers; the sum must fit in an `i8`.
pub fn func_with_return(a: i8, b: i8) -> (r: i8)
    requires
        i8::MIN <= a + b <= i8::MAX,
    ensures
        r == a + b,
{
    a + b
}

} // verus!
