use vstd::prelude::*;

verus! {

/// Takes `name`, appends `"John"` to it and hands it back.
pub fn make_greeting(name: String) -> (r: String)
    ensures
        r@ == name@ + "John"@,
{
    let mut name = name;
    name.append("John");
    name
}

} // verus!
