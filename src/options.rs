use vstd::prelude::*;

verus! {

/// The position of the first `'a'` in `s`, counted in characters, if there is one.
pub fn find_first_a(s: &String) -> (r: Option<i32>)
    requires
        s@.len() <= i32::MAX,
    ensures
        match r {
            Some(i) => 0 <= i < s@.len() && s@[i as int] == 'a' && forall|j: int|
                0 <= j < i ==> s@[j] != 'a',
            None => forall|j: int| 0 <= j < s@.len() ==> s@[j] != 'a',
        },
{
    let mut idx: i32 = 0;
    for ch in it: s.as_str().chars()
        invariant
            it.seq() == s@,
            s@.len() <= i32::MAX,
            idx == it.index(),
            forall|j: int| 0 <= j < idx ==> s@[j] != 'a',
    {
        if ch == 'a' {
            return Some(idx);
        }
        idx = idx + 1;
    }
    None
}

} // verus!
