use vstd::hash_map::StringHashMap;
use vstd::prelude::*;

verus! {

/// The even numbers of `s`, in their order.
pub open spec fn evens(s: Seq<i32>) -> Seq<i32>
    decreases s.len(),
{
    if s.len() == 0 {
        seq![]
    } else if s.last() % 2 == 0 {
        evens(s.drop_last()).push(s.last())
    } else {
        evens(s.drop_last())
    }
}

/// The values paired with `key` in `pairs`, in their order.
pub open spec fn values_for(pairs: Seq<(String, i32)>, key: Seq<char>) -> Seq<i32>
    decreases pairs.len(),
{
    if pairs.len() == 0 {
        seq![]
    } else if pairs.last().0@ == key {
        values_for(pairs.drop_last(), key).push(pairs.last().1)
    } else {
        values_for(pairs.drop_last(), key)
    }
}

/// Keeps the even numbers of `vec`, in order.
pub fn even_filter(vec: &Vec<i32>) -> (r: Vec<i32>)
    ensures
        r@ == evens(vec@),
{
    let mut r: Vec<i32> = Vec::new();
    let mut i: usize = 0;
    assert(vec@.subrange(0, 0) =~= Seq::<i32>::empty());
    while i < vec.len()
        invariant
            i <= vec.len(),
            r@ == evens(vec@.subrange(0, i as int)),
        decreases vec.len() - i,
    {
        let val = vec[i];
        assert(vec@.subrange(0, i + 1).drop_last() =~= vec@.subrange(0, i as int));
        if val % 2 == 0 {
            r.push(val);
        }
        i = i + 1;
    }
    assert(vec@.subrange(0, vec.len() as int) =~= vec@);
    r
}

/// Groups the values of `pairs` by their key: each key that occurs maps to its values,
/// in the order they come.
pub fn group_values_by_key(pairs: &Vec<(String, i32)>) -> (r: StringHashMap<Vec<i32>>)
    ensures
        forall|k: Seq<char>| #[trigger] r@.contains_key(k) <==> values_for(pairs@, k).len() > 0,
        forall|k: Seq<char>| #[trigger] r@.contains_key(k) ==> r@[k]@ == values_for(pairs@, k),
{
    let mut grouped: StringHashMap<Vec<i32>> = StringHashMap::new();
    let mut i: usize = 0;
    assert(pairs@.subrange(0, 0) =~= Seq::<(String, i32)>::empty());
    while i < pairs.len()
        invariant
            i <= pairs.len(),
            forall|k: Seq<char>| #[trigger]
                grouped@.contains_key(k) <==> values_for(pairs@.subrange(0, i as int), k).len()
                    > 0,
            forall|k: Seq<char>| #[trigger]
                grouped@.contains_key(k) ==> grouped@[k]@ == values_for(
                    pairs@.subrange(0, i as int),
                    k,
                ),
        decreases pairs.len() - i,
    {
        let key = &pairs[i].0;
        let val = pairs[i].1;
        let ghost before = pairs@.subrange(0, i as int);
        let ghost after = pairs@.subrange(0, i + 1);
        assert(after.drop_last() =~= before);
        assert(after.last() == pairs@[i as int]);
        match grouped.get(key.as_str()) {
            Some(v) => {
                let mut values = v.clone();
                assert(values@ =~= v@);
                values.push(val);
                grouped.insert(key.clone(), values);
            },
            None => {
                grouped.insert(key.clone(), vec![val]);
                assert(values_for(before, key@) =~= Seq::<i32>::empty());
            },
        }
        i = i + 1;
    }
    assert(pairs@.subrange(0, pairs.len() as int) =~= pairs@);
    grouped
}

} // verus!
