use vstd::prelude::*;
use vstd::utf8::encode_utf8;

verus! {

/// The length of a text in UTF-8 bytes, as `str::len` reports it.
pub open spec fn byte_len(s: Seq<char>) -> usize {
    encode_utf8(s).len() as usize
}

/// Of two owned strings, the one with more bytes; the second on a tie.
pub fn longest_string(a: String, b: String) -> (r: String)
    ensures
        r == (if byte_len(a@) > byte_len(b@) {
            a
        } else {
            b
        }),
{
    if a.as_str().len() > b.as_str().len() {
        a
    } else {
        b
    }
}

/// Of two borrowed strings, the one with more bytes; the second on a tie.
pub fn longest_string_str<'a>(first: &'a str, second: &'a str) -> (r: &'a str)
    ensures
        r == (if byte_len(first@) > byte_len(second@) {
            first
        } else {
            second
        }),
{
    if first.len() > second.len() {
        first
    } else {
        second
    }
}

} // verus!
