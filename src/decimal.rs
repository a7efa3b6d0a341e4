use vstd::prelude::*;

verus! {

/// An ASCII decimal digit.
pub open spec fn is_digit(c: char) -> bool {
    '0' <= c <= '9'
}

/// The value of the digit `c`.
pub open spec fn digit_value(c: char) -> nat {
    (c as u32 - '0' as u32) as nat
}

/// The character of the digit `d`, for `d` below ten.
pub open spec fn digit_char(d: nat) -> char {
    seq!['0', '1', '2', '3', '4', '5', '6', '7', '8', '9'][d as int]
}

pub open spec fn all_digits(s: Seq<char>) -> bool {
    forall|i: int| 0 <= i < s.len() ==> is_digit(#[trigger] s[i])
}

/// The number that the digits `s` write in base ten, the most significant first.
pub open spec fn decimal_value(s: Seq<char>) -> nat
    decreases s.len(),
{
    if s.len() == 0 {
        0
    } else {
        decimal_value(s.drop_last()) * 10 + digit_value(s.last())
    }
}

/// The shortest decimal writing of `n`.
pub open spec fn to_decimal(n: nat) -> Seq<char>
    decreases n,
{
    if n < 10 {
        seq![digit_char(n)]
    } else {
        to_decimal(n / 10).push(digit_char(n % 10))
    }
}

/// The digits of an unsigned number written with an optional leading `+`.
pub open spec fn unsigned_digits(s: Seq<char>) -> Seq<char> {
    if s.len() > 0 && s[0] == '+' {
        s.drop_first()
    } else {
        s
    }
}

/// What `s` reads as a `u32`: an optional `+`, then one or more decimal digits whose
/// value fits in 32 bits. Anything else reads as nothing.
pub open spec fn parse_u32(s: Seq<char>) -> Option<u32> {
    let d = unsigned_digits(s);
    if d.len() > 0 && all_digits(d) && decimal_value(d) <= u32::MAX {
        Some(decimal_value(d) as u32)
    } else {
        None
    }
}

/// A prefix of a run of digits never has a larger value than the whole run.
pub proof fn lemma_prefix_value_le(s: Seq<char>, k: int)
    requires
        0 <= k <= s.len(),
    ensures
        decimal_value(s.subrange(0, k)) <= decimal_value(s),
    decreases s.len(),
{
    if k < s.len() {
        lemma_prefix_value_le(s.drop_last(), k);
        assert(s.drop_last().subrange(0, k) =~= s.subrange(0, k));
    } else {
        assert(s.subrange(0, k) =~= s);
    }
}

/// The digit characters stand for their own values.
pub proof fn lemma_digit_char(d: nat)
    requires
        d < 10,
    ensures
        is_digit(digit_char(d)),
        digit_value(digit_char(d)) == d,
{
    if d == 0 {
    } else if d == 1 {
    } else if d == 2 {
    } else if d == 3 {
    } else if d == 4 {
    } else if d == 5 {
    } else if d == 6 {
    } else if d == 7 {
    } else if d == 8 {
    } else {
    }
}

/// The decimal writing of a number is a non-empty run of digits that reads back as it.
pub proof fn lemma_decimal_reads_back(n: nat)
    ensures
        to_decimal(n).len() > 0,
        all_digits(to_decimal(n)),
        decimal_value(to_decimal(n)) == n,
    decreases n,
{
    if n >= 10 {
        lemma_decimal_reads_back(n / 10);
        lemma_digit_char(n % 10);
        assert(to_decimal(n).drop_last() =~= to_decimal(n / 10));
        assert(n == (n / 10) * 10 + n % 10) by (nonlinear_arith);
        assert forall|i: int| 0 <= i < to_decimal(n).len() implies is_digit(
            #[trigger] to_decimal(n)[i],
        ) by {
            if i < to_decimal(n).len() - 1 {
                assert(to_decimal(n)[i] == to_decimal(n / 10)[i]);
            }
        }
        assert(decimal_value(to_decimal(n)) == decimal_value(to_decimal(n / 10)) * 10 + digit_value(
            digit_char(n % 10),
        ));
    } else {
        lemma_digit_char(n);
        assert(to_decimal(n).drop_last() =~= Seq::<char>::empty());
        assert(decimal_value(to_decimal(n)) == decimal_value(Seq::<char>::empty()) * 10 + digit_value(
            digit_char(n),
        ));
    }
}

/// Writing a `u32` in decimal and reading it back gives the number again.
pub proof fn lemma_parse_of_decimal(n: u32)
    ensures
        parse_u32(to_decimal(n as nat)) == Some(n),
{
    lemma_decimal_reads_back(n as nat);
    assert(is_digit(to_decimal(n as nat)[0]));
}

/// The one-character text of the digit `d`.
fn digit_str(d: u32) -> (r: &'static str)
    requires
        d < 10,
    ensures
        r@ == seq![digit_char(d as nat)],
{
    proof {
        reveal_strlit("0");
        reveal_strlit("1");
        reveal_strlit("2");
        reveal_strlit("3");
        reveal_strlit("4");
        reveal_strlit("5");
        reveal_strlit("6");
        reveal_strlit("7");
        reveal_strlit("8");
        reveal_strlit("9");
    }
    match d {
        0 => "0",
        1 => "1",
        2 => "2",
        3 => "3",
        4 => "4",
        5 => "5",
        6 => "6",
        7 => "7",
        8 => "8",
        _ => "9",
    }
}

/// The decimal writing of `n`, as `u32::to_string` gives it.
pub fn decimal_text(n: u32) -> (r: String)
    ensures
        r@ == to_decimal(n as nat),
    decreases n,
{
    if n < 10 {
        String::from_str(digit_str(n))
    } else {
        let mut s = decimal_text(n / 10);
        s.append(digit_str(n % 10));
        s
    }
}

/// Tells whether `c` is a decimal digit.
pub fn is_digit_char(c: char) -> (r: bool)
    ensures
        r == is_digit(c),
{
    '0' <= c && c <= '9'
}

/// Reads `cs[a..b]` as a `u32`, the way `str::parse::<u32>` does.
pub fn parse_u32_at(cs: &Vec<char>, a: usize, b: usize) -> (r: Option<u32>)
    requires
        a <= b <= cs@.len(),
    ensures
        r == parse_u32(cs@.subrange(a as int, b as int)),
{
    let ghost s = cs@.subrange(a as int, b as int);
    let mut i: usize = a;
    if i < b && cs[i] == '+' {
        i = i + 1;
    }
    let ghost d = cs@.subrange(i as int, b as int);
    assert(unsigned_digits(s) =~= d);
    if i == b {
        return None;
    }
    let mut j: usize = i;
    while j < b
        invariant
            i <= j <= b <= cs@.len(),
            d == cs@.subrange(i as int, b as int),
            s == cs@.subrange(a as int, b as int),
            unsigned_digits(s) == d,
            forall|k: int| i <= k < j ==> is_digit(#[trigger] cs@[k]),
        decreases b - j,
    {
        if !is_digit_char(cs[j]) {
            assert(!is_digit(d[j - i]));
            return None;
        }
        j = j + 1;
    }
    assert(all_digits(d)) by {
        assert forall|k: int| 0 <= k < d.len() implies is_digit(#[trigger] d[k]) by {
            assert(d[k] == cs@[i + k]);
        }
    }
    let mut acc: u64 = 0;
    let mut k: usize = i;
    assert(cs@.subrange(i as int, i as int) =~= Seq::<char>::empty());
    while k < b
        invariant
            i <= k <= b <= cs@.len(),
            d == cs@.subrange(i as int, b as int),
            s == cs@.subrange(a as int, b as int),
            unsigned_digits(s) == d,
            all_digits(d),
            acc == decimal_value(cs@.subrange(i as int, k as int)),
            acc <= u32::MAX,
        decreases b - k,
    {
        assert(is_digit(d[k - i]));
        let digit: u64 = (cs[k] as u32 - '0' as u32) as u64;
        let next: u64 = acc * 10 + digit;
        assert(cs@.subrange(i as int, k + 1).drop_last() =~= cs@.subrange(i as int, k as int));
        if next > u32::MAX as u64 {
            proof {
                assert(d.subrange(0, k + 1 - i) =~= cs@.subrange(i as int, k + 1));
                lemma_prefix_value_le(d, k + 1 - i);
            }
            return None;
        }
        acc = next;
        k = k + 1;
    }
    assert(cs@.subrange(i as int, b as int) =~= d);
    Some(acc as u32)
}

} // verus!
