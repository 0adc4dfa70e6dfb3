//! Small text helpers over character sequences: locating a character,
//! trimming a trailing character and decimal number parsing.
use vstd::prelude::*;

verus! {

/// Index of the first `c` in `s`, or `s.len()` when `s` has none.
pub open spec fn first_index(s: Seq<char>, c: char) -> int
    decreases s.len(),
{
    if s.len() == 0 {
        0
    } else if s[0] == c {
        0
    } else {
        1 + first_index(s.drop_first(), c)
    }
}

/// Whether `c` occurs in `s`.
pub open spec fn has_char(s: Seq<char>, c: char) -> bool {
    first_index(s, c) < s.len()
}

/// The part of `s` before the first `c` (all of `s` when there is none).
pub open spec fn before_char(s: Seq<char>, c: char) -> Seq<char> {
    s.subrange(0, first_index(s, c))
}

/// The part of `s` after the first `c` (empty when there is none).
pub open spec fn after_char(s: Seq<char>, c: char) -> Seq<char> {
    if has_char(s, c) {
        s.subrange(first_index(s, c) + 1, s.len() as int)
    } else {
        Seq::empty()
    }
}

/// `s` with every trailing `c` removed.
pub open spec fn trim_end(s: Seq<char>, c: char) -> Seq<char>
    decreases s.len(),
{
    if s.len() > 0 && s.last() == c {
        trim_end(s.drop_last(), c)
    } else {
        s
    }
}

/// Whether `c` is an ASCII decimal digit.
pub open spec fn is_digit(c: char) -> bool {
    '0' <= c <= '9'
}

/// The value of a decimal digit.
pub open spec fn digit_value(c: char) -> int {
    (c as int) - ('0' as int)
}

/// Decimal value of a string of digits.
pub open spec fn decimal_value(s: Seq<char>) -> int
    decreases s.len(),
{
    if s.len() == 0 {
        0
    } else {
        10 * decimal_value(s.drop_last()) + digit_value(s.last())
    }
}

/// Whether every character of `s` is a decimal digit.
pub open spec fn all_digits(s: Seq<char>) -> bool {
    forall|i: int| 0 <= i < s.len() ==> is_digit(#[trigger] s[i])
}

/// The digits that an unsigned decimal number is read from: an optional
/// leading `+` is dropped.
pub open spec fn unsigned_digits(s: Seq<char>) -> Seq<char> {
    if s.len() > 0 && s[0] == '+' {
        s.drop_first()
    } else {
        s
    }
}

/// The value of `s` read as an unsigned decimal number no larger than `max`:
/// an optional `+`, then one or more digits.
pub open spec fn parse_unsigned(s: Seq<char>, max: int) -> Option<int> {
    let d = unsigned_digits(s);
    if d.len() > 0 && all_digits(d) && decimal_value(d) <= max {
        Some(decimal_value(d))
    } else {
        None
    }
}

/// The first occurrence of `c` lies within `s`, and no earlier character is `c`.
pub proof fn lemma_first_index_bounds(s: Seq<char>, c: char)
    ensures
        0 <= first_index(s, c) <= s.len(),
        forall|j: int| 0 <= j < first_index(s, c) ==> s[j] != c,
        first_index(s, c) < s.len() ==> s[first_index(s, c)] == c,
    decreases s.len(),
{
    if s.len() > 0 && s[0] != c {
        lemma_first_index_bounds(s.drop_first(), c);
        assert forall|j: int| 0 <= j < first_index(s, c) implies s[j] != c by {
            if j > 0 {
                assert(s[j] == s.drop_first()[j - 1]);
            }
        }
    }
}

/// An index holding `c` with no `c` before it is the first occurrence.
pub proof fn lemma_first_index_is(s: Seq<char>, c: char, i: int)
    requires
        0 <= i <= s.len(),
        forall|j: int| 0 <= j < i ==> s[j] != c,
        i == s.len() || s[i] == c,
    ensures
        first_index(s, c) == i,
    decreases s.len(),
{
    if s.len() > 0 && i > 0 {
        assert(s[0] != c);
        assert forall|j: int| 0 <= j < i - 1 implies s.drop_first()[j] != c by {
            assert(s.drop_first()[j] == s[j + 1]);
        }
        lemma_first_index_is(s.drop_first(), c, i - 1);
    }
}

proof fn lemma_decimal_monotone(s: Seq<char>)
    requires
        all_digits(s),
        s.len() > 0,
    ensures
        decimal_value(s) >= decimal_value(s.drop_last()),
        decimal_value(s.drop_last()) >= 0,
        decimal_value(s) >= 0,
    decreases s.len(),
{
    if s.len() > 1 {
        assert(all_digits(s.drop_last())) by {
            assert forall|i: int| 0 <= i < s.drop_last().len() implies is_digit(
                #[trigger] s.drop_last()[i],
            ) by {
                assert(s.drop_last()[i] == s[i]);
            }
        }
        lemma_decimal_monotone(s.drop_last());
    }
    assert(is_digit(s[s.len() - 1]));
}

proof fn lemma_decimal_prefix_grows(s: Seq<char>, i: int)
    requires
        all_digits(s),
        0 <= i <= s.len(),
    ensures
        decimal_value(s.subrange(0, i)) <= decimal_value(s),
        decimal_value(s.subrange(0, i)) >= 0,
    decreases s.len() - i,
{
    if i < s.len() {
        lemma_decimal_prefix_grows(s, i + 1);
        let t = s.subrange(0, i + 1);
        assert(t.drop_last() =~= s.subrange(0, i));
        assert(all_digits(t)) by {
            assert forall|k: int| 0 <= k < t.len() implies is_digit(#[trigger] t[k]) by {
                assert(t[k] == s[k]);
            }
        }
        lemma_decimal_monotone(t);
    } else {
        assert(s.subrange(0, i) =~= s);
        if s.len() > 0 {
            lemma_decimal_monotone(s);
        }
    }
}

/// The characters of `s`.
pub fn chars_of(s: &str) -> (v: Vec<char>)
    ensures
        v@ == s@,
{
    let n = s.unicode_len();
    let mut v: Vec<char> = Vec::new();
    let mut i: usize = 0;
    while i < n
        invariant
            n == s@.len(),
            i <= n,
            v@ == s@.subrange(0, i as int),
        decreases n - i,
    {
        let c = s.get_char(i);
        v.push(c);
        i = i + 1;
        assert(v@ =~= s@.subrange(0, i as int));
    }
    assert(v@ =~= s@);
    v
}

/// Absolute index of the first `c` in `v[from..to]`, or `to` when there is none.
pub fn find_char(v: &Vec<char>, from: usize, to: usize, c: char) -> (r: usize)
    requires
        from <= to <= v@.len(),
    ensures
        from <= r <= to,
        r == from + first_index(v@.subrange(from as int, to as int), c),
{
    let mut i = from;
    while i < to && v[i] != c
        invariant
            from <= i <= to <= v@.len(),
            forall|j: int| from <= j < i ==> v@[j] != c,
        decreases to - i,
    {
        i = i + 1;
    }
    proof {
        let s = v@.subrange(from as int, to as int);
        assert forall|j: int| 0 <= j < i - from implies s[j] != c by {
            assert(s[j] == v@[from + j]);
        }
        lemma_first_index_is(s, c, i - from);
    }
    i
}

/// Whether `name` spells exactly `v[from..to]`.
pub fn chars_eq(name: &str, v: &Vec<char>, from: usize, to: usize) -> (b: bool)
    requires
        from <= to <= v@.len(),
    ensures
        b == (name@ == v@.subrange(from as int, to as int)),
{
    let n = name.unicode_len();
    if n != to - from {
        assert(name@.len() != v@.subrange(from as int, to as int).len());
        return false;
    }
    let mut i: usize = 0;
    while i < n
        invariant
            n == name@.len(),
            n == to - from,
            from <= to <= v@.len(),
            i <= n,
            forall|j: int| 0 <= j < i ==> name@[j] == v@[from + j],
        decreases n - i,
    {
        if name.get_char(i) != v[from + i] {
            assert(name@[i as int] != v@.subrange(from as int, to as int)[i as int]);
            return false;
        }
        i = i + 1;
    }
    assert(name@ =~= v@.subrange(from as int, to as int));
    true
}

/// End of `v[from..to]` once every trailing `c` has been dropped.
pub fn trim_end_index(v: &Vec<char>, from: usize, to: usize, c: char) -> (e: usize)
    requires
        from <= to <= v@.len(),
    ensures
        from <= e <= to,
        v@.subrange(from as int, e as int) == trim_end(v@.subrange(from as int, to as int), c),
{
    let mut e = to;
    while e > from && v[e - 1] == c
        invariant
            from <= e <= to <= v@.len(),
            trim_end(v@.subrange(from as int, e as int), c) == trim_end(
                v@.subrange(from as int, to as int),
                c,
            ),
        decreases e - from,
    {
        let ghost s = v@.subrange(from as int, e as int);
        assert(s.drop_last() =~= v@.subrange(from as int, e - 1));
        e = e - 1;
    }
    e
}

/// The value of `v[from..to]` read as an unsigned decimal `u64` (an optional
/// `+`, then digits, no larger than `u64::MAX`), or `None`.
pub fn parse_u64(v: &Vec<char>, from: usize, to: usize) -> (r: Option<u64>)
    requires
        from <= to <= v@.len(),
    ensures
        r matches Some(x) ==> parse_unsigned(v@.subrange(from as int, to as int), u64::MAX as int)
            == Some(x as int),
        r is None ==> parse_unsigned(v@.subrange(from as int, to as int), u64::MAX as int)
            is None,
{
    let ghost s = v@.subrange(from as int, to as int);
    let mut start = from;
    if from < to && v[from] == '+' {
        start = from + 1;
    }
    let ghost d = v@.subrange(start as int, to as int);
    assert(d =~= unsigned_digits(s));
    if start == to {
        return None;
    }
    let mut value: u64 = 0;
    let mut i = start;
    while i < to
        invariant
            start <= i <= to <= v@.len(),
            d == v@.subrange(start as int, to as int),
            d == unsigned_digits(s),
            s == v@.subrange(from as int, to as int),
            forall|k: int| start <= k < i ==> is_digit(#[trigger] v@[k]),
            value == decimal_value(v@.subrange(start as int, i as int)),
        decreases to - i,
    {
        let c = v[i];
        if !('0' <= c && c <= '9') {
            assert(d[i - start] == c);
            assert(!is_digit(d[i - start]));
            assert(!all_digits(d));
            assert(!all_digits(unsigned_digits(s)));
            return None;
        }
        let digit: u64 = (c as u32 - '0' as u32) as u64;
        assert(digit == digit_value(c));
        let ghost t = v@.subrange(start as int, i + 1);
        assert(t.drop_last() =~= v@.subrange(start as int, i as int));
        assert(t.last() == c);
        if value > (u64::MAX - digit) / 10 {
            proof {
                assert(10 * value + digit > u64::MAX) by (nonlinear_arith)
                    requires
                        value > (u64::MAX - digit) / 10,
                        digit <= 9,
                ;
                assert(decimal_value(t) > u64::MAX);
                if all_digits(d) {
                    lemma_decimal_prefix_grows(d, i + 1 - start);
                    assert(d.subrange(0, i + 1 - start) =~= t);
                }
            }
            return None;
        }
        value = value * 10 + digit;
        i = i + 1;
    }
    proof {
        assert(v@.subrange(start as int, i as int) =~= d);
        assert(all_digits(d)) by {
            assert forall|k: int| 0 <= k < d.len() implies is_digit(#[trigger] d[k]) by {
                assert(d[k] == v@[start + k]);
            }
        }
    }
    Some(value)
}

} // verus!
