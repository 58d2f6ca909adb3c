//! Character-level helpers shared by the parser.

use vstd::prelude::*;

verus! {

/// Index of the first occurrence of `c` in `s`, or `s.len()` when `c` does
/// not occur in `s`.
pub open spec fn first_index(s: Seq<char>, c: char) -> int
    decreases s.len(),
{
    if s.len() == 0 {
        0
    } else if s[0] == c {
        0
    } else {
        1 + first_index(s.drop_first(), c)
    }
}

/// `first_index` is the least position that holds `c`, bounded by the length.
pub proof fn lemma_first_index(s: Seq<char>, c: char)
    ensures
        0 <= first_index(s, c) <= s.len(),
        forall|j: int| 0 <= j < first_index(s, c) ==> s[j] != c,
        first_index(s, c) < s.len() ==> s[first_index(s, c)] == c,
    decreases s.len(),
{
    if s.len() != 0 && s[0] != c {
        let rest = s.drop_first();
        lemma_first_index(rest, c);
        assert forall|j: int| 0 <= j < first_index(s, c) implies s[j] != c by {
            if j > 0 {
                assert(s[j] == rest[j - 1]);
            }
        }
    }
}

/// Any position with the two defining properties is `first_index`.
pub proof fn lemma_first_index_unique(s: Seq<char>, c: char, k: int)
    requires
        0 <= k <= s.len(),
        forall|j: int| 0 <= j < k ==> s[j] != c,
        k < s.len() ==> s[k] == c,
    ensures
        first_index(s, c) == k,
{
    lemma_first_index(s, c);
}

/// Where `c` does not occur before position `a.len()` and stands there,
/// that position is its first.
pub proof fn lemma_first_index_concat(a: Seq<char>, c: char, b: Seq<char>)
    requires
        !a.contains(c),
    ensures
        first_index(a + seq![c] + b, c) == a.len(),
{
    let s = a + seq![c] + b;
    assert forall|j: int| 0 <= j < a.len() implies s[j] != c by {
        assert(s[j] == a[j]);
        assert(a.contains(a[j]));
    }
    assert(s[a.len() as int] == c);
    lemma_first_index_unique(s, c, a.len() as int);
}

/// `c` occurs in `s` exactly when its first index lies within `s`.
pub proof fn lemma_first_index_contains(s: Seq<char>, c: char)
    ensures
        s.contains(c) <==> first_index(s, c) < s.len(),
{
    lemma_first_index(s, c);
    if s.contains(c) {
        let j = choose|j: int| 0 <= j < s.len() && s[j] == c;
        assert(s[j] == c);
    }
}

/// The character sequences of a list of strings.
pub open spec fn line_texts(lines: Seq<String>) -> Seq<Seq<char>> {
    lines.map_values(|line: String| line@)
}

/// The characters of `s`, in order.
pub fn to_chars(s: &str) -> (chars: Vec<char>)
    ensures
        chars@ == s@,
{
    let mut chars: Vec<char> = Vec::new();
    for c in it: s.chars()
        invariant
            chars@ == it.seq().take(it.index() as int),
            it.seq() == s@,
    {
        chars.push(c);
    }
    chars
}

/// Finds the first `c` in `chars[start..end]`; returns `end` when there is none.
pub fn find(chars: &Vec<char>, start: usize, end: usize, c: char) -> (pos: usize)
    requires
        start <= end <= chars.len(),
    ensures
        start <= pos <= end,
        pos == start + first_index(chars@.subrange(start as int, end as int), c),
{
    let mut pos: usize = start;
    while pos < end && chars[pos] != c
        invariant
            start <= pos <= end <= chars.len(),
            forall|j: int| start <= j < pos ==> chars@[j] != c,
        decreases end - pos,
    {
        pos += 1;
    }
    proof {
        lemma_first_index_unique(chars@.subrange(start as int, end as int), c, pos - start);
    }
    pos
}

/// Whether `c` is one of the ten ASCII decimal digits.
pub open spec fn is_digit(c: char) -> bool {
    '0' <= c <= '9'
}

/// The number that the decimal digit `c` stands for.
pub open spec fn digit_value(c: char) -> nat {
    (c as int - '0' as int) as nat
}

/// Whether every character of `s` is a decimal digit.
pub open spec fn all_digits(s: Seq<char>) -> bool {
    forall|i: int| 0 <= i < s.len() ==> is_digit(#[trigger] s[i])
}

/// The number written by the digits `s` in base ten, most significant digit
/// first. The empty sequence stands for zero.
pub open spec fn decimal_value(s: Seq<char>) -> nat
    decreases s.len(),
{
    if s.len() == 0 {
        0
    } else {
        decimal_value(s.drop_last()) * 10 + digit_value(s.last())
    }
}

/// `s` without one leading plus sign.
pub open spec fn unsigned_digits(s: Seq<char>) -> Seq<char> {
    if s.len() > 0 && s[0] == '+' {
        s.drop_first()
    } else {
        s
    }
}

/// The 64-bit unsigned number that `s` writes: an optional plus sign, then
/// one or more decimal digits whose value fits in 64 bits. Anything else
/// (no digit, another character anywhere, a value too large) is `None`.
pub open spec fn parse_unsigned(s: Seq<char>) -> Option<u64> {
    let digits = unsigned_digits(s);
    if digits.len() > 0 && all_digits(digits) && decimal_value(digits) <= u64::MAX {
        Some(decimal_value(digits) as u64)
    } else {
        None
    }
}

/// The number that a timestamp component contributes: what it writes, or
/// zero when it does not write a number.
pub open spec fn number_or_zero(s: Seq<char>) -> nat {
    match parse_unsigned(s) {
        Some(n) => n as nat,
        None => 0,
    }
}

/// Whether `s` writes a 64-bit unsigned number in digits alone: one or more
/// decimal digits whose value fits in 64 bits.
pub open spec fn is_number(s: Seq<char>) -> bool {
    s.len() > 0 && all_digits(s) && decimal_value(s) <= u64::MAX
}

/// A number in digits alone is read as the value of its digits.
pub proof fn lemma_number_value(s: Seq<char>)
    requires
        is_number(s),
    ensures
        parse_unsigned(s) == Some(decimal_value(s) as u64),
        number_or_zero(s) == decimal_value(s),
{
    assert(is_digit(s[0]));
}

/// Digits hold no character that is not a digit.
pub proof fn lemma_digits_exclude(s: Seq<char>, c: char)
    requires
        all_digits(s),
        !is_digit(c),
    ensures
        !s.contains(c),
        first_index(s, c) == s.len(),
{
    if s.contains(c) {
        let j = choose|j: int| 0 <= j < s.len() && s[j] == c;
        assert(is_digit(s[j]));
    }
    lemma_first_index_contains(s, c);
    lemma_first_index(s, c);
}

/// A run of digits is worth at least as much as any of its prefixes.
pub proof fn lemma_decimal_value_prefix(s: Seq<char>, k: int)
    requires
        0 <= k <= s.len(),
    ensures
        decimal_value(s.take(k)) <= decimal_value(s),
    decreases s.len(),
{
    if k == s.len() {
        assert(s.take(k) == s);
    } else {
        lemma_decimal_value_prefix(s.drop_last(), k);
        assert(s.drop_last().take(k) == s.take(k));
    }
}

/// Reads `chars[start..end]` as a 64-bit unsigned decimal number.
pub fn read_unsigned(chars: &Vec<char>, start: usize, end: usize) -> (number: Option<u64>)
    requires
        start <= end <= chars.len(),
    ensures
        number == parse_unsigned(chars@.subrange(start as int, end as int)),
{
    let ghost whole = chars@.subrange(start as int, end as int);
    let first: usize = if start < end && chars[start] == '+' {
        start + 1
    } else {
        start
    };
    let ghost digits = chars@.subrange(first as int, end as int);
    assert(digits == unsigned_digits(whole));
    if first == end {
        return None;
    }
    let mut value: u64 = 0;
    let mut pos: usize = first;
    while pos < end
        invariant
            start <= first <= pos <= end <= chars.len(),
            digits == chars@.subrange(first as int, end as int),
            digits == unsigned_digits(chars@.subrange(start as int, end as int)),
            all_digits(digits.take(pos - first)),
            value == decimal_value(digits.take(pos - first)),
        decreases end - pos,
    {
        let c: char = chars[pos];
        let ghost seen = digits.take(pos - first + 1);
        assert(seen.drop_last() == digits.take(pos - first));
        assert(seen.last() == c);
        if c < '0' || c > '9' {
            assert(!is_digit(digits[pos - first]));
            return None;
        }
        let digit: u64 = (c as u32 - '0' as u32) as u64;
        assert(digit == digit_value(c));
        if value > (u64::MAX - digit) / 10 {
            proof {
                assert(decimal_value(seen) > u64::MAX);
                lemma_decimal_value_prefix(digits, pos - first + 1);
            }
            return None;
        }
        value = value * 10 + digit;
        pos += 1;
    }
    assert(digits.take(pos - first) == digits);
    Some(value)
}

} // verus!
