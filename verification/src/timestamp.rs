//! The timestamp field of a lyric line: `MM:SS` or `MM:SS.ff`.

use vstd::prelude::*;
use crate::text::{find, first_index, lemma_first_index, number_or_zero, read_unsigned};

verus! {

/// The pieces of `s` that lie between the occurrences of `sep`, in order.
/// There is always at least one piece; a piece may be empty.
pub open spec fn split(s: Seq<char>, sep: char) -> Seq<Seq<char>>
    decreases s.len(),
{
    let k = first_index(s, sep);
    if 0 <= k < s.len() {
        seq![s.take(k)] + split(s.skip(k + 1), sep)
    } else {
        seq![s]
    }
}

/// The milliseconds that the seconds part of a timestamp denotes.
///
/// The part is split on `.`: its first piece gives the seconds and its
/// second piece, when there is one, the hundredths of a second. A piece that
/// does not write a number counts as zero.
pub open spec fn seconds_part_ms(part: Seq<char>) -> nat {
    let pieces = split(part, '.');
    let centis = if pieces.len() > 1 {
        number_or_zero(pieces[1])
    } else {
        0
    };
    number_or_zero(pieces[0]) * 1_000 + centis * 10
}

/// The offset in milliseconds that a timestamp field denotes.
///
/// The field must split on `:` into exactly two parts, else it denotes
/// nothing. The first part gives the minutes, counted as zero when it does
/// not write a number; the second is the seconds part.
pub open spec fn timestamp_offset(field: Seq<char>) -> Option<nat> {
    let parts = split(field, ':');
    if parts.len() == 2 {
        Some(number_or_zero(parts[0]) * 60_000 + seconds_part_ms(parts[1]))
    } else {
        None
    }
}

/// How `split` begins: its first piece ends at the first separator, and the
/// remaining pieces are those of what follows that separator.
pub proof fn lemma_split_first(s: Seq<char>, sep: char)
    ensures
        split(s, sep).len() >= 1,
        split(s, sep)[0] == s.take(first_index(s, sep)),
        first_index(s, sep) == s.len() ==> split(s, sep) == seq![s],
        first_index(s, sep) < s.len() ==> split(s, sep) == seq![s.take(first_index(s, sep))]
            + split(s.skip(first_index(s, sep) + 1), sep),
{
    lemma_first_index(s, sep);
    let k = first_index(s, sep);
    if k == s.len() {
        assert(s.take(k) == s);
    }
}

/// A sequence splits into exactly two pieces when it holds exactly one
/// separator; the pieces are then what stands before and after it.
pub proof fn lemma_split_in_two(s: Seq<char>, sep: char)
    ensures
        split(s, sep).len() == 2 <==> {
            &&& first_index(s, sep) < s.len()
            &&& first_index(s.skip(first_index(s, sep) + 1), sep) == s.len() - first_index(s, sep)
                - 1
        },
        split(s, sep).len() == 2 ==> split(s, sep) == seq![
            s.take(first_index(s, sep)),
            s.skip(first_index(s, sep) + 1),
        ],
{
    lemma_first_index(s, sep);
    lemma_split_first(s, sep);
    let k = first_index(s, sep);
    if k < s.len() {
        let rest = s.skip(k + 1);
        lemma_first_index(rest, sep);
        lemma_split_first(rest, sep);
        if first_index(rest, sep) < rest.len() {
            lemma_split_first(rest.skip(first_index(rest, sep) + 1), sep);
        }
    }
}

/// Reads `chars[start..end]` as one component of a timestamp: the number it
/// writes, or zero.
fn read_component(chars: &Vec<char>, start: usize, end: usize) -> (number: u64)
    requires
        start <= end <= chars.len(),
    ensures
        number == number_or_zero(chars@.subrange(start as int, end as int)),
{
    match read_unsigned(chars, start, end) {
        Some(n) => n,
        None => 0,
    }
}

/// Reads `chars[start..end]` as the seconds part of a timestamp.
pub fn read_seconds_part(chars: &Vec<char>, start: usize, end: usize) -> (ms: u128)
    requires
        start <= end <= chars.len(),
    ensures
        ms == seconds_part_ms(chars@.subrange(start as int, end as int)),
        ms <= u64::MAX * 1_010,
{
    let ghost part = chars@.subrange(start as int, end as int);
    let dot = find(chars, start, end, '.');
    proof {
        lemma_split_first(part, '.');
        assert(chars@.subrange(start as int, dot as int) == part.take(dot - start));
    }
    let seconds = read_component(chars, start, dot);
    if dot == end {
        return seconds as u128 * 1_000;
    }
    let second_dot = find(chars, dot + 1, end, '.');
    proof {
        let after = part.skip(dot - start + 1);
        assert(chars@.subrange(dot + 1, end as int) == after);
        lemma_split_first(after, '.');
        assert(chars@.subrange(dot + 1, second_dot as int) == after.take(second_dot - dot - 1));
    }
    let centis = read_component(chars, dot + 1, second_dot);
    seconds as u128 * 1_000 + centis as u128 * 10
}

/// Reads `chars[start..end]` as a timestamp field.
pub fn read_timestamp(chars: &Vec<char>, start: usize, end: usize) -> (offset: Option<u128>)
    requires
        start <= end <= chars.len(),
    ensures
        match offset {
            Some(ms) => timestamp_offset(chars@.subrange(start as int, end as int)) == Some(
                ms as nat,
            ),
            None => timestamp_offset(chars@.subrange(start as int, end as int)) is None,
        },
{
    let ghost field = chars@.subrange(start as int, end as int);
    proof {
        lemma_split_in_two(field, ':');
    }
    let colon = find(chars, start, end, ':');
    if colon == end {
        return None;
    }
    assert(chars@.subrange(colon + 1, end as int) == field.skip(colon - start + 1));
    let second_colon = find(chars, colon + 1, end, ':');
    if second_colon != end {
        return None;
    }
    assert(chars@.subrange(start as int, colon as int) == field.take(colon - start));
    let minutes = read_component(chars, start, colon);
    let rest_ms = read_seconds_part(chars, colon + 1, end);
    Some(minutes as u128 * 60_000 + rest_ms)
}

} // verus!
