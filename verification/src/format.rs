//! Well-formed lyric lines, `[MM:SS]text` and `[MM:SS.ff]text`, and what
//! the parser makes of them.

use vstd::prelude::*;
use crate::parser::{line_entry, text_after_bracket, timestamp_field};
use crate::text::{
    decimal_value,
    first_index,
    is_number,
    lemma_digits_exclude,
    lemma_first_index_concat,
    lemma_number_value,
};
use crate::timestamp::{
    lemma_split_first,
    lemma_split_in_two,
    seconds_part_ms,
    split,
    timestamp_offset,
};
use crate::track::Entry;

verus! {

/// The timestamp field `MM:SS`.
pub open spec fn plain_field(minutes: Seq<char>, seconds: Seq<char>) -> Seq<char> {
    minutes + seq![':'] + seconds
}

/// The timestamp field `MM:SS.ff`.
pub open spec fn fractional_field(
    minutes: Seq<char>,
    seconds: Seq<char>,
    centis: Seq<char>,
) -> Seq<char> {
    minutes + seq![':'] + (seconds + seq!['.'] + centis)
}

/// The line `[field]text`.
pub open spec fn bracketed_line(field: Seq<char>, text: Seq<char>) -> Seq<char> {
    seq!['['] + field + seq![']'] + text
}

/// A seconds part without a fraction denotes its seconds.
pub proof fn lemma_plain_seconds(seconds: Seq<char>)
    requires
        is_number(seconds),
    ensures
        seconds_part_ms(seconds) == decimal_value(seconds) * 1_000,
{
    lemma_digits_exclude(seconds, '.');
    lemma_split_first(seconds, '.');
    lemma_number_value(seconds);
}

/// A seconds part with a fraction denotes its seconds and its hundredths.
pub proof fn lemma_fractional_seconds(seconds: Seq<char>, centis: Seq<char>)
    requires
        is_number(seconds),
        is_number(centis),
    ensures
        seconds_part_ms(seconds + seq!['.'] + centis) == decimal_value(seconds) * 1_000
            + decimal_value(centis) * 10,
{
    let part = seconds + seq!['.'] + centis;
    lemma_digits_exclude(seconds, '.');
    lemma_digits_exclude(centis, '.');
    lemma_first_index_concat(seconds, '.', centis);
    assert(part.take(seconds.len() as int) == seconds);
    assert(part.skip(seconds.len() as int + 1) == centis);
    lemma_split_in_two(part, '.');
    lemma_number_value(seconds);
    lemma_number_value(centis);
}

/// The field `MM:SS` denotes `MM` minutes and `SS` seconds.
pub proof fn lemma_plain_field(minutes: Seq<char>, seconds: Seq<char>)
    requires
        is_number(minutes),
        is_number(seconds),
    ensures
        timestamp_offset(plain_field(minutes, seconds)) == Some(
            decimal_value(minutes) * 60_000 + decimal_value(seconds) * 1_000,
        ),
        !plain_field(minutes, seconds).contains(']'),
{
    let field = plain_field(minutes, seconds);
    lemma_minutes_then(minutes, seconds);
    lemma_plain_seconds(seconds);
    lemma_digits_exclude(minutes, ']');
    lemma_digits_exclude(seconds, ']');
    assert forall|j: int| 0 <= j < field.len() implies field[j] != ']' by {
        if j < minutes.len() {
            assert(minutes.contains(minutes[j]));
        } else if j > minutes.len() {
            assert(seconds.contains(seconds[j - minutes.len() - 1]));
        }
    }
}

/// The field `MM:SS.ff` denotes `MM` minutes, `SS` seconds and `ff`
/// hundredths of a second.
pub proof fn lemma_fractional_field(minutes: Seq<char>, seconds: Seq<char>, centis: Seq<char>)
    requires
        is_number(minutes),
        is_number(seconds),
        is_number(centis),
    ensures
        timestamp_offset(fractional_field(minutes, seconds, centis)) == Some(
            decimal_value(minutes) * 60_000 + decimal_value(seconds) * 1_000 + decimal_value(centis)
                * 10,
        ),
        !fractional_field(minutes, seconds, centis).contains(']'),
{
    let part = seconds + seq!['.'] + centis;
    let field = fractional_field(minutes, seconds, centis);
    lemma_digits_exclude(seconds, ':');
    lemma_digits_exclude(centis, ':');
    assert forall|j: int| 0 <= j < part.len() implies part[j] != ':' && part[j] != ']' by {
        if j < seconds.len() {
            assert(seconds.contains(seconds[j]));
            lemma_digits_exclude(seconds, ']');
        } else if j > seconds.len() {
            assert(centis.contains(centis[j - seconds.len() - 1]));
            lemma_digits_exclude(centis, ']');
        }
    }
    lemma_minutes_then(minutes, part);
    lemma_fractional_seconds(seconds, centis);
    lemma_digits_exclude(minutes, ']');
    assert forall|j: int| 0 <= j < field.len() implies field[j] != ']' by {
        if j < minutes.len() {
            assert(minutes.contains(minutes[j]));
        } else if j > minutes.len() {
            assert(field[j] == part[j - minutes.len() - 1]);
        }
    }
}

/// A field made of minutes in digits, a colon and a part without colon
/// denotes those minutes and what the part denotes.
proof fn lemma_minutes_then(minutes: Seq<char>, part: Seq<char>)
    requires
        is_number(minutes),
        !part.contains(':'),
    ensures
        timestamp_offset(minutes + seq![':'] + part) == Some(
            decimal_value(minutes) * 60_000 + seconds_part_ms(part),
        ),
{
    let field = minutes + seq![':'] + part;
    lemma_digits_exclude(minutes, ':');
    lemma_first_index_concat(minutes, ':', part);
    assert(field.take(minutes.len() as int) == minutes);
    assert(field.skip(minutes.len() as int + 1) == part);
    crate::text::lemma_first_index_contains(part, ':');
    crate::text::lemma_first_index(part, ':');
    lemma_split_in_two(field, ':');
    lemma_number_value(minutes);
}

/// A line `[field]text` whose field holds no `]` gives the entry with the
/// offset that the field denotes and with exactly `text` as its text, and
/// gives none when the field denotes no offset.
pub proof fn lemma_bracketed_line(field: Seq<char>, text: Seq<char>)
    requires
        !field.contains(']'),
    ensures
        timestamp_field(bracketed_line(field, text)) == field,
        text_after_bracket(bracketed_line(field, text)) == text,
        line_entry(bracketed_line(field, text)) == match timestamp_offset(field) {
            Some(offset_ms) => Some(Entry { offset_ms, text }),
            None => None,
        },
{
    let line = bracketed_line(field, text);
    let head = seq!['['] + field;
    assert forall|j: int| 0 <= j < head.len() implies head[j] != ']' by {
        if j > 0 {
            assert(field.contains(field[j - 1]));
        }
    }
    lemma_first_index_concat(head, ']', text);
    assert(line.subrange(1, head.len() as int) == field);
    assert(line.skip(head.len() as int + 1) == text);
    if field.len() == 0 {
        lemma_split_first(field, ':');
    }
}

/// A well-formed line `[MM:SS]text` gives the entry at
/// `MM * 60000 + SS * 1000` milliseconds whose text is `text`.
pub proof fn lemma_plain_line(minutes: Seq<char>, seconds: Seq<char>, text: Seq<char>)
    requires
        is_number(minutes),
        is_number(seconds),
    ensures
        line_entry(bracketed_line(plain_field(minutes, seconds), text)) == Some(
            Entry {
                offset_ms: decimal_value(minutes) * 60_000 + decimal_value(seconds) * 1_000,
                text,
            },
        ),
{
    lemma_plain_field(minutes, seconds);
    lemma_bracketed_line(plain_field(minutes, seconds), text);
}

/// A well-formed line `[MM:SS.ff]text` gives the entry at
/// `MM * 60000 + SS * 1000 + ff * 10` milliseconds whose text is `text`.
pub proof fn lemma_fractional_line(
    minutes: Seq<char>,
    seconds: Seq<char>,
    centis: Seq<char>,
    text: Seq<char>,
)
    requires
        is_number(minutes),
        is_number(seconds),
        is_number(centis),
    ensures
        line_entry(bracketed_line(fractional_field(minutes, seconds, centis), text)) == Some(
            Entry {
                offset_ms: decimal_value(minutes) * 60_000 + decimal_value(seconds) * 1_000
                    + decimal_value(centis) * 10,
                text,
            },
        ),
{
    lemma_fractional_field(minutes, seconds, centis);
    lemma_bracketed_line(fractional_field(minutes, seconds, centis), text);
}

} // verus!
