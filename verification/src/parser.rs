//! The parser for timestamped lyrics: text lines of the shape
//! `[MM:SS]text` or `[MM:SS.ff]text`.

use vstd::prelude::*;
use vstd::string::StrSliceExecFns;
use crate::text::{find, first_index, lemma_first_index_contains, line_texts, to_chars};
use crate::timestamp::{lemma_split_first, read_timestamp, split, timestamp_offset};
use crate::track::{Entry, LyricLine, LyricTrack};

verus! {

/// The timestamp field of a line: what stands between the line's first
/// character and its first `]`. It is empty when the line begins with `]`.
pub open spec fn timestamp_field(line: Seq<char>) -> Seq<char> {
    let close = first_index(line, ']');
    if 0 < close {
        line.subrange(1, close)
    } else {
        Seq::empty()
    }
}

/// The text of a line: everything after its first `]`, unchanged.
pub open spec fn text_after_bracket(line: Seq<char>) -> Seq<char> {
    line.skip(first_index(line, ']') + 1)
}

/// The entry that a source line gives, if it gives one.
///
/// A line gives an entry when it holds a `]` and its timestamp field denotes
/// an offset. Any other line gives none.
pub open spec fn line_entry(line: Seq<char>) -> Option<Entry> {
    if first_index(line, ']') < line.len() {
        match timestamp_offset(timestamp_field(line)) {
            Some(offset_ms) => Some(Entry { offset_ms, text: text_after_bracket(line) }),
            None => None,
        }
    } else {
        None
    }
}

/// The entries that a sequence of source lines gives: those of its lines
/// that give one, in source order.
pub open spec fn track_entries(lines: Seq<Seq<char>>) -> Seq<Entry>
    decreases lines.len(),
{
    if lines.len() == 0 {
        Seq::empty()
    } else {
        let earlier = track_entries(lines.drop_last());
        match line_entry(lines.last()) {
            Some(entry) => earlier.push(entry),
            None => earlier,
        }
    }
}

/// The entries of a source in two parts are those of the first part, then
/// those of the second: what a line gives does not depend on its neighbours.
pub proof fn lemma_track_entries_concat(first: Seq<Seq<char>>, second: Seq<Seq<char>>)
    ensures
        track_entries(first + second) == track_entries(first) + track_entries(second),
    decreases second.len(),
{
    if second.len() == 0 {
        assert(first + second == first);
    } else {
        lemma_track_entries_concat(first, second.drop_last());
        assert((first + second).drop_last() == first + second.drop_last());
    }
}

/// A line gives an entry exactly when it holds a `]` and its timestamp
/// field splits on `:` into exactly two parts.
pub proof fn lemma_line_entry_given(line: Seq<char>)
    ensures
        line_entry(line) is Some <==> line.contains(']') && split(timestamp_field(line), ':').len()
            == 2,
{
    lemma_first_index_contains(line, ']');
}

/// A line without `]`, or whose timestamp field does not split on `:` into
/// exactly two parts, is passed over: the track is the one that the source
/// gives without that line.
pub proof fn lemma_malformed_line_omitted(
    before: Seq<Seq<char>>,
    line: Seq<char>,
    after: Seq<Seq<char>>,
)
    requires
        !line.contains(']') || split(timestamp_field(line), ':').len() != 2,
    ensures
        line_entry(line) is None,
        track_entries(before + seq![line] + after) == track_entries(before + after),
{
    lemma_line_entry_given(line);
    lemma_track_entries_concat(before + seq![line], after);
    lemma_track_entries_concat(before, after);
    assert((before + seq![line]).drop_last() == before);
}

/// A line that gives an entry contributes exactly that entry, between the
/// entries of the lines before it and those of the lines after it.
pub proof fn lemma_line_kept(before: Seq<Seq<char>>, line: Seq<char>, after: Seq<Seq<char>>)
    requires
        line_entry(line) is Some,
    ensures
        track_entries(before + seq![line] + after) == track_entries(before).push(
            line_entry(line)->0,
        ) + track_entries(after),
{
    lemma_track_entries_concat(before + seq![line], after);
    assert((before + seq![line]).drop_last() == before);
}

/// A track never holds more entries than its source has lines.
pub proof fn lemma_track_entries_len(lines: Seq<Seq<char>>)
    ensures
        track_entries(lines).len() <= lines.len(),
    decreases lines.len(),
{
    if lines.len() > 0 {
        lemma_track_entries_len(lines.drop_last());
    }
}

/// Parsing is a function of the source: two sources that agree line by line
/// give the same track.
pub proof fn lemma_same_source_same_track(first: Seq<Seq<char>>, second: Seq<Seq<char>>)
    requires
        first.len() == second.len(),
        forall|i: int| 0 <= i < first.len() ==> first[i] == second[i],
    ensures
        track_entries(first) == track_entries(second),
{
    assert(first =~= second);
}

/// Parses one source line.
///
/// Returns the lyric line that `line` gives, or `None` when `line` holds no
/// `]` or its timestamp field does not split on `:` into exactly two parts.
pub fn parse_line(line: &str) -> (parsed: Option<LyricLine>)
    ensures
        match parsed {
            Some(lyric) => line_entry(line@) == Some(lyric@),
            None => line_entry(line@) is None,
        },
{
    let chars = to_chars(line);
    let len = chars.len();
    let close = find(&chars, 0, len, ']');
    assert(chars@.subrange(0, len as int) == line@);
    if close == len {
        return None;
    }
    if close == 0 {
        proof {
            lemma_split_first(Seq::<char>::empty(), ':');
        }
        return None;
    }
    match read_timestamp(&chars, 1, close) {
        Some(offset_ms) => {
            let text = line.substring_char(close + 1, len).to_owned();
            assert(text@ == text_after_bracket(line@));
            Some(LyricLine { offset_ms, text })
        },
        None => None,
    }
}

/// Parses the lines of a timed-lyrics source into a track.
///
/// The track holds one lyric line for each source line that gives one, in
/// source order; the other source lines are passed over. The result is
/// fixed by the source lines alone.
pub fn parse(lines: &[String]) -> (track: LyricTrack)
    ensures
        track@ == track_entries(line_texts(lines@)),
{
    let ghost source = line_texts(lines@);
    let mut found: Vec<LyricLine> = Vec::new();
    let mut i: usize = 0;
    while i < lines.len()
        invariant
            i <= lines.len(),
            source == line_texts(lines@),
            found@.map_values(|line: LyricLine| line@) == track_entries(source.take(i as int)),
        decreases lines.len() - i,
    {
        let ghost before = found@.map_values(|line: LyricLine| line@);
        assert(source.take(i + 1).drop_last() == source.take(i as int));
        assert(source.take(i + 1).last() == lines@[i as int]@);
        match parse_line(lines[i].as_str()) {
            Some(lyric) => {
                found.push(lyric);
                assert(found@.map_values(|line: LyricLine| line@) == before.push(lyric@));
            },
            None => {},
        }
        i += 1;
    }
    assert(source.take(i as int) == source);
    LyricTrack::from_lines(found)
}

} // verus!
