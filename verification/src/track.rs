//! Lyric lines anchored to playback time, and tracks of them.

use vstd::prelude::*;

verus! {

/// What a lyric line is: a text and the offset from the start of playback,
/// in milliseconds, at which it is due.
pub struct Entry {
    pub offset_ms: nat,
    pub text: Seq<char>,
}

/// One lyric line, anchored to a millisecond offset from the start of
/// playback.
#[derive(Debug, Clone, PartialEq, Eq)]
pub struct LyricLine {
    pub offset_ms: u128,
    pub text: String,
}

impl View for LyricLine {
    type V = Entry;

    open spec fn view(&self) -> Entry {
        Entry { offset_ms: self.offset_ms as nat, text: self.text@ }
    }
}

impl LyricLine {
    /// A line with the given offset and text.
    pub fn new(offset_ms: u128, text: String) -> (line: LyricLine)
        ensures
            line.offset_ms == offset_ms,
            line.text == text,
    {
        LyricLine { offset_ms, text }
    }
}

/// Lyric lines in the order of their source, which is also the order in
/// which they are shown. The offsets are kept as they were found and need not
/// ascend.
#[derive(Debug, Clone, PartialEq, Eq)]
pub struct LyricTrack {
    lines: Vec<LyricLine>,
}

impl View for LyricTrack {
    type V = Seq<Entry>;

    closed spec fn view(&self) -> Seq<Entry> {
        self.lines@.map_values(|line: LyricLine| line@)
    }
}

impl LyricTrack {
    /// The track that holds `lines` in the given order.
    pub fn from_lines(lines: Vec<LyricLine>) -> (track: LyricTrack)
        ensures
            track@ == lines@.map_values(|line: LyricLine| line@),
    {
        LyricTrack { lines }
    }

    /// The number of lines.
    pub fn len(&self) -> (n: usize)
        ensures
            n == self@.len(),
    {
        self.lines.len()
    }

    /// Whether the track holds no line.
    pub fn is_empty(&self) -> (empty: bool)
        ensures
            empty == (self@.len() == 0),
    {
        self.lines.len() == 0
    }

    /// The line at `index`, which must lie within the track.
    pub fn line(&self, index: usize) -> (line: &LyricLine)
        requires
            index < self@.len(),
        ensures
            line@ == self@[index as int],
    {
        &self.lines[index]
    }

    /// The line at `index`, or `None` past the end.
    pub fn get(&self, index: usize) -> (line: Option<&LyricLine>)
        ensures
            index < self@.len() ==> line is Some && line->0@ == self@[index as int],
            index >= self@.len() ==> line is None,
    {
        if index < self.lines.len() {
            Some(&self.lines[index])
        } else {
            None
        }
    }

    /// The lines, in order.
    pub fn lines(&self) -> (lines: &Vec<LyricLine>)
        ensures
            lines@.map_values(|line: LyricLine| line@) == self@,
    {
        &self.lines
    }
}

} // verus!
