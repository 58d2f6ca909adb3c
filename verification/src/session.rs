//! A playback session: lyrics shown in time with the playback where the
//! song has a track of timed lines, and at a fixed pace where it has none.

use vstd::prelude::*;
use crate::action::{Action, Decision};
use crate::fallback::{FallbackProgress, FallbackScheduler};
use crate::scheduler::{Progress, Scheduler};
use crate::text::line_texts;
use crate::track::{Entry, LyricTrack};

verus! {

/// How far a session has come.
pub enum SessionProgress {
    /// The session follows a track of timed lines.
    Timed(Progress),
    /// The session shows untimed lines at a fixed pace.
    Untimed(FallbackProgress),
}

impl SessionProgress {
    /// Where a session begins: on the track if it holds a line, else on the
    /// untimed lines.
    pub open spec fn start(
        track: Seq<Entry>,
        untimed: Seq<Seq<char>>,
        interval_ms: nat,
    ) -> SessionProgress {
        if track.len() > 0 {
            SessionProgress::Timed(Progress::start(track))
        } else {
            SessionProgress::Untimed(FallbackProgress::start(untimed, interval_ms))
        }
    }

    /// The decision taken when the clock reads `elapsed_ms`. Only a timed
    /// session looks at the clock.
    pub open spec fn decide(self, elapsed_ms: nat) -> Decision {
        match self {
            SessionProgress::Timed(progress) => progress.decide(elapsed_ms),
            SessionProgress::Untimed(progress) => progress.decide(),
        }
    }

    /// The progress after the decision taken when the clock reads
    /// `elapsed_ms`.
    pub open spec fn advance(self, elapsed_ms: nat) -> SessionProgress {
        match self {
            SessionProgress::Timed(progress) => SessionProgress::Timed(
                progress.advance(elapsed_ms),
            ),
            SessionProgress::Untimed(progress) => SessionProgress::Untimed(progress.advance()),
        }
    }

    /// The texts of the lines that the session shows, in display order.
    pub open spec fn texts(self) -> Seq<Seq<char>> {
        match self {
            SessionProgress::Timed(progress) => progress.track.map_values(
                |entry: Entry| entry.text,
            ),
            SessionProgress::Untimed(progress) => progress.lines,
        }
    }
}

/// Decides, step by step, what a playback session shows and when.
#[derive(Debug, Clone, PartialEq, Eq)]
pub enum Session {
    /// The session follows a track of timed lines.
    Timed(Scheduler),
    /// The session shows untimed lines at a fixed pace.
    Untimed(FallbackScheduler),
}

impl View for Session {
    type V = SessionProgress;

    open spec fn view(&self) -> SessionProgress {
        match self {
            Session::Timed(scheduler) => SessionProgress::Timed(scheduler@),
            Session::Untimed(scheduler) => SessionProgress::Untimed(scheduler@),
        }
    }
}

impl Session {
    /// A session at its beginning. It follows `track` if that holds a line;
    /// an empty track makes it show `untimed`, `interval_ms` milliseconds
    /// apart.
    pub fn new(track: LyricTrack, untimed: Vec<String>, interval_ms: u64) -> (session: Session)
        ensures
            session@ == SessionProgress::start(track@, line_texts(untimed@), interval_ms as nat),
    {
        if track.is_empty() {
            Session::Untimed(FallbackScheduler::new(untimed, interval_ms))
        } else {
            Session::Timed(Scheduler::new(track))
        }
    }

    /// Whether the session follows a track of timed lines.
    pub fn is_timed(&self) -> (timed: bool)
        ensures
            timed == (self@ is Timed),
    {
        match self {
            Session::Timed(_) => true,
            Session::Untimed(_) => false,
        }
    }

    /// The text of the line at `index`, or `None` past the last line.
    pub fn text(&self, index: usize) -> (text: Option<&str>)
        ensures
            index < self@.texts().len() ==> text is Some && text->0@ == self@.texts()[index as int],
            index >= self@.texts().len() ==> text is None,
    {
        match self {
            Session::Timed(scheduler) => match scheduler.track().get(index) {
                Some(line) => Some(line.text.as_str()),
                None => None,
            },
            Session::Untimed(scheduler) => {
                let lines = scheduler.lines();
                if index < lines.len() {
                    Some(lines[index].as_str())
                } else {
                    None
                }
            },
        }
    }

    /// Takes the next decision, given that the clock reads `elapsed_ms`
    /// milliseconds since the start of playback.
    pub fn step(&mut self, elapsed_ms: u128) -> (action: Action)
        ensures
            action@ == old(self)@.decide(elapsed_ms as nat),
            final(self)@ == old(self)@.advance(elapsed_ms as nat),
    {
        match self {
            Session::Timed(scheduler) => scheduler.step(elapsed_ms),
            Session::Untimed(scheduler) => scheduler.step(),
        }
    }
}

} // verus!
