//! The scheduler that shows each line of a track once playback has reached
//! the line's offset.
//!
//! The scheduler neither reads a clock nor sleeps. Its driver hands it a
//! clock reading, carries out the action it gets back, and asks again until
//! the action is `Finished`.

use vstd::prelude::*;
use crate::action::{Action, Decision};
use crate::track::{Entry, LyricTrack};

verus! {

/// How far a scheduler has come through its track.
pub struct Progress {
    /// The entries of the track, in display order.
    pub track: Seq<Entry>,
    /// The number of entries emitted so far; the next one stands here.
    pub cursor: nat,
    /// Whether the wait for the next entry has already been asked for.
    pub waited: bool,
}

impl Progress {
    /// Where a scheduler for `track` begins.
    pub open spec fn start(track: Seq<Entry>) -> Progress {
        Progress { track, cursor: 0, waited: false }
    }

    /// The decision taken when the clock reads `elapsed_ms`.
    ///
    /// With no entry left the run is finished. Otherwise the next entry is
    /// emitted if the clock has reached its offset or the wait for it was
    /// already asked for; else a wait for the time still missing is asked
    /// for.
    pub open spec fn decide(self, elapsed_ms: nat) -> Decision {
        if self.cursor >= self.track.len() {
            Decision::Finished
        } else if !self.waited && elapsed_ms < self.track[self.cursor as int].offset_ms {
            Decision::Wait { ms: (self.track[self.cursor as int].offset_ms - elapsed_ms) as nat }
        } else {
            Decision::Emit { index: self.cursor }
        }
    }

    /// The progress after the decision taken when the clock reads
    /// `elapsed_ms`.
    pub open spec fn advance(self, elapsed_ms: nat) -> Progress {
        match self.decide(elapsed_ms) {
            Decision::Wait { .. } => Progress { waited: true, ..self },
            Decision::Emit { .. } => Progress { cursor: self.cursor + 1, waited: false, ..self },
            Decision::Finished => self,
        }
    }

    /// The progress after one decision on each of `readings`, in order.
    pub open spec fn after(self, readings: Seq<nat>) -> Progress
        decreases readings.len(),
    {
        if readings.len() == 0 {
            self
        } else {
            self.after(readings.drop_last()).advance(readings.last())
        }
    }

    /// The decision taken at step `step` of a run on `readings`: the one on
    /// `readings[step]`, after a decision on each earlier reading.
    pub open spec fn decision_at(self, readings: Seq<nat>, step: int) -> Decision {
        self.after(readings.take(step)).decide(readings[step])
    }

    /// The indices of the entries emitted during a run on `readings`, in
    /// the order of their emission.
    pub open spec fn emitted(self, readings: Seq<nat>) -> Seq<nat>
        decreases readings.len(),
    {
        if readings.len() == 0 {
            Seq::empty()
        } else {
            let earlier = self.emitted(readings.drop_last());
            match self.decision_at(readings, readings.len() - 1) {
                Decision::Emit { index } => earlier.push(index),
                _ => earlier,
            }
        }
    }

    /// Whether every wait asked for during a run on `readings` was kept:
    /// the reading that follows a wait is at least the reading at which the
    /// wait was asked for plus the length of the wait.
    pub open spec fn waits_kept(self, readings: Seq<nat>) -> bool {
        forall|step: int|
            0 <= step && step + 1 < readings.len() ==> (#[trigger] self.decision_at(
                readings,
                step,
            ) matches Decision::Wait { ms } ==> readings[step + 1] >= readings[step] + ms)
    }
}

/// One more reading takes the run one decision further.
pub proof fn lemma_after_step(p: Progress, readings: Seq<nat>, step: int)
    requires
        0 <= step < readings.len(),
    ensures
        p.after(readings.take(step + 1)) == p.after(readings.take(step)).advance(readings[step]),
{
    assert(readings.take(step + 1).drop_last() == readings.take(step));
}

/// A run neither changes the track nor moves the cursor back or past the
/// end of the track, and a wait is only ever pending for an entry of the
/// track.
pub proof fn lemma_after_bounds(p: Progress, readings: Seq<nat>)
    requires
        p.cursor <= p.track.len(),
        p.waited ==> p.cursor < p.track.len(),
    ensures
        p.after(readings).track == p.track,
        p.cursor <= p.after(readings).cursor <= p.track.len(),
        p.after(readings).waited ==> p.after(readings).cursor < p.track.len(),
    decreases readings.len(),
{
    if readings.len() > 0 {
        lemma_after_bounds(p, readings.drop_last());
    }
}

/// The entries emitted from any point of a run are the ones that follow
/// the cursor, one after the other.
pub proof fn lemma_emitted_from(p: Progress, readings: Seq<nat>)
    requires
        p.cursor <= p.track.len(),
        p.waited ==> p.cursor < p.track.len(),
    ensures
        p.emitted(readings).len() == p.after(readings).cursor - p.cursor,
        forall|i: int| 0 <= i < p.emitted(readings).len() ==> p.emitted(readings)[i] == p.cursor + i,
    decreases readings.len(),
{
    if readings.len() > 0 {
        let earlier = readings.drop_last();
        lemma_emitted_from(p, earlier);
        lemma_after_bounds(p, earlier);
        assert(readings.take(readings.len() - 1) == earlier);
    }
}

/// Emission order is track order: whatever the clock reads, the `i`-th
/// entry emitted is the `i`-th entry of the track, and no more entries are
/// emitted than the track holds.
pub proof fn lemma_emission_order(track: Seq<Entry>, readings: Seq<nat>)
    ensures
        Progress::start(track).emitted(readings).len() <= track.len(),
        forall|i: int|
            0 <= i < Progress::start(track).emitted(readings).len() ==> Progress::start(
                track,
            ).emitted(readings)[i] == i,
{
    let p = Progress::start(track);
    lemma_emitted_from(p, readings);
    lemma_after_bounds(p, readings);
}

/// The number of decisions that a scheduler still has to take before it is
/// finished: two for each entry left, less one if the wait for the next
/// entry was already asked for.
pub open spec fn steps_left(p: Progress) -> nat {
    if p.cursor >= p.track.len() {
        0
    } else if p.waited {
        (2 * (p.track.len() - p.cursor) - 1) as nat
    } else {
        (2 * (p.track.len() - p.cursor)) as nat
    }
}

/// Every decision but `Finished` brings the end of the run nearer.
pub proof fn lemma_steps_left_after(p: Progress, readings: Seq<nat>)
    ensures
        steps_left(p.after(readings)) + readings.len() <= steps_left(p) || steps_left(
            p.after(readings),
        ) == 0,
    decreases readings.len(),
{
    if readings.len() > 0 {
        lemma_steps_left_after(p, readings.drop_last());
    }
}

/// The run ends: whatever the clock reads, after two decisions for each
/// entry of the track every entry has been emitted, and every later
/// decision is `Finished`.
pub proof fn lemma_run_completes(track: Seq<Entry>, readings: Seq<nat>)
    requires
        readings.len() >= 2 * track.len(),
    ensures
        Progress::start(track).emitted(readings).len() == track.len(),
        forall|elapsed_ms: nat|
            Progress::start(track).after(readings).decide(elapsed_ms) == Decision::Finished,
{
    let p = Progress::start(track);
    lemma_steps_left_after(p, readings);
    lemma_after_bounds(p, readings);
    lemma_emitted_from(p, readings);
}

/// No entry is emitted early: on a run from the start in which every wait
/// was kept, an entry is emitted only once the clock has reached its
/// offset.
pub proof fn lemma_never_early(track: Seq<Entry>, readings: Seq<nat>, step: int)
    requires
        0 <= step < readings.len(),
        Progress::start(track).waits_kept(readings),
        Progress::start(track).decision_at(readings, step) is Emit,
    ensures
        Progress::start(track).decision_at(readings, step)->index < track.len(),
        readings[step] >= track[Progress::start(track).decision_at(
            readings,
            step,
        )->index as int].offset_ms,
{
    let p = Progress::start(track);
    let now = p.after(readings.take(step));
    lemma_after_bounds(p, readings.take(step));
    if now.waited {
        assert(step > 0) by {
            if step == 0 {
                assert(readings.take(0).len() == 0);
            }
        }
        let before = p.after(readings.take(step - 1));
        lemma_after_bounds(p, readings.take(step - 1));
        lemma_after_step(p, readings, step - 1);
        assert(p.decision_at(readings, step - 1) is Wait);
    }
}

/// A scheduler for an empty track emits nothing: whatever the clock reads,
/// its every decision, the first included, is `Finished`.
pub proof fn lemma_empty_track(readings: Seq<nat>)
    ensures
        Progress::start(Seq::empty()).emitted(readings).len() == 0,
        forall|step: int|
            0 <= step < readings.len() ==> #[trigger] Progress::start(Seq::empty()).decision_at(
                readings,
                step,
            ) == Decision::Finished,
{
    let p = Progress::start(Seq::empty());
    lemma_emission_order(Seq::empty(), readings);
    assert forall|step: int| 0 <= step < readings.len() implies #[trigger] p.decision_at(
        readings,
        step,
    ) == Decision::Finished by {
        lemma_after_bounds(p, readings.take(step));
    }
}

/// Decides, step by step, when each line of a track is shown.
#[derive(Debug, Clone, PartialEq, Eq)]
pub struct Scheduler {
    track: LyricTrack,
    cursor: usize,
    waited: bool,
}

impl View for Scheduler {
    type V = Progress;

    closed spec fn view(&self) -> Progress {
        Progress { track: self.track@, cursor: self.cursor as nat, waited: self.waited }
    }
}

impl Scheduler {
    /// A scheduler at the beginning of `track`.
    pub fn new(track: LyricTrack) -> (scheduler: Scheduler)
        ensures
            scheduler@ == Progress::start(track@),
    {
        Scheduler { track, cursor: 0, waited: false }
    }

    /// The track that is being shown.
    pub fn track(&self) -> (track: &LyricTrack)
        ensures
            track@ == self@.track,
    {
        &self.track
    }

    /// Takes the next decision, given that the clock reads `elapsed_ms`
    /// milliseconds since the start of playback.
    pub fn step(&mut self, elapsed_ms: u128) -> (action: Action)
        ensures
            action@ == old(self)@.decide(elapsed_ms as nat),
            final(self)@ == old(self)@.advance(elapsed_ms as nat),
    {
        if self.cursor >= self.track.len() {
            return Action::Finished;
        }
        let offset_ms = self.track.line(self.cursor).offset_ms;
        if !self.waited && elapsed_ms < offset_ms {
            self.waited = true;
            Action::Wait { ms: offset_ms - elapsed_ms }
        } else {
            let index = self.cursor;
            self.cursor = index + 1;
            self.waited = false;
            Action::Emit { index }
        }
    }
}

} // verus!
