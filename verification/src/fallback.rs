//! The fallback scheduler for lyrics without timestamps: it shows the lines
//! one after the other, a fixed interval apart.
//!
//! Like the playback scheduler it neither sleeps nor prints. Its driver
//! carries out each action and asks again until the action is `Finished`.

use vstd::prelude::*;
use crate::action::{Action, Decision};
use crate::text::line_texts;

verus! {

/// How far a fallback scheduler has come through its lines.
pub struct FallbackProgress {
    /// The lines, in display order.
    pub lines: Seq<Seq<char>>,
    /// The time between two emissions, in milliseconds.
    pub interval_ms: nat,
    /// The number of lines emitted so far; the next one stands here.
    pub cursor: nat,
    /// Whether the wait before the next line has already been asked for.
    pub waited: bool,
}

impl FallbackProgress {
    /// Where a fallback scheduler for `lines` begins.
    pub open spec fn start(lines: Seq<Seq<char>>, interval_ms: nat) -> FallbackProgress {
        FallbackProgress { lines, interval_ms, cursor: 0, waited: false }
    }

    /// The next decision.
    ///
    /// With no line left the run is finished. The first line is emitted at
    /// once. Each later line is emitted after one wait of the interval.
    pub open spec fn decide(self) -> Decision {
        if self.cursor >= self.lines.len() {
            Decision::Finished
        } else if self.cursor > 0 && !self.waited {
            Decision::Wait { ms: self.interval_ms }
        } else {
            Decision::Emit { index: self.cursor }
        }
    }

    /// The progress after the next decision.
    pub open spec fn advance(self) -> FallbackProgress {
        match self.decide() {
            Decision::Wait { .. } => FallbackProgress { waited: true, ..self },
            Decision::Emit { .. } => FallbackProgress {
                cursor: self.cursor + 1,
                waited: false,
                ..self
            },
            Decision::Finished => self,
        }
    }

    /// The progress after `steps` decisions.
    pub open spec fn after(self, steps: nat) -> FallbackProgress
        decreases steps,
    {
        if steps == 0 {
            self
        } else {
            self.after((steps - 1) as nat).advance()
        }
    }

    /// The total of the waits asked for in the first `steps` decisions, in
    /// milliseconds.
    pub open spec fn waited_ms(self, steps: nat) -> nat
        decreases steps,
    {
        if steps == 0 {
            0
        } else {
            let earlier = self.waited_ms((steps - 1) as nat);
            match self.after((steps - 1) as nat).decide() {
                Decision::Wait { ms } => earlier + ms,
                _ => earlier,
            }
        }
    }
}

/// Where a run from the start stands after `steps` decisions, as long as
/// lines are left.
pub proof fn lemma_fallback_progress(lines: Seq<Seq<char>>, interval_ms: nat, steps: nat)
    requires
        steps <= 2 * lines.len(),
    ensures
        FallbackProgress::start(lines, interval_ms).after(steps) == (FallbackProgress {
            lines,
            interval_ms,
            cursor: ((steps + 1) / 2) as nat,
            waited: steps > 0 && steps % 2 == 0 && steps < 2 * lines.len(),
        }),
    decreases steps,
{
    if steps > 0 {
        lemma_fallback_progress(lines, interval_ms, (steps - 1) as nat);
    }
}

/// The whole run of a fallback scheduler, decision by decision: the lines
/// are emitted in their order with one wait of the interval between two of
/// them, none before the first and none after the last. For `n` lines the
/// first `2n - 1` decisions alternate between emitting and waiting, and
/// every later decision is `Finished`.
pub proof fn lemma_fallback_schedule(lines: Seq<Seq<char>>, interval_ms: nat, step: nat)
    ensures
        FallbackProgress::start(lines, interval_ms).after(step).decide() == (if step + 1 >= 2
            * lines.len() {
            Decision::Finished
        } else if step % 2 == 0 {
            Decision::Emit { index: step / 2 }
        } else {
            Decision::Wait { ms: interval_ms }
        }),
    decreases step,
{
    let p = FallbackProgress::start(lines, interval_ms);
    if step <= 2 * lines.len() {
        lemma_fallback_progress(lines, interval_ms, step);
    } else {
        lemma_fallback_schedule(lines, interval_ms, (step - 1) as nat);
    }
}

/// The line at `index` is emitted when `index` intervals have been waited
/// for: the first at once, each later one an interval after the one before.
pub proof fn lemma_fallback_emission_time(lines: Seq<Seq<char>>, interval_ms: nat, index: nat)
    requires
        index < lines.len(),
    ensures
        FallbackProgress::start(lines, interval_ms).after(2 * index).decide() == (Decision::Emit {
            index,
        }),
        FallbackProgress::start(lines, interval_ms).waited_ms(2 * index) == index * interval_ms,
    decreases index,
{
    let p = FallbackProgress::start(lines, interval_ms);
    lemma_fallback_schedule(lines, interval_ms, 2 * index);
    if index > 0 {
        let earlier = (index - 1) as nat;
        lemma_fallback_emission_time(lines, interval_ms, earlier);
        lemma_fallback_schedule(lines, interval_ms, 2 * earlier);
        lemma_fallback_schedule(lines, interval_ms, 2 * earlier + 1);
        assert(p.waited_ms(2 * earlier + 1) == p.waited_ms(2 * earlier));
        assert(p.waited_ms(2 * index) == p.waited_ms(2 * earlier + 1) + interval_ms);
        assert(earlier * interval_ms + interval_ms == index * interval_ms) by (nonlinear_arith)
            requires
                earlier + 1 == index,
        ;
    }
}

/// Decides, step by step, how untimed lines are shown.
#[derive(Debug, Clone, PartialEq, Eq)]
pub struct FallbackScheduler {
    lines: Vec<String>,
    interval_ms: u64,
    cursor: usize,
    waited: bool,
}

impl View for FallbackScheduler {
    type V = FallbackProgress;

    closed spec fn view(&self) -> FallbackProgress {
        FallbackProgress {
            lines: line_texts(self.lines@),
            interval_ms: self.interval_ms as nat,
            cursor: self.cursor as nat,
            waited: self.waited,
        }
    }
}

impl FallbackScheduler {
    /// A scheduler at the beginning of `lines`, to be shown `interval_ms`
    /// milliseconds apart.
    pub fn new(lines: Vec<String>, interval_ms: u64) -> (scheduler: FallbackScheduler)
        ensures
            scheduler@ == FallbackProgress::start(line_texts(lines@), interval_ms as nat),
    {
        FallbackScheduler { lines, interval_ms, cursor: 0, waited: false }
    }

    /// The lines that are being shown.
    pub fn lines(&self) -> (lines: &Vec<String>)
        ensures
            line_texts(lines@) == self@.lines,
    {
        &self.lines
    }

    /// Takes the next decision.
    pub fn step(&mut self) -> (action: Action)
        ensures
            action@ == old(self)@.decide(),
            final(self)@ == old(self)@.advance(),
    {
        if self.cursor >= self.lines.len() {
            Action::Finished
        } else if self.cursor > 0 && !self.waited {
            self.waited = true;
            Action::Wait { ms: self.interval_ms as u128 }
        } else {
            let index = self.cursor;
            self.cursor = index + 1;
            self.waited = false;
            Action::Emit { index }
        }
    }
}

} // verus!
