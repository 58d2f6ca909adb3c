use lyric_sync::action::Action;
use lyric_sync::parser::parse;
use lyric_sync::scheduler::Scheduler;
use lyric_sync::track::{LyricLine, LyricTrack};

fn track_of(offsets: &[u128]) -> LyricTrack {
    LyricTrack::from_lines(
        offsets.iter().map(|&offset| LyricLine::new(offset, format!("line at {}", offset))).collect(),
    )
}

/// Drives a scheduler against a clock that starts at `start_ms`, advances by
/// the length of every wait and by `lag_ms` on top of it, and loses `cost_ms`
/// on every emission. Returns each emission with the clock reading at which
/// it was decided.
fn drive(track: LyricTrack, start_ms: u128, lag_ms: u128, cost_ms: u128) -> Vec<(usize, u128)> {
    let limit = 2 * track.len() + 1;
    let mut scheduler = Scheduler::new(track);
    let mut clock = start_ms;
    let mut shown = Vec::new();
    for _ in 0..limit {
        match scheduler.step(clock) {
            Action::Wait { ms } => clock += ms + lag_ms,
            Action::Emit { index } => {
                shown.push((index, clock));
                clock += cost_ms;
            },
            Action::Finished => return shown,
        }
    }
    panic!("the scheduler did not finish within two steps for each line");
}

#[test]
fn waits_for_the_time_still_missing() {
    let mut scheduler = Scheduler::new(track_of(&[1_500, 3_000]));
    assert_eq!(scheduler.step(0), Action::Wait { ms: 1_500 });
    assert_eq!(scheduler.step(1_500), Action::Emit { index: 0 });
    assert_eq!(scheduler.step(1_600), Action::Wait { ms: 1_400 });
    assert_eq!(scheduler.step(3_001), Action::Emit { index: 1 });
    assert_eq!(scheduler.step(3_002), Action::Finished);
}

#[test]
fn emits_at_once_when_the_offset_is_reached() {
    let mut scheduler = Scheduler::new(track_of(&[1_000, 2_000]));
    assert_eq!(scheduler.step(1_000), Action::Emit { index: 0 });
    assert_eq!(scheduler.step(5_000), Action::Emit { index: 1 });
    assert_eq!(scheduler.step(5_000), Action::Finished);
}

#[test]
fn zero_offset_is_emitted_at_once() {
    let mut scheduler = Scheduler::new(track_of(&[0]));
    assert_eq!(scheduler.step(0), Action::Emit { index: 0 });
    assert_eq!(scheduler.step(0), Action::Finished);
}

#[test]
fn emits_after_one_wait_whatever_the_clock_reads() {
    let mut scheduler = Scheduler::new(track_of(&[1_000]));
    assert_eq!(scheduler.step(0), Action::Wait { ms: 1_000 });
    assert_eq!(scheduler.step(10), Action::Emit { index: 0 });
    assert_eq!(scheduler.step(10), Action::Finished);
}

#[test]
fn finished_is_repeated() {
    let mut scheduler = Scheduler::new(track_of(&[5]));
    assert_eq!(scheduler.step(9), Action::Emit { index: 0 });
    for reading in [0, 9, 1_000_000] {
        assert_eq!(scheduler.step(reading), Action::Finished);
    }
}

#[test]
fn empty_track_is_finished_at_once() {
    let mut scheduler = Scheduler::new(track_of(&[]));
    assert_eq!(scheduler.step(0), Action::Finished);
    assert_eq!(scheduler.step(12_345), Action::Finished);
    assert!(drive(track_of(&[]), 0, 0, 0).is_empty());
    assert!(scheduler.track().is_empty());
}

#[test]
fn emission_order_is_track_order_for_any_clock() {
    let offsets = [4_000, 1_000, 1_000, 9_000, 0, 2_500];
    let readings: [&[u128]; 5] = [
        &[0, 0, 0, 0, 0, 0, 0, 0, 0, 0, 0, 0, 0],
        &[100_000, 0, 50, 7, 100_000, 3, 0, 0, 99, 1, 2, 3, 4],
        &[1, 2, 3, 4, 5, 6, 7, 8, 9, 10, 11, 12, 13],
        &[9_000, 8_000, 7_000, 6_000, 5_000, 4_000, 3_000, 2_000, 1_000, 0, 0, 0, 0],
        &[u128::MAX, 0, u128::MAX, 0, u128::MAX, 0, u128::MAX, 0, u128::MAX, 0, 0, 0, 0],
    ];
    for clock in readings {
        let mut scheduler = Scheduler::new(track_of(&offsets));
        let mut shown = Vec::new();
        for &reading in clock {
            if let Action::Emit { index } = scheduler.step(reading) {
                shown.push(index);
            }
        }
        assert_eq!(shown, vec![0, 1, 2, 3, 4, 5]);
        assert_eq!(scheduler.step(0), Action::Finished);
    }
}

#[test]
fn finishes_within_two_steps_for_each_line() {
    let offsets = [10, 20, 30, 40];
    let mut scheduler = Scheduler::new(track_of(&offsets));
    let mut emitted = 0;
    for _ in 0..8 {
        if let Action::Emit { .. } = scheduler.step(0) {
            emitted += 1;
        }
    }
    assert_eq!(emitted, 4);
    assert_eq!(scheduler.step(0), Action::Finished);
}

#[test]
fn nothing_is_emitted_early_when_waits_are_kept() {
    let offsets = [1_500, 3_000, 3_000, 60_000, 61_010];
    for (start, lag, cost) in [(0, 0, 0), (0, 7, 3), (2_000, 0, 1_000), (70_000, 1, 1), (0, 0, 2_000)] {
        let shown = drive(track_of(&offsets), start, lag, cost);
        assert_eq!(shown.len(), offsets.len());
        for (position, &(index, at)) in shown.iter().enumerate() {
            assert_eq!(index, position);
            assert!(at >= offsets[index], "line {} shown at {}", index, at);
        }
    }
}

#[test]
fn exact_clock_shows_each_line_at_its_offset() {
    let shown = drive(track_of(&[1_500, 3_000, 60_000]), 0, 0, 0);
    assert_eq!(shown, vec![(0, 1_500), (1, 3_000), (2, 60_000)]);
}

#[test]
fn out_of_order_offsets_are_shown_in_track_order() {
    let shown = drive(track_of(&[5_000, 1_000, 3_000, 6_000]), 0, 0, 0);
    assert_eq!(shown, vec![(0, 5_000), (1, 5_000), (2, 5_000), (3, 6_000)]);
}

#[test]
fn late_start_shows_overdue_lines_without_waiting() {
    let mut scheduler = Scheduler::new(track_of(&[1_000, 2_000, 10_000]));
    assert_eq!(scheduler.step(4_000), Action::Emit { index: 0 });
    assert_eq!(scheduler.step(4_000), Action::Emit { index: 1 });
    assert_eq!(scheduler.step(4_000), Action::Wait { ms: 6_000 });
    assert_eq!(scheduler.step(10_000), Action::Emit { index: 2 });
    assert_eq!(scheduler.step(10_000), Action::Finished);
}

#[test]
fn very_large_offsets_give_exact_waits() {
    let far = u64::MAX as u128 * 61_010;
    let mut scheduler = Scheduler::new(track_of(&[far, u128::MAX]));
    assert_eq!(scheduler.step(10), Action::Wait { ms: far - 10 });
    assert_eq!(scheduler.step(far), Action::Emit { index: 0 });
    assert_eq!(scheduler.step(far), Action::Wait { ms: u128::MAX - far });
    assert_eq!(scheduler.step(u128::MAX), Action::Emit { index: 1 });
    assert_eq!(scheduler.step(u128::MAX), Action::Finished);
}

#[test]
fn scheduler_keeps_its_track() {
    let track = track_of(&[1, 2, 3]);
    let mut scheduler = Scheduler::new(track.clone());
    assert_eq!(scheduler.track(), &track);
    scheduler.step(0);
    scheduler.step(5);
    assert_eq!(scheduler.track(), &track);
    assert_eq!(scheduler.track().line(1).text, "line at 2");
}

#[test]
fn parsed_track_is_shown_line_by_line() {
    let lines: Vec<String> = ["[00:01.50]Hello", "[00:03.00]World", "garbage", "[01:00]Last"]
        .iter()
        .map(|line| line.to_string())
        .collect();
    let track = parse(&lines);
    let texts: Vec<String> = track.lines().iter().map(|line| line.text.clone()).collect();
    let shown = drive(track, 0, 0, 0);
    let shown_texts: Vec<(String, u128)> =
        shown.iter().map(|&(index, at)| (texts[index].clone(), at)).collect();
    assert_eq!(
        shown_texts,
        vec![
            ("Hello".to_string(), 1_500),
            ("World".to_string(), 3_000),
            ("Last".to_string(), 60_000),
        ]
    );
}
