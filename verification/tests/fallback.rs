use lyric_sync::action::Action;
use lyric_sync::fallback::FallbackScheduler;

fn lines_of(lines: &[&str]) -> Vec<String> {
    lines.iter().map(|line| line.to_string()).collect()
}

/// Drives a fallback scheduler against a clock that advances by the length
/// of every wait. Returns each emitted line with the time of its emission.
fn drive(lines: &[&str], interval_ms: u64) -> Vec<(String, u128)> {
    let mut scheduler = FallbackScheduler::new(lines_of(lines), interval_ms);
    let mut clock: u128 = 0;
    let mut shown = Vec::new();
    for _ in 0..2 * lines.len() + 1 {
        match scheduler.step() {
            Action::Wait { ms } => clock += ms,
            Action::Emit { index } => shown.push((scheduler.lines()[index].clone(), clock)),
            Action::Finished => return shown,
        }
    }
    panic!("the scheduler did not finish within two steps for each line");
}

#[test]
fn fallback_shows_three_lines_an_interval_apart() {
    assert_eq!(
        drive(&["a", "b", "c"], 3_000),
        vec![("a".to_string(), 0), ("b".to_string(), 3_000), ("c".to_string(), 6_000)]
    );
}

#[test]
fn fallback_alternates_between_emitting_and_waiting() {
    let mut scheduler = FallbackScheduler::new(lines_of(&["a", "b", "c"]), 3_000);
    assert_eq!(scheduler.step(), Action::Emit { index: 0 });
    assert_eq!(scheduler.step(), Action::Wait { ms: 3_000 });
    assert_eq!(scheduler.step(), Action::Emit { index: 1 });
    assert_eq!(scheduler.step(), Action::Wait { ms: 3_000 });
    assert_eq!(scheduler.step(), Action::Emit { index: 2 });
    assert_eq!(scheduler.step(), Action::Finished);
    assert_eq!(scheduler.step(), Action::Finished);
}

#[test]
fn fallback_with_one_line_never_waits() {
    let mut scheduler = FallbackScheduler::new(lines_of(&["only"]), 3_000);
    assert_eq!(scheduler.step(), Action::Emit { index: 0 });
    assert_eq!(scheduler.step(), Action::Finished);
}

#[test]
fn fallback_without_lines_is_finished_at_once() {
    let mut scheduler = FallbackScheduler::new(Vec::new(), 3_000);
    assert_eq!(scheduler.step(), Action::Finished);
    assert!(drive(&[], 3_000).is_empty());
}

#[test]
fn fallback_with_zero_interval_asks_for_empty_waits() {
    let mut scheduler = FallbackScheduler::new(lines_of(&["a", "b"]), 0);
    assert_eq!(scheduler.step(), Action::Emit { index: 0 });
    assert_eq!(scheduler.step(), Action::Wait { ms: 0 });
    assert_eq!(scheduler.step(), Action::Emit { index: 1 });
    assert_eq!(scheduler.step(), Action::Finished);
}

#[test]
fn fallback_line_is_shown_after_as_many_intervals_as_lines_before_it() {
    let lines = ["one", "two", "three", "four", "five", "six"];
    for interval in [0u64, 1, 250, 3_000, u64::MAX] {
        let shown = drive(&lines, interval);
        assert_eq!(shown.len(), lines.len());
        for (position, (text, at)) in shown.iter().enumerate() {
            assert_eq!(text, lines[position]);
            assert_eq!(*at, position as u128 * interval as u128);
        }
    }
}

#[test]
fn fallback_keeps_its_lines() {
    let mut scheduler = FallbackScheduler::new(lines_of(&["a", "", "  c"]), 10);
    scheduler.step();
    scheduler.step();
    assert_eq!(scheduler.lines(), &lines_of(&["a", "", "  c"]));
}
