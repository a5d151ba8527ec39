use vs_queue::calendar::{Date, TimeOfDay};
use vs_queue::chart::{observed_points, regression_points};
use vs_queue::session::SessionKind;
use vs_queue::state::AppState;
use vs_queue::timestamp::Timestamp;

fn at(hour: u32, minute: u32, second: u32) -> Timestamp {
    Timestamp::at(Date { year: 2026, month: 4, day: 6 }, TimeOfDay { hour, minute, second })
        .expect("the time exists")
}

fn state(max_recent_logs: usize) -> AppState {
    AppState::new(SessionKind::Watch, "queue.log".to_string(), max_recent_logs, true)
}

fn line(time: &str, position: u32) -> String {
    format!("6.4.2026 {time} queue at position: {position}")
}

#[test]
fn only_the_last_lines_are_kept() {
    let mut kept = state(2);
    assert_eq!(kept.shown_logs(), vec!["No log lines yet"]);
    for text in ["a", "b", "c", "d"] {
        kept.push_recent(text.to_string());
    }
    assert_eq!(kept.shown_logs(), vec!["c", "d"]);
    let mut none = state(0);
    none.push_recent("a".to_string());
    assert_eq!(none.shown_logs(), vec!["No log lines yet"]);
    assert_eq!(none.max_recent_logs(), 0);
}

#[test]
fn lines_that_report_nothing_leave_no_sample() {
    let mut fresh = state(4);
    assert!(fresh.record_line_at("hello", at(17, 0, 0)).is_none());
    assert!(fresh.samples().is_empty());
    assert!(fresh.max_seen_position().is_zero());
    assert_eq!(fresh.shown_logs(), vec!["hello"]);
}

#[test]
fn later_lines_keep_their_times() {
    let mut replay = state(4);
    let received = at(23, 0, 0);
    replay.record_line_at(&line("17:00:00", 100), received);
    let second = replay.record_line_at(&line("17:01:00", 90), received).expect("a sample");
    assert_eq!(second.timestamp, at(17, 1, 0));
    assert_eq!(second.position.text(), "90");
    assert_eq!(replay.samples().len(), 2);
    assert_eq!(replay.samples()[0].timestamp, at(17, 0, 0));
    assert_eq!(replay.samples()[1].timestamp, at(17, 1, 0));
    assert_eq!(replay.max_seen_position().text(), "100");
}

#[test]
fn the_first_line_keeps_its_time_however_old() {
    let mut old = state(4);
    let sample = old.record_line_at(&line("01:00:00", 5), at(23, 0, 0)).expect("a sample");
    assert_eq!(sample.timestamp, at(1, 0, 0));
}

#[test]
fn fresh_lines_of_one_second_take_the_time_they_came() {
    let mut live = state(4);
    live.record_line_at(&line("17:00:00", 100), at(17, 0, 0));
    let half = at(17, 0, 0).plus_millis(500).expect("in range");
    let second = live.record_line_at(&line("17:00:00", 99), half).expect("a sample");
    assert_eq!(second.timestamp, half);
    // Received before the sample above: a millisecond after it.
    let third = live.record_line_at(&line("17:00:00", 98), at(17, 0, 0)).expect("a sample");
    assert_eq!(third.timestamp, half.plus_millis(1).expect("in range"));
    // Two seconds and a bit apart still counts as fresh, three seconds do not.
    let near = at(17, 0, 2).plus_millis(999).expect("in range");
    let fourth = live.record_line_at(&line("17:00:00", 97), near).expect("a sample");
    assert_eq!(fourth.timestamp, near);
    let fifth = live.record_line_at(&line("17:00:00", 96), at(17, 0, 3)).expect("a sample");
    assert_eq!(fifth.timestamp, near.plus_millis(1).expect("in range"));
}

#[test]
fn stale_lines_follow_by_a_millisecond() {
    let mut stale = state(4);
    stale.record_line_at(&line("17:00:00", 100), at(23, 0, 0));
    let second = stale.record_line_at(&line("16:00:00", 120), at(23, 0, 0)).expect("a sample");
    assert_eq!(second.timestamp, at(17, 0, 0).plus_millis(1).expect("in range"));
    assert_eq!(stale.max_seen_position().text(), "120");
}

#[test]
fn samples_always_ascend() {
    let mut mixed = state(1);
    for (time, position) in
        [("17:00:00", 5), ("17:00:00", 5), ("03:00:00", 9), ("17:00:01", 4), ("17:00:01", 0)]
    {
        mixed.record_line_at(&line(time, position), at(17, 0, 1));
    }
    let samples = mixed.samples();
    assert_eq!(samples.len(), 5);
    for pair in samples.windows(2) {
        assert!(pair[1].timestamp.is_after(&pair[0].timestamp));
    }
    assert_eq!(mixed.max_seen_position().text(), "9");
}

#[test]
fn lines_are_recorded_by_the_clock() {
    let mut live = state(3);
    assert!(live.can_record(&line("17:00:00", 7)));
    let sample = live.record_line(&line("17:00:00", 7)).expect("a sample");
    assert_eq!(sample.timestamp, at(17, 0, 0));
    assert!(live.record_line("nothing").is_none());
    assert!(live.can_record(&line("16:00:00", 6)));
    assert!(live.can_record("nothing"));
    assert!(live.output_is_tty());
    assert_eq!(live.log_file(), "queue.log");
    assert_eq!(live.session().description(), "watching existing log file");
    assert_eq!(live.shown_logs(), vec![line("17:00:00", 7), "nothing".to_string()]);
}

#[test]
fn a_clock_at_the_end_of_time_leaves_the_first_line_alone() {
    let mut last = state(1);
    let end = Timestamp::at(
        Date { year: 262142, month: 12, day: 31 },
        TimeOfDay { hour: 23, minute: 59, second: 59 },
    )
    .expect("the time exists")
    .plus_millis(999)
    .expect("in range");
    last.record_line_at(&line("17:00:00", 7), end);
    assert!(last.can_record(&line("17:00:00", 6)));
    let first = last.samples()[0].timestamp;
    assert_eq!(first, at(17, 0, 0));
}

#[test]
fn points_count_from_the_first_sample() {
    let mut moving = state(1);
    for (time, position) in [("17:00:00", 100), ("17:01:00", 90), ("17:02:00", 80)] {
        moving.record_line_at(&line(time, position), at(23, 0, 0));
    }
    let points = observed_points(moving.samples());
    let seen: Vec<(i64, String)> =
        points.iter().map(|point| (point.elapsed_millis, point.position.text())).collect();
    assert_eq!(
        seen,
        vec![
            (0, "100".to_string()),
            (60_000, "90".to_string()),
            (120_000, "80".to_string())
        ]
    );
    assert!(observed_points(&Vec::new()).is_empty());
}

#[test]
fn estimates_rest_on_the_last_samples() {
    let mut moving = state(1);
    assert!(regression_points(moving.samples(), 20).is_none());
    moving.record_line_at(&line("17:00:00", 100), at(23, 0, 0));
    assert!(regression_points(moving.samples(), 20).is_none());
    moving.record_line_at(&line("17:01:00", 90), at(23, 0, 0));
    moving.record_line_at(&line("17:02:00", 80), at(23, 0, 0));
    let elapsed = |wanted: usize| -> Vec<i64> {
        regression_points(moving.samples(), wanted)
            .expect("two samples")
            .iter()
            .map(|point| point.elapsed_millis)
            .collect()
    };
    assert_eq!(elapsed(20), vec![0, 60_000, 120_000]);
    assert_eq!(elapsed(2), vec![60_000, 120_000]);
    assert_eq!(elapsed(0), vec![60_000, 120_000]);
}
