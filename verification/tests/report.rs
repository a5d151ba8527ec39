use vs_queue::calendar::{Date, TimeOfDay};
use vs_queue::chart::{AxisTick, axis_text, label_column_width, log_panel_height};
use vs_queue::session::SessionKind;
use vs_queue::state::AppState;
use vs_queue::status::{
    ArrivalEstimate, ExitStatus, QueueFigures, arrival_after, build_status_lines,
    compact_estimate, echo, format_exit_status, title,
};
use vs_queue::text::{align_right, join, trim_line_end};
use vs_queue::timestamp::Timestamp;

fn at(hour: u32, minute: u32, second: u32) -> Timestamp {
    Timestamp::at(Date { year: 2026, month: 4, day: 6 }, TimeOfDay { hour, minute, second })
        .expect("the time exists")
}

// The rounded places are shown for places beyond the exact ones only.
fn figures() -> QueueFigures {
    QueueFigures {
        position: "rounded".to_string(),
        furthest: "rounded furthest".to_string(),
        progress: "20.0".to_string(),
    }
}

fn estimate() -> ArrivalEstimate {
    ArrivalEstimate { eta: at(17, 10, 0), remaining_millis: 480_000, rate: "10.00".to_string() }
}

fn watched() -> AppState {
    AppState::new(SessionKind::Watch, "queue.log".to_string(), 8, false)
}

#[test]
fn exits_are_told_in_words() {
    assert_eq!(format_exit_status(None), "running / unknown");
    assert_eq!(
        format_exit_status(Some(ExitStatus { success: true, code: Some(0) })),
        "exited successfully"
    );
    assert_eq!(
        format_exit_status(Some(ExitStatus { success: false, code: Some(-3) })),
        "exited with code -3"
    );
    assert_eq!(
        format_exit_status(Some(ExitStatus { success: false, code: Some(i32::MIN) })),
        "exited with code -2147483648"
    );
    assert_eq!(
        format_exit_status(Some(ExitStatus { success: false, code: None })),
        "terminated by signal"
    );
}

#[test]
fn status_waits_for_lines() {
    assert_eq!(
        build_status_lines(&watched(), &figures(), None, None),
        vec![
            "vs-queue  q / Esc / Ctrl+C stops the tracker",
            "source: watching existing log file",
            "log file: queue.log",
            "queue: waiting for matching log lines    process: running / unknown",
            "last sample: n/a",
            "eta: collecting more data / queue not moving yet",
            "plot: braille canvas    x-axis: time    y-axis: queue position",
        ]
    );
}

#[test]
fn status_tells_the_estimate() {
    let mut state = watched();
    state.record_line_at("6.4.2026 17:00:00 position: 100", at(17, 0, 0));
    state.record_line_at("6.4.2026 17:02:00 position: 80", at(17, 2, 0));
    let done = Some(ExitStatus { success: true, code: Some(0) });
    let lines = build_status_lines(&state, &figures(), Some(&estimate()), done);
    assert_eq!(lines[3], "queue: 80/100    progress: 20.0%    process: exited successfully");
    assert_eq!(lines[4], "last sample: 6.4.2026 17:02:00");
    assert_eq!(
        lines[5],
        "eta: 6.4.2026 17:10:00    remaining: 8m 0s    speed: 10.00 positions/min"
    );
    let lines = build_status_lines(&state, &figures(), None, done);
    assert_eq!(lines[5], "eta: collecting more data / queue not moving yet");
}

#[test]
fn status_tells_the_end_of_the_queue() {
    let mut state = watched();
    state.record_line_at("6.4.2026 17:02:00 position: 0", at(17, 2, 0));
    let lines = build_status_lines(&state, &figures(), None, None);
    assert_eq!(
        lines[5],
        "eta: reached queue end at 6.4.2026 17:02:00    remaining: 0s    speed: n/a"
    );
}

#[test]
fn compact_status_has_three_forms() {
    let mut state = watched();
    let moving = state
        .record_line_at("6.4.2026 17:02:00 position: 80", at(17, 2, 0))
        .expect("a sample");
    assert_eq!(
        compact_estimate(&moving, &figures(), Some(&estimate())),
        "queue=80 progress=20.0% eta=6.4.2026 17:10:00 remaining=8m 0s rate=10.00/min"
    );
    assert_eq!(
        compact_estimate(&moving, &figures(), None),
        "queue=80 progress=20.0% eta=pending"
    );
    let done = state
        .record_line_at("6.4.2026 17:10:00 position: 0", at(17, 10, 0))
        .expect("a sample");
    assert_eq!(
        compact_estimate(&done, &figures(), Some(&estimate())),
        "queue=0 progress=100.0% reached=6.4.2026 17:10:00 remaining=0s"
    );
}

#[test]
fn line_ends_are_cut_off() {
    assert_eq!(trim_line_end("a b\r\n"), "a b");
    assert_eq!(trim_line_end("a\n b\n\r\n\r"), "a\n b");
    assert_eq!(trim_line_end("\n"), "");
    assert_eq!(trim_line_end(""), "");
    assert_eq!(trim_line_end("\u{e9} "), "\u{e9} ");
}

#[test]
fn fields_are_aligned_and_joined() {
    assert_eq!(align_right("ab", 4), "  ab");
    assert_eq!(align_right("\u{e9}", 2), " \u{e9}");
    assert_eq!(align_right("abc", 2), "abc");
    assert_eq!(join(&Vec::new(), ", "), "");
    assert_eq!(join(&vec!["a".to_string()], ", "), "a");
    assert_eq!(join(&vec!["a".to_string(), "".to_string(), "b".to_string()], ", "), "a, , b");
}

#[test]
fn the_log_panel_has_room_for_three_lines() {
    assert_eq!(log_panel_height(0), 5);
    assert_eq!(log_panel_height(3), 5);
    assert_eq!(log_panel_height(8), 10);
    assert_eq!(log_panel_height(65_535), 65_535);
    assert_eq!(log_panel_height(65_533), 65_535);
    assert_eq!(log_panel_height(65_536), 2);
}

#[test]
fn the_label_column_fits_the_longest_label() {
    assert_eq!(label_column_width(3, 2, 1), 5);
    assert_eq!(label_column_width(0, 7, 1), 9);
    assert_eq!(label_column_width(0, 0, 1), 3);
    assert_eq!(label_column_width(65_534, 0, 1), 0);
    assert_eq!(label_column_width(usize::MAX, 0, 1), u16::MAX);
}

#[test]
fn the_axis_carries_its_labels() {
    let ticks = vec![
        AxisTick { row: 0, label: "110".to_string() },
        AxisTick { row: 1, label: "55".to_string() },
        AxisTick { row: 3, label: "0".to_string() },
    ];
    assert_eq!(
        axis_text(&ticks, 6, 4),
        "  110\u{2524}\n   55\u{2524}\n     \u{2502}\n    0\u{2524}"
    );
    let crowded = vec![
        AxisTick { row: 0, label: "110".to_string() },
        AxisTick { row: 0, label: "0".to_string() },
    ];
    assert_eq!(axis_text(&crowded, 0, 0), "0\u{2524}");
    assert_eq!(axis_text(&Vec::new(), 3, 2), "  \u{2502}\n  \u{2502}");
}

#[test]
fn arrivals_follow_the_last_sample() {
    let mut state = watched();
    let sample = state
        .record_line_at("6.4.2026 17:02:00 position: 80", at(17, 2, 0))
        .expect("a sample");
    let arrival = arrival_after(&sample, 480_000, "10.00".to_string()).expect("in range");
    assert_eq!(arrival.eta, at(17, 10, 0));
    assert_eq!(arrival.remaining_millis, 480_000);
    assert_eq!(arrival.rate, "10.00");
    assert!(arrival_after(&sample, i64::MAX, "0.00".to_string()).is_none());
}

#[test]
fn titles_tell_the_hint() {
    let launched = SessionKind::Launch { executable: "game".to_string(), args: Vec::new() };
    assert_eq!(
        title(&launched),
        "vs-queue  q / Esc / Ctrl+C stops only vs-queue; the launched process keeps running"
    );
    assert_eq!(title(&SessionKind::Watch), "vs-queue  q / Esc / Ctrl+C stops the tracker");
}

#[test]
fn places_beyond_the_exact_ones_are_rounded() {
    let mut state = watched();
    state.record_line_at("6.4.2026 17:00:00 position: 9007199254740992", at(17, 0, 0));
    let exact = build_status_lines(&state, &figures(), None, None);
    assert_eq!(
        exact[3],
        "queue: 9007199254740992/9007199254740992    progress: 20.0%    process: running / unknown"
    );
    let sample = state
        .record_line_at("6.4.2026 17:01:00 position: 9007199254740993", at(17, 1, 0))
        .expect("a sample");
    let rounded = build_status_lines(&state, &figures(), None, None);
    assert_eq!(
        rounded[3],
        "queue: rounded/rounded furthest    progress: 20.0%    process: running / unknown"
    );
    assert_eq!(
        compact_estimate(&sample, &figures(), None),
        "queue=rounded progress=20.0% eta=pending"
    );
}

#[test]
fn lines_are_echoed_without_a_screen() {
    let mut state = watched();
    let line = "6.4.2026 17:02:00 position: 80";
    let sample = state.record_line_at(line, at(17, 2, 0)).expect("a sample");
    assert_eq!(
        echo(false, line, Some(&sample), &figures(), None),
        vec![line, "queue=80 progress=20.0% eta=pending"]
    );
    assert_eq!(echo(false, "hello", None, &figures(), Some(&estimate())), vec!["hello"]);
    assert!(echo(true, line, Some(&sample), &figures(), None).is_empty());
}
