use vs_queue::calendar::{Date, TimeOfDay};
use vs_queue::log_line::{LineFields, parse_queue_sample, queue_line, read_fields};
use vs_queue::timestamp::Timestamp;

fn at(year: i32, month: u32, day: u32, hour: u32, minute: u32, second: u32) -> Timestamp {
    Timestamp::at(Date { year, month, day }, TimeOfDay { hour, minute, second })
        .expect("the time exists")
}

fn position_of(line: &str) -> Option<String> {
    parse_queue_sample(line).map(|sample| sample.position.text())
}

#[test]
fn parses_queue_line() {
    let line =
        "6.4.2026 17:07:03 [Client Notification] Client is in connect queue at position: 90";
    let sample = parse_queue_sample(line).expect("line should parse");

    assert_eq!(sample.position.text().parse::<f64>(), Ok(90.0));
    assert_eq!(sample.timestamp, at(2026, 4, 6, 17, 7, 3));
}

#[test]
fn lines_without_the_shape_report_nothing() {
    assert!(parse_queue_sample("").is_none());
    assert!(parse_queue_sample("Client is in connect queue at position: 90").is_none());
    assert!(parse_queue_sample(" 6.4.2026 17:07:03 position: 90").is_none());
    assert!(parse_queue_sample("6.4.26 17:07:03 position: 90").is_none());
    assert!(parse_queue_sample("6.4.20266 17:07:03 position: 90").is_none());
    assert!(parse_queue_sample("006.4.2026 17:07:03 position: 90").is_none());
    assert!(parse_queue_sample("6.4.2026 17:7:03 position: 90").is_none());
    assert!(parse_queue_sample("6.4.2026 17:07:3 position: 90").is_none());
    assert!(parse_queue_sample("6.4.202617:07:03 position: 90").is_none());
    assert!(parse_queue_sample("6.4.2026 17:07:03 position 90").is_none());
    assert!(parse_queue_sample("6.4.2026 17:07:03 position: none").is_none());
    assert!(parse_queue_sample("6.4.2026 17:07:03 position: -1").is_none());
    assert!(parse_queue_sample("6.4.2026 17:07:03 Position: 1").is_none());
}

#[test]
fn days_and_times_that_do_not_exist_report_nothing() {
    assert!(parse_queue_sample("30.2.2026 17:07:03 position: 90").is_none());
    assert!(parse_queue_sample("29.2.2026 17:07:03 position: 90").is_none());
    assert!(parse_queue_sample("29.2.2024 17:07:03 position: 90").is_some());
    assert!(parse_queue_sample("6.13.2026 17:07:03 position: 90").is_none());
    assert!(parse_queue_sample("0.4.2026 17:07:03 position: 90").is_none());
    assert!(parse_queue_sample("6.4.2026 24:00:00 position: 90").is_none());
    assert!(parse_queue_sample("6.4.2026 23:60:00 position: 90").is_none());
    assert!(parse_queue_sample("6.4.2026 23:59:60 position: 90").is_none());
    assert!(parse_queue_sample("1.1.0000 0:00:00 position: 90").is_some());
    assert!(parse_queue_sample("31.12.9999 23:59:59 position: 90").is_some());
}

#[test]
fn the_first_position_with_digits_counts() {
    assert_eq!(position_of("6.4.2026 17:07:03 position:5 position: 7"), Some("5".to_string()));
    assert_eq!(position_of("6.4.2026 17:07:03 position: x position: 7"), Some("7".to_string()));
    assert_eq!(position_of("6.4.2026 17:07:03position:8"), Some("8".to_string()));
    assert_eq!(position_of("6.4.2026 17:07:035 position:8 left"), Some("8".to_string()));
    assert_eq!(position_of("6.4.2026\t \u{3000}17:07:03 position:\t\u{a0}12,5"), Some("12".to_string()));
    assert_eq!(position_of("6.4.2026 17:07:03 position:\n 3"), Some("3".to_string()));
    assert_eq!(position_of("6.4.2026 17:07:03 a\nposition: 3"), None);
    assert_eq!(position_of("6.4.2026 17:07:03 a\rposition: 3"), Some("3".to_string()));
}

#[test]
fn positions_have_no_bound() {
    assert_eq!(position_of("6.4.2026 17:07:03 position: 0007"), Some("7".to_string()));
    assert_eq!(position_of("6.4.2026 17:07:03 position: 000"), Some("0".to_string()));
    assert_eq!(
        position_of("6.4.2026 17:07:03 position: 123456789012345678901234567890123456789012345"),
        Some("123456789012345678901234567890123456789012345".to_string())
    );
}

#[test]
fn digits_of_other_scripts_match_and_are_no_numbers() {
    // The first position that the pattern finds is written in Arabic digits.
    assert_eq!(position_of("6.4.2026 17:07:03 position: \u{663} position: 4"), None);
    assert_eq!(position_of("6.4.2026 17:07:03 position: 4\u{663}"), None);
    assert_eq!(position_of("\u{666}.4.2026 17:07:03 position: 4"), None);
    assert_eq!(position_of("6.4.2026 17:07:03 position: \u{e9} position: 4"), Some("4".to_string()));
    assert_eq!(position_of("6.4.2026 17:07:03 position: 4\u{e9}"), Some("4".to_string()));
    assert_eq!(position_of("6.4.2026 17:07:03 position: \u{1fbf9} position: 4"), None);
    assert_eq!(position_of("6.4.2026 17:07:03 position: \u{1fbfa} position: 4"), Some("4".to_string()));
}

#[test]
fn lines_that_are_written_read_back() {
    for (timestamp, position) in [
        (at(2026, 4, 6, 17, 7, 3), 90),
        (at(1000, 1, 1, 0, 0, 0), 0),
        (at(9999, 12, 31, 23, 59, 59), u32::MAX),
        (at(2024, 2, 29, 9, 8, 7), 1),
    ] {
        let sample = parse_queue_sample(&queue_line(&timestamp, position)).expect("the line parses");
        assert_eq!(sample.timestamp, timestamp);
        assert_eq!(sample.position.text(), position.to_string());
    }
    assert_eq!(
        queue_line(&at(2026, 4, 6, 17, 7, 3), 90),
        "6.4.2026 17:07:03 [Client Notification] Client is in connect queue at position: 90"
    );
    assert!(parse_queue_sample(&queue_line(&at(999, 4, 6, 17, 7, 3), 90)).is_none());
}

fn fields(day: &str, second: &str, position: &str) -> LineFields {
    LineFields {
        day: day.to_string(),
        month: "4".to_string(),
        year: "2026".to_string(),
        hour: "17".to_string(),
        minute: "07".to_string(),
        second: second.to_string(),
        position: position.to_string(),
    }
}

#[test]
fn fields_are_read_as_numbers() {
    let sample = read_fields(&fields("6", "03", "90")).expect("the fields are sound");
    assert_eq!(sample.timestamp, at(2026, 4, 6, 17, 7, 3));
    assert_eq!(sample.position.text(), "90");
    assert!(read_fields(&fields("31", "03", "90")).is_none());
    assert!(read_fields(&fields("6", "60", "90")).is_none());
    assert!(read_fields(&fields("x", "03", "90")).is_none());
    assert!(read_fields(&fields("6", "03", "")).is_none());
}
