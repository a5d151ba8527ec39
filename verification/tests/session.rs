use vs_queue::calendar::{Date, TimeOfDay};
use vs_queue::session::{
    SessionKind, default_log_file_name, format_command, shell_quote, start_message,
};
use vs_queue::timestamp::Timestamp;

fn launch(executable: &str, args: &[&str]) -> SessionKind {
    SessionKind::Launch {
        executable: executable.to_string(),
        args: args.iter().map(|arg| arg.to_string()).collect(),
    }
}

#[test]
fn plain_words_are_not_quoted() {
    assert_eq!(shell_quote("/usr/bin/env-1.2:x_Y"), "/usr/bin/env-1.2:x_Y");
    assert_eq!(shell_quote(""), "");
    assert_eq!(shell_quote("a b"), "\"a b\"");
    assert_eq!(shell_quote("say \"hi\"\n"), "\"say \\\"hi\\\"\\n\"");
    assert_eq!(shell_quote("a=b"), "\"a=b\"");
    assert_eq!(shell_quote("\u{e9}"), "\"\u{e9}\"");
}

#[test]
fn commands_are_words_with_spaces_between() {
    let args = vec!["90".to_string(), "--interval-ms".to_string(), "a b".to_string()];
    assert_eq!(format_command("./mock_queue", &args), "./mock_queue 90 --interval-ms \"a b\"");
    assert_eq!(format_command("my game", &Vec::new()), "\"my game\"");
}

#[test]
fn sessions_describe_themselves() {
    assert_eq!(launch("game", &["-x"]).description(), "game -x");
    assert_eq!(SessionKind::Watch.description(), "watching existing log file");
    assert_eq!(
        launch("game", &[]).tracker_hint(),
        "q / Esc / Ctrl+C stops only vs-queue; the launched process keeps running"
    );
    assert_eq!(SessionKind::Watch.tracker_hint(), "q / Esc / Ctrl+C stops the tracker");
    assert!(launch("game", &[]).launched());
    assert!(!SessionKind::Watch.launched());
}

#[test]
fn log_files_are_named_by_executable_and_time() {
    let now = Timestamp::at(
        Date { year: 2026, month: 4, day: 6 },
        TimeOfDay { hour: 7, minute: 8, second: 9 },
    )
    .expect("the time exists");
    assert_eq!(
        default_log_file_name(Some("mock_queue"), &now),
        "vs-queue-mock_queue-20260406-070809.log"
    );
    assert_eq!(
        default_log_file_name(Some("my game\u{e9}.v2"), &now),
        "vs-queue-my-game--v2-20260406-070809.log"
    );
    assert_eq!(default_log_file_name(None, &now), "vs-queue-process-20260406-070809.log");
    let ancient = Timestamp::at(
        Date { year: -7, month: 4, day: 6 },
        TimeOfDay { hour: 7, minute: 8, second: 9 },
    )
    .expect("the time exists");
    assert_eq!(default_log_file_name(None, &ancient), "vs-queue-process--0070406-070809.log");
}

#[test]
fn the_start_is_announced() {
    assert_eq!(
        start_message(&launch("game", &["-x"]), "./queue.log"),
        vec![
            "launched game -x",
            "log file: ./queue.log",
            "Ctrl-C stops only the tracker; the launched process keeps running",
        ]
    );
    assert_eq!(
        start_message(&SessionKind::Watch, "./queue.log"),
        vec!["watching log file: ./queue.log"]
    );
}

// The character that starts a body between quotes, and what follows it.
fn first_character(body: &str) -> Option<(char, &str)> {
    let first = body.chars().next()?;
    let rest = &body[first.len_utf8()..];
    if first == '"' {
        return None;
    }
    if first != '\\' {
        return Some((first, rest));
    }
    let mark = rest.chars().next()?;
    let rest = &rest[mark.len_utf8()..];
    match mark {
        '0' => Some(('\0', rest)),
        't' => Some(('\t', rest)),
        'n' => Some(('\n', rest)),
        'r' => Some(('\r', rest)),
        '\'' | '"' | '\\' => Some((mark, rest)),
        'u' => {
            let (digits, rest) = rest.strip_prefix('{')?.split_once('}')?;
            if digits.is_empty() || digits.chars().any(|c| c.is_ascii_uppercase()) {
                return None;
            }
            Some((char::from_u32(u32::from_str_radix(digits, 16).ok()?)?, rest))
        }
        _ => None,
    }
}

fn value_of(word: &str) -> Option<String> {
    let Some(inner) = word.strip_prefix('"') else {
        return Some(word.to_string());
    };
    let mut body = inner.strip_suffix('"')?;
    let mut value = String::new();
    while !body.is_empty() {
        let (c, rest) = first_character(body)?;
        value.push(c);
        body = rest;
    }
    Some(value)
}

#[test]
fn words_tell_their_values() {
    for value in ["", "a", "a b", "\"", "\\", "\\\"", "\u{301}x", "x\u{301}", "\0001", "'", "\u{7f}{}"] {
        assert_eq!(value_of(&shell_quote(value)).as_deref(), Some(value));
    }
    for code in (0..0x3000).chain((0x3000..0x11_0000).step_by(61)) {
        if let Some(c) = char::from_u32(code) {
            let value = format!("{c} {c}1");
            let word = shell_quote(&value);
            assert!(word.starts_with('"') && word.ends_with('"'));
            assert_eq!(value_of(&word), Some(value));
        }
    }
    assert_ne!(shell_quote("a\nb"), shell_quote("a\\nb"));
}
