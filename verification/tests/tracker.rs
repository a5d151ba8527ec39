use vs_queue::session::SessionKind;
use vs_queue::status::ExitStatus;
use vs_queue::tracker::{
    Action, DETACHED_NOTICE, Event, KeyCode, KeyPress, Stage, Tracker, is_exit_key,
};

const DONE: ExitStatus = ExitStatus { success: true, code: Some(0) };

fn launch() -> SessionKind {
    SessionKind::Launch { executable: "game".to_string(), args: Vec::new() }
}

fn press(code: KeyCode, control: bool) -> KeyPress {
    KeyPress { code, control }
}

#[test]
fn exit_keys_are_told_apart() {
    assert!(is_exit_key(press(KeyCode::Esc, false)));
    assert!(is_exit_key(press(KeyCode::Char('q'), false)));
    assert!(is_exit_key(press(KeyCode::Char('Q'), true)));
    assert!(is_exit_key(press(KeyCode::Char('c'), true)));
    assert!(is_exit_key(press(KeyCode::Char('C'), true)));
    assert!(!is_exit_key(press(KeyCode::Char('c'), false)));
    assert!(!is_exit_key(press(KeyCode::Char('x'), true)));
    assert!(!is_exit_key(press(KeyCode::Other, true)));
}

#[test]
fn rounds_on_a_screen_wait_for_keys() {
    let mut tracker = Tracker::new(&SessionKind::Watch, true, 250);
    assert_eq!(tracker.pending(), Action::Refresh);
    assert_eq!(tracker.step(Event::Refreshed), Action::ReadLog);
    assert_eq!(tracker.step(Event::LogRead(false)), Action::Refresh);
    assert_eq!(tracker.step(Event::Refreshed), Action::CheckInterrupt);
    assert_eq!(tracker.step(Event::InterruptChecked(false)), Action::AwaitKey(250));
    assert_eq!(tracker.step(Event::KeyAwaited(None)), Action::ReadLog);
    assert_eq!(tracker.step(Event::LogRead(true)), Action::Refresh);
    assert_eq!(tracker.step(Event::Refreshed), Action::CheckInterrupt);
    assert_eq!(tracker.step(Event::InterruptChecked(false)), Action::AwaitKey(10));
    let other = press(KeyCode::Char('x'), false);
    assert_eq!(tracker.step(Event::KeyAwaited(Some(other))), Action::ReadLog);
    assert_eq!(tracker.step(Event::LogRead(false)), Action::Refresh);
    assert_eq!(tracker.step(Event::Refreshed), Action::CheckInterrupt);
    assert_eq!(tracker.step(Event::InterruptChecked(false)), Action::AwaitKey(250));
    let quit = press(KeyCode::Char('q'), false);
    assert_eq!(tracker.step(Event::KeyAwaited(Some(quit))), Action::Quit);
    assert_eq!(tracker.farewell("queue.log"), vec!["tracker stopped"]);
}

#[test]
fn leaving_a_running_process_is_noted() {
    let mut tracker = Tracker::new(&launch(), true, 0);
    assert_eq!(tracker.refresh_ms, 50);
    tracker.step(Event::Refreshed);
    assert_eq!(tracker.step(Event::LogRead(false)), Action::PollChild);
    assert_eq!(tracker.step(Event::ChildPolled(None)), Action::Refresh);
    assert_eq!(tracker.step(Event::Refreshed), Action::CheckInterrupt);
    assert_eq!(tracker.step(Event::InterruptChecked(true)), Action::NoteDetached);
    assert_eq!(tracker.step(Event::Noted), Action::Refresh);
    assert_eq!(tracker.step(Event::Refreshed), Action::Quit);
    assert_eq!(
        tracker.farewell("queue.log"),
        vec![
            "tracker stopped",
            "launched process continues in the background",
            "log file: queue.log",
        ]
    );
    assert_eq!(
        DETACHED_NOTICE,
        "[vs-queue] tracker stopped; launched process keeps running and logging"
    );
}

#[test]
fn the_screen_stays_after_the_process_has_ended() {
    let mut tracker = Tracker::new(&launch(), true, 250);
    tracker.step(Event::Refreshed);
    tracker.step(Event::LogRead(false));
    assert_eq!(tracker.step(Event::ChildPolled(Some(DONE))), Action::ReadLog);
    assert_eq!(tracker.stage, Stage::Rereading);
    assert_eq!(tracker.step(Event::LogRead(true)), Action::Refresh);
    tracker.step(Event::Refreshed);
    assert_eq!(tracker.step(Event::InterruptChecked(false)), Action::AwaitKey(10));
    // The next round reads twice, and does not ask for the process again.
    assert_eq!(tracker.step(Event::KeyAwaited(None)), Action::ReadLog);
    assert_eq!(tracker.step(Event::LogRead(false)), Action::ReadLog);
    assert_eq!(tracker.step(Event::LogRead(false)), Action::Refresh);
    tracker.step(Event::Refreshed);
    assert_eq!(tracker.step(Event::InterruptChecked(false)), Action::AwaitKey(250));
    let escape = press(KeyCode::Esc, false);
    assert_eq!(tracker.step(Event::KeyAwaited(Some(escape))), Action::Quit);
    assert_eq!(
        tracker.farewell("queue.log"),
        vec!["tracker stopped", "process exited successfully"]
    );
}

#[test]
fn without_a_screen_the_tracker_ends_with_the_process() {
    let mut tracker = Tracker::new(&launch(), false, 100);
    tracker.step(Event::Refreshed);
    tracker.step(Event::LogRead(false));
    tracker.step(Event::ChildPolled(None));
    tracker.step(Event::Refreshed);
    assert_eq!(tracker.step(Event::InterruptChecked(false)), Action::Sleep(100));
    assert_eq!(tracker.step(Event::Slept), Action::ReadLog);
    tracker.step(Event::LogRead(true));
    assert_eq!(tracker.step(Event::ChildPolled(Some(DONE))), Action::ReadLog);
    tracker.step(Event::LogRead(true));
    tracker.step(Event::Refreshed);
    assert_eq!(tracker.step(Event::InterruptChecked(false)), Action::Quit);
    assert_eq!(tracker.farewell("queue.log"), vec!["process exited successfully"]);
}

#[test]
fn without_a_screen_an_interruption_ends_the_tracker() {
    let mut tracker = Tracker::new(&launch(), false, 100);
    tracker.step(Event::Refreshed);
    tracker.step(Event::LogRead(false));
    tracker.step(Event::ChildPolled(None));
    tracker.step(Event::Refreshed);
    assert_eq!(tracker.step(Event::InterruptChecked(true)), Action::Quit);
    assert_eq!(tracker.farewell("queue.log")[1], "launched process continues in the background");
    // Nothing moves it any more.
    assert_eq!(tracker.step(Event::Refreshed), Action::Quit);
    let fresh = Tracker::new(&SessionKind::Watch, false, 100);
    assert!(fresh.farewell("queue.log").is_empty());
}

#[test]
fn events_that_do_not_fit_change_nothing() {
    let mut tracker = Tracker::new(&launch(), true, 100);
    let before = tracker;
    assert_eq!(tracker.step(Event::Slept), Action::Refresh);
    assert_eq!(tracker.step(Event::ChildPolled(Some(DONE))), Action::Refresh);
    assert_eq!(tracker, before);
}
