//! The course of a session: what the tracker does next, after what has happened.
use crate::session::SessionKind;
use crate::status::{ExitStatus, exit_text, format_exit_status};
use crate::text::texts;
use vstd::prelude::*;

verus! {

/// A key of the keyboard, as far as the tracker tells keys apart.
#[derive(Clone, Copy, Debug, PartialEq, Eq, Structural)]
pub enum KeyCode {
    Esc,
    Char(char),
    Other,
}

/// A key that was pressed, and whether the control key was held down.
#[derive(Clone, Copy, Debug, PartialEq, Eq, Structural)]
pub struct KeyPress {
    pub code: KeyCode,
    pub control: bool,
}

/// The keys that leave the tracker: `Esc`, `q`, and `c` with the control key.
pub open spec fn leaves(key: KeyPress) -> bool {
    ||| key.code == KeyCode::Esc
    ||| key.code == KeyCode::Char('q')
    ||| key.code == KeyCode::Char('Q')
    ||| (key.code == KeyCode::Char('c') || key.code == KeyCode::Char('C')) && key.control
}

/// Whether a key leaves the tracker.
pub fn is_exit_key(key: KeyPress) -> (exit: bool)
    ensures
        exit == leaves(key),
{
    match key.code {
        KeyCode::Esc => true,
        KeyCode::Char(c) => if c == 'q' || c == 'Q' {
            true
        } else {
            (c == 'c' || c == 'C') && key.control
        },
        KeyCode::Other => false,
    }
}

/// What the tracker waits for.
#[derive(Clone, Copy, Debug, PartialEq, Eq, Structural)]
pub enum Stage {
    /// The first refresh.
    Opening,
    /// The new lines of the log.
    Reading,
    /// Whether the launched process has ended.
    Polling,
    /// The lines that came before the process ended.
    Rereading,
    /// The refresh of a round.
    Refreshing,
    /// Whether the user has interrupted the tracker.
    Checking,
    /// A key.
    AwaitingKey,
    /// The end of a pause.
    Sleeping,
    /// The notice that the process goes on.
    Noting,
    /// The last refresh.
    Closing,
    /// Nothing any more.
    Done,
}

/// What the tracker is to do.
#[derive(Clone, Copy, Debug, PartialEq, Eq, Structural)]
pub enum Action {
    /// Work out the estimate anew, and draw it where there is a screen.
    Refresh,
    /// Take in the new lines of the log.
    ReadLog,
    /// See whether the launched process has ended.
    PollChild,
    /// See whether the user has interrupted the tracker.
    CheckInterrupt,
    /// Wait for a key, for some milliseconds at most.
    AwaitKey(u64),
    /// Pause for some milliseconds.
    Sleep(u64),
    /// Put the notice that the process goes on among the lines of the log.
    NoteDetached,
    /// Leave.
    Quit,
}

/// What has come of an action.
#[derive(Clone, Copy, Debug, PartialEq, Eq, Structural)]
pub enum Event {
    Refreshed,
    /// The log has been read; there were new lines or there were none.
    LogRead(bool),
    /// How the launched process has ended, if it has.
    ChildPolled(Option<ExitStatus>),
    /// Whether the user has interrupted the tracker.
    InterruptChecked(bool),
    /// The key that was pressed, if one was.
    KeyAwaited(Option<KeyPress>),
    Slept,
    Noted,
}

/// How far a session has come.
#[derive(Clone, Copy, Debug, PartialEq, Eq, Structural)]
pub struct Tracker {
    /// Whether there is a screen.
    pub output_is_tty: bool,
    /// Whether the tracker has launched the process.
    pub launched: bool,
    /// The milliseconds between two rounds.
    pub refresh_ms: u64,
    /// How the launched process has ended, as far as is known.
    pub exit: Option<ExitStatus>,
    /// Whether this round has brought new lines.
    pub saw_new_lines: bool,
    /// Whether the user has left.
    pub stopped_by_user: bool,
    pub stage: Stage,
}

/// The shortest time between two rounds, in milliseconds.
pub const MIN_REFRESH_MS: u64 = 50;

/// How long the tracker waits for a key after new lines, in milliseconds.
pub const BUSY_WAIT_MS: u64 = 10;

impl Tracker {
    /// The tracker at another stage.
    pub open spec fn at(self, stage: Stage) -> Tracker {
        Tracker { stage, ..self }
    }

    /// The tracker at the start of a round.
    pub open spec fn at_new_round(self) -> Tracker {
        Tracker { stage: Stage::Reading, saw_new_lines: false, ..self }
    }

    /// The tracker once the user has left. On a screen it says so where a process goes on.
    pub open spec fn once_stopped(self) -> Tracker {
        Tracker {
            stopped_by_user: true,
            stage: if self.output_is_tty && self.launched && self.exit is None {
                Stage::Noting
            } else {
                Stage::Done
            },
            ..self
        }
    }

    /// The tracker once the log has been read.
    pub open spec fn once_read(self, new_lines: bool) -> Tracker {
        let stage = if self.stage == Stage::Reading && self.exit is Some {
            Stage::Rereading
        } else if self.stage == Stage::Reading && self.launched {
            Stage::Polling
        } else {
            Stage::Refreshing
        };
        Tracker { stage, saw_new_lines: self.saw_new_lines || new_lines, ..self }
    }

    /// The tracker once it has seen whether the user has interrupted it.
    pub open spec fn once_checked(self, interrupted: bool) -> Tracker {
        if interrupted {
            self.once_stopped()
        } else if self.output_is_tty {
            self.at(Stage::AwaitingKey)
        } else if self.exit is Some {
            self.at(Stage::Done)
        } else {
            self.at(Stage::Sleeping)
        }
    }

    /// The tracker after an event. An event that it does not wait for changes nothing.
    pub open spec fn after(self, event: Event) -> Tracker {
        match (self.stage, event) {
            (Stage::Opening, Event::Refreshed) => self.at_new_round(),
            (Stage::Reading, Event::LogRead(new_lines)) => self.once_read(new_lines),
            (Stage::Rereading, Event::LogRead(new_lines)) => self.once_read(new_lines),
            (Stage::Polling, Event::ChildPolled(exit)) => Tracker {
                exit,
                stage: if exit is Some {
                    Stage::Rereading
                } else {
                    Stage::Refreshing
                },
                ..self
            },
            (Stage::Refreshing, Event::Refreshed) => self.at(Stage::Checking),
            (Stage::Checking, Event::InterruptChecked(interrupted)) => self.once_checked(
                interrupted,
            ),
            (Stage::AwaitingKey, Event::KeyAwaited(key)) => if key is Some && leaves(key->0) {
                self.once_stopped()
            } else {
                self.at_new_round()
            },
            (Stage::Sleeping, Event::Slept) => self.at_new_round(),
            (Stage::Noting, Event::Noted) => self.at(Stage::Closing),
            (Stage::Closing, Event::Refreshed) => self.at(Stage::Done),
            _ => self,
        }
    }

    /// What the tracker is to do.
    pub open spec fn spec_pending(self) -> Action {
        match self.stage {
            Stage::Opening => Action::Refresh,
            Stage::Reading => Action::ReadLog,
            Stage::Polling => Action::PollChild,
            Stage::Rereading => Action::ReadLog,
            Stage::Refreshing => Action::Refresh,
            Stage::Checking => Action::CheckInterrupt,
            Stage::AwaitingKey => Action::AwaitKey(
                if self.saw_new_lines {
                    BUSY_WAIT_MS
                } else {
                    self.refresh_ms
                },
            ),
            Stage::Sleeping => Action::Sleep(self.refresh_ms),
            Stage::Noting => Action::NoteDetached,
            Stage::Closing => Action::Refresh,
            Stage::Done => Action::Quit,
        }
    }

    /// Only a launched process is known to have ended; the tracker is done where the user has
    /// left, or without a screen where the process has ended.
    pub open spec fn is_valid(self) -> bool {
        &&& self.refresh_ms >= MIN_REFRESH_MS
        &&& self.exit is Some ==> self.launched
        &&& self.stage == Stage::Polling ==> self.launched && self.exit is None
        &&& self.stage == Stage::Rereading ==> self.exit is Some
        &&& self.stage == Stage::AwaitingKey ==> self.output_is_tty
        &&& self.stage == Stage::Sleeping ==> !self.output_is_tty && self.exit is None
        &&& self.stage == Stage::Noting || self.stage == Stage::Closing ==> {
            self.stopped_by_user && self.output_is_tty && self.launched && self.exit is None
        }
        &&& self.stage == Stage::Done ==> self.stopped_by_user || (!self.output_is_tty
            && self.exit is Some)
        &&& self.stopped_by_user ==> self.stage == Stage::Noting || self.stage == Stage::Closing
            || self.stage == Stage::Done
    }

    /// A session at its start. The rounds are `MIN_REFRESH_MS` apart at least.
    pub fn new(session: &SessionKind, output_is_tty: bool, refresh_ms: u64) -> (tracker: Tracker)
        ensures
            tracker.is_valid(),
            tracker == (Tracker {
                output_is_tty,
                launched: session.is_launch(),
                refresh_ms: if refresh_ms < MIN_REFRESH_MS {
                    MIN_REFRESH_MS
                } else {
                    refresh_ms
                },
                exit: None,
                saw_new_lines: false,
                stopped_by_user: false,
                stage: Stage::Opening,
            }),
    {
        Tracker {
            output_is_tty,
            launched: session.launched(),
            refresh_ms: if refresh_ms < MIN_REFRESH_MS {
                MIN_REFRESH_MS
            } else {
                refresh_ms
            },
            exit: None,
            saw_new_lines: false,
            stopped_by_user: false,
            stage: Stage::Opening,
        }
    }

    /// What the tracker is to do.
    pub fn pending(&self) -> (action: Action)
        ensures
            action == self.spec_pending(),
    {
        match self.stage {
            Stage::Opening => Action::Refresh,
            Stage::Reading => Action::ReadLog,
            Stage::Polling => Action::PollChild,
            Stage::Rereading => Action::ReadLog,
            Stage::Refreshing => Action::Refresh,
            Stage::Checking => Action::CheckInterrupt,
            Stage::AwaitingKey => if self.saw_new_lines {
                Action::AwaitKey(BUSY_WAIT_MS)
            } else {
                Action::AwaitKey(self.refresh_ms)
            },
            Stage::Sleeping => Action::Sleep(self.refresh_ms),
            Stage::Noting => Action::NoteDetached,
            Stage::Closing => Action::Refresh,
            Stage::Done => Action::Quit,
        }
    }

    fn start_round(&mut self)
        ensures
            *final(self) == old(self).at_new_round(),
    {
        self.stage = Stage::Reading;
        self.saw_new_lines = false;
    }

    fn stop(&mut self)
        ensures
            *final(self) == old(self).once_stopped(),
    {
        self.stopped_by_user = true;
        self.stage = if self.output_is_tty && self.launched && self.exit.is_none() {
            Stage::Noting
        } else {
            Stage::Done
        };
    }

    /// Takes in what has happened, and tells what to do next.
    pub fn step(&mut self, event: Event) -> (action: Action)
        ensures
            *final(self) == old(self).after(event),
            action == final(self).spec_pending(),
            old(self).is_valid() ==> final(self).is_valid(),
    {
        match (self.stage, event) {
            (Stage::Opening, Event::Refreshed) => self.start_round(),
            (Stage::Reading, Event::LogRead(new_lines)) => {
                self.saw_new_lines = self.saw_new_lines || new_lines;
                self.stage = if self.exit.is_some() {
                    Stage::Rereading
                } else if self.launched {
                    Stage::Polling
                } else {
                    Stage::Refreshing
                };
            },
            (Stage::Rereading, Event::LogRead(new_lines)) => {
                self.saw_new_lines = self.saw_new_lines || new_lines;
                self.stage = Stage::Refreshing;
            },
            (Stage::Polling, Event::ChildPolled(exit)) => {
                self.exit = exit;
                self.stage = if exit.is_some() {
                    Stage::Rereading
                } else {
                    Stage::Refreshing
                };
            },
            (Stage::Refreshing, Event::Refreshed) => {
                self.stage = Stage::Checking;
            },
            (Stage::Checking, Event::InterruptChecked(interrupted)) => {
                if interrupted {
                    self.stop();
                } else if self.output_is_tty {
                    self.stage = Stage::AwaitingKey;
                } else if self.exit.is_some() {
                    self.stage = Stage::Done;
                } else {
                    self.stage = Stage::Sleeping;
                }
            },
            (Stage::AwaitingKey, Event::KeyAwaited(key)) => {
                let left: bool = match key {
                    Some(k) => is_exit_key(k),
                    None => false,
                };
                if left {
                    self.stop();
                } else {
                    self.start_round();
                }
            },
            (Stage::Sleeping, Event::Slept) => self.start_round(),
            (Stage::Noting, Event::Noted) => {
                self.stage = Stage::Closing;
            },
            (Stage::Closing, Event::Refreshed) => {
                self.stage = Stage::Done;
            },
            _ => {},
        }
        self.pending()
    }

    /// The lines with which the tracker takes its leave.
    pub open spec fn farewell_text(self, log_file: Seq<char>) -> Seq<Seq<char>> {
        if self.stopped_by_user && self.launched && self.exit is None {
            seq![
                "tracker stopped"@,
                "launched process continues in the background"@,
                "log file: "@ + log_file,
            ]
        } else if self.stopped_by_user && self.launched {
            seq!["tracker stopped"@, "process "@ + exit_text(self.exit)]
        } else if self.stopped_by_user {
            seq!["tracker stopped"@]
        } else if self.launched {
            seq!["process "@ + exit_text(self.exit)]
        } else {
            Seq::empty()
        }
    }

    /// Takes leave, line by line.
    pub fn farewell(&self, log_file: &str) -> (lines: Vec<String>)
        ensures
            texts(lines@) == self.farewell_text(log_file@),
    {
        let mut lines: Vec<String> = Vec::new();
        if self.stopped_by_user {
            lines.push("tracker stopped".to_owned());
        }
        if self.launched {
            if self.stopped_by_user && self.exit.is_none() {
                lines.push("launched process continues in the background".to_owned());
                lines.push("log file: ".to_owned().concat(log_file));
            } else {
                let process = format_exit_status(self.exit);
                lines.push("process ".to_owned().concat(&process));
            }
        }
        assert(texts(lines@) =~= self.farewell_text(log_file@));
        lines
    }
}

/// The notice that the launched process goes on.
pub const DETACHED_NOTICE: &'static str =
    "[vs-queue] tracker stopped; launched process keeps running and logging";

/// A tracker with a screen stays until the user leaves it, even where the process has ended.
pub proof fn law_screen_stays_until_the_user_leaves(tracker: Tracker, event: Event)
    requires
        tracker.is_valid(),
        tracker.output_is_tty,
        tracker.after(event).spec_pending() == Action::Quit,
    ensures
        tracker.after(event).stopped_by_user,
{
}

/// A tracker without a screen ends by itself only where the launched process has ended.
pub proof fn law_tracker_outlives_the_process(tracker: Tracker, event: Event)
    requires
        tracker.is_valid(),
        tracker.after(event).spec_pending() == Action::Quit,
        !tracker.after(event).stopped_by_user,
    ensures
        tracker.launched,
        tracker.after(event).exit is Some,
{
}

/// Once the process is seen to have ended, the log is read once more before anything else.
pub proof fn law_last_lines_are_read(tracker: Tracker, ending: Event, later: Event)
    requires
        tracker.is_valid(),
        tracker.exit is None,
        tracker.after(ending).exit is Some,
    ensures
        tracker.after(ending).spec_pending() == Action::ReadLog,
        tracker.after(ending).after(later) == tracker.after(ending) || later is LogRead,
{
}

/// How the process has ended is never forgotten or changed.
pub proof fn law_exit_is_final(tracker: Tracker, event: Event)
    requires
        tracker.is_valid(),
        tracker.exit is Some,
    ensures
        tracker.after(event).exit == tracker.exit,
{
}

/// The user can leave at any time: an interruption, and a key that leaves, end the session, after
/// nothing but the notice that a process goes on.
pub proof fn law_user_can_leave(tracker: Tracker, key: KeyPress)
    requires
        tracker.is_valid(),
        tracker.stage == Stage::Checking || tracker.stage == Stage::AwaitingKey,
        leaves(key),
    ensures
        ({
            let left = if tracker.stage == Stage::Checking {
                tracker.after(Event::InterruptChecked(true))
            } else {
                tracker.after(Event::KeyAwaited(Some(key)))
            };
            &&& left.stopped_by_user
            &&& left.spec_pending() == Action::Quit || {
                &&& left.spec_pending() == Action::NoteDetached
                &&& left.after(Event::Noted).spec_pending() == Action::Refresh
                &&& left.after(Event::Noted).after(Event::Refreshed).spec_pending() == Action::Quit
            }
        }),
{
}

/// A tracker that is done stays done.
pub proof fn law_done_is_done(tracker: Tracker, event: Event)
    requires
        tracker.stage == Stage::Done,
    ensures
        tracker.after(event) == tracker,
{
}

/// Whether an event tells what came of an action.
pub open spec fn answers(action: Action, event: Event) -> bool {
    match action {
        Action::Refresh => event is Refreshed,
        Action::ReadLog => event is LogRead,
        Action::PollChild => event is ChildPolled,
        Action::CheckInterrupt => event is InterruptChecked,
        Action::AwaitKey(_) => event is KeyAwaited,
        Action::Sleep(_) => event is Slept,
        Action::NoteDetached => event is Noted,
        Action::Quit => false,
    }
}

/// Whether the user asks by an event to leave.
pub open spec fn asks_to_leave(event: Event) -> bool {
    ||| event == Event::InterruptChecked(true)
    ||| event matches Event::KeyAwaited(Some(key)) && leaves(key)
}

/// Whether an action ends a round: the tracker waits for a key, pauses or quits.
pub open spec fn ends_round(action: Action) -> bool {
    action is AwaitKey || action is Sleep || action == Action::Quit
}

/// Whether `next` is the tracker after an event within a round, that tells what came of what the
/// tracker was to do, and by which the user does not ask to leave.
#[verifier::opaque]
pub open spec fn goes_on_to(tracker: Tracker, event: Event, next: Tracker) -> bool {
    &&& !ends_round(tracker.spec_pending())
    &&& answers(tracker.spec_pending(), event)
    &&& !asks_to_leave(event)
    &&& next == tracker.after(event)
}

/// A bound on the steps that are left of a round.
spec fn steps_left(tracker: Tracker) -> nat {
    match tracker.stage {
        Stage::Opening => 6,
        Stage::Reading => 5,
        Stage::Polling => 4,
        Stage::Rereading => 3,
        Stage::Refreshing => 2,
        Stage::Checking => 1,
        _ => 0,
    }
}

proof fn lemma_step_shortens_the_round(tracker: Tracker, event: Event, next: Tracker)
    requires
        tracker.is_valid(),
        !tracker.stopped_by_user,
        goes_on_to(tracker, event, next),
    ensures
        next.is_valid(),
        !next.stopped_by_user,
        steps_left(next) < steps_left(tracker),
{
    reveal(goes_on_to);
}

proof fn lemma_steps_are_bounded(course: Seq<Tracker>, events: Seq<Event>, count: nat)
    requires
        course.len() == events.len() + 1,
        course[0].is_valid(),
        !course[0].stopped_by_user,
        forall|i: int|
            0 <= i < events.len() ==> goes_on_to(course[i], #[trigger] events[i], course[i + 1]),
        count <= events.len(),
    ensures
        course[count as int].is_valid(),
        !course[count as int].stopped_by_user,
        steps_left(course[count as int]) + count <= 6,
    decreases count,
{
    if count > 0 {
        let last = count - 1;
        lemma_steps_are_bounded(course, events, last as nat);
        let event = events[last];
        lemma_step_shortens_the_round(course[last], event, course[last + 1]);
    }
}

/// Every round comes to its end: whatever happens but that the user leaves, the tracker waits for a
/// key, pauses or quits after six steps at most. Stated of a course of events in which none of this
/// has come up: it has fewer than six steps.
pub proof fn law_every_round_comes_to_its_end(course: Seq<Tracker>, events: Seq<Event>)
    requires
        course.len() == events.len() + 1,
        course[0].is_valid(),
        !course[0].stopped_by_user,
        forall|i: int|
            0 <= i < events.len() ==> goes_on_to(course[i], #[trigger] events[i], course[i + 1]),
        !ends_round(course.last().spec_pending()),
    ensures
        events.len() < 6,
{
    lemma_steps_are_bounded(course, events, events.len());
    assert(course.last() == course[events.len() as int]);
    lemma_unfinished_rounds_have_steps_left(course.last());
}

proof fn lemma_unfinished_rounds_have_steps_left(tracker: Tracker)
    requires
        tracker.is_valid(),
        !tracker.stopped_by_user,
        !ends_round(tracker.spec_pending()),
    ensures
        steps_left(tracker) > 0,
{
}

/// A round ends on a screen with a wait for a key. Without one it ends with a pause where no end of
/// the process is known, and with the session otherwise.
pub proof fn law_rounds_end_by_the_screen(tracker: Tracker)
    requires
        tracker.is_valid(),
        !tracker.stopped_by_user,
        ends_round(tracker.spec_pending()),
    ensures
        tracker.output_is_tty <==> tracker.spec_pending() is AwaitKey,
        tracker.spec_pending() is Sleep <==> !tracker.output_is_tty && tracker.exit is None,
        tracker.spec_pending() == Action::Quit <==> !tracker.output_is_tty && tracker.exit is Some,
{
}

/// A round that the user does not end by leaving is followed by one that starts with the log, and
/// that has seen no new lines yet.
pub proof fn law_next_round_reads_the_log(tracker: Tracker, event: Event)
    requires
        tracker.is_valid(),
        tracker.spec_pending() is AwaitKey || tracker.spec_pending() is Sleep,
        answers(tracker.spec_pending(), event),
        !asks_to_leave(event),
    ensures
        tracker.after(event).spec_pending() == Action::ReadLog,
        !tracker.after(event).saw_new_lines,
        tracker.after(event).exit == tracker.exit,
        !tracker.after(event).stopped_by_user,
{
}

/// What a round does once the log has been read at its start: it polls a launched process that is
/// not known to have ended, reads the log once more where it has, and then refreshes the estimate.
pub proof fn law_course_of_a_round(
    tracker: Tracker,
    end: Event,
    first: bool,
    polled: Option<ExitStatus>,
    again: bool,
)
    requires
        tracker.is_valid(),
        ({
            ||| tracker.stage == Stage::Opening
            ||| tracker.spec_pending() is AwaitKey
            ||| tracker.spec_pending() is Sleep
        }),
        answers(tracker.spec_pending(), end),
        !asks_to_leave(end),
    ensures
        ({
            let read = tracker.after(end).after(Event::LogRead(first));
            let known = read.after(Event::ChildPolled(polled));
            &&& !tracker.launched ==> read.spec_pending() == Action::Refresh
            &&& tracker.exit is Some ==> {
                &&& read.spec_pending() == Action::ReadLog
                &&& read.after(Event::LogRead(again)).spec_pending() == Action::Refresh
            }
            &&& tracker.launched && tracker.exit is None ==> {
                &&& read.spec_pending() == Action::PollChild
                &&& known.exit == polled
                &&& polled is None ==> known.spec_pending() == Action::Refresh
                &&& polled is Some ==> {
                    &&& known.spec_pending() == Action::ReadLog
                    &&& known.after(Event::LogRead(again)).spec_pending() == Action::Refresh
                }
            }
        }),
{
}

/// A refresh within a session is followed by a look at whether the user has interrupted it, and
/// this by the end of the round. The first refresh comes before the first round, and the last one
/// before the end.
pub proof fn law_after_a_refresh(tracker: Tracker)
    requires
        tracker.is_valid(),
        tracker.spec_pending() == Action::Refresh,
    ensures
        ({
            let next = tracker.after(Event::Refreshed);
            let last = next.after(Event::InterruptChecked(false));
            &&& tracker.stopped_by_user <==> next.spec_pending() == Action::Quit
            &&& tracker.stage == Stage::Opening ==> next.spec_pending() == Action::ReadLog
            &&& !tracker.stopped_by_user && tracker.stage != Stage::Opening ==> {
                &&& next.spec_pending() == Action::CheckInterrupt
                &&& ends_round(last.spec_pending())
                &&& !last.stopped_by_user
            }
        }),
{
}

/// How long a round waits at its end: ten milliseconds for a key where it has seen new lines, and
/// the time between two rounds otherwise.
pub proof fn law_wait_is_short_after_new_lines(tracker: Tracker)
    ensures
        tracker.spec_pending() matches Action::AwaitKey(ms) ==> {
            &&& tracker.saw_new_lines ==> ms == 10
            &&& !tracker.saw_new_lines ==> ms == tracker.refresh_ms
        },
        tracker.spec_pending() matches Action::Sleep(ms) ==> ms == tracker.refresh_ms,
{
}

/// New lines are remembered up to the end of the round, and nothing else counts as new lines.
pub proof fn law_new_lines_are_remembered(tracker: Tracker, event: Event)
    requires
        tracker.is_valid(),
        !tracker.stopped_by_user,
        tracker.stage != Stage::Opening,
        !ends_round(tracker.spec_pending()),
        answers(tracker.spec_pending(), event),
    ensures
        tracker.after(event).saw_new_lines <==> tracker.saw_new_lines || event == Event::LogRead(
            true,
        ),
{
}

/// Only a poll tells how the process has ended, and what it tells is kept.
pub proof fn law_exit_comes_from_a_poll(tracker: Tracker, event: Event)
    requires
        tracker.is_valid(),
        tracker.after(event).exit != tracker.exit,
    ensures
        tracker.spec_pending() == Action::PollChild,
        event == Event::ChildPolled(tracker.after(event).exit),
{
}

/// What the session is set up with stays as it is, and a valid session stays valid.
pub proof fn law_setup_is_kept(tracker: Tracker, event: Event)
    ensures
        tracker.after(event).output_is_tty == tracker.output_is_tty,
        tracker.after(event).launched == tracker.launched,
        tracker.after(event).refresh_ms == tracker.refresh_ms,
        tracker.stopped_by_user ==> tracker.after(event).stopped_by_user,
        tracker.is_valid() ==> tracker.after(event).is_valid(),
{
}

/// An event that tells nothing of what the tracker was to do changes nothing.
pub proof fn law_unasked_events_change_nothing(tracker: Tracker, event: Event)
    requires
        !answers(tracker.spec_pending(), event),
    ensures
        tracker.after(event) == tracker,
{
}

/// The user leaves by an interruption or by a key that leaves, and in no other way. The notice that
/// a process goes on is due exactly on a screen, for a launched process that is not known to have
/// ended.
pub proof fn law_only_the_user_leaves(tracker: Tracker, event: Event)
    requires
        tracker.is_valid(),
        !tracker.stopped_by_user,
        answers(tracker.spec_pending(), event),
    ensures
        tracker.after(event).stopped_by_user <==> asks_to_leave(event),
        asks_to_leave(event) ==> {
            let left = tracker.after(event);
            &&& left.exit == tracker.exit
            &&& tracker.output_is_tty && tracker.launched && tracker.exit is None
                ==> left.spec_pending() == Action::NoteDetached
            &&& !(tracker.output_is_tty && tracker.launched && tracker.exit is None)
                ==> left.spec_pending() == Action::Quit
        },
{
}

/// The keys that leave: `Esc` and the letter q in either case, whether the control key is held down
/// or not, and the letter c in either case where it is. No other key leaves.
pub proof fn law_keys_that_leave(c: char, control: bool)
    ensures
        leaves(KeyPress { code: KeyCode::Esc, control }),
        !leaves(KeyPress { code: KeyCode::Other, control }),
        c as int == 113 || c as int == 81 ==> leaves(KeyPress { code: KeyCode::Char(c), control }),
        c as int == 99 || c as int == 67 ==> (leaves(KeyPress { code: KeyCode::Char(c), control })
            <==> control),
        leaves(KeyPress { code: KeyCode::Char(c), control }) ==> c as int == 113 || c as int == 81
            || c as int == 99 || c as int == 67,
{
}

/// A farewell says that the tracker was stopped if and only if the user has left. Of a launched
/// process it says last how it has ended, or where its log is if it goes on after the user has left.
/// Of a log that is only watched it says no more.
pub proof fn law_farewell_tells_how_it_ended(tracker: Tracker, log_file: Seq<char>)
    ensures
        ({
            let lines = tracker.farewell_text(log_file);
            let goes_on = tracker.stopped_by_user && tracker.exit is None;
            &&& tracker.stopped_by_user ==> lines.len() > 0 && lines[0] == "tracker stopped"@
            &&& !tracker.launched ==> lines.len() == if tracker.stopped_by_user {
                1int
            } else {
                0
            }
            &&& tracker.launched && goes_on ==> {
                &&& lines.len() == 3
                &&& lines[1] == "launched process continues in the background"@
                &&& lines[2] == "log file: "@ + log_file
            }
            &&& tracker.launched && !goes_on ==> {
                &&& lines.len() == if tracker.stopped_by_user {
                    2int
                } else {
                    1
                }
                &&& lines.last() == "process "@ + exit_text(tracker.exit)
            }
        }),
{
}

/// A session starts with a refresh, and goes on with the log.
pub proof fn law_session_starts_with_a_refresh(tracker: Tracker)
    requires
        tracker.stage == Stage::Opening,
    ensures
        tracker.spec_pending() == Action::Refresh,
        tracker.after(Event::Refreshed).spec_pending() == Action::ReadLog,
        !tracker.after(Event::Refreshed).saw_new_lines,
        tracker.after(Event::Refreshed).exit == tracker.exit,
        tracker.after(Event::Refreshed).stopped_by_user == tracker.stopped_by_user,
{
}

/// Rounds are 50 milliseconds apart at least.
pub proof fn law_rounds_are_apart(tracker: Tracker)
    requires
        tracker.is_valid(),
    ensures
        tracker.refresh_ms >= 50,
        MIN_REFRESH_MS == 50,
{
}

} // verus!
