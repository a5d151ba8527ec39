//! What the tracker reports in words.
use crate::log_line::{QueueSample, lemma_same_cut};
use crate::position::{LAST_EXACT_PLACE, Position};
use crate::session::SessionKind;
use crate::state::{AppState, greater};
use crate::text::{
    decimal, ends_with, holds, is_numeral, lemma_pieces_are_held, numeral_value, push_signed,
    signed_decimal, starts_with, texts,
};
use crate::timestamp::{
    Timestamp, duration_text, first_instant, format_duration, format_timestamp, last_instant, millis,
    timestamp_text, whole_seconds,
};
use vstd::prelude::*;

verus! {

/// How a process has ended.
#[derive(Clone, Copy, Debug, PartialEq, Eq, Structural)]
pub struct ExitStatus {
    /// Whether the process reports success.
    pub success: bool,
    /// The exit code, unless a signal has ended the process.
    pub code: Option<i32>,
}

/// Numbers of the queue that are worked out in floating point.
#[derive(Debug)]
pub struct QueueFigures {
    /// The last place, rounded. It is shown where the place lies beyond `LAST_EXACT_PLACE`.
    pub position: String,
    /// The place furthest back, rounded. It is shown where the place lies beyond
    /// `LAST_EXACT_PLACE`.
    pub furthest: String,
    /// How much of the way is done, in percent.
    pub progress: String,
}

/// When the queue will come to its end.
#[derive(Debug)]
pub struct ArrivalEstimate {
    pub eta: Timestamp,
    pub remaining_millis: i64,
    /// The places per minute, as they are shown.
    pub rate: String,
}

/// The estimate that the queue comes to its end some milliseconds after a sample, if the time of
/// it can be told.
pub fn arrival_after(sample: &QueueSample, remaining_millis: i64, rate: String) -> (estimate: Option<
    ArrivalEstimate,
>)
    ensures
        estimate is Some <==> first_instant() <= sample.timestamp.instant() + millis(
            remaining_millis as int,
        ) <= last_instant(),
        estimate matches Some(e) ==> {
            &&& e.eta.is_valid()
            &&& e.eta.instant() == sample.timestamp.instant() + millis(remaining_millis as int)
            &&& e.remaining_millis == remaining_millis
            &&& e.rate@ == rate@
        },
{
    let eta = sample.timestamp.plus_millis(remaining_millis)?;
    Some(ArrivalEstimate { eta, remaining_millis, rate })
}

/// How a process is doing.
pub open spec fn exit_text(exit: Option<ExitStatus>) -> Seq<char> {
    match exit {
        None => "running / unknown"@,
        Some(status) => if status.success {
            "exited successfully"@
        } else {
            match status.code {
                Some(code) => "exited with code "@ + signed_decimal(code as int),
                None => "terminated by signal"@,
            }
        },
    }
}

/// Tells how a process is doing.
pub fn format_exit_status(exit: Option<ExitStatus>) -> (text: String)
    ensures
        text@ == exit_text(exit),
{
    match exit {
        None => "running / unknown".to_owned(),
        Some(status) => if status.success {
            "exited successfully".to_owned()
        } else {
            match status.code {
                Some(code) => {
                    let mut text = "exited with code ".to_owned();
                    push_signed(&mut text, code);
                    text
                },
                None => "terminated by signal".to_owned(),
            }
        },
    }
}

/// A point in time in words.
pub open spec fn time_text(timestamp: Timestamp) -> Seq<char> {
    timestamp_text(timestamp.spec_date(), timestamp.spec_time())
}

/// The title of the status: the name of the program and what the keys do that leave it.
pub open spec fn title_text(session: SessionKind) -> Seq<char> {
    "vs-queue  "@ + session.hint_text()
}

/// The title of the status.
pub fn title(session: &SessionKind) -> (text: String)
    ensures
        text@ == title_text(*session),
{
    "vs-queue  ".to_owned().concat(session.tracker_hint())
}

/// A place as it is shown: its numeral, or as it is rounded where it is too great to be exact.
pub open spec fn place_text(place: nat, rounded: Seq<char>) -> Seq<char> {
    if place <= LAST_EXACT_PLACE {
        decimal(place)
    } else {
        rounded
    }
}

/// Tells a place, of which the rounded form is given.
fn format_place(place: &Position, rounded: &str) -> (text: String)
    ensures
        text@ == place_text(place@, rounded@),
{
    match place.shown() {
        Some(text) => text,
        None => rounded.to_owned(),
    }
}

/// The line of the status on the queue.
pub open spec fn queue_status_text(
    samples: Seq<QueueSample>,
    furthest: nat,
    figures: QueueFigures,
    exit: Option<ExitStatus>,
) -> Seq<char> {
    if samples.len() > 0 {
        "queue: "@ + place_text(samples.last().position@, figures.position@) + "/"@ + place_text(
            greater(furthest, samples.last().position@),
            figures.furthest@,
        ) + "    progress: "@ + figures.progress@ + "%    process: "@ + exit_text(exit)
    } else {
        "queue: waiting for matching log lines    process: "@ + exit_text(exit)
    }
}

/// The line of the status on the last sample.
pub open spec fn sample_status_text(samples: Seq<QueueSample>) -> Seq<char> {
    if samples.len() > 0 {
        "last sample: "@ + time_text(samples.last().timestamp)
    } else {
        "last sample: n/a"@
    }
}

/// The line of the status on the end of the queue.
pub open spec fn eta_status_text(
    samples: Seq<QueueSample>,
    estimate: Option<&ArrivalEstimate>,
) -> Seq<char> {
    match estimate {
        Some(e) => "eta: "@ + time_text(e.eta) + "    remaining: "@ + duration_text(
            whole_seconds(e.remaining_millis as int),
        ) + "    speed: "@ + e.rate@ + " positions/min"@,
        None => if samples.len() > 0 && samples.last().position@ == 0 {
            "eta: reached queue end at "@ + time_text(samples.last().timestamp)
                + "    remaining: 0s    speed: n/a"@
        } else {
            "eta: collecting more data / queue not moving yet"@
        },
    }
}

/// The lines of the status.
pub open spec fn status_text(
    state: AppState,
    figures: QueueFigures,
    estimate: Option<&ArrivalEstimate>,
    exit: Option<ExitStatus>,
) -> Seq<Seq<char>> {
    seq![
        title_text(state.spec_session()),
        "source: "@ + state.spec_session().description_text(),
        "log file: "@ + state.spec_log_file(),
        queue_status_text(state.spec_samples(), state.spec_max_seen_position(), figures, exit),
        sample_status_text(state.spec_samples()),
        eta_status_text(state.spec_samples(), estimate),
        "plot: braille canvas    x-axis: time    y-axis: queue position"@,
    ]
}

fn queue_status_line(
    samples: &Vec<QueueSample>,
    furthest: &Position,
    figures: &QueueFigures,
    exit: Option<ExitStatus>,
) -> (line: String)
    ensures
        line@ == queue_status_text(samples@, furthest@, *figures, exit),
{
    let process = format_exit_status(exit);
    if samples.len() > 0 {
        let last = &samples[samples.len() - 1].position;
        let most = if last.is_above(furthest) {
            last
        } else {
            furthest
        };
        let mut line = "queue: ".to_owned();
        line.append(&format_place(last, &figures.position));
        line.append("/");
        line.append(&format_place(most, &figures.furthest));
        line.append("    progress: ");
        line.append(&figures.progress);
        line.append("%    process: ");
        line.append(&process);
        line
    } else {
        "queue: waiting for matching log lines    process: ".to_owned().concat(&process)
    }
}

fn sample_status_line(samples: &Vec<QueueSample>) -> (line: String)
    ensures
        line@ == sample_status_text(samples@),
{
    if samples.len() > 0 {
        let time = format_timestamp(&samples[samples.len() - 1].timestamp);
        "last sample: ".to_owned().concat(&time)
    } else {
        "last sample: n/a".to_owned()
    }
}

fn eta_status_line(samples: &Vec<QueueSample>, estimate: Option<&ArrivalEstimate>) -> (line: String)
    ensures
        line@ == eta_status_text(samples@, estimate),
{
    match estimate {
        Some(e) => {
            let mut line = "eta: ".to_owned();
            line.append(&format_timestamp(&e.eta));
            line.append("    remaining: ");
            line.append(&format_duration(e.remaining_millis));
            line.append("    speed: ");
            line.append(&e.rate);
            line.append(" positions/min");
            line
        },
        None => if samples.len() > 0 && samples[samples.len() - 1].position.is_zero() {
            let mut line = "eta: reached queue end at ".to_owned();
            line.append(&format_timestamp(&samples[samples.len() - 1].timestamp));
            line.append("    remaining: 0s    speed: n/a");
            line
        } else {
            "eta: collecting more data / queue not moving yet".to_owned()
        },
    }
}

/// Tells the status, line by line, with the title first.
pub fn build_status_lines(
    state: &AppState,
    figures: &QueueFigures,
    estimate: Option<&ArrivalEstimate>,
    exit: Option<ExitStatus>,
) -> (lines: Vec<String>)
    ensures
        texts(lines@) == status_text(*state, *figures, estimate, exit),
{
    let mut lines: Vec<String> = Vec::new();
    lines.push(title(state.session()));
    let source = state.session().description();
    lines.push("source: ".to_owned().concat(&source));
    lines.push("log file: ".to_owned().concat(state.log_file()));
    lines.push(
        queue_status_line(state.samples(), state.max_seen_position(), figures, exit),
    );
    lines.push(sample_status_line(state.samples()));
    lines.push(eta_status_line(state.samples(), estimate));
    lines.push("plot: braille canvas    x-axis: time    y-axis: queue position".to_owned());
    assert(texts(lines@) =~= status_text(*state, *figures, estimate, exit));
    lines
}

/// The status in one line.
pub open spec fn compact_text(
    sample: QueueSample,
    figures: QueueFigures,
    estimate: Option<&ArrivalEstimate>,
) -> Seq<char> {
    if sample.position@ == 0 {
        "queue=0 progress=100.0% reached="@ + time_text(sample.timestamp) + " remaining=0s"@
    } else {
        let queue = "queue="@ + place_text(sample.position@, figures.position@) + " progress="@
            + figures.progress@;
        match estimate {
            Some(e) => queue + "% eta="@ + time_text(e.eta) + " remaining="@ + duration_text(
                whole_seconds(e.remaining_millis as int),
            ) + " rate="@ + e.rate@ + "/min"@,
            None => queue + "% eta=pending"@,
        }
    }
}

/// Tells the status after a sample in one line.
pub fn compact_estimate(
    sample: &QueueSample,
    figures: &QueueFigures,
    estimate: Option<&ArrivalEstimate>,
) -> (line: String)
    ensures
        line@ == compact_text(*sample, *figures, estimate),
{
    if sample.position.is_zero() {
        let mut line = "queue=0 progress=100.0% reached=".to_owned();
        line.append(&format_timestamp(&sample.timestamp));
        line.append(" remaining=0s");
        return line;
    }
    let mut line = "queue=".to_owned();
    line.append(&format_place(&sample.position, &figures.position));
    line.append(" progress=");
    line.append(&figures.progress);
    match estimate {
        Some(e) => {
            line.append("% eta=");
            line.append(&format_timestamp(&e.eta));
            line.append(" remaining=");
            line.append(&format_duration(e.remaining_millis));
            line.append(" rate=");
            line.append(&e.rate);
            line.append("/min");
        },
        None => {
            line.append("% eta=pending");
        },
    }
    line
}

/// What is printed for a line of the log: nothing beside a screen, and otherwise the line, and the
/// status in one line if and only if the line reported a place.
pub open spec fn echo_text(
    output_is_tty: bool,
    line: Seq<char>,
    sample: Option<&QueueSample>,
    figures: QueueFigures,
    estimate: Option<&ArrivalEstimate>,
) -> Seq<Seq<char>> {
    if output_is_tty {
        Seq::empty()
    } else {
        match sample {
            Some(s) => seq![line, compact_text(*s, figures, estimate)],
            None => seq![line],
        }
    }
}

/// Tells what is printed for a line of the log that reported `sample`.
pub fn echo(
    output_is_tty: bool,
    line: &str,
    sample: Option<&QueueSample>,
    figures: &QueueFigures,
    estimate: Option<&ArrivalEstimate>,
) -> (lines: Vec<String>)
    ensures
        texts(lines@) == echo_text(output_is_tty, line@, sample, *figures, estimate),
{
    let mut lines: Vec<String> = Vec::new();
    if !output_is_tty {
        lines.push(line.to_owned());
        if let Some(s) = sample {
            lines.push(compact_estimate(s, figures, estimate));
        }
    }
    assert(texts(lines@) =~= echo_text(output_is_tty, line@, sample, *figures, estimate));
    lines
}

/// How a process has ended can be told from the words for it, but for the code of one that reports
/// success.
pub proof fn law_exits_are_told_apart(a: Option<ExitStatus>, b: Option<ExitStatus>)
    requires
        exit_text(a) == exit_text(b),
    ensures
        a is Some <==> b is Some,
        a matches Some(s) ==> {
            &&& s.success == b->0.success
            &&& !s.success ==> s.code == b->0.code
        },
{
    reveal_strlit("running / unknown");
    reveal_strlit("exited successfully");
    reveal_strlit("exited with code ");
    reveal_strlit("terminated by signal");
    lemma_exit_starts(a);
    lemma_exit_starts(b);
    if a is Some && b is Some && !a->0.success && !b->0.success && a->0.code is Some
        && b->0.code is Some {
        let m = a->0.code->0 as int;
        let n = b->0.code->0 as int;
        lemma_same_cut(
            "exited with code "@,
            signed_decimal(m),
            "exited with code "@,
            signed_decimal(n),
        );
        crate::text::law_signed_numerals_are_told_apart(m, n);
    }
}

/// The first letters of the words for an exit.
proof fn lemma_exit_starts(exit: Option<ExitStatus>)
    ensures
        exit is None ==> exit_text(exit)[0] == 'r',
        exit matches Some(s) ==> {
            &&& s.success ==> exit_text(exit)[0] == 'e' && exit_text(exit)[7] == 's'
            &&& !s.success && s.code is Some ==> exit_text(exit)[0] == 'e' && exit_text(exit)[7]
                == 'w'
            &&& !s.success && s.code is None ==> exit_text(exit)[0] == 't'
        },
{
    reveal_strlit("running / unknown");
    reveal_strlit("exited successfully");
    reveal_strlit("exited with code ");
    reveal_strlit("terminated by signal");
}

/// A code that is not that of a success is given at the end, and a success is told without a code.
pub proof fn law_exit_codes_are_told(success: bool, code: Option<i32>)
    ensures
        ({
            let text = exit_text(Some(ExitStatus { success, code }));
            &&& success ==> text == exit_text(Some(ExitStatus { success, code: None }))
            &&& !success && code is Some ==> {
                &&& starts_with(text, "exited with code "@)
                &&& ends_with(text, signed_decimal(code->0 as int))
                &&& text.len() == "exited with code "@.len() + signed_decimal(code->0 as int).len()
            }
        }),
{
    if !success && code is Some {
        let number = signed_decimal(code->0 as int);
        lemma_pieces_are_held("exited with code "@, Seq::empty(), number);
        assert("exited with code "@ + Seq::<char>::empty() + number =~= "exited with code "@
            + number);
    }
}

/// Places up to 2 to the power of 53 are told exactly, and the rounded form is not looked at; beyond
/// it is what is told.
pub proof fn law_places_are_told_exactly(place: nat, rounded: Seq<char>)
    ensures
        place <= 9_007_199_254_740_992 ==> {
            &&& is_numeral(place_text(place, rounded))
            &&& numeral_value(place_text(place, rounded)) == place
            &&& place > 0 ==> place_text(place, rounded)[0] != '0'
        },
        place > 9_007_199_254_740_992 ==> place_text(place, rounded) == rounded,
{
    crate::text::law_decimal_reads_back(place);
    crate::text::law_decimal_has_no_zero_in_front(place);
}

/// The status has seven lines. The exit of the process and the figures show in the line on the queue
/// alone, and the estimate in the line on the end of the queue alone.
pub proof fn law_each_line_has_its_subject(
    state: AppState,
    figures: QueueFigures,
    other_figures: QueueFigures,
    estimate: Option<&ArrivalEstimate>,
    other_estimate: Option<&ArrivalEstimate>,
    exit: Option<ExitStatus>,
    other_exit: Option<ExitStatus>,
    line: int,
)
    requires
        0 <= line < 7,
    ensures
        status_text(state, figures, estimate, exit).len() == 7,
        line != 3 ==> status_text(state, figures, estimate, exit)[line] == status_text(
            state,
            other_figures,
            estimate,
            other_exit,
        )[line],
        line != 5 ==> status_text(state, figures, estimate, exit)[line] == status_text(
            state,
            figures,
            other_estimate,
            exit,
        )[line],
{
}

/// The lines of the status that do not change in a session: the title, which ends with what the keys
/// do, the source, the log file and the legend of the plot.
pub proof fn law_status_names_the_session(
    state: AppState,
    figures: QueueFigures,
    estimate: Option<&ArrivalEstimate>,
    exit: Option<ExitStatus>,
)
    ensures
        ({
            let lines = status_text(state, figures, estimate, exit);
            &&& starts_with(lines[0], "vs-queue  "@)
            &&& state.spec_session() is Launch ==> lines[0] == "vs-queue  "@
                + "q / Esc / Ctrl+C stops only vs-queue; the launched process keeps running"@
            &&& state.spec_session() is Watch ==> lines[0] == "vs-queue  "@
                + "q / Esc / Ctrl+C stops the tracker"@
            &&& lines[1] == "source: "@ + state.spec_session().description_text()
            &&& lines[2] == "log file: "@ + state.spec_log_file()
            &&& lines[6] == "plot: braille canvas    x-axis: time    y-axis: queue position"@
        }),
{
    let title = status_text(state, figures, estimate, exit)[0];
    assert(title.take("vs-queue  "@.len() as int) =~= "vs-queue  "@);
}

/// With a sample, the line on the queue starts with the last place and the place furthest back,
/// holds the progress, and ends with how the process is doing. Without one it tells that alone.
pub proof fn law_status_tells_the_queue(
    state: AppState,
    figures: QueueFigures,
    estimate: Option<&ArrivalEstimate>,
    exit: Option<ExitStatus>,
)
    requires
        state.is_valid(),
    ensures
        ({
            let line = status_text(state, figures, estimate, exit)[3];
            let samples = state.spec_samples();
            &&& ends_with(line, "process: "@ + exit_text(exit))
            &&& samples.len() == 0 ==> line
                == "queue: waiting for matching log lines    process: "@ + exit_text(exit)
            &&& samples.len() > 0 ==> {
                let last = samples.last().position@;
                let most = state.spec_max_seen_position();
                &&& last <= 9_007_199_254_740_992 && most <= 9_007_199_254_740_992 ==> starts_with(
                    line,
                    "queue: "@ + decimal(last) + "/"@ + decimal(most) + "    progress: "@
                        + figures.progress@ + "%"@,
                )
                &&& last > 9_007_199_254_740_992 ==> starts_with(
                    line,
                    "queue: "@ + figures.position@ + "/"@ + figures.furthest@ + "    progress: "@
                        + figures.progress@ + "%"@,
                )
                &&& last <= 9_007_199_254_740_992 < most ==> starts_with(
                    line,
                    "queue: "@ + decimal(last) + "/"@ + figures.furthest@ + "    progress: "@
                        + figures.progress@ + "%"@,
                )
            }
        }),
{
    let line = status_text(state, figures, estimate, exit)[3];
    let samples = state.spec_samples();
    let process = "process: "@ + exit_text(exit);
    reveal_strlit("process: ");
    reveal_strlit("%    process: ");
    reveal_strlit("%");
    reveal_strlit("    ");
    reveal_strlit("queue: waiting for matching log lines    process: ");
    reveal_strlit("queue: waiting for matching log lines    ");
    if samples.len() == 0 {
        assert("queue: waiting for matching log lines    process: "@
            =~= "queue: waiting for matching log lines    "@ + "process: "@);
        lemma_pieces_are_held(
            "queue: waiting for matching log lines    "@,
            Seq::empty(),
            process,
        );
        assert(line =~= "queue: waiting for matching log lines    "@ + Seq::empty() + process);
    } else {
        crate::state::law_furthest_bounds_every_sample(samples);
        assert(samples[samples.len() - 1] == samples.last());
        let last = samples.last().position@;
        let most = state.spec_max_seen_position();
        assert(greater(most, last) == most);
        let front = "queue: "@ + place_text(last, figures.position@) + "/"@ + place_text(
            most,
            figures.furthest@,
        ) + "    progress: "@ + figures.progress@ + "%"@;
        assert("%    process: "@ =~= "%"@ + ("    "@ + "process: "@));
        lemma_pieces_are_held(front, "    "@, process);
        assert(line =~= front + "    "@ + process);
    }
}

/// The line on the last sample ends with its time, so that samples at different times give different
/// lines, and no sample gives another one still.
pub proof fn law_status_tells_the_last_sample(
    state: AppState,
    other: AppState,
    figures: QueueFigures,
    estimate: Option<&ArrivalEstimate>,
    exit: Option<ExitStatus>,
)
    ensures
        ({
            let line = status_text(state, figures, estimate, exit)[4];
            let second = status_text(other, figures, estimate, exit)[4];
            let samples = state.spec_samples();
            let others = other.spec_samples();
            &&& samples.len() == 0 ==> line == "last sample: n/a"@
            &&& samples.len() > 0 ==> starts_with(line, "last sample: "@) && ends_with(
                line,
                time_text(samples.last().timestamp),
            )
            &&& samples.len() > 0 && others.len() > 0 && line == second ==> time_text(
                samples.last().timestamp,
            ) == time_text(others.last().timestamp)
        }),
{
    let samples = state.spec_samples();
    let others = other.spec_samples();
    if samples.len() > 0 {
        let time = time_text(samples.last().timestamp);
        lemma_pieces_are_held("last sample: "@, Seq::empty(), time);
        assert("last sample: "@ + Seq::<char>::empty() + time =~= "last sample: "@ + time);
        if others.len() > 0 {
            let second = time_text(others.last().timestamp);
            if "last sample: "@ + time == "last sample: "@ + second {
                lemma_same_cut("last sample: "@, time, "last sample: "@, second);
            }
        }
    }
}

/// What follows the time of the end in an estimate.
spec fn estimate_rest(e: ArrivalEstimate, then: Seq<char>, next: Seq<char>, end: Seq<char>) -> Seq<
    char,
> {
    then + (duration_text(whole_seconds(e.remaining_millis as int)) + (next + (e.rate@ + end)))
}

/// A text with the time of the end, the remaining time and the rate of an estimate, in this order,
/// holds each of them.
proof fn lemma_estimate_is_held(
    front: Seq<char>,
    e: ArrivalEstimate,
    then: Seq<char>,
    next: Seq<char>,
    end: Seq<char>,
)
    ensures
        ({
            let line = front + time_text(e.eta) + estimate_rest(e, then, next, end);
            &&& starts_with(line, front + time_text(e.eta))
            &&& holds(line, time_text(e.eta))
            &&& holds(line, duration_text(whole_seconds(e.remaining_millis as int)))
            &&& holds(line, e.rate@)
            &&& holds(
                line,
                then + duration_text(whole_seconds(e.remaining_millis as int)) + next,
            )
            &&& ends_with(line, next + e.rate@ + end)
        }),
{
    lemma_seven_pieces_are_held(
        front,
        time_text(e.eta),
        then,
        duration_text(whole_seconds(e.remaining_millis as int)),
        next,
        e.rate@,
        end,
    );
}

proof fn lemma_seven_pieces_are_held(
    front: Seq<char>,
    time: Seq<char>,
    then: Seq<char>,
    left: Seq<char>,
    next: Seq<char>,
    rate: Seq<char>,
    end: Seq<char>,
)
    ensures
        ({
            let line = front + time + (then + (left + (next + (rate + end))));
            &&& starts_with(line, front + time)
            &&& holds(line, time)
            &&& holds(line, left)
            &&& holds(line, rate)
            &&& holds(line, then + left + next)
            &&& ends_with(line, next + rate + end)
        }),
{
    let rest = then + (left + (next + (rate + end)));
    let line = front + time + rest;
    lemma_pieces_are_held(front, time, rest);
    assert(starts_with(line, front + time)) by {
        lemma_pieces_are_held(front + time, Seq::empty(), rest);
        assert(front + time + Seq::empty() + rest =~= line);
    }
    assert(holds(line, left)) by {
        lemma_pieces_are_held(front + time + then, left, next + (rate + end));
        assert(front + time + then + left + (next + (rate + end)) =~= line);
    }
    assert(holds(line, rate)) by {
        lemma_pieces_are_held(front + time + then + left + next, rate, end);
        assert(front + time + then + left + next + rate + end =~= line);
    }
    assert(holds(line, then + left + next)) by {
        lemma_pieces_are_held(front + time, then + left + next, rate + end);
        assert(front + time + (then + left + next) + (rate + end) =~= line);
    }
    assert(ends_with(line, next + rate + end)) by {
        lemma_pieces_are_held(front + time, then + left, next + rate + end);
        assert(front + time + (then + left) + (next + rate + end) =~= line);
    }
}

/// Such a text tells estimates apart.
proof fn lemma_estimates_are_told_apart(
    front: Seq<char>,
    a: ArrivalEstimate,
    b: ArrivalEstimate,
    then: Seq<char>,
    next: Seq<char>,
    end: Seq<char>,
)
    requires
        a.eta.is_valid(),
        b.eta.is_valid(),
        front + time_text(a.eta) + estimate_rest(a, then, next, end) == front + time_text(b.eta)
            + estimate_rest(b, then, next, end),
    ensures
        a.eta.day_number() == b.eta.day_number(),
        a.eta.second_number() == b.eta.second_number(),
        whole_seconds(a.remaining_millis as int) == whole_seconds(b.remaining_millis as int),
        a.rate@ == b.rate@,
{
    let ra = estimate_rest(a, then, next, end);
    let rb = estimate_rest(b, then, next, end);
    crate::timestamp::law_points_in_time_have_dates(a.eta);
    crate::timestamp::law_points_in_time_have_dates(b.eta);
    assert(front + time_text(a.eta) + ra =~= front + (time_text(a.eta) + ra));
    assert(front + time_text(b.eta) + rb =~= front + (time_text(b.eta) + rb));
    lemma_same_cut(front, time_text(a.eta) + ra, front, time_text(b.eta) + rb);
    crate::timestamp::law_times_in_front_are_told_apart(
        a.eta.spec_date(),
        a.eta.spec_time(),
        ra,
        b.eta.spec_date(),
        b.eta.spec_time(),
        rb,
    );
    let sa = next + (a.rate@ + end);
    let sb = next + (b.rate@ + end);
    let la = whole_seconds(a.remaining_millis as int);
    let lb = whole_seconds(b.remaining_millis as int);
    lemma_same_cut(then, duration_text(la) + sa, then, duration_text(lb) + sb);
    crate::timestamp::law_durations_in_front_are_told_apart(la, sa, lb, sb);
    lemma_same_cut(next, a.rate@ + end, next, b.rate@ + end);
    lemma_same_cut(a.rate@, end, b.rate@, end);
}

/// The line of the status on an estimate is put together in three parts.
proof fn lemma_status_line_of(samples: Seq<QueueSample>, e: ArrivalEstimate)
    ensures
        eta_status_text(samples, Some(&e)) == "eta: "@ + time_text(e.eta) + estimate_rest(
            e,
            "    remaining: "@,
            "    speed: "@,
            " positions/min"@,
        ),
{
    assert(eta_status_text(samples, Some(&e)) =~= "eta: "@ + time_text(e.eta) + estimate_rest(
        e,
        "    remaining: "@,
        "    speed: "@,
        " positions/min"@,
    ));
}

/// Wherever there is an estimate, the status tells it, whatever is known of the process: a line that
/// starts with the time of the end holds the remaining time and the rate.
pub proof fn law_status_tells_the_estimate(
    state: AppState,
    figures: QueueFigures,
    e: ArrivalEstimate,
    exit: Option<ExitStatus>,
)
    ensures
        ({
            let line = status_text(state, figures, Some(&e), exit)[5];
            &&& starts_with(line, "eta: "@ + time_text(e.eta))
            &&& holds(line, time_text(e.eta))
            &&& holds(line, duration_text(whole_seconds(e.remaining_millis as int)))
            &&& holds(line, e.rate@)
            &&& holds(line, "    remaining: "@ + duration_text(
                whole_seconds(e.remaining_millis as int),
            ) + "    speed: "@)
            &&& ends_with(line, "    speed: "@ + e.rate@ + " positions/min"@)
        }),
{
    lemma_status_line_of(state.spec_samples(), e);
    lemma_estimate_is_held("eta: "@, e, "    remaining: "@, "    speed: "@, " positions/min"@);
}

/// Two estimates that differ in the second of the end, in the seconds that remain or in the rate are
/// told apart by the status, in every session.
pub proof fn law_status_tells_estimates_apart(
    state: AppState,
    figures: QueueFigures,
    a: ArrivalEstimate,
    b: ArrivalEstimate,
    exit: Option<ExitStatus>,
    other_exit: Option<ExitStatus>,
)
    requires
        a.eta.is_valid(),
        b.eta.is_valid(),
        status_text(state, figures, Some(&a), exit)[5] == status_text(
            state,
            figures,
            Some(&b),
            other_exit,
        )[5],
    ensures
        a.eta.day_number() == b.eta.day_number(),
        a.eta.second_number() == b.eta.second_number(),
        whole_seconds(a.remaining_millis as int) == whole_seconds(b.remaining_millis as int),
        a.rate@ == b.rate@,
{
    lemma_status_line_of(state.spec_samples(), a);
    lemma_status_line_of(state.spec_samples(), b);
    lemma_estimates_are_told_apart(
        "eta: "@,
        a,
        b,
        "    remaining: "@,
        "    speed: "@,
        " positions/min"@,
    );
}

/// Without an estimate the status tells when the end of the queue was reached, if the last place is
/// the end, and otherwise that there is no estimate yet.
pub proof fn law_status_without_an_estimate(
    state: AppState,
    figures: QueueFigures,
    exit: Option<ExitStatus>,
)
    ensures
        ({
            let line = status_text(state, figures, None, exit)[5];
            let samples = state.spec_samples();
            let reached = samples.len() > 0 && samples.last().position@ == 0;
            &&& reached ==> {
                &&& starts_with(
                    line,
                    "eta: reached queue end at "@ + time_text(samples.last().timestamp),
                )
                &&& ends_with(line, "    remaining: 0s    speed: n/a"@)
            }
            &&& !reached ==> line == "eta: collecting more data / queue not moving yet"@
        }),
{
    let samples = state.spec_samples();
    if samples.len() > 0 && samples.last().position@ == 0 {
        let front = "eta: reached queue end at "@ + time_text(samples.last().timestamp);
        lemma_pieces_are_held(front, Seq::empty(), "    remaining: 0s    speed: n/a"@);
        assert(front + Seq::<char>::empty() + "    remaining: 0s    speed: n/a"@ =~= front
            + "    remaining: 0s    speed: n/a"@);
    }
}

/// What a compact line starts with, short of the end of the queue.
spec fn compact_front(sample: QueueSample, figures: QueueFigures) -> Seq<char> {
    "queue="@ + place_text(sample.position@, figures.position@) + " progress="@ + figures.progress@
        + "% eta="@
}

proof fn lemma_compact_line_of(sample: QueueSample, figures: QueueFigures, e: ArrivalEstimate)
    requires
        sample.position@ > 0,
    ensures
        compact_text(sample, figures, Some(&e)) == compact_front(sample, figures) + time_text(e.eta)
            + estimate_rest(e, " remaining="@, " rate="@, "/min"@),
{
    assert(compact_text(sample, figures, Some(&e)) =~= compact_front(sample, figures) + time_text(
        e.eta,
    ) + estimate_rest(e, " remaining="@, " rate="@, "/min"@));
}

/// Without a screen, a line of the log is printed as it is, and followed by one more line if and only
/// if it reported a place. Beside a screen nothing is printed.
pub proof fn law_lines_are_echoed(
    output_is_tty: bool,
    line: Seq<char>,
    sample: Option<&QueueSample>,
    figures: QueueFigures,
    estimate: Option<&ArrivalEstimate>,
)
    ensures
        ({
            let lines = echo_text(output_is_tty, line, sample, figures, estimate);
            &&& output_is_tty ==> lines.len() == 0
            &&& !output_is_tty ==> lines.len() > 0 && lines[0] == line
            &&& !output_is_tty && sample is None ==> lines.len() == 1
            &&& !output_is_tty && sample is Some ==> lines.len() == 2
        }),
{
}

/// Without a screen, a sample short of the end of the queue is followed by its place and the
/// progress, and wherever there is an estimate, by the time of the end, the remaining time and the
/// rate. Without an estimate the line says that it is pending.
pub proof fn law_echo_tells_the_estimate(
    line: Seq<char>,
    sample: QueueSample,
    figures: QueueFigures,
    e: ArrivalEstimate,
)
    requires
        sample.position@ > 0,
    ensures
        ({
            let told = echo_text(false, line, Some(&sample), figures, Some(&e))[1];
            let left = duration_text(whole_seconds(e.remaining_millis as int));
            let pending = echo_text(false, line, Some(&sample), figures, None)[1];
            let place = place_text(sample.position@, figures.position@);
            let front = "queue="@ + place + " progress="@ + figures.progress@ + "% eta="@;
            &&& starts_with(told, front + time_text(e.eta))
            &&& holds(told, time_text(e.eta))
            &&& holds(told, left)
            &&& holds(told, e.rate@)
            &&& holds(told, " remaining="@ + left + " rate="@)
            &&& ends_with(told, " rate="@ + e.rate@ + "/min"@)
            &&& pending == front + "pending"@
        }),
{
    lemma_compact_line_of(sample, figures, e);
    lemma_estimate_is_held(
        compact_front(sample, figures),
        e,
        " remaining="@,
        " rate="@,
        "/min"@,
    );
    lemma_pending_line_of(sample, figures);
}

proof fn lemma_pending_line_of(sample: QueueSample, figures: QueueFigures)
    requires
        sample.position@ > 0,
    ensures
        compact_text(sample, figures, None) == compact_front(sample, figures) + "pending"@,
{
    assert("% eta=pending"@ =~= "% eta="@ + "pending"@) by {
        reveal_strlit("% eta=");
        reveal_strlit("pending");
        reveal_strlit("% eta=pending");
    }
    let front = "queue="@ + place_text(sample.position@, figures.position@) + " progress="@
        + figures.progress@;
    assert(front + ("% eta="@ + "pending"@) =~= front + "% eta="@ + "pending"@);
}

/// Two estimates that differ in the second of the end, in the seconds that remain or in the rate are
/// told apart by the line that is printed after a sample.
pub proof fn law_echo_tells_estimates_apart(
    line: Seq<char>,
    sample: QueueSample,
    figures: QueueFigures,
    a: ArrivalEstimate,
    b: ArrivalEstimate,
)
    requires
        sample.position@ > 0,
        a.eta.is_valid(),
        b.eta.is_valid(),
        echo_text(false, line, Some(&sample), figures, Some(&a))[1] == echo_text(
            false,
            line,
            Some(&sample),
            figures,
            Some(&b),
        )[1],
    ensures
        a.eta.day_number() == b.eta.day_number(),
        a.eta.second_number() == b.eta.second_number(),
        whole_seconds(a.remaining_millis as int) == whole_seconds(b.remaining_millis as int),
        a.rate@ == b.rate@,
{
    lemma_compact_line_of(sample, figures, a);
    lemma_compact_line_of(sample, figures, b);
    lemma_estimates_are_told_apart(
        compact_front(sample, figures),
        a,
        b,
        " remaining="@,
        " rate="@,
        "/min"@,
    );
}

/// A sample at the end of the queue is told with the time at which it was reached, whatever the
/// figures and the estimate are.
pub proof fn law_echo_tells_the_end_of_the_queue(
    line: Seq<char>,
    sample: QueueSample,
    figures: QueueFigures,
    other: QueueFigures,
    estimate: Option<&ArrivalEstimate>,
)
    requires
        sample.position@ == 0,
    ensures
        ({
            let told = echo_text(false, line, Some(&sample), figures, estimate)[1];
            &&& told == echo_text(false, line, Some(&sample), other, None)[1]
            &&& starts_with(
                told,
                "queue=0 progress=100.0% reached="@ + time_text(sample.timestamp),
            )
            &&& ends_with(told, " remaining=0s"@)
        }),
{
    let front = "queue=0 progress=100.0% reached="@ + time_text(sample.timestamp);
    lemma_pieces_are_held(front, Seq::empty(), " remaining=0s"@);
    assert(front + Seq::<char>::empty() + " remaining=0s"@ =~= front + " remaining=0s"@);
}

/// The line that is printed after a sample is the status in one line.
pub proof fn law_echo_and_compact_status_agree(
    line: Seq<char>,
    sample: QueueSample,
    figures: QueueFigures,
    estimate: Option<&ArrivalEstimate>,
)
    ensures
        echo_text(false, line, Some(&sample), figures, estimate) == seq![
            line,
            compact_text(sample, figures, estimate),
        ],
{
}

/// Written times tell points in time apart, to the second.
pub proof fn law_written_times_are_told_apart(a: Timestamp, b: Timestamp)
    requires
        a.is_valid(),
        b.is_valid(),
        time_text(a) == time_text(b),
    ensures
        a.day_number() == b.day_number(),
        a.second_number() == b.second_number(),
{
    crate::timestamp::law_points_in_time_have_dates(a);
    crate::timestamp::law_points_in_time_have_dates(b);
    crate::timestamp::law_times_in_front_are_told_apart(
        a.spec_date(),
        a.spec_time(),
        Seq::empty(),
        b.spec_date(),
        b.spec_time(),
        Seq::empty(),
    );
}

} // verus!
