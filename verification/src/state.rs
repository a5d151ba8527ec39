//! What the tracker knows: the last lines of the log and the samples read so far.
use crate::log_line::{QueueSample, Report, line_report, parse_queue_sample};
use crate::position::Position;
use crate::session::SessionKind;
use crate::text::texts;
use crate::timestamp::{
    Timestamp, days, last_instant, law_every_instant_can_be_told, millis, seconds,
};
use std::collections::VecDeque;
use vstd::prelude::*;

verus! {

/// The samples of a session, and what is shown beside them.
#[derive(Debug)]
pub struct AppState {
    session: SessionKind,
    log_file: String,
    output_is_tty: bool,
    max_recent_logs: usize,
    recent_logs: VecDeque<String>,
    samples: Vec<QueueSample>,
    max_seen_position: Position,
}

/// The last `max` items.
pub open spec fn last_items<T>(items: Seq<T>, max: nat) -> Seq<T> {
    if items.len() <= max {
        items
    } else {
        items.skip(items.len() - max)
    }
}

/// Each sample is later than the one before it.
pub open spec fn ascending(samples: Seq<QueueSample>) -> bool {
    forall|i: int, j: int|
        0 <= i < j < samples.len() ==> (#[trigger] samples[i]).timestamp.instant()
            < (#[trigger] samples[j]).timestamp.instant()
}

/// The place furthest back in the queue that a sample gives, or 0.
pub open spec fn furthest(samples: Seq<QueueSample>) -> nat
    decreases samples.len(),
{
    if samples.len() == 0 {
        0
    } else {
        greater(furthest(samples.drop_last()), samples.last().position@)
    }
}

/// The greater of two numbers.
pub open spec fn greater(a: nat, b: nat) -> nat {
    if a < b {
        b
    } else {
        a
    }
}

/// The start of the second that a line reports.
pub open spec fn reported_instant(report: Report) -> int {
    days(report.date.number()) + seconds(report.time.number())
}

/// Whether two points in time are less than three seconds apart.
pub open spec fn close_in_time(a: int, b: int) -> bool {
    -seconds(3) < a - b < seconds(3)
}

/// When a sample is taken to have come: at the time that its line gives, if that is later than
/// the sample before it. Otherwise at the time when the line was received, if the line is about
/// that fresh, and in any case a millisecond after the sample before it.
pub open spec fn sample_instant(samples: Seq<QueueSample>, reported: int, received: int) -> int {
    if samples.len() == 0 {
        reported
    } else {
        let previous = samples.last().timestamp.instant();
        if reported > previous {
            reported
        } else if close_in_time(received, reported) && received > previous + millis(1) {
            received
        } else {
            previous + millis(1)
        }
    }
}

impl AppState {
    pub closed spec fn spec_session(self) -> SessionKind {
        self.session
    }

    pub closed spec fn spec_log_file(self) -> Seq<char> {
        self.log_file@
    }

    pub closed spec fn spec_output_is_tty(self) -> bool {
        self.output_is_tty
    }

    /// How many lines of the log are kept.
    pub closed spec fn spec_max_recent_logs(self) -> usize {
        self.max_recent_logs
    }

    /// The last lines of the log.
    pub closed spec fn spec_recent_logs(self) -> Seq<Seq<char>> {
        texts(self.recent_logs@)
    }

    /// The samples in the order in which they came.
    pub closed spec fn spec_samples(self) -> Seq<QueueSample> {
        self.samples@
    }

    /// The place furthest back in the queue so far.
    pub closed spec fn spec_max_seen_position(self) -> nat {
        self.max_seen_position@
    }

    /// No more lines are kept than asked for, the samples ascend in time, and the place furthest
    /// back is that of one of them.
    pub open spec fn is_valid(self) -> bool {
        &&& self.spec_recent_logs().len() <= self.spec_max_recent_logs()
        &&& ascending(self.spec_samples())
        &&& self.spec_max_seen_position() == furthest(self.spec_samples())
    }

    /// A line can be taken in: unless it reports a time that is not later than the last sample,
    /// and no time is left after that sample.
    pub open spec fn has_room_for(self, line: Seq<char>) -> bool {
        line_report(line) is Some && self.spec_samples().len() > 0 ==> {
            let previous = self.spec_samples().last().timestamp.instant();
            reported_instant(line_report(line)->0) > previous || previous + millis(1)
                <= last_instant()
        }
    }

    /// What never changes.
    pub open spec fn same_setup(self, other: AppState) -> bool {
        &&& self.spec_session() == other.spec_session()
        &&& self.spec_log_file() == other.spec_log_file()
        &&& self.spec_output_is_tty() == other.spec_output_is_tty()
        &&& self.spec_max_recent_logs() == other.spec_max_recent_logs()
    }

    /// `self` is `before` with one more line of the log.
    pub open spec fn keeps_line(self, before: AppState, line: Seq<char>) -> bool {
        &&& self.same_setup(before)
        &&& self.spec_recent_logs() == last_items(
            before.spec_recent_logs().push(line),
            before.spec_max_recent_logs() as nat,
        )
    }

    /// `self` is `before` with one more line of the log, which was received at some time, and
    /// `sample` is what the line reported.
    pub open spec fn has_recorded(
        self,
        before: AppState,
        line: Seq<char>,
        received: Timestamp,
        sample: Option<QueueSample>,
    ) -> bool {
        &&& self.keeps_line(before, line)
        &&& match line_report(line) {
            None => {
                &&& sample is None
                &&& self.spec_samples() == before.spec_samples()
                &&& self.spec_max_seen_position() == before.spec_max_seen_position()
            },
            Some(report) => {
                &&& sample matches Some(s)
                &&& s.timestamp.instant() == sample_instant(
                    before.spec_samples(),
                    reported_instant(report),
                    received.instant(),
                )
                &&& s.position@ == report.position
                &&& self.spec_samples().len() == before.spec_samples().len() + 1
                &&& self.spec_samples().drop_last() == before.spec_samples()
                &&& self.spec_samples().last().same_as(s)
                &&& self.spec_max_seen_position() == greater(
                    before.spec_max_seen_position(),
                    report.position,
                )
            },
        }
    }

    /// A session of which nothing is known yet.
    pub fn new(
        session: SessionKind,
        log_file: String,
        max_recent_logs: usize,
        output_is_tty: bool,
    ) -> (state: AppState)
        ensures
            state.is_valid(),
            state.spec_session() == session,
            state.spec_log_file() == log_file@,
            state.spec_output_is_tty() == output_is_tty,
            state.spec_max_recent_logs() == max_recent_logs,
            state.spec_recent_logs() == Seq::<Seq<char>>::empty(),
            state.spec_samples() == Seq::<QueueSample>::empty(),
            state.spec_max_seen_position() == 0,
    {
        let state = AppState {
            session,
            log_file,
            output_is_tty,
            max_recent_logs,
            recent_logs: VecDeque::new(),
            samples: Vec::new(),
            max_seen_position: Position::zero(),
        };
        assert(texts(state.recent_logs@) =~= Seq::empty());
        state
    }

    /// Keeps a line of the log, and drops the oldest one where there are too many.
    pub fn push_recent(&mut self, line: String)
        requires
            old(self).is_valid(),
        ensures
            final(self).is_valid(),
            final(self).keeps_line(*old(self), line@),
            final(self).spec_samples() == old(self).spec_samples(),
            final(self).spec_max_seen_position() == old(self).spec_max_seen_position(),
    {
        let ghost before = texts(self.recent_logs@);
        if self.max_recent_logs == 0 {
            assert(before.push(line@).skip(before.len() as int + 1) =~= before);
            return;
        }
        if self.recent_logs.len() == self.max_recent_logs {
            self.recent_logs.pop_front();
        }
        self.recent_logs.push_back(line);
        assert(texts(self.recent_logs@) =~= last_items(
            before.push(line@),
            self.max_recent_logs as nat,
        ));
    }

    /// Takes in a line of the log that was received at some time, and gives the sample that it
    /// reports, if it reports one.
    pub fn record_line_at(&mut self, line: &str, received_at: Timestamp) -> (sample: Option<
        QueueSample,
    >)
        requires
            old(self).is_valid(),
            old(self).has_room_for(line@),
        ensures
            final(self).is_valid(),
            final(self).has_recorded(*old(self), line@, received_at, sample),
    {
        self.push_recent(line.to_owned());
        let parsed = parse_queue_sample(line)?;
        Some(self.add_sample(parsed, received_at))
    }

    /// Takes in a sample that was received at some time, and gives it back with the time at which
    /// it is taken to have come.
    fn add_sample(&mut self, parsed: QueueSample, received_at: Timestamp) -> (sample: QueueSample)
        requires
            old(self).is_valid(),
            old(self).spec_samples().len() > 0 ==> {
                let previous = old(self).spec_samples().last().timestamp.instant();
                parsed.timestamp.instant() > previous || previous + millis(1) <= last_instant()
            },
        ensures
            final(self).is_valid(),
            final(self).same_setup(*old(self)),
            final(self).spec_recent_logs() == old(self).spec_recent_logs(),
            sample.timestamp.instant() == sample_instant(
                old(self).spec_samples(),
                parsed.timestamp.instant(),
                received_at.instant(),
            ),
            sample.position@ == parsed.position@,
            final(self).spec_samples().len() == old(self).spec_samples().len() + 1,
            final(self).spec_samples().drop_last() == old(self).spec_samples(),
            final(self).spec_samples().last().same_as(sample),
            final(self).spec_max_seen_position() == greater(
                old(self).spec_max_seen_position(),
                parsed.position@,
            ),
    {
        let mut parsed = parsed;
        if self.samples.len() > 0 {
            let previous = self.samples[self.samples.len() - 1].timestamp;
            if !parsed.timestamp.is_after(&previous) {
                let next = previous.plus_millis(1).unwrap();
                parsed.timestamp = if received_at.seconds_apart(&parsed.timestamp) <= 2 {
                    received_at.latest(&next)
                } else {
                    next
                };
            }
        }
        if parsed.position.is_above(&self.max_seen_position) {
            self.max_seen_position = parsed.position.clone();
        }
        self.samples.push(parsed.clone());
        assert(self.samples@.drop_last() =~= old(self).samples@);
        parsed
    }

    /// Takes in a line of the log that has just been received, and gives the sample that it
    /// reports, if it reports one. The clock is read for such a line only.
    pub fn record_line(&mut self, line: &str) -> (sample: Option<QueueSample>)
        requires
            old(self).is_valid(),
            old(self).has_room_for(line@),
        ensures
            final(self).is_valid(),
            exists|received: Timestamp|
                received.is_valid() && #[trigger] final(self).has_recorded(
                    *old(self),
                    line@,
                    received,
                    sample,
                ),
    {
        self.push_recent(line.to_owned());
        let parsed = match parse_queue_sample(line) {
            Some(parsed) => parsed,
            None => {
                proof {
                    law_every_instant_can_be_told(0);
                    let any = choose|t: Timestamp| #[trigger] t.is_valid() && t.instant() == 0;
                    assert(self.has_recorded(*old(self), line@, any, None));
                }
                return None;
            },
        };
        let received_at = Timestamp::now();
        let sample = self.add_sample(parsed, received_at);
        assert(self.has_recorded(*old(self), line@, received_at, Some(sample)));
        Some(sample)
    }

    /// Whether a line can be taken in.
    pub fn can_record(&self, line: &str) -> (room: bool)
        ensures
            room == self.has_room_for(line@),
    {
        if self.samples.len() == 0 {
            return true;
        }
        let previous = self.samples[self.samples.len() - 1].timestamp;
        proof {
            use_type_invariant(&previous);
        }
        if previous.plus_millis(1).is_some() {
            return true;
        }
        match parse_queue_sample(line) {
            Some(parsed) => parsed.timestamp.is_after(&previous),
            None => true,
        }
    }

    pub fn session(&self) -> (session: &SessionKind)
        ensures
            *session == self.spec_session(),
    {
        &self.session
    }

    pub fn log_file(&self) -> (log_file: &str)
        ensures
            log_file@ == self.spec_log_file(),
    {
        self.log_file.as_str()
    }

    pub fn output_is_tty(&self) -> (tty: bool)
        ensures
            tty == self.spec_output_is_tty(),
    {
        self.output_is_tty
    }

    pub fn max_recent_logs(&self) -> (max: usize)
        ensures
            max == self.spec_max_recent_logs(),
    {
        self.max_recent_logs
    }

    /// The lines of the log that are shown: the last ones, or a notice that there is none.
    pub fn shown_logs(&self) -> (lines: Vec<String>)
        ensures
            texts(lines@) == if self.spec_recent_logs().len() == 0 {
                seq!["No log lines yet"@]
            } else {
                self.spec_recent_logs()
            },
    {
        let mut lines: Vec<String> = Vec::new();
        if self.recent_logs.len() == 0 {
            lines.push("No log lines yet".to_owned());
            assert(texts(lines@) =~= seq!["No log lines yet"@]);
            return lines;
        }
        let mut done: usize = 0;
        while done < self.recent_logs.len()
            invariant
                done <= self.recent_logs@.len(),
                texts(lines@) == texts(self.recent_logs@).take(done as int),
            decreases self.recent_logs@.len() - done,
        {
            let ghost before = texts(lines@);
            lines.push(self.recent_logs[done].clone());
            assert(texts(lines@) =~= before.push(self.recent_logs@[done as int]@));
            done = done + 1;
            assert(texts(lines@) =~= texts(self.recent_logs@).take(done as int));
        }
        assert(texts(lines@) =~= texts(self.recent_logs@));
        lines
    }

    pub fn samples(&self) -> (samples: &Vec<QueueSample>)
        ensures
            samples@ == self.spec_samples(),
    {
        &self.samples
    }

    pub fn max_seen_position(&self) -> (position: &Position)
        ensures
            position@ == self.spec_max_seen_position(),
    {
        &self.max_seen_position
    }
}

/// To keep the last lines of the last lines is to keep the last lines of all: whatever came
/// before, the lines that are kept are the end of the log.
pub proof fn law_recent_logs_are_the_end_of_the_log(
    log: Seq<Seq<char>>,
    line: Seq<char>,
    max: nat,
)
    ensures
        last_items(last_items(log, max).push(line), max) == last_items(log.push(line), max),
{
    assert(last_items(last_items(log, max).push(line), max) =~= last_items(log.push(line), max));
}

/// No sample lies further back in the queue than the place that is kept as the furthest one, and
/// some sample lies there.
pub proof fn law_furthest_bounds_every_sample(samples: Seq<QueueSample>)
    ensures
        forall|i: int| 0 <= i < samples.len() ==> (#[trigger] samples[i]).position@ <= furthest(
            samples,
        ),
        samples.len() > 0 ==> exists|i: int|
            0 <= i < samples.len() && (#[trigger] samples[i]).position@ == furthest(samples),
    decreases samples.len(),
{
    if samples.len() > 0 {
        let front = samples.drop_last();
        law_furthest_bounds_every_sample(front);
        assert forall|i: int| 0 <= i < samples.len() implies (#[trigger] samples[i]).position@
            <= furthest(samples) by {
            if i < front.len() {
                assert(front[i] == samples[i]);
            }
        }
        if front.len() > 0 && furthest(front) >= samples.last().position@ {
            let i = choose|i: int|
                0 <= i < front.len() && (#[trigger] front[i]).position@ == furthest(front);
            assert(samples[i] == front[i]);
        } else {
            assert(samples[samples.len() - 1] == samples.last());
        }
    }
}

/// A line that is later than the sample before it keeps its own time, whenever it is received:
/// a log that is tracked again gives the same samples.
pub proof fn law_ordered_lines_keep_their_times(
    samples: Seq<QueueSample>,
    reported: int,
    received: int,
)
    requires
        samples.len() > 0 ==> reported > samples.last().timestamp.instant(),
    ensures
        sample_instant(samples, reported, received) == reported,
{
}

/// Every sample comes after the one before it, whatever its line says and whenever it is
/// received.
pub proof fn law_samples_move_forward(samples: Seq<QueueSample>, reported: int, received: int)
    requires
        samples.len() > 0,
    ensures
        sample_instant(samples, reported, received) > samples.last().timestamp.instant(),
{
}

/// A line that is received three seconds or more from the time that it gives is not dated by the
/// clock: whenever it is received, its sample has the same time, which is a millisecond after the
/// sample before it where the line is not later than that.
pub proof fn law_stale_lines_ignore_the_clock(
    samples: Seq<QueueSample>,
    reported: int,
    received: int,
    other: int,
)
    requires
        received - reported >= 3_000_000_000 || reported - received >= 3_000_000_000,
        other - reported >= 3_000_000_000 || reported - other >= 3_000_000_000,
    ensures
        sample_instant(samples, reported, received) == sample_instant(samples, reported, other),
        samples.len() > 0 && reported <= samples.last().timestamp.instant() ==> sample_instant(
            samples,
            reported,
            received,
        ) == samples.last().timestamp.instant() + 1_000_000,
{
}

/// A line that is received less than three seconds from the time that it gives, and is not later
/// than the sample before it, is dated by the clock, but a millisecond after that sample at least.
pub proof fn law_fresh_lines_follow_the_clock(
    samples: Seq<QueueSample>,
    reported: int,
    received: int,
)
    requires
        samples.len() > 0,
        reported <= samples.last().timestamp.instant(),
        -3_000_000_000 < received - reported < 3_000_000_000,
    ensures
        ({
            let previous = samples.last().timestamp.instant();
            let instant = sample_instant(samples, reported, received);
            &&& instant >= received
            &&& instant >= previous + 1_000_000
            &&& instant == received || instant == previous + 1_000_000
        }),
{
}

/// The first line of a log keeps its own time, however old it is.
pub proof fn law_first_line_keeps_its_time(samples: Seq<QueueSample>, reported: int, received: int)
    requires
        samples.len() == 0,
    ensures
        sample_instant(samples, reported, received) == reported,
{
}

/// A sample has one of three times, and is never dated before its line.
pub proof fn law_sample_has_a_known_time(samples: Seq<QueueSample>, reported: int, received: int)
    ensures
        ({
            let instant = sample_instant(samples, reported, received);
            ||| instant == reported
            ||| samples.len() > 0 && instant == received
            ||| samples.len() > 0 && instant == samples.last().timestamp.instant() + 1_000_000
        }),
        sample_instant(samples, reported, received) >= reported,
{
}

/// The greater of two numbers is one of them, and lies below neither.
pub proof fn law_greater(a: nat, b: nat)
    ensures
        greater(a, b) >= a,
        greater(a, b) >= b,
        greater(a, b) == a || greater(a, b) == b,
{
}

/// The last items are the end of all items, and as many as asked for, if there are so many.
pub proof fn law_last_items_are_the_end<T>(items: Seq<T>, max: nat)
    ensures
        items.len() >= max ==> last_items(items, max).len() == max,
        items.len() <= max ==> last_items(items, max).len() == items.len(),
        forall|back: int|
            1 <= back <= last_items(items, max).len() ==> (#[trigger] last_items(
                items,
                max,
            )[last_items(items, max).len() - back]) == items[items.len() - back],
{
}

/// To take in a line leaves what was known before as it is. The samples gain one if and only if the
/// line reports a place, and the last of them has this place.
pub proof fn law_recording_adds_what_the_line_reports(
    before: AppState,
    after: AppState,
    line: Seq<char>,
    received: Timestamp,
    sample: Option<QueueSample>,
)
    requires
        after.has_recorded(before, line, received, sample),
    ensures
        after.spec_session() == before.spec_session(),
        after.spec_log_file() == before.spec_log_file(),
        after.spec_output_is_tty() == before.spec_output_is_tty(),
        after.spec_max_recent_logs() == before.spec_max_recent_logs(),
        forall|i: int|
            0 <= i < before.spec_samples().len() ==> (#[trigger] after.spec_samples()[i])
                == before.spec_samples()[i],
        sample is Some <==> line_report(line) is Some,
        sample is None ==> after.spec_samples() == before.spec_samples(),
        sample is None ==> after.spec_max_seen_position() == before.spec_max_seen_position(),
        sample matches Some(s) ==> {
            let place = line_report(line)->0.position;
            let last = after.spec_samples()[before.spec_samples().len() as int];
            &&& after.spec_samples().len() == before.spec_samples().len() + 1
            &&& s.position@ == place
            &&& last.position@ == place
            &&& last.timestamp == s.timestamp
            &&& after.spec_max_seen_position() >= place
            &&& after.spec_max_seen_position() >= before.spec_max_seen_position()
            &&& after.spec_max_seen_position() == place || after.spec_max_seen_position()
                == before.spec_max_seen_position()
        },
{
    assert forall|i: int| 0 <= i < before.spec_samples().len() implies (
    #[trigger] after.spec_samples()[i]) == before.spec_samples()[i] by {
        if line_report(line) is Some {
            assert(after.spec_samples().drop_last()[i] == after.spec_samples()[i]);
        }
    }
}

/// To take in a line makes it the last line that is kept, behind the last ones that were kept
/// before, whatever it reports.
pub proof fn law_recording_keeps_the_line(
    before: AppState,
    after: AppState,
    line: Seq<char>,
    received: Timestamp,
    sample: Option<QueueSample>,
)
    requires
        after.has_recorded(before, line, received, sample),
        before.is_valid(),
    ensures
        ({
            let max = before.spec_max_recent_logs();
            let kept = before.spec_recent_logs();
            let now = after.spec_recent_logs();
            &&& max == 0 ==> now.len() == 0
            &&& max > 0 ==> now.len() > 0 && now.last() == line
            &&& kept.len() < max ==> now.len() == kept.len() + 1
            &&& kept.len() == max ==> now.len() == max
            &&& forall|back: int|
                1 <= back < now.len() ==> (#[trigger] now[now.len() - 1 - back])
                    == kept[kept.len() - back]
        }),
{
}

/// A line that the clock does not date, because it is later than the last sample or because it is
/// received three seconds or more from the time that it gives, gives the same sample whenever it is
/// received: a log that is read again is read alike.
pub proof fn law_old_logs_are_read_alike(
    before: AppState,
    a: AppState,
    b: AppState,
    line: Seq<char>,
    early: Timestamp,
    late: Timestamp,
    first: Option<QueueSample>,
    second: Option<QueueSample>,
)
    requires
        a.has_recorded(before, line, early, first),
        b.has_recorded(before, line, late, second),
        line_report(line) matches Some(report) ==> {
            let time = reported_instant(report);
            ||| before.spec_samples().len() == 0
            ||| time > before.spec_samples().last().timestamp.instant()
            ||| {
                &&& early.instant() - time >= 3_000_000_000 || time - early.instant()
                    >= 3_000_000_000
                &&& late.instant() - time >= 3_000_000_000 || time - late.instant() >= 3_000_000_000
            }
        },
    ensures
        first is Some <==> second is Some,
        first matches Some(s) ==> {
            &&& s.timestamp.instant() == second->0.timestamp.instant()
            &&& s.position@ == second->0.position@
        },
        a.spec_samples().len() == b.spec_samples().len(),
        a.spec_max_seen_position() == b.spec_max_seen_position(),
        a.spec_recent_logs() == b.spec_recent_logs(),
{
}

/// A line is dated as the samples before it, its own time and the clock say: at its own time where
/// that is later than the last sample or there is none.
pub proof fn law_recording_dates_the_line(
    before: AppState,
    after: AppState,
    line: Seq<char>,
    received: Timestamp,
    sample: Option<QueueSample>,
)
    requires
        after.has_recorded(before, line, received, sample),
        sample is Some,
    ensures
        ({
            let report = line_report(line)->0;
            let time = report.date.number() * 86_400_000_000_000 + report.time.number()
                * 1_000_000_000;
            let instant = sample->0.timestamp.instant();
            &&& before.spec_samples().len() == 0 ==> instant == time
            &&& before.spec_samples().len() > 0 ==> {
                let previous = before.spec_samples().last().timestamp.instant();
                &&& instant > previous
                &&& time > previous ==> instant == time
                &&& time <= previous && (received.instant() - time >= 3_000_000_000 || time
                    - received.instant() >= 3_000_000_000) ==> instant == previous + 1_000_000
                &&& time <= previous && -3_000_000_000 < received.instant() - time < 3_000_000_000
                    && received.instant() > previous + 1_000_000 ==> instant == received.instant()
                &&& time <= previous && received.instant() <= previous + 1_000_000 ==> instant
                    == previous + 1_000_000
            }
        }),
{
}

/// A line is refused only where it reports a time that is not later than the last sample, and less
/// than a millisecond is left after that sample.
pub proof fn law_lines_are_rarely_refused(state: AppState, line: Seq<char>)
    ensures
        line_report(line) is None ==> state.has_room_for(line),
        state.spec_samples().len() == 0 ==> state.has_room_for(line),
        state.spec_samples().len() > 0 && state.spec_samples().last().timestamp.instant() + 1_000_000
            <= last_instant() ==> state.has_room_for(line),
        state.spec_samples().len() > 0 && state.spec_samples().last().timestamp.instant() + 1_000_000
            > last_instant() && line_report(line) is Some && reported_instant(line_report(line)->0)
            <= state.spec_samples().last().timestamp.instant() ==> !state.has_room_for(line),
{
}

} // verus!
