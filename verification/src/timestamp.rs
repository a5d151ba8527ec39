//! Points in local time, to the nanosecond, and how they are written.
use crate::calendar::{
    Date, DAY_SECONDS, MAX_DAY, MIN_DAY, TimeOfDay, date_of_day, day_number, second_number,
    time_of_second,
};
use crate::text::{push_decimal, push_signed, push_zero_padded};
use chrono::{Datelike, Timelike};
use vstd::prelude::*;

verus! {

/// A point in local time.
#[derive(Clone, Copy, Debug, PartialEq, Eq, Structural)]
pub struct Timestamp {
    day: i32,
    second: u32,
    nanosecond: u32,
}

/// The nanoseconds of `n` milliseconds.
pub open spec fn millis(n: int) -> int {
    n * 1_000_000
}

/// The nanoseconds of `n` seconds.
pub open spec fn seconds(n: int) -> int {
    n * 1_000_000_000
}

/// The nanoseconds of `n` days.
pub open spec fn days(n: int) -> int {
    n * 86_400_000_000_000
}

/// The first point in time that can be told, in nanoseconds.
pub open spec fn first_instant() -> int {
    days(MIN_DAY as int)
}

/// The last point in time that can be told, in nanoseconds.
pub open spec fn last_instant() -> int {
    days(MAX_DAY + 1) - 1
}

/// The whole milliseconds of a span of nanoseconds, rounded toward zero.
pub open spec fn whole_millis(span: int) -> int {
    if span >= 0 {
        span / 1_000_000
    } else {
        -((-span) / 1_000_000)
    }
}

/// The whole seconds of a span of nanoseconds, its sign left out.
pub open spec fn whole_seconds_apart(span: int) -> int {
    if span >= 0 {
        span / 1_000_000_000
    } else {
        (-span) / 1_000_000_000
    }
}

impl Timestamp {
    /// The number of the day.
    pub closed spec fn day_number(self) -> int {
        self.day as int
    }

    /// How many whole seconds of the day have gone.
    pub closed spec fn second_number(self) -> int {
        self.second as int
    }

    /// How many nanoseconds of the second have gone.
    pub closed spec fn subsecond(self) -> int {
        self.nanosecond as int
    }

    /// The nanoseconds since the midnight that starts day 0.
    pub open spec fn instant(self) -> int {
        days(self.day_number()) + seconds(self.second_number()) + self.subsecond()
    }

    /// The parts lie in their ranges.
    #[verifier::type_invariant]
    pub open spec fn is_valid(self) -> bool {
        &&& MIN_DAY <= self.day_number() <= MAX_DAY
        &&& 0 <= self.second_number() < DAY_SECONDS
        &&& 0 <= self.subsecond() < 1_000_000_000
    }

    /// The day.
    pub open spec fn spec_date(self) -> Date {
        crate::calendar::date_of(self.day_number())
    }

    /// The second of the day.
    pub open spec fn spec_time(self) -> TimeOfDay {
        crate::calendar::time_of(self.second_number())
    }

    /// The start of a second of a day, if there are such a day and such a second.
    pub fn at(date: Date, time: TimeOfDay) -> (timestamp: Option<Timestamp>)
        ensures
            timestamp is Some <==> date.is_valid() && time.is_valid(),
            timestamp matches Some(t) ==> {
                &&& t.is_valid()
                &&& t.day_number() == date.number()
                &&& t.second_number() == time.number()
                &&& t.subsecond() == 0
            },
    {
        match (day_number(date), second_number(time)) {
            (Some(day), Some(second)) => Some(Timestamp { day, second, nanosecond: 0 }),
            _ => None,
        }
    }

    /// The day.
    pub fn date(&self) -> (date: Date)
        ensures
            self.is_valid(),
            date == self.spec_date(),
            date.is_valid(),
            date.number() == self.day_number(),
    {
        proof {
            use_type_invariant(self);
        }
        date_of_day(self.day)
    }

    /// The second of the day.
    pub fn time(&self) -> (time: TimeOfDay)
        ensures
            self.is_valid(),
            time == self.spec_time(),
            time.is_valid(),
            time.number() == self.second_number(),
    {
        proof {
            use_type_invariant(self);
        }
        time_of_second(self.second)
    }

    /// The nanoseconds since the midnight that starts day 0.
    pub fn nanos(&self) -> (n: i128)
        ensures
            self.is_valid(),
            n == self.instant(),
            first_instant() <= n <= last_instant(),
    {
        proof {
            use_type_invariant(self);
        }
        self.day as i128 * 86_400_000_000_000 + self.second as i128 * 1_000_000_000
            + self.nanosecond as i128
    }

    /// The point in time that lies `n` nanoseconds after the midnight that starts day 0, if it
    /// can be told.
    pub fn from_nanos(n: i128) -> (timestamp: Option<Timestamp>)
        ensures
            timestamp is Some <==> first_instant() <= n <= last_instant(),
            timestamp matches Some(t) ==> t.is_valid() && t.instant() == n,
    {
        if n < -95_746_129 * 86_400_000_000_000 || n >= 95_745_400 * 86_400_000_000_000 {
            return None;
        }
        // Counted from the first instant, so that no quotient is negative.
        let since: i128 = n + 95_746_129 * 86_400_000_000_000;
        let day: i128 = since / 86_400_000_000_000;
        let rest: i128 = since % 86_400_000_000_000;
        let second: i128 = rest / 1_000_000_000;
        let nanosecond: i128 = rest % 1_000_000_000;
        Some(
            Timestamp {
                day: (day - 95_746_129) as i32,
                second: second as u32,
                nanosecond: nanosecond as u32,
            },
        )
    }

    /// Whether `self` comes after `other`.
    pub fn is_after(&self, other: &Timestamp) -> (after: bool)
        ensures
            after == (self.instant() > other.instant()),
    {
        self.nanos() > other.nanos()
    }

    /// The later of two points in time.
    pub fn latest(&self, other: &Timestamp) -> (later: Timestamp)
        ensures
            later == if self.instant() > other.instant() {
                *self
            } else {
                *other
            },
    {
        if self.is_after(other) {
            *self
        } else {
            *other
        }
    }

    /// The point in time that lies `count` milliseconds after this one, if it can be told.
    pub fn plus_millis(&self, count: i64) -> (timestamp: Option<Timestamp>)
        ensures
            self.is_valid(),
            timestamp is Some <==> first_instant() <= self.instant() + millis(count as int)
                <= last_instant(),
            timestamp matches Some(t) ==> {
                &&& t.is_valid()
                &&& t.instant() == self.instant() + millis(count as int)
            },
    {
        Timestamp::from_nanos(self.nanos() + count as i128 * 1_000_000)
    }

    /// The whole milliseconds from `start` to this point in time, rounded toward zero.
    pub fn millis_since(&self, start: &Timestamp) -> (count: i64)
        ensures
            count == whole_millis(self.instant() - start.instant()),
    {
        let span: i128 = self.nanos() - start.nanos();
        if span >= 0 {
            (span / 1_000_000) as i64
        } else {
            -(((-span) / 1_000_000) as i64)
        }
    }

    /// The whole seconds between this point in time and `other`, whichever comes first.
    pub fn seconds_apart(&self, other: &Timestamp) -> (count: u64)
        ensures
            count == whole_seconds_apart(self.instant() - other.instant()),
    {
        let span: i128 = self.nanos() - other.nanos();
        if span >= 0 {
            (span / 1_000_000_000) as u64
        } else {
            ((-span) / 1_000_000_000) as u64
        }
    }

    /// The local time now.
    pub fn now() -> (timestamp: Timestamp)
        ensures
            timestamp.is_valid(),
    {
        let (day, second, nanosecond) = chrono_local_now();
        Timestamp { day, second, nanosecond }
    }
}

/// `chrono::Local::now` reads the clock and the time zone, and `naive_local` gives the day and
/// the time that a wall clock shows. The result lies in the range of `chrono`, and is no leap
/// second, as the clock never reports one. Which time it is depends on the machine; `chrono` panics
/// where the clock is set before 1970.
#[verifier::external_body]
fn chrono_local_now() -> (parts: (i32, u32, u32))
    ensures
        MIN_DAY <= parts.0 <= MAX_DAY,
        parts.1 < DAY_SECONDS,
        parts.2 < 1_000_000_000,
{
    let now = chrono::Local::now().naive_local();
    (now.num_days_from_ce(), now.num_seconds_from_midnight(), now.nanosecond())
}

/// Day, month and year, then hours, minutes and seconds in two digits each.
pub open spec fn timestamp_text(date: Date, time: TimeOfDay) -> Seq<char> {
    crate::text::decimal(date.day as nat) + "."@ + crate::text::decimal(date.month as nat) + "."@
        + crate::text::signed_decimal(date.year as int) + " "@ + crate::text::zero_padded(
        time.hour as nat,
        2,
    ) + ":"@ + crate::text::zero_padded(time.minute as nat, 2) + ":"@ + crate::text::zero_padded(
        time.second as nat,
        2,
    )
}

/// Writes a point in time as `6.4.2026 17:07:03`.
pub fn format_timestamp(timestamp: &Timestamp) -> (text: String)
    ensures
        text@ == timestamp_text(timestamp.spec_date(), timestamp.spec_time()),
{
    let date = timestamp.date();
    let time = timestamp.time();
    let mut text = String::new();
    push_decimal(&mut text, date.day as u64);
    text.append(".");
    push_decimal(&mut text, date.month as u64);
    text.append(".");
    push_signed(&mut text, date.year);
    text.append(" ");
    push_zero_padded(&mut text, time.hour as u64, 2);
    text.append(":");
    push_zero_padded(&mut text, time.minute as u64, 2);
    text.append(":");
    push_zero_padded(&mut text, time.second as u64, 2);
    assert(text@ =~= timestamp_text(date, time));
    text
}

/// Hours and minutes in two digits each.
pub open spec fn axis_time_text(time: TimeOfDay) -> Seq<char> {
    crate::text::zero_padded(time.hour as nat, 2) + ":"@ + crate::text::zero_padded(
        time.minute as nat,
        2,
    )
}

/// Writes a point in time as `17:07`.
pub fn format_axis_time(timestamp: &Timestamp) -> (text: String)
    ensures
        text@ == axis_time_text(timestamp.spec_time()),
{
    let time = timestamp.time();
    let mut text = String::new();
    push_zero_padded(&mut text, time.hour as u64, 2);
    text.append(":");
    push_zero_padded(&mut text, time.minute as u64, 2);
    assert(text@ =~= axis_time_text(time));
    text
}

/// Hours, minutes and seconds, without the leading units that are zero.
pub open spec fn duration_text(seconds: nat) -> Seq<char> {
    let hours = crate::text::decimal(seconds / 3600) + "h "@;
    let minutes = crate::text::decimal(seconds % 3600 / 60) + "m "@;
    let rest = crate::text::decimal(seconds % 60) + "s"@;
    if seconds >= 3600 {
        hours + minutes + rest
    } else if seconds >= 60 {
        minutes + rest
    } else {
        rest
    }
}

/// The whole seconds of a span of time, and none of a negative one.
pub open spec fn whole_seconds(millis: int) -> nat {
    if millis > 0 {
        (millis / 1000) as nat
    } else {
        0
    }
}

/// Writes a span of time, given in milliseconds, as `1h 2m 3s`. A negative span counts as none.
pub fn format_duration(millis: i64) -> (text: String)
    ensures
        text@ == duration_text(whole_seconds(millis as int)),
{
    let total: u64 = if millis > 0 {
        millis as u64 / 1000
    } else {
        0
    };
    let hours: u64 = total / 3600;
    let minutes: u64 = total % 3600 / 60;
    let mut text = String::new();
    if hours > 0 {
        push_decimal(&mut text, hours);
        text.append("h ");
    }
    if hours > 0 || minutes > 0 {
        push_decimal(&mut text, minutes);
        text.append("m ");
    }
    push_decimal(&mut text, total % 60);
    text.append("s");
    assert(text@ =~= duration_text(total as nat));
    text
}

/// Every instant of the range is that of a point in time.
pub proof fn law_every_instant_can_be_told(n: int)
    requires
        first_instant() <= n <= last_instant(),
    ensures
        exists|t: Timestamp| #[trigger] t.is_valid() && t.instant() == n,
{
    let day = n / 86_400_000_000_000;
    let rest = n % 86_400_000_000_000;
    let second = rest / 1_000_000_000;
    let nanosecond = rest % 1_000_000_000;
    assert(n == days(day) + rest && 0 <= rest < 86_400_000_000_000);
    assert(rest == seconds(second) + nanosecond && 0 <= nanosecond < 1_000_000_000);
    assert(MIN_DAY <= day <= MAX_DAY);
    assert(0 <= second < DAY_SECONDS);
    let t = Timestamp { day: day as i32, second: second as u32, nanosecond: nanosecond as u32 };
    assert(t.is_valid());
    assert(t.instant() == n);
}

/// Two points in time that lie at one instant are the same.
pub proof fn law_instant_tells_the_timestamp(a: Timestamp, b: Timestamp)
    requires
        a.is_valid(),
        b.is_valid(),
        a.instant() == b.instant(),
    ensures
        a == b,
{
}

/// A thousand milliseconds make a second, and 86400 seconds make a day.
pub proof fn law_units_of_time(n: int)
    ensures
        millis(n) == 1_000_000 * n,
        seconds(n) == millis(1000 * n),
        days(n) == seconds(86_400 * n),
{
}

/// The whole milliseconds of a span are those that fit into it: the rest is shorter than one, and a
/// span backward counts as its length with a minus sign.
pub proof fn law_whole_millis_fit(span: int)
    ensures
        span >= 0 ==> whole_millis(span) * 1_000_000 <= span < (whole_millis(span) + 1) * 1_000_000,
        whole_millis(-span) == -whole_millis(span),
{
}

/// The milliseconds that are added to a point in time are those that lie between the two.
pub proof fn law_added_millis_are_measured(start: Timestamp, end: Timestamp, count: int)
    requires
        end.instant() == start.instant() + millis(count),
    ensures
        whole_millis(end.instant() - start.instant()) == count,
        whole_millis(start.instant() - end.instant()) == -count,
{
}

/// The whole seconds between two points in time are those that fit in between, whichever comes
/// first.
pub proof fn law_whole_seconds_apart_fit(span: int)
    ensures
        span >= 0 ==> whole_seconds_apart(span) * 1_000_000_000 <= span < (whole_seconds_apart(span)
            + 1) * 1_000_000_000,
        whole_seconds_apart(-span) == whole_seconds_apart(span),
{
}

/// The whole seconds of a span in milliseconds are those that fit into it, and a negative span has
/// none.
pub proof fn law_whole_seconds_fit(span: int)
    ensures
        span >= 0 ==> whole_seconds(span) * 1000 <= span < (whole_seconds(span) + 1) * 1000,
        span <= 0 ==> whole_seconds(span) == 0,
{
}

/// The date and the time of a point in time exist, and have the numbers of its day and second.
pub proof fn law_points_in_time_have_dates(t: Timestamp)
    requires
        t.is_valid(),
    ensures
        t.spec_date().is_valid(),
        t.spec_date().number() == t.day_number(),
        t.spec_time().is_valid(),
        t.spec_time().number() == t.second_number(),
{
    crate::calendar::law_every_day_number_has_a_date(t.day_number());
}

/// Two digits are told apart from what follows them.
proof fn lemma_two_digits_in_front(a: nat, after_a: Seq<char>, b: nat, after_b: Seq<char>)
    requires
        a < 100,
        b < 100,
        crate::text::zero_padded(a, 2) + after_a == crate::text::zero_padded(b, 2) + after_b,
    ensures
        a == b,
        after_a == after_b,
{
    crate::text::lemma_decimal_length(a);
    crate::text::lemma_decimal_length(b);
    crate::text::law_padded_numerals_read_back(a, 2);
    crate::text::law_padded_numerals_read_back(b, 2);
    crate::log_line::lemma_same_cut(
        crate::text::zero_padded(a, 2),
        after_a,
        crate::text::zero_padded(b, 2),
        after_b,
    );
}

/// Digits and the minus sign.
spec fn signed_class() -> spec_fn(char) -> bool {
    |c: char| crate::text::is_digit(c) || c == '-'
}

proof fn lemma_signed_run(n: int)
    ensures
        crate::log_line::all_in(signed_class(), crate::text::signed_decimal(n)),
{
    let text = crate::text::signed_decimal(n);
    crate::text::law_signed_decimal_reads_back(n);
    assert forall|i: int| 0 <= i < text.len() implies signed_class()(#[trigger] text[i]) by {
        if n < 0 && i > 0 {
            assert(text.skip(1)[i - 1] == text[i]);
        }
    }
}

/// A time of day and what follows it.
spec fn clock_and(time: TimeOfDay, after: Seq<char>) -> Seq<char> {
    crate::text::zero_padded(time.hour as nat, 2) + (":"@ + (crate::text::zero_padded(
        time.minute as nat,
        2,
    ) + (":"@ + (crate::text::zero_padded(time.second as nat, 2) + after))))
}

/// A written time and what follows it, taken apart behind each of its numbers.
proof fn lemma_written_time(date: Date, time: TimeOfDay, after: Seq<char>)
    ensures
        timestamp_text(date, time) + after == crate::text::decimal(date.day as nat) + ("."@ + (
        crate::text::decimal(date.month as nat) + ("."@ + (crate::text::signed_decimal(
            date.year as int,
        ) + (" "@ + clock_and(time, after)))))),
{
    let d = crate::text::decimal(date.day as nat);
    let m = crate::text::decimal(date.month as nat);
    let y = crate::text::signed_decimal(date.year as int);
    let hour = crate::text::zero_padded(time.hour as nat, 2);
    let minute = crate::text::zero_padded(time.minute as nat, 2);
    let second = crate::text::zero_padded(time.second as nat, 2);
    let front = d + "."@ + m + "."@ + y + " "@;
    lemma_regroup_five(front, hour, ":"@, minute, ":"@, second + after);
    assert(timestamp_text(date, time) + after =~= front + hour + ":"@ + minute + ":"@ + (second
        + after));
    lemma_regroup_five(d, "."@, m, "."@, y, " "@ + clock_and(time, after));
    assert(front + clock_and(time, after) =~= d + "."@ + m + "."@ + y + (" "@ + clock_and(
        time,
        after,
    )));
}

proof fn lemma_regroup_five(
    a: Seq<char>,
    b: Seq<char>,
    c: Seq<char>,
    d: Seq<char>,
    e: Seq<char>,
    rest: Seq<char>,
)
    ensures
        a + b + c + d + e + rest == a + (b + (c + (d + (e + rest)))),
{
    assert(a + b + c + d + e + rest =~= a + (b + (c + (d + (e + rest)))));
}

proof fn lemma_clocks_in_front(a: TimeOfDay, after_a: Seq<char>, b: TimeOfDay, after_b: Seq<char>)
    requires
        a.is_valid(),
        b.is_valid(),
        clock_and(a, after_a) == clock_and(b, after_b),
    ensures
        a == b,
        after_a == after_b,
{
    let a6 = crate::text::zero_padded(a.second as nat, 2) + after_a;
    let b6 = crate::text::zero_padded(b.second as nat, 2) + after_b;
    let a5 = crate::text::zero_padded(a.minute as nat, 2) + (":"@ + a6);
    let b5 = crate::text::zero_padded(b.minute as nat, 2) + (":"@ + b6);
    lemma_two_digits_in_front(a.hour as nat, ":"@ + a5, b.hour as nat, ":"@ + b5);
    crate::log_line::lemma_same_cut(":"@, a5, ":"@, b5);
    lemma_two_digits_in_front(a.minute as nat, ":"@ + a6, b.minute as nat, ":"@ + b6);
    crate::log_line::lemma_same_cut(":"@, a6, ":"@, b6);
    lemma_two_digits_in_front(a.second as nat, after_a, b.second as nat, after_b);
}

/// A number and a full stop in front.
proof fn lemma_number_and_stop(a: nat, after_a: Seq<char>, b: nat, after_b: Seq<char>)
    requires
        crate::text::decimal(a) + ("."@ + after_a) == crate::text::decimal(b) + ("."@ + after_b),
    ensures
        a == b,
        after_a == after_b,
{
    reveal_strlit(".");
    crate::text::law_numerals_in_front_are_told_apart(a, "."@ + after_a, b, "."@ + after_b);
    crate::log_line::lemma_same_cut("."@, after_a, "."@, after_b);
}

/// A year and a blank in front.
proof fn lemma_year_and_blank(a: int, after_a: Seq<char>, b: int, after_b: Seq<char>)
    requires
        crate::text::signed_decimal(a) + (" "@ + after_a) == crate::text::signed_decimal(b) + (" "@
            + after_b),
    ensures
        a == b,
        after_a == after_b,
{
    reveal_strlit(" ");
    lemma_signed_run(a);
    lemma_signed_run(b);
    crate::log_line::lemma_run_ends_once(
        signed_class(),
        crate::text::signed_decimal(a),
        " "@ + after_a,
        crate::text::signed_decimal(b),
        " "@ + after_b,
    );
    crate::text::law_signed_numerals_are_told_apart(a, b);
    crate::log_line::lemma_same_cut(" "@, after_a, " "@, after_b);
}

/// A text that starts with a written time tells which time it is, and where it ends.
pub proof fn law_times_in_front_are_told_apart(
    date: Date,
    time: TimeOfDay,
    after: Seq<char>,
    other_date: Date,
    other_time: TimeOfDay,
    other_after: Seq<char>,
)
    requires
        date.is_valid(),
        time.is_valid(),
        other_date.is_valid(),
        other_time.is_valid(),
        timestamp_text(date, time) + after == timestamp_text(other_date, other_time) + other_after,
    ensures
        date == other_date,
        time == other_time,
        after == other_after,
{
    let a4 = clock_and(time, after);
    let b4 = clock_and(other_time, other_after);
    let a3 = crate::text::signed_decimal(date.year as int) + (" "@ + a4);
    let b3 = crate::text::signed_decimal(other_date.year as int) + (" "@ + b4);
    let a2 = crate::text::decimal(date.month as nat) + ("."@ + a3);
    let b2 = crate::text::decimal(other_date.month as nat) + ("."@ + b3);
    lemma_written_time(date, time, after);
    lemma_written_time(other_date, other_time, other_after);
    lemma_number_and_stop(date.day as nat, a2, other_date.day as nat, b2);
    lemma_number_and_stop(date.month as nat, a3, other_date.month as nat, b3);
    lemma_year_and_blank(date.year as int, a4, other_date.year as int, b4);
    lemma_clocks_in_front(time, after, other_time, other_after);
}

/// The label of a time on the axis has five characters: the hour, a colon and the minute.
pub proof fn law_axis_times_read_back(time: TimeOfDay)
    requires
        time.is_valid(),
    ensures
        axis_time_text(time).len() == 5,
        crate::text::is_numeral(axis_time_text(time).take(2)),
        crate::text::numeral_value(axis_time_text(time).take(2)) == time.hour,
        axis_time_text(time)[2] == ':',
        crate::text::is_numeral(axis_time_text(time).skip(3)),
        crate::text::numeral_value(axis_time_text(time).skip(3)) == time.minute,
{
    reveal_strlit(":");
    crate::text::lemma_decimal_length(time.hour as nat);
    crate::text::lemma_decimal_length(time.minute as nat);
    crate::text::law_padded_numerals_read_back(time.hour as nat, 2);
    crate::text::law_padded_numerals_read_back(time.minute as nat, 2);
    assert(axis_time_text(time).take(2) =~= crate::text::zero_padded(time.hour as nat, 2));
    assert(axis_time_text(time).skip(3) =~= crate::text::zero_padded(time.minute as nat, 2));
}

/// Hours, minutes and seconds are written as what they make up: those that are zero in front are
/// left out, and the seconds always stand.
pub proof fn law_durations_are_written_by_their_units(hours: nat, minutes: nat, rest: nat)
    requires
        minutes < 60,
        rest < 60,
    ensures
        ({
            let text = duration_text(3600 * hours + 60 * minutes + rest);
            let h = crate::text::decimal(hours);
            let m = crate::text::decimal(minutes);
            let s = crate::text::decimal(rest);
            &&& hours > 0 ==> text == h + "h "@ + m + "m "@ + s + "s"@
            &&& hours == 0 && minutes > 0 ==> text == m + "m "@ + s + "s"@
            &&& hours == 0 && minutes == 0 ==> text == s + "s"@
        }),
{
    let total = 3600 * hours + 60 * minutes + rest;
    assert(total / 3600 == hours && total % 3600 == 60 * minutes + rest);
    assert(total % 3600 / 60 == minutes && total % 60 == rest) by {
        assert(total == 60 * (60 * hours + minutes) + rest);
    }
    let h = crate::text::decimal(hours);
    let m = crate::text::decimal(minutes);
    let s = crate::text::decimal(rest);
    assert((h + "h "@) + (m + "m "@) + (s + "s"@) =~= h + "h "@ + m + "m "@ + s + "s"@);
    assert((m + "m "@) + (s + "s"@) =~= m + "m "@ + s + "s"@);
}

/// A text that starts with a written duration tells which one it is, and where it ends.
pub proof fn law_durations_in_front_are_told_apart(
    a: nat,
    after_a: Seq<char>,
    b: nat,
    after_b: Seq<char>,
)
    requires
        duration_text(a) + after_a == duration_text(b) + after_b,
    ensures
        a == b,
        after_a == after_b,
{
    reveal_strlit("h ");
    reveal_strlit("m ");
    reveal_strlit("s");
    let sa = crate::text::decimal(a % 60) + ("s"@ + after_a);
    let sb = crate::text::decimal(b % 60) + ("s"@ + after_b);
    let ma = crate::text::decimal(a % 3600 / 60) + ("m "@ + sa);
    let mb = crate::text::decimal(b % 3600 / 60) + ("m "@ + sb);
    let (na, ra) = lemma_first_unit(a, after_a);
    let (nb, rb) = lemma_first_unit(b, after_b);
    crate::text::law_numerals_in_front_are_told_apart(na, ra, nb, rb);
    assert(ra[0] == rb[0]);
    if a >= 3600 {
        assert(b >= 3600);
        crate::log_line::lemma_same_cut("h "@, ma, "h "@, mb);
        crate::text::law_numerals_in_front_are_told_apart(
            a % 3600 / 60,
            "m "@ + sa,
            b % 3600 / 60,
            "m "@ + sb,
        );
    }
    if a >= 60 {
        assert(b >= 60);
        crate::log_line::lemma_same_cut("m "@, sa, "m "@, sb);
        crate::text::law_numerals_in_front_are_told_apart(
            a % 60,
            "s"@ + after_a,
            b % 60,
            "s"@ + after_b,
        );
    }
    crate::log_line::lemma_same_cut("s"@, after_a, "s"@, after_b);
    lemma_units_make_up(a);
    lemma_units_make_up(b);
}

proof fn lemma_units_make_up(n: nat)
    ensures
        n == 3600 * (n / 3600) + 60 * (n % 3600 / 60) + n % 60,
        n < 3600 ==> n / 3600 == 0,
        n < 60 ==> n % 3600 / 60 == 0,
{
    assert(n % 3600 % 60 == n % 60);
}

/// The first number of a written duration, and what follows it.
proof fn lemma_first_unit(n: nat, after: Seq<char>) -> (cut: (nat, Seq<char>))
    ensures
        duration_text(n) + after == crate::text::decimal(cut.0) + cut.1,
        ({
            let s = crate::text::decimal(n % 60) + ("s"@ + after);
            let m = crate::text::decimal(n % 3600 / 60) + ("m "@ + s);
            &&& n >= 3600 ==> cut == (n / 3600, "h "@ + m)
            &&& 60 <= n < 3600 ==> cut == (n % 3600 / 60, "m "@ + s)
            &&& n < 60 ==> cut == (n % 60, "s"@ + after)
        }),
{
    let s = crate::text::decimal(n % 60) + ("s"@ + after);
    let m = crate::text::decimal(n % 3600 / 60) + ("m "@ + s);
    let h = crate::text::decimal(n / 3600) + ("h "@ + m);
    if n >= 3600 {
        assert(duration_text(n) + after =~= h);
        (n / 3600, "h "@ + m)
    } else if n >= 60 {
        assert(duration_text(n) + after =~= m);
        (n % 3600 / 60, "m "@ + s)
    } else {
        assert(duration_text(n) + after =~= s);
        (n % 60, "s"@ + after)
    }
}

/// A written time starts with the day and the month, each before a full stop, goes on with the year,
/// and ends with a blank and the time of day in eight characters.
pub proof fn law_times_are_written_in_order(date: Date, time: TimeOfDay)
    requires
        date.is_valid(),
        time.is_valid(),
    ensures
        ({
            let text = timestamp_text(date, time);
            let end = text.len() as int;
            let front = crate::text::decimal(date.day as nat) + "."@ + crate::text::decimal(
                date.month as nat,
            ) + "."@;
            &&& end >= front.len() + 10
            &&& text.take(front.len() as int) == front
            &&& text.subrange(front.len() as int, end - 9) == crate::text::signed_decimal(
                date.year as int,
            )
            &&& text[end - 9] == ' '
            &&& crate::text::numeral_value(text.subrange(end - 8, end - 6)) == time.hour
            &&& text[end - 6] == ':'
            &&& crate::text::numeral_value(text.subrange(end - 5, end - 3)) == time.minute
            &&& text[end - 3] == ':'
            &&& crate::text::numeral_value(text.skip(end - 2)) == time.second
        }),
{
    let y = crate::text::signed_decimal(date.year as int);
    let h = crate::text::zero_padded(time.hour as nat, 2);
    let m = crate::text::zero_padded(time.minute as nat, 2);
    let s = crate::text::zero_padded(time.second as nat, 2);
    crate::text::lemma_decimal_length(time.hour as nat);
    crate::text::lemma_decimal_length(time.minute as nat);
    crate::text::lemma_decimal_length(time.second as nat);
    crate::text::law_padded_numerals_read_back(time.hour as nat, 2);
    crate::text::law_padded_numerals_read_back(time.minute as nat, 2);
    crate::text::law_padded_numerals_read_back(time.second as nat, 2);
    crate::text::law_signed_decimal_reads_back(date.year as int);
    lemma_cuts_of_a_time(
        crate::text::decimal(date.day as nat) + "."@ + crate::text::decimal(date.month as nat)
            + "."@,
        y,
        h,
        m,
        s,
    );
}

proof fn lemma_cuts_of_a_time(
    front: Seq<char>,
    y: Seq<char>,
    h: Seq<char>,
    m: Seq<char>,
    s: Seq<char>,
)
    requires
        h.len() == 2,
        m.len() == 2,
        s.len() == 2,
    ensures
        ({
            let text = front + y + " "@ + h + ":"@ + m + ":"@ + s;
            let end = text.len() as int;
            &&& end == front.len() + y.len() + 9
            &&& text.take(front.len() as int) == front
            &&& text.subrange(front.len() as int, end - 9) == y
            &&& text[end - 9] == ' '
            &&& text.subrange(end - 8, end - 6) == h
            &&& text[end - 6] == ':'
            &&& text.subrange(end - 5, end - 3) == m
            &&& text[end - 3] == ':'
            &&& text.skip(end - 2) == s
        }),
{
    reveal_strlit(" ");
    reveal_strlit(":");
    let text = front + y + " "@ + h + ":"@ + m + ":"@ + s;
    let end = text.len() as int;
    assert(text.take(front.len() as int) =~= front);
    assert(text.subrange(front.len() as int, end - 9) =~= y);
    assert(text.subrange(end - 8, end - 6) =~= h);
    assert(text.subrange(end - 5, end - 3) =~= m);
    assert(text.skip(end - 2) =~= s);
}

} // verus!
