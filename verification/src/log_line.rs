//! Log lines that report a place in the queue: how they are read, and how they are written.
use crate::calendar::{Date, TimeOfDay};
use crate::position::Position;
use crate::text::{decimal, is_numeral, numeral_value, parse_short_numeral, push_decimal};
use crate::timestamp::{Timestamp, format_timestamp, timestamp_text};
use vstd::prelude::*;

verus! {

/// The shape of a line that reports a place in the queue, as a pattern of the `regex` crate.
pub const QUEUE_LINE_PATTERN: &'static str =
    r"^(?P<day>\d{1,2})\.(?P<month>\d{1,2})\.(?P<year>\d{4})\s+(?P<hour>\d{1,2}):(?P<minute>\d{2}):(?P<second>\d{2}).*?position:\s*(?P<position>\d+)";

/// White space: what `\s` stands for in a pattern.
pub open spec fn white_space(c: char) -> bool {
    ||| '\t' <= c <= '\r'
    ||| c == ' '
    ||| c == '\u{85}'
    ||| c == '\u{a0}'
    ||| c == '\u{1680}'
    ||| '\u{2000}' <= c <= '\u{200a}'
    ||| '\u{2028}' <= c <= '\u{2029}'
    ||| c == '\u{202f}'
    ||| c == '\u{205f}'
    ||| c == '\u{3000}'
}

/// The decimal digits of the scripts beyond ASCII.
#[verifier::opaque]
pub open spec fn foreign_digit(c: char) -> bool {
    ||| '\u{660}' <= c <= '\u{669}'
    ||| '\u{6f0}' <= c <= '\u{6f9}'
    ||| '\u{7c0}' <= c <= '\u{7c9}'
    ||| '\u{966}' <= c <= '\u{96f}'
    ||| '\u{9e6}' <= c <= '\u{9ef}'
    ||| '\u{a66}' <= c <= '\u{a6f}'
    ||| '\u{ae6}' <= c <= '\u{aef}'
    ||| '\u{b66}' <= c <= '\u{b6f}'
    ||| '\u{be6}' <= c <= '\u{bef}'
    ||| '\u{c66}' <= c <= '\u{c6f}'
    ||| '\u{ce6}' <= c <= '\u{cef}'
    ||| '\u{d66}' <= c <= '\u{d6f}'
    ||| '\u{de6}' <= c <= '\u{def}'
    ||| '\u{e50}' <= c <= '\u{e59}'
    ||| '\u{ed0}' <= c <= '\u{ed9}'
    ||| '\u{f20}' <= c <= '\u{f29}'
    ||| '\u{1040}' <= c <= '\u{1049}'
    ||| '\u{1090}' <= c <= '\u{1099}'
    ||| '\u{17e0}' <= c <= '\u{17e9}'
    ||| '\u{1810}' <= c <= '\u{1819}'
    ||| '\u{1946}' <= c <= '\u{194f}'
    ||| '\u{19d0}' <= c <= '\u{19d9}'
    ||| '\u{1a80}' <= c <= '\u{1a89}'
    ||| '\u{1a90}' <= c <= '\u{1a99}'
    ||| '\u{1b50}' <= c <= '\u{1b59}'
    ||| '\u{1bb0}' <= c <= '\u{1bb9}'
    ||| '\u{1c40}' <= c <= '\u{1c49}'
    ||| '\u{1c50}' <= c <= '\u{1c59}'
    ||| '\u{a620}' <= c <= '\u{a629}'
    ||| '\u{a8d0}' <= c <= '\u{a8d9}'
    ||| '\u{a900}' <= c <= '\u{a909}'
    ||| '\u{a9d0}' <= c <= '\u{a9d9}'
    ||| '\u{a9f0}' <= c <= '\u{a9f9}'
    ||| '\u{aa50}' <= c <= '\u{aa59}'
    ||| '\u{abf0}' <= c <= '\u{abf9}'
    ||| '\u{ff10}' <= c <= '\u{ff19}'
    ||| '\u{104a0}' <= c <= '\u{104a9}'
    ||| '\u{10d30}' <= c <= '\u{10d39}'
    ||| '\u{10d40}' <= c <= '\u{10d49}'
    ||| '\u{11066}' <= c <= '\u{1106f}'
    ||| '\u{110f0}' <= c <= '\u{110f9}'
    ||| '\u{11136}' <= c <= '\u{1113f}'
    ||| '\u{111d0}' <= c <= '\u{111d9}'
    ||| '\u{112f0}' <= c <= '\u{112f9}'
    ||| '\u{11450}' <= c <= '\u{11459}'
    ||| '\u{114d0}' <= c <= '\u{114d9}'
    ||| '\u{11650}' <= c <= '\u{11659}'
    ||| '\u{116c0}' <= c <= '\u{116c9}'
    ||| '\u{116d0}' <= c <= '\u{116e3}'
    ||| '\u{11730}' <= c <= '\u{11739}'
    ||| '\u{118e0}' <= c <= '\u{118e9}'
    ||| '\u{11950}' <= c <= '\u{11959}'
    ||| '\u{11bf0}' <= c <= '\u{11bf9}'
    ||| '\u{11c50}' <= c <= '\u{11c59}'
    ||| '\u{11d50}' <= c <= '\u{11d59}'
    ||| '\u{11da0}' <= c <= '\u{11da9}'
    ||| '\u{11f50}' <= c <= '\u{11f59}'
    ||| '\u{16130}' <= c <= '\u{16139}'
    ||| '\u{16a60}' <= c <= '\u{16a69}'
    ||| '\u{16ac0}' <= c <= '\u{16ac9}'
    ||| '\u{16b50}' <= c <= '\u{16b59}'
    ||| '\u{16d70}' <= c <= '\u{16d79}'
    ||| '\u{1ccf0}' <= c <= '\u{1ccf9}'
    ||| '\u{1d7ce}' <= c <= '\u{1d7ff}'
    ||| '\u{1e140}' <= c <= '\u{1e149}'
    ||| '\u{1e2f0}' <= c <= '\u{1e2f9}'
    ||| '\u{1e4f0}' <= c <= '\u{1e4f9}'
    ||| '\u{1e5f1}' <= c <= '\u{1e5fa}'
    ||| '\u{1e950}' <= c <= '\u{1e959}'
    ||| '\u{1fbf0}' <= c <= '\u{1fbf9}'
}

/// A decimal digit of any script: what `\d` stands for in a pattern.
pub open spec fn decimal_digit(c: char) -> bool {
    crate::text::is_digit(c) || foreign_digit(c)
}

/// The class of the decimal digits.
pub open spec fn digit_class() -> spec_fn(char) -> bool {
    |c: char| decimal_digit(c)
}

/// The class of the white space.
pub open spec fn blank_class() -> spec_fn(char) -> bool {
    |c: char| white_space(c)
}

/// Whether `text` is made of characters of a class.
pub open spec fn all_in(class: spec_fn(char) -> bool, text: Seq<char>) -> bool {
    forall|i: int| 0 <= i < text.len() ==> class(#[trigger] text[i])
}

/// The parts of a line that reports a place in the queue.
pub struct QueueLine {
    pub day: Seq<char>,
    pub month: Seq<char>,
    pub year: Seq<char>,
    pub blank: Seq<char>,
    pub hour: Seq<char>,
    pub minute: Seq<char>,
    pub second: Seq<char>,
    pub gap: Seq<char>,
    pub pad: Seq<char>,
    pub position: Seq<char>,
    pub rest: Seq<char>,
}

impl QueueLine {
    /// What follows the time of day.
    pub open spec fn tail(self) -> Seq<char> {
        self.gap + ("position:"@ + (self.pad + (self.position + self.rest)))
    }

    /// The time of day and what follows it.
    pub open spec fn time_and_tail(self) -> Seq<char> {
        self.hour + (":"@ + (self.minute + (":"@ + (self.second + self.tail()))))
    }

    /// The line that the parts make up.
    pub open spec fn text(self) -> Seq<char> {
        self.day + ("."@ + (self.month + ("."@ + (self.year + (self.blank
            + self.time_and_tail())))))
    }

    /// Each part is made of the characters that the pattern asks for at its place, and of as
    /// many of them.
    pub open spec fn is_shaped(self) -> bool {
        &&& all_in(digit_class(), self.day) && 1 <= self.day.len() <= 2
        &&& all_in(digit_class(), self.month) && 1 <= self.month.len() <= 2
        &&& all_in(digit_class(), self.year) && self.year.len() == 4
        &&& all_in(blank_class(), self.blank) && self.blank.len() >= 1
        &&& all_in(digit_class(), self.hour) && 1 <= self.hour.len() <= 2
        &&& all_in(digit_class(), self.minute) && self.minute.len() == 2
        &&& all_in(digit_class(), self.second) && self.second.len() == 2
        &&& !self.gap.contains('\n')
        &&& all_in(blank_class(), self.pad)
        &&& all_in(digit_class(), self.position) && self.position.len() >= 1
    }
}

/// Whether a line can be taken apart as `parts`.
pub open spec fn spells(line: Seq<char>, parts: QueueLine) -> bool {
    parts.is_shaped() && parts.text() == line
}

/// Whether `parts` are those that the pattern finds in a line: of all the ways to take the line
/// apart one with the shortest gap, and with all the digits that the position can have.
pub open spec fn finds(line: Seq<char>, parts: QueueLine) -> bool {
    &&& spells(line, parts)
    &&& forall|other: QueueLine| #[trigger] spells(line, other) ==> parts.gap.len() <= other.gap.len()
    &&& parts.rest.len() > 0 ==> !decimal_digit(parts.rest[0])
}

/// The numbers that a line gives, as the line writes them.
#[derive(Debug)]
pub struct LineFields {
    pub day: String,
    pub month: String,
    pub year: String,
    pub hour: String,
    pub minute: String,
    pub second: String,
    pub position: String,
}

impl LineFields {
    /// The fields are those of `parts`.
    pub open spec fn come_from(self, parts: QueueLine) -> bool {
        &&& self.day@ == parts.day
        &&& self.month@ == parts.month
        &&& self.year@ == parts.year
        &&& self.hour@ == parts.hour
        &&& self.minute@ == parts.minute
        &&& self.second@ == parts.second
        &&& self.position@ == parts.position
    }
}

/// `regex::Regex::captures` of `QUEUE_LINE_PATTERN`, which `regex::Regex::new` compiles.
///
/// The claim spells out the pattern by the syntax that the crate documents: `\d` is a decimal
/// digit and `\s` is white space of any script, `.` is all but a line feed, `^` is the start of
/// the line; `*?` takes as few characters as it can, `*` and `+` as many as they can.
#[verifier::external_body]
fn regex_captures(pattern: &str, line: &str) -> (fields: Option<LineFields>)
    requires
        pattern@ == QUEUE_LINE_PATTERN@,
    ensures
        fields is None ==> forall|parts: QueueLine| !#[trigger] spells(line@, parts),
        fields matches Some(f) ==> exists|parts: QueueLine|
            #[trigger] finds(line@, parts) && f.come_from(parts),
{
    let regex = regex::Regex::new(pattern).expect("the pattern is well formed");
    let found = regex.captures(line)?;
    Some(LineFields {
        day: found.name("day")?.as_str().to_string(),
        month: found.name("month")?.as_str().to_string(),
        year: found.name("year")?.as_str().to_string(),
        hour: found.name("hour")?.as_str().to_string(),
        minute: found.name("minute")?.as_str().to_string(),
        second: found.name("second")?.as_str().to_string(),
        position: found.name("position")?.as_str().to_string(),
    })
}

/// A place in the queue, and when it was reported.
#[derive(Debug)]
pub struct QueueSample {
    pub timestamp: Timestamp,
    pub position: Position,
}

/// What a line reports.
pub struct Report {
    pub date: Date,
    pub time: TimeOfDay,
    pub position: nat,
}

impl QueueSample {
    /// The sample is what a line reports.
    pub open spec fn is_of(self, report: Report) -> bool {
        &&& self.timestamp.is_valid()
        &&& self.timestamp.day_number() == report.date.number()
        &&& self.timestamp.second_number() == report.time.number()
        &&& self.timestamp.subsecond() == 0
        &&& self.position@ == report.position
    }

    /// The two samples agree.
    pub open spec fn same_as(self, other: QueueSample) -> bool {
        self.timestamp == other.timestamp && self.position@ == other.position@
    }
}

impl Clone for QueueSample {
    fn clone(&self) -> (copy: QueueSample)
        ensures
            copy.same_as(*self),
    {
        QueueSample { timestamp: self.timestamp, position: self.position.clone() }
    }
}

/// What the seven fields of a line report: nothing unless they are digits of ASCII and name a
/// day and a second that exist.
pub open spec fn report_of(
    day: Seq<char>,
    month: Seq<char>,
    year: Seq<char>,
    hour: Seq<char>,
    minute: Seq<char>,
    second: Seq<char>,
    position: Seq<char>,
) -> Option<Report> {
    let date = Date {
        year: numeral_value(year) as i32,
        month: numeral_value(month) as u32,
        day: numeral_value(day) as u32,
    };
    let time = TimeOfDay {
        hour: numeral_value(hour) as u32,
        minute: numeral_value(minute) as u32,
        second: numeral_value(second) as u32,
    };
    if is_numeral(day) && is_numeral(month) && is_numeral(year) && is_numeral(hour) && is_numeral(
        minute,
    ) && is_numeral(second) && is_numeral(position) && date.is_valid() && time.is_valid() {
        Some(Report { date, time, position: numeral_value(position) })
    } else {
        None
    }
}

/// What a line reports, if it reports anything.
pub open spec fn line_report(line: Seq<char>) -> Option<Report> {
    if exists|parts: QueueLine| finds(line, parts) {
        let parts = choose|parts: QueueLine| finds(line, parts);
        report_of(
            parts.day,
            parts.month,
            parts.year,
            parts.hour,
            parts.minute,
            parts.second,
            parts.position,
        )
    } else {
        None
    }
}

/// Reads the fields of a line.
pub fn read_fields(fields: &LineFields) -> (sample: Option<QueueSample>)
    requires
        fields.day@.len() <= 9,
        fields.month@.len() <= 9,
        fields.year@.len() <= 9,
        fields.hour@.len() <= 9,
        fields.minute@.len() <= 9,
        fields.second@.len() <= 9,
    ensures
        match report_of(
            fields.day@,
            fields.month@,
            fields.year@,
            fields.hour@,
            fields.minute@,
            fields.second@,
            fields.position@,
        ) {
            Some(report) => sample matches Some(s) && s.is_of(report),
            None => sample is None,
        },
{
    let day = parse_short_numeral(&fields.day)?;
    let month = parse_short_numeral(&fields.month)?;
    let year = parse_short_numeral(&fields.year)?;
    let hour = parse_short_numeral(&fields.hour)?;
    let minute = parse_short_numeral(&fields.minute)?;
    let second = parse_short_numeral(&fields.second)?;
    let position = Position::parse(&fields.position)?;
    let timestamp = Timestamp::at(
        Date { year: year as i32, month, day },
        TimeOfDay { hour, minute, second },
    )?;
    Some(QueueSample { timestamp, position })
}

/// Whether the word that announces the place stands at some index of a line.
pub open spec fn announces_at(line: Seq<char>, at: int) -> bool {
    0 <= at && at + 9 <= line.len() && line.subrange(at, at + 9) == "position:"@
}

/// Whether the word that announces the place stands anywhere in a line.
fn announces_position(line: &str) -> (found: bool)
    ensures
        found == exists|at: int| announces_at(line@, at),
{
    let mut chars: Vec<char> = Vec::new();
    for c in it: line.chars()
        invariant
            it.seq() == line@,
            chars@ == line@.take(it.index() as int),
    {
        chars.push(c);
        assert(chars@ =~= line@.take(it.index() + 1));
    }
    assert(chars@ =~= line@);
    proof {
        reveal_strlit("position:");
    }
    let mut at: usize = 0;
    while chars.len() - at >= 9
        invariant
            at <= chars@.len(),
            chars@ == line@,
            "position:"@ == seq!['p', 'o', 's', 'i', 't', 'i', 'o', 'n', ':'],
            forall|before: int| 0 <= before < at ==> !announces_at(line@, before),
        decreases chars@.len() - at,
    {
        if chars[at] == 'p' && chars[at + 1] == 'o' && chars[at + 2] == 's' && chars[at + 3] == 'i'
            && chars[at + 4] == 't' && chars[at + 5] == 'i' && chars[at + 6] == 'o' && chars[at + 7]
            == 'n' && chars[at + 8] == ':' {
            assert(line@.subrange(at as int, at + 9) =~= "position:"@);
            assert(announces_at(line@, at as int));
            return true;
        }
        proof {
            if announces_at(line@, at as int) {
                let word = line@.subrange(at as int, at + 9);
                assert(word[0] == line@[at as int] && word[1] == line@[at + 1] && word[2]
                    == line@[at + 2] && word[3] == line@[at + 3] && word[4] == line@[at + 4] && word[5]
                    == line@[at + 5] && word[6] == line@[at + 6] && word[7] == line@[at + 7] && word[8]
                    == line@[at + 8]);
            }
        }
        at = at + 1;
    }
    false
}

/// Reads a line of the log: `Some` exactly where it reports a place in the queue. To compile the
/// pattern takes much longer than to search a line, so most lines are sorted out before.
pub fn parse_queue_sample(line: &str) -> (sample: Option<QueueSample>)
    ensures
        match line_report(line@) {
            Some(report) => sample matches Some(s) && s.is_of(report),
            None => sample is None,
        },
{
    if !announces_position(line) {
        assert forall|parts: QueueLine| !finds(line@, parts) by {
            if spells(line@, parts) {
                lemma_line_announces_position(line@, parts);
            }
        }
        return None;
    }
    match regex_captures(QUEUE_LINE_PATTERN, line) {
        Some(fields) => {
            proof {
                let parts = choose|parts: QueueLine| #[trigger]
                    finds(line@, parts) && fields.come_from(parts);
                let chosen = choose|parts: QueueLine| finds(line@, parts);
                law_one_way_to_read(line@, parts, chosen);
            }
            read_fields(&fields)
        },
        None => {
            assert forall|parts: QueueLine| !finds(line@, parts) by {
                assert(!spells(line@, parts));
            }
            None
        },
    }
}

/// What a line says between its time and the place.
pub const QUEUE_NOTICE: &'static str =
    " [Client Notification] Client is in connect queue at position: ";

/// The line that reports a place at a time.
pub open spec fn queue_line_text(date: Date, time: TimeOfDay, position: nat) -> Seq<char> {
    timestamp_text(date, time) + QUEUE_NOTICE@ + decimal(position)
}

/// Writes a line that reports a place in the queue.
pub fn queue_line(timestamp: &Timestamp, position: u32) -> (line: String)
    ensures
        line@ == queue_line_text(timestamp.spec_date(), timestamp.spec_time(), position as nat),
{
    let mut line = format_timestamp(timestamp);
    line.append(QUEUE_NOTICE);
    push_decimal(&mut line, position as u64);
    line
}

/// A text that goes on with no character of the class, so that a run of the class ends there.
pub open spec fn stops(class: spec_fn(char) -> bool, text: Seq<char>) -> bool {
    text.len() > 0 ==> !class(text[0])
}

/// A text is cut in one way only into a run of a class and what follows the run.
pub proof fn lemma_run_ends_once(
    class: spec_fn(char) -> bool,
    run1: Seq<char>,
    rest1: Seq<char>,
    run2: Seq<char>,
    rest2: Seq<char>,
)
    requires
        run1 + rest1 == run2 + rest2,
        all_in(class, run1),
        all_in(class, run2),
        stops(class, rest1),
        stops(class, rest2),
    ensures
        run1 == run2,
        rest1 == rest2,
{
    let whole1 = run1 + rest1;
    let whole2 = run2 + rest2;
    if run1.len() < run2.len() {
        assert(whole1[run1.len() as int] == rest1[0]);
        assert(whole2[run1.len() as int] == run2[run1.len() as int]);
    }
    if run2.len() < run1.len() {
        assert(whole2[run2.len() as int] == rest2[0]);
        assert(whole1[run2.len() as int] == run1[run2.len() as int]);
    }
    lemma_same_cut(run1, rest1, run2, rest2);
}

/// Two ways to cut a text at one place give the same pieces.
pub proof fn lemma_same_cut(
    front1: Seq<char>,
    back1: Seq<char>,
    front2: Seq<char>,
    back2: Seq<char>,
)
    requires
        front1 + back1 == front2 + back2,
        front1.len() == front2.len(),
    ensures
        front1 == front2,
        back1 == back2,
{
    let whole = front1 + back1;
    assert(front1 =~= whole.take(front1.len() as int));
    assert(front2 =~= whole.take(front1.len() as int));
    assert(back1 =~= whole.skip(front1.len() as int));
    assert(back2 =~= whole.skip(front1.len() as int));
}

/// Digits of any script are neither ASCII punctuation nor white space.
proof fn lemma_digit_class(c: char)
    ensures
        decimal_digit(c) ==> c != '.' && c != ':' && c != '\n' && !white_space(c),
        c <= '\u{7f}' ==> (decimal_digit(c) <==> crate::text::is_digit(c)),
{
    reveal(foreign_digit);
}

/// A line that can be taken apart announces the place.
proof fn lemma_line_announces_position(line: Seq<char>, parts: QueueLine)
    requires
        spells(line, parts),
    ensures
        exists|at: int| announces_at(line, at),
{
    reveal_strlit("position:");
    let front = parts.day + "."@ + parts.month + "."@ + parts.year + parts.blank + parts.hour + ":"@
        + parts.minute + ":"@ + parts.second + parts.gap;
    let back = parts.pad + parts.position + parts.rest;
    assert(line =~= front + ("position:"@ + back));
    let at = front.len() as int;
    assert(line.subrange(at, at + 9) =~= "position:"@);
    assert(announces_at(line, at));
}

/// All ways to take a line apart agree on the date and the time.
proof fn lemma_one_date_and_time(line: Seq<char>, a: QueueLine, b: QueueLine)
    requires
        spells(line, a),
        spells(line, b),
    ensures
        a.day == b.day,
        a.month == b.month,
        a.year == b.year,
        a.blank == b.blank,
        a.hour == b.hour,
        a.minute == b.minute,
        a.second == b.second,
        a.tail() == b.tail(),
{
    reveal_strlit(".");
    reveal_strlit(":");
    lemma_digit_class('.');
    lemma_digit_class(':');
    lemma_digit_class(a.hour[0]);
    lemma_digit_class(b.hour[0]);
    let a5 = a.second + a.tail();
    let b5 = b.second + b.tail();
    let a4 = a.minute + (":"@ + a5);
    let b4 = b.minute + (":"@ + b5);
    let a3 = a.year + (a.blank + a.time_and_tail());
    let b3 = b.year + (b.blank + b.time_and_tail());
    let a2 = a.month + ("."@ + a3);
    let b2 = b.month + ("."@ + b3);
    lemma_run_ends_once(digit_class(), a.day, "."@ + a2, b.day, "."@ + b2);
    lemma_same_cut("."@, a2, "."@, b2);
    lemma_run_ends_once(digit_class(), a.month, "."@ + a3, b.month, "."@ + b3);
    lemma_same_cut("."@, a3, "."@, b3);
    lemma_same_cut(a.year, a.blank + a.time_and_tail(), b.year, b.blank + b.time_and_tail());
    assert(a.time_and_tail()[0] == a.hour[0]);
    assert(b.time_and_tail()[0] == b.hour[0]);
    lemma_run_ends_once(blank_class(), a.blank, a.time_and_tail(), b.blank, b.time_and_tail());
    lemma_run_ends_once(digit_class(), a.hour, ":"@ + a4, b.hour, ":"@ + b4);
    lemma_same_cut(":"@, a4, ":"@, b4);
    lemma_same_cut(a.minute, ":"@ + a5, b.minute, ":"@ + b5);
    lemma_same_cut(":"@, a5, ":"@, b5);
    lemma_same_cut(a.second, a.tail(), b.second, b.tail());
}

/// There is one way to read a line at most.
pub proof fn law_one_way_to_read(line: Seq<char>, a: QueueLine, b: QueueLine)
    requires
        finds(line, a),
        finds(line, b),
    ensures
        a == b,
{
    lemma_one_date_and_time(line, a, b);
    let a2 = a.position + a.rest;
    let b2 = b.position + b.rest;
    lemma_same_cut(
        a.gap,
        "position:"@ + (a.pad + a2),
        b.gap,
        "position:"@ + (b.pad + b2),
    );
    lemma_same_cut("position:"@, a.pad + a2, "position:"@, b.pad + b2);
    lemma_digit_class(a.position[0]);
    lemma_digit_class(b.position[0]);
    assert(a2[0] == a.position[0]);
    assert(b2[0] == b.position[0]);
    lemma_run_ends_once(blank_class(), a.pad, a2, b.pad, b2);
    lemma_run_ends_once(digit_class(), a.position, a.rest, b.position, b.rest);
}

/// Two digits, as a number below 100 is written.
proof fn lemma_two_digits(n: nat)
    requires
        n < 100,
    ensures
        is_numeral(crate::text::zero_padded(n, 2)),
        crate::text::zero_padded(n, 2).len() == 2,
        numeral_value(crate::text::zero_padded(n, 2)) == n,
{
    crate::text::lemma_decimal_length(n);
    crate::text::law_decimal_reads_back(n);
    crate::text::lemma_leading_zeros(crate::text::missing(decimal(n), 2), decimal(n));
}

/// The parts of a line that gives a time and a place.
spec fn parts_of(
    date: Date,
    time: TimeOfDay,
    gap: Seq<char>,
    position: nat,
    rest: Seq<char>,
) -> QueueLine {
    QueueLine {
        day: decimal(date.day as nat),
        month: decimal(date.month as nat),
        year: decimal(date.year as nat),
        blank: " "@,
        hour: crate::text::zero_padded(time.hour as nat, 2),
        minute: crate::text::zero_padded(time.minute as nat, 2),
        second: crate::text::zero_padded(time.second as nat, 2),
        gap,
        pad: " "@,
        position: decimal(position),
        rest,
    }
}

/// The parts make up the line, and give the numbers that were written.
proof fn lemma_parts_of_line(
    date: Date,
    time: TimeOfDay,
    gap: Seq<char>,
    position: nat,
    rest: Seq<char>,
)
    requires
        date.is_valid(),
        time.is_valid(),
        1000 <= date.year <= 9999,
        !gap.contains('\n'),
    ensures
        ({
            let parts = parts_of(date, time, gap, position, rest);
            &&& spells(
                timestamp_text(date, time) + gap + "position: "@ + decimal(position) + rest,
                parts,
            )
            &&& report_of(
                parts.day,
                parts.month,
                parts.year,
                parts.hour,
                parts.minute,
                parts.second,
                parts.position,
            ) == Some(Report { date, time, position })
        }),
{
    let line = timestamp_text(date, time) + gap + "position: "@ + decimal(position) + rest;
    let parts = parts_of(date, time, gap, position, rest);
    reveal_strlit(" ");
    assert("position: "@ =~= "position:"@ + " "@) by {
        reveal_strlit("position:");
        reveal_strlit("position: ");
    }
    crate::text::lemma_decimal_length(date.day as nat);
    crate::text::lemma_decimal_length(date.month as nat);
    crate::text::lemma_decimal_length(date.year as nat);
    crate::text::law_decimal_reads_back(date.day as nat);
    crate::text::law_decimal_reads_back(date.month as nat);
    crate::text::law_decimal_reads_back(date.year as nat);
    crate::text::law_decimal_reads_back(position);
    lemma_two_digits(time.hour as nat);
    lemma_two_digits(time.minute as nat);
    lemma_two_digits(time.second as nat);
    assert(line =~= parts.text());
}

/// Where the first announcement of a line follows `parts.gap`, no gap is shorter.
proof fn lemma_first_announcement(line: Seq<char>, parts: QueueLine, other: QueueLine)
    requires
        spells(line, parts),
        spells(line, other),
        forall|at: int|
            0 <= at < parts.gap.len() ==> !announces_at(parts.gap + "position:"@, at),
    ensures
        parts.gap.len() <= other.gap.len(),
{
    lemma_one_date_and_time(line, parts, other);
    let at = other.gap.len() as int;
    if at < parts.gap.len() {
        let start = parts.gap + "position:"@;
        reveal_strlit("position:");
        assert(other.tail().subrange(at, at + 9) =~= "position:"@);
        assert(start.subrange(at, at + 9) =~= parts.tail().subrange(at, at + 9));
        assert(announces_at(start, at));
    }
}

/// A line that starts with a time and announces a place is read as what it says, whatever stands
/// between the two, and whatever follows the place. The announcement is the first one of the
/// line, and the year has four digits, as the pattern asks for four.
pub proof fn law_announced_place_is_read(
    date: Date,
    time: TimeOfDay,
    gap: Seq<char>,
    position: nat,
    rest: Seq<char>,
)
    requires
        date.is_valid(),
        time.is_valid(),
        1000 <= date.year <= 9999,
        !gap.contains('\n'),
        forall|at: int| 0 <= at < gap.len() ==> !announces_at(gap + "position:"@, at),
        rest.len() > 0 ==> !decimal_digit(rest[0]),
    ensures
        line_report(
            timestamp_text(date, time) + gap + "position: "@ + decimal(position) + rest,
        ) == Some(Report { date, time, position }),
{
    let line = timestamp_text(date, time) + gap + "position: "@ + decimal(position) + rest;
    let parts = parts_of(date, time, gap, position, rest);
    lemma_parts_of_line(date, time, gap, position, rest);
    assert forall|other: QueueLine| #[trigger] spells(line, other) implies parts.gap.len()
        <= other.gap.len() by {
        lemma_first_announcement(line, parts, other);
    }
    assert(finds(line, parts));
    law_one_way_to_read(line, parts, choose|found: QueueLine| finds(line, found));
}

/// A line that is written for a place at a time reports that place at that time. The year has
/// four digits, as every line is read with four.
pub proof fn law_line_reads_back(date: Date, time: TimeOfDay, position: nat)
    requires
        date.is_valid(),
        time.is_valid(),
        1000 <= date.year <= 9999,
    ensures
        line_report(queue_line_text(date, time, position)) == Some(
            Report { date, time, position },
        ),
{
    let gap = " [Client Notification] Client is in connect queue at "@;
    let start = gap + "position:"@;
    reveal_strlit("position:");
    reveal_strlit("position: ");
    reveal_strlit(" [Client Notification] Client is in connect queue at ");
    reveal_strlit(" [Client Notification] Client is in connect queue at position: ");
    assert forall|i: int| 0 <= i < gap.len() implies gap[i] != 'p' && gap[i] != '\n' by {}
    assert forall|at: int| 0 <= at < gap.len() implies !announces_at(start, at) by {
        if announces_at(start, at) {
            assert(start.subrange(at, at + 9)[0] == gap[at]);
        }
    }
    law_announced_place_is_read(date, time, gap, position, Seq::empty());
    assert(QUEUE_NOTICE@ =~= gap + "position: "@);
    assert(queue_line_text(date, time, position) =~= timestamp_text(date, time) + gap
        + "position: "@ + decimal(position) + Seq::<char>::empty());
}

/// The value of up to four digits.
proof fn lemma_short_numeral_value(text: Seq<char>)
    requires
        is_numeral(text),
        text.len() <= 4,
    ensures
        numeral_value(text) < 10_000,
        text.len() <= 2 ==> numeral_value(text) < 100,
{
    reveal_with_fuel(numeral_value, 5);
    assert forall|i: int| 0 <= i < text.len() implies crate::text::digit_value(
        #[trigger] text[i],
    ) < 10 by {
        assert(crate::text::is_digit(text[i]));
    }
}

/// A line reports a place if and only if its seven numbers are digits of ASCII, and give a day that
/// the calendar has and a second that the clock has; it reports then what the numbers say.
pub proof fn law_reports_say_what_the_line_says(line: Seq<char>, parts: QueueLine)
    requires
        finds(line, parts),
    ensures
        line_report(line) is Some <==> {
            let year = numeral_value(parts.year) as int;
            let month = numeral_value(parts.month) as int;
            &&& is_numeral(parts.day) && is_numeral(parts.month) && is_numeral(parts.year)
            &&& is_numeral(parts.hour) && is_numeral(parts.minute) && is_numeral(parts.second)
            &&& is_numeral(parts.position)
            &&& 1 <= month <= 12
            &&& 1 <= numeral_value(parts.day) <= crate::calendar::days_in_month(year, month)
            &&& numeral_value(parts.hour) < 24
            &&& numeral_value(parts.minute) < 60
            &&& numeral_value(parts.second) < 60
        },
        line_report(line) matches Some(report) ==> {
            &&& report.date.day == numeral_value(parts.day)
            &&& report.date.month == numeral_value(parts.month)
            &&& report.date.year == numeral_value(parts.year)
            &&& report.time.hour == numeral_value(parts.hour)
            &&& report.time.minute == numeral_value(parts.minute)
            &&& report.time.second == numeral_value(parts.second)
            &&& report.position == numeral_value(parts.position)
        },
{
    law_one_way_to_read(line, parts, choose|found: QueueLine| finds(line, found));
    if is_numeral(parts.day) && is_numeral(parts.month) && is_numeral(parts.year) && is_numeral(
        parts.hour,
    ) && is_numeral(parts.minute) && is_numeral(parts.second) {
        lemma_short_numeral_value(parts.day);
        lemma_short_numeral_value(parts.month);
        lemma_short_numeral_value(parts.year);
        lemma_short_numeral_value(parts.hour);
        lemma_short_numeral_value(parts.minute);
        lemma_short_numeral_value(parts.second);
    }
}

/// A line that does not have the shape reports nothing, and a line that announces no place does not
/// have it.
pub proof fn law_other_lines_report_nothing(line: Seq<char>)
    ensures
        (forall|parts: QueueLine| !#[trigger] spells(line, parts)) ==> line_report(line) is None,
        (forall|at: int| !#[trigger] announces_at(line, at)) ==> line_report(line) is None,
{
    if line_report(line) is Some {
        let parts = choose|parts: QueueLine| finds(line, parts);
        assert(spells(line, parts));
        lemma_line_announces_position(line, parts);
    }
}

/// What follows the place of a line, and does not go on with a digit, changes nothing of what the
/// line reports.
pub proof fn law_what_follows_the_place_is_ignored(
    date: Date,
    time: TimeOfDay,
    position: nat,
    rest: Seq<char>,
)
    requires
        date.is_valid(),
        time.is_valid(),
        1000 <= date.year <= 9999,
        rest.len() > 0 ==> !decimal_digit(rest[0]),
    ensures
        line_report(timestamp_text(date, time) + "position: "@ + decimal(position) + rest)
            == line_report(timestamp_text(date, time) + "position: "@ + decimal(position)),
        line_report(timestamp_text(date, time) + "position: "@ + decimal(position)) == Some(
            Report { date, time, position },
        ),
{
    let gap = Seq::<char>::empty();
    let start = timestamp_text(date, time);
    law_announced_place_is_read(date, time, gap, position, rest);
    law_announced_place_is_read(date, time, gap, position, Seq::empty());
    assert(start + gap + "position: "@ + decimal(position) + rest =~= start + "position: "@
        + decimal(position) + rest);
    assert(start + gap + "position: "@ + decimal(position) + Seq::<char>::empty() =~= start
        + "position: "@ + decimal(position));
}

/// The sample of a report lies at the start of the second that the line gives, and has its place.
pub proof fn law_samples_have_the_time_of_their_lines(sample: QueueSample, report: Report)
    requires
        sample.is_of(report),
    ensures
        sample.timestamp.instant() == report.date.number() * 86_400_000_000_000
            + report.time.number() * 1_000_000_000,
        sample.position@ == report.position,
{
}

/// A line that is written for a place starts with its time and ends with the place, in any year, so
/// that lines tell times and places apart.
pub proof fn law_written_lines_are_told_apart(
    date: Date,
    time: TimeOfDay,
    position: nat,
    other_date: Date,
    other_time: TimeOfDay,
    other_position: nat,
)
    requires
        date.is_valid(),
        time.is_valid(),
        other_date.is_valid(),
        other_time.is_valid(),
    ensures
        crate::text::starts_with(
            queue_line_text(date, time, position),
            timestamp_text(date, time),
        ),
        crate::text::ends_with(
            queue_line_text(date, time, position),
            " [Client Notification] Client is in connect queue at position: "@ + decimal(position),
        ),
        queue_line_text(date, time, position).len() == timestamp_text(date, time).len()
            + " [Client Notification] Client is in connect queue at position: "@.len() + decimal(
            position,
        ).len(),
        queue_line_text(date, time, position) == queue_line_text(
            other_date,
            other_time,
            other_position,
        ) ==> date == other_date && time == other_time && position == other_position,
{
    let a = QUEUE_NOTICE@ + decimal(position);
    let b = QUEUE_NOTICE@ + decimal(other_position);
    let start = timestamp_text(date, time);
    let other = timestamp_text(other_date, other_time);
    crate::text::lemma_pieces_are_held(start, Seq::empty(), a);
    assert(start + Seq::empty() + a =~= queue_line_text(date, time, position));
    assert(start + a =~= queue_line_text(date, time, position));
    assert(other + b =~= queue_line_text(other_date, other_time, other_position));
    if queue_line_text(date, time, position) == queue_line_text(
        other_date,
        other_time,
        other_position,
    ) {
        crate::timestamp::law_times_in_front_are_told_apart(
            date,
            time,
            a,
            other_date,
            other_time,
            b,
        );
        lemma_same_cut(QUEUE_NOTICE@, decimal(position), QUEUE_NOTICE@, decimal(other_position));
        crate::text::law_decimal_reads_back(position);
        crate::text::law_decimal_reads_back(other_position);
    }
}

/// A line that has the shape is found to have it: of all ways to take it apart there is one with the
/// shortest gap and with all digits of the place.
pub proof fn law_shaped_lines_are_found(line: Seq<char>, parts: QueueLine)
    requires
        spells(line, parts),
    ensures
        exists|found: QueueLine| finds(line, found),
    decreases parts.gap.len(), parts.rest.len(),
{
    if exists|other: QueueLine| #[trigger] spells(line, other) && other.gap.len()
        < parts.gap.len() {
        let other = choose|other: QueueLine| #[trigger]
            spells(line, other) && other.gap.len() < parts.gap.len();
        law_shaped_lines_are_found(line, other);
    } else if parts.rest.len() > 0 && decimal_digit(parts.rest[0]) {
        let longer = QueueLine {
            position: parts.position.push(parts.rest[0]),
            rest: parts.rest.skip(1),
            ..parts
        };
        assert(longer.position + longer.rest =~= parts.position + parts.rest);
        assert(spells(line, longer));
        law_shaped_lines_are_found(line, longer);
    } else {
        assert(finds(line, parts));
    }
}

} // verus!
