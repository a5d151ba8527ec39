//! What is tracked, how it is named, and where its log goes.
use crate::text::{
    is_numeral, join, joined, numeral_value, push_signed_zero_padded, push_zero_padded, texts,
};
use crate::timestamp::Timestamp;
use vstd::prelude::*;

verus! {

/// Where the log comes from.
#[derive(Debug)]
pub enum SessionKind {
    /// A process that the tracker has launched.
    Launch { executable: String, args: Vec<String> },
    /// A log file that something else writes.
    Watch,
}

/// A character that a shell takes as it stands.
pub open spec fn is_plain(c: char) -> bool {
    ||| 'a' <= c <= 'z'
    ||| 'A' <= c <= 'Z'
    ||| '0' <= c <= '9'
    ||| c == '_'
    ||| c == '-'
    ||| c == '/'
    ||| c == '.'
    ||| c == ':'
}

/// Whether a text needs no quotes.
pub open spec fn is_plain_text(text: Seq<char>) -> bool {
    forall|i: int| 0 <= i < text.len() ==> is_plain(#[trigger] text[i])
}

/// A text as `{:?}` writes it: in double quotes, with escapes.
pub uninterp spec fn debug_text(text: Seq<char>) -> Seq<char>;

/// The character that a backslash and one more character stand for in a literal.
pub open spec fn short_escape(mark: char) -> Option<char> {
    if mark == '0' {
        Some('\0')
    } else if mark == 't' {
        Some('\t')
    } else if mark == 'n' {
        Some('\n')
    } else if mark == 'r' {
        Some('\r')
    } else if mark == '\'' || mark == '"' || mark == '\\' {
        Some(mark)
    } else {
        None
    }
}

/// The number that a hexadecimal digit stands for.
pub open spec fn hex_digit(c: char) -> Option<int> {
    if '0' <= c <= '9' {
        Some(c as int - '0' as int)
    } else if 'a' <= c <= 'f' {
        Some(c as int - 'a' as int + 10)
    } else {
        None
    }
}

/// Whether `text` is made of hexadecimal digits.
pub open spec fn is_hex(text: Seq<char>) -> bool {
    forall|i: int| 0 <= i < text.len() ==> hex_digit(#[trigger] text[i]) is Some
}

/// The number that hexadecimal digits stand for.
pub open spec fn hex_value(text: Seq<char>) -> int
    decreases text.len(),
{
    if text.len() == 0 {
        0
    } else {
        16 * hex_value(text.drop_last()) + hex_digit(text.last())->0
    }
}

/// Whether `piece` is the character `c` in a string literal: the character itself, unless it is a
/// quote or a backslash, or an escape code of it.
pub open spec fn stands_for(piece: Seq<char>, c: char) -> bool {
    ||| piece == seq![c] && c != '"' && c != '\\'
    ||| piece.len() == 2 && piece[0] == '\\' && short_escape(piece[1]) == Some(c)
    ||| {
        &&& piece.len() > 4
        &&& piece[0] == '\\' && piece[1] == 'u' && piece[2] == '{'
        &&& piece.last() == '}'
        &&& is_hex(piece.subrange(3, piece.len() - 1))
        &&& hex_value(piece.subrange(3, piece.len() - 1)) == c as int
    }
}

/// Whether `body` is what stands between the quotes of a string literal of `text`.
pub open spec fn is_body_of(body: Seq<char>, text: Seq<char>) -> bool
    decreases text.len(),
{
    if text.len() == 0 {
        body.len() == 0
    } else {
        exists|n: int|
            0 < n <= body.len() && #[trigger] stands_for(body.take(n), text[0]) && is_body_of(
                body.skip(n),
                text.skip(1),
            )
    }
}

/// Whether `word` is a string literal of `text`.
pub open spec fn is_literal_of(word: Seq<char>, text: Seq<char>) -> bool {
    &&& word.len() >= 2
    &&& word[0] == '"'
    &&& word.last() == '"'
    &&& is_body_of(word.subrange(1, word.len() - 1), text)
}

/// The word for a text on a command line.
pub open spec fn quoted(text: Seq<char>) -> Seq<char> {
    if is_plain_text(text) {
        text
    } else {
        debug_text(text)
    }
}

/// Whether `word` is a word for `text` on a command line: the text itself where it is plain, and
/// otherwise a string literal of it.
pub open spec fn is_word_for(word: Seq<char>, text: Seq<char>) -> bool {
    if is_plain_text(text) {
        word == text
    } else {
        is_literal_of(word, text)
    }
}

/// The command line of an executable with its arguments.
pub open spec fn command_text(executable: Seq<char>, args: Seq<Seq<char>>) -> Seq<char> {
    joined(
        seq![quoted(executable)] + args.map_values(|arg: Seq<char>| quoted(arg)),
        " "@,
    )
}

impl SessionKind {
    /// Whether the tracker has launched a process.
    pub open spec fn is_launch(self) -> bool {
        self is Launch
    }

    /// What the status calls the source.
    pub open spec fn description_text(self) -> Seq<char> {
        match self {
            SessionKind::Launch { executable, args } => command_text(executable@, texts(args@)),
            SessionKind::Watch => "watching existing log file"@,
        }
    }

    /// What the status calls the source.
    pub fn description(&self) -> (text: String)
        ensures
            text@ == self.description_text(),
    {
        match self {
            SessionKind::Launch { executable, args } => format_command(executable, args),
            SessionKind::Watch => "watching existing log file".to_owned(),
        }
    }

    /// What the keys that leave the tracker do.
    pub open spec fn hint_text(self) -> Seq<char> {
        if self.is_launch() {
            "q / Esc / Ctrl+C stops only vs-queue; the launched process keeps running"@
        } else {
            "q / Esc / Ctrl+C stops the tracker"@
        }
    }

    /// What the keys that leave the tracker do.
    pub fn tracker_hint(&self) -> (text: &'static str)
        ensures
            text@ == self.hint_text(),
    {
        match self {
            SessionKind::Launch { .. } => {
                "q / Esc / Ctrl+C stops only vs-queue; the launched process keeps running"
            },
            SessionKind::Watch => "q / Esc / Ctrl+C stops the tracker",
        }
    }

    /// Whether the tracker has launched a process.
    pub fn launched(&self) -> (launched: bool)
        ensures
            launched == self.is_launch(),
    {
        match self {
            SessionKind::Launch { .. } => true,
            SessionKind::Watch => false,
        }
    }
}

fn is_plain_char(c: char) -> (plain: bool)
    ensures
        plain == is_plain(c),
{
    ('a' <= c && c <= 'z') || ('A' <= c && c <= 'Z') || ('0' <= c && c <= '9') || c == '_' || c
        == '-' || c == '/' || c == '.' || c == ':'
}

/// The `Debug` form of a string in std, which `format!` writes with `{:?}`: it depends on the
/// string alone, and is a string literal of it, in double quotes, with each character as it is or
/// as its escape code. Which characters are escaped is not said here, but for quotes and
/// backslashes.
#[verifier::external_body]
fn std_debug_text(value: &str) -> (text: String)
    ensures
        text@ == debug_text(value@),
        is_literal_of(text@, value@),
{
    format!("{value:?}")
}

/// Writes a word so that its value can be told from it: as it is where it is plain, and otherwise
/// in double quotes.
pub fn shell_quote(value: &str) -> (text: String)
    ensures
        text@ == quoted(value@),
        is_word_for(text@, value@),
        text@ == value@ <==> is_plain_text(value@),
        !is_plain_text(value@) ==> {
            &&& text@.len() >= value@.len() + 2
            &&& text@[0] == '"'
            &&& text@.last() == '"'
        },
        forall|other: Seq<char>| #[trigger] is_word_for(text@, other) ==> other == value@,
{
    for c in it: value.chars()
        invariant
            it.seq() == value@,
            forall|i: int| 0 <= i < it.index() ==> is_plain(#[trigger] value@[i]),
    {
        if !is_plain_char(c) {
            assert(!is_plain(value@[it.index() as int]));
            let text = std_debug_text(value);
            proof {
                lemma_body_is_long(text@.subrange(1, text@.len() - 1), value@);
                lemma_one_value_for(text@, value@);
            }
            return text;
        }
    }
    proof {
        lemma_one_value_for(value@, value@);
    }
    value.to_owned()
}

/// What stands between the quotes has a character at least for each one of the text.
proof fn lemma_body_is_long(body: Seq<char>, text: Seq<char>)
    requires
        is_body_of(body, text),
    ensures
        body.len() >= text.len(),
    decreases text.len(),
{
    if text.len() > 0 {
        let n = choose|n: int|
            0 < n <= body.len() && #[trigger] stands_for(body.take(n), text[0]) && is_body_of(
                body.skip(n),
                text.skip(1),
            );
        lemma_body_is_long(body.skip(n), text.skip(1));
    }
}

/// The start of a body stands for one character only, and in one length.
proof fn lemma_one_character(body: Seq<char>, m: int, a: char, n: int, b: char)
    requires
        0 < m <= body.len(),
        0 < n <= body.len(),
        stands_for(body.take(m), a),
        stands_for(body.take(n), b),
    ensures
        m == n,
        a == b,
{
    let p = body.take(m);
    let q = body.take(n);
    assert(p[0] == body[0] && q[0] == body[0]);
    if body[0] != '\\' {
        assert(p.len() == 1 && q.len() == 1);
    } else {
        assert(p.len() > 1 && q.len() > 1);
        assert(p[1] == body[1] && q[1] == body[1]);
        if p.len() > 4 && q.len() > 4 {
            let h = p.subrange(3, m - 1);
            let k = q.subrange(3, n - 1);
            assert(p[m - 1] == body[m - 1] && q[n - 1] == body[n - 1]);
            if m < n {
                assert(k[m - 4] == body[m - 1]);
                assert(hex_digit(k[m - 4]) is Some);
            }
            if n < m {
                assert(h[n - 4] == body[n - 1]);
                assert(hex_digit(h[n - 4]) is Some);
            }
            assert(h =~= k);
        }
    }
}

/// A body is that of one text only.
proof fn lemma_one_text(body: Seq<char>, a: Seq<char>, b: Seq<char>)
    requires
        is_body_of(body, a),
        is_body_of(body, b),
    ensures
        a == b,
    decreases a.len(),
{
    if a.len() > 0 && b.len() > 0 {
        let m = choose|n: int|
            0 < n <= body.len() && #[trigger] stands_for(body.take(n), a[0]) && is_body_of(
                body.skip(n),
                a.skip(1),
            );
        let n = choose|n: int|
            0 < n <= body.len() && #[trigger] stands_for(body.take(n), b[0]) && is_body_of(
                body.skip(n),
                b.skip(1),
            );
        lemma_one_character(body, m, a[0], n, b[0]);
        lemma_one_text(body.skip(m), a.skip(1), b.skip(1));
        assert(a =~= seq![a[0]] + a.skip(1));
        assert(b =~= seq![b[0]] + b.skip(1));
    } else {
        assert(a =~= b);
    }
}

/// Words tell their values apart: a word is that of one text only.
pub proof fn law_words_tell_values_apart(word: Seq<char>, a: Seq<char>, b: Seq<char>)
    requires
        is_word_for(word, a),
        is_word_for(word, b),
    ensures
        a == b,
{
    if is_plain_text(a) != is_plain_text(b) {
        assert(word.len() > 0 && word[0] == '"');
        assert(is_plain(word[0]));
    } else if !is_plain_text(a) {
        lemma_one_text(word.subrange(1, word.len() - 1), a, b);
    }
}

proof fn lemma_one_value_for(word: Seq<char>, value: Seq<char>)
    requires
        is_word_for(word, value),
    ensures
        forall|other: Seq<char>| #[trigger] is_word_for(word, other) ==> other == value,
{
    assert forall|other: Seq<char>| #[trigger] is_word_for(word, other) implies other == value by {
        law_words_tell_values_apart(word, other, value);
    }
}

/// Writes the command line of an executable with its arguments.
pub fn format_command(executable: &str, args: &Vec<String>) -> (text: String)
    ensures
        text@ == command_text(executable@, texts(args@)),
{
    let mut parts: Vec<String> = Vec::new();
    parts.push(shell_quote(executable));
    let mut done: usize = 0;
    let ghost words = seq![quoted(executable@)] + texts(args@).map_values(
        |arg: Seq<char>| quoted(arg),
    );
    assert(texts(parts@) =~= words.take(1));
    while done < args.len()
        invariant
            done <= args@.len(),
            words == seq![quoted(executable@)] + texts(args@).map_values(
                |arg: Seq<char>| quoted(arg),
            ),
            texts(parts@) == words.take(done + 1),
        decreases args@.len() - done,
    {
        let ghost before = texts(parts@);
        parts.push(shell_quote(args[done].as_str()));
        assert(texts(parts@) =~= before.push(quoted(args@[done as int]@)));
        assert(words[done + 1] == quoted(texts(args@)[done as int]));
        done = done + 1;
        assert(texts(parts@) =~= words.take(done + 1));
    }
    assert(words.take(done + 1) =~= words);
    join(&parts, " ")
}

/// A character that can stand in the name of a log file as it is.
pub open spec fn is_name_char(c: char) -> bool {
    ||| 'a' <= c <= 'z'
    ||| 'A' <= c <= 'Z'
    ||| '0' <= c <= '9'
    ||| c == '-'
    ||| c == '_'
}

/// A text with a hyphen in place of each character that cannot stand in the name of a log file.
pub open spec fn sanitized(text: Seq<char>) -> Seq<char> {
    text.map_values(
        |c: char|
            if is_name_char(c) {
                c
            } else {
                '-'
            },
    )
}

/// The name of the log file of an executable that is launched at some time.
pub open spec fn log_file_name(stem: Seq<char>, now: Timestamp) -> Seq<char> {
    let date = now.spec_date();
    let time = now.spec_time();
    "vs-queue-"@ + sanitized(stem) + "-"@ + crate::text::signed_zero_padded(date.year as int, 4)
        + crate::text::zero_padded(date.month as nat, 2) + crate::text::zero_padded(
        date.day as nat,
        2,
    ) + "-"@ + crate::text::zero_padded(time.hour as nat, 2) + crate::text::zero_padded(
        time.minute as nat,
        2,
    ) + crate::text::zero_padded(time.second as nat, 2) + ".log"@
}

/// Names the log file of an executable by its stem and by the time. An executable without a stem
/// that can be read is called `process`.
pub fn default_log_file_name(stem: Option<&str>, now: &Timestamp) -> (name: String)
    ensures
        name@ == log_file_name(
            match stem {
                Some(text) => text@,
                None => "process"@,
            },
            *now,
        ),
{
    let stem: &str = match stem {
        Some(text) => text,
        None => "process",
    };
    let date = now.date();
    let time = now.time();
    let mut name = "vs-queue-".to_owned();
    let ghost start = name@;
    for c in it: stem.chars()
        invariant
            it.seq() == stem@,
            name@ == start + sanitized(stem@.take(it.index() as int)),
    {
        let kept: bool = ('a' <= c && c <= 'z') || ('A' <= c && c <= 'Z') || ('0' <= c && c
            <= '9') || c == '-' || c == '_';
        name.push(
            if kept {
                c
            } else {
                '-'
            },
        );
        assert(name@ =~= start + sanitized(stem@.take(it.index() + 1)));
    }
    assert(stem@.take(stem@.len() as int) =~= stem@);
    name.append("-");
    push_signed_zero_padded(&mut name, date.year, 4);
    push_zero_padded(&mut name, date.month as u64, 2);
    push_zero_padded(&mut name, date.day as u64, 2);
    name.append("-");
    push_zero_padded(&mut name, time.hour as u64, 2);
    push_zero_padded(&mut name, time.minute as u64, 2);
    push_zero_padded(&mut name, time.second as u64, 2);
    name.append(".log");
    assert(name@ =~= log_file_name(stem@, *now));
    name
}

/// The lines that a tracker without a screen of its own starts with.
pub open spec fn start_text(session: SessionKind, log_file: Seq<char>) -> Seq<Seq<char>> {
    match session {
        SessionKind::Launch { executable, args } => seq![
            "launched "@ + command_text(executable@, texts(args@)),
            "log file: "@ + log_file,
            "Ctrl-C stops only the tracker; the launched process keeps running"@,
        ],
        SessionKind::Watch => seq!["watching log file: "@ + log_file],
    }
}

/// Tells what is tracked, line by line.
pub fn start_message(session: &SessionKind, log_file: &str) -> (lines: Vec<String>)
    ensures
        texts(lines@) == start_text(*session, log_file@),
{
    let mut lines: Vec<String> = Vec::new();
    match session {
        SessionKind::Launch { executable, args } => {
            let command = format_command(executable, args);
            lines.push("launched ".to_owned().concat(&command));
            lines.push("log file: ".to_owned().concat(log_file));
            lines.push(
                "Ctrl-C stops only the tracker; the launched process keeps running".to_owned(),
            );
        },
        SessionKind::Watch => {
            lines.push("watching log file: ".to_owned().concat(log_file));
        },
    }
    assert(texts(lines@) =~= start_text(*session, log_file@));
    lines
}

/// The characters that need no quotes are the letters and digits of ASCII, and five more.
pub proof fn law_plain_characters(c: char)
    ensures
        is_plain(c) <==> {
            let code = c as int;
            ||| 97 <= code <= 122
            ||| 65 <= code <= 90
            ||| 48 <= code <= 57
            ||| code == 95
            ||| code == 45
            ||| code == 47
            ||| code == 46
            ||| code == 58
        },
{
}

/// A word is left as it is if it is plain, and is written with `{:?}` otherwise.
pub proof fn law_words_are_quoted_where_needed(text: Seq<char>)
    ensures
        is_plain_text(text) ==> quoted(text) == text,
        !is_plain_text(text) ==> quoted(text) == debug_text(text),
        is_plain_text(Seq::empty()),
{
}

/// A command without arguments is the word for its executable, and each argument adds a blank and
/// the word for it, at the end.
pub proof fn law_commands_grow_by_their_arguments(
    executable: Seq<char>,
    args: Seq<Seq<char>>,
    arg: Seq<char>,
)
    ensures
        command_text(executable, Seq::empty()) == quoted(executable),
        command_text(executable, args.push(arg)) == command_text(executable, args) + " "@ + quoted(
            arg,
        ),
{
    let words = seq![quoted(executable)] + args.map_values(|a: Seq<char>| quoted(a));
    let more = seq![quoted(executable)] + args.push(arg).map_values(|a: Seq<char>| quoted(a));
    let none = seq![quoted(executable)] + Seq::<Seq<char>>::empty().map_values(
        |a: Seq<char>| quoted(a),
    );
    assert(none =~= seq![quoted(executable)]);
    assert(more =~= words + seq![quoted(arg)]);
    crate::text::law_joined_lists_make_one(words, seq![quoted(arg)], " "@);
    crate::text::law_joined_lists_make_one(seq![quoted(executable)], seq![quoted(arg)], " "@);
    crate::text::law_joined_lists_make_one(seq![quoted(arg)], seq![quoted(arg)], " "@);
}

/// What is launched is described by its command, and what is watched in words of its own.
pub proof fn law_sessions_are_described(session: SessionKind)
    ensures
        session is Watch ==> session.description_text() == "watching existing log file"@,
        session matches SessionKind::Launch { executable, args } ==> session.description_text()
            == command_text(executable@, texts(args@)),
        session is Launch <==> session.is_launch(),
{
}

/// A name keeps its length. Letters and digits of ASCII, hyphens and underscores stay, and a hyphen
/// stands for every other character.
pub proof fn law_names_are_sanitized(text: Seq<char>, i: int)
    requires
        0 <= i < text.len(),
    ensures
        sanitized(text).len() == text.len(),
        sanitized(sanitized(text)) == sanitized(text),
        ({
            let code = text[i] as int;
            let stays = 97 <= code <= 122 || 65 <= code <= 90 || 48 <= code <= 57 || code == 45
                || code == 95;
            &&& stays ==> sanitized(text)[i] == text[i]
            &&& !stays ==> sanitized(text)[i] == '-'
        }),
{
    assert(sanitized(sanitized(text)) =~= sanitized(text));
}

/// The name of a log file starts with the program and the stem of the executable, and ends with the
/// time: the year, month and day, and the hour, minute and second, in digits that can be read back.
pub proof fn law_log_files_are_named_by_stem_and_time(stem: Seq<char>, now: Timestamp)
    requires
        now.is_valid(),
    ensures
        ({
            let name = log_file_name(stem, now);
            let date = now.spec_date();
            let time = now.spec_time();
            let end = name.len() as int;
            let year = name.subrange(stem.len() as int + 10, end - 15);
            &&& name.len() >= stem.len() + 29
            &&& 0 <= date.year <= 9999 ==> name.len() == stem.len() + 29
            &&& name.take(9) == "vs-queue-"@
            &&& name.subrange(9, stem.len() as int + 9) == sanitized(stem)
            &&& name[stem.len() as int + 9] == '-'
            &&& date.year >= 0 ==> is_numeral(year) && numeral_value(year) == date.year
            &&& date.year < 0 ==> year[0] == '-' && numeral_value(year.skip(1)) == -date.year
            &&& numeral_value(name.subrange(end - 15, end - 13)) == date.month
            &&& numeral_value(name.subrange(end - 13, end - 11)) == date.day
            &&& name[end - 11] == '-'
            &&& numeral_value(name.subrange(end - 10, end - 8)) == time.hour
            &&& numeral_value(name.subrange(end - 8, end - 6)) == time.minute
            &&& numeral_value(name.subrange(end - 6, end - 4)) == time.second
            &&& name.skip(end - 4) == ".log"@
        }),
{
    let date = now.spec_date();
    let time = now.spec_time();
    crate::timestamp::law_points_in_time_have_dates(now);
    let y = crate::text::signed_zero_padded(date.year as int, 4);
    let mo = crate::text::zero_padded(date.month as nat, 2);
    let d = crate::text::zero_padded(date.day as nat, 2);
    let h = crate::text::zero_padded(time.hour as nat, 2);
    let mi = crate::text::zero_padded(time.minute as nat, 2);
    let s = crate::text::zero_padded(time.second as nat, 2);
    crate::text::law_padded_signed_numerals_read_back(date.year as int, 4);
    lemma_year_length(date.year as int);
    lemma_two(date.month as nat);
    lemma_two(date.day as nat);
    lemma_two(time.hour as nat);
    lemma_two(time.minute as nat);
    lemma_two(time.second as nat);
    lemma_cuts_of_a_name("vs-queue-"@, sanitized(stem), y, mo, d, h, mi, s);
}

proof fn lemma_two(n: nat)
    requires
        n < 100,
    ensures
        crate::text::zero_padded(n, 2).len() == 2,
        numeral_value(crate::text::zero_padded(n, 2)) == n,
{
    crate::text::lemma_decimal_length(n);
    crate::text::law_padded_numerals_read_back(n, 2);
}

proof fn lemma_year_length(year: int)
    ensures
        crate::text::signed_zero_padded(year, 4).len() >= 4,
        0 <= year <= 9999 ==> crate::text::signed_zero_padded(year, 4).len() == 4,
{
    crate::text::law_padded_signed_numerals_read_back(year, 4);
    if year >= 0 {
        crate::text::lemma_decimal_length(year as nat);
    }
}

/// The pieces that a name is put together from can be cut out of it again.
proof fn lemma_cuts_of_a_name(
    program: Seq<char>,
    stem: Seq<char>,
    y: Seq<char>,
    mo: Seq<char>,
    d: Seq<char>,
    h: Seq<char>,
    mi: Seq<char>,
    s: Seq<char>,
)
    requires
        program == "vs-queue-"@,
        mo.len() == 2,
        d.len() == 2,
        h.len() == 2,
        mi.len() == 2,
        s.len() == 2,
    ensures
        ({
            let name = program + stem + "-"@ + y + mo + d + "-"@ + h + mi + s + ".log"@;
            let end = name.len() as int;
            &&& end == stem.len() + y.len() + 25
            &&& name.take(9) == program
            &&& name.subrange(9, stem.len() as int + 9) == stem
            &&& name[stem.len() as int + 9] == '-'
            &&& name.subrange(stem.len() as int + 10, end - 15) == y
            &&& name.subrange(end - 15, end - 13) == mo
            &&& name.subrange(end - 13, end - 11) == d
            &&& name[end - 11] == '-'
            &&& name.subrange(end - 10, end - 8) == h
            &&& name.subrange(end - 8, end - 6) == mi
            &&& name.subrange(end - 6, end - 4) == s
            &&& name.skip(end - 4) == ".log"@
        }),
{
    reveal_strlit("vs-queue-");
    reveal_strlit("-");
    reveal_strlit(".log");
    let front = program + stem + "-"@ + y;
    let name = front + mo + d + "-"@ + h + mi + s + ".log"@;
    let end = name.len() as int;
    assert(name.take(9) =~= program);
    assert(name.subrange(9, stem.len() as int + 9) =~= stem);
    assert(name.subrange(stem.len() as int + 10, end - 15) =~= y);
    assert(name.subrange(end - 15, end - 13) =~= mo);
    assert(name.subrange(end - 13, end - 11) =~= d);
    assert(name.subrange(end - 10, end - 8) =~= h);
    assert(name.subrange(end - 8, end - 6) =~= mi);
    assert(name.subrange(end - 6, end - 4) =~= s);
    assert(name.skip(end - 4) =~= ".log"@);
}

/// A session without a screen starts by naming its log file. What is launched is named before it,
/// and what stops it after it.
pub proof fn law_start_names_the_log_file(session: SessionKind, log_file: Seq<char>)
    ensures
        ({
            let lines = start_text(session, log_file);
            &&& session is Watch ==> lines.len() == 1 && lines[0] == "watching log file: "@
                + log_file
            &&& session is Launch ==> {
                &&& lines.len() == 3
                &&& lines[0] == "launched "@ + session.description_text()
                &&& lines[1] == "log file: "@ + log_file
                &&& lines[2]
                    == "Ctrl-C stops only the tracker; the launched process keeps running"@
            }
        }),
{
}

} // verus!
