//! Decimal numerals and the few string operations that the rest of the crate builds on.
use vstd::prelude::*;

verus! {

/// `String::push` appends one character and leaves what was there unchanged.
pub assume_specification[ String::push ](text: &mut String, c: char)
    ensures
        final(text)@ == old(text)@.push(c),
;

/// Whether `c` is one of the characters `0` to `9`.
pub open spec fn is_digit(c: char) -> bool {
    '0' <= c <= '9'
}

/// The number that a digit stands for.
pub open spec fn digit_value(c: char) -> nat
    recommends
        is_digit(c),
{
    (c as int - '0' as int) as nat
}

/// The digit that stands for a number below ten.
pub open spec fn digit(n: nat) -> char
    recommends
        n < 10,
{
    ('0' as int + n) as char
}

/// Whether `text` is one digit or more, and nothing else.
pub open spec fn is_numeral(text: Seq<char>) -> bool {
    &&& text.len() > 0
    &&& forall|i: int| 0 <= i < text.len() ==> is_digit(#[trigger] text[i])
}

/// The number that a string of digits stands for, read in base ten.
pub open spec fn numeral_value(text: Seq<char>) -> nat
    decreases text.len(),
{
    if text.len() == 0 {
        0
    } else {
        10 * numeral_value(text.drop_last()) + digit_value(text.last())
    }
}

/// The shortest numeral of `n`.
pub open spec fn decimal(n: nat) -> Seq<char>
    decreases n,
{
    if n < 10 {
        seq![digit(n)]
    } else {
        decimal(n / 10).push(digit(n % 10))
    }
}

/// The value of a digit.
pub fn digit_value_of(c: char) -> (n: u32)
    requires
        is_digit(c),
    ensures
        n == digit_value(c),
        n < 10,
{
    c as u32 - '0' as u32
}

/// The digit of a number below ten.
pub fn digit_of(n: u32) -> (c: char)
    requires
        n < 10,
    ensures
        c == digit(n as nat),
{
    (n as u8 + '0' as u8) as char
}

/// `count` copies of `c`.
pub open spec fn repeated(c: char, count: nat) -> Seq<char> {
    Seq::new(count, |i: int| c)
}

/// The numeral of `n`, behind a minus sign where `n` is negative.
pub open spec fn signed_decimal(n: int) -> Seq<char> {
    if n < 0 {
        seq!['-'] + decimal((-n) as nat)
    } else {
        decimal(n as nat)
    }
}

/// How many characters `text` lacks to be `width` long.
pub open spec fn missing(text: Seq<char>, width: nat) -> nat {
    if text.len() < width {
        (width - text.len()) as nat
    } else {
        0
    }
}

/// The numeral of `n`, filled up with zeros to `width` characters.
pub open spec fn zero_padded(n: nat, width: nat) -> Seq<char> {
    repeated('0', missing(decimal(n), width)) + decimal(n)
}

/// The numeral of `n` filled up with zeros to `width` characters, of which a minus sign is one.
pub open spec fn signed_zero_padded(n: int, width: nat) -> Seq<char> {
    if n < 0 {
        seq!['-'] + zero_padded((-n) as nat, if width > 0 { (width - 1) as nat } else { 0 })
    } else {
        zero_padded(n as nat, width)
    }
}

/// `text` at the right end of a field of `width` characters, or alone where it is longer.
pub open spec fn right_aligned(text: Seq<char>, width: nat) -> Seq<char> {
    repeated(' ', missing(text, width)) + text
}

/// Whether `c` ends a line.
pub open spec fn is_line_end(c: char) -> bool {
    c == '\n' || c == '\r'
}

/// `text` without the line feeds and carriage returns at its end.
pub open spec fn without_line_end(text: Seq<char>) -> Seq<char>
    decreases text.len(),
{
    if text.len() > 0 && is_line_end(text.last()) {
        without_line_end(text.drop_last())
    } else {
        text
    }
}

/// The strings of `parts` one after the other, with `separator` between neighbours.
pub open spec fn joined(parts: Seq<Seq<char>>, separator: Seq<char>) -> Seq<char>
    decreases parts.len(),
{
    if parts.len() == 0 {
        Seq::empty()
    } else if parts.len() == 1 {
        parts[0]
    } else {
        joined(parts.drop_last(), separator) + separator + parts.last()
    }
}

/// What the strings of a vector hold.
pub open spec fn texts(strings: Seq<String>) -> Seq<Seq<char>> {
    strings.map_values(|s: String| s@)
}

/// Appends `count` copies of `c` to `out`.
pub fn push_repeated(out: &mut String, c: char, count: usize)
    ensures
        final(out)@ == old(out)@ + repeated(c, count as nat),
{
    let mut done: usize = 0;
    assert(out@ =~= old(out)@ + repeated(c, 0));
    while done < count
        invariant
            done <= count,
            out@ == old(out)@ + repeated(c, done as nat),
        decreases count - done,
    {
        out.push(c);
        done = done + 1;
        assert(out@ =~= old(out)@ + repeated(c, done as nat));
    }
}

/// Appends the shortest numeral of `n` to `out`.
pub fn push_decimal(out: &mut String, n: u64)
    ensures
        final(out)@ == old(out)@ + decimal(n as nat),
    decreases n,
{
    if n >= 10 {
        push_decimal(out, n / 10);
    }
    out.push(digit_of((n % 10) as u32));
}

/// Appends the numeral of `n` to `out`, behind a minus sign where `n` is negative.
pub fn push_signed(out: &mut String, n: i32)
    ensures
        final(out)@ == old(out)@ + signed_decimal(n as int),
{
    let wide: i64 = n as i64;
    if wide < 0 {
        out.push('-');
        push_decimal(out, (-wide) as u64);
    } else {
        push_decimal(out, wide as u64);
    }
    assert(out@ =~= old(out)@ + signed_decimal(n as int));
}

/// Appends the numeral of `n` to `out`, filled up with zeros to `width` characters.
pub fn push_zero_padded(out: &mut String, n: u64, width: usize)
    ensures
        final(out)@ == old(out)@ + zero_padded(n as nat, width as nat),
{
    let mut numeral = String::new();
    push_decimal(&mut numeral, n);
    assert(numeral@ =~= decimal(n as nat));
    let length: usize = numeral.as_str().unicode_len();
    if length < width {
        push_repeated(out, '0', width - length);
    }
    out.append(numeral.as_str());
    assert(out@ =~= old(out)@ + zero_padded(n as nat, width as nat));
}

/// Appends the numeral of `n` to `out`, filled up with zeros to `width` characters, of which a
/// minus sign is one.
pub fn push_signed_zero_padded(out: &mut String, n: i32, width: usize)
    ensures
        final(out)@ == old(out)@ + signed_zero_padded(n as int, width as nat),
{
    let wide: i64 = n as i64;
    if wide < 0 {
        out.push('-');
        push_zero_padded(out, (-wide) as u64, if width > 0 { width - 1 } else { 0 });
    } else {
        push_zero_padded(out, wide as u64, width);
    }
    assert(out@ =~= old(out)@ + signed_zero_padded(n as int, width as nat));
}

/// `text` at the right end of a field of `width` characters.
pub fn align_right(text: &str, width: usize) -> (field: String)
    ensures
        field@ == right_aligned(text@, width as nat),
{
    let mut field = String::new();
    let length: usize = text.unicode_len();
    if length < width {
        push_repeated(&mut field, ' ', width - length);
    }
    field.append(text);
    assert(field@ =~= right_aligned(text@, width as nat));
    field
}

/// Cuts every line feed and carriage return off the end of a line.
pub fn trim_line_end(line: &str) -> (trimmed: String)
    ensures
        trimmed@ == without_line_end(line@),
{
    let mut end: usize = line.unicode_len();
    assert(line@.take(end as int) =~= line@);
    while end > 0 && is_line_end_char(line.get_char(end - 1))
        invariant
            end <= line@.len(),
            without_line_end(line@.take(end as int)) == without_line_end(line@),
        ensures
            end <= line@.len(),
            without_line_end(line@) == line@.take(end as int),
        decreases end,
    {
        assert(line@.take(end as int).drop_last() =~= line@.take(end - 1));
        end = end - 1;
    }
    assert(line@.take(end as int) =~= line@.subrange(0, end as int));
    line.substring_char(0, end).to_owned()
}

fn is_line_end_char(c: char) -> (b: bool)
    ensures
        b == is_line_end(c),
{
    c == '\n' || c == '\r'
}

/// Joins the strings of `parts`, with `separator` between neighbours.
pub fn join(parts: &Vec<String>, separator: &str) -> (whole: String)
    ensures
        whole@ == joined(texts(parts@), separator@),
{
    let mut whole = String::new();
    let mut done: usize = 0;
    let ghost all = texts(parts@);
    assert(whole@ =~= joined(all.take(0), separator@));
    while done < parts.len()
        invariant
            done <= parts.len(),
            all == texts(parts@),
            whole@ == joined(all.take(done as int), separator@),
        decreases parts.len() - done,
    {
        if done > 0 {
            whole.append(separator);
        }
        whole.append(parts[done].as_str());
        assert(all.take(done + 1).drop_last() =~= all.take(done as int));
        assert(all.take(done + 1).last() == parts@[done as int]@);
        assert(whole@ =~= joined(all.take(done + 1), separator@));
        done = done + 1;
    }
    assert(all.take(done as int) =~= all);
    whole
}

/// Reads a short field as a number: `Some` exactly where it is digits and nothing else.
pub fn parse_short_numeral(text: &str) -> (n: Option<u32>)
    requires
        text@.len() <= 9,
    ensures
        n matches Some(v) ==> is_numeral(text@) && v == numeral_value(text@),
        n is None ==> !is_numeral(text@),
        n matches Some(v) ==> v < 1_000_000_000,
{
    let mut value: u32 = 0;
    let ghost mut bound: int = 1;
    let length: usize = text.unicode_len();
    if length == 0 {
        return None;
    }
    let mut at: usize = 0;
    assert(text@.take(0).len() == 0);
    while at < length
        invariant
            at <= length,
            length == text@.len(),
            length <= 9,
            value == numeral_value(text@.take(at as int)),
            value < bound,
            at == 0 ==> bound == 1,
            at == 1 ==> bound == 10,
            at == 2 ==> bound == 100,
            at == 3 ==> bound == 1_000,
            at == 4 ==> bound == 10_000,
            at == 5 ==> bound == 100_000,
            at == 6 ==> bound == 1_000_000,
            at == 7 ==> bound == 10_000_000,
            at == 8 ==> bound == 100_000_000,
            at == 9 ==> bound == 1_000_000_000,
            forall|i: int| 0 <= i < at ==> is_digit(#[trigger] text@[i]),
        decreases length - at,
    {
        let c = text.get_char(at);
        if c < '0' || c > '9' {
            return None;
        }
        assert(text@.take(at + 1).drop_last() =~= text@.take(at as int));
        value = 10 * value + digit_value_of(c);
        proof {
            bound = 10 * bound;
        }
        at = at + 1;
    }
    assert(text@.take(length as int) =~= text@);
    Some(value)
}

/// A numeral of a number below ten to the power of two or four has at most that many digits.
pub proof fn lemma_decimal_length(n: nat)
    ensures
        n < 10 ==> decimal(n).len() == 1,
        10 <= n < 100 ==> decimal(n).len() == 2,
        100 <= n < 1000 ==> decimal(n).len() == 3,
        1000 <= n < 10000 ==> decimal(n).len() == 4,
{
    reveal_with_fuel(decimal, 4);
}

/// Reading the numeral of a number gives the number back.
pub proof fn law_decimal_reads_back(n: nat)
    ensures
        is_numeral(decimal(n)),
        numeral_value(decimal(n)) == n,
    decreases n,
{
    reveal_with_fuel(numeral_value, 2);
    if n >= 10 {
        law_decimal_reads_back(n / 10);
        assert(decimal(n).drop_last() =~= decimal(n / 10));
    } else {
        assert(decimal(n).drop_last() =~= Seq::<char>::empty());
    }
}

/// Zeros in front of a numeral leave its value unchanged.
pub proof fn lemma_leading_zeros(zeros: nat, text: Seq<char>)
    requires
        is_numeral(text),
    ensures
        is_numeral(repeated('0', zeros) + text),
        numeral_value(repeated('0', zeros) + text) == numeral_value(text),
    decreases text.len(),
{
    let whole = repeated('0', zeros) + text;
    assert forall|i: int| 0 <= i < whole.len() implies is_digit(#[trigger] whole[i]) by {
        if i >= zeros {
            assert(whole[i] == text[i - zeros]);
        }
    }
    assert(whole.drop_last() =~= repeated('0', zeros) + text.drop_last());
    if text.len() == 1 {
        assert(whole.drop_last() =~= repeated('0', zeros));
        lemma_zeros_value(zeros);
        assert(numeral_value(text.drop_last()) == 0);
    } else {
        lemma_leading_zeros(zeros, text.drop_last());
    }
}

proof fn lemma_zeros_value(zeros: nat)
    ensures
        numeral_value(repeated('0', zeros)) == 0,
    decreases zeros,
{
    if zeros > 0 {
        lemma_zeros_value((zeros - 1) as nat);
        assert(repeated('0', zeros).drop_last() =~= repeated('0', (zeros - 1) as nat));
    }
}

/// Whether `part` stands somewhere in `text`.
pub open spec fn holds(text: Seq<char>, part: Seq<char>) -> bool {
    exists|at: int|
        0 <= at <= text.len() - part.len() && #[trigger] text.subrange(at, at + part.len()) == part
}

/// Whether `text` starts with `part`.
pub open spec fn starts_with(text: Seq<char>, part: Seq<char>) -> bool {
    text.len() >= part.len() && text.take(part.len() as int) == part
}

/// Whether `text` ends with `part`.
pub open spec fn ends_with(text: Seq<char>, part: Seq<char>) -> bool {
    text.len() >= part.len() && text.skip(text.len() - part.len()) == part
}

/// A text holds each of the three pieces that it is put together from.
pub proof fn lemma_pieces_are_held(front: Seq<char>, part: Seq<char>, back: Seq<char>)
    ensures
        holds(front + part + back, part),
        starts_with(front + part + back, front),
        ends_with(front + part + back, back),
{
    let text = front + part + back;
    let at = front.len() as int;
    assert(text.subrange(at, at + part.len()) =~= part);
    assert(text.take(front.len() as int) =~= front);
    assert(text.skip(text.len() - back.len()) =~= back);
}

/// The class of the digits of ASCII.
pub open spec fn numeral_class() -> spec_fn(char) -> bool {
    |c: char| is_digit(c)
}

/// The numeral of a number has no zero in front, unless it is the number zero.
pub proof fn law_decimal_has_no_zero_in_front(n: nat)
    ensures
        n > 0 ==> decimal(n)[0] != '0',
        n == 0 ==> decimal(n).len() == 1,
        decimal(n).len() > 0,
    decreases n,
{
    if n >= 10 {
        law_decimal_has_no_zero_in_front(n / 10);
    }
}

/// A text that starts with a numeral tells where the numeral ends and which number it stands for.
pub proof fn law_numerals_in_front_are_told_apart(
    a: nat,
    after_a: Seq<char>,
    b: nat,
    after_b: Seq<char>,
)
    requires
        decimal(a) + after_a == decimal(b) + after_b,
        after_a.len() > 0 ==> !is_digit(after_a[0]),
        after_b.len() > 0 ==> !is_digit(after_b[0]),
    ensures
        a == b,
        after_a == after_b,
{
    law_decimal_reads_back(a);
    law_decimal_reads_back(b);
    crate::log_line::lemma_run_ends_once(
        numeral_class(),
        decimal(a),
        after_a,
        decimal(b),
        after_b,
    );
}

/// A signed numeral stands for its number, with a minus sign if and only if this is negative.
pub proof fn law_signed_decimal_reads_back(n: int)
    ensures
        n >= 0 ==> is_numeral(signed_decimal(n)) && numeral_value(signed_decimal(n)) == n,
        n < 0 ==> {
            &&& signed_decimal(n)[0] == '-'
            &&& is_numeral(signed_decimal(n).skip(1))
            &&& numeral_value(signed_decimal(n).skip(1)) == -n
        },
{
    if n < 0 {
        law_decimal_reads_back((-n) as nat);
        assert(signed_decimal(n).skip(1) =~= decimal((-n) as nat));
    } else {
        law_decimal_reads_back(n as nat);
    }
}

/// No two numbers share a signed numeral.
pub proof fn law_signed_numerals_are_told_apart(a: int, b: int)
    requires
        signed_decimal(a) == signed_decimal(b),
    ensures
        a == b,
{
    law_signed_decimal_reads_back(a);
    law_signed_decimal_reads_back(b);
}

/// Zeros in front fill a numeral up to its width, and leave its value unchanged.
pub proof fn law_padded_numerals_read_back(n: nat, width: nat)
    ensures
        is_numeral(zero_padded(n, width)),
        numeral_value(zero_padded(n, width)) == n,
        decimal(n).len() <= width ==> zero_padded(n, width).len() == width,
        decimal(n).len() > width ==> zero_padded(n, width) == decimal(n),
{
    law_decimal_reads_back(n);
    lemma_leading_zeros(missing(decimal(n), width), decimal(n));
    if decimal(n).len() > width {
        assert(zero_padded(n, width) =~= decimal(n));
    }
}

/// Zeros fill a signed numeral up to its width, behind the sign, and leave its value unchanged.
pub proof fn law_padded_signed_numerals_read_back(n: int, width: nat)
    ensures
        n >= 0 ==> is_numeral(signed_zero_padded(n, width)) && numeral_value(
            signed_zero_padded(n, width),
        ) == n,
        n < 0 ==> {
            &&& signed_zero_padded(n, width)[0] == '-'
            &&& is_numeral(signed_zero_padded(n, width).skip(1))
            &&& numeral_value(signed_zero_padded(n, width).skip(1)) == -n
        },
        signed_decimal(n).len() <= width ==> signed_zero_padded(n, width).len() == width,
        signed_decimal(n).len() > width ==> signed_zero_padded(n, width) == signed_decimal(n),
{
    if n < 0 {
        let inner: nat = if width > 0 {
            (width - 1) as nat
        } else {
            0
        };
        law_padded_numerals_read_back((-n) as nat, inner);
        law_decimal_has_no_zero_in_front((-n) as nat);
        assert(signed_zero_padded(n, width).skip(1) =~= zero_padded((-n) as nat, inner));
        if signed_decimal(n).len() > width && width == 0 {
            assert(zero_padded((-n) as nat, 0) =~= decimal((-n) as nat));
        }
    } else {
        law_padded_numerals_read_back(n as nat, width);
    }
}

/// A field holds its text at the right end, and nothing but blanks before it.
pub proof fn law_fields_hold_their_texts(text: Seq<char>, width: nat)
    ensures
        ends_with(right_aligned(text, width), text),
        text.len() <= width ==> right_aligned(text, width).len() == width,
        text.len() > width ==> right_aligned(text, width) == text,
        forall|i: int|
            0 <= i < right_aligned(text, width).len() - text.len() ==> (#[trigger] right_aligned(
                text,
                width,
            )[i]) == ' ',
{
    let field = right_aligned(text, width);
    assert(field.skip(field.len() - text.len()) =~= text);
    if text.len() > width {
        assert(field =~= text);
    }
}

/// A line loses line feeds and carriage returns at its end, all of them and nothing else.
pub proof fn law_only_line_ends_are_cut(text: Seq<char>)
    ensures
        starts_with(text, without_line_end(text)),
        forall|i: int|
            without_line_end(text).len() <= i < text.len() ==> (#[trigger] text[i]) as int == 10
                || text[i] as int == 13,
        without_line_end(text).len() > 0 ==> without_line_end(text).last() as int != 10
            && without_line_end(text).last() as int != 13,
    decreases text.len(),
{
    if text.len() > 0 && is_line_end(text.last()) {
        let front = text.drop_last();
        let kept = without_line_end(text);
        law_only_line_ends_are_cut(front);
        assert(text.take(kept.len() as int) =~= front.take(kept.len() as int));
        assert forall|i: int| kept.len() <= i < text.len() implies (#[trigger] text[i]) as int == 10
            || text[i] as int == 13 by {
            if i < front.len() {
                assert(front[i] == text[i]);
            }
        }
    } else {
        assert(text.take(text.len() as int) =~= text);
    }
}

/// Two lists of strings that are joined make what their joined halves make, with a separator
/// between the two; a string alone is left as it is.
pub proof fn law_joined_lists_make_one(
    front: Seq<Seq<char>>,
    back: Seq<Seq<char>>,
    separator: Seq<char>,
)
    requires
        front.len() > 0,
        back.len() > 0,
    ensures
        joined(front + back, separator) == joined(front, separator) + separator + joined(
            back,
            separator,
        ),
        joined(seq![front[0]], separator) == front[0],
        joined(Seq::empty(), separator).len() == 0,
    decreases back.len(),
{
    let all = front + back;
    assert(all.last() == back.last());
    if back.len() == 1 {
        assert(all.drop_last() =~= front);
    } else {
        law_joined_lists_make_one(front, back.drop_last(), separator);
        assert(all.drop_last() =~= front + back.drop_last());
        assert(joined(all, separator) =~= joined(front, separator) + separator + joined(
            back,
            separator,
        ));
    }
}

} // verus!
