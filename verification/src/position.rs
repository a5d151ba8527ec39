//! Places in the queue: natural numbers without a bound.
use crate::text::{
    decimal, digit_value, digit_value_of, is_digit, is_numeral, numeral_value, push_decimal,
};
use vstd::prelude::*;

verus! {

/// The last of the places that a double-precision number tells apart from all others.
pub const LAST_EXACT_PLACE: u64 = 0x20_0000_0000_0000;

/// A place in the queue, as exact as the log gives it. Place 0 is the end of the queue.
#[derive(Debug, PartialEq, Eq)]
pub struct Position {
    /// The shortest numeral of the place.
    digits: Vec<char>,
}

impl View for Position {
    type V = nat;

    closed spec fn view(&self) -> nat {
        numeral_value(self.digits@)
    }
}

impl Position {
    /// The digits are a numeral that starts with no zero, or is `0`.
    #[verifier::type_invariant]
    spec fn is_valid(self) -> bool {
        &&& is_numeral(self.digits@)
        &&& self.digits@.len() > 1 ==> self.digits@[0] != '0'
    }

    /// The end of the queue.
    pub fn zero() -> (position: Position)
        ensures
            position@ == 0,
    {
        let mut digits: Vec<char> = Vec::new();
        digits.push('0');
        assert(numeral_value(digits@) == 0) by {
            reveal_with_fuel(numeral_value, 2);
        }
        Position { digits }
    }

    /// Reads a place: `Some` exactly where `text` is digits and nothing else.
    pub fn parse(text: &str) -> (position: Option<Position>)
        ensures
            position is Some <==> is_numeral(text@),
            position matches Some(p) ==> p@ == numeral_value(text@),
    {
        let mut digits: Vec<char> = Vec::new();
        // The zeros passed over so far, while nothing else has come.
        let ghost mut zeros: nat = 0;
        for c in it: text.chars()
            invariant
                it.seq() == text@,
                zeros <= it.index(),
                digits@ == text@.subrange(zeros as int, it.index() as int),
                forall|i: int| 0 <= i < zeros ==> text@[i] == '0',
                forall|i: int| 0 <= i < it.index() ==> is_digit(#[trigger] text@[i]),
                digits@.len() > 0 ==> digits@[0] != '0',
        {
            if c < '0' || c > '9' {
                assert(!is_digit(text@[it.index() as int]));
                return None;
            }
            if digits.len() > 0 || c != '0' {
                digits.push(c);
                assert(digits@ =~= text@.subrange(zeros as int, it.index() + 1));
            } else {
                proof {
                    zeros = zeros + 1;
                }
                assert(digits@ =~= text@.subrange(zeros as int, it.index() + 1));
            }
        }
        if text.is_empty() {
            return None;
        }
        proof {
            assert(text@ =~= crate::text::repeated('0', zeros) + digits@);
            if digits@.len() > 0 {
                crate::text::lemma_leading_zeros(zeros, digits@);
            } else {
                crate::text::lemma_leading_zeros((zeros - 1) as nat, seq!['0']);
                assert(text@ =~= crate::text::repeated('0', (zeros - 1) as nat) + seq!['0']);
                reveal_with_fuel(numeral_value, 2);
            }
        }
        if digits.len() == 0 {
            return Some(Position::zero());
        }
        Some(Position { digits })
    }

    /// The shortest numeral of the place.
    pub fn text(&self) -> (text: String)
        ensures
            text@ == decimal(self@),
    {
        let mut text = String::new();
        let mut done: usize = 0;
        while done < self.digits.len()
            invariant
                done <= self.digits@.len(),
                text@ == self.digits@.take(done as int),
            decreases self.digits@.len() - done,
        {
            text.push(self.digits[done]);
            done = done + 1;
            assert(text@ =~= self.digits@.take(done as int));
        }
        proof {
            use_type_invariant(self);
            assert(text@ =~= self.digits@);
            lemma_shortest_numeral(self.digits@);
        }
        text
    }

    /// The place that has a number.
    pub fn at(n: u64) -> (position: Position)
        ensures
            position@ == n,
    {
        let mut text = String::new();
        push_decimal(&mut text, n);
        proof {
            assert(text@ =~= decimal(n as nat));
            crate::text::law_decimal_reads_back(n as nat);
        }
        Position::parse(text.as_str()).unwrap()
    }

    /// The place as it is shown: its numeral, up to `LAST_EXACT_PLACE`. Places beyond are shown
    /// rounded to a floating-point number, which is not done here.
    pub fn shown(&self) -> (text: Option<String>)
        ensures
            text is Some <==> self@ <= LAST_EXACT_PLACE,
            text matches Some(t) ==> t@ == decimal(self@),
    {
        if self.is_above(&Position::at(LAST_EXACT_PLACE)) {
            None
        } else {
            Some(self.text())
        }
    }

    /// Whether this is the end of the queue.
    pub fn is_zero(&self) -> (zero: bool)
        ensures
            zero == (self@ == 0),
    {
        proof {
            use_type_invariant(self);
            lemma_shortest_numeral(self.digits@);
            if self.digits@.len() == 1 {
                lemma_numeral_of_zero(self.digits@);
            }
        }
        self.digits.len() == 1 && self.digits[0] == '0'
    }

    /// The digit with which the `width`-digit numeral of the place goes on at `at`.
    fn padded_digit(&self, width: usize, at: usize) -> (c: char)
        requires
            self.digits@.len() <= width,
            at < width,
        ensures
            c == padded(self.digits@, width as nat)[at as int],
            is_digit(c),
    {
        proof {
            use_type_invariant(self);
        }
        let zeros: usize = width - self.digits.len();
        if at < zeros {
            '0'
        } else {
            self.digits[at - zeros]
        }
    }

    /// Whether this place lies further back in the queue than `other`.
    pub fn is_above(&self, other: &Position) -> (above: bool)
        ensures
            above == (self@ > other@),
    {
        proof {
            use_type_invariant(self);
            use_type_invariant(other);
        }
        let width: usize = if self.digits.len() < other.digits.len() {
            other.digits.len()
        } else {
            self.digits.len()
        };
        let ghost a = padded(self.digits@, width as nat);
        let ghost b = padded(other.digits@, width as nat);
        let mut above: bool = false;
        let mut below: bool = false;
        let mut at: usize = 0;
        while at < width
            invariant
                at <= width,
                self.digits@.len() <= width,
                other.digits@.len() <= width,
                a == padded(self.digits@, width as nat),
                b == padded(other.digits@, width as nat),
                above == (numeral_value(a.take(at as int)) > numeral_value(b.take(at as int))),
                below == (numeral_value(a.take(at as int)) < numeral_value(b.take(at as int))),
            decreases width - at,
        {
            let x = digit_value_of(self.padded_digit(width, at));
            let y = digit_value_of(other.padded_digit(width, at));
            if !above && !below {
                above = x > y;
                below = x < y;
            }
            assert(a.take(at + 1).drop_last() =~= a.take(at as int));
            assert(b.take(at + 1).drop_last() =~= b.take(at as int));
            at = at + 1;
        }
        proof {
            assert(a.take(width as int) =~= a);
            assert(b.take(width as int) =~= b);
            crate::text::lemma_leading_zeros((width - self.digits@.len()) as nat, self.digits@);
            crate::text::lemma_leading_zeros((width - other.digits@.len()) as nat, other.digits@);
        }
        above
    }
}

impl Clone for Position {
    fn clone(&self) -> (copy: Position)
        ensures
            copy@ == self@,
    {
        proof {
            use_type_invariant(self);
        }
        let mut digits: Vec<char> = Vec::new();
        let mut done: usize = 0;
        while done < self.digits.len()
            invariant
                done <= self.digits@.len(),
                digits@ == self.digits@.take(done as int),
            decreases self.digits@.len() - done,
        {
            digits.push(self.digits[done]);
            done = done + 1;
            assert(digits@ =~= self.digits@.take(done as int));
        }
        assert(digits@ =~= self.digits@);
        Position { digits }
    }
}

/// The numeral `digits` behind as many zeros as make it `width` long.
spec fn padded(digits: Seq<char>, width: nat) -> Seq<char> {
    crate::text::repeated('0', (width - digits.len()) as nat) + digits
}

/// A numeral that starts with no zero is the one that `decimal` gives.
proof fn lemma_shortest_numeral(digits: Seq<char>)
    requires
        is_numeral(digits),
        digits.len() > 1 ==> digits[0] != '0',
    ensures
        digits == decimal(numeral_value(digits)),
        digits.len() > 1 ==> numeral_value(digits) >= 10,
    decreases digits.len(),
{
    let front = digits.drop_last();
    let last = digits.last();
    assert(is_digit(last));
    if digits.len() == 1 {
        assert(numeral_value(front) == 0);
        assert(digits =~= seq![crate::text::digit(digit_value(last))]);
    } else {
        assert forall|i: int| 0 <= i < front.len() implies is_digit(#[trigger] front[i]) by {
            assert(front[i] == digits[i]);
        }
        lemma_shortest_numeral(front);
        if front.len() == 1 {
            assert(is_digit(front[0]) && front[0] != '0');
            reveal_with_fuel(numeral_value, 2);
            assert(front.drop_last().len() == 0);
        }
        assert(numeral_value(front) >= 1);
        assert(digits =~= front.push(last));
    }
}

proof fn lemma_numeral_of_zero(digits: Seq<char>)
    requires
        is_numeral(digits),
        digits.len() == 1,
    ensures
        numeral_value(digits) == 0 <==> digits[0] == '0',
{
    assert(is_digit(digits[0]));
    assert(numeral_value(digits.drop_last()) == 0);
}

} // verus!
