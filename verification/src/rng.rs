//! A small generator of pseudo-random numbers.
use vstd::prelude::*;

verus! {

/// An xorshift generator. Its state is never zero.
#[derive(Debug)]
pub struct SimpleRng {
    state: u64,
}

/// The state that follows a state.
pub open spec fn next_state(state: u64) -> u64 {
    let a = state ^ (state << 13);
    let b = a ^ (a >> 7);
    b ^ (b << 17)
}

/// The number that a state gives: its low half.
pub open spec fn output(state: u64) -> u32 {
    (state % 0x1_0000_0000) as u32
}

/// The state that a reading of the clock seeds.
pub open spec fn seed_state(clock_nanos: Option<u128>) -> u64 {
    let low = match clock_nanos {
        Some(nanos) => (nanos % 0x1_0000_0000_0000_0000) as u64,
        None => 0x9E37_79B9_7F4A_7C15,
    };
    if low == 0 {
        1
    } else {
        low
    }
}

/// Whether a draw from a state comes out at odds of `numerator` to `denominator`, and the state
/// after it. Nothing is drawn where the denominator is zero.
pub open spec fn chance_from(state: u64, numerator: u32, denominator: u32) -> (bool, u64) {
    if denominator == 0 {
        (false, state)
    } else {
        (output(next_state(state)) % denominator < numerator, next_state(state))
    }
}

/// A number from `start` to `end` drawn from a state, and the state after it. Nothing is drawn
/// where there is no choice.
pub open spec fn range_from(state: u64, start: u32, end: u32) -> (int, u64) {
    if start >= end {
        (start as int, state)
    } else {
        (
            start + output(next_state(state)) as int % (end - start + 1),
            next_state(state),
        )
    }
}

impl View for SimpleRng {
    type V = u64;

    closed spec fn view(&self) -> u64 {
        self.state
    }
}

impl SimpleRng {
    #[verifier::type_invariant]
    spec fn is_valid(self) -> bool {
        self.state != 0
    }

    /// A generator seeded by a reading of the clock, in nanoseconds, if there is one.
    pub fn from_clock(clock_nanos: Option<u128>) -> (rng: SimpleRng)
        ensures
            rng@ == seed_state(clock_nanos),
    {
        let low: u64 = match clock_nanos {
            Some(nanos) => (nanos % 0x1_0000_0000_0000_0000) as u64,
            None => 0x9E37_79B9_7F4A_7C15,
        };
        SimpleRng {
            state: if low == 0 {
                1
            } else {
                low
            },
        }
    }

    /// A generator seeded by the clock.
    pub fn seeded() -> (rng: SimpleRng)
        ensures
            exists|clock_nanos: Option<u128>| rng@ == #[trigger] seed_state(clock_nanos),
    {
        let clock_nanos = nanos_since_epoch();
        SimpleRng::from_clock(clock_nanos)
    }

    /// The next number.
    pub fn next_u32(&mut self) -> (n: u32)
        ensures
            old(self)@ != 0,
            final(self)@ == next_state(old(self)@),
            final(self)@ != 0,
            n == output(final(self)@),
    {
        proof {
            use_type_invariant(&*self);
            law_state_is_never_zero(self.state);
        }
        let mut value: u64 = self.state;
        value = value ^ (value << 13);
        value = value ^ (value >> 7);
        value = value ^ (value << 17);
        self.state = value;
        (value % 0x1_0000_0000) as u32
    }

    /// Draws at odds of `numerator` to `denominator`.
    pub fn chance(&mut self, numerator: u32, denominator: u32) -> (hit: bool)
        ensures
            (hit, final(self)@) == chance_from(old(self)@, numerator, denominator),
    {
        denominator > 0 && self.next_u32() % denominator < numerator
    }

    /// Draws a number from `start` to `end`. Not all numbers at once can be asked for.
    pub fn range_inclusive(&mut self, start: u32, end: u32) -> (n: u32)
        requires
            start > 0 || end < u32::MAX,
        ensures
            (n as int, final(self)@) == range_from(old(self)@, start, end),
    {
        if start >= end {
            return start;
        }
        let width: u32 = end - start + 1;
        start + self.next_u32() % width
    }
}

impl Clone for SimpleRng {
    fn clone(&self) -> (copy: SimpleRng)
        ensures
            copy@ == self@,
    {
        proof {
            use_type_invariant(self);
        }
        SimpleRng { state: self.state }
    }
}

/// `std::time::SystemTime::elapsed` of `std::time::UNIX_EPOCH`: the nanoseconds on the clock, or
/// none where the clock is set before 1970. What it reads depends on the machine.
#[verifier::external_body]
fn nanos_since_epoch() -> (nanos: Option<u128>) {
    Some(std::time::UNIX_EPOCH.elapsed().ok()?.as_nanos())
}

/// The generator never runs dry: the state that follows a state other than zero is not zero.
pub proof fn law_state_is_never_zero(state: u64)
    requires
        state != 0,
    ensures
        next_state(state) != 0,
{
    assert(state != 0 ==> state ^ (state << 13) != 0) by (bit_vector);
    let a = state ^ (state << 13);
    assert(a != 0 ==> a ^ (a >> 7) != 0) by (bit_vector);
    let b = a ^ (a >> 7);
    assert(b != 0 ==> b ^ (b << 17) != 0) by (bit_vector);
}

/// A number drawn from a range lies in it.
pub proof fn law_range_holds_the_number(state: u64, start: u32, end: u32)
    requires
        start <= end,
    ensures
        start <= range_from(state, start, end).0 <= end,
{
}

/// The generator is linear: the state that follows the exclusive or of two states is that of the two
/// states that follow them.
pub proof fn law_states_mix_evenly(a: u64, b: u64)
    ensures
        next_state(a ^ b) == next_state(a) ^ next_state(b),
{
    assert((a ^ b) ^ ((a ^ b) << 13) == (a ^ (a << 13)) ^ (b ^ (b << 13))) by (bit_vector);
    let c = a ^ (a << 13);
    let d = b ^ (b << 13);
    assert((c ^ d) ^ ((c ^ d) >> 7) == (c ^ (c >> 7)) ^ (d ^ (d >> 7))) by (bit_vector);
    let e = c ^ (c >> 7);
    let f = d ^ (d >> 7);
    assert((e ^ f) ^ ((e ^ f) << 17) == (e ^ (e << 17)) ^ (f ^ (f << 17))) by (bit_vector);
}

/// No two states are followed by the same state, so that the generator never gets stuck.
pub proof fn law_states_are_told_apart(a: u64, b: u64)
    requires
        next_state(a) == next_state(b),
    ensures
        a == b,
{
    law_states_mix_evenly(a, b);
    let x = next_state(a);
    assert(x ^ x == 0) by (bit_vector);
    if a ^ b != 0 {
        law_state_is_never_zero(a ^ b);
    }
    assert(a ^ b == 0 ==> a == b) by (bit_vector);
}

/// Each shift of a step can be undone from the states on both sides of it: a step takes a state to
/// the one that is reached from it by the shifts of 13 to the left, 7 to the right and 17 to the
/// left.
pub proof fn law_step_goes_through_its_shifts(state: u64, first: u64, second: u64, third: u64)
    requires
        first ^ state == state << 13,
        second ^ first == first >> 7,
        third ^ second == second << 17,
    ensures
        next_state(state) == third,
{
    assert(first ^ state == state << 13 ==> first == state ^ (state << 13)) by (bit_vector);
    assert(second ^ first == first >> 7 ==> second == first ^ (first >> 7)) by (bit_vector);
    assert(third ^ second == second << 17 ==> third == second ^ (second << 17)) by (bit_vector);
}

/// A number is the low half of its state: what is left over when whole multiples of 2 to the power of
/// 32 are taken away.
pub proof fn law_output_is_the_low_half(high: u32, low: u32)
    ensures
        output((high * 0x1_0000_0000 + low) as u64) == low,
{
}

/// A clock seeds its low 64 bits, so that readings that agree on them seed alike, and 1 for zero. A
/// missing clock seeds a number of its own.
pub proof fn law_clocks_seed_their_low_bits(high: u64, low: u64, nanos: u128)
    requires
        nanos == high * 0x1_0000_0000_0000_0000 + low,
    ensures
        seed_state(Some(nanos)) == seed_state(Some(low as u128)),
        low > 0 ==> seed_state(Some(nanos)) == low,
        low == 0 ==> seed_state(Some(nanos)) == 1,
        seed_state(None) == 0x9E37_79B9_7F4A_7C15,
        seed_state(Some(nanos)) != 0,
{
}

/// A draw at odds hits if and only if the drawn number leaves less than the numerator over when it is
/// divided by the denominator; it draws one number, and none where the denominator is zero.
pub proof fn law_chances_follow_the_number(
    state: u64,
    numerator: u32,
    denominator: u32,
    times: int,
    over: int,
)
    requires
        denominator > 0,
        0 <= over < denominator,
        output(next_state(state)) == times * denominator + over,
    ensures
        chance_from(state, numerator, denominator) == (over < numerator, next_state(state)),
        chance_from(state, numerator, 0) == (false, state),
{
    vstd::arithmetic::div_mod::lemma_fundamental_div_mod_converse(
        output(next_state(state)) as int,
        denominator as int,
        times,
        over,
    );
}

/// Better odds hit wherever worse ones do, no chance never hits, and a sure one always does.
pub proof fn law_better_odds_hit_more(state: u64, less: u32, more: u32, denominator: u32)
    requires
        less <= more,
        denominator > 0,
    ensures
        chance_from(state, less, denominator).0 ==> chance_from(state, more, denominator).0,
        !chance_from(state, 0, denominator).0,
        chance_from(state, denominator, denominator).0,
        chance_from(state, less, denominator).1 == chance_from(state, more, denominator).1,
{
}

/// A number of a range lies as far from its start as the drawn number leaves over when it is divided
/// by the count of the range; nothing is drawn where the range has one number or none.
pub proof fn law_ranges_follow_the_number(state: u64, start: u32, end: u32, times: int, over: int)
    requires
        start < end,
        0 <= over <= end - start,
        output(next_state(state)) == times * (end - start + 1) + over,
    ensures
        range_from(state, start, end) == (start + over, next_state(state)),
        range_from(state, end, start) == (end as int, state),
        range_from(state, start, start) == (start as int, state),
{
    vstd::arithmetic::div_mod::lemma_fundamental_div_mod_converse(
        output(next_state(state)) as int,
        end - start + 1,
        times,
        over,
    );
}

} // verus!
