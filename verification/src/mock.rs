//! A queue that moves at random, to try the tracker on.
use crate::rng::{SimpleRng, chance_from, range_from};
use vstd::prelude::*;

verus! {

/// A queue that moves at random.
#[derive(Debug)]
pub struct MockQueue {
    position: u32,
    tick: u32,
    interval_ms: u64,
    stall_every: u32,
    rng: SimpleRng,
}

/// The lesser of two numbers.
pub open spec fn lesser(a: int, b: int) -> int {
    if a < b {
        a
    } else {
        b
    }
}

/// By how many milliseconds a pause can be longer or shorter than the interval.
pub open spec fn jitter_span(interval_ms: u64) -> u64 {
    if interval_ms / 2 < 25 {
        25
    } else {
        interval_ms / 2
    }
}

/// The interval can be varied: the low half of the span leaves room for twice itself.
pub open spec fn is_paced(interval_ms: u64) -> bool {
    jitter_span(interval_ms) % 0x1_0000_0000 < 0x8000_0000
}

/// An unsigned number taken as a signed one of as many bits.
pub open spec fn as_signed(n: u64) -> int {
    if n <= i64::MAX {
        n as int
    } else {
        n - 0x1_0000_0000_0000_0000
    }
}

/// The interval, taken as a signed number and varied by the span, from the state of the generator,
/// and the state after it.
pub open spec fn varied_from(interval_ms: u64, state: u64) -> (int, u64) {
    let span = jitter_span(interval_ms);
    let (drawn, next) = range_from(state, 0, (2 * (span % 0x1_0000_0000)) as u32);
    (as_signed(interval_ms) + drawn - span, next)
}

/// The pause of a tick, from the state of the generator, and the state after it: the varied
/// interval, and 40 milliseconds at least.
pub open spec fn delay_from(interval_ms: u64, state: u64) -> (int, u64) {
    let (delay, next) = varied_from(interval_ms, state);
    (
        if delay < 40 {
            40
        } else {
            delay
        },
        next,
    )
}

/// Whether the queue stands still at a tick, and the state of the generator after it: at every
/// tick of a period, and now and then.
pub open spec fn stall_from(tick: u32, stall_every: u32, state: u64) -> (bool, u64) {
    let period: int = if stall_every < 2 {
        2
    } else {
        stall_every as int
    };
    if stall_every == 0 {
        (false, state)
    } else if tick as int % period == 0 {
        (true, state)
    } else {
        chance_from(state, 1, lesser(period + 2, u32::MAX as int) as u32)
    }
}

/// The places that the queue can move at once, but for a chance of one more.
pub open spec fn max_step(position: u32) -> u32 {
    if position > 40 {
        5
    } else if position > 15 {
        4
    } else {
        3
    }
}

/// By how many places the queue moves, and the state of the generator after it.
pub open spec fn step_from(position: u32, state: u64) -> (int, u64) {
    let (step, next) = range_from(
        state,
        1,
        lesser(max_step(position) as int, position as int) as u32,
    );
    let (extra, last) = chance_from(next, 1, 6);
    (
        if extra {
            lesser(step + 1, position as int)
        } else {
            step
        },
        last,
    )
}

/// The place after a tick, and the state of the generator after it.
pub open spec fn place_from(position: u32, tick: u32, stall_every: u32, state: u64) -> (int, u64) {
    let (stalls, next) = stall_from(tick, stall_every, state);
    if stalls {
        (position as int, next)
    } else {
        let (step, last) = step_from(position, next);
        (position - step, last)
    }
}

fn jitter(interval_ms: u64) -> (span: u64)
    ensures
        span == jitter_span(interval_ms),
{
    let half: u64 = interval_ms / 2;
    if half < 25 {
        25
    } else {
        half
    }
}

fn varied(interval_ms: u64, rng: &mut SimpleRng) -> (delay: i128)
    requires
        is_paced(interval_ms),
    ensures
        (delay as int, final(rng)@) == varied_from(interval_ms, old(rng)@),
        delay <= u64::MAX,
{
    let span: u64 = jitter(interval_ms);
    let low: u32 = (span % 0x1_0000_0000) as u32;
    let drawn: u32 = rng.range_inclusive(0, 2 * low);
    let interval: i128 = if interval_ms <= 0x7fff_ffff_ffff_ffff {
        interval_ms as i128
    } else {
        interval_ms as i128 - 0x1_0000_0000_0000_0000
    };
    interval + drawn as i128 - span as i128
}

impl MockQueue {
    /// The place at the end of the queue.
    pub closed spec fn spec_position(self) -> u32 {
        self.position
    }

    /// How many ticks have gone.
    pub closed spec fn spec_tick(self) -> u32 {
        self.tick
    }

    pub closed spec fn spec_interval_ms(self) -> u64 {
        self.interval_ms
    }

    pub closed spec fn spec_stall_every(self) -> u32 {
        self.stall_every
    }

    /// The state of the generator.
    pub closed spec fn rng_state(self) -> u64 {
        self.rng@
    }

    /// What never changes.
    pub open spec fn same_pace(self, other: MockQueue) -> bool {
        self.spec_interval_ms() == other.spec_interval_ms() && self.spec_stall_every()
            == other.spec_stall_every()
    }

    /// One more tick can be counted, and its pause can be told: the varied interval does not lie
    /// below all signed numbers.
    pub open spec fn has_tick(self) -> bool {
        &&& self.spec_tick() < u32::MAX
        &&& is_paced(self.spec_interval_ms())
        &&& varied_from(self.spec_interval_ms(), self.rng_state()).0 >= i64::MIN
    }

    /// A queue before its first tick.
    pub fn new(start_position: u32, interval_ms: u64, stall_every: u32, rng: SimpleRng) -> (queue:
        MockQueue)
        ensures
            queue.spec_position() == start_position,
            queue.spec_tick() == 0,
            queue.spec_interval_ms() == interval_ms,
            queue.spec_stall_every() == stall_every,
            queue.rng_state() == rng@,
    {
        MockQueue { position: start_position, tick: 0, interval_ms, stall_every, rng }
    }

    /// The place.
    pub fn position(&self) -> (position: u32)
        ensures
            position == self.spec_position(),
    {
        self.position
    }

    /// How many ticks have gone.
    pub fn ticks(&self) -> (ticks: u32)
        ensures
            ticks == self.spec_tick(),
    {
        self.tick
    }

    /// Whether there is one more tick.
    pub fn can_start_tick(&self) -> (can: bool)
        ensures
            can == self.has_tick(),
    {
        if self.tick == u32::MAX || jitter(self.interval_ms) % 0x1_0000_0000 >= 0x8000_0000 {
            return false;
        }
        let mut rng = self.rng.clone();
        varied(self.interval_ms, &mut rng) >= -0x8000_0000_0000_0000
    }

    /// Starts a tick, and tells how many milliseconds it lasts.
    pub fn start_tick(&mut self) -> (delay_ms: u64)
        requires
            old(self).has_tick(),
        ensures
            (delay_ms as int, final(self).rng_state()) == delay_from(
                old(self).spec_interval_ms(),
                old(self).rng_state(),
            ),
            final(self).spec_tick() == old(self).spec_tick() + 1,
            final(self).spec_position() == old(self).spec_position(),
            final(self).same_pace(*old(self)),
    {
        self.tick = self.tick + 1;
        let delay: i128 = varied(self.interval_ms, &mut self.rng);
        if delay < 40 {
            40
        } else {
            delay as u64
        }
    }

    fn stalls(&mut self) -> (stalls: bool)
        ensures
            (stalls, final(self).rng_state()) == stall_from(
                old(self).spec_tick(),
                old(self).spec_stall_every(),
                old(self).rng_state(),
            ),
            final(self).spec_tick() == old(self).spec_tick(),
            final(self).spec_position() == old(self).spec_position(),
            final(self).same_pace(*old(self)),
    {
        let period: u32 = if self.stall_every < 2 {
            2
        } else {
            self.stall_every
        };
        self.stall_every > 0 && (self.tick % period == 0 || self.rng.chance(
            1,
            period.saturating_add(2),
        ))
    }

    /// Ends a tick: the queue moves, or it stands still.
    pub fn finish_tick(&mut self)
        requires
            old(self).spec_position() > 0,
        ensures
            (final(self).spec_position() as int, final(self).rng_state()) == place_from(
                old(self).spec_position(),
                old(self).spec_tick(),
                old(self).spec_stall_every(),
                old(self).rng_state(),
            ),
            final(self).spec_tick() == old(self).spec_tick(),
            final(self).same_pace(*old(self)),
    {
        if self.stalls() {
            return;
        }
        let most: u32 = if self.position > 40 {
            5
        } else if self.position > 15 {
            4
        } else {
            3
        };
        let most: u32 = if most < self.position {
            most
        } else {
            self.position
        };
        let mut step: u32 = self.rng.range_inclusive(1, most);
        if self.rng.chance(1, 6) {
            step = if step + 1 < self.position {
                step + 1
            } else {
                self.position
            };
        }
        self.position = self.position - step;
    }
}

/// The queue moves on by one place at least wherever it does not stand still, and never past its
/// end.
pub proof fn law_queue_moves_on(position: u32, tick: u32, stall_every: u32, state: u64)
    requires
        position > 0,
    ensures
        0 <= place_from(position, tick, stall_every, state).0 <= position,
        !stall_from(tick, stall_every, state).0 ==> place_from(
            position,
            tick,
            stall_every,
            state,
        ).0 < position,
{
}

/// An interval up to `u32::MAX` always gives a pause, which differs from it by no more than the
/// span, but that it lasts 40 milliseconds at least.
pub proof fn law_pause_stays_near_the_interval(interval_ms: u64, state: u64)
    requires
        interval_ms <= u32::MAX,
    ensures
        is_paced(interval_ms),
        varied_from(interval_ms, state).0 >= i64::MIN,
        delay_from(interval_ms, state).0 >= 40,
        delay_from(interval_ms, state).0 == 40 || interval_ms - jitter_span(interval_ms)
            <= delay_from(interval_ms, state).0 <= interval_ms + jitter_span(interval_ms),
{
}

/// The span is half the interval, rounded down, and 25 milliseconds at least.
pub proof fn law_span_is_half_the_interval(interval_ms: u64)
    ensures
        jitter_span(interval_ms) >= 25,
        interval_ms >= 50 ==> 2 * jitter_span(interval_ms) <= interval_ms <= 2 * jitter_span(
            interval_ms,
        ) + 1,
        interval_ms < 50 ==> jitter_span(interval_ms) == 25,
{
}

/// The pause of a tick lies as far behind its shortest form, which is the interval less the span, as
/// the drawn number leaves over when it is divided by one more than twice the low half of the span;
/// it lasts 40 milliseconds at least.
pub proof fn law_pauses_follow_the_number(
    interval_ms: u64,
    high: int,
    low: int,
    state: u64,
    times: int,
    over: int,
)
    requires
        jitter_span(interval_ms) == high * 0x1_0000_0000 + low,
        0 <= low < 0x8000_0000,
        0 <= over <= 2 * low,
        crate::rng::output(crate::rng::next_state(state)) == times * (2 * low + 1) + over,
    ensures
        is_paced(interval_ms),
        ({
            let pause = as_signed(interval_ms) - jitter_span(interval_ms) + over;
            &&& varied_from(interval_ms, state).0 == pause
            &&& pause >= 40 ==> delay_from(interval_ms, state).0 == pause
            &&& pause < 40 ==> delay_from(interval_ms, state).0 == 40
            &&& low > 0 ==> delay_from(interval_ms, state).1 == crate::rng::next_state(state)
            &&& low == 0 ==> delay_from(interval_ms, state).1 == state
        }),
{
    assert(jitter_span(interval_ms) % 0x1_0000_0000 == low);
    if low > 0 {
        crate::rng::law_ranges_follow_the_number(state, 0, (2 * low) as u32, times, over);
    }
}

/// An unsigned number up to the greatest signed one is taken as it is, and one beyond as what lies
/// as far below zero as it lies below 2 to the power of 64.
pub proof fn law_signed_numbers_wrap(n: u64)
    ensures
        n <= 0x7fff_ffff_ffff_ffff ==> as_signed(n) == n,
        n > 0x7fff_ffff_ffff_ffff ==> as_signed(n) + 0x1_0000_0000_0000_0000 == n,
{
}

/// An interval can be varied if and only if the low half of its span is less than half of what it can
/// be at most.
pub proof fn law_intervals_are_paced_by_their_span(interval_ms: u64, high: int, low: int)
    requires
        jitter_span(interval_ms) == high * 0x1_0000_0000 + low,
        0 <= low < 0x1_0000_0000,
    ensures
        is_paced(interval_ms) <==> low < 0x8000_0000,
{
    assert(jitter_span(interval_ms) % 0x1_0000_0000 == low);
}

/// A queue with an interval up to `u32::MAX` has one more tick as long as ticks can be counted, and
/// no queue has one beyond.
pub proof fn law_queues_tick_on(queue: MockQueue)
    ensures
        queue.spec_interval_ms() <= u32::MAX && queue.spec_tick() < u32::MAX ==> queue.has_tick(),
        queue.spec_tick() == u32::MAX ==> !queue.has_tick(),
        queue.has_tick() ==> is_paced(queue.spec_interval_ms()) && varied_from(
            queue.spec_interval_ms(),
            queue.rng_state(),
        ).0 >= -0x8000_0000_0000_0000,
        queue.spec_interval_ms() <= i64::MAX && queue.spec_tick() < u32::MAX ==> (queue.has_tick()
            <==> is_paced(queue.spec_interval_ms())),
{
}

/// A queue that is never to stall never does. Any other stalls at each tick that is a multiple of its
/// period, without a draw, and otherwise by a chance of one in two more than the period. A period of
/// one counts as two.
pub proof fn law_queues_stall_by_their_period(tick: u32, stall_every: u32, times: int, state: u64)
    ensures
        stall_from(tick, 0, state) == (false, state),
        stall_every > 1 && tick == times * stall_every ==> stall_from(tick, stall_every, state) == (
            true,
            state,
        ),
        stall_from(tick, 1, state) == stall_from(tick, 2, state),
        stall_every >= u32::MAX - 1 && tick as int % stall_every as int != 0 ==> stall_from(
            tick,
            stall_every,
            state,
        ) == chance_from(state, 1, u32::MAX),
        1 < stall_every <= u32::MAX - 2 && tick as int % stall_every as int != 0 ==> stall_from(
            tick,
            stall_every,
            state,
        ) == chance_from(state, 1, (stall_every + 2) as u32),
{
    if stall_every > 1 && tick == times * stall_every {
        vstd::arithmetic::div_mod::lemma_fundamental_div_mod_converse(
            tick as int,
            stall_every as int,
            times,
            0,
        );
    }
}

/// How far a queue moves: by one place at least, and by five, four or three places and one more at
/// most, the less the shorter it is, and never past its end.
pub proof fn law_long_queues_move_faster(position: u32, state: u64)
    requires
        position > 0,
    ensures
        ({
            let moved = step_from(position, state).0;
            &&& 1 <= moved <= position
            &&& position > 40 ==> moved <= 6
            &&& 15 < position <= 40 ==> moved <= 5
            &&& position <= 15 ==> moved <= 4
        }),
{
}

/// How a step is drawn: the first number leaves over one less than the step when it is divided by the
/// places that can be moved, and the second one adds a place by a chance of one in six, if there is
/// one left.
pub proof fn law_steps_follow_the_numbers(position: u32, most: u32, state: u64, times: int, over: int)
    requires
        position > 0,
        position > 40 ==> most == 5,
        15 < position <= 40 ==> most == 4,
        3 <= position <= 15 ==> most == 3,
        position < 3 ==> most == position,
        0 <= over < most,
        crate::rng::output(crate::rng::next_state(state)) == times * most + over,
    ensures
        ({
            let next = if most > 1 {
                crate::rng::next_state(state)
            } else {
                state
            };
            let (extra, last) = chance_from(next, 1, 6);
            let (moved, after) = step_from(position, state);
            &&& after == last
            &&& !extra ==> moved == over + 1
            &&& extra && over + 1 < position ==> moved == over + 2
            &&& extra && over + 1 == position ==> moved == position
        }),
{
    if most > 1 {
        crate::rng::law_ranges_follow_the_number(state, 1, most, times, over);
    }
}

/// A tick leaves the queue where it is if it stalls, and moves it by a step otherwise.
pub proof fn law_ticks_stall_or_step(position: u32, tick: u32, stall_every: u32, state: u64)
    ensures
        ({
            let (stalls, next) = stall_from(tick, stall_every, state);
            let (place, last) = place_from(position, tick, stall_every, state);
            &&& stalls ==> place == position && last == next
            &&& !stalls ==> place + step_from(position, next).0 == position && last == step_from(
                position,
                next,
            ).1
        }),
{
}

} // verus!
