use vs_queue::mock::MockQueue;
use vs_queue::rng::SimpleRng;

#[test]
fn seeds_are_never_zero() {
    // The first number of a generator in state 1 and in the state of a missing clock.
    let mut one = SimpleRng::from_clock(Some(0));
    assert_eq!(one.next_u32(), 0x4082_2041);
    let mut same = SimpleRng::from_clock(Some(1));
    assert_eq!(same.next_u32(), 0x4082_2041);
    let mut wrapped = SimpleRng::from_clock(Some((1_u128 << 64) + 1));
    assert_eq!(wrapped.next_u32(), 0x4082_2041);
    let mut missing = SimpleRng::from_clock(None);
    let mut state: u64 = 0x9E37_79B9_7F4A_7C15;
    for _ in 0..1000 {
        state ^= state << 13;
        state ^= state >> 7;
        state ^= state << 17;
        assert_eq!(missing.next_u32(), state as u32);
    }
}

#[test]
fn clocks_seed_generators() {
    let mut first = SimpleRng::seeded();
    let mut other = SimpleRng::from_clock(None);
    let same = (0..8).all(|_| first.next_u32() == other.next_u32());
    assert!(!same);
}

#[test]
fn chances_follow_the_numbers() {
    let mut rng = SimpleRng::from_clock(Some(1));
    // 0x40822041 leaves 3 over when it is divided by 6.
    assert!(!rng.chance(3, 6));
    let mut rng = SimpleRng::from_clock(Some(1));
    assert!(rng.chance(4, 6));
    let mut rng = SimpleRng::from_clock(Some(1));
    assert!(!rng.chance(5, 0));
    // Nothing was drawn.
    assert_eq!(rng.next_u32(), 0x4082_2041);
}

#[test]
fn ranges_hold_their_numbers() {
    let mut rng = SimpleRng::from_clock(Some(1));
    assert_eq!(rng.range_inclusive(7, 7), 7);
    assert_eq!(rng.range_inclusive(9, 7), 9);
    assert_eq!(rng.range_inclusive(10, 19), 10 + 0x4082_2041 % 10);
    for _ in 0..1000 {
        let n = rng.range_inclusive(3, 5);
        assert!((3..=5).contains(&n));
    }
    assert!(rng.range_inclusive(1, u32::MAX) >= 1);
}

#[test]
fn queues_come_to_their_end() {
    let mut queue = MockQueue::new(90, 500, 3, SimpleRng::from_clock(Some(12_345)));
    let mut last = queue.position();
    while queue.position() > 0 {
        let delay = queue.start_tick();
        assert!((250..=750).contains(&delay));
        queue.finish_tick();
        assert!(queue.position() <= last);
        assert!(last - queue.position() <= 6);
        if queue.ticks() % 3 == 0 {
            assert_eq!(queue.position(), last);
        }
        last = queue.position();
        assert!(queue.ticks() < 10_000);
    }
}

#[test]
fn queues_that_never_stall_move_at_every_tick() {
    let mut queue = MockQueue::new(60, 10, 0, SimpleRng::from_clock(Some(99)));
    while queue.position() > 0 {
        let before = queue.position();
        let delay = queue.start_tick();
        assert!((40..=41).contains(&delay));
        queue.finish_tick();
        assert!(queue.position() < before);
    }
    assert!(queue.ticks() <= 60);
}

#[test]
fn intervals_must_leave_room() {
    let can = |interval_ms: u64| {
        MockQueue::new(90, interval_ms, 3, SimpleRng::from_clock(Some(1))).can_start_tick()
    };
    assert!(can(0));
    assert!(can(500));
    assert!(can(0xffff_ffff));
    assert!(!can(0x1_0000_0000));
    assert!(can(0x2_0000_0000));
    assert!(can(0x7fff_fffe_0000_0000));
    // Taken as signed numbers these lie too far below zero.
    assert!(!can(0x8000_0000_0000_0000));
    assert!(!can(u64::MAX));
}

#[test]
fn asking_for_a_tick_draws_nothing() {
    let mut asked = MockQueue::new(90, 500, 3, SimpleRng::from_clock(Some(1)));
    let mut other = MockQueue::new(90, 500, 3, SimpleRng::from_clock(Some(1)));
    assert!(asked.can_start_tick());
    assert!(asked.can_start_tick());
    assert_eq!(asked.start_tick(), other.start_tick());
    assert_eq!(asked.ticks(), 1);
}
