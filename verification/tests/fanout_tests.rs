use relay_core::{
    FANOUT_CAPACITY, ONE_SHOT_SEQUENCE, PeriodicSource, PollOutcome, Reading, StreamFanout,
    read_once,
};

#[test]
fn sequences_are_consecutive_from_one() {
    let mut source = PeriodicSource::new();
    let r1 = source.tick(10);
    let r2 = source.tick(20);
    let r3 = source.tick(30);
    assert_eq!(r1.sequence, 1);
    assert_eq!(r2.sequence, r1.sequence + 1);
    assert_eq!(r3.sequence, r2.sequence + 1);
    assert_eq!(r1.value_bits, 10);
    assert_eq!(r3.value_bits, 30);
}

#[test]
fn one_shot_reading_is_marked() {
    let r = read_once(42);
    assert_eq!(r.value_bits, 42);
    assert_eq!(r.sequence, ONE_SHOT_SEQUENCE);
}

#[test]
fn subscriber_sees_publications_in_order() {
    let mut fanout = StreamFanout::new();
    let mut source = PeriodicSource::new();
    let mut handle = fanout.subscribe();
    for bits in [7u32, 8, 9] {
        let r = source.tick(bits);
        fanout.publish(r);
    }
    for expected in 1..=3i32 {
        match fanout.poll(&mut handle) {
            PollOutcome::Item(r) => assert_eq!(r.sequence, expected),
            _ => panic!("an attached subscriber sees every later publication"),
        }
    }
    assert_eq!(fanout.poll(&mut handle), PollOutcome::Empty);
}

#[test]
fn slow_subscriber_observes_gap_and_resumes() {
    let mut fanout = StreamFanout::new();
    let mut source = PeriodicSource::new();
    let mut slow = fanout.subscribe();
    let published: i32 = 20;
    for _ in 0..published {
        let r = source.tick(0);
        // never blocks, whatever the subscriber's read rate
        fanout.publish(r);
    }
    // the slow subscriber lost the oldest entries and resumes at the oldest
    // retained reading
    assert_eq!(fanout.poll(&mut slow), PollOutcome::Lagged);
    let first_retained = published - FANOUT_CAPACITY as i32 + 1;
    for expected in first_retained..=published {
        match fanout.poll(&mut slow) {
            PollOutcome::Item(r) => assert_eq!(r.sequence, expected),
            _ => panic!("the most recent readings are still delivered"),
        }
    }
    assert_eq!(fanout.poll(&mut slow), PollOutcome::Empty);
}

#[test]
fn other_subscribers_are_unaffected_by_a_slow_one() {
    let mut fanout = StreamFanout::new();
    let mut slow = fanout.subscribe();
    for i in 0..40i32 {
        fanout.publish(Reading { value_bits: i as u32, sequence: i + 1 });
    }
    // a subscriber attached now starts from the present, unaffected by the
    // slow one's backlog
    let mut fresh = fanout.subscribe();
    assert_eq!(fanout.poll(&mut fresh), PollOutcome::Empty);
    fanout.publish(Reading { value_bits: 0, sequence: 41 });
    match fanout.poll(&mut fresh) {
        PollOutcome::Item(r) => assert_eq!(r.sequence, 41),
        _ => panic!("a fresh subscriber sees the next publication"),
    }
    assert_eq!(fanout.poll(&mut slow), PollOutcome::Lagged);
}
