use forkyou::rng::XorShift32;
use forkyou::worker::Worker;

#[test]
fn numbers_follow_each_other() {
    let mut rng = XorShift32::new();
    assert_eq!(rng.state, 0x517cc1b7);
    assert_eq!(rng.next(), 3758286674);
    assert_eq!(rng.next(), 569892326);
    assert_eq!(rng.next(), 2468702371);

    let mut rng = XorShift32::from_seed(1);
    assert_eq!(rng.next(), 270369);
    assert_eq!(rng.next(), 67634689);
    assert_eq!(rng.state, 67634689);
}

#[test]
fn numbers_stay_below() {
    let mut rng = XorShift32::from_seed(1);
    assert_eq!(rng.next_n(100), 0);
    assert_eq!(rng.next_n(100), 1);
    assert_eq!(rng.next_n(0), 0);
    for n in 1..1000 {
        assert!(rng.next_n(n) < n);
    }
    let mut rng = XorShift32::new();
    assert_eq!(rng.next_n(8), 7);
    assert_eq!(rng.next_n(8), 1);
    assert_eq!(rng.next_n(8), 4);
}

#[test]
fn zero_is_only_followed_by_zero() {
    assert_eq!(XorShift32::from_seed(0).next(), 0);
    let mut rng = XorShift32::new();
    for _ in 0..1000 {
        assert_ne!(rng.next(), 0);
    }
}

#[test]
fn different_numbers_are_followed_by_different_numbers() {
    let mut after = Vec::from_iter((0..5000).map(|x| XorShift32::from_seed(x).next()));
    after.sort();
    after.dedup();
    assert_eq!(after.len(), 5000);
}

#[test]
fn workers_are_seeded_by_their_address() {
    assert_eq!(Worker::<u32>::new(0).steal_rng.state, 1240649353);
    assert_eq!(Worker::<u32>::new(1).steal_rng.state, 1260785661);
    assert_eq!(Worker::<u32>::new(0x7fff00001000).steal_rng.state, 2484230549);
    assert_eq!(
        Worker::<u32>::new(0x1234).steal_rng.state,
        sti::hash::fxhash::fxhash32(&0x1234usize)
    );
}
