use forkyou::StateCache;

#[test]
fn what_was_kept_last_comes_first() {
    let mut cache = StateCache::new();
    assert_eq!(cache.pop(), None);
    cache.push("a");
    cache.push("b");
    assert_eq!(cache.pop(), Some("b"));
    cache.push("c");
    assert_eq!(cache.pop(), Some("c"));
    assert_eq!(cache.pop(), Some("a"));
    assert_eq!(cache.pop(), None);
}

#[test]
fn a_cache_outgrows_its_room() {
    let mut cache = StateCache::with_cap(2);
    for i in 0..100 {
        cache.push(i);
    }
    for i in 0..100 {
        assert_eq!(cache.pop(), Some(99 - i));
    }
    assert_eq!(cache.pop(), None);

    let mut cache = StateCache::with_cap_ncpu(forkyou::ncpu(None));
    cache.push(vec![1]);
    assert_eq!(cache.pop(), Some(vec![1]));
}

#[test]
fn there_is_room_for_what_can_be_addressed() {
    let mut cache = StateCache::new();
    assert!(cache.has_room());
    cache.push([0u8; 1000]);
    assert!(cache.has_room());

    let mut cache = StateCache::with_cap(usize::MAX);
    assert!(cache.has_room());
    cache.push(());
    assert_eq!(cache.pop(), Some(()));
}

#[test]
fn processors() {
    assert_eq!(forkyou::ncpu(Some(8)), 8);
    assert_eq!(forkyou::ncpu(None), 1);
}
