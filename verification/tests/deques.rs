use forkyou::deque::{
    pop_plan, push_plan, queue_len, steal_plan, Deque, PopPlan, PushPlan, StealPlan, MIN_CAP,
};

#[test]
fn the_owner_takes_the_newest_and_a_thief_the_oldest() {
    let mut deque = Deque::new();
    assert_eq!(deque.pop(), None);
    assert_eq!(deque.steal(), Err(true));

    assert!(!deque.push(1));
    assert!(deque.push(2));
    assert!(deque.push(3));
    assert_eq!(deque.len(), 3);

    assert_eq!(deque.steal(), Ok(1));
    assert_eq!(deque.pop(), Some(3));
    assert_eq!(deque.pop(), Some(2));
    assert_eq!(deque.pop(), None);
    assert_eq!(deque.steal(), Err(true));
    assert_eq!(deque.len(), 0);
    assert!(!deque.push(4));
    assert_eq!(deque.pop(), Some(4));
}

#[test]
fn nothing_is_lost_when_the_buffer_grows() {
    let mut deque: Deque<u32> = Deque::new();
    assert_eq!(deque.cap(), 0);
    let mut total = 0;
    for i in 0..1000 {
        deque.push(i);
        if i == 0 {
            assert_eq!(deque.cap(), MIN_CAP);
        }
        // a thief is at work.
        if i % 7 == 0 {
            total += deque.steal().unwrap();
        }
    }
    while let Some(v) = deque.pop() {
        total += v;
    }
    assert!(deque.cap() > 4 * MIN_CAP);
    assert_eq!(deque.cap(), 1024);
    assert_eq!(total, 999 * 1000 / 2);
}

#[test]
fn values_go_round_the_buffer() {
    let mut deque = Deque::new();
    for i in 0..MIN_CAP {
        deque.push(i);
    }
    for i in 0..100 {
        assert_eq!(deque.steal(), Ok(i));
        assert!(deque.push(i + MIN_CAP));
        assert_eq!(deque.cap(), MIN_CAP);
    }
    for i in 0..MIN_CAP {
        assert_eq!(deque.pop(), Some(100 + MIN_CAP - 1 - i));
    }
    assert_eq!(deque.pop(), None);
}

#[test]
fn lengths_wrap() {
    assert_eq!(queue_len(3, 5), 2);
    assert_eq!(queue_len(5, 3), -2);
    assert_eq!(queue_len(usize::MAX, 1), 2);
    assert_eq!(queue_len(0, usize::MAX), -1);
    assert_eq!(queue_len(0, isize::MAX as usize), isize::MAX);
    assert_eq!(queue_len(0, isize::MAX as usize + 1), isize::MIN);
}

#[test]
fn plans() {
    assert_eq!(
        push_plan(0, 0, 0),
        PushPlan { grow: Some(16), at: 0, next: 1, had_more: false }
    );
    assert_eq!(
        push_plan(0, 16, 16),
        PushPlan { grow: Some(32), at: 16, next: 17, had_more: true }
    );
    assert_eq!(
        push_plan(usize::MAX, usize::MAX, 16),
        PushPlan { grow: None, at: usize::MAX, next: 0, had_more: false }
    );

    assert_eq!(pop_plan(4, 4), PopPlan::Empty { end: 4 });
    assert_eq!(pop_plan(4, 6), PopPlan::Take { at: 5 });
    assert_eq!(pop_plan(4, 5), PopPlan::Race { at: 4, begin: 4, next: 5 });
    assert_eq!(
        pop_plan(usize::MAX, 0),
        PopPlan::Race { at: usize::MAX, begin: usize::MAX, next: 0 }
    );

    assert_eq!(steal_plan(4, 4), StealPlan::Empty);
    assert_eq!(steal_plan(4, 3), StealPlan::Empty);
    assert_eq!(steal_plan(4, 6), StealPlan::Try { at: 4, next: 5 });
    assert_eq!(steal_plan(usize::MAX, 1), StealPlan::Try { at: usize::MAX, next: 0 });
}

/// Two threads that take from a deque with `len` values: its owner, and a thief that has its turn
/// whenever a bit of `schedule` is set. What each one gets.
fn race(len: usize, schedule: u32) -> (Option<usize>, Option<usize>) {
    let mut begin = 0usize;
    let mut end = len;

    let mut owner_at = 0;
    let mut lowered = 0usize;
    let mut pop = PopPlan::Empty { end: 0 };
    let mut popped = None;

    let mut thief_at = 0;
    let mut seen_begin = 0usize;
    let mut steal = StealPlan::Empty;
    let mut stolen = None;

    let mut turn = 0;
    while owner_at < 3 || thief_at < 3 {
        let thief = (owner_at == 3 || schedule >> turn & 1 == 1) && thief_at < 3;
        turn += 1;
        if thief {
            match thief_at {
                0 => seen_begin = begin,
                1 => steal = steal_plan(seen_begin, end),
                _ => {
                    if let StealPlan::Try { at, next } = steal {
                        if begin == at {
                            begin = next;
                            stolen = Some(at);
                        }
                    }
                }
            }
            thief_at += 1;
        } else {
            match owner_at {
                0 => {
                    lowered = end;
                    end = end.wrapping_sub(1);
                }
                1 => pop = pop_plan(begin, lowered),
                _ => match pop {
                    PopPlan::Empty { end: restored } => end = restored,
                    PopPlan::Take { at } => popped = Some(at),
                    PopPlan::Race { at, begin: expected, next } => {
                        if begin == expected {
                            begin = next;
                            popped = Some(at);
                        }
                        end = next;
                    }
                },
            }
            owner_at += 1;
        }
    }
    let taken = popped.is_some() as isize + stolen.is_some() as isize;
    assert_eq!(queue_len(begin, end), len as isize - taken);
    (popped, stolen)
}

#[test]
fn a_value_is_taken_once_in_any_order() {
    let mut outcomes = Vec::new();
    for schedule in 0..64 {
        let (popped, stolen) = race(1, schedule);
        // one of the two gets it.
        assert!(popped.is_some() != stolen.is_some());
        assert!(popped.unwrap_or(0) == 0 && stolen.unwrap_or(0) == 0);
        outcomes.push(popped.is_some());

        let (popped, stolen) = race(2, schedule);
        assert!(popped.is_some());
        assert!(popped != stolen);

        let (popped, stolen) = race(3, schedule);
        assert_eq!(popped, Some(2));
        assert_eq!(stolen, Some(0));

        assert_eq!(race(0, schedule), (None, None));
    }
    assert!(outcomes.contains(&true));
    assert!(outcomes.contains(&false));
}
