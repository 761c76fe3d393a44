use core::mem::MaybeUninit;
use core::sync::atomic::{AtomicU32, Ordering};

use forkyou::for_each::for_each_on;
use forkyou::map::{map_core_on, map_into_on, map_on};
use forkyou::splitter::Splitter;
use forkyou::{
    join, join_on_worker, map_core, map_into, on_worker, Fork, IntoSpliterator, IntoSpliteratorRef,
    IntoSpliteratorRefMut, LoneWorker, Spliterator, SpliteratorExt,
};

/// A worker whose second task is always stolen by the other one, and done before the first.
struct Robbed {
    number: usize,
}

const ROBBED: Robbed = Robbed { number: 0 };

impl Fork for Robbed {
    fn number(&self) -> usize {
        self.number
    }

    fn num_workers(&self) -> usize {
        4
    }

    fn join_with<A1: Send, R1: Send, F1, A2: Send, R2: Send, F2>(
        &self,
        a1: A1,
        f1: F1,
        a2: A2,
        f2: F2,
    ) -> (R1, R2)
    where
        F1: FnOnce(&Self, bool, A1) -> R1 + Send,
        F2: FnOnce(&Self, bool, A2) -> R2 + Send,
    {
        let thief = Robbed { number: 1 - self.number };
        let r2 = f2(&thief, true, a2);
        let r1 = f1(self, false, a1);
        (r1, r2)
    }
}

#[test]
fn for_each() {
    let mut values = Vec::from_iter(0..100);

    let result = AtomicU32::new(0);
    forkyou::for_each(values.spliter(), |v| {
        result.fetch_add(*v, Ordering::Relaxed);
    });
    assert_eq!(result.load(Ordering::Relaxed), 99 * 100 / 2);

    forkyou::for_each(values.spliter_mut(), |v| *v += 1);

    let result = AtomicU32::new(0);
    forkyou::for_each(values.spliter(), |v| {
        result.fetch_add(*v, Ordering::Relaxed);
    });
    assert_eq!(result.load(Ordering::Relaxed), 100 * 101 / 2);
}

#[test]
fn for_each_of_nothing() {
    let values: Vec<u32> = Vec::new();
    let calls = AtomicU32::new(0);
    forkyou::for_each(values.spliter(), |_| {
        calls.fetch_add(1, Ordering::Relaxed);
    });
    assert_eq!(calls.load(Ordering::Relaxed), 0);
}

#[test]
fn for_each_is_called_once_with_each_item() {
    for n in 0..40usize {
        let mut counts = vec![0u32; n];
        for_each_on(&ROBBED, counts.spliter_mut(), |v| *v += 1);
        assert_eq!(counts, vec![1u32; n]);

        let mut counts = vec![0u32; n];
        for_each_on(&LoneWorker, counts.spliter_mut(), |v| *v += 1);
        assert_eq!(counts, vec![1u32; n]);
    }
}

#[test]
fn sum() {
    fn sum(values: &[i32]) -> i32 {
        if values.len() > 3 {
            let m1 = values.len() / 3;
            let m2 = 2 * m1;

            let (l, (m, r)) = join(
                move || sum(&values[..m1]),
                move || join(move || sum(&values[m1..m2]), move || sum(&values[m2..])),
            );

            return l + m + r;
        } else {
            values.iter().sum()
        }
    }

    let values = Vec::from_iter(0..100);
    let result = sum(&values);
    assert_eq!(result, 99 * 100 / 2);
}

#[test]
fn join_returns_both() {
    assert_eq!(join(|| 1, || "two"), (1, "two"));

    let (a, b) = join_on_worker(
        &ROBBED,
        |worker: &Robbed, stolen: bool| ("first", worker.number, stolen),
        |worker: &Robbed, stolen: bool| ("second", worker.number, stolen),
    );
    assert_eq!(a, ("first", 0, false));
    assert_eq!(b, ("second", 1, true));

    let (a, b) = join_on_worker(
        &LoneWorker,
        |_: &LoneWorker, stolen: bool| ("first", stolen),
        |_: &LoneWorker, stolen: bool| ("second", stolen),
    );
    assert_eq!(a, ("first", false));
    assert_eq!(b, ("second", false));
}

#[test]
fn threads_that_are_no_workers_leave_it_to_one() {
    let one = Robbed { number: 1 };
    let other = Robbed { number: 2 };
    let f = |worker: &Robbed, stolen: bool| (worker.number, stolen);
    assert_eq!(on_worker(Some(&one), &other, f), (1, false));
    assert_eq!(on_worker(None, &other, f), (2, true));
}

#[test]
fn map() {
    let values = Vec::from_iter(0..100);

    let squared = forkyou::map::map(values.spliter().copied(), |v| v * v);
    assert_eq!(squared.cap(), 100);
    assert_eq!(squared.len(), 100);

    for (i, v) in values.iter().copied().enumerate() {
        assert_eq!(*squared.get(i), v * v)
    }
}

#[test]
fn map_keeps_the_order() {
    for n in 0..40usize {
        let values = Vec::from_iter(0..n);
        let alone = map_on(&LoneWorker, values.spliter(), |v| 3 * v);
        let robbed = map_on(&ROBBED, values.spliter(), |v| 3 * v);
        assert_eq!(alone.len(), n);
        assert_eq!(robbed.len(), n);
        assert_eq!(alone.cap(), n);
        assert_eq!(robbed.cap(), n);
        for i in 0..n {
            assert_eq!(*alone.get(i), 3 * i);
            assert_eq!(*robbed.get(i), 3 * i);
        }
    }
}

#[test]
fn map_into_adds_at_the_end() {
    let values: Vec<u32> = Vec::from_iter(0..10);
    let mut result = forkyou::map::map(values.spliter(), |v| v + 100);
    assert_eq!(result.cap(), 10);

    map_into(&mut result, values.spliter(), |v| v + 200);
    assert_eq!(result.len(), 20);
    assert_eq!(result.cap(), 20);

    map_into_on(&ROBBED, &mut result, values[..1].spliter(), |v| v + 300);
    assert_eq!(result.len(), 21);
    assert_eq!(result.cap(), 40);

    map_into(&mut result, values.spliter(), |v| v + 400);
    assert_eq!(result.len(), 31);
    assert_eq!(result.cap(), 40);

    for i in 0..10usize {
        assert_eq!(*result.get(i), 100 + i as u32);
        assert_eq!(*result.get(10 + i), 200 + i as u32);
        assert_eq!(*result.get(21 + i), 400 + i as u32);
    }
    assert_eq!(*result.get(20), 300);
}

#[test]
fn a_small_vector_grows_to_sixteen_bytes() {
    let one = [7u8];
    let nothing: [u8; 0] = [];
    let mut result = forkyou::map::map(nothing.spliter(), |v| *v);
    assert_eq!(result.cap(), 0);
    assert!(result.has_room(0) && result.has_room(isize::MAX as usize));
    assert!(!result.has_room(isize::MAX as usize + 1));
    map_into(&mut result, one.spliter(), |v| *v);
    assert_eq!(result.cap(), 16);
    assert_eq!(*result.get(0), 7);

    let mut result = forkyou::map::map(nothing.spliter(), |v| *v as u64);
    map_into(&mut result, one.spliter(), |v| *v as u64);
    assert_eq!(result.cap(), 4);

    let mut result = forkyou::map::map(nothing.spliter(), |v| [*v; 300]);
    assert!(result.has_room(isize::MAX as usize / 300));
    assert!(!result.has_room(isize::MAX as usize / 300 + 1));
    assert!(!result.has_room(usize::MAX));
    map_into(&mut result, one.spliter(), |v| [*v; 300]);
    assert_eq!(result.cap(), 1);
}

#[test]
fn map_core_fills_the_slots() {
    let values: Vec<u32> = Vec::from_iter(0..33);

    let mut slots: Vec<Option<u32>> = vec![None; 33];
    map_core_on(&ROBBED, values.spliter(), &mut slots, |v| v * 2);
    assert_eq!(slots, Vec::from_iter((0..33).map(|v| Some(v * 2))));

    let calls = AtomicU32::new(0);
    let mut slots: Vec<MaybeUninit<u32>> = Vec::new();
    for _ in 0..33 {
        slots.push(MaybeUninit::uninit());
    }
    map_core(values.spliter(), &mut slots, |v| calls.fetch_add(*v, Ordering::Relaxed));
    assert_eq!(calls.load(Ordering::Relaxed), 32 * 33 / 2);
}

#[test]
fn a_mapped_vector_can_be_walked_and_changed() {
    let values: Vec<u32> = Vec::from_iter(0..10);
    let mut result = forkyou::map::map(values.spliter(), |v| *v);
    forkyou::for_each((&mut result).into_spliterator(), |v| *v += 5);
    let again = forkyou::map::map((&result).into_spliterator(), |v| v * 10);
    for i in 0..10usize {
        assert_eq!(*again.get(i), (i as u32 + 5) * 10);
    }
    forkyou::for_each(result.spliter_mut(), |v| *v += 1);
    assert_eq!(result.spliter().len(), 10);
    assert_eq!(*result.get(9), 15);
}

#[test]
fn splitters_halve() {
    let mut splitter = Splitter::new(4);
    assert!(!splitter.try_split(0, None));
    assert!(!splitter.try_split(1, Some(8)));
    assert!(splitter.try_split(100, None));
    assert!(splitter.try_split(100, None));
    assert!(!splitter.try_split(100, None));
    // one that was stolen starts over.
    assert!(splitter.try_split(100, Some(2)));
    assert!(splitter.try_split(2, None));
    assert!(!splitter.try_split(2, None));
}

#[test]
fn work_is_done_in_as_many_pieces_as_asked_for() {
    /// Counts the pieces: one more at each split.
    fn pieces(splitter: Splitter, len: usize) -> usize {
        let mut splitter = splitter;
        if splitter.try_split(len, None) {
            pieces(splitter, len / 2) + pieces(splitter, len - len / 2)
        } else {
            1
        }
    }
    assert_eq!(pieces(Splitter::new(8), 100), 8);
    assert_eq!(pieces(Splitter::new(7), 100), 4);
    assert_eq!(pieces(Splitter::new(1), 100), 1);
    assert_eq!(pieces(Splitter::new(0), 100), 1);
    assert_eq!(pieces(Splitter::new(8), 3), 3);
}
