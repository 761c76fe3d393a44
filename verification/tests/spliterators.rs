use forkyou::{IntoSpliterator, IntoSpliteratorRef, IntoSpliteratorRefMut, Spliterator, SpliteratorExt};

#[test]
fn slices_split_in_order() {
    let values = [1, 2, 3, 4, 5];
    let (mut lhs, mut rhs) = values.spliter().split(2);
    assert_eq!(lhs.len(), 2);
    assert_eq!(rhs.len(), 3);
    assert_eq!(lhs.next(), &1);
    assert_eq!(lhs.next(), &2);
    assert_eq!(lhs.len(), 0);
    assert_eq!(rhs.next(), &3);
    assert_eq!(rhs.next(), &4);
    assert_eq!(rhs.next(), &5);
}

#[test]
fn mutable_slices_split_in_order() {
    let mut values = [1, 2, 3, 4, 5];
    let (mut lhs, mut rhs) = values.spliter_mut().split(1);
    assert_eq!(lhs.len(), 1);
    assert_eq!(rhs.len(), 4);
    *rhs.next() += 10;
    *lhs.next() += 20;
    *rhs.next() += 30;
    assert_eq!(rhs.len(), 2);
    assert_eq!(values, [21, 12, 33, 4, 5]);
}

#[test]
fn a_split_at_an_end_leaves_nothing_there() {
    let values = [1, 2];
    let (lhs, rhs) = values.spliter().split(0);
    assert_eq!((lhs.len(), rhs.len()), (0, 2));
    let (lhs, rhs) = values.spliter().split(2);
    assert_eq!((lhs.len(), rhs.len()), (2, 0));
}

#[test]
fn items_are_numbered_across_a_split() {
    let values = ["a", "b", "c", "d"];
    let mut whole = values.spliter().enumerate();
    assert_eq!(whole.len(), 4);
    assert_eq!(whole.next(), (0, &"a"));
    let (mut lhs, mut rhs) = whole.split(1);
    assert_eq!(lhs.next(), (1, &"b"));
    assert_eq!(rhs.next(), (2, &"c"));
    assert_eq!(rhs.next(), (3, &"d"));
    assert_eq!(rhs.len(), 0);
}

#[test]
fn an_empty_half_keeps_its_number() {
    let values = ["a", "b"];
    let mut whole = values.spliter().enumerate();
    whole.next();
    let (lhs, rhs) = whole.split(0);
    assert_eq!((lhs.idx, lhs.len()), (1, 0));
    assert_eq!((rhs.idx, rhs.len()), (1, 1));
    let (lhs, rhs) = rhs.split(1);
    assert_eq!((lhs.idx, lhs.len()), (1, 1));
    assert_eq!((rhs.idx, rhs.len()), (2, 0));
}

#[test]
fn both_sides_of_a_zip_are_split_alike() {
    let zip = [1, 2, 3].spliter().zip_exact([4, 5, 6].spliter());
    let (lhs, rhs) = zip.split(1);
    assert_eq!((lhs.i1.len(), lhs.i2.len()), (1, 1));
    assert_eq!((rhs.i1.len(), rhs.i2.len()), (2, 2));
}

#[test]
fn zipped_items_stay_together() {
    let names = ["a", "b", "c"];
    let mut numbers = [1, 2, 3];
    {
        let zip = names.spliter().zip_exact(numbers.spliter_mut());
        assert_eq!(zip.len(), 3);
        let (mut lhs, mut rhs) = zip.split(1);
        let (name, number) = rhs.next();
        assert_eq!((*name, *number), ("b", 2));
        *number = 20;
        let (name, number) = lhs.next();
        assert_eq!((*name, *number), ("a", 1));
        *number = 10;
    }
    assert_eq!(numbers, [10, 20, 3]);
}

#[test]
fn copied_items_are_the_items() {
    let values = [4, 5];
    let mut iter = (&values[..]).into_spliterator().copied();
    assert_eq!(iter.len(), 2);
    assert_eq!(iter.next(), &4);
    let (lhs, mut rhs) = iter.split(0);
    assert_eq!(lhs.len(), 0);
    assert_eq!(rhs.next(), &5);
}
