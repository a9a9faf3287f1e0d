use cozal::{KeyBound, PinStack, SparseBufferStack};

#[test]
fn basic_test() {
    let mut stack: SparseBufferStack<usize, (usize, usize), 10> = SparseBufferStack::new(17, |i: &usize| (*i, 0));

    let dup = |prev_b: &(usize, usize), i: &usize| (*i, prev_b.1 + 2);

    let refurb = |b: (usize, usize), i: &usize| (*i, b.1 + 2);

    // the items here are 17, 18, 19, ...
    // the buffered items are 2, 4, 6, 8, ... each paired with the corresponding item
    for _ in 0..100 {
        stack.push(|x: &usize| x + 1);
        let index = stack.len() - 1;
        assert!(stack.buffer(index, dup, refurb).is_ok());
    }

    // buffer an item based on an old checkpoint
    assert!(stack.buffer(65, dup, refurb).is_ok());

    // buffer an item which skips cloning
    assert!(stack.buffer(66, dup, refurb).is_ok());

    // buffer an item which doesn't have the previous buffer available
    assert!(stack.buffer(69, dup, refurb).is_err());

    // buffer a non existent item
    assert!(stack.buffer(1000, dup, refurb).is_err());

    // find the last buffered index
    assert_eq!(stack.last_buffered_index_by(69, |x: &usize| (*x - 17) as u64), 66);
}

#[test]
fn sparse_stack_buffers_from_the_item_below() {
    let mut stack: SparseBufferStack<usize, (usize, usize), 4> = SparseBufferStack::new(1, |i: &usize| (*i, 0));
    stack.push(|x: &usize| x * 10);
    let dup = |prev_b: &(usize, usize), i: &usize| (*i, prev_b.1 + 1);
    let refurb = |b: (usize, usize), i: &usize| (*i, b.1 + 100);
    let (item, value) = stack.buffer(1, dup, refurb).unwrap();
    assert_eq!(*item, 10);
    assert_eq!(*value, (10, 1));
    let (item, value) = stack.get_pinned_mut(1).unwrap();
    assert_eq!(*item, 10);
    assert_eq!(value.map(|v| *v), Some((10, 1)));
}

#[test]
fn sparse_stack_keeps_its_bottom_item() {
    let mut stack: SparseBufferStack<u64, u64, 2> = SparseBufferStack::new(5, |i: &u64| *i);
    assert!(!stack.can_pop());
    assert!(!stack.pop());
    assert_eq!(stack.pop_recover(), None);
    stack.push(|x: &u64| x + 1);
    assert!(stack.can_pop());
    assert_eq!(*stack.peek(), 6);
    assert_eq!(stack.pop_recover(), Some(6));
    assert_eq!(stack.len(), 1);
    assert_eq!(stack.get(0), Some(&5));
    assert_eq!(stack.get(1), None);
}

#[test]
fn sparse_stack_finds_and_indexes_by_key() {
    let mut stack: SparseBufferStack<u64, u64, 3> = SparseBufferStack::new(0, |i: &u64| *i);
    for _ in 0..9 {
        stack.push(|x: &u64| x + 10);
    }
    assert_eq!(stack.last_index_by(45, |x: &u64| *x), 4);
    assert_eq!(stack.last_index_by(90, |x: &u64| *x), 9);
    assert_eq!(stack.last_index_by(1000, |x: &u64| *x), 9);
    assert_eq!(stack.find(|x: &u64| *x > 35), Some(&40));
    assert_eq!(stack.find(|x: &u64| *x > 1000), None);
    assert_eq!(stack.last_buffered_index_by(90, |x: &u64| *x), 0);
    *stack.peek_pinned_mut() = 91;
    assert_eq!(*stack.peek(), 91);
}

#[test]
fn pin_stack_keeps_items_in_place() {
    let mut stack = PinStack::new();
    assert!(stack.empty());
    for i in 0..1000u64 {
        stack.push(i);
    }
    assert_eq!(stack.len(), 1000);
    assert!(stack.capacity() >= 1000);
    for i in 0..1000usize {
        assert_eq!(stack.get(i), Some(&(i as u64)));
    }
    assert_eq!(stack.get(1000), None);
    *stack.get_mut(513).unwrap() = 7;
    assert_eq!(stack.get(513), Some(&7));
    assert_eq!(stack.get(512), Some(&512));
    assert_eq!(stack.peek(), Some(&999));
    for i in (0..1000u64).rev() {
        if i == 513 {
            assert_eq!(stack.pop_recover(), Some(7));
        } else {
            assert_eq!(stack.pop_recover(), Some(i));
        }
    }
    assert_eq!(stack.pop_recover(), None);
    assert!(!stack.pop());
    assert!(stack.empty());
}

#[test]
fn pin_stack_pop_undoes_push() {
    let mut stack = PinStack::new();
    stack.push(1u8);
    stack.push(2u8);
    stack.push(3u8);
    assert!(stack.pop());
    assert_eq!(stack.len(), 2);
    *stack.peek_mut().unwrap() = 20;
    assert_eq!(stack.get(0), Some(&1));
    assert_eq!(stack.get(1), Some(&20));
    stack.reserve(100);
    assert!(stack.capacity() >= 102);
}

#[test]
fn pin_stack_range_by_key() {
    let mut stack = PinStack::new();
    for k in [1u64, 3, 3, 5, 8, 13] {
        stack.push(k);
    }
    let mut range = stack.range_by(KeyBound::Included(3), KeyBound::Excluded(8), |x: &u64| *x);
    assert_eq!(range.next(), Some((1, &3)));
    assert_eq!(range.next_back(), Some((3, &5)));
    assert_eq!(range.next(), Some((2, &3)));
    assert_eq!(range.next(), None);
    assert_eq!(range.next_back(), None);

    let mut all = stack.range_by(KeyBound::Unbounded, KeyBound::Unbounded, |x: &u64| *x);
    let mut seen = Vec::new();
    while let Some((i, k)) = all.next() {
        seen.push((i, *k));
    }
    assert_eq!(seen, vec![(0, 1), (1, 3), (2, 3), (3, 5), (4, 8), (5, 13)]);

    // the front of a range is clamped to the last item: a start past every key
    // still yields the last item
    let mut clamped = stack.range_by(KeyBound::Excluded(13), KeyBound::Unbounded, |x: &u64| *x);
    assert_eq!(clamped.next(), Some((5, &13)));
    assert_eq!(clamped.next(), None);

    let mut empty = stack.range_by(KeyBound::Included(6), KeyBound::Included(7), |x: &u64| *x);
    assert_eq!(empty.next(), None);
}

#[test]
fn pin_stack_range_of_equal_keys() {
    let mut stack: PinStack<u64> = PinStack::new();
    for x in [10u64, 20, 20, 30] {
        stack.push(x);
    }
    let key = |x: &u64| *x;
    let mut both = stack.range_by(KeyBound::Included(20), KeyBound::Included(20), key);
    assert_eq!(both.next(), Some((1, &20)));
    assert_eq!(both.next(), Some((2, &20)));
    assert_eq!(both.next(), None);
    let mut back = stack.range_by(KeyBound::Included(20), KeyBound::Included(20), key);
    assert_eq!(back.next_back(), Some((2, &20)));
    assert_eq!(back.next_back(), Some((1, &20)));
    assert_eq!(back.next_back(), None);
    let mut after = stack.range_by(KeyBound::Excluded(20), KeyBound::Unbounded, key);
    assert_eq!(after.next(), Some((3, &30)));
    assert_eq!(after.next(), None);
    let mut before = stack.range_by(KeyBound::Unbounded, KeyBound::Excluded(20), key);
    assert_eq!(before.next(), Some((0, &10)));
    assert_eq!(before.next(), None);
}
