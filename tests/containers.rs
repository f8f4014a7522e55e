use mario::fixed_bag::FixedBag;
use mario::fixed_queue::FixedQueue;
use mario::stand_window::StandWindow;

#[test]
fn queue_keeps_order_and_evicts_oldest_when_full() {
    let mut q: FixedQueue<u32, 3> = FixedQueue::new();
    assert_eq!(q.push_pop(1), None);
    assert_eq!(q.push_pop(2), None);
    assert_eq!(q.push_pop(3), None);
    assert_eq!(q.len(), 3);
    assert_eq!(q.push_pop(4), Some(1));
    assert_eq!(q.len(), 3);
    assert_eq!(q.get(0), Some(&2));
    assert_eq!(q.get(2), Some(&4));
    assert_eq!(q.pop(), Some(2));
    assert_eq!(q.pop(), Some(3));
    assert_eq!(q.pop(), Some(4));
    assert_eq!(q.pop(), None);
    assert_eq!(q.len(), 0);
}

#[test]
fn queue_get_past_length_is_none() {
    let mut q: FixedQueue<u8, 4> = FixedQueue::new();
    q.push_pop(9);
    assert_eq!(q.get(0), Some(&9));
    assert_eq!(q.get(1), None);
    assert_eq!(q.get(3), None);
}

#[test]
fn queue_clear_empties() {
    let mut q: FixedQueue<u8, 2> = FixedQueue::new();
    q.push_pop(1);
    q.push_pop(2);
    q.clear();
    assert_eq!(q.len(), 0);
    assert_eq!(q.pop(), None);
    assert_eq!(q.push_pop(5), None);
    assert_eq!(q.get(0), Some(&5));
}

#[test]
fn queue_wraps_around_many_times() {
    let mut q: FixedQueue<u32, 3> = FixedQueue::new();
    for i in 0..20u32 {
        let out = q.push_pop(i);
        if i < 3 {
            assert_eq!(out, None);
        } else {
            assert_eq!(out, Some(i - 3));
        }
    }
    assert_eq!(q.get(0), Some(&17));
    assert_eq!(q.get(1), Some(&18));
    assert_eq!(q.get(2), Some(&19));
}

#[test]
fn bag_push_fills_first_free_slot() {
    let mut b: FixedBag<u32, 3> = FixedBag::new();
    assert_eq!(b.push(10), Ok(0));
    assert_eq!(b.push(11), Ok(1));
    b.remove(0);
    assert_eq!(b.push(12), Ok(0));
    assert_eq!(b.push(13), Ok(2));
    assert_eq!(b.push(14), Err(14));
    assert_eq!(b.get(1), Some(&11));
    assert_eq!(b.get(7), None);
}

#[test]
fn bag_take_remove_clear() {
    let mut b: FixedBag<u32, 2> = FixedBag::new();
    b.push(1).unwrap();
    b.push(2).unwrap();
    assert_eq!(b.take(1), Some(2));
    assert_eq!(b.take(1), None);
    assert_eq!(b.take(5), None);
    b.remove(9);
    assert_eq!(b.get(0), Some(&1));
    b.clear();
    assert_eq!(b.get(0), None);
}

#[test]
fn bag_iter_lists_full_slots_in_order() {
    let mut b: FixedBag<u32, 4> = FixedBag::new();
    b.push(5).unwrap();
    b.push(6).unwrap();
    b.push(7).unwrap();
    b.remove(1);
    assert_eq!(b.iter(), vec![(0, 5), (2, 7)]);
}

#[test]
fn bag_iter_filter_drops_rejected() {
    let mut b: FixedBag<u32, 4> = FixedBag::new();
    for v in [1u32, 2, 3, 4] {
        b.push(v).unwrap();
    }
    b.iter_filter(|x: &u32| *x % 2 == 0);
    assert_eq!(b.iter(), vec![(1, 2), (3, 4)]);
}

#[test]
fn bag_get_mut_changes_slot() {
    let mut b: FixedBag<u32, 2> = FixedBag::new();
    b.push(1).unwrap();
    if let Some(x) = b.get_mut(0) {
        *x = 42;
    }
    assert_eq!(b.get(0), Some(&42));
    assert!(b.get_mut(1).is_none());
}

#[test]
fn window_round_trip_and_eviction() {
    let mut w = StandWindow::new();
    for c in 0..40u32 {
        w.push(c * 3 + 1);
    }
    for c in 0..40usize {
        let expected = if c >= 8 { c as u32 * 3 + 1 } else { 0 };
        assert_eq!(w.mask_at(c), expected);
    }
    assert_eq!(w.mask_at(40), 0);
    assert_eq!(w.mask_at(1000), 0);
}

#[test]
fn window_holds_everything_up_to_capacity() {
    let mut w = StandWindow::new();
    for c in 0..32u32 {
        w.push(0x100 + c);
    }
    for c in 0..32usize {
        assert_eq!(w.mask_at(c), 0x100 + c as u32);
    }
    assert_eq!(w.mask_at(32), 0);
}
