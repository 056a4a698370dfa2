use const_queue::{ConstQueue, QueueErr};
use std::collections::VecDeque;

#[test]
fn fresh_queue_holds_nothing() {
    let mut q = ConstQueue::<u8, 8>::new();
    assert!(q.empty());
    assert_eq!(q.peek(), Err(QueueErr::Empty));
    assert_eq!(q.pop(), Err(QueueErr::Empty));
    assert_eq!(q.next(), None);
}

#[test]
fn every_push_succeeds_while_room_is_left() {
    let mut q = ConstQueue::<u32, 6>::new();
    for i in 0..5u32 {
        assert_eq!(q.push(i), Ok(()));
        assert!(!q.empty());
    }
}

#[test]
fn takes_exactly_size_minus_one_pushes() {
    let mut q = ConstQueue::<u32, 5>::new();
    let mut taken = 0;
    for i in 0..20u32 {
        if q.push(i).is_ok() {
            taken += 1;
        }
    }
    assert_eq!(taken, 4);
    assert_eq!(q.push(99), Err(QueueErr::QueueFull));
}

#[test]
fn failed_push_changes_nothing() {
    let mut q = ConstQueue::<i32, 4>::new();
    assert_eq!(q.push(1), Ok(()));
    assert_eq!(q.push(2), Ok(()));
    assert_eq!(q.push(3), Ok(()));
    assert_eq!(q.push(4), Err(QueueErr::QueueFull));
    assert_eq!(q.push(5), Err(QueueErr::QueueFull));
    assert_eq!(q.peek(), Ok(&1));
    assert_eq!(q.pop(), Ok(1));
    assert_eq!(q.pop(), Ok(2));
    assert_eq!(q.pop(), Ok(3));
    assert_eq!(q.pop(), Err(QueueErr::Empty));
}

#[test]
fn pops_come_in_push_order() {
    let mut q = ConstQueue::<char, 8>::new();
    let pushed = ['a', 'b', 'c', 'd', 'e', 'f', 'g'];
    for c in pushed {
        assert_eq!(q.push(c), Ok(()));
    }
    for c in pushed {
        assert_eq!(q.pop(), Ok(c));
    }
    assert_eq!(q.pop(), Err(QueueErr::Empty));
}

#[test]
fn freed_slot_is_used_again() {
    let mut q = ConstQueue::<i32, 4>::new();
    assert_eq!(q.push(1), Ok(()));
    assert_eq!(q.push(2), Ok(()));
    assert_eq!(q.push(3), Ok(()));
    assert_eq!(q.pop(), Ok(1));
    assert_eq!(q.push(4), Ok(()));
    assert_eq!(q.push(5), Err(QueueErr::QueueFull));
    assert_eq!(q.pop(), Ok(2));
    assert_eq!(q.pop(), Ok(3));
    assert_eq!(q.pop(), Ok(4));
    assert!(q.empty());
}

#[test]
fn order_holds_over_many_rounds() {
    let mut q = ConstQueue::<u64, 4>::new();
    assert_eq!(q.push(0), Ok(()));
    assert_eq!(q.push(1), Ok(()));
    for i in 2..1000u64 {
        assert_eq!(q.push(i), Ok(()));
        assert_eq!(q.push(i), Err(QueueErr::QueueFull));
        assert_eq!(q.peek(), Ok(&(i - 2)));
        assert_eq!(q.pop(), Ok(i - 2));
    }
    assert_eq!(q.pop(), Ok(998));
    assert_eq!(q.pop(), Ok(999));
    assert_eq!(q.pop(), Err(QueueErr::Empty));
}

#[test]
fn agrees_with_a_bounded_deque() {
    let mut q = ConstQueue::<u32, 7>::new();
    let mut model: VecDeque<u32> = VecDeque::new();
    let mut seed: u32 = 12345;
    for step in 0..5000u32 {
        seed = seed.wrapping_mul(1664525).wrapping_add(1013904223);
        if (seed >> 16) % 3 != 0 {
            let expected = if model.len() < 6 {
                model.push_back(step);
                Ok(())
            } else {
                Err(QueueErr::QueueFull)
            };
            assert_eq!(q.push(step), expected);
        } else {
            assert_eq!(q.pop(), model.pop_front().ok_or(QueueErr::Empty));
        }
        assert_eq!(q.empty(), model.is_empty());
        assert_eq!(q.peek().ok(), model.front());
    }
}

#[test]
fn empty_follows_what_is_held() {
    let mut q = ConstQueue::<i32, 4>::new();
    assert!(q.empty());
    assert_eq!(q.push(7), Ok(()));
    assert!(!q.empty());
    assert_eq!(q.push(8), Ok(()));
    assert!(!q.empty());
    assert_eq!(q.pop(), Ok(7));
    assert!(!q.empty());
    assert_eq!(q.pop(), Ok(8));
    assert!(q.empty());
}

#[test]
fn peek_on_empty_queue_changes_nothing() {
    let mut q = ConstQueue::<i32, 3>::new();
    assert_eq!(q.peek(), Err(QueueErr::Empty));
    assert_eq!(q.peek(), Err(QueueErr::Empty));
    assert!(q.empty());
    assert_eq!(q.push(1), Ok(()));
    assert_eq!(q.push(2), Ok(()));
    assert_eq!(q.push(3), Err(QueueErr::QueueFull));
    assert_eq!(q.pop(), Ok(1));
    assert_eq!(q.pop(), Ok(2));
    assert_eq!(q.peek(), Err(QueueErr::Empty));
}

#[test]
fn pop_on_empty_queue_changes_nothing() {
    let mut q = ConstQueue::<i32, 3>::new();
    assert_eq!(q.pop(), Err(QueueErr::Empty));
    assert_eq!(q.pop(), Err(QueueErr::Empty));
    assert!(q.empty());
    assert_eq!(q.push(1), Ok(()));
    assert_eq!(q.push(2), Ok(()));
    assert_eq!(q.push(3), Err(QueueErr::QueueFull));
    assert_eq!(q.pop(), Ok(1));
    assert_eq!(q.pop(), Ok(2));
    assert_eq!(q.pop(), Err(QueueErr::Empty));
}

#[test]
fn peek_leaves_the_element_in_place() {
    let mut q = ConstQueue::<i32, 4>::new();
    assert_eq!(q.push(5), Ok(()));
    assert_eq!(q.push(6), Ok(()));
    assert_eq!(q.peek(), Ok(&5));
    assert_eq!(q.peek(), Ok(&5));
    assert_eq!(q.pop(), Ok(5));
    assert_eq!(q.peek(), Ok(&6));
}

#[test]
fn draining_yields_items_in_order_and_empties_the_queue() {
    let mut q = ConstQueue::<i32, 3>::new();
    assert_eq!(q.push(10), Ok(()));
    assert_eq!(q.push(20), Ok(()));
    let mut values = Vec::<i32>::new();
    for i in &mut q {
        values.push(i);
    }
    assert_eq!(values, vec![10, 20]);
    assert!(q.empty());
    assert_eq!(q.pop(), Err(QueueErr::Empty));
}

#[test]
fn drained_queue_yields_nothing_more() {
    let mut q = ConstQueue::<i32, 4>::new();
    assert_eq!(q.push(1), Ok(()));
    assert_eq!(q.next(), Some(1));
    assert_eq!(q.next(), None);
    assert_eq!(q.next(), None);
    let mut second_pass = 0;
    for _ in &mut q {
        second_pass += 1;
    }
    assert_eq!(second_pass, 0);
    assert_eq!(q.push(2), Ok(()));
    assert_eq!(q.next(), Some(2));
}

#[test]
fn three_slot_walkthrough() {
    let mut q = ConstQueue::<i32, 3>::new();
    assert_eq!(q.push(1), Ok(()));
    assert_eq!(q.push(2), Ok(()));
    assert_eq!(q.push(3), Err(QueueErr::QueueFull));
    assert_eq!(q.pop(), Ok(1));
    assert_eq!(q.push(3), Ok(()));
    assert_eq!(q.pop(), Ok(2));
    assert_eq!(q.pop(), Ok(3));
    assert_eq!(q.pop(), Err(QueueErr::Empty));
}

#[test]
fn single_slot_queue_is_always_empty_and_full() {
    let mut q = ConstQueue::<i32, 1>::new();
    assert!(q.empty());
    assert_eq!(q.push(1), Err(QueueErr::QueueFull));
    assert!(q.empty());
    assert_eq!(q.peek(), Err(QueueErr::Empty));
    assert_eq!(q.pop(), Err(QueueErr::Empty));
    assert_eq!(q.push(2), Err(QueueErr::QueueFull));
}

#[test]
fn two_slot_queue_holds_one_element() {
    let mut q = ConstQueue::<i32, 2>::new();
    for round in 0..10 {
        assert_eq!(q.push(round), Ok(()));
        assert_eq!(q.push(-1), Err(QueueErr::QueueFull));
        assert_eq!(q.pop(), Ok(round));
        assert_eq!(q.pop(), Err(QueueErr::Empty));
    }
}

#[test]
fn elements_move_in_and_out() {
    let mut q = ConstQueue::<String, 3>::new();
    assert_eq!(q.push(String::from("first")), Ok(()));
    assert_eq!(q.push(String::from("second")), Ok(()));
    assert_eq!(q.push(String::from("third")), Err(QueueErr::QueueFull));
    assert_eq!(q.peek().map(|s| s.as_str()), Ok("first"));
    let first: String = q.pop().unwrap();
    assert_eq!(first, "first");
    assert_eq!(q.push(String::from("third")), Ok(()));
    assert_eq!(q.pop(), Ok(String::from("second")));
    assert_eq!(q.pop(), Ok(String::from("third")));
    assert_eq!(q.pop(), Err(QueueErr::Empty));
}

#[test]
fn force_push_appends_while_room_is_left() {
    let mut q = ConstQueue::<i32, 4>::new();
    q.force_push(1);
    q.force_push(2);
    q.force_push(3);
    assert_eq!(q.push(4), Err(QueueErr::QueueFull));
    assert_eq!(q.pop(), Ok(1));
    q.force_push(4);
    assert_eq!(q.pop(), Ok(2));
    assert_eq!(q.pop(), Ok(3));
    assert_eq!(q.pop(), Ok(4));
    assert!(q.empty());
}

#[test]
fn errors_are_told_apart() {
    assert_ne!(QueueErr::QueueFull, QueueErr::Empty);
    assert_ne!(QueueErr::Empty, QueueErr::UnknownError);
    assert_ne!(QueueErr::QueueFull, QueueErr::UnknownError);
    assert_eq!(format!("{:?}", QueueErr::QueueFull), "QueueFull");
    assert_eq!(format!("{:?}", QueueErr::Empty), "Empty");
    assert_eq!(format!("{:?}", QueueErr::UnknownError), "UnknownError");
}
