use message_recorder::sequence::SequenceCounter;

#[test]
fn a_new_counter_starts_at_zero() {
    let mut counter = SequenceCounter::new();
    assert_eq!(counter.peek(), 0);
    assert_eq!(counter.next_id(), 0);
    assert_eq!(counter.peek(), 1);
}

#[test]
fn numbers_are_dense_and_increasing() {
    let mut counter = SequenceCounter::new();
    for expected in 0..1000usize {
        assert_eq!(counter.next_id(), expected);
    }
    assert_eq!(counter.peek(), 1000);
}

#[test]
fn peek_draws_nothing() {
    let mut counter = SequenceCounter::starting_at(5);
    assert_eq!(counter.peek(), 5);
    assert_eq!(counter.peek(), 5);
    assert_eq!(counter.next_id(), 5);
    assert_eq!(counter.next_id(), 6);
}

#[test]
fn the_last_number_is_drawn_once_and_nothing_after_it() {
    let mut counter = SequenceCounter::starting_at(usize::MAX - 2);
    assert!(!counter.exhausted());
    assert_eq!(counter.next_id(), usize::MAX - 2);
    assert!(!counter.exhausted());
    assert_eq!(counter.next_id(), usize::MAX - 1);
    assert!(counter.exhausted());
    assert_eq!(counter.peek(), usize::MAX);
}

#[test]
fn a_new_counter_has_numbers_left() {
    assert!(!SequenceCounter::new().exhausted());
    assert!(!SequenceCounter::starting_at(usize::MAX - 1).exhausted());
    assert!(SequenceCounter::starting_at(usize::MAX).exhausted());
}

#[test]
fn a_later_draw_gives_the_larger_number() {
    let mut counter = SequenceCounter::starting_at(17);
    let mut last = counter.next_id();
    for _ in 0..100 {
        let id = counter.next_id();
        assert!(id > last);
        assert_eq!(id, last + 1);
        last = id;
    }
}
