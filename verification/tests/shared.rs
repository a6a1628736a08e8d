use caligula::stdiomux::mux::channel::shared::{Empty, Full, Mode, WokeRb};

#[test]
fn woke_rb_is_first_in_first_out() {
    let mut rb = WokeRb::new(3, Mode::WakeOnInsert);
    assert_eq!(rb.available_capacity(), 3);
    assert_eq!(rb.try_push(vec![1]), Ok(()));
    assert_eq!(rb.try_push(vec![2, 2]), Ok(()));
    assert_eq!(rb.available_capacity(), 1);
    assert_eq!(rb.try_pop(), Ok(vec![1]));
    assert_eq!(rb.try_push(vec![3]), Ok(()));
    assert_eq!(rb.try_pop(), Ok(vec![2, 2]));
    assert_eq!(rb.try_pop(), Ok(vec![3]));
    assert_eq!(rb.try_pop(), Err(Empty));
    assert_eq!(rb.available_capacity(), 3);
}

#[test]
fn woke_rb_refuses_pushes_when_full() {
    let mut rb = WokeRb::new(2, Mode::WakeOnRemove);
    assert_eq!(rb.try_push(vec![1]), Ok(()));
    assert_eq!(rb.try_push(vec![2]), Ok(()));
    assert_eq!(rb.available_capacity(), 0);
    assert_eq!(rb.try_push(vec![3]), Err(Full));
    assert_eq!(rb.try_pop(), Ok(vec![1]));
    assert_eq!(rb.try_pop(), Ok(vec![2]));
    assert_eq!(rb.try_pop(), Err(Empty));
}

#[test]
fn woke_rb_of_size_zero_holds_nothing() {
    let mut rb = WokeRb::new(0, Mode::WakeOnInsert);
    assert_eq!(rb.available_capacity(), 0);
    assert_eq!(rb.try_push(vec![7]), Err(Full));
    assert_eq!(rb.try_pop(), Err(Empty));
    assert!(rb.buf.is_none());
}

#[test]
fn woke_rb_starts_without_permits() {
    let mut rb = WokeRb::new(4, Mode::WakeOnInsert);
    assert_eq!(rb.granted_permits, 0);
    rb.granted_permits += 2;
    assert_eq!(rb.try_push(vec![]), Ok(()));
    assert_eq!(rb.granted_permits, 2);
}
