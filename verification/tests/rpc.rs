use caligula::stdiomux::rpc::RequestMap;
use tokio::sync::oneshot::error::TryRecvError;

#[test]
fn request_ids_are_one_less_than_powers_of_two() {
    let mut m = RequestMap::<u32>::new();
    let ids: Vec<u64> = (0..6).map(|_| m.allocate_request_slot().0).collect();
    assert_eq!(ids, vec![0, 1, 3, 7, 15, 31]);
}

#[test]
fn request_ids_saturate_without_overflow() {
    let mut m = RequestMap::<u32>::new();
    let mut slots = vec![];
    for _ in 0..66 {
        slots.push(m.allocate_request_slot());
    }
    assert_eq!(slots[63].0, (1u64 << 63) - 1);
    assert_eq!(slots[64].0, u64::MAX);
    assert_eq!(slots[65].0, u64::MAX);
    // the second request with the saturated id took the first one's place
    assert_eq!(slots[64].1.try_recv(), Err(TryRecvError::Closed));
    m.close_with_global_result(9);
    assert_eq!(slots[65].1.try_recv(), Ok(9));
}

#[test]
fn closing_answers_every_waiting_request() {
    let mut m = RequestMap::<&'static str>::new();
    let (_, mut a) = m.allocate_request_slot();
    let (_, mut b) = m.allocate_request_slot();
    let (_, c) = m.allocate_request_slot();
    drop(c);
    assert_eq!(a.try_recv(), Err(TryRecvError::Empty));
    m.close_with_global_result("gone");
    assert_eq!(a.try_recv(), Ok("gone"));
    assert_eq!(b.try_recv(), Ok("gone"));
}

#[test]
fn the_first_sixty_five_request_ids_are_distinct() {
    let mut m = RequestMap::<u8>::new();
    let mut ids = vec![];
    for _ in 0..65 {
        ids.push(m.allocate_request_slot().0);
    }
    let mut sorted = ids.clone();
    sorted.sort();
    sorted.dedup();
    assert_eq!(sorted.len(), 65);
    assert_eq!(m.allocate_request_slot().0, ids[64]);
}

#[test]
fn a_reply_reaches_its_request_once() {
    let mut m = RequestMap::<u32>::new();
    let (a, mut ra) = m.allocate_request_slot();
    let (b, mut rb) = m.allocate_request_slot();
    assert!(m.dispatch_reply(b, 5));
    assert_eq!(rb.try_recv(), Ok(5));
    assert_eq!(ra.try_recv(), Err(TryRecvError::Empty));
    assert!(!m.dispatch_reply(b, 6));
    assert!(!m.dispatch_reply(1000, 7));
    assert!(m.dispatch_reply(a, 8));
    assert_eq!(ra.try_recv(), Ok(8));
}
