use caligula::writer::util::{AsyncCountRead, CountAsyncWrite};
use caligula::writer_process::utils::{CountRead, CountWrite};

#[test]
fn read_count_is_the_sum_of_what_was_read() {
    let mut c = CountRead::new(vec![1u8, 2, 3]);
    assert_eq!(c.count(), 0);
    c.record(3);
    c.record(0);
    c.record(4);
    assert_eq!(c.count(), 7);
    assert_eq!(c.get_ref(), &vec![1u8, 2, 3]);
}

#[test]
fn write_count_is_the_sum_of_what_was_written() {
    let mut c = CountWrite::new(String::from("sink"));
    c.record(10);
    c.record(5);
    assert_eq!(c.count(), 15);
    assert_eq!(c.get_mut().as_str(), "sink");
    assert_eq!(c.count(), 15);
}

#[test]
fn async_counts_sum_fills_and_writes() {
    let mut r = AsyncCountRead::new(7u32);
    r.record_filled(10, 14);
    r.record_filled(14, 14);
    r.record_filled(0, 6);
    assert_eq!(r.count(), 10);
    assert_eq!(r.into_inner(), 7u32);
    let mut w = CountAsyncWrite::new(());
    w.record(2);
    w.record(3);
    assert_eq!(w.count(), 5);
}

#[test]
fn outcomes_count_successes_only() {
    let mut c = CountRead::new(());
    assert_eq!(c.on_read::<&str>(Ok(5)), Ok(5));
    assert_eq!(c.on_read::<&str>(Err("broken")), Err("broken"));
    assert_eq!(c.on_read::<&str>(Ok(2)), Ok(2));
    assert_eq!(c.count(), 7);
    let mut w = CountWrite::new(());
    assert_eq!(w.on_write::<&str>(Err("full")), Err("full"));
    assert_eq!(w.on_write::<&str>(Ok(9)), Ok(9));
    assert_eq!(w.count(), 9);
    let mut ar = AsyncCountRead::new(());
    assert_eq!(ar.on_poll_read(3, 8, "pending"), "pending");
    assert_eq!(ar.on_poll_read(8, 8, "ready"), "ready");
    assert_eq!(ar.count(), 5);
    let mut aw = CountAsyncWrite::new(());
    assert_eq!(aw.on_poll_write(Some(4), 1), 1);
    assert_eq!(aw.on_poll_write(None, 2), 2);
    assert_eq!(aw.count(), 4);
}
