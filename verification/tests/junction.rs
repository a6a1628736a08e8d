use caligula::util::byteseries::ByteSeries;
use caligula::util::io_graph::junction::TransferStat;

#[test]
fn transfer_stat_reports_its_fields() {
    let t = TransferStat::new(100, 350, 4096);
    assert_eq!(t.started(), 100);
    assert_eq!(t.ended(), 350);
    assert_eq!(t.duration(), 250);
    assert_eq!(t.bytes(), 4096);
    assert!(t.success());
}

#[test]
fn failed_transfer_moved_no_bytes() {
    let t = TransferStat::new(5, 5, 0);
    assert!(!t.success());
    assert_eq!(t.duration(), 0);
    // a clock that went backwards gives no duration
    assert_eq!(TransferStat::new(9, 3, 1).duration(), 0);
}

#[test]
fn byte_series_keeps_the_latest_point() {
    let mut s = ByteSeries::new(1_000);
    assert_eq!(s.bytes_encountered(), 0);
    assert_eq!(s.last_datapoint(), (0, 0));
    s.push(1_500, 10);
    s.push(3_000, 25);
    assert_eq!(s.len(), 2);
    assert_eq!(s.start(), 1_000);
    assert_eq!(s.bytes_encountered(), 25);
    assert_eq!(s.last_datapoint(), (2_000, 25));
    // a time before the start counts as the start
    s.push(500, 30);
    assert_eq!(s.last_datapoint(), (0, 30));
}
