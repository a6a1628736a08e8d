use caligula::util::byteseries::ByteSeries;
use caligula::writer_process::ipc::{ErrorType, StatusMessage};
use caligula::writer_process::state_tracking::WriterState;

const SECOND: u64 = 1_000_000_000;

/// A fixed start instant, in nanoseconds.
fn now() -> u64 {
    7 * SECOND + 12345
}

fn secs(ns: u64) -> f64 {
    ns as f64 / SECOND as f64
}

#[test]
fn accept_total_bytes_messages() {
    let t0 = now();
    let s = WriterState::initial(t0, false, 80)
        .on_status(
            t0 + 1 * SECOND,
            Some(StatusMessage::TotalBytes { src: 20, dest: 10 }),
        )
        .on_status(
            t0 + 2 * SECOND,
            Some(StatusMessage::TotalBytes { src: 30, dest: 30 }),
        )
        .on_status(
            t0 + 3 * SECOND,
            Some(StatusMessage::TotalBytes { src: 60, dest: 50 }),
        );

    let s = match s {
        WriterState::Writing(s) => s,
        s => panic!("unexpected {:#?}", s),
    };
    let (t, b) = s.read_hist.last_datapoint();
    assert_eq!((secs(t), b), (3.0, 60));
    let (t, b) = s.write_hist.last_datapoint();
    assert_eq!((secs(t), b), (3.0, 50));
}

#[test]
fn writing_value_for_uncompressed_ratio() {
    let t0 = now();
    let s = WriterState::initial(t0, false, 400).on_status(
        t0 + 1 * SECOND,
        Some(StatusMessage::TotalBytes { src: 15, dest: 40 }),
    );

    let s = match s {
        WriterState::Writing(s) => s,
        s => panic!("unexpected {:#?}", s),
    };
    let (done, total) = s.approximate_ratio();
    assert_eq!(done as f64 / total as f64, 0.1);
}

#[test]
fn writing_value_for_compressed_ratio() {
    let t0 = now();
    let s = WriterState::initial(t0, true, 80).on_status(
        t0 + 1 * SECOND,
        Some(StatusMessage::TotalBytes {
            src: 20,
            dest: 100000, // very big number to make errors obvious
        }),
    );

    let s = match s {
        WriterState::Writing(s) => s,
        s => panic!("unexpected {s:#?}"),
    };
    let (done, total) = s.approximate_ratio();
    assert_eq!(done as f64 / total as f64, 0.25);
}

#[test]
fn sudden_terminate_in_writing_state_sets_error() {
    let t0 = now();
    let s = WriterState::initial(t0, true, 80)
        .on_status(
            t0 + 1 * SECOND,
            Some(StatusMessage::TotalBytes { src: 20, dest: 20 }),
        )
        .on_status(t0 + 2 * SECOND, None);

    match s {
        WriterState::Finished {
            finish_time, error, ..
        } => {
            assert_eq!(finish_time - t0, 2 * SECOND);
            assert_eq!(error, Some(ErrorType::UnexpectedTermination));
        }
        s => panic!("Unexpected {s:#?}"),
    }
}

#[test]
fn terminate_during_finished_is_idempotent() {
    let t0 = now();
    let finish_time = t0 + 10 * SECOND;
    let s0 = WriterState::Finished {
        finish_time,
        error: None,
        write_hist: ByteSeries::new(t0),
        verify_hist: None,
        total_write_bytes: 12345678,
    };
    let s1 = s0.clone().on_status(finish_time + 2 * SECOND, None);

    assert_eq!(s1, s0);
}

#[test]
fn finished_during_finished_is_idempotent() {
    let t0 = now();
    let finish_time = t0 + 10 * SECOND;
    let s0 = WriterState::Finished {
        finish_time,
        error: None,
        write_hist: ByteSeries::new(t0),
        verify_hist: None,
        total_write_bytes: 12345678,
    };
    let s1 = s0.clone().on_status(
        finish_time + 2 * SECOND,
        Some(StatusMessage::FinishedWriting { verifying: false }),
    );

    assert_eq!(s1, s0);
}

#[test]
fn finished_writing_with_verification_starts_verifying() {
    let t0 = now();
    let s = WriterState::initial(t0, false, 100)
        .on_status(
            t0 + SECOND,
            Some(StatusMessage::TotalBytes { src: 100, dest: 100 }),
        )
        .on_status(
            t0 + 2 * SECOND,
            Some(StatusMessage::FinishedWriting { verifying: true }),
        )
        .on_status(
            t0 + 3 * SECOND,
            Some(StatusMessage::TotalBytes { src: 0, dest: 40 }),
        );
    assert!(!s.is_finished());
    assert_eq!(s.write_hist().bytes_encountered(), 100);
    let v = s.verify_hist().expect("verifying");
    assert_eq!(v.last_datapoint(), (SECOND, 40));

    let s = s.on_status(t0 + 4 * SECOND, Some(StatusMessage::Success));
    match s {
        WriterState::Finished {
            finish_time,
            error,
            total_write_bytes,
            verify_hist,
            ..
        } => {
            assert_eq!(finish_time, t0 + 4 * SECOND);
            assert_eq!(error, None);
            assert_eq!(total_write_bytes, 100);
            assert_eq!(verify_hist.unwrap().bytes_encountered(), 40);
        }
        s => panic!("unexpected {s:#?}"),
    }
}

#[test]
fn error_report_finishes_with_that_error() {
    let t0 = now();
    let s = WriterState::initial(t0, false, 100)
        .on_status(t0 + SECOND, Some(StatusMessage::Error(ErrorType::EndOfOutput)));
    match s {
        WriterState::Finished { error, verify_hist, .. } => {
            assert_eq!(error, Some(ErrorType::EndOfOutput));
            assert!(verify_hist.is_none());
        }
        s => panic!("unexpected {s:#?}"),
    }
}

#[test]
fn byte_series_before_start_counts_from_zero() {
    let mut s = ByteSeries::new(10 * SECOND);
    assert_eq!(s.last_datapoint(), (0, 0));
    assert_eq!(s.bytes_encountered(), 0);
    s.push(9 * SECOND, 5);
    assert_eq!(s.last_datapoint(), (0, 5));
    s.push(12 * SECOND, 7);
    assert_eq!(s.last_datapoint(), (2 * SECOND, 7));
    assert_eq!(s.len(), 2);
}
