use vstd::prelude::*;

use crate::util::byteseries::{
    series_bytes, series_new, series_push, ByteSeries, SeriesView,
};
use crate::writer_process::ipc::{ErrorType, StatusMessage};

verus! {

/// What the user interface knows of a running writer. Times are nanoseconds
/// on a monotonic clock.
#[derive(Debug, Clone, PartialEq, Eq)]
pub enum WriterState {
    Writing(Writing),
    Verifying { write_hist: ByteSeries, verify_hist: ByteSeries, total_write_bytes: u64 },
    Finished {
        finish_time: u64,
        error: Option<ErrorType>,
        write_hist: ByteSeries,
        verify_hist: Option<ByteSeries>,
        total_write_bytes: u64,
    },
}

/// The writing phase.
#[derive(Debug, Clone, PartialEq, Eq)]
pub struct Writing {
    pub write_hist: ByteSeries,
    /// Size of the data to write, when the input is not compressed.
    pub total_raw_bytes: Option<u64>,
    pub read_hist: ByteSeries,
    pub input_file_bytes: u64,
}

/// Mathematical view of the writing phase.
pub ghost struct WritingView {
    pub write_hist: SeriesView,
    pub total_raw_bytes: Option<u64>,
    pub read_hist: SeriesView,
    pub input_file_bytes: u64,
}

/// Mathematical view of a [`WriterState`].
pub ghost enum WriterView {
    Writing(WritingView),
    Verifying { write_hist: SeriesView, verify_hist: SeriesView, total_write_bytes: u64 },
    Finished {
        finish_time: u64,
        error: Option<ErrorType>,
        write_hist: SeriesView,
        verify_hist: Option<SeriesView>,
        total_write_bytes: u64,
    },
}

impl View for Writing {
    type V = WritingView;

    open spec fn view(&self) -> WritingView {
        WritingView {
            write_hist: self.write_hist@,
            total_raw_bytes: self.total_raw_bytes,
            read_hist: self.read_hist@,
            input_file_bytes: self.input_file_bytes,
        }
    }
}

pub open spec fn series_option_view(s: Option<ByteSeries>) -> Option<SeriesView> {
    match s {
        Some(s) => Some(s@),
        None => None,
    }
}

impl View for WriterState {
    type V = WriterView;

    open spec fn view(&self) -> WriterView {
        match self {
            WriterState::Writing(w) => WriterView::Writing(w@),
            WriterState::Verifying { write_hist, verify_hist, total_write_bytes } => WriterView::Verifying {
                write_hist: write_hist@,
                verify_hist: verify_hist@,
                total_write_bytes: *total_write_bytes,
            },
            WriterState::Finished {
                finish_time,
                error,
                write_hist,
                verify_hist,
                total_write_bytes,
            } => WriterView::Finished {
                finish_time: *finish_time,
                error: *error,
                write_hist: write_hist@,
                verify_hist: series_option_view(*verify_hist),
                total_write_bytes: *total_write_bytes,
            },
        }
    }
}

/// The writing phase at its start.
pub open spec fn writing_new(start: u64, is_input_compressed: bool, input_file_bytes: u64) -> WritingView {
    WritingView {
        write_hist: series_new(start),
        total_raw_bytes: if is_input_compressed {
            None
        } else {
            Some(input_file_bytes)
        },
        read_hist: series_new(start),
        input_file_bytes,
    }
}

/// The state after the writing phase ends at `time`: verifying, or finished
/// without error.
pub open spec fn writing_into_finished(w: WritingView, time: u64, verifying: bool) -> WriterView {
    if verifying {
        WriterView::Verifying {
            write_hist: w.write_hist,
            verify_hist: series_new(time),
            total_write_bytes: series_bytes(w.write_hist),
        }
    } else {
        WriterView::Finished {
            finish_time: time,
            error: None,
            write_hist: w.write_hist,
            verify_hist: None,
            total_write_bytes: series_bytes(w.write_hist),
        }
    }
}

/// The state once the writer stopped at `now` with `error` (or none); a
/// finished state stays as it is.
pub open spec fn into_finished_spec(v: WriterView, now: u64, error: Option<ErrorType>) -> WriterView {
    match v {
        WriterView::Writing(w) => WriterView::Finished {
            finish_time: now,
            error,
            write_hist: w.write_hist,
            verify_hist: None,
            total_write_bytes: series_bytes(w.write_hist),
        },
        WriterView::Verifying { write_hist, verify_hist, .. } => WriterView::Finished {
            finish_time: now,
            error,
            write_hist,
            verify_hist: Some(verify_hist),
            total_write_bytes: series_bytes(write_hist),
        },
        WriterView::Finished { .. } => v,
    }
}

/// The state with a byte-count report recorded: while writing, `src` goes
/// to the read series and `dest` to the write series; while verifying,
/// `dest` goes to the verify series; a finished state ignores it.
pub open spec fn on_total_bytes_spec(v: WriterView, now: u64, src: u64, dest: u64) -> WriterView {
    match v {
        WriterView::Writing(w) => WriterView::Writing(
            WritingView {
                read_hist: series_push(w.read_hist, now, src),
                write_hist: series_push(w.write_hist, now, dest),
                ..w
            },
        ),
        WriterView::Verifying { write_hist, verify_hist, total_write_bytes } => WriterView::Verifying {
            write_hist,
            verify_hist: series_push(verify_hist, now, dest),
            total_write_bytes,
        },
        WriterView::Finished { .. } => v,
    }
}

/// What a status report (or the end of the reports, `None`) does.
pub open spec fn on_status_spec(v: WriterView, now: u64, msg: Option<StatusMessage>) -> WriterView {
    match msg {
        Some(StatusMessage::TotalBytes { src, dest }) => on_total_bytes_spec(v, now, src, dest),
        Some(StatusMessage::FinishedWriting { verifying }) => match v {
            WriterView::Writing(w) => writing_into_finished(w, now, verifying),
            _ => v,
        },
        Some(StatusMessage::Error(reason)) => into_finished_spec(v, now, Some(reason)),
        Some(StatusMessage::Success) => into_finished_spec(v, now, None),
        None => into_finished_spec(v, now, Some(ErrorType::UnexpectedTermination)),
        Some(StatusMessage::InitSuccess(_)) => v,
    }
}

impl WriterState {
    /// The state when writing starts at `now`.
    pub fn initial(now: u64, is_input_compressed: bool, input_file_bytes: u64) -> (r: Self)
        ensures
            r@ == WriterView::Writing(writing_new(now, is_input_compressed, input_file_bytes)),
    {
        WriterState::Writing(Writing::new(now, is_input_compressed, input_file_bytes))
    }

    /// Takes in a status report received at `now`; `None` means the reports
    /// ended. An initialization report is not expected here.
    pub fn on_status(self, now: u64, msg: Option<StatusMessage>) -> (r: Self)
        requires
            !(msg matches Some(StatusMessage::InitSuccess(_))),
        ensures
            r@ == on_status_spec(self@, now, msg),
    {
        let mut this = self;
        match msg {
            Some(StatusMessage::TotalBytes { src, dest }) => {
                this.on_total_bytes(now, src, dest);
                this
            },
            Some(StatusMessage::FinishedWriting { verifying }) => match this {
                WriterState::Writing(st) => st.into_finished(now, verifying),
                c => c,
            },
            Some(StatusMessage::Error(reason)) => this.into_finished(now, Some(reason)),
            Some(StatusMessage::Success) => this.into_finished(now, None),
            None => this.into_finished(now, Some(ErrorType::UnexpectedTermination)),
            Some(StatusMessage::InitSuccess(_)) => this,
        }
    }

    /// The series of bytes written.
    pub fn write_hist(&self) -> (r: &ByteSeries)
        ensures
            r@ == match self@ {
                WriterView::Writing(w) => w.write_hist,
                WriterView::Verifying { write_hist, .. } => write_hist,
                WriterView::Finished { write_hist, .. } => write_hist,
            },
    {
        match self {
            WriterState::Writing(w) => &w.write_hist,
            WriterState::Verifying { write_hist, .. } => write_hist,
            WriterState::Finished { write_hist, .. } => write_hist,
        }
    }

    /// The series of bytes verified, once verification started.
    pub fn verify_hist(&self) -> (r: Option<&ByteSeries>)
        ensures
            match self@ {
                WriterView::Writing(_) => r is None,
                WriterView::Verifying { verify_hist, .. } => r matches Some(s) && s@ == verify_hist,
                WriterView::Finished { verify_hist, .. } => match verify_hist {
                    Some(v) => r matches Some(s) && s@ == v,
                    None => r is None,
                },
            },
    {
        match self {
            WriterState::Writing(_) => None,
            WriterState::Verifying { verify_hist, .. } => Some(verify_hist),
            WriterState::Finished { verify_hist, .. } => match verify_hist {
                Some(v) => Some(v),
                None => None,
            },
        }
    }

    fn on_total_bytes(&mut self, now: u64, src: u64, dest: u64)
        ensures
            final(self)@ == on_total_bytes_spec(old(self)@, now, src, dest),
    {
        match self {
            WriterState::Writing(st) => {
                st.read_hist.push(now, src);
                st.write_hist.push(now, dest);
            },
            WriterState::Verifying { verify_hist, .. } => verify_hist.push(now, dest),
            WriterState::Finished { .. } => {},
        }
    }

    fn into_finished(self, now: u64, error: Option<ErrorType>) -> (r: WriterState)
        ensures
            r@ == into_finished_spec(self@, now, error),
    {
        match self {
            WriterState::Writing(st) => {
                let total_write_bytes = st.write_hist.bytes_encountered();
                WriterState::Finished {
                    finish_time: now,
                    error,
                    write_hist: st.write_hist,
                    verify_hist: None,
                    total_write_bytes,
                }
            },
            WriterState::Verifying { write_hist, verify_hist, .. } => {
                let total_write_bytes = write_hist.bytes_encountered();
                WriterState::Finished {
                    finish_time: now,
                    error,
                    write_hist,
                    verify_hist: Some(verify_hist),
                    total_write_bytes,
                }
            },
            fin => fin,
        }
    }

    /// Whether the writer has finished, successfully or not.
    pub fn is_finished(&self) -> (r: bool)
        ensures
            r == (self@ is Finished),
    {
        match self {
            WriterState::Finished { .. } => true,
            _ => false,
        }
    }
}

impl Writing {
    /// The writing phase starting at `start`: the amount to write is known
    /// up front only for an uncompressed input.
    pub fn new(start: u64, is_input_compressed: bool, input_file_bytes: u64) -> (r: Self)
        ensures
            r@ == writing_new(start, is_input_compressed, input_file_bytes),
    {
        Writing {
            write_hist: ByteSeries::new(start),
            total_raw_bytes: if is_input_compressed {
                None
            } else {
                Some(input_file_bytes)
            },
            read_hist: ByteSeries::new(start),
            input_file_bytes,
        }
    }

    /// How far writing has come, as a fraction `(done, total)`: bytes written
    /// out of the input's size when that is known, otherwise compressed bytes
    /// read out of the input file's size.
    pub fn approximate_ratio(&self) -> (r: (u64, u64))
        ensures
            r == match self.total_raw_bytes {
                Some(total_bytes) => (series_bytes(self.write_hist@), total_bytes),
                None => (series_bytes(self.read_hist@), self.input_file_bytes),
            },
    {
        match self.total_raw_bytes {
            Some(total_bytes) => (self.write_hist.bytes_encountered(), total_bytes),
            None => (self.read_hist.bytes_encountered(), self.input_file_bytes),
        }
    }

    fn into_finished(self, time: u64, verifying: bool) -> (r: WriterState)
        ensures
            r@ == writing_into_finished(self@, time, verifying),
    {
        let total_write_bytes = self.write_hist.bytes_encountered();
        if verifying {
            WriterState::Verifying {
                write_hist: self.write_hist,
                verify_hist: ByteSeries::new(time),
                total_write_bytes,
            }
        } else {
            WriterState::Finished {
                finish_time: time,
                error: None,
                write_hist: self.write_hist,
                verify_hist: None,
                total_write_bytes,
            }
        }
    }
}

// ---------------------------------------------------------------------------
// Laws
// ---------------------------------------------------------------------------

/// A finished writer stays exactly as it is, whatever report arrives later.
pub proof fn lemma_finished_is_final(v: WriterView, now: u64, msg: Option<StatusMessage>)
    requires
        v is Finished,
    ensures
        on_status_spec(v, now, msg) == v,
{
}

/// When the reports end unexpectedly before the writer finished, it is
/// finished at that moment with the error `UnexpectedTermination`, keeping
/// what it wrote.
pub proof fn lemma_sudden_end_is_an_error(v: WriterView, now: u64)
    requires
        !(v is Finished),
    ensures
        on_status_spec(v, now, None) matches WriterView::Finished { finish_time, error, .. }
            && finish_time == now && error == Some(ErrorType::UnexpectedTermination),
{
}

/// Once finished, the total bytes written is the last count of the write
/// series, whichever phase it finished from.
pub proof fn lemma_total_is_last_write_count(v: WriterView, now: u64, msg: Option<StatusMessage>)
    requires
        !(v is Finished),
        on_status_spec(v, now, msg) is Finished,
    ensures
        on_status_spec(v, now, msg) matches WriterView::Finished { write_hist, total_write_bytes, .. }
            && total_write_bytes == series_bytes(write_hist),
{
}

/// A reported error ends a writer that is still writing or verifying, in
/// either phase: it is finished at the report's time with exactly that
/// error, keeps the bytes it wrote, and keeps its verify series when it was
/// verifying.
pub proof fn lemma_error_report_finishes_with_it(v: WriterView, now: u64, reason: ErrorType)
    requires
        !(v is Finished),
    ensures
        on_status_spec(v, now, Some(StatusMessage::Error(reason))) matches WriterView::Finished {
            finish_time,
            error,
            write_hist,
            verify_hist,
            total_write_bytes,
        } && finish_time == now && error == Some(reason) && total_write_bytes == series_bytes(
            write_hist,
        ) && (v matches WriterView::Writing(w) ==> write_hist == w.write_hist && verify_hist is None)
            && (v matches WriterView::Verifying { write_hist: wh, verify_hist: vh, .. } ==> write_hist
            == wh && verify_hist == Some(vh)),
{
}

/// A success report ends a writer that is still writing or verifying
/// without an error, at the report's time.
pub proof fn lemma_success_report_finishes_cleanly(v: WriterView, now: u64)
    requires
        !(v is Finished),
    ensures
        on_status_spec(v, now, Some(StatusMessage::Success)) matches WriterView::Finished {
            finish_time,
            error,
            ..
        } && finish_time == now && error is None,
{
}

/// The end of the writing phase: with verification to follow, the writer
/// verifies from that moment with an empty verify series and the bytes
/// written as its total; without, it is finished then, without an error.
/// Outside the writing phase the report changes nothing.
pub proof fn lemma_end_of_writing(v: WriterView, now: u64, verifying: bool)
    ensures
        v matches WriterView::Writing(w) ==> (verifying ==> on_status_spec(
            v,
            now,
            Some(StatusMessage::FinishedWriting { verifying }),
        ) == WriterView::Verifying {
            write_hist: w.write_hist,
            verify_hist: series_new(now),
            total_write_bytes: series_bytes(w.write_hist),
        }) && (!verifying ==> (on_status_spec(
            v,
            now,
            Some(StatusMessage::FinishedWriting { verifying }),
        ) matches WriterView::Finished { finish_time, error, write_hist, .. } && finish_time == now
            && error is None && write_hist == w.write_hist)),
        !(v is Writing) ==> on_status_spec(v, now, Some(StatusMessage::FinishedWriting { verifying }))
            == v,
{
}

/// A byte-count report is recorded where it belongs: while writing, the
/// bytes read from the input (`src`) become the latest count of the read
/// series and the bytes written (`dest`) that of the write series; while
/// verifying, the bytes checked (`dest`) become the latest count of the
/// verify series and the write series stays. The phase does not change.
pub proof fn lemma_byte_counts_recorded(v: WriterView, now: u64, src: u64, dest: u64)
    ensures
        v matches WriterView::Writing(w) ==> (on_status_spec(
            v,
            now,
            Some(StatusMessage::TotalBytes { src, dest }),
        ) matches WriterView::Writing(w2) && series_bytes(w2.read_hist) == src && series_bytes(
            w2.write_hist,
        ) == dest && w2.read_hist.points.len() == w.read_hist.points.len() + 1
            && w2.write_hist.points.len() == w.write_hist.points.len() + 1 && w2.total_raw_bytes
            == w.total_raw_bytes && w2.input_file_bytes == w.input_file_bytes),
        v matches WriterView::Verifying { write_hist, verify_hist, total_write_bytes } ==> (
        on_status_spec(v, now, Some(StatusMessage::TotalBytes { src, dest })) matches WriterView::Verifying {
            write_hist: wh2,
            verify_hist: vh2,
            total_write_bytes: t2,
        } && wh2 == write_hist && series_bytes(vh2) == dest && vh2.points.len()
            == verify_hist.points.len() + 1 && t2 == total_write_bytes),
{
}

/// Writing starts at the given moment with empty series; the input's size
/// is its raw size unless the input is compressed, when the raw size is not
/// known.
pub proof fn lemma_writing_starts_empty(now: u64, is_input_compressed: bool, input_file_bytes: u64)
    ensures
        ({
            let w = writing_new(now, is_input_compressed, input_file_bytes);
            &&& w.write_hist.start == now && w.write_hist.points.len() == 0
            &&& w.read_hist.start == now && w.read_hist.points.len() == 0
            &&& w.input_file_bytes == input_file_bytes
            &&& (is_input_compressed <==> w.total_raw_bytes is None)
            &&& !is_input_compressed ==> w.total_raw_bytes == Some(input_file_bytes)
        }),
{
}

} // verus!
