use vstd::prelude::*;

verus! {

/// A series of byte counts over time: each point is the time elapsed since
/// the start, in nanoseconds, and the number of bytes seen by then.
#[derive(Debug, Clone, PartialEq, Eq)]
pub struct ByteSeries {
    start: u64,
    points: Vec<(u64, u64)>,
}

/// Mathematical view of a [`ByteSeries`].
pub ghost struct SeriesView {
    pub start: u64,
    pub points: Seq<(u64, u64)>,
}

impl View for ByteSeries {
    type V = SeriesView;

    closed spec fn view(&self) -> SeriesView {
        SeriesView { start: self.start, points: self.points@ }
    }
}

/// Nanoseconds from `start` to `now`; zero when `now` is earlier.
pub open spec fn elapsed_since(start: u64, now: u64) -> u64 {
    if now >= start {
        (now - start) as u64
    } else {
        0
    }
}

/// An empty series starting at `start`.
pub open spec fn series_new(start: u64) -> SeriesView {
    SeriesView { start, points: Seq::empty() }
}

/// The series with the count `bytes` recorded at `now`.
pub open spec fn series_push(s: SeriesView, now: u64, bytes: u64) -> SeriesView {
    SeriesView { start: s.start, points: s.points.push((elapsed_since(s.start, now), bytes)) }
}

/// The latest count of the series, zero when it has none.
pub open spec fn series_bytes(s: SeriesView) -> u64 {
    if s.points.len() == 0 {
        0
    } else {
        s.points.last().1
    }
}

impl ByteSeries {
    /// An empty series starting at `start` (nanoseconds on a monotonic clock).
    pub fn new(start: u64) -> (r: ByteSeries)
        ensures
            r@ == series_new(start),
    {
        let r = ByteSeries { start, points: Vec::new() };
        assert(r@.points =~= Seq::<(u64, u64)>::empty());
        r
    }

    /// Records the count `bytes` at time `now`.
    pub fn push(&mut self, now: u64, bytes: u64)
        ensures
            final(self)@ == series_push(old(self)@, now, bytes),
    {
        let elapsed = if now >= self.start {
            now - self.start
        } else {
            0
        };
        self.points.push((elapsed, bytes));
    }

    /// The latest count, or zero when nothing was recorded.
    pub fn bytes_encountered(&self) -> (r: u64)
        ensures
            r == series_bytes(self@),
    {
        if self.points.len() == 0 {
            0
        } else {
            self.points[self.points.len() - 1].1
        }
    }

    /// The latest point: nanoseconds since the start and the count then, or
    /// `(0, 0)` when nothing was recorded.
    pub fn last_datapoint(&self) -> (r: (u64, u64))
        ensures
            self@.points.len() == 0 ==> r == (0u64, 0u64),
            self@.points.len() > 0 ==> r == self@.points.last(),
    {
        if self.points.len() == 0 {
            (0, 0)
        } else {
            self.points[self.points.len() - 1]
        }
    }

    /// Number of recorded points.
    pub fn len(&self) -> (r: usize)
        ensures
            r == self@.points.len(),
    {
        self.points.len()
    }

    /// The start time of the series.
    pub fn start(&self) -> (r: u64)
        ensures
            r == self@.start,
    {
        self.start
    }
}

} // verus!
