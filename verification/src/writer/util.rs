use vstd::prelude::*;

use crate::writer_process::utils::{lemma_running_total, lemma_unchanged, total};

verus! {

/// Size of the staging buffer of an [`AsyncifiedRead`].
pub const ASYNCIFIED_BUFFER_LEN: usize = 16384;

/// A blocking reader made usable from asynchronous code, with a staging
/// buffer.
pub struct AsyncifiedRead<R> {
    pub data: Vec<u8>,
    pub r: R,
}

impl<R> AsyncifiedRead<R> {
    /// Wraps `r` with a zeroed staging buffer.
    pub fn new(r: R) -> (s: Self)
        ensures
            s.r == r,
            s.data@ == Seq::new(ASYNCIFIED_BUFFER_LEN as nat, |i: int| 0u8),
    {
        let data = vec![0u8; ASYNCIFIED_BUFFER_LEN];
        proof {
            assert forall|i: int| 0 <= i < ASYNCIFIED_BUFFER_LEN implies data@[i] == 0u8 by {
                assert(cloned::<u8>(0u8, data@[i]));
            }
        }
        let s = AsyncifiedRead { data, r };
        assert(s.data@ =~= Seq::new(ASYNCIFIED_BUFFER_LEN as nat, |i: int| 0u8));
        s
    }
}

/// An asynchronous reader together with the number of bytes read from it.
pub struct AsyncCountRead<R> {
    r: R,
    count: u64,
}

impl<R> AsyncCountRead<R> {
    pub closed spec fn inner(&self) -> R {
        self.r
    }

    pub closed spec fn count_spec(&self) -> u64 {
        self.count
    }

    /// Wraps `r`, with nothing read yet.
    pub fn new(r: R) -> (s: Self)
        ensures
            s.inner() == r,
            s.count_spec() == 0,
    {
        AsyncCountRead { r, count: 0 }
    }

    /// Bytes read so far.
    pub fn count(&self) -> (n: u64)
        ensures
            n == self.count_spec(),
    {
        self.count
    }

    /// The wrapped reader.
    pub fn get_ref(&self) -> (r: &R)
        ensures
            *r == self.inner(),
    {
        &self.r
    }

    /// Gives the wrapped reader back.
    pub fn into_inner(self) -> (r: R)
        ensures
            r == self.inner(),
    {
        self.r
    }

    /// The wrapped reader, to read from it.
    pub fn get_mut(&mut self) -> (r: &mut R)
        ensures
            *r == old(self).inner(),
            final(self).inner() == *final(r),
            final(self).count_spec() == old(self).count_spec(),
    {
        &mut self.r
    }

    /// Counts a poll of the wrapped reader, whatever it returned: the
    /// filled part of the read buffer grew from `before` to `after` bytes.
    /// The poll's outcome is handed back.
    pub fn on_poll_read<T>(&mut self, before: usize, after: usize, out: T) -> (r: T)
        requires
            before <= after,
            old(self).count_spec() + (after - before) <= u64::MAX,
        ensures
            r == out,
            final(self).count_spec() == old(self).count_spec() + (after - before),
            final(self).inner() == old(self).inner(),
    {
        self.count = self.count + (after - before) as u64;
        out
    }

    /// Counts the bytes that a read added to the read buffer, whose filled
    /// part grew from `before` to `after` bytes.
    pub fn record_filled(&mut self, before: u64, after: u64)
        requires
            before <= after,
            old(self).count_spec() + (after - before) <= u64::MAX,
        ensures
            final(self).count_spec() == old(self).count_spec() + (after - before),
            final(self).inner() == old(self).inner(),
    {
        self.count = self.count + (after - before);
    }
}

/// An asynchronous writer together with the number of bytes written to it.
pub struct CountAsyncWrite<W> {
    w: W,
    count: u64,
}

impl<W> CountAsyncWrite<W> {
    pub closed spec fn inner(&self) -> W {
        self.w
    }

    pub closed spec fn count_spec(&self) -> u64 {
        self.count
    }

    /// Wraps `w`, with nothing written yet.
    pub fn new(w: W) -> (s: Self)
        ensures
            s.inner() == w,
            s.count_spec() == 0,
    {
        CountAsyncWrite { w, count: 0 }
    }

    /// Bytes written so far.
    pub fn count(&self) -> (n: u64)
        ensures
            n == self.count_spec(),
    {
        self.count
    }

    /// The wrapped writer, to write to it.
    pub fn get_mut(&mut self) -> (w: &mut W)
        ensures
            *w == old(self).inner(),
            final(self).inner() == *final(w),
            final(self).count_spec() == old(self).count_spec(),
    {
        &mut self.w
    }

    /// Counts `bytes` more bytes written.
    pub fn record(&mut self, bytes: u64)
        requires
            old(self).count_spec() + bytes <= u64::MAX,
        ensures
            final(self).count_spec() == old(self).count_spec() + bytes,
            final(self).inner() == old(self).inner(),
    {
        self.count = self.count + bytes;
    }

    /// Counts a poll of the wrapped writer: `written` is `Some(n)` when it
    /// wrote `n` bytes, `None` when it was pending or failed, which counts
    /// nothing. The poll's outcome is handed back.
    pub fn on_poll_write<T>(&mut self, written: Option<usize>, out: T) -> (r: T)
        requires
            old(self).count_spec() + written_amount(written) <= u64::MAX,
        ensures
            r == out,
            final(self).count_spec() == old(self).count_spec() + written_amount(written),
            final(self).inner() == old(self).inner(),
    {
        match written {
            Some(n) => {
                self.count = self.count + n as u64;
            },
            None => {},
        }
        out
    }
}

/// What a poll of a reader adds to its count: how much the filled part of
/// the read buffer grew, from `fill.0` to `fill.1` bytes.
pub open spec fn fill_amounts(fills: Seq<(usize, usize)>) -> Seq<u64> {
    fills.map_values(|p: (usize, usize)| (p.1 - p.0) as u64)
}

/// What a poll of a writer adds to its count: the bytes written when it
/// wrote (`Some`), nothing when it was pending or failed (`None`).
pub open spec fn written_amount(w: Option<usize>) -> u64 {
    match w {
        Some(n) => n as u64,
        None => 0,
    }
}

/// The amounts that a run of write polls adds, in order.
pub open spec fn written_amounts(ws: Seq<Option<usize>>) -> Seq<u64> {
    ws.map_values(|w: Option<usize>| written_amount(w))
}

/// The count of an asynchronous reader: after [`AsyncCountRead::new`] and
/// then [`AsyncCountRead::on_poll_read`] for polls that grew the filled part
/// of the read buffer as `fills[0]`, ..., `fills[k-1]` say (whatever each
/// poll returned), the count is the sum of the growths, and the reader is
/// still the one wrapped at the start.
pub proof fn lemma_async_count_read_sums<R>(trace: Seq<AsyncCountRead<R>>, fills: Seq<(usize, usize)>)
    requires
        trace.len() == fills.len() + 1,
        trace[0].count_spec() == 0,
        forall|i: int|
            0 <= i < fills.len() ==> (#[trigger] fills[i]).0 <= fills[i].1 && trace[i + 1].count_spec()
                == trace[i].count_spec() + (fills[i].1 - fills[i].0) && trace[i + 1].inner()
                == trace[i].inner(),
    ensures
        trace.last().count_spec() == total(fill_amounts(fills)),
        trace.last().inner() == trace[0].inner(),
{
    let ns = fill_amounts(fills);
    let counts = Seq::new(trace.len(), |i: int| trace[i].count_spec());
    let inners = Seq::new(trace.len(), |i: int| trace[i].inner());
    assert forall|i: int| 0 <= i < ns.len() implies counts[i + 1] == counts[i] + #[trigger] ns[i] by {
        let _ = fills[i];
        assert(ns[i] == (fills[i].1 - fills[i].0) as u64);
    }
    lemma_running_total(counts, ns);
    assert forall|i: int| 0 <= i < inners.len() - 1 implies #[trigger] inners[i + 1] == inners[i] by {
        let _ = fills[i];
        assert(trace[i + 1].inner() == trace[i].inner());
    }
    lemma_unchanged(inners);
}

/// The count of an asynchronous writer: after [`CountAsyncWrite::new`] and
/// then [`CountAsyncWrite::on_poll_write`] for polls whose outcomes were
/// `ws[0]`, ..., `ws[k-1]` (`Some(n)` for a poll that wrote `n` bytes,
/// `None` for one that was pending or failed), the count is the sum of the
/// bytes written, and the writer is still the one wrapped at the start.
pub proof fn lemma_count_async_write_sums<W>(trace: Seq<CountAsyncWrite<W>>, ws: Seq<Option<usize>>)
    requires
        trace.len() == ws.len() + 1,
        trace[0].count_spec() == 0,
        forall|i: int|
            0 <= i < ws.len() ==> trace[i + 1].count_spec() == trace[i].count_spec() + written_amount(
                #[trigger] ws[i],
            ) && trace[i + 1].inner() == trace[i].inner(),
    ensures
        trace.last().count_spec() == total(written_amounts(ws)),
        trace.last().inner() == trace[0].inner(),
{
    let ns = written_amounts(ws);
    let counts = Seq::new(trace.len(), |i: int| trace[i].count_spec());
    let inners = Seq::new(trace.len(), |i: int| trace[i].inner());
    assert forall|i: int| 0 <= i < ns.len() implies counts[i + 1] == counts[i] + #[trigger] ns[i] by {
        assert(ns[i] == written_amount(ws[i]));
    }
    lemma_running_total(counts, ns);
    assert forall|i: int| 0 <= i < inners.len() - 1 implies #[trigger] inners[i + 1] == inners[i] by {
        let _ = written_amount(ws[i]);
        assert(trace[i + 1].inner() == trace[i].inner());
    }
    lemma_unchanged(inners);
}

} // verus!
