use vstd::prelude::*;

verus! {

/// A reader together with the number of bytes read from it so far.
pub struct CountRead<R> {
    r: R,
    count: u64,
}

impl<R> CountRead<R> {
    pub closed spec fn inner(&self) -> R {
        self.r
    }

    pub closed spec fn count_spec(&self) -> u64 {
        self.count
    }

    /// Wraps `r`, with nothing read yet.
    pub fn new(r: R) -> (s: Self)
        ensures
            s.inner() == r,
            s.count_spec() == 0,
    {
        CountRead { r, count: 0 }
    }

    /// Bytes read so far.
    pub fn count(&self) -> (n: u64)
        ensures
            n == self.count_spec(),
    {
        self.count
    }

    /// The wrapped reader.
    pub fn get_ref(&self) -> (r: &R)
        ensures
            *r == self.inner(),
    {
        &self.r
    }

    /// The wrapped reader, to read from it.
    pub fn get_mut(&mut self) -> (r: &mut R)
        ensures
            *r == old(self).inner(),
            final(self).inner() == *final(r),
            final(self).count_spec() == old(self).count_spec(),
    {
        &mut self.r
    }

    /// Counts the outcome of a read of the wrapped reader: a success adds
    /// the bytes read, an error adds nothing. The outcome is handed back.
    pub fn on_read<E>(&mut self, res: Result<usize, E>) -> (r: Result<usize, E>)
        requires
            old(self).count_spec() + io_amount(res) <= u64::MAX,
        ensures
            r == res,
            final(self).count_spec() == old(self).count_spec() + io_amount(res),
            final(self).inner() == old(self).inner(),
    {
        match &res {
            Ok(n) => {
                self.count = self.count + *n as u64;
            },
            Err(_) => {},
        }
        res
    }

    /// Counts `bytes` more bytes read.
    pub fn record(&mut self, bytes: u64)
        requires
            old(self).count_spec() + bytes <= u64::MAX,
        ensures
            final(self).count_spec() == old(self).count_spec() + bytes,
            final(self).inner() == old(self).inner(),
    {
        self.count = self.count + bytes;
    }
}

/// A writer together with the number of bytes written to it so far.
pub struct CountWrite<W> {
    w: W,
    count: u64,
}

impl<W> CountWrite<W> {
    pub closed spec fn inner(&self) -> W {
        self.w
    }

    pub closed spec fn count_spec(&self) -> u64 {
        self.count
    }

    /// Wraps `w`, with nothing written yet.
    pub fn new(w: W) -> (s: Self)
        ensures
            s.inner() == w,
            s.count_spec() == 0,
    {
        CountWrite { w, count: 0 }
    }

    /// Bytes written so far.
    pub fn count(&self) -> (n: u64)
        ensures
            n == self.count_spec(),
    {
        self.count
    }

    /// The wrapped writer, to write to it.
    pub fn get_mut(&mut self) -> (w: &mut W)
        ensures
            *w == old(self).inner(),
            final(self).inner() == *final(w),
            final(self).count_spec() == old(self).count_spec(),
    {
        &mut self.w
    }

    /// Counts the outcome of a write to the wrapped writer: a success adds
    /// the bytes written, an error adds nothing. The outcome is handed back.
    pub fn on_write<E>(&mut self, res: Result<usize, E>) -> (r: Result<usize, E>)
        requires
            old(self).count_spec() + io_amount(res) <= u64::MAX,
        ensures
            r == res,
            final(self).count_spec() == old(self).count_spec() + io_amount(res),
            final(self).inner() == old(self).inner(),
    {
        match &res {
            Ok(n) => {
                self.count = self.count + *n as u64;
            },
            Err(_) => {},
        }
        res
    }

    /// Counts `bytes` more bytes written.
    pub fn record(&mut self, bytes: u64)
        requires
            old(self).count_spec() + bytes <= u64::MAX,
        ensures
            final(self).count_spec() == old(self).count_spec() + bytes,
            final(self).inner() == old(self).inner(),
    {
        self.count = self.count + bytes;
    }
}

// ---------------------------------------------------------------------------
// Laws
// ---------------------------------------------------------------------------

/// The sum of the byte counts `ns`.
pub open spec fn total(ns: Seq<u64>) -> int
    decreases ns.len(),
{
    if ns.len() == 0 {
        0
    } else {
        total(ns.drop_last()) + ns.last()
    }
}

/// A running count that starts at zero and grows by `ns[i]` at step `i`
/// ends at the sum of `ns`.
pub proof fn lemma_running_total(counts: Seq<u64>, ns: Seq<u64>)
    requires
        counts.len() == ns.len() + 1,
        counts[0] == 0,
        forall|i: int| 0 <= i < ns.len() ==> counts[i + 1] == counts[i] + #[trigger] ns[i],
    ensures
        counts.last() == total(ns),
    decreases ns.len(),
{
    if ns.len() > 0 {
        let c = counts.drop_last();
        let m = ns.drop_last();
        assert forall|i: int| 0 <= i < m.len() implies c[i + 1] == c[i] + #[trigger] m[i] by {
            assert(ns[i] == m[i]);
        }
        lemma_running_total(c, m);
        assert(counts[ns.len() as int] == counts[ns.len() - 1] + ns[ns.len() - 1]);
    }
}

/// A value that no step changes is the same at the end as at the start.
pub proof fn lemma_unchanged<A>(xs: Seq<A>)
    requires
        xs.len() >= 1,
        forall|i: int| 0 <= i < xs.len() - 1 ==> #[trigger] xs[i + 1] == xs[i],
    ensures
        xs.last() == xs[0],
    decreases xs.len(),
{
    if xs.len() > 1 {
        let d = xs.drop_last();
        assert forall|i: int| 0 <= i < d.len() - 1 implies #[trigger] d[i + 1] == d[i] by {
            assert(d[i + 1] == xs[i + 1]);
        }
        lemma_unchanged(d);
        let k = xs.len() - 2;
        assert(xs[k + 1] == xs[k]);
    }
}

/// What the outcome of a read or a write adds to a count: the bytes of a
/// success, nothing for an error.
pub open spec fn io_amount<E>(res: Result<usize, E>) -> u64 {
    match res {
        Ok(n) => n as u64,
        Err(_) => 0,
    }
}

/// The amounts that a run of outcomes adds, in order.
pub open spec fn io_amounts<E>(rs: Seq<Result<usize, E>>) -> Seq<u64> {
    rs.map_values(|r: Result<usize, E>| io_amount(r))
}

/// The count of a reader: after [`CountRead::new`] and then
/// [`CountRead::on_read`] of the outcomes `rs[0]`, ..., `rs[k-1]` of reads
/// of the wrapped reader, the count is the sum of what the successful reads
/// read (an error counts nothing), and the reader is still the one wrapped
/// at the start.
pub proof fn lemma_count_read_sums<R, E>(trace: Seq<CountRead<R>>, rs: Seq<Result<usize, E>>)
    requires
        trace.len() == rs.len() + 1,
        trace[0].count_spec() == 0,
        forall|i: int|
            0 <= i < rs.len() ==> trace[i + 1].count_spec() == trace[i].count_spec() + io_amount(
                #[trigger] rs[i],
            ) && trace[i + 1].inner() == trace[i].inner(),
    ensures
        trace.last().count_spec() == total(io_amounts(rs)),
        trace.last().inner() == trace[0].inner(),
{
    let ns = io_amounts(rs);
    let counts = Seq::new(trace.len(), |i: int| trace[i].count_spec());
    let inners = Seq::new(trace.len(), |i: int| trace[i].inner());
    assert forall|i: int| 0 <= i < ns.len() implies counts[i + 1] == counts[i] + #[trigger] ns[i] by {
        assert(ns[i] == io_amount(rs[i]));
    }
    lemma_running_total(counts, ns);
    assert forall|i: int| 0 <= i < inners.len() - 1 implies #[trigger] inners[i + 1] == inners[i] by {
        let _ = io_amount(rs[i]);
        assert(trace[i + 1].inner() == trace[i].inner());
    }
    lemma_unchanged(inners);
}

/// The count of a writer: after [`CountWrite::new`] and then
/// [`CountWrite::on_write`] of the outcomes `rs[0]`, ..., `rs[k-1]` of
/// writes to the wrapped writer, the count is the sum of what the
/// successful writes wrote (an error counts nothing, and a flush, made
/// through [`CountWrite::get_mut`], keeps the count), and the writer is
/// still the one wrapped at the start.
pub proof fn lemma_count_write_sums<W, E>(trace: Seq<CountWrite<W>>, rs: Seq<Result<usize, E>>)
    requires
        trace.len() == rs.len() + 1,
        trace[0].count_spec() == 0,
        forall|i: int|
            0 <= i < rs.len() ==> trace[i + 1].count_spec() == trace[i].count_spec() + io_amount(
                #[trigger] rs[i],
            ) && trace[i + 1].inner() == trace[i].inner(),
    ensures
        trace.last().count_spec() == total(io_amounts(rs)),
        trace.last().inner() == trace[0].inner(),
{
    let ns = io_amounts(rs);
    let counts = Seq::new(trace.len(), |i: int| trace[i].count_spec());
    let inners = Seq::new(trace.len(), |i: int| trace[i].inner());
    assert forall|i: int| 0 <= i < ns.len() implies counts[i + 1] == counts[i] + #[trigger] ns[i] by {
        assert(ns[i] == io_amount(rs[i]));
    }
    lemma_running_total(counts, ns);
    assert forall|i: int| 0 <= i < inners.len() - 1 implies #[trigger] inners[i + 1] == inners[i] by {
        let _ = io_amount(rs[i]);
        assert(trace[i + 1].inner() == trace[i].inner());
    }
    lemma_unchanged(inners);
}

} // verus!
