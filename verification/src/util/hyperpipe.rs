//! Index arithmetic of a single-producer, multiple-consumer byte pipe.
//!
//! The pipe is a ring buffer of `capacity` bytes. The writer and each reader
//! hold an absolute position that only grows; a position's index in the
//! buffer is the position modulo the capacity. The writer may run ahead of
//! the slowest reader by at most `capacity` bytes.
use vstd::prelude::*;

use vstd::arithmetic::div_mod::{lemma_fundamental_div_mod, lemma_mod_bound};

verus! {

/// A contiguous part of the ring buffer: `len` bytes from index `start`.
#[derive(Debug, PartialEq, Eq, Structural, Clone, Copy)]
pub struct Span {
    pub start: usize,
    pub len: usize,
}

/// Positions that a pipe can be in: the reader is not ahead of the writer,
/// and the writer is at most one buffer ahead of the reader.
pub open spec fn positions_ok(capacity: usize, writer_pos: usize, reader_pos: usize) -> bool {
    reader_pos <= writer_pos <= reader_pos + capacity
}

/// The span the writer may fill next, given the slowest reader's position.
pub open spec fn writeable_span_spec(capacity: usize, writer_pos: usize, reader_pos: usize) -> Span {
    if writer_pos - reader_pos >= capacity {
        Span { start: 0, len: 0 }
    } else {
        let wi = (writer_pos % capacity) as usize;
        let ri = (reader_pos % capacity) as usize;
        if wi < ri {
            Span { start: wi, len: (ri - wi) as usize }
        } else {
            Span { start: wi, len: (capacity - wi) as usize }
        }
    }
}

/// The span a reader may consume next, given the writer's position.
pub open spec fn readable_span_spec(capacity: usize, reader_pos: usize, writer_pos: usize) -> Span {
    if reader_pos >= writer_pos {
        Span { start: 0, len: 0 }
    } else {
        let ri = (reader_pos % capacity) as usize;
        let wi = (writer_pos % capacity) as usize;
        if wi < ri {
            Span { start: ri, len: (capacity - ri) as usize }
        } else if wi == ri {
            Span { start: ri, len: 0 }
        } else {
            Span { start: ri, len: (wi - ri) as usize }
        }
    }
}

/// The smallest of the writer's position and the live readers' positions.
pub open spec fn slowest_spec(writer_pos: usize, readers: Seq<Option<usize>>) -> usize
    decreases readers.len(),
{
    if readers.len() == 0 {
        writer_pos
    } else {
        let rest = slowest_spec(writer_pos, readers.drop_last());
        match readers.last() {
            Some(p) => if p < rest {
                p
            } else {
                rest
            },
            None => rest,
        }
    }
}

/// Number of bytes the writer can still write before the slowest reader
/// holds it back.
pub fn writer_available_capacity(capacity: usize, writer_pos: usize, reader_pos: usize) -> (r: usize)
    requires
        positions_ok(capacity, writer_pos, reader_pos),
    ensures
        r == capacity - (writer_pos - reader_pos),
{
    capacity - (writer_pos - reader_pos)
}

/// Number of bytes a reader can still read before it has to wait for the
/// writer: what lies between the reader and the writer.
pub fn reader_available_capacity(capacity: usize, writer_pos: usize, reader_pos: usize) -> (r: usize)
    requires
        positions_ok(capacity, writer_pos, reader_pos),
    ensures
        r == writer_pos - reader_pos,
{
    writer_pos - reader_pos
}

/// The span the writer may fill next without overwriting bytes that the
/// slowest reader has not read.
pub fn next_writeable_span(capacity: usize, writer_pos: usize, reader_pos: usize) -> (r: Span)
    requires
        positions_ok(capacity, writer_pos, reader_pos),
    ensures
        r == writeable_span_spec(capacity, writer_pos, reader_pos),
{
    if writer_pos - reader_pos >= capacity {
        return Span { start: 0, len: 0 };
    }
    let writer_index = writer_pos % capacity;
    let reader_index = reader_pos % capacity;
    if writer_index < reader_index {
        // the slowest reader is ahead of the writer in the buffer
        Span { start: writer_index, len: reader_index - writer_index }
    } else {
        // the writer is at or ahead of the slowest reader in the buffer
        Span { start: writer_index, len: capacity - writer_index }
    }
}

/// The span a reader may consume next without reading past the writer.
pub fn next_readable_span(capacity: usize, reader_pos: usize, writer_pos: usize) -> (r: Span)
    requires
        positions_ok(capacity, writer_pos, reader_pos),
    ensures
        r == readable_span_spec(capacity, reader_pos, writer_pos),
{
    if reader_pos >= writer_pos {
        return Span { start: 0, len: 0 };
    }
    let reader_index = reader_pos % capacity;
    let writer_index = writer_pos % capacity;
    if writer_index < reader_index {
        Span { start: reader_index, len: capacity - reader_index }
    } else if writer_index == reader_index {
        Span { start: reader_index, len: 0 }
    } else {
        Span { start: reader_index, len: writer_index - reader_index }
    }
}

/// The position of the slowest live reader (`None` is a reader that has
/// gone away), or the writer's position when there is none.
pub fn slowest_reader_position(writer_pos: usize, readers: &[Option<usize>]) -> (r: usize)
    ensures
        r == slowest_spec(writer_pos, readers@),
{
    let mut min = writer_pos;
    let mut i: usize = 0;
    while i < readers.len()
        invariant
            i <= readers@.len(),
            min == slowest_spec(writer_pos, readers@.take(i as int)),
        decreases readers.len() - i,
    {
        assert(readers@.take(i + 1).drop_last() =~= readers@.take(i as int));
        match readers[i] {
            Some(loaded) => {
                if loaded < min {
                    min = loaded;
                }
            },
            None => {},
        }
        i = i + 1;
    }
    assert(readers@.take(i as int) =~= readers@);
    min
}

proof fn lemma_split(x: int, c: int)
    requires
        0 <= x,
        0 < c,
    ensures
        x == (x / c) * c + x % c,
        0 <= x % c < c,
        0 <= x / c,
{
    lemma_fundamental_div_mod(x, c);
    lemma_mod_bound(x, c);
    assert(x / c >= 0) by (nonlinear_arith)
        requires
            0 <= x,
            0 < c,
            x == c * (x / c) + x % c,
            0 <= x % c < c,
    ;
    assert(c * (x / c) == (x / c) * c) by (nonlinear_arith);
}

/// The writer never overwrites unread bytes: its span lies inside the
/// buffer, starts at the writer's index, and ends no later than one buffer
/// past the slowest reader. It is empty only when the buffer is full.
pub proof fn lemma_writeable_span_safe(capacity: usize, writer_pos: usize, reader_pos: usize)
    requires
        positions_ok(capacity, writer_pos, reader_pos),
    ensures
        ({
            let s = writeable_span_spec(capacity, writer_pos, reader_pos);
            &&& s.start + s.len <= capacity
            &&& writer_pos + s.len <= reader_pos + capacity
            &&& s.len > 0 ==> s.start == writer_pos % capacity
            &&& (s.len == 0 <==> writer_pos - reader_pos == capacity)
        }),
{
    if writer_pos - reader_pos < capacity {
        let c = capacity as int;
        let w = writer_pos as int;
        let r = reader_pos as int;
        lemma_split(w, c);
        lemma_split(r, c);
        let (q, wi) = (w / c, w % c);
        let (p, ri) = (r / c, r % c);
        if wi < ri {
            assert(w + (ri - wi) <= r + c) by (nonlinear_arith)
                requires
                    w == q * c + wi,
                    r == p * c + ri,
                    0 <= wi < ri < c,
                    r <= w,
                    w - r < c,
            ;
        } else {
            assert(w + (c - wi) <= r + c) by (nonlinear_arith)
                requires
                    w == q * c + wi,
                    r == p * c + ri,
                    0 <= ri <= wi < c,
                    r <= w,
                    w - r < c,
            ;
        }
    }
}

/// A reader never reads bytes that were not written: its span lies inside
/// the buffer, starts at the reader's index and ends no later than the
/// writer. Unless the buffer is exactly full, it is empty only when the
/// reader has caught up with the writer.
pub proof fn lemma_readable_span_safe(capacity: usize, writer_pos: usize, reader_pos: usize)
    requires
        positions_ok(capacity, writer_pos, reader_pos),
    ensures
        ({
            let s = readable_span_spec(capacity, reader_pos, writer_pos);
            &&& s.start + s.len <= capacity || capacity == 0
            &&& reader_pos + s.len <= writer_pos
            &&& s.len > 0 ==> s.start == reader_pos % capacity
            &&& writer_pos - reader_pos < capacity ==> (s.len == 0 <==> reader_pos == writer_pos)
        }),
{
    if reader_pos < writer_pos {
        let c = capacity as int;
        let w = writer_pos as int;
        let r = reader_pos as int;
        lemma_split(w, c);
        lemma_split(r, c);
        let (q, wi) = (w / c, w % c);
        let (p, ri) = (r / c, r % c);
        if wi < ri {
            assert(r + (c - ri) <= w) by (nonlinear_arith)
                requires
                    w == q * c + wi,
                    r == p * c + ri,
                    0 <= wi < ri < c,
                    r < w,
                    w - r <= c,
            ;
        } else if wi == ri {
            assert(w - r == c) by (nonlinear_arith)
                requires
                    w == q * c + wi,
                    r == p * c + ri,
                    wi == ri,
                    0 <= wi < c,
                    r < w,
                    w - r <= c,
            ;
        } else {
            assert(r + (wi - ri) <= w) by (nonlinear_arith)
                requires
                    w == q * c + wi,
                    r == p * c + ri,
                    0 <= ri < wi < c,
                    r < w,
                    w - r <= c,
            ;
        }
    }
}

/// The slowest position is never ahead of the writer nor of any live
/// reader, and it is one of them.
pub proof fn lemma_slowest_is_minimum(writer_pos: usize, readers: Seq<Option<usize>>)
    ensures
        slowest_spec(writer_pos, readers) <= writer_pos,
        forall|i: int|
            0 <= i < readers.len() ==> (#[trigger] readers[i] matches Some(p) ==> slowest_spec(
                writer_pos,
                readers,
            ) <= p),
        slowest_spec(writer_pos, readers) == writer_pos || exists|i: int|
            0 <= i < readers.len() && readers[i] == Some(slowest_spec(writer_pos, readers)),
    decreases readers.len(),
{
    if readers.len() > 0 {
        let d = readers.drop_last();
        lemma_slowest_is_minimum(writer_pos, d);
        assert forall|i: int|
            0 <= i < readers.len() implies (#[trigger] readers[i] matches Some(p)
            ==> slowest_spec(writer_pos, readers) <= p) by {
            if i < d.len() {
                assert(readers[i] == d[i]);
            }
        }
        if slowest_spec(writer_pos, readers) != writer_pos {
            if readers.last() matches Some(p) && p < slowest_spec(writer_pos, d) {
                assert(readers[readers.len() - 1] == Some(slowest_spec(writer_pos, readers)));
            } else {
                let i = choose|i: int|
                    0 <= i < d.len() && d[i] == Some(slowest_spec(writer_pos, d));
                assert(readers[i] == d[i]);
            }
        }
    }
}

} // verus!
