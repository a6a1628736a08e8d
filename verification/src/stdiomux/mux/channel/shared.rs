//! A bounded queue of byte chunks that wakes a task when it changes.
use vstd::prelude::*;

use futures::task::AtomicWaker;
use ringbuf::traits::{Consumer, Observer, Producer};
use ringbuf::HeapRb;

verus! {

/// A `ringbuf::HeapRb` of byte chunks. Verus sees nothing inside it: what it
/// holds is named by [`rb_items`] and [`rb_capacity`].
#[verifier::external_body]
pub struct ChunkRing {
    rb: HeapRb<Vec<u8>>,
}

#[verifier::external_type_specification]
#[verifier::external_body]
pub struct ExAtomicWaker(AtomicWaker);

/// The chunks a ring buffer holds, eldest first.
pub uninterp spec fn rb_items(rb: ChunkRing) -> Seq<Seq<u8>>;

/// The number of chunks a ring buffer was made to hold.
pub uninterp spec fn rb_capacity(rb: ChunkRing) -> nat;

/// `HeapRb::new`: an empty ring buffer with room for `capacity` items. The
/// crate panics on a zero capacity, which `requires` leaves out.
#[verifier::external_body]
fn rb_new(capacity: usize) -> (rb: ChunkRing)
    requires
        capacity > 0,
    ensures
        rb_items(rb) == Seq::<Seq<u8>>::empty(),
        rb_capacity(rb) == capacity,
{
    ChunkRing { rb: HeapRb::new(capacity) }
}

/// `Observer::vacant_len`: the capacity less the items held. A ring buffer
/// never holds more items than its capacity.
#[verifier::external_body]
fn rb_vacant_len(rb: &ChunkRing) -> (n: usize)
    ensures
        rb_items(*rb).len() + n == rb_capacity(*rb),
{
    rb.rb.vacant_len()
}

/// `Producer::try_push`: appends `x` behind the eldest items when there is a
/// vacant slot, and hands `x` back otherwise.
#[verifier::external_body]
fn rb_try_push(rb: &mut ChunkRing, x: Vec<u8>) -> (r: Result<(), Vec<u8>>)
    ensures
        rb_capacity(*final(rb)) == rb_capacity(*old(rb)),
        rb_items(*old(rb)).len() < rb_capacity(*old(rb)) ==> {
            &&& r is Ok
            &&& rb_items(*final(rb)) == rb_items(*old(rb)).push(x@)
        },
        rb_items(*old(rb)).len() >= rb_capacity(*old(rb)) ==> {
            &&& r matches Err(back) && back@ == x@
            &&& rb_items(*final(rb)) == rb_items(*old(rb))
        },
{
    rb.rb.try_push(x)
}

/// `Consumer::try_pop`: takes out the eldest item, if there is one.
#[verifier::external_body]
fn rb_try_pop(rb: &mut ChunkRing) -> (r: Option<Vec<u8>>)
    ensures
        rb_capacity(*final(rb)) == rb_capacity(*old(rb)),
        rb_items(*old(rb)).len() == 0 ==> {
            &&& r is None
            &&& rb_items(*final(rb)) == rb_items(*old(rb))
        },
        rb_items(*old(rb)).len() > 0 ==> {
            &&& r matches Some(x) && x@ == rb_items(*old(rb))[0]
            &&& rb_items(*final(rb)) == rb_items(*old(rb)).drop_first()
        },
{
    rb.rb.try_pop()
}

/// `AtomicWaker::new`: a waker slot with no task registered.
#[verifier::external_body]
fn atomic_waker_new() -> (w: AtomicWaker) {
    AtomicWaker::new()
}

/// `AtomicWaker::wake`: wakes the registered task, if any. Nothing that the
/// library observes changes.
#[verifier::external_body]
fn atomic_waker_wake(w: &AtomicWaker) {
    w.wake()
}

/// The buffer is full.
#[derive(Debug, PartialEq, Eq, Structural, Clone, Copy)]
pub struct Full;

/// The buffer is empty.
#[derive(Debug, PartialEq, Eq, Structural, Clone, Copy)]
pub struct Empty;

/// Which change of the buffer wakes the waiting task.
#[derive(Debug, PartialEq, Eq, Structural, Clone, Copy)]
pub enum Mode {
    WakeOnInsert,
    WakeOnRemove,
}

/// Ring buffer of byte chunks combined with a waker. A buffer of size zero
/// holds nothing and refuses every push.
pub struct WokeRb {
    pub buf: Option<ChunkRing>,
    pub is_available: AtomicWaker,
    pub granted_permits: usize,
    mode: Mode,
}

impl WokeRb {
    /// The chunks held, eldest first.
    pub closed spec fn items(&self) -> Seq<Seq<u8>> {
        match self.buf {
            Some(rb) => rb_items(rb),
            None => Seq::empty(),
        }
    }

    /// The number of chunks the buffer can hold.
    pub closed spec fn capacity(&self) -> nat {
        match self.buf {
            Some(rb) => rb_capacity(rb),
            None => 0,
        }
    }

    /// Permits granted to the sending side and not yet spent.
    pub closed spec fn permits(&self) -> usize {
        self.granted_permits
    }

    pub closed spec fn mode_spec(&self) -> Mode {
        self.mode
    }

    /// Makes an empty buffer with room for `size` chunks.
    pub fn new(size: usize, mode: Mode) -> (s: Self)
        ensures
            s.items() == Seq::<Seq<u8>>::empty(),
            s.capacity() == size,
            s.permits() == 0,
            s.mode_spec() == mode,
    {
        let buf = if size == 0 {
            None
        } else {
            Some(rb_new(size))
        };
        WokeRb { buf, is_available: atomic_waker_new(), granted_permits: 0, mode }
    }

    /// How many slots are open.
    pub fn available_capacity(&self) -> (n: usize)
        ensures
            self.items().len() <= self.capacity(),
            n == self.capacity() - self.items().len(),
    {
        match &self.buf {
            Some(b) => rb_vacant_len(b),
            None => 0,
        }
    }

    /// Appends `x` if a slot is open, and wakes the waiting task when the
    /// mode asks for it.
    pub fn try_push(&mut self, x: Vec<u8>) -> (r: Result<(), Full>)
        ensures
            r is Ok <==> old(self).items().len() < old(self).capacity(),
            r is Ok ==> final(self).items() == old(self).items().push(x@),
            r is Err ==> final(self).items() == old(self).items(),
            final(self).capacity() == old(self).capacity(),
            final(self).permits() == old(self).permits(),
            final(self).mode_spec() == old(self).mode_spec(),
    {
        let pushed = match &mut self.buf {
            None => false,
            Some(b) => match rb_try_push(b, x) {
                Ok(()) => true,
                Err(_) => false,
            },
        };
        if !pushed {
            return Err(Full);
        }
        if self.mode == Mode::WakeOnInsert {
            atomic_waker_wake(&self.is_available);
        }
        Ok(())
    }

    /// Takes out the eldest chunk, and wakes the waiting task when the mode
    /// asks for it.
    pub fn try_pop(&mut self) -> (r: Result<Vec<u8>, Empty>)
        ensures
            r is Ok <==> old(self).items().len() > 0,
            r matches Ok(x) ==> x@ == old(self).items()[0] && final(self).items()
                == old(self).items().drop_first(),
            r is Err ==> final(self).items() == old(self).items(),
            final(self).capacity() == old(self).capacity(),
            final(self).permits() == old(self).permits(),
            final(self).mode_spec() == old(self).mode_spec(),
    {
        let popped = match &mut self.buf {
            None => None,
            Some(b) => rb_try_pop(b),
        };
        match popped {
            None => Err(Empty),
            Some(out) => {
                if self.mode == Mode::WakeOnRemove {
                    atomic_waker_wake(&self.is_available);
                }
                Ok(out)
            },
        }
    }
}

} // verus!
