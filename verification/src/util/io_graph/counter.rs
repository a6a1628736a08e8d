use vstd::prelude::*;

use std::sync::atomic::{
    AtomicBool, AtomicI16, AtomicI32, AtomicI64, AtomicI8, AtomicU16, AtomicU32, AtomicU64,
    AtomicU8, Ordering,
};

verus! {

/// A set of live counters that can be copied into a plain snapshot.
pub trait Counter: Default {
    type Snapshot: Default;

    /// Whether `snapshot` has the shape of this counter: the same optional
    /// parts present and the same number of elements in each list, all the
    /// way down. A counter without such parts fits every snapshot.
    open spec fn fits_snapshot(&self, snapshot: Self::Snapshot) -> bool {
        true
    }

    /// Replaces `dst` with the latest snapshot of this counter, reshaping it
    /// as needed.
    fn snapshot_into(&self, dst: &mut Self::Snapshot)
        ensures
            self.fits_snapshot(*final(dst)),
    ;
}

impl<T: Counter> Counter for Option<T> {
    type Snapshot = Option<T::Snapshot>;

    open spec fn fits_snapshot(&self, snapshot: Option<T::Snapshot>) -> bool {
        match (*self, snapshot) {
            (None, None) => true,
            (Some(c), Some(s)) => c.fits_snapshot(s),
            _ => false,
        }
    }

    /// An absent counter snapshots to an absent value, a present one to a
    /// present value.
    fn snapshot_into(&self, dst: &mut Option<T::Snapshot>)
        ensures
            final(dst).is_some() == self.is_some(),
    {
        match self {
            None => {
                *dst = None;
            },
            Some(c) => {
                let mut cell = match dst.take() {
                    Some(s) => s,
                    None => T::Snapshot::default(),
                };
                c.snapshot_into(&mut cell);
                *dst = Some(cell);
            },
        }
    }
}

impl<T: Counter> Counter for Vec<T> {
    type Snapshot = Vec<T::Snapshot>;

    open spec fn fits_snapshot(&self, snapshot: Vec<T::Snapshot>) -> bool {
        &&& snapshot@.len() == self@.len()
        &&& forall|i: int| 0 <= i < self@.len() ==> #[trigger] self@[i].fits_snapshot(snapshot@[i])
    }

    /// The snapshot has one element per counter, whatever length `dst` had.
    fn snapshot_into(&self, dst: &mut Vec<T::Snapshot>)
        ensures
            final(dst)@.len() == self@.len(),
    {
        if dst.len() != self.len() {
            // replace with a new vec of empty cells
            let mut fresh: Vec<T::Snapshot> = Vec::with_capacity(self.len());
            let mut k: usize = 0;
            while k < self.len()
                invariant
                    k <= self@.len(),
                    fresh@.len() == k,
                decreases self.len() - k,
            {
                fresh.push(T::Snapshot::default());
                k = k + 1;
            }
            *dst = fresh;
        }
        let mut i: usize = 0;
        while i < self.len()
            invariant
                i <= self@.len(),
                dst@.len() == self@.len(),
                forall|j: int| 0 <= j < i ==> #[trigger] self@[j].fits_snapshot(dst@[j]),
            decreases self.len() - i,
        {
            let mut cell = T::Snapshot::default();
            std::mem::swap(&mut cell, &mut dst[i]);
            self[i].snapshot_into(&mut cell);
            dst.set(i, cell);
            i = i + 1;
        }
    }
}

impl<T: Counter> Counter for Box<T> {
    type Snapshot = T::Snapshot;

    /// A boxed counter fits what the counter it points to fits.
    open spec fn fits_snapshot(&self, snapshot: T::Snapshot) -> bool {
        (**self).fits_snapshot(snapshot)
    }

    fn snapshot_into(&self, dst: &mut T::Snapshot) {
        (**self).snapshot_into(dst)
    }
}

impl<T: Counter> Counter for std::sync::Arc<T> {
    type Snapshot = T::Snapshot;

    /// A shared counter fits what the counter it points to fits.
    open spec fn fits_snapshot(&self, snapshot: T::Snapshot) -> bool {
        (**self).fits_snapshot(snapshot)
    }

    fn snapshot_into(&self, dst: &mut T::Snapshot) {
        (**self).snapshot_into(dst)
    }
}

impl<T: Counter> Counter for std::rc::Rc<T> {
    type Snapshot = T::Snapshot;

    /// A shared counter fits what the counter it points to fits.
    open spec fn fits_snapshot(&self, snapshot: T::Snapshot) -> bool {
        (**self).fits_snapshot(snapshot)
    }

    fn snapshot_into(&self, dst: &mut T::Snapshot) {
        (**self).snapshot_into(dst)
    }
}

impl Counter for AtomicBool {
    type Snapshot = bool;

    fn snapshot_into(&self, dst: &mut bool) {
        *dst = self.load(Ordering::Relaxed);
    }
}

impl Counter for AtomicI8 {
    type Snapshot = i8;

    fn snapshot_into(&self, dst: &mut i8) {
        *dst = self.load(Ordering::Relaxed);
    }
}

impl Counter for AtomicI16 {
    type Snapshot = i16;

    fn snapshot_into(&self, dst: &mut i16) {
        *dst = self.load(Ordering::Relaxed);
    }
}

impl Counter for AtomicI32 {
    type Snapshot = i32;

    fn snapshot_into(&self, dst: &mut i32) {
        *dst = self.load(Ordering::Relaxed);
    }
}

impl Counter for AtomicI64 {
    type Snapshot = i64;

    fn snapshot_into(&self, dst: &mut i64) {
        *dst = self.load(Ordering::Relaxed);
    }
}

impl Counter for AtomicU8 {
    type Snapshot = u8;

    fn snapshot_into(&self, dst: &mut u8) {
        *dst = self.load(Ordering::Relaxed);
    }
}

impl Counter for AtomicU16 {
    type Snapshot = u16;

    fn snapshot_into(&self, dst: &mut u16) {
        *dst = self.load(Ordering::Relaxed);
    }
}

impl Counter for AtomicU32 {
    type Snapshot = u32;

    fn snapshot_into(&self, dst: &mut u32) {
        *dst = self.load(Ordering::Relaxed);
    }
}

impl Counter for AtomicU64 {
    type Snapshot = u64;

    fn snapshot_into(&self, dst: &mut u64) {
        *dst = self.load(Ordering::Relaxed);
    }
}

} // verus!
