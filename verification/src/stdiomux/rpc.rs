//! Bookkeeping of the requests an RPC client is waiting on: each request
//! gets an id, and the reply carrying that id goes to the one waiting.
use vstd::prelude::*;

use std::collections::HashMap;
use vstd::arithmetic::power2::{
    lemma2_to64, lemma2_to64_rest, lemma_pow2_strictly_increases, lemma_pow2_unfold, pow2,
};

verus! {

#[verifier::external_type_specification]
#[verifier::external_body]
#[verifier::reject_recursive_types(T)]
pub struct ExOneshotSender<T>(tokio::sync::oneshot::Sender<T>);

#[verifier::external_type_specification]
#[verifier::external_body]
#[verifier::reject_recursive_types(T)]
pub struct ExOneshotReceiver<T>(tokio::sync::oneshot::Receiver<T>);

#[verifier::external_type_specification]
#[verifier::external_body]
pub struct ExOneshotRecvError(tokio::sync::oneshot::error::RecvError);

/// `tokio::sync::oneshot::channel`: a sender and the receiver it reaches.
/// Nothing about either is claimed.
#[verifier::external_body]
fn oneshot_channel<T>() -> (r: (tokio::sync::oneshot::Sender<T>, tokio::sync::oneshot::Receiver<T>)) {
    tokio::sync::oneshot::channel()
}

/// `oneshot::Sender::send`: hands `value` to the receiver, or back when the
/// receiver is gone. Whether it is gone depends on the task holding it, so
/// nothing is claimed of the result.
#[verifier::external_body]
fn oneshot_send<T>(tx: tokio::sync::oneshot::Sender<T>, value: T) -> (r: Result<(), T>) {
    tx.send(value)
}

/// Whether `n` is one less than a power of two: 0, 1, 3, 7, ..., up to
/// `u64::MAX`.
pub open spec fn all_ones(n: u64) -> bool {
    exists|k: nat| k <= 64 && n + 1 == pow2(k)
}

/// The id that follows `n`: `n` plus `n + 1` wrapped to 64 bits. From zero
/// this runs through 1, 3, 7, ... and stays at `u64::MAX` once there.
pub open spec fn next_request_id(n: u64) -> u64 {
    if n == u64::MAX {
        n
    } else {
        (2 * n + 1) as u64
    }
}

/// The counter never overflows: from a value one less than a power of two
/// the next id is again one, and it grows until it reaches `u64::MAX`,
/// where it stays.
pub proof fn lemma_request_ids_grow_then_saturate(n: u64)
    requires
        all_ones(n),
    ensures
        n < u64::MAX ==> 2 * n + 1 <= u64::MAX,
        all_ones(next_request_id(n)),
        n < u64::MAX ==> next_request_id(n) > n,
        next_request_id(n) == n <==> n == u64::MAX,
{
    let k = choose|k: nat| k <= 64 && n + 1 == pow2(k);
    lemma2_to64();
    if n < u64::MAX {
        if k == 64 {
            assert(false);
        }
        lemma_pow2_unfold(k + 1);
        if k + 1 < 64 {
            lemma_pow2_strictly_increases(k + 1, 64);
        }
        assert(2 * n + 1 + 1 == pow2(k + 1));
    } else {
        assert(n + 1 == pow2(64));
    }
}

/// The id of the request made by the `i`-th call after the map was made,
/// counting from zero.
pub open spec fn nth_request_id(i: nat) -> u64
    decreases i,
{
    if i == 0 {
        0
    } else {
        next_request_id(nth_request_id((i - 1) as nat))
    }
}

/// The first 65 ids are 0, 1, 3, ..., `2^64 - 1`: one less than successive
/// powers of two.
pub proof fn lemma_nth_request_id(i: nat)
    requires
        i <= 64,
    ensures
        nth_request_id(i) + 1 == pow2(i),
    decreases i,
{
    lemma2_to64();
    if i > 0 {
        lemma_nth_request_id((i - 1) as nat);
        lemma_pow2_unfold(i);
        let e: nat = (i - 1) as nat;
        lemma2_to64_rest();
        if e < 63 {
            lemma_pow2_strictly_increases(e, 63);
        }
        assert(pow2(e) <= 0x8000_0000_0000_0000);
        assert(pow2(i) == 2 * pow2(e));
    }
}

/// `trace` lists a request map and then the map after each call of
/// [`RequestMap::allocate_request_slot`], and `ids` the ids the calls
/// returned.
pub open spec fn allocation_trace<T>(trace: Seq<RequestMap<T>>, ids: Seq<u64>) -> bool {
    &&& trace.len() == ids.len() + 1
    &&& forall|i: int|
        0 <= i < ids.len() ==> {
            &&& #[trigger] ids[i] == trace[i].next_id_spec()
            &&& trace[i + 1].next_id_spec() == next_request_id(trace[i].next_id_spec())
            &&& trace[i + 1].pending() == trace[i].pending().insert(ids[i])
        }
}

/// Request ids are distinct: the ids handed out by the first 65 calls of
/// [`RequestMap::allocate_request_slot`] on a new map differ pairwise, and
/// each of them is still a waiting request after the last call. A `trace`
/// lists the map after `new` and after each call; `ids` lists the ids the
/// calls returned.
pub proof fn lemma_request_ids_distinct<T>(trace: Seq<RequestMap<T>>, ids: Seq<u64>)
    requires
        trace.len() == ids.len() + 1,
        ids.len() <= 65,
        trace[0].next_id_spec() == 0,
        allocation_trace(trace, ids),
    ensures
        forall|i: int, j: int| 0 <= i < j < ids.len() ==> ids[i] != ids[j],
        forall|i: int| 0 <= i < ids.len() ==> trace.last().pending().contains(#[trigger] ids[i]),
{
    assert forall|i: int| 0 <= i < trace.len() implies #[trigger] trace[i].next_id_spec()
        == nth_request_id(i as nat) by {
        lemma_trace_ids(trace, ids, i);
    }
    assert forall|i: int, j: int| 0 <= i < j < ids.len() implies ids[i] != ids[j] by {
        assert(ids[i] == trace[i].next_id_spec());
        assert(ids[j] == trace[j].next_id_spec());
        lemma_nth_request_id(i as nat);
        lemma_nth_request_id(j as nat);
        lemma_pow2_strictly_increases(i as nat, j as nat);
    }
    assert forall|i: int| 0 <= i < ids.len() implies trace.last().pending().contains(
        #[trigger] ids[i],
    ) by {
        lemma_trace_keeps_pending(trace, ids, i, ids.len() as int);
    }
}

proof fn lemma_trace_ids<T>(trace: Seq<RequestMap<T>>, ids: Seq<u64>, i: int)
    requires
        trace.len() == ids.len() + 1,
        trace[0].next_id_spec() == 0,
        allocation_trace(trace, ids),
        0 <= i < trace.len(),
    ensures
        trace[i].next_id_spec() == nth_request_id(i as nat),
    decreases i,
{
    if i > 0 {
        lemma_trace_ids(trace, ids, i - 1);
        assert(ids[i - 1] == trace[i - 1].next_id_spec());
    }
}

proof fn lemma_trace_keeps_pending<T>(trace: Seq<RequestMap<T>>, ids: Seq<u64>, i: int, k: int)
    requires
        trace.len() == ids.len() + 1,
        allocation_trace(trace, ids),
        0 <= i < k <= ids.len(),
    ensures
        trace[k].pending().contains(ids[i]),
    decreases k,
{
    assert(ids[k - 1] == trace[k - 1].next_id_spec());
    if k - 1 > i {
        lemma_trace_keeps_pending(trace, ids, i, k - 1);
    }
}

/// The requests a client is waiting on, by id.
#[verifier::reject_recursive_types(T)]
pub struct RequestMap<T> {
    next_id: u64,
    demux_map: HashMap<u64, tokio::sync::oneshot::Sender<T>>,
}

impl<T> RequestMap<T> {
    /// The id the next request gets.
    pub closed spec fn next_id_spec(&self) -> u64 {
        self.next_id
    }

    /// The ids of the requests waiting on a reply.
    pub closed spec fn pending(&self) -> Set<u64> {
        self.demux_map@.dom()
    }

    /// The id counter is one less than a power of two, and every waiting
    /// request has an id below it, unless the counter has saturated.
    #[verifier::type_invariant]
    closed spec fn wf(&self) -> bool {
        &&& all_ones(self.next_id)
        &&& forall|k: u64| #[trigger]
            self.demux_map@.contains_key(k) ==> k < self.next_id || self.next_id == u64::MAX
    }

    /// No request waiting; the first id is zero.
    pub fn new() -> (r: Self)
        ensures
            r.next_id_spec() == 0,
            r.pending() == Set::<u64>::empty(),
    {
        proof {
            lemma2_to64();
            assert(0u64 + 1 == pow2(0));
        }
        let r = RequestMap { next_id: 0, demux_map: HashMap::new() };
        assert(r.pending() =~= Set::<u64>::empty());
        r
    }

    /// Takes an id for a new request, with the receiver on which its reply
    /// will arrive. Until the counter saturates the id is one no waiting
    /// request holds; a saturated counter hands out `u64::MAX` again, and
    /// the new request takes the place of the one that held it.
    pub fn allocate_request_slot(&mut self) -> (r: (u64, tokio::sync::oneshot::Receiver<T>))
        ensures
            r.0 == old(self).next_id_spec(),
            final(self).next_id_spec() == next_request_id(old(self).next_id_spec()),
            final(self).pending() == old(self).pending().insert(r.0),
            old(self).next_id_spec() < u64::MAX ==> !old(self).pending().contains(r.0),
    {
        proof {
            use_type_invariant(&*self);
            lemma_request_ids_grow_then_saturate(self.next_id);
        }
        let id = self.next_id;
        let next = self.next_id + self.next_id.wrapping_add(1);
        let mut map: HashMap<u64, tokio::sync::oneshot::Sender<T>> = HashMap::new();
        std::mem::swap(&mut map, &mut self.demux_map);
        let (tx, rx) = oneshot_channel();
        map.insert(id, tx);
        self.next_id = next;
        self.demux_map = map;
        proof {
            assert(self.pending() =~= old(self).pending().insert(id));
        }
        (id, rx)
    }

    /// Hands the reply `x` to the request with id `id`, which then no longer
    /// waits. Returns whether such a request was waiting; a reply for no
    /// waiting request is dropped.
    pub fn dispatch_reply(&mut self, id: u64, x: T) -> (r: bool)
        ensures
            r == old(self).pending().contains(id),
            final(self).pending() == old(self).pending().remove(id),
            final(self).next_id_spec() == old(self).next_id_spec(),
    {
        broadcast use vstd::std_specs::hash::group_hash_axioms;

        proof {
            use_type_invariant(&*self);
        }
        let mut map: HashMap<u64, tokio::sync::oneshot::Sender<T>> = HashMap::new();
        std::mem::swap(&mut map, &mut self.demux_map);
        let found = match map.remove(&id) {
            Some(tx) => {
                let _ = oneshot_send(tx, x);
                true
            },
            None => false,
        };
        self.demux_map = map;
        proof {
            assert(self.pending() =~= old(self).pending().remove(id));
        }
        found
    }

    /// Sends `x` to every request still waiting, as the reply they all get
    /// when the connection ends.
    pub fn close_with_global_result(self, x: T) where T: Clone {
        let mut map = self.demux_map;
        let mut ids: Vec<u64> = Vec::new();
        for k in map.keys() {
            ids.push(*k);
        }
        let mut i: usize = 0;
        while i < ids.len()
            decreases ids.len() - i,
        {
            match map.remove(&ids[i]) {
                Some(tx) => {
                    let _ = oneshot_send(tx, x.clone());
                },
                None => {},
            }
            i = i + 1;
        }
    }
}

} // verus!
