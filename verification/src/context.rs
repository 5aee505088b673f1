//! The session table.
//!
//! One `Context` holds everything the event loop owns: the pending streams
//! (as runtime handles), the authenticated sessions (id to handle), the
//! id-to-address datagram bindings, and the deadline job queue.  The
//! runtime owns the sockets themselves and maps each handle to one.
//!
//! Well-formedness ties the parts together: every stream is owned by
//! exactly one of the pending sequence and the authenticated map, no id is
//! authenticated twice, and every datagram binding names an authenticated
//! id.

use vstd::prelude::*;

use crate::collection::BiMap;
use crate::net::PeerAddr;
use crate::schedule_queue::ScheduleQueue;

verus! {

/// The ids of the authenticated sessions, in map order.
pub open spec fn spec_auth_ids(entries: Seq<(Vec<u8>, u64)>) -> Seq<Seq<u8>> {
    Seq::new(entries.len(), |i: int| entries[i].0@)
}

/// The state the event loop works on.
pub struct Context {
    /// Handles of accepted streams that have not yet produced a valid
    /// hello, in insertion order, addressed by index.
    pub waitings: Vec<u64>,
    /// The authenticated sessions: id and stream handle, in insertion
    /// order.
    pub tcp_streams: Vec<(Vec<u8>, u64)>,
    /// The datagram bindings: id to peer address, one-to-one.
    pub udp_addrs: BiMap,
    /// The deadline job queue.
    pub schedule_queue: ScheduleQueue,
}

impl Context {
    /// Id `k` has an authenticated session.
    pub open spec fn has_auth_id(&self, k: Seq<u8>) -> bool {
        exists|i: int| 0 <= i < self.tcp_streams@.len() && self.tcp_streams@[i].0@ == k
    }

    /// Id `k`'s authenticated session owns stream handle `h`.
    pub open spec fn auth_entry(&self, k: Seq<u8>, h: u64) -> bool {
        exists|i: int|
            0 <= i < self.tcp_streams@.len() && self.tcp_streams@[i].0@ == k
                && self.tcp_streams@[i].1 == h
    }

    /// Stream handle `h` is owned by the pending sequence or by an
    /// authenticated session.
    pub open spec fn has_handle(&self, h: u64) -> bool {
        (exists|i: int| 0 <= i < self.waitings@.len() && self.waitings@[i] == h) || (exists|i: int|
            0 <= i < self.tcp_streams@.len() && self.tcp_streams@[i].1 == h)
    }

    /// Stream ownership is exclusive: pending handles are distinct,
    /// authenticated ids and handles are distinct, and no handle is both
    /// pending and authenticated.
    pub open spec fn streams_wf(&self) -> bool {
        &&& forall|i: int, j: int|
            0 <= i < j < self.waitings@.len() ==> self.waitings@[i] != self.waitings@[j]
        &&& forall|i: int, j: int|
            0 <= i < j < self.tcp_streams@.len() ==> self.tcp_streams@[i].0@
                != self.tcp_streams@[j].0@ && self.tcp_streams@[i].1 != self.tcp_streams@[j].1
        &&& forall|i: int, j: int|
            0 <= i < self.waitings@.len() && 0 <= j < self.tcp_streams@.len()
                ==> self.waitings@[i] != self.tcp_streams@[j].1
    }

    /// Every datagram binding names an authenticated id.
    pub open spec fn bindings_authenticated(&self) -> bool {
        forall|k: Seq<u8>, a: PeerAddr| self.udp_addrs.has_pair(k, a) ==> self.has_auth_id(k)
    }

    /// The whole session table is well formed.
    pub open spec fn wf(&self) -> bool {
        &&& self.streams_wf()
        &&& self.udp_addrs.wf()
        &&& self.bindings_authenticated()
    }

    /// An empty session table.
    pub fn new() -> (r: Self)
        ensures
            r.wf(),
            r.waitings@.len() == 0,
            r.tcp_streams@.len() == 0,
            r.udp_addrs.pairs@.len() == 0,
            r.schedule_queue@.len() == 0,
    {
        Context {
            waitings: Vec::new(),
            tcp_streams: Vec::new(),
            udp_addrs: BiMap::new(),
            schedule_queue: ScheduleQueue::new(),
        }
    }

    /// Looks up the stream handle of an authenticated id.
    pub fn get_stream(&self, id: &Vec<u8>) -> (r: Option<u64>)
        ensures
            match r {
                Some(h) => self.auth_entry(id@, h),
                None => !self.has_auth_id(id@),
            },
    {
        let mut i: usize = 0;
        while i < self.tcp_streams.len()
            invariant
                0 <= i <= self.tcp_streams@.len(),
                forall|j: int| 0 <= j < i ==> self.tcp_streams@[j].0@ != id@,
            decreases self.tcp_streams@.len() - i,
        {
            let hit = self.tcp_streams[i].0 == *id;
            if hit {
                proof {
                    assert(self.tcp_streams@[i as int].0@ =~= id@);
                }
                return Some(self.tcp_streams[i].1);
            }
            i = i + 1;
        }
        None
    }

    /// Inserts an authenticated session for `id` owning handle `h`,
    /// replacing (and returning the handle of) any old session under the
    /// same id.
    pub fn insert_stream(&mut self, id: Vec<u8>, h: u64) -> (displaced: Option<u64>)
        requires
            old(self).streams_wf(),
            !old(self).has_handle(h),
        ensures
            final(self).streams_wf(),
            forall|k: Seq<u8>, h2: u64|
                final(self).auth_entry(k, h2) <==> ((k == id@ && h2 == h) || (old(self).auth_entry(
                    k,
                    h2,
                ) && k != id@)),
            forall|k: Seq<u8>| final(self).has_auth_id(k) <==> (k == id@ || old(self).has_auth_id(k)),
            match displaced {
                Some(h0) => old(self).auth_entry(id@, h0),
                None => !old(self).has_auth_id(id@),
            },
            final(self).waitings@ == old(self).waitings@,
            final(self).udp_addrs == old(self).udp_addrs,
            final(self).schedule_queue@ == old(self).schedule_queue@,
    {
        let displaced = self.remove_stream_inner(&id);
        let ghost midctx = *self;
        let ghost mid = self.tcp_streams@;
        self.tcp_streams.push((id, h));
        proof {
            let n = self.tcp_streams@.len() - 1;
            assert(forall|i: int|
                0 <= i < n ==> #[trigger] self.tcp_streams@[i] == mid[i]);
            assert(self.tcp_streams@[n].0@ == id@ && self.tcp_streams@[n].1 == h);
            assert forall|i: int, j: int|
                0 <= i < j < self.tcp_streams@.len() implies self.tcp_streams@[i].0@
                != self.tcp_streams@[j].0@ && self.tcp_streams@[i].1
                != self.tcp_streams@[j].1 by {
                if j == n {
                    assert(self.tcp_streams@[i] == mid[i]);
                    if mid[i].0@ == id@ {
                        assert(midctx.has_auth_id(id@));
                        assert(false);
                    }
                    if mid[i].1 == h {
                        assert(midctx.auth_entry(mid[i].0@, h));
                        assert(old(self).auth_entry(mid[i].0@, h));
                        assert(old(self).has_handle(h));
                        assert(false);
                    }
                }
            };
            assert forall|k: Seq<u8>, h2: u64| self.auth_entry(k, h2) implies ((k == id@
                && h2 == h) || (old(self).auth_entry(k, h2) && k != id@)) by {
                let j = choose|j: int|
                    0 <= j < self.tcp_streams@.len() && self.tcp_streams@[j].0@ == k
                        && self.tcp_streams@[j].1 == h2;
                if j < n {
                    assert(mid[j].0@ == k && mid[j].1 == h2);
                    assert(midctx.auth_entry(k, h2));
                }
            };
            assert forall|k: Seq<u8>, h2: u64|
                ((k == id@ && h2 == h) || (old(self).auth_entry(k, h2) && k != id@)) implies
                self.auth_entry(k, h2) by {
                if k == id@ && h2 == h {
                    assert(self.tcp_streams@[n].0@ == k && self.tcp_streams@[n].1 == h2);
                } else {
                    assert(midctx.auth_entry(k, h2));
                    let m = choose|m: int|
                        0 <= m < mid.len() && mid[m].0@ == k && mid[m].1 == h2;
                    assert(self.tcp_streams@[m].0@ == k && self.tcp_streams@[m].1 == h2);
                }
            };
            assert forall|k: Seq<u8>| self.has_auth_id(k) implies (k == id@ || old(
                self,
            ).has_auth_id(k)) by {
                let j = choose|j: int|
                    0 <= j < self.tcp_streams@.len() && self.tcp_streams@[j].0@ == k;
                if j < n {
                    assert(mid[j].0@ == k);
                    assert(midctx.has_auth_id(k));
                }
            };
            assert forall|k: Seq<u8>| (k == id@ || old(self).has_auth_id(k)) implies
                self.has_auth_id(k) by {
                if k == id@ {
                    assert(self.tcp_streams@[n].0@ == k);
                } else if !midctx.has_auth_id(k) {
                    assert(k != id@ && old(self).has_auth_id(k));
                    assert(false);
                } else {
                    let m = choose|m: int| 0 <= m < mid.len() && mid[m].0@ == k;
                    assert(self.tcp_streams@[m].0@ == k);
                }
            };
        }
        displaced
    }

    /// Removes the authenticated session of `id`, handing its stream
    /// handle back to the caller.  The datagram binding, if any, is the
    /// caller's to remove: dropping a session without its binding breaks
    /// [`Context::bindings_authenticated`].
    pub fn remove_stream(&mut self, id: &Vec<u8>) -> (r: Option<u64>)
        requires
            old(self).streams_wf(),
        ensures
            final(self).streams_wf(),
            match r {
                Some(h) => old(self).auth_entry(id@, h) && !final(self).has_handle(h),
                None => !old(self).has_auth_id(id@) && final(self).tcp_streams@ == old(
                    self,
                ).tcp_streams@,
            },
            forall|k: Seq<u8>, h2: u64|
                final(self).auth_entry(k, h2) <==> (old(self).auth_entry(k, h2) && k != id@),
            forall|k: Seq<u8>| final(self).has_auth_id(k) <==> (old(self).has_auth_id(k) && k != id@),
            final(self).waitings@ == old(self).waitings@,
            final(self).udp_addrs == old(self).udp_addrs,
            final(self).schedule_queue@ == old(self).schedule_queue@,
    {
        self.remove_stream_inner(id)
    }

    /// The shared removal walk behind [`Context::remove_stream`] and
    /// [`Context::insert_stream`].
    fn remove_stream_inner(&mut self, id: &Vec<u8>) -> (r: Option<u64>)
        requires
            old(self).streams_wf(),
        ensures
            final(self).streams_wf(),
            match r {
                Some(h) => old(self).auth_entry(id@, h) && !final(self).has_handle(h),
                None => !old(self).has_auth_id(id@) && final(self).tcp_streams@ == old(
                    self,
                ).tcp_streams@,
            },
            forall|k: Seq<u8>, h2: u64|
                final(self).auth_entry(k, h2) <==> (old(self).auth_entry(k, h2) && k != id@),
            forall|k: Seq<u8>| final(self).has_auth_id(k) <==> (old(self).has_auth_id(k) && k != id@),
            final(self).waitings@ == old(self).waitings@,
            final(self).udp_addrs == old(self).udp_addrs,
            final(self).schedule_queue@ == old(self).schedule_queue@,
    {
        let mut i: usize = 0;
        while i < self.tcp_streams.len()
            invariant
                0 <= i <= self.tcp_streams@.len(),
                *self == *old(self),
                old(self).streams_wf(),
                forall|j: int| 0 <= j < i ==> self.tcp_streams@[j].0@ != id@,
            decreases self.tcp_streams@.len() - i,
        {
            let hit = self.tcp_streams[i].0 == *id;
            if hit {
                proof {
                    assert(self.tcp_streams@[i as int].0@ =~= id@);
                }
                let ghost pre = self.tcp_streams@;
                let ghost idx = i as int;
                let (_, h) = self.tcp_streams.remove(i);
                proof {
                    assert(forall|j: int|
                        0 <= j < self.tcp_streams@.len() ==> #[trigger] self.tcp_streams@[j]
                            == (if j < idx {
                            pre[j]
                        } else {
                            pre[j + 1]
                        }));
                    assert forall|k: Seq<u8>, h2: u64|
                        self.auth_entry(k, h2) implies (old(self).auth_entry(k, h2) && k
                        != id@) by {
                        let j = choose|j: int|
                            0 <= j < self.tcp_streams@.len() && self.tcp_streams@[j].0@ == k
                                && self.tcp_streams@[j].1 == h2;
                        let m = if j < idx { j } else { j + 1 };
                        assert(pre[m].0@ == k && pre[m].1 == h2);
                    };
                    assert forall|k: Seq<u8>, h2: u64|
                        old(self).auth_entry(k, h2) && k != id@ implies self.auth_entry(
                        k,
                        h2,
                    ) by {
                        let m = choose|m: int|
                            0 <= m < pre.len() && pre[m].0@ == k && pre[m].1 == h2;
                        let j = if m < idx { m } else { m - 1 };
                        assert(self.tcp_streams@[j].0@ == k && self.tcp_streams@[j].1 == h2);
                    };
                    assert forall|k: Seq<u8>|
                        self.has_auth_id(k) implies (old(self).has_auth_id(k) && k
                        != id@) by {
                        let j = choose|j: int|
                            0 <= j < self.tcp_streams@.len() && self.tcp_streams@[j].0@ == k;
                        let m = if j < idx { j } else { j + 1 };
                        assert(pre[m].0@ == k);
                    };
                    assert forall|k: Seq<u8>|
                        old(self).has_auth_id(k) && k != id@ implies self.has_auth_id(
                        k,
                    ) by {
                        let m = choose|m: int| 0 <= m < pre.len() && pre[m].0@ == k;
                        let j = if m < idx { m } else { m - 1 };
                        assert(self.tcp_streams@[j].0@ == k);
                    };
                    assert forall|j: int|
                        0 <= j < self.tcp_streams@.len() implies self.tcp_streams@[j].1
                        != h by {
                        let m = if j < idx { j } else { j + 1 };
                        assert(pre[m] == self.tcp_streams@[j]);
                    };
                    assert(forall|j: int|
                        0 <= j < self.waitings@.len() ==> self.waitings@[j] != h);
                }
                return Some(h);
            }
            i = i + 1;
        }
        None
    }

    /// Whether any collection owns stream handle `h`.
    pub fn contains_handle(&self, h: u64) -> (r: bool)
        ensures
            r == self.has_handle(h),
    {
        let mut i: usize = 0;
        while i < self.waitings.len()
            invariant
                0 <= i <= self.waitings@.len(),
                forall|j: int| 0 <= j < i ==> self.waitings@[j] != h,
            decreases self.waitings@.len() - i,
        {
            if self.waitings[i] == h {
                return true;
            }
            i = i + 1;
        }
        let mut i: usize = 0;
        while i < self.tcp_streams.len()
            invariant
                0 <= i <= self.tcp_streams@.len(),
                forall|j: int| 0 <= j < i ==> self.tcp_streams@[j].1 != h,
            decreases self.tcp_streams@.len() - i,
        {
            if self.tcp_streams[i].1 == h {
                return true;
            }
            i = i + 1;
        }
        false
    }

    /// A snapshot of the authenticated ids, in map order.
    pub fn authenticated_ids(&self) -> (r: Vec<Vec<u8>>)
        ensures
            r.deep_view() == spec_auth_ids(self.tcp_streams@),
    {
        let mut r: Vec<Vec<u8>> = Vec::new();
        let mut i: usize = 0;
        while i < self.tcp_streams.len()
            invariant
                0 <= i <= self.tcp_streams@.len(),
                r.deep_view().len() == i,
                forall|j: int| 0 <= j < i ==> r.deep_view()[j] == self.tcp_streams@[j].0@,
            decreases self.tcp_streams@.len() - i,
        {
            let ghost prev = r.deep_view();
            r.push(vstd::slice::slice_to_vec(self.tcp_streams[i].0.as_slice()));
            proof {
                assert(r@[i as int]@ =~= self.tcp_streams@[i as int].0@);
                assert(r.deep_view() =~~= prev.push(self.tcp_streams@[i as int].0@));
            }
            i = i + 1;
        }
        proof {
            assert(r.deep_view() =~= spec_auth_ids(self.tcp_streams@));
        }
        r
    }
}

/// Session predicates depend only on the authenticated map: two contexts
/// with the same map agree on every `auth_entry` and `has_auth_id`.
pub proof fn lemma_auth_entries_same(a: Context, b: Context)
    requires
        b.tcp_streams@ == a.tcp_streams@,
    ensures
        forall|k: Seq<u8>, h: u64| #[trigger] b.auth_entry(k, h) == a.auth_entry(k, h),
        forall|k: Seq<u8>| #[trigger] b.has_auth_id(k) == a.has_auth_id(k),
{
    assert forall|k: Seq<u8>, h: u64| #[trigger] b.auth_entry(k, h) == a.auth_entry(k, h) by {
        if a.auth_entry(k, h) {
            let i = choose|i: int|
                0 <= i < a.tcp_streams@.len() && a.tcp_streams@[i].0@ == k
                    && a.tcp_streams@[i].1 == h;
            assert(b.tcp_streams@[i].0@ == k);
        }
        if b.auth_entry(k, h) {
            let i = choose|i: int|
                0 <= i < b.tcp_streams@.len() && b.tcp_streams@[i].0@ == k
                    && b.tcp_streams@[i].1 == h;
            assert(a.tcp_streams@[i].0@ == k);
        }
    };
    assert forall|k: Seq<u8>| #[trigger] b.has_auth_id(k) == a.has_auth_id(k) by {
        if a.has_auth_id(k) {
            let i = choose|i: int| 0 <= i < a.tcp_streams@.len() && a.tcp_streams@[i].0@ == k;
            assert(b.tcp_streams@[i].0@ == k);
        }
        if b.has_auth_id(k) {
            let i = choose|i: int| 0 <= i < b.tcp_streams@.len() && b.tcp_streams@[i].0@ == k;
            assert(a.tcp_streams@[i].0@ == k);
        }
    };
}

/// The binding-to-session tie depends only on the authenticated map and
/// the bindings, not on the pending handles or the job queue.
pub proof fn lemma_bindings_authenticated_same(a: Context, b: Context)
    requires
        a.bindings_authenticated(),
        b.tcp_streams@ == a.tcp_streams@,
        b.udp_addrs == a.udp_addrs,
    ensures
        b.bindings_authenticated(),
{
    assert forall|k: Seq<u8>, adr: PeerAddr|
        b.udp_addrs.has_pair(k, adr) implies b.has_auth_id(k) by {
        assert(a.udp_addrs.has_pair(k, adr));
        assert(a.has_auth_id(k));
        let i = choose|i: int| 0 <= i < a.tcp_streams@.len() && a.tcp_streams@[i].0@ == k;
        assert(b.tcp_streams@[i].0@ == k);
    };
}

/// Well-formedness depends only on the sessions and bindings: a context
/// with the same pending handles, authenticated map and datagram bindings
/// as a well-formed one is well formed, whatever its job queue holds.
pub proof fn lemma_wf_same_sessions(a: Context, b: Context)
    requires
        a.wf(),
        b.waitings@ == a.waitings@,
        b.tcp_streams@ == a.tcp_streams@,
        b.udp_addrs == a.udp_addrs,
    ensures
        b.wf(),
{
    lemma_bindings_authenticated_same(a, b);
}

/// No id is authenticated twice, and no two authenticated sessions share a
/// stream: for distinct positions of the authenticated map, both the ids
/// and the handles differ.
pub proof fn lemma_authenticated_id_unique(ctx: &Context, i: int, j: int)
    requires
        ctx.wf(),
        0 <= i < j < ctx.tcp_streams@.len(),
    ensures
        ctx.tcp_streams@[i].0@ != ctx.tcp_streams@[j].0@,
        ctx.tcp_streams@[i].1 != ctx.tcp_streams@[j].1,
{
}

/// An authenticated id's stream is never also held in the pending
/// sequence.
pub proof fn lemma_authenticated_stream_not_pending(ctx: &Context, i: int, j: int)
    requires
        ctx.wf(),
        0 <= i < ctx.tcp_streams@.len(),
        0 <= j < ctx.waitings@.len(),
    ensures
        ctx.tcp_streams@[i].1 != ctx.waitings@[j],
{
}

/// A datagram binding exists only for an authenticated id.
pub proof fn lemma_binding_implies_authenticated(ctx: &Context, k: Seq<u8>, a: PeerAddr)
    requires
        ctx.wf(),
        ctx.udp_addrs.has_pair(k, a),
    ensures
        ctx.has_auth_id(k),
{
}

} // verus!
