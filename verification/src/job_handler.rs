//! Executing jobs.
//!
//! [`handle`] runs one job against the session table and hands the runtime
//! a [`Directive`]: which socket to read, what bytes to write where, which
//! stream to close.  The runtime performs the I/O and feeds what it read
//! back in through [`handle_waiting_read`], [`handle_tcp_read`] and
//! [`handle_udp_read`], so every decision — framing, dispatch, state
//! changes, follow-on jobs — stays in the verified core.

use vstd::prelude::*;

use crate::context::Context;
use crate::incoming_packet::{DecodeError, Incoming};
use crate::incoming_handler_from_tcp::handle_incoming_from_tcp;
use crate::incoming_handler_from_udp::handle_incoming_from_udp;
use crate::incoming_handler_from_waitings::handle_incoming_from_waitings;
use crate::job::{except_contains, except_set_contains, Job, JobView, ServerError, ServerErrorView};
use crate::net::{wrap_tcp_packet, PeerAddr};
use crate::outgoing_packet::{spec_serialize_outgoing, Outgoing};
use crate::schedule::{Schedule, ScheduleView};

verus! {

/// What the runtime must do after a job was handled.
#[derive(Debug)]
pub enum Directive {
    /// Nothing: the job was internal to the session table.
    Done,
    /// Close the pending stream that owned this handle.
    CloseWaiting { handle: u64 },
    /// Close the authenticated stream that owned this handle.
    CloseStream { handle: u64 },
    /// Try one nonblocking frame read on the pending stream at `index`.
    ReadWaiting { index: usize, handle: u64 },
    /// Try one nonblocking frame read on this id's stream.
    ReadTcp { id: Vec<u8>, handle: u64 },
    /// Try one nonblocking receive on the datagram socket.
    RecvUdp,
    /// One nonblocking write of a wrapped frame to one stream.
    WriteTcp { handle: u64, frame: Vec<u8> },
    /// One nonblocking write of the same wrapped frame to each stream, in
    /// order; a failure for one peer must not stop the others.
    WriteTcpMany { handles: Vec<u64>, frame: Vec<u8> },
    /// One nonblocking datagram send.
    SendUdp { addr: PeerAddr, datagram: Vec<u8> },
    /// One nonblocking datagram send to each address, in order; a failure
    /// for one peer must not stop the others.
    SendUdpMany { addrs: Vec<PeerAddr>, datagram: Vec<u8> },
}

/// What one nonblocking frame read on a stream came to.
#[derive(Debug)]
pub enum ReadOutcome {
    /// One complete frame body (the length prefix already stripped).
    Frame(Vec<u8>),
    /// The readiness was spurious; not an error.
    WouldBlock,
    /// A transport error or end of stream; the runtime's description.
    Failed(String),
}

/// What one nonblocking receive on the datagram socket came to.
#[derive(Debug)]
pub enum UdpRead {
    /// One datagram and its sender.
    Datagram(PeerAddr, Vec<u8>),
    /// The readiness was spurious; not an error.
    WouldBlock,
    /// A transport error on the datagram socket itself; fatal.
    Failed(String),
}

/// The stream handles a broadcast writes to: the handle of every
/// authenticated session, in map order, whose id is not in the except set.
pub open spec fn bcast_stream_targets(entries: Seq<(Vec<u8>, u64)>, ex: Seq<Seq<u8>>) -> Seq<u64>
    decreases entries.len(),
{
    if entries.len() == 0 {
        Seq::empty()
    } else {
        bcast_stream_targets(entries.drop_last(), ex) + (if except_contains(
            ex,
            entries.last().0@,
        ) {
            Seq::empty()
        } else {
            seq![entries.last().1]
        })
    }
}

/// The addresses a datagram broadcast sends to: the address of every
/// binding, in map order, whose id is not in the except set.
pub open spec fn bcast_udp_targets(pairs: Seq<(Vec<u8>, PeerAddr)>, ex: Seq<Seq<u8>>) -> Seq<
    PeerAddr,
>
    decreases pairs.len(),
{
    if pairs.len() == 0 {
        Seq::empty()
    } else {
        bcast_udp_targets(pairs.drop_last(), ex) + (if except_contains(ex, pairs.last().0@) {
            Seq::empty()
        } else {
            seq![pairs.last().1]
        })
    }
}

/// A handle is a broadcast target exactly when some session owns it whose
/// id is not excepted.
pub proof fn lemma_bcast_stream_targets_iff(entries: Seq<(Vec<u8>, u64)>, ex: Seq<Seq<u8>>, h: u64)
    ensures
        bcast_stream_targets(entries, ex).contains(h) <==> exists|i: int|
            0 <= i < entries.len() && entries[i].1 == h && !except_contains(ex, entries[i].0@),
    decreases entries.len(),
{
    if entries.len() == 0 {
    } else {
        let t = bcast_stream_targets(entries, ex);
        let t0 = bcast_stream_targets(entries.drop_last(), ex);
        lemma_bcast_stream_targets_iff(entries.drop_last(), ex, h);
        if t.contains(h) {
            let j = choose|j: int| 0 <= j < t.len() && t[j] == h;
            if j < t0.len() {
                assert(t0[j] == h);
                let i = choose|i: int|
                    0 <= i < entries.drop_last().len() && entries.drop_last()[i].1 == h
                        && !except_contains(ex, entries.drop_last()[i].0@);
                assert(entries[i].1 == h && !except_contains(ex, entries[i].0@));
            } else {
                assert(entries[entries.len() - 1].1 == h && !except_contains(
                    ex,
                    entries[entries.len() - 1].0@,
                ));
            }
        }
        if exists|i: int|
            0 <= i < entries.len() && entries[i].1 == h && !except_contains(ex, entries[i].0@) {
            let i = choose|i: int|
                0 <= i < entries.len() && entries[i].1 == h && !except_contains(
                    ex,
                    entries[i].0@,
                );
            if i < entries.len() - 1 {
                assert(entries.drop_last()[i].1 == h && !except_contains(
                    ex,
                    entries.drop_last()[i].0@,
                ));
                let j = choose|j: int| 0 <= j < t0.len() && t0[j] == h;
                assert(t[j] == h);
            } else {
                assert(t[t.len() - 1] == h);
            }
        }
    }
}

/// A broadcast with an except set never writes to an excepted peer: the
/// stream of a session whose id is in the except set is not a target.
pub proof fn lemma_bcast_stream_targets_exclude(
    entries: Seq<(Vec<u8>, u64)>,
    ex: Seq<Seq<u8>>,
    i: int,
)
    requires
        forall|i2: int, j2: int|
            0 <= i2 < j2 < entries.len() ==> entries[i2].1 != entries[j2].1,
        0 <= i < entries.len(),
        except_contains(ex, entries[i].0@),
    ensures
        !bcast_stream_targets(entries, ex).contains(entries[i].1),
{
    lemma_bcast_stream_targets_iff(entries, ex, entries[i].1);
    if bcast_stream_targets(entries, ex).contains(entries[i].1) {
        let j = choose|j: int|
            0 <= j < entries.len() && entries[j].1 == entries[i].1 && !except_contains(
                ex,
                entries[j].0@,
            );
        assert(j != i);
        if j < i {
            assert(entries[j].1 != entries[i].1);
        } else {
            assert(entries[i].1 != entries[j].1);
        }
    }
}

/// An address is a datagram broadcast target exactly when some binding
/// holds it whose id is not excepted.
pub proof fn lemma_bcast_udp_targets_iff(
    pairs: Seq<(Vec<u8>, PeerAddr)>,
    ex: Seq<Seq<u8>>,
    a: PeerAddr,
)
    ensures
        bcast_udp_targets(pairs, ex).contains(a) <==> exists|i: int|
            0 <= i < pairs.len() && pairs[i].1 == a && !except_contains(ex, pairs[i].0@),
    decreases pairs.len(),
{
    if pairs.len() == 0 {
    } else {
        let t = bcast_udp_targets(pairs, ex);
        let t0 = bcast_udp_targets(pairs.drop_last(), ex);
        lemma_bcast_udp_targets_iff(pairs.drop_last(), ex, a);
        if t.contains(a) {
            let j = choose|j: int| 0 <= j < t.len() && t[j] == a;
            if j < t0.len() {
                assert(t0[j] == a);
                let i = choose|i: int|
                    0 <= i < pairs.drop_last().len() && pairs.drop_last()[i].1 == a
                        && !except_contains(ex, pairs.drop_last()[i].0@);
                assert(pairs[i].1 == a && !except_contains(ex, pairs[i].0@));
            } else {
                assert(pairs[pairs.len() - 1].1 == a && !except_contains(
                    ex,
                    pairs[pairs.len() - 1].0@,
                ));
            }
        }
        if exists|i: int|
            0 <= i < pairs.len() && pairs[i].1 == a && !except_contains(ex, pairs[i].0@) {
            let i = choose|i: int|
                0 <= i < pairs.len() && pairs[i].1 == a && !except_contains(ex, pairs[i].0@);
            if i < pairs.len() - 1 {
                assert(pairs.drop_last()[i].1 == a && !except_contains(
                    ex,
                    pairs.drop_last()[i].0@,
                ));
                let j = choose|j: int| 0 <= j < t0.len() && t0[j] == a;
                assert(t[j] == a);
            } else {
                assert(t[t.len() - 1] == a);
            }
        }
    }
}

/// A datagram broadcast with an except set never sends to an excepted
/// peer: the bound address of an id in the except set is not a target.
pub proof fn lemma_bcast_udp_targets_exclude(
    pairs: Seq<(Vec<u8>, PeerAddr)>,
    ex: Seq<Seq<u8>>,
    i: int,
)
    requires
        forall|i2: int, j2: int| 0 <= i2 < j2 < pairs.len() ==> pairs[i2].1 != pairs[j2].1,
        0 <= i < pairs.len(),
        except_contains(ex, pairs[i].0@),
    ensures
        !bcast_udp_targets(pairs, ex).contains(pairs[i].1),
{
    lemma_bcast_udp_targets_iff(pairs, ex, pairs[i].1);
    if bcast_udp_targets(pairs, ex).contains(pairs[i].1) {
        let j = choose|j: int|
            0 <= j < pairs.len() && pairs[j].1 == pairs[i].1 && !except_contains(
                ex,
                pairs[j].0@,
            );
        assert(j != i);
        if j < i {
            assert(pairs[j].1 != pairs[i].1);
        } else {
            assert(pairs[i].1 != pairs[j].1);
        }
    }
}

/// Broadcast with an except set never writes to an excepted peer: in a
/// well-formed session table, the stream of an authenticated id in the
/// except set is never among a stream broadcast's targets.
pub proof fn lemma_broadcast_excludes(ctx: &Context, ex: Seq<Seq<u8>>, i: int)
    requires
        ctx.wf(),
        0 <= i < ctx.tcp_streams@.len(),
        except_contains(ex, ctx.tcp_streams@[i].0@),
    ensures
        !bcast_stream_targets(ctx.tcp_streams@, ex).contains(ctx.tcp_streams@[i].1),
{
    lemma_bcast_stream_targets_exclude(ctx.tcp_streams@, ex, i);
}

/// The datagram twin: the bound address of an excepted id is never among
/// a datagram broadcast's targets.
pub proof fn lemma_udp_broadcast_excludes(ctx: &Context, ex: Seq<Seq<u8>>, i: int)
    requires
        ctx.wf(),
        0 <= i < ctx.udp_addrs.pairs@.len(),
        except_contains(ex, ctx.udp_addrs.pairs@[i].0@),
    ensures
        !bcast_udp_targets(ctx.udp_addrs.pairs@, ex).contains(ctx.udp_addrs.pairs@[i].1),
{
    lemma_bcast_udp_targets_exclude(ctx.udp_addrs.pairs@, ex, i);
}

/// Executes one job against the session table and returns what the
/// runtime must do next.  Per-peer failures never bubble up as anything
/// but a scheduled drop or a soft error; the loop logs the error and
/// continues.
pub fn handle(job: Job, context: &mut Context, now: u64) -> (r: Result<Directive, ServerError>)
    requires
        old(context).wf(),
    ensures
        final(context).wf(),
        ({
            let q0 = old(context).schedule_queue@;
            let w0 = old(context).waitings@;
            let s0 = old(context).tcp_streams@;
            match job {
                Job::AcceptFromTcp(h, addr) => {
                    if !old(context).has_handle(h) {
                        &&& r matches Ok(Directive::Done)
                        &&& final(context).waitings@ == w0.push(h)
                        &&& final(context).tcp_streams@ == s0
                        &&& final(context).udp_addrs == old(context).udp_addrs
                        &&& final(context).schedule_queue@ == q0
                    } else {
                        &&& r matches Err(ServerError::ProgrammingError)
                        &&& *final(context) == *old(context)
                    }
                },
                Job::DropFromWaiting(i, cause) => {
                    if i < w0.len() {
                        &&& (r matches Ok(Directive::CloseWaiting { handle }) && handle
                            == w0[i as int])
                        &&& final(context).waitings@ == w0.remove(i as int)
                        &&& final(context).tcp_streams@ == s0
                        &&& final(context).udp_addrs == old(context).udp_addrs
                        &&& final(context).schedule_queue@ == q0
                    } else {
                        &&& r matches Err(ServerError::ProgrammingError)
                        &&& *final(context) == *old(context)
                    }
                },
                Job::DropFromTcp(id, cause) => {
                    if old(context).has_auth_id(id@) {
                        &&& (r matches Ok(Directive::CloseStream { handle }) && old(
                            context,
                        ).auth_entry(id@, handle))
                        &&& forall|k2: Seq<u8>, h2: u64|
                            final(context).auth_entry(k2, h2) <==> (old(context).auth_entry(
                                k2,
                                h2,
                            ) && k2 != id@)
                        &&& forall|k2: Seq<u8>, a2: PeerAddr|
                            final(context).udp_addrs.has_pair(k2, a2) <==> (old(
                                context,
                            ).udp_addrs.has_pair(k2, a2) && k2 != id@)
                        &&& final(context).waitings@ == w0
                        &&& final(context).schedule_queue@ == q0.push(
                            ScheduleView {
                                job: JobView::BroadcastToTcp(
                                    crate::outgoing_packet::OutgoingView::GoodBye { id: id@ },
                                    Seq::empty(),
                                ),
                                deadline: now,
                            },
                        )
                    } else {
                        &&& r matches Ok(Directive::Done)
                        &&& final(context).waitings@ == w0
                        &&& final(context).tcp_streams@ == s0
                        &&& final(context).udp_addrs == old(context).udp_addrs
                        &&& final(context).schedule_queue@ == q0
                    }
                },
                Job::DropFromUdp(addr, cause) => {
                    &&& r matches Ok(Directive::Done)
                    &&& forall|k2: Seq<u8>, a2: PeerAddr|
                        final(context).udp_addrs.has_pair(k2, a2) <==> (old(
                            context,
                        ).udp_addrs.has_pair(k2, a2) && a2 != addr)
                    &&& final(context).waitings@ == w0
                    &&& final(context).tcp_streams@ == s0
                    &&& final(context).schedule_queue@ == q0
                },
                Job::ReadableFromWaiting(i) => {
                    if i < w0.len() {
                        &&& (r matches Ok(Directive::ReadWaiting { index, handle }) && index == i
                            && handle == w0[i as int])
                        &&& *final(context) == *old(context)
                    } else {
                        &&& r matches Err(ServerError::ProgrammingError)
                        &&& *final(context) == *old(context)
                    }
                },
                Job::ReadableFromTcp(id) => {
                    &&& *final(context) == *old(context)
                    &&& if old(context).has_auth_id(id@) {
                        r matches Ok(Directive::ReadTcp { id: id2, handle }) && id2@ == id@ && old(
                            context,
                        ).auth_entry(id@, handle)
                    } else {
                        r matches Err(ServerError::ProgrammingError)
                    }
                },
                Job::ReadableFromUdp => {
                    &&& r matches Ok(Directive::RecvUdp)
                    &&& *final(context) == *old(context)
                },
                Job::SendToTcp(p, id) => {
                    &&& *final(context) == *old(context)
                    &&& if !old(context).has_auth_id(id@) {
                        r matches Err(ServerError::UnknownPeer)
                    } else if spec_serialize_outgoing(p@).len() > u16::MAX {
                        r matches Err(ServerError::BadFrame(DecodeError::WrongBodyLen))
                    } else {
                        r matches Ok(Directive::WriteTcp { handle, frame }) && old(
                            context,
                        ).auth_entry(id@, handle) && frame@
                            == crate::net::spec_wrap_tcp_packet(spec_serialize_outgoing(p@))
                    }
                },
                Job::SendToUdp(p, id) => {
                    &&& *final(context) == *old(context)
                    &&& if old(context).udp_addrs.has_key(id@) {
                        r matches Ok(Directive::SendUdp { addr, datagram }) && old(
                            context,
                        ).udp_addrs.has_pair(id@, addr) && datagram@ == spec_serialize_outgoing(
                            p@,
                        )
                    } else {
                        r matches Err(ServerError::UnknownPeer)
                    }
                },
                Job::BroadcastToTcp(p, ex) => {
                    &&& *final(context) == *old(context)
                    &&& if spec_serialize_outgoing(p@).len() > u16::MAX {
                        r matches Err(ServerError::BadFrame(DecodeError::WrongBodyLen))
                    } else {
                        r matches Ok(Directive::WriteTcpMany { handles, frame }) && handles@
                            == bcast_stream_targets(s0, ex.deep_view()) && frame@
                            == crate::net::spec_wrap_tcp_packet(spec_serialize_outgoing(p@))
                    }
                },
                Job::BroadcastToUdp(p, ex) => {
                    &&& *final(context) == *old(context)
                    &&& (r matches Ok(Directive::SendUdpMany { addrs, datagram }) && addrs@
                        == bcast_udp_targets(old(context).udp_addrs.pairs@, ex.deep_view())
                        && datagram@ == spec_serialize_outgoing(p@))
                },
            }
        }),
{
    match job {
        Job::AcceptFromTcp(h, _) => {
            if context.contains_handle(h) {
                Err(ServerError::ProgrammingError)
            } else {
                let ghost pre = *context;
                context.waitings.push(h);
                proof {
                    let n = context.waitings@.len() - 1;
                    assert(forall|j: int|
                        0 <= j < n ==> #[trigger] context.waitings@[j] == pre.waitings@[j]);
                    crate::context::lemma_bindings_authenticated_same(pre, *context);
                }
                Ok(Directive::Done)
            }
        },
        Job::DropFromWaiting(i, _) => {
            if i < context.waitings.len() {
                let ghost pre = *context;
                let h = context.waitings.remove(i);
                proof {
                    assert forall|i2: int, j2: int|
                        0 <= i2 < j2 < context.waitings@.len() implies context.waitings@[i2]
                        != context.waitings@[j2] by {
                        let m1 = if i2 < i as int { i2 } else { i2 + 1 };
                        let m2 = if j2 < i as int { j2 } else { j2 + 1 };
                        assert(context.waitings@[i2] == pre.waitings@[m1]
                            && context.waitings@[j2] == pre.waitings@[m2]);
                    };
                    assert forall|i2: int, j2: int|
                        0 <= i2 < context.waitings@.len() && 0 <= j2
                            < context.tcp_streams@.len() implies context.waitings@[i2]
                        != context.tcp_streams@[j2].1 by {
                        let m = if i2 < i as int { i2 } else { i2 + 1 };
                        assert(context.waitings@[i2] == pre.waitings@[m]);
                    };
                    crate::context::lemma_bindings_authenticated_same(pre, *context);
                }
                Ok(Directive::CloseWaiting { handle: h })
            } else {
                Err(ServerError::ProgrammingError)
            }
        },
        Job::DropFromTcp(id, _) => {
            match context.remove_stream(&id) {
                Some(h) => {
                    let ghost g1 = *context;
                    context.udp_addrs.remove_by_key(&id);
                    let ghost mid = *context;
                    proof {
                        assert forall|k2: Seq<u8>, a2: PeerAddr|
                            mid.udp_addrs.has_pair(k2, a2) implies mid.has_auth_id(k2) by {
                            assert(old(context).udp_addrs.has_pair(k2, a2) && k2 != id@);
                            assert(old(context).has_auth_id(k2));
                        };
                        assert(mid.wf());
                    }
                    let packet = Outgoing::GoodBye { id };
                    let except: Vec<Vec<u8>> = Vec::new();
                    proof {
                        assert(except.deep_view() =~~= Seq::<Seq<u8>>::empty());
                    }
                    context.schedule_queue.push(
                        Schedule::instant(Job::BroadcastToTcp(packet, except), now),
                    );
                    proof {
                        crate::context::lemma_wf_same_sessions(mid, *context);
                        crate::context::lemma_auth_entries_same(g1, *context);
                    }
                    Ok(Directive::CloseStream { handle: h })
                },
                None => Ok(Directive::Done),
            }
        },
        Job::DropFromUdp(addr, _) => {
            context.udp_addrs.remove_by_value(&addr);
            proof {
                assert forall|k2: Seq<u8>, a2: PeerAddr|
                    context.udp_addrs.has_pair(k2, a2) implies context.has_auth_id(k2) by {
                    assert(old(context).udp_addrs.has_pair(k2, a2));
                    assert(old(context).has_auth_id(k2));
                };
            }
            Ok(Directive::Done)
        },
        Job::ReadableFromWaiting(i) => {
            if i < context.waitings.len() {
                Ok(Directive::ReadWaiting { index: i, handle: context.waitings[i] })
            } else {
                Err(ServerError::ProgrammingError)
            }
        },
        Job::ReadableFromTcp(id) => {
            match context.get_stream(&id) {
                Some(h) => Ok(Directive::ReadTcp { id, handle: h }),
                None => Err(ServerError::ProgrammingError),
            }
        },
        Job::ReadableFromUdp => Ok(Directive::RecvUdp),
        Job::SendToTcp(p, id) => {
            match context.get_stream(&id) {
                Some(h) => {
                    let buf = p.serilaize();
                    if buf.len() > u16::MAX as usize {
                        Err(ServerError::BadFrame(DecodeError::WrongBodyLen))
                    } else {
                        let frame = wrap_tcp_packet(buf.as_slice());
                        Ok(Directive::WriteTcp { handle: h, frame })
                    }
                },
                None => Err(ServerError::UnknownPeer),
            }
        },
        Job::SendToUdp(p, id) => {
            let addr = match context.udp_addrs.get_by_key(&id) {
                Some(a) => *a,
                None => {
                    return Err(ServerError::UnknownPeer);
                },
            };
            let datagram = p.serilaize();
            Ok(Directive::SendUdp { addr, datagram })
        },
        Job::BroadcastToTcp(p, ex) => {
            let buf = p.serilaize();
            if buf.len() > u16::MAX as usize {
                return Err(ServerError::BadFrame(DecodeError::WrongBodyLen));
            }
            let frame = wrap_tcp_packet(buf.as_slice());
            let ghost exdv = ex.deep_view();
            let mut handles: Vec<u64> = Vec::new();
            let mut i: usize = 0;
            proof {
                assert(context.tcp_streams@.take(0) =~= Seq::<(Vec<u8>, u64)>::empty());
            }
            while i < context.tcp_streams.len()
                invariant
                    0 <= i <= context.tcp_streams@.len(),
                    *context == *old(context),
                    exdv == ex.deep_view(),
                    handles@ == bcast_stream_targets(context.tcp_streams@.take(i as int), exdv),
                decreases context.tcp_streams@.len() - i,
            {
                let excluded = except_set_contains(&ex, &context.tcp_streams[i].0);
                if !excluded {
                    handles.push(context.tcp_streams[i].1);
                }
                proof {
                    let entries = context.tcp_streams@;
                    let t1 = entries.take(i + 1);
                    assert(t1.drop_last() =~= entries.take(i as int));
                    assert(t1.last() == entries[i as int]);
                    assert(bcast_stream_targets(t1, exdv) == bcast_stream_targets(
                        entries.take(i as int),
                        exdv,
                    ) + (if except_contains(exdv, entries[i as int].0@) {
                        Seq::<u64>::empty()
                    } else {
                        seq![entries[i as int].1]
                    }));
                    assert(handles@ =~= bcast_stream_targets(t1, exdv));
                }
                i = i + 1;
            }
            proof {
                assert(context.tcp_streams@.take(context.tcp_streams@.len() as int)
                    =~= context.tcp_streams@);
            }
            Ok(Directive::WriteTcpMany { handles, frame })
        },
        Job::BroadcastToUdp(p, ex) => {
            let datagram = p.serilaize();
            let ghost exdv = ex.deep_view();
            let mut addrs: Vec<PeerAddr> = Vec::new();
            let mut i: usize = 0;
            proof {
                assert(context.udp_addrs.pairs@.take(0) =~= Seq::<(Vec<u8>, PeerAddr)>::empty());
            }
            while i < context.udp_addrs.pairs.len()
                invariant
                    0 <= i <= context.udp_addrs.pairs@.len(),
                    *context == *old(context),
                    exdv == ex.deep_view(),
                    addrs@ == bcast_udp_targets(context.udp_addrs.pairs@.take(i as int), exdv),
                decreases context.udp_addrs.pairs@.len() - i,
            {
                let excluded = except_set_contains(&ex, &context.udp_addrs.pairs[i].0);
                if !excluded {
                    addrs.push(context.udp_addrs.pairs[i].1);
                }
                proof {
                    let pairs = context.udp_addrs.pairs@;
                    let t1 = pairs.take(i + 1);
                    assert(t1.drop_last() =~= pairs.take(i as int));
                    assert(t1.last() == pairs[i as int]);
                    assert(bcast_udp_targets(t1, exdv) == bcast_udp_targets(
                        pairs.take(i as int),
                        exdv,
                    ) + (if except_contains(exdv, pairs[i as int].0@) {
                        Seq::<PeerAddr>::empty()
                    } else {
                        seq![pairs[i as int].1]
                    }));
                    assert(addrs@ =~= bcast_udp_targets(t1, exdv));
                }
                i = i + 1;
            }
            proof {
                assert(context.udp_addrs.pairs@.take(context.udp_addrs.pairs@.len() as int)
                    =~= context.udp_addrs.pairs@);
            }
            Ok(Directive::SendUdpMany { addrs, datagram })
        },
    }
}

/// Feeds the result of a [`Directive::ReadWaiting`] read back in: decodes
/// the frame and dispatches it.  A `TcpHello` yields its token for the
/// runtime to authenticate (then [`crate::incoming_handler_from_waitings::complete_tcp_hello`]);
/// a transport or decode failure schedules the pending stream's drop with
/// the cause; spurious readiness and foreign packets change nothing.
pub fn handle_waiting_read(
    context: &mut Context,
    index: usize,
    outcome: ReadOutcome,
    now: u64,
) -> (r: Option<Vec<u8>>)
    requires
        old(context).wf(),
    ensures
        final(context).wf(),
        final(context).waitings@ == old(context).waitings@,
        final(context).tcp_streams@ == old(context).tcp_streams@,
        final(context).udp_addrs == old(context).udp_addrs,
        ({
            let q0 = old(context).schedule_queue@;
            let qf = final(context).schedule_queue@;
            match outcome {
                ReadOutcome::WouldBlock => r is None && qf == q0,
                ReadOutcome::Failed(e) => r is None && qf == q0.push(
                    ScheduleView {
                        job: JobView::DropFromWaiting(
                            index,
                            Some(ServerErrorView::Transport(e@)),
                        ),
                        deadline: now,
                    },
                ),
                ReadOutcome::Frame(bytes) => match crate::incoming_packet::spec_deserialize_incoming(
                    bytes@,
                ) {
                    Ok(p) => {
                        match p {
                            crate::incoming_packet::IncomingView::TcpHello { token } => (
                            r matches Some(t) && t@ == token) && qf == q0,
                            _ => r is None && qf == q0,
                        }
                    },
                    Err(e) => r is None && qf == q0.push(
                        ScheduleView {
                            job: JobView::DropFromWaiting(
                                index,
                                Some(ServerErrorView::BadFrame(e)),
                            ),
                            deadline: now,
                        },
                    ),
                },
            }
        }),
{
    match outcome {
        ReadOutcome::WouldBlock => None,
        ReadOutcome::Failed(e) => {
            let job = Job::DropFromWaiting(index, Some(ServerError::Transport(e)));
            context.schedule_queue.push(Schedule::instant(job, now));
            proof {
                crate::context::lemma_wf_same_sessions(*old(context), *context);
            }
            None
        },
        ReadOutcome::Frame(bytes) => {
            match Incoming::deserialize(bytes.as_slice()) {
                Ok(incoming) => handle_incoming_from_waitings(incoming, index, context),
                Err(e) => {
                    let job = Job::DropFromWaiting(index, Some(ServerError::BadFrame(e)));
                    context.schedule_queue.push(Schedule::instant(job, now));
                    proof {
                        crate::context::lemma_wf_same_sessions(*old(context), *context);
                    }
                    None
                },
            }
        },
    }
}

/// Feeds the result of a [`Directive::ReadTcp`] read back in.  Whatever an
/// authenticated peer sends is ignored; a transport or decode failure
/// schedules the session's drop with the cause.
pub fn handle_tcp_read(context: &mut Context, id: Vec<u8>, outcome: ReadOutcome, now: u64)
    requires
        old(context).wf(),
    ensures
        final(context).wf(),
        final(context).waitings@ == old(context).waitings@,
        final(context).tcp_streams@ == old(context).tcp_streams@,
        final(context).udp_addrs == old(context).udp_addrs,
        ({
            let q0 = old(context).schedule_queue@;
            let qf = final(context).schedule_queue@;
            match outcome {
                ReadOutcome::WouldBlock => qf == q0,
                ReadOutcome::Failed(e) => qf == q0.push(
                    ScheduleView {
                        job: JobView::DropFromTcp(id@, Some(ServerErrorView::Transport(e@))),
                        deadline: now,
                    },
                ),
                ReadOutcome::Frame(bytes) => match crate::incoming_packet::spec_deserialize_incoming(
                    bytes@,
                ) {
                    Ok(p) => qf == q0,
                    Err(e) => qf == q0.push(
                        ScheduleView {
                            job: JobView::DropFromTcp(id@, Some(ServerErrorView::BadFrame(e))),
                            deadline: now,
                        },
                    ),
                },
            }
        }),
{
    match outcome {
        ReadOutcome::WouldBlock => (),
        ReadOutcome::Failed(e) => {
            let job = Job::DropFromTcp(id, Some(ServerError::Transport(e)));
            context.schedule_queue.push(Schedule::instant(job, now));
            proof {
                crate::context::lemma_wf_same_sessions(*old(context), *context);
            }
        },
        ReadOutcome::Frame(bytes) => {
            match Incoming::deserialize(bytes.as_slice()) {
                Ok(incoming) => {
                    handle_incoming_from_tcp(incoming, id, context);
                },
                Err(e) => {
                    let job = Job::DropFromTcp(id, Some(ServerError::BadFrame(e)));
                    context.schedule_queue.push(Schedule::instant(job, now));
                    proof {
                        crate::context::lemma_wf_same_sessions(*old(context), *context);
                    }
                },
            }
        },
    }
}

/// Feeds the result of a [`Directive::RecvUdp`] receive back in: decodes
/// the datagram and dispatches it to the datagram-side state machine.  A
/// `UdpHello` yields its token and the sender's address for the runtime to
/// authenticate (then [`crate::incoming_handler_from_udp::complete_udp_hello`]);
/// a decode failure schedules the address's drop; a transport failure on
/// the datagram socket itself is returned as fatal.
pub fn handle_udp_read(context: &mut Context, outcome: UdpRead, now: u64) -> (r: Result<
    Option<(Vec<u8>, PeerAddr)>,
    ServerError,
>)
    requires
        old(context).wf(),
    ensures
        final(context).wf(),
        final(context).waitings@ == old(context).waitings@,
        final(context).tcp_streams@ == old(context).tcp_streams@,
        final(context).udp_addrs == old(context).udp_addrs,
        ({
            let q0 = old(context).schedule_queue@;
            let qf = final(context).schedule_queue@;
            match outcome {
                UdpRead::WouldBlock => (r matches Ok(t) && t is None) && qf == q0,
                UdpRead::Failed(e) => (r matches Err(ServerError::Transport(e2)) && e2@ == e@)
                    && qf == q0,
                UdpRead::Datagram(addr, bytes) => match crate::incoming_packet::spec_deserialize_incoming(
                    bytes@,
                ) {
                    Ok(p) => {
                        match p {
                            crate::incoming_packet::IncomingView::UdpHello { token } => (
                            r matches Ok(t) && (t matches Some(ta) && ta.0@ == token && ta.1
                                == addr)) && qf == q0,
                            crate::incoming_packet::IncomingView::UpdateOrigin { origin } => {
                                if old(context).udp_addrs.has_val(addr) {
                                    exists|k: Seq<u8>|
                                        #![auto]
                                        old(context).udp_addrs.has_pair(k, addr) && (r matches Ok(
                                            t,
                                        ) && t is None && qf == q0.push(
                                            ScheduleView {
                                                job: JobView::BroadcastToUdp(
                                                    crate::outgoing_packet::OutgoingView::UpdateOrigin {
                                                        id: k,
                                                        origin,
                                                    },
                                                    seq![k],
                                                ),
                                                deadline: now,
                                            },
                                        ))
                                } else {
                                    (r matches Err(ServerError::UnknownPeer)) && qf == q0
                                }
                            },
                            crate::incoming_packet::IncomingView::UpdateRotation { y } => {
                                if old(context).udp_addrs.has_val(addr) {
                                    exists|k: Seq<u8>|
                                        #![auto]
                                        old(context).udp_addrs.has_pair(k, addr) && (r matches Ok(
                                            t,
                                        ) && t is None && qf == q0.push(
                                            ScheduleView {
                                                job: JobView::BroadcastToUdp(
                                                    crate::outgoing_packet::OutgoingView::UpdateRotation {
                                                        id: k,
                                                        y,
                                                    },
                                                    seq![k],
                                                ),
                                                deadline: now,
                                            },
                                        ))
                                } else {
                                    (r matches Err(ServerError::UnknownPeer)) && qf == q0
                                }
                            },
                            _ => (r matches Ok(t) && t is None) && qf == q0,
                        }
                    },
                    Err(e) => (r matches Ok(t) && t is None) && qf == q0.push(
                        ScheduleView {
                            job: JobView::DropFromUdp(addr, Some(ServerErrorView::BadFrame(e))),
                            deadline: now,
                        },
                    ),
                },
            }
        }),
{
    match outcome {
        UdpRead::WouldBlock => Ok(None),
        UdpRead::Failed(e) => Err(ServerError::Transport(e)),
        UdpRead::Datagram(addr, bytes) => {
            match Incoming::deserialize(bytes.as_slice()) {
                Ok(incoming) => {
                    match handle_incoming_from_udp(incoming, addr, context, now) {
                        Ok(Some(token)) => Ok(Some((token, addr))),
                        Ok(None) => Ok(None),
                        Err(e) => Err(e),
                    }
                },
                Err(e) => {
                    let job = Job::DropFromUdp(addr, Some(ServerError::BadFrame(e)));
                    context.schedule_queue.push(Schedule::instant(job, now));
                    proof {
                        crate::context::lemma_wf_same_sessions(*old(context), *context);
                    }
                    Ok(None)
                },
            }
        },
    }
}

} // verus!
