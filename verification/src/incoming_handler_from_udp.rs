//! The datagram-channel state machine.
//!
//! A `UdpHello` carries an auth token; on success the sender's address is
//! bound to the authenticated id and the pairing is confirmed over the
//! stream channel, which is already the source of truth for that id.
//! `UpdateOrigin` and `UpdateRotation` are relayed to every other bound
//! peer; from an unbound address they soft-fail, since that peer has not
//! completed its `UdpHello`.

use vstd::prelude::*;

use crate::context::Context;
use crate::http_response::AuthOutcome;
use crate::incoming_packet::{Incoming, IncomingView};
use crate::job::{clone_id, Job, JobView, ServerError, ServerErrorView};
use crate::net::PeerAddr;
use crate::outgoing_packet::{Outgoing, OutgoingView};
use crate::schedule::{Schedule, ScheduleView};

verus! {

/// Handles a decoded datagram from `addr`.  A `UdpHello` yields its token
/// for the runtime to authenticate (see [`complete_udp_hello`]); an update
/// from a bound address enqueues the relay broadcast, excluding the
/// sender; an update from an unbound address is the `UnknownPeer` soft
/// failure; anything else is ignored.
pub fn handle_incoming_from_udp(
    incoming: Incoming,
    addr: PeerAddr,
    context: &mut Context,
    now: u64,
) -> (r: Result<Option<Vec<u8>>, ServerError>)
    requires
        old(context).wf(),
    ensures
        final(context).wf(),
        final(context).waitings@ == old(context).waitings@,
        final(context).tcp_streams@ == old(context).tcp_streams@,
        final(context).udp_addrs == old(context).udp_addrs,
        ({
            let q0 = old(context).schedule_queue@;
            match incoming@ {
                IncomingView::UdpHello { token } => r matches Ok(t) && (t matches Some(tok)
                    && tok@ == token) && final(context).schedule_queue@ == q0,
                IncomingView::UpdateOrigin { origin } => {
                    if old(context).udp_addrs.has_val(addr) {
                        exists|k: Seq<u8>|
                            #![auto]
                            old(context).udp_addrs.has_pair(k, addr) && (r matches Ok(t)
                                && t is None && final(context).schedule_queue@ == q0.push(
                                ScheduleView {
                                    job: JobView::BroadcastToUdp(
                                        OutgoingView::UpdateOrigin { id: k, origin },
                                        seq![k],
                                    ),
                                    deadline: now,
                                },
                            ))
                    } else {
                        r matches Err(ServerError::UnknownPeer)
                            && final(context).schedule_queue@ == q0
                    }
                },
                IncomingView::UpdateRotation { y } => {
                    if old(context).udp_addrs.has_val(addr) {
                        exists|k: Seq<u8>|
                            #![auto]
                            old(context).udp_addrs.has_pair(k, addr) && (r matches Ok(t)
                                && t is None && final(context).schedule_queue@ == q0.push(
                                ScheduleView {
                                    job: JobView::BroadcastToUdp(
                                        OutgoingView::UpdateRotation { id: k, y },
                                        seq![k],
                                    ),
                                    deadline: now,
                                },
                            ))
                    } else {
                        r matches Err(ServerError::UnknownPeer)
                            && final(context).schedule_queue@ == q0
                    }
                },
                _ => r matches Ok(t) && t is None && final(context).schedule_queue@ == q0,
            }
        }),
{
    match incoming {
        Incoming::UdpHello { token } => Ok(Some(token)),
        Incoming::UpdateOrigin { origin } => {
            let id = match context.udp_addrs.get_by_val(&addr) {
                Some(id) => clone_id(id),
                None => {
                    return Err(ServerError::UnknownPeer);
                },
            };
            let packet = Outgoing::UpdateOrigin { id: clone_id(&id), origin };
            let mut except: Vec<Vec<u8>> = Vec::new();
            except.push(clone_id(&id));
            proof {
                assert(except.deep_view() =~~= seq![id@]);
            }
            context.schedule_queue.push(Schedule::instant(Job::BroadcastToUdp(packet, except), now));
            proof {
                crate::context::lemma_wf_same_sessions(*old(context), *context);
            }
            Ok(None)
        },
        Incoming::UpdateRotation { y } => {
            let id = match context.udp_addrs.get_by_val(&addr) {
                Some(id) => clone_id(id),
                None => {
                    return Err(ServerError::UnknownPeer);
                },
            };
            let packet = Outgoing::UpdateRotation { id: clone_id(&id), y };
            let mut except: Vec<Vec<u8>> = Vec::new();
            except.push(clone_id(&id));
            proof {
                assert(except.deep_view() =~~= seq![id@]);
            }
            context.schedule_queue.push(Schedule::instant(Job::BroadcastToUdp(packet, except), now));
            proof {
                crate::context::lemma_wf_same_sessions(*old(context), *context);
            }
            Ok(None)
        },
        _ => Ok(None),
    }
}

/// Finishes the datagram pairing of `addr` with the auth service's
/// outcome.  On success with id `k`, and only if `k` has an authenticated
/// stream session, the binding `(k, addr)` is established — evicting any
/// prior binding of either side — and `SendToTcp(HelloFromUdp{k}, k)` is
/// enqueued.  A successful outcome for an id with no stream session must
/// not produce a binding and is the `UnknownPeer` soft failure.  On a
/// failed outcome the address's binding, if any, is scheduled to be
/// dropped with the cause.
pub fn complete_udp_hello(
    context: &mut Context,
    addr: PeerAddr,
    outcome: AuthOutcome,
    now: u64,
) -> (r: Result<(), ServerError>)
    requires
        old(context).wf(),
    ensures
        final(context).wf(),
        final(context).waitings@ == old(context).waitings@,
        final(context).tcp_streams@ == old(context).tcp_streams@,
        ({
            let q0 = old(context).schedule_queue@;
            match outcome {
                AuthOutcome::Granted { id } => {
                    let k = id@;
                    if old(context).has_auth_id(k) {
                        &&& r matches Ok(())
                        &&& forall|k2: Seq<u8>, a2: PeerAddr|
                            final(context).udp_addrs.has_pair(k2, a2) <==> ((k2 == k && a2
                                == addr) || (old(context).udp_addrs.has_pair(k2, a2) && k2 != k
                                && a2 != addr))
                        &&& final(context).schedule_queue@ == q0.push(
                            ScheduleView {
                                job: JobView::SendToTcp(
                                    OutgoingView::HelloFromUdp { id: k },
                                    k,
                                ),
                                deadline: now,
                            },
                        )
                    } else {
                        &&& r matches Err(ServerError::UnknownPeer)
                        &&& final(context).udp_addrs == old(context).udp_addrs
                        &&& final(context).schedule_queue@ == q0
                    }
                },
                AuthOutcome::Rejected { body } => {
                    &&& r matches Ok(())
                    &&& final(context).udp_addrs == old(context).udp_addrs
                    &&& final(context).schedule_queue@ == q0.push(
                        ScheduleView {
                            job: JobView::DropFromUdp(
                                addr,
                                Some(ServerErrorView::AuthRejected(body@)),
                            ),
                            deadline: now,
                        },
                    )
                },
                AuthOutcome::Failed { cause } => {
                    &&& r matches Ok(())
                    &&& final(context).udp_addrs == old(context).udp_addrs
                    &&& final(context).schedule_queue@ == q0.push(
                        ScheduleView {
                            job: JobView::DropFromUdp(
                                addr,
                                Some(ServerErrorView::AuthTransport(cause@)),
                            ),
                            deadline: now,
                        },
                    )
                },
            }
        }),
{
    match outcome {
        AuthOutcome::Granted { id } => {
            match context.get_stream(&id) {
                Some(_) => {
                    context.udp_addrs.insert(clone_id(&id), addr);
                    let ghost mid = *context;
                    proof {
                        assert forall|k2: Seq<u8>, a2: PeerAddr|
                            mid.udp_addrs.has_pair(k2, a2) implies mid.has_auth_id(k2) by {
                            if k2 != id@ {
                                assert(old(context).udp_addrs.has_pair(k2, a2));
                                assert(old(context).has_auth_id(k2));
                            } else {
                                assert(old(context).has_auth_id(k2));
                            }
                            let i2 = choose|i2: int|
                                0 <= i2 < old(context).tcp_streams@.len()
                                    && old(context).tcp_streams@[i2].0@ == k2;
                            assert(mid.tcp_streams@[i2].0@ == k2);
                        };
                        assert(mid.wf());
                    }
                    let packet = Outgoing::HelloFromUdp { id: clone_id(&id) };
                    context.schedule_queue.push(Schedule::instant(Job::SendToTcp(packet, id), now));
                    proof {
                        crate::context::lemma_wf_same_sessions(mid, *context);
                    }
                    Ok(())
                },
                None => Err(ServerError::UnknownPeer),
            }
        },
        AuthOutcome::Rejected { body } => {
            let job = Job::DropFromUdp(addr, Some(ServerError::AuthRejected(body)));
            context.schedule_queue.push(Schedule::instant(job, now));
            proof {
                crate::context::lemma_wf_same_sessions(*old(context), *context);
            }
            Ok(())
        },
        AuthOutcome::Failed { cause } => {
            let job = Job::DropFromUdp(addr, Some(ServerError::AuthTransport(cause)));
            context.schedule_queue.push(Schedule::instant(job, now));
            proof {
                crate::context::lemma_wf_same_sessions(*old(context), *context);
            }
            Ok(())
        },
    }
}

} // verus!
