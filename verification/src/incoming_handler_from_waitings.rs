//! The stream-channel handshake.
//!
//! The only packet accepted from a pending stream is `TcpHello`, which
//! carries an auth token.  The runtime takes the token to the auth service
//! and brings the outcome back to [`complete_tcp_hello`], which performs
//! the promotion: confirm the assigned id to the new peer, hand it the
//! roster, announce it to everyone else, and move the stream from the
//! pending sequence into the authenticated map — in that order, and with
//! the roster snapshot taken before the insertion, so the new peer is not
//! introduced to itself and receives no `Welcome` of its own.

use vstd::prelude::*;

use crate::context::{spec_auth_ids, Context};
use crate::http_response::AuthOutcome;
use crate::incoming_packet::{Incoming, IncomingView};
use crate::job::{clone_id, Job, JobView, ServerError, ServerErrorView};
use crate::outgoing_packet::{Outgoing, OutgoingView};
use crate::schedule::{Schedule, ScheduleView};

verus! {

/// Handles a decoded packet from a pending stream: a `TcpHello` yields its
/// token for the runtime to authenticate; everything else is ignored and
/// the peer stays pending.
#[allow(unused_variables)]
pub fn handle_incoming_from_waitings(incoming: Incoming, i: usize, context: &mut Context) -> (r:
    Option<Vec<u8>>)
    ensures
        *final(context) == *old(context),
        match incoming@ {
            IncomingView::TcpHello { token } => r matches Some(t) && t@ == token,
            _ => r is None,
        },
{
    match incoming {
        Incoming::TcpHello { token } => Some(token),
        _ => None,
    }
}

/// Finishes the handshake of the pending stream at `index` with the auth
/// service's outcome.
///
/// On success with id `k` the promotion runs in order: enqueue
/// `SendToTcp(HelloFromTcp{k}, k)`, snapshot the roster (which does not yet
/// hold `k`) and enqueue `SendToTcp(Introduce{roster}, k)`, enqueue
/// `BroadcastToTcp(Welcome{k}, {k})`, then move the stream from the pending
/// sequence into the authenticated map under `k`.  Any session previously
/// authenticated as `k` is displaced and its handle returned for the
/// runtime to close.  On failure the pending stream is scheduled to be
/// dropped with the cause.
pub fn complete_tcp_hello(
    context: &mut Context,
    index: usize,
    outcome: AuthOutcome,
    now: u64,
) -> (r: Result<Option<u64>, ServerError>)
    requires
        old(context).wf(),
    ensures
        final(context).wf(),
        ({
            let q0 = old(context).schedule_queue@;
            match outcome {
                AuthOutcome::Granted { id } => {
                    let k = id@;
                    if index < old(context).waitings@.len() {
                        let h = old(context).waitings@[index as int];
                        &&& (r matches Ok(d) && match d {
                            Some(h0) => old(context).auth_entry(k, h0),
                            None => !old(context).has_auth_id(k),
                        })
                        &&& final(context).waitings@ == old(context).waitings@.remove(
                            index as int,
                        )
                        &&& forall|k2: Seq<u8>, h2: u64|
                            final(context).auth_entry(k2, h2) <==> ((k2 == k && h2 == h) || (old(
                                context,
                            ).auth_entry(k2, h2) && k2 != k))
                        &&& final(context).udp_addrs == old(context).udp_addrs
                        &&& final(context).schedule_queue@ == q0 + seq![
                            ScheduleView {
                                job: JobView::SendToTcp(OutgoingView::HelloFromTcp { id: k }, k),
                                deadline: now,
                            },
                            ScheduleView {
                                job: JobView::SendToTcp(
                                    OutgoingView::Introduce {
                                        ids: spec_auth_ids(old(context).tcp_streams@),
                                    },
                                    k,
                                ),
                                deadline: now,
                            },
                            ScheduleView {
                                job: JobView::BroadcastToTcp(
                                    OutgoingView::Welcome { id: k },
                                    seq![k],
                                ),
                                deadline: now,
                            },
                        ]
                    } else {
                        &&& r matches Err(ServerError::ProgrammingError)
                        &&& *final(context) == *old(context)
                    }
                },
                AuthOutcome::Rejected { body } => {
                    &&& r matches Ok(d) && d is None
                    &&& final(context).waitings@ == old(context).waitings@
                    &&& final(context).tcp_streams@ == old(context).tcp_streams@
                    &&& final(context).udp_addrs == old(context).udp_addrs
                    &&& final(context).schedule_queue@ == q0.push(
                        ScheduleView {
                            job: JobView::DropFromWaiting(
                                index,
                                Some(ServerErrorView::AuthRejected(body@)),
                            ),
                            deadline: now,
                        },
                    )
                },
                AuthOutcome::Failed { cause } => {
                    &&& r matches Ok(d) && d is None
                    &&& final(context).waitings@ == old(context).waitings@
                    &&& final(context).tcp_streams@ == old(context).tcp_streams@
                    &&& final(context).udp_addrs == old(context).udp_addrs
                    &&& final(context).schedule_queue@ == q0.push(
                        ScheduleView {
                            job: JobView::DropFromWaiting(
                                index,
                                Some(ServerErrorView::AuthTransport(cause@)),
                            ),
                            deadline: now,
                        },
                    )
                },
            }
        }),
{
    match outcome {
        AuthOutcome::Granted { id } => {
            if index >= context.waitings.len() {
                return Err(ServerError::ProgrammingError);
            }
            let ghost w0 = context.waitings@;
            let h = context.waitings.remove(index);
            proof {
                assert forall|j: int|
                    0 <= j < context.waitings@.len() implies context.waitings@[j] != h by {
                    let m = if j < index as int { j } else { j + 1 };
                    assert(context.waitings@[j] == w0[m]);
                };
                assert forall|i2: int, j2: int|
                    0 <= i2 < j2 < context.waitings@.len() implies context.waitings@[i2]
                    != context.waitings@[j2] by {
                    let m1 = if i2 < index as int { i2 } else { i2 + 1 };
                    let m2 = if j2 < index as int { j2 } else { j2 + 1 };
                    assert(context.waitings@[i2] == w0[m1] && context.waitings@[j2] == w0[m2]);
                };
                assert forall|i2: int, j2: int|
                    0 <= i2 < context.waitings@.len() && 0 <= j2
                        < context.tcp_streams@.len() implies context.waitings@[i2]
                    != context.tcp_streams@[j2].1 by {
                    let m = if i2 < index as int { i2 } else { i2 + 1 };
                    assert(context.waitings@[i2] == w0[m]);
                };
                assert(!context.has_handle(h));
            }
            let ghost q0 = context.schedule_queue@;
            let hello = Outgoing::HelloFromTcp { id: clone_id(&id) };
            context.schedule_queue.push(Schedule::instant(Job::SendToTcp(hello, clone_id(&id)), now));
            let roster = context.authenticated_ids();
            let intro = Outgoing::Introduce { ids: roster };
            context.schedule_queue.push(Schedule::instant(Job::SendToTcp(intro, clone_id(&id)), now));
            let welcome = Outgoing::Welcome { id: clone_id(&id) };
            let mut except: Vec<Vec<u8>> = Vec::new();
            except.push(clone_id(&id));
            proof {
                assert(except.deep_view() =~~= seq![id@]);
            }
            context.schedule_queue.push(
                Schedule::instant(Job::BroadcastToTcp(welcome, except), now),
            );
            proof {
                assert(context.schedule_queue@ =~= q0 + seq![
                    ScheduleView {
                        job: JobView::SendToTcp(OutgoingView::HelloFromTcp { id: id@ }, id@),
                        deadline: now,
                    },
                    ScheduleView {
                        job: JobView::SendToTcp(
                            OutgoingView::Introduce {
                                ids: spec_auth_ids(old(context).tcp_streams@),
                            },
                            id@,
                        ),
                        deadline: now,
                    },
                    ScheduleView {
                        job: JobView::BroadcastToTcp(OutgoingView::Welcome { id: id@ }, seq![id@]),
                        deadline: now,
                    },
                ]);
            }
            let ghost pre_insert = *context;
            proof {
                assert(pre_insert.tcp_streams@ == old(context).tcp_streams@);
                assert forall|k2: Seq<u8>, h2: u64|
                    pre_insert.auth_entry(k2, h2) == old(context).auth_entry(k2, h2) by {
                    if pre_insert.auth_entry(k2, h2) {
                        let i2 = choose|i2: int|
                            0 <= i2 < pre_insert.tcp_streams@.len() && pre_insert.tcp_streams@[i2].0@ == k2
                                && pre_insert.tcp_streams@[i2].1 == h2;
                        assert(old(context).tcp_streams@[i2].0@ == k2);
                    }
                    if old(context).auth_entry(k2, h2) {
                        let i2 = choose|i2: int|
                            0 <= i2 < old(context).tcp_streams@.len()
                                && old(context).tcp_streams@[i2].0@ == k2
                                && old(context).tcp_streams@[i2].1 == h2;
                        assert(pre_insert.tcp_streams@[i2].0@ == k2);
                    }
                };
                assert forall|k2: Seq<u8>|
                    pre_insert.has_auth_id(k2) == old(context).has_auth_id(k2) by {
                    if pre_insert.has_auth_id(k2) {
                        let i2 = choose|i2: int|
                            0 <= i2 < pre_insert.tcp_streams@.len() && pre_insert.tcp_streams@[i2].0@ == k2;
                        assert(old(context).tcp_streams@[i2].0@ == k2);
                    }
                    if old(context).has_auth_id(k2) {
                        let i2 = choose|i2: int|
                            0 <= i2 < old(context).tcp_streams@.len()
                                && old(context).tcp_streams@[i2].0@ == k2;
                        assert(pre_insert.tcp_streams@[i2].0@ == k2);
                    }
                };
            }
            let displaced = context.insert_stream(id, h);
            proof {
                assert forall|k2: Seq<u8>, a2: crate::net::PeerAddr|
                    context.udp_addrs.has_pair(k2, a2) implies context.has_auth_id(k2) by {
                    assert(old(context).udp_addrs.has_pair(k2, a2));
                    assert(old(context).has_auth_id(k2));
                    assert(pre_insert.has_auth_id(k2));
                };
            }
            Ok(displaced)
        },
        AuthOutcome::Rejected { body } => {
            let job = Job::DropFromWaiting(index, Some(ServerError::AuthRejected(body)));
            context.schedule_queue.push(Schedule::instant(job, now));
            Ok(None)
        },
        AuthOutcome::Failed { cause } => {
            let job = Job::DropFromWaiting(index, Some(ServerError::AuthTransport(cause)));
            context.schedule_queue.push(Schedule::instant(job, now));
            Ok(None)
        },
    }
}

} // verus!
