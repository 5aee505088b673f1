//! Work items.
//!
//! Every unit of work the event loop performs is a `Job`.  A job carries
//! enough state to execute without further lookup; where a target may have
//! gone away in the meantime (a `SendToTcp` whose id has been dropped), the
//! handler soft-fails.

use vstd::prelude::*;

use crate::incoming_packet::DecodeError;
use crate::net::PeerAddr;
use crate::outgoing_packet::{Outgoing, OutgoingView};

verus! {

/// Why an operation failed.  Per-peer failures are recovered by dropping
/// the peer; `UnknownPeer` and `ProgrammingError` are soft: the loop logs
/// them and continues.
#[derive(Debug, PartialEq, Eq)]
pub enum ServerError {
    /// A socket read, write or accept failed; the text is the runtime's
    /// description.
    Transport(String),
    /// A frame failed to decode.
    BadFrame(DecodeError),
    /// The auth service answered with a status other than 201; the text is
    /// the response body.
    AuthRejected(String),
    /// The auth service could not be reached or its answer not parsed.
    AuthTransport(String),
    /// A send or an update named an id or an address with no live session.
    UnknownPeer,
    /// An invariant was violated, such as a stale pending-stream index.
    ProgrammingError,
}

/// The mathematical shape of a failure.
pub enum ServerErrorView {
    Transport(Seq<char>),
    BadFrame(DecodeError),
    AuthRejected(Seq<char>),
    AuthTransport(Seq<char>),
    UnknownPeer,
    ProgrammingError,
}

impl View for ServerError {
    type V = ServerErrorView;

    open spec fn view(&self) -> ServerErrorView {
        match self {
            ServerError::Transport(s) => ServerErrorView::Transport(s@),
            ServerError::BadFrame(e) => ServerErrorView::BadFrame(*e),
            ServerError::AuthRejected(s) => ServerErrorView::AuthRejected(s@),
            ServerError::AuthTransport(s) => ServerErrorView::AuthTransport(s@),
            ServerError::UnknownPeer => ServerErrorView::UnknownPeer,
            ServerError::ProgrammingError => ServerErrorView::ProgrammingError,
        }
    }
}

/// The view of an optional drop cause.
pub open spec fn cause_view(c: Option<ServerError>) -> Option<ServerErrorView> {
    match c {
        Some(e) => Some(e@),
        None => None,
    }
}

/// A unit of work for the event loop.
#[derive(Debug)]
pub enum Job {
    /// A new stream was accepted: take ownership of it as pending.
    AcceptFromTcp(u64, PeerAddr),
    /// Remove the pending stream at this index (out of range: no-op).
    DropFromWaiting(usize, Option<ServerError>),
    /// Remove this authenticated session and its datagram binding, and
    /// announce the departure.
    DropFromTcp(Vec<u8>, Option<ServerError>),
    /// Remove the datagram binding at this address; the stream session
    /// stays.
    DropFromUdp(PeerAddr, Option<ServerError>),
    /// The pending stream at this index may be readable.
    ReadableFromWaiting(usize),
    /// The authenticated stream of this id may be readable.
    ReadableFromTcp(Vec<u8>),
    /// The datagram socket may be readable.
    ReadableFromUdp,
    /// Send one packet over this id's stream.
    SendToTcp(Outgoing, Vec<u8>),
    /// Send one packet to this id's bound datagram address.
    SendToUdp(Outgoing, Vec<u8>),
    /// Send one packet to every authenticated stream whose id is not in the
    /// except set.
    BroadcastToTcp(Outgoing, Vec<Vec<u8>>),
    /// Send one packet to every bound datagram address whose id is not in
    /// the except set.
    BroadcastToUdp(Outgoing, Vec<Vec<u8>>),
}

/// The mathematical shape of a job.
pub enum JobView {
    AcceptFromTcp(u64, PeerAddr),
    DropFromWaiting(usize, Option<ServerErrorView>),
    DropFromTcp(Seq<u8>, Option<ServerErrorView>),
    DropFromUdp(PeerAddr, Option<ServerErrorView>),
    ReadableFromWaiting(usize),
    ReadableFromTcp(Seq<u8>),
    ReadableFromUdp,
    SendToTcp(OutgoingView, Seq<u8>),
    SendToUdp(OutgoingView, Seq<u8>),
    BroadcastToTcp(OutgoingView, Seq<Seq<u8>>),
    BroadcastToUdp(OutgoingView, Seq<Seq<u8>>),
}

impl View for Job {
    type V = JobView;

    open spec fn view(&self) -> JobView {
        match self {
            Job::AcceptFromTcp(h, addr) => JobView::AcceptFromTcp(*h, *addr),
            Job::DropFromWaiting(i, c) => JobView::DropFromWaiting(*i, cause_view(*c)),
            Job::DropFromTcp(id, c) => JobView::DropFromTcp(id@, cause_view(*c)),
            Job::DropFromUdp(addr, c) => JobView::DropFromUdp(*addr, cause_view(*c)),
            Job::ReadableFromWaiting(i) => JobView::ReadableFromWaiting(*i),
            Job::ReadableFromTcp(id) => JobView::ReadableFromTcp(id@),
            Job::ReadableFromUdp => JobView::ReadableFromUdp,
            Job::SendToTcp(p, id) => JobView::SendToTcp(p@, id@),
            Job::SendToUdp(p, id) => JobView::SendToUdp(p@, id@),
            Job::BroadcastToTcp(p, ex) => JobView::BroadcastToTcp(p@, ex.deep_view()),
            Job::BroadcastToUdp(p, ex) => JobView::BroadcastToUdp(p@, ex.deep_view()),
        }
    }
}

/// Copies an id's bytes.
pub fn clone_id(id: &Vec<u8>) -> (r: Vec<u8>)
    ensures
        r@ == id@,
{
    vstd::slice::slice_to_vec(id.as_slice())
}

/// An id is a member of an except set.
pub open spec fn except_contains(ex: Seq<Seq<u8>>, k: Seq<u8>) -> bool {
    exists|i: int| 0 <= i < ex.len() && ex[i] == k
}

/// Tests membership of an id in an except set.
pub fn except_set_contains(ex: &Vec<Vec<u8>>, id: &Vec<u8>) -> (r: bool)
    ensures
        r == except_contains(ex.deep_view(), id@),
{
    let mut i: usize = 0;
    while i < ex.len()
        invariant
            0 <= i <= ex@.len(),
            forall|j: int| 0 <= j < i ==> ex.deep_view()[j] != id@,
        decreases ex@.len() - i,
    {
        let hit = ex[i] == *id;
        proof {
            assert(ex.deep_view()[i as int] =~= ex@[i as int]@);
        }
        if hit {
            proof {
                assert(ex@[i as int]@ =~= id@);
            }
            return true;
        }
        i = i + 1;
    }
    false
}

} // verus!
