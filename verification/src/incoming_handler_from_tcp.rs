//! Packets arriving on an authenticated stream.
//!
//! After the handshake the stream channel is only used server-to-client;
//! whatever an authenticated peer sends is ignored and the session stays
//! as it is.

use vstd::prelude::*;

use crate::context::Context;
use crate::incoming_packet::Incoming;

verus! {

/// Handles a decoded packet from an authenticated stream: every packet is
/// ignored.
#[allow(unused_variables)]
pub fn handle_incoming_from_tcp(incoming: Incoming, id: Vec<u8>, context: &mut Context)
    ensures
        *final(context) == *old(context),
{
    match incoming {
        _ => (),
    }
}

} // verus!
