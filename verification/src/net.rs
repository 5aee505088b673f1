//! Stream-channel framing.
//!
//! A packet on the stream channel travels as a little-endian 16-bit length
//! `L` followed by `L` bytes of body.  The body itself starts with a 2-byte
//! type tag.  Datagrams travel unwrapped: the datagram length supplies the
//! frame boundary.

use vstd::prelude::*;

verus! {

/// The largest frame body either channel accepts, in bytes.
pub const MAX_FRAME_LEN: usize = 4096;

/// A datagram peer address: the numeric value of the IP address (IPv4
/// addresses are the low 32 bits) and the port.  The runtime converts
/// between this and its socket addresses; the core only compares them.
#[derive(Clone, Copy, PartialEq, Eq, Structural, Debug, Hash)]
pub struct PeerAddr {
    pub ip: u128,
    pub port: u16,
}

impl PeerAddr {
    /// Packs an address from its numeric IP value and port.
    pub fn new(ip: u128, port: u16) -> (r: Self)
        ensures
            r == (PeerAddr { ip, port }),
    {
        PeerAddr { ip, port }
    }
}

/// The bytes of a stream-channel frame that carries `body`: the two
/// little-endian length bytes followed by the body itself.
pub open spec fn spec_wrap_tcp_packet(body: Seq<u8>) -> Seq<u8> {
    vstd::bytes::spec_u16_to_le_bytes(body.len() as u16) + body
}

/// Wraps an encoded packet with the stream channel's little-endian length
/// prefix, so that `r[0..2]` holds `LE16(r.len() - 2)`.
pub fn wrap_tcp_packet(buf: &[u8]) -> (r: Vec<u8>)
    requires
        buf@.len() <= u16::MAX,
    ensures
        r@ == spec_wrap_tcp_packet(buf@),
        r@.len() == buf@.len() + 2,
        r@.subrange(2, r@.len() as int) == buf@,
        r@.subrange(0, 2) == vstd::bytes::spec_u16_to_le_bytes((r@.len() - 2) as u16),
{
    proof {
        vstd::bytes::lemma_auto_spec_u16_to_from_le_bytes();
    }
    let mut r = vstd::bytes::u16_to_le_bytes(buf.len() as u16);
    let mut body = vstd::slice::slice_to_vec(buf);
    r.append(&mut body);
    proof {
        assert(r@.subrange(2, r@.len() as int) =~= buf@);
        assert(r@.subrange(0, 2) =~= vstd::bytes::spec_u16_to_le_bytes((r@.len() - 2) as u16));
    }
    r
}

/// Reads the length prefix of a stream frame.  Returns the body length iff
/// the declared length does not exceed [`MAX_FRAME_LEN`]; the runtime then
/// reads exactly that many bytes of body.
pub fn frame_body_len(b0: u8, b1: u8) -> (r: Option<usize>)
    ensures
        ({
            let len = vstd::bytes::spec_u16_from_le_bytes(seq![b0, b1]) as int;
            match r {
                Some(n) => n == len && n <= MAX_FRAME_LEN,
                None => len > MAX_FRAME_LEN,
            }
        }),
{
    let bytes: [u8; 2] = [b0, b1];
    let len = vstd::bytes::u16_from_le_bytes(bytes.as_slice());
    proof {
        assert(bytes@ =~= seq![b0, b1]);
    }
    if (len as usize) <= MAX_FRAME_LEN {
        Some(len as usize)
    } else {
        None
    }
}

} // verus!
