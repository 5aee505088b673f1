//! Inbound packets (client to server).
//!
//! Every inbound frame starts with a 2-byte little-endian type tag; the rest
//! of the frame is the tag-specific body.  Auth tokens are fixed 76-byte
//! UTF-8 strings, carried here as raw bytes.

use vstd::prelude::*;

use crate::math::Vector3;

verus! {

/// The required body length of a hello packet: one auth token.
pub const TOKEN_LEN: usize = 76;

/// Why a frame failed to decode.
#[derive(Clone, Copy, PartialEq, Eq, Structural, Debug)]
pub enum DecodeError {
    /// The buffer ends before the 2-byte type tag (or, for an outbound
    /// frame, before a fixed-size payload).
    TooShort,
    /// The type tag names no known packet.
    BadTag,
    /// The body length does not match the tag's required size.
    WrongBodyLen,
}

/// An inbound packet.
#[derive(Debug)]
pub enum Incoming {
    /// Stream-channel handshake: the peer offers its auth token.
    TcpHello { token: Vec<u8> },
    /// Datagram-channel handshake: the peer offers its auth token.
    UdpHello { token: Vec<u8> },
    /// A spatial origin update.
    UpdateOrigin { origin: Vector3 },
    /// A heading update: one little-endian 32-bit component bit pattern.
    UpdateRotation { y: u32 },
}

/// The mathematical shape of an inbound packet.
pub enum IncomingView {
    TcpHello { token: Seq<u8> },
    UdpHello { token: Seq<u8> },
    UpdateOrigin { origin: Vector3 },
    UpdateRotation { y: u32 },
}

impl View for Incoming {
    type V = IncomingView;

    open spec fn view(&self) -> IncomingView {
        match self {
            Incoming::TcpHello { token } => IncomingView::TcpHello { token: token@ },
            Incoming::UdpHello { token } => IncomingView::UdpHello { token: token@ },
            Incoming::UpdateOrigin { origin } => IncomingView::UpdateOrigin { origin: *origin },
            Incoming::UpdateRotation { y } => IncomingView::UpdateRotation { y: *y },
        }
    }
}

/// What decoding a buffer as an inbound packet yields: the packet for a
/// well-formed frame, otherwise the exact failure.
pub open spec fn spec_deserialize_incoming(bytes: Seq<u8>) -> Result<IncomingView, DecodeError> {
    if bytes.len() < 2 {
        Err(DecodeError::TooShort)
    } else {
        let body = bytes.skip(2);
        if bytes[0] == 1 && bytes[1] == 0 {
            if body.len() == TOKEN_LEN {
                Ok(IncomingView::TcpHello { token: body })
            } else {
                Err(DecodeError::WrongBodyLen)
            }
        } else if bytes[0] == 2 && bytes[1] == 0 {
            if body.len() == TOKEN_LEN {
                Ok(IncomingView::UdpHello { token: body })
            } else {
                Err(DecodeError::WrongBodyLen)
            }
        } else if bytes[0] == 3 && bytes[1] == 0 {
            if body.len() == 12 {
                Ok(IncomingView::UpdateOrigin {
                    origin: Vector3 {
                        x: vstd::bytes::spec_u32_from_le_bytes(body.subrange(0, 4)),
                        y: vstd::bytes::spec_u32_from_le_bytes(body.subrange(4, 8)),
                        z: vstd::bytes::spec_u32_from_le_bytes(body.subrange(8, 12)),
                    },
                })
            } else {
                Err(DecodeError::WrongBodyLen)
            }
        } else if bytes[0] == 4 && bytes[1] == 0 {
            if body.len() == 4 {
                Ok(IncomingView::UpdateRotation {
                    y: vstd::bytes::spec_u32_from_le_bytes(body),
                })
            } else {
                Err(DecodeError::WrongBodyLen)
            }
        } else {
            Err(DecodeError::BadTag)
        }
    }
}

impl Incoming {
    /// Decodes one inbound frame: 2-byte little-endian tag, then the
    /// tag-specific body.
    pub fn deserialize(buf: &[u8]) -> (r: Result<Self, DecodeError>)
        ensures
            match r {
                Ok(p) => spec_deserialize_incoming(buf@) == Ok::<IncomingView, DecodeError>(p@),
                Err(e) => spec_deserialize_incoming(buf@) == Err::<IncomingView, DecodeError>(e),
            },
    {
        if buf.len() < 2 {
            return Err(DecodeError::TooShort);
        }
        let body_len = buf.len() - 2;
        if buf[0] == 1 && buf[1] == 0 {
            if body_len != TOKEN_LEN {
                return Err(DecodeError::WrongBodyLen);
            }
            let token = vstd::slice::slice_to_vec(vstd::slice::slice_subrange(buf, 2, buf.len()));
            proof {
                assert(token@ =~= buf@.skip(2));
            }
            Ok(Incoming::TcpHello { token })
        } else if buf[0] == 2 && buf[1] == 0 {
            if body_len != TOKEN_LEN {
                return Err(DecodeError::WrongBodyLen);
            }
            let token = vstd::slice::slice_to_vec(vstd::slice::slice_subrange(buf, 2, buf.len()));
            proof {
                assert(token@ =~= buf@.skip(2));
            }
            Ok(Incoming::UdpHello { token })
        } else if buf[0] == 3 && buf[1] == 0 {
            if body_len != 12 {
                return Err(DecodeError::WrongBodyLen);
            }
            let x = vstd::bytes::u32_from_le_bytes(vstd::slice::slice_subrange(buf, 2, 6));
            let y = vstd::bytes::u32_from_le_bytes(vstd::slice::slice_subrange(buf, 6, 10));
            let z = vstd::bytes::u32_from_le_bytes(vstd::slice::slice_subrange(buf, 10, 14));
            proof {
                assert(buf@.subrange(2, 6) =~= buf@.skip(2).subrange(0, 4));
                assert(buf@.subrange(6, 10) =~= buf@.skip(2).subrange(4, 8));
                assert(buf@.subrange(10, 14) =~= buf@.skip(2).subrange(8, 12));
            }
            Ok(Incoming::UpdateOrigin { origin: Vector3 { x, y, z } })
        } else if buf[0] == 4 && buf[1] == 0 {
            if body_len != 4 {
                return Err(DecodeError::WrongBodyLen);
            }
            let y = vstd::bytes::u32_from_le_bytes(vstd::slice::slice_subrange(buf, 2, 6));
            proof {
                assert(buf@.subrange(2, 6) =~= buf@.skip(2));
            }
            Ok(Incoming::UpdateRotation { y })
        } else {
            Err(DecodeError::BadTag)
        }
    }
}

} // verus!
