//! Outbound packets (server to client).
//!
//! An outbound packet is encoded as a 2-byte little-endian type tag followed
//! by the body.  On the stream channel the encoding is then wrapped with the
//! outer length prefix (see [`crate::net::wrap_tcp_packet`]); on the datagram
//! channel it travels as one datagram, unwrapped.
//!
//! `Introduce` concatenates the roster's ids with no separator, so it can
//! only be split back apart when all ids share one width.  The auth service
//! assigns ids of a single consistent width, which the decoder takes as a
//! parameter.

use vstd::prelude::*;

use crate::incoming_packet::DecodeError;
use crate::math::Vector3;

verus! {

/// An outbound packet.
#[derive(Debug)]
pub enum Outgoing {
    /// Confirms the stream-channel handshake: the assigned id.
    HelloFromTcp { id: Vec<u8> },
    /// Confirms the datagram-channel pairing: the assigned id.
    HelloFromUdp { id: Vec<u8> },
    /// Announces a newly authenticated peer to the rest of the roster.
    Welcome { id: Vec<u8> },
    /// Announces a dropped peer to the rest of the roster.
    GoodBye { id: Vec<u8> },
    /// The current roster, ids concatenated in map order.
    Introduce { ids: Vec<Vec<u8>> },
    /// Relays a spatial origin update from the named peer.
    UpdateOrigin { id: Vec<u8>, origin: Vector3 },
    /// Relays a heading update from the named peer.
    UpdateRotation { id: Vec<u8>, y: u32 },
}

/// The mathematical shape of an outbound packet.
pub enum OutgoingView {
    HelloFromTcp { id: Seq<u8> },
    HelloFromUdp { id: Seq<u8> },
    Welcome { id: Seq<u8> },
    GoodBye { id: Seq<u8> },
    Introduce { ids: Seq<Seq<u8>> },
    UpdateOrigin { id: Seq<u8>, origin: Vector3 },
    UpdateRotation { id: Seq<u8>, y: u32 },
}

impl View for Outgoing {
    type V = OutgoingView;

    open spec fn view(&self) -> OutgoingView {
        match self {
            Outgoing::HelloFromTcp { id } => OutgoingView::HelloFromTcp { id: id@ },
            Outgoing::HelloFromUdp { id } => OutgoingView::HelloFromUdp { id: id@ },
            Outgoing::Welcome { id } => OutgoingView::Welcome { id: id@ },
            Outgoing::GoodBye { id } => OutgoingView::GoodBye { id: id@ },
            Outgoing::Introduce { ids } => OutgoingView::Introduce { ids: ids.deep_view() },
            Outgoing::UpdateOrigin { id, origin } => OutgoingView::UpdateOrigin {
                id: id@,
                origin: *origin,
            },
            Outgoing::UpdateRotation { id, y } => OutgoingView::UpdateRotation {
                id: id@,
                y: *y,
            },
        }
    }
}

/// The bytes of an encoded outbound packet: tag, then body.
pub open spec fn spec_serialize_outgoing(p: OutgoingView) -> Seq<u8> {
    match p {
        OutgoingView::HelloFromTcp { id } => seq![1u8, 0u8] + id,
        OutgoingView::HelloFromUdp { id } => seq![2u8, 0u8] + id,
        OutgoingView::Welcome { id } => seq![3u8, 0u8] + id,
        OutgoingView::GoodBye { id } => seq![4u8, 0u8] + id,
        OutgoingView::Introduce { ids } => seq![5u8, 0u8] + ids.flatten(),
        OutgoingView::UpdateOrigin { id, origin } => seq![6u8, 0u8] + id
            + vstd::bytes::spec_u32_to_le_bytes(origin.x)
            + vstd::bytes::spec_u32_to_le_bytes(origin.y)
            + vstd::bytes::spec_u32_to_le_bytes(origin.z),
        OutgoingView::UpdateRotation { id, y } => seq![7u8, 0u8] + id
            + vstd::bytes::spec_u32_to_le_bytes(y),
    }
}

/// Splits a concatenation of fixed-width ids back into the ids.  Meaningful
/// when `id_len` divides `body.len()`; chunks greedily otherwise.
pub open spec fn spec_chunk_ids(body: Seq<u8>, id_len: int) -> Seq<Seq<u8>>
    decreases body.len(),
{
    if id_len <= 0 || body.len() < id_len {
        Seq::empty()
    } else {
        seq![body.take(id_len)] + spec_chunk_ids(body.skip(id_len), id_len)
    }
}

/// What decoding a buffer as an outbound packet yields, reading ids of
/// `Introduce` as `id_len` bytes wide.
pub open spec fn spec_deserialize_outgoing(bytes: Seq<u8>, id_len: int) -> Result<
    OutgoingView,
    DecodeError,
> {
    if bytes.len() < 2 {
        Err(DecodeError::TooShort)
    } else {
        let body = bytes.skip(2);
        if bytes[0] == 1 && bytes[1] == 0 {
            Ok(OutgoingView::HelloFromTcp { id: body })
        } else if bytes[0] == 2 && bytes[1] == 0 {
            Ok(OutgoingView::HelloFromUdp { id: body })
        } else if bytes[0] == 3 && bytes[1] == 0 {
            Ok(OutgoingView::Welcome { id: body })
        } else if bytes[0] == 4 && bytes[1] == 0 {
            Ok(OutgoingView::GoodBye { id: body })
        } else if bytes[0] == 5 && bytes[1] == 0 {
            if body.len() == 0 {
                Ok(OutgoingView::Introduce { ids: Seq::empty() })
            } else if id_len > 0 && body.len() as int % id_len == 0 {
                Ok(OutgoingView::Introduce { ids: spec_chunk_ids(body, id_len) })
            } else {
                Err(DecodeError::WrongBodyLen)
            }
        } else if bytes[0] == 6 && bytes[1] == 0 {
            if body.len() >= 12 {
                Ok(OutgoingView::UpdateOrigin {
                    id: body.take(body.len() - 12),
                    origin: Vector3 {
                        x: vstd::bytes::spec_u32_from_le_bytes(
                            body.subrange(body.len() - 12, body.len() - 8),
                        ),
                        y: vstd::bytes::spec_u32_from_le_bytes(
                            body.subrange(body.len() - 8, body.len() - 4),
                        ),
                        z: vstd::bytes::spec_u32_from_le_bytes(
                            body.subrange(body.len() - 4, body.len() as int),
                        ),
                    },
                })
            } else {
                Err(DecodeError::WrongBodyLen)
            }
        } else if bytes[0] == 7 && bytes[1] == 0 {
            if body.len() >= 4 {
                Ok(OutgoingView::UpdateRotation {
                    id: body.take(body.len() - 4),
                    y: vstd::bytes::spec_u32_from_le_bytes(
                        body.subrange(body.len() - 4, body.len() as int),
                    ),
                })
            } else {
                Err(DecodeError::WrongBodyLen)
            }
        } else {
            Err(DecodeError::BadTag)
        }
    }
}

impl Outgoing {
    /// Encodes the packet: 2-byte little-endian tag, then the body.
    pub fn serilaize(self) -> (r: Vec<u8>)
        ensures
            r@ == spec_serialize_outgoing(self@),
    {
        match self {
            Outgoing::HelloFromTcp { id } => tag_and_id(1, &id),
            Outgoing::HelloFromUdp { id } => tag_and_id(2, &id),
            Outgoing::Welcome { id } => tag_and_id(3, &id),
            Outgoing::GoodBye { id } => tag_and_id(4, &id),
            Outgoing::Introduce { ids } => {
                let ghost dv = ids.deep_view();
                let mut r: Vec<u8> = Vec::new();
                r.push(5);
                r.push(0);
                assert(r@ =~= seq![5u8, 0u8] + dv.take(0).flatten());
                let mut i: usize = 0;
                while i < ids.len()
                    invariant
                        0 <= i <= ids.len(),
                        dv == ids.deep_view(),
                        r@ == seq![5u8, 0u8] + dv.take(i as int).flatten(),
                    decreases ids.len() - i,
                {
                    r.extend_from_slice(ids[i].as_slice());
                    proof {
                        assert(dv.take(i + 1) =~= dv.take(i as int).push(dv[i as int]));
                        dv.take(i as int).lemma_flatten_push(dv[i as int]);
                        assert(dv[i as int] == ids@[i as int]@);
                        assert(r@ =~= seq![5u8, 0u8] + dv.take(i + 1).flatten());
                    }
                    i = i + 1;
                }
                proof {
                    assert(dv.take(ids@.len() as int) =~= dv);
                }
                r
            },
            Outgoing::UpdateOrigin { id, origin } => {
                let mut r = tag_and_id(6, &id);
                let mut xb = vstd::bytes::u32_to_le_bytes(origin.x);
                let mut yb = vstd::bytes::u32_to_le_bytes(origin.y);
                let mut zb = vstd::bytes::u32_to_le_bytes(origin.z);
                r.append(&mut xb);
                r.append(&mut yb);
                r.append(&mut zb);
                r
            },
            Outgoing::UpdateRotation { id, y } => {
                let mut r = tag_and_id(7, &id);
                let mut yb = vstd::bytes::u32_to_le_bytes(y);
                r.append(&mut yb);
                r
            },
        }
    }
}

impl Outgoing {
    /// Decodes an encoded outbound packet, the inverse of
    /// [`Outgoing::serilaize`].  `id_len` is the id width the auth service
    /// assigns; only `Introduce` needs it, to split the concatenated roster.
    pub fn deserialize(buf: &[u8], id_len: usize) -> (r: Result<Self, DecodeError>)
        ensures
            match r {
                Ok(p) => spec_deserialize_outgoing(buf@, id_len as int) == Ok::<
                    OutgoingView,
                    DecodeError,
                >(p@),
                Err(e) => spec_deserialize_outgoing(buf@, id_len as int) == Err::<
                    OutgoingView,
                    DecodeError,
                >(e),
            },
    {
        if buf.len() < 2 {
            return Err(DecodeError::TooShort);
        }
        let body = vstd::slice::slice_subrange(buf, 2, buf.len());
        let ghost bodyv = buf@.skip(2);
        proof {
            assert(body@ =~= bodyv);
        }
        if buf[0] == 1 && buf[1] == 0 {
            Ok(Outgoing::HelloFromTcp { id: vstd::slice::slice_to_vec(body) })
        } else if buf[0] == 2 && buf[1] == 0 {
            Ok(Outgoing::HelloFromUdp { id: vstd::slice::slice_to_vec(body) })
        } else if buf[0] == 3 && buf[1] == 0 {
            Ok(Outgoing::Welcome { id: vstd::slice::slice_to_vec(body) })
        } else if buf[0] == 4 && buf[1] == 0 {
            Ok(Outgoing::GoodBye { id: vstd::slice::slice_to_vec(body) })
        } else if buf[0] == 5 && buf[1] == 0 {
            if body.len() == 0 {
                let ids: Vec<Vec<u8>> = Vec::new();
                proof {
                    assert(ids.deep_view() =~= Seq::<Seq<u8>>::empty());
                }
                Ok(Outgoing::Introduce { ids })
            } else if id_len > 0 && body.len() % id_len == 0 {
                let mut ids: Vec<Vec<u8>> = Vec::new();
                let mut offset: usize = 0;
                proof {
                    assert(bodyv.skip(0) =~= bodyv);
                }
                while offset < body.len()
                    invariant
                        0 <= offset <= body@.len(),
                        body@ == bodyv,
                        id_len > 0,
                        offset % id_len == 0,
                        body@.len() as int % id_len as int == 0,
                        spec_chunk_ids(bodyv, id_len as int) == ids.deep_view()
                            + spec_chunk_ids(bodyv.skip(offset as int), id_len as int),
                    decreases body@.len() - offset,
                {
                    proof {
                        let l = id_len as int;
                        let o = offset as int;
                        let n = body@.len() as int;
                        vstd::arithmetic::div_mod::lemma_fundamental_div_mod(o, l);
                        vstd::arithmetic::div_mod::lemma_fundamental_div_mod(n, l);
                        let qo = o / l;
                        let qn = n / l;
                        assert((o == l * qo && n == l * qn && o < n && l > 0) ==> n - o >= l)
                            by (nonlinear_arith);
                        assert(n - o >= l);
                    }
                    let chunk = vstd::slice::slice_to_vec(
                        vstd::slice::slice_subrange(body, offset, offset + id_len),
                    );
                    let ghost prev = ids.deep_view();
                    let ghost rest = bodyv.skip(offset as int);
                    ids.push(chunk);
                    proof {
                        assert(rest.len() >= id_len);
                        assert(rest.take(id_len as int) =~= chunk@);
                        assert(rest.skip(id_len as int) =~= bodyv.skip(offset + id_len));
                        assert(spec_chunk_ids(rest, id_len as int) == seq![chunk@]
                            + spec_chunk_ids(bodyv.skip(offset + id_len), id_len as int));
                        assert(ids.deep_view() =~~= prev.push(chunk@));
                        assert(prev.push(chunk@) + spec_chunk_ids(
                            bodyv.skip(offset + id_len),
                            id_len as int,
                        ) =~= prev + spec_chunk_ids(rest, id_len as int));
                        vstd::arithmetic::div_mod::lemma_mod_add_multiples_vanish(
                            offset as int,
                            id_len as int,
                        );
                        assert((offset + id_len) % id_len as int == offset as int
                            % id_len as int);
                    }
                    offset = offset + id_len;
                }
                proof {
                    assert(bodyv.skip(offset as int) =~= Seq::<u8>::empty());
                    assert(spec_chunk_ids(Seq::<u8>::empty(), id_len as int)
                        =~= Seq::<Seq<u8>>::empty());
                    assert(ids.deep_view() + Seq::<Seq<u8>>::empty() =~= ids.deep_view());
                }
                Ok(Outgoing::Introduce { ids })
            } else {
                Err(DecodeError::WrongBodyLen)
            }
        } else if buf[0] == 6 && buf[1] == 0 {
            if body.len() >= 12 {
                let id = vstd::slice::slice_to_vec(
                    vstd::slice::slice_subrange(body, 0, body.len() - 12),
                );
                let x = vstd::bytes::u32_from_le_bytes(
                    vstd::slice::slice_subrange(body, body.len() - 12, body.len() - 8),
                );
                let y = vstd::bytes::u32_from_le_bytes(
                    vstd::slice::slice_subrange(body, body.len() - 8, body.len() - 4),
                );
                let z = vstd::bytes::u32_from_le_bytes(
                    vstd::slice::slice_subrange(body, body.len() - 4, body.len()),
                );
                proof {
                    assert(id@ =~= bodyv.take(bodyv.len() - 12));
                    assert(body@.subrange(body@.len() - 12, body@.len() - 8)
                        =~= bodyv.subrange(bodyv.len() - 12, bodyv.len() - 8));
                    assert(body@.subrange(body@.len() - 8, body@.len() - 4)
                        =~= bodyv.subrange(bodyv.len() - 8, bodyv.len() - 4));
                    assert(body@.subrange(body@.len() - 4, body@.len() as int)
                        =~= bodyv.subrange(bodyv.len() - 4, bodyv.len() as int));
                }
                Ok(Outgoing::UpdateOrigin { id, origin: Vector3 { x, y, z } })
            } else {
                Err(DecodeError::WrongBodyLen)
            }
        } else if buf[0] == 7 && buf[1] == 0 {
            if body.len() >= 4 {
                let id = vstd::slice::slice_to_vec(
                    vstd::slice::slice_subrange(body, 0, body.len() - 4),
                );
                let y = vstd::bytes::u32_from_le_bytes(
                    vstd::slice::slice_subrange(body, body.len() - 4, body.len()),
                );
                proof {
                    assert(id@ =~= bodyv.take(bodyv.len() - 4));
                    assert(body@.subrange(body@.len() - 4, body@.len() as int)
                        =~= bodyv.subrange(bodyv.len() - 4, bodyv.len() as int));
                }
                Ok(Outgoing::UpdateRotation { id, y })
            } else {
                Err(DecodeError::WrongBodyLen)
            }
        } else {
            Err(DecodeError::BadTag)
        }
    }
}

/// Splitting a concatenation of `id_len`-wide ids yields those ids back.
proof fn lemma_chunk_ids_flatten(ids: Seq<Seq<u8>>, id_len: int)
    requires
        id_len > 0,
        forall|i: int| 0 <= i < ids.len() ==> #[trigger] ids[i].len() == id_len,
    ensures
        spec_chunk_ids(ids.flatten(), id_len) == ids,
    decreases ids.len(),
{
    if ids.len() == 0 {
        assert(spec_chunk_ids(ids.flatten(), id_len) =~= ids);
    } else {
        let f = ids.flatten();
        assert(f == ids.first() + ids.drop_first().flatten());
        assert(f.len() >= id_len);
        assert(f.take(id_len) =~= ids.first());
        assert(f.skip(id_len) =~= ids.drop_first().flatten());
        lemma_chunk_ids_flatten(ids.drop_first(), id_len);
        assert(spec_chunk_ids(f, id_len) =~= ids);
    }
}

/// The concatenation of `n` ids of width `id_len` is `n * id_len` bytes long.
proof fn lemma_flatten_len(ids: Seq<Seq<u8>>, id_len: int)
    requires
        forall|i: int| 0 <= i < ids.len() ==> #[trigger] ids[i].len() == id_len,
    ensures
        ids.flatten().len() == ids.len() * id_len,
    decreases ids.len(),
{
    if ids.len() == 0 {
    } else {
        lemma_flatten_len(ids.drop_first(), id_len);
        assert(ids.flatten().len() == id_len + (ids.len() - 1) * id_len);
        assert(id_len + (ids.len() - 1) * id_len == ids.len() * id_len) by (nonlinear_arith);
    }
}

/// Round trip: decoding an encoded outbound packet gives the packet back.
/// For `Introduce` this needs the ids to share the width `id_len` that the
/// decoder splits at (an `Introduce` of ids of mixed or zero width cannot be
/// split back apart); every other variant round-trips for any `id_len`.
pub proof fn lemma_outgoing_round_trip(p: OutgoingView, id_len: int)
    requires
        p matches OutgoingView::Introduce { ids } ==> ids.len() == 0 || (id_len > 0
            && forall|i: int| 0 <= i < ids.len() ==> #[trigger] ids[i].len() == id_len),
    ensures
        spec_deserialize_outgoing(spec_serialize_outgoing(p), id_len) == Ok::<
            OutgoingView,
            DecodeError,
        >(p),
{
    let bytes = spec_serialize_outgoing(p);
    match p {
        OutgoingView::HelloFromTcp { id } => {
            assert(bytes.skip(2) =~= id);
        },
        OutgoingView::HelloFromUdp { id } => {
            assert(bytes.skip(2) =~= id);
        },
        OutgoingView::Welcome { id } => {
            assert(bytes.skip(2) =~= id);
        },
        OutgoingView::GoodBye { id } => {
            assert(bytes.skip(2) =~= id);
        },
        OutgoingView::Introduce { ids } => {
            let body = bytes.skip(2);
            assert(body =~= ids.flatten());
            if ids.len() == 0 {
                assert(ids.flatten().len() == 0);
                assert(spec_deserialize_outgoing(bytes, id_len)
                    == Ok::<OutgoingView, DecodeError>(
                    OutgoingView::Introduce { ids: Seq::empty() },
                ));
                assert(Seq::<Seq<u8>>::empty() =~= ids);
            } else {
                lemma_flatten_len(ids, id_len);
                assert(body.len() == ids.len() * id_len);
                assert(body.len() as int % id_len == 0) by {
                    vstd::arithmetic::div_mod::lemma_mod_multiples_basic(
                        ids.len() as int,
                        id_len,
                    );
                }
                assert(body.len() > 0) by {
                    assert(ids.len() * id_len >= 1 * id_len) by (nonlinear_arith)
                        requires ids.len() >= 1, id_len > 0;
                }
                lemma_chunk_ids_flatten(ids, id_len);
            }
        },
        OutgoingView::UpdateOrigin { id, origin } => {
            vstd::bytes::lemma_auto_spec_u32_to_from_le_bytes();
            let body = bytes.skip(2);
            assert(body.len() == id.len() + 12);
            assert(body.take(body.len() - 12) =~= id);
            assert(body.subrange(body.len() - 12, body.len() - 8)
                =~= vstd::bytes::spec_u32_to_le_bytes(origin.x));
            assert(body.subrange(body.len() - 8, body.len() - 4)
                =~= vstd::bytes::spec_u32_to_le_bytes(origin.y));
            assert(body.subrange(body.len() - 4, body.len() as int)
                =~= vstd::bytes::spec_u32_to_le_bytes(origin.z));
        },
        OutgoingView::UpdateRotation { id, y } => {
            vstd::bytes::lemma_auto_spec_u32_to_from_le_bytes();
            let body = bytes.skip(2);
            assert(body.len() == id.len() + 4);
            assert(body.take(body.len() - 4) =~= id);
            assert(body.subrange(body.len() - 4, body.len() as int)
                =~= vstd::bytes::spec_u32_to_le_bytes(y));
        },
    }
}

/// Encodes the common packet shape: `[tag, 0]` followed by the id bytes.
fn tag_and_id(tag: u8, id: &Vec<u8>) -> (r: Vec<u8>)
    ensures
        r@ == seq![tag, 0u8] + id@,
{
    let mut r: Vec<u8> = Vec::new();
    r.push(tag);
    r.push(0);
    r.extend_from_slice(id.as_slice());
    proof {
        assert(r@ =~= seq![tag, 0u8] + id@);
    }
    r
}

} // verus!
