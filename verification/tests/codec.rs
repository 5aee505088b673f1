use jumong_server::incoming_packet::{DecodeError, Incoming};
use jumong_server::math::Vector3;
use jumong_server::net::{frame_body_len, wrap_tcp_packet, PeerAddr};
use jumong_server::outgoing_packet::Outgoing;

fn token(byte: u8) -> Vec<u8> {
    vec![byte; 76]
}

#[test]
fn decode_tcp_hello() {
    let mut frame = vec![1u8, 0u8];
    frame.extend_from_slice(&token(b'x'));
    match Incoming::deserialize(&frame) {
        Ok(Incoming::TcpHello { token: t }) => assert_eq!(t, token(b'x')),
        other => panic!("expected TcpHello, got {other:?}"),
    }
}

#[test]
fn decode_udp_hello() {
    let mut frame = vec![2u8, 0u8];
    frame.extend_from_slice(&token(b'y'));
    match Incoming::deserialize(&frame) {
        Ok(Incoming::UdpHello { token: t }) => assert_eq!(t, token(b'y')),
        other => panic!("expected UdpHello, got {other:?}"),
    }
}

#[test]
fn decode_update_origin() {
    let mut frame = vec![3u8, 0u8];
    frame.extend_from_slice(&1.0f32.to_le_bytes());
    frame.extend_from_slice(&2.0f32.to_le_bytes());
    frame.extend_from_slice(&3.0f32.to_le_bytes());
    match Incoming::deserialize(&frame) {
        Ok(Incoming::UpdateOrigin { origin }) => {
            assert_eq!(origin.x, 1.0f32.to_bits());
            assert_eq!(origin.y, 2.0f32.to_bits());
            assert_eq!(origin.z, 3.0f32.to_bits());
        }
        other => panic!("expected UpdateOrigin, got {other:?}"),
    }
}

#[test]
fn decode_update_rotation() {
    let mut frame = vec![4u8, 0u8];
    frame.extend_from_slice(&0.5f32.to_le_bytes());
    match Incoming::deserialize(&frame) {
        Ok(Incoming::UpdateRotation { y }) => assert_eq!(y, 0.5f32.to_bits()),
        other => panic!("expected UpdateRotation, got {other:?}"),
    }
}

#[test]
fn decode_rejects_short_buffer() {
    assert!(matches!(Incoming::deserialize(&[1u8]), Err(DecodeError::TooShort)));
    assert!(matches!(Incoming::deserialize(&[]), Err(DecodeError::TooShort)));
}

#[test]
fn decode_rejects_bad_tag() {
    assert!(matches!(Incoming::deserialize(&[9u8, 0u8, 1u8]), Err(DecodeError::BadTag)));
    assert!(matches!(Incoming::deserialize(&[1u8, 1u8]), Err(DecodeError::BadTag)));
}

#[test]
fn decode_rejects_wrong_body_len() {
    // a TcpHello whose body is "hi" instead of a 76-byte token
    let frame = vec![1u8, 0u8, b'h', b'i'];
    assert!(matches!(Incoming::deserialize(&frame), Err(DecodeError::WrongBodyLen)));
    // an origin update with half a vector
    let frame = vec![3u8, 0u8, 0, 0, 0, 0];
    assert!(matches!(Incoming::deserialize(&frame), Err(DecodeError::WrongBodyLen)));
}

#[test]
fn serialize_hello_and_roster_packets() {
    assert_eq!(Outgoing::HelloFromTcp { id: b"A".to_vec() }.serilaize(), vec![1, 0, b'A']);
    assert_eq!(Outgoing::HelloFromUdp { id: b"A".to_vec() }.serilaize(), vec![2, 0, b'A']);
    assert_eq!(Outgoing::Welcome { id: b"B".to_vec() }.serilaize(), vec![3, 0, b'B']);
    assert_eq!(Outgoing::GoodBye { id: b"A".to_vec() }.serilaize(), vec![4, 0, b'A']);
    assert_eq!(
        Outgoing::Introduce { ids: vec![b"A".to_vec(), b"B".to_vec()] }.serilaize(),
        vec![5, 0, b'A', b'B']
    );
    assert_eq!(Outgoing::Introduce { ids: vec![] }.serilaize(), vec![5, 0]);
}

#[test]
fn serialize_update_packets() {
    let origin = Vector3::new(1.0f32.to_bits(), 2.0f32.to_bits(), 3.0f32.to_bits());
    let mut expected = vec![6u8, 0u8, b'A'];
    expected.extend_from_slice(&1.0f32.to_le_bytes());
    expected.extend_from_slice(&2.0f32.to_le_bytes());
    expected.extend_from_slice(&3.0f32.to_le_bytes());
    assert_eq!(Outgoing::UpdateOrigin { id: b"A".to_vec(), origin }.serilaize(), expected);

    let mut expected = vec![7u8, 0u8, b'A'];
    expected.extend_from_slice(&0.25f32.to_le_bytes());
    assert_eq!(
        Outgoing::UpdateRotation { id: b"A".to_vec(), y: 0.25f32.to_bits() }.serilaize(),
        expected
    );
}

#[test]
fn outgoing_round_trips() {
    // every outbound packet variant decodes back to itself
    let bytes = Outgoing::HelloFromTcp { id: b"AB".to_vec() }.serilaize();
    match Outgoing::deserialize(&bytes, 2) {
        Ok(Outgoing::HelloFromTcp { id }) => assert_eq!(id, b"AB".to_vec()),
        other => panic!("round trip failed: {other:?}"),
    }
    let bytes = Outgoing::HelloFromUdp { id: b"AB".to_vec() }.serilaize();
    match Outgoing::deserialize(&bytes, 2) {
        Ok(Outgoing::HelloFromUdp { id }) => assert_eq!(id, b"AB".to_vec()),
        other => panic!("round trip failed: {other:?}"),
    }
    let bytes = Outgoing::Welcome { id: b"AB".to_vec() }.serilaize();
    match Outgoing::deserialize(&bytes, 2) {
        Ok(Outgoing::Welcome { id }) => assert_eq!(id, b"AB".to_vec()),
        other => panic!("round trip failed: {other:?}"),
    }
    let bytes = Outgoing::GoodBye { id: b"AB".to_vec() }.serilaize();
    match Outgoing::deserialize(&bytes, 2) {
        Ok(Outgoing::GoodBye { id }) => assert_eq!(id, b"AB".to_vec()),
        other => panic!("round trip failed: {other:?}"),
    }
    let bytes = Outgoing::Introduce { ids: vec![b"AB".to_vec(), b"CD".to_vec()] }.serilaize();
    match Outgoing::deserialize(&bytes, 2) {
        Ok(Outgoing::Introduce { ids }) => assert_eq!(ids, vec![b"AB".to_vec(), b"CD".to_vec()]),
        other => panic!("round trip failed: {other:?}"),
    }
    let origin = Vector3::new(1.5f32.to_bits(), 2.5f32.to_bits(), 3.5f32.to_bits());
    let bytes = Outgoing::UpdateOrigin { id: b"AB".to_vec(), origin }.serilaize();
    match Outgoing::deserialize(&bytes, 2) {
        Ok(Outgoing::UpdateOrigin { id, origin: o }) => {
            assert_eq!(id, b"AB".to_vec());
            assert_eq!(o, origin);
        }
        other => panic!("round trip failed: {other:?}"),
    }
    let bytes = Outgoing::UpdateRotation { id: b"AB".to_vec(), y: 0.5f32.to_bits() }.serilaize();
    match Outgoing::deserialize(&bytes, 2) {
        Ok(Outgoing::UpdateRotation { id, y }) => {
            assert_eq!(id, b"AB".to_vec());
            assert_eq!(y, 0.5f32.to_bits());
        }
        other => panic!("round trip failed: {other:?}"),
    }
}

#[test]
fn introduce_rejects_uneven_roster() {
    // 3 bytes of roster cannot be split into 2-byte ids
    assert!(matches!(
        Outgoing::deserialize(&[5, 0, b'A', b'B', b'C'], 2),
        Err(DecodeError::WrongBodyLen)
    ));
}

#[test]
fn wrap_prefixes_little_endian_length() {
    // bytes[0..2] always hold LE16(len(bytes) - 2)
    let wrapped = wrap_tcp_packet(&[1, 0, b'A']);
    assert_eq!(wrapped, vec![3, 0, 1, 0, b'A']);
    let body = vec![0u8; 300];
    let wrapped = wrap_tcp_packet(&body);
    assert_eq!(wrapped.len(), 302);
    assert_eq!(&wrapped[0..2], &(300u16).to_le_bytes());
    assert_eq!(&wrapped[2..], &body[..]);
    let wrapped = wrap_tcp_packet(&[]);
    assert_eq!(wrapped, vec![0, 0]);
}

#[test]
fn frame_body_len_enforces_maximum() {
    assert_eq!(frame_body_len(3, 0), Some(3));
    assert_eq!(frame_body_len(0, 16), Some(4096));
    assert_eq!(frame_body_len(1, 16), None);
    assert_eq!(frame_body_len(0xFF, 0xFF), None);
}

#[test]
fn peer_addr_packs_fields() {
    let a = PeerAddr::new(0x7F000001, 3000);
    assert_eq!(a.ip, 0x7F000001);
    assert_eq!(a.port, 3000);
    assert_eq!(a, PeerAddr::new(0x7F000001, 3000));
    assert_ne!(a, PeerAddr::new(0x7F000001, 3001));
}
