use jumong_server::context::Context;
use jumong_server::http_response::AuthOutcome;
use jumong_server::incoming_handler_from_udp::complete_udp_hello;
use jumong_server::incoming_handler_from_waitings::complete_tcp_hello;
use jumong_server::job::{Job, ServerError};
use jumong_server::job_handler::{handle, handle_udp_read, handle_waiting_read, Directive, ReadOutcome, UdpRead};
use jumong_server::net::PeerAddr;
use jumong_server::selector::select_job;

fn token(byte: u8) -> Vec<u8> {
    vec![byte; 76]
}

fn tcp_hello_frame(byte: u8) -> Vec<u8> {
    let mut frame = vec![1u8, 0u8];
    frame.extend_from_slice(&token(byte));
    frame
}

fn udp_hello_datagram(byte: u8) -> Vec<u8> {
    let mut frame = vec![2u8, 0u8];
    frame.extend_from_slice(&token(byte));
    frame
}

fn granted(id: &[u8]) -> AuthOutcome {
    AuthOutcome::Granted { id: id.to_vec() }
}

/// Runs the full stream handshake for one peer: accept under `handle`,
/// read its TcpHello, authenticate as `id`, and drain the promotion's
/// outbound jobs.  Returns the frames written, with their target handles.
fn join(ctx: &mut Context, handle_no: u64, tok: u8, id: &[u8], now: u64) -> Vec<(Vec<u64>, Vec<u8>)> {
    let r = handle(Job::AcceptFromTcp(handle_no, PeerAddr::new(1, 1)), ctx, now);
    assert!(matches!(r, Ok(Directive::Done)));
    let index = ctx.waitings.len() - 1;
    let r = handle(Job::ReadableFromWaiting(index), ctx, now).unwrap();
    assert!(matches!(r, Directive::ReadWaiting { .. }));
    let got = handle_waiting_read(ctx, index, ReadOutcome::Frame(tcp_hello_frame(tok)), now);
    assert_eq!(got, Some(token(tok)));
    let r = complete_tcp_hello(ctx, index, granted(id), now);
    assert!(matches!(r, Ok(None)));
    drain_writes(ctx, now)
}

/// Pops every due job and collects the stream writes it produces.
fn drain_writes(ctx: &mut Context, now: u64) -> Vec<(Vec<u64>, Vec<u8>)> {
    let mut writes = Vec::new();
    while let Some(job) = select_job(ctx, now) {
        match handle(job, ctx, now) {
            Ok(Directive::WriteTcp { handle, frame }) => writes.push((vec![handle], frame)),
            Ok(Directive::WriteTcpMany { handles, frame }) => writes.push((handles, frame)),
            Ok(Directive::Done) => {}
            Ok(other) => panic!("unexpected directive {other:?}"),
            Err(e) => panic!("job failed: {e:?}"),
        }
    }
    writes
}

#[test]
fn solo_tcp_hello() {
    // the first peer gets its id and an empty roster, and no Welcome
    // reaches anyone (there is no one else)
    let mut ctx = Context::new();
    let writes = join(&mut ctx, 1, b'a', b"A", 0);
    assert_eq!(writes.len(), 3);
    // HelloFromTcp{"A"}, wrapped
    assert_eq!(writes[0], (vec![1], vec![3, 0, 1, 0, b'A']));
    // Introduce{[]}, wrapped
    assert_eq!(writes[1], (vec![1], vec![2, 0, 5, 0]));
    // Welcome{"A"} broadcast excludes "A", and no one else is connected
    assert_eq!(writes[2].0, Vec::<u64>::new());
    assert_eq!(ctx.waitings.len(), 0);
    assert_eq!(ctx.tcp_streams, vec![(b"A".to_vec(), 1)]);
}

#[test]
fn second_stream_joins() {
    let mut ctx = Context::new();
    join(&mut ctx, 1, b'a', b"A", 0);
    let writes = join(&mut ctx, 2, b'b', b"B", 1);
    // B hears its id, then the roster ["A"]
    assert_eq!(writes[0], (vec![2], vec![3, 0, 1, 0, b'B']));
    assert_eq!(writes[1], (vec![2], vec![3, 0, 5, 0, b'A']));
    // A alone receives Welcome{"B"}: the broadcast never writes to B
    assert_eq!(writes[2], (vec![1], vec![3, 0, 3, 0, b'B']));
    assert_eq!(ctx.tcp_streams, vec![(b"A".to_vec(), 1), (b"B".to_vec(), 2)]);
}

#[test]
fn udp_hello_pairs_the_address() {
    let mut ctx = Context::new();
    join(&mut ctx, 1, b'a', b"A", 0);
    let addr_a = PeerAddr::new(10, 4000);
    let r = handle(Job::ReadableFromUdp, &mut ctx, 1).unwrap();
    assert!(matches!(r, Directive::RecvUdp));
    let r = handle_udp_read(&mut ctx, UdpRead::Datagram(addr_a, udp_hello_datagram(b'a')), 1);
    assert_eq!(r.unwrap(), Some((token(b'a'), addr_a)));
    let r = complete_udp_hello(&mut ctx, addr_a, granted(b"A"), 1);
    assert!(matches!(r, Ok(())));
    assert_eq!(ctx.udp_addrs.get_by_key(&b"A".to_vec()), Some(&addr_a));
    // the pairing confirmation travels over A's stream
    let writes = drain_writes(&mut ctx, 1);
    assert_eq!(writes, vec![(vec![1], vec![3, 0, 2, 0, b'A'])]);
}

#[test]
fn binding_requires_an_authenticated_session() {
    // a successful auth for an id with no stream session must not
    // produce a datagram binding
    let mut ctx = Context::new();
    join(&mut ctx, 1, b'a', b"A", 0);
    let addr = PeerAddr::new(77, 7777);
    let r = complete_udp_hello(&mut ctx, addr, granted(b"Z"), 1);
    assert!(matches!(r, Err(ServerError::UnknownPeer)));
    assert_eq!(ctx.udp_addrs.get_by_key(&b"Z".to_vec()), None);
    assert_eq!(ctx.udp_addrs.pairs.len(), 0);
}

#[test]
fn update_origin_relays_to_other_bound_peers() {
    let mut ctx = Context::new();
    join(&mut ctx, 1, b'a', b"A", 0);
    join(&mut ctx, 2, b'b', b"B", 0);
    let addr_a = PeerAddr::new(10, 4000);
    let addr_b = PeerAddr::new(11, 4001);
    complete_udp_hello(&mut ctx, addr_a, granted(b"A"), 1).unwrap();
    complete_udp_hello(&mut ctx, addr_b, granted(b"B"), 1).unwrap();
    drain_writes(&mut ctx, 1);

    let mut datagram = vec![3u8, 0u8];
    datagram.extend_from_slice(&1.0f32.to_le_bytes());
    datagram.extend_from_slice(&2.0f32.to_le_bytes());
    datagram.extend_from_slice(&3.0f32.to_le_bytes());
    let r = handle_udp_read(&mut ctx, UdpRead::Datagram(addr_a, datagram), 2);
    assert_eq!(r.unwrap(), None);

    let job = select_job(&mut ctx, 2).expect("a broadcast must be scheduled");
    match handle(job, &mut ctx, 2).unwrap() {
        Directive::SendUdpMany { addrs, datagram } => {
            // B receives the relay; A, the sender, never does
            assert_eq!(addrs, vec![addr_b]);
            let mut expected = vec![6u8, 0u8, b'A'];
            expected.extend_from_slice(&1.0f32.to_le_bytes());
            expected.extend_from_slice(&2.0f32.to_le_bytes());
            expected.extend_from_slice(&3.0f32.to_le_bytes());
            assert_eq!(datagram, expected);
        }
        other => panic!("expected a datagram broadcast, got {other:?}"),
    }
}

#[test]
fn update_rotation_relays_to_other_bound_peers() {
    let mut ctx = Context::new();
    join(&mut ctx, 1, b'a', b"A", 0);
    join(&mut ctx, 2, b'b', b"B", 0);
    let addr_a = PeerAddr::new(10, 4000);
    let addr_b = PeerAddr::new(11, 4001);
    complete_udp_hello(&mut ctx, addr_a, granted(b"A"), 1).unwrap();
    complete_udp_hello(&mut ctx, addr_b, granted(b"B"), 1).unwrap();
    drain_writes(&mut ctx, 1);

    let mut datagram = vec![4u8, 0u8];
    datagram.extend_from_slice(&0.5f32.to_le_bytes());
    handle_udp_read(&mut ctx, UdpRead::Datagram(addr_b, datagram), 2).unwrap();

    let job = select_job(&mut ctx, 2).unwrap();
    match handle(job, &mut ctx, 2).unwrap() {
        Directive::SendUdpMany { addrs, datagram } => {
            assert_eq!(addrs, vec![addr_a]);
            let mut expected = vec![7u8, 0u8, b'B'];
            expected.extend_from_slice(&0.5f32.to_le_bytes());
            assert_eq!(datagram, expected);
        }
        other => panic!("expected a datagram broadcast, got {other:?}"),
    }
}

#[test]
fn update_from_unbound_address_soft_fails() {
    let mut ctx = Context::new();
    join(&mut ctx, 1, b'a', b"A", 0);
    let mut datagram = vec![3u8, 0u8];
    datagram.extend_from_slice(&[0u8; 12]);
    let r = handle_udp_read(&mut ctx, UdpRead::Datagram(PeerAddr::new(9, 9), datagram), 1);
    assert!(matches!(r, Err(ServerError::UnknownPeer)));
    assert!(select_job(&mut ctx, 1).is_none());
}

#[test]
fn stream_drop_propagates() {
    // dropping A says goodbye to the rest exactly once and unbinds A's
    // address; later datagrams from that address find no binding
    let mut ctx = Context::new();
    join(&mut ctx, 1, b'a', b"A", 0);
    join(&mut ctx, 2, b'b', b"B", 0);
    let addr_a = PeerAddr::new(10, 4000);
    complete_udp_hello(&mut ctx, addr_a, granted(b"A"), 1).unwrap();
    drain_writes(&mut ctx, 1);

    let r = handle(Job::DropFromTcp(b"A".to_vec(), None), &mut ctx, 2).unwrap();
    assert!(matches!(r, Directive::CloseStream { handle: 1 }));
    assert_eq!(ctx.tcp_streams, vec![(b"B".to_vec(), 2)]);
    assert_eq!(ctx.udp_addrs.get_by_key(&b"A".to_vec()), None);

    // exactly one GoodBye broadcast is scheduled, and B receives it
    let writes = drain_writes(&mut ctx, 2);
    assert_eq!(writes, vec![(vec![2], vec![3, 0, 4, 0, b'A'])]);

    // dropping an id with no session says goodbye to no one
    let r = handle(Job::DropFromTcp(b"A".to_vec(), None), &mut ctx, 3).unwrap();
    assert!(matches!(r, Directive::Done));
    assert!(select_job(&mut ctx, 3).is_none());

    // datagrams from the old address are now unknown
    let mut datagram = vec![3u8, 0u8];
    datagram.extend_from_slice(&[0u8; 12]);
    let r = handle_udp_read(&mut ctx, UdpRead::Datagram(addr_a, datagram), 3);
    assert!(matches!(r, Err(ServerError::UnknownPeer)));
}

#[test]
fn bad_frame_on_pending_stream() {
    // tag TcpHello but body "hi": the pending slot is removed, no auth
    // request is surfaced, and nothing is broadcast
    let mut ctx = Context::new();
    handle(Job::AcceptFromTcp(1, PeerAddr::new(1, 1)), &mut ctx, 0).unwrap();
    let got = handle_waiting_read(&mut ctx, 0, ReadOutcome::Frame(vec![1, 0, b'h', b'i']), 0);
    assert_eq!(got, None);
    let job = select_job(&mut ctx, 0).expect("the drop must be scheduled");
    let r = handle(job, &mut ctx, 0).unwrap();
    assert!(matches!(r, Directive::CloseWaiting { handle: 1 }));
    assert_eq!(ctx.waitings.len(), 0);
    assert!(select_job(&mut ctx, 0).is_none());
}

#[test]
fn rejected_auth_drops_the_pending_stream() {
    let mut ctx = Context::new();
    handle(Job::AcceptFromTcp(1, PeerAddr::new(1, 1)), &mut ctx, 0).unwrap();
    handle_waiting_read(&mut ctx, 0, ReadOutcome::Frame(tcp_hello_frame(b'a')), 0);
    let r = complete_tcp_hello(&mut ctx, 0, AuthOutcome::Rejected { body: String::from("no") }, 0);
    assert!(matches!(r, Ok(None)));
    let job = select_job(&mut ctx, 0).unwrap();
    let r = handle(job, &mut ctx, 0).unwrap();
    assert!(matches!(r, Directive::CloseWaiting { handle: 1 }));
    assert_eq!(ctx.waitings.len(), 0);
    assert_eq!(ctx.tcp_streams.len(), 0);
}

#[test]
fn transport_failure_on_read_drops_the_peer() {
    let mut ctx = Context::new();
    join(&mut ctx, 1, b'a', b"A", 0);
    jumong_server::job_handler::handle_tcp_read(
        &mut ctx,
        b"A".to_vec(),
        ReadOutcome::Failed(String::from("connection reset")),
        1,
    );
    let job = select_job(&mut ctx, 1).unwrap();
    let r = handle(job, &mut ctx, 1).unwrap();
    assert!(matches!(r, Directive::CloseStream { handle: 1 }));
    assert_eq!(ctx.tcp_streams.len(), 0);
}

#[test]
fn would_block_is_not_an_error() {
    let mut ctx = Context::new();
    handle(Job::AcceptFromTcp(1, PeerAddr::new(1, 1)), &mut ctx, 0).unwrap();
    let got = handle_waiting_read(&mut ctx, 0, ReadOutcome::WouldBlock, 0);
    assert_eq!(got, None);
    assert_eq!(ctx.waitings, vec![1]);
    assert!(select_job(&mut ctx, 0).is_none());
    let r = handle_udp_read(&mut ctx, UdpRead::WouldBlock, 0);
    assert_eq!(r.unwrap(), None);
}

#[test]
fn sends_to_unknown_peers_soft_fail() {
    let mut ctx = Context::new();
    let packet = jumong_server::outgoing_packet::Outgoing::GoodBye { id: b"Z".to_vec() };
    let r = handle(Job::SendToTcp(packet, b"Z".to_vec()), &mut ctx, 0);
    assert!(matches!(r, Err(ServerError::UnknownPeer)));
    let packet = jumong_server::outgoing_packet::Outgoing::GoodBye { id: b"Z".to_vec() };
    let r = handle(Job::SendToUdp(packet, b"Z".to_vec()), &mut ctx, 0);
    assert!(matches!(r, Err(ServerError::UnknownPeer)));
}

#[test]
fn displaced_session_hands_back_its_stream() {
    // a second TcpHello that authenticates as an existing id replaces
    // the old session; the old stream handle comes back for closing
    let mut ctx = Context::new();
    join(&mut ctx, 1, b'a', b"A", 0);
    handle(Job::AcceptFromTcp(2, PeerAddr::new(1, 2)), &mut ctx, 1).unwrap();
    handle_waiting_read(&mut ctx, 0, ReadOutcome::Frame(tcp_hello_frame(b'a')), 1);
    let r = complete_tcp_hello(&mut ctx, 0, granted(b"A"), 1);
    assert_eq!(r.unwrap(), Some(1));
    assert_eq!(ctx.tcp_streams, vec![(b"A".to_vec(), 2)]);
}

#[test]
fn auth_transport_failure_drops_the_pending_stream() {
    let mut ctx = Context::new();
    handle(Job::AcceptFromTcp(1, PeerAddr::new(1, 1)), &mut ctx, 0).unwrap();
    handle_waiting_read(&mut ctx, 0, ReadOutcome::Frame(tcp_hello_frame(b'a')), 0);
    let r = complete_tcp_hello(
        &mut ctx,
        0,
        AuthOutcome::Failed { cause: String::from("connect timed out") },
        0,
    );
    assert!(matches!(r, Ok(None)));
    let job = select_job(&mut ctx, 0).unwrap();
    let r = handle(job, &mut ctx, 0).unwrap();
    assert!(matches!(r, Directive::CloseWaiting { handle: 1 }));
    assert_eq!(ctx.waitings.len(), 0);
}

#[test]
fn stale_indices_are_programming_errors() {
    let mut ctx = Context::new();
    let r = handle(Job::ReadableFromWaiting(5), &mut ctx, 0);
    assert!(matches!(r, Err(ServerError::ProgrammingError)));
    let r = handle(Job::ReadableFromTcp(b"Z".to_vec()), &mut ctx, 0);
    assert!(matches!(r, Err(ServerError::ProgrammingError)));
    // an out-of-range drop is tolerated: the state does not change
    let r = handle(Job::DropFromWaiting(5, None), &mut ctx, 0);
    assert!(matches!(r, Err(ServerError::ProgrammingError)));
    assert_eq!(ctx.waitings.len(), 0);
}

#[test]
fn oversized_packets_cannot_be_framed() {
    // a stream frame's length prefix is 16 bits; a packet that cannot be
    // wrapped is refused as a bad frame rather than written
    let mut ctx = Context::new();
    let packet = jumong_server::outgoing_packet::Outgoing::GoodBye { id: vec![0u8; 70000] };
    let r = handle(Job::BroadcastToTcp(packet, vec![]), &mut ctx, 0);
    assert!(matches!(r, Err(ServerError::BadFrame(_))));
    let packet = jumong_server::outgoing_packet::Outgoing::GoodBye { id: vec![0u8; 70000] };
    let r = handle(Job::SendToTcp(packet, b"Z".to_vec()), &mut ctx, 0);
    // the unknown target is noticed first, as when sending normally
    assert!(matches!(r, Err(ServerError::UnknownPeer)));
}
