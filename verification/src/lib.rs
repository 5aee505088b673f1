//! A realtime presence/relay server core.
//!
//! Clients connect over a reliable stream channel and a datagram channel,
//! authenticate against an external service, and have their per-identity
//! events (hello, welcome, goodbye, position, rotation) relayed to the rest
//! of the roster.  This crate holds the verified core: the frame codec, the
//! bidirectional identity map, the session table, the deadline job queue and
//! the job-handling state machine.  The event loop, the sockets and the HTTP
//! auth call live outside, in the unverified runtime, which feeds events in
//! and carries directives out as plain values.

pub mod collection;
pub mod context;
pub mod http_response;
pub mod incoming_handler_from_tcp;
pub mod incoming_handler_from_udp;
pub mod incoming_handler_from_waitings;
pub mod incoming_packet;
pub mod job;
pub mod job_handler;
pub mod math;
pub mod net;
pub mod outgoing_packet;
pub mod schedule;
pub mod schedule_queue;
pub mod selector;
pub mod url;
