//! The core of a bidirectional bridge between IP multicast UDP traffic and
//! a publish/subscribe message bus.
//!
//! In forwarder mode the bridge listens on multicast groups and republishes
//! each datagram as a bus message on a subject named after the group; in
//! agent mode it subscribes to those subjects and re-emits payloads as UDP
//! datagrams, back onto the group or — per configuration — to a unicast
//! destination.
//!
//! This crate holds the decisions and invariants of that engine: the
//! configuration model, the `ip:port` grammar, the addressing-mode
//! decision, the per-group relay steps with their ordering and truncation
//! guarantees, the supervisor's fan-out and verdict policy, and the
//! cancellation model. The surrounding process — sockets, the bus client,
//! the async runtime — drives these functions and stays outside.

pub mod addr;
pub mod agent;
pub mod cancel;
pub mod cfg;
pub mod errors;
pub mod forwarder;
pub mod init;
pub mod netif;
pub mod supervisor;
