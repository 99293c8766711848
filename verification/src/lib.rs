//! Client-side mediator for a peer-to-peer mesh VPN.
//!
//! The mediator keeps a UDP session with a rendezvous server, learns how to
//! reach other mesh peers despite NAT, drives cryptographic handshakes to
//! establish direct or relayed tunnels, and keeps the server apprised of
//! liveness.  This crate holds the protocol logic: the wire-envelope codec,
//! the NAT classifier, the peer directory, the handshake orchestrator, the
//! relay manager, the keepalive scheduler and the event-loop decision
//! functions.  The socket, timer and signal plumbing around it is ordinary
//! async code and lives outside the verified core.

pub mod classifier;
pub mod codec;
pub mod directory;
pub mod endpoint;
pub mod handshake;
pub mod keepalive;
pub mod mediator;
pub mod relay;
pub mod table;
