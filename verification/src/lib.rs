//! Peer authentication for a small remote file service.
//!
//! A client and a server share a secret per principal. The server proves a
//! peer's identity with a challenge and response over a line-oriented text
//! protocol, and application messages carry an integrity tag derived from the
//! same secret. This crate holds the registry of principals, both handshake
//! state machines and the message signer. Sockets, files and logging belong to
//! the caller.

pub mod cipher;
pub mod config;
pub mod encoding;
pub mod handshake;
pub mod message;
pub mod message_signer;
pub mod rfs_client;
pub mod rfs_common;
pub mod rfs_server;
pub mod text;
