//! Core protocol engine of a peer-to-peer file sharing service that runs
//! over an unreliable, message-oriented transport.
//!
//! The crate holds the verified heart of the system: the binary message
//! codec, the request records tracked by the downloading side, the registry
//! of locally shared files served by the serving side, and the decision
//! logic of both protocol loops.  Everything that touches a socket, the
//! clock, or the file system lives outside and hands plain values in.

pub mod codec;
pub mod helper;
pub mod downloader;
pub mod message;
pub mod request;
pub mod server;
pub mod shareable;
pub mod theme;
