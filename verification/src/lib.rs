//! A verified codec for the Bitcoin peer-to-peer wire protocol.
//!
//! The library encodes and decodes the fixed 24-byte message header, the
//! CompactSize variable-length integer, the handshake payloads (`version`,
//! `verack`) and the network sub-formats they embed.  Every encoder and
//! decoder carries a contract relating the bytes on the wire to a
//! mathematical description of the value, and round-trip laws are proved
//! for each format.

pub mod encode;
pub mod prim;
pub mod varint;
pub mod header;
pub mod network;
pub mod data;
