//! A verified framing codec for a duplex message protocol over a byte
//! stream: it parses accumulated inbound bytes into frames and serializes
//! outgoing messages into wire-ready byte sequences.

pub mod buffer;
pub mod endian;
pub mod frame;
pub mod mask;
pub mod proto;
