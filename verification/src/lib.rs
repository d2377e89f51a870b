//! Client-side wire-protocol engine for a ZooKeeper-style coordination
//! service: length-prefixed binary framing, the initial session handshake,
//! and correlation of asynchronously arriving responses with the requests
//! that caused them, over a single duplex byte stream.
//!
//! The engine itself performs no I/O.  A caller feeds it the bytes read from
//! the transport, takes from it the bytes to write, and invokes its
//! processing step; everything the engine decides is verified.

pub mod codec;
pub mod inbox;
pub mod outbox;
pub mod packetizer;
pub mod table;
pub mod wire;
