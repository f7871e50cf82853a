//! A verified model of a minimal remote memory-inspection stub.
//!
//! An embedding host process exposes a fixed anchor block (a landmark whose
//! address a client can query) and services a tiny wire protocol: one command
//! byte, an optional fixed-size argument block, and an optional fixed-size
//! response, repeated until the client disconnects.
//!
//! This crate holds the verified core: the anchor block's layout, the memory
//! span model, the per-connection command state machine, the pure transcript
//! semantics of a whole connection, and the protocol laws proved about them.
//! The embedding glue (sockets, threads, the raw reads of live host memory)
//! lives outside the library and drives the state machine defined here.

pub mod anchor;
pub mod laws;
pub mod memory;
pub mod protocol;
