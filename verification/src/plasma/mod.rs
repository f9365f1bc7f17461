//! The shared-memory object store: allocation, wire protocol, server and client.

pub mod arena;
pub mod client;
pub mod codec;
pub mod connection;
pub mod error;
pub mod frame;
pub mod metrics;
pub mod server;
pub mod wire;

use vstd::prelude::*;

verus! {

/// Default capacity of a server's arena.
pub const DEFAULT_ARENA_BYTES: u64 = 134_217_728;

/// Alignment of objects inside the arena.
pub const OBJECT_ALIGN: u64 = 16;

} // verus!
