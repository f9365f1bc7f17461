//! The node's agent: which nodes hold an object, which nodes there are, objects spilled to
//! disk, and the transfer of objects between nodes.

pub mod client;
pub mod directory;
pub mod lifecycle;
pub mod local_fs;
pub mod metrics;
pub mod node_index;
pub mod object_manager;
pub mod owner_sink;
pub mod service;
pub mod spill;
pub mod watch_nodes;
