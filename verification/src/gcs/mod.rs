//! The cluster's control service: nodes, jobs and named actors.

pub mod actors;
pub mod client;
pub mod jobs;
pub mod metrics;
pub mod nodes;
pub mod server;
pub mod status;
