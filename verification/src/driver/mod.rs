//! The driver: tasks and their lineage, the workers that run them, and the values that go
//! in and out.

pub mod cluster;
pub mod dispatcher;
pub mod driver_metrics;
pub mod fetch;
pub mod owner_sink_impl;
pub mod settings;
pub mod task_manager;
pub mod values;
pub mod wire;
