//! rayd: the verified core of a small distributed object store and task runtime.

pub mod cli;
pub mod driver;
pub mod gcs;
pub mod kernel;
pub mod plasma;
pub mod raylet;
pub mod util;
