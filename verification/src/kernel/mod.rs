//! Identifiers, object metadata, reference counting and the in-process store.

pub mod core_worker;
pub mod error_info;
pub mod error_payload;
pub mod id;
pub mod log;
pub mod metadata;
pub mod object_ref;
pub mod ray_object;
pub mod recovery;
pub mod ref_counter;
pub mod store;
