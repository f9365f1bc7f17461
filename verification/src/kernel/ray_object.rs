//! The unit a worker stores for every object reference.

use crate::kernel::metadata::Metadata;
use crate::kernel::object_ref::ObjectRef;
use vstd::prelude::*;

verus! {

/// A stored value: typed metadata, opaque data and the references inside the data.
#[derive(Debug, PartialEq, Eq)]
pub struct RayObject {
    /// Kind of value, or the error in its place.
    pub metadata: Metadata,
    /// The payload.
    pub data: Vec<u8>,
    /// References embedded in the payload.
    pub nested_refs: Vec<ObjectRef>,
}

impl RayObject {
    /// An object without nested references.
    pub fn new(metadata: Metadata, data: Vec<u8>) -> (r: Self)
        ensures
            r.metadata == metadata,
            r.data == data,
            r.nested_refs@ == Seq::<ObjectRef>::empty(),
    {
        RayObject { metadata, data, nested_refs: Vec::new() }
    }

    /// Whether the object is an error.
    pub fn is_error(&self) -> (b: bool)
        ensures
            b == self.metadata.spec_is_error(),
    {
        self.metadata.is_error()
    }

    /// Bytes of the encoded metadata and the data together.
    pub open spec fn spec_size(&self) -> nat {
        self.metadata.wire().len() + self.data@.len()
    }

    /// Bytes of the encoded metadata and the data together.
    pub fn size_bytes(&self) -> (n: usize)
        requires
            self.spec_size() <= usize::MAX,
        ensures
            n == self.spec_size(),
    {
        let metadata_size: usize = match self.metadata {
            Metadata::Pickle5 { .. } => 2,
            Metadata::Raw => 1,
            Metadata::ActorHandle => 1,
            Metadata::Error { .. } => 4,
        };
        metadata_size + self.data.len()
    }
}

} // verus!
