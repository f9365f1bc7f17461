//! Recovery of objects that have left the shared-memory store.

use crate::kernel::id::ObjectId;
use crate::util::text::concat2;
use vstd::prelude::*;

verus! {

/// What a recovery gives back: encoded metadata and the payload.
#[derive(Debug)]
pub struct RecoveredObject {
    /// Encoded metadata.
    pub metadata: Vec<u8>,
    /// The payload.
    pub data: Vec<u8>,
}

/// Why a recovery failed. That nothing is known of an object is no failure.
#[derive(Debug)]
pub enum RecoveryError {
    /// The backing store could not be read or decoded.
    Other(String),
}

impl RecoveryError {
    /// The text of the error.
    pub open spec fn spec_text(&self) -> Seq<char> {
        match self {
            RecoveryError::Other(reason) => "recoverer: "@ + reason@,
        }
    }

    /// The text of the error.
    pub fn text(&self) -> (r: String)
        ensures
            r@ == self.spec_text(),
    {
        match self {
            RecoveryError::Other(reason) => concat2("recoverer: ", reason.as_str()),
        }
    }
}

/// A place for objects that leave shared memory. What a call does is up to the place:
/// `recovers` and `stores` relate the place before and after a call to what was handed to it
/// and what came back. A place that says nothing of them promises nothing.
pub trait ObjectRecoverer: Sized {
    /// Whether the place can be called.
    open spec fn recoverer_wf(&self) -> bool {
        true
    }

    /// What `recover` does.
    open spec fn recovers(
        before: Self,
        id: ObjectId,
        after: Self,
        r: Result<Option<RecoveredObject>, RecoveryError>,
    ) -> bool {
        true
    }

    /// What `store` does.
    open spec fn stores(
        before: Self,
        id: ObjectId,
        metadata: Seq<u8>,
        data: Seq<u8>,
        after: Self,
        r: Result<(), RecoveryError>,
    ) -> bool {
        true
    }

    /// Reads an object back; nothing where the place does not have it.
    fn recover(&mut self, id: &ObjectId) -> (r: Result<Option<RecoveredObject>, RecoveryError>)
        requires
            old(self).recoverer_wf(),
        ensures
            final(self).recoverer_wf(),
            Self::recovers(*old(self), *id, *final(self), r),
    ;

    /// Puts an object away.
    fn store(&mut self, id: &ObjectId, metadata: &[u8], data: &[u8]) -> (r: Result<
        (),
        RecoveryError,
    >)
        requires
            old(self).recoverer_wf(),
        ensures
            final(self).recoverer_wf(),
            Self::stores(*old(self), *id, metadata@, data@, *final(self), r),
    ;
}

} // verus!
