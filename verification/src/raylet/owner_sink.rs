//! Who is told of borrowers of objects, and of nodes that are gone.

use vstd::prelude::*;

verus! {

/// Something that an owner of objects is told.
#[derive(Debug, Clone, Copy)]
pub enum SinkCall {
    /// A node borrows an object.
    AddBorrower {
        /// The object.
        object_id: [u8; 28],
        /// The node.
        borrower_node_id: [u8; 16],
    },
    /// A node no longer borrows an object.
    RemoveBorrower {
        /// The object.
        object_id: [u8; 28],
        /// The node.
        borrower_node_id: [u8; 16],
    },
    /// A node is gone.
    OwnerDied {
        /// The node.
        dead_node_id: [u8; 16],
    },
}

/// An owner of objects that wants to be told of their borrowers.
pub trait OwnerSink: Sized {
    /// What is left to do after a call.
    type Effect;

    /// Whether the owner can be called.
    open spec fn sink_wf(&self) -> bool {
        true
    }

    /// What a call does: the owner before, the owner after, and what is left to do.
    open spec fn told(before: Self, call: SinkCall, after: Self, effect: Self::Effect) -> bool {
        true
    }

    /// A node borrows an object.
    fn add_borrower(&mut self, object_id: [u8; 28], borrower_node_id: [u8; 16]) -> (e: Self::Effect)
        requires
            old(self).sink_wf(),
        ensures
            final(self).sink_wf(),
            Self::told(
                *old(self),
                SinkCall::AddBorrower { object_id, borrower_node_id },
                *final(self),
                e,
            ),
    ;

    /// A node no longer borrows an object.
    fn remove_borrower(&mut self, object_id: [u8; 28], borrower_node_id: [u8; 16]) -> (e:
        Self::Effect)
        requires
            old(self).sink_wf(),
        ensures
            final(self).sink_wf(),
            Self::told(
                *old(self),
                SinkCall::RemoveBorrower { object_id, borrower_node_id },
                *final(self),
                e,
            ),
    ;

    /// A node is gone.
    fn on_owner_died(&mut self, dead_node_id: [u8; 16]) -> (e: Self::Effect)
        requires
            old(self).sink_wf(),
        ensures
            final(self).sink_wf(),
            Self::told(*old(self), SinkCall::OwnerDied { dead_node_id }, *final(self), e),
    ;
}

/// Tells an owner.
pub fn tell<S: OwnerSink>(sink: &mut S, call: SinkCall) -> (e: S::Effect)
    requires
        old(sink).sink_wf(),
    ensures
        final(sink).sink_wf(),
        S::told(*old(sink), call, *final(sink), e),
{
    match call {
        SinkCall::AddBorrower { object_id, borrower_node_id } => sink.add_borrower(
            object_id,
            borrower_node_id,
        ),
        SinkCall::RemoveBorrower { object_id, borrower_node_id } => sink.remove_borrower(
            object_id,
            borrower_node_id,
        ),
        SinkCall::OwnerDied { dead_node_id } => sink.on_owner_died(dead_node_id),
    }
}

} // verus!
