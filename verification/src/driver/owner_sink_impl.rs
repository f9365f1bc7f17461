//! A worker as the owner that is told of borrowers.

use crate::kernel::core_worker;
use crate::kernel::core_worker::{CoreWorker, FreeStep};
use crate::kernel::id::{ObjectId, WorkerId};
use crate::kernel::ref_counter;
use crate::kernel::ref_counter::RefOp;
use crate::raylet::owner_sink::{OwnerSink, SinkCall};
use vstd::prelude::*;

verus! {

/// A borrowing node stands as a worker with the same identifier. A borrower that goes may
/// free an object; what is left to do then is the effect. That a node is gone changes
/// nothing.
impl OwnerSink for CoreWorker {
    type Effect = FreeStep;

    open spec fn sink_wf(&self) -> bool {
        self.wf()
    }

    open spec fn told(before: Self, call: SinkCall, after: Self, effect: FreeStep) -> bool {
        match call {
            SinkCall::AddBorrower { object_id, borrower_node_id } => {
                &&& after@ == (core_worker::WorkerModel {
                    refs: ref_counter::ref_step(
                        before@.refs,
                        RefOp::AddBorrower(ObjectId(object_id), WorkerId(borrower_node_id)),
                    ),
                    ..before@
                })
                &&& effect == FreeStep::Kept
            },
            SinkCall::RemoveBorrower { object_id, borrower_node_id } => {
                let op = RefOp::RemoveBorrower(ObjectId(object_id), WorkerId(borrower_node_id));
                after@ == before@.unpin(op) && effect == before@.free_step(op)
            },
            SinkCall::OwnerDied { .. } => after == before && effect == FreeStep::Kept,
        }
    }

    fn add_borrower(&mut self, object_id: [u8; 28], borrower_node_id: [u8; 16]) -> (e: FreeStep) {
        let id = ObjectId::from_bytes(object_id);
        let borrower = WorkerId::from_bytes(borrower_node_id);
        self.add_borrower_pin(id, borrower);
        FreeStep::Kept
    }

    fn remove_borrower(&mut self, object_id: [u8; 28], borrower_node_id: [u8; 16]) -> (e: FreeStep) {
        let id = ObjectId::from_bytes(object_id);
        let borrower = WorkerId::from_bytes(borrower_node_id);
        self.remove_borrower_pin(id, borrower)
    }

    fn on_owner_died(&mut self, dead_node_id: [u8; 16]) -> (e: FreeStep) {
        FreeStep::Kept
    }
}

/// A node that borrows an object pins it from then on, and one that no longer does pins it no
/// more; the object is freed exactly where that was its last pin. That a node is gone frees
/// nothing.
pub proof fn law_borrowers_pin(
    before: CoreWorker,
    call: SinkCall,
    after: CoreWorker,
    effect: FreeStep,
)
    requires
        before.wf(),
        ref_counter::all_pinned(before@.refs),
        CoreWorker::told(before, call, after, effect),
    ensures
        match call {
            SinkCall::AddBorrower { object_id, borrower_node_id } => {
                let id = ObjectId(object_id);
                &&& after@.refs.contains_key(id)
                &&& after@.refs[id].borrowers.contains(WorkerId(borrower_node_id))
                &&& after@.store == before@.store
                &&& effect == FreeStep::Kept
            },
            SinkCall::RemoveBorrower { object_id, borrower_node_id } => {
                let id = ObjectId(object_id);
                &&& !ref_counter::entry_or_empty(after@.refs, id).borrowers.contains(
                    WorkerId(borrower_node_id),
                )
                &&& ref_counter::entry_or_empty(after@.refs, id).local
                    == ref_counter::entry_or_empty(before@.refs, id).local
                &&& effect is Freed <==> before@.refs.contains_key(id) && !after@.refs.contains_key(
                    id,
                )
                &&& effect is Freed ==> !after@.store.entries.contains_key(id)
                &&& effect is Kept ==> after@.store == before@.store
            },
            SinkCall::OwnerDied { dead_node_id } => after@ == before@ && effect == FreeStep::Kept,
        },
{
    match call {
        SinkCall::AddBorrower { object_id, borrower_node_id } => {
            let op = RefOp::AddBorrower(ObjectId(object_id), WorkerId(borrower_node_id));
            ref_counter::law_pins_are_counted(before@.refs, op);
            ref_counter::law_tracked_iff_pinned(before@.refs, op);
            assert(ref_counter::entry_or_empty(
                ref_counter::ref_step(before@.refs, op),
                op.id(),
            ).borrowers.contains(WorkerId(borrower_node_id)));
        },
        SinkCall::RemoveBorrower { object_id, borrower_node_id } => {
            let op = RefOp::RemoveBorrower(ObjectId(object_id), WorkerId(borrower_node_id));
            ref_counter::law_pins_are_counted(before@.refs, op);
        },
        _ => {},
    }
}

} // verus!
