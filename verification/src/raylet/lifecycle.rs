//! The agent as a whole.

use crate::gcs::client::RegisterOutcome;
use crate::gcs::nodes::{NodeStatus, Resources};
use crate::raylet::directory;
use crate::raylet::node_index;
use crate::raylet::node_index::NodeIndex;
use crate::raylet::service::ObjectTransportService;
use vstd::prelude::*;

verus! {

/// Settings of the agent.
#[derive(Debug)]
pub struct RayletConfig {
    /// Where the control service listens.
    pub gcs_address: String,
    /// Where to listen.
    pub bind: String,
    /// The host under which other nodes reach this one.
    pub advertise_host: String,
    /// Path of the shared-memory socket.
    pub plasma_socket: String,
    /// What the node contributes.
    pub resources: Resources,
    /// Time between two heartbeats.
    pub heartbeat_interval_ms: u64,
}

impl RayletConfig {
    /// Settings for a node on this machine.
    pub fn defaults() -> (r: Self)
        ensures
            r.gcs_address@ == "127.0.0.1:60000"@,
            r.bind@ == "0.0.0.0:0"@,
            r.advertise_host@ == "127.0.0.1"@,
            r.plasma_socket@ == "/tmp/rayd-raylet.sock"@,
            r.resources == (Resources { num_cpus: 1, num_gpus: 0, memory_bytes: 0 }),
            r.heartbeat_interval_ms == 2_000,
    {
        RayletConfig {
            gcs_address: "127.0.0.1:60000".to_owned(),
            bind: "0.0.0.0:0".to_owned(),
            advertise_host: "127.0.0.1".to_owned(),
            plasma_socket: "/tmp/rayd-raylet.sock".to_owned(),
            resources: Resources { num_cpus: 1, num_gpus: 0, memory_bytes: 0 },
            heartbeat_interval_ms: 2_000,
        }
    }
}

/// Starts agents.
#[derive(Debug)]
pub struct Raylet;

impl Raylet {
    /// The agent of a node that joined.
    pub fn start<A: Copy>(joined: RegisterOutcome) -> (r: RayletHandle<A>)
        ensures
            r.wf(),
            r.joined == joined,
            r.transport.directory@ == Map::<Seq<u8>, Set<Seq<u8>>>::empty(),
            r.node_index@ == Map::<Seq<u8>, node_index::NodeEntry<A>>::empty(),
    {
        RayletHandle {
            joined,
            transport: ObjectTransportService::new(),
            node_index: NodeIndex::new(),
        }
    }
}

/// A running agent; addresses of nodes are of type `A`.
#[derive(Debug)]
pub struct RayletHandle<A> {
    /// What the node got when it joined.
    pub joined: RegisterOutcome,
    /// The service for objects.
    pub transport: ObjectTransportService,
    /// The other nodes.
    pub node_index: NodeIndex<A>,
}

impl<A: Copy> RayletHandle<A> {
    /// The directory and the index are well formed.
    pub open spec fn wf(&self) -> bool {
        self.transport.wf() && self.node_index.wf()
    }

    /// This node.
    pub fn node_id(&self) -> (r: [u8; 16])
        ensures
            r == self.joined.node_id,
    {
        self.joined.node_id
    }

    /// The service's session.
    pub fn cluster_session_id(&self) -> (r: [u8; 16])
        ensures
            r == self.joined.cluster_session_id,
    {
        self.joined.cluster_session_id
    }

    /// Notes that this node holds an object.
    pub fn register_self(&mut self, object_id: [u8; 28])
        requires
            old(self).wf(),
        ensures
            final(self).wf(),
            final(self).joined == old(self).joined,
            final(self).node_index == old(self).node_index,
            final(self).transport.directory@ == directory::dir_register(
                old(self).transport.directory@,
                object_id@,
                old(self).joined.node_id@,
            ),
    {
        let node_id: [u8; 16] = self.joined.node_id;
        self.transport.directory.register(object_id, node_id);
    }

    /// Notes that this node no longer holds an object.
    pub fn deregister_self(&mut self, object_id: [u8; 28])
        requires
            old(self).wf(),
        ensures
            final(self).wf(),
            final(self).joined == old(self).joined,
            final(self).node_index == old(self).node_index,
            final(self).transport.directory@ == directory::dir_remove(
                old(self).transport.directory@,
                object_id@,
                old(self).joined.node_id@,
            ),
    {
        let node_id: [u8; 16] = self.joined.node_id;
        self.transport.directory.remove(object_id, node_id);
    }

    /// The status of a node.
    pub fn node_status(&self, node_id: &[u8; 16]) -> (r: Option<NodeStatus>)
        requires
            self.wf(),
        ensures
            r == (if self.node_index@.contains_key(node_id@) {
                Some(self.node_index@[node_id@].status)
            } else {
                None
            }),
    {
        self.node_index.status_of(node_id)
    }
}

/// The label under which a lookup of a node's status is counted.
pub fn lookup_label(found: &Option<NodeStatus>) -> (r: &'static str)
    ensures
        r@ == (if found is Some {
            "hit"@
        } else {
            "miss"@
        }),
{
    match found {
        Some(_) => "hit",
        None => "miss",
    }
}

} // verus!
