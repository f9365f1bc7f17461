//! The registry of nodes and the stream of their changes.
//!
//! Every change of a node gets the next sequence number, goes to live subscribers and
//! into a bounded buffer, from which a subscriber that lost its connection catches up.

use crate::gcs::status;
use crate::gcs::status::{parse_id, RpcCode, Status};
use crate::kernel::id::random_bytes;
use crate::util::bytes::copy_bytes;
use crate::util::clock::unix_ms;
use crate::util::sums;
use crate::util::table::Table;
use crate::util::text;
use crate::util::text::{push_decimal, with_number};
use std::collections::VecDeque;
use vstd::prelude::*;

verus! {

/// Most events in the buffer.
pub const REPLAY_BUFFER_CAPACITY: usize = 1024;

/// Most events that a live subscriber may lag behind.
pub const BROADCAST_CHANNEL_CAPACITY: usize = 256;

/// Whether a node can be used.
#[derive(Debug, Clone, Copy, PartialEq, Eq, Structural)]
pub enum NodeStatus {
    /// Not known.
    Unspecified,
    /// In use.
    Alive,
    /// On its way out.
    Draining,
    /// Gone.
    Dead,
}

impl NodeStatus {
    /// The number of the status on the wire.
    pub open spec fn spec_code(self) -> i32 {
        match self {
            NodeStatus::Unspecified => 0,
            NodeStatus::Alive => 1,
            NodeStatus::Draining => 2,
            NodeStatus::Dead => 3,
        }
    }

    /// The status with a given number; `Unspecified` for any other number.
    pub open spec fn of_code(code: i32) -> NodeStatus {
        if code == 1 {
            NodeStatus::Alive
        } else if code == 2 {
            NodeStatus::Draining
        } else if code == 3 {
            NodeStatus::Dead
        } else {
            NodeStatus::Unspecified
        }
    }

    /// The number of the status on the wire.
    pub fn code(self) -> (r: i32)
        ensures
            r == self.spec_code(),
    {
        match self {
            NodeStatus::Unspecified => 0,
            NodeStatus::Alive => 1,
            NodeStatus::Draining => 2,
            NodeStatus::Dead => 3,
        }
    }

    /// The status with a given number; `Unspecified` for any other number.
    pub fn from_code(code: i32) -> (r: Self)
        ensures
            r == Self::of_code(code),
            r.spec_code() == code || r == NodeStatus::Unspecified,
    {
        match code {
            1 => NodeStatus::Alive,
            2 => NodeStatus::Draining,
            3 => NodeStatus::Dead,
            _ => NodeStatus::Unspecified,
        }
    }
}

/// What a node contributes.
#[derive(Debug, Clone, Copy, PartialEq, Eq, Structural)]
pub struct Resources {
    /// Processors.
    pub num_cpus: u32,
    /// Graphics processors.
    pub num_gpus: u32,
    /// Bytes of memory.
    pub memory_bytes: u64,
}

/// Where a node is.
#[derive(Debug, PartialEq, Eq)]
pub struct NodeAddress {
    /// Host name or IP literal.
    pub host: String,
    /// TCP port.
    pub port: u32,
    /// The node.
    pub node_id: Vec<u8>,
    /// Path of its shared-memory socket.
    pub plasma_socket: String,
}

/// The mathematical content of a `NodeAddress`.
pub struct NodeAddressModel {
    /// Host name or IP literal.
    pub host: Seq<char>,
    /// TCP port.
    pub port: u32,
    /// The node.
    pub node_id: Seq<u8>,
    /// Path of its shared-memory socket.
    pub plasma_socket: Seq<char>,
}

impl View for NodeAddress {
    type V = NodeAddressModel;

    open spec fn view(&self) -> NodeAddressModel {
        NodeAddressModel {
            host: self.host@,
            port: self.port,
            node_id: self.node_id@,
            plasma_socket: self.plasma_socket@,
        }
    }
}

impl Clone for NodeAddress {
    fn clone(&self) -> (r: Self)
        ensures
            r@ == self@,
    {
        NodeAddress {
            host: self.host.clone(),
            port: self.port,
            node_id: copy_bytes(self.node_id.as_slice()),
            plasma_socket: self.plasma_socket.clone(),
        }
    }
}

/// What is known of a node.
#[derive(Debug, PartialEq, Eq)]
pub struct NodeInfo {
    /// Where it is.
    pub address: Option<NodeAddress>,
    /// What it contributes.
    pub resources: Option<Resources>,
    /// Its status, by number.
    pub status: i32,
    /// When it registered.
    pub registered_at_unix_ms: u64,
    /// When it was last heard of.
    pub last_heartbeat_unix_ms: u64,
}

/// The mathematical content of a `NodeInfo`.
#[verifier::ext_equal]
pub struct NodeModel {
    /// Where it is.
    pub address: Option<NodeAddressModel>,
    /// What it contributes.
    pub resources: Option<Resources>,
    /// Its status, by number.
    pub status: i32,
    /// When it registered.
    pub registered_at: u64,
    /// When it was last heard of.
    pub last_heartbeat: u64,
}

impl View for NodeInfo {
    type V = NodeModel;

    open spec fn view(&self) -> NodeModel {
        NodeModel {
            address: match self.address {
                None => None,
                Some(a) => Some(a@),
            },
            resources: self.resources,
            status: self.status,
            registered_at: self.registered_at_unix_ms,
            last_heartbeat: self.last_heartbeat_unix_ms,
        }
    }
}

impl Clone for NodeInfo {
    fn clone(&self) -> (r: Self)
        ensures
            r@ == self@,
    {
        NodeInfo {
            address: match &self.address {
                None => None,
                Some(a) => Some(a.clone()),
            },
            resources: self.resources,
            status: self.status,
            registered_at_unix_ms: self.registered_at_unix_ms,
            last_heartbeat_unix_ms: self.last_heartbeat_unix_ms,
        }
    }
}

/// A change of a node.
#[derive(Debug, PartialEq, Eq)]
pub struct NodeEvent {
    /// Its sequence number; 0 in a snapshot.
    pub sequence: u64,
    /// The node after the change.
    pub node: Option<NodeInfo>,
}

/// The mathematical content of a `NodeEvent`.
#[verifier::ext_equal]
pub struct EventModel {
    /// Its sequence number.
    pub sequence: u64,
    /// The node after the change.
    pub node: Option<NodeModel>,
}

impl View for NodeEvent {
    type V = EventModel;

    open spec fn view(&self) -> EventModel {
        EventModel {
            sequence: self.sequence,
            node: match self.node {
                None => None,
                Some(n) => Some(n@),
            },
        }
    }
}

impl Clone for NodeEvent {
    fn clone(&self) -> (r: Self)
        ensures
            r@ == self@,
    {
        NodeEvent {
            sequence: self.sequence,
            node: match &self.node {
                None => None,
                Some(n) => Some(n.clone()),
            },
        }
    }
}

/// The contents of events.
pub open spec fn events_view(events: Seq<NodeEvent>) -> Seq<EventModel> {
    events.map_values(|e: NodeEvent| e@)
}

/// The contents of nodes.
pub open spec fn nodes_view(nodes: Seq<NodeInfo>) -> Seq<NodeModel> {
    nodes.map_values(|n: NodeInfo| n@)
}

/// The request of a node to join.
#[derive(Debug)]
pub struct RegisterRequest {
    /// Host name or IP literal.
    pub host: String,
    /// TCP port.
    pub port: u32,
    /// Path of its shared-memory socket.
    pub plasma_socket: String,
    /// What it contributes.
    pub resources: Option<Resources>,
}

/// What a call changes in the metrics of nodes.
#[derive(Debug, Clone, Copy, PartialEq, Eq, Structural)]
pub struct NodeMetrics {
    /// Nodes registered.
    pub registered: u64,
    /// Nodes that are in use from now on.
    pub alive_added: u64,
    /// Nodes that are no longer in use.
    pub alive_removed: u64,
    /// Events published.
    pub events: u64,
    /// Heartbeats received.
    pub heartbeats: u64,
}

/// The answer to a node that joined.
#[derive(Debug)]
pub struct Registered {
    /// The node's identifier.
    pub node_id: [u8; 16],
    /// The service's session.
    pub cluster_session_id: [u8; 16],
    /// The event for live subscribers.
    pub event: NodeEvent,
    /// What changes in the metrics.
    pub metrics: NodeMetrics,
}

/// The outcome of a change of nodes.
#[derive(Debug)]
pub struct Published {
    /// The events for live subscribers, in order.
    pub events: Vec<NodeEvent>,
    /// What changes in the metrics.
    pub metrics: NodeMetrics,
}

/// The beginning of a subscription.
#[derive(Debug)]
pub struct WatchStart {
    /// What the subscriber gets first.
    pub catchup: Vec<NodeEvent>,
    /// Live events up to this number are part of it already.
    pub highest_catchup_sequence: u64,
}

/// The mathematical content of a registry.
#[verifier::ext_equal]
pub struct RegistryModel {
    /// The nodes.
    pub nodes: Map<Seq<u8>, NodeModel>,
    /// The service's session.
    pub session: Seq<u8>,
    /// The buffered events, oldest first.
    pub buffer: Seq<EventModel>,
    /// The next sequence number.
    pub next: u64,
}

impl RegistryModel {
    /// The buffer holds the latest events, as many as fit, with consecutive numbers up to
    /// the next one.
    pub open spec fn wf(self) -> bool {
        &&& self.next >= 1
        &&& self.buffer.len() == (if self.next - 1 <= REPLAY_BUFFER_CAPACITY {
            self.next - 1
        } else {
            REPLAY_BUFFER_CAPACITY as int
        })
        &&& forall|i: int|
            #![trigger self.buffer[i]]
            0 <= i < self.buffer.len() ==> self.buffer[i].sequence == self.next
                - self.buffer.len() + i
    }

    /// The next event, for `node`.
    pub open spec fn event(self, node: NodeModel) -> EventModel {
        EventModel { sequence: self.next, node: Some(node) }
    }

    /// The registry after an event for `node` was published.
    pub open spec fn publish(self, node: NodeModel) -> RegistryModel {
        let kept = if self.buffer.len() == REPLAY_BUFFER_CAPACITY {
            self.buffer.skip(1)
        } else {
            self.buffer
        };
        RegistryModel {
            buffer: kept.push(self.event(node)),
            next: (self.next + 1) as u64,
            ..self
        }
    }

    /// The registry after events for several nodes were published.
    pub open spec fn publish_all(self, nodes: Seq<NodeModel>) -> RegistryModel
        decreases nodes.len(),
    {
        if nodes.len() == 0 {
            self
        } else {
            self.publish_all(nodes.drop_last()).publish(nodes.last())
        }
    }

    /// The events for several nodes, with consecutive numbers from the next one.
    pub open spec fn events(self, nodes: Seq<NodeModel>) -> Seq<EventModel> {
        Seq::new(
            nodes.len(),
            |i: int| EventModel { sequence: (self.next + i) as u64, node: Some(nodes[i]) },
        )
    }

    /// The registry with `node` at `id`.
    pub open spec fn with_node(self, id: Seq<u8>, node: NodeModel) -> RegistryModel {
        RegistryModel { nodes: self.nodes.insert(id, node), ..self }
    }

    /// Number of nodes in use.
    pub open spec fn alive(self) -> nat {
        sums::map_sum(self.nodes, |n: NodeModel| alive_weight(n))
    }

    /// The buffered events behind a sequence number.
    pub open spec fn after(self, sequence: u64) -> Seq<EventModel> {
        self.buffer.filter(|e: EventModel| e.sequence > sequence)
    }
}

/// 1 for a node in use, 0 for another.
pub open spec fn alive_weight(n: NodeModel) -> nat {
    if n.status == 1 {
        1
    } else {
        0
    }
}

/// Whether a node has not been heard of since `deadline` though it is in use.
pub open spec fn stale(n: NodeModel, deadline: u64) -> bool {
    n.status == 1 && n.last_heartbeat < deadline
}

/// The node as gone where it is stale.
pub open spec fn expired(n: NodeModel, deadline: u64) -> NodeModel {
    if stale(n, deadline) {
        NodeModel { status: 3, ..n }
    } else {
        n
    }
}

/// The nodes that go when stale ones expire, in the order of `ids`, as gone.
pub open spec fn flipped(nodes: Map<Seq<u8>, NodeModel>, ids: Seq<Seq<u8>>, deadline: u64) -> Seq<
    NodeModel,
>
    decreases ids.len(),
{
    if ids.len() == 0 {
        Seq::empty()
    } else {
        let rest = flipped(nodes, ids.drop_last(), deadline);
        if stale(nodes[ids.last()], deadline) {
            rest.push(expired(nodes[ids.last()], deadline))
        } else {
            rest
        }
    }
}

/// The nodes with every stale one of `ids` gone.
pub open spec fn expire_ids(nodes: Map<Seq<u8>, NodeModel>, ids: Set<Seq<u8>>, deadline: u64)
    -> Map<Seq<u8>, NodeModel> {
    Map::new(
        |k: Seq<u8>| nodes.contains_key(k),
        |k: Seq<u8>|
            if ids.contains(k) {
                expired(nodes[k], deadline)
            } else {
                nodes[k]
            },
    )
}

/// The registry of nodes.
#[derive(Debug)]
pub struct NodesRegistry {
    nodes: Table<[u8; 16], NodeInfo>,
    cluster_session_id: [u8; 16],
    replay_buffer: VecDeque<NodeEvent>,
    next_sequence: u64,
}

impl View for NodesRegistry {
    type V = RegistryModel;

    closed spec fn view(&self) -> RegistryModel {
        RegistryModel {
            nodes: self.nodes@.map_values(|n: NodeInfo| n@),
            session: self.cluster_session_id@,
            buffer: events_view(self.replay_buffer@),
            next: self.next_sequence,
        }
    }
}

pub(crate) fn no_metrics() -> (r: NodeMetrics)
    ensures
        r == (NodeMetrics {
            registered: 0,
            alive_added: 0,
            alive_removed: 0,
            events: 0,
            heartbeats: 0,
        }),
{
    NodeMetrics { registered: 0, alive_added: 0, alive_removed: 0, events: 0, heartbeats: 0 }
}

impl NodesRegistry {
    /// The table and the buffer are well formed.
    pub closed spec fn wf(&self) -> bool {
        self.nodes.wf() && self@.wf()
    }

    /// The nodes in the order in which they registered.
    pub closed spec fn order(&self) -> Seq<Seq<u8>> {
        self.nodes.order()
    }

    /// The model of a well-formed registry, whose order lists every node once.
    pub proof fn lemma_model(&self)
        requires
            self.wf(),
        ensures
            self@.wf(),
            self.order().no_duplicates(),
            self@.nodes.dom() == self.order().to_set(),
            self@.nodes.dom().finite(),
            self@.nodes.dom().len() == self.order().len(),
    {
        self.nodes.lemma_model();
        assert(self@.nodes.dom() =~= self.nodes@.dom());
    }

    /// A registry without nodes, for the given session.
    pub fn with_session(cluster_session_id: [u8; 16]) -> (r: Self)
        ensures
            r.wf(),
            r@ == (RegistryModel {
                nodes: Map::empty(),
                session: cluster_session_id@,
                buffer: Seq::empty(),
                next: 1,
            }),
    {
        let r = NodesRegistry {
            nodes: Table::new(),
            cluster_session_id,
            replay_buffer: VecDeque::new(),
            next_sequence: 1,
        };
        proof {
            assert(r@.nodes =~= Map::<Seq<u8>, NodeModel>::empty());
            assert(r@.buffer =~= Seq::<EventModel>::empty());
        }
        r
    }

    /// A registry without nodes, for a fresh random session.
    pub fn new() -> (r: Self)
        ensures
            r.wf(),
            r@ == (RegistryModel {
                nodes: Map::empty(),
                session: r@.session,
                buffer: Seq::empty(),
                next: 1,
            }),
            r@.session.len() == 16,
    {
        Self::with_session(random_bytes())
    }

    /// The service's session.
    pub fn cluster_session_id(&self) -> (r: [u8; 16])
        ensures
            r@ == self@.session,
    {
        self.cluster_session_id
    }

    /// The number of the next event.
    pub fn next_sequence(&self) -> (r: u64)
        ensures
            r == self@.next,
    {
        self.next_sequence
    }

    /// All nodes.
    pub fn snapshot(&self) -> (r: Vec<NodeInfo>)
        requires
            self.wf(),
        ensures
            nodes_view(r@) == self.order().map_values(|k: Seq<u8>| self@.nodes[k]),
    {
        let mut r: Vec<NodeInfo> = Vec::new();
        let n: usize = self.nodes.len();
        let mut i: usize = 0;
        let ghost want = self.order().map_values(|k: Seq<u8>| self@.nodes[k]);
        assert(nodes_view(r@) =~= want.take(0));
        while i < n
            invariant
                self.wf(),
                n == self.order().len(),
                i <= n,
                want == self.order().map_values(|k: Seq<u8>| self@.nodes[k]),
                nodes_view(r@) == want.take(i as int),
            decreases n - i,
        {
            let ghost before = r@;
            let x = self.nodes.value_at(i).clone();
            r.push(x);
            proof {
                assert(nodes_view(r@) =~= nodes_view(before).push(x@));
                assert(want.take(i + 1) =~= want.take(i as int).push(want[i as int]));
            }
            i += 1;
        }
        assert(want.take(n as int) =~= want);
        r
    }

    /// Number of nodes.
    pub fn len(&self) -> (n: usize)
        requires
            self.wf(),
        ensures
            n == self@.nodes.dom().len(),
    {
        proof {
            self.lemma_model();
        }
        self.nodes.len()
    }

    /// Publishes a change of `node`.
    fn publish(&mut self, node: NodeInfo) -> (event: NodeEvent)
        requires
            old(self).wf(),
            old(self)@.next < u64::MAX,
        ensures
            final(self).wf(),
            final(self).order() == old(self).order(),
            final(self)@ == old(self)@.publish(node@),
            event@ == old(self)@.event(node@),
    {
        let sequence: u64 = self.next_sequence;
        self.next_sequence = sequence + 1;
        let event = NodeEvent { sequence, node: Some(node) };
        let ghost b0 = self.replay_buffer@;
        if self.replay_buffer.len() == REPLAY_BUFFER_CAPACITY {
            self.replay_buffer.pop_front();
            assert(events_view(self.replay_buffer@) =~= events_view(b0).skip(1));
        }
        let ghost b1 = self.replay_buffer@;
        let copy = event.clone();
        self.replay_buffer.push_back(copy);
        proof {
            assert(events_view(self.replay_buffer@) =~= events_view(b1).push(copy@));
            assert(self@ =~= old(self)@.publish(node@));
            law_publish_keeps_wf(old(self)@, node@);
        }
        event
    }

    /// The number of the oldest buffered event.
    pub fn oldest_buffered_sequence(&self) -> (r: Option<u64>)
        requires
            self.wf(),
        ensures
            match r {
                Some(s) => self@.buffer.len() > 0 && s == self@.buffer[0].sequence,
                None => self@.buffer.len() == 0,
            },
    {
        if self.replay_buffer.len() == 0 {
            None
        } else {
            assert(events_view(self.replay_buffer@)[0] == self.replay_buffer@[0]@);
            Some(self.replay_buffer[0].sequence)
        }
    }

    /// The buffered events behind a sequence number.
    pub fn buffered_after(&self, after_sequence: u64) -> (r: Vec<NodeEvent>)
        requires
            self.wf(),
        ensures
            events_view(r@) == self@.after(after_sequence),
    {
        let mut r: Vec<NodeEvent> = Vec::new();
        let n: usize = self.replay_buffer.len();
        let mut i: usize = 0;
        let ghost all = self@.buffer;
        let ghost p = |e: EventModel| e.sequence > after_sequence;
        proof {
            reveal(Seq::filter);
            assert(all.take(0) =~= Seq::<EventModel>::empty());
            assert(events_view(r@) =~= all.take(0).filter(p));
        }
        while i < n
            invariant
                n == self.replay_buffer@.len(),
                all == events_view(self.replay_buffer@),
                p == (|e: EventModel| e.sequence > after_sequence),
                i <= n,
                events_view(r@) == all.take(i as int).filter(p),
            decreases n - i,
        {
            let ghost before = r@;
            proof {
                reveal(Seq::filter);
                assert(all.take(i + 1).drop_last() =~= all.take(i as int));
                assert(all.take(i + 1).last() == self.replay_buffer@[i as int]@);
            }
            if self.replay_buffer[i].sequence > after_sequence {
                let x = self.replay_buffer[i].clone();
                r.push(x);
                assert(events_view(r@) =~= events_view(before).push(x@));
            }
            i += 1;
        }
        assert(all.take(n as int) =~= all);
        r
    }

    /// Marks every node in use that was last heard of before `deadline_ms` as gone, and
    /// publishes each. Nodes on their way out or gone are left alone.
    pub fn expire_stale(&mut self, deadline_ms: u64) -> (r: Published)
        requires
            old(self).wf(),
            old(self)@.next + old(self)@.nodes.dom().len() <= u64::MAX,
        ensures
            final(self).wf(),
            final(self).order() == old(self).order(),
            ({
                let gone = flipped(old(self)@.nodes, old(self).order(), deadline_ms);
                let m = RegistryModel {
                    nodes: expire_ids(
                        old(self)@.nodes,
                        old(self)@.nodes.dom(),
                        deadline_ms,
                    ),
                    ..old(self)@
                };
                &&& final(self)@ == m.publish_all(gone)
                &&& events_view(r.events@) == m.events(gone)
                &&& r.metrics == (NodeMetrics {
                    registered: 0,
                    alive_added: 0,
                    alive_removed: gone.len() as u64,
                    events: gone.len() as u64,
                    heartbeats: 0,
                })
                &&& gone.len() <= u64::MAX
            }),
    {
        proof {
            self.lemma_model();
        }
        let ghost nodes0 = self@.nodes;
        let ghost ids = self.order();
        let mut gone: Vec<NodeInfo> = Vec::new();
        let n: usize = self.nodes.len();
        let mut i: usize = 0;
        proof {
            assert(ids.take(0) =~= Seq::<Seq<u8>>::empty());
            assert(nodes_view(gone@) =~= flipped(nodes0, ids.take(0), deadline_ms));
            assert(self@.nodes =~= expire_ids(nodes0, ids.take(0).to_set(), deadline_ms));
        }
        while i < n
            invariant
                self.wf(),
                n == ids.len(),
                i <= n,
                ids == self.order(),
                ids == old(self).order(),
                ids.no_duplicates(),
                ids.to_set() == nodes0.dom(),
                nodes0 == old(self)@.nodes,
                self@.session == old(self)@.session,
                self@.buffer == old(self)@.buffer,
                self@.next == old(self)@.next,
                gone@.len() <= i,
                nodes_view(gone@) == flipped(nodes0, ids.take(i as int), deadline_ms),
                self@.nodes == expire_ids(nodes0, ids.take(i as int).to_set(), deadline_ms),
            decreases n - i,
        {
            let ghost k = ids[i as int];
            let ghost done = ids.take(i as int);
            let ghost before = self@;
            let ghost gone0 = gone@;
            proof {
                assert(ids.take(i + 1) =~= done.push(k));
                assert(ids.take(i + 1).drop_last() =~= done);
                assert(!done.to_set().contains(k)) by {
                    if done.contains(k) {
                        let j = done.index_of(k);
                        assert(ids[j] == k && ids[i as int] == k);
                    }
                }
                assert(ids.to_set().contains(k));
                assert(self@.nodes[k] == nodes0[k]);
                assert(ids.take(i + 1).last() == k);
                lemma_push_to_set(done, k);
            }
            let info = self.nodes.value_at(i);
            assert(info@ == nodes0[k]);
            if info.status == NodeStatus::Alive.code() && info.last_heartbeat_unix_ms < deadline_ms {
                let mut dead = info.clone();
                dead.status = NodeStatus::Dead.code();
                let copy = dead.clone();
                self.nodes.set_value_at(i, dead);
                gone.push(copy);
                proof {
                    assert(self@.nodes =~= before.nodes.insert(k, copy@));
                    assert(nodes_view(gone@) =~= nodes_view(gone0).push(copy@));
                }
            }
            proof {
                assert(self@.nodes =~= expire_ids(nodes0, ids.take(i + 1).to_set(), deadline_ms));
            }
            i += 1;
        }
        proof {
            assert(ids.take(n as int) =~= ids);
            assert(ids.len() == nodes0.dom().len());
        }
        let ghost m = self@;
        let ghost all = nodes_view(gone@);
        let count: usize = gone.len();
        let mut events: Vec<NodeEvent> = Vec::new();
        let mut j: usize = 0;
        proof {
            assert(all.take(0) =~= Seq::<NodeModel>::empty());
            assert(events_view(events@) =~= m.events(all.take(0)));
        }
        while j < count
            invariant
                self.wf(),
                self.order() == ids,
                j <= count,
                count == gone@.len(),
                all == nodes_view(gone@),
                m.next + count <= u64::MAX,
                self@ == m.publish_all(all.take(j as int)),
                self@.next == m.next + j,
                events_view(events@) == m.events(all.take(j as int)),
            decreases count - j,
        {
            let ghost events0 = events@;
            proof {
                assert(all.take(j + 1).drop_last() =~= all.take(j as int));
                assert(all.take(j + 1).last() == gone@[j as int]@);
            }
            let event = self.publish(gone[j].clone());
            events.push(event);
            proof {
                assert(events_view(events@) =~= events_view(events0).push(event@));
                assert(m.events(all.take(j + 1)) =~= m.events(all.take(j as int)).push(event@));
            }
            j += 1;
        }
        proof {
            assert(all.take(count as int) =~= all);
        }
        let mut metrics = no_metrics();
        metrics.events = count as u64;
        metrics.alive_removed = count as u64;
        Published { events, metrics }
    }

    /// Takes a node in under `node_id` at time `now_ms`.
    pub fn register_as(&mut self, req: RegisterRequest, node_id: [u8; 16], now_ms: u64) -> (r:
        Result<Registered, Status>)
        requires
            old(self).wf(),
            old(self)@.next < u64::MAX,
        ensures
            final(self).wf(),
            match r {
                Ok(done) => {
                    let node = registered_node(req, node_id@, now_ms);
                    &&& req.host@.len() > 0
                    &&& final(self)@ == old(self)@.with_node(node_id@, node).publish(node)
                    &&& final(self).order() == (if old(self)@.nodes.contains_key(node_id@) {
                        old(self).order()
                    } else {
                        old(self).order().push(node_id@)
                    })
                    &&& done.node_id@ == node_id@
                    &&& done.cluster_session_id@ == old(self)@.session
                    &&& done.event@ == old(self)@.event(node)
                    &&& done.metrics == (NodeMetrics {
                        registered: 1,
                        alive_added: 1,
                        alive_removed: 0,
                        events: 1,
                        heartbeats: 0,
                    })
                },
                Err(e) => {
                    &&& req.host@.len() == 0
                    &&& e@ == (RpcCode::InvalidArgument, "host must not be empty"@)
                    &&& *final(self) == *old(self)
                },
            },
    {
        if req.host.as_str().unicode_len() == 0 {
            return Err(Status::invalid_argument("host must not be empty"));
        }
        let info = NodeInfo {
            address: Some(
                NodeAddress {
                    host: req.host,
                    port: req.port,
                    node_id: copy_bytes(&node_id),
                    plasma_socket: req.plasma_socket,
                },
            ),
            resources: req.resources,
            status: NodeStatus::Alive.code(),
            registered_at_unix_ms: now_ms,
            last_heartbeat_unix_ms: now_ms,
        };
        let ghost node = registered_node(req, node_id@, now_ms);
        let copy = info.clone();
        self.nodes.insert(node_id, copy);
        proof {
            assert(node_id@ =~= info.address->0.node_id@);
            assert(copy@ == node);
            assert(self@ =~= old(self)@.with_node(node_id@, node));
        }
        let event = self.publish(info);
        let mut metrics = no_metrics();
        metrics.registered = 1;
        metrics.alive_added = 1;
        metrics.events = 1;
        Ok(Registered { node_id, cluster_session_id: self.cluster_session_id, event, metrics })
    }

    /// Takes a node in, under a fresh random identifier, at the present time.
    pub fn register(&mut self, req: RegisterRequest) -> (r: Result<Registered, Status>)
        requires
            old(self).wf(),
            old(self)@.next < u64::MAX,
        ensures
            final(self).wf(),
            match r {
                Ok(done) => {
                    &&& req.host@.len() > 0
                    &&& exists|now: u64|
                        {
                            let node = #[trigger] registered_node(req, done.node_id@, now);
                            &&& final(self)@ == old(self)@.with_node(done.node_id@, node).publish(
                                node,
                            )
                            &&& done.event@ == old(self)@.event(node)
                        }
                    &&& done.cluster_session_id@ == old(self)@.session
                    &&& done.metrics == (NodeMetrics {
                        registered: 1,
                        alive_added: 1,
                        alive_removed: 0,
                        events: 1,
                        heartbeats: 0,
                    })
                },
                Err(e) => {
                    &&& req.host@.len() == 0
                    &&& e@ == (RpcCode::InvalidArgument, "host must not be empty"@)
                    &&& *final(self) == *old(self)
                },
            },
    {
        let node_id: [u8; 16] = random_bytes();
        let now: u64 = unix_ms();
        let r = self.register_as(req, node_id, now);
        proof {
            let node = registered_node(req, node_id@, now);
        }
        r
    }

    /// Puts a node on its way out.
    pub fn drain(&mut self, node_id: &[u8]) -> (r: Result<Published, Status>)
        requires
            old(self).wf(),
            old(self)@.next < u64::MAX,
        ensures
            final(self).wf(),
            final(self).order() == old(self).order(),
            match r {
                Ok(done) => {
                    let was = old(self)@.nodes[node_id@];
                    let node = NodeModel { status: 2, ..was };
                    &&& node_id@.len() == 16
                    &&& old(self)@.nodes.contains_key(node_id@)
                    &&& final(self)@ == old(self)@.with_node(node_id@, node).publish(node)
                    &&& events_view(done.events@) == seq![old(self)@.event(node)]
                    &&& done.metrics == (NodeMetrics {
                        registered: 0,
                        alive_added: 0,
                        alive_removed: alive_weight(was) as u64,
                        events: 1,
                        heartbeats: 0,
                    })
                },
                Err(e) => *final(self) == *old(self) && if node_id@.len() != 16 {
                    e@ == (
                        RpcCode::InvalidArgument,
                        status::wrong_id_length("node_id"@, 16, node_id@.len()),
                    )
                } else {
                    !old(self)@.nodes.contains_key(node_id@) && e@ == (
                        RpcCode::NotFound,
                        "unknown node_id"@,
                    )
                },
            },
    {
        let id: [u8; 16] = match parse_id(node_id, "node_id") {
            Ok(id) => id,
            Err(e) => return Err(e),
        };
        proof {
            self.lemma_model();
        }
        let mut info = match self.nodes.get(&id) {
            None => return Err(Status::not_found("unknown node_id")),
            Some(info) => info.clone(),
        };
        let was_alive = info.status == NodeStatus::Alive.code();
        assert(info@ == self@.nodes[id@]);
        info.status = NodeStatus::Draining.code();
        let copy = info.clone();
        self.nodes.insert(id, copy);
        proof {
            assert(self@ =~= old(self)@.with_node(id@, copy@));
        }
        let event = self.publish(info);
        let mut metrics = no_metrics();
        metrics.events = 1;
        if was_alive {
            metrics.alive_removed = 1;
        }
        let mut events: Vec<NodeEvent> = Vec::new();
        events.push(event);
        assert(events_view(events@) =~= seq![event@]);
        Ok(Published { events, metrics })
    }

    /// Notes that a node was heard of at time `now_ms`.
    pub fn heartbeat_at(&mut self, node_id: &[u8], now_ms: u64) -> (r: Result<NodeMetrics, Status>)
        requires
            old(self).wf(),
        ensures
            final(self).wf(),
            final(self).order() == old(self).order(),
            match r {
                Ok(metrics) => {
                    &&& node_id@.len() == 16
                    &&& old(self)@.nodes.contains_key(node_id@)
                    &&& final(self)@ == old(self)@.with_node(
                        node_id@,
                        heard_of(old(self)@.nodes[node_id@], now_ms),
                    )
                    &&& metrics == (NodeMetrics {
                        registered: 0,
                        alive_added: 0,
                        alive_removed: 0,
                        events: 0,
                        heartbeats: 1,
                    })
                },
                Err(e) => *final(self) == *old(self) && if node_id@.len() != 16 {
                    e@ == (
                        RpcCode::InvalidArgument,
                        status::wrong_id_length("node_id"@, 16, node_id@.len()),
                    )
                } else {
                    !old(self)@.nodes.contains_key(node_id@) && e@ == (
                        RpcCode::NotFound,
                        "unknown node_id"@,
                    )
                },
            },
    {
        let id: [u8; 16] = match parse_id(node_id, "node_id") {
            Ok(id) => id,
            Err(e) => return Err(e),
        };
        proof {
            self.lemma_model();
        }
        let mut info = match self.nodes.get(&id) {
            None => return Err(Status::not_found("unknown node_id")),
            Some(info) => info.clone(),
        };
        assert(info@ == self@.nodes[id@]);
        info.last_heartbeat_unix_ms = now_ms;
        self.nodes.insert(id, info);
        proof {
            assert(self@ =~= old(self)@.with_node(id@, info@));
        }
        let mut metrics = no_metrics();
        metrics.heartbeats = 1;
        Ok(metrics)
    }

    /// Notes that a node was heard of just now.
    pub fn heartbeat(&mut self, node_id: &[u8]) -> (r: Result<NodeMetrics, Status>)
        requires
            old(self).wf(),
        ensures
            final(self).wf(),
            final(self).order() == old(self).order(),
            match r {
                Ok(metrics) => {
                    &&& node_id@.len() == 16
                    &&& old(self)@.nodes.contains_key(node_id@)
                    &&& exists|now: u64|
                        final(self)@ == old(self)@.with_node(
                            node_id@,
                            #[trigger] heard_of(old(self)@.nodes[node_id@], now),
                        )
                    &&& metrics == (NodeMetrics {
                        registered: 0,
                        alive_added: 0,
                        alive_removed: 0,
                        events: 0,
                        heartbeats: 1,
                    })
                },
                Err(e) => *final(self) == *old(self) && if node_id@.len() != 16 {
                    e@ == (
                        RpcCode::InvalidArgument,
                        status::wrong_id_length("node_id"@, 16, node_id@.len()),
                    )
                } else {
                    !old(self)@.nodes.contains_key(node_id@) && e@ == (
                        RpcCode::NotFound,
                        "unknown node_id"@,
                    )
                },
            },
    {
        let now: u64 = unix_ms();
        self.heartbeat_at(node_id, now)
    }

    /// All nodes as events with sequence number 0.
    pub fn snapshot_as_events(&self) -> (r: Vec<NodeEvent>)
        requires
            self.wf(),
        ensures
            events_view(r@) == snapshot_events(self@.nodes, self.order()),
    {
        let nodes = self.snapshot();
        let n: usize = nodes.len();
        let mut r: Vec<NodeEvent> = Vec::new();
        let mut i: usize = 0;
        let ghost want = snapshot_events(self@.nodes, self.order());
        assert(events_view(r@) =~= want.take(0));
        while i < n
            invariant
                n == nodes@.len(),
                i <= n,
                nodes_view(nodes@) == self.order().map_values(|k: Seq<u8>| self@.nodes[k]),
                want == snapshot_events(self@.nodes, self.order()),
                events_view(r@) == want.take(i as int),
            decreases n - i,
        {
            let ghost before = r@;
            let x = NodeEvent { sequence: 0, node: Some(nodes[i].clone()) };
            r.push(x);
            proof {
                assert(nodes_view(nodes@)[i as int] == nodes@[i as int]@);
                assert(nodes_view(nodes@).len() == nodes@.len());
                assert(want[i as int] == x@);
                assert(events_view(r@) =~= events_view(before).push(x@));
                assert(want.take(i + 1) =~= want.take(i as int).push(x@));
            }
            i += 1;
        }
        proof {
            assert(nodes_view(nodes@).len() == nodes@.len());
            assert(want.take(n as int) =~= want);
        }
        r
    }

    /// Begins a subscription behind `last_seen_sequence`: with a snapshot where that is 0,
    /// else with the events that were published since, unless some of them are gone.
    pub fn watch_nodes(&self, last_seen_sequence: u64) -> (r: Result<WatchStart, Status>)
        requires
            self.wf(),
            last_seen_sequence < u64::MAX,
        ensures
            match r {
                Ok(start) => {
                    &&& !behind_buffer(self@, last_seen_sequence)
                    &&& events_view(start.catchup@) == catchup(
                        self@,
                        self.order(),
                        last_seen_sequence,
                    )
                    &&& start.highest_catchup_sequence == highest(
                        catchup(self@, self.order(), last_seen_sequence),
                    )
                },
                Err(e) => {
                    &&& behind_buffer(self@, last_seen_sequence)
                    &&& e@ == (
                        RpcCode::OutOfRange,
                        "last_seen_sequence "@ + text::decimal_text(last_seen_sequence as nat)
                            + " is older than the buffer floor "@ + text::decimal_text(
                            self@.buffer[0].sequence as nat,
                        ),
                    )
                },
            },
    {
        let catchup = if last_seen_sequence == 0 {
            self.snapshot_as_events()
        } else {
            match self.oldest_buffered_sequence() {
                Some(oldest) if last_seen_sequence + 1 < oldest => {
                    let mut message = with_number(
                        "last_seen_sequence ",
                        last_seen_sequence,
                        " is older than the buffer floor ",
                    );
                    push_decimal(&mut message, oldest);
                    return Err(Status::new(RpcCode::OutOfRange, message));
                },
                _ => self.buffered_after(last_seen_sequence),
            }
        };
        let n: usize = catchup.len();
        assert(events_view(catchup@).len() == n);
        let highest_catchup_sequence: u64 = if n == 0 {
            0
        } else {
            assert(events_view(catchup@)[n - 1] == catchup@[n - 1]@);
            catchup[n - 1].sequence
        };
        Ok(WatchStart { catchup, highest_catchup_sequence })
    }
}

/// What a live subscriber hears: an event, or that it fell behind.
#[derive(Debug)]
pub enum LiveItem {
    /// An event.
    Event(NodeEvent),
    /// Events were lost.
    Lagged,
}

/// What is passed on of a live item to a subscriber whose catch-up ended at
/// `highest_catchup_sequence`: an event that was not part of it; a failure where events
/// were lost.
pub fn pass_live(item: LiveItem, highest_catchup_sequence: u64) -> (r: Option<
    Result<NodeEvent, Status>,
>)
    ensures
        match item {
            LiveItem::Event(e) => r == (if e.sequence > highest_catchup_sequence {
                Some(Ok::<NodeEvent, Status>(e))
            } else {
                None
            }),
            LiveItem::Lagged => r matches Some(Err(e)) && e@ == (
                RpcCode::OutOfRange,
                "subscriber lagged past broadcast capacity; reconnect with last_seen=0"@,
            ),
        },
{
    match item {
        LiveItem::Event(e) => if e.sequence > highest_catchup_sequence {
            Some(Ok(e))
        } else {
            None
        },
        LiveItem::Lagged => Some(
            Err(
                Status::new(
                    RpcCode::OutOfRange,
                    "subscriber lagged past broadcast capacity; reconnect with last_seen=0".to_owned(),
                ),
            ),
        ),
    }
}

/// A node that was heard of at time `now`.
pub open spec fn heard_of(node: NodeModel, now: u64) -> NodeModel {
    NodeModel { last_heartbeat: now, ..node }
}

/// The node that a request registers.
pub open spec fn registered_node(req: RegisterRequest, node_id: Seq<u8>, now: u64) -> NodeModel {
    NodeModel {
        address: Some(
            NodeAddressModel {
                host: req.host@,
                port: req.port,
                node_id,
                plasma_socket: req.plasma_socket@,
            },
        ),
        resources: req.resources,
        status: 1,
        registered_at: now,
        last_heartbeat: now,
    }
}

/// All nodes as events with sequence number 0.
pub open spec fn snapshot_events(nodes: Map<Seq<u8>, NodeModel>, order: Seq<Seq<u8>>) -> Seq<
    EventModel,
> {
    order.map_values(|k: Seq<u8>| EventModel { sequence: 0, node: Some(nodes[k]) })
}

/// Whether events behind `last_seen` are gone from the buffer.
pub open spec fn behind_buffer(m: RegistryModel, last_seen: u64) -> bool {
    last_seen != 0 && m.buffer.len() > 0 && last_seen + 1 < m.buffer[0].sequence
}

/// What a subscriber behind `last_seen` gets first.
pub open spec fn catchup(m: RegistryModel, order: Seq<Seq<u8>>, last_seen: u64) -> Seq<EventModel> {
    if last_seen == 0 {
        snapshot_events(m.nodes, order)
    } else {
        m.after(last_seen)
    }
}

/// The number of the last event; 0 where there is none.
pub open spec fn highest(events: Seq<EventModel>) -> u64 {
    if events.len() == 0 {
        0
    } else {
        events.last().sequence
    }
}

/// The set of a sequence with one more element.
proof fn lemma_push_to_set(s: Seq<Seq<u8>>, x: Seq<u8>)
    ensures
        s.push(x).to_set() == s.to_set().insert(x),
{
    let t = s.push(x);
    assert(t.to_set() =~= s.to_set().insert(x)) by {
        assert forall|y: Seq<u8>| t.contains(y) == (s.contains(y) || y == x) by {
            if s.contains(y) {
                let j = s.index_of(y);
                assert(t[j] == y);
            }
            assert(t[s.len() as int] == x);
            if t.contains(y) && y != x {
                let j = t.index_of(y);
                assert(s[j] == y);
            }
        }
    }
}

/// Publishing keeps the buffer in order.
pub proof fn law_publish_keeps_wf(m: RegistryModel, node: NodeModel)
    requires
        m.wf(),
        m.next < u64::MAX,
    ensures
        m.publish(node).wf(),
{
}

/// Publishing several events keeps the buffer in order, takes as many numbers, and leaves
/// nodes and session alone.
pub proof fn law_publish_all_keeps_wf(m: RegistryModel, nodes: Seq<NodeModel>)
    requires
        m.wf(),
        m.next + nodes.len() <= u64::MAX,
    ensures
        m.publish_all(nodes).wf(),
        m.publish_all(nodes).next == m.next + nodes.len(),
        m.publish_all(nodes).nodes == m.nodes,
        m.publish_all(nodes).session == m.session,
    decreases nodes.len(),
{
    if nodes.len() > 0 {
        law_publish_all_keeps_wf(m, nodes.drop_last());
        law_publish_keeps_wf(m.publish_all(nodes.drop_last()), nodes.last());
    }
}

/// Filtering a suffix-closed condition keeps a suffix.
proof fn lemma_filter_suffix(s: Seq<EventModel>, p: spec_fn(EventModel) -> bool, cut: int)
    requires
        0 <= cut <= s.len(),
        forall|i: int| 0 <= i < cut ==> !p(#[trigger] s[i]),
        forall|i: int| cut <= i < s.len() ==> p(#[trigger] s[i]),
    ensures
        s.filter(p) == s.skip(cut),
    decreases s.len(),
{
    reveal(Seq::filter);
    if s.len() == 0 {
        assert(s.filter(p) =~= s.skip(cut));
    } else if cut == s.len() {
        lemma_filter_suffix(s.drop_last(), p, cut - 1);
        assert(s.drop_last().skip(cut - 1) =~= s.skip(cut));
    } else {
        lemma_filter_suffix(s.drop_last(), p, cut);
        assert(s.drop_last().skip(cut).push(s.last()) =~= s.skip(cut));
    }
}

/// A subscriber that comes back behind an event that was published, and is not refused,
/// catches up with every event since, once each and in order.
pub proof fn law_resume_is_complete(m: RegistryModel, order: Seq<Seq<u8>>, last_seen: u64)
    requires
        m.wf(),
        0 < last_seen < m.next,
        !behind_buffer(m, last_seen),
    ensures
        ({
            let events = catchup(m, order, last_seen);
            &&& events.len() == m.next - 1 - last_seen
            &&& forall|i: int|
                0 <= i < events.len() ==> (#[trigger] events[i]).sequence == last_seen + 1 + i
            &&& events == m.buffer.skip(m.buffer.len() - events.len())
        }),
{
    let p = |e: EventModel| e.sequence > last_seen;
    let cut = m.buffer.len() - (m.next - 1 - last_seen);
    lemma_filter_suffix(m.buffer, p, cut);
}

/// A subscriber is refused exactly when an event that it has not seen has left the buffer.
pub proof fn law_refused_iff_lost(m: RegistryModel, last_seen: u64)
    requires
        m.wf(),
        0 < last_seen < m.next,
    ensures
        behind_buffer(m, last_seen) == (m.next - 1 - last_seen > m.buffer.len()),
{
}

/// Of the events that are published after a subscriber caught up behind an event, each is
/// passed on; of those before, which the catch-up holds, none is.
pub proof fn law_live_tail_joins(m: RegistryModel, order: Seq<Seq<u8>>, last_seen: u64, sequence: u64)
    requires
        m.wf(),
        0 < last_seen < m.next,
        !behind_buffer(m, last_seen),
        last_seen < sequence,
    ensures
        ({
            let events = catchup(m, order, last_seen);
            let passed = sequence > highest(events);
            let caught_up = exists|i: int|
                0 <= i < events.len() && (#[trigger] events[i]).sequence == sequence;
            &&& passed == !caught_up
            &&& caught_up == (sequence < m.next)
        }),
{
    law_resume_is_complete(m, order, last_seen);
    let events = catchup(m, order, last_seen);
    if sequence < m.next {
        assert(events[sequence - last_seen - 1].sequence == sequence);
        assert(events.last() == events[events.len() - 1]);
    }
}

/// After a snapshot every live event is passed on.
pub proof fn law_snapshot_passes_all(m: RegistryModel, order: Seq<Seq<u8>>, sequence: u64)
    requires
        m.wf(),
        sequence >= 1,
    ensures
        sequence > highest(catchup(m, order, 0)),
{
}

/// The number of nodes that expire.
proof fn lemma_flipped_count(nodes: Map<Seq<u8>, NodeModel>, ids: Seq<Seq<u8>>, deadline: u64)
    requires
        nodes.dom().finite(),
        ids.no_duplicates(),
        forall|i: int| 0 <= i < ids.len() ==> nodes.contains_key(#[trigger] ids[i]),
    ensures
        sums::map_sum(nodes, |n: NodeModel| alive_weight(n)) == sums::map_sum(
            expire_ids(nodes, ids.to_set(), deadline),
            |n: NodeModel| alive_weight(n),
        ) + flipped(nodes, ids, deadline).len(),
        expire_ids(nodes, ids.to_set(), deadline).dom() == nodes.dom(),
    decreases ids.len(),
{
    let f = |n: NodeModel| alive_weight(n);
    let after = expire_ids(nodes, ids.to_set(), deadline);
    assert(after.dom() =~= nodes.dom());
    if ids.len() == 0 {
        assert(after =~= nodes);
    } else {
        let rest = ids.drop_last();
        let k = ids.last();
        lemma_flipped_count(nodes, rest, deadline);
        let mid = expire_ids(nodes, rest.to_set(), deadline);
        assert(ids =~= rest.push(k));
        lemma_push_to_set(rest, k);
        assert(!rest.contains(k));
        assert(mid[k] == nodes[k]);
        assert(after =~= mid.insert(k, expired(nodes[k], deadline)));
        sums::lemma_sum_insert(mid, f, k, expired(nodes[k], deadline));
        sums::lemma_sum_remove(mid, f, k);
    }
}

/// The counts of nodes that come into use and go out of it keep the number of nodes in
/// use: when a new node registers, when a node drains, when it is heard of, and when stale
/// nodes expire.
pub proof fn law_alive_count(
    m: RegistryModel,
    id: Seq<u8>,
    node: NodeModel,
    now: u64,
    order: Seq<Seq<u8>>,
    deadline: u64,
)
    requires
        m.nodes.dom().finite(),
        order.no_duplicates(),
        order.to_set() == m.nodes.dom(),
    ensures
        !m.nodes.contains_key(id) && node.status == 1 ==> m.with_node(id, node).publish(node).alive()
            == m.alive() + 1,
        m.nodes.contains_key(id) ==> {
            let was = m.nodes[id];
            let drained = NodeModel { status: 2, ..was };
            let heard = NodeModel { last_heartbeat: now, ..was };
            &&& m.with_node(id, drained).publish(drained).alive() + alive_weight(was) == m.alive()
            &&& m.with_node(id, heard).alive() == m.alive()
        },
        (RegistryModel { nodes: expire_ids(m.nodes, m.nodes.dom(), deadline), ..m }).alive()
            + flipped(m.nodes, order, deadline).len() == m.alive(),
{
    let f = |n: NodeModel| alive_weight(n);
    sums::lemma_sum_insert(m.nodes, f, id, node);
    if m.nodes.contains_key(id) {
        let was = m.nodes[id];
        sums::lemma_sum_insert(m.nodes, f, id, NodeModel { status: 2, ..was });
        sums::lemma_sum_insert(m.nodes, f, id, NodeModel { last_heartbeat: now, ..was });
        sums::lemma_sum_remove(m.nodes, f, id);
    } else {
        assert(m.nodes.remove(id) =~= m.nodes);
    }
    assert forall|i: int| 0 <= i < order.len() implies m.nodes.contains_key(#[trigger] order[i]) by {
        assert(order.to_set().contains(order[i]));
    }
    lemma_flipped_count(m.nodes, order, deadline);
}

/// Expiry changes exactly the nodes in use that were last heard of before the deadline,
/// and of these only the status: a node on its way out stays so, and one that was heard
/// of in time stays in use.
pub proof fn law_expiry_is_exact(nodes: Map<Seq<u8>, NodeModel>, id: Seq<u8>, deadline: u64)
    requires
        nodes.contains_key(id),
    ensures
        ({
            let after = expire_ids(nodes, nodes.dom(), deadline);
            &&& after.contains_key(id)
            &&& after[id].status == (if nodes[id].status == 1 && nodes[id].last_heartbeat
                < deadline {
                3
            } else {
                nodes[id].status
            })
            &&& after[id] == (NodeModel { status: after[id].status, ..nodes[id] })
        }),
{
}

/// What expired once does not expire again at the same deadline.
pub proof fn law_expiry_is_idempotent(
    nodes: Map<Seq<u8>, NodeModel>,
    order: Seq<Seq<u8>>,
    deadline: u64,
)
    requires
        forall|i: int| 0 <= i < order.len() ==> nodes.contains_key(#[trigger] order[i]),
    ensures
        flipped(expire_ids(nodes, nodes.dom(), deadline), order, deadline).len() == 0,
        expire_ids(expire_ids(nodes, nodes.dom(), deadline), nodes.dom(), deadline) == expire_ids(
            nodes,
            nodes.dom(),
            deadline,
        ),
    decreases order.len(),
{
    let after = expire_ids(nodes, nodes.dom(), deadline);
    assert(expire_ids(after, nodes.dom(), deadline) =~= after);
    if order.len() > 0 {
        law_expiry_is_idempotent(nodes, order.drop_last(), deadline);
        assert(nodes.contains_key(order[order.len() - 1]));
        assert(!stale(after[order.last()], deadline));
    }
}

/// A node that registered is listed as it registered, comes first-hand to a subscriber
/// that starts with a snapshot, and is the last event of the buffer.
pub proof fn law_registered_is_listed(
    m: RegistryModel,
    order: Seq<Seq<u8>>,
    req: RegisterRequest,
    id: Seq<u8>,
    now: u64,
)
    requires
        m.wf(),
        order.to_set() == m.nodes.dom(),
        m.next < u64::MAX,
    ensures
        ({
            let node = registered_node(req, id, now);
            let after = m.with_node(id, node).publish(node);
            let listed = if m.nodes.contains_key(id) {
                order
            } else {
                order.push(id)
            };
            &&& after.nodes[id] == node
            &&& catchup(after, listed, 0).contains(EventModel { sequence: 0, node: Some(node) })
            &&& after.buffer.last() == m.event(node)
        }),
{
    let node = registered_node(req, id, now);
    let after = m.with_node(id, node).publish(node);
    let listed = if m.nodes.contains_key(id) {
        order
    } else {
        order.push(id)
    };
    let at = if m.nodes.contains_key(id) {
        assert(order.to_set().contains(id));
        order.index_of(id)
    } else {
        order.len() as int
    };
    assert(listed[at] == id);
    assert(catchup(after, listed, 0)[at] == (EventModel { sequence: 0, node: Some(node) }));
}

/// The session stays the same whatever happens to nodes.
pub proof fn law_session_is_fixed(m: RegistryModel, id: Seq<u8>, node: NodeModel)
    ensures
        m.with_node(id, node).session == m.session,
        m.publish(node).session == m.session,
{
}

/// A heartbeat changes nothing of a node but the time it was last heard of: a node on its way
/// out stays so, and one that is gone does not come back.
pub proof fn law_heartbeat_keeps_the_node(m: RegistryModel, id: Seq<u8>, other: Seq<u8>, now: u64)
    requires
        m.nodes.contains_key(id),
    ensures
        ({
            let after = m.with_node(id, heard_of(m.nodes[id], now));
            &&& after.nodes[id].last_heartbeat == now
            &&& after.nodes[id].status == m.nodes[id].status
            &&& after.nodes[id].address == m.nodes[id].address
            &&& after.nodes[id].resources == m.nodes[id].resources
            &&& after.nodes[id].registered_at == m.nodes[id].registered_at
            &&& after.nodes.contains_key(other) == m.nodes.contains_key(other)
            &&& other != id && m.nodes.contains_key(other) ==> after.nodes[other] == m.nodes[other]
            &&& after.buffer == m.buffer
            &&& after.next == m.next
        }),
{
}

/// A node registers with the address, the socket and the resources of its request, in use, and
/// heard of at that time.
pub proof fn law_registration_keeps_the_request(req: RegisterRequest, node_id: Seq<u8>, now: u64)
    ensures
        ({
            let node = registered_node(req, node_id, now);
            &&& node.address matches Some(a) && a.host == req.host@ && a.port == req.port
                && a.node_id == node_id && a.plasma_socket == req.plasma_socket@
            &&& node.resources == req.resources
            &&& NodeStatus::of_code(node.status) == NodeStatus::Alive
            &&& node.registered_at == now
            &&& node.last_heartbeat == now
        }),
{
}

/// Taking a node in leaves the other nodes, the events and the session alone.
pub proof fn law_nodes_are_independent(m: RegistryModel, id: Seq<u8>, node: NodeModel, other: Seq<u8>)
    ensures
        m.with_node(id, node).nodes.contains_key(id),
        m.with_node(id, node).nodes[id] == node,
        other != id ==> m.with_node(id, node).nodes.contains_key(other) == m.nodes.contains_key(
            other,
        ),
        other != id && m.nodes.contains_key(other) ==> m.with_node(id, node).nodes[other]
            == m.nodes[other],
        m.with_node(id, node).buffer == m.buffer,
        m.with_node(id, node).next == m.next,
{
}

/// A published event gets the next number and carries the node; the events before it stay, but
/// for the oldest one where the buffer is full.
pub proof fn law_publish_appends(m: RegistryModel, node: NodeModel)
    requires
        m.wf(),
        m.next < u64::MAX,
    ensures
        m.event(node).sequence == m.next,
        m.event(node).node == Some(node),
        m.publish(node).next == m.next + 1,
        m.publish(node).nodes == m.nodes,
        m.publish(node).buffer.last() == m.event(node),
        m.buffer.len() < REPLAY_BUFFER_CAPACITY ==> m.publish(node).buffer.drop_last() == m.buffer,
        m.buffer.len() == REPLAY_BUFFER_CAPACITY ==> m.publish(node).buffer.drop_last()
            == m.buffer.skip(1),
        m.publish(node).buffer.len() <= 1024,
{
    if m.buffer.len() < REPLAY_BUFFER_CAPACITY {
        assert(m.publish(node).buffer.drop_last() =~= m.buffer);
    } else {
        assert(m.publish(node).buffer.drop_last() =~= m.buffer.skip(1));
    }
}

/// The events of several changes have consecutive numbers, carry the nodes in order, and are
/// what publishing them one by one gives.
pub proof fn law_events_are_those_published(m: RegistryModel, nodes: Seq<NodeModel>, i: int)
    requires
        m.wf(),
        m.next + nodes.len() <= u64::MAX,
        0 <= i < nodes.len(),
    ensures
        m.events(nodes).len() == nodes.len(),
        m.events(nodes)[i].sequence == m.next + i,
        m.events(nodes)[i].node == Some(nodes[i]),
        m.events(nodes)[i] == m.publish_all(nodes.take(i)).event(nodes[i]),
        m.publish_all(nodes.take(i + 1)).buffer.last() == m.events(nodes)[i],
{
    law_publish_all_keeps_wf(m, nodes.take(i));
    assert(nodes.take(i + 1).drop_last() =~= nodes.take(i));
    assert(nodes.take(i + 1).last() == nodes[i]);
}

/// Of the listed nodes, those in use that were last heard of before the deadline go, in their
/// order, and each as it was but for its status.
pub proof fn law_expired_nodes_are_told(
    nodes: Map<Seq<u8>, NodeModel>,
    ids: Seq<Seq<u8>>,
    deadline: u64,
)
    ensures
        flipped(nodes, ids, deadline) == ids.filter(
            |k: Seq<u8>| nodes[k].status == 1 && nodes[k].last_heartbeat < deadline,
        ).map_values(|k: Seq<u8>| NodeModel { status: 3, ..nodes[k] }),
    decreases ids.len(),
{
    let p = |k: Seq<u8>| nodes[k].status == 1 && nodes[k].last_heartbeat < deadline;
    let g = |k: Seq<u8>| NodeModel { status: 3, ..nodes[k] };
    reveal(Seq::filter);
    if ids.len() > 0 {
        let rest = ids.drop_last();
        law_expired_nodes_are_told(nodes, rest, deadline);
        if p(ids.last()) {
            assert(rest.filter(p).push(ids.last()).map_values(g) =~= rest.filter(p).map_values(
                g,
            ).push(g(ids.last())));
        }
    }
    assert(flipped(nodes, ids, deadline) =~= ids.filter(p).map_values(g));
}

/// Every status has a number of its own, and other numbers stand for none.
pub proof fn law_status_codes(s: NodeStatus, code: i32)
    ensures
        NodeStatus::of_code(s.spec_code()) == s,
        NodeStatus::of_code(code) != NodeStatus::Unspecified ==> NodeStatus::of_code(
            code,
        ).spec_code() == code,
        NodeStatus::of_code(code) == NodeStatus::Unspecified <==> !(1 <= code <= 3),
        NodeStatus::Alive.spec_code() < NodeStatus::Draining.spec_code()
            < NodeStatus::Dead.spec_code(),
{
}

/// A snapshot holds every node once, in the order of registration, with the number 0.
pub proof fn law_snapshot_is_complete(m: RegistryModel, order: Seq<Seq<u8>>, i: int)
    requires
        0 <= i < order.len(),
    ensures
        catchup(m, order, 0).len() == order.len(),
        catchup(m, order, 0)[i].sequence == 0,
        catchup(m, order, 0)[i].node == Some(m.nodes[order[i]]),
{
}

/// The last 1024 events can be had again, and a subscriber may lag 256 events behind.
pub proof fn law_limits(m: RegistryModel)
    requires
        m.wf(),
    ensures
        m.next > 1024 ==> m.buffer.len() == 1024,
        m.next <= 1024 ==> m.buffer.len() == m.next - 1,
        BROADCAST_CHANNEL_CAPACITY == 256,
{
}

/// A subscriber that asks for a snapshot, or has seen the latest event, is never refused, and
/// one that has seen it all gets nothing first.
pub proof fn law_up_to_date_subscriber(m: RegistryModel, order: Seq<Seq<u8>>, last_seen: u64)
    requires
        m.wf(),
        last_seen == 0 || last_seen >= m.next - 1,
    ensures
        !behind_buffer(m, last_seen),
        last_seen > 0 ==> catchup(m, order, last_seen).len() == 0 && highest(
            catchup(m, order, last_seen),
        ) == 0,
{
    if last_seen > 0 {
        let p = |e: EventModel| e.sequence > last_seen;
        lemma_filter_suffix(m.buffer, p, m.buffer.len() as int);
        assert(m.buffer.skip(m.buffer.len() as int).len() == 0);
    }
}

/// A node counts as in use exactly while its status says so.
pub proof fn law_alive_weight(n: NodeModel)
    ensures
        alive_weight(n) == 1 <==> NodeStatus::of_code(n.status) == NodeStatus::Alive,
        alive_weight(n) <= 1,
{
}

/// A node is modelled with all that is known of it.
pub proof fn law_nodes_are_modelled(n: NodeInfo)
    ensures
        n@.status == n.status,
        n@.resources == n.resources,
        n@.registered_at == n.registered_at_unix_ms,
        n@.last_heartbeat == n.last_heartbeat_unix_ms,
        n@.address is Some <==> n.address is Some,
        n.address matches Some(a) ==> n@.address->0.host == a.host@ && n@.address->0.port == a.port
            && n@.address->0.node_id == a.node_id@ && n@.address->0.plasma_socket
            == a.plasma_socket@,
{
}

} // verus!
