//! What the agent knows of the other nodes.

use crate::gcs::nodes;
use crate::gcs::nodes::{NodeAddress, NodeInfo, NodeStatus};
use crate::util::bytes::to_array;
use crate::util::table::Table;
use crate::util::text;
use crate::util::text::{concat2, push_decimal};
use vstd::prelude::*;

verus! {

/// A node's status and where it listens.
#[derive(Debug, Clone, Copy)]
pub struct NodeEntry<A> {
    /// Its status.
    pub status: NodeStatus,
    /// Where it listens.
    pub addr: A,
}

/// What an event did to the index.
#[derive(Debug, Clone, Copy, PartialEq, Eq, Structural)]
pub enum StatusTransition {
    /// The node is new.
    Inserted(NodeStatus),
    /// The status of the node changed.
    Changed {
        /// The status before.
        from: NodeStatus,
        /// The status now.
        to: NodeStatus,
    },
    /// The status is the same.
    Unchanged,
    /// The event is not in order and was left out.
    Skipped,
}

/// Where a node listens, as `host:port`; nothing where it has no address, or no port of
/// 16 bits.
pub open spec fn address_text(info: nodes::NodeModel) -> Option<Seq<char>> {
    match info.address {
        None => None,
        Some(a) => if a.port <= u16::MAX {
            Some(a.host + ":"@ + text::decimal_text(a.port as nat))
        } else {
            None
        },
    }
}

/// Where a node listens, as `host:port`; nothing where it has no address, or no port of
/// 16 bits.
pub fn node_address_text(info: &NodeInfo) -> (r: Option<String>)
    ensures
        match r {
            Some(s) => address_text(info@) == Some(s@),
            None => address_text(info@) is None,
        },
{
    match &info.address {
        None => None,
        Some(a) => {
            if a.port > u16::MAX as u32 {
                return None;
            }
            let mut s = concat2(a.host.as_str(), ":");
            push_decimal(&mut s, a.port as u64);
            Some(s)
        },
    }
}

/// The node of an address, where it has 16 bytes.
pub fn node_id_from_addr(addr: &NodeAddress) -> (r: Option<[u8; 16]>)
    ensures
        match r {
            Some(id) => id@ == addr.node_id@,
            None => addr.node_id@.len() != 16,
        },
{
    if addr.node_id.len() != 16 {
        return None;
    }
    Some(to_array(addr.node_id.as_slice()))
}

/// The node of an event that is in order; `addr` is what its address was resolved to.
pub open spec fn event_node<A>(info: nodes::NodeModel, addr: Option<A>) -> Option<Seq<u8>> {
    if addr is Some && address_text(info) is Some && info.address->0.node_id.len() == 16 {
        Some(info.address->0.node_id)
    } else {
        None
    }
}

/// The index after an event.
pub open spec fn index_step<A>(
    m: Map<Seq<u8>, NodeEntry<A>>,
    info: nodes::NodeModel,
    addr: Option<A>,
) -> Map<Seq<u8>, NodeEntry<A>> {
    match event_node(info, addr) {
        None => m,
        Some(id) => m.insert(
            id,
            NodeEntry { status: NodeStatus::of_code(info.status), addr: addr->0 },
        ),
    }
}

/// What an event does to the index.
pub open spec fn index_transition<A>(
    m: Map<Seq<u8>, NodeEntry<A>>,
    info: nodes::NodeModel,
    addr: Option<A>,
) -> StatusTransition {
    let to = NodeStatus::of_code(info.status);
    match event_node(info, addr) {
        None => StatusTransition::Skipped,
        Some(id) => if !m.contains_key(id) {
            StatusTransition::Inserted(to)
        } else if m[id].status == to {
            StatusTransition::Unchanged
        } else {
            StatusTransition::Changed { from: m[id].status, to }
        },
    }
}

/// The nodes, by identifier, with addresses of type `A`.
#[derive(Debug)]
pub struct NodeIndex<A> {
    inner: Table<[u8; 16], NodeEntry<A>>,
}

impl<A> View for NodeIndex<A> {
    type V = Map<Seq<u8>, NodeEntry<A>>;

    closed spec fn view(&self) -> Map<Seq<u8>, NodeEntry<A>> {
        self.inner@
    }
}

impl<A: Copy> NodeIndex<A> {
    /// The table is well formed.
    pub closed spec fn wf(&self) -> bool {
        self.inner.wf()
    }

    /// An index without nodes.
    pub fn new() -> (r: Self)
        ensures
            r.wf(),
            r@ == Map::<Seq<u8>, NodeEntry<A>>::empty(),
    {
        NodeIndex { inner: Table::new() }
    }

    /// Takes an event in; `addr` is what the node's address text was resolved to, where it
    /// has one that can be.
    pub fn apply_event(&mut self, info: &NodeInfo, addr: Option<A>) -> (r: StatusTransition)
        requires
            old(self).wf(),
        ensures
            final(self).wf(),
            final(self)@ == index_step(old(self)@, info@, addr),
            r == index_transition(old(self)@, info@, addr),
    {
        let addr: A = match addr {
            None => return StatusTransition::Skipped,
            Some(a) => a,
        };
        let address = match &info.address {
            None => return StatusTransition::Skipped,
            Some(a) => a,
        };
        if address.port > u16::MAX as u32 {
            return StatusTransition::Skipped;
        }
        let to = NodeStatus::from_code(info.status);
        let id: [u8; 16] = match node_id_from_addr(address) {
            None => return StatusTransition::Skipped,
            Some(id) => id,
        };
        match self.inner.insert(id, NodeEntry { status: to, addr }) {
            None => StatusTransition::Inserted(to),
            Some(before) => if before.status == to {
                StatusTransition::Unchanged
            } else {
                StatusTransition::Changed { from: before.status, to }
            },
        }
    }

    /// Where a node listens.
    pub fn address_of(&self, node_id: &[u8; 16]) -> (r: Option<A>)
        requires
            self.wf(),
        ensures
            r == (if self@.contains_key(node_id@) {
                Some(self@[node_id@].addr)
            } else {
                None
            }),
    {
        match self.inner.get(node_id) {
            Some(e) => Some(e.addr),
            None => None,
        }
    }

    /// The status of a node.
    pub fn status_of(&self, node_id: &[u8; 16]) -> (r: Option<NodeStatus>)
        requires
            self.wf(),
        ensures
            r == (if self@.contains_key(node_id@) {
                Some(self@[node_id@].status)
            } else {
                None
            }),
    {
        match self.inner.get(node_id) {
            Some(e) => Some(e.status),
            None => None,
        }
    }

    /// Number of nodes.
    pub fn len(&self) -> (n: usize)
        requires
            self.wf(),
        ensures
            n == self@.dom().len(),
    {
        proof {
            self.inner.lemma_model();
        }
        self.inner.len()
    }
}

/// An event that is taken in twice does nothing the second time.
pub proof fn law_event_is_idempotent<A>(
    m: Map<Seq<u8>, NodeEntry<A>>,
    info: nodes::NodeModel,
    addr: Option<A>,
)
    ensures
        index_step(index_step(m, info, addr), info, addr) == index_step(m, info, addr),
        index_transition(index_step(m, info, addr), info, addr) == (if event_node(
            info,
            addr,
        ) is Some {
            StatusTransition::Unchanged
        } else {
            StatusTransition::Skipped
        }),
{
    let once = index_step(m, info, addr);
    assert(index_step(once, info, addr) =~= once);
}

/// The status of a node is that of its last event.
pub proof fn law_last_event_wins<A>(
    m: Map<Seq<u8>, NodeEntry<A>>,
    info: nodes::NodeModel,
    addr: Option<A>,
    id: Seq<u8>,
)
    ensures
        event_node(info, addr) == Some(id) ==> index_step(m, info, addr).contains_key(id)
            && index_step(m, info, addr)[id].status == NodeStatus::of_code(info.status),
        event_node(info, addr) != Some(id) ==> index_step(m, info, addr).contains_key(id)
            == m.contains_key(id) && index_step(m, info, addr)[id] == m[id],
{
}

/// An event is taken in exactly where it has an address with a port of 16 bits and a node of
/// 16 bytes, and the address could be resolved; it is then about that node.
pub proof fn law_event_in_order<A>(info: nodes::NodeModel, addr: Option<A>)
    ensures
        event_node(info, addr) is Some <==> addr is Some && (info.address matches Some(a) && a.port
            <= 0xffff && a.node_id.len() == 16),
        event_node(info, addr) matches Some(id) ==> id == info.address->0.node_id,
{
}

/// A node is found at the address and with the status of its latest event; an event that is
/// not in order changes nothing.
pub proof fn law_node_is_found_where_it_said<A>(
    m: Map<Seq<u8>, NodeEntry<A>>,
    info: nodes::NodeModel,
    addr: Option<A>,
    other: Seq<u8>,
)
    ensures
        event_node(info, addr) is None ==> index_step(m, info, addr) == m && index_transition(
            m,
            info,
            addr,
        ) == StatusTransition::Skipped,
        event_node(info, addr) matches Some(id) ==> {
            let after = index_step(m, info, addr);
            &&& after.contains_key(id)
            &&& after[id].addr == addr->0
            &&& after[id].status.spec_code() == info.status || (after[id].status
                == NodeStatus::Unspecified && !(1 <= info.status <= 3))
            &&& other != id ==> after.contains_key(other) == m.contains_key(other)
            &&& other != id && m.contains_key(other) ==> after[other] == m[other]
        },
{
}

/// What an event did is told by the node's status before and after it.
pub proof fn law_transition_compares<A>(
    m: Map<Seq<u8>, NodeEntry<A>>,
    info: nodes::NodeModel,
    addr: Option<A>,
    id: Seq<u8>,
)
    requires
        event_node(info, addr) == Some(id),
    ensures
        ({
            let t = index_transition(m, info, addr);
            let after = index_step(m, info, addr)[id].status;
            &&& !m.contains_key(id) ==> t == StatusTransition::Inserted(after)
            &&& m.contains_key(id) && m[id].status == after ==> t == StatusTransition::Unchanged
            &&& m.contains_key(id) && m[id].status != after ==> t == (StatusTransition::Changed {
                from: m[id].status,
                to: after,
            })
        }),
{
}

/// The address of a node is its host and its port, with a colon in between.
pub proof fn law_address_text_parts(info: nodes::NodeModel)
    ensures
        address_text(info) is Some <==> (info.address matches Some(a) && a.port <= 0xffff),
        address_text(info) matches Some(t) ==> info.address->0.host.is_prefix_of(t) && t.len()
            == info.address->0.host.len() + 1 + text::decimal_text(
            info.address->0.port as nat,
        ).len() && t[info.address->0.host.len() as int] == ':' && t.skip(
            info.address->0.host.len() + 1 as int,
        ) == text::decimal_text(info.address->0.port as nat),
{
    reveal_strlit(":");
    if let Some(t) = address_text(info) {
        let host = info.address->0.host;
        let port = text::decimal_text(info.address->0.port as nat);
        assert(t.take(host.len() as int) =~= host);
        assert(t.skip(host.len() as int + 1) =~= port);
    }
}

} // verus!
