//! The cluster as the user of the driver sees it, and where objects are fetched from.

use crate::gcs::jobs::{JobInfo, JobStatus};
use crate::gcs::nodes;
use crate::gcs::nodes::{NodeInfo, Resources};
use crate::kernel::core_worker::CoreError;
use crate::kernel::error_info::ErrorInfo;
use crate::kernel::id::ObjectId;
use crate::kernel::object_ref::Address;
use crate::plasma::error::ServerErrorKind;
use crate::util::bytes::{arrays_equal, slices_equal};
use crate::util::hexadecimal;
use crate::util::hexadecimal::hex_encode;
use crate::util::text;
use crate::util::text::{concat2, concat3, push_decimal, quoted, with_number};
use vstd::prelude::*;
use vstd::slice::slice_subrange;

verus! {

/// The name of a node's status.
pub open spec fn node_status_name(code: i32) -> Seq<char> {
    if code == 1 {
        "alive"@
    } else if code == 2 {
        "draining"@
    } else if code == 3 {
        "dead"@
    } else {
        "unspecified"@
    }
}

/// The name of a node's status.
pub fn node_status_str(code: i32) -> (r: &'static str)
    ensures
        r@ == node_status_name(code),
{
    match code {
        1 => "alive",
        2 => "draining",
        3 => "dead",
        _ => "unspecified",
    }
}

/// The name of a job's status.
pub open spec fn job_status_name(code: i32) -> Seq<char> {
    if code == 1 {
        "running"@
    } else if code == 2 {
        "finished"@
    } else if code == 3 {
        "failed"@
    } else {
        "unspecified"@
    }
}

/// The name of a job's status.
pub fn job_status_str(code: i32) -> (r: &'static str)
    ensures
        r@ == job_status_name(code),
{
    match code {
        1 => "running",
        2 => "finished",
        3 => "failed",
        _ => "unspecified",
    }
}

/// A node for the user.
#[derive(Debug)]
pub struct NodeRow {
    /// Host name or IP literal.
    pub host: String,
    /// TCP port.
    pub port: u32,
    /// The node.
    pub node_id: Vec<u8>,
    /// Path of its shared-memory socket.
    pub plasma_socket: String,
    /// What it contributes.
    pub resources: Resources,
    /// Its status.
    pub status: String,
    /// When it registered.
    pub registered_at_unix_ms: u64,
    /// When it was last heard of.
    pub last_heartbeat_unix_ms: u64,
}

/// A node for the user; what is not known is empty or 0.
pub fn convert_node(info: NodeInfo) -> (r: NodeRow)
    ensures
        r.status@ == node_status_name(info.status),
        r.registered_at_unix_ms == info.registered_at_unix_ms,
        r.last_heartbeat_unix_ms == info.last_heartbeat_unix_ms,
        match info.address {
            Some(a) => r.host@ == a.host@ && r.port == a.port && r.node_id@ == a.node_id@
                && r.plasma_socket@ == a.plasma_socket@,
            None => r.host@.len() == 0 && r.port == 0 && r.node_id@.len() == 0
                && r.plasma_socket@.len() == 0,
        },
        r.resources == (match info.resources {
            Some(x) => x,
            None => Resources { num_cpus: 0, num_gpus: 0, memory_bytes: 0 },
        }),
{
    proof {
        reveal_strlit("");
    }
    let resources = match info.resources {
        Some(x) => x,
        None => Resources { num_cpus: 0, num_gpus: 0, memory_bytes: 0 },
    };
    let status = node_status_str(info.status).to_owned();
    match info.address {
        Some(a) => NodeRow {
            host: a.host,
            port: a.port,
            node_id: a.node_id,
            plasma_socket: a.plasma_socket,
            resources,
            status,
            registered_at_unix_ms: info.registered_at_unix_ms,
            last_heartbeat_unix_ms: info.last_heartbeat_unix_ms,
        },
        None => NodeRow {
            host: "".to_owned(),
            port: 0,
            node_id: Vec::new(),
            plasma_socket: "".to_owned(),
            resources,
            status,
            registered_at_unix_ms: info.registered_at_unix_ms,
            last_heartbeat_unix_ms: info.last_heartbeat_unix_ms,
        },
    }
}

/// A job for the user.
#[derive(Debug)]
pub struct JobRow {
    /// The job.
    pub job_id: Vec<u8>,
    /// Host of its driver.
    pub driver_host: String,
    /// Process of its driver.
    pub driver_pid: u32,
    /// Node of its driver.
    pub node_id: Vec<u8>,
    /// Its status.
    pub status: String,
    /// When it began.
    pub registered_at_unix_ms: u64,
    /// When it ended.
    pub finished_at_unix_ms: u64,
}

/// A job for the user.
pub fn convert_job(info: JobInfo) -> (r: JobRow)
    ensures
        r.job_id == info.job_id,
        r.driver_host == info.driver_host,
        r.driver_pid == info.driver_pid,
        r.node_id == info.node_id,
        r.status@ == job_status_name(info.status),
        r.registered_at_unix_ms == info.registered_at_unix_ms,
        r.finished_at_unix_ms == info.finished_at_unix_ms,
{
    JobRow {
        job_id: info.job_id,
        driver_host: info.driver_host,
        driver_pid: info.driver_pid,
        node_id: info.node_id,
        status: job_status_str(info.status).to_owned(),
        registered_at_unix_ms: info.registered_at_unix_ms,
        finished_at_unix_ms: info.finished_at_unix_ms,
    }
}

/// Where the first of `nodes` with the given identifier listens: its host and its port of
/// 16 bits. Nodes without an address are passed over.
pub open spec fn endpoint_of(nodes: Seq<nodes::NodeModel>, id: Seq<u8>) -> Option<
    (Seq<char>, u16),
>
    decreases nodes.len(),
{
    if nodes.len() == 0 {
        None
    } else {
        match nodes[0].address {
            None => endpoint_of(nodes.skip(1), id),
            Some(a) => if a.node_id != id {
                endpoint_of(nodes.skip(1), id)
            } else if a.port <= u16::MAX {
                Some((a.host, a.port as u16))
            } else {
                None
            },
        }
    }
}

/// Where the node that objects are fetched from listens. Nodes without an address are
/// passed over.
pub fn raylet_addr_for(nodes: &Vec<NodeInfo>, node_id: &[u8; 16]) -> (r: Option<(String, u16)>)
    ensures
        match r {
            Some((host, port)) => endpoint_of(nodes::nodes_view(nodes@), node_id@) == Some(
                (host@, port),
            ),
            None => endpoint_of(nodes::nodes_view(nodes@), node_id@) is None,
        },
{
    let n: usize = nodes.len();
    let mut i: usize = 0;
    let ghost all = nodes::nodes_view(nodes@);
    assert(all.skip(0) =~= all);
    while i < n
        invariant
            n == nodes@.len(),
            i <= n,
            all == nodes::nodes_view(nodes@),
            endpoint_of(all, node_id@) == endpoint_of(all.skip(i as int), node_id@),
        decreases n - i,
    {
        proof {
            assert(all.skip(i as int)[0] == nodes@[i as int]@);
            assert(all.skip(i as int).skip(1) =~= all.skip(i + 1));
        }
        match &nodes[i].address {
            None => {},
            Some(a) => {
                if slices_equal(a.node_id.as_slice(), node_id) {
                    if a.port > u16::MAX as u32 {
                        return None;
                    }
                    return Some((a.host.clone(), a.port as u16));
                }
            },
        }
        i += 1;
    }
    None
}

/// Where the node that is told of a dropped reference listens. Nodes without an address
/// are passed over here too.
pub fn owner_addr_for(nodes: &Vec<NodeInfo>, node_id: &[u8; 16]) -> (r: Option<(String, u16)>)
    ensures
        match r {
            Some((host, port)) => endpoint_of(nodes::nodes_view(nodes@), node_id@) == Some(
                (host@, port),
            ),
            None => endpoint_of(nodes::nodes_view(nodes@), node_id@) is None,
        },
{
    raylet_addr_for(nodes, node_id)
}

/// The holder to fetch an object from: the first that is not this node, else the first.
pub open spec fn holder(locations: Seq<[u8; 16]>, local: [u8; 16]) -> Option<[u8; 16]> {
    if locations.len() == 0 {
        None
    } else {
        match first_other(locations, local) {
            Some(n) => Some(n),
            None => Some(locations[0]),
        }
    }
}

/// The first node that is not `local`.
pub open spec fn first_other(locations: Seq<[u8; 16]>, local: [u8; 16]) -> Option<[u8; 16]>
    decreases locations.len(),
{
    if locations.len() == 0 {
        None
    } else if locations[0] != local {
        Some(locations[0])
    } else {
        first_other(locations.skip(1), local)
    }
}

/// The first four bytes in hexadecimal.
pub fn short_hex(id: &[u8; 16]) -> (r: String)
    ensures
        r@ == hexadecimal::hex_text(id@.take(4)),
{
    let head = slice_subrange(id, 0, 4);
    assert(head@ =~= id@.take(4));
    hex_encode(head)
}

/// The first four bytes in hexadecimal.
pub fn short_hex_28(id: &[u8; 28]) -> (r: String)
    ensures
        r@ == hexadecimal::hex_text(id@.take(4)),
{
    let head = slice_subrange(id, 0, 4);
    assert(head@ =~= id@.take(4));
    hex_encode(head)
}

/// The holder to fetch an object from: the first that is not this node, else the first.
pub fn choose_holder(locations: &Vec<[u8; 16]>, local: &[u8; 16], object_id: &[u8; 28]) -> (r:
    Result<[u8; 16], String>)
    ensures
        match r {
            Ok(n) => holder(locations@, *local) == Some(n),
            Err(m) => locations@.len() == 0 && m@ == "no holder registered for object "@
                + hexadecimal::hex_text(object_id@.take(4)),
        },
{
    let n: usize = locations.len();
    if n == 0 {
        let shown = short_hex_28(object_id);
        return Err(concat2("no holder registered for object ", shown.as_str()));
    }
    let mut i: usize = 0;
    assert(locations@.skip(0) =~= locations@);
    while i < n
        invariant
            n == locations@.len(),
            n > 0,
            i <= n,
            first_other(locations@, *local) == first_other(locations@.skip(i as int), *local),
        decreases n - i,
    {
        proof {
            assert(locations@.skip(i as int)[0] == locations@[i as int]);
            assert(locations@.skip(i as int).skip(1) =~= locations@.skip(i + 1));
        }
        let node: [u8; 16] = locations[i];
        if !arrays_equal(&node, local) {
            return Ok(node);
        }
        i += 1;
    }
    Ok(locations[0])
}

/// The message about a node that is not known: `role` is what the node was wanted for.
pub fn node_not_found(role: &str, id: &[u8; 16]) -> (r: String)
    ensures
        r@ == role@ + " node "@ + hexadecimal::hex_text(id@.take(4)) + " not found in GCS"@,
{
    let mut r = concat2(role, " node ");
    r.append(short_hex(id).as_str());
    r.append(" not found in GCS");
    r
}

/// What it means that a fetched object could not be sealed here: that it is here already is
/// no failure.
pub fn fetch_sealed(r: Result<u64, CoreError>) -> (s: Result<(), String>)
    ensures
        match r {
            Ok(_) => s == Ok::<(), String>(()),
            Err(e) => if (e matches CoreError::Plasma(p) && p.spec_is(
                ServerErrorKind::AlreadyExists,
            )) {
                s == Ok::<(), String>(())
            } else {
                s matches Err(m) && m@ == "seal_into_plasma: "@ + e.spec_text()
            },
        },
{
    match r {
        Ok(_) => Ok(()),
        Err(e) => {
            let here = match &e {
                CoreError::Plasma(p) => p.is(ServerErrorKind::AlreadyExists),
                _ => false,
            };
            if here {
                Ok(())
            } else {
                let shown = e.text();
                Err(concat2("seal_into_plasma: ", shown.as_str()))
            }
        },
    }
}

/// An identifier as it is shown.
pub fn object_id_repr(id: &ObjectId) -> (r: String)
    ensures
        r@ == "ObjectId("@ + hexadecimal::hex_text(id.0@) + ")"@,
{
    let hex = id.hex();
    concat3("ObjectId(", hex.as_str(), ")")
}

/// An address as it is shown.
pub fn address_repr(a: &Address) -> (r: String)
    ensures
        r@ == "Address(host="@ + text::quoted_text(a.host@) + ", port="@ + text::decimal_text(
            a.port as nat,
        ) + ", worker_id="@ + hexadecimal::hex_text(a.worker_id.0@) + ")"@,
{
    let host = quoted(a.host.as_str());
    let mut r = concat3("Address(host=", host.as_str(), ", port=");
    push_decimal(&mut r, a.port as u64);
    r.append(", worker_id=");
    r.append(a.worker_id.hex().as_str());
    r.append(")");
    r
}

/// What is told of a failed object, as it is shown.
pub fn error_info_repr(info: &ErrorInfo) -> (r: String)
    ensures
        r@ == "ErrorInfo(category="@ + info.category.spec_name() + ", message="@
            + text::quoted_text(info.message@) + ", raw_code="@ + text::decimal_text(
            info.raw_code as nat,
        ) + ")"@,
{
    let message = quoted(info.message.as_str());
    let mut r = concat3("ErrorInfo(category=", info.category.name(), ", message=");
    r.append(message.as_str());
    r.append(", raw_code=");
    push_decimal(&mut r, info.raw_code as u64);
    r.append(")");
    r
}

/// What a node contributes, as it is shown.
pub open spec fn resources_text(x: Resources) -> Seq<char> {
    "Resources(num_cpus="@ + text::decimal_text(x.num_cpus as nat) + ", num_gpus="@
        + text::decimal_text(x.num_gpus as nat) + ", memory_bytes="@ + text::decimal_text(
        x.memory_bytes as nat,
    ) + ")"@
}

/// What a node contributes, as it is shown.
pub fn resources_repr(x: &Resources) -> (r: String)
    ensures
        r@ == resources_text(*x),
{
    let mut r = with_number("Resources(num_cpus=", x.num_cpus as u64, ", num_gpus=");
    push_decimal(&mut r, x.num_gpus as u64);
    r.append(", memory_bytes=");
    push_decimal(&mut r, x.memory_bytes);
    r.append(")");
    r
}

/// A node as it is shown.
pub fn node_repr(n: &NodeRow) -> (r: String)
    ensures
        r@ == "NodeInfo(host="@ + text::quoted_text(n.host@) + ", port="@ + text::decimal_text(
            n.port as nat,
        ) + ", status="@ + text::quoted_text(n.status@) + ", resources="@ + resources_text(
            n.resources,
        ) + ")"@,
{
    let host = quoted(n.host.as_str());
    let status = quoted(n.status.as_str());
    let mut r = concat3("NodeInfo(host=", host.as_str(), ", port=");
    push_decimal(&mut r, n.port as u64);
    r.append(", status=");
    r.append(status.as_str());
    r.append(", resources=");
    r.append(resources_repr(&n.resources).as_str());
    r.append(")");
    r
}

/// A job as it is shown.
pub fn job_repr(j: &JobRow) -> (r: String)
    ensures
        r@ == "JobInfo(driver_host="@ + text::quoted_text(j.driver_host@) + ", driver_pid="@
            + text::decimal_text(j.driver_pid as nat) + ", status="@ + text::quoted_text(j.status@)
            + ")"@,
{
    let host = quoted(j.driver_host.as_str());
    let status = quoted(j.status.as_str());
    let mut r = concat3("JobInfo(driver_host=", host.as_str(), ", driver_pid=");
    push_decimal(&mut r, j.driver_pid as u64);
    r.append(", status=");
    r.append(status.as_str());
    r.append(")");
    r
}

/// A named actor as it is shown.
pub fn actor_repr(name: &str, owner_pid: u32) -> (r: String)
    ensures
        r@ == "ActorInfo(name="@ + text::quoted_text(name@) + ", owner_pid="@ + text::decimal_text(
            owner_pid as nat,
        ) + ")"@,
{
    let shown = quoted(name);
    let mut r = concat3("ActorInfo(name=", shown.as_str(), ", owner_pid=");
    push_decimal(&mut r, owner_pid as u64);
    r.append(")");
    r
}

/// An object is fetched from another node wherever one holds it.
pub proof fn law_fetch_prefers_others(locations: Seq<[u8; 16]>, local: [u8; 16])
    requires
        locations.len() > 0,
    ensures
        holder(locations, local) is Some,
        locations.contains(holder(locations, local)->0),
        holder(locations, local)->0 == local ==> forall|i: int|
            0 <= i < locations.len() ==> locations[i] == local,
{
    lemma_first_other(locations, local);
    assert(locations[0] == locations[0]);
}

/// The first other node is one of the nodes, and there is one unless all are `local`.
proof fn lemma_first_other(locations: Seq<[u8; 16]>, local: [u8; 16])
    ensures
        match first_other(locations, local) {
            Some(n) => n != local && locations.contains(n),
            None => forall|i: int| 0 <= i < locations.len() ==> locations[i] == local,
        },
    decreases locations.len(),
{
    if locations.len() > 0 {
        let rest = locations.skip(1);
        lemma_first_other(rest, local);
        if locations[0] == local {
            match first_other(rest, local) {
                Some(n) => {
                    let i = rest.index_of(n);
                    assert(locations[i + 1] == n);
                },
                None => {
                    assert forall|i: int| 0 <= i < locations.len() implies locations[i] == local by {
                        if i > 0 {
                            assert(rest[i - 1] == locations[i]);
                        }
                    }
                },
            }
        } else {
            assert(locations.contains(locations[0]));
        }
    }
}

/// A node is found where the first of the nodes with its identifier listens, if that has a port
/// of 16 bits.
pub proof fn law_first_address_is_found(nodes: Seq<nodes::NodeModel>, id: Seq<u8>, i: int)
    requires
        0 <= i < nodes.len(),
        nodes[i].address matches Some(a) && a.node_id == id,
        forall|j: int|
            0 <= j < i ==> ((#[trigger] nodes[j]).address matches Some(a) ==> a.node_id != id),
    ensures
        ({
            let a = nodes[i].address->0;
            &&& a.port <= 65_535 ==> endpoint_of(nodes, id) == Some((a.host, a.port as u16))
            &&& a.port > 65_535 ==> endpoint_of(nodes, id) is None
        }),
    decreases i,
{
    if i > 0 {
        let rest = nodes.skip(1);
        assert(nodes[0].address matches Some(a) ==> a.node_id != id);
        assert(rest[i - 1] == nodes[i]);
        assert forall|j: int| 0 <= j < i - 1 implies ((#[trigger] rest[j]).address matches Some(a)
            ==> a.node_id != id) by {
            assert(rest[j] == nodes[j + 1]);
        }
        law_first_address_is_found(rest, id, i - 1);
    }
}

/// A node that none of the nodes is, is not found.
pub proof fn law_unknown_node_is_not_found(nodes: Seq<nodes::NodeModel>, id: Seq<u8>)
    requires
        forall|j: int|
            0 <= j < nodes.len() ==> ((#[trigger] nodes[j]).address matches Some(a) ==> a.node_id
                != id),
    ensures
        endpoint_of(nodes, id) is None,
    decreases nodes.len(),
{
    if nodes.len() > 0 {
        let rest = nodes.skip(1);
        assert(nodes[0].address matches Some(a) ==> a.node_id != id);
        assert forall|j: int| 0 <= j < rest.len() implies ((#[trigger] rest[j]).address matches Some(
            a,
        ) ==> a.node_id != id) by {
            assert(rest[j] == nodes[j + 1]);
        }
        law_unknown_node_is_not_found(rest, id);
    }
}

/// The holder is the first node that is not this one; this node only where there is no other.
pub proof fn law_holder_is_the_first_other(locations: Seq<[u8; 16]>, local: [u8; 16], i: int)
    requires
        0 <= i < locations.len(),
        locations[i] != local,
        forall|j: int| 0 <= j < i ==> #[trigger] locations[j] == local,
    ensures
        holder(locations, local) == Some(locations[i]),
    decreases i,
{
    lemma_first_other_at(locations, local, i);
}

proof fn lemma_first_other_at(locations: Seq<[u8; 16]>, local: [u8; 16], i: int)
    requires
        0 <= i < locations.len(),
        locations[i] != local,
        forall|j: int| 0 <= j < i ==> #[trigger] locations[j] == local,
    ensures
        first_other(locations, local) == Some(locations[i]),
    decreases i,
{
    if i > 0 {
        let rest = locations.skip(1);
        assert(locations[0] == local);
        assert(rest[i - 1] == locations[i]);
        assert forall|j: int| 0 <= j < i - 1 implies #[trigger] rest[j] == local by {
            assert(rest[j] == locations[j + 1]);
        }
        lemma_first_other_at(rest, local, i - 1);
    }
}

/// Nothing holds an object exactly where there is no location.
pub proof fn law_no_holder(locations: Seq<[u8; 16]>, local: [u8; 16])
    ensures
        holder(locations, local) is None <==> locations.len() == 0,
{
}

/// The names of statuses follow their numbers.
pub proof fn law_status_names(code: i32)
    ensures
        node_status_name(nodes::NodeStatus::Alive.spec_code()) == "alive"@,
        node_status_name(nodes::NodeStatus::Draining.spec_code()) == "draining"@,
        node_status_name(nodes::NodeStatus::Dead.spec_code()) == "dead"@,
        job_status_name(JobStatus::Running.spec_code()) == "running"@,
        job_status_name(JobStatus::Finished.spec_code()) == "finished"@,
        job_status_name(JobStatus::Failed.spec_code()) == "failed"@,
        !(1 <= code <= 3) ==> node_status_name(code) == "unspecified"@ && job_status_name(code)
            == "unspecified"@,
{
}

} // verus!
