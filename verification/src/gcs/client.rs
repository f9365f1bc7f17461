//! The caller's side of the control service: requests, and what replies mean.

use crate::gcs::actors::{ActorInfo, RegisterActorRequest};
use crate::gcs::jobs::AddJobRequest;
use crate::gcs::nodes::{RegisterRequest, Resources};
use crate::gcs::status;
use crate::gcs::status::{wrong_id_message, RpcCode};
use crate::util::bytes::{copy_bytes, to_array};
use crate::util::text::concat2;
use vstd::prelude::*;

verus! {

/// Failure of a call.
#[derive(Debug)]
pub enum GcsClientError {
    /// No connection; how the transport shows it.
    Connect(String),
    /// The service refused; the kind, and how the transport shows it.
    Rpc(RpcCode, String),
    /// The reply is not in order.
    Malformed(String),
}

impl GcsClientError {
    /// The failure as a text.
    pub open spec fn spec_text(&self) -> Seq<char> {
        match self {
            GcsClientError::Connect(e) => "connect: "@ + e@,
            GcsClientError::Rpc(_, e) => "rpc: "@ + e@,
            GcsClientError::Malformed(e) => "malformed reply: "@ + e@,
        }
    }

    /// The failure as a text.
    pub fn text(&self) -> (r: String)
        ensures
            r@ == self.spec_text(),
    {
        match self {
            GcsClientError::Connect(e) => concat2("connect: ", e.as_str()),
            GcsClientError::Rpc(_, e) => concat2("rpc: ", e.as_str()),
            GcsClientError::Malformed(e) => concat2("malformed reply: ", e.as_str()),
        }
    }

    /// The kind of the failure: without a connection the service cannot be reached, and a
    /// reply that is not in order is the service's failure.
    pub fn code(&self) -> (r: RpcCode)
        ensures
            r == (match *self {
                GcsClientError::Connect(_) => RpcCode::Unavailable,
                GcsClientError::Rpc(code, _) => code,
                GcsClientError::Malformed(_) => RpcCode::Internal,
            }),
    {
        match self {
            GcsClientError::Connect(_) => RpcCode::Unavailable,
            GcsClientError::Rpc(code, _) => *code,
            GcsClientError::Malformed(_) => RpcCode::Internal,
        }
    }

    /// The failure of an address that is no URI.
    pub fn invalid_uri(shown: &str) -> (r: Self)
        ensures
            r matches GcsClientError::Malformed(m) && m@ == "invalid uri: "@ + shown@,
    {
        GcsClientError::Malformed(concat2("invalid uri: ", shown))
    }
}

/// What a node gets when it joins.
#[derive(Debug, Clone, Copy, PartialEq, Eq)]
pub struct RegisterOutcome {
    /// Its identifier.
    pub node_id: [u8; 16],
    /// The service's session.
    pub cluster_session_id: [u8; 16],
}

/// Takes an identifier of 16 bytes out of a reply's field called `name`.
pub fn parse_id(b: &[u8], name: &str) -> (r: Result<[u8; 16], GcsClientError>)
    ensures
        match r {
            Ok(id) => id@ == b@,
            Err(e) => b@.len() != 16 && (e matches GcsClientError::Malformed(m) && m@
                == status::wrong_id_length(name@, 16, b@.len())),
        },
{
    if b.len() != 16 {
        return Err(GcsClientError::Malformed(wrong_id_message(name, 16, b.len())));
    }
    Ok(to_array(b))
}

/// The request of a node to join.
pub fn register_request(host: &str, port: u16, plasma_socket: &str, resources: Resources) -> (r:
    RegisterRequest)
    ensures
        r.host@ == host@,
        r.port == port,
        r.plasma_socket@ == plasma_socket@,
        r.resources == Some(resources),
{
    RegisterRequest {
        host: host.to_owned(),
        port: port as u32,
        plasma_socket: plasma_socket.to_owned(),
        resources: Some(resources),
    }
}

/// What the reply to a request to join holds.
pub fn registered(node_id: &[u8], cluster_session_id: &[u8]) -> (r: Result<
    RegisterOutcome,
    GcsClientError,
>)
    ensures
        match r {
            Ok(o) => o.node_id@ == node_id@ && o.cluster_session_id@ == cluster_session_id@,
            Err(e) => e matches GcsClientError::Malformed(m) && if node_id@.len() != 16 {
                m@ == status::wrong_id_length("node_id"@, 16, node_id@.len())
            } else {
                cluster_session_id@.len() != 16 && m@ == status::wrong_id_length(
                    "cluster_session_id"@,
                    16,
                    cluster_session_id@.len(),
                )
            },
        },
{
    let node_id: [u8; 16] = match parse_id(node_id, "node_id") {
        Ok(id) => id,
        Err(e) => return Err(e),
    };
    let cluster_session_id: [u8; 16] = match parse_id(cluster_session_id, "cluster_session_id") {
        Ok(id) => id,
        Err(e) => return Err(e),
    };
    Ok(RegisterOutcome { node_id, cluster_session_id })
}

/// The request to begin a job.
pub fn add_job_request(driver_host: &str, driver_pid: u32, node_id: Option<[u8; 16]>) -> (r:
    AddJobRequest)
    ensures
        r.driver_host@ == driver_host@,
        r.driver_pid == driver_pid,
        r.node_id@ == (match node_id {
            None => Seq::empty(),
            Some(id) => id@,
        }),
{
    let node_id = match node_id {
        None => Vec::new(),
        Some(id) => copy_bytes(&id),
    };
    AddJobRequest { driver_host: driver_host.to_owned(), driver_pid, node_id }
}

/// The request to give an actor a name.
pub fn register_actor_request(
    name: &str,
    actor_id: [u8; 16],
    owner_node_id: Option<[u8; 16]>,
    owner_pid: u32,
    driver_actor_host: &str,
    driver_actor_port: u16,
) -> (r: RegisterActorRequest)
    ensures
        r.name@ == name@,
        r.actor_id@ == actor_id@,
        r.owner_node_id@ == (match owner_node_id {
            None => Seq::empty(),
            Some(id) => id@,
        }),
        r.owner_pid == owner_pid,
        r.driver_actor_host@ == driver_actor_host@,
        r.driver_actor_port == driver_actor_port,
{
    let owner_node_id = match owner_node_id {
        None => Vec::new(),
        Some(id) => copy_bytes(&id),
    };
    RegisterActorRequest {
        name: name.to_owned(),
        actor_id: copy_bytes(&actor_id),
        owner_node_id,
        owner_pid,
        driver_actor_host: driver_actor_host.to_owned(),
        driver_actor_port: driver_actor_port as u32,
    }
}

/// What the outcome of a lookup of an actor means: that there is no such actor is no
/// failure.
pub fn found_actor(outcome: Result<Option<ActorInfo>, GcsClientError>) -> (r: Result<
    Option<ActorInfo>,
    GcsClientError,
>)
    ensures
        r == (match outcome {
            Err(GcsClientError::Rpc(RpcCode::NotFound, _)) => Ok(None),
            other => other,
        }),
{
    match outcome {
        Err(GcsClientError::Rpc(code, shown)) => if code == RpcCode::NotFound {
            Ok(None)
        } else {
            Err(GcsClientError::Rpc(code, shown))
        },
        other => other,
    }
}

} // verus!
