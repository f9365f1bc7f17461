//! Fetching an object of another node: ask the owner who holds it, pull it from a holder,
//! seal it here and tell the owner that this node holds it too.

use crate::driver::cluster;
use crate::driver::cluster::{choose_holder, node_not_found, raylet_addr_for};
use crate::driver::values;
use crate::driver::values::sized;
use crate::gcs::nodes;
use crate::gcs::nodes::NodeInfo;
use crate::kernel::core_worker::{CoreError, CoreWorker, PlasmaWrite};
use crate::kernel::id::ObjectId;
use crate::kernel::metadata::{Metadata, MetadataDecodeError};
use crate::raylet::client::PulledObject;
use crate::util::hexadecimal;
use crate::util::text::concat2;
use vstd::prelude::*;

verus! {

/// Takes the object and its owner's node.
pub fn fetch_begin(object_id: &[u8], owner_node_id: &[u8]) -> (r: Result<
    ([u8; 28], [u8; 16]),
    String,
>)
    ensures
        match r {
            Ok((object, owner)) => object@ == object_id@ && owner@ == owner_node_id@,
            Err(m) => if object_id@.len() != 28 {
                m@ == values::wrong_size("object_id"@, 28, object_id@.len())
            } else {
                owner_node_id@.len() != 16 && m@ == values::wrong_size(
                    "node_id"@,
                    16,
                    owner_node_id@.len(),
                )
            },
        },
{
    let object: [u8; 28] = match sized::<28>(object_id, "object_id") {
        Ok(b) => b,
        Err(m) => return Err(m),
    };
    match sized::<16>(owner_node_id, "node_id") {
        Ok(owner) => Ok((object, owner)),
        Err(m) => Err(m),
    }
}

/// Where the owner listens, who is asked for holders.
pub fn fetch_owner(nodes: &Vec<NodeInfo>, owner: &[u8; 16]) -> (r: Result<(String, u16), String>)
    ensures
        match r {
            Ok((host, port)) => cluster::endpoint_of(nodes::nodes_view(nodes@), owner@)
                == Some((host@, port)),
            Err(m) => cluster::endpoint_of(nodes::nodes_view(nodes@), owner@) is None && m@
                == "owner node "@ + hexadecimal::hex_text(owner@.take(4)) + " not found in GCS"@,
        },
{
    proof {
        reveal_strlit("owner");
        reveal_strlit(" node ");
        reveal_strlit("owner node ");
        assert("owner"@ + " node "@ =~= "owner node "@);
    }
    match raylet_addr_for(nodes, owner) {
        Some(at) => Ok(at),
        None => Err(node_not_found("owner", owner)),
    }
}

/// Where the holder listens that the object is pulled from.
pub fn fetch_holder(
    nodes: &Vec<NodeInfo>,
    locations: &Vec<[u8; 16]>,
    local: &[u8; 16],
    object_id: &[u8; 28],
) -> (r: Result<(String, u16), String>)
    ensures
        match r {
            Ok((host, port)) => cluster::holder(locations@, *local) is Some
                && cluster::endpoint_of(
                nodes::nodes_view(nodes@),
                cluster::holder(locations@, *local)->0@,
            ) == Some((host@, port)),
            Err(m) => match cluster::holder(locations@, *local) {
                None => m@ == "no holder registered for object "@ + hexadecimal::hex_text(
                    object_id@.take(4),
                ),
                Some(h) => cluster::endpoint_of(nodes::nodes_view(nodes@), h@) is None && m@
                    == "holder node "@ + hexadecimal::hex_text(h@.take(4)) + " not found in GCS"@,
            },
        },
{
    proof {
        reveal_strlit("holder");
        reveal_strlit(" node ");
        reveal_strlit("holder node ");
        assert("holder"@ + " node "@ =~= "holder node "@);
    }
    let holder: [u8; 16] = match choose_holder(locations, local, object_id) {
        Ok(h) => h,
        Err(m) => return Err(m),
    };
    match raylet_addr_for(nodes, &holder) {
        Some(at) => Ok(at),
        None => Err(node_not_found("holder", &holder)),
    }
}

/// The object to seal here after it was pulled.
pub fn fetch_pulled(worker: &CoreWorker, object_id: &[u8; 28], pulled: PulledObject) -> (r: Result<
    (Metadata, PlasmaWrite),
    String,
>)
    ensures
        match r {
            Ok((m, w)) => {
                &&& Metadata::parses(pulled.metadata@, Ok::<Metadata, MetadataDecodeError>(m))
                &&& worker@.has_plasma
                &&& worker@.writes(w, ObjectId(*object_id), m.wire(), pulled.data@)
                &&& w.forced
            },
            Err(message) => {
                ||| exists|e: MetadataDecodeError|
                    {
                        &&& #[trigger] Metadata::parses(
                            pulled.metadata@,
                            Err::<Metadata, MetadataDecodeError>(e),
                        )
                        &&& message@ == "decode metadata: "@ + e.spec_text()
                    }
                ||| !worker@.has_plasma && exists|m: Metadata, e: CoreError|
                    {
                        &&& #[trigger] Metadata::parses(
                            pulled.metadata@,
                            Ok::<Metadata, MetadataDecodeError>(m),
                        )
                        &&& #[trigger] e.says_unavailable(ObjectId(*object_id))
                        &&& message@ == "seal_into_plasma: "@ + e.spec_text()
                    }
            },
        },
{
    let m = match Metadata::decode(pulled.metadata.as_slice()) {
        Ok(m) => m,
        Err(e) => {
            let shown = e.text();
            return Err(concat2("decode metadata: ", shown.as_str()));
        },
    };
    match worker.seal_value_to_plasma(ObjectId::from_bytes(*object_id), m, pulled.data) {
        Ok(w) => Ok((m, w)),
        Err(e) => {
            let shown = e.text();
            Err(concat2("seal_into_plasma: ", shown.as_str()))
        },
    }
}

} // verus!
