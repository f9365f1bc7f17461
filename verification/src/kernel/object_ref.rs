//! References to stored objects, with the address of their owner.

use crate::kernel::id::{ObjectId, WorkerId};
use crate::util::hexadecimal;
use crate::util::text;
use crate::util::text::push_decimal;
use vstd::prelude::*;

verus! {

/// Address of a worker.
#[derive(Debug, PartialEq, Eq, Hash)]
pub struct Address {
    /// Host name or IP literal.
    pub host: String,
    /// TCP port.
    pub port: u16,
    /// The worker; nil before it has registered.
    pub worker_id: WorkerId,
}

/// The mathematical content of an `Address`.
pub struct AddressModel {
    /// Host name or IP literal.
    pub host: Seq<char>,
    /// TCP port.
    pub port: u16,
    /// The worker.
    pub worker_id: WorkerId,
}

impl AddressModel {
    /// `host:port@worker`, the worker in hexadecimal.
    pub open spec fn text(self) -> Seq<char> {
        self.host + ":"@ + text::decimal_text(self.port as nat) + "@"@ + hexadecimal::hex_text(
            self.worker_id.0@,
        )
    }
}

impl View for Address {
    type V = AddressModel;

    open spec fn view(&self) -> AddressModel {
        AddressModel { host: self.host@, port: self.port, worker_id: self.worker_id }
    }
}

impl Clone for Address {
    fn clone(&self) -> (r: Self)
        ensures
            r@ == self@,
    {
        Address { host: self.host.clone(), port: self.port, worker_id: self.worker_id }
    }
}

impl Address {
    /// The address with the given parts.
    pub fn new(host: &str, port: u16, worker_id: WorkerId) -> (r: Self)
        ensures
            r@ == (AddressModel { host: host@, port, worker_id }),
    {
        Address { host: host.to_owned(), port, worker_id }
    }

    /// Whether the worker is known.
    pub fn is_resolved(&self) -> (b: bool)
        ensures
            b == !self.worker_id.is_zero(),
    {
        !self.worker_id.is_nil()
    }

    /// `host:port@worker`, the worker in hexadecimal.
    pub fn text(&self) -> (r: String)
        ensures
            r@ == self@.text(),
    {
        let mut r = self.host.clone();
        r.append(":");
        push_decimal(&mut r, self.port as u64);
        r.append("@");
        r.append(self.worker_id.hex().as_str());
        r
    }
}

/// A reference to a stored object and its owner.
///
/// The owner's node is known when the producing driver was attached to a cluster, so
/// that other nodes can fetch the object from it.
#[derive(Debug, PartialEq, Eq, Hash)]
pub struct ObjectRef {
    object_id: ObjectId,
    owner: Address,
    owner_node_id: Option<[u8; 16]>,
}

/// The mathematical content of an `ObjectRef`.
pub struct ObjectRefModel {
    /// The referenced object.
    pub object_id: ObjectId,
    /// The owner's address.
    pub owner: AddressModel,
    /// The owner's node, where known.
    pub owner_node_id: Option<[u8; 16]>,
}

impl ObjectRefModel {
    /// `ObjectRef(id owned-by address)`.
    pub open spec fn text(self) -> Seq<char> {
        "ObjectRef("@ + hexadecimal::hex_text(self.object_id.0@) + " owned-by "@
            + self.owner.text() + ")"@
    }
}

impl View for ObjectRef {
    type V = ObjectRefModel;

    closed spec fn view(&self) -> ObjectRefModel {
        ObjectRefModel {
            object_id: self.object_id,
            owner: self.owner@,
            owner_node_id: self.owner_node_id,
        }
    }
}

impl Clone for ObjectRef {
    fn clone(&self) -> (r: Self)
        ensures
            r@ == self@,
    {
        ObjectRef {
            object_id: self.object_id,
            owner: self.owner.clone(),
            owner_node_id: self.owner_node_id,
        }
    }
}

impl ObjectRef {
    /// A reference whose owner's node is not known.
    pub fn new(object_id: ObjectId, owner: Address) -> (r: Self)
        ensures
            r@ == (ObjectRefModel { object_id, owner: owner@, owner_node_id: None }),
    {
        ObjectRef { object_id, owner, owner_node_id: None }
    }

    /// The reference with its owner's node set.
    pub fn with_owner_node_id(self, node_id: [u8; 16]) -> (r: Self)
        ensures
            r@ == (ObjectRefModel { owner_node_id: Some(node_id), ..self@ }),
    {
        let mut this = self;
        this.owner_node_id = Some(node_id);
        this
    }

    /// The referenced object.
    pub fn object_id(&self) -> (r: &ObjectId)
        ensures
            *r == self@.object_id,
    {
        &self.object_id
    }

    /// The address of the owner.
    pub fn owner(&self) -> (r: &Address)
        ensures
            r@ == self@.owner,
    {
        &self.owner
    }

    /// The owner's node, where known.
    pub fn owner_node_id(&self) -> (r: Option<[u8; 16]>)
        ensures
            r == self@.owner_node_id,
    {
        self.owner_node_id
    }

    /// `ObjectRef(id owned-by address)`.
    pub fn text(&self) -> (r: String)
        ensures
            r@ == self@.text(),
    {
        let mut r = "ObjectRef(".to_owned();
        r.append(self.object_id.hex().as_str());
        r.append(" owned-by ");
        r.append(self.owner.text().as_str());
        r.append(")");
        r
    }
}

} // verus!
