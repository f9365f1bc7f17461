//! The registry of named actors.

use crate::gcs::status;
use crate::gcs::status::{check_optional_id, parse_id, RpcCode, Status};
use crate::util::bytes::{copy_bytes, slices_equal};
use crate::util::clock::unix_ms;
use crate::util::table::Table;
use crate::util::text;
use crate::util::text::{concat2, concat3, quoted};
use vstd::prelude::*;

verus! {

/// What is known of a named actor.
#[derive(Debug, PartialEq, Eq)]
pub struct ActorInfo {
    /// Its name.
    pub name: String,
    /// The actor.
    pub actor_id: Vec<u8>,
    /// The node of its owner; may be empty.
    pub owner_node_id: Vec<u8>,
    /// The process of its owner.
    pub owner_pid: u32,
    /// When it was registered.
    pub registered_at_unix_ms: u64,
    /// Host of its endpoint.
    pub driver_actor_host: String,
    /// Port of its endpoint.
    pub driver_actor_port: u32,
}

/// The mathematical content of an `ActorInfo`.
#[verifier::ext_equal]
pub struct ActorModel {
    /// Its name.
    pub name: Seq<char>,
    /// The actor.
    pub actor_id: Seq<u8>,
    /// The node of its owner.
    pub owner_node_id: Seq<u8>,
    /// The process of its owner.
    pub owner_pid: u32,
    /// When it was registered.
    pub registered_at: u64,
    /// Host of its endpoint.
    pub host: Seq<char>,
    /// Port of its endpoint.
    pub port: u32,
}

impl View for ActorInfo {
    type V = ActorModel;

    open spec fn view(&self) -> ActorModel {
        ActorModel {
            name: self.name@,
            actor_id: self.actor_id@,
            owner_node_id: self.owner_node_id@,
            owner_pid: self.owner_pid,
            registered_at: self.registered_at_unix_ms,
            host: self.driver_actor_host@,
            port: self.driver_actor_port,
        }
    }
}

impl Clone for ActorInfo {
    fn clone(&self) -> (r: Self)
        ensures
            r@ == self@,
    {
        ActorInfo {
            name: self.name.clone(),
            actor_id: copy_bytes(self.actor_id.as_slice()),
            owner_node_id: copy_bytes(self.owner_node_id.as_slice()),
            owner_pid: self.owner_pid,
            registered_at_unix_ms: self.registered_at_unix_ms,
            driver_actor_host: self.driver_actor_host.clone(),
            driver_actor_port: self.driver_actor_port,
        }
    }
}

/// The request to give an actor a name.
#[derive(Debug)]
pub struct RegisterActorRequest {
    /// The name.
    pub name: String,
    /// The actor.
    pub actor_id: Vec<u8>,
    /// The node of its owner; may be empty.
    pub owner_node_id: Vec<u8>,
    /// The process of its owner.
    pub owner_pid: u32,
    /// Host of its endpoint.
    pub driver_actor_host: String,
    /// Port of its endpoint.
    pub driver_actor_port: u32,
}

/// The actor that a request registers.
pub open spec fn new_actor(req: RegisterActorRequest, now: u64) -> ActorModel {
    ActorModel {
        name: req.name@,
        actor_id: req.actor_id@,
        owner_node_id: req.owner_node_id@,
        owner_pid: req.owner_pid,
        registered_at: now,
        host: req.driver_actor_host@,
        port: req.driver_actor_port,
    }
}

/// Why a request to give an actor a name is refused.
pub open spec fn register_error(actors: Map<Seq<char>, ActorModel>, req: RegisterActorRequest)
    -> Option<(RpcCode, Seq<char>)> {
    if req.name@.len() == 0 {
        Some((RpcCode::InvalidArgument, "name must not be empty"@))
    } else if req.actor_id@.len() != 16 {
        Some(
            (
                RpcCode::InvalidArgument,
                status::wrong_id_length("actor_id"@, 16, req.actor_id@.len()),
            ),
        )
    } else if req.owner_node_id@.len() != 0 && req.owner_node_id@.len() != 16 {
        Some(
            (
                RpcCode::InvalidArgument,
                status::wrong_optional_id_length("owner_node_id"@, req.owner_node_id@.len()),
            ),
        )
    } else if actors.contains_key(req.name@) && actors[req.name@].actor_id != req.actor_id@ {
        Some(
            (
                RpcCode::AlreadyExists,
                "actor name "@ + text::quoted_text(req.name@) + " is already registered"@,
            ),
        )
    } else {
        None
    }
}

/// The actors after a request was accepted at `now`: an actor keeps the entry that it has
/// under the name.
pub open spec fn register_step(
    actors: Map<Seq<char>, ActorModel>,
    req: RegisterActorRequest,
    now: u64,
) -> Map<Seq<char>, ActorModel> {
    if actors.contains_key(req.name@) {
        actors
    } else {
        actors.insert(req.name@, new_actor(req, now))
    }
}

/// Why a request to take a name back is refused.
pub open spec fn unregister_error(
    actors: Map<Seq<char>, ActorModel>,
    name: Seq<char>,
    actor_id: Seq<u8>,
) -> Option<(RpcCode, Seq<char>)> {
    if actor_id.len() != 16 {
        Some((RpcCode::InvalidArgument, status::wrong_id_length("actor_id"@, 16, actor_id.len())))
    } else if !actors.contains_key(name) {
        Some((RpcCode::NotFound, "unknown actor name"@))
    } else if actors[name].actor_id != actor_id {
        Some((RpcCode::FailedPrecondition, "actor_id does not match registered entry"@))
    } else {
        None
    }
}

/// The registry of named actors.
#[derive(Debug)]
pub struct ActorsRegistry {
    actors: Table<String, ActorInfo>,
}

impl View for ActorsRegistry {
    type V = Map<Seq<char>, ActorModel>;

    closed spec fn view(&self) -> Map<Seq<char>, ActorModel> {
        self.actors@.map_values(|a: ActorInfo| a@)
    }
}

impl ActorsRegistry {
    /// The table is well formed, and each actor stands under its name.
    pub closed spec fn wf(&self) -> bool {
        &&& self.actors.wf()
        &&& forall|name: Seq<char>| #[trigger]
            self@.contains_key(name) ==> self@[name].name == name
    }

    /// The names in the order in which they were given.
    pub closed spec fn order(&self) -> Seq<Seq<char>> {
        self.actors.order()
    }

    /// The order lists every name once, and each actor stands under its name.
    pub proof fn lemma_model(&self)
        requires
            self.wf(),
        ensures
            self.order().no_duplicates(),
            self@.dom() == self.order().to_set(),
            self@.dom().finite(),
            self@.dom().len() == self.order().len(),
            forall|name: Seq<char>| #[trigger]
                self@.contains_key(name) ==> self@[name].name == name,
    {
        self.actors.lemma_model();
        assert(self@.dom() =~= self.actors@.dom());
    }

    /// A registry without actors.
    pub fn new() -> (r: Self)
        ensures
            r.wf(),
            r@ == Map::<Seq<char>, ActorModel>::empty(),
    {
        let r = ActorsRegistry { actors: Table::new() };
        assert(r@ =~= Map::<Seq<char>, ActorModel>::empty());
        r
    }

    /// All actors.
    pub fn snapshot(&self) -> (r: Vec<ActorInfo>)
        requires
            self.wf(),
        ensures
            r@.map_values(|a: ActorInfo| a@) == self.order().map_values(|k: Seq<char>| self@[k]),
    {
        let mut r: Vec<ActorInfo> = Vec::new();
        let n: usize = self.actors.len();
        let mut i: usize = 0;
        let ghost f = |a: ActorInfo| a@;
        let ghost want = self.order().map_values(|k: Seq<char>| self@[k]);
        assert(r@.map_values(f) =~= want.take(0));
        while i < n
            invariant
                self.wf(),
                n == self.order().len(),
                i <= n,
                f == (|a: ActorInfo| a@),
                want == self.order().map_values(|k: Seq<char>| self@[k]),
                r@.map_values(f) == want.take(i as int),
            decreases n - i,
        {
            let ghost before = r@;
            let x = self.actors.value_at(i).clone();
            r.push(x);
            proof {
                assert(r@.map_values(f) =~= before.map_values(f).push(x@));
                assert(want.take(i + 1) =~= want.take(i as int).push(want[i as int]));
            }
            i += 1;
        }
        assert(want.take(n as int) =~= want);
        r
    }

    /// Number of actors.
    pub fn len(&self) -> (n: usize)
        requires
            self.wf(),
        ensures
            n == self@.dom().len(),
    {
        proof {
            self.lemma_model();
        }
        self.actors.len()
    }

    /// Gives an actor a name at time `now_ms`. Gives back whether the name is new.
    pub fn register_actor_at(&mut self, req: RegisterActorRequest, now_ms: u64) -> (r: Result<
        bool,
        Status,
    >)
        requires
            old(self).wf(),
        ensures
            final(self).wf(),
            match r {
                Ok(added) => {
                    &&& register_error(old(self)@, req) is None
                    &&& added == !old(self)@.contains_key(req.name@)
                    &&& final(self)@ == register_step(old(self)@, req, now_ms)
                    &&& final(self).order() == (if added {
                        old(self).order().push(req.name@)
                    } else {
                        old(self).order()
                    })
                },
                Err(e) => register_error(old(self)@, req) == Some(e@) && *final(self) == *old(self),
            },
    {
        if req.name.as_str().unicode_len() == 0 {
            return Err(Status::invalid_argument("name must not be empty"));
        }
        match parse_id(req.actor_id.as_slice(), "actor_id") {
            Ok(_) => {},
            Err(e) => return Err(e),
        }
        match check_optional_id(req.owner_node_id.as_slice(), "owner_node_id") {
            Ok(()) => {},
            Err(e) => return Err(e),
        }
        match self.actors.get(&req.name) {
            Some(existing) => {
                if slices_equal(existing.actor_id.as_slice(), req.actor_id.as_slice()) {
                    return Ok(false);
                }
                let name = quoted(req.name.as_str());
                return Err(
                    Status::new(
                        RpcCode::AlreadyExists,
                        concat3("actor name ", name.as_str(), " is already registered"),
                    ),
                );
            },
            None => {},
        }
        let info = ActorInfo {
            name: req.name.clone(),
            actor_id: req.actor_id,
            owner_node_id: req.owner_node_id,
            owner_pid: req.owner_pid,
            registered_at_unix_ms: now_ms,
            driver_actor_host: req.driver_actor_host,
            driver_actor_port: req.driver_actor_port,
        };
        self.actors.insert(req.name, info);
        assert(self@ =~= old(self)@.insert(req.name@, new_actor(req, now_ms)));
        Ok(true)
    }

    /// Gives an actor a name at the present time.
    pub fn register_actor(&mut self, req: RegisterActorRequest) -> (r: Result<bool, Status>)
        requires
            old(self).wf(),
        ensures
            final(self).wf(),
            match r {
                Ok(added) => {
                    &&& register_error(old(self)@, req) is None
                    &&& added == !old(self)@.contains_key(req.name@)
                    &&& exists|now: u64|
                        final(self)@ == #[trigger] register_step(old(self)@, req, now)
                },
                Err(e) => register_error(old(self)@, req) == Some(e@) && *final(self) == *old(self),
            },
    {
        let now: u64 = unix_ms();
        self.register_actor_at(req, now)
    }

    /// The actor with a name.
    pub fn get_actor(&self, name: &String) -> (r: Result<ActorInfo, Status>)
        requires
            self.wf(),
        ensures
            match r {
                Ok(info) => name@.len() > 0 && self@.contains_key(name@) && info@ == self@[name@],
                Err(e) => if name@.len() == 0 {
                    e@ == (RpcCode::InvalidArgument, "name must not be empty"@)
                } else {
                    !self@.contains_key(name@) && e@ == (
                        RpcCode::NotFound,
                        "no actor named "@ + text::quoted_text(name@),
                    )
                },
            },
    {
        if name.as_str().unicode_len() == 0 {
            return Err(Status::invalid_argument("name must not be empty"));
        }
        match self.actors.get(name) {
            None => {
                let shown = quoted(name.as_str());
                Err(Status::new(RpcCode::NotFound, concat2("no actor named ", shown.as_str())))
            },
            Some(info) => Ok(info.clone()),
        }
    }

    /// Takes a name back from the actor that has it.
    pub fn unregister_actor(&mut self, name: &String, actor_id: &[u8]) -> (r: Result<(), Status>)
        requires
            old(self).wf(),
        ensures
            final(self).wf(),
            match r {
                Ok(()) => {
                    &&& unregister_error(old(self)@, name@, actor_id@) is None
                    &&& final(self)@ == old(self)@.remove(name@)
                    &&& final(self).order() == old(self).order().filter(
                        |k: Seq<char>| k != name@,
                    )
                },
                Err(e) => unregister_error(old(self)@, name@, actor_id@) == Some(e@)
                    && *final(self) == *old(self),
            },
    {
        match parse_id(actor_id, "actor_id") {
            Ok(_) => {},
            Err(e) => return Err(e),
        }
        match self.actors.get(name) {
            None => return Err(Status::not_found("unknown actor name")),
            Some(existing) => {
                if !slices_equal(existing.actor_id.as_slice(), actor_id) {
                    return Err(
                        Status::new(
                            RpcCode::FailedPrecondition,
                            "actor_id does not match registered entry".to_owned(),
                        ),
                    );
                }
            },
        }
        self.actors.remove(name);
        assert(self@ =~= old(self)@.remove(name@));
        Ok(())
    }
}

/// A name goes to one actor: once it is given, the same request changes nothing, another
/// actor is refused until the name is taken back, and only the actor that has it can take
/// it back.
pub proof fn law_name_is_exclusive(
    actors: Map<Seq<char>, ActorModel>,
    req: RegisterActorRequest,
    other: RegisterActorRequest,
    now: u64,
    later: u64,
)
    requires
        register_error(actors, req) is None,
        other.name@ == req.name@,
    ensures
        ({
            let after = register_step(actors, req, now);
            &&& after.contains_key(req.name@)
            &&& after[req.name@].actor_id == req.actor_id@
            &&& register_error(after, req) is None
            &&& register_step(after, req, later) == after
            &&& other.actor_id@ != req.actor_id@ ==> register_error(after, other) is Some
            &&& (unregister_error(after, req.name@, other.actor_id@) is None) == (other.actor_id@
                == req.actor_id@)
        }),
{
}

/// Giving a free name and taking it back leaves the registry as it was, and the name free.
pub proof fn law_unregister_frees_the_name(
    actors: Map<Seq<char>, ActorModel>,
    req: RegisterActorRequest,
    now: u64,
)
    requires
        register_error(actors, req) is None,
        !actors.contains_key(req.name@),
    ensures
        register_step(actors, req, now).remove(req.name@) == actors,
        !register_step(actors, req, now).remove(req.name@).contains_key(req.name@),
{
    assert(register_step(actors, req, now).remove(req.name@) =~= actors);
}

/// A free name is given to the actor of the request, with the owner and the endpoint of the
/// request; the other names stay as they were.
pub proof fn law_registration_keeps_the_request(
    actors: Map<Seq<char>, ActorModel>,
    req: RegisterActorRequest,
    now: u64,
    other: Seq<char>,
)
    requires
        !actors.contains_key(req.name@),
        other != req.name@,
    ensures
        ({
            let after = register_step(actors, req, now);
            &&& after.contains_key(req.name@)
            &&& after[req.name@].name == req.name@
            &&& after[req.name@].actor_id == req.actor_id@
            &&& after[req.name@].owner_node_id == req.owner_node_id@
            &&& after[req.name@].owner_pid == req.owner_pid
            &&& after[req.name@].host == req.driver_actor_host@
            &&& after[req.name@].port == req.driver_actor_port
            &&& after[req.name@].registered_at == now
            &&& after.contains_key(other) == actors.contains_key(other)
            &&& actors.contains_key(other) ==> after[other] == actors[other]
        }),
{
}

/// A name that is taken keeps its entry, endpoint and all, whatever is asked for it.
pub proof fn law_taken_name_is_kept(
    actors: Map<Seq<char>, ActorModel>,
    req: RegisterActorRequest,
    now: u64,
)
    requires
        actors.contains_key(req.name@),
    ensures
        register_step(actors, req, now) == actors,
{
}

/// A request is accepted exactly where it has a name, an identifier of 16 bytes, an owner's
/// node of 16 bytes or none, and no other actor has the name; that another one has it is told
/// apart from a request that is not in order.
pub proof fn law_registration_is_refused_for_a_reason(
    actors: Map<Seq<char>, ActorModel>,
    req: RegisterActorRequest,
)
    ensures
        ({
            let in_order = req.name@.len() > 0 && req.actor_id@.len() == 16 && (
            req.owner_node_id@.len() == 0 || req.owner_node_id@.len() == 16);
            let taken = actors.contains_key(req.name@) && actors[req.name@].actor_id
                != req.actor_id@;
            &&& register_error(actors, req) is None <==> in_order && !taken
            &&& (register_error(actors, req) matches Some(e) && e.0 == RpcCode::AlreadyExists)
                <==> in_order && taken
            &&& (register_error(actors, req) matches Some(e) && e.0 == RpcCode::InvalidArgument)
                <==> !in_order
        }),
{
}

/// A name is taken back exactly by the actor that has it; why not is told by the kind.
pub proof fn law_name_is_taken_back_by_its_actor(
    actors: Map<Seq<char>, ActorModel>,
    name: Seq<char>,
    actor_id: Seq<u8>,
)
    ensures
        ({
            let e = unregister_error(actors, name, actor_id);
            &&& e is None <==> actor_id.len() == 16 && actors.contains_key(name)
                && actors[name].actor_id == actor_id
            &&& (e matches Some(x) && x.0 == RpcCode::InvalidArgument) <==> actor_id.len() != 16
            &&& (e matches Some(x) && x.0 == RpcCode::NotFound) <==> actor_id.len() == 16
                && !actors.contains_key(name)
            &&& (e matches Some(x) && x.0 == RpcCode::FailedPrecondition) <==> actor_id.len() == 16
                && actors.contains_key(name) && actors[name].actor_id != actor_id
        }),
{
}

/// An actor is modelled with all that is known of it.
pub proof fn law_actors_are_modelled(a: ActorInfo)
    ensures
        a@.name == a.name@,
        a@.actor_id == a.actor_id@,
        a@.owner_node_id == a.owner_node_id@,
        a@.owner_pid == a.owner_pid,
        a@.registered_at == a.registered_at_unix_ms,
        a@.host == a.driver_actor_host@,
        a@.port == a.driver_actor_port,
{
}

} // verus!
