//! One connection to the server, frame by frame.

use crate::plasma::codec;
use crate::plasma::codec::{decode, encode, WireMessage};
use crate::plasma::error::{CodecError, PlasmaError, ServerErrorKind};
use crate::plasma::server;
use crate::plasma::server::{malformed_response, MetricsUpdate, PlasmaServer};
use crate::plasma::wire;
use crate::plasma::wire::{Request, Response};
use vstd::prelude::*;

verus! {

/// What the server sends for a frame.
#[derive(Debug)]
pub struct Served {
    /// The body of the answer; nothing where the connection is to be closed.
    pub reply: Option<Vec<u8>>,
    /// Whether the arena's file descriptor goes with it.
    pub attach_fd: bool,
    /// What changes in the metrics.
    pub metrics: MetricsUpdate,
}

/// The body of an answer.
pub open spec fn reply_body(r: Option<wire::ResponseModel>) -> Option<Seq<u8>> {
    match r {
        None => None,
        Some(x) => Some(<Response as WireMessage>::wire(x)),
    }
}

/// The body that is sent.
pub open spec fn body_view(b: Option<Vec<u8>>) -> Option<Seq<u8>> {
    match b {
        None => None,
        Some(b) => Some(b@),
    }
}

impl PlasmaServer {
    /// Serves the frame with the given body; `memory` is the arena's region. A body that
    /// holds no request changes nothing and is answered with a failure.
    pub fn serve(&mut self, memory: &[u8], body: &[u8]) -> (r: Served)
        requires
            old(self).wf(),
            memory@.len() == old(self)@.arena.capacity,
        ensures
            final(self).wf(),
            match <Request as WireMessage>::parse(body@) {
                Ok(request) => exists|answer: Option<wire::ResponseModel>|
                    {
                        &&& #[trigger] server::server_step(
                            old(self)@,
                            memory@,
                            request,
                            final(self)@,
                            answer,
                        )
                        &&& body_view(r.reply) == reply_body(answer)
                        &&& r.attach_fd == (answer matches Some(x) && server::attaches_fd(x))
                        &&& r.metrics == server::metrics_of(request, final(self)@, answer)
                    },
                Err(e) => {
                    &&& final(self)@ == old(self)@
                    &&& body_view(r.reply) == reply_body(
                        Some(
                            wire::ResponseModel::Error(
                                ServerErrorKind::Internal,
                                "malformed request: "@ + e.spec_text(),
                            ),
                        ),
                    )
                    &&& !r.attach_fd
                    &&& r.metrics == (MetricsUpdate {
                        counter: None,
                        objects: None,
                        arena_used: None,
                    })
                },
            },
    {
        match decode::<Request>(body) {
            Err(e) => {
                let response = malformed_response(&e);
                Served {
                    reply: Some(encode(&response)),
                    attach_fd: false,
                    metrics: MetricsUpdate { counter: None, objects: None, arena_used: None },
                }
            },
            Ok(request) => {
                let reply = self.handle(memory, &request);
                let ghost answer = server::answer(reply.response);
                assert(server::server_step(old(self)@, memory@, request@, self@, answer));
                let body = match &reply.response {
                    None => None,
                    Some(response) => Some(encode(response)),
                };
                Served { reply: body, attach_fd: reply.attach_fd, metrics: reply.metrics }
            },
        }
    }
}

/// Whether a connection whose next frame could not be received is over without a failure:
/// where the other side closed it, between frames (`at_eof`) or in the middle of one.
pub fn ends_quietly(e: &PlasmaError, at_eof: bool) -> (b: bool)
    ensures
        b == ((e is Io && at_eof) || e is Protocol),
{
    match e {
        PlasmaError::Io(_) => at_eof,
        PlasmaError::Protocol(_) => true,
        _ => false,
    }
}

/// An answer goes out as the bytes that decode to it, and the end of a connection as none.
pub proof fn law_answers_are_sent_whole(r: Option<wire::ResponseModel>)
    requires
        r matches Some(x) ==> codec::response_ok(x) && codec::response_wire(x).len()
            <= codec::MAX_FRAME_BYTES,
    ensures
        reply_body(r) is None <==> r is None,
        reply_body(r) matches Some(b) ==> codec::parse_response(b) == Ok::<
            wire::ResponseModel,
            CodecError,
        >(r->0),
{
    if let Some(x) = r {
        let b = codec::response_wire(x);
        codec::law_response_round_trip(x, Seq::empty());
        assert(b + Seq::<u8>::empty() =~= b);
    }
}

} // verus!
