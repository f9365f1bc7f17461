//! The transfer of objects between nodes, on the side that serves.

use crate::gcs::status;
use crate::gcs::status::{parse_id, wrong_id_message, RpcCode, Status};
use crate::plasma::error::{PlasmaError, ServerErrorKind};
use crate::raylet::directory;
use crate::raylet::directory::ObjectDirectory;
use crate::raylet::owner_sink::SinkCall;
use crate::raylet::spill::{RestoredObject, SpillError};
use crate::util::bytes::{copy_bytes, copy_range, push_bytes, to_array};
use crate::util::text;
use crate::util::text::{concat2, push_decimal, with_number};
use vstd::prelude::*;

verus! {

/// Most bytes of payload in one frame.
pub const PULL_CHUNK_SIZE: usize = 65_536;

/// Frames that may wait for a slow reader.
pub const PULL_CHANNEL_DEPTH: usize = 8;

/// Number of frames for a payload of `len` bytes.
pub open spec fn chunk_count(len: int) -> int {
    (len + PULL_CHUNK_SIZE - 1) / PULL_CHUNK_SIZE as int
}

/// Where the payload of the first `i` frames ends.
pub open spec fn chunk_end(len: int, i: int) -> int {
    if i * PULL_CHUNK_SIZE < len {
        i * PULL_CHUNK_SIZE
    } else {
        len
    }
}

/// The payload of frame `i`.
pub open spec fn chunk(data: Seq<u8>, i: int) -> Seq<u8> {
    data.subrange(chunk_end(data.len() as int, i), chunk_end(data.len() as int, i + 1))
}

/// The payload cut into frames.
pub open spec fn chunks(data: Seq<u8>) -> Seq<Seq<u8>> {
    Seq::new(chunk_count(data.len() as int) as nat, |i: int| chunk(data, i))
}

/// The payload cut into frames.
pub fn cut(data: &[u8]) -> (r: Vec<Vec<u8>>)
    ensures
        r@.map_values(|c: Vec<u8>| c@) == chunks(data@),
{
    let mut r: Vec<Vec<u8>> = Vec::new();
    let n: usize = data.len();
    let mut start: usize = 0;
    let ghost f = |c: Vec<u8>| c@;
    assert(data@.len() == n);
    assert(r@.map_values(f) =~= chunks(data@).take(0));
    while start < n
        invariant
            n == data@.len(),
            start == chunk_end(n as int, r@.len() as int),
            start < n ==> start == r@.len() * PULL_CHUNK_SIZE,
            f == (|c: Vec<u8>| c@),
            r@.len() <= chunk_count(n as int),
            start == n ==> r@.len() == chunk_count(n as int),
            r@.map_values(f) == chunks(data@).take(r@.len() as int),
        decreases n - start,
    {
        let end: usize = if n - start > PULL_CHUNK_SIZE {
            start + PULL_CHUNK_SIZE
        } else {
            n
        };
        let c = copy_range(data, start, end);
        let ghost before = r@;
        let ghost k = before.len() as int;
        r.push(c);
        proof {
            assert(end == chunk_end(n as int, k + 1));
            assert(c@ == chunk(data@, k));
            assert(k < chunk_count(n as int));
            assert(r@.map_values(f) =~= before.map_values(f).push(c@));
            assert(chunks(data@).take(k + 1) =~= chunks(data@).take(k).push(chunk(data@, k)));
        }
        start = end;
    }
    assert(chunks(data@).take(r@.len() as int) =~= chunks(data@));
    r
}

/// Takes an object's identifier out of a request.
pub fn parse_object_id(b: &[u8]) -> (r: Result<[u8; 28], Status>)
    ensures
        match r {
            Ok(id) => id@ == b@,
            Err(e) => b@.len() != 28 && e@ == (
                RpcCode::InvalidArgument,
                status::wrong_id_length("object_id"@, 28, b@.len()),
            ),
        },
{
    if b.len() != 28 {
        return Err(Status::new(RpcCode::InvalidArgument, wrong_id_message("object_id", 28, b.len())));
    }
    Ok(to_array(b))
}

/// Takes a node's identifier out of a request.
pub fn parse_node_id(b: &[u8]) -> (r: Result<[u8; 16], Status>)
    ensures
        match r {
            Ok(id) => id@ == b@,
            Err(e) => b@.len() != 16 && e@ == (
                RpcCode::InvalidArgument,
                status::wrong_id_length("node_id"@, 16, b@.len()),
            ),
        },
{
    parse_id(b, "node_id")
}

/// A frame of a pulled object.
#[derive(Debug, PartialEq, Eq)]
pub enum PullKind {
    /// The metadata and the size of the payload; comes first.
    Meta {
        /// Encoded metadata.
        metadata: Vec<u8>,
        /// Size of the payload.
        data_size: u64,
    },
    /// A part of the payload.
    Data(Vec<u8>),
}

/// The mathematical content of a `PullKind`.
pub enum PullModel {
    /// The metadata and the size of the payload.
    Meta {
        /// Encoded metadata.
        metadata: Seq<u8>,
        /// Size of the payload.
        data_size: u64,
    },
    /// A part of the payload.
    Data(Seq<u8>),
}

impl View for PullKind {
    type V = PullModel;

    open spec fn view(&self) -> PullModel {
        match self {
            PullKind::Meta { metadata, data_size } => PullModel::Meta {
                metadata: metadata@,
                data_size: *data_size,
            },
            PullKind::Data(b) => PullModel::Data(b@),
        }
    }
}

/// A frame of a pushed object.
#[derive(Debug, PartialEq, Eq)]
pub enum PushKind {
    /// The object, its metadata and the size of its payload; comes first.
    Header {
        /// The object.
        object_id: Vec<u8>,
        /// Encoded metadata.
        metadata: Vec<u8>,
        /// Size of the payload.
        data_size: u64,
    },
    /// A part of the payload.
    Data(Vec<u8>),
}

/// The mathematical content of a `PushKind`.
pub enum PushModel {
    /// The object, its metadata and the size of its payload.
    Header {
        /// The object.
        object_id: Seq<u8>,
        /// Encoded metadata.
        metadata: Seq<u8>,
        /// Size of the payload.
        data_size: u64,
    },
    /// A part of the payload.
    Data(Seq<u8>),
}

impl View for PushKind {
    type V = PushModel;

    open spec fn view(&self) -> PushModel {
        match self {
            PushKind::Header { object_id, metadata, data_size } => PushModel::Header {
                object_id: object_id@,
                metadata: metadata@,
                data_size: *data_size,
            },
            PushKind::Data(b) => PushModel::Data(b@),
        }
    }
}

/// The content of a frame, which may be empty.
pub open spec fn push_frame_view(frame: Option<PushKind>) -> Option<PushModel> {
    match frame {
        None => None,
        Some(k) => Some(k@),
    }
}

/// The frames of a pulled object.
pub open spec fn pull_frames_of(metadata: Seq<u8>, data: Seq<u8>) -> Seq<PullModel> {
    seq![PullModel::Meta { metadata, data_size: data.len() as u64 }] + chunks(data).map_values(
        |c: Seq<u8>| PullModel::Data(c),
    )
}

/// The frames of a pulled object: the metadata first, then the payload in parts.
pub fn pull_frames(metadata: &[u8], data: &[u8]) -> (r: Vec<PullKind>)
    ensures
        r@.map_values(|k: PullKind| k@) == pull_frames_of(metadata@, data@),
{
    let parts = cut(data);
    let n: usize = parts.len();
    let mut r: Vec<PullKind> = Vec::new();
    r.push(PullKind::Meta { metadata: copy_bytes(metadata), data_size: data.len() as u64 });
    let mut i: usize = 0;
    let ghost f = |k: PullKind| k@;
    let ghost want = pull_frames_of(metadata@, data@);
    proof {
        assert(parts@.map_values(|c: Vec<u8>| c@).len() == n);
        assert(r@.map_values(f) =~= want.take(1));
    }
    while i < n
        invariant
            n == parts@.len(),
            i <= n,
            f == (|k: PullKind| k@),
            want == pull_frames_of(metadata@, data@),
            parts@.map_values(|c: Vec<u8>| c@) == chunks(data@),
            want.len() == n + 1,
            r@.map_values(f) == want.take(i + 1),
        decreases n - i,
    {
        let ghost before = r@;
        let k = PullKind::Data(copy_bytes(parts[i].as_slice()));
        r.push(k);
        proof {
            assert(parts@.map_values(|c: Vec<u8>| c@)[i as int] == parts@[i as int]@);
            assert(want[i + 1] == k@);
            assert(r@.map_values(f) =~= before.map_values(f).push(k@));
            assert(want.take(i + 2) =~= want.take(i + 1).push(want[i + 1]));
        }
        i += 1;
    }
    assert(want.take(n + 1) =~= want);
    r
}

/// How far a push has come.
#[verifier::ext_equal]
pub struct PushState {
    /// The object.
    pub object_id: Seq<u8>,
    /// Encoded metadata.
    pub metadata: Seq<u8>,
    /// Size of the payload.
    pub data_size: nat,
    /// The payload so far.
    pub data: Seq<u8>,
}

/// A refusal: its kind and message.
pub type Refusal = (RpcCode, Seq<char>);

/// The state after the first frame; `first` is nothing where the stream ended before it.
pub open spec fn push_first(first: Option<Option<PushModel>>) -> Result<PushState, Refusal> {
    match first {
        None => Err((RpcCode::InvalidArgument, "push stream closed before header"@)),
        Some(None) => Err((RpcCode::InvalidArgument, "first push frame is empty"@)),
        Some(Some(PushModel::Data(_))) => Err(
            (RpcCode::InvalidArgument, "first push frame must be a Header, got Data"@),
        ),
        Some(Some(PushModel::Header { object_id, metadata, data_size })) => if object_id.len()
            != 28 {
            Err(
                (
                    RpcCode::InvalidArgument,
                    status::wrong_id_length("object_id"@, 28, object_id.len()),
                ),
            )
        } else if data_size > usize::MAX {
            Err(
                (
                    RpcCode::InvalidArgument,
                    "data_size "@ + text::decimal_text(data_size as nat) + " doesn't fit in usize"@,
                ),
            )
        } else {
            Ok(
                PushState {
                    object_id,
                    metadata,
                    data_size: data_size as nat,
                    data: Seq::empty(),
                },
            )
        },
    }
}

/// The state after one more frame.
pub open spec fn push_next(s: PushState, frame: Option<PushModel>) -> Result<PushState, Refusal> {
    match frame {
        None => Err((RpcCode::InvalidArgument, "received empty push frame"@)),
        Some(PushModel::Header { .. }) => Err(
            (RpcCode::InvalidArgument, "received second header frame mid-stream"@),
        ),
        Some(PushModel::Data(b)) => if s.data.len() + b.len() > s.data_size {
            Err(
                (
                    RpcCode::InvalidArgument,
                    "push data overran header.data_size: header said "@ + text::decimal_text(
                        s.data_size,
                    ) + ", received "@ + text::decimal_text(s.data.len()) + " so far + "@
                        + text::decimal_text(b.len()) + " more"@,
                ),
            )
        } else {
            Ok(PushState { data: s.data + b, ..s })
        },
    }
}

/// Whether the stream may end here.
pub open spec fn push_end(s: PushState) -> Result<PushState, Refusal> {
    if s.data.len() != s.data_size {
        Err(
            (
                RpcCode::InvalidArgument,
                "push short read: header promised "@ + text::decimal_text(s.data_size)
                    + " bytes, got "@ + text::decimal_text(s.data.len()),
            ),
        )
    } else {
        Ok(s)
    }
}

/// The state after some frames, the first of them the first of the stream.
pub open spec fn push_run(frames: Seq<Option<PushModel>>) -> Result<PushState, Refusal>
    decreases frames.len(),
{
    if frames.len() == 0 {
        push_first(None)
    } else if frames.len() == 1 {
        push_first(Some(frames[0]))
    } else {
        match push_run(frames.drop_last()) {
            Err(e) => Err(e),
            Ok(s) => push_next(s, frames.last()),
        }
    }
}

/// What a whole stream amounts to.
pub open spec fn push_outcome(frames: Seq<Option<PushModel>>) -> Result<PushState, Refusal> {
    match push_run(frames) {
        Err(e) => Err(e),
        Ok(s) => push_end(s),
    }
}

/// An object that is being pushed.
#[derive(Debug)]
pub struct PushReceiver {
    object_id: [u8; 28],
    metadata: Vec<u8>,
    data_size: usize,
    data: Vec<u8>,
}

impl View for PushReceiver {
    type V = PushState;

    closed spec fn view(&self) -> PushState {
        PushState {
            object_id: self.object_id@,
            metadata: self.metadata@,
            data_size: self.data_size as nat,
            data: self.data@,
        }
    }
}

impl PushReceiver {
    /// No more of the payload has come than was promised.
    pub closed spec fn wf(&self) -> bool {
        self.data@.len() <= self.data_size
    }

    /// Takes the first frame; `first` is nothing where the stream ended before it.
    pub fn begin(first: Option<Option<PushKind>>) -> (r: Result<Self, Status>)
        ensures
            ({
                let model = match first {
                    None => None,
                    Some(frame) => Some(push_frame_view(frame)),
                };
                match r {
                    Ok(p) => p.wf() && push_first(model) == Ok::<PushState, Refusal>(p@),
                    Err(e) => push_first(model) == Err::<PushState, Refusal>(e@),
                }
            }),
    {
        let (object_id, metadata, data_size) = match first {
            None => return Err(Status::invalid_argument("push stream closed before header")),
            Some(None) => return Err(Status::invalid_argument("first push frame is empty")),
            Some(Some(PushKind::Data(_))) => return Err(
                Status::invalid_argument("first push frame must be a Header, got Data"),
            ),
            Some(Some(PushKind::Header { object_id, metadata, data_size })) => (
                object_id,
                metadata,
                data_size,
            ),
        };
        let object_id: [u8; 28] = match parse_object_id(object_id.as_slice()) {
            Ok(id) => id,
            Err(e) => return Err(e),
        };
        if data_size > usize::MAX as u64 {
            return Err(
                Status::new(
                    RpcCode::InvalidArgument,
                    with_number("data_size ", data_size, " doesn't fit in usize"),
                ),
            );
        }
        let r = PushReceiver {
            object_id,
            metadata,
            data_size: data_size as usize,
            data: Vec::new(),
        };
        assert(r.data@ =~= Seq::<u8>::empty());
        Ok(r)
    }

    /// Takes one more frame. One that is refused changes nothing.
    pub fn frame(&mut self, frame: Option<PushKind>) -> (r: Result<(), Status>)
        requires
            old(self).wf(),
        ensures
            final(self).wf(),
            match r {
                Ok(()) => push_next(old(self)@, push_frame_view(frame)) == Ok::<PushState, Refusal>(
                    final(self)@,
                ),
                Err(e) => push_next(old(self)@, push_frame_view(frame)) == Err::<
                    PushState,
                    Refusal,
                >(e@) && *final(self) == *old(self),
            },
    {
        match frame {
            None => Err(Status::invalid_argument("received empty push frame")),
            Some(PushKind::Header { .. }) => Err(
                Status::invalid_argument("received second header frame mid-stream"),
            ),
            Some(PushKind::Data(b)) => {
                if b.len() > self.data_size - self.data.len() {
                    let mut message = with_number(
                        "push data overran header.data_size: header said ",
                        self.data_size as u64,
                        ", received ",
                    );
                    push_decimal(&mut message, self.data.len() as u64);
                    message.append(" so far + ");
                    push_decimal(&mut message, b.len() as u64);
                    message.append(" more");
                    return Err(Status::new(RpcCode::InvalidArgument, message));
                }
                push_bytes(&mut self.data, b.as_slice());
                Ok(())
            },
        }
    }

    /// The stream ended.
    pub fn finish(self) -> (r: Result<PushedObject, Status>)
        requires
            self.wf(),
        ensures
            match r {
                Ok(o) => push_end(self@) is Ok && o.object_id@ == self@.object_id && o.metadata@
                    == self@.metadata && o.data@ == self@.data,
                Err(e) => push_end(self@) == Err::<PushState, Refusal>(e@),
            },
    {
        if self.data.len() != self.data_size {
            let mut message = with_number(
                "push short read: header promised ",
                self.data_size as u64,
                " bytes, got ",
            );
            push_decimal(&mut message, self.data.len() as u64);
            return Err(Status::new(RpcCode::InvalidArgument, message));
        }
        Ok(PushedObject { object_id: self.object_id, metadata: self.metadata, data: self.data })
    }
}

/// An object that was pushed.
#[derive(Debug, PartialEq, Eq)]
pub struct PushedObject {
    /// The object.
    pub object_id: [u8; 28],
    /// Encoded metadata.
    pub metadata: Vec<u8>,
    /// The payload.
    pub data: Vec<u8>,
}

/// What it means that a pushed object could not be sealed: that it is there already is no
/// failure.
pub fn push_sealed(r: Result<(), PlasmaError>) -> (s: Result<(), Status>)
    ensures
        match r {
            Ok(()) => s == Ok::<(), Status>(()),
            Err(e) => if e.spec_is(ServerErrorKind::AlreadyExists) {
                s == Ok::<(), Status>(())
            } else {
                s matches Err(status) && status@ == (RpcCode::Internal, "plasma: "@ + e.spec_text())
            },
        },
{
    match r {
        Ok(()) => Ok(()),
        Err(e) => if e.is(ServerErrorKind::AlreadyExists) {
            Ok(())
        } else {
            let shown = e.text();
            Err(Status::new(RpcCode::Internal, concat2("plasma: ", shown.as_str())))
        },
    }
}

/// The refusal for a failure of the shared-memory store.
pub open spec fn plasma_status(e: PlasmaError) -> Refusal {
    if e.spec_is(ServerErrorKind::NotFound) {
        (RpcCode::NotFound, "object not present in plasma"@)
    } else if e.spec_is(ServerErrorKind::NotSealed) {
        (RpcCode::FailedPrecondition, "object exists but is unsealed"@)
    } else {
        (RpcCode::Internal, "plasma: "@ + e.spec_text())
    }
}

/// The refusal for a failure of the shared-memory store.
pub fn plasma_to_status(e: &PlasmaError) -> (r: Status)
    ensures
        r@ == plasma_status(*e),
{
    if e.is(ServerErrorKind::NotFound) {
        Status::not_found("object not present in plasma")
    } else if e.is(ServerErrorKind::NotSealed) {
        Status::new(RpcCode::FailedPrecondition, "object exists but is unsealed".to_owned())
    } else {
        let shown = e.text();
        Status::new(RpcCode::Internal, concat2("plasma: ", shown.as_str()))
    }
}

/// What to do after the first attempt to read an object for a pull.
#[derive(Debug)]
pub enum GetNext<T> {
    /// It was read.
    Ready(T),
    /// Read it back from where it was spilled to.
    Restore,
    /// The pull fails.
    Failed(Status),
}

/// What to do after the first attempt to read an object for a pull: one that is not in
/// shared memory may have been spilled.
pub fn first_get<T>(r: Result<T, PlasmaError>, can_restore: bool) -> (n: GetNext<T>)
    ensures
        match r {
            Ok(t) => n == GetNext::Ready(t),
            Err(e) => if e.spec_is(ServerErrorKind::NotFound) && can_restore {
                n == GetNext::<T>::Restore
            } else {
                n matches GetNext::Failed(s) && s@ == plasma_status(e)
            },
        },
{
    match r {
        Ok(t) => GetNext::Ready(t),
        Err(e) => if e.is(ServerErrorKind::NotFound) && can_restore {
            GetNext::Restore
        } else {
            GetNext::Failed(plasma_to_status(&e))
        },
    }
}

/// The object to seal again after an attempt to read it back.
pub fn restored(r: Result<Option<RestoredObject>, SpillError>) -> (s: Result<
    RestoredObject,
    Status,
>)
    ensures
        match r {
            Ok(Some(o)) => s == Ok::<RestoredObject, Status>(o),
            Ok(None) => s matches Err(status) && status@ == (
                RpcCode::NotFound,
                "object not present in plasma or spill"@,
            ),
            Err(e) => s matches Err(status) && status@ == (
                RpcCode::Internal,
                "spill restore: "@ + e@.text(),
            ),
        },
{
    match r {
        Ok(Some(o)) => Ok(o),
        Ok(None) => Err(Status::not_found("object not present in plasma or spill")),
        Err(e) => {
            let shown = e.text();
            Err(Status::new(RpcCode::Internal, concat2("spill restore: ", shown.as_str())))
        },
    }
}

/// What it means that an object that was read back was sealed, or not: that it is there
/// already is no failure.
pub fn resealed(r: Result<(), PlasmaError>) -> (s: Result<(), Status>)
    ensures
        match r {
            Ok(()) => s == Ok::<(), Status>(()),
            Err(e) => if e.spec_is(ServerErrorKind::AlreadyExists) {
                s == Ok::<(), Status>(())
            } else {
                s matches Err(status) && status@ == plasma_status(e)
            },
        },
{
    match r {
        Ok(()) => Ok(()),
        Err(e) => if e.is(ServerErrorKind::AlreadyExists) {
            Ok(())
        } else {
            Err(plasma_to_status(&e))
        },
    }
}

/// The outcome of the second attempt to read an object for a pull.
pub fn second_get<T>(r: Result<T, PlasmaError>) -> (s: Result<T, Status>)
    ensures
        match r {
            Ok(t) => s == Ok::<T, Status>(t),
            Err(e) => s matches Err(status) && status@ == plasma_status(e),
        },
{
    match r {
        Ok(t) => Ok(t),
        Err(e) => Err(plasma_to_status(&e)),
    }
}

/// Why a request to note or remove a holder is refused.
pub open spec fn holder_error(object_id: Seq<u8>, node_id: Seq<u8>) -> Option<Refusal> {
    if object_id.len() != 28 {
        Some((RpcCode::InvalidArgument, status::wrong_id_length("object_id"@, 28, object_id.len())))
    } else if node_id.len() != 16 {
        Some((RpcCode::InvalidArgument, status::wrong_id_length("node_id"@, 16, node_id.len())))
    } else {
        None
    }
}

/// The part of the service that keeps the directory of holders.
#[derive(Debug)]
pub struct ObjectTransportService {
    /// Who holds what.
    pub directory: ObjectDirectory,
}

impl ObjectTransportService {
    /// The directory is well formed.
    pub open spec fn wf(&self) -> bool {
        self.directory.wf()
    }

    /// A service that knows of no holders.
    pub fn new() -> (r: Self)
        ensures
            r.wf(),
            r.directory@ == Map::<Seq<u8>, Set<Seq<u8>>>::empty(),
    {
        ObjectTransportService { directory: ObjectDirectory::new() }
    }

    /// Notes that a node holds an object. Gives back what the owner is told, and the number
    /// of objects with a holder.
    pub fn register_object(&mut self, object_id: &[u8], node_id: &[u8]) -> (r: Result<
        (SinkCall, usize),
        Status,
    >)
        requires
            old(self).wf(),
        ensures
            final(self).wf(),
            match r {
                Ok((call, entries)) => {
                    &&& holder_error(object_id@, node_id@) is None
                    &&& final(self).directory@ == directory::dir_register(
                        old(self).directory@,
                        object_id@,
                        node_id@,
                    )
                    &&& (call matches SinkCall::AddBorrower {
                        object_id: o,
                        borrower_node_id: n,
                    } && o@ == object_id@ && n@ == node_id@)
                    &&& entries == final(self).directory@.dom().len()
                },
                Err(e) => holder_error(object_id@, node_id@) == Some(e@) && *final(self) == *old(
                    self,
                ),
            },
    {
        let object_id: [u8; 28] = match parse_object_id(object_id) {
            Ok(id) => id,
            Err(e) => return Err(e),
        };
        let node_id: [u8; 16] = match parse_node_id(node_id) {
            Ok(id) => id,
            Err(e) => return Err(e),
        };
        self.directory.register(object_id, node_id);
        Ok((SinkCall::AddBorrower { object_id, borrower_node_id: node_id }, self.directory.len()))
    }

    /// Notes that a node no longer holds an object. Gives back what the owner is told.
    pub fn wait_for_ref_removed(&mut self, object_id: &[u8], node_id: &[u8]) -> (r: Result<
        SinkCall,
        Status,
    >)
        requires
            old(self).wf(),
        ensures
            final(self).wf(),
            match r {
                Ok(call) => {
                    &&& holder_error(object_id@, node_id@) is None
                    &&& final(self).directory@ == directory::dir_remove(
                        old(self).directory@,
                        object_id@,
                        node_id@,
                    )
                    &&& (call matches SinkCall::RemoveBorrower {
                        object_id: o,
                        borrower_node_id: n,
                    } && o@ == object_id@ && n@ == node_id@)
                },
                Err(e) => holder_error(object_id@, node_id@) == Some(e@) && *final(self) == *old(
                    self,
                ),
            },
    {
        let object_id: [u8; 28] = match parse_object_id(object_id) {
            Ok(id) => id,
            Err(e) => return Err(e),
        };
        let node_id: [u8; 16] = match parse_node_id(node_id) {
            Ok(id) => id,
            Err(e) => return Err(e),
        };
        self.directory.remove(object_id, node_id);
        Ok(SinkCall::RemoveBorrower { object_id, borrower_node_id: node_id })
    }

    /// The nodes that hold an object, once each.
    pub fn get_object_locations(&self, object_id: &[u8]) -> (r: Result<Vec<[u8; 16]>, Status>)
        requires
            self.wf(),
        ensures
            match r {
                Ok(nodes) => {
                    &&& object_id@.len() == 28
                    &&& nodes@.map_values(|n: [u8; 16]| n@).to_set() == directory::dir_holders(
                        self.directory@,
                        object_id@,
                    )
                    &&& nodes@.map_values(|n: [u8; 16]| n@).no_duplicates()
                },
                Err(e) => object_id@.len() != 28 && e@ == (
                    RpcCode::InvalidArgument,
                    status::wrong_id_length("object_id"@, 28, object_id@.len()),
                ),
            },
    {
        match parse_object_id(object_id) {
            Ok(id) => Ok(self.directory.locations(&id)),
            Err(e) => Err(e),
        }
    }
}

/// The objects of a request to evict; one identifier that is not in order refuses the whole
/// request, with the first such.
pub fn evict_targets(raw: &Vec<Vec<u8>>) -> (r: Result<Vec<[u8; 28]>, Status>)
    ensures
        match r {
            Ok(ids) => {
                &&& ids@.len() == raw@.len()
                &&& forall|i: int| 0 <= i < raw@.len() ==> (#[trigger] ids@[i])@ == raw@[i]@
            },
            Err(e) => exists|i: int|
                {
                    &&& 0 <= i < raw@.len()
                    &&& (#[trigger] raw@[i])@.len() != 28
                    &&& forall|j: int| 0 <= j < i ==> (#[trigger] raw@[j])@.len() == 28
                    &&& e@ == (
                        RpcCode::InvalidArgument,
                        status::wrong_id_length("object_id"@, 28, raw@[i]@.len()),
                    )
                },
        },
{
    let mut ids: Vec<[u8; 28]> = Vec::new();
    let n: usize = raw.len();
    let mut i: usize = 0;
    while i < n
        invariant
            n == raw@.len(),
            i <= n,
            ids@.len() == i,
            forall|j: int| 0 <= j < i ==> (#[trigger] ids@[j])@ == raw@[j]@,
            forall|j: int| 0 <= j < i ==> (#[trigger] raw@[j])@.len() == 28,
        decreases n - i,
    {
        match parse_object_id(raw[i].as_slice()) {
            Ok(id) => ids.push(id),
            Err(e) => {
                return Err(e);
            },
        }
        i += 1;
    }
    Ok(ids)
}

/// Whether a failed deletion of an evicted object is worth a warning: that it is not there
/// is not.
pub fn evict_delete_failed(r: &Result<(), PlasmaError>) -> (b: bool)
    ensures
        b == (r matches Err(e) && !e.spec_is(ServerErrorKind::NotFound)),
{
    match r {
        Ok(()) => false,
        Err(e) => !e.is(ServerErrorKind::NotFound),
    }
}

/// The parts of a payload put together give the payload.
pub proof fn lemma_chunk_step(data: Seq<u8>, i: int)
    requires
        0 <= i < chunk_count(data.len() as int),
    ensures
        data.take(chunk_end(data.len() as int, i)) + chunk(data, i) == data.take(
            chunk_end(data.len() as int, i + 1),
        ),
        0 < chunk(data, i).len() <= PULL_CHUNK_SIZE,
{
    let len = data.len() as int;
    assert(i * PULL_CHUNK_SIZE < len);
    assert(data.take(chunk_end(len, i)) + chunk(data, i) =~= data.take(chunk_end(len, i + 1)));
}

/// A payload is cut into parts that are not empty and full but for the last one, and that give
/// the payload one after the other.
pub proof fn law_chunks_are_full(data: Seq<u8>, i: int)
    requires
        0 <= i < chunks(data).len(),
    ensures
        0 < chunks(data)[i].len() <= 65_536,
        i < chunks(data).len() - 1 ==> chunks(data)[i].len() == 65_536,
        chunks(data)[i] == data.subrange(65_536 * i, 65_536 * i + chunks(data)[i].len()),
        i == chunks(data).len() - 1 ==> 65_536 * i + chunks(data)[i].len() == data.len(),
{
    let n = data.len() as int;
    let k = chunk_count(n);
    assert(k * PULL_CHUNK_SIZE < n + PULL_CHUNK_SIZE && n <= k * PULL_CHUNK_SIZE);
    assert(i * PULL_CHUNK_SIZE < n);
    if i < k - 1 {
        assert((i + 1) * PULL_CHUNK_SIZE < n);
    }
    assert(chunks(data)[i] =~= data.subrange(65_536 * i, 65_536 * i + chunks(data)[i].len()));
}

/// A pulled object is announced with its metadata and the size of its payload, and only then
/// come the parts, in order; an empty payload has none.
pub proof fn law_pull_frames(metadata: Seq<u8>, data: Seq<u8>, i: int)
    requires
        data.len() <= u64::MAX,
        0 <= i < chunks(data).len(),
    ensures
        pull_frames_of(metadata, data).len() == 1 + chunks(data).len(),
        pull_frames_of(metadata, data)[0] == (PullModel::Meta {
            metadata,
            data_size: data.len() as u64,
        }),
        pull_frames_of(metadata, data)[i + 1] == PullModel::Data(chunks(data)[i]),
{
}

/// A push begins exactly with a header whose object has 28 bytes and whose size fits the
/// machine; it then stands for that object, with nothing of its payload.
pub proof fn law_push_begins_with_a_header(first: Option<Option<PushModel>>)
    ensures
        push_first(first) is Ok <==> (first matches Some(
            Some(PushModel::Header { object_id, metadata, data_size }),
        ) && object_id.len() == 28 && data_size <= usize::MAX),
        push_first(first) matches Ok(s) ==> (first matches Some(
            Some(PushModel::Header { object_id, metadata, data_size }),
        ) && s.object_id == object_id && s.metadata == metadata && s.data_size == data_size
            && s.data.len() == 0),
        push_first(first) matches Err(e) ==> e.0 == RpcCode::InvalidArgument,
{
}

/// A push goes on exactly with parts that do not go beyond the announced size, and appends
/// them; nothing else of it changes.
pub proof fn law_push_goes_on_with_data(s: PushState, frame: Option<PushModel>)
    ensures
        push_next(s, frame) is Ok <==> (frame matches Some(PushModel::Data(b)) && s.data.len()
            + b.len() <= s.data_size),
        push_next(s, frame) matches Ok(t) ==> (frame matches Some(PushModel::Data(b)) && t.data
            == s.data + b && t.object_id == s.object_id && t.metadata == s.metadata && t.data_size
            == s.data_size),
        push_next(s, frame) matches Err(e) ==> e.0 == RpcCode::InvalidArgument,
{
}

/// A push may end exactly when as much has come as was announced.
pub proof fn law_push_ends_complete(s: PushState)
    ensures
        push_end(s) is Ok <==> s.data.len() == s.data_size,
        push_end(s) matches Ok(t) ==> t == s,
        push_end(s) matches Err(e) ==> e.0 == RpcCode::InvalidArgument,
{
}

/// A missing object and one that is not sealed are told apart from a failure of shared memory.
pub proof fn law_read_failures_are_told_apart(e: PlasmaError)
    ensures
        plasma_status(e).0 == RpcCode::NotFound <==> (e matches PlasmaError::Server {
            kind,
            message,
        } && kind == ServerErrorKind::NotFound),
        plasma_status(e).0 == RpcCode::FailedPrecondition <==> (e matches PlasmaError::Server {
            kind,
            message,
        } && kind == ServerErrorKind::NotSealed),
        plasma_status(e).0 == RpcCode::NotFound || plasma_status(e).0
            == RpcCode::FailedPrecondition || plasma_status(e).0 == RpcCode::Internal,
{
}

/// A holder is noted exactly where the object has 28 bytes and the node 16.
pub proof fn law_holder_in_order(object_id: Seq<u8>, node_id: Seq<u8>)
    ensures
        holder_error(object_id, node_id) is None <==> object_id.len() == 28 && node_id.len() == 16,
        holder_error(object_id, node_id) matches Some(e) ==> e.0 == RpcCode::InvalidArgument,
{
}

/// A payload goes in parts of 64 KiB, of which eight may wait for a slow reader.
pub proof fn law_limits()
    ensures
        PULL_CHUNK_SIZE == 64 * 1024,
        PULL_CHANNEL_DEPTH == 8,
{
}

} // verus!
