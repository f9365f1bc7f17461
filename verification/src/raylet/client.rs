//! The transfer of objects between nodes, on the side that calls.

use crate::gcs::status;
use crate::gcs::status::{wrong_id_message, RpcCode};
use crate::raylet::service;
use crate::raylet::service::{cut, PullKind, PushKind};
use crate::util::bytes::{copy_bytes, push_bytes, to_array};
use crate::util::text;
use crate::util::text::{concat2, push_decimal, with_number};
use vstd::prelude::*;

verus! {

/// Failure of a call.
#[derive(Debug)]
pub enum ObjectTransportClientError {
    /// No connection; how the transport shows it.
    Connect(String),
    /// The node refused; the kind, and how the transport shows it.
    Rpc(RpcCode, String),
    /// The reply is not in order.
    Malformed(String),
    /// A pulled object has another size than was announced.
    ShortRead {
        /// The announced size.
        expected: u64,
        /// The size.
        got: u64,
    },
}

/// The mathematical content of an `ObjectTransportClientError`.
pub enum TransportErrorModel {
    /// No connection.
    Connect(Seq<char>),
    /// The node refused.
    Rpc(RpcCode, Seq<char>),
    /// The reply is not in order.
    Malformed(Seq<char>),
    /// A pulled object has another size than was announced.
    ShortRead {
        /// The announced size.
        expected: u64,
        /// The size.
        got: u64,
    },
}

impl View for ObjectTransportClientError {
    type V = TransportErrorModel;

    open spec fn view(&self) -> TransportErrorModel {
        match self {
            ObjectTransportClientError::Connect(e) => TransportErrorModel::Connect(e@),
            ObjectTransportClientError::Rpc(c, e) => TransportErrorModel::Rpc(*c, e@),
            ObjectTransportClientError::Malformed(e) => TransportErrorModel::Malformed(e@),
            ObjectTransportClientError::ShortRead { expected, got } =>
            TransportErrorModel::ShortRead { expected: *expected, got: *got },
        }
    }
}

impl TransportErrorModel {
    /// The failure as a text.
    pub open spec fn text(self) -> Seq<char> {
        match self {
            TransportErrorModel::Connect(e) => "connect: "@ + e,
            TransportErrorModel::Rpc(_, e) => "rpc: "@ + e,
            TransportErrorModel::Malformed(e) => "malformed reply: "@ + e,
            TransportErrorModel::ShortRead { expected, got } => "pull short read: expected "@
                + text::decimal_text(expected as nat) + " bytes, got "@ + text::decimal_text(
                got as nat,
            ),
        }
    }
}

impl ObjectTransportClientError {
    /// The failure as a text.
    pub fn text(&self) -> (r: String)
        ensures
            r@ == self@.text(),
    {
        match self {
            ObjectTransportClientError::Connect(e) => concat2("connect: ", e.as_str()),
            ObjectTransportClientError::Rpc(_, e) => concat2("rpc: ", e.as_str()),
            ObjectTransportClientError::Malformed(e) => concat2("malformed reply: ", e.as_str()),
            ObjectTransportClientError::ShortRead { expected, got } => {
                let mut r = with_number("pull short read: expected ", *expected, " bytes, got ");
                push_decimal(&mut r, *got);
                r
            },
        }
    }

    fn malformed(message: &str) -> (r: Self)
        ensures
            r@ == TransportErrorModel::Malformed(message@),
    {
        ObjectTransportClientError::Malformed(message.to_owned())
    }
}

/// Whether a failure shows that a connection is dead.
pub fn should_evict(e: &ObjectTransportClientError) -> (b: bool)
    ensures
        b == (e@ matches TransportErrorModel::Rpc(code, _) && code == RpcCode::Unavailable),
{
    match e {
        ObjectTransportClientError::Rpc(code, _) => *code == RpcCode::Unavailable,
        _ => false,
    }
}

/// The nodes that hold an object.
#[derive(Debug, Clone, PartialEq, Eq)]
pub struct ObjectLocations {
    /// The nodes.
    pub node_ids: Vec<[u8; 16]>,
}

/// An object that was pulled.
#[derive(Debug, Clone, PartialEq, Eq)]
pub struct PulledObject {
    /// Encoded metadata.
    pub metadata: Vec<u8>,
    /// The payload.
    pub data: Vec<u8>,
}

/// Numbers of bytes as they are shown in a list.
pub open spec fn byte_list(b: Seq<u8>) -> Seq<char>
    decreases b.len(),
{
    if b.len() == 0 {
        ""@
    } else if b.len() == 1 {
        text::decimal_text(b[0] as nat)
    } else {
        byte_list(b.drop_last()) + ", "@ + text::decimal_text(b.last() as nat)
    }
}

fn show_bytes(b: &[u8]) -> (r: String)
    ensures
        r@ == byte_list(b@),
{
    let mut r = "".to_owned();
    let n: usize = b.len();
    let mut i: usize = 0;
    assert(b@.take(0).len() == 0);
    while i < n
        invariant
            n == b@.len(),
            i <= n,
            r@ == byte_list(b@.take(i as int)),
        decreases n - i,
    {
        proof {
            assert(b@.take(i + 1).drop_last() =~= b@.take(i as int));
            reveal_strlit("");
        }
        if i > 0 {
            r.append(", ");
        }
        push_decimal(&mut r, b[i] as u64);
        proof {
            if i == 0 {
                assert(r@ =~= text::decimal_text(b@[0] as nat));
            }
        }
        i += 1;
    }
    assert(b@.take(n as int) =~= b@);
    r
}

/// How far a pull has come.
#[verifier::ext_equal]
pub struct PullState {
    /// Encoded metadata.
    pub metadata: Seq<u8>,
    /// The announced size.
    pub data_size: u64,
    /// The payload so far.
    pub data: Seq<u8>,
}

/// The state after the first frame; `first` is nothing where the stream ended before it.
pub open spec fn pull_first(first: Option<Option<service::PullModel>>) -> Result<
    PullState,
    TransportErrorModel,
> {
    match first {
        None => Err(TransportErrorModel::Malformed("pull stream closed before metadata"@)),
        Some(Some(service::PullModel::Meta { metadata, data_size })) => Ok(
            PullState { metadata, data_size, data: Seq::empty() },
        ),
        Some(Some(service::PullModel::Data(b))) => Err(
            TransportErrorModel::Malformed(
                "first pull frame must be metadata, got Some(Data(["@ + byte_list(b) + "]))"@,
            ),
        ),
        Some(None) => Err(
            TransportErrorModel::Malformed("first pull frame must be metadata, got None"@),
        ),
    }
}

/// The state after one more frame.
pub open spec fn pull_next(s: PullState, frame: Option<service::PullModel>) -> Result<
    PullState,
    TransportErrorModel,
> {
    match frame {
        None => Err(TransportErrorModel::Malformed("received empty pull frame"@)),
        Some(service::PullModel::Meta { .. }) => Err(
            TransportErrorModel::Malformed("received second metadata frame mid-stream"@),
        ),
        Some(service::PullModel::Data(b)) => Ok(PullState { data: s.data + b, ..s }),
    }
}

/// Whether the stream may end here.
pub open spec fn pull_end(s: PullState) -> Result<PullState, TransportErrorModel> {
    if s.data.len() != s.data_size {
        Err(TransportErrorModel::ShortRead { expected: s.data_size, got: s.data.len() as u64 })
    } else {
        Ok(s)
    }
}

/// The state after some frames, the first of them the first of the stream.
pub open spec fn pull_run(frames: Seq<Option<service::PullModel>>) -> Result<
    PullState,
    TransportErrorModel,
>
    decreases frames.len(),
{
    if frames.len() == 0 {
        pull_first(None)
    } else if frames.len() == 1 {
        pull_first(Some(frames[0]))
    } else {
        match pull_run(frames.drop_last()) {
            Err(e) => Err(e),
            Ok(s) => pull_next(s, frames.last()),
        }
    }
}

/// What a whole stream amounts to.
pub open spec fn pull_outcome(frames: Seq<Option<service::PullModel>>) -> Result<
    PullState,
    TransportErrorModel,
> {
    match pull_run(frames) {
        Err(e) => Err(e),
        Ok(s) => pull_end(s),
    }
}

/// The content of a frame, which may be empty.
pub open spec fn pull_frame_view(frame: Option<PullKind>) -> Option<service::PullModel> {
    match frame {
        None => None,
        Some(k) => Some(k@),
    }
}

/// An object that is being pulled.
#[derive(Debug)]
pub struct PullReceiver {
    metadata: Vec<u8>,
    data_size: u64,
    data: Vec<u8>,
}

impl View for PullReceiver {
    type V = PullState;

    closed spec fn view(&self) -> PullState {
        PullState { metadata: self.metadata@, data_size: self.data_size, data: self.data@ }
    }
}

impl PullReceiver {
    /// Takes the first frame; `first` is nothing where the stream ended before it.
    pub fn begin(first: Option<Option<PullKind>>) -> (r: Result<Self, ObjectTransportClientError>)
        ensures
            ({
                let model = match first {
                    None => None,
                    Some(frame) => Some(pull_frame_view(frame)),
                };
                match r {
                    Ok(p) => pull_first(model) == Ok::<PullState, TransportErrorModel>(p@),
                    Err(e) => pull_first(model) == Err::<PullState, TransportErrorModel>(e@),
                }
            }),
    {
        match first {
            None => Err(
                ObjectTransportClientError::malformed("pull stream closed before metadata"),
            ),
            Some(None) => Err(
                ObjectTransportClientError::malformed(
                    "first pull frame must be metadata, got None",
                ),
            ),
            Some(Some(PullKind::Data(b))) => {
                let shown = show_bytes(b.as_slice());
                let mut message = concat2(
                    "first pull frame must be metadata, got Some(Data([",
                    shown.as_str(),
                );
                message.append("]))");
                Err(ObjectTransportClientError::Malformed(message))
            },
            Some(Some(PullKind::Meta { metadata, data_size })) => {
                let r = PullReceiver { metadata, data_size, data: Vec::new() };
                assert(r.data@ =~= Seq::<u8>::empty());
                Ok(r)
            },
        }
    }

    /// Takes one more frame. One that is refused changes nothing.
    pub fn frame(&mut self, frame: Option<PullKind>) -> (r: Result<(), ObjectTransportClientError>)
        ensures
            match r {
                Ok(()) => pull_next(old(self)@, pull_frame_view(frame)) == Ok::<
                    PullState,
                    TransportErrorModel,
                >(final(self)@),
                Err(e) => pull_next(old(self)@, pull_frame_view(frame)) == Err::<
                    PullState,
                    TransportErrorModel,
                >(e@) && *final(self) == *old(self),
            },
    {
        match frame {
            None => Err(ObjectTransportClientError::malformed("received empty pull frame")),
            Some(PullKind::Meta { .. }) => Err(
                ObjectTransportClientError::malformed("received second metadata frame mid-stream"),
            ),
            Some(PullKind::Data(b)) => {
                push_bytes(&mut self.data, b.as_slice());
                Ok(())
            },
        }
    }

    /// The stream ended.
    pub fn finish(self) -> (r: Result<PulledObject, ObjectTransportClientError>)
        ensures
            match r {
                Ok(o) => pull_end(self@) is Ok && o.metadata@ == self@.metadata && o.data@
                    == self@.data,
                Err(e) => pull_end(self@) == Err::<PullState, TransportErrorModel>(e@),
            },
    {
        if self.data.len() as u64 != self.data_size {
            return Err(
                ObjectTransportClientError::ShortRead {
                    expected: self.data_size,
                    got: self.data.len() as u64,
                },
            );
        }
        Ok(PulledObject { metadata: self.metadata, data: self.data })
    }
}

/// The frames of a pushed object.
pub open spec fn push_frames_of(object_id: Seq<u8>, metadata: Seq<u8>, data: Seq<u8>) -> Seq<
    service::PushModel,
> {
    seq![
        service::PushModel::Header { object_id, metadata, data_size: data.len() as u64 },
    ] + service::chunks(data).map_values(|c: Seq<u8>| service::PushModel::Data(c))
}

/// The frames of a pushed object: the header first, then the payload in parts.
pub fn push_frames(object_id: &[u8], metadata: &[u8], data: &[u8]) -> (r: Vec<PushKind>)
    ensures
        r@.map_values(|k: PushKind| k@) == push_frames_of(object_id@, metadata@, data@),
{
    let parts = cut(data);
    let n: usize = parts.len();
    let mut r: Vec<PushKind> = Vec::new();
    r.push(
        PushKind::Header {
            object_id: copy_bytes(object_id),
            metadata: copy_bytes(metadata),
            data_size: data.len() as u64,
        },
    );
    let mut i: usize = 0;
    let ghost f = |k: PushKind| k@;
    let ghost want = push_frames_of(object_id@, metadata@, data@);
    proof {
        assert(parts@.map_values(|c: Vec<u8>| c@).len() == n);
        assert(r@.map_values(f) =~= want.take(1));
    }
    while i < n
        invariant
            n == parts@.len(),
            i <= n,
            f == (|k: PushKind| k@),
            want == push_frames_of(object_id@, metadata@, data@),
            parts@.map_values(|c: Vec<u8>| c@) == service::chunks(data@),
            want.len() == n + 1,
            r@.map_values(f) == want.take(i + 1),
        decreases n - i,
    {
        let ghost before = r@;
        let k = PushKind::Data(copy_bytes(parts[i].as_slice()));
        r.push(k);
        proof {
            assert(parts@.map_values(|c: Vec<u8>| c@)[i as int] == parts@[i as int]@);
            assert(want[i + 1] == k@);
            assert(r@.map_values(f) =~= before.map_values(f).push(k@));
            assert(want.take(i + 2) =~= want.take(i + 1).push(want[i + 1]));
        }
        i += 1;
    }
    assert(want.take(n + 1) =~= want);
    r
}

/// The nodes of a reply; one identifier that is not in order refuses the whole reply, with
/// the first such.
pub fn parse_locations(raw: &Vec<Vec<u8>>) -> (r: Result<
    ObjectLocations,
    ObjectTransportClientError,
>)
    ensures
        match r {
            Ok(l) => {
                &&& l.node_ids@.len() == raw@.len()
                &&& forall|i: int| 0 <= i < raw@.len() ==> (#[trigger] l.node_ids@[i])@ == raw@[i]@
            },
            Err(e) => exists|i: int|
                {
                    &&& 0 <= i < raw@.len()
                    &&& (#[trigger] raw@[i])@.len() != 16
                    &&& forall|j: int| 0 <= j < i ==> (#[trigger] raw@[j])@.len() == 16
                    &&& e@ == TransportErrorModel::Malformed(
                        status::wrong_id_length("node_id"@, 16, raw@[i]@.len()),
                    )
                },
        },
{
    let mut node_ids: Vec<[u8; 16]> = Vec::new();
    let n: usize = raw.len();
    let mut i: usize = 0;
    while i < n
        invariant
            n == raw@.len(),
            i <= n,
            node_ids@.len() == i,
            forall|j: int| 0 <= j < i ==> (#[trigger] node_ids@[j])@ == raw@[j]@,
            forall|j: int| 0 <= j < i ==> (#[trigger] raw@[j])@.len() == 16,
        decreases n - i,
    {
        let b = raw[i].as_slice();
        if b.len() != 16 {
            return Err(
                ObjectTransportClientError::Malformed(wrong_id_message("node_id", 16, b.len())),
            );
        }
        node_ids.push(to_array(b));
        i += 1;
    }
    Ok(ObjectLocations { node_ids })
}

/// Frames that none of them is empty.
pub open spec fn full<T>(frames: Seq<T>) -> Seq<Option<T>> {
    frames.map_values(|f: T| Some(f))
}

/// The state after the header and the first `i` parts of a pushed object.
proof fn lemma_push_prefix(object_id: Seq<u8>, metadata: Seq<u8>, data: Seq<u8>, i: int)
    requires
        object_id.len() == 28,
        data.len() <= usize::MAX,
        0 <= i <= service::chunk_count(data.len() as int),
    ensures
        service::push_run(full(push_frames_of(object_id, metadata, data)).take(i + 1)) == Ok::<
            service::PushState,
            service::Refusal,
        >(
            service::PushState {
                object_id,
                metadata,
                data_size: data.len(),
                data: data.take(service::chunk_end(data.len() as int, i)),
            },
        ),
    decreases i,
{
    let frames = full(push_frames_of(object_id, metadata, data));
    let part = frames.take(i + 1);
    if i == 0 {
        assert(part[0] == frames[0]);
        assert(data.take(service::chunk_end(data.len() as int, 0)) =~= Seq::<u8>::empty());
    } else {
        lemma_push_prefix(object_id, metadata, data, i - 1);
        assert(part.drop_last() =~= frames.take(i));
        assert(part.last() == Some(service::PushModel::Data(service::chunk(data, i - 1))));
        service::lemma_chunk_step(data, i - 1);
    }
}

/// An object that is pushed arrives as it was sent.
pub proof fn law_push_round_trip(object_id: Seq<u8>, metadata: Seq<u8>, data: Seq<u8>)
    requires
        object_id.len() == 28,
        data.len() <= usize::MAX,
    ensures
        service::push_outcome(full(push_frames_of(object_id, metadata, data))) == Ok::<
            service::PushState,
            service::Refusal,
        >(service::PushState { object_id, metadata, data_size: data.len(), data }),
{
    let frames = full(push_frames_of(object_id, metadata, data));
    let n = service::chunk_count(data.len() as int);
    lemma_push_prefix(object_id, metadata, data, n);
    assert(frames.take(n + 1) =~= frames);
    assert(service::chunk_end(data.len() as int, n) == data.len());
    assert(data.take(data.len() as int) =~= data);
}

/// The state after the metadata and the first `i` parts of a pulled object.
proof fn lemma_pull_prefix(metadata: Seq<u8>, data: Seq<u8>, i: int)
    requires
        data.len() <= u64::MAX,
        0 <= i <= service::chunk_count(data.len() as int),
    ensures
        pull_run(full(service::pull_frames_of(metadata, data)).take(i + 1)) == Ok::<
            PullState,
            TransportErrorModel,
        >(
            PullState {
                metadata,
                data_size: data.len() as u64,
                data: data.take(service::chunk_end(data.len() as int, i)),
            },
        ),
    decreases i,
{
    let frames = full(service::pull_frames_of(metadata, data));
    let part = frames.take(i + 1);
    if i == 0 {
        assert(part[0] == frames[0]);
        assert(data.take(service::chunk_end(data.len() as int, 0)) =~= Seq::<u8>::empty());
    } else {
        lemma_pull_prefix(metadata, data, i - 1);
        assert(part.drop_last() =~= frames.take(i));
        assert(part.last() == Some(service::PullModel::Data(service::chunk(data, i - 1))));
        service::lemma_chunk_step(data, i - 1);
    }
}

/// An object that is pulled arrives as it was sent.
pub proof fn law_pull_round_trip(metadata: Seq<u8>, data: Seq<u8>)
    requires
        data.len() <= u64::MAX,
    ensures
        pull_outcome(full(service::pull_frames_of(metadata, data))) == Ok::<
            PullState,
            TransportErrorModel,
        >(PullState { metadata, data_size: data.len() as u64, data }),
{
    let frames = full(service::pull_frames_of(metadata, data));
    let n = service::chunk_count(data.len() as int);
    lemma_pull_prefix(metadata, data, n);
    assert(frames.take(n + 1) =~= frames);
    assert(service::chunk_end(data.len() as int, n) == data.len());
    assert(data.take(data.len() as int) =~= data);
}

/// A stream of a pull that was cut off is not taken for the whole object.
pub proof fn law_cut_pull_is_refused(metadata: Seq<u8>, data: Seq<u8>, kept: int)
    requires
        data.len() <= u64::MAX,
        0 <= kept <= service::chunk_count(data.len() as int),
    ensures
        pull_outcome(full(service::pull_frames_of(metadata, data)).take(kept)) is Err,
{
    let frames = full(service::pull_frames_of(metadata, data));
    let len = data.len() as int;
    if kept > 0 {
        lemma_pull_prefix(metadata, data, kept - 1);
        assert((kept - 1) * service::PULL_CHUNK_SIZE < len);
    }
}

/// A stream of a push that was cut off is not taken for the whole object.
pub proof fn law_cut_push_is_refused(
    object_id: Seq<u8>,
    metadata: Seq<u8>,
    data: Seq<u8>,
    kept: int,
)
    requires
        object_id.len() == 28,
        data.len() <= usize::MAX,
        0 <= kept <= service::chunk_count(data.len() as int),
    ensures
        service::push_outcome(full(push_frames_of(object_id, metadata, data)).take(kept)) is Err,
{
    let len = data.len() as int;
    if kept > 0 {
        lemma_push_prefix(object_id, metadata, data, kept - 1);
        assert((kept - 1) * service::PULL_CHUNK_SIZE < len);
    }
}

/// A pull begins exactly with metadata; it then stands for them and the announced size, with
/// nothing of the payload.
pub proof fn law_pull_begins_with_metadata(first: Option<Option<service::PullModel>>)
    ensures
        pull_first(first) is Ok <==> (first matches Some(Some(service::PullModel::Meta { .. }))),
        pull_first(first) matches Ok(s) ==> (first matches Some(
            Some(service::PullModel::Meta { metadata, data_size }),
        ) && s.metadata == metadata && s.data_size == data_size && s.data.len() == 0),
        pull_first(first) matches Err(e) ==> e is Malformed,
{
}

/// A pull goes on exactly with parts, which it appends; nothing else of it changes.
pub proof fn law_pull_goes_on_with_data(s: PullState, frame: Option<service::PullModel>)
    ensures
        pull_next(s, frame) is Ok <==> (frame matches Some(service::PullModel::Data(_))),
        pull_next(s, frame) matches Ok(t) ==> (frame matches Some(service::PullModel::Data(b))
            && t.data == s.data + b && t.metadata == s.metadata && t.data_size == s.data_size),
        pull_next(s, frame) matches Err(e) ==> e is Malformed,
{
}

/// A pull may end exactly when as much has come as was announced; otherwise both numbers are
/// told.
pub proof fn law_pull_ends_complete(s: PullState)
    requires
        s.data.len() <= u64::MAX,
    ensures
        pull_end(s) is Ok <==> s.data.len() == s.data_size,
        pull_end(s) matches Ok(t) ==> t == s,
        pull_end(s) matches Err(e) ==> (e matches TransportErrorModel::ShortRead { expected, got }
            && expected == s.data_size && got == s.data.len()),
{
}

/// A pushed object is announced with its identifier, its metadata and the size of its payload,
/// and only then come the parts, in order.
pub proof fn law_push_frames(object_id: Seq<u8>, metadata: Seq<u8>, data: Seq<u8>, i: int)
    requires
        data.len() <= u64::MAX,
        0 <= i < service::chunks(data).len(),
    ensures
        push_frames_of(object_id, metadata, data).len() == 1 + service::chunks(data).len(),
        push_frames_of(object_id, metadata, data)[0] == (service::PushModel::Header {
            object_id,
            metadata,
            data_size: data.len() as u64,
        }),
        push_frames_of(object_id, metadata, data)[i + 1] == service::PushModel::Data(
            service::chunks(data)[i],
        ),
{
}

} // verus!
