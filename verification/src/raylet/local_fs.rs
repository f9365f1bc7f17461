//! Spilled objects as files under one directory.
//!
//! A file holds the length of the metadata (4 bytes, little-endian), the metadata, the
//! length of the payload (8 bytes, little-endian) and the payload. It is written under a
//! name of its own and then renamed, so that a file under an object's name is complete.

use crate::raylet::spill;
use crate::raylet::spill::{RestoredObject, SpillError, SpillUrl};
use crate::util::bytes;
use crate::util::bytes::{copy_range, get_u32_le, get_u64_le, push_bytes, push_u32_le, push_u64_le};
use crate::util::hexadecimal;
use crate::util::hexadecimal::hex_encode;
use crate::util::paths;
use crate::util::paths::is_under;
use crate::util::seqs;
use crate::util::text;
use crate::util::text::{concat2, strip_prefix, with_number};
use vstd::prelude::*;
use vstd::utf8;

verus! {

/// A name in a directory.
pub open spec fn join_path(root: Seq<char>, name: Seq<char>) -> Seq<char> {
    if root.len() == 0 || root.last() == '/' {
        root + name
    } else {
        root + "/"@ + name
    }
}

/// The path of an object's file.
pub open spec fn object_path(root: Seq<char>, object_id: Seq<u8>) -> Seq<char> {
    join_path(root, hexadecimal::hex_text(object_id)) + ".spill"@
}

/// The URL of a file.
pub open spec fn file_url(path: Seq<char>) -> Seq<char> {
    "file://"@ + path
}

/// The bytes of an object's file.
pub open spec fn spill_bytes(metadata: Seq<u8>, data: Seq<u8>) -> Seq<u8> {
    bytes::u32_le(metadata.len() as u32) + metadata + bytes::u64_le(data.len() as u64) + data
}

/// The reason that is given for a file that ends early.
pub open spec fn truncated_reason() -> Seq<char> {
    "truncated or unreadable: failed to fill whole buffer"@
}

/// What a file's bytes hold: metadata and payload, or the reason why they are not in order.
/// Bytes behind the payload do not count.
pub open spec fn parse_spill(b: Seq<u8>) -> Result<(Seq<u8>, Seq<u8>), Seq<char>> {
    if b.len() < 4 {
        Err(truncated_reason())
    } else {
        let m = bytes::le_u32(b);
        if b.len() < 4 + m + 8 {
            Err(truncated_reason())
        } else {
            let n = bytes::le_u64(b.skip(4 + m));
            if n > usize::MAX {
                Err("data length doesn't fit in usize"@)
            } else if b.len() < 4 + m + 8 + n {
                Err(truncated_reason())
            } else {
                Ok((b.subrange(4, 4 + m), b.subrange(4 + m + 8, 4 + m + 8 + n)))
            }
        }
    }
}

/// The failure of a read: the file is not in order.
pub fn corrupt_io(url: &SpillUrl, shown: &str) -> (r: SpillError)
    ensures
        r@ == (spill::SpillErrorModel::Corrupt {
            url: url@,
            reason: "truncated or unreadable: "@ + shown@,
        }),
{
    SpillError::Corrupt {
        url: url.0.clone(),
        reason: concat2("truncated or unreadable: ", shown),
    }
}

fn truncated(url: &SpillUrl) -> (r: SpillError)
    ensures
        r@ == (spill::SpillErrorModel::Corrupt { url: url@, reason: truncated_reason() }),
{
    proof {
        reveal_strlit("truncated or unreadable: ");
        reveal_strlit("failed to fill whole buffer");
        reveal_strlit("truncated or unreadable: failed to fill whole buffer");
        assert("truncated or unreadable: "@ + "failed to fill whole buffer"@ =~= truncated_reason());
    }
    corrupt_io(url, "failed to fill whole buffer")
}

/// A directory for spilled objects.
#[derive(Debug, Clone)]
pub struct LocalFsBackend {
    root: String,
}

impl View for LocalFsBackend {
    type V = Seq<char>;

    closed spec fn view(&self) -> Seq<char> {
        self.root@
    }
}

impl LocalFsBackend {
    /// A place under `root`, the resolved path of a directory that exists.
    pub fn new(root: String) -> (r: Self)
        ensures
            r@ == root@,
    {
        LocalFsBackend { root }
    }

    fn stem(&self, object_id: &[u8; 28]) -> (r: String)
        ensures
            r@ == join_path(self@, hexadecimal::hex_text(object_id@)),
    {
        let mut r = self.root.clone();
        let n: usize = r.as_str().unicode_len();
        if n > 0 && r.as_str().get_char(n - 1) != '/' {
            r.append("/");
        }
        let name = hex_encode(object_id);
        r.append(name.as_str());
        r
    }

    /// The path of an object's file.
    pub fn path_for(&self, object_id: &[u8; 28]) -> (r: String)
        ensures
            r@ == object_path(self@, object_id@),
    {
        let mut r = self.stem(object_id);
        r.append(".spill");
        r
    }

    /// The path under which an object's file is written before it gets its name.
    pub fn tmp_path_for(&self, object_id: &[u8; 28], seq: u64) -> (r: String)
        ensures
            r@ == object_path(self@, object_id@) + ".tmp."@ + text::decimal_text(seq as nat),
    {
        let mut r = self.path_for(object_id);
        r.append(".tmp.");
        text::push_decimal(&mut r, seq);
        r
    }

    /// The URL of a file.
    pub fn url_for(path: &str) -> (r: SpillUrl)
        ensures
            r@ == file_url(path@),
    {
        SpillUrl(concat2("file://", path))
    }

    /// The path of the file at a URL, which must lie under the root: one that leads out of it
    /// is refused.
    pub fn parse_url(&self, url: &SpillUrl) -> (r: Result<String, SpillError>)
        ensures
            match r {
                Ok(path) => url@ == file_url(path@) && paths::stays_under(path@, self@),
                Err(e) => if !"file://"@.is_prefix_of(url@) {
                    e@ == (spill::SpillErrorModel::Corrupt {
                        url: url@,
                        reason: "url missing file:// prefix"@,
                    })
                } else {
                    &&& !paths::stays_under(url@.skip("file://"@.len() as int), self@)
                    &&& e@ == (spill::SpillErrorModel::Corrupt {
                        url: url@,
                        reason: "path is outside spill root "@ + self@,
                    })
                },
            },
    {
        match strip_prefix(url.0.as_str(), "file://") {
            None => Err(
                SpillError::Corrupt {
                    url: url.0.clone(),
                    reason: "url missing file:// prefix".to_owned(),
                },
            ),
            Some(path) => {
                proof {
                    assert(url@.skip("file://"@.len() as int) =~= path@);
                    assert("file://"@.is_prefix_of(url@));
                }
                if !is_under(path, self.root.as_str()) {
                    return Err(
                        SpillError::Corrupt {
                            url: url.0.clone(),
                            reason: concat2("path is outside spill root ", self.root.as_str()),
                        },
                    );
                }
                Ok(path.to_owned())
            },
        }
    }

    /// The bytes of an object's file, which is to be written at `tmp_path`.
    pub fn file_bytes(tmp_path: &str, metadata: &[u8], data: &[u8]) -> (r: Result<
        Vec<u8>,
        SpillError,
    >)
        ensures
            match r {
                Ok(b) => metadata@.len() <= u32::MAX && b@ == spill_bytes(metadata@, data@),
                Err(e) => metadata@.len() > u32::MAX && e@ == (spill::SpillErrorModel::Corrupt {
                    url: tmp_path@,
                    reason: "metadata too large: "@ + text::decimal_text(metadata@.len())
                        + " bytes"@,
                }),
            },
    {
        assert(metadata@.len() == metadata.len());
        if metadata.len() as u64 > u32::MAX as u64 {
            return Err(
                SpillError::Corrupt {
                    url: tmp_path.to_owned(),
                    reason: with_number("metadata too large: ", metadata.len() as u64, " bytes"),
                },
            );
        }
        let mut b: Vec<u8> = Vec::new();
        push_u32_le(&mut b, metadata.len() as u32);
        push_bytes(&mut b, metadata);
        push_u64_le(&mut b, data.len() as u64);
        push_bytes(&mut b, data);
        assert(b@ =~= spill_bytes(metadata@, data@));
        Ok(b)
    }

    /// The object that a file at `url` with the given bytes holds.
    pub fn parse_file(url: &SpillUrl, b: &[u8]) -> (r: Result<RestoredObject, SpillError>)
        ensures
            match r {
                Ok(object) => parse_spill(b@) == Ok::<(Seq<u8>, Seq<u8>), Seq<char>>(object@),
                Err(e) => parse_spill(b@) is Err && e@ == (spill::SpillErrorModel::Corrupt {
                    url: url@,
                    reason: parse_spill(b@)->Err_0,
                }),
            },
    {
        assert(b@.len() == b.len());
        if b.len() < 4 {
            return Err(truncated(url));
        }
        assert(b@.skip(0) =~= b@);
        let m: u32 = get_u32_le(b, 0);
        let rest: usize = b.len() - 4;
        if (rest as u64) < m as u64 || (rest as u64) - (m as u64) < 8 {
            return Err(truncated(url));
        }
        let at: usize = 4 + m as usize;
        let n: u64 = get_u64_le(b, at);
        if n > usize::MAX as u64 {
            return Err(
                SpillError::Corrupt {
                    url: url.0.clone(),
                    reason: "data length doesn't fit in usize".to_owned(),
                },
            );
        }
        let rest: usize = b.len() - at - 8;
        if (rest as u64) < n {
            return Err(truncated(url));
        }
        let metadata = copy_range(b, 4, at);
        let data = copy_range(b, at + 8, at + 8 + n as usize);
        Ok(RestoredObject { metadata, data })
    }

    /// Why a file could not be opened: that there is none is a failure of its own.
    pub fn open_failed(url: &SpillUrl, not_found: bool, shown: String) -> (r: SpillError)
        ensures
            r@ == (if not_found {
                spill::SpillErrorModel::NotFound { url: url@ }
            } else {
                spill::SpillErrorModel::Io(shown@)
            }),
    {
        if not_found {
            SpillError::NotFound { url: url.0.clone() }
        } else {
            SpillError::Io(shown)
        }
    }

    /// What it means that a file could not be removed: that there is none is no failure.
    pub fn remove_failed(not_found: bool, shown: String) -> (r: Result<(), SpillError>)
        ensures
            match r {
                Ok(()) => not_found,
                Err(e) => !not_found && e@ == spill::SpillErrorModel::Io(shown@),
            },
    {
        if not_found {
            Ok(())
        } else {
            Err(SpillError::Io(shown))
        }
    }
}

/// The files of two objects are not the same.
pub proof fn law_paths_are_distinct(root: Seq<char>, a: Seq<u8>, b: Seq<u8>)
    requires
        object_path(root, a) == object_path(root, b),
    ensures
        a == b,
{
    let dot = ".spill"@;
    let pa = join_path(root, hexadecimal::hex_text(a));
    let pb = join_path(root, hexadecimal::hex_text(b));
    assert(object_path(root, a).len() == pa.len() + dot.len());
    assert(pa =~= object_path(root, a).take(pa.len() as int));
    assert(pb =~= object_path(root, b).take(pa.len() as int));
    let head = if root.len() == 0 || root.last() == '/' {
        root
    } else {
        root + "/"@
    };
    assert(pa =~= head + hexadecimal::hex_text(a));
    assert(pb =~= head + hexadecimal::hex_text(b));
    assert(pa.skip(head.len() as int) =~= hexadecimal::hex_text(a));
    assert(pb.skip(head.len() as int) =~= hexadecimal::hex_text(b));
    hexadecimal::lemma_hex_round_trip(a);
    hexadecimal::lemma_hex_round_trip(b);
    assert(hexadecimal::unhex(utf8::encode_utf8(hexadecimal::hex_text(a))) == a);
}

/// The file of an object lies under the root, so that `parse_url` accepts its URL and gives
/// the path back.
pub proof fn law_url_names_the_file(root: Seq<char>, object_id: Seq<u8>)
    requires
        root.len() > 0,
    ensures
        paths::stays_under(object_path(root, object_id), root),
        file_url(object_path(root, object_id)).skip("file://"@.len() as int) == object_path(
            root,
            object_id,
        ),
{
    reveal_strlit("/");
    reveal_strlit(".");
    reveal_strlit("..");
    reveal_strlit(".spill");
    let path = object_path(root, object_id);
    let name = hexadecimal::hex_text(object_id) + ".spill"@;
    assert(path.take(root.len() as int) =~= root);
    assert(paths::rest_of(path, root) =~= name);
    assert forall|i: int| 0 <= i < name.len() implies name[i] != '/' by {
        let text = hexadecimal::hex_text(object_id);
        if i < text.len() {
            assert(name[i] == text[i]);
        } else {
            assert(name[i] == ".spill"@[i - text.len()]);
        }
    }
    paths::law_entry_stays_under(path, root);
    assert(file_url(path).skip("file://"@.len() as int) =~= path);
}

/// Reading a file back gives the object that was put away, whatever follows it.
pub proof fn law_spill_round_trip(metadata: Seq<u8>, data: Seq<u8>, rest: Seq<u8>)
    requires
        metadata.len() <= u32::MAX,
        data.len() <= usize::MAX,
    ensures
        parse_spill(spill_bytes(metadata, data) + rest) == Ok::<(Seq<u8>, Seq<u8>), Seq<char>>(
            (metadata, data),
        ),
{
    let head = bytes::u32_le(metadata.len() as u32);
    let size = bytes::u64_le(data.len() as u64);
    assert(head.len() == 4 && size.len() == 8);
    seqs::lemma_five_parts(head, metadata, size, data, rest);
    bytes::lemma_u32_round_trip(metadata.len() as u32, metadata + (size + (data + rest)));
    bytes::lemma_u64_round_trip(data.len() as u64, data + rest);
}

/// A file that was cut short is not taken for another object.
pub proof fn law_truncated_is_refused(metadata: Seq<u8>, data: Seq<u8>, kept: nat)
    requires
        metadata.len() <= u32::MAX,
        data.len() <= usize::MAX,
        kept < spill_bytes(metadata, data).len(),
    ensures
        parse_spill(spill_bytes(metadata, data).take(kept as int)) == Err::<
            (Seq<u8>, Seq<u8>),
            Seq<char>,
        >(truncated_reason()),
{
    let head = bytes::u32_le(metadata.len() as u32);
    let size = bytes::u64_le(data.len() as u64);
    let none = Seq::<u8>::empty();
    let whole = spill_bytes(metadata, data);
    let at = 4 + metadata.len() as int;
    let b = whole.take(kept as int);
    assert(head.len() == 4 && size.len() == 8);
    assert(whole + none =~= whole);
    seqs::lemma_five_parts(head, metadata, size, data, none);
    if kept >= 4 {
        bytes::lemma_u32_round_trip(metadata.len() as u32, metadata + (size + (data + none)));
        assert(b.take(4) =~= whole.take(4));
        bytes::lemma_u32_front(b, whole);
        if kept >= at + 8 {
            bytes::lemma_u64_round_trip(data.len() as u64, data + none);
            assert(b.skip(at).take(8) =~= whole.skip(at).take(8));
            bytes::lemma_u64_front(b.skip(at), whole.skip(at));
        }
    }
}

/// Files by path.
pub type Disk = Map<Seq<char>, Seq<u8>>;

/// The disk after an object was put away.
pub open spec fn disk_spill(
    d: Disk,
    root: Seq<char>,
    object_id: Seq<u8>,
    metadata: Seq<u8>,
    data: Seq<u8>,
) -> Disk {
    d.insert(object_path(root, object_id), spill_bytes(metadata, data))
}

/// An object that was put away is read back as it was, and the files of other objects are
/// left alone.
pub proof fn law_disk_keeps_objects(
    d: Disk,
    root: Seq<char>,
    object_id: Seq<u8>,
    other: Seq<u8>,
    metadata: Seq<u8>,
    data: Seq<u8>,
)
    requires
        metadata.len() <= u32::MAX,
        data.len() <= usize::MAX,
        other != object_id,
    ensures
        ({
            let after = disk_spill(d, root, object_id, metadata, data);
            let path = object_path(root, object_id);
            let elsewhere = object_path(root, other);
            &&& after.contains_key(path)
            &&& parse_spill(after[path]) == Ok::<(Seq<u8>, Seq<u8>), Seq<char>>((metadata, data))
            &&& after.contains_key(elsewhere) == d.contains_key(elsewhere)
            &&& after[elsewhere] == d[elsewhere]
        }),
{
    law_spill_round_trip(metadata, data, Seq::empty());
    assert(spill_bytes(metadata, data) + Seq::<u8>::empty() =~= spill_bytes(metadata, data));
    if object_path(root, object_id) == object_path(root, other) {
        law_paths_are_distinct(root, object_id, other);
    }
}

/// Where the parts of an object's file stand: the metadata behind their length in four bytes,
/// the payload behind its length in eight, and nothing else.
pub proof fn law_spill_layout(metadata: Seq<u8>, data: Seq<u8>)
    requires
        metadata.len() <= u32::MAX,
        data.len() <= u64::MAX,
    ensures
        ({
            let b = spill_bytes(metadata, data);
            let n = metadata.len() as int;
            &&& b.len() == 12 + n + data.len()
            &&& bytes::le_u32(b) == n
            &&& b.subrange(4, 4 + n) == metadata
            &&& bytes::le_u64(b.skip(4 + n)) == data.len()
            &&& b.skip(12 + n) == data
        }),
{
    let head = bytes::u32_le(metadata.len() as u32);
    let size = bytes::u64_le(data.len() as u64);
    let none = Seq::<u8>::empty();
    let b = spill_bytes(metadata, data);
    assert(head.len() == 4 && size.len() == 8);
    assert(b + none =~= b);
    assert(data + none =~= data);
    seqs::lemma_five_parts(head, metadata, size, data, none);
    bytes::lemma_u32_round_trip(metadata.len() as u32, metadata + (size + (data + none)));
    bytes::lemma_u64_round_trip(data.len() as u64, data + none);
    assert(b.skip(12 + metadata.len() as int) =~= data);
}

/// What is read of a file is what stands in it: bytes that are taken for an object begin with
/// those that are written for it.
pub proof fn law_read_object_was_written(b: Seq<u8>, metadata: Seq<u8>, data: Seq<u8>)
    requires
        parse_spill(b) == Ok::<(Seq<u8>, Seq<u8>), Seq<char>>((metadata, data)),
    ensures
        metadata.len() <= u32::MAX,
        data.len() <= usize::MAX,
        spill_bytes(metadata, data).len() <= b.len(),
        b.take(spill_bytes(metadata, data).len() as int) == spill_bytes(metadata, data),
{
    let m = bytes::le_u32(b);
    let t = b.skip(4 + m);
    let front = b.take(4);
    let size = t.take(8);
    assert(front.take(4) =~= b.take(4));
    bytes::lemma_u32_front(b, front);
    bytes::lemma_u32_bytes_round_trip(front);
    assert(size.take(8) =~= t.take(8));
    bytes::lemma_u64_front(t, size);
    bytes::lemma_u64_bytes_round_trip(size);
    assert(metadata.len() == m);
    assert(data.len() == bytes::le_u64(t));
    let whole = front + metadata + size + data;
    assert(spill_bytes(metadata, data) == whole);
    lemma_parts_in_place(b, m, data.len() as int);
}

proof fn lemma_parts_in_place(b: Seq<u8>, m: int, n: int)
    requires
        0 <= m,
        0 <= n,
        12 + m + n <= b.len(),
    ensures
        b.take(12 + m + n) == b.take(4) + b.subrange(4, 4 + m) + b.skip(4 + m).take(8)
            + b.subrange(12 + m, 12 + m + n),
{
    assert(b.take(12 + m + n) =~= b.take(4) + b.subrange(4, 4 + m) + b.skip(4 + m).take(8)
        + b.subrange(12 + m, 12 + m + n));
}

/// An object's file is named after the object, in hexadecimal and with its own ending, directly
/// in the root.
pub proof fn law_file_names(root: Seq<char>, object_id: Seq<u8>)
    requires
        root.len() > 0,
    ensures
        root.is_prefix_of(object_path(root, object_id)),
        paths::rest_of(object_path(root, object_id), root) == hexadecimal::hex_text(object_id)
            + ".spill"@,
        file_url(object_path(root, object_id)).len() == "file://"@.len() + object_path(
            root,
            object_id,
        ).len(),
{
    reveal_strlit("/");
    let path = object_path(root, object_id);
    assert(path.take(root.len() as int) =~= root);
    assert(paths::rest_of(path, root) =~= hexadecimal::hex_text(object_id) + ".spill"@);
}

} // verus!
