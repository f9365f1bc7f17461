//! The spilled objects of a node, and where they are.

use crate::kernel::id::ObjectId;
use crate::kernel::recovery::{ObjectRecoverer, RecoveredObject, RecoveryError};
use crate::raylet::spill;
use crate::raylet::spill::{RestoredObject, SpillBackend, SpillError, SpillUrl};
use crate::util::table::Table;
use crate::util::text::concat2;
use vstd::prelude::*;

verus! {

/// Whether a failed read shows that an object is lost.
pub open spec fn is_lost(r: Result<RestoredObject, SpillError>) -> bool {
    match r {
        Err(SpillError::NotFound { .. }) => true,
        Err(SpillError::Corrupt { .. }) => true,
        _ => false,
    }
}

/// The outcome of the read behind what `restore` gives for a spilled object.
pub open spec fn read_outcome(r: Result<Option<RestoredObject>, SpillError>) -> Result<
    RestoredObject,
    SpillError,
> {
    match r {
        Ok(object) => Ok(object->0),
        Err(e) => Err(e),
    }
}

/// The objects that are known after one was read back with outcome `r`.
pub open spec fn after_restore(
    m: Map<Seq<u8>, Seq<char>>,
    object_id: Seq<u8>,
    r: Result<RestoredObject, SpillError>,
) -> Map<Seq<u8>, Seq<char>> {
    if is_lost(r) {
        m.remove(object_id)
    } else {
        m
    }
}

/// The objects that are known after one was put away with outcome `r`.
pub open spec fn after_spill(
    m: Map<Seq<u8>, Seq<char>>,
    object_id: Seq<u8>,
    r: Result<SpillUrl, SpillError>,
) -> Map<Seq<u8>, Seq<char>> {
    match r {
        Ok(url) => m.insert(object_id, url@),
        Err(_) => m,
    }
}

/// Spilled objects with their URLs, and the place that holds them.
#[derive(Debug)]
pub struct LocalObjectManager<B> {
    backend: B,
    directory: Table<[u8; 28], SpillUrl>,
}

impl<B> View for LocalObjectManager<B> {
    type V = Map<Seq<u8>, Seq<char>>;

    closed spec fn view(&self) -> Map<Seq<u8>, Seq<char>> {
        self.directory@.map_values(|u: SpillUrl| u@)
    }
}

impl<B: SpillBackend> LocalObjectManager<B> {
    /// The table is well formed.
    pub closed spec fn wf(&self) -> bool {
        self.directory.wf()
    }

    /// The place.
    pub closed spec fn place(&self) -> B {
        self.backend
    }

    /// No objects, and a place for them.
    pub fn new(backend: B) -> (r: Self)
        ensures
            r.wf(),
            r@ == Map::<Seq<u8>, Seq<char>>::empty(),
            r.place() == backend,
    {
        let r = LocalObjectManager { backend, directory: Table::new() };
        assert(r@ =~= Map::<Seq<u8>, Seq<char>>::empty());
        r
    }

    /// Number of spilled objects.
    pub fn spilled_count(&self) -> (n: usize)
        requires
            self.wf(),
        ensures
            n == self@.dom().len(),
    {
        proof {
            self.directory.lemma_model();
            assert(self@.dom() =~= self.directory@.dom());
        }
        self.directory.len()
    }

    /// Whether an object is spilled.
    pub fn is_spilled(&self, object_id: &[u8; 28]) -> (b: bool)
        requires
            self.wf(),
        ensures
            b == self@.contains_key(object_id@),
    {
        self.directory.contains_key(object_id)
    }

    /// Where a spilled object is.
    pub fn spill_url(&self, object_id: &[u8; 28]) -> (r: Option<SpillUrl>)
        requires
            self.wf(),
        ensures
            match r {
                Some(url) => self@.contains_key(object_id@) && url@ == self@[object_id@],
                None => !self@.contains_key(object_id@),
            },
    {
        match self.directory.get(object_id) {
            Some(url) => Some(url.clone()),
            None => None,
        }
    }

    /// Takes note of the outcome of putting an object away.
    pub fn note_spill(&mut self, object_id: [u8; 28], r: &Result<SpillUrl, SpillError>)
        requires
            old(self).wf(),
        ensures
            final(self).wf(),
            final(self).place() == old(self).place(),
            final(self)@ == after_spill(old(self)@, object_id@, *r),
    {
        match r {
            Ok(url) => {
                let url = url.clone();
                self.directory.insert(object_id, url);
                assert(self@ =~= old(self)@.insert(object_id@, url@));
            },
            Err(_) => {},
        }
    }

    /// Takes note of the outcome of reading an object back: one that is gone or not in
    /// order is no longer known.
    pub fn note_restore(&mut self, object_id: &[u8; 28], r: &Result<RestoredObject, SpillError>)
        requires
            old(self).wf(),
        ensures
            final(self).wf(),
            final(self).place() == old(self).place(),
            final(self)@ == after_restore(old(self)@, object_id@, *r),
    {
        let lost = match r {
            Err(SpillError::NotFound { .. }) => true,
            Err(SpillError::Corrupt { .. }) => true,
            _ => false,
        };
        if lost {
            self.directory.remove(object_id);
            assert(self@ =~= old(self)@.remove(object_id@));
        }
    }

    /// Puts an object away.
    pub fn spill(&mut self, object_id: [u8; 28], metadata: &[u8], data: &[u8]) -> (r: Result<
        SpillUrl,
        SpillError,
    >)
        requires
            old(self).wf(),
        ensures
            final(self).wf(),
            B::spilled(
                old(self).place(),
                object_id@,
                metadata@,
                data@,
                final(self).place(),
                r,
            ),
            final(self)@ == after_spill(old(self)@, object_id@, r),
    {
        let r = self.backend.spill(object_id, metadata, data);
        self.note_spill(object_id, &r);
        r
    }

    /// Reads an object back; nothing where it is not spilled.
    pub fn restore(&mut self, object_id: &[u8; 28]) -> (r: Result<
        Option<RestoredObject>,
        SpillError,
    >)
        requires
            old(self).wf(),
        ensures
            final(self).wf(),
            !old(self)@.contains_key(object_id@) ==> *final(self) == *old(self) && r == Ok::<
                Option<RestoredObject>,
                SpillError,
            >(None),
            old(self)@.contains_key(object_id@) ==> {
                let got = read_outcome(r);
                &&& r != Ok::<Option<RestoredObject>, SpillError>(None)
                &&& B::restored(
                    old(self).place(),
                    old(self)@[object_id@],
                    final(self).place(),
                    got,
                )
                &&& final(self)@ == after_restore(old(self)@, object_id@, got)
            },
    {
        let url = match self.spill_url(object_id) {
            None => return Ok(None),
            Some(url) => url,
        };
        let got = self.backend.restore(&url);
        self.note_restore(object_id, &got);
        match got {
            Ok(object) => Ok(Some(object)),
            Err(e) => Err(e),
        }
    }

    /// Lets go of an object: it is no longer known, whatever comes of its removal.
    pub fn forget(&mut self, object_id: &[u8; 28]) -> (r: Result<(), SpillError>)
        requires
            old(self).wf(),
        ensures
            final(self).wf(),
            final(self)@ == old(self)@.remove(object_id@),
            if old(self)@.contains_key(object_id@) {
                B::removed(old(self).place(), old(self)@[object_id@], final(self).place(), r)
            } else {
                final(self).place() == old(self).place() && r == Ok::<(), SpillError>(())
            },
    {
        let ghost before = *self;
        match self.directory.remove(object_id) {
            None => {
                assert(self@ =~= before@.remove(object_id@));
                Ok(())
            },
            Some(url) => {
                assert(self@ =~= before@.remove(object_id@));
                let r = self.backend.remove(&url);
                assert(self@ =~= before@.remove(object_id@));
                r
            },
        }
    }
}

/// Spilled objects are the objects that a worker gets back.
impl<B: SpillBackend> ObjectRecoverer for LocalObjectManager<B> {
    open spec fn recoverer_wf(&self) -> bool {
        self.wf()
    }

    open spec fn recovers(
        before: Self,
        id: ObjectId,
        after: Self,
        r: Result<Option<RecoveredObject>, RecoveryError>,
    ) -> bool {
        if before@.contains_key(id.0@) {
            exists|got: Result<RestoredObject, SpillError>|
                {
                    &&& #[trigger] B::restored(before.place(), before@[id.0@], after.place(), got)
                    &&& after@ == after_restore(before@, id.0@, got)
                    &&& recovered(got, r)
                }
        } else {
            after == before && r == Ok::<Option<RecoveredObject>, RecoveryError>(None)
        }
    }

    open spec fn stores(
        before: Self,
        id: ObjectId,
        metadata: Seq<u8>,
        data: Seq<u8>,
        after: Self,
        r: Result<(), RecoveryError>,
    ) -> bool {
        exists|got: Result<SpillUrl, SpillError>|
            {
                &&& #[trigger] B::spilled(
                    before.place(),
                    id.0@,
                    metadata,
                    data,
                    after.place(),
                    got,
                )
                &&& after@ == after_spill(before@, id.0@, got)
                &&& match got {
                    Ok(_) => r == Ok::<(), RecoveryError>(()),
                    Err(e) => r matches Err(RecoveryError::Other(m)) && m@ == "spill store: "@
                        + e@.text(),
                }
            }
    }

    fn recover(&mut self, id: &ObjectId) -> (r: Result<Option<RecoveredObject>, RecoveryError>) {
        let got = self.restore(id.as_bytes());
        proof {
            if old(self)@.contains_key(id.0@) {
                assert(B::restored(
                    old(self).place(),
                    old(self)@[id.0@],
                    self.place(),
                    read_outcome(got),
                ));
            }
        }
        match got {
            Ok(None) => Ok(None),
            Ok(Some(object)) => Ok(
                Some(RecoveredObject { metadata: object.metadata, data: object.data }),
            ),
            Err(e) => {
                let shown = e.text();
                Err(RecoveryError::Other(concat2("spill restore: ", shown.as_str())))
            },
        }
    }

    fn store(&mut self, id: &ObjectId, metadata: &[u8], data: &[u8]) -> (r: Result<
        (),
        RecoveryError,
    >) {
        let got = self.spill(*id.as_bytes(), metadata, data);
        match got {
            Ok(_) => Ok(()),
            Err(e) => {
                let shown = e.text();
                Err(RecoveryError::Other(concat2("spill store: ", shown.as_str())))
            },
        }
    }
}

/// What a worker gets of the outcome of reading an object back.
pub open spec fn recovered(
    got: Result<RestoredObject, SpillError>,
    r: Result<Option<RecoveredObject>, RecoveryError>,
) -> bool {
    match got {
        Ok(object) => r matches Ok(Some(o)) && o.metadata == object.metadata && o.data
            == object.data,
        Err(e) => r matches Err(RecoveryError::Other(m)) && m@ == "spill restore: "@ + e@.text(),
    }
}

/// An object that was put away is known under its latest URL until it is let go or found
/// lost; other objects are left alone.
pub proof fn law_spill_is_remembered(
    m: Map<Seq<u8>, Seq<char>>,
    object_id: Seq<u8>,
    other: Seq<u8>,
    url: SpillUrl,
    got: Result<RestoredObject, SpillError>,
)
    ensures
        after_spill(m, object_id, Ok(url)).contains_key(object_id),
        after_spill(m, object_id, Ok(url))[object_id] == url@,
        got is Ok ==> after_restore(m, object_id, got) == m,
        is_lost(got) ==> !after_restore(m, object_id, got).contains_key(object_id),
        other != object_id ==> {
            &&& after_spill(m, object_id, Ok(url)).contains_key(other) == m.contains_key(other)
            &&& after_spill(m, object_id, Ok(url))[other] == m[other]
            &&& after_restore(m, object_id, got).contains_key(other) == m.contains_key(other)
            &&& m.contains_key(other) ==> after_restore(m, object_id, got)[other] == m[other]
        },
{
}

/// A failed attempt to put an object away changes nothing, so that an earlier one stays known;
/// one that succeeds changes nothing but the object's URL.
pub proof fn law_failed_spill_changes_nothing(
    m: Map<Seq<u8>, Seq<char>>,
    object_id: Seq<u8>,
    r: Result<SpillUrl, SpillError>,
)
    ensures
        r is Err ==> after_spill(m, object_id, r) == m,
        r matches Ok(url) ==> after_spill(m, object_id, r).contains_key(object_id) && after_spill(
            m,
            object_id,
            r,
        )[object_id] == url.0@,
{
}

/// An object is given up exactly when what stands at its URL is gone or not in order; a disk
/// that fails for the moment leaves it known, so that it can be tried again.
pub proof fn law_only_lost_objects_are_given_up(
    m: Map<Seq<u8>, Seq<char>>,
    object_id: Seq<u8>,
    got: Result<RestoredObject, SpillError>,
)
    requires
        m.contains_key(object_id),
    ensures
        after_restore(m, object_id, got).contains_key(object_id) <==> got is Ok || (
        got matches Err(e) && e is Io),
        (got matches Err(e) && e is Io) ==> after_restore(m, object_id, got) == m,
        after_restore(m, object_id, got).contains_key(object_id) ==> after_restore(
            m,
            object_id,
            got,
        )[object_id] == m[object_id],
{
}

/// A worker gets back the metadata and the data that were read, and a failure as a failure.
pub proof fn law_recovery_is_faithful(
    got: Result<RestoredObject, SpillError>,
    r: Result<Option<RecoveredObject>, RecoveryError>,
)
    requires
        recovered(got, r),
    ensures
        got is Ok <==> r is Ok,
        got matches Ok(o) ==> (r matches Ok(Some(x)) && x.metadata@ == o.metadata@ && x.data@
            == o.data@),
{
}

/// An object that was not put away is not given back, and nothing changes; one that was is
/// given back or the failure is told, and the other objects stay known.
pub proof fn law_recovery_knows_its_objects<B: SpillBackend>(
    before: LocalObjectManager<B>,
    id: ObjectId,
    after: LocalObjectManager<B>,
    r: Result<Option<RecoveredObject>, RecoveryError>,
    other: Seq<u8>,
)
    requires
        <LocalObjectManager<B> as ObjectRecoverer>::recovers(before, id, after, r),
        other != id.0@,
    ensures
        !before@.contains_key(id.0@) ==> after == before && r == Ok::<
            Option<RecoveredObject>,
            RecoveryError,
        >(None),
        before@.contains_key(id.0@) ==> r != Ok::<Option<RecoveredObject>, RecoveryError>(None),
        before@.contains_key(id.0@) && r is Ok ==> after@ == before@,
        before@.contains_key(other) ==> after@.contains_key(other) && after@[other]
            == before@[other],
        after@.contains_key(other) ==> before@.contains_key(other),
{
}

/// An object that was put away is known from then on; one that could not be leaves all as it
/// was known.
pub proof fn law_stored_object_is_known<B: SpillBackend>(
    before: LocalObjectManager<B>,
    id: ObjectId,
    metadata: Seq<u8>,
    data: Seq<u8>,
    after: LocalObjectManager<B>,
    r: Result<(), RecoveryError>,
    other: Seq<u8>,
)
    requires
        <LocalObjectManager<B> as ObjectRecoverer>::stores(before, id, metadata, data, after, r),
        other != id.0@,
    ensures
        r is Ok ==> after@.contains_key(id.0@),
        r is Err ==> after@ == before@,
        after@.contains_key(other) == before@.contains_key(other),
        before@.contains_key(other) ==> after@[other] == before@[other],
{
}

} // verus!
