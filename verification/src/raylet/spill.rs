//! Objects spilled out of shared memory.

use crate::util::text::{concat2, concat3};
use vstd::prelude::*;

verus! {

/// Where a spilled object is.
#[derive(Debug, PartialEq, Eq, Hash)]
pub struct SpillUrl(pub String);

impl View for SpillUrl {
    type V = Seq<char>;

    open spec fn view(&self) -> Seq<char> {
        self.0@
    }
}

impl SpillUrl {
    /// The URL as a text.
    pub fn as_str(&self) -> (r: &str)
        ensures
            r@ == self@,
    {
        self.0.as_str()
    }
}

impl Clone for SpillUrl {
    fn clone(&self) -> (r: Self)
        ensures
            r@ == self@,
    {
        SpillUrl(self.0.clone())
    }
}

impl From<String> for SpillUrl {
    fn from(s: String) -> (r: Self) {
        SpillUrl(s)
    }
}

impl vstd::std_specs::convert::FromSpecImpl<String> for SpillUrl {
    open spec fn obeys_from_spec() -> bool {
        true
    }

    open spec fn from_spec(s: String) -> SpillUrl {
        SpillUrl(s)
    }
}

/// A spilled object that was read back.
#[derive(Debug, PartialEq, Eq)]
pub struct RestoredObject {
    /// Encoded metadata.
    pub metadata: Vec<u8>,
    /// The payload.
    pub data: Vec<u8>,
}

impl View for RestoredObject {
    type V = (Seq<u8>, Seq<u8>);

    open spec fn view(&self) -> (Seq<u8>, Seq<u8>) {
        (self.metadata@, self.data@)
    }
}

/// Why an object could not be spilled or read back.
#[derive(Debug)]
pub enum SpillError {
    /// Nothing stands at the URL.
    NotFound {
        /// The URL.
        url: String,
    },
    /// The disk failed; how the system shows it.
    Io(String),
    /// What stands at the URL is not in order.
    Corrupt {
        /// The URL.
        url: String,
        /// What is wrong.
        reason: String,
    },
}

/// The mathematical content of a `SpillError`.
pub enum SpillErrorModel {
    /// Nothing stands at the URL.
    NotFound {
        /// The URL.
        url: Seq<char>,
    },
    /// The disk failed.
    Io(Seq<char>),
    /// What stands at the URL is not in order.
    Corrupt {
        /// The URL.
        url: Seq<char>,
        /// What is wrong.
        reason: Seq<char>,
    },
}

impl View for SpillError {
    type V = SpillErrorModel;

    open spec fn view(&self) -> SpillErrorModel {
        match self {
            SpillError::NotFound { url } => SpillErrorModel::NotFound { url: url@ },
            SpillError::Io(e) => SpillErrorModel::Io(e@),
            SpillError::Corrupt { url, reason } => SpillErrorModel::Corrupt {
                url: url@,
                reason: reason@,
            },
        }
    }
}

impl SpillErrorModel {
    /// The failure as a text.
    pub open spec fn text(self) -> Seq<char> {
        match self {
            SpillErrorModel::NotFound { url } => "spill url not found: "@ + url,
            SpillErrorModel::Io(e) => "spill I/O: "@ + e,
            SpillErrorModel::Corrupt { url, reason } => "spill corruption at "@ + url + ": "@
                + reason,
        }
    }
}

impl SpillError {
    /// The failure as a text.
    pub fn text(&self) -> (r: String)
        ensures
            r@ == self@.text(),
    {
        match self {
            SpillError::NotFound { url } => concat2("spill url not found: ", url.as_str()),
            SpillError::Io(e) => concat2("spill I/O: ", e.as_str()),
            SpillError::Corrupt { url, reason } => {
                let mut r = concat3("spill corruption at ", url.as_str(), ": ");
                r.append(reason.as_str());
                r
            },
        }
    }
}

/// A place for spilled objects. What a call does is up to the place: `spilled`, `restored`
/// and `removed` relate the place before and after a call to what was handed to it and what
/// came back. A place that says nothing of them promises nothing.
pub trait SpillBackend: Sized {
    /// What `spill` does.
    open spec fn spilled(
        before: Self,
        object_id: Seq<u8>,
        metadata: Seq<u8>,
        data: Seq<u8>,
        after: Self,
        r: Result<SpillUrl, SpillError>,
    ) -> bool {
        true
    }

    /// What `restore` does.
    open spec fn restored(
        before: Self,
        url: Seq<char>,
        after: Self,
        r: Result<RestoredObject, SpillError>,
    ) -> bool {
        true
    }

    /// What `remove` does.
    open spec fn removed(before: Self, url: Seq<char>, after: Self, r: Result<(), SpillError>) -> bool {
        true
    }

    /// Puts an object away.
    fn spill(&mut self, object_id: [u8; 28], metadata: &[u8], data: &[u8]) -> (r: Result<
        SpillUrl,
        SpillError,
    >)
        ensures
            Self::spilled(*old(self), object_id@, metadata@, data@, *final(self), r),
    ;

    /// Reads an object back.
    fn restore(&mut self, url: &SpillUrl) -> (r: Result<RestoredObject, SpillError>)
        ensures
            Self::restored(*old(self), url@, *final(self), r),
    ;

    /// Removes an object; that there is none is no failure.
    fn remove(&mut self, url: &SpillUrl) -> (r: Result<(), SpillError>)
        ensures
            Self::removed(*old(self), url@, *final(self), r),
    ;
}

} // verus!
