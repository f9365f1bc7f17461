//! Summary of an error, available without unpickling the user's exception.

use crate::kernel::error_payload::ErrorPayload;
use crate::kernel::metadata::{ErrorCategory, Metadata};
use vstd::prelude::*;

verus! {

/// The granular code of an error that has none.
pub const RAW_CODE_UNSPECIFIED: u16 = 0;

/// What is known of a failed object without unpickling its exception.
#[derive(Debug, Clone, PartialEq, Eq, Hash)]
pub struct ErrorInfo {
    /// Coarse category.
    pub category: ErrorCategory,
    /// Human-readable message.
    pub message: String,
    /// Formatted traceback.
    pub traceback: Option<String>,
    /// Granular code.
    pub raw_code: u16,
}

/// The mathematical content of an `ErrorInfo`.
#[verifier::ext_equal]
pub struct ErrorInfoModel {
    /// Coarse category.
    pub category: ErrorCategory,
    /// Human-readable message.
    pub message: Seq<char>,
    /// Formatted traceback.
    pub traceback: Option<Seq<char>>,
    /// Granular code.
    pub raw_code: u16,
}

impl View for ErrorInfo {
    type V = ErrorInfoModel;

    open spec fn view(&self) -> ErrorInfoModel {
        ErrorInfoModel {
            category: self.category,
            message: self.message@,
            traceback: match self.traceback {
                None => None,
                Some(t) => Some(t@),
            },
            raw_code: self.raw_code,
        }
    }
}

impl ErrorInfo {
    /// An error without traceback and without granular code.
    pub fn new(category: ErrorCategory, message: &str) -> (r: Self)
        ensures
            r@ == (ErrorInfoModel {
                category,
                message: message@,
                traceback: None,
                raw_code: RAW_CODE_UNSPECIFIED,
            }),
    {
        ErrorInfo {
            category,
            message: message.to_owned(),
            traceback: None,
            raw_code: RAW_CODE_UNSPECIFIED,
        }
    }

    /// The error with its traceback set.
    pub fn with_traceback(self, traceback: &str) -> (r: Self)
        ensures
            r@ == (ErrorInfoModel { traceback: Some(traceback@), ..self@ }),
    {
        let mut this = self;
        this.traceback = Some(traceback.to_owned());
        this
    }

    /// The error with its granular code set.
    pub fn with_raw_code(self, raw_code: u16) -> (r: Self)
        ensures
            r@ == (ErrorInfoModel { raw_code, ..self@ }),
    {
        let mut this = self;
        this.raw_code = raw_code;
        this
    }
}

/// What is known of a failure is modelled with all that it holds.
pub proof fn law_error_infos_are_modelled(e: ErrorInfo)
    ensures
        e@.category == e.category,
        e@.message == e.message@,
        e@.raw_code == e.raw_code,
        e@.traceback is Some <==> e.traceback is Some,
        e.traceback matches Some(t) ==> e@.traceback == Some(t@),
{
}

} // verus!
