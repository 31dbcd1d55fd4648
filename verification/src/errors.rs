//! Errors of the document model.

use vstd::prelude::*;
use crate::object::DOMObject;

verus! {

/// The exception codes of the DOM standard.
#[allow(non_camel_case_types)]
#[derive(Debug, PartialEq, Eq, PartialOrd, Ord, Clone, Copy, Structural)]
pub enum DOMExceptionCode {
    INDEX_SIZE_ERR,
    DOMSTRING_SIZE_ERR,
    HIERARCHY_REQUEST_ERR,
    WRONG_DOCUMENT_ERR,
    INVALID_CHARACTER_ERR,
    NO_DATA_ALLOWED_ERR,
    NO_MODIFICATION_ALLOWED_ERR,
    NOT_FOUND_ERR,
    NOT_SUPPORTED_ERR,
    INUSE_ATTRIBUTE_ERR,
    INVALID_STATE_ERR,
    SYNTAX_ERR,
    INVALID_MODIFICATION_ERR,
    NAMESPACE_ERR,
    INVALID_ACCESS_ERR,
}

impl DOMExceptionCode {
    /// The number that the DOM standard gives this code.
    pub open spec fn spec_code(&self) -> u16 {
        match *self {
            DOMExceptionCode::INDEX_SIZE_ERR => 1,
            DOMExceptionCode::DOMSTRING_SIZE_ERR => 2,
            DOMExceptionCode::HIERARCHY_REQUEST_ERR => 3,
            DOMExceptionCode::WRONG_DOCUMENT_ERR => 4,
            DOMExceptionCode::INVALID_CHARACTER_ERR => 5,
            DOMExceptionCode::NO_DATA_ALLOWED_ERR => 6,
            DOMExceptionCode::NO_MODIFICATION_ALLOWED_ERR => 7,
            DOMExceptionCode::NOT_FOUND_ERR => 8,
            DOMExceptionCode::NOT_SUPPORTED_ERR => 9,
            DOMExceptionCode::INUSE_ATTRIBUTE_ERR => 10,
            DOMExceptionCode::INVALID_STATE_ERR => 11,
            DOMExceptionCode::SYNTAX_ERR => 12,
            DOMExceptionCode::INVALID_MODIFICATION_ERR => 13,
            DOMExceptionCode::NAMESPACE_ERR => 14,
            DOMExceptionCode::INVALID_ACCESS_ERR => 15,
        }
    }

    /// Returns the number of this code in the DOM standard.
    #[verifier::when_used_as_spec(spec_code)]
    pub fn code(&self) -> (code: u16)
        ensures
            code == self.spec_code(),
            1 <= code <= 15,
    {
        match *self {
            DOMExceptionCode::INDEX_SIZE_ERR => 1,
            DOMExceptionCode::DOMSTRING_SIZE_ERR => 2,
            DOMExceptionCode::HIERARCHY_REQUEST_ERR => 3,
            DOMExceptionCode::WRONG_DOCUMENT_ERR => 4,
            DOMExceptionCode::INVALID_CHARACTER_ERR => 5,
            DOMExceptionCode::NO_DATA_ALLOWED_ERR => 6,
            DOMExceptionCode::NO_MODIFICATION_ALLOWED_ERR => 7,
            DOMExceptionCode::NOT_FOUND_ERR => 8,
            DOMExceptionCode::NOT_SUPPORTED_ERR => 9,
            DOMExceptionCode::INUSE_ATTRIBUTE_ERR => 10,
            DOMExceptionCode::INVALID_STATE_ERR => 11,
            DOMExceptionCode::SYNTAX_ERR => 12,
            DOMExceptionCode::INVALID_MODIFICATION_ERR => 13,
            DOMExceptionCode::NAMESPACE_ERR => 14,
            DOMExceptionCode::INVALID_ACCESS_ERR => 15,
        }
    }
}

/// What an operation of the document model fails with.
#[derive(Debug, Clone, Copy, PartialEq, Eq)]
pub enum Error<'a> {
    /// The text is no qualified name.
    QName(&'a str),
    /// The handle names no node of the document.
    NodeNotFound(DOMObject),
    /// A rule of the DOM standard was broken.
    DOMException(DOMExceptionCode),
}

} // verus!
