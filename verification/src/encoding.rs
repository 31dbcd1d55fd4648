//! The encodings of the bytes of a document.

use vstd::prelude::*;

verus! {

/// The encoding of the byte stream of a document.
#[derive(Debug, Clone, Copy, PartialEq, Eq, Structural)]
pub enum Encoding {
    Utf8,
    Utf16,
    Utf16LE,
    Utf16BE,
    Ascii,
    AsciiCompatible,
}

} // verus!
