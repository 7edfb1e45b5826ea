//! Values that can be read as path text.

use vstd::prelude::*;
use vstd::string::StringSliceAdditionalSpecFns;

verus! {

/// A value that holds path text and lends it out as bytes.
///
/// The operations that take unchecked input accept any such value: a string,
/// whose text is its UTF-8 encoding, or bytes as they are.
pub trait PathText {
    /// The text that the value holds.
    spec fn text(&self) -> Seq<u8>;

    /// Lends the text.
    fn as_text(&self) -> (t: &[u8])
        ensures
            t@ == self.text(),
    ;
}

impl PathText for str {
    open spec fn text(&self) -> Seq<u8> {
        self.spec_bytes()
    }

    fn as_text(&self) -> (t: &[u8]) {
        self.as_bytes()
    }
}

impl PathText for String {
    open spec fn text(&self) -> Seq<u8> {
        vstd::utf8::encode_utf8(self@)
    }

    fn as_text(&self) -> (t: &[u8]) {
        self.as_str().as_bytes()
    }
}

impl PathText for [u8] {
    open spec fn text(&self) -> Seq<u8> {
        self@
    }

    fn as_text(&self) -> (t: &[u8]) {
        self
    }
}

impl PathText for Vec<u8> {
    open spec fn text(&self) -> Seq<u8> {
        self@
    }

    fn as_text(&self) -> (t: &[u8]) {
        self.as_slice()
    }
}

} // verus!
