//! Absolute paths.

use crate::ops::is_absolute;
use crate::syntax::has_root;
use crate::text::PathText;
use vstd::prelude::*;
use vstd::slice::slice_to_vec;
use vstd::std_specs::convert::{FromSpecImpl, TryFromSpecImpl};

verus! {

/// The reason a text is no absolute path: it has no root.
#[derive(Debug)]
pub struct AbsolutePathError;

impl AbsolutePathError {
    /// Says what is wrong, in words.
    pub fn message(&self) -> (m: String)
        ensures
            m@ == "path must be absolute"@,
    {
        "path must be absolute".to_owned()
    }
}

/// A path that is known to be absolute.
///
/// The text is kept as it was given: nothing is normalized or resolved, and
/// the path need not exist.
#[derive(Debug)]
pub struct AbsolutePath(Vec<u8>);

impl View for AbsolutePath {
    type V = Seq<u8>;

    closed spec fn view(&self) -> Seq<u8> {
        self.0@
    }
}

impl AbsolutePath {
    /// What a text is as an absolute path: itself when it has a root, and
    /// refused otherwise. The empty text has no root.
    pub open spec fn check(text: Seq<u8>) -> Result<Seq<u8>, AbsolutePathError> {
        if has_root(text) {
            Ok(text)
        } else {
            Err(AbsolutePathError)
        }
    }

    #[verifier::type_invariant]
    spec fn rooted(&self) -> bool {
        has_root(self.0@)
    }

    /// Lends the text of the path, which has a root.
    pub fn as_bytes(&self) -> (text: &[u8])
        ensures
            text@ == self@,
            has_root(self@),
    {
        proof {
            use_type_invariant(self);
        }
        self.0.as_slice()
    }
}

impl PathText for AbsolutePath {
    open spec fn text(&self) -> Seq<u8> {
        self@
    }

    fn as_text(&self) -> (t: &[u8]) {
        self.as_bytes()
    }
}

impl Clone for AbsolutePath {
    /// Copies the path with its text.
    fn clone(&self) -> (copy: AbsolutePath)
        ensures
            copy@ == self@,
    {
        proof {
            use_type_invariant(self);
        }
        AbsolutePath(self.0.clone())
    }
}

impl TryFrom<&[u8]> for AbsolutePath {
    type Error = AbsolutePathError;

    /// Accepts the text as it is when it has a root.
    fn try_from(path: &[u8]) -> (r: Result<AbsolutePath, AbsolutePathError>)
        ensures
            r is Ok <==> has_root(path@),
            r matches Ok(abs) ==> abs@ == path@,
    {
        if is_absolute(path) {
            Ok(AbsolutePath(slice_to_vec(path)))
        } else {
            Err(AbsolutePathError)
        }
    }
}

impl TryFrom<&Vec<u8>> for AbsolutePath {
    type Error = AbsolutePathError;

    /// Accepts the text as it is when it has a root.
    fn try_from(path: &Vec<u8>) -> (r: Result<AbsolutePath, AbsolutePathError>)
        ensures
            r is Ok <==> has_root(path@),
            r matches Ok(abs) ==> abs@ == path@,
    {
        AbsolutePath::try_from(path.as_slice())
    }
}

impl TryFrom<Vec<u8>> for AbsolutePath {
    type Error = AbsolutePathError;

    /// Accepts the text as it is when it has a root.
    fn try_from(path: Vec<u8>) -> (r: Result<AbsolutePath, AbsolutePathError>)
        ensures
            r is Ok <==> has_root(path@),
            r matches Ok(abs) ==> abs@ == path@,
    {
        AbsolutePath::try_from(&path)
    }
}

impl TryFrom<&str> for AbsolutePath {
    type Error = AbsolutePathError;

    /// Accepts the bytes of the string as they are when they start with a
    /// root.
    fn try_from(path: &str) -> (r: Result<AbsolutePath, AbsolutePathError>)
        ensures
            r is Ok <==> has_root(path.text()),
            r matches Ok(abs) ==> abs@ == path.text(),
    {
        AbsolutePath::try_from(path.as_bytes())
    }
}

/// The result of a conversion is stated by each `try_from` itself, over the
/// text of the path: to Verus two paths with the same text need not be one
/// value, so no value is named here.
impl TryFromSpecImpl<&[u8]> for AbsolutePath {
    open spec fn obeys_try_from_spec() -> bool {
        false
    }

    open spec fn try_from_spec(path: &[u8]) -> Result<AbsolutePath, AbsolutePathError> {
        match AbsolutePath::check(path@) {
            Ok(text) => Ok(choose|abs: AbsolutePath| abs@ == text),
            Err(e) => Err(e),
        }
    }
}

impl TryFromSpecImpl<&Vec<u8>> for AbsolutePath {
    open spec fn obeys_try_from_spec() -> bool {
        false
    }

    open spec fn try_from_spec(path: &Vec<u8>) -> Result<AbsolutePath, AbsolutePathError> {
        match AbsolutePath::check(path@) {
            Ok(text) => Ok(choose|abs: AbsolutePath| abs@ == text),
            Err(e) => Err(e),
        }
    }
}

impl TryFromSpecImpl<Vec<u8>> for AbsolutePath {
    open spec fn obeys_try_from_spec() -> bool {
        false
    }

    open spec fn try_from_spec(path: Vec<u8>) -> Result<AbsolutePath, AbsolutePathError> {
        match AbsolutePath::check(path@) {
            Ok(text) => Ok(choose|abs: AbsolutePath| abs@ == text),
            Err(e) => Err(e),
        }
    }
}

impl TryFromSpecImpl<&str> for AbsolutePath {
    open spec fn obeys_try_from_spec() -> bool {
        false
    }

    open spec fn try_from_spec(path: &str) -> Result<AbsolutePath, AbsolutePathError> {
        match AbsolutePath::check(path.text()) {
            Ok(text) => Ok(choose|abs: AbsolutePath| abs@ == text),
            Err(e) => Err(e),
        }
    }
}

impl From<AbsolutePath> for Vec<u8> {
    /// Hands out the text of the path.
    fn from(path: AbsolutePath) -> (text: Vec<u8>)
        ensures
            text@ == path@,
    {
        path.0
    }
}

impl From<&AbsolutePath> for Vec<u8> {
    /// Copies the text of the path.
    fn from(path: &AbsolutePath) -> (text: Vec<u8>)
        ensures
            text@ == path@,
    {
        path.0.clone()
    }
}

impl FromSpecImpl<AbsolutePath> for Vec<u8> {
    open spec fn obeys_from_spec() -> bool {
        false
    }

    open spec fn from_spec(path: AbsolutePath) -> Vec<u8> {
        choose|text: Vec<u8>| text@ == path@
    }
}

impl FromSpecImpl<&AbsolutePath> for Vec<u8> {
    open spec fn obeys_from_spec() -> bool {
        false
    }

    open spec fn from_spec(path: &AbsolutePath) -> Vec<u8> {
        choose|text: Vec<u8>| text@ == path@
    }
}

} // verus!
