//! File components.

use crate::facts::lemma_spans;
use crate::ops::{has_component, is_absolute};
use crate::syntax::{has_root, spans};
use crate::text::PathText;
use vstd::prelude::*;
use vstd::slice::slice_to_vec;
use vstd::std_specs::convert::TryFromSpecImpl;

verus! {

/// Why a text is no file component.
#[derive(Debug)]
pub enum FilenameError {
    /// The text holds no component.
    Empty,
    /// The text has a root.
    HasRoot,
}

impl FilenameError {
    /// Says what is wrong, in words.
    pub fn message(&self) -> (m: String)
        ensures
            m@ == match *self {
                FilenameError::Empty => "filename cannot be empty"@,
                FilenameError::HasRoot => "filename cannot be absolute"@,
            },
    {
        match self {
            FilenameError::Empty => "filename cannot be empty".to_owned(),
            FilenameError::HasRoot => "filename cannot be absolute".to_owned(),
        }
    }
}

/// The file component of a virtual path.
///
/// It is not empty and has no root. Directories may stand before the name of
/// the file, as in `parent/index.html`: they are attached along with it.
#[derive(Debug)]
pub struct Filename {
    name: Vec<u8>,
}

impl View for Filename {
    type V = Seq<u8>;

    closed spec fn view(&self) -> Seq<u8> {
        self.name@
    }
}

impl Filename {
    /// What a text is as a file component: refused as empty when it
    /// holds no component, refused when it has a root, and itself otherwise.
    pub open spec fn check(text: Seq<u8>) -> Result<Seq<u8>, FilenameError> {
        if spans(text).len() == 0 {
            Err(FilenameError::Empty)
        } else if has_root(text) {
            Err(FilenameError::HasRoot)
        } else {
            Ok(text)
        }
    }

    #[verifier::type_invariant]
    spec fn relative(&self) -> bool {
        self.name@.len() > 0 && !has_root(self.name@)
    }

    /// Lends the text of the component, which is not empty and has no root.
    pub fn as_bytes(&self) -> (text: &[u8])
        ensures
            text@ == self@,
            self@.len() > 0,
            !has_root(self@),
    {
        proof {
            use_type_invariant(self);
        }
        self.name.as_slice()
    }
}

impl Clone for Filename {
    /// Copies the component with its text.
    fn clone(&self) -> (copy: Filename)
        ensures
            copy@ == self@,
    {
        proof {
            use_type_invariant(self);
        }
        Filename { name: self.name.clone() }
    }
}

impl TryFrom<&[u8]> for Filename {
    type Error = FilenameError;

    /// Accepts the text as it is when it is not empty and has no root.
    fn try_from(path: &[u8]) -> (r: Result<Filename, FilenameError>)
        ensures
            r is Ok <==> path@.len() > 0 && !has_root(path@),
            Filename::check(path@) == (match r {
                Ok(name) => Ok::<Seq<u8>, FilenameError>(name@),
                Err(e) => Err(e),
            }),
    {
        proof {
            lemma_spans(path@);
        }
        if !has_component(path) {
            return Err(FilenameError::Empty);
        }
        if is_absolute(path) {
            return Err(FilenameError::HasRoot);
        }
        Ok(Filename { name: slice_to_vec(path) })
    }
}

impl TryFrom<&Vec<u8>> for Filename {
    type Error = FilenameError;

    /// Accepts the text as it is when it is not empty and has no root.
    fn try_from(path: &Vec<u8>) -> (r: Result<Filename, FilenameError>)
        ensures
            r is Ok <==> path@.len() > 0 && !has_root(path@),
            Filename::check(path@) == (match r {
                Ok(name) => Ok::<Seq<u8>, FilenameError>(name@),
                Err(e) => Err(e),
            }),
    {
        Filename::try_from(path.as_slice())
    }
}

impl TryFrom<Vec<u8>> for Filename {
    type Error = FilenameError;

    /// Accepts the text as it is when it is not empty and has no root.
    fn try_from(path: Vec<u8>) -> (r: Result<Filename, FilenameError>)
        ensures
            r is Ok <==> path@.len() > 0 && !has_root(path@),
            Filename::check(path@) == (match r {
                Ok(name) => Ok::<Seq<u8>, FilenameError>(name@),
                Err(e) => Err(e),
            }),
    {
        Filename::try_from(&path)
    }
}

impl TryFrom<&str> for Filename {
    type Error = FilenameError;

    /// Accepts the bytes of the string as they are when the string is not
    /// empty and does not start with a root.
    fn try_from(path: &str) -> (r: Result<Filename, FilenameError>)
        ensures
            r is Ok <==> path.text().len() > 0 && !has_root(path.text()),
            Filename::check(path.text()) == (match r {
                Ok(name) => Ok::<Seq<u8>, FilenameError>(name@),
                Err(e) => Err(e),
            }),
    {
        Filename::try_from(path.as_bytes())
    }
}

/// The result of a conversion is stated by each `try_from` itself, over the
/// text of the component: to Verus two components with the same text need not
/// be one value, so no value is named here.
impl TryFromSpecImpl<&[u8]> for Filename {
    open spec fn obeys_try_from_spec() -> bool {
        false
    }

    open spec fn try_from_spec(path: &[u8]) -> Result<Filename, FilenameError> {
        match Filename::check(path@) {
            Ok(text) => Ok(choose|name: Filename| name@ == text),
            Err(e) => Err(e),
        }
    }
}

impl TryFromSpecImpl<&Vec<u8>> for Filename {
    open spec fn obeys_try_from_spec() -> bool {
        false
    }

    open spec fn try_from_spec(path: &Vec<u8>) -> Result<Filename, FilenameError> {
        match Filename::check(path@) {
            Ok(text) => Ok(choose|name: Filename| name@ == text),
            Err(e) => Err(e),
        }
    }
}

impl TryFromSpecImpl<Vec<u8>> for Filename {
    open spec fn obeys_try_from_spec() -> bool {
        false
    }

    open spec fn try_from_spec(path: Vec<u8>) -> Result<Filename, FilenameError> {
        match Filename::check(path@) {
            Ok(text) => Ok(choose|name: Filename| name@ == text),
            Err(e) => Err(e),
        }
    }
}

impl TryFromSpecImpl<&str> for Filename {
    open spec fn obeys_try_from_spec() -> bool {
        false
    }

    open spec fn try_from_spec(path: &str) -> Result<Filename, FilenameError> {
        match Filename::check(path.text()) {
            Ok(text) => Ok(choose|name: Filename| name@ == text),
            Err(e) => Err(e),
        }
    }
}

} // verus!
