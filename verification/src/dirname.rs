//! Directory components.

use crate::facts::lemma_spans;
use crate::ops::{has_component, is_absolute};
use crate::syntax::{has_root, spans};
use crate::text::PathText;
use vstd::prelude::*;
use vstd::slice::slice_to_vec;
use vstd::std_specs::convert::TryFromSpecImpl;

verus! {

/// Why a text is no directory component.
#[derive(Debug)]
pub enum DirnameError {
    /// The text holds no component.
    Empty,
    /// The text has a root.
    Absolute,
}

impl DirnameError {
    /// Says what is wrong, in words.
    pub fn message(&self) -> (m: String)
        ensures
            m@ == match *self {
                DirnameError::Empty => "dirname cannot be empty"@,
                DirnameError::Absolute => "dirname cannot be absolute"@,
            },
    {
        match self {
            DirnameError::Empty => "dirname cannot be empty".to_owned(),
            DirnameError::Absolute => "dirname cannot be absolute".to_owned(),
        }
    }
}

/// A directory component of a virtual path.
///
/// It is not empty and has no root. It may hold several nested directories,
/// as `a/b/c` does.
#[derive(Debug)]
pub struct Dirname {
    name: Vec<u8>,
}

impl View for Dirname {
    type V = Seq<u8>;

    closed spec fn view(&self) -> Seq<u8> {
        self.name@
    }
}

impl Dirname {
    /// What a text is as a directory component: refused as empty when it
    /// holds no component, refused when it has a root, and itself otherwise.
    pub open spec fn check(text: Seq<u8>) -> Result<Seq<u8>, DirnameError> {
        if spans(text).len() == 0 {
            Err(DirnameError::Empty)
        } else if has_root(text) {
            Err(DirnameError::Absolute)
        } else {
            Ok(text)
        }
    }

    #[verifier::type_invariant]
    spec fn relative(&self) -> bool {
        self.name@.len() > 0 && !has_root(self.name@)
    }

    /// Lends the text of the component, which is not empty and has no root.
    pub fn as_bytes(&self) -> (text: &[u8])
        ensures
            text@ == self@,
            self@.len() > 0,
            !has_root(self@),
    {
        proof {
            use_type_invariant(self);
        }
        self.name.as_slice()
    }
}

impl Clone for Dirname {
    /// Copies the component with its text.
    fn clone(&self) -> (copy: Dirname)
        ensures
            copy@ == self@,
    {
        proof {
            use_type_invariant(self);
        }
        Dirname { name: self.name.clone() }
    }
}

impl TryFrom<&[u8]> for Dirname {
    type Error = DirnameError;

    /// Accepts the text as it is when it is not empty and has no root.
    fn try_from(path: &[u8]) -> (r: Result<Dirname, DirnameError>)
        ensures
            r is Ok <==> path@.len() > 0 && !has_root(path@),
            Dirname::check(path@) == (match r {
                Ok(name) => Ok::<Seq<u8>, DirnameError>(name@),
                Err(e) => Err(e),
            }),
    {
        proof {
            lemma_spans(path@);
        }
        if !has_component(path) {
            return Err(DirnameError::Empty);
        }
        if is_absolute(path) {
            return Err(DirnameError::Absolute);
        }
        Ok(Dirname { name: slice_to_vec(path) })
    }
}

impl TryFrom<&Vec<u8>> for Dirname {
    type Error = DirnameError;

    /// Accepts the text as it is when it is not empty and has no root.
    fn try_from(path: &Vec<u8>) -> (r: Result<Dirname, DirnameError>)
        ensures
            r is Ok <==> path@.len() > 0 && !has_root(path@),
            Dirname::check(path@) == (match r {
                Ok(name) => Ok::<Seq<u8>, DirnameError>(name@),
                Err(e) => Err(e),
            }),
    {
        Dirname::try_from(path.as_slice())
    }
}

impl TryFrom<Vec<u8>> for Dirname {
    type Error = DirnameError;

    /// Accepts the text as it is when it is not empty and has no root.
    fn try_from(path: Vec<u8>) -> (r: Result<Dirname, DirnameError>)
        ensures
            r is Ok <==> path@.len() > 0 && !has_root(path@),
            Dirname::check(path@) == (match r {
                Ok(name) => Ok::<Seq<u8>, DirnameError>(name@),
                Err(e) => Err(e),
            }),
    {
        Dirname::try_from(&path)
    }
}

impl TryFrom<&str> for Dirname {
    type Error = DirnameError;

    /// Accepts the bytes of the string as they are when the string is not
    /// empty and does not start with a root.
    fn try_from(path: &str) -> (r: Result<Dirname, DirnameError>)
        ensures
            r is Ok <==> path.text().len() > 0 && !has_root(path.text()),
            Dirname::check(path.text()) == (match r {
                Ok(name) => Ok::<Seq<u8>, DirnameError>(name@),
                Err(e) => Err(e),
            }),
    {
        Dirname::try_from(path.as_bytes())
    }
}

/// The result of a conversion is stated by each `try_from` itself, over the
/// text of the component: to Verus two components with the same text need not
/// be one value, so no value is named here.
impl TryFromSpecImpl<&[u8]> for Dirname {
    open spec fn obeys_try_from_spec() -> bool {
        false
    }

    open spec fn try_from_spec(path: &[u8]) -> Result<Dirname, DirnameError> {
        match Dirname::check(path@) {
            Ok(text) => Ok(choose|name: Dirname| name@ == text),
            Err(e) => Err(e),
        }
    }
}

impl TryFromSpecImpl<&Vec<u8>> for Dirname {
    open spec fn obeys_try_from_spec() -> bool {
        false
    }

    open spec fn try_from_spec(path: &Vec<u8>) -> Result<Dirname, DirnameError> {
        match Dirname::check(path@) {
            Ok(text) => Ok(choose|name: Dirname| name@ == text),
            Err(e) => Err(e),
        }
    }
}

impl TryFromSpecImpl<Vec<u8>> for Dirname {
    open spec fn obeys_try_from_spec() -> bool {
        false
    }

    open spec fn try_from_spec(path: Vec<u8>) -> Result<Dirname, DirnameError> {
        match Dirname::check(path@) {
            Ok(text) => Ok(choose|name: Dirname| name@ == text),
            Err(e) => Err(e),
        }
    }
}

impl TryFromSpecImpl<&str> for Dirname {
    open spec fn obeys_try_from_spec() -> bool {
        false
    }

    open spec fn try_from_spec(path: &str) -> Result<Dirname, DirnameError> {
        match Dirname::check(path.text()) {
            Ok(text) => Ok(choose|name: Dirname| name@ == text),
            Err(e) => Err(e),
        }
    }
}

} // verus!
