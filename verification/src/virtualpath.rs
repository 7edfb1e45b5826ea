//! Virtual paths and the operations that build them.

use crate::absolute::AbsolutePath;
use crate::dirname::Dirname;
use crate::facts::lemma_spans;
use crate::filename::Filename;
use crate::marker::{DirMarker, FileMarker};
use crate::ops;
use crate::syntax;
use crate::syntax::{has_root, join, same_components, spans};
use crate::text::PathText;
use core::marker::PhantomData;
use vstd::prelude::*;
use vstd::slice::{slice_subrange, slice_to_vec};
use vstd::std_specs::cmp::PartialEqSpecImpl;

verus! {

/// The reason a prefix cannot be stripped: the relative path does not start
/// with it.
#[derive(Debug)]
pub struct PrefixError;

impl PrefixError {
    /// Says what is wrong, in words.
    pub fn message(&self) -> (m: String)
        ensures
            m@ == "prefix not found"@,
    {
        "prefix not found".to_owned()
    }
}

/// What a virtual path is made of: the text of its base and the text of its
/// relative path.
pub struct PathParts {
    pub base: Seq<u8>,
    pub path: Seq<u8>,
}

impl PathParts {
    /// The whole path: the base with the relative path adjoined.
    pub open spec fn rendered(self) -> Seq<u8> {
        join(self.base, self.path)
    }

    /// The same relative path on another base.
    pub open spec fn rebased(self, base: Seq<u8>) -> PathParts {
        PathParts { base, path: self.path }
    }

    /// The relative path with a segment adjoined; the base stays.
    pub open spec fn pushed(self, seg: Seq<u8>) -> PathParts {
        PathParts { base: self.base, path: join(self.path, seg) }
    }

    /// The relative path without a leading prefix; the base stays. `None`
    /// when the relative path does not start with the prefix.
    pub open spec fn stripped(self, prefix: Seq<u8>) -> Option<PathParts> {
        match syntax::strip_prefix(self.path, prefix) {
            Some(rest) => Some(PathParts { base: self.base, path: rest }),
            None => None,
        }
    }

    /// The relative path with another extension; the base stays.
    pub open spec fn with_extension(self, ext: Seq<u8>) -> PathParts {
        PathParts { base: self.base, path: syntax::with_extension(self.path, ext) }
    }

    /// The relative path with another final name; the base stays.
    pub open spec fn with_file_name(self, name: Seq<u8>) -> PathParts {
        PathParts { base: self.base, path: syntax::with_file_name(self.path, name) }
    }
}

/// A relative path on a base that can be swapped.
///
/// The marker `M` tells whether the path denotes a directory or a file. A
/// new path denotes a directory; attaching a file turns it into one that
/// denotes a file, and nothing turns it back.
#[derive(Debug)]
pub struct VirtualPath<M> {
    base: Vec<u8>,
    path: Vec<u8>,
    _phantom: PhantomData<M>,
}

impl<M> View for VirtualPath<M> {
    type V = PathParts;

    closed spec fn view(&self) -> PathParts {
        PathParts { base: self.base@, path: self.path@ }
    }
}

impl<M> VirtualPath<M> {
    /// Builds the whole path: the base with the relative path adjoined. The
    /// result is relative as long as no base was set.
    pub fn to_path_buf(&self) -> (whole: Vec<u8>)
        ensures
            whole@ == self@.rendered(),
    {
        let mut target = self.base.clone();
        ops::push(&mut target, self.path.as_slice());
        target
    }

    /// Returns the same relative path on the given base, which is absolute.
    /// The receiver stays as it is.
    #[must_use]
    pub fn with_base(&self, base: &AbsolutePath) -> (moved: VirtualPath<M>)
        ensures
            moved@ == self@.rebased(base@),
            has_root(moved@.base),
    {
        let text = base.as_bytes();
        VirtualPath { base: slice_to_vec(text), path: self.path.clone(), _phantom: PhantomData }
    }

    /// Tells whether the path has a base: whether its base holds a
    /// component, which it does exactly when it is not empty.
    pub fn has_base(&self) -> (r: bool)
        ensures
            r == (spans(self@.base).len() > 0),
            r == (self@.base.len() > 0),
    {
        proof {
            lemma_spans(self@.base);
        }
        ops::has_component(self.base.as_slice())
    }

    /// Removes the prefix from the relative path. The base is not touched.
    /// Fails when the relative path does not start with the prefix.
    pub fn strip_prefix<P: PathText + ?Sized>(self, prefix: &P) -> (r: Result<Self, PrefixError>)
        ensures
            match r {
                Ok(rest) => self@.stripped(prefix.text()) == Some(rest@),
                Err(_) => self@.stripped(prefix.text()) is None,
            },
    {
        match ops::strip(self.path.as_slice(), prefix.as_text()) {
            Some(rest) => {
                let path = slice_to_vec(rest);
                Ok(VirtualPath { base: self.base, path, _phantom: PhantomData })
            },
            None => Err(PrefixError),
        }
    }

    /// Returns the whole path without its last component, or nothing when
    /// the whole path is empty or ends in its root.
    pub fn parent(&self) -> (r: Option<Vec<u8>>)
        ensures
            match r {
                Some(above) => syntax::parent(self@.rendered()) == Some(above@),
                None => syntax::parent(self@.rendered()) is None,
            },
    {
        let mut whole = self.to_path_buf();
        match ops::parent_len(whole.as_slice()) {
            Some(n) => {
                whole.truncate(n);
                Some(whole)
            },
            None => None,
        }
    }
}

impl<M> Clone for VirtualPath<M> {
    /// Copies the base and the relative path.
    fn clone(&self) -> (copy: VirtualPath<M>)
        ensures
            copy@ == self@,
    {
        VirtualPath { base: self.base.clone(), path: self.path.clone(), _phantom: PhantomData }
    }
}

impl<M> PartialEq for VirtualPath<M> {
    /// Two virtual paths are equal when their bases have the same
    /// components and their relative paths have the same components.
    fn eq(&self, other: &Self) -> (r: bool) {
        ops::same_path(self.base.as_slice(), other.base.as_slice()) && ops::same_path(
            self.path.as_slice(),
            other.path.as_slice(),
        )
    }
}

impl<M> PartialEqSpecImpl for VirtualPath<M> {
    open spec fn obeys_eq_spec() -> bool {
        true
    }

    open spec fn eq_spec(&self, other: &Self) -> bool {
        same_components(self@.base, other@.base) && same_components(self@.path, other@.path)
    }
}

impl<M> Eq for VirtualPath<M> {}

impl VirtualPath<DirMarker> {
    /// Pushes a directory onto the relative path, unchecked: it is for the
    /// caller to see that `dir` is neither empty nor absolute.
    pub fn push_dir_raw<P: PathText + ?Sized>(&mut self, dir: &P)
        ensures
            final(self)@ == old(self)@.pushed(dir.text()),
    {
        ops::push(&mut self.path, dir.as_text());
    }

    /// Pushes a directory onto the relative path. A relative path without
    /// a root stays without one.
    pub fn push_dir(&mut self, dir: Dirname)
        ensures
            final(self)@ == old(self)@.pushed(dir@),
            !has_root(old(self)@.path) ==> !has_root(final(self)@.path),
    {
        ops::push(&mut self.path, dir.as_bytes());
    }

    /// Returns the path with a directory pushed onto it, unchecked: it is
    /// for the caller to see that `dir` is neither empty nor absolute.
    pub fn with_dir_raw<P: PathText + ?Sized>(self, dir: &P) -> (longer: Self)
        ensures
            longer@ == self@.pushed(dir.text()),
    {
        let mut path = self.path;
        ops::push(&mut path, dir.as_text());
        VirtualPath { base: self.base, path, _phantom: PhantomData }
    }

    /// Returns the path with a directory pushed onto it. A relative path
    /// without a root stays without one.
    pub fn with_dir(self, dir: Dirname) -> (longer: Self)
        ensures
            longer@ == self@.pushed(dir@),
            !has_root(self@.path) ==> !has_root(longer@.path),
    {
        self.with_dir_raw(dir.as_bytes())
    }

    /// Returns the path with a file attached, unchecked: it is for the
    /// caller to see that `file` is neither empty nor absolute. The result
    /// denotes a file.
    pub fn with_file_raw<P: PathText + ?Sized>(self, file: &P) -> (whole: VirtualPath<FileMarker>)
        ensures
            whole@ == self@.pushed(file.text()),
    {
        let mut path = self.path;
        ops::push(&mut path, file.as_text());
        VirtualPath { base: self.base, path, _phantom: PhantomData }
    }

    /// Returns the path with a file attached. The result denotes a file. A
    /// relative path without a root stays without one.
    pub fn with_file(self, file: Filename) -> (whole: VirtualPath<FileMarker>)
        ensures
            whole@ == self@.pushed(file@),
            !has_root(self@.path) ==> !has_root(whole@.path),
    {
        self.with_file_raw(file.as_bytes())
    }
}

impl VirtualPath<FileMarker> {
    /// Lends the extension of the file, if its name has one.
    pub fn extension(&self) -> (r: Option<&[u8]>)
        ensures
            match r {
                Some(ext) => syntax::extension(self@.path) == Some(ext@),
                None => syntax::extension(self@.path) is None,
            },
    {
        ops::extension_of(self.path.as_slice())
    }

    /// Lends the stem of the file's name. It is empty where the relative
    /// path has no final name, as after an empty file was attached
    /// unchecked.
    pub fn file_stem(&self) -> (stem: &[u8])
        ensures
            stem@ == match syntax::file_stem(self@.path) {
                Some(s) => s,
                None => Seq::<u8>::empty(),
            },
    {
        match ops::stem_of(self.path.as_slice()) {
            Some(stem) => stem,
            None => slice_subrange(self.path.as_slice(), 0, 0),
        }
    }

    /// Replaces the extension of the file's name, or adds one.
    pub fn set_extension<S: PathText + ?Sized>(&mut self, extension: &S)
        ensures
            final(self)@ == old(self)@.with_extension(extension.text()),
    {
        ops::set_extension(&mut self.path, extension.as_text());
    }

    /// Replaces the name of the file. The directories before it stay.
    pub fn set_file_name<S: PathText + ?Sized>(&mut self, file_name: &S)
        ensures
            final(self)@ == old(self)@.with_file_name(file_name.text()),
    {
        ops::set_file_name(&mut self.path, file_name.as_text());
    }

    /// Returns the path with the extension of the file's name replaced.
    pub fn with_extension<S: PathText + ?Sized>(self, extension: &S) -> (renamed: Self)
        ensures
            renamed@ == self@.with_extension(extension.text()),
    {
        let mut renamed = self;
        renamed.set_extension(extension);
        renamed
    }
}

impl Default for VirtualPath<DirMarker> {
    /// The empty path: no base, nothing pushed.
    fn default() -> (empty: Self)
        ensures
            empty@ == (PathParts { base: Seq::empty(), path: Seq::empty() }),
    {
        VirtualPath { base: Vec::new(), path: Vec::new(), _phantom: PhantomData }
    }
}

} // verus!
