//! The two states of a virtual path.

use vstd::prelude::*;

verus! {

/// Marks a virtual path that denotes a directory: components can still be
/// pushed onto it.
#[derive(Clone, Copy, Debug, PartialEq, Eq)]
pub struct DirMarker;

/// Marks a virtual path that denotes a file: its name can be changed, and
/// nothing can be pushed onto it any more.
#[derive(Clone, Copy, Debug, PartialEq, Eq)]
pub struct FileMarker;

} // verus!
