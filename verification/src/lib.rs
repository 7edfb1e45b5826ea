//! Virtual paths: a relative path built from validated components, anchored to
//! an absolute base that can be swapped without rebuilding the relative part.
//!
//! Path text is a sequence of bytes in which `/` is the only separator.
//! [`syntax`] says what each operation on such text gives, [`ops`] computes
//! it, and [`laws`] states what holds of virtual paths whatever they contain.
//! Every executable function is proved to return what its contract says.
//!
//! ```
//! use vpath::{AbsolutePath, Dirname, Filename, VirtualPath};
//!
//! // A new path denotes a directory. Directories are pushed onto it, checked
//! // or unchecked.
//! let mut path = VirtualPath::default();
//! path.push_dir(Dirname::try_from("data").unwrap());
//! path.push_dir_raw("posts");
//!
//! // Attaching a file turns it into a path that denotes a file.
//! let post = path.with_file(Filename::try_from("first.md").unwrap());
//! assert_eq!(post.to_path_buf(), b"data/posts/first.md");
//!
//! // The same relative path on two bases.
//! let source = AbsolutePath::try_from("/home/blog/source").unwrap();
//! let target = AbsolutePath::try_from("/home/blog/output").unwrap();
//! assert_eq!(post.with_base(&source).to_path_buf(), b"/home/blog/source/data/posts/first.md");
//!
//! // Only the relative path is renamed and stripped.
//! let page = post.with_base(&target).with_extension("html").strip_prefix("data").unwrap();
//! assert_eq!(page.to_path_buf(), b"/home/blog/output/posts/first.html");
//! ```

pub mod absolute;
pub mod dirname;
pub mod facts;
pub mod filename;
pub mod laws;
pub mod marker;
pub mod ops;
pub mod syntax;
pub mod text;
pub mod virtualpath;

pub use absolute::{AbsolutePath, AbsolutePathError};
pub use dirname::{Dirname, DirnameError};
pub use filename::{Filename, FilenameError};
pub use marker::{DirMarker, FileMarker};
pub use text::PathText;
pub use virtualpath::{PathParts, PrefixError, VirtualPath};
