//! The library as seen through the names at its root.

use std::path::PathBuf;
use vpath::{AbsolutePath, Dirname, Filename, VirtualPath};

#[test]
fn lib_fail_to_create_dirname_with_empty_path() {
    let dir = Dirname::try_from("");
    assert!(dir.is_err());
}

#[test]
fn lib_fail_to_create_dirname_with_absolute_path() {
    let dir = Dirname::try_from("/test");
    assert!(dir.is_err());
}

#[test]
fn lib_fail_to_create_filename_with_absolute_path() {
    let file = Filename::try_from("/test");
    assert!(file.is_err());
}

#[test]
fn lib_fail_to_create_filename_with_empty_path() {
    let file = Filename::try_from("");
    assert!(file.is_err());
}

#[test]
fn lib_fail_to_create_filename_with_empty_path_from_pathbuf() {
    let file = Filename::try_from(PathBuf::from("").into_os_string().into_encoded_bytes());
    assert!(file.is_err());
}

#[test]
fn lib_fail_to_create_absolute_path_with_empty_path() {
    let abs = AbsolutePath::try_from("");
    assert!(abs.is_err());
}

#[test]
fn lib_fail_to_create_absolute_path_with_relative_path() {
    let abs = AbsolutePath::try_from("test");
    assert!(abs.is_err());
}

#[test]
fn lib_create_absolute_path_is_ok_when_using_path_containing_a_root() {
    let abs = AbsolutePath::try_from("/test");
    assert!(abs.is_ok());
}

#[test]
fn lib_pushes_file_with_parent_dir() {
    let path = VirtualPath::default();

    let file = Filename::try_from("parent/index.html").unwrap();

    let path = path.with_file(file);

    assert_eq!(
        PathBuf::from(String::from_utf8(path.to_path_buf()).unwrap()),
        PathBuf::from("parent/index.html")
    );
}

#[test]
fn lib_pushes_file() {
    let path = VirtualPath::default();

    let file = Filename::try_from("index.html").unwrap();

    let path = path.with_file(file);

    assert_eq!(
        PathBuf::from(String::from_utf8(path.to_path_buf()).unwrap()),
        PathBuf::from("index.html")
    );
}

#[test]
fn lib_pushes_dir() {
    let mut path = VirtualPath::default();

    let dir = Dirname::try_from("output").unwrap();
    path.push_dir(dir);

    assert_eq!(
        PathBuf::from(String::from_utf8(path.to_path_buf()).unwrap()),
        PathBuf::from("output")
    );
}

#[test]
fn lib_with_dir_api() {
    let path = VirtualPath::default()
        .with_dir_raw("output")
        .with_dir(Dirname::try_from("img").unwrap());

    assert_eq!(
        PathBuf::from(String::from_utf8(path.to_path_buf()).unwrap()),
        PathBuf::from("output/img")
    );
}

#[test]
fn lib_changes_base() {
    let mut path = VirtualPath::default();

    path.push_dir_raw("output");

    let path = path
        .with_file_raw("index.html")
        .with_base(&AbsolutePath::try_from("/home").unwrap());

    assert_eq!(
        PathBuf::from(String::from_utf8(path.to_path_buf()).unwrap()),
        PathBuf::from("/home/output/index.html")
    );
}

#[test]
fn lib_check_base_returns_false_when_no_base_has_been_set() {
    let mut path = VirtualPath::default();

    path.push_dir_raw("output");
    let path = path.with_file_raw("index.html");

    assert!(!path.has_base());
}

#[test]
fn lib_check_base_returns_true_when_base_has_been_set() {
    let mut path = VirtualPath::default();

    path.push_dir_raw("output");
    let path = path
        .with_file_raw("index.html")
        .with_base(&AbsolutePath::try_from("/home").unwrap());

    assert!(path.has_base());
}

#[test]
fn lib_returns_file_stem() {
    let path = VirtualPath::default().with_file_raw("index.html");

    assert_eq!(path.file_stem(), "index".as_bytes());
}

#[test]
fn lib_returns_file_extension() {
    let path = VirtualPath::default().with_file_raw("index.html");

    assert_eq!(path.extension(), Some("html".as_bytes()));
}

#[test]
fn lib_returns_none_when_no_file_extension_present() {
    let path = VirtualPath::default().with_file_raw("index");

    assert_eq!(path.extension(), None);
}

#[test]
fn lib_sets_extension() {
    let mut path = VirtualPath::default().with_file_raw("index.html");
    path.set_extension("pdf");

    assert_eq!(
        PathBuf::from(String::from_utf8(path.to_path_buf()).unwrap()),
        PathBuf::from("index.pdf")
    );
}

#[test]
fn lib_with_extension_api() {
    let path = VirtualPath::default()
        .with_file_raw("index.html")
        .with_extension("pdf");

    assert_eq!(
        PathBuf::from(String::from_utf8(path.to_path_buf()).unwrap()),
        PathBuf::from("index.pdf")
    );
}

#[test]
fn lib_sets_file_name() {
    let mut path = VirtualPath::default().with_file_raw("index.html");
    path.set_file_name("root.html");

    assert_eq!(
        PathBuf::from(String::from_utf8(path.to_path_buf()).unwrap()),
        PathBuf::from("root.html")
    );
}

#[test]
fn lib_strips_prefix() {
    let mut path = VirtualPath::default();
    path.push_dir_raw("a/b/c");
    let path = path.with_file_raw("test.html").strip_prefix("a").unwrap();

    assert_eq!(
        PathBuf::from(String::from_utf8(path.to_path_buf()).unwrap()),
        PathBuf::from("b/c/test.html")
    );
}
