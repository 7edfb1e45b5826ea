//! Construction of directory components.

use vpath::Dirname;

#[test]
fn dirname_fail_to_create_dirname_with_empty_path() {
    let dir = Dirname::try_from("");
    assert!(dir.is_err());
}

#[test]
fn dirname_fail_to_create_dirname_with_absolute_path() {
    let dir = Dirname::try_from("/test");
    assert!(dir.is_err());
}
