//! What the library does on chosen values: the worked example, the edges, the
//! errors, and each general law on a case.

use std::path::PathBuf;
use vpath::{
    AbsolutePath, AbsolutePathError, DirMarker, Dirname, DirnameError, FileMarker, Filename,
    FilenameError, PathText, PrefixError, VirtualPath,
};

fn blog_post() -> VirtualPath<FileMarker> {
    let mut path = VirtualPath::default();
    path.push_dir(Dirname::try_from("data").unwrap());
    path.push_dir_raw("posts");
    path.with_file(Filename::try_from("first.md").unwrap())
}

#[test]
fn builds_a_relative_path_from_components() {
    assert_eq!(blog_post().to_path_buf(), b"data/posts/first.md".to_vec());
    assert_eq!(
        PathBuf::from(String::from_utf8(blog_post().to_path_buf()).unwrap()),
        PathBuf::from("data/posts/first.md")
    );
}

#[test]
fn anchors_the_path_to_a_base() {
    let source = AbsolutePath::try_from("/home/blog/source").unwrap();
    let post = blog_post().with_base(&source);
    assert_eq!(post.to_path_buf(), b"/home/blog/source/data/posts/first.md".to_vec());
}

#[test]
fn changes_the_extension_under_a_base() {
    let source = AbsolutePath::try_from("/home/blog/source").unwrap();
    let post = blog_post().with_base(&source).with_extension("html");
    assert_eq!(post.to_path_buf(), b"/home/blog/source/data/posts/first.html".to_vec());
}

#[test]
fn strips_a_prefix_under_a_base() {
    let source = AbsolutePath::try_from("/home/blog/source").unwrap();
    let post = blog_post().with_base(&source).with_extension("html").strip_prefix("data").unwrap();
    assert_eq!(post.to_path_buf(), b"/home/blog/source/posts/first.html".to_vec());
    assert!(post.has_base());
}

#[test]
fn absolute_paths_need_a_root() {
    assert!(AbsolutePath::try_from("").is_err());
    assert!(AbsolutePath::try_from("relative/path").is_err());
    assert!(AbsolutePath::try_from("/x").is_ok());
}

#[test]
fn markers_follow_the_state() {
    let path: VirtualPath<DirMarker> = VirtualPath::default();
    let path: VirtualPath<DirMarker> = path.with_dir_raw("data");
    let mut path: VirtualPath<FileMarker> = path.with_file_raw("index.md");
    path.set_extension("html");
    assert_eq!(path.to_path_buf(), b"data/index.html".to_vec());
}

#[test]
fn the_default_path_is_empty_and_has_no_base() {
    let path = VirtualPath::default();
    assert_eq!(path.to_path_buf(), Vec::<u8>::new());
    assert!(!path.has_base());
    assert_eq!(path.parent(), None);
}

#[test]
fn dirname_errors_tell_empty_from_absolute() {
    assert!(matches!(Dirname::try_from(""), Err(DirnameError::Empty)));
    assert!(matches!(Dirname::try_from("/test"), Err(DirnameError::Absolute)));
    assert!(matches!(Dirname::try_from("/"), Err(DirnameError::Absolute)));
    assert_eq!(Dirname::try_from("a/b/c").unwrap().as_bytes(), b"a/b/c");
    assert_eq!(Dirname::try_from(".").unwrap().as_bytes(), b".");
}

#[test]
fn filename_errors_tell_empty_from_rooted() {
    assert!(matches!(Filename::try_from(""), Err(FilenameError::Empty)));
    assert!(matches!(Filename::try_from("/test"), Err(FilenameError::HasRoot)));
    assert_eq!(Filename::try_from("parent/index.html").unwrap().as_bytes(), b"parent/index.html");
}

#[test]
fn components_are_made_from_bytes_as_from_strings() {
    let text: Vec<u8> = b"dir".to_vec();
    assert_eq!(Dirname::try_from(&text[..]).unwrap().as_bytes(), b"dir");
    assert_eq!(Dirname::try_from(&text).unwrap().as_bytes(), b"dir");
    assert_eq!(Dirname::try_from(text.clone()).unwrap().as_bytes(), b"dir");
    assert_eq!(Filename::try_from(&text[..]).unwrap().as_bytes(), b"dir");
    assert_eq!(Filename::try_from(&text).unwrap().as_bytes(), b"dir");
    assert_eq!(Filename::try_from(text).unwrap().as_bytes(), b"dir");
    let root: Vec<u8> = b"/srv".to_vec();
    assert_eq!(AbsolutePath::try_from(&root[..]).unwrap().as_bytes(), b"/srv");
    assert_eq!(AbsolutePath::try_from(&root).unwrap().as_bytes(), b"/srv");
    assert_eq!(AbsolutePath::try_from(root).unwrap().as_bytes(), b"/srv");
    assert!(Filename::try_from(Vec::<u8>::new()).is_err());
    assert!(Dirname::try_from(&b"/x"[..]).is_err());
    assert!(AbsolutePath::try_from(&b"x"[..]).is_err());
}

#[test]
fn text_that_is_no_utf8_is_kept_as_it_is() {
    let odd: [u8; 3] = [0xff, 0x61, 0xfe];
    let dir = Dirname::try_from(&odd[..]).unwrap();
    let path = VirtualPath::default().with_dir(dir).with_file_raw("f");
    assert_eq!(path.to_path_buf(), vec![0xff, 0x61, 0xfe, b'/', b'f']);
}

#[test]
fn error_messages_are_fixed() {
    assert_eq!(AbsolutePathError.message(), "path must be absolute");
    assert_eq!(DirnameError::Empty.message(), "dirname cannot be empty");
    assert_eq!(DirnameError::Absolute.message(), "dirname cannot be absolute");
    assert_eq!(FilenameError::Empty.message(), "filename cannot be empty");
    assert_eq!(FilenameError::HasRoot.message(), "filename cannot be absolute");
    assert_eq!(PrefixError.message(), "prefix not found");
}

#[test]
fn absolute_path_hands_out_its_text() {
    let abs = AbsolutePath::try_from("/home/blog").unwrap();
    assert_eq!(abs.as_bytes(), b"/home/blog");
    let copied: Vec<u8> = Vec::from(&abs);
    assert_eq!(copied, b"/home/blog".to_vec());
    let twin = abs.clone();
    let moved: Vec<u8> = abs.into();
    assert_eq!(moved, b"/home/blog".to_vec());
    assert_eq!(twin.as_bytes(), b"/home/blog");
}

#[test]
fn a_raw_absolute_segment_replaces_what_was_pushed() {
    let mut path = VirtualPath::default();
    path.push_dir_raw("a");
    path.push_dir_raw("/abs");
    assert_eq!(path.to_path_buf(), b"/abs".to_vec());
    let based = path.with_base(&AbsolutePath::try_from("/home").unwrap());
    assert_eq!(based.to_path_buf(), b"/abs".to_vec());
}

#[test]
fn a_base_that_ends_in_a_separator_gets_no_second_one() {
    let path = VirtualPath::default()
        .with_file_raw("f")
        .with_base(&AbsolutePath::try_from("/").unwrap());
    assert_eq!(path.to_path_buf(), b"/f".to_vec());
    let path = VirtualPath::default().with_dir_raw("a/").with_file_raw("f");
    assert_eq!(path.to_path_buf(), b"a/f".to_vec());
}

#[test]
fn raw_segments_come_as_strings_or_bytes() {
    let owned = String::from("b");
    let bytes: Vec<u8> = b"c".to_vec();
    let path = VirtualPath::default()
        .with_dir_raw("a")
        .with_dir_raw(&owned)
        .with_dir_raw(&bytes)
        .with_file_raw(&b"d.txt"[..]);
    assert_eq!(path.to_path_buf(), b"a/b/c/d.txt".to_vec());
    assert_eq!("é".as_text(), &[0xc3, 0xa9]);
}

#[test]
fn an_absolute_path_can_stand_where_text_is_taken() {
    let abs = AbsolutePath::try_from("/srv/www").unwrap();
    let path = VirtualPath::default().with_dir_raw("a").with_dir_raw(&abs);
    assert_eq!(path.to_path_buf(), b"/srv/www".to_vec());
    assert_eq!(path.strip_prefix(&abs).unwrap().to_path_buf(), Vec::<u8>::new());
}

#[test]
fn file_stem_of_a_path_without_a_name_is_empty() {
    let path = VirtualPath::default().with_file_raw("");
    assert_eq!(path.file_stem(), b"");
    assert_eq!(path.extension(), None);
    let path = VirtualPath::default().with_file_raw("..");
    assert_eq!(path.file_stem(), b"");
}

#[test]
fn stems_and_extensions_split_at_the_last_dot() {
    let path = VirtualPath::default().with_file_raw("dir/archive.tar.gz");
    assert_eq!(path.file_stem(), b"archive.tar");
    assert_eq!(path.extension(), Some(&b"gz"[..]));
    let path = VirtualPath::default().with_file_raw(".profile");
    assert_eq!(path.file_stem(), b".profile");
    assert_eq!(path.extension(), None);
    let path = VirtualPath::default().with_file_raw("name.");
    assert_eq!(path.file_stem(), b"name");
    assert_eq!(path.extension(), Some(&b""[..]));
}

#[test]
fn set_extension_adds_replaces_and_removes() {
    let mut path = VirtualPath::default().with_file_raw("dir/index");
    path.set_extension("html");
    assert_eq!(path.to_path_buf(), b"dir/index.html".to_vec());
    path.set_extension("pdf");
    assert_eq!(path.to_path_buf(), b"dir/index.pdf".to_vec());
    path.set_extension("");
    assert_eq!(path.to_path_buf(), b"dir/index".to_vec());
    let mut nameless = VirtualPath::default().with_file_raw("..");
    nameless.set_extension("x");
    assert_eq!(nameless.to_path_buf(), b"..".to_vec());
}

#[test]
fn set_file_name_keeps_the_directories() {
    let mut path = VirtualPath::default().with_dir_raw("a/b").with_file_raw("index.html");
    path.set_file_name("root.html");
    assert_eq!(path.to_path_buf(), b"a/b/root.html".to_vec());
    let mut nameless = VirtualPath::default().with_file_raw("a/..");
    nameless.set_file_name("x");
    assert_eq!(nameless.to_path_buf(), b"a/../x".to_vec());
}

#[test]
fn parent_is_taken_of_the_whole_path() {
    let path = VirtualPath::default().with_file_raw("index.html");
    assert_eq!(path.parent(), Some(Vec::new()));
    let based = path.with_base(&AbsolutePath::try_from("/home").unwrap());
    assert_eq!(based.parent(), Some(b"/home".to_vec()));
    let root_only = VirtualPath::default().with_base(&AbsolutePath::try_from("/").unwrap());
    assert_eq!(root_only.parent(), None);
    let deep = VirtualPath::default().with_dir_raw("a/b//").with_file_raw("c");
    assert_eq!(deep.parent(), Some(b"a/b".to_vec()));
}

#[test]
fn strip_prefix_fails_on_a_prefix_that_is_not_there() {
    let path = VirtualPath::default().with_dir_raw("a/b").with_file_raw("c");
    assert!(matches!(path.clone().strip_prefix("b"), Err(PrefixError)));
    assert!(matches!(path.clone().strip_prefix("a/b/c/d"), Err(PrefixError)));
    assert!(matches!(path.clone().strip_prefix("a/bb"), Err(PrefixError)));
    assert_eq!(path.clone().strip_prefix("a/b/c").unwrap().to_path_buf(), Vec::<u8>::new());
    assert_eq!(path.clone().strip_prefix("a//b/").unwrap().to_path_buf(), b"c".to_vec());
    assert_eq!(path.strip_prefix("").unwrap().to_path_buf(), b"a/b/c".to_vec());
}

#[test]
fn reading_twice_gives_the_same_path() {
    let path = blog_post().with_base(&AbsolutePath::try_from("/srv").unwrap());
    let first = path.to_path_buf();
    let second = path.to_path_buf();
    assert_eq!(first, second);
    assert_eq!(first, b"/srv/data/posts/first.md".to_vec());
}

#[test]
fn pushes_and_a_file_round_trip() {
    let dirs = ["a", "b/c", "d"];
    let mut path = VirtualPath::default();
    let mut expected = PathBuf::new();
    for dir in dirs {
        path.push_dir(Dirname::try_from(dir).unwrap());
        expected.push(dir);
    }
    let path = path.with_file(Filename::try_from("e/f.txt").unwrap());
    expected.push("e/f.txt");
    assert_eq!(PathBuf::from(String::from_utf8(path.to_path_buf()).unwrap()), expected);
    assert_eq!(path.to_path_buf(), b"a/b/c/d/e/f.txt".to_vec());
}

#[test]
fn rebasing_leaves_the_path_and_the_other_base_alone() {
    let path = blog_post();
    let a = AbsolutePath::try_from("/home/blog/source").unwrap();
    let b = AbsolutePath::try_from("/home/blog/output").unwrap();
    let on_a = path.with_base(&a);
    let on_b = path.with_base(&b);
    assert_eq!(on_a.to_path_buf(), b"/home/blog/source/data/posts/first.md".to_vec());
    assert_eq!(on_b.to_path_buf(), b"/home/blog/output/data/posts/first.md".to_vec());
    assert_eq!(path.to_path_buf(), b"data/posts/first.md".to_vec());
    assert!(!path.has_base());
    assert_eq!(on_a.with_base(&b), on_b);
}

#[test]
fn strip_prefix_leaves_the_base() {
    let a = AbsolutePath::try_from("/home/blog/output").unwrap();
    let stripped = blog_post().with_base(&a).strip_prefix("data/posts").unwrap();
    let whole = stripped.to_path_buf();
    assert!(whole.starts_with(a.as_bytes()));
    assert_eq!(whole, b"/home/blog/output/first.md".to_vec());
}

#[test]
fn strip_prefix_undoes_a_push() {
    let path = VirtualPath::default().with_dir_raw("a/b").with_file_raw("./c/d.txt/");
    assert_eq!(path.to_path_buf(), b"a/b/./c/d.txt/".to_vec());
    assert_eq!(path.strip_prefix("a/b").unwrap().to_path_buf(), b"c/d.txt".to_vec());
}

#[test]
fn an_extension_that_was_set_is_read_back() {
    for ext in ["html", "x", "tar"] {
        let path = blog_post().with_extension(ext);
        assert_eq!(path.extension(), Some(ext.as_bytes()));
        assert_eq!(path.file_stem(), b"first");
    }
    let dotted = blog_post().with_extension("tar.gz");
    assert_eq!(dotted.extension(), Some(&b"gz"[..]));
    assert_eq!(dotted.to_path_buf(), b"data/posts/first.tar.gz".to_vec());
}

#[test]
fn paths_are_equal_when_their_components_are() {
    let plain = VirtualPath::default().with_dir_raw("a/b");
    let noisy = VirtualPath::default().with_dir_raw("a//b/./");
    let other = VirtualPath::default().with_dir_raw("a/c");
    assert_eq!(plain, noisy);
    assert_ne!(plain, other);
    let base = AbsolutePath::try_from("/srv").unwrap();
    assert_ne!(plain.with_base(&base), plain);
    assert_eq!(plain.with_base(&base), noisy.with_base(&AbsolutePath::try_from("/srv/").unwrap()));
    assert_eq!(plain.clone(), plain);
}

#[test]
fn components_can_be_cloned() {
    let dir = Dirname::try_from("a").unwrap();
    let file = Filename::try_from("f").unwrap();
    let path = VirtualPath::default().with_dir(dir.clone()).with_dir(dir).with_file(file.clone());
    assert_eq!(path.to_path_buf(), b"a/a/f".to_vec());
    assert_eq!(file.as_bytes(), b"f");
}
