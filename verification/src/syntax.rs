//! The syntax of path text.
//!
//! A path is a sequence of bytes. The byte `/` separates its segments, and a
//! path that starts with `/` has a root and is absolute. The components of a
//! path are its root, a leading `.`, and every segment that is neither empty
//! nor a single `.`; what a path means is decided by its components, so
//! `a//b/./` and `a/b` name the same place.
//!
//! This file says what each operation on path text gives. The functions that
//! compute it are in [`crate::ops`], the proofs about it in [`crate::facts`].

use vstd::prelude::*;

verus! {

/// The byte that separates the segments of a path.
pub const SEPARATOR: u8 = 0x2f;

/// The byte that introduces an extension, and of which `.` and `..` are made.
pub const DOT: u8 = 0x2e;

/// A path has a root when its text starts with a separator.
pub open spec fn has_root(p: Seq<u8>) -> bool {
    p.len() > 0 && p[0] == SEPARATOR
}

/// The text of `base` with `seg` adjoined.
///
/// A segment with a root replaces the base. Otherwise the segment is appended,
/// after a separator unless the base is empty or already ends with one.
pub open spec fn join(base: Seq<u8>, seg: Seq<u8>) -> Seq<u8> {
    if has_root(seg) {
        seg
    } else if base.len() == 0 || base.last() == SEPARATOR {
        base + seg
    } else {
        base.push(SEPARATOR) + seg
    }
}

/// The position of the first separator at or after `from`, or the length of
/// the text when there is none.
pub open spec fn segment_end(p: Seq<u8>, from: int) -> int
    decreases p.len() - from,
{
    if from >= p.len() {
        p.len() as int
    } else if p[from] == SEPARATOR {
        from
    } else {
        segment_end(p, from + 1)
    }
}

/// A segment that names the current directory: a single dot.
pub open spec fn is_cur_dir(seg: Seq<u8>) -> bool {
    seg.len() == 1 && seg[0] == DOT
}

/// A segment that names the parent directory: two dots.
pub open spec fn is_parent_dir(seg: Seq<u8>) -> bool {
    seg.len() == 2 && seg[0] == DOT && seg[1] == DOT
}

/// A path starts with a current-directory component when it is a single dot
/// or begins with a dot and a separator.
pub open spec fn starts_with_cur_dir(p: Seq<u8>) -> bool {
    p.len() > 0 && p[0] == DOT && (p.len() == 1 || p[1] == SEPARATOR)
}

/// The components found in the text from `from` on, where `from` is the start
/// of a segment. Empty segments and single dots are no components.
pub open spec fn body_spans(p: Seq<u8>, from: int) -> Seq<(int, int)>
    decreases p.len() - from,
{
    if from < 0 || from >= p.len() {
        Seq::empty()
    } else {
        let end = segment_end(p, from);
        proof {
            lemma_segment_end_bounds(p, from);
        }
        let rest = if end < p.len() {
            body_spans(p, end + 1)
        } else {
            Seq::empty()
        };
        if end == from || is_cur_dir(p.subrange(from, end)) {
            rest
        } else {
            seq![(from, end)] + rest
        }
    }
}

/// Where the components of a path lie in its text, in order.
///
/// A root is the component `/` at the start. A leading `.` is a component too.
/// After that every segment is a component, but for empty segments and single
/// dots, which are passed over.
pub open spec fn spans(p: Seq<u8>) -> Seq<(int, int)> {
    if has_root(p) || starts_with_cur_dir(p) {
        seq![(0int, 1int)] + body_spans(p, 1)
    } else {
        body_spans(p, 0)
    }
}

/// A segment runs up to the next separator and holds none.
pub proof fn lemma_segment_end_bounds(p: Seq<u8>, from: int)
    requires
        0 <= from <= p.len(),
    ensures
        from <= segment_end(p, from) <= p.len(),
        forall|k: int| from <= k < segment_end(p, from) ==> p[k] != SEPARATOR,
        segment_end(p, from) < p.len() ==> p[segment_end(p, from)] == SEPARATOR,
    decreases p.len() - from,
{
    if from < p.len() && p[from] != SEPARATOR {
        lemma_segment_end_bounds(p, from + 1);
    }
}

/// The text of the component at place `i`.
pub open spec fn component(p: Seq<u8>, i: int) -> Seq<u8> {
    p.subrange(spans(p)[i].0, spans(p)[i].1)
}

/// The texts of a path's components, in order.
pub open spec fn components(p: Seq<u8>) -> Seq<Seq<u8>> {
    Seq::new(spans(p).len(), |i: int| component(p, i))
}

/// A component that is the root: a single separator.
pub open spec fn is_root_dir(c: Seq<u8>) -> bool {
    c.len() == 1 && c[0] == SEPARATOR
}

/// A component that names a file or a directory: no root, no `.`, no `..`.
pub open spec fn is_normal(c: Seq<u8>) -> bool {
    !is_root_dir(c) && !is_cur_dir(c) && !is_parent_dir(c)
}

/// Where the final name of a path lies: its last component, if that
/// component names a file or a directory.
pub open spec fn file_name_span(p: Seq<u8>) -> Option<(int, int)> {
    let n = spans(p).len();
    if n > 0 && is_normal(component(p, n - 1)) {
        Some(spans(p)[n - 1])
    } else {
        None
    }
}

/// The final name of a path.
pub open spec fn file_name(p: Seq<u8>) -> Option<Seq<u8>> {
    match file_name_span(p) {
        Some(s) => Some(p.subrange(s.0, s.1)),
        None => None,
    }
}

/// The position of the last dot in a name, or -1 when it holds none.
pub open spec fn last_dot(name: Seq<u8>) -> int
    decreases name.len(),
{
    if name.len() == 0 {
        -1
    } else if name.last() == DOT {
        name.len() - 1
    } else {
        last_dot(name.drop_last())
    }
}

/// The length of a name's stem: what stands before the last dot. A name
/// without a dot, or whose only dot is its first byte, is all stem.
pub open spec fn stem_len(name: Seq<u8>) -> int {
    if last_dot(name) <= 0 {
        name.len() as int
    } else {
        last_dot(name)
    }
}

/// The stem of a path's final name.
pub open spec fn file_stem(p: Seq<u8>) -> Option<Seq<u8>> {
    match file_name(p) {
        Some(name) => Some(name.subrange(0, stem_len(name))),
        None => None,
    }
}

/// The extension of a path's final name: what follows its last dot, when
/// that dot is not the name's first byte.
pub open spec fn extension(p: Seq<u8>) -> Option<Seq<u8>> {
    match file_name(p) {
        Some(name) => if last_dot(name) > 0 {
            Some(name.subrange(last_dot(name) + 1, name.len() as int))
        } else {
            None
        },
        None => None,
    }
}

/// The path with the extension of its final name replaced by `ext`, or taken
/// away when `ext` is empty. A path without a final name stays as it is.
/// What followed the final name is dropped.
pub open spec fn with_extension(p: Seq<u8>, ext: Seq<u8>) -> Seq<u8> {
    match file_name_span(p) {
        None => p,
        Some(s) => {
            let kept = p.subrange(0, s.0 + stem_len(p.subrange(s.0, s.1)));
            if ext.len() == 0 {
                kept
            } else {
                kept.push(DOT) + ext
            }
        },
    }
}

/// The path without its last component. A path that is empty or ends in
/// its root has no parent.
pub open spec fn parent(p: Seq<u8>) -> Option<Seq<u8>> {
    let n = spans(p).len();
    if n == 0 || (n == 1 && has_root(p)) {
        None
    } else if n == 1 {
        Some(Seq::empty())
    } else {
        Some(p.subrange(0, spans(p)[n - 2].1))
    }
}

/// The path with its final name replaced by `name`. Where the path has no
/// final name, `name` is adjoined to it.
pub open spec fn with_file_name(p: Seq<u8>, name: Seq<u8>) -> Seq<u8> {
    match file_name_span(p) {
        Some(_) => join(parent(p).unwrap(), name),
        None => join(p, name),
    }
}

/// Whether the components of `prefix` are the first components of `p`.
pub open spec fn starts_with(p: Seq<u8>, prefix: Seq<u8>) -> bool {
    components(prefix).is_prefix_of(components(p))
}

/// What is left of `p` after the components of `prefix`: the text from the
/// first component left to the last. `None` when `p` does not start with
/// `prefix`.
pub open spec fn strip_prefix(p: Seq<u8>, prefix: Seq<u8>) -> Option<Seq<u8>> {
    let n = spans(p).len();
    let k = spans(prefix).len();
    if !starts_with(p, prefix) {
        None
    } else if k == n {
        Some(Seq::empty())
    } else {
        Some(p.subrange(spans(p)[k as int].0, spans(p)[n - 1].1))
    }
}

/// Whether two texts have the same components: whether they are the same
/// path.
pub open spec fn same_components(p: Seq<u8>, q: Seq<u8>) -> bool {
    components(p) == components(q)
}

/// The texts of the components that a segment brings to a path it is
/// adjoined to: its components, but for a leading single dot.
pub open spec fn inner_components(seg: Seq<u8>) -> Seq<Seq<u8>> {
    Seq::new(
        body_spans(seg, 0).len(),
        |i: int| seg.subrange(body_spans(seg, 0)[i].0, body_spans(seg, 0)[i].1),
    )
}

/// A segment without its leading and trailing separators and single dots:
/// the text from its first inner component to its last.
pub open spec fn trimmed(seg: Seq<u8>) -> Seq<u8> {
    let inner = body_spans(seg, 0);
    if inner.len() == 0 {
        Seq::empty()
    } else {
        seg.subrange(inner[0].0, inner.last().1)
    }
}

} // verus!
