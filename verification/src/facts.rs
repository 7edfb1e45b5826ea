//! Proofs about the syntax of path text.

use crate::syntax::{
    body_spans, component, components, extension, file_name, file_stem, has_root,
    inner_components, is_cur_dir, is_root_dir, join, last_dot, lemma_segment_end_bounds,
    segment_end, spans, starts_with, starts_with_cur_dir, stem_len, strip_prefix, trimmed,
    with_extension, DOT, SEPARATOR,
};
use vstd::prelude::*;

verus! {

/// Spans moved to the right by `by` places.
pub open spec fn shifted(s: Seq<(int, int)>, by: int) -> Seq<(int, int)> {
    Seq::new(s.len(), |i: int| (s[i].0 + by, s[i].1 + by))
}

/// What holds of the components found from `from` on: each lies within the
/// text, starts a segment and runs to its end, holds no separator and is no
/// single dot, and they come in order, apart from each other.
pub proof fn lemma_body_spans(p: Seq<u8>, from: int)
    requires
        0 <= from <= p.len(),
    ensures
        forall|i: int|
            0 <= i < body_spans(p, from).len() ==> {
                let s = #[trigger] body_spans(p, from)[i];
                &&& from <= s.0 < s.1 <= p.len()
                &&& s.1 == segment_end(p, s.0)
                &&& (s.0 == from || p[s.0 - 1] == SEPARATOR)
                &&& !is_cur_dir(p.subrange(s.0, s.1))
            },
        forall|i: int, j: int|
            0 <= i < j < body_spans(p, from).len() ==> (#[trigger] body_spans(p, from)[i]).1 < (
            #[trigger] body_spans(p, from)[j]).0,
    decreases p.len() - from,
{
    if from < p.len() {
        let end = segment_end(p, from);
        lemma_segment_end_bounds(p, from);
        if end < p.len() {
            lemma_body_spans(p, end + 1);
            let rest = body_spans(p, end + 1);
            let all = body_spans(p, from);
            if end == from || is_cur_dir(p.subrange(from, end)) {
                assert(all == rest);
            } else {
                assert(all == seq![(from, end)] + rest);
                assert forall|i: int| 0 < i < all.len() implies all[i] == rest[i - 1] by {}
            }
        }
    }
}

/// What holds of a path's components: each lies within the text, they come in
/// order, and none but a root holds a separator.
pub proof fn lemma_spans(p: Seq<u8>)
    ensures
        forall|i: int|
            0 <= i < spans(p).len() ==> {
                let s = #[trigger] spans(p)[i];
                &&& 0 <= s.0 < s.1 <= p.len()
                &&& (i == 0 ==> s.0 == 0)
                &&& (i == 0 && has_root(p) ==> s.1 == 1)
                &&& (i > 0 || !has_root(p) ==> s.1 == segment_end(p, s.0))
                &&& (i > 0 ==> p[s.0 - 1] == SEPARATOR)
            },
        forall|i: int, j: int|
            0 <= i < j < spans(p).len() ==> (#[trigger] spans(p)[i]).1 <= (#[trigger] spans(
                p,
            )[j]).0,
        spans(p).len() == 0 <==> p.len() == 0,
{
    let all = spans(p);
    if has_root(p) || starts_with_cur_dir(p) {
        lemma_body_spans(p, 1);
        let rest = body_spans(p, 1);
        assert(all == seq![(0int, 1int)] + rest);
        assert forall|i: int| 0 < i < all.len() implies all[i] == rest[i - 1] by {}
        lemma_segment_end_bounds(p, 0);
        if starts_with_cur_dir(p) {
            if p.len() > 1 {
                lemma_segment_end_bounds(p, 1);
            }
            assert(segment_end(p, 0) == 1);
        }
        assert forall|i: int| 0 < i < all.len() implies p[(#[trigger] all[i]).0 - 1]
            == SEPARATOR by {
            let s = rest[i - 1];
            if s.0 == 1 && !has_root(p) {
                assert(p[1] == SEPARATOR);
                assert(segment_end(p, 1) == 1);
            }
        }
    } else {
        lemma_body_spans(p, 0);
        if p.len() > 0 {
            lemma_segment_end_bounds(p, 0);
            let end = segment_end(p, 0);
            assert(end > 0);
            assert(!is_cur_dir(p.subrange(0, end)));
        }
        assert forall|i: int| 0 < i < all.len() implies p[(#[trigger] all[i]).0 - 1]
            == SEPARATOR by {
            assert(all[0].1 < all[i].0);
        }
    }
}

/// What is left after a prefix was stripped has no root, unless the prefix
/// holds no component and the path itself has a root.
pub proof fn lemma_stripped_has_no_root(p: Seq<u8>, prefix: Seq<u8>)
    requires
        !has_root(p) || spans(prefix).len() > 0,
        strip_prefix(p, prefix) is Some,
    ensures
        !has_root(strip_prefix(p, prefix).unwrap()),
{
    lemma_spans(p);
    let n = spans(p).len();
    let k = spans(prefix).len() as int;
    if k < n {
        let first = spans(p)[k];
        let rest = strip_prefix(p, prefix).unwrap();
        assert(first.1 <= spans(p)[n - 1].1);
        assert(rest[0] == p[first.0]);
        if k > 0 {
            lemma_segment_end_bounds(p, first.0);
        }
    }
}

/// A segment that starts at `s`, runs to the end of the text and is no
/// single dot is the last component found from `from` on, when `from` is the
/// start of that segment or of one before it.
pub proof fn lemma_body_spans_end(t: Seq<u8>, from: int, s: int)
    requires
        0 <= from <= s < t.len(),
        s == from || t[s - 1] == SEPARATOR,
        forall|k: int| s <= k < t.len() ==> t[k] != SEPARATOR,
        !is_cur_dir(t.subrange(s, t.len() as int)),
    ensures
        body_spans(t, from).len() > 0,
        body_spans(t, from).last() == (s, t.len() as int),
    decreases t.len() - from,
{
    lemma_segment_end_bounds(t, from);
    let end = segment_end(t, from);
    if from == s {
        assert(end == t.len());
        assert(body_spans(t, from) == seq![(from, end)]);
    } else {
        assert(end < s);
        lemma_body_spans_end(t, end + 1, s);
    }
}

/// A segment that starts at `s`, runs to the end of the text and is no
/// single dot is the last component of the text.
pub proof fn lemma_spans_end(t: Seq<u8>, s: int)
    requires
        0 <= s < t.len(),
        s == 0 || t[s - 1] == SEPARATOR,
        forall|k: int| s <= k < t.len() ==> t[k] != SEPARATOR,
        !is_cur_dir(t.subrange(s, t.len() as int)),
    ensures
        spans(t).len() > 0,
        spans(t).last() == (s, t.len() as int),
{
    if s == 0 {
        assert(t.subrange(0, t.len() as int) == t);
        lemma_body_spans_end(t, 0, 0);
    } else if has_root(t) || starts_with_cur_dir(t) {
        lemma_body_spans_end(t, 1, s);
    } else {
        lemma_body_spans_end(t, 0, s);
    }
}

/// The extension that was set is the extension that is read back, for a
/// path that has a final name and an extension that is not empty and holds
/// neither a separator nor a dot.
pub proof fn lemma_extension_round_trip(p: Seq<u8>, ext: Seq<u8>)
    requires
        file_name(p) is Some,
        ext.len() > 0,
        forall|k: int| 0 <= k < ext.len() ==> ext[k] != SEPARATOR && ext[k] != DOT,
    ensures
        extension(with_extension(p, ext)) == Some(ext),
        file_stem(with_extension(p, ext)) == file_stem(p),
{
    lemma_spans(p);
    let n = spans(p).len();
    let (s, e) = spans(p)[n - 1];
    let name = p.subrange(s, e);
    lemma_last_dot(name);
    let len = stem_len(name);
    let t = with_extension(p, ext);
    assert(t == p.subrange(0, s + len).push(DOT) + ext);
    if n == 1 && has_root(p) {
        assert(is_root_dir(name));
    }
    lemma_segment_end_bounds(p, s);
    assert forall|k: int| s <= k < t.len() implies t[k] != SEPARATOR by {
        if k < s + len {
            assert(t[k] == p[k]);
        } else if k > s + len {
            assert(t[k] == ext[k - s - len - 1]);
        }
    }
    if s > 0 {
        assert(t[s - 1] == p[s - 1]);
    }
    let renamed = t.subrange(s, t.len() as int);
    assert(renamed.len() == len + 1 + ext.len());
    lemma_spans_end(t, s);
    assert(component(t, spans(t).len() - 1) == renamed);
    assert(file_name(t) == Some(renamed));
    lemma_last_dot(renamed);
    assert(renamed[len] == DOT);
    assert forall|k: int| len < k < renamed.len() implies renamed[k] != DOT by {
        assert(renamed[k] == ext[k - len - 1]);
    }
    assert(last_dot(renamed) == len);
    assert(renamed.subrange(len + 1, renamed.len() as int) == ext);
    assert(renamed.subrange(0, len) == name.subrange(0, len));
}

/// A segment that starts before a separator ends where it ends in the text
/// cut after that separator.
proof fn lemma_segment_end_cut(t: Seq<u8>, m: int, from: int)
    requires
        0 < m <= t.len(),
        t[m - 1] == SEPARATOR,
        0 <= from < m,
    ensures
        segment_end(t.subrange(0, m), from) == segment_end(t, from),
        segment_end(t, from) < m,
        t.subrange(0, m).subrange(from, segment_end(t, from)) == t.subrange(
            from,
            segment_end(t, from),
        ),
    decreases m - from,
{
    let cut = t.subrange(0, m);
    assert(cut[from] == t[from]);
    if t[from] != SEPARATOR {
        lemma_segment_end_cut(t, m, from + 1);
    }
    lemma_segment_end_bounds(t, from);
}

/// The components found from `from` on are those found up to a separator,
/// followed by those found after it.
proof fn lemma_body_spans_cut(t: Seq<u8>, m: int, from: int)
    requires
        0 < m <= t.len(),
        t[m - 1] == SEPARATOR,
        0 <= from <= m,
    ensures
        body_spans(t, from) == body_spans(t.subrange(0, m), from) + body_spans(t, m),
    decreases m - from,
{
    let cut = t.subrange(0, m);
    if from == m {
        assert(body_spans(cut, from) == Seq::<(int, int)>::empty());
        assert(Seq::<(int, int)>::empty() + body_spans(t, m) == body_spans(t, m));
    } else {
        lemma_segment_end_cut(t, m, from);
        lemma_segment_end_bounds(t, from);
        let end = segment_end(t, from);
        lemma_body_spans_cut(t, m, end + 1);
        let rest = body_spans(t, end + 1);
        let cut_rest = body_spans(cut, end + 1);
        assert(rest == cut_rest + body_spans(t, m));
        if end == from || is_cur_dir(t.subrange(from, end)) {
        } else {
            assert(seq![(from, end)] + (cut_rest + body_spans(t, m)) == (seq![(from, end)]
                + cut_rest) + body_spans(t, m));
        }
    }
}

/// The components of a text are those of its start up to a separator,
/// followed by those found after that separator.
pub proof fn lemma_spans_cut(t: Seq<u8>, m: int)
    requires
        0 < m <= t.len(),
        t[m - 1] == SEPARATOR,
    ensures
        spans(t) == spans(t.subrange(0, m)) + body_spans(t, m),
{
    let cut = t.subrange(0, m);
    assert(cut[0] == t[0]);
    if t[0] == DOT {
        assert(m >= 2);
        assert(cut[1] == t[1]);
    }
    assert(has_root(t) == has_root(cut));
    assert(starts_with_cur_dir(t) == starts_with_cur_dir(cut));
    if has_root(t) || starts_with_cur_dir(t) {
        lemma_body_spans_cut(t, m, 1);
        assert(seq![(0int, 1int)] + (body_spans(cut, 1) + body_spans(t, m)) == (seq![(0int, 1int)]
            + body_spans(cut, 1)) + body_spans(t, m));
    } else {
        lemma_body_spans_cut(t, m, 0);
    }
}

/// A segment of `b` ends in `x + b` where it ends in `b`, moved by the
/// length of `x`.
proof fn lemma_segment_end_shift(x: Seq<u8>, b: Seq<u8>, from: int)
    requires
        0 <= from <= b.len(),
    ensures
        segment_end(x + b, x.len() + from) == x.len() + segment_end(b, from),
    decreases b.len() - from,
{
    if from < b.len() {
        assert((x + b)[x.len() + from] == b[from]);
        if b[from] != SEPARATOR {
            lemma_segment_end_shift(x, b, from + 1);
        }
    }
}

/// The components found in `x + b` from the start of `b` on are those found
/// in `b`, moved by the length of `x`.
proof fn lemma_body_spans_shift(x: Seq<u8>, b: Seq<u8>, from: int)
    requires
        0 <= from <= b.len(),
    ensures
        body_spans(x + b, x.len() + from) == shifted(body_spans(b, from), x.len() as int),
    decreases b.len() - from,
{
    let t = x + b;
    let off = x.len() as int;
    if from < b.len() {
        lemma_segment_end_shift(x, b, from);
        lemma_segment_end_bounds(b, from);
        let end = segment_end(b, from);
        assert(t.subrange(off + from, off + end) == b.subrange(from, end));
        if end < b.len() {
            lemma_body_spans_shift(x, b, end + 1);
        }
        let rest = if end < b.len() {
            body_spans(b, end + 1)
        } else {
            Seq::empty()
        };
        if end == from || is_cur_dir(b.subrange(from, end)) {
            assert(body_spans(t, off + from) == shifted(rest, off));
        } else {
            assert(seq![(off + from, off + end)] + shifted(rest, off) == shifted(
                seq![(from, end)] + rest,
                off,
            ));
        }
    } else {
        assert(body_spans(t, off + from) == shifted(body_spans(b, from), off));
    }
}

/// A separator at the end of a text adds no component.
proof fn lemma_body_spans_trailing_separator(a: Seq<u8>, from: int)
    requires
        0 <= from <= a.len(),
        a.len() > 0,
        a.last() != SEPARATOR,
    ensures
        body_spans(a.push(SEPARATOR), from) == body_spans(a, from),
    decreases a.len() - from,
{
    let t = a.push(SEPARATOR);
    if from < a.len() {
        lemma_segment_end_cut(t, t.len() as int, from);
        lemma_segment_end_bounds(a, from);
        lemma_segment_end_bounds(t, from);
        let end = segment_end(a, from);
        let t_end = segment_end(t, from);
        assert(forall|k: int| from <= k < a.len() ==> t[k] == a[k]);
        assert(t_end == end) by {
            if t_end < end {
                assert(a[t_end] == SEPARATOR);
            } else if end < t_end {
                assert(t[end] == SEPARATOR);
            }
        }
        assert(t.subrange(from, end) == a.subrange(from, end));
        if end < a.len() {
            lemma_body_spans_trailing_separator(a, end + 1);
        } else {
            assert(body_spans(t, end + 1) == Seq::<(int, int)>::empty());
        }
    } else {
        assert(t[from] == SEPARATOR);
        assert(segment_end(t, from) == from);
        assert(body_spans(t, from + 1) == Seq::<(int, int)>::empty());
    }
}

/// A separator at the end of a text adds no component.
pub proof fn lemma_spans_trailing_separator(a: Seq<u8>)
    requires
        a.len() > 0,
        a.last() != SEPARATOR,
    ensures
        spans(a.push(SEPARATOR)) == spans(a),
{
    let t = a.push(SEPARATOR);
    assert(t[0] == a[0]);
    if a.len() > 1 {
        assert(t[1] == a[1]);
    }
    assert(has_root(t) == has_root(a));
    assert(starts_with_cur_dir(t) == starts_with_cur_dir(a));
    if has_root(a) || starts_with_cur_dir(a) {
        lemma_body_spans_trailing_separator(a, 1);
    } else {
        lemma_body_spans_trailing_separator(a, 0);
    }
}

/// The components of a path with a segment adjoined: those of the path,
/// followed by those of the segment, but for a leading single dot of the
/// segment, which is no component of the whole.
pub proof fn lemma_spans_join(a: Seq<u8>, b: Seq<u8>)
    requires
        a.len() > 0,
        !has_root(b),
    ensures
        spans(join(a, b)) == spans(a) + shifted(body_spans(b, 0), join(a, b).len() - b.len()),
        a.is_prefix_of(join(a, b)),
        join(a, b).subrange(join(a, b).len() - b.len(), join(a, b).len() as int) == b,
{
    let t = join(a, b);
    if a.last() == SEPARATOR {
        let m = a.len() as int;
        assert(t.subrange(0, m) == a);
        lemma_spans_cut(t, m);
        lemma_body_spans_shift(a, b, 0);
    } else {
        let x = a.push(SEPARATOR);
        let m = x.len() as int;
        assert(t == x + b);
        assert(t.subrange(0, m) == x);
        lemma_spans_cut(t, m);
        lemma_body_spans_shift(x, b, 0);
        lemma_spans_trailing_separator(a);
    }
}

/// The components of a path with a segment adjoined are the components of
/// the path followed by the inner components of the segment.
pub proof fn lemma_components_join(a: Seq<u8>, b: Seq<u8>)
    requires
        a.len() > 0,
        !has_root(b),
    ensures
        components(join(a, b)) == components(a) + inner_components(b),
{
    lemma_spans_join(a, b);
    lemma_spans(a);
    lemma_body_spans(b, 0);
    let t = join(a, b);
    let off = t.len() - b.len();
    let n = spans(a).len() as int;
    let left = components(t);
    let right = components(a) + inner_components(b);
    assert(left.len() == right.len());
    assert forall|i: int| 0 <= i < left.len() implies left[i] == right[i] by {
        if i < n {
            assert(spans(t)[i] == spans(a)[i]);
            assert(t.subrange(spans(a)[i].0, spans(a)[i].1) == a.subrange(
                spans(a)[i].0,
                spans(a)[i].1,
            ));
        } else {
            let s = body_spans(b, 0)[i - n];
            assert(spans(t)[i] == (s.0 + off, s.1 + off));
            assert(t.subrange(s.0 + off, s.1 + off) == b.subrange(s.0, s.1));
        }
    }
    assert(left =~= right);
}

/// A path with a segment adjoined starts with the path, component by
/// component, when the segment has no root.
pub proof fn lemma_join_starts_with(a: Seq<u8>, b: Seq<u8>)
    requires
        !has_root(b),
    ensures
        starts_with(join(a, b), a),
{
    if a.len() > 0 {
        lemma_components_join(a, b);
    } else {
        lemma_spans(a);
    }
}

/// Stripping from a path with a segment adjoined what was there before
/// gives back the segment, trimmed.
pub proof fn lemma_strip_after_join(a: Seq<u8>, b: Seq<u8>)
    requires
        a.len() > 0,
        !has_root(b),
    ensures
        strip_prefix(join(a, b), a) == Some(trimmed(b)),
{
    let t = join(a, b);
    let off = t.len() - b.len();
    let inner = body_spans(b, 0);
    let k = spans(a).len() as int;
    lemma_join_starts_with(a, b);
    assert(starts_with(t, a));
    assert(spans(t) == spans(a) + shifted(inner, off) && t.subrange(off, t.len() as int) == b)
        by {
        lemma_spans_join(a, b);
    }
    let n = spans(t).len() as int;
    assert(n == k + inner.len());
    if inner.len() > 0 {
        let first = inner[0];
        let last = inner.last();
        assert(0 <= first.0 <= last.1 <= b.len()) by {
            lemma_body_spans(b, 0);
            if inner.len() > 1 {
                assert(inner[0].1 < inner[inner.len() - 1].0);
            }
        }
        assert(spans(t)[k] == (first.0 + off, first.1 + off));
        assert(spans(t)[n - 1] == (last.0 + off, last.1 + off));
        let left = t.subrange(first.0 + off, last.1 + off);
        let right = b.subrange(first.0, last.1);
        assert(left =~= right) by {
            assert forall|i: int| 0 <= i < right.len() implies left[i] == right[i] by {
                assert(b[first.0 + i] == t.subrange(off, t.len() as int)[first.0 + i]);
            }
        }
    }
}

/// The last dot of a name is a dot, and no dot follows it.
pub proof fn lemma_last_dot(name: Seq<u8>)
    ensures
        -1 <= last_dot(name) < name.len(),
        last_dot(name) >= 0 ==> name[last_dot(name)] == DOT,
        forall|k: int| last_dot(name) < k < name.len() ==> name[k] != DOT,
    decreases name.len(),
{
    if name.len() > 0 && name.last() != DOT {
        let shorter = name.drop_last();
        lemma_last_dot(shorter);
        assert forall|k: int| last_dot(name) < k < name.len() implies name[k] != DOT by {
            if k < shorter.len() {
                assert(shorter[k] == name[k]);
            }
        }
    }
}

} // verus!
