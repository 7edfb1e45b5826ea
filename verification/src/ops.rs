//! The operations on path text, each proved to give what [`crate::syntax`]
//! says.

use crate::facts::{lemma_last_dot, lemma_spans};
use crate::syntax::{
    body_spans, component, components, extension, file_name_span, file_stem, has_root, is_normal,
    join, parent, same_components, segment_end, spans, starts_with, stem_len, strip_prefix,
    with_extension, with_file_name, DOT, SEPARATOR,
};
use vstd::prelude::*;
use vstd::slice::slice_subrange;

verus! {

/// The place of one component in a path's text: the bytes from `start` up to,
/// not including, `end`.
#[derive(Clone, Copy, Debug)]
pub struct Span {
    pub start: usize,
    pub end: usize,
}

/// The views of executable spans.
pub open spec fn span_views(v: Seq<Span>) -> Seq<(int, int)> {
    Seq::new(v.len(), |i: int| (v[i].start as int, v[i].end as int))
}

/// Tells whether the path text has a root.
pub fn is_absolute(p: &[u8]) -> (r: bool)
    ensures
        r == has_root(p@),
{
    p.len() > 0 && p[0] == SEPARATOR
}

/// Adjoins `seg` to `base` in place.
pub fn push(base: &mut Vec<u8>, seg: &[u8])
    ensures
        final(base)@ == join(old(base)@, seg@),
{
    if is_absolute(seg) {
        base.clear();
    } else if base.len() > 0 && base[base.len() - 1] != SEPARATOR {
        base.push(SEPARATOR);
    }
    base.extend_from_slice(seg);
}

/// Finds the components of a path, in order. Each lies within the text and
/// is not empty.
pub fn scan(p: &[u8]) -> (out: Vec<Span>)
    ensures
        span_views(out@) == spans(p@),
        forall|i: int| 0 <= i < out.len() ==> (#[trigger] out[i]).start < out[i].end <= p@.len(),
{
    let n = p.len();
    let mut out: Vec<Span> = Vec::new();
    let mut i: usize = 0;
    if n > 0 && (p[0] == SEPARATOR || (p[0] == DOT && (n == 1 || p[1] == SEPARATOR))) {
        out.push(Span { start: 0, end: 1 });
        i = 1;
    }
    while i < n
        invariant
            n == p@.len(),
            i <= n,
            span_views(out@) + body_spans(p@, i as int) == spans(p@),
        decreases n - i,
    {
        let mut j: usize = i;
        while j < n && p[j] != SEPARATOR
            invariant
                n == p@.len(),
                i <= j <= n,
                segment_end(p@, j as int) == segment_end(p@, i as int),
            decreases n - j,
        {
            j += 1;
        }
        let ghost before = span_views(out@);
        if !(j == i || (j == i + 1 && p[i] == DOT)) {
            out.push(Span { start: i, end: j });
            assert(span_views(out@) == before + seq![(i as int, j as int)]);
        }
        assert(before + body_spans(p@, i as int) == span_views(out@) + body_spans(
            p@,
            j as int + 1,
        ));
        if j == n {
            i = n;
        } else {
            i = j + 1;
        }
    }
    assert(body_spans(p@, i as int) == Seq::<(int, int)>::empty());
    proof {
        lemma_spans(p@);
        assert forall|i: int| 0 <= i < out.len() implies (#[trigger] out[i]).start < out[i].end
            <= p@.len() by {
            assert(spans(p@)[i] == (out[i].start as int, out[i].end as int));
        }
    }
    out
}

/// Whether the path holds at least one component.
pub fn has_component(p: &[u8]) -> (r: bool)
    ensures
        r == (spans(p@).len() > 0),
{
    proof {
        lemma_spans(p@);
    }
    p.len() > 0
}

/// Tells whether the component that lies at `start..end` names a file or a
/// directory.
fn is_normal_at(p: &[u8], start: usize, end: usize) -> (r: bool)
    requires
        start < end <= p@.len(),
    ensures
        r == is_normal(p@.subrange(start as int, end as int)),
{
    let len = end - start;
    if len == 1 {
        p[start] != SEPARATOR && p[start] != DOT
    } else if len == 2 {
        !(p[start] == DOT && p[start + 1] == DOT)
    } else {
        true
    }
}

/// Finds the final name of a path.
pub fn find_file_name(p: &[u8]) -> (r: Option<Span>)
    ensures
        match r {
            Some(s) => file_name_span(p@) == Some((s.start as int, s.end as int)) && s.start
                < s.end <= p@.len(),
            None => file_name_span(p@) is None,
        },
{
    let found = scan(p);
    proof {
        lemma_spans(p@);
    }
    let n = found.len();
    if n == 0 {
        return None;
    }
    let start = found[n - 1].start;
    let end = found[n - 1].end;
    assert(spans(p@)[n - 1] == (start as int, end as int));
    if is_normal_at(p, start, end) {
        Some(Span { start, end })
    } else {
        None
    }
}

/// The length of the stem of the name that lies at `start..end`.
fn stem_len_at(p: &[u8], start: usize, end: usize) -> (r: usize)
    requires
        start <= end <= p@.len(),
    ensures
        r == stem_len(p@.subrange(start as int, end as int)),
        r <= end - start,
{
    let ghost name = p@.subrange(start as int, end as int);
    let mut j: usize = end;
    while j > start
        invariant
            start <= j <= end <= p@.len(),
            name == p@.subrange(start as int, end as int),
            forall|k: int| j <= k < end ==> p@[k] != DOT,
        decreases j,
    {
        j -= 1;
        if p[j] == DOT {
            assert(name[j - start] == DOT);
            assert forall|k: int| j - start < k < name.len() implies name[k] != DOT by {
                assert(name[k] == p@[start + k]);
            }
            proof {
                lemma_last_dot(name);
            }
            if j == start {
                return end - start;
            }
            return j - start;
        }
    }
    assert forall|k: int| 0 <= k < name.len() implies name[k] != DOT by {
        assert(name[k] == p@[start + k]);
    }
    proof {
        lemma_last_dot(name);
    }
    end - start
}

/// Lends the stem of the path's final name.
pub fn stem_of(p: &[u8]) -> (r: Option<&[u8]>)
    ensures
        match r {
            Some(s) => file_stem(p@) == Some(s@),
            None => file_stem(p@) is None,
        },
{
    match find_file_name(p) {
        None => None,
        Some(s) => {
            let len = stem_len_at(p, s.start, s.end);
            let ghost name = p@.subrange(s.start as int, s.end as int);
            assert(name.subrange(0, len as int) == p@.subrange(
                s.start as int,
                s.start + len as int,
            ));
            Some(slice_subrange(p, s.start, s.start + len))
        },
    }
}

/// Lends the extension of the path's final name.
pub fn extension_of(p: &[u8]) -> (r: Option<&[u8]>)
    ensures
        match r {
            Some(e) => extension(p@) == Some(e@),
            None => extension(p@) is None,
        },
{
    match find_file_name(p) {
        None => None,
        Some(s) => {
            let len = stem_len_at(p, s.start, s.end);
            let ghost name = p@.subrange(s.start as int, s.end as int);
            proof {
                lemma_last_dot(name);
            }
            if len == s.end - s.start {
                None
            } else {
                assert(name.subrange(len + 1, name.len() as int) == p@.subrange(
                    s.start + len + 1,
                    s.end as int,
                ));
                Some(slice_subrange(p, s.start + len + 1, s.end))
            }
        },
    }
}

/// Replaces the extension of the path's final name, and tells whether the
/// path had a final name.
pub fn set_extension(p: &mut Vec<u8>, ext: &[u8]) -> (changed: bool)
    ensures
        final(p)@ == with_extension(old(p)@, ext@),
        changed == (file_name_span(old(p)@) is Some),
{
    match find_file_name(p.as_slice()) {
        None => false,
        Some(s) => {
            let keep = s.start + stem_len_at(p.as_slice(), s.start, s.end);
            p.truncate(keep);
            if ext.len() > 0 {
                p.push(DOT);
                p.extend_from_slice(ext);
            }
            true
        },
    }
}

/// The length of the path's parent, which is the start of the path's text.
pub fn parent_len(p: &[u8]) -> (r: Option<usize>)
    ensures
        match r {
            Some(n) => n <= p@.len() && parent(p@) == Some(p@.subrange(0, n as int)),
            None => parent(p@) is None,
        },
{
    let found = scan(p);
    proof {
        lemma_spans(p@);
    }
    let n = found.len();
    if n == 0 || (n == 1 && is_absolute(p)) {
        None
    } else if n == 1 {
        assert(p@.subrange(0, 0) == Seq::<u8>::empty());
        Some(0)
    } else {
        assert(spans(p@)[n - 2] == (found[n - 2].start as int, found[n - 2].end as int));
        Some(found[n - 2].end)
    }
}

/// Lends the path's parent.
pub fn parent_of(p: &[u8]) -> (r: Option<&[u8]>)
    ensures
        match r {
            Some(above) => parent(p@) == Some(above@),
            None => parent(p@) is None,
        },
{
    match parent_len(p) {
        Some(n) => Some(slice_subrange(p, 0, n)),
        None => None,
    }
}

/// Replaces the path's final name by `name`, or adjoins `name` where the
/// path has no final name.
pub fn set_file_name(p: &mut Vec<u8>, name: &[u8])
    ensures
        final(p)@ == with_file_name(old(p)@, name@),
{
    if find_file_name(p.as_slice()).is_some() {
        proof {
            lemma_spans(p@);
        }
        match parent_len(p.as_slice()) {
            Some(n) => {
                p.truncate(n);
            },
            None => {},
        }
    }
    push(p, name);
}

/// Compares the bytes of two ranges.
fn equal_at(a: &[u8], a_start: usize, a_end: usize, b: &[u8], b_start: usize, b_end: usize) -> (r:
    bool)
    requires
        a_start <= a_end <= a@.len(),
        b_start <= b_end <= b@.len(),
    ensures
        r == (a@.subrange(a_start as int, a_end as int) == b@.subrange(
            b_start as int,
            b_end as int,
        )),
{
    let ghost left = a@.subrange(a_start as int, a_end as int);
    let ghost right = b@.subrange(b_start as int, b_end as int);
    let len = a_end - a_start;
    if len != b_end - b_start {
        assert(left.len() != right.len());
        return false;
    }
    let mut i: usize = 0;
    while i < len
        invariant
            i <= len,
            len == a_end - a_start,
            len == b_end - b_start,
            a_end <= a@.len(),
            b_end <= b@.len(),
            left == a@.subrange(a_start as int, a_end as int),
            right == b@.subrange(b_start as int, b_end as int),
            forall|k: int| 0 <= k < i ==> left[k] == right[k],
        decreases len - i,
    {
        if a[a_start + i] != b[b_start + i] {
            assert(left[i as int] != right[i as int]);
            return false;
        }
        i += 1;
    }
    assert(left =~= right);
    true
}

/// Tells whether the components of `prefix`, found as `qs`, are the first
/// components of `p`, found as `ps`.
fn leading_components_match(p: &[u8], ps: &Vec<Span>, prefix: &[u8], qs: &Vec<Span>) -> (r: bool)
    requires
        span_views(ps@) == spans(p@),
        span_views(qs@) == spans(prefix@),
    ensures
        r == starts_with(p@, prefix@),
{
    proof {
        lemma_spans(p@);
        lemma_spans(prefix@);
    }
    let k = qs.len();
    if k > ps.len() {
        return false;
    }
    let mut i: usize = 0;
    while i < k
        invariant
            i <= k,
            k == qs.len(),
            k <= ps.len(),
            span_views(ps@) == spans(p@),
            span_views(qs@) == spans(prefix@),
            forall|j: int| 0 <= j < i ==> component(p@, j) == #[trigger] component(prefix@, j),
        decreases k - i,
    {
        proof {
            lemma_spans(p@);
            lemma_spans(prefix@);
        }
        assert(spans(p@)[i as int] == (ps[i as int].start as int, ps[i as int].end as int));
        assert(spans(prefix@)[i as int] == (qs[i as int].start as int, qs[i as int].end as int));
        if !equal_at(p, ps[i].start, ps[i].end, prefix, qs[i].start, qs[i].end) {
            assert(components(p@)[i as int] != components(prefix@)[i as int]);
            assert(components(p@).subrange(0, k as int)[i as int] == components(p@)[i as int]);
            return false;
        }
        i += 1;
    }
    assert(components(prefix@) =~= components(p@).subrange(0, k as int));
    true
}

/// Lends what is left of `p` after the components of `prefix`, or nothing
/// when `p` does not start with them.
pub fn strip<'a>(p: &'a [u8], prefix: &[u8]) -> (r: Option<&'a [u8]>)
    ensures
        match r {
            Some(rest) => strip_prefix(p@, prefix@) == Some(rest@),
            None => strip_prefix(p@, prefix@) is None,
        },
{
    let ps = scan(p);
    let qs = scan(prefix);
    if !leading_components_match(p, &ps, prefix, &qs) {
        return None;
    }
    proof {
        lemma_spans(p@);
    }
    let n = ps.len();
    let k = qs.len();
    if k == n {
        assert(p@.subrange(0, 0) == Seq::<u8>::empty());
        Some(slice_subrange(p, 0, 0))
    } else {
        assert(spans(p@)[k as int] == (ps[k as int].start as int, ps[k as int].end as int));
        assert(spans(p@)[n - 1] == (ps[n - 1].start as int, ps[n - 1].end as int));
        Some(slice_subrange(p, ps[k].start, ps[n - 1].end))
    }
}

/// Tells whether two texts have the same components.
pub fn same_path(p: &[u8], q: &[u8]) -> (r: bool)
    ensures
        r == same_components(p@, q@),
{
    let ps = scan(p);
    let qs = scan(q);
    let same = ps.len() == qs.len() && leading_components_match(p, &ps, q, &qs);
    proof {
        assert(components(p@).len() == ps.len());
        assert(components(q@).len() == qs.len());
        if ps.len() == qs.len() {
            assert(components(p@).subrange(0, qs.len() as int) == components(p@));
        }
    }
    same
}

} // verus!
