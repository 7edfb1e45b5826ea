//! What holds of virtual paths whatever their contents.

use crate::absolute::AbsolutePath;
use crate::dirname::Dirname;
use crate::filename::Filename;
use crate::facts;
use crate::facts::lemma_spans;
use crate::syntax;
use crate::syntax::{
    body_spans, components, has_root, inner_components, is_cur_dir, join,
    lemma_segment_end_bounds, segment_end, spans, starts_with_cur_dir, DOT, SEPARATOR,
};
use crate::virtualpath::{PathParts, VirtualPath};
use vstd::prelude::*;
use vstd::std_specs::cmp::PartialEqSpec;

verus! {

/// A text is a directory component exactly when it is a file component, and
/// a text that is not empty is one of them exactly when it is no absolute
/// path. The empty text is none of the three.
pub proof fn components_and_absolute_paths_part(text: Seq<u8>)
    ensures
        Dirname::check(text) is Ok <==> text.len() > 0 && !has_root(text),
        Filename::check(text) is Ok <==> text.len() > 0 && !has_root(text),
        AbsolutePath::check(text) is Ok <==> has_root(text),
        text.len() > 0 ==> (Dirname::check(text) is Ok <==> AbsolutePath::check(text) is Err),
        text.len() == 0 ==> Dirname::check(text) is Err && Filename::check(text) is Err
            && AbsolutePath::check(text) is Err,
{
    lemma_spans(text);
}

/// Reading a virtual path twice gives the same whole path: what
/// `to_path_buf` returns depends on nothing but the value it is called on,
/// which it leaves as it is.
pub proof fn to_path_buf_is_repeatable<M>(v: &VirtualPath<M>, first: Vec<u8>, second: Vec<u8>)
    requires
        call_ensures(VirtualPath::<M>::to_path_buf, (v,), first),
        call_ensures(VirtualPath::<M>::to_path_buf, (v,), second),
    ensures
        first@ == second@,
        first@ == v@.rendered(),
{
}

/// The segments adjoined one after another, starting from the empty path.
pub open spec fn join_all(segs: Seq<Seq<u8>>) -> Seq<u8>
    decreases segs.len(),
{
    if segs.len() == 0 {
        Seq::empty()
    } else {
        join(join_all(segs.drop_last()), segs.last())
    }
}

/// The parts after each of the segments was pushed, in order.
pub open spec fn pushed_all(v: PathParts, segs: Seq<Seq<u8>>) -> PathParts
    decreases segs.len(),
{
    if segs.len() == 0 {
        v
    } else {
        pushed_all(v, segs.drop_last()).pushed(segs.last())
    }
}

/// The path that nothing was pushed onto and that has no base.
pub open spec fn empty_parts() -> PathParts {
    PathParts { base: Seq::empty(), path: Seq::empty() }
}

/// Adjoining to the empty path gives the segment itself.
pub proof fn join_to_empty(seg: Seq<u8>)
    ensures
        join(Seq::empty(), seg) == seg,
{
    assert(Seq::<u8>::empty() + seg =~= seg);
}

/// Adjoining a segment without a root keeps what was there, and keeps a
/// path without a root free of one.
pub proof fn join_keeps_the_base(base: Seq<u8>, seg: Seq<u8>)
    requires
        !has_root(seg),
    ensures
        base.is_prefix_of(join(base, seg)),
        !has_root(base) ==> !has_root(join(base, seg)),
{
}

/// The components that the segments give to the path they are adjoined to,
/// one after another: all the components of the first, and the inner
/// components of each one after it.
pub open spec fn all_components(segs: Seq<Seq<u8>>) -> Seq<Seq<u8>>
    decreases segs.len(),
{
    if segs.len() == 0 {
        Seq::empty()
    } else if segs.len() == 1 {
        components(segs[0])
    } else {
        all_components(segs.drop_last()) + inner_components(segs.last())
    }
}

/// A segment without a root and without a leading single dot brings all its
/// components; one with a leading single dot brings all but that dot.
pub proof fn a_segment_brings_its_components(seg: Seq<u8>)
    requires
        !has_root(seg),
    ensures
        !starts_with_cur_dir(seg) ==> inner_components(seg) == components(seg),
        starts_with_cur_dir(seg) ==> components(seg) == seq![seg.subrange(0, 1)]
            + inner_components(seg),
{
    if starts_with_cur_dir(seg) {
        lemma_segment_end_bounds(seg, 0);
        if seg.len() > 1 {
            lemma_segment_end_bounds(seg, 1);
            assert(segment_end(seg, 1) == 1);
        }
        assert(segment_end(seg, 0) == 1);
        assert(is_cur_dir(seg.subrange(0, 1)));
        assert(body_spans(seg, 0) == body_spans(seg, 1)) by {
            if seg.len() > 1 {
                assert(body_spans(seg, 1) == body_spans(seg, 2));
                assert(body_spans(seg, 0) == body_spans(seg, 2));
            }
        }
        assert(components(seg) =~= seq![seg.subrange(0, 1)] + inner_components(seg));
    } else {
        assert(inner_components(seg) =~= components(seg));
    }
}

/// Segments that are not empty and have no root, adjoined one after
/// another, give a path that holds their components in order.
pub proof fn join_all_keeps_the_components(segs: Seq<Seq<u8>>)
    requires
        forall|i: int| 0 <= i < segs.len() ==> (#[trigger] segs[i]).len() > 0 && !has_root(segs[i]),
    ensures
        components(join_all(segs)) == all_components(segs),
        segs.len() > 0 ==> join_all(segs).len() > 0,
        !has_root(join_all(segs)),
    decreases segs.len(),
{
    if segs.len() == 0 {
        lemma_spans(Seq::<u8>::empty());
        assert(components(Seq::<u8>::empty()) =~= Seq::<Seq<u8>>::empty());
    } else {
        let shorter = segs.drop_last();
        let last = segs.last();
        assert forall|i: int| 0 <= i < shorter.len() implies (#[trigger] shorter[i]).len() > 0
            && !has_root(shorter[i]) by {
            assert(shorter[i] == segs[i]);
        }
        join_all_keeps_the_components(shorter);
        if segs.len() == 1 {
            assert(join_all(shorter) == Seq::<u8>::empty());
            join_to_empty(last);
        } else {
            facts::lemma_components_join(join_all(shorter), last);
            join_keeps_the_base(join_all(shorter), last);
        }
    }
}

/// Pushing validated directories moves the relative path along `join_all`,
/// leaves the base alone and never makes the relative path absolute.
pub proof fn pushed_all_is_join_all(dirs: Seq<Seq<u8>>)
    requires
        forall|i: int| 0 <= i < dirs.len() ==> Dirname::check(#[trigger] dirs[i]) is Ok,
    ensures
        pushed_all(empty_parts(), dirs).path == join_all(dirs),
        pushed_all(empty_parts(), dirs).base == Seq::<u8>::empty(),
        !has_root(join_all(dirs)),
    decreases dirs.len(),
{
    if dirs.len() > 0 {
        let shorter = dirs.drop_last();
        assert forall|i: int| 0 <= i < shorter.len() implies Dirname::check(
            #[trigger] shorter[i],
        ) is Ok by {
            assert(shorter[i] == dirs[i]);
        }
        pushed_all_is_join_all(shorter);
        assert(Dirname::check(dirs[dirs.len() - 1]) is Ok);
    }
}

/// Pushing directories onto a new path and attaching a file gives, as the
/// whole path, the segments adjoined in the order in which they came. The
/// whole path has no root, and its components are those of the segments, in
/// that order.
pub proof fn pushes_round_trip(dirs: Seq<Seq<u8>>, file: Seq<u8>)
    requires
        forall|i: int| 0 <= i < dirs.len() ==> Dirname::check(#[trigger] dirs[i]) is Ok,
        Filename::check(file) is Ok,
    ensures
        pushed_all(empty_parts(), dirs).pushed(file).rendered() == join_all(dirs.push(file)),
        pushed_all(empty_parts(), dirs).pushed(file).base == Seq::<u8>::empty(),
        !has_root(join_all(dirs.push(file))),
        components(join_all(dirs.push(file))) == all_components(dirs.push(file)),
{
    pushed_all_is_join_all(dirs);
    let all = dirs.push(file);
    assert(all.drop_last() == dirs);
    assert(all.last() == file);
    join_to_empty(join_all(all));
    assert forall|i: int| 0 <= i < all.len() implies (#[trigger] all[i]).len() > 0 && !has_root(
        all[i],
    ) by {
        lemma_spans(all[i]);
        if i < dirs.len() {
            assert(all[i] == dirs[i]);
        }
    }
    join_all_keeps_the_components(all);
}

/// Setting a base changes nothing but the base: on each of two bases the
/// whole path is that base with the same relative path adjoined, and a
/// second base takes the place of the first.
pub proof fn rebasing_is_independent(v: PathParts, a: Seq<u8>, b: Seq<u8>)
    ensures
        v.rebased(a).rendered() == join(a, v.path),
        v.rebased(b).rendered() == join(b, v.path),
        v.rebased(a).path == v.path,
        v.rebased(b).path == v.path,
        v.rebased(a).rebased(b) == v.rebased(b),
{
}

/// Stripping a prefix leaves the base alone: afterwards the whole path
/// still starts with the base, byte by byte and component by component.
///
/// This is stated of relative paths that have no root, and of prefixes that
/// hold a component: what is left after such a prefix has no root either.
pub proof fn strip_prefix_keeps_the_base(v: PathParts, a: Seq<u8>, prefix: Seq<u8>)
    requires
        !has_root(v.path) || spans(prefix).len() > 0,
        v.rebased(a).stripped(prefix) is Some,
    ensures
        v.rebased(a).stripped(prefix).unwrap().base == a,
        !has_root(v.rebased(a).stripped(prefix).unwrap().path),
        a.is_prefix_of(v.rebased(a).stripped(prefix).unwrap().rendered()),
        syntax::starts_with(v.rebased(a).stripped(prefix).unwrap().rendered(), a),
{
    facts::lemma_stripped_has_no_root(v.path, prefix);
    let rest = v.rebased(a).stripped(prefix).unwrap().path;
    join_keeps_the_base(a, rest);
    facts::lemma_join_starts_with(a, rest);
}

/// Stripping what a path held before a segment was pushed gives back the
/// segment, trimmed: a push can be undone.
pub proof fn strip_prefix_undoes_a_push(v: PathParts, seg: Seq<u8>)
    requires
        v.path.len() > 0,
        !has_root(seg),
    ensures
        v.pushed(seg).stripped(v.path) == Some(
            PathParts { base: v.base, path: syntax::trimmed(seg) },
        ),
{
    facts::lemma_strip_after_join(v.path, seg);
}

/// An extension that was set is the extension that is read back.
///
/// This is stated of paths that have a final name, and of extensions that
/// are not empty and hold neither a separator nor a dot: of an extension
/// with a dot only what follows the last dot is read back, and a path
/// without a final name is left as it is.
pub proof fn extension_round_trip(v: PathParts, ext: Seq<u8>)
    requires
        syntax::file_name(v.path) is Some,
        ext.len() > 0,
        forall|k: int| 0 <= k < ext.len() ==> ext[k] != SEPARATOR && ext[k] != DOT,
    ensures
        syntax::extension(v.with_extension(ext).path) == Some(ext),
        syntax::file_stem(v.with_extension(ext).path) == syntax::file_stem(v.path),
        v.with_extension(ext).base == v.base,
{
    facts::lemma_extension_round_trip(v.path, ext);
}

/// Having the same components is an equivalence, so the `==` of virtual
/// paths is one: every path equals itself, equality can be turned round,
/// and two paths equal to a third are equal.
pub proof fn equality_is_an_equivalence<M>(a: VirtualPath<M>, b: VirtualPath<M>, c: VirtualPath<M>)
    ensures
        a.eq_spec(&a),
        a.eq_spec(&b) ==> b.eq_spec(&a),
        a.eq_spec(&b) && b.eq_spec(&c) ==> a.eq_spec(&c),
{
}

} // verus!
