//! Facts about lexical paths: the normal form is stable, a path is relative
//! to itself by the empty path, and a relative path cannot lead to an
//! absolute base.

use vstd::prelude::*;
use crate::path::{
    collapse_parts, join_texts, leading_part, lemma_split_nonempty, normalize_text, parse_parts,
    parent_parts, part_of_segment, part_text, parts_of_segments, relative_parts, relative_walk,
    render_parts, split_segments, starts_at_root, texts_of, is_absolute_parts, Part,
};

verus! {

pub open spec fn no_slash(t: Seq<char>) -> bool {
    forall|k: int| 0 <= k < t.len() ==> t[k] != '/'
}

/// A component text that parses back to a single named component.
pub open spec fn plain_name(t: Seq<char>) -> bool {
    t.len() > 0 && no_slash(t) && t != seq!['.'] && t != seq!['.', '.']
}

/// Components as parsing produces them: the root only first, and names
/// that parse back to themselves.
pub open spec fn parsed_shape(ps: Seq<Part>) -> bool {
    forall|i: int| #![trigger ps[i]] 0 <= i < ps.len() ==> {
        &&& (ps[i] is Root ==> i == 0)
        &&& (ps[i] matches Part::Named(t) ==> plain_name(t))
    }
}

/// The shape of a collapsed path: no `.`, and every `..` before every
/// other component.
pub open spec fn collapsed_shape(ps: Seq<Part>) -> bool {
    &&& parsed_shape(ps)
    &&& forall|i: int| #![trigger ps[i]] 0 <= i < ps.len() ==> !(ps[i] is Current)
    &&& forall|i: int, j: int| 0 <= i < j < ps.len() && (#[trigger] ps[j] is Parent) ==> (#[trigger] ps[i] is Parent)
}

proof fn lemma_split_plain(a: Seq<char>, t: Seq<char>)
    requires
        no_slash(t),
    ensures
        split_segments(a + t) == split_segments(a).update(
            split_segments(a).len() - 1,
            split_segments(a).last() + t,
        ),
    decreases t.len(),
{
    lemma_split_nonempty(a);
    if t.len() == 0 {
        assert(a + t =~= a);
        assert(split_segments(a).last() + t =~= split_segments(a).last());
        assert(split_segments(a).update(split_segments(a).len() - 1, split_segments(a).last())
            =~= split_segments(a));
    } else {
        let t2 = t.drop_last();
        lemma_split_plain(a, t2);
        assert((a + t).drop_last() =~= a + t2);
        assert((a + t).last() == t.last());
        let prev = split_segments(a + t2);
        assert(prev.last() == split_segments(a).last() + t2);
        assert(prev.last().push(t.last()) =~= split_segments(a).last() + t);
        assert(split_segments(a + t) =~= split_segments(a).update(
            split_segments(a).len() - 1,
            split_segments(a).last() + t,
        ));
    }
}

proof fn lemma_split_after_slash(a: Seq<char>, t: Seq<char>)
    requires
        no_slash(t),
    ensures
        split_segments(a + seq!['/'] + t) == split_segments(a).push(t),
{
    let a1 = a + seq!['/'];
    lemma_split_plain(a1, t);
    assert(a1.drop_last() =~= a);
    assert(a1.last() == '/');
    assert(seq![] + t =~= t);
    assert(split_segments(a1 + t) =~= split_segments(a).push(t));
}

proof fn lemma_split_after_slash_join(a: Seq<char>, ts: Seq<Seq<char>>)
    requires
        ts.len() >= 1,
        forall|i: int| 0 <= i < ts.len() ==> no_slash(#[trigger] ts[i]),
    ensures
        split_segments(a + seq!['/'] + join_texts(ts)) == split_segments(a) + ts,
    decreases ts.len(),
{
    if ts.len() == 1 {
        lemma_split_after_slash(a, ts[0]);
        assert(split_segments(a).push(ts[0]) =~= split_segments(a) + ts);
    } else {
        let rest = ts.skip(1);
        let a2 = a + seq!['/'] + ts[0];
        assert(a + seq!['/'] + join_texts(ts) =~= a2 + seq!['/'] + join_texts(rest));
        assert forall|i: int| 0 <= i < rest.len() implies no_slash(#[trigger] rest[i]) by {
            assert(rest[i] == ts[i + 1]);
        }
        lemma_split_after_slash_join(a2, rest);
        lemma_split_after_slash(a, ts[0]);
        assert(split_segments(a).push(ts[0]) + rest =~= split_segments(a) + ts);
    }
}

proof fn lemma_split_join(ts: Seq<Seq<char>>)
    requires
        ts.len() >= 1,
        forall|i: int| 0 <= i < ts.len() ==> no_slash(#[trigger] ts[i]),
    ensures
        split_segments(join_texts(ts)) == ts,
{
    let e = Seq::<char>::empty();
    lemma_split_plain(e, ts[0]);
    assert(e + ts[0] =~= ts[0]);
    assert(split_segments(e) == seq![e]);
    assert(split_segments(ts[0]) =~= seq![ts[0]]);
    if ts.len() > 1 {
        let rest = ts.skip(1);
        assert forall|i: int| 0 <= i < rest.len() implies no_slash(#[trigger] rest[i]) by {
            assert(rest[i] == ts[i + 1]);
        }
        lemma_split_after_slash_join(ts[0], rest);
        assert(seq![ts[0]] + rest =~= ts);
    }
}

proof fn lemma_parts_of_add(a: Seq<Seq<char>>, b: Seq<Seq<char>>)
    ensures
        parts_of_segments(a + b) == parts_of_segments(a) + parts_of_segments(b),
    decreases b.len(),
{
    if b.len() == 0 {
        assert(a + b =~= a);
        assert(parts_of_segments(a) + parts_of_segments(b) =~= parts_of_segments(a));
    } else {
        lemma_parts_of_add(a, b.drop_last());
        assert((a + b).drop_last() =~= a + b.drop_last());
        assert((a + b).last() == b.last());
        assert(parts_of_segments(a + b) =~= parts_of_segments(a) + parts_of_segments(b));
    }
}

proof fn lemma_parts_of_texts(ps: Seq<Part>)
    requires
        collapsed_shape(ps),
        forall|i: int| 0 <= i < ps.len() ==> !(#[trigger] ps[i] is Root),
    ensures
        parts_of_segments(texts_of(ps)) == ps,
    decreases ps.len(),
{
    if ps.len() > 0 {
        let q = ps.drop_last();
        assert forall|i: int, j: int| 0 <= i < j < q.len() && (#[trigger] q[j] is Parent) implies (#[trigger] q[i] is Parent) by {
            assert(q[j] == ps[j] && q[i] == ps[i]);
        }
        assert forall|i: int| 0 <= i < q.len() implies !(#[trigger] q[i] is Root) && !(q[i] is Current) by {
            assert(q[i] == ps[i]);
        }
        assert(parsed_shape(q)) by {
            assert forall|i: int| #![trigger q[i]] 0 <= i < q.len() implies {
                &&& (q[i] is Root ==> i == 0)
                &&& (q[i] matches Part::Named(t) ==> plain_name(t))
            } by {
                assert(q[i] == ps[i]);
            }
        }
        lemma_parts_of_texts(q);
        assert(texts_of(ps).drop_last() =~= texts_of(q));
        let p = ps.last();
        assert(ps[ps.len() - 1] == p);
        assert(part_of_segment(part_text(p)) =~= seq![p]);
        assert(parts_of_segments(texts_of(q)) + seq![p] =~= ps);
    }
}

proof fn lemma_texts_no_slash(ps: Seq<Part>)
    requires
        collapsed_shape(ps),
        forall|i: int| 0 <= i < ps.len() ==> !(#[trigger] ps[i] is Root),
    ensures
        forall|i: int| 0 <= i < texts_of(ps).len() ==> no_slash(#[trigger] texts_of(ps)[i]),
        forall|i: int| 0 <= i < texts_of(ps).len() ==> (#[trigger] texts_of(ps)[i]).len() > 0,
{
    assert forall|i: int| 0 <= i < texts_of(ps).len() implies no_slash(#[trigger] texts_of(ps)[i])
        && texts_of(ps)[i].len() > 0 by {
        assert(texts_of(ps)[i] == part_text(ps[i]));
        if ps[i] is Parent {
            assert(part_text(ps[i]) =~= seq!['.', '.']);
        }
    }
}

proof fn lemma_parts_of_empty_segment()
    ensures
        parts_of_segments(seq![Seq::<char>::empty()]) == Seq::<Part>::empty(),
{
    let e = Seq::<char>::empty();
    let one = seq![e];
    assert(one.drop_last() =~= Seq::<Seq<char>>::empty());
    assert(parts_of_segments(Seq::<Seq<char>>::empty()) == Seq::<Part>::empty());
    assert(one.last() == e);
    assert(part_of_segment(e) =~= Seq::<Part>::empty());
    assert(parts_of_segments(one) == parts_of_segments(one.drop_last()) + part_of_segment(one.last()));
    assert(parts_of_segments(one) =~= Seq::<Part>::empty());
}

/// Rendering a collapsed path and parsing the text gives the path back.
pub proof fn lemma_parse_render(ps: Seq<Part>)
    requires
        collapsed_shape(ps),
    ensures
        parse_parts(render_parts(ps)) == ps,
{
    let e = Seq::<char>::empty();
    if is_absolute_parts(ps) {
        let rest = ps.skip(1);
        assert(collapsed_shape(rest)) by {
            assert forall|i: int| 0 <= i < rest.len() implies (#[trigger] rest[i]) == ps[i + 1] by {}
            assert forall|i: int, j: int| 0 <= i < j < rest.len() && (#[trigger] rest[j] is Parent) implies (#[trigger] rest[i] is Parent) by {
                assert(rest[j] == ps[j + 1] && rest[i] == ps[i + 1]);
            }
        }
        assert forall|i: int| 0 <= i < rest.len() implies !(#[trigger] rest[i] is Root) by {
            assert(rest[i] == ps[i + 1]);
        }
        let r = render_parts(ps);
        if rest.len() == 0 {
            assert(texts_of(rest) =~= seq![]);
            assert(r =~= seq!['/']);
            assert(r.drop_last() =~= e);
            assert(r.last() == '/');
            assert(split_segments(e) == seq![e]);
            assert(seq![e].push(e) =~= seq![e, e]);
            assert(split_segments(r) == seq![e, e]);
            assert(seq![e, e].drop_last() =~= seq![e]);
            assert(seq![e].drop_last() =~= seq![]);
            lemma_parts_of_empty_segment();
            assert(seq![e, e].last() == e);
            assert(part_of_segment(e) =~= seq![]);
            assert(parts_of_segments(seq![e, e]) =~= seq![]);
            assert(ps =~= seq![Part::Root]);
        } else {
            lemma_texts_no_slash(rest);
            lemma_split_after_slash_join(e, texts_of(rest));
            assert(e + seq!['/'] + join_texts(texts_of(rest)) =~= r);
            assert(split_segments(e) == seq![e]);
            lemma_parts_of_add(seq![e], texts_of(rest));
            assert(seq![e].drop_last() =~= seq![]);
            lemma_parts_of_empty_segment();
            lemma_parts_of_texts(rest);
            assert(r[0] == '/');
            assert(seq![Part::Root] + (seq![] + rest) =~= ps);
        }
    } else {
        assert forall|i: int| 0 <= i < ps.len() implies !(#[trigger] ps[i] is Root) by {
            if ps[i] is Root { assert(i == 0); }
        }
        lemma_texts_no_slash(ps);
        lemma_parts_of_texts(ps);
        if ps.len() == 0 {
            assert(texts_of(ps) =~= seq![]);
            assert(render_parts(ps) =~= e);
            assert(split_segments(e) == seq![e]);
            assert(seq![e].drop_last() =~= seq![]);
            lemma_parts_of_empty_segment();
            assert(ps =~= seq![]);
        } else {
            let ts = texts_of(ps);
            lemma_split_join(ts);
            assert(ts[0] == part_text(ps[0]));
            assert(join_texts(ts)[0] == ts[0][0]) by {
                if ts.len() > 1 {
                    assert((ts[0] + seq!['/'] + join_texts(ts.skip(1)))[0] == ts[0][0]);
                }
            }
            assert(ts[0] != seq!['.']) by {
                if ps[0] is Parent {
                    assert(ts[0] =~= seq!['.', '.']);
                }
            }
            assert(seq![] + ps =~= ps);
        }
    }
}

proof fn lemma_split_no_slash(s: Seq<char>)
    ensures
        forall|i: int| 0 <= i < split_segments(s).len() ==> no_slash(#[trigger] split_segments(s)[i]),
    decreases s.len(),
{
    lemma_split_nonempty(s);
    if s.len() > 0 {
        lemma_split_no_slash(s.drop_last());
        lemma_split_nonempty(s.drop_last());
        let prev = split_segments(s.drop_last());
        if s.last() != '/' {
            assert forall|i: int| 0 <= i < split_segments(s).len() implies no_slash(#[trigger] split_segments(s)[i]) by {
                if i == prev.len() - 1 {
                    assert(split_segments(s)[i] == prev.last().push(s.last()));
                    assert(no_slash(prev[i]));
                } else {
                    assert(split_segments(s)[i] == prev[i]);
                }
            }
        } else {
            assert forall|i: int| 0 <= i < split_segments(s).len() implies no_slash(#[trigger] split_segments(s)[i]) by {
                if i < prev.len() {
                    assert(split_segments(s)[i] == prev[i]);
                }
            }
        }
    }
}

proof fn lemma_parts_of_segments_shape(segs: Seq<Seq<char>>)
    requires
        forall|i: int| 0 <= i < segs.len() ==> no_slash(#[trigger] segs[i]),
    ensures
        forall|i: int| #![trigger parts_of_segments(segs)[i]] 0 <= i < parts_of_segments(segs).len() ==> {
            &&& (parts_of_segments(segs)[i] is Parent || parts_of_segments(segs)[i] is Named)
            &&& (parts_of_segments(segs)[i] matches Part::Named(t) ==> plain_name(t))
        },
    decreases segs.len(),
{
    if segs.len() > 0 {
        let q = segs.drop_last();
        assert forall|i: int| 0 <= i < q.len() implies no_slash(#[trigger] q[i]) by {
            assert(q[i] == segs[i]);
        }
        lemma_parts_of_segments_shape(q);
        assert(no_slash(segs[segs.len() - 1]));
    }
}

/// What parsing produces has the shape that collapsing expects.
proof fn lemma_parse_shape(s: Seq<char>)
    ensures
        parsed_shape(parse_parts(s)),
{
    let segs = split_segments(s);
    lemma_split_no_slash(s);
    lemma_parts_of_segments_shape(segs);
    let lead = leading_part(starts_at_root(s), segs);
    let body = parts_of_segments(segs);
    assert forall|i: int| #![trigger parse_parts(s)[i]] 0 <= i < parse_parts(s).len() implies {
        &&& (parse_parts(s)[i] is Root ==> i == 0)
        &&& (parse_parts(s)[i] matches Part::Named(t) ==> plain_name(t))
    } by {
        if i >= lead.len() {
            assert(parse_parts(s)[i] == body[i - lead.len()]);
        }
    }
}

proof fn lemma_collapse_shape(ps: Seq<Part>)
    requires
        parsed_shape(ps),
    ensures
        collapsed_shape(collapse_parts(ps)),
        ps.len() > 0 && ps[0] is Root && collapse_parts(ps).len() > 0 ==> true,
    decreases ps.len(),
{
    if ps.len() > 0 {
        let q = ps.drop_last();
        assert(parsed_shape(q)) by {
            assert forall|i: int| #![trigger q[i]] 0 <= i < q.len() implies {
                &&& (q[i] is Root ==> i == 0)
                &&& (q[i] matches Part::Named(t) ==> plain_name(t))
            } by {
                assert(q[i] == ps[i]);
            }
        }
        lemma_collapse_shape(q);
        let st = collapse_parts(q);
        let p = ps.last();
        assert(p == ps[ps.len() - 1]);
        if p is Root {
            assert(ps.len() == 1);
            assert(q.len() == 0);
            assert(st =~= seq![]);
            assert(collapse_parts(ps) =~= seq![p]);
        } else if p is Parent {
            if st.len() == 0 || st.last() is Parent {
                let r = st.push(Part::Parent);
                assert(collapse_parts(ps) == r);
                assert forall|i: int| 0 <= i < r.len() implies (#[trigger] r[i]) is Parent by {
                    if i < st.len() {
                        assert(st[st.len() - 1] is Parent);
                        if i < st.len() - 1 {
                            assert(st[i] is Parent);
                        }
                    }
                }
            } else {
                let r = st.drop_last();
                assert(collapse_parts(ps) == r);
                assert forall|i: int| 0 <= i < r.len() implies (#[trigger] r[i]) == st[i] by {}
            }
        } else if p is Current {
        } else {
            let r = st.push(p);
            assert(collapse_parts(ps) == r);
            assert forall|i: int| 0 <= i < st.len() implies (#[trigger] r[i]) == st[i] by {}
            assert(r[st.len() as int] == p);
            assert(!(p is Root));
        }
    }
}

proof fn lemma_collapse_collapsed(ps: Seq<Part>)
    requires
        collapsed_shape(ps),
    ensures
        collapse_parts(ps) == ps,
    decreases ps.len(),
{
    if ps.len() > 0 {
        let q = ps.drop_last();
        assert(collapsed_shape(q)) by {
            assert forall|i: int| 0 <= i < q.len() implies (#[trigger] q[i]) == ps[i] by {}
            assert forall|i: int, j: int| 0 <= i < j < q.len() && (#[trigger] q[j] is Parent) implies (#[trigger] q[i] is Parent) by {
                assert(q[j] == ps[j] && q[i] == ps[i]);
            }
        }
        lemma_collapse_collapsed(q);
        let p = ps.last();
        assert(p == ps[ps.len() - 1]);
        if p is Parent {
            if q.len() > 0 {
                assert(q.last() == ps[q.len() - 1]);
            }
        }
        if p is Root {
            assert(ps.len() == 1);
        }
        assert(q.push(p) =~= ps);
    }
}

/// The text of an optional path: empty where there is none.
pub open spec fn optional_text(o: Option<Seq<Part>>) -> Seq<char> {
    match o {
        Some(ps) => render_parts(ps),
        None => seq![],
    }
}

/// Normalizing the text of a normalized path changes nothing: for every
/// string `s`, `normalize(text(normalize(s))) == normalize(s)`.
pub proof fn lemma_normalize_idempotent(s: Seq<char>)
    ensures
        normalize_text(optional_text(normalize_text(s))) == normalize_text(s),
{
    lemma_parse_shape(s);
    lemma_collapse_shape(parse_parts(s));
    let n = collapse_parts(parse_parts(s));
    if n.len() == 0 {
        let e = Seq::<char>::empty();
        assert(split_segments(e) == seq![e]);
        assert(seq![e].drop_last() =~= seq![]);
        lemma_parts_of_empty_segment();
        assert(parse_parts(e) =~= seq![]);
    } else {
        lemma_parse_render(n);
        lemma_collapse_collapsed(n);
    }
}

/// A path is reached from itself by the empty path.
pub proof fn lemma_relative_to_itself(p: Seq<Part>)
    ensures
        relative_parts(p, p) == Some(Seq::<Part>::empty()),
{
    lemma_walk_equal(p);
}

proof fn lemma_walk_equal(p: Seq<Part>)
    ensures
        relative_walk(p, p, seq![]) == Some(Seq::<Part>::empty()),
    decreases p.len(),
{
    if p.len() == 0 {
        assert(Seq::<Part>::empty() + parent_parts(0) =~= Seq::<Part>::empty());
    } else {
        lemma_walk_equal(p.skip(1));
    }
}

/// Where exactly one of the two is absolute and `dst` is the relative one,
/// there is no relative path.
pub proof fn lemma_relative_needs_absolute_dst(dst: Seq<Part>, base: Seq<Part>)
    requires
        is_absolute_parts(base),
        !is_absolute_parts(dst),
    ensures
        relative_parts(dst, base) is None,
{
}

} // verus!
