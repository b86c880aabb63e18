//! Decisions of the desktop front end: the breadcrumb bar, the size and
//! item-count texts of the file list, the stored dark-mode flag and the
//! tray menu.
use vstd::prelude::*;
use crate::paths::{push_range, push_str, trim_start_slashes};
use crate::size::{one_decimal, one_decimal_text, GIB, MIB, KIB};
use crate::text::{chars_of, decimal, push_decimal, string_of};

verus! {

/// The characters after the last `/` of `s` (the part still being read
/// when `s` is split on `/`).
pub open spec fn open_part(s: Seq<char>) -> Seq<char>
    decreases s.len(),
{
    if s.len() == 0 {
        Seq::empty()
    } else if s.last() == '/' {
        Seq::empty()
    } else {
        open_part(s.drop_last()).push(s.last())
    }
}

/// The non-empty pieces of `s` split on `/` that a `/` has already ended.
pub open spec fn closed_parts(s: Seq<char>) -> Seq<Seq<char>>
    decreases s.len(),
{
    if s.len() == 0 {
        Seq::empty()
    } else if s.last() == '/' {
        let pre = s.drop_last();
        if open_part(pre).len() > 0 {
            closed_parts(pre).push(open_part(pre))
        } else {
            closed_parts(pre)
        }
    } else {
        closed_parts(s.drop_last())
    }
}

/// The non-empty pieces of `s` split on `/`, in order
/// (`s.split('/').filter(|p| !p.is_empty())`).
pub open spec fn path_parts(s: Seq<char>) -> Seq<Seq<char>> {
    if open_part(s).len() > 0 {
        closed_parts(s).push(open_part(s))
    } else {
        closed_parts(s)
    }
}

/// `base` followed by `/p` for each piece `p` of `ps`.
pub open spec fn joined(base: Seq<char>, ps: Seq<Seq<char>>) -> Seq<char>
    decreases ps.len(),
{
    if ps.len() == 0 {
        base
    } else {
        joined(base, ps.drop_last()) + seq!['/'] + ps.last()
    }
}

/// The path lies in the devices section: `/computers` or below it.
pub open spec fn in_computers(p: Seq<char>) -> bool {
    p == "/computers"@ || (p.len() >= 11 && p.take(11) == "/computers/"@)
}

/// The part of `p` below its section's root, without leading `/`.
pub open spec fn below_root(p: Seq<char>) -> Seq<char> {
    if in_computers(p) {
        trim_start_slashes(p.skip(10))
    } else {
        trim_start_slashes(p)
    }
}

/// The path of the section's root as breadcrumb paths start from it.
pub open spec fn crumb_base(p: Seq<char>) -> Seq<char> {
    if in_computers(p) {
        "/computers"@
    } else {
        Seq::empty()
    }
}

/// The breadcrumb bar for `p`, as (label, path) pairs: the section's root
/// (`Computers` at `/computers`, or `My Files` at `/`), then one segment
/// per non-empty piece of the rest, whose path goes down to that piece.
pub open spec fn breadcrumb_of(p: Seq<char>) -> Seq<(Seq<char>, Seq<char>)> {
    let parts = path_parts(below_root(p));
    let root = if in_computers(p) {
        ("Computers"@, "/computers"@)
    } else {
        ("My Files"@, "/"@)
    };
    seq![root] + Seq::new(
        parts.len(),
        |i: int| (parts[i], joined(crumb_base(p), parts.take(i + 1))),
    )
}

/// One segment of the breadcrumb bar.
#[derive(Debug, Clone)]
pub struct BreadcrumbSegment {
    pub label: String,
    pub path: String,
}

/// The (label, path) pairs of a list of segments.
pub open spec fn segments_view(v: Seq<BreadcrumbSegment>) -> Seq<(Seq<char>, Seq<char>)> {
    Seq::new(v.len(), |i: int| (v[i].label@, v[i].path@))
}

fn segment(label: &Vec<char>, path: &Vec<char>) -> (s: BreadcrumbSegment)
    ensures
        s.label@ == label@,
        s.path@ == path@,
{
    BreadcrumbSegment { label: string_of(label), path: string_of(path) }
}

proof fn lemma_take_push<A>(s: Seq<A>, i: int)
    requires
        0 <= i < s.len(),
    ensures
        s.take(i + 1) == s.take(i).push(s[i]),
        s.take(i + 1).drop_last() == s.take(i),
        s.take(i + 1).last() == s[i],
{
    assert(s.take(i + 1) =~= s.take(i).push(s[i]));
}


proof fn lemma_segments_push(v: Seq<BreadcrumbSegment>, x: BreadcrumbSegment)
    ensures
        segments_view(v.push(x)) == segments_view(v).push((x.label@, x.path@)),
{
    assert(segments_view(v.push(x)) =~= segments_view(v).push((x.label@, x.path@)));
}

proof fn lemma_crumbs_extend(
    root: (Seq<char>, Seq<char>),
    base: Seq<char>,
    parts: Seq<Seq<char>>,
    part: Seq<char>,
)
    ensures
        (seq![root] + Seq::new(
            parts.len(),
            |k: int| (parts[k], joined(base, parts.take(k + 1))),
        )).push((part, joined(base, parts) + seq!['/'] + part)) == seq![root] + Seq::new(
            parts.push(part).len(),
            |k: int| (parts.push(part)[k], joined(base, parts.push(part).take(k + 1))),
        ),
{
    let np = parts.push(part);
    assert(np.drop_last() == parts);
    assert(np.take(np.len() as int) == np);
    assert forall|k: int| 0 <= k < parts.len() implies #[trigger] np.take(k + 1) == parts.take(
        k + 1,
    ) by {
        assert(np.take(k + 1) =~= parts.take(k + 1));
    }
    let lhs = (seq![root] + Seq::new(
        parts.len(),
        |k: int| (parts[k], joined(base, parts.take(k + 1))),
    )).push((part, joined(base, parts) + seq!['/'] + part));
    let rhs = seq![root] + Seq::new(
        np.len(),
        |k: int| (np[k], joined(base, np.take(k + 1))),
    );
    assert(lhs.len() == rhs.len());
    assert forall|j: int| 0 <= j < lhs.len() implies lhs[j] == rhs[j] by {
        if j > 0 && j < lhs.len() - 1 {
            assert(np.take(j - 1 + 1) == parts.take(j - 1 + 1));
        }
    }
    assert(lhs =~= rhs);
}

/// Builds the breadcrumb bar for `path`.
pub fn breadcrumb_for_path(path: &str) -> (segs: Vec<BreadcrumbSegment>)
    ensures
        segments_view(segs@) == breadcrumb_of(path@),
{
    let p = chars_of(path);
    let computers = chars_of("/computers");
    let computers_dir = chars_of("/computers/");
    proof {
        reveal_strlit("/computers");
        reveal_strlit("/computers/");
        reveal_strlit("Computers");
        reveal_strlit("My Files");
        reveal_strlit("/");
    }
    let is_comp = crate::text::same_chars(&p, &computers) || (p.len() >= 11 && {
        let mut head: Vec<char> = Vec::new();
        push_range(&mut head, &p, 0, 11);
        proof {
            assert(p@.subrange(0, 11) == p@.take(11));
            assert(head@ == p@.take(11));
        }
        crate::text::same_chars(&head, &computers_dir)
    });
    let mut segs: Vec<BreadcrumbSegment> = Vec::new();
    let root_label = if is_comp { chars_of("Computers") } else { chars_of("My Files") };
    let root_path = if is_comp { computers.clone() } else { chars_of("/") };
    segs.push(segment(&root_label, &root_path));
    // the part below the root
    let mut start: usize = if is_comp { 10 } else { 0 };
    proof {
        if is_comp {
            assert(p@.len() >= 10);
        }
        assert(p@.skip(start as int) == (if in_computers(p@) { p@.skip(10) } else { p@ }));
    }
    while start < p.len() && p[start] == '/'
        invariant
            start <= p.len(),
            trim_start_slashes(p@.skip(start as int)) == below_root(p@),
        decreases p.len() - start,
    {
        proof {
            assert(p@.skip(start as int).drop_first() == p@.skip(start + 1));
        }
        start = start + 1;
    }
    proof {
        assert(trim_start_slashes(p@.skip(start as int)) == p@.skip(start as int));
    }
    let ghost rel = p@.skip(start as int);
    let ghost base = crumb_base(p@);
    let ghost root_pair = if in_computers(p@) {
        ("Computers"@, "/computers"@)
    } else {
        ("My Files"@, "/"@)
    };
    let mut current: Vec<char> = if is_comp { computers.clone() } else { Vec::new() };
    let mut part: Vec<char> = Vec::new();
    let mut i: usize = start;
    proof {
        assert(rel.take(0) == Seq::<char>::empty());
        assert(segments_view(segs@) =~= seq![root_pair] + Seq::new(
            closed_parts(rel.take(0)).len(),
            |k: int| (closed_parts(rel.take(0))[k], joined(base, closed_parts(rel.take(0)).take(k + 1))),
        ));
    }
    while i < p.len()
        invariant
            start <= i <= p.len(),
            rel == p@.skip(start as int),
            part@ == open_part(rel.take(i - start)),
            current@ == joined(base, closed_parts(rel.take(i - start))),
            segments_view(segs@) == seq![root_pair] + Seq::new(
                closed_parts(rel.take(i - start)).len(),
                |k: int| (closed_parts(rel.take(i - start))[k], joined(base, closed_parts(rel.take(i - start)).take(k + 1))),
            ),
        decreases p.len() - i,
    {
        let c = p[i];
        let ghost pre = rel.take(i - start);
        let ghost cur_parts = closed_parts(pre);
        proof {
            lemma_take_push(rel, i - start);
            assert(rel[i - start] == c);
        }
        if c == '/' {
            if part.len() > 0 {
                current.push('/');
                push_range(&mut current, &part, 0, part.len());
                proof {
                    assert(part@.subrange(0, part.len() as int) == part@);
                    let np = cur_parts.push(part@);
                    assert(np.drop_last() == cur_parts);
                    assert(joined(base, np) == current@);
                }
                let seg = segment(&part, &current);
                proof {
                    lemma_segments_push(segs@, seg);
                    lemma_crumbs_extend(root_pair, base, cur_parts, part@);
                }
                segs.push(seg);
                part = Vec::new();
            } else {
                proof {
                    assert(closed_parts(rel.take(i + 1 - start)) == cur_parts);
                }
            }
        } else {
            part.push(c);
            proof {
                assert(closed_parts(rel.take(i + 1 - start)) == cur_parts);
            }
        }
        i = i + 1;
    }
    proof {
        assert(rel.take(i - start) == rel);
    }
    if part.len() > 0 {
        let ghost cur_parts = closed_parts(rel);
        current.push('/');
        push_range(&mut current, &part, 0, part.len());
        proof {
            assert(part@.subrange(0, part.len() as int) == part@);
            let np = cur_parts.push(part@);
            assert(np.drop_last() == cur_parts);
            assert(joined(base, np) == current@);
        }
        let seg = segment(&part, &current);
        proof {
            lemma_segments_push(segs@, seg);
            lemma_crumbs_extend(root_pair, base, cur_parts, part@);
        }
        segs.push(seg);
    }
    segs
}

/// The labels of a breadcrumb bar, in order.
pub open spec fn crumb_labels(v: Seq<(Seq<char>, Seq<char>)>) -> Seq<Seq<char>> {
    v.map_values(|x: (Seq<char>, Seq<char>)| x.0)
}

proof fn lemma_parts_after_leading_slash(s: Seq<char>)
    ensures
        open_part(seq!['/'] + s) == open_part(s),
        closed_parts(seq!['/'] + s) == closed_parts(s),
    decreases s.len(),
{
    let t = seq!['/'] + s;
    if s.len() == 0 {
        assert(t.drop_last() =~= Seq::<char>::empty());
        assert(t.last() == '/');
        assert(open_part(t.drop_last()).len() == 0);
        assert(closed_parts(t) == closed_parts(t.drop_last()));
    } else {
        assert(t.drop_last() =~= seq!['/'] + s.drop_last());
        assert(t.last() == s.last());
        lemma_parts_after_leading_slash(s.drop_last());
        if s.last() == '/' {
            assert(closed_parts(s) == (if open_part(s.drop_last()).len() > 0 {
                closed_parts(s.drop_last()).push(open_part(s.drop_last()))
            } else {
                closed_parts(s.drop_last())
            }));
            assert(closed_parts(t) == (if open_part(t.drop_last()).len() > 0 {
                closed_parts(t.drop_last()).push(open_part(t.drop_last()))
            } else {
                closed_parts(t.drop_last())
            }));
        } else {
            assert(closed_parts(t) == closed_parts(t.drop_last()));
            assert(closed_parts(s) == closed_parts(s.drop_last()));
        }
    }
}

proof fn lemma_parts_trim_start(s: Seq<char>)
    ensures
        path_parts(crate::paths::trim_start_slashes(s)) == path_parts(s),
    decreases s.len(),
{
    if s.len() > 0 && s[0] == '/' {
        assert(s =~= seq!['/'] + s.drop_first());
        lemma_parts_after_leading_slash(s.drop_first());
        lemma_parts_trim_start(s.drop_first());
    }
}

proof fn lemma_parts_trim_end(s: Seq<char>)
    ensures
        path_parts(crate::paths::trim_end_slashes(s)) == path_parts(s),
    decreases s.len(),
{
    if s.len() > 0 && s.last() == '/' {
        lemma_parts_trim_end(s.drop_last());
    }
}

proof fn lemma_parts_append_no_slash(s: Seq<char>, m: Seq<char>)
    requires
        crate::paths::no_slash(m),
    ensures
        closed_parts(s + m) == closed_parts(s),
        open_part(s + m) == open_part(s) + m,
    decreases m.len(),
{
    if m.len() == 0 {
        assert(s + m =~= s);
        assert(open_part(s) + m =~= open_part(s));
    } else {
        let mp = m.drop_last();
        assert(crate::paths::no_slash(mp)) by {
            assert forall|j: int| 0 <= j < mp.len() implies #[trigger] mp[j] != '/' by {
                assert(mp[j] == m[j]);
            }
        }
        assert(m[m.len() - 1] != '/');
        lemma_parts_append_no_slash(s, mp);
        assert((s + m).drop_last() =~= s + mp);
        assert((s + m).last() == m.last());
        assert(open_part(s) + m =~= (open_part(s) + mp).push(m.last()));
    }
}

proof fn lemma_parts_push_name(s: Seq<char>, n: Seq<char>)
    requires
        n.len() > 0,
        crate::paths::no_slash(n),
    ensures
        path_parts(s + seq!['/'] + n) == path_parts(s).push(n),
{
    let s1 = s + seq!['/'];
    assert(s1.drop_last() =~= s);
    assert(s1.last() == '/');
    assert(open_part(s1) == Seq::<char>::empty());
    assert(closed_parts(s1) == path_parts(s));
    lemma_parts_append_no_slash(s1, n);
    assert(s + seq!['/'] + n =~= s1 + n);
    assert(open_part(s1) + n =~= n);
}

proof fn lemma_trim_end_rest(p: Seq<char>, j: int)
    requires
        crate::paths::trim_end_slashes(p).len() <= j < p.len(),
    ensures
        p[j] == '/',
    decreases p.len(),
{
    if p.len() > 0 && p.last() == '/' {
        if j < p.len() - 1 {
            lemma_trim_end_rest(p.drop_last(), j);
        }
    }
}

proof fn lemma_skip_trim(p: Seq<char>, k: int)
    requires
        0 <= k <= crate::paths::trim_end_slashes(p).len(),
    ensures
        crate::paths::trim_end_slashes(p.skip(k)) == crate::paths::trim_end_slashes(p).skip(k),
    decreases p.len(),
{
    if p.len() > 0 && p.last() == '/' {
        crate::paths::lemma_trim_end_is_prefix(p.drop_last());
        assert(p.skip(k).drop_last() =~= p.drop_last().skip(k));
        if p.skip(k).len() > 0 {
            assert(p.skip(k).last() == '/');
        }
        lemma_skip_trim(p.drop_last(), k);
    } else {
        if p.skip(k).len() > 0 {
            assert(p.skip(k).last() == p.last());
        }
    }
}

/// Opening an entry that a listing recorded adds its name to the end of
/// the breadcrumb bar, and leaves the labels before it as they were. The
/// one exception is a root entry named `computers`: its path is the
/// devices section's own path.
pub proof fn law_breadcrumb_of_child(p: Seq<char>, n: Seq<char>)
    requires
        n.len() > 0,
        crate::paths::no_slash(n),
        !(crate::paths::trim_end_slashes(p).len() == 0 && n == "computers"@),
    ensures
        crumb_labels(breadcrumb_of(crate::paths::child_path_of(p, n))) == crumb_labels(
            breadcrumb_of(p),
        ).push(n),
{
    reveal_strlit("/computers");
    reveal_strlit("/computers/");
    reveal_strlit("computers");
    let t = crate::paths::trim_end_slashes(p);
    let c = crate::paths::child_path_of(p, n);
    crate::paths::lemma_trim_end_is_prefix(p);
    // the child's path is the trimmed parent, a `/`, and the name
    assert(c == t + seq!['/'] + n) by {
        if crate::paths::is_root_path(p) {
            if p.len() == 1 {
                assert(p.last() == '/');
                assert(p.drop_last().len() == 0);
            }
            assert(t.len() == 0);
            assert(t + seq!['/'] + n =~= seq!['/'] + n);
        }
    }
    let comp = "/computers/"@;
    // the child lies in the devices section exactly when the parent does
    assert(in_computers(c) == in_computers(p)) by {
        if in_computers(p) {
            if p == "/computers"@ {
                assert(t == p);
            } else {
                assert(p.take(11)[9] == p[9]);
                assert(p[9] == 's');
                if t.len() <= 9 {
                    lemma_trim_end_rest(p, 9);
                }
                assert(t.len() >= 10);
                assert(t.take(10) == p.take(10));
            }
            assert(t.len() >= 10 && t.take(10) == "/computers"@);
            assert(c.len() >= 11);
            assert(c.take(11) =~= comp) by {
                assert forall|i: int| 0 <= i < 11 implies c.take(11)[i] == comp[i] by {
                    if i < 10 {
                        assert(c[i] == t[i]);
                        assert(t[i] == t.take(10)[i]);
                    } else {
                        if t.len() == 10 {
                            assert(c[10] == '/');
                        } else {
                            assert(c[10] == t[10]);
                            assert(t[10] == p[10]);
                            assert(p.take(11)[10] == comp[10]);
                        }
                    }
                }
            }
        } else {
            if in_computers(c) {
                if c == "/computers"@ {
                    assert(c[0] == '/');
                    if t.len() > 0 {
                        assert(t[0] == p[0]);
                        assert(t.len() < 10);
                        assert(c[t.len() as int] == '/');
                        assert("/computers"@[t.len() as int] != '/');
                    } else {
                        assert(n =~= c.skip(1));
                        assert(c.skip(1) =~= "computers"@);
                    }
                } else {
                    assert(c.take(11) == comp);
                    if t.len() >= 11 {
                        assert forall|i: int| 0 <= i < 11 implies p.take(11)[i] == comp[i] by {
                            assert(c[i] == t[i]);
                            assert(c.take(11)[i] == c[i]);
                        }
                        assert(p.take(11) =~= comp);
                    } else if t.len() == 10 {
                        assert forall|i: int| 0 <= i < 10 implies p[i] == "/computers"@[i] by {
                            assert(c[i] == t[i]);
                            assert(c.take(11)[i] == c[i]);
                        }
                        if p.len() == 10 {
                            assert(p =~= "/computers"@);
                        } else {
                            lemma_trim_end_rest(p, 10);
                            assert(p.take(11) =~= comp);
                        }
                    } else {
                        assert(c[t.len() as int] == '/');
                        assert(c.take(11)[t.len() as int] == c[t.len() as int]);
                        if t.len() == 0 {
                            assert(c.skip(1) =~= n);
                            assert(c[1] == n[0]);
                            assert(c.take(11)[1] == comp[1]);
                            assert(c[10] == comp[10]) by {
                                assert(c.take(11)[10] == c[10]);
                            }
                            assert(n[9] == '/');
                        }
                    }
                }
            }
        }
    }
    if in_computers(p) {
        assert(t.len() >= 10) by {
            if p != "/computers"@ {
                assert(p.take(11)[9] == p[9]);
                assert(p[9] == 's');
                if t.len() <= 9 {
                    lemma_trim_end_rest(p, 9);
                }
            } else {
                assert(t == p);
            }
        }
        let a = t.skip(10);
        lemma_skip_trim(p, 10);
        assert(crate::paths::trim_end_slashes(p.skip(10)) == a);
        lemma_parts_trim_start(p.skip(10));
        lemma_parts_trim_end(p.skip(10));
        assert(c.skip(10) =~= a + seq!['/'] + n);
        lemma_parts_trim_start(c.skip(10));
        lemma_parts_push_name(a, n);
    } else {
        lemma_parts_trim_start(p);
        lemma_parts_trim_end(p);
        lemma_parts_trim_start(c);
        lemma_parts_push_name(t, n);
    }
    let pp = path_parts(below_root(p));
    let cp = path_parts(below_root(c));
    assert(cp == pp.push(n));
    assert(crumb_labels(breadcrumb_of(p)) =~= seq![breadcrumb_of(p)[0].0] + pp);
    assert(crumb_labels(breadcrumb_of(c)) =~= seq![breadcrumb_of(c)[0].0] + cp);
    assert(breadcrumb_of(p)[0].0 == breadcrumb_of(c)[0].0);
    assert(seq![breadcrumb_of(p)[0].0] + pp.push(n) =~= (seq![breadcrumb_of(p)[0].0] + pp).push(n));
}

proof fn lemma_open_part_no_slash(s: Seq<char>)
    ensures
        crate::paths::no_slash(open_part(s)),
    decreases s.len(),
{
    if s.len() > 0 && s.last() != '/' {
        lemma_open_part_no_slash(s.drop_last());
        let o = open_part(s.drop_last());
        assert forall|j: int| 0 <= j < o.push(s.last()).len() implies #[trigger] o.push(s.last())[j]
            != '/' by {
            if j < o.len() {
                assert(o.push(s.last())[j] == o[j]);
            }
        }
    }
}

proof fn lemma_parts_well_formed(s: Seq<char>)
    ensures
        forall|i: int|
            0 <= i < path_parts(s).len() ==> (#[trigger] path_parts(s)[i]).len() > 0
                && crate::paths::no_slash(path_parts(s)[i]),
        forall|i: int|
            0 <= i < closed_parts(s).len() ==> (#[trigger] closed_parts(s)[i]).len() > 0
                && crate::paths::no_slash(closed_parts(s)[i]),
    decreases s.len(),
{
    lemma_open_part_no_slash(s);
    let cs = closed_parts(s);
    if s.len() > 0 {
        let pre = s.drop_last();
        lemma_parts_well_formed(pre);
        lemma_open_part_no_slash(pre);
        let cp = closed_parts(pre);
        if s.last() == '/' && open_part(pre).len() > 0 {
            assert(cs == cp.push(open_part(pre)));
            assert forall|i: int| 0 <= i < cs.len() implies (#[trigger] cs[i]).len() > 0
                && crate::paths::no_slash(cs[i]) by {
                if i < cp.len() {
                    assert(cs[i] == cp[i]);
                }
            }
        } else {
            assert(cs == cp);
        }
    }
    let ps = path_parts(s);
    if open_part(s).len() > 0 {
        assert(ps == cs.push(open_part(s)));
        assert forall|i: int| 0 <= i < ps.len() implies (#[trigger] ps[i]).len() > 0
            && crate::paths::no_slash(ps[i]) by {
            if i < cs.len() {
                assert(ps[i] == cs[i]);
            }
        }
    } else {
        assert(ps == cs);
    }
}

proof fn lemma_joined_base(base: Seq<char>, ps: Seq<Seq<char>>)
    ensures
        joined(base, ps) == base + joined(Seq::empty(), ps),
    decreases ps.len(),
{
    if ps.len() > 0 {
        lemma_joined_base(base, ps.drop_last());
        assert(base + joined(Seq::empty(), ps.drop_last()) + seq!['/'] + ps.last() =~= base + (
        joined(Seq::empty(), ps.drop_last()) + seq!['/'] + ps.last()));
    } else {
        assert(base + Seq::<char>::empty() =~= base);
    }
}

proof fn lemma_joined_starts_with_slash(ps: Seq<Seq<char>>)
    requires
        ps.len() > 0,
    ensures
        joined(Seq::empty(), ps).len() > 0,
        joined(Seq::empty(), ps)[0] == '/',
    decreases ps.len(),
{
    let d = ps.drop_last();
    if d.len() > 0 {
        lemma_joined_starts_with_slash(d);
        assert((joined(Seq::empty(), d) + seq!['/'] + ps.last())[0] == joined(Seq::empty(), d)[0]);
    } else {
        assert((joined(Seq::<char>::empty(), d) + seq!['/'] + ps.last())[0] == '/');
    }
}

proof fn lemma_joined_front(ps: Seq<Seq<char>>)
    requires
        ps.len() > 0,
    ensures
        joined(Seq::empty(), ps) == seq!['/'] + ps[0] + joined(Seq::empty(), ps.drop_first()),
    decreases ps.len(),
{
    let e = Seq::<char>::empty();
    if ps.len() == 1 {
        assert(ps.drop_first().len() == 0);
        assert(ps.drop_last().len() == 0);
        assert(joined(e, ps.drop_last()) == e);
        assert(joined(e, ps.drop_first()) == e);
        assert(ps.last() == ps[0]);
        assert(joined(e, ps) == joined(e, ps.drop_last()) + seq!['/'] + ps.last());
        assert(joined(e, ps) =~= seq!['/'] + ps[0] + joined(e, ps.drop_first()));
    } else {
        let d = ps.drop_last();
        let f = ps.drop_first();
        lemma_joined_front(d);
        assert(d[0] == ps[0]);
        assert(d.drop_first() =~= f.drop_last());
        assert(f.last() == ps.last());
        assert(joined(e, ps) == joined(e, d) + seq!['/'] + ps.last());
        assert(joined(e, f) == joined(e, f.drop_last()) + seq!['/'] + f.last());
        assert(joined(e, ps) =~= seq!['/'] + ps[0] + joined(e, f));
    }
}

proof fn lemma_parts_of_joined(ps: Seq<Seq<char>>)
    requires
        forall|i: int| 0 <= i < ps.len() ==> (#[trigger] ps[i]).len() > 0 && crate::paths::no_slash(ps[i]),
    ensures
        path_parts(joined(Seq::empty(), ps)) == ps,
    decreases ps.len(),
{
    if ps.len() > 0 {
        let d = ps.drop_last();
        assert forall|i: int| 0 <= i < d.len() implies (#[trigger] d[i]).len() > 0
            && crate::paths::no_slash(d[i]) by {
            assert(d[i] == ps[i]);
        }
        lemma_parts_of_joined(d);
        assert(ps[ps.len() - 1].len() > 0);
        lemma_parts_push_name(joined(Seq::empty(), d), ps.last());
        assert(d.push(ps.last()) =~= ps);
    } else {
        assert(path_parts(Seq::<char>::empty()) =~= Seq::<Seq<char>>::empty());
    }
}

proof fn lemma_parts_front(a: Seq<char>, t: Seq<char>)
    requires
        a.len() > 0,
        crate::paths::no_slash(a),
        t.len() > 0,
        t[0] == '/',
    ensures
        closed_parts(a + t) == seq![a] + closed_parts(t),
        open_part(a + t) == open_part(t),
    decreases t.len(),
{
    lemma_parts_append_no_slash(Seq::empty(), a);
    assert(Seq::<char>::empty() + a =~= a);
    assert(Seq::<char>::empty() + a =~= a);
    let td = t.drop_last();
    assert((a + t).drop_last() =~= a + td);
    assert((a + t).last() == t.last());
    if t.len() == 1 {
        assert(td.len() == 0);
        assert(a + td =~= a);
        assert(t.last() == '/');
        assert(closed_parts(t) == closed_parts(td));
        assert(seq![a] + Seq::<Seq<char>>::empty() =~= seq![a]);
        assert(Seq::<Seq<char>>::empty().push(a) =~= seq![a]);
    } else {
        assert(td[0] == '/');
        lemma_parts_front(a, td);
        if t.last() == '/' {
            if open_part(td).len() > 0 {
                assert((seq![a] + closed_parts(td)).push(open_part(td)) =~= seq![a] + closed_parts(
                    td,
                ).push(open_part(td)));
            }
        }
    }
}

proof fn lemma_first_slash(s: Seq<char>) -> (k: int)
    ensures
        0 <= k <= s.len(),
        crate::paths::no_slash(s.take(k)),
        k == s.len() || s[k] == '/',
    decreases s.len(),
{
    if s.len() == 0 || s[0] == '/' {
        0
    } else {
        let k1 = lemma_first_slash(s.drop_first());
        assert forall|j: int| 0 <= j < k1 + 1 implies #[trigger] s.take(k1 + 1)[j] != '/' by {
            if j > 0 {
                assert(s.take(k1 + 1)[j] == s.drop_first().take(k1)[j - 1]);
            }
        }
        if k1 < s.drop_first().len() {
            assert(s[k1 + 1] == s.drop_first()[k1]);
        }
        k1 + 1
    }
}

/// Following the last segment of the breadcrumb bar leads back to the
/// same bar, for a path that starts with one `/`.
pub proof fn law_breadcrumb_rebuild(p: Seq<char>)
    requires
        p.len() > 0,
        p[0] == '/',
        !(p.len() > 1 && p[1] == '/'),
    ensures
        breadcrumb_of(breadcrumb_of(p).last().1) == breadcrumb_of(p),
{
    reveal_strlit("/computers");
    reveal_strlit("/computers/");
    reveal_strlit("/");
    reveal_strlit("computers");
    let e = Seq::<char>::empty();
    let b = breadcrumb_of(p);
    let parts = path_parts(below_root(p));
    let base = crumb_base(p);
    lemma_parts_well_formed(below_root(p));
    let q = b.last().1;
    if parts.len() > 0 {
        assert(parts.take(parts.len() as int) == parts);
        assert(q == joined(base, parts));
        lemma_joined_base(base, parts);
        lemma_joined_starts_with_slash(parts);
        lemma_parts_of_joined(parts);
    }
    let j = joined(e, parts);
    // the last path lies in the same section as p, with the same pieces
    if in_computers(p) {
        if parts.len() == 0 {
            assert(q == "/computers"@);
            assert(q.skip(10).len() == 0);
            assert(below_root(q) == e);
            assert(path_parts(e) =~= Seq::<Seq<char>>::empty());
        } else {
            assert(q == "/computers"@ + j);
            assert(q.take(11) =~= "/computers/"@) by {
                assert forall|i: int| 0 <= i < 11 implies q.take(11)[i] == "/computers/"@[i] by {
                    if i == 10 {
                        assert(q[10] == j[0]);
                    }
                }
            }
            assert(in_computers(q));
            assert(q.skip(10) =~= j);
            lemma_parts_trim_start(j);
        }
    } else {
        let rel = below_root(p);
        assert(rel == p.skip(1)) by {
            let r = p.drop_first();
            assert(trim_start_slashes(p) == trim_start_slashes(r));
            if r.len() > 0 {
                assert(r[0] == p[1]);
            }
            assert(trim_start_slashes(r) == r);
            assert(r =~= p.skip(1));
        }
        if parts.len() == 0 {
            assert(q == "/"@);
            assert(!in_computers(q));
            assert(q.drop_first() =~= e);
            assert(trim_start_slashes(q) == trim_start_slashes(q.drop_first()));
            assert(trim_start_slashes(e) == e);
            assert(below_root(q) == e);
            assert(path_parts(e) =~= Seq::<Seq<char>>::empty());
        } else {
            assert(q == j);
            lemma_parts_trim_start(j);
            // the last path is not the devices section
            if in_computers(q) {
                let p0 = parts[0];
                lemma_joined_front(parts);
                let r = joined(e, parts.drop_first());
                if parts.drop_first().len() > 0 {
                    lemma_joined_starts_with_slash(parts.drop_first());
                }
                assert(q =~= seq!['/'] + p0 + r);
                assert(q.take(10) =~= "/computers"@) by {
                    if q.len() == 10 {
                        assert(q == "/computers"@);
                    } else {
                        assert(q.take(11) == "/computers/"@);
                        assert forall|i: int| 0 <= i < 10 implies q.take(10)[i] == "/computers"@[i] by {
                            assert(q.take(11)[i] == q[i]);
                        }
                    }
                }
                assert(q.len() == 10 || q[10] == '/') by {
                    if q.len() != 10 {
                        assert(q.take(11)[10] == q[10]);
                    }
                }
                // the first piece is `computers`
                assert(p0.len() == 9) by {
                    if p0.len() < 9 {
                        if r.len() == 0 {
                            assert(q.len() < 10);
                        } else {
                            assert(q[1 + p0.len() as int] == r[0]);
                            assert(q.take(10)[1 + p0.len() as int] == q[1 + p0.len() as int]);
                        }
                    } else if p0.len() > 9 {
                        assert(q[10] == p0[9]);
                    }
                }
                assert(p0 =~= "computers"@) by {
                    assert forall|i: int| 0 <= i < 9 implies p0[i] == "computers"@[i] by {
                        assert(q[i + 1] == p0[i]);
                        assert(q.take(10)[i + 1] == q[i + 1]);
                    }
                }
                // so p itself is in the devices section
                assert(rel.len() > 0 && rel[0] != '/') by {
                    if rel.len() == 0 {
                        assert(path_parts(rel) =~= Seq::<Seq<char>>::empty());
                    }
                }
                let k = lemma_first_slash(rel);
                let a = rel.take(k);
                let t = rel.skip(k);
                assert(rel =~= a + t);
                assert(k > 0);
                if t.len() == 0 {
                    assert(a + t =~= a);
                    lemma_parts_append_no_slash(e, a);
                    assert(e + a =~= a);
                    assert(path_parts(rel) =~= seq![a]);
                } else {
                    lemma_parts_front(a, t);
                    assert(path_parts(rel) =~= seq![a] + path_parts(t));
                }
                assert(a == p0);
                assert(k == 9);
                if t.len() == 0 {
                    assert(p =~= "/computers"@) by {
                        assert forall|i: int| 0 <= i < p.len() implies p[i] == "/computers"@[i] by {
                            if i > 0 {
                                assert(p[i] == rel[i - 1]);
                                assert(rel[i - 1] == a[i - 1]);
                            }
                        }
                    }
                } else {
                    assert(p.take(11) =~= "/computers/"@) by {
                        assert forall|i: int| 0 <= i < 11 implies p.take(11)[i] == "/computers/"@[i] by {
                            if i > 0 && i < 10 {
                                assert(p[i] == rel[i - 1]);
                                assert(rel[i - 1] == a[i - 1]);
                            } else if i == 10 {
                                assert(p[10] == rel[9]);
                            }
                        }
                    }
                }
                assert(in_computers(p));
            }
        }
    }
    assert(in_computers(q) == in_computers(p));
    assert(path_parts(below_root(q)) == parts);
    assert(breadcrumb_of(q) =~= b);
}

/// A byte count as the file list shows it: one decimal in GB or MB when
/// it reaches one of them, otherwise in KB (also below one KiB).
pub open spec fn list_size_text(bytes: nat) -> Seq<char> {
    if bytes >= GIB {
        one_decimal_text(bytes, GIB as nat, seq!['G', 'B'])
    } else if bytes >= MIB {
        one_decimal_text(bytes, MIB as nat, seq!['M', 'B'])
    } else {
        one_decimal_text(bytes, KIB as nat, seq!['K', 'B'])
    }
}

/// `human_size` of the front end: `format!("{:.1} GB", ..)`, `MB`, and
/// `KB` for everything below one MiB.
pub fn human_size(bytes: u64) -> (s: String)
    ensures
        s@ == list_size_text(bytes as nat),
{
    if bytes >= GIB {
        let r = one_decimal(bytes, GIB, "GB");
        proof {
            reveal_strlit("GB");
        }
        r
    } else if bytes >= MIB {
        let r = one_decimal(bytes, MIB, "MB");
        proof {
            reveal_strlit("MB");
        }
        r
    } else {
        let r = one_decimal(bytes, KIB, "KB");
        proof {
            reveal_strlit("KB");
        }
        r
    }
}

/// The status line under the file list: `N item` for one entry,
/// `N items` otherwise.
pub open spec fn items_text(count: nat) -> Seq<char> {
    decimal(count) + " item"@ + (if count == 1 { Seq::<char>::empty() } else { seq!['s'] })
}

/// Builds the status line for a listing of `count` entries.
pub fn items_status(count: usize) -> (s: String)
    ensures
        s@ == items_text(count as nat),
{
    let mut out: Vec<char> = Vec::new();
    push_decimal(count as u128, &mut out);
    push_str(&mut out, " item");
    if count != 1 {
        out.push('s');
    }
    proof {
        assert(Seq::<char>::empty() + decimal(count as nat) == decimal(count as nat));
        if count == 1 {
            assert(out@ == items_text(count as nat));
        }
    }
    string_of(&out)
}

/// Unicode `White_Space` (what `char::is_whitespace` tests).
pub open spec fn is_white_space(c: char) -> bool {
    let u = c as u32;
    ||| 0x9 <= u <= 0xd
    ||| u == 0x20
    ||| u == 0x85
    ||| u == 0xa0
    ||| u == 0x1680
    ||| 0x2000 <= u <= 0x200a
    ||| u == 0x2028
    ||| u == 0x2029
    ||| u == 0x202f
    ||| u == 0x205f
    ||| u == 0x3000
}

fn is_white_space_exec(c: char) -> (b: bool)
    ensures
        b == is_white_space(c),
{
    let u = c as u32;
    (0x9 <= u && u <= 0xd) || u == 0x20 || u == 0x85 || u == 0xa0 || u == 0x1680 || (0x2000
        <= u && u <= 0x200a) || u == 0x2028 || u == 0x2029 || u == 0x202f || u == 0x205f || u
        == 0x3000
}

/// `s` without leading white space.
pub open spec fn trim_ws_start(s: Seq<char>) -> Seq<char>
    decreases s.len(),
{
    if s.len() > 0 && is_white_space(s[0]) {
        trim_ws_start(s.drop_first())
    } else {
        s
    }
}

/// `s` without trailing white space.
pub open spec fn trim_ws_end(s: Seq<char>) -> Seq<char>
    decreases s.len(),
{
    if s.len() > 0 && is_white_space(s.last()) {
        trim_ws_end(s.drop_last())
    } else {
        s
    }
}

/// `str::trim`: `s` without white space at either end.
pub open spec fn trim_ws(s: Seq<char>) -> Seq<char> {
    trim_ws_end(trim_ws_start(s))
}

/// The stored dark-mode flag: on exactly when the file could be read and
/// its trimmed text is `true`.
pub open spec fn dark_mode_of(contents: Option<Seq<char>>) -> bool {
    match contents {
        Some(t) => trim_ws(t) == "true"@,
        None => false,
    }
}

/// The characters of `v` without white space at either end.
pub fn trim_chars(v: &Vec<char>) -> (t: Vec<char>)
    ensures
        t@ == trim_ws(v@),
{
    let mut a: usize = 0;
    proof {
        assert(v@.skip(0) == v@);
    }
    while a < v.len() && is_white_space_exec(v[a])
        invariant
            a <= v.len(),
            trim_ws_start(v@.skip(a as int)) == trim_ws_start(v@),
        decreases v.len() - a,
    {
        proof {
            assert(v@.skip(a as int).drop_first() == v@.skip(a + 1));
        }
        a = a + 1;
    }
    proof {
        assert(trim_ws_start(v@.skip(a as int)) == v@.skip(a as int));
    }
    let mut b: usize = v.len();
    proof {
        assert(v@.subrange(a as int, b as int) == v@.skip(a as int));
    }
    while b > a && is_white_space_exec(v[b - 1])
        invariant
            a <= b <= v.len(),
            trim_ws_end(v@.subrange(a as int, b as int)) == trim_ws(v@),
        decreases b,
    {
        proof {
            assert(v@.subrange(a as int, b as int).drop_last() == v@.subrange(a as int, b - 1));
        }
        b = b - 1;
    }
    let mut t: Vec<char> = Vec::new();
    push_range(&mut t, v, a, b);
    proof {
        assert(trim_ws_end(v@.subrange(a as int, b as int)) == v@.subrange(a as int, b as int));
    }
    t
}

/// Reads the dark-mode flag from the text of its file (`None` when the
/// file could not be read).
pub fn dark_mode_from(contents: Option<String>) -> (dark: bool)
    ensures
        dark == dark_mode_of(match contents {
            Some(t) => Some(t@),
            None => None,
        }),
{
    match contents {
        None => false,
        Some(t) => {
            let v = chars_of(t.as_str());
            let trimmed = trim_chars(&v);
            let word = chars_of("true");
            crate::text::same_chars(&trimmed, &word)
        },
    }
}

/// `text.split('\n')`: the pieces of `text` between line feeds.
pub open spec fn split_lines(text: Seq<char>) -> Seq<Seq<char>>
    decreases text.len(),
{
    if text.len() == 0 {
        seq![Seq::empty()]
    } else if text.last() == '\n' {
        split_lines(text.drop_last()).push(Seq::empty())
    } else {
        let p = split_lines(text.drop_last());
        p.update(p.len() - 1, p.last().push(text.last()))
    }
}

/// The first of `lines` that is not blank, trimmed.
pub open spec fn first_nonblank(lines: Seq<Seq<char>>) -> Option<Seq<char>>
    decreases lines.len(),
{
    if lines.len() == 0 {
        None
    } else if trim_ws(lines[0]).len() > 0 {
        Some(trim_ws(lines[0]))
    } else {
        first_nonblank(lines.drop_first())
    }
}

proof fn lemma_split_lines_nonempty(text: Seq<char>)
    ensures
        split_lines(text).len() >= 1,
    decreases text.len(),
{
    if text.len() > 0 {
        lemma_split_lines_nonempty(text.drop_last());
    }
}

/// The token the verification window prints: its first non-blank output
/// line, trimmed (what `lines().find(..)` and `trim()` give, as a `\r`
/// before a line feed is white space).
pub fn captcha_token(output: &str) -> (t: Option<String>)
    ensures
        match t {
            Some(s) => first_nonblank(split_lines(output@)) == Some(s@),
            None => first_nonblank(split_lines(output@)) is None,
        },
{
    let v = chars_of(output);
    let mut lines: Vec<Vec<char>> = Vec::new();
    let mut cur: Vec<char> = Vec::new();
    let mut i: usize = 0;
    proof {
        assert(v@.take(0) == Seq::<char>::empty());
    }
    while i < v.len()
        invariant
            i <= v.len(),
            lines@.map_values(|l: Vec<char>| l@).push(cur@) == split_lines(v@.take(i as int)),
        decreases v.len() - i,
    {
        proof {
            assert(v@.take(i + 1).drop_last() == v@.take(i as int));
            assert(v@.take(i + 1).last() == v@[i as int]);
            lemma_split_lines_nonempty(v@.take(i as int));
        }
        if v[i] == '\n' {
            let done = cur;
            cur = Vec::new();
            proof {
                assert(lines@.push(done).map_values(|l: Vec<char>| l@) =~= lines@.map_values(
                    |l: Vec<char>| l@,
                ).push(done@));
            }
            lines.push(done);
        } else {
            cur.push(v[i]);
            proof {
                let p = split_lines(v@.take(i as int));
                assert(p.update(p.len() - 1, p.last().push(v@[i as int])) =~= lines@.map_values(
                    |l: Vec<char>| l@,
                ).push(cur@));
            }
        }
        i = i + 1;
    }
    proof {
        assert(v@.take(v.len() as int) == v@);
        assert(lines@.push(cur).map_values(|l: Vec<char>| l@) =~= lines@.map_values(
            |l: Vec<char>| l@,
        ).push(cur@));
    }
    lines.push(cur);
    let ghost all = lines@.map_values(|l: Vec<char>| l@);
    let mut k: usize = 0;
    proof {
        assert(all.skip(0) == all);
    }
    while k < lines.len()
        invariant
            k <= lines.len(),
            all == lines@.map_values(|l: Vec<char>| l@),
            all == split_lines(output@),
            first_nonblank(all) == first_nonblank(all.skip(k as int)),
        decreases lines.len() - k,
    {
        let t = trim_chars(&lines[k]);
        proof {
            assert(all.skip(k as int)[0] == lines@[k as int]@);
            assert(all.skip(k as int).drop_first() == all.skip(k + 1));
        }
        if t.len() > 0 {
            return Some(string_of(&t));
        }
        k = k + 1;
    }
    proof {
        assert(all.skip(k as int).len() == 0);
    }
    None
}

/// The text the dark-mode flag is stored as.
pub open spec fn dark_mode_stored(dark: bool) -> Seq<char> {
    if dark { "true"@ } else { "false"@ }
}

/// Writes the dark-mode flag as text.
pub fn dark_mode_text(dark: bool) -> (s: String)
    ensures
        s@ == dark_mode_stored(dark),
{
    if dark {
        "true".to_string()
    } else {
        "false".to_string()
    }
}

/// What is stored for the dark-mode flag is read back as the same flag.
pub proof fn law_dark_mode_round_trip(dark: bool)
    ensures
        dark_mode_of(Some(dark_mode_stored(dark))) == dark,
{
    reveal_strlit("true");
    reveal_strlit("false");
    let t = if dark { "true"@ } else { "false"@ };
    assert(!is_white_space(t[0]));
    assert(trim_ws_start(t) == t);
    assert(!is_white_space(t.last()));
    assert(trim_ws_end(t) == t);
    if !dark {
        assert(t.len() != "true"@.len());
    }
}

/// The status line counts in the singular only for exactly one entry:
/// `1 item`, and `N items` for every other count, `0`, `11` and `21`
/// included.
pub proof fn law_items_plural(count: nat)
    ensures
        count == 1 ==> items_text(count) == "1 item"@,
        count != 1 ==> items_text(count) == decimal(count) + " items"@,
{
    reveal_strlit(" item");
    reveal_strlit(" items");
    reveal_strlit("1 item");
    if count == 1 {
        assert(decimal(1) =~= seq!['1']);
        assert(items_text(count) =~= "1 item"@);
    } else {
        assert(items_text(count) =~= decimal(count) + " items"@);
    }
}

} // verus!
