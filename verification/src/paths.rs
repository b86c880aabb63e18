//! Remote paths as the front end and the daemon build and take apart:
//! a child's path from its folder's, a folder's parent, the name after the
//! last `/`, and the checks made before a name is used for a local file.
use vstd::prelude::*;
use crate::text::chars_of;

verus! {

/// `s` without its trailing `/` characters (`str::trim_end_matches('/')`).
pub open spec fn trim_end_slashes(s: Seq<char>) -> Seq<char>
    decreases s.len(),
{
    if s.len() > 0 && s.last() == '/' {
        trim_end_slashes(s.drop_last())
    } else {
        s
    }
}

/// `s` without its leading `/` characters (`str::trim_start_matches('/')`).
pub open spec fn trim_start_slashes(s: Seq<char>) -> Seq<char>
    decreases s.len(),
{
    if s.len() > 0 && s[0] == '/' {
        trim_start_slashes(s.drop_first())
    } else {
        s
    }
}

/// The index of the last `/` in `s` (`str::rfind('/')`).
pub open spec fn last_slash(s: Seq<char>) -> Option<int>
    decreases s.len(),
{
    if s.len() == 0 {
        None
    } else if s.last() == '/' {
        Some(s.len() - 1)
    } else {
        last_slash(s.drop_last())
    }
}

/// The text after the last `/` of `s`, or all of `s` when it has none
/// (the first item of `str::rsplit('/')`).
pub open spec fn after_last_slash(s: Seq<char>) -> Seq<char> {
    match last_slash(s) {
        Some(i) => s.skip(i + 1),
        None => s,
    }
}

/// `s` holds no `/`.
pub open spec fn no_slash(s: Seq<char>) -> bool {
    forall|i: int| 0 <= i < s.len() ==> s[i] != '/'
}

/// The path is the root of "My Files": `/` or the empty path.
pub open spec fn is_root_path(p: Seq<char>) -> bool {
    p.len() == 0 || p == seq!['/']
}

/// The path of the entry `name` inside the folder at `parent`.
pub open spec fn child_path_of(parent: Seq<char>, name: Seq<char>) -> Seq<char> {
    if is_root_path(parent) {
        seq!['/'] + name
    } else {
        trim_end_slashes(parent) + seq!['/'] + name
    }
}

/// The folder one level up from `p`; `/` when there is none.
pub open spec fn parent_path_of(p: Seq<char>) -> Seq<char> {
    let t = trim_end_slashes(p);
    match last_slash(t) {
        Some(i) => if i == 0 { seq!['/'] } else { t.take(i) },
        None => seq!['/'],
    }
}

/// A name that `Path::new(name).components()` yields as exactly one
/// normal component: no `/`, not empty, not `.` and not `..`.
pub open spec fn is_plain_file_name(n: Seq<char>) -> bool {
    &&& no_slash(n)
    &&& n.len() > 0
    &&& n != seq!['.']
    &&& n != seq!['.', '.']
}

pub proof fn lemma_trim_end_is_prefix(s: Seq<char>)
    ensures
        trim_end_slashes(s).len() <= s.len(),
        trim_end_slashes(s) == s.take(trim_end_slashes(s).len() as int),
        trim_end_slashes(s).len() == 0 || trim_end_slashes(s).last() != '/',
    decreases s.len(),
{
    if s.len() > 0 && s.last() == '/' {
        lemma_trim_end_is_prefix(s.drop_last());
        assert(s.drop_last().take(trim_end_slashes(s).len() as int) == s.take(
            trim_end_slashes(s).len() as int,
        ));
    } else {
        assert(s.take(s.len() as int) == s);
    }
}

proof fn lemma_last_slash_bounds(s: Seq<char>)
    ensures
        match last_slash(s) {
            Some(i) => 0 <= i < s.len() && s[i] == '/' && no_slash(s.skip(i + 1)),
            None => no_slash(s),
        },
    decreases s.len(),
{
    if s.len() > 0 {
        if s.last() == '/' {
            assert(s.skip(s.len() as int).len() == 0);
        } else {
            lemma_last_slash_bounds(s.drop_last());
            match last_slash(s.drop_last()) {
                Some(i) => {
                    assert forall|j: int| 0 <= j < s.skip(i + 1).len() implies #[trigger] s.skip(i + 1)[j]
                        != '/' by {
                        if j < s.skip(i + 1).len() - 1 {
                            assert(s.skip(i + 1)[j] == s.drop_last().skip(i + 1)[j]);
                        }
                    }
                },
                None => {
                    assert forall|j: int| 0 <= j < s.len() implies s[j] != '/' by {
                        if j < s.len() - 1 {
                            assert(s[j] == s.drop_last()[j]);
                        }
                    }
                },
            }
        }
    }
}

/// Appends `src[from..to]` to `out`.
pub fn push_range(out: &mut Vec<char>, src: &Vec<char>, from: usize, to: usize)
    requires
        from <= to <= src.len(),
    ensures
        final(out)@ == old(out)@ + src@.subrange(from as int, to as int),
{
    let mut i = from;
    let ghost start = out@;
    while i < to
        invariant
            from <= i <= to <= src.len(),
            out@ == start + src@.subrange(from as int, i as int),
        decreases to - i,
    {
        out.push(src[i]);
        i = i + 1;
        proof {
            assert(src@.subrange(from as int, i as int) == src@.subrange(from as int, i - 1).push(
                src@[i - 1],
            ));
        }
    }
}

/// Appends the characters of `s` to `out`.
pub fn push_str(out: &mut Vec<char>, s: &str)
    ensures
        final(out)@ == old(out)@ + s@,
{
    let v = chars_of(s);
    push_range(out, &v, 0, v.len());
    proof {
        assert(v@.subrange(0, v.len() as int) == v@);
    }
}

/// The length of `s` once its trailing `/` characters are dropped.
pub fn trimmed_end_len(s: &Vec<char>) -> (e: usize)
    ensures
        e <= s.len(),
        s@.take(e as int) == trim_end_slashes(s@),
{
    let mut e = s.len();
    proof {
        assert(s@.take(e as int) == s@);
    }
    while e > 0 && s[e - 1] == '/'
        invariant
            e <= s.len(),
            trim_end_slashes(s@.take(e as int)) == trim_end_slashes(s@),
        decreases e,
    {
        proof {
            assert(s@.take(e as int).drop_last() == s@.take(e - 1));
        }
        e = e - 1;
    }
    e
}

/// The index of the last `/` in `s[..end]`.
pub fn last_slash_before(s: &Vec<char>, end: usize) -> (r: Option<usize>)
    requires
        end <= s.len(),
    ensures
        match r {
            Some(i) => last_slash(s@.take(end as int)) == Some(i as int),
            None => last_slash(s@.take(end as int)) is None,
        },
{
    let mut i = end;
    while i > 0
        invariant
            i <= end <= s.len(),
            last_slash(s@.take(end as int)) == last_slash(s@.take(i as int)),
        decreases i,
    {
        if s[i - 1] == '/' {
            return Some(i - 1);
        }
        proof {
            assert(s@.take(i as int).drop_last() == s@.take(i - 1));
        }
        i = i - 1;
    }
    None
}

/// True when `s` is the root of "My Files": `/` or empty.
pub fn is_root(s: &Vec<char>) -> (b: bool)
    ensures
        b == is_root_path(s@),
{
    if s.len() == 0 {
        true
    } else if s.len() == 1 && s[0] == '/' {
        assert(s@ == seq!['/']);
        true
    } else {
        proof {
            if s@ == seq!['/'] {
                assert(s@.len() == 1);
            }
        }
        false
    }
}

/// The path of the entry `name` inside the folder at `parent`, as the
/// daemon and the front end record it after a listing.
pub fn child_path(parent: &str, name: &str) -> (p: String)
    ensures
        p@ == child_path_of(parent@, name@),
{
    let pv = chars_of(parent);
    let mut out: Vec<char> = Vec::new();
    if is_root(&pv) {
        out.push('/');
    } else {
        let e = trimmed_end_len(&pv);
        push_range(&mut out, &pv, 0, e);
        out.push('/');
        proof {
            assert(pv@.subrange(0, e as int) == pv@.take(e as int));
        }
    }
    push_str(&mut out, name);
    proof {
        assert(seq![] + seq!['/'] == seq!['/']);
    }
    crate::text::string_of(&out)
}

/// The folder one level up from `path` (the "back" navigation).
pub fn parent_path(path: &str) -> (p: String)
    ensures
        p@ == parent_path_of(path@),
{
    let v = chars_of(path);
    let e = trimmed_end_len(&v);
    let mut out: Vec<char> = Vec::new();
    match last_slash_before(&v, e) {
        Some(pos) => {
            proof {
                lemma_last_slash_bounds(v@.take(e as int));
            }
            if pos == 0 {
                out.push('/');
            } else {
                push_range(&mut out, &v, 0, pos);
                proof {
                    assert(v@.subrange(0, pos as int) == v@.take(e as int).take(pos as int));
                }
            }
        },
        None => {
            out.push('/');
        },
    }
    proof {
        assert(seq![] + seq!['/'] == seq!['/']);
    }
    crate::text::string_of(&out)
}

/// The name after the last `/` of `path` (all of it when it has none).
pub fn file_name(path: &str) -> (n: String)
    ensures
        n@ == after_last_slash(path@),
{
    let v = chars_of(path);
    let mut out: Vec<char> = Vec::new();
    match last_slash_before(&v, v.len()) {
        Some(pos) => {
            proof {
                assert(v@.take(v.len() as int) == v@);
                lemma_last_slash_bounds(v@);
            }
            push_range(&mut out, &v, pos + 1, v.len());
            proof {
                assert(v@.subrange(pos + 1, v.len() as int) == v@.skip(pos + 1));
            }
        },
        None => {
            proof {
                assert(v@.take(v.len() as int) == v@);
            }
            push_range(&mut out, &v, 0, v.len());
            proof {
                assert(v@.subrange(0, v.len() as int) == v@);
            }
        },
    }
    crate::text::string_of(&out)
}

/// True when `name` is usable as a single local file name: it holds no
/// `/` and `Path::new(name).components()` is one normal component.
pub fn is_plain_file_name_exec(name: &str) -> (b: bool)
    ensures
        b == is_plain_file_name(name@),
{
    let v = chars_of(name);
    let mut i: usize = 0;
    while i < v.len()
        invariant
            i <= v.len(),
            v@ == name@,
            forall|j: int| 0 <= j < i ==> v@[j] != '/',
        decreases v.len() - i,
    {
        if v[i] == '/' {
            assert(name@[i as int] == '/');
            return false;
        }
        i = i + 1;
    }
    if v.len() == 0 {
        return false;
    }
    if v.len() == 1 && v[0] == '.' {
        assert(v@ == seq!['.']);
        return false;
    }
    if v.len() == 2 && v[0] == '.' && v[1] == '.' {
        assert(v@ == seq!['.', '.']);
        return false;
    }
    proof {
        if v@ == seq!['.'] {
            assert(v@.len() == 1);
        }
        if v@ == seq!['.', '.'] {
            assert(v@.len() == 2 && v@[0] == '.' && v@[1] == '.');
        }
    }
    true
}

proof fn lemma_last_slash_after_sep(a: Seq<char>, n: Seq<char>)
    requires
        no_slash(n),
    ensures
        last_slash(a + seq!['/'] + n) == Some(a.len() as int),
    decreases n.len(),
{
    let c = a + seq!['/'] + n;
    if n.len() == 0 {
        assert(c.last() == '/');
    } else {
        assert(c.last() == n.last());
        assert(c.drop_last() == a + seq!['/'] + n.drop_last());
        assert(no_slash(n.drop_last())) by {
            assert forall|j: int| 0 <= j < n.drop_last().len() implies #[trigger] n.drop_last()[j]
                != '/' by {
                assert(n.drop_last()[j] == n[j]);
            }
        }
        assert(n[n.len() - 1] != '/');
        lemma_last_slash_after_sep(a, n.drop_last());
    }
}

proof fn lemma_child_shape(parent: Seq<char>, name: Seq<char>) -> (base: Seq<char>)
    ensures
        child_path_of(parent, name) == base + seq!['/'] + name,
        base == (if is_root_path(parent) { Seq::<char>::empty() } else { trim_end_slashes(parent) }),
{
    if is_root_path(parent) {
        assert(child_path_of(parent, name) == Seq::<char>::empty() + seq!['/'] + name);
        Seq::<char>::empty()
    } else {
        trim_end_slashes(parent)
    }
}

/// Going back from an entry that a listing recorded leads to the folder
/// that was listed: the parent of `child_path(p, n)` is `p` without its
/// trailing `/` characters, or `/` when nothing else is left.
pub proof fn law_parent_of_child(p: Seq<char>, n: Seq<char>)
    requires
        n.len() > 0,
        no_slash(n),
    ensures
        parent_path_of(child_path_of(p, n)) == (if trim_end_slashes(p).len() == 0 {
            seq!['/']
        } else {
            trim_end_slashes(p)
        }),
{
    let base = lemma_child_shape(p, n);
    let c = child_path_of(p, n);
    assert(c.last() == n.last());
    assert(n[n.len() - 1] != '/');
    assert(trim_end_slashes(c) == c);
    lemma_last_slash_after_sep(base, n);
    assert(c.take(base.len() as int) == base);
    if is_root_path(p) {
        if p.len() == 1 {
            assert(p.last() == '/');
            assert(p.drop_last().len() == 0);
            assert(trim_end_slashes(p) == trim_end_slashes(p.drop_last()));
        }
        assert(trim_end_slashes(p).len() == 0);
    }
}

/// The name taken from an entry's recorded path is the entry's own name.
pub proof fn law_file_name_of_child(p: Seq<char>, n: Seq<char>)
    requires
        no_slash(n),
    ensures
        after_last_slash(child_path_of(p, n)) == n,
{
    let base = lemma_child_shape(p, n);
    lemma_last_slash_after_sep(base, n);
    assert((base + seq!['/'] + n).skip(base.len() + 1int) == n);
}

/// A download file name is refused exactly when it is empty, holds a `/`,
/// or is `.` or `..`: every other name, whatever other characters (spaces
/// among them) it holds, is accepted.
pub proof fn law_plain_file_names(n: Seq<char>)
    ensures
        is_plain_file_name(n) <==> (n.len() > 0 && (forall|i: int|
            0 <= i < n.len() ==> n[i] != '/') && n != seq!['.'] && n != seq!['.', '.']),
{
}

/// The file `n` listed in any folder `p` is downloaded under its own name
/// whenever `n` is non-empty, holds no `/` and is neither `.` nor `..`.
pub proof fn law_listed_file_keeps_its_name(p: Seq<char>, n: Seq<char>)
    requires
        n.len() > 0,
        forall|i: int| 0 <= i < n.len() ==> n[i] != '/',
        n != seq!['.'],
        n != seq!['.', '.'],
    ensures
        after_last_slash(child_path_of(p, n)) == n,
        is_plain_file_name(after_last_slash(child_path_of(p, n))),
{
    law_file_name_of_child(p, n);
    law_plain_file_names(n);
}

} // verus!
