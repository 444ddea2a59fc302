//! Paths as texts with `/` between their components.

use vstd::prelude::*;
use vstd::string::*;

use crate::text::{chars_of, same_text};

verus! {

/// `rel` as seen from `base`: an absolute path stands for itself, any other is
/// put behind `base` and a single separator.
pub open spec fn joined_path(base: Seq<char>, rel: Seq<char>) -> Seq<char> {
    if rel.len() > 0 && rel[0] == '/' {
        rel
    } else if base.len() == 0 || base.last() == '/' {
        base + rel
    } else {
        base.push('/') + rel
    }
}

/// `rel` as seen from `base`.
pub fn join_path(base: &str, rel: &str) -> (r: String)
    ensures
        r@ == joined_path(base@, rel@),
{
    proof {
        reveal_strlit("/");
    }
    let b = chars_of(base);
    let v = chars_of(rel);
    let n: usize = b.len();
    if v.len() > 0 && v[0] == '/' {
        return rel.to_owned();
    }
    let mut out = base.to_owned();
    if n > 0 && b[n - 1] != '/' {
        assert(base@ + "/"@ =~= base@.push('/'));
        out.append("/");
    }
    out.append(rel);
    out
}

/// `path` with `suffix` added to its end.
pub fn with_suffix(path: &str, suffix: &str) -> (r: String)
    ensures
        r@ == path@ + suffix@,
{
    path.to_owned().concat(suffix)
}

/// `p` without the separators and the `.` components at its end. A lone root and
/// a leading `.` stay.
pub open spec fn bare_path(p: Seq<char>) -> Seq<char>
    decreases p.len(),
{
    if p.len() > 1 && (p.last() == '/' || (p.last() == '.' && p[p.len() - 2] == '/')) {
        bare_path(p.drop_last())
    } else {
        p
    }
}

/// The index behind the last separator in `p`; 0 where there is none.
pub open spec fn name_start(p: Seq<char>) -> int
    decreases p.len(),
{
    if p.len() == 0 {
        0
    } else if p.last() == '/' {
        p.len() as int
    } else {
        name_start(p.drop_last())
    }
}

/// The path without its last component; `None` for a root or an empty path.
pub open spec fn parent_of(p: Seq<char>) -> Option<Seq<char>> {
    let q = bare_path(p);
    if q.len() == 0 || q == seq!['/'] {
        None
    } else {
        Some(bare_path(q.take(name_start(q))))
    }
}

/// The last component of a path; `None` where that is a root, `.` or `..`, and
/// for an empty path.
pub open spec fn file_name_of(p: Seq<char>) -> Option<Seq<char>> {
    let q = bare_path(p);
    let name = q.skip(name_start(q));
    if name.len() == 0 || name == seq!['.'] || name == seq!['.', '.'] {
        None
    } else {
        Some(name)
    }
}

/// [`name_start`] lies within the path.
pub proof fn lemma_name_start(p: Seq<char>)
    ensures
        0 <= name_start(p) <= p.len(),
        name_start(p) > 0 ==> p[name_start(p) - 1] == '/',
        forall|i: int| name_start(p) <= i < p.len() ==> p[i] != '/',
    decreases p.len(),
{
    if p.len() > 0 && p.last() != '/' {
        lemma_name_start(p.drop_last());
        assert forall|i: int| name_start(p) <= i < p.len() implies p[i] != '/' by {
            if i < p.len() - 1 {
                assert(p[i] == p.drop_last()[i]);
            }
        }
    }
}

/// The length of [`bare_path`] of the first `end` characters of `v`.
fn bare_len(v: &Vec<char>, end: usize) -> (n: usize)
    requires
        end <= v@.len(),
    ensures
        n <= end,
        v@.take(n as int) == bare_path(v@.take(end as int)),
{
    let mut n: usize = end;
    while n > 1 && (v[n - 1] == '/' || (v[n - 1] == '.' && v[n - 2] == '/'))
        invariant
            n <= end <= v@.len(),
            bare_path(v@.take(n as int)) == bare_path(v@.take(end as int)),
        decreases n,
    {
        assert(v@.take(n as int).drop_last() =~= v@.take(n - 1));
        n -= 1;
    }
    n
}

/// [`name_start`] of the first `end` characters of `v`.
fn name_index(v: &Vec<char>, end: usize) -> (i: usize)
    requires
        end <= v@.len(),
    ensures
        i == name_start(v@.take(end as int)),
        i <= end,
{
    let mut i: usize = end;
    while i > 0 && v[i - 1] != '/'
        invariant
            i <= end <= v@.len(),
            name_start(v@.take(i as int)) == name_start(v@.take(end as int)),
        decreases i,
    {
        assert(v@.take(i as int).drop_last() =~= v@.take(i - 1));
        i -= 1;
    }
    i
}

/// The directory that holds `path`, if it has one.
pub fn parent_dir(path: &str) -> (r: Option<String>)
    ensures
        match r {
            Some(d) => parent_of(path@) == Some(d@),
            None => parent_of(path@) is None,
        },
{
    let v = chars_of(path);
    assert(v@.take(v@.len() as int) =~= path@);
    let n: usize = bare_len(&v, v.len());
    let ghost q = bare_path(path@);
    if n == 0 || (n == 1 && v[0] == '/') {
        assert(n == 1 ==> q =~= seq!['/']);
        return None;
    }
    assert(n == 1 ==> q[0] != '/');
    let i: usize = name_index(&v, n);
    let m: usize = bare_len(&v, i);
    assert(q.take(i as int) =~= v@.take(i as int));
    assert(path@.subrange(0, m as int) =~= v@.take(m as int));
    Some(path.substring_char(0, m).to_owned())
}

/// The last component of `path`, if it is the name of a file.
pub fn file_name(path: &str) -> (r: Option<String>)
    ensures
        match r {
            Some(name) => file_name_of(path@) == Some(name@),
            None => file_name_of(path@) is None,
        },
{
    proof {
        reveal_strlit(".");
        reveal_strlit("..");
        assert("."@ =~= seq!['.']);
        assert(".."@ =~= seq!['.', '.']);
    }
    let v = chars_of(path);
    assert(v@.take(v@.len() as int) =~= path@);
    let n: usize = bare_len(&v, v.len());
    let i: usize = name_index(&v, n);
    let ghost q = bare_path(path@);
    assert(q.skip(i as int) =~= path@.subrange(i as int, n as int));
    let name = path.substring_char(i, n);
    if name.is_empty() || same_text(name, ".") || same_text(name, "..") {
        None
    } else {
        Some(name.to_owned())
    }
}

} // verus!
