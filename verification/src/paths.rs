//! Paths as text: how a changed file's path is shown, and the order files
//! are listed in.

use vstd::prelude::*;
use crate::text::{chars_of, push_char, string_of};

verus! {

/// Whether a path is absolute: it starts at the root.
pub open spec fn is_absolute(p: Seq<char>) -> bool {
    p.len() > 0 && p[0] == '/'
}

/// `path` below `base`, as `Path::strip_prefix` gives it for paths written
/// without `.` parts or doubled separators: `base` must be a whole leading
/// run of `path`'s components.
pub open spec fn strip_path_prefix(path: Seq<char>, base: Seq<char>) -> Option<Seq<char>> {
    if path == base {
        Some(Seq::empty())
    } else if base.len() < path.len() && path.take(base.len() as int) == base {
        if base.len() > 0 && base.last() == '/' {
            Some(path.skip(base.len() as int))
        } else if path[base.len() as int] == '/' {
            Some(path.skip(base.len() as int + 1))
        } else {
            None
        }
    } else {
        None
    }
}

/// `path` below `base`, if it lies there (see `strip_path_prefix`).
pub fn strip_path_prefix_of(path: &str, base: &str) -> (r: Option<String>)
    ensures
        r matches Some(s) ==> strip_path_prefix(path@, base@) == Some(s@),
        r is None ==> strip_path_prefix(path@, base@) is None,
{
    let p = chars_of(path);
    let b = chars_of(base);
    let n = b.len();
    if n > p.len() {
        return None;
    }
    let mut i: usize = 0;
    while i < n
        invariant
            i <= n <= p.len(),
            p@ == path@,
            b@ == base@,
            n == b.len(),
            p@.take(i as int) == b@.take(i as int),
        decreases n - i,
    {
        if p[i] != b[i] {
            proof {
                assert(p@.take(n as int)[i as int] != b@[i as int]);
                assert(p@.take(n as int) != b@);
                assert(p@ != b@);
            }
            return None;
        }
        proof {
            assert(p@.take(i + 1) =~= p@.take(i as int).push(p@[i as int]));
            assert(b@.take(i + 1) =~= b@.take(i as int).push(b@[i as int]));
        }
        i += 1;
    }
    proof {
        assert(b@.take(n as int) =~= b@);
    }
    if n == p.len() {
        proof {
            assert(p@ =~= b@);
        }
        return Some(String::new());
    }
    if n > 0 && b[n - 1] == '/' {
        let rest = string_of(&p.as_slice()[n..p.len()]);
        proof {
            assert(p@.subrange(n as int, p@.len() as int) =~= p@.skip(n as int));
            assert(p@ != b@);
        }
        Some(rest)
    } else if p[n] == '/' {
        let rest = string_of(&p.as_slice()[n + 1..p.len()]);
        proof {
            assert(p@.subrange(n + 1, p@.len() as int) =~= p@.skip(n + 1));
            assert(p@ != b@);
        }
        Some(rest)
    } else {
        proof {
            assert(p@ != b@);
        }
        None
    }
}

/// The relative path from `base` to `path` that pathdiff computes, if any.
pub uninterp spec fn relative_path(path: Seq<char>, base: Seq<char>) -> Option<Seq<char>>;

/// The path from `base` to `path`.
///
/// Trusted: wraps `pathdiff::diff_paths`; its result is named
/// `relative_path` of the two paths.
#[verifier::external_body]
pub(crate) fn diff_paths(path: &str, base: &str) -> (r: Option<String>)
    ensures
        r matches Some(s) ==> relative_path(path@, base@) == Some(s@),
        r is None ==> relative_path(path@, base@) is None,
{
    pathdiff::diff_paths(path, base).map(|p| p.to_string_lossy().into_owned())
}

/// Where the display of a path looks for it: the working directory, its
/// repository root and the home directory, each where known.
#[derive(Debug)]
pub struct PathEnv {
    pub cwd: String,
    pub cwd_repo_root: Option<String>,
    pub home: Option<String>,
}

/// `~` followed by a path below the home directory, as
/// `PathBuf::from_iter(["~", rel])` writes it.
pub open spec fn home_relative(rel: Seq<char>) -> Seq<char> {
    seq!['~', '/'] + rel
}

/// How a path is shown (see `display_path_for`).
pub open spec fn display_path(
    path: Seq<char>,
    cwd: Seq<char>,
    path_repo_root: Option<Seq<char>>,
    cwd_repo_root: Option<Seq<char>>,
    home: Option<Seq<char>>,
) -> Seq<char> {
    if !is_absolute(path) {
        path
    } else if strip_path_prefix(path, cwd) is Some {
        strip_path_prefix(path, cwd)->0
    } else if path_repo_root is Some && cwd_repo_root is Some && path_repo_root == cwd_repo_root {
        match relative_path(path, cwd) {
            Some(r) => r,
            None => path,
        }
    } else {
        match home {
            Some(h) => match strip_path_prefix(path, h) {
                Some(rel) => home_relative(rel),
                None => path,
            },
            None => path,
        }
    }
}

/// Shows a path as briefly as is unambiguous: a relative path as it is; one
/// below the working directory relative to it; one in the same repository
/// as the working directory by the relative path between them; one below
/// the home directory from `~`; any other in full. `path_repo_root` is the
/// root of the repository holding `path`, where there is one.
pub fn display_path_for(path: &str, path_repo_root: &Option<String>, env: &PathEnv) -> (s: String)
    ensures
        s@ == display_path(
            path@,
            env.cwd@,
            match path_repo_root {
                Some(r) => Some(r@),
                None => None,
            },
            match env.cwd_repo_root {
                Some(r) => Some(r@),
                None => None,
            },
            match env.home {
                Some(h) => Some(h@),
                None => None,
            },
        ),
{
    let p = chars_of(path);
    if p.len() == 0 || p[0] != '/' {
        return String::from_str(path);
    }
    if let Some(stripped) = strip_path_prefix_of(path, env.cwd.as_str()) {
        return stripped;
    }
    let same_repo = match (path_repo_root, &env.cwd_repo_root) {
        (Some(a), Some(b)) => a.eq(b),
        _ => false,
    };
    if same_repo {
        match diff_paths(path, env.cwd.as_str()) {
            Some(r) => r,
            None => String::from_str(path),
        }
    } else {
        match &env.home {
            Some(h) => match strip_path_prefix_of(path, h.as_str()) {
                Some(rel) => {
                    let mut s = String::new();
                    push_char(&mut s, '~');
                    push_char(&mut s, '/');
                    let rv = chars_of(rel.as_str());
                    let mut i: usize = 0;
                    while i < rv.len()
                        invariant
                            i <= rv.len(),
                            s@ == seq!['~', '/'] + rv@.take(i as int),
                        decreases rv.len() - i,
                    {
                        push_char(&mut s, rv[i]);
                        proof {
                            assert(rv@.take(i + 1) =~= rv@.take(i as int).push(rv@[i as int]));
                        }
                        i += 1;
                    }
                    proof {
                        assert(rv@.take(rv@.len() as int) =~= rv@);
                    }
                    s
                },
                None => String::from_str(path),
            },
            None => String::from_str(path),
        }
    }
}

/// The rank of a character when paths are ordered: the separator before
/// everything, so that paths order component by component.
pub open spec fn path_rank(c: char) -> nat {
    if c == '/' {
        0
    } else {
        (c as u32) as nat + 1
    }
}

/// Whether path `a` orders before path `b`: component by component, which
/// for paths without `.` parts or doubled separators is character order
/// with the separator lowest.
pub open spec fn path_lt(a: Seq<char>, b: Seq<char>) -> bool
    decreases a.len(),
{
    if b.len() == 0 {
        false
    } else if a.len() == 0 {
        true
    } else if path_rank(a[0]) < path_rank(b[0]) {
        true
    } else if path_rank(a[0]) > path_rank(b[0]) {
        false
    } else {
        path_lt(a.drop_first(), b.drop_first())
    }
}

/// `path_lt` is transitive.
pub proof fn lemma_path_lt_transitive(a: Seq<char>, b: Seq<char>, c: Seq<char>)
    requires
        path_lt(a, b),
        path_lt(b, c),
    ensures
        path_lt(a, c),
    decreases a.len(),
{
    if a.len() > 0 && b.len() > 0 && c.len() > 0 && path_rank(a[0]) == path_rank(b[0])
        && path_rank(b[0]) == path_rank(c[0]) {
        lemma_path_lt_transitive(a.drop_first(), b.drop_first(), c.drop_first());
    }
}

/// `path_lt` is irreflexive.
pub proof fn lemma_path_lt_irreflexive(a: Seq<char>)
    ensures
        !path_lt(a, a),
    decreases a.len(),
{
    if a.len() > 0 {
        lemma_path_lt_irreflexive(a.drop_first());
    }
}

/// Whether path `a` orders before path `b` (see `path_lt`).
pub fn path_less(a: &str, b: &str) -> (r: bool)
    ensures
        r == path_lt(a@, b@),
{
    let x = chars_of(a);
    let y = chars_of(b);
    let mut i: usize = 0;
    proof {
        assert(x@.skip(0) =~= x@);
        assert(y@.skip(0) =~= y@);
    }
    while i < x.len() && i < y.len()
        invariant
            i <= x.len(),
            i <= y.len(),
            x@ == a@,
            y@ == b@,
            path_lt(a@, b@) == path_lt(x@.skip(i as int), y@.skip(i as int)),
        decreases x.len() - i,
    {
        let cx = x[i];
        let cy = y[i];
        proof {
            assert(x@.skip(i as int)[0] == cx);
            assert(y@.skip(i as int)[0] == cy);
        }
        proof {
            vstd::utf8::char_u32_cast(cx, cx as u32);
            vstd::utf8::char_u32_cast(cy, cy as u32);
        }
        if cx != cy {
            if cx == '/' {
                return true;
            }
            if cy == '/' {
                return false;
            }
            return (cx as u32) < (cy as u32);
        }
        proof {
            assert(x@.skip(i as int).drop_first() =~= x@.skip(i + 1));
            assert(y@.skip(i as int).drop_first() =~= y@.skip(i + 1));
        }
        i += 1;
    }
    i < y.len()
}

/// The index just past the last separator of `p`, 0 where there is none.
pub open spec fn after_last_sep(p: Seq<char>) -> nat
    decreases p.len(),
{
    if p.len() == 0 {
        0
    } else if p.last() == '/' {
        p.len()
    } else {
        after_last_sep(p.drop_last())
    }
}

/// The last component of a path as `Path::file_name` gives it: separators
/// at the end and `.` components are passed over; none for the root, for a
/// path of nothing but `.`, or for one that ends in `..`.
pub open spec fn file_name_of(p: Seq<char>) -> Option<Seq<char>>
    decreases p.len(),
{
    if p.len() == 0 {
        None
    } else if p.last() == '/' {
        file_name_of(p.drop_last())
    } else {
        let k = after_last_sep(p);
        let seg = p.skip(k as int);
        if seg == seq!['.'] {
            proof {
                lemma_after_last_sep(p);
            }
            if k == 0 {
                None
            } else {
                file_name_of(p.take(k as int))
            }
        } else if seg == seq!['.', '.'] {
            None
        } else {
            Some(seg)
        }
    }
}

/// The index of the last `.` of `f`, if any.
pub open spec fn last_dot(f: Seq<char>) -> Option<nat>
    decreases f.len(),
{
    if f.len() == 0 {
        None
    } else if f.last() == '.' {
        Some((f.len() - 1) as nat)
    } else {
        last_dot(f.drop_last())
    }
}

/// The extension of a file name as `Path::extension` gives it: what follows
/// the last `.`, unless that dot opens the name.
pub open spec fn extension_of(f: Seq<char>) -> Option<Seq<char>> {
    match last_dot(f) {
        Some(i) => if i == 0 {
            None
        } else {
            Some(f.skip(i as int + 1))
        },
        None => None,
    }
}

/// Where the last separator is.
pub proof fn lemma_after_last_sep(p: Seq<char>)
    ensures
        after_last_sep(p) <= p.len(),
        forall|j: int| after_last_sep(p) <= j < p.len() ==> p[j] != '/',
        after_last_sep(p) > 0 ==> p[after_last_sep(p) - 1] == '/',
    decreases p.len(),
{
    if p.len() > 0 && p.last() != '/' {
        lemma_after_last_sep(p.drop_last());
        assert forall|j: int| after_last_sep(p) <= j < p.len() implies p[j] != '/' by {
            if j < p.len() - 1 {
                assert(p.drop_last()[j] == p[j]);
            }
        }
        if after_last_sep(p) > 0 {
            assert(p.drop_last()[after_last_sep(p) - 1] == p[after_last_sep(p) - 1]);
        }
    }
}

/// Where the last dot is.
pub proof fn lemma_last_dot(f: Seq<char>)
    ensures
        last_dot(f) matches Some(i) ==> i < f.len() && f[i as int] == '.' && forall|j: int|
            i < j < f.len() ==> f[j] != '.',
        last_dot(f) is None ==> forall|j: int| 0 <= j < f.len() ==> f[j] != '.',
    decreases f.len(),
{
    if f.len() > 0 && f.last() != '.' {
        lemma_last_dot(f.drop_last());
        assert forall|j: int| 0 <= j < f.len() - 1 implies f.drop_last()[j] == f[j] by {}
    }
}

/// The last component of a path (see `file_name_of`).
pub fn file_name(path: &str) -> (r: Option<String>)
    ensures
        r matches Some(s) ==> file_name_of(path@) == Some(s@),
        r is None ==> file_name_of(path@) is None,
{
    let v = chars_of(path);
    let mut end = v.len();
    proof {
        assert(v@.take(v@.len() as int) =~= v@);
    }
    loop
        invariant
            end <= v.len(),
            v@ == path@,
            file_name_of(path@) == file_name_of(v@.take(end as int)),
        decreases end,
    {
        if end == 0 {
            return None;
        }
        if v[end - 1] == '/' {
            proof {
                assert(v@.take(end as int).drop_last() =~= v@.take(end - 1));
            }
            end -= 1;
            continue;
        }
        let ghost p = v@.take(end as int);
        let mut k = end;
        while k > 0 && v[k - 1] != '/'
            invariant
                k <= end <= v.len(),
                p == v@.take(end as int),
                after_last_sep(p) == after_last_sep(v@.take(k as int)),
                forall|j: int| k <= j < end ==> v@[j] != '/',
            decreases k,
        {
            proof {
                assert(v@.take(k as int).drop_last() =~= v@.take(k - 1));
            }
            k -= 1;
        }
        proof {
            lemma_after_last_sep(v@.take(k as int));
            if k > 0 {
                assert(v@.take(k as int).last() == '/');
            }
            assert(after_last_sep(p) == k);
            assert(p.skip(k as int) =~= v@.subrange(k as int, end as int));
        }
        let len = end - k;
        if len == 1 && v[k] == '.' {
            proof {
                assert(p.skip(k as int) =~= seq!['.']);
            }
            if k == 0 {
                return None;
            }
            proof {
                assert(p.take(k as int) =~= v@.take(k as int));
            }
            end = k;
            continue;
        }
        if len == 2 && v[k] == '.' && v[k + 1] == '.' {
            proof {
                assert(p.skip(k as int) =~= seq!['.', '.']);
            }
            return None;
        }
        proof {
            if p.skip(k as int) == seq!['.'] {
                assert(p.skip(k as int)[0] == v@[k as int]);
            }
            if p.skip(k as int) == seq!['.', '.'] {
                assert(p.skip(k as int)[0] == v@[k as int]);
                assert(p.skip(k as int)[1] == v@[k + 1]);
            }
        }
        let name = string_of(&v.as_slice()[k..end]);
        return Some(name);
    }
}

/// The extension of a path's file name, as `Path::extension` gives it.
pub fn detect_lang_for_path(path: &str) -> (r: Option<String>)
    ensures
        r matches Some(s) ==> (file_name_of(path@) matches Some(f) && extension_of(f) == Some(s@)),
        r is None ==> (file_name_of(path@) matches Some(f) ==> extension_of(f) is None),
{
    let name = match file_name(path) {
        Some(n) => n,
        None => {
            return None;
        },
    };
    let f = chars_of(name.as_str());
    let mut i = f.len();
    proof {
        assert(f@.take(f@.len() as int) =~= f@);
    }
    while i > 0 && f[i - 1] != '.'
        invariant
            i <= f.len(),
            last_dot(f@) == last_dot(f@.take(i as int)),
        decreases i,
    {
        proof {
            assert(f@.take(i as int).drop_last() =~= f@.take(i - 1));
        }
        i -= 1;
    }
    proof {
        assert(f@.take(f@.len() as int) =~= f@);
    }
    if i <= 1 {
        proof {
            if i == 1 {
                assert(f@.take(1).last() == '.');
            }
        }
        return None;
    }
    proof {
        assert(f@.take(i as int).last() == '.');
        assert(f@.subrange(i as int, f@.len() as int) =~= f@.skip(i as int));
    }
    Some(string_of(&f.as_slice()[i..f.len()]))
}

} // verus!
