//! Workspace roots that follow the working directory when thread settings
//! move it.

use vstd::prelude::*;
use crate::chat_state::views;
use crate::text::str_eq;

verus! {

/// The roots after the working directory moves from `previous` to `cwd`:
/// `cwd` first, then every other root in order, each once.
pub open spec fn moved_roots(roots: Seq<Seq<char>>, previous: Seq<char>, cwd: Seq<char>) -> Seq<Seq<char>>
    decreases roots.len(),
{
    if roots.len() == 0 {
        seq![cwd]
    } else {
        let acc = moved_roots(roots.drop_last(), previous, cwd);
        let r = roots.last();
        if r != previous && !acc.contains(r) {
            acc.push(r)
        } else {
            acc
        }
    }
}

/// Whether the texts of `v` hold `x`.
fn holds_text(v: &Vec<String>, x: &str) -> (r: bool)
    ensures
        r == views(v@).contains(x@),
{
    let mut k: usize = 0;
    while k < v.len()
        invariant
            k <= v@.len(),
            forall|j: int| 0 <= j < k ==> views(v@)[j] != x@,
        decreases v@.len() - k,
    {
        if str_eq(v[k].as_str(), x) {
            assert(views(v@)[k as int] == x@);
            return true;
        }
        k += 1;
    }
    false
}

/// The workspace roots once the working directory moves from `previous` to
/// `cwd`: unchanged (`None`) where `previous` was not a root; otherwise
/// `cwd` first and then the other roots in order, each once.
pub fn retarget_workspace_roots(roots: &Vec<String>, previous: &str, cwd: &str) -> (r: Option<
    Vec<String>,
>)
    ensures
        !views(roots@).contains(previous@) ==> r is None,
        views(roots@).contains(previous@) ==> (r matches Some(v) && views(v@) == moved_roots(
            views(roots@),
            previous@,
            cwd@,
        )),
{
    if !holds_text(roots, previous) {
        return None;
    }
    let mut out: Vec<String> = Vec::new();
    out.push(cwd.to_string());
    proof {
        assert(views(roots@).take(0) =~= Seq::<Seq<char>>::empty());
        assert(views(out@) =~= seq![cwd@]);
    }
    let mut k: usize = 0;
    while k < roots.len()
        invariant
            k <= roots@.len(),
            views(out@) == moved_roots(views(roots@).take(k as int), previous@, cwd@),
        decreases roots@.len() - k,
    {
        let ghost before = views(out@);
        proof {
            let t = views(roots@).take(k + 1);
            assert(t.drop_last() =~= views(roots@).take(k as int));
            assert(t.last() == roots@[k as int]@);
        }
        if !str_eq(roots[k].as_str(), previous) && !holds_text(&out, roots[k].as_str()) {
            out.push(roots[k].clone());
            proof {
                assert(views(out@) =~= before.push(roots@[k as int]@));
            }
        }
        k += 1;
    }
    proof {
        assert(views(roots@).take(roots@.len() as int) =~= views(roots@));
    }
    Some(out)
}

} // verus!
