//! Cleaning a workspace: which working trees the manifest no longer lists.
use vstd::prelude::*;
use crate::git::owned;
use crate::manifest::{display, display_path, repo_views, RepoView, TomlRepo};
use crate::text::{chars_of, starts_with, starts_with_at, views};

verus! {

/// Whether the manifest entry `r` keeps the working tree at `p`: it is that
/// tree, or lies inside it.
pub open spec fn keeps(p: Seq<char>, r: RepoView) -> bool {
    r.local is Some && (display(r.local->0) == p || starts_with(display(r.local->0), p + "/"@))
}

/// Whether the tree at `p` stays: the workspace root always does, and so
/// does any tree that a manifest entry keeps.
pub open spec fn stays(p: Seq<char>, rs: Seq<RepoView>) -> bool {
    p == "."@ || exists|k: int| 0 <= k < rs.len() && keeps(p, #[trigger] rs[k])
}

/// The trees of `found` that do not stay, in order.
pub open spec fn unlisted(found: Seq<Seq<char>>, rs: Seq<RepoView>) -> Seq<Seq<char>>
    decreases found.len(),
{
    if found.len() == 0 {
        seq![]
    } else if stays(found.last(), rs) {
        unlisted(found.drop_last(), rs)
    } else {
        unlisted(found.drop_last(), rs).push(found.last())
    }
}

fn keeps_exec(p: &str, r: &TomlRepo) -> (b: bool)
    ensures
        b == keeps(p@, r@),
{
    match &r.local {
        None => false,
        Some(l) => {
            let d = display_path(l.as_str());
            if d == owned(p) {
                return true;
            }
            let mut prefix = owned(p);
            prefix.append("/");
            let dv = chars_of(d.as_str());
            let pv = chars_of(prefix.as_str());
            let r = starts_with_at(&dv, 0, &pv);
            assert(dv@.skip(0) =~= dv@);
            r
        },
    }
}

fn stays_exec(p: &str, repos: &Vec<TomlRepo>) -> (b: bool)
    ensures
        b == stays(p@, repo_views(repos@)),
{
    if owned(p) == owned(".") {
        return true;
    }
    let ghost rv = repo_views(repos@);
    let mut k: usize = 0;
    while k < repos.len()
        invariant
            k <= repos.len(),
            rv == repo_views(repos@),
            p@ != "."@,
            forall|j: int| 0 <= j < k ==> !keeps(p@, #[trigger] rv[j]),
        decreases repos.len() - k,
    {
        if keeps_exec(p, &repos[k]) {
            assert(keeps(p@, rv[k as int]));
            return true;
        }
        k = k + 1;
    }
    false
}

/// The working trees found under the workspace (paths from its root, `"."`
/// for the root) that the manifest does not keep: neither an entry's path nor
/// a directory holding one. The root is never among them.
pub fn unlisted_repositories(found: &Vec<String>, repos: &Vec<TomlRepo>) -> (r: Vec<String>)
    ensures
        views(r@) == unlisted(views(found@), repo_views(repos@)),
{
    let ghost fv = views(found@);
    let mut r: Vec<String> = Vec::new();
    let mut i: usize = 0;
    while i < found.len()
        invariant
            i <= found.len(),
            fv == views(found@),
            views(r@) == unlisted(fv.take(i as int), repo_views(repos@)),
        decreases found.len() - i,
    {
        proof {
            assert(fv.take(i + 1).drop_last() =~= fv.take(i as int));
            assert(fv.take(i + 1).last() == found@[i as int]@);
        }
        if !stays_exec(found[i].as_str(), repos) {
            let ghost r0 = views(r@);
            r.push(found[i].clone());
            assert(views(r@) =~= r0.push(found@[i as int]@));
        }
        i = i + 1;
    }
    assert(fv.take(i as int) =~= fv);
    r
}

} // verus!
