//! Snapshots: the manifest of the repositories found under a directory.
//!
//! The caller walks the directory and, for each working tree it finds, reads
//! `git remote get-url origin` and the current commit (or branch); the library
//! makes the entries, orders them by path and leaves out what is ignored.
use vstd::prelude::*;
use crate::git::{find_remote_url_by_name, first_line, owned, GitError};
use crate::manifest::{
    exclude_ignore, without_ignored, opt_view, repo_views, RefView, RepoView, TomlConfig, TomlRepo,
    target_of,
};
use crate::text::{chars_of, trim, views};

verus! {

/// An entry for a working tree at `local`: its remote's URL, if git gave one,
/// and its current commit (or, with `branch_mode`, its current branch).
pub open spec fn entry_of(local: Seq<char>, remote: Option<Seq<char>>, head: Option<Seq<char>>, branch_mode: bool) -> RepoView {
    RepoView {
        local: Some(local),
        remote,
        branch: if branch_mode { head } else { None },
        tag: None,
        commit: if branch_mode { None } else { head },
    }
}

/// The URL read from `git remote get-url origin`.
pub open spec fn url_of(out: Result<Seq<char>, Seq<char>>) -> Option<Seq<char>> {
    match out {
        Ok(o) => match first_line(trim(o)) {
            Some(l) => Some(trim(l)),
            None => None,
        },
        Err(_) => None,
    }
}

/// The entry of the working tree at `local`, from what git printed for
/// `git remote get-url origin` and from its current commit or branch.
pub fn snapshot_entry(
    local: &str,
    remote_out: &Result<String, String>,
    head: Result<String, GitError>,
    branch_mode: bool,
) -> (r: TomlRepo)
    ensures
        r@ == entry_of(local@, url_of(crate::sync::ev_view(*remote_out)), match head {
            Ok(h) => Some(h@),
            Err(_) => None,
        }, branch_mode),
{
    let remote = match remote_out {
        Ok(o) => match find_remote_url_by_name("origin", o.as_str()) {
            Ok(u) => Some(u),
            Err(_) => None,
        },
        Err(_) => None,
    };
    let h = match head {
        Ok(h) => Some(h),
        Err(_) => None,
    };
    if branch_mode {
        TomlRepo { local: Some(owned(local)), remote, branch: h, tag: None, commit: None }
    } else {
        TomlRepo { local: Some(owned(local)), remote, branch: None, tag: None, commit: h }
    }
}

/// Lexicographic order on characters, by code point.
pub open spec fn lex_le(a: Seq<char>, b: Seq<char>) -> bool
    decreases a.len(),
{
    if a.len() == 0 {
        true
    } else if b.len() == 0 {
        false
    } else if a[0] == b[0] {
        lex_le(a.drop_first(), b.drop_first())
    } else {
        (a[0] as u32) < (b[0] as u32)
    }
}

proof fn lemma_lex_total(a: Seq<char>, b: Seq<char>)
    ensures
        lex_le(a, b) || lex_le(b, a),
    decreases a.len(),
{
    if a.len() > 0 && b.len() > 0 {
        if a[0] == b[0] {
            lemma_lex_total(a.drop_first(), b.drop_first());
        } else {
            vstd::utf8::char_u32_cast(a[0], a[0] as u32);
            vstd::utf8::char_u32_cast(b[0], b[0] as u32);
        }
    }
}

proof fn lemma_lex_trans(a: Seq<char>, b: Seq<char>, c: Seq<char>)
    requires
        lex_le(a, b),
        lex_le(b, c),
    ensures
        lex_le(a, c),
    decreases a.len(),
{
    if a.len() > 0 && b.len() > 0 && c.len() > 0 && a[0] == b[0] && b[0] == c[0] {
        lemma_lex_trans(a.drop_first(), b.drop_first(), c.drop_first());
    }
}

/// The key an entry is ordered by: its path, with the root (`"."`) first.
pub open spec fn path_key(r: RepoView) -> Seq<char> {
    match r.local {
        Some(l) => if l == "."@ {
            Seq::empty()
        } else {
            l
        },
        None => Seq::empty(),
    }
}

pub open spec fn sorted_by_path(rs: Seq<RepoView>) -> bool {
    forall|i: int, j: int| 0 <= i < j < rs.len() ==> lex_le(path_key(rs[i]), path_key(rs[j]))
}

fn lex_le_exec(a: &Vec<char>, b: &Vec<char>) -> (r: bool)
    ensures
        r == lex_le(a@, b@),
{
    let mut i: usize = 0;
    assert(a@.skip(0) =~= a@ && b@.skip(0) =~= b@);
    while i < a.len() && i < b.len() && a[i] == b[i]
        invariant
            i <= a.len(),
            i <= b.len(),
            lex_le(a@, b@) == lex_le(a@.skip(i as int), b@.skip(i as int)),
        decreases a.len() - i,
    {
        assert(a@.skip(i as int).drop_first() =~= a@.skip(i + 1));
        assert(b@.skip(i as int).drop_first() =~= b@.skip(i + 1));
        i = i + 1;
    }
    if i == a.len() {
        true
    } else if i == b.len() {
        false
    } else {
        assert(a@.skip(i as int)[0] == a@[i as int]);
        assert(b@.skip(i as int)[0] == b@[i as int]);
        (a[i] as u32) < (b[i] as u32)
    }
}

fn path_key_of(r: &TomlRepo) -> (k: Vec<char>)
    ensures
        k@ == path_key(r@),
{
    match &r.local {
        Some(l) => {
            if *l == owned(".") {
                Vec::new()
            } else {
                chars_of(l.as_str())
            }
        },
        None => Vec::new(),
    }
}

/// The entries ordered by path, the root first.
pub fn sort_by_path(repos: Vec<TomlRepo>) -> (r: Vec<TomlRepo>)
    ensures
        sorted_by_path(repo_views(r@)),
        repo_views(r@).to_multiset() == repo_views(repos@).to_multiset(),
{
    let mut rest = repos;
    let mut out: Vec<TomlRepo> = Vec::new();
    let ghost all = repo_views(rest@);
    assert(repo_views(out@) =~= Seq::<RepoView>::empty());
    proof {
        broadcast use vstd::seq_lib::group_to_multiset_ensures;
        assert(repo_views(out@).to_multiset() =~= vstd::multiset::Multiset::empty());
        assert(repo_views(out@).to_multiset().add(all.to_multiset()) =~= all.to_multiset());
    }
    while rest.len() > 0
        invariant
            sorted_by_path(repo_views(out@)),
            repo_views(out@).to_multiset().add(repo_views(rest@).to_multiset()) == all.to_multiset(),
        decreases rest.len(),
    {
        let ghost before_rest = repo_views(rest@);
        let x = rest.pop().unwrap();
        proof {
            assert(before_rest =~= repo_views(rest@).push(x@));
            vstd::seq_lib::to_multiset_build(repo_views(rest@), x@);
        }
        let kx = path_key_of(&x);
        let ghost ov = repo_views(out@);
        let mut j: usize = 0;
        while j < out.len() && lex_le_exec(&path_key_of(&out[j]), &kx)
            invariant
                j <= out.len(),
                ov == repo_views(out@),
                kx@ == path_key(x@),
                forall|i: int| 0 <= i < j ==> lex_le(path_key(#[trigger] ov[i]), kx@),
            decreases out.len() - j,
        {
            j = j + 1;
        }
        out.insert(j, x);
        proof {
            let nv = repo_views(out@);
            assert(nv =~= ov.insert(j as int, x@));
            if j < ov.len() {
                lemma_lex_total(path_key(ov[j as int]), kx@);
            }
            assert forall|a: int, b: int| 0 <= a < b < nv.len() implies lex_le(
                path_key(nv[a]),
                path_key(nv[b]),
            ) by {
                if a == j && j + 1 < b {
                    lemma_lex_trans(kx@, path_key(ov[j as int]), path_key(ov[b - 1]));
                }
            }
            vstd::seq_lib::to_multiset_insert(ov, j as int, x@);
            let m_out = ov.to_multiset();
            let m_rest = repo_views(rest@).to_multiset();
            assert(m_out.insert(x@).add(m_rest) =~= m_out.add(m_rest.insert(x@)));
        }
    }
    proof {
        assert(repo_views(rest@) =~= Seq::<RepoView>::empty());
        assert(repo_views(out@).to_multiset().add(vstd::multiset::Multiset::empty()) =~= repo_views(out@).to_multiset());
    }
    out
}


pub open spec fn is_root(r: RepoView) -> bool {
    r.local == Some("."@)
}

/// The entries that a snapshot keeps: all, or all but the root's.
pub open spec fn kept(rs: Seq<RepoView>, force: bool) -> Seq<RepoView>
    decreases rs.len(),
{
    if rs.len() == 0 {
        seq![]
    } else {
        let k = kept(rs.drop_last(), force);
        if force || !is_root(rs.last()) {
            k.push(rs.last())
        } else {
            k
        }
    }
}

/// The manifest of the working trees found: the root's entry only with
/// `force`, all ordered by path with the root first, without the ignored
/// paths, and `develop` as the default branch.
pub fn snapshot(found: Vec<TomlRepo>, force: bool, ignore: Option<Vec<String>>) -> (c: TomlConfig)
    ensures
        c.version is None,
        c.default_remote is None,
        opt_view(c.default_branch) == Some("develop"@),
        c.repos is Some,
        exists|sorted: Seq<RepoView>|
            #![trigger sorted_by_path(sorted)]
            sorted_by_path(sorted) && sorted.to_multiset() == kept(repo_views(found@), force).to_multiset()
                && repo_views(c.repos->0@) == match ignore {
                Some(t) => without_ignored(sorted, views(t@)),
                None => sorted,
            },
{
    let ghost fv = repo_views(found@);
    let mut keep: Vec<TomlRepo> = Vec::new();
    let mut rest = found;
    let mut tail: Vec<TomlRepo> = Vec::new();
    // take the kept entries from the back, then turn them around
    let mut i: usize = rest.len();
    assert(fv.take(i as int) =~= fv);
    while i > 0
        invariant
            i == rest.len(),
            i <= fv.len(),
            repo_views(rest@) == fv.take(i as int),
            kept(fv, force) == kept(fv.take(i as int), force) + repo_views(tail@).reverse(),
        decreases i,
    {
        let x = rest.pop().unwrap();
        i = i - 1;
        proof {
            assert(fv.take(i + 1).drop_last() =~= fv.take(i as int));
            assert(fv.take(i + 1).last() == x@);
            assert(repo_views(rest@) =~= fv.take(i as int));
        }
        let is_r = match &x.local {
            Some(l) => *l == owned("."),
            None => false,
        };
        if force || !is_r {
            let ghost t0 = repo_views(tail@);
            tail.push(x);
            proof {
                assert(repo_views(tail@) =~= t0.push(x@));
                assert(t0.push(x@).reverse() =~= seq![x@] + t0.reverse());
                assert(kept(fv.take(i + 1), force) == kept(fv.take(i as int), force).push(x@));
                assert(kept(fv.take(i as int), force).push(x@) + t0.reverse() =~= kept(fv.take(i as int), force) + (seq![x@] + t0.reverse()));
            }
        } else {
            assert(kept(fv.take(i + 1), force) == kept(fv.take(i as int), force));
        }
    }
    assert(kept(fv.take(0), force) =~= Seq::<RepoView>::empty());
    let ghost tv = repo_views(tail@);
    let mut j: usize = tail.len();
    while j > 0
        invariant
            j == tail.len(),
            j <= tv.len(),
            repo_views(tail@) == tv.take(j as int),
            repo_views(keep@) == tv.skip(j as int).reverse(),
        decreases j,
    {
        let ghost tb = tail@;
        let x = tail.pop().unwrap();
        j = j - 1;
        assert(x == tb.last());
        assert(repo_views(tb).last() == x@);
        assert(x@ == tv[j as int]);
        let ghost k0 = repo_views(keep@);
        keep.push(x);
        proof {
            assert(tv.take(j + 1).drop_last() =~= tv.take(j as int));
            assert(repo_views(tail@) =~= tv.take(j as int));
            assert(repo_views(keep@) =~= k0.push(x@));
            assert(tv.skip(j as int).reverse() =~= tv.skip(j + 1).reverse().push(tv[j as int]));
        }
    }
    assert(tv.skip(0) =~= tv);
    assert(repo_views(keep@) =~= kept(fv, force));
    let mut sorted = sort_by_path(keep);
    exclude_ignore(&mut sorted, ignore);
    TomlConfig {
        version: None,
        default_branch: Some(owned("develop")),
        default_remote: None,
        repos: Some(sorted),
    }
}

/// What a snapshot records of a working tree is what a sync brings it back
/// to: an entry made in commit mode from a working tree at commit `head`
/// keeps the tree's path and is synchronised to exactly `head`, whatever its
/// remote is called.
pub proof fn lemma_snapshot_pins_head(
    local: Seq<char>,
    remote: Option<Seq<char>>,
    head: Seq<char>,
    remote_name: Seq<char>,
)
    ensures
        entry_of(local, remote, Some(head), false).local == Some(local),
        entry_of(local, remote, Some(head), false).remote == remote,
        target_of(entry_of(local, remote, Some(head), false), remote_name) == Some(
            RefView::Commit(head),
        ),
{
}

} // verus!
