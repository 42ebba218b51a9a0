//! Listing the files tracked by every repository of a manifest.
use vstd::prelude::*;
use crate::git::owned;
use crate::manifest::{repo_views, RepoView, TomlRepo};
use crate::text::{chars_of, lines, lines_of, replace, replace_str, starts_with, string_of, trim, trim_str, views};

verus! {

/// Where to look and which manifest to read.
pub struct ListFilesOptions {
    pub path: String,
    pub config_path: String,
}

impl ListFilesOptions {
    /// The options, with the current directory and `<path>/.gitrepos` in
    /// place of what is not given.
    pub fn new(path: Option<String>, config_path: Option<String>) -> (r: Self)
        ensures
            r.path@ == match path {
                Some(p) => p@,
                None => "."@,
            },
            r.config_path@ == match config_path {
                Some(c) => c@,
                None => r.path@ + "/.gitrepos"@,
            },
    {
        let p = match path {
            Some(p) => p,
            None => owned("."),
        };
        let c = match config_path {
            Some(c) => c,
            None => {
                let mut c = p.clone();
                c.append("/.gitrepos");
                c
            },
        };
        ListFilesOptions { path: p, config_path: c }
    }
}

/// Index of the last `c` in `x`.
pub open spec fn last_index(x: Seq<char>, c: char) -> Option<nat>
    decreases x.len(),
{
    if x.len() == 0 {
        None
    } else if x.last() == c {
        Some((x.len() - 1) as nat)
    } else {
        last_index(x.drop_last(), c)
    }
}

/// A path with `/` between its parts and without a leading `./`.
pub open spec fn norm(p: Seq<char>) -> Seq<char> {
    let q = replace(p, "\\"@, "/"@);
    if starts_with(q, "./"@) {
        q.skip(2)
    } else {
        q
    }
}

/// The path of `file` in the repository at `rel`, seen from the root.
pub open spec fn joined(rel: Seq<char>, file: Seq<char>) -> Seq<char> {
    if rel.len() > 0 && (rel.last() == '/' || rel.last() == '\\') {
        norm(rel + file)
    } else {
        norm(rel + "/"@ + file)
    }
}

/// A line of `git ls-files -s` (`<mode> <object> <stage>\t<file>`) with its
/// file seen from the root; `None` for a line without a tab.
pub open spec fn listed_line(rel: Seq<char>, line: Seq<char>) -> Option<Seq<char>> {
    match last_index(line, '\t') {
        None => None,
        Some(k) => Some(line.take(k as int) + "\t"@ + joined(rel, line.skip(k + 1 as int))),
    }
}

pub open spec fn listed_lines(rel: Seq<char>, ls: Seq<Seq<char>>) -> Seq<Seq<char>>
    decreases ls.len(),
{
    if ls.len() == 0 {
        seq![]
    } else {
        let rest = listed_lines(rel, ls.drop_last());
        match listed_line(rel, ls.last()) {
            Some(l) => rest.push(l),
            None => rest,
        }
    }
}

/// The files of all repositories: for each with a path whose listing
/// succeeded, its listed lines.
pub open spec fn all_files(rs: Seq<RepoView>, outs: Seq<Result<Seq<char>, Seq<char>>>) -> Seq<Seq<char>>
    decreases rs.len(),
{
    if rs.len() == 0 || outs.len() != rs.len() {
        seq![]
    } else {
        let rest = all_files(rs.drop_last(), outs.drop_last());
        match (rs.last().local, outs.last()) {
            (Some(rel), Ok(o)) => rest + listed_lines(rel, lines_of(trim(o))),
            _ => rest,
        }
    }
}

fn norm_of(p: &str) -> (r: String)
    ensures
        r@ == norm(p@),
{
    proof {
        reveal_strlit("\\");
    }
    let q = replace_str(p, "\\", "/");
    let v = chars_of(q.as_str());
    let dot = chars_of("./");
    if crate::text::starts_with_at(&v, 0, &dot) {
        proof {
            reveal_strlit("./");
            assert(v@.skip(0) =~= v@);
        }
        string_of(&v, 2, v.len())
    } else {
        assert(v@.skip(0) =~= v@);
        q
    }
}

fn listed_line_of(rel: &str, line: &str) -> (r: Option<String>)
    ensures
        match listed_line(rel@, line@) {
            Some(l) => r is Some && r->Some_0@ == l,
            None => r is None,
        },
{
    let v = chars_of(line);
    let mut k: usize = v.len();
    assert(v@.take(k as int) =~= v@);
    while k > 0 && v[k - 1] != '\t'
        invariant
            k <= v.len(),
            last_index(v@, '\t') == last_index(v@.take(k as int), '\t'),
        decreases k,
    {
        assert(v@.take(k as int).drop_last() =~= v@.take(k - 1));
        k = k - 1;
    }
    if k == 0 {
        assert(v@.take(0) =~= Seq::<char>::empty());
        return None;
    }
    let tab = k - 1;
    let left = string_of(&v, 0, tab);
    let right = string_of(&v, k, v.len());
    let rv = chars_of(rel);
    let mut full = owned(rel);
    if rv.len() > 0 && (rv[rv.len() - 1] == '/' || rv[rv.len() - 1] == '\\') {
    } else {
        full.append("/");
    }
    full.append(right.as_str());
    let p = norm_of(full.as_str());
    let mut out = left;
    out.append("\t");
    out.append(p.as_str());
    proof {
        assert(v@.take(k as int).last() == '\t');
        assert(v@.take(tab as int) =~= line@.take(tab as int));
        assert(v@.subrange(k as int, v.len() as int) =~= line@.skip(tab + 1));
    }
    Some(out)
}

/// Every file tracked by the repositories, from the output of `git ls-files -s`
/// run in each (`outputs[i]` for `repos[i]`): `<mode> <object> <stage>\t<path>`
/// with the path seen from the workspace root.
pub fn list_files(repos: &Vec<TomlRepo>, outputs: &Vec<Result<String, String>>) -> (r: Vec<String>)
    requires
        repos.len() == outputs.len(),
    ensures
        views(r@) == all_files(repo_views(repos@), outputs@.map_values(|e: Result<String, String>| crate::sync::ev_view(e))),
{
    let ghost rv = repo_views(repos@);
    let ghost ov = outputs@.map_values(|e: Result<String, String>| crate::sync::ev_view(e));
    let mut r: Vec<String> = Vec::new();
    let mut i: usize = 0;
    while i < repos.len()
        invariant
            i <= repos.len(),
            repos.len() == outputs.len(),
            rv == repo_views(repos@),
            ov == outputs@.map_values(|e: Result<String, String>| crate::sync::ev_view(e)),
            views(r@) == all_files(rv.take(i as int), ov.take(i as int)),
        decreases repos.len() - i,
    {
        proof {
            assert(rv.take(i + 1).drop_last() =~= rv.take(i as int));
            assert(ov.take(i + 1).drop_last() =~= ov.take(i as int));
            assert(rv.take(i + 1).last() == repos@[i as int]@);
            assert(ov.take(i + 1).last() == crate::sync::ev_view(outputs@[i as int]));
        }
        match (&repos[i].local, &outputs[i]) {
            (Some(rel), Ok(o)) => {
                let t = trim_str(o.as_str());
                let ls = lines(t.as_str());
                let ghost lv = views(ls@);
                let ghost base = views(r@);
                let mut j: usize = 0;
                while j < ls.len()
                    invariant
                        j <= ls.len(),
                        lv == views(ls@),
                        views(r@) == base + listed_lines(rel@, lv.take(j as int)),
                    decreases ls.len() - j,
                {
                    proof {
                        assert(lv.take(j + 1).drop_last() =~= lv.take(j as int));
                        assert(lv.take(j + 1).last() == ls@[j as int]@);
                    }
                    match listed_line_of(rel.as_str(), ls[j].as_str()) {
                        Some(l) => {
                            let ghost r0 = views(r@);
                            r.push(l);
                            assert(views(r@) =~= r0.push(l@));
                            assert(base + listed_lines(rel@, lv.take(j as int)).push(l@) =~= (base + listed_lines(rel@, lv.take(j as int))).push(l@));
                        },
                        None => {},
                    }
                    j = j + 1;
                }
                assert(lv.take(j as int) =~= lv);
            },
            _ => {},
        }
        i = i + 1;
    }
    assert(rv.take(i as int) =~= rv);
    assert(ov.take(i as int) =~= ov);
    r
}

} // verus!
