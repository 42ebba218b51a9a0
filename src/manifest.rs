//! The manifest: the repositories of a workspace and what each is pinned to.
use vstd::prelude::*;
use crate::git::{
    find_remote_name_by_url, remote_name_in, remote_not_found, owned, GitError, RemoteRef,
};
use crate::text::{lines_of, replace, replace_str, trim, views};

verus! {

/// One repository of the manifest.
#[derive(Debug, Clone, Default)]
pub struct TomlRepo {
    /// Path from the workspace root; `"."` is the root itself.
    pub local: Option<String>,
    pub remote: Option<String>,
    pub branch: Option<String>,
    pub tag: Option<String>,
    pub commit: Option<String>,
}

/// A manifest entry as values.
pub struct RepoView {
    pub local: Option<Seq<char>>,
    pub remote: Option<Seq<char>>,
    pub branch: Option<Seq<char>>,
    pub tag: Option<Seq<char>>,
    pub commit: Option<Seq<char>>,
}

pub open spec fn opt_view(o: Option<String>) -> Option<Seq<char>> {
    match o {
        Some(x) => Some(x@),
        None => None,
    }
}

impl View for TomlRepo {
    type V = RepoView;

    open spec fn view(&self) -> RepoView {
        RepoView {
            local: opt_view(self.local),
            remote: opt_view(self.remote),
            branch: opt_view(self.branch),
            tag: opt_view(self.tag),
            commit: opt_view(self.commit),
        }
    }
}

/// A remote ref as values.
pub enum RefView {
    Commit(Seq<char>),
    Tag(Seq<char>),
    Branch(Seq<char>),
}

impl View for RemoteRef {
    type V = RefView;

    open spec fn view(&self) -> RefView {
        match self {
            RemoteRef::Commit(c) => RefView::Commit(c@),
            RemoteRef::Tag(t) => RefView::Tag(t@),
            RemoteRef::Branch(b) => RefView::Branch(b@),
        }
    }
}

/// What an entry is synchronised to, once its remote is known by `remote_name`:
/// its commit, else its tag, else `<remote_name>/<branch>`.
pub open spec fn target_of(r: RepoView, remote_name: Seq<char>) -> Option<RefView> {
    if r.commit is Some {
        Some(RefView::Commit(r.commit->0))
    } else if r.tag is Some {
        Some(RefView::Tag(r.tag->0))
    } else if r.branch is Some {
        Some(RefView::Branch(remote_name + "/"@ + r.branch->0))
    } else {
        None
    }
}

pub fn copy_opt(o: &Option<String>) -> (r: Option<String>)
    ensures
        opt_view(r) == opt_view(*o),
{
    match o {
        Some(x) => Some(x.clone()),
        None => None,
    }
}

impl TomlRepo {
    /// A copy of the entry.
    pub fn copied(&self) -> (r: TomlRepo)
        ensures
            r@ == self@,
    {
        TomlRepo {
            local: copy_opt(&self.local),
            remote: copy_opt(&self.remote),
            branch: copy_opt(&self.branch),
            tag: copy_opt(&self.tag),
            commit: copy_opt(&self.commit),
        }
    }

    /// Reads `git remote -v`: the name of the remote whose URL is this
    /// entry's `remote`.
    pub fn get_remote_name(&self, remote_list: &str) -> (r: Result<String, GitError>)
        ensures
            self.remote is None ==> r is Err && r->Err_0 == GitError::RemoteUrlMissing,
            self.remote is Some ==> match remote_name_in(
                lines_of(trim(remote_list@)),
                self.remote->0@,
            ) {
                Some(n) => r is Ok && r->Ok_0@ == n,
                None => r is Err && remote_not_found(r->Err_0, self.remote->0@),
            },
    {
        match &self.remote {
            Some(url) => find_remote_name_by_url(remote_list, url.as_str()),
            None => Err(GitError::RemoteUrlMissing),
        }
    }

    /// What the entry is synchronised to: its commit, else its tag, else
    /// its branch on the remote whose URL is the entry's `remote`, named by
    /// reading `git remote -v` (only a branch needs that name).
    pub fn get_remote_ref(&self, remote_list: &str) -> (r: Result<RemoteRef, GitError>)
        ensures
            self.commit is Some ==> r is Ok && r->Ok_0@ == RefView::Commit(self.commit->0@),
            self.commit is None && self.tag is Some ==> r is Ok && r->Ok_0@ == RefView::Tag(
                self.tag->0@,
            ),
            self.commit is None && self.tag is None && self.branch is None ==> r is Err
                && r->Err_0 == GitError::RemoteRefInvalid,
            self.commit is None && self.tag is None && self.branch is Some ==> {
                if self.remote is None {
                    r is Err && r->Err_0 == GitError::RemoteUrlMissing
                } else {
                    match remote_name_in(lines_of(trim(remote_list@)), self.remote->0@) {
                        Some(n) => r is Ok && r->Ok_0@ == RefView::Branch(
                            n + "/"@ + self.branch->0@,
                        ),
                        None => r is Err && remote_not_found(r->Err_0, self.remote->0@),
                    }
                }
            },
    {
        if self.commit.is_some() || self.tag.is_some() || self.branch.is_none() {
            self.remote_ref_named("")
        } else {
            let remote_name = self.get_remote_name(remote_list)?;
            self.remote_ref_named(remote_name.as_str())
        }
    }

    /// What the entry is synchronised to, its remote being called
    /// `remote_name`.
    pub fn remote_ref_named(&self, remote_name: &str) -> (r: Result<RemoteRef, GitError>)
        ensures
            match target_of(self@, remote_name@) {
                Some(t) => r is Ok && r->Ok_0@ == t,
                None => r is Err && r->Err_0 == GitError::RemoteRefInvalid,
            },
    {
        if let Some(commit) = &self.commit {
            Ok(RemoteRef::Commit(commit.clone()))
        } else if let Some(tag) = &self.tag {
            Ok(RemoteRef::Tag(tag.clone()))
        } else if let Some(branch) = &self.branch {
            let mut b = owned(remote_name);
            b.append("/");
            b.append(branch.as_str());
            Ok(RemoteRef::Branch(b))
        } else {
            Err(GitError::RemoteRefInvalid)
        }
    }
}

/// A path as it is shown and compared: `"."` for the root, `/` between parts.
pub open spec fn display(p: Seq<char>) -> Seq<char> {
    if p.len() == 0 {
        "."@
    } else {
        replace(p, "\\"@, "/"@)
    }
}

/// A path as it is shown and compared: `"."` for the root, `/` between parts.
pub fn display_path(p: &str) -> (r: String)
    ensures
        r@ == display(p@),
{
    if p.unicode_len() == 0 {
        owned(".")
    } else {
        proof {
            reveal_strlit("\\");
        }
        replace_str(p, "\\", "/")
    }
}

/// Whether the entry's path, as shown, is `token`.
pub open spec fn matches_path(r: RepoView, token: Seq<char>) -> bool {
    r.local is Some && display(r.local->0) == token
}

/// Whether the entry's path, as shown, is one of `tokens`.
pub open spec fn ignored(r: RepoView, tokens: Seq<Seq<char>>) -> bool {
    exists|k: int| 0 <= k < tokens.len() && matches_path(r, #[trigger] tokens[k])
}

/// `rs` without the entries whose path is one of `tokens`, in order.
pub open spec fn without_ignored(rs: Seq<RepoView>, tokens: Seq<Seq<char>>) -> Seq<RepoView>
    decreases rs.len(),
{
    if rs.len() == 0 {
        rs
    } else if ignored(rs.last(), tokens) {
        without_ignored(rs.drop_last(), tokens)
    } else {
        without_ignored(rs.drop_last(), tokens).push(rs.last())
    }
}

pub open spec fn repo_views(rs: Seq<TomlRepo>) -> Seq<RepoView> {
    rs.map_values(|r: TomlRepo| r@)
}

fn path_matches(r: &TomlRepo, token: &str) -> (b: bool)
    ensures
        b == matches_path(r@, token@),
{
    match &r.local {
        Some(l) => {
            let d = display_path(l.as_str());
            d == owned(token)
        },
        None => false,
    }
}

fn is_ignored(r: &TomlRepo, tokens: &Vec<String>) -> (b: bool)
    ensures
        b == ignored(r@, views(tokens@)),
{
    let mut k: usize = 0;
    while k < tokens.len()
        invariant
            k <= tokens.len(),
            forall|j: int| 0 <= j < k ==> !matches_path(r@, #[trigger] views(tokens@)[j]),
        decreases tokens.len() - k,
    {
        if path_matches(r, tokens[k].as_str()) {
            assert(matches_path(r@, views(tokens@)[k as int]));
            return true;
        }
        k = k + 1;
    }
    false
}

/// Drops every entry whose path, as shown, is one of the ignored paths.
pub fn exclude_ignore(toml_repos: &mut Vec<TomlRepo>, ignore: Option<Vec<String>>)
    ensures
        ignore is None ==> final(toml_repos)@ == old(toml_repos)@,
        ignore is Some ==> repo_views(final(toml_repos)@) == without_ignored(
            repo_views(old(toml_repos)@),
            views(ignore->0@),
        ),
{
    if let Some(tokens) = ignore {
        let ghost start = repo_views(toml_repos@);
        let ghost toks = views(tokens@);
        let mut kept: Vec<TomlRepo> = Vec::new();
        let mut i: usize = 0;
        while i < toml_repos.len()
            invariant
                i <= toml_repos.len(),
                start == repo_views(toml_repos@),
                toks == views(tokens@),
                repo_views(kept@) == without_ignored(start.take(i as int), toks),
            decreases toml_repos.len() - i,
        {
            proof {
                assert(start.take(i + 1).drop_last() =~= start.take(i as int));
                assert(start.take(i + 1).last() == toml_repos@[i as int]@);
            }
            if !is_ignored(&toml_repos[i], &tokens) {
                let c = toml_repos[i].copied();
                let ghost k0 = repo_views(kept@);
                kept.push(c);
                assert(repo_views(kept@) =~= k0.push(c@));
            }
            i = i + 1;
        }
        assert(start.take(i as int) =~= start);
        *toml_repos = kept;
    }
}

/// What `toml_edit` writes for a string value: a basic or literal TOML string,
/// quoted and escaped as its rules choose.
pub uninterp spec fn toml_string_of(s: Seq<char>) -> Seq<char>;

/// Relies on `toml_edit::Value::from(&str)` and its `Display`, which writes the
/// string as a TOML value in its default representation (no decoration).
#[verifier::external_body]
fn toml_string(x: &str) -> (r: String)
    ensures
        r@ == toml_string_of(x@),
{
    toml_edit::Value::from(x).to_string()
}

/// The whole manifest.
#[derive(Debug, Clone, Default)]
pub struct TomlConfig {
    pub version: Option<String>,
    pub default_branch: Option<String>,
    pub default_remote: Option<String>,
    pub repos: Option<Vec<TomlRepo>>,
}

pub open spec fn header() -> Seq<char> {
    "# This file is automatically @generated by mgit.\n"@ + "# Editing it as you wish.\n"@
}

/// `key = <value>` and a line break, or nothing when the value is absent.
pub open spec fn field_line(key: Seq<char>, v: Option<Seq<char>>) -> Seq<char> {
    match v {
        Some(x) => key + " = "@ + toml_string_of(x) + "\n"@,
        None => Seq::empty(),
    }
}

pub open spec fn repo_block(r: RepoView) -> Seq<char> {
    "[[repos]]\n"@ + field_line("local"@, r.local) + field_line("remote"@, r.remote) + field_line(
        "branch"@,
        r.branch,
    ) + field_line("tag"@, r.tag) + field_line("commit"@, r.commit) + "\n"@
}

pub open spec fn repo_blocks(rs: Seq<RepoView>) -> Seq<char>
    decreases rs.len(),
{
    if rs.len() == 0 {
        Seq::empty()
    } else {
        repo_blocks(rs.drop_last()) + repo_block(rs.last())
    }
}

/// The text of a manifest file.
pub open spec fn manifest_text(c: &TomlConfig) -> Seq<char> {
    header() + field_line("version"@, opt_view(c.version)) + field_line(
        "default-branch"@,
        opt_view(c.default_branch),
    ) + field_line("default-remote"@, opt_view(c.default_remote)) + "\n"@ + match c.repos {
        Some(rs) => repo_blocks(repo_views(rs@)),
        None => Seq::empty(),
    }
}

fn push_field(out: &mut String, key: &str, v: &Option<String>)
    ensures
        final(out)@ == old(out)@ + field_line(key@, opt_view(*v)),
{
    if let Some(x) = v {
        let ghost o = out@;
        out.append(key);
        out.append(" = ");
        let t = toml_string(x.as_str());
        out.append(t.as_str());
        out.append("\n");
        assert(out@ =~= o + field_line(key@, opt_view(*v)));
    } else {
        assert(out@ =~= old(out)@ + field_line(key@, opt_view(*v)));
    }
}

fn push_block(out: &mut String, r: &TomlRepo)
    ensures
        final(out)@ == old(out)@ + repo_block(r@),
{
    let ghost o = out@;
    out.append("[[repos]]\n");
    let ghost a = out@;
    push_field(out, "local", &r.local);
    let ghost b = out@;
    push_field(out, "remote", &r.remote);
    let ghost c = out@;
    push_field(out, "branch", &r.branch);
    let ghost d = out@;
    push_field(out, "tag", &r.tag);
    let ghost e = out@;
    push_field(out, "commit", &r.commit);
    out.append("\n");
    assert(out@ =~= o + repo_block(r@));
}

impl TomlConfig {
    /// The manifest file's text: a fixed preamble, the top-level fields, then
    /// one `[[repos]]` block per entry with its fields in the order `local`,
    /// `remote`, `branch`, `tag`, `commit`; absent fields are left out.
    pub fn serialize(&self) -> (r: String)
        ensures
            r@ == manifest_text(self),
    {
        let mut out = owned("# This file is automatically @generated by mgit.\n");
        out.append("# Editing it as you wish.\n");
        assert(out@ =~= header());
        push_field(&mut out, "version", &self.version);
        push_field(&mut out, "default-branch", &self.default_branch);
        push_field(&mut out, "default-remote", &self.default_remote);
        out.append("\n");
        let ghost top = out@;
        if let Some(repos) = &self.repos {
            let ghost rv = repo_views(repos@);
            let mut i: usize = 0;
            while i < repos.len()
                invariant
                    i <= repos.len(),
                    rv == repo_views(repos@),
                    out@ == top + repo_blocks(rv.take(i as int)),
                decreases repos.len() - i,
            {
                push_block(&mut out, &repos[i]);
                proof {
                    assert(rv.take(i + 1).drop_last() =~= rv.take(i as int));
                    assert(out@ =~= top + repo_blocks(rv.take(i + 1)));
                }
                i = i + 1;
            }
            assert(rv.take(i as int) =~= rv);
        } else {
            assert(out@ =~= top + Seq::<char>::empty());
        }
        out
    }
}

} // verus!
