//! The git driver, without the process.
//!
//! Each operation is described by the argument vector given to `git` and,
//! where git's output is read, by a function that reads it. The caller runs
//! `git <args>` in the repository's directory and hands back what it printed:
//! `Ok(stdout)` when git exited with status 0, `Err(stderr)` otherwise.
//! Where an operation's output needs no reading, the function under its name
//! gives its argument vector.
use vstd::prelude::*;
use crate::text::{
    chars_of, contains, contains_str, decimal, decimal_string, find, find_in, lines, lines_of,
    replace, replace_str, split_char, split_on, string_of, trim, trim_str, views,
};

verus! {

/// How local work is treated while a repository is synchronised.
#[derive(Debug, Clone, Copy, PartialEq, Eq, Hash, Structural)]
pub enum StashMode {
    /// Keep local work: stash it and pop it back afterwards.
    Normal,
    /// Stash local work and pop it back only when the sync failed.
    Stash,
    /// Discard local work.
    Hard,
}

/// The kind of `git reset`.
#[derive(Debug, Clone, Copy, PartialEq, Eq, Hash, Structural)]
pub enum ResetType {
    Soft,
    Mixed,
    Hard,
}

/// The revision a repository is synchronised to.
#[derive(Debug, Clone, PartialEq, Eq, Hash)]
pub enum RemoteRef {
    Commit(String),
    Tag(String),
    /// A remote-tracking branch, `<remote name>/<branch>`.
    Branch(String),
}

/// What went wrong in a git operation.
#[derive(Debug, Clone, PartialEq, Eq)]
pub enum GitError {
    /// The directory is not the top of a git working tree.
    RepositoryNotFound,
    /// No remote, remote-tracking ref or URL of this name was found.
    RemoteNotFound(String),
    /// `HEAD` names no commit.
    CommitNotFound,
    /// The current branch has no upstream.
    Untracked,
    /// No current branch was found.
    CurrentBranchNotFound,
    /// The manifest entry has no remote URL.
    RemoteUrlMissing,
    /// The manifest entry names no commit, tag or branch.
    RemoteRefInvalid,
    /// git failed; its message.
    Command(String),
}

pub open spec fn git_error_text(e: GitError) -> Seq<char> {
    match e {
        GitError::RepositoryNotFound => "repository not found!"@,
        GitError::RemoteNotFound(n) => "remote not found: "@ + n@,
        GitError::CommitNotFound => "current commit not found."@,
        GitError::Untracked => "untracked."@,
        GitError::CurrentBranchNotFound => "current branch not found."@,
        GitError::RemoteUrlMissing => "remote url is null."@,
        GitError::RemoteRefInvalid => "remote ref is invalid!"@,
        GitError::Command(m) => m@,
    }
}

impl GitError {
    /// The error as a line of text.
    pub fn message(&self) -> (r: String)
        ensures
            r@ == git_error_text(*self),
    {
        match self {
            GitError::RepositoryNotFound => owned("repository not found!"),
            GitError::RemoteNotFound(n) => {
                let mut m = owned("remote not found: ");
                m.append(n.as_str());
                m
            },
            GitError::CommitNotFound => owned("current commit not found."),
            GitError::Untracked => owned("untracked."),
            GitError::CurrentBranchNotFound => owned("current branch not found."),
            GitError::RemoteUrlMissing => owned("remote url is null."),
            GitError::RemoteRefInvalid => owned("remote ref is invalid!"),
            GitError::Command(m) => m.clone(),
        }
    }
}

pub open spec fn remote_not_found(e: GitError, name: Seq<char>) -> bool {
    match e {
        GitError::RemoteNotFound(n) => n@ == name,
        _ => false,
    }
}

pub open spec fn command_failed(e: GitError, msg: Seq<char>) -> bool {
    match e {
        GitError::Command(m) => m@ == msg,
        _ => false,
    }
}

pub open spec fn ref_view(r: RemoteRef) -> Seq<char> {
    match r {
        RemoteRef::Commit(c) => c@,
        RemoteRef::Tag(t) => t@,
        RemoteRef::Branch(b) => b@,
    }
}

/// The first line of `s`, if it has one.
pub open spec fn first_line(s: Seq<char>) -> Option<Seq<char>> {
    if lines_of(s).len() > 0 {
        Some(lines_of(s)[0])
    } else {
        None
    }
}

/// The name in front of the first line that holds `url`, as `git remote -v`
/// prints `<name>\t<url> (fetch)`.
pub open spec fn remote_name_in(lines: Seq<Seq<char>>, url: Seq<char>) -> Option<Seq<char>>
    decreases lines.len(),
{
    if lines.len() == 0 {
        None
    } else if contains(lines[0], url) {
        Some(trim(lines[0].take(find(lines[0], url)->0 as int)))
    } else {
        remote_name_in(lines.drop_first(), url)
    }
}

pub(crate) fn owned(x: &str) -> (r: String)
    ensures
        r@ == x@,
{
    x.to_string()
}

/// The text before the first occurrence of `p` in `line`, trimmed; `None` when
/// `p` does not occur.
fn trimmed_prefix_before(line: &str, p: &str) -> (r: Option<String>)
    ensures
        match r {
            Some(n) => contains(line@, p@) && n@ == trim(line@.take(find(line@, p@)->0 as int)),
            None => !contains(line@, p@),
        },
{
    let v = chars_of(line);
    let q = chars_of(p);
    match find_in(&v, &q) {
        Some(k) => {
            let pre = string_of(&v, 0, k);
            assert(pre@ =~= line@.take(k as int));
            Some(trim_str(pre.as_str()))
        },
        None => None,
    }
}

/// Reads `git rev-parse --show-cdup`: the directory is a repository when it
/// holds a `.git` directory and git prints nothing, that is, when it is the
/// top of the working tree.
pub fn is_repository(has_git_dir: bool, show_cdup: &Result<String, String>) -> (r: Result<
    (),
    GitError,
>)
    ensures
        r is Ok <==> (has_git_dir && show_cdup is Ok && trim(show_cdup->Ok_0@).len() == 0),
        r is Err ==> r->Err_0 == GitError::RepositoryNotFound,
{
    if has_git_dir {
        if let Ok(out) = show_cdup {
            let t = trim_str(out.as_str());
            if t.unicode_len() == 0 {
                return Ok(());
            }
        }
    }
    Err(GitError::RepositoryNotFound)
}

pub open spec fn show_cdup_argv() -> Seq<Seq<char>> {
    seq!["rev-parse"@, "--show-cdup"@]
}

pub fn is_repository_args() -> (r: Vec<String>)
    ensures
        views(r@) == show_cdup_argv(),
{
    let r = vec![owned("rev-parse"), owned("--show-cdup")];
    assert(views(r@) =~= show_cdup_argv());
    r
}


/// Reads `git branch --contains <ref> -r`: the ref is valid when git succeeds.
pub fn is_remote_ref_valid(remote_ref: &str, out: &Result<String, String>) -> (r: Result<
    (),
    GitError,
>)
    ensures
        r is Ok <==> out is Ok,
        r is Err ==> remote_not_found(r->Err_0, remote_ref@),
{
    match out {
        Ok(_) => Ok(()),
        Err(_) => Err(GitError::RemoteNotFound(owned(remote_ref))),
    }
}

pub open spec fn ref_valid_argv(remote_ref: Seq<char>) -> Seq<Seq<char>> {
    seq!["branch"@, "--contains"@, remote_ref, "-r"@]
}

pub fn is_remote_ref_valid_args(remote_ref: &str) -> (r: Vec<String>)
    ensures
        views(r@) == ref_valid_argv(remote_ref@),
{
    let r = vec![owned("branch"), owned("--contains"), owned(remote_ref), owned("-r")];
    assert(views(r@) =~= ref_valid_argv(remote_ref@));
    r
}

/// Reads `git remote -v`: the name of the first remote whose line holds `url`.
pub fn find_remote_name_by_url(remote_list: &str, url: &str) -> (r: Result<String, GitError>)
    ensures
        match remote_name_in(lines_of(trim(remote_list@)), url@) {
            Some(n) => r is Ok && r->Ok_0@ == n,
            None => r is Err && remote_not_found(r->Err_0, url@),
        },
{
    let t = trim_str(remote_list);
    let ls = lines(t.as_str());
    let ghost all = views(ls@);
    let mut i: usize = 0;
    assert(all.skip(0) =~= all);
    while i < ls.len()
        invariant
            i <= ls.len(),
            all == views(ls@),
            all == lines_of(trim(remote_list@)),
            remote_name_in(all, url@) == remote_name_in(all.skip(i as int), url@),
        decreases ls.len() - i,
    {
        let line = &ls[i];
        assert(all.skip(i as int)[0] == line@);
        match trimmed_prefix_before(line.as_str(), url) {
            Some(n) => {
                return Ok(n);
            },
            None => {
                assert(all.skip(i as int).drop_first() =~= all.skip(i + 1));
            },
        }
        i = i + 1;
    }
    Err(GitError::RemoteNotFound(owned(url)))
}

pub open spec fn remote_list_argv() -> Seq<Seq<char>> {
    seq!["remote"@, "-v"@]
}

pub fn find_remote_name_by_url_args() -> (r: Vec<String>)
    ensures
        views(r@) == remote_list_argv(),
{
    let r = vec![owned("remote"), owned("-v")];
    assert(views(r@) =~= remote_list_argv());
    r
}

/// The first line of `x`.
pub fn first_line_of(x: &str) -> (r: Option<String>)
    ensures
        match first_line(x@) {
            Some(l) => r is Some && r->Some_0@ == l,
            None => r is None,
        },
{
    let mut ls = lines(x);
    if ls.len() > 0 {
        assert(views(ls@)[0] == ls@[0]@);
        Some(ls.swap_remove(0))
    } else {
        None
    }
}

/// Reads `git remote get-url <name>`: its first line, trimmed.
pub fn find_remote_url_by_name(name: &str, out: &str) -> (r: Result<String, GitError>)
    ensures
        match first_line(trim(out@)) {
            Some(l) => r is Ok && r->Ok_0@ == trim(l),
            None => r is Err && remote_not_found(r->Err_0, name@),
        },
{
    let t = trim_str(out);
    match first_line_of(t.as_str()) {
        Some(l) => Ok(trim_str(l.as_str())),
        None => Err(GitError::RemoteNotFound(owned(name))),
    }
}

pub open spec fn remote_url_argv(name: Seq<char>) -> Seq<Seq<char>> {
    seq!["remote"@, "get-url"@, name]
}

pub fn find_remote_url_by_name_args(name: &str) -> (r: Vec<String>)
    ensures
        views(r@) == remote_url_argv(name@),
{
    let r = vec![owned("remote"), owned("get-url"), owned(name)];
    assert(views(r@) =~= remote_url_argv(name@));
    r
}

/// Reads `git rev-parse HEAD`: the first line of what it printed.
pub fn get_current_commit(out: &str) -> (r: Result<String, GitError>)
    ensures
        match first_line(trim(out@)) {
            Some(l) => r is Ok && r->Ok_0@ == l,
            None => r is Err && r->Err_0 == GitError::CommitNotFound,
        },
{
    let t = trim_str(out);
    match first_line_of(t.as_str()) {
        Some(l) => Ok(l),
        None => Err(GitError::CommitNotFound),
    }
}

pub open spec fn current_commit_argv() -> Seq<Seq<char>> {
    seq!["rev-parse"@, "HEAD"@]
}

pub fn get_current_commit_args() -> (r: Vec<String>)
    ensures
        views(r@) == current_commit_argv(),
{
    let r = vec![owned("rev-parse"), owned("HEAD")];
    assert(views(r@) =~= current_commit_argv());
    r
}

/// Reads `git rev-parse --symbolic-full-name --abbrev-ref @{u}`: the upstream,
/// trimmed, unless git printed nothing.
pub fn get_tracking_branch(out: &str) -> (r: Result<String, GitError>)
    ensures
        trim(out@).len() > 0 ==> r is Ok && r->Ok_0@ == trim(out@),
        trim(out@).len() == 0 ==> r is Err && r->Err_0 == GitError::Untracked,
{
    let t = trim_str(out);
    if t.unicode_len() > 0 {
        Ok(t)
    } else {
        Err(GitError::Untracked)
    }
}

pub open spec fn tracking_branch_argv() -> Seq<Seq<char>> {
    seq!["rev-parse"@, "--symbolic-full-name"@, "--abbrev-ref"@, "@{u}"@]
}

pub fn get_tracking_branch_args() -> (r: Vec<String>)
    ensures
        views(r@) == tracking_branch_argv(),
{
    let r = vec![owned("rev-parse"), owned("--symbolic-full-name"), owned("--abbrev-ref"), owned("@{u}")];
    assert(views(r@) =~= tracking_branch_argv());
    r
}

/// Reads `git tag --points-at HEAD`: one tag per line, unless git reported a
/// fatal error.
pub fn get_head_tags(out: &str) -> (r: Result<Vec<String>, GitError>)
    ensures
        contains(out@, "fatal:"@) ==> r is Err && command_failed(r->Err_0, out@),
        !contains(out@, "fatal:"@) ==> r is Ok && views(r->Ok_0@) == lines_of(trim(out@)),
{
    if contains_str(out, "fatal:") {
        return Err(GitError::Command(owned(out)));
    }
    let t = trim_str(out);
    Ok(lines(t.as_str()))
}

pub open spec fn head_tags_argv() -> Seq<Seq<char>> {
    seq!["tag"@, "--points-at"@, "HEAD"@]
}

pub fn get_head_tags_args() -> (r: Vec<String>)
    ensures
        views(r@) == head_tags_argv(),
{
    let r = vec![owned("tag"), owned("--points-at"), owned("HEAD")];
    assert(views(r@) =~= head_tags_argv());
    r
}

pub open spec fn show_current_argv() -> Seq<Seq<char>> {
    seq!["branch"@, "--show-current"@]
}

/// `git branch --show-current`.
pub fn show_current_args() -> (r: Vec<String>)
    ensures
        views(r@) == show_current_argv(),
{
    let r = vec![owned("branch"), owned("--show-current")];
    assert(views(r@) =~= show_current_argv());
    r
}

/// Reads `git branch --show-current`: the branch it names, if any. Whether
/// that branch has a commit yet is asked next, with `git branch -l <name>`.
pub fn current_branch_candidate(out: &str) -> (r: Option<String>)
    ensures
        match first_line(trim(out@)) {
            Some(l) => r is Some && r->Some_0@ == l,
            None => r is None,
        },
{
    let t = trim_str(out);
    first_line_of(t.as_str())
}

/// Reads `git branch -l <candidate>`: the candidate is the current branch when
/// the listing names it.
pub fn get_current_branch(candidate: &str, listing: &Result<String, String>) -> (r: Result<
    String,
    GitError,
>)
    ensures
        match listing {
            Ok(o) => if contains(o@, candidate@) {
                r is Ok && r->Ok_0@ == candidate@
            } else {
                r is Err && r->Err_0 == GitError::CurrentBranchNotFound
            },
            Err(e) => r is Err && command_failed(r->Err_0, e@),
        },
{
    match listing {
        Ok(o) => {
            if contains_str(o.as_str(), candidate) {
                Ok(owned(candidate))
            } else {
                Err(GitError::CurrentBranchNotFound)
            }
        },
        Err(e) => Err(GitError::Command(owned(e.as_str()))),
    }
}

pub open spec fn list_branch_argv(branch: Seq<char>) -> Seq<Seq<char>> {
    seq!["branch"@, "-l"@, branch]
}

/// `git branch -l <branch>`.
pub fn list_branch_args(branch: &str) -> (r: Vec<String>)
    ensures
        views(r@) == list_branch_argv(branch@),
{
    let r = vec![owned("branch"), owned("-l"), owned(branch)];
    assert(views(r@) =~= list_branch_argv(branch@));
    r
}

/// Reads `git show-branch --sha1-name <branch>`: its output trimmed, or nothing
/// when git failed.
pub fn get_branch_log(out: &Result<String, String>) -> (r: String)
    ensures
        out is Ok ==> r@ == trim(out->Ok_0@),
        out is Err ==> r@.len() == 0,
{
    match out {
        Ok(o) => trim_str(o.as_str()),
        Err(_) => String::new(),
    }
}

pub open spec fn branch_log_argv(branch: Seq<char>) -> Seq<Seq<char>> {
    seq!["show-branch"@, "--sha1-name"@, branch]
}

pub fn get_branch_log_args(branch: &str) -> (r: Vec<String>)
    ensures
        views(r@) == branch_log_argv(branch@),
{
    let r = vec![owned("show-branch"), owned("--sha1-name"), owned(branch)];
    assert(views(r@) =~= branch_log_argv(branch@));
    r
}

pub open spec fn untracked_files_argv() -> Seq<Seq<char>> {
    seq!["ls-files"@, "."@, "--exclude-standard"@, "--others"@]
}

/// Lists untracked files that are not ignored.
pub fn get_untrack_files() -> (r: Vec<String>)
    ensures
        views(r@) == untracked_files_argv(),
{
    let r = vec![owned("ls-files"), owned("."), owned("--exclude-standard"), owned("--others")];
    assert(views(r@) =~= untracked_files_argv());
    r
}

pub open spec fn changed_files_argv() -> Seq<Seq<char>> {
    seq!["diff"@, "--name-only"@]
}

/// Lists tracked files changed in the working tree.
pub fn get_changed_files() -> (r: Vec<String>)
    ensures
        views(r@) == changed_files_argv(),
{
    let r = vec![owned("diff"), owned("--name-only")];
    assert(views(r@) =~= changed_files_argv());
    r
}

pub open spec fn staged_files_argv() -> Seq<Seq<char>> {
    seq!["diff"@, "--cached"@, "--name-only"@]
}

/// Lists staged files.
pub fn get_staged_files() -> (r: Vec<String>)
    ensures
        views(r@) == staged_files_argv(),
{
    let r = vec![owned("diff"), owned("--cached"), owned("--name-only")];
    assert(views(r@) =~= staged_files_argv());
    r
}

pub open spec fn rev_list_argv(pair: Seq<char>) -> Seq<Seq<char>> {
    seq!["rev-list"@, "--count"@, "--left-right"@, pair]
}

/// Counts the commits on each side of `a...b`.
pub fn get_rev_list_count(branch_pair: &str) -> (r: Vec<String>)
    ensures
        views(r@) == rev_list_argv(branch_pair@),
{
    let r = vec![owned("rev-list"), owned("--count"), owned("--left-right"), owned(branch_pair)];
    assert(views(r@) =~= rev_list_argv(branch_pair@));
    r
}

pub open spec fn init_argv() -> Seq<Seq<char>> {
    seq!["init"@, "-b"@, "master"@]
}

/// Creates a repository. Its first branch is always called `master`, whatever
/// the host's git configuration says.
pub fn init() -> (r: Vec<String>)
    ensures
        views(r@) == init_argv(),
{
    let r = vec![owned("init"), owned("-b"), owned("master")];
    assert(views(r@) =~= init_argv());
    r
}

pub open spec fn add_remote_argv(url: Seq<char>) -> Seq<Seq<char>> {
    seq!["remote"@, "add"@, "origin"@, url]
}

/// Adds `url` as the remote `origin`.
pub fn add_remote_url(url: &str) -> (r: Vec<String>)
    ensures
        views(r@) == add_remote_argv(url@),
{
    let r = vec![owned("remote"), owned("add"), owned("origin"), owned(url)];
    assert(views(r@) =~= add_remote_argv(url@));
    r
}

pub open spec fn clean_argv() -> Seq<Seq<char>> {
    seq!["clean"@, "-fd"@]
}

/// Removes untracked files and directories.
pub fn clean() -> (r: Vec<String>)
    ensures
        views(r@) == clean_argv(),
{
    let r = vec![owned("clean"), owned("-fd")];
    assert(views(r@) =~= clean_argv());
    r
}

pub open spec fn reset_flag(t: ResetType) -> Seq<char> {
    match t {
        ResetType::Soft => "--soft"@,
        ResetType::Mixed => "--mixed"@,
        ResetType::Hard => "--hard"@,
    }
}

pub open spec fn reset_argv(t: ResetType, remote_ref: Seq<char>) -> Seq<Seq<char>> {
    seq!["reset"@, reset_flag(t), remote_ref]
}

/// Resets the current branch to `remote_ref`.
pub fn reset(reset_type: ResetType, remote_ref: &str) -> (r: Vec<String>)
    ensures
        views(r@) == reset_argv(reset_type, remote_ref@),
{
    let flag = match reset_type {
        ResetType::Soft => owned("--soft"),
        ResetType::Mixed => owned("--mixed"),
        ResetType::Hard => owned("--hard"),
    };
    let r = vec![owned("reset"), flag, owned(remote_ref)];
    assert(views(r@) =~= reset_argv(reset_type, remote_ref@));
    r
}

pub open spec fn untracked_list_argv() -> Seq<Seq<char>> {
    seq!["ls-files"@, "-o"@, "--exclude-standard"@]
}

/// `git ls-files -o --exclude-standard`, read by `add_untracked_files`.
pub fn untracked_list_args() -> (r: Vec<String>)
    ensures
        views(r@) == untracked_list_argv(),
{
    let r = vec![owned("ls-files"), owned("-o"), owned("--exclude-standard")];
    assert(views(r@) =~= untracked_list_argv());
    r
}

pub open spec fn add_untracked_argv(listing: Seq<char>) -> Option<Seq<Seq<char>>> {
    if listing.len() == 0 {
        None
    } else {
        Some(seq!["add"@] + split_on(trim(listing), '\n'))
    }
}

/// Reads `git ls-files -o --exclude-standard`: the `git add` that stages the
/// files it listed, or `None` when it listed nothing.
pub fn add_untracked_files(listing: &str) -> (r: Option<Vec<String>>)
    ensures
        match add_untracked_argv(listing@) {
            Some(a) => r is Some && views(r->Some_0@) == a,
            None => r is None,
        },
{
    if listing.unicode_len() == 0 {
        return None;
    }
    let t = trim_str(listing);
    let files = split_char(t.as_str(), '\n');
    let mut r = vec![owned("add")];
    let mut i: usize = 0;
    while i < files.len()
        invariant
            i <= files.len(),
            views(files@) == split_on(t@, '\n'),
            views(r@) == seq!["add"@] + views(files@).take(i as int),
        decreases files.len() - i,
    {
        let ghost before = r@;
        r.push(owned(files[i].as_str()));
        assert(views(r@) =~= views(before).push(views(files@)[i as int]));
        assert(views(files@).take(i + 1) =~= views(files@).take(i as int).push(views(files@)[i as int]));
        assert(views(r@) =~= seq!["add"@] + views(files@).take(i + 1));
        i = i + 1;
    }
    assert(views(files@).take(i as int) =~= views(files@));
    Some(r)
}

pub open spec fn stash_argv() -> Seq<Seq<char>> {
    seq!["stash"@, "-u"@]
}

/// Stashes local changes, untracked files included. The sync stages untracked
/// files first (`add_untracked_files`).
pub fn stash() -> (r: Vec<String>)
    ensures
        views(r@) == stash_argv(),
{
    let r = vec![owned("stash"), owned("-u")];
    assert(views(r@) =~= stash_argv());
    r
}

pub open spec fn stash_pop_argv() -> Seq<Seq<char>> {
    seq!["stash"@, "pop"@]
}

/// Restores the last stash.
pub fn stash_pop() -> (r: Vec<String>)
    ensures
        views(r@) == stash_pop_argv(),
{
    let r = vec![owned("stash"), owned("pop")];
    assert(views(r@) =~= stash_pop_argv());
    r
}

/// Reads `git branch -l <branch>`: whether the branch exists locally.
pub fn local_branch_already_exist(branch: &str, out: &str) -> (r: bool)
    ensures
        r == contains(trim(out@), branch@),
{
    let t = trim_str(out);
    contains_str(t.as_str(), branch)
}

pub open spec fn checkout_argv(branch: Seq<char>, remote_ref: Seq<char>, exists: bool, force: bool) -> Seq<Seq<char>> {
    if !exists && !force {
        seq!["checkout"@, "-B"@, branch, remote_ref, "--no-track"@]
    } else if !exists && force {
        seq!["checkout"@, "-B"@, branch, remote_ref, "--no-track"@, "-f"@]
    } else if exists && !force {
        seq!["checkout"@, branch]
    } else {
        seq!["checkout"@, "-B"@, branch, "-f"@]
    }
}

/// Checks out `branch`: created at `remote_ref` (or reset there) when it does
/// not exist yet, else switched to; `force` discards local changes.
pub fn checkout(branch: &str, remote_ref: &str, exists: bool, force: bool) -> (r: Vec<String>)
    ensures
        views(r@) == checkout_argv(branch@, remote_ref@, exists, force),
{
    let r = if !exists && !force {
        vec![owned("checkout"), owned("-B"), owned(branch), owned(remote_ref), owned("--no-track")]
    } else if !exists && force {
        vec![owned("checkout"), owned("-B"), owned(branch), owned(remote_ref), owned("--no-track"), owned("-f")]
    } else if exists && !force {
        vec![owned("checkout"), owned(branch)]
    } else {
        vec![owned("checkout"), owned("-B"), owned(branch), owned("-f")]
    };
    assert(views(r@) =~= checkout_argv(branch@, remote_ref@, exists, force));
    r
}

pub open spec fn remote_branch_names(ls: Seq<Seq<char>>) -> Seq<Seq<char>> {
    ls.map_values(|l: Seq<char>| replace(trim(l), "origin/"@, ""@))
}

/// Reads `git branch -r`: each remote branch without its `origin/`; nothing
/// when git failed.
pub fn get_remote_branches(out: &Result<String, String>) -> (r: Vec<String>)
    ensures
        out is Ok ==> views(r@) == remote_branch_names(lines_of(trim(out->Ok_0@))),
        out is Err ==> r@.len() == 0,
{
    let mut r: Vec<String> = Vec::new();
    if let Ok(o) = out {
        let t = trim_str(o.as_str());
        let ls = lines(t.as_str());
        let ghost all = views(ls@);
        let mut i: usize = 0;
        while i < ls.len()
            invariant
                i <= ls.len(),
                all == views(ls@),
                all == lines_of(trim(o@)),
                views(r@) == remote_branch_names(all.take(i as int)),
            decreases ls.len() - i,
        {
            let l = trim_str(ls[i].as_str());
            proof {
                reveal_strlit("origin/");
            }
            let b = replace_str(l.as_str(), "origin/", "");
            let ghost before = r@;
            r.push(b);
            assert(views(r@) =~= views(before).push(b@));
            assert(all.take(i + 1) =~= all.take(i as int).push(all[i as int]));
            assert(views(r@) =~= remote_branch_names(all.take(i + 1)));
            i = i + 1;
        }
        assert(all.take(i as int) =~= all);
    }
    r
}

pub open spec fn remote_branches_argv() -> Seq<Seq<char>> {
    seq!["branch"@, "-r"@]
}

pub fn get_remote_branches_args() -> (r: Vec<String>)
    ensures
        views(r@) == remote_branches_argv(),
{
    let r = vec![owned("branch"), owned("-r")];
    assert(views(r@) =~= remote_branches_argv());
    r
}

pub open spec fn tracking_succ_msg(rel_path: Seq<char>, local_branch: Seq<char>, remote_desc: Seq<char>) -> Seq<char> {
    rel_path + ": "@ + local_branch + " -> "@ + remote_desc
}

pub open spec fn tracking_failed_msg(rel_path: Seq<char>, remote_desc: Seq<char>) -> Seq<char> {
    rel_path + ": untracked, "@ + remote_desc + " not found"@
}

/// Reads `git branch --set-upstream-to <ref>`: the line that reports it.
pub fn set_tracking_remote_branch(
    rel_path: &str,
    local_branch: &str,
    remote_desc: &str,
    out: &Result<String, String>,
) -> (r: String)
    ensures
        out is Ok ==> r@ == tracking_succ_msg(rel_path@, local_branch@, remote_desc@),
        out is Err ==> r@ == tracking_failed_msg(rel_path@, remote_desc@),
{
    let mut m = owned(rel_path);
    match out {
        Ok(_) => {
            m.append(": ");
            m.append(local_branch);
            m.append(" -> ");
            m.append(remote_desc);
        },
        Err(_) => {
            m.append(": untracked, ");
            m.append(remote_desc);
            m.append(" not found");
        },
    }
    m
}

pub open spec fn set_upstream_argv(remote_ref: Seq<char>) -> Seq<Seq<char>> {
    seq!["branch"@, "--set-upstream-to"@, remote_ref]
}

pub fn set_tracking_remote_branch_args(remote_ref: &str) -> (r: Vec<String>)
    ensures
        views(r@) == set_upstream_argv(remote_ref@),
{
    let r = vec![owned("branch"), owned("--set-upstream-to"), owned(remote_ref)];
    assert(views(r@) =~= set_upstream_argv(remote_ref@));
    r
}

/// Points the remote `origin` at `url`.
pub fn update_remote_url(url: &str) -> (r: Vec<String>)
    ensures
        views(r@) == seq!["remote"@, "set-url"@, "origin"@, url@],
{
    let r = vec![owned("remote"), owned("set-url"), owned("origin"), owned(url)];
    assert(views(r@) =~= seq!["remote"@, "set-url"@, "origin"@, url@]);
    r
}

pub open spec fn ls_files_argv() -> Seq<Seq<char>> {
    seq!["ls-files"@, "-s"@]
}

/// Lists the files in the index, with mode, object and stage.
pub fn ls_files() -> (r: Vec<String>)
    ensures
        views(r@) == ls_files_argv(),
{
    let r = vec![owned("ls-files"), owned("-s")];
    assert(views(r@) =~= ls_files_argv());
    r
}

/// Shows the last commit: hash, author, date and subject.
pub fn log_current() -> (r: Vec<String>)
    ensures
        views(r@) == seq![
            "log"@,
            "-1"@,
            "--pretty=format:\"%H%n%an <%ae>%n%ad%n%s%n\""@,
            "--date=format-local:\"%Y-%m-%d %H:%M:%S\""@,
        ],
{
    let r = vec![
        owned("log"),
        owned("-1"),
        owned("--pretty=format:\"%H%n%an <%ae>%n%ad%n%s%n\""),
        owned("--date=format-local:\"%Y-%m-%d %H:%M:%S\""),
    ];
    assert(views(r@) =~= seq![
        "log"@,
        "-1"@,
        "--pretty=format:\"%H%n%an <%ae>%n%ad%n%s%n\""@,
        "--date=format-local:\"%Y-%m-%d %H:%M:%S\""@,
    ]);
    r
}

/// Limits the working tree to `dirs`, as patterns.
pub fn sparse_checkout_set(dirs: &Vec<String>) -> (r: Vec<String>)
    ensures
        views(r@) == seq!["sparse-checkout"@, "set"@, "--no-cone"@] + views(dirs@),
{
    let mut r = vec![owned("sparse-checkout"), owned("set"), owned("--no-cone")];
    let mut i: usize = 0;
    while i < dirs.len()
        invariant
            i <= dirs.len(),
            views(r@) == seq!["sparse-checkout"@, "set"@, "--no-cone"@] + views(dirs@).take(i as int),
        decreases dirs.len() - i,
    {
        let ghost before = r@;
        r.push(owned(dirs[i].as_str()));
        assert(views(r@) =~= views(before).push(views(dirs@)[i as int]));
        assert(views(dirs@).take(i + 1) =~= views(dirs@).take(i as int).push(views(dirs@)[i as int]));
        assert(views(r@) =~= seq!["sparse-checkout"@, "set"@, "--no-cone"@] + views(dirs@).take(i + 1));
        i = i + 1;
    }
    assert(views(dirs@).take(i as int) =~= views(dirs@));
    r
}

/// Turns sparse checkout off.
pub fn sparse_checkout_disable() -> (r: Vec<String>)
    ensures
        views(r@) == seq!["sparse-checkout"@, "disable"@],
{
    let r = vec![owned("sparse-checkout"), owned("disable")];
    assert(views(r@) =~= seq!["sparse-checkout"@, "disable"@]);
    r
}

/// Lists the sparse checkout patterns.
pub fn sparse_checkout_list() -> (r: Vec<String>)
    ensures
        views(r@) == seq!["sparse-checkout"@, "list"@],
{
    let r = vec![owned("sparse-checkout"), owned("list")];
    assert(views(r@) =~= seq!["sparse-checkout"@, "list"@]);
    r
}

/// Creates (or moves) the remote branch `new_branch` at `origin/<base_branch>`.
pub fn new_remote_branch(base_branch: &str, new_branch: &str) -> (r: Vec<String>)
    ensures
        views(r@) == seq![
            "push"@,
            "origin"@,
            "origin/"@ + base_branch@ + ":refs/heads/"@ + new_branch@,
            "--force"@,
        ],
{
    let mut spec_arg = owned("origin/");
    spec_arg.append(base_branch);
    spec_arg.append(":refs/heads/");
    spec_arg.append(new_branch);
    let r = vec![owned("push"), owned("origin"), spec_arg, owned("--force")];
    assert(views(r@) =~= seq![
        "push"@,
        "origin"@,
        "origin/"@ + base_branch@ + ":refs/heads/"@ + new_branch@,
        "--force"@,
    ]);
    r
}

/// Deletes the remote branch `branch`.
pub fn del_remote_branch(branch: &str) -> (r: Vec<String>)
    ensures
        views(r@) == seq!["push"@, "origin"@, "--delete"@, branch@],
{
    let r = vec![owned("push"), owned("origin"), owned("--delete"), owned(branch)];
    assert(views(r@) =~= seq!["push"@, "origin"@, "--delete"@, branch@]);
    r
}

pub open spec fn head_ref(branch: Seq<char>) -> Seq<char> {
    "refs/heads/"@ + branch
}

/// `git ls-remote --heads origin refs/heads/<branch>`.
pub fn check_remote_branch_exist_args(branch: &str) -> (r: Vec<String>)
    ensures
        views(r@) == seq!["ls-remote"@, "--heads"@, "origin"@, head_ref(branch@)],
{
    let mut head = owned("refs/heads/");
    head.append(branch);
    let r = vec![owned("ls-remote"), owned("--heads"), owned("origin"), head];
    assert(views(r@) =~= seq!["ls-remote"@, "--heads"@, "origin"@, head_ref(branch@)]);
    r
}

/// Reads `git ls-remote --heads origin refs/heads/<branch>`: whether the
/// remote has the branch.
pub fn check_remote_branch_exist(branch: &str, out: &str) -> (r: bool)
    ensures
        r == contains(out@, head_ref(branch@)),
{
    let mut head = owned("refs/heads/");
    head.append(branch);
    contains_str(out, head.as_str())
}

/// Creates or moves the tag `tag`, at `local_ref` unless that is empty (then at
/// `HEAD`).
pub fn new_local_tag(local_ref: &str, tag: &str) -> (r: Vec<String>)
    ensures
        local_ref@.len() == 0 ==> views(r@) == seq!["tag"@, tag@, "--force"@],
        local_ref@.len() > 0 ==> views(r@) == seq!["tag"@, tag@, "--force"@, local_ref@],
{
    let mut r = vec![owned("tag"), owned(tag), owned("--force")];
    if local_ref.unicode_len() > 0 {
        r.push(owned(local_ref));
    }
    assert(local_ref@.len() == 0 ==> views(r@) =~= seq!["tag"@, tag@, "--force"@]);
    assert(local_ref@.len() > 0 ==> views(r@) =~= seq!["tag"@, tag@, "--force"@, local_ref@]);
    r
}

/// Pushes the tag `tag` to `origin`, replacing it there.
pub fn push_tag(tag: &str) -> (r: Vec<String>)
    ensures
        views(r@) == seq!["push"@, "origin"@, tag@, "--force"@],
{
    let r = vec![owned("push"), owned("origin"), owned(tag), owned("--force")];
    assert(views(r@) =~= seq!["push"@, "origin"@, tag@, "--force"@]);
    r
}

/// Asks the remote for its refs, which needs working credentials.
pub fn has_authenticity() -> (r: Vec<String>)
    ensures
        views(r@) == seq!["ls-remote"@],
{
    let r = vec![owned("ls-remote")];
    assert(views(r@) =~= seq!["ls-remote"@]);
    r
}

pub open spec fn fetch_argv(remote_name: Seq<char>, depth: Option<usize>) -> Seq<Seq<char>> {
    match depth {
        Some(d) => seq!["fetch"@, remote_name, "--depth"@, decimal(d as nat)],
        None => seq!["fetch"@, remote_name],
    }
}

/// Fetches from `remote_name`, with at most `depth` commits of history when
/// given.
pub fn fetch(remote_name: &str, depth: Option<usize>) -> (r: Vec<String>)
    ensures
        views(r@) == fetch_argv(remote_name@, depth),
{
    let mut r = vec![owned("fetch"), owned(remote_name)];
    if let Some(d) = depth {
        r.push(owned("--depth"));
        r.push(decimal_string(d));
    }
    assert(views(r@) =~= fetch_argv(remote_name@, depth));
    r
}

} // verus!
