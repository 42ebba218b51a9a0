//! Comparing a working tree with what it is pinned to: commits ahead and
//! behind, and files changed.
//!
//! Like the sync, the comparison is a machine: `start` gives the first git
//! command, `step` takes what git answered and gives the next, until
//! `CmpAction::Done` with the summary (`None` where the comparison could not be
//! made). It only reads the repository.
use vstd::prelude::*;
use crate::git::{
    branch_log_argv, changed_files_argv, current_branch_candidate, find_remote_name_by_url_args,
    first_line, get_branch_log, get_changed_files, get_current_branch, get_rev_list_count,
    get_staged_files, get_tracking_branch, get_tracking_branch_args, get_untrack_files,
    list_branch_args, list_branch_argv, remote_list_argv, remote_name_in, rev_list_argv, owned,
    show_current_argv, show_current_args, staged_files_argv, tracking_branch_argv,
    untracked_files_argv, get_branch_log_args, GitError, RemoteRef,
};
use crate::manifest::{copy_opt, opt_view, target_of, RefView, RepoView, TomlRepo};
use crate::sync::{ev_view, short_sha};
use crate::text::{contains, decimal, decimal_string, lines, lines_of, trim, trim_str, views};

verus! {

/// The first two groups of the first match of the regular expression
/// `pattern` in `text`, as the `regex` crate finds them; `None` when the
/// pattern is not valid, does not match, or has no such groups.
pub uninterp spec fn two_groups_of(pattern: Seq<char>, text: Seq<char>) -> Option<(Seq<char>, Seq<char>)>;

/// Relies on `regex::Regex::new`, `Regex::captures` and `Captures::get`: the
/// texts of groups 1 and 2 of the leftmost-first match.
#[verifier::external_body]
fn capture_two(pattern: &str, text: &str) -> (r: Option<(String, String)>)
    ensures
        match r {
            Some(p) => two_groups_of(pattern@, text@) == Some((p.0@, p.1@)),
            None => two_groups_of(pattern@, text@) is None,
        },
{
    let re = regex::Regex::new(pattern).ok()?;
    let caps = re.captures(text)?;
    Some((caps.get(1)?.as_str().to_string(), caps.get(2)?.as_str().to_string()))
}

/// Two runs of digits, what `git rev-list --count --left-right` prints.
pub open spec fn counts_pattern() -> Seq<char> {
    "(\\d+)\\s*(\\d+)"@
}

pub open spec fn unknown_revision_text() -> Seq<char> {
    "unknown revision"@
}

/// The commits fragment from the two counts read from git's output.
pub open spec fn commit_text(counts: Option<(Seq<char>, Seq<char>)>) -> Seq<char> {
    match counts {
        None => unknown_revision_text(),
        Some((a, b)) => if a == "0"@ && b == "0"@ {
            Seq::empty()
        } else {
            "ahead "@ + a + ", behind "@ + b
        },
    }
}

/// The commits fragment, from the counts of commits ahead and behind: empty
/// when both are zero, `unknown revision` when there are none.
pub fn commit_desc(counts: Option<(String, String)>) -> (r: String)
    ensures
        r@ == commit_text(match counts {
            Some(p) => Some((p.0@, p.1@)),
            None => None,
        }),
{
    match counts {
        None => owned("unknown revision"),
        Some((a, b)) => {
            if a == owned("0") && b == owned("0") {
                String::new()
            } else {
                let mut r = owned("ahead ");
                r.append(a.as_str());
                r.append(", behind ");
                r.append(b.as_str());
                r
            }
        },
    }
}

/// The commits fragment from `git rev-list --count --left-right` output.
pub open spec fn rev_list_text(e: Result<Seq<char>, Seq<char>>) -> Seq<char> {
    match e {
        Err(_) => unknown_revision_text(),
        Ok(o) => commit_text(two_groups_of(counts_pattern(), o)),
    }
}

/// Reads `git rev-list --count --left-right <branch>...<ref>`.
pub fn rev_list_desc(out: &Result<String, String>) -> (r: String)
    ensures
        r@ == rev_list_text(ev_view(*out)),
{
    match out {
        Err(_) => owned("unknown revision"),
        Ok(o) => commit_desc(capture_two("(\\d+)\\s*(\\d+)", o.as_str())),
    }
}

pub open spec fn changes_text(k: nat) -> Seq<char> {
    if k == 0 {
        Seq::empty()
    } else {
        decimal(k) + " changes"@
    }
}

/// The changes fragment for `k` changed files.
pub fn changes_desc(k: usize) -> (r: String)
    ensures
        r@ == changes_text(k as nat),
{
    if k == 0 {
        String::new()
    } else {
        let mut r = decimal_string(k);
        r.append(" changes");
        r
    }
}

pub open spec fn up_to_date_text(log: Seq<char>) -> Seq<char> {
    if log.len() == 0 {
        "already update to date."@
    } else {
        "already update to date."@ + " "@ + log
    }
}

/// The summary of a repository that is where it should be.
pub fn up_to_date_desc(log: &str) -> (r: String)
    ensures
        r@ == up_to_date_text(log@),
{
    let mut r = owned("already update to date.");
    if log.unicode_len() > 0 {
        r.append(" ");
        r.append(log);
    }
    r
}

pub open spec fn diff_text(desc: Seq<char>, commits: Seq<char>, changes: Seq<char>) -> Seq<char> {
    desc + ": "@ + if commits.len() > 0 && changes.len() > 0 {
        commits + ", "@ + changes
    } else {
        commits + changes
    }
}

/// `<target>: ahead N, behind M, K changes`, leaving out an empty fragment.
pub fn diff_desc(desc: &str, commits: &str, changes: &str) -> (r: String)
    ensures
        r@ == diff_text(desc@, commits@, changes@),
{
    let mut r = owned(desc);
    r.append(": ");
    r.append(commits);
    if commits.unicode_len() > 0 && changes.unicode_len() > 0 {
        r.append(", ");
    }
    r.append(changes);
    r
}

/// How a target is named in a summary: a commit by its first seven
/// characters.
pub open spec fn target_desc(t: RefView) -> Seq<char> {
    match t {
        RefView::Commit(c) => short_sha(c),
        RefView::Tag(x) => x,
        RefView::Branch(b) => b,
    }
}

/// `files` with each of `ls` that it lacks added, in order.
pub open spec fn add_lines(files: Seq<Seq<char>>, ls: Seq<Seq<char>>) -> Seq<Seq<char>>
    decreases ls.len(),
{
    if ls.len() == 0 {
        files
    } else {
        add_lines(
            if files.contains(ls[0]) {
                files
            } else {
                files.push(ls[0])
            },
            ls.drop_first(),
        )
    }
}

proof fn lemma_add_lines(files: Seq<Seq<char>>, ls: Seq<Seq<char>>)
    requires
        files.no_duplicates(),
    ensures
        add_lines(files, ls).no_duplicates(),
        add_lines(files, ls).to_set() == files.to_set() + ls.to_set(),
    decreases ls.len(),
{
    if ls.len() > 0 {
        let x = ls[0];
        let f2 = if files.contains(x) {
            files
        } else {
            files.push(x)
        };
        if !files.contains(x) {
            assert forall|i: int, j: int| 0 <= i < j < f2.len() implies f2[i] != f2[j] by {
                if j == f2.len() - 1 {
                    assert(files[i] == f2[i]);
                }
            }
            assert(files.push(x) =~= files + seq![x]);
            Seq::lemma_to_set_insert_commutes(files, x);
        } else {
            assert(files.to_set().contains(x));
        }
        assert(f2.to_set() =~= files.to_set().insert(x));
        lemma_add_lines(f2, ls.drop_first());
        assert(ls =~= seq![x] + ls.drop_first());
        assert(ls.to_set() =~= ls.drop_first().to_set().insert(x)) by {
            assert forall|y| ls.to_set().contains(y) <==> ls.drop_first().to_set().insert(x).contains(y) by {
                if ls.contains(y) {
                    let k = choose|k: int| 0 <= k < ls.len() && ls[k] == y;
                    if k > 0 {
                        assert(ls.drop_first()[k - 1] == y);
                    }
                }
                if ls.drop_first().contains(y) {
                    let k = choose|k: int| 0 <= k < ls.drop_first().len() && ls.drop_first()[k] == y;
                    assert(ls[k + 1] == y);
                }
                assert(ls[0] == x);
            }
        }
        assert(add_lines(files, ls).to_set() =~= files.to_set() + ls.to_set());
    } else {
        assert(ls.to_set() =~= Set::<Seq<char>>::empty());
        assert(files.to_set() + ls.to_set() =~= files.to_set());
    }
}

/// Each changed file is counted once: the files the comparison gathers from
/// the untracked, changed and staged listings are exactly the files of their
/// union, without repeats, so the count in its summary is the size of that
/// union.
pub proof fn lemma_changes_counted(
    untracked: Seq<Seq<char>>,
    changed: Seq<Seq<char>>,
    staged: Seq<Seq<char>>,
)
    ensures
        ({
            let files = add_lines(add_lines(add_lines(seq![], untracked), changed), staged);
            &&& files.no_duplicates()
            &&& files.to_set() == untracked.to_set() + changed.to_set() + staged.to_set()
            &&& files.len() == (untracked.to_set() + changed.to_set() + staged.to_set()).len()
        }),
{
    let e = Seq::<Seq<char>>::empty();
    lemma_add_lines(e, untracked);
    let a = add_lines(e, untracked);
    lemma_add_lines(a, changed);
    let b = add_lines(a, changed);
    lemma_add_lines(b, staged);
    let c = add_lines(b, staged);
    assert(e.to_set() =~= Set::<Seq<char>>::empty());
    assert(a.to_set() =~= untracked.to_set());
    c.unique_seq_to_set();
}

/// The files of a listing: its lines, or none when git failed.
pub open spec fn listed(e: Result<Seq<char>, Seq<char>>) -> Seq<Seq<char>> {
    match e {
        Ok(o) => lines_of(trim(o)),
        Err(_) => seq![],
    }
}


/// Where the comparison stands.
#[derive(Debug, Clone, Copy, PartialEq, Eq, Structural)]
pub enum CmpPhase {
    Start,
    AwaitGitDir,
    AwaitShowCdup,
    AwaitTracking,
    AwaitRemoteList,
    AwaitUntracked,
    AwaitChanged,
    AwaitStaged,
    AwaitShowCurrent,
    AwaitCurrentListed,
    AwaitRevList,
    AwaitBranchLog,
    Done,
}

/// What the caller of a comparison is to do next.
#[derive(Debug)]
pub enum CmpAction {
    /// Tell whether the directory holds a `.git` directory.
    CheckGitDir,
    /// Run git with these arguments in the repository's directory.
    Git(Vec<String>),
    /// The comparison is over: its summary, if it could be made.
    Done(Option<String>),
}

pub enum CmpActionView {
    CheckGitDir,
    Git(Seq<Seq<char>>),
    Done(Option<Seq<char>>),
}

impl View for CmpAction {
    type V = CmpActionView;

    open spec fn view(&self) -> CmpActionView {
        match self {
            CmpAction::CheckGitDir => CmpActionView::CheckGitDir,
            CmpAction::Git(a) => CmpActionView::Git(views(a@)),
            CmpAction::Done(r) => CmpActionView::Done(match r {
                Some(x) => Some(x@),
                None => None,
            }),
        }
    }
}

/// The comparison as values.
pub struct CmpView {
    pub entry: RepoView,
    pub use_tracking: bool,
    pub phase: CmpPhase,
    pub ref_str: Seq<char>,
    pub desc: Seq<char>,
    pub files: Seq<Seq<char>>,
    pub changes: Seq<char>,
    pub candidate: Seq<char>,
    pub commits: Seq<char>,
}

/// The comparison of one working tree with its target.
pub struct Comparator {
    entry: TomlRepo,
    use_tracking: bool,
    phase: CmpPhase,
    ref_str: String,
    desc: String,
    files: Vec<String>,
    changes: String,
    candidate: String,
    commits: String,
}

impl View for Comparator {
    type V = CmpView;

    closed spec fn view(&self) -> CmpView {
        CmpView {
            entry: self.entry@,
            use_tracking: self.use_tracking,
            phase: self.phase,
            ref_str: self.ref_str@,
            desc: self.desc@,
            files: views(self.files@),
            changes: self.changes@,
            candidate: self.candidate@,
            commits: self.commits@,
        }
    }
}

pub open spec fn cmp_initial(entry: RepoView, default_branch: Option<Seq<char>>, use_tracking: bool) -> CmpView {
    CmpView {
        entry: RepoView {
            branch: if entry.branch is Some { entry.branch } else { default_branch },
            ..entry
        },
        use_tracking,
        phase: CmpPhase::Start,
        ref_str: Seq::empty(),
        desc: Seq::empty(),
        files: Seq::empty(),
        changes: Seq::empty(),
        candidate: Seq::empty(),
        commits: Seq::empty(),
    }
}

pub open spec fn cmp_go(v: CmpView, p: CmpPhase, a: Seq<Seq<char>>) -> (CmpView, CmpActionView) {
    (CmpView { phase: p, ..v }, CmpActionView::Git(a))
}

pub open spec fn cmp_done(v: CmpView, r: Option<Seq<char>>) -> (CmpView, CmpActionView) {
    (CmpView { phase: CmpPhase::Done, ..v }, CmpActionView::Done(r))
}

/// Once the target is known: `not tracking` when it has no name, else the
/// listing of untracked files.
pub open spec fn cmp_targeted(v: CmpView, ref_str: Seq<char>, desc: Seq<char>) -> (CmpView, CmpActionView) {
    if desc.len() == 0 {
        cmp_done(v, Some("not tracking"@))
    } else {
        cmp_go(
            CmpView { ref_str, desc, ..v },
            CmpPhase::AwaitUntracked,
            untracked_files_argv(),
        )
    }
}

pub open spec fn branch_log_text(e: Result<Seq<char>, Seq<char>>) -> Seq<char> {
    match e {
        Ok(o) => trim(o),
        Err(_) => Seq::empty(),
    }
}

/// The summary of a repository whose current branch has no commit, or
/// which is on no branch.
pub open spec fn init_commit_text() -> Seq<char> {
    "init commit"@
}

/// The comparison's move, as `sync::next` is the sync's.
pub open spec fn cmp_next(v: CmpView, e: Result<Seq<char>, Seq<char>>) -> (CmpView, CmpActionView) {
    match v.phase {
        CmpPhase::AwaitGitDir => match e {
            Ok(_) => cmp_go(v, CmpPhase::AwaitShowCdup, crate::git::show_cdup_argv()),
            Err(_) => cmp_done(v, None),
        },
        CmpPhase::AwaitShowCdup => if e is Ok && trim(e->Ok_0).len() == 0 {
            if v.use_tracking {
                cmp_go(v, CmpPhase::AwaitTracking, tracking_branch_argv())
            } else if v.entry.commit is Some || v.entry.tag is Some {
                // a commit or a tag is its own target: no remote to look up
                let t = target_of(v.entry, Seq::empty())->0;
                cmp_targeted(v, crate::sync::ref_text(t), target_desc(t))
            } else {
                cmp_go(v, CmpPhase::AwaitRemoteList, remote_list_argv())
            }
        } else {
            cmp_done(v, None)
        },
        CmpPhase::AwaitTracking => if e is Ok && trim(e->Ok_0).len() > 0 {
            cmp_targeted(v, trim(e->Ok_0), trim(e->Ok_0))
        } else {
            cmp_done(v, None)
        },
        CmpPhase::AwaitRemoteList => match e {
            Err(_) => cmp_done(v, None),
            Ok(o) => if v.entry.remote is None {
                cmp_done(v, None)
            } else {
                match remote_name_in(lines_of(trim(o)), v.entry.remote->0) {
                    None => cmp_done(v, None),
                    Some(n) => match target_of(v.entry, n) {
                        None => cmp_done(v, None),
                        Some(t) => cmp_targeted(v, crate::sync::ref_text(t), target_desc(t)),
                    },
                }
            },
        },
        CmpPhase::AwaitUntracked => cmp_go(
            CmpView { files: add_lines(v.files, listed(e)), ..v },
            CmpPhase::AwaitChanged,
            changed_files_argv(),
        ),
        CmpPhase::AwaitChanged => cmp_go(
            CmpView { files: add_lines(v.files, listed(e)), ..v },
            CmpPhase::AwaitStaged,
            staged_files_argv(),
        ),
        CmpPhase::AwaitStaged => {
            let files = add_lines(v.files, listed(e));
            cmp_go(
                CmpView { files, changes: changes_text(files.len()), ..v },
                CmpPhase::AwaitShowCurrent,
                show_current_argv(),
            )
        },
        CmpPhase::AwaitShowCurrent => match e {
            Err(_) => cmp_done(v, None),
            Ok(o) => match first_line(trim(o)) {
                None => cmp_done(v, Some(init_commit_text())),
                Some(c) => cmp_go(
                    CmpView { candidate: c, ..v },
                    CmpPhase::AwaitCurrentListed,
                    list_branch_argv(c),
                ),
            },
        },
        CmpPhase::AwaitCurrentListed => match e {
            Err(_) => cmp_done(v, None),
            Ok(o) => if contains(o, v.candidate) {
                cmp_go(v, CmpPhase::AwaitRevList, rev_list_argv(v.candidate + "..."@ + v.ref_str))
            } else {
                // a branch not listed yet has no commit
                cmp_done(v, Some(init_commit_text()))
            },
        },
        CmpPhase::AwaitRevList => {
            let commits = rev_list_text(e);
            if commits.len() == 0 && v.changes.len() == 0 {
                cmp_go(
                    CmpView { commits, ..v },
                    CmpPhase::AwaitBranchLog,
                    branch_log_argv(v.candidate),
                )
            } else {
                cmp_done(v, Some(diff_text(v.desc, commits, v.changes)))
            }
        },
        CmpPhase::AwaitBranchLog => cmp_done(v, Some(up_to_date_text(branch_log_text(e)))),
        _ => (v, CmpActionView::Done(None)),
    }
}

fn holds(files: &Vec<String>, x: &String) -> (r: bool)
    ensures
        r == views(files@).contains(x@),
{
    let mut i: usize = 0;
    while i < files.len()
        invariant
            i <= files.len(),
            forall|j: int| 0 <= j < i ==> files@[j]@ != x@,
        decreases files.len() - i,
    {
        if files[i] == *x {
            assert(views(files@)[i as int] == x@);
            return true;
        }
        i = i + 1;
    }
    assert(!views(files@).contains(x@)) by {
        if views(files@).contains(x@) {
            let j = choose|j: int| 0 <= j < views(files@).len() && views(files@)[j] == x@;
            assert(files@[j]@ == x@);
        }
    }
    false
}

/// Adds the files of a listing that `files` lacks.
fn add_listing(files: &mut Vec<String>, e: &Result<String, String>)
    ensures
        views(final(files)@) == add_lines(views(old(files)@), listed(ev_view(*e))),
{
    if let Ok(o) = e {
        let t = trim_str(o.as_str());
        let ls = lines(t.as_str());
        let ghost all = views(ls@);
        let ghost start = views(files@);
        let mut i: usize = 0;
        assert(all.skip(0) =~= all);
        while i < ls.len()
            invariant
                i <= ls.len(),
                all == views(ls@),
                add_lines(views(files@), all.skip(i as int)) == add_lines(start, all),
            decreases ls.len() - i,
        {
            let ghost before = views(files@);
            assert(all.skip(i as int)[0] == ls@[i as int]@);
            assert(all.skip(i as int).drop_first() =~= all.skip(i + 1));
            if !holds(files, &ls[i]) {
                files.push(ls[i].clone());
                assert(views(files@) =~= before.push(ls@[i as int]@));
            }
            i = i + 1;
        }
        assert(all.skip(i as int) =~= Seq::<Seq<char>>::empty());
    }
}

fn cmp_ref_text(t: &RemoteRef) -> (r: String)
    ensures
        r@ == crate::sync::ref_text(t@),
{
    match t {
        RemoteRef::Commit(c) => c.clone(),
        RemoteRef::Tag(x) => x.clone(),
        RemoteRef::Branch(b) => b.clone(),
    }
}

fn target_desc_of(t: &RemoteRef) -> (r: String)
    ensures
        r@ == target_desc(t@),
{
    match t {
        RemoteRef::Commit(c) => {
            let v = crate::text::chars_of(c.as_str());
            if v.len() <= 7 {
                crate::text::string_of(&v, 0, v.len())
            } else {
                crate::text::string_of(&v, 0, 7)
            }
        },
        RemoteRef::Tag(x) => x.clone(),
        RemoteRef::Branch(b) => b.clone(),
    }
}

impl Comparator {
    /// A comparison of `entry` with its declared target (`use_tracking`
    /// false) or with its upstream branch (true).
    pub fn new(entry: &TomlRepo, default_branch: &Option<String>, use_tracking: bool) -> (c: Self)
        ensures
            c@ == cmp_initial(entry@, opt_view(*default_branch), use_tracking),
    {
        let mut e = entry.copied();
        if e.branch.is_none() {
            e.branch = copy_opt(default_branch);
        }
        let c = Comparator {
            entry: e,
            use_tracking,
            phase: CmpPhase::Start,
            ref_str: String::new(),
            desc: String::new(),
            files: Vec::new(),
            changes: String::new(),
            candidate: String::new(),
            commits: String::new(),
        };
        assert(views(c.files@) =~= Seq::<Seq<char>>::empty());
        c
    }

    /// Where the comparison stands.
    pub fn phase(&self) -> (p: CmpPhase)
        ensures
            p == self@.phase,
    {
        self.phase
    }

    /// The first action: asking whether there is a `.git` directory.
    pub fn start(&mut self) -> (a: CmpAction)
        requires
            old(self)@.phase == CmpPhase::Start,
        ensures
            final(self)@ == (CmpView { phase: CmpPhase::AwaitGitDir, ..old(self)@ }),
            a@ == CmpActionView::CheckGitDir,
    {
        self.phase = CmpPhase::AwaitGitDir;
        CmpAction::CheckGitDir
    }

    fn go(&mut self, p: CmpPhase, args: Vec<String>) -> (a: CmpAction)
        ensures
            (final(self)@, a@) == cmp_go(old(self)@, p, views(args@)),
    {
        self.phase = p;
        CmpAction::Git(args)
    }

    fn done(&mut self, r: Option<String>) -> (a: CmpAction)
        ensures
            (final(self)@, a@) == cmp_done(old(self)@, match r {
                Some(x) => Some(x@),
                None => None,
            }),
    {
        self.phase = CmpPhase::Done;
        CmpAction::Done(r)
    }

    fn targeted(&mut self, ref_str: String, desc: String) -> (a: CmpAction)
        ensures
            (final(self)@, a@) == cmp_targeted(old(self)@, ref_str@, desc@),
    {
        if desc.unicode_len() == 0 {
            self.done(Some(owned("not tracking")))
        } else {
            self.ref_str = ref_str;
            self.desc = desc;
            self.go(CmpPhase::AwaitUntracked, get_untrack_files())
        }
    }

    fn on_remote_list(&mut self, event: Result<String, String>) -> (a: CmpAction)
        requires
            old(self)@.phase == CmpPhase::AwaitRemoteList,
        ensures
            (final(self)@, a@) == cmp_next(old(self)@, ev_view(event)),
    {
        match event {
            Err(_) => self.done(None),
            Ok(o) => match self.entry.get_remote_name(o.as_str()) {
                Err(_) => self.done(None),
                Ok(n) => match self.entry.remote_ref_named(n.as_str()) {
                    Err(_) => self.done(None),
                    Ok(t) => {
                        let r = cmp_ref_text(&t);
                        let d = target_desc_of(&t);
                        self.targeted(r, d)
                    },
                },
            },
        }
    }

    fn on_listing(&mut self, event: Result<String, String>) -> (a: CmpAction)
        requires
            old(self)@.phase == CmpPhase::AwaitUntracked || old(self)@.phase
                == CmpPhase::AwaitChanged || old(self)@.phase == CmpPhase::AwaitStaged,
        ensures
            (final(self)@, a@) == cmp_next(old(self)@, ev_view(event)),
    {
        add_listing(&mut self.files, &event);
        if self.phase == CmpPhase::AwaitUntracked {
            self.go(CmpPhase::AwaitChanged, get_changed_files())
        } else if self.phase == CmpPhase::AwaitChanged {
            self.go(CmpPhase::AwaitStaged, get_staged_files())
        } else {
            self.changes = changes_desc(self.files.len());
            self.go(CmpPhase::AwaitShowCurrent, show_current_args())
        }
    }

    fn on_current_listed(&mut self, event: Result<String, String>) -> (a: CmpAction)
        requires
            old(self)@.phase == CmpPhase::AwaitCurrentListed,
        ensures
            (final(self)@, a@) == cmp_next(old(self)@, ev_view(event)),
    {
        match get_current_branch(self.candidate.as_str(), &event) {
            Err(GitError::CurrentBranchNotFound) => self.done(Some(owned("init commit"))),
            Err(_) => self.done(None),
            Ok(b) => {
                let mut pair = b;
                pair.append("...");
                pair.append(self.ref_str.as_str());
                let args = get_rev_list_count(pair.as_str());
                self.go(CmpPhase::AwaitRevList, args)
            },
        }
    }

    /// The next action, given the result of the last one.
    pub fn step(&mut self, event: Result<String, String>) -> (a: CmpAction)
        requires
            old(self)@.phase != CmpPhase::Start,
            old(self)@.phase != CmpPhase::Done,
        ensures
            (final(self)@, a@) == cmp_next(old(self)@, ev_view(event)),
    {
        match self.phase {
            CmpPhase::AwaitGitDir => match event {
                Ok(_) => self.go(CmpPhase::AwaitShowCdup, crate::git::is_repository_args()),
                Err(_) => self.done(None),
            },
            CmpPhase::AwaitShowCdup => {
                if crate::git::is_repository(true, &event).is_ok() {
                    if self.use_tracking {
                        self.go(CmpPhase::AwaitTracking, get_tracking_branch_args())
                    } else if self.entry.commit.is_some() || self.entry.tag.is_some() {
                        match self.entry.remote_ref_named("") {
                            Ok(t) => {
                                let r = cmp_ref_text(&t);
                                let d = target_desc_of(&t);
                                self.targeted(r, d)
                            },
                            Err(_) => self.done(None),
                        }
                    } else {
                        self.go(CmpPhase::AwaitRemoteList, find_remote_name_by_url_args())
                    }
                } else {
                    self.done(None)
                }
            },
            CmpPhase::AwaitTracking => match event {
                Err(_) => self.done(None),
                Ok(o) => match get_tracking_branch(o.as_str()) {
                    Err(_) => self.done(None),
                    Ok(t) => {
                        let d = t.clone();
                        self.targeted(t, d)
                    },
                },
            },
            CmpPhase::AwaitRemoteList => self.on_remote_list(event),
            CmpPhase::AwaitUntracked | CmpPhase::AwaitChanged | CmpPhase::AwaitStaged => {
                self.on_listing(event)
            },
            CmpPhase::AwaitShowCurrent => {
                let c = match &event {
                    Ok(o) => current_branch_candidate(o.as_str()),
                    Err(_) => None,
                };
                match (&event, c) {
                    (Err(_), _) => self.done(None),
                    (Ok(_), None) => self.done(Some(owned("init commit"))),
                    (Ok(_), Some(c)) => {
                        let args = list_branch_args(c.as_str());
                        self.candidate = c;
                        self.go(CmpPhase::AwaitCurrentListed, args)
                    },
                }
            },
            CmpPhase::AwaitCurrentListed => self.on_current_listed(event),
            CmpPhase::AwaitRevList => {
                let commits = rev_list_desc(&event);
                if commits.unicode_len() == 0 && self.changes.unicode_len() == 0 {
                    let args = get_branch_log_args(self.candidate.as_str());
                    self.commits = commits;
                    self.go(CmpPhase::AwaitBranchLog, args)
                } else {
                    let d = diff_desc(self.desc.as_str(), commits.as_str(), self.changes.as_str());
                    self.done(Some(d))
                }
            },
            CmpPhase::AwaitBranchLog => {
                let log = get_branch_log(&event);
                let d = up_to_date_desc(log.as_str());
                self.done(Some(d))
            },
            _ => CmpAction::Done(None),
        }
    }
}

} // verus!
