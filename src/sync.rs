//! Synchronising one repository: a state machine over git's answers.
//!
//! The machine decides; its caller acts. `start` gives the first action, and
//! after the caller has carried an action out, `step` takes its result and
//! gives the next one, until an `Action::Finish`. A git action's result is
//! `Ok(stdout)` or `Err(stderr)`; creating the directory gives `Ok` or the
//! error's text; asking for a `.git` directory gives `Ok` when there is one.
use vstd::prelude::*;
use crate::git::{
    add_remote_argv, add_remote_url, add_untracked_argv, add_untracked_files, checkout, checkout_argv, clean, clean_argv, current_branch_candidate, fetch, fetch_argv, find_remote_name_by_url, find_remote_name_by_url_args, first_line, get_current_branch, init, init_argv, is_remote_ref_valid, is_remote_ref_valid_args, is_repository, is_repository_args, list_branch_args, list_branch_argv, local_branch_already_exist, ref_valid_argv, remote_list_argv, remote_name_in, reset, reset_argv, owned, show_cdup_argv, show_current_argv, show_current_args, stash, stash_argv, stash_pop, stash_pop_argv, untracked_list_args, untracked_list_argv, RemoteRef, ResetType, StashMode,
};
use crate::manifest::{copy_opt, opt_view, target_of, RefView, RepoView, TomlRepo};
use crate::text::{chars_of, contains, contains_str, lines_of, string_of, trim, views};

verus! {

/// Where the machine stands: which answer it waits for.
#[derive(Debug, Clone, Copy, PartialEq, Eq, Structural)]
pub enum Phase {
    Start,
    AwaitDir,
    AwaitGitDir,
    AwaitShowCdup,
    AwaitInit,
    AwaitAddRemote,
    AwaitRemoteList,
    AwaitFetch,
    AwaitRefValid,
    AwaitUntrackedList,
    AwaitAdd,
    AwaitStash,
    AwaitShowCurrent,
    AwaitCurrentListed,
    AwaitBranchExists,
    AwaitCheckout,
    AwaitClean,
    AwaitReset,
    AwaitPop,
    Done,
}

/// The step at which a sync failed.
#[derive(Debug, Clone, Copy, PartialEq, Eq, Structural)]
pub enum SyncStep {
    /// The manifest entry lacks its `local` or `remote`.
    Entry,
    CreateDir,
    Init,
    AddRemote,
    RemoteLookup,
    Fetch,
    Resolve,
    Validate,
    Clean,
    Checkout,
    Reset,
}

/// Why a repository could not be synchronised.
#[derive(Debug, Clone, PartialEq, Eq)]
pub struct SyncError {
    pub step: SyncStep,
    pub message: String,
}

/// What the caller is to do next.
#[derive(Debug)]
pub enum Action {
    /// Create the repository's directory, with its parents.
    CreateDir,
    /// Tell whether the directory holds a `.git` directory.
    CheckGitDir,
    /// Run git with these arguments in the repository's directory.
    Git(Vec<String>),
    /// The sync is over, with this result.
    Finish(Result<(), SyncError>),
}

pub type ErrView = (SyncStep, Seq<char>);

pub enum ActionView {
    CreateDir,
    CheckGitDir,
    Git(Seq<Seq<char>>),
    Finish(Option<ErrView>),
}

pub open spec fn out_view(r: Result<(), SyncError>) -> Option<ErrView> {
    match r {
        Ok(_) => None,
        Err(e) => Some((e.step, e.message@)),
    }
}

impl View for Action {
    type V = ActionView;

    open spec fn view(&self) -> ActionView {
        match self {
            Action::CreateDir => ActionView::CreateDir,
            Action::CheckGitDir => ActionView::CheckGitDir,
            Action::Git(a) => ActionView::Git(views(a@)),
            Action::Finish(r) => ActionView::Finish(out_view(*r)),
        }
    }
}

pub open spec fn ev_view(e: Result<String, String>) -> Result<Seq<char>, Seq<char>> {
    match e {
        Ok(o) => Ok(o@),
        Err(m) => Err(m@),
    }
}

/// The machine as values.
pub struct SyncView {
    pub entry: RepoView,
    pub url: Seq<char>,
    pub mode: StashMode,
    pub no_checkout: bool,
    pub depth: Option<usize>,
    pub phase: Phase,
    pub remote_name: Seq<char>,
    pub ref_str: Seq<char>,
    pub branch: Seq<char>,
    pub stash_message: Seq<char>,
    pub candidate: Seq<char>,
    pub outcome: Option<ErrView>,
}

/// The synchronisation of one repository.
pub struct SyncMachine {
    entry: TomlRepo,
    url: String,
    mode: StashMode,
    no_checkout: bool,
    depth: Option<usize>,
    phase: Phase,
    remote_name: String,
    ref_str: String,
    branch: String,
    stash_message: String,
    candidate: String,
    outcome: Result<(), SyncError>,
}

impl View for SyncMachine {
    type V = SyncView;

    closed spec fn view(&self) -> SyncView {
        SyncView {
            entry: self.entry@,
            url: self.url@,
            mode: self.mode,
            no_checkout: self.no_checkout,
            depth: self.depth,
            phase: self.phase,
            remote_name: self.remote_name@,
            ref_str: self.ref_str@,
            branch: self.branch@,
            stash_message: self.stash_message@,
            candidate: self.candidate@,
            outcome: out_view(self.outcome),
        }
    }
}

/// The text of a ref.
pub open spec fn ref_text(t: RefView) -> Seq<char> {
    match t {
        RefView::Commit(c) => c,
        RefView::Tag(x) => x,
        RefView::Branch(b) => b,
    }
}

/// The first seven characters of a commit (all of it when shorter).
pub open spec fn short_sha(c: Seq<char>) -> Seq<char> {
    if c.len() <= 7 {
        c
    } else {
        c.take(7)
    }
}

/// The local branch that the sync checks out: `commits/<sha[..7]>` for a
/// commit, `tags/<tag>` for a tag, the entry's branch for a branch.
pub open spec fn display_branch(t: RefView, branch: Option<Seq<char>>) -> Seq<char> {
    match t {
        RefView::Commit(c) => "commits/"@ + short_sha(c),
        RefView::Tag(x) => "tags/"@ + x,
        RefView::Branch(_) => match branch {
            Some(b) => b,
            None => "invalid-branch"@,
        },
    }
}

pub open spec fn is_wip(m: Seq<char>) -> bool {
    contains(m, "WIP"@)
}

pub open spec fn stash_failed_text() -> Seq<char> {
    "stash failed."@
}

pub open spec fn missing_field_text() -> Seq<char> {
    "local or remote is missing."@
}

/// The machine of a new sync, before its first action. An entry without a
/// branch, tag or commit takes `default_branch`.
pub open spec fn initial(entry: RepoView, default_branch: Option<Seq<char>>, mode: StashMode, no_checkout: bool, depth: Option<usize>) -> SyncView {
    SyncView {
        entry: RepoView {
            branch: if entry.branch is Some { entry.branch } else { default_branch },
            ..entry
        },
        url: match entry.remote {
            Some(u) => u,
            None => Seq::empty(),
        },
        mode,
        no_checkout,
        depth,
        phase: Phase::Start,
        remote_name: Seq::empty(),
        ref_str: Seq::empty(),
        branch: Seq::empty(),
        stash_message: Seq::empty(),
        candidate: Seq::empty(),
        outcome: None,
    }
}

pub open spec fn fin(v: SyncView, out: Option<ErrView>) -> (SyncView, ActionView) {
    (SyncView { phase: Phase::Done, outcome: out, ..v }, ActionView::Finish(out))
}

pub open spec fn go(v: SyncView, p: Phase, a: Seq<Seq<char>>) -> (SyncView, ActionView) {
    (SyncView { phase: p, ..v }, ActionView::Git(a))
}

/// After a sync, the upstream to set: the remote-tracking branch, when the
/// sync succeeded, the target is a branch, and tracking was not turned off.
pub open spec fn tracking_argv(v: SyncView, no_track: bool) -> Option<Seq<Seq<char>>> {
    if !no_track && v.phase == Phase::Done && v.outcome is None && v.entry.commit is None
        && v.entry.tag is None {
        Some(crate::git::set_upstream_argv(v.ref_str))
    } else {
        None
    }
}

/// The first action.
pub open spec fn first(v: SyncView) -> (SyncView, ActionView) {
    if v.entry.local is None || v.entry.remote is None {
        fin(v, Some((SyncStep::Entry, missing_field_text())))
    } else {
        (SyncView { phase: Phase::AwaitDir, ..v }, ActionView::CreateDir)
    }
}

pub open spec fn begin_checkout(v: SyncView) -> (SyncView, ActionView) {
    go(v, Phase::AwaitShowCurrent, show_current_argv())
}

/// Once the stash was tried (its message recorded).
pub open spec fn after_stash(v: SyncView) -> (SyncView, ActionView) {
    if v.mode == StashMode::Normal || !v.no_checkout {
        begin_checkout(v)
    } else {
        go(v, Phase::AwaitReset, reset_argv(ResetType::Mixed, v.ref_str))
    }
}

/// Once the result is known: pop what was stashed, in `Normal` mode always,
/// in `Stash` mode when the sync failed.
pub open spec fn settle(v: SyncView, out: Option<ErrView>) -> (SyncView, ActionView) {
    if is_wip(v.stash_message) && (v.mode == StashMode::Normal || (v.mode == StashMode::Stash
        && out is Some)) {
        (SyncView { phase: Phase::AwaitPop, outcome: out, ..v }, ActionView::Git(stash_pop_argv()))
    } else {
        fin(v, out)
    }
}

/// Once the checkout is done or has failed.
pub open spec fn after_checkout(v: SyncView, out: Option<ErrView>) -> (SyncView, ActionView) {
    match out {
        None => go(v, Phase::AwaitReset, reset_argv(ResetType::Hard, v.ref_str)),
        Some(_) => settle(v, out),
    }
}

pub open spec fn failed(e: Result<Seq<char>, Seq<char>>, step: SyncStep) -> Option<ErrView> {
    match e {
        Ok(_) => None,
        Err(m) => Some((step, m)),
    }
}

/// The machine's move: from where it stands and the answer to its last
/// action, where it goes and what it asks for next.
pub open spec fn next(v: SyncView, e: Result<Seq<char>, Seq<char>>) -> (SyncView, ActionView) {
    match v.phase {
        Phase::AwaitDir => match e {
            Err(m) => fin(v, Some((SyncStep::CreateDir, m))),
            Ok(_) => (SyncView { phase: Phase::AwaitGitDir, ..v }, ActionView::CheckGitDir),
        },
        Phase::AwaitGitDir => match e {
            Ok(_) => go(v, Phase::AwaitShowCdup, show_cdup_argv()),
            Err(_) => go(SyncView { mode: StashMode::Hard, ..v }, Phase::AwaitInit, init_argv()),
        },
        Phase::AwaitShowCdup => if e is Ok && trim(e->Ok_0).len() == 0 {
            go(v, Phase::AwaitRemoteList, remote_list_argv())
        } else {
            go(SyncView { mode: StashMode::Hard, ..v }, Phase::AwaitInit, init_argv())
        },
        Phase::AwaitInit => match e {
            Err(m) => fin(v, Some((SyncStep::Init, m))),
            Ok(_) => go(v, Phase::AwaitAddRemote, add_remote_argv(v.url)),
        },
        Phase::AwaitAddRemote => match e {
            Err(m) => fin(v, Some((SyncStep::AddRemote, m))),
            Ok(_) => go(v, Phase::AwaitRemoteList, remote_list_argv()),
        },
        Phase::AwaitRemoteList => match e {
            Err(m) => fin(v, Some((SyncStep::RemoteLookup, m))),
            Ok(o) => match remote_name_in(lines_of(trim(o)), v.url) {
                None => fin(v, Some((SyncStep::RemoteLookup, "remote not found: "@ + v.url))),
                Some(n) => go(
                    SyncView { remote_name: n, ..v },
                    Phase::AwaitFetch,
                    fetch_argv(n, v.depth),
                ),
            },
        },
        Phase::AwaitFetch => match e {
            Err(m) => fin(v, Some((SyncStep::Fetch, m))),
            Ok(_) => match target_of(v.entry, v.remote_name) {
                None => fin(v, Some((SyncStep::Resolve, "remote ref is invalid!"@))),
                Some(t) => go(
                    SyncView {
                        ref_str: ref_text(t),
                        branch: display_branch(t, v.entry.branch),
                        ..v
                    },
                    Phase::AwaitRefValid,
                    ref_valid_argv(ref_text(t)),
                ),
            },
        },
        Phase::AwaitRefValid => match e {
            Err(_) => fin(v, Some((SyncStep::Validate, "remote not found: "@ + v.ref_str))),
            Ok(_) => if v.mode == StashMode::Hard {
                go(v, Phase::AwaitClean, clean_argv())
            } else if v.mode == StashMode::Normal && v.no_checkout {
                go(v, Phase::AwaitReset, reset_argv(ResetType::Soft, v.ref_str))
            } else {
                go(v, Phase::AwaitUntrackedList, untracked_list_argv())
            },
        },
        Phase::AwaitUntrackedList => match e {
            Err(_) => after_stash(SyncView { stash_message: stash_failed_text(), ..v }),
            Ok(o) => match add_untracked_argv(o) {
                None => go(v, Phase::AwaitStash, stash_argv()),
                Some(a) => go(v, Phase::AwaitAdd, a),
            },
        },
        Phase::AwaitAdd => match e {
            Err(_) => after_stash(SyncView { stash_message: stash_failed_text(), ..v }),
            Ok(_) => go(v, Phase::AwaitStash, stash_argv()),
        },
        Phase::AwaitStash => match e {
            Err(_) => after_stash(SyncView { stash_message: stash_failed_text(), ..v }),
            Ok(m) => after_stash(SyncView { stash_message: m, ..v }),
        },
        Phase::AwaitShowCurrent => if e is Ok && first_line(trim(e->Ok_0)) is Some {
            let c = first_line(trim(e->Ok_0))->0;
            go(SyncView { candidate: c, ..v }, Phase::AwaitCurrentListed, list_branch_argv(c))
        } else {
            go(v, Phase::AwaitBranchExists, list_branch_argv(v.branch))
        },
        Phase::AwaitCurrentListed => if e is Ok && contains(e->Ok_0, v.candidate) && v.candidate
            == v.branch {
            after_checkout(v, None)
        } else {
            go(v, Phase::AwaitBranchExists, list_branch_argv(v.branch))
        },
        Phase::AwaitBranchExists => match e {
            Err(m) => after_checkout(v, Some((SyncStep::Checkout, m))),
            Ok(o) => go(
                v,
                Phase::AwaitCheckout,
                checkout_argv(
                    v.branch,
                    v.ref_str,
                    contains(trim(o), v.branch),
                    v.mode != StashMode::Normal,
                ),
            ),
        },
        Phase::AwaitCheckout => after_checkout(v, failed(e, SyncStep::Checkout)),
        Phase::AwaitClean => match e {
            Err(m) => fin(v, Some((SyncStep::Clean, m))),
            Ok(_) => if !v.no_checkout {
                begin_checkout(v)
            } else {
                go(v, Phase::AwaitReset, reset_argv(ResetType::Hard, v.ref_str))
            },
        },
        Phase::AwaitReset => settle(v, failed(e, SyncStep::Reset)),
        Phase::AwaitPop => fin(v, v.outcome),
        _ => (v, ActionView::Finish(v.outcome)),
    }
}


fn fail(step: SyncStep, message: String) -> (r: Result<(), SyncError>)
    ensures
        out_view(r) == Some((step, message@)),
{
    Err(SyncError { step, message })
}

fn copy_outcome(r: &Result<(), SyncError>) -> (c: Result<(), SyncError>)
    ensures
        out_view(c) == out_view(*r),
{
    match r {
        Ok(_) => Ok(()),
        Err(e) => Err(SyncError { step: e.step, message: e.message.clone() }),
    }
}

fn outcome_of(e: &Result<String, String>, step: SyncStep) -> (r: Result<(), SyncError>)
    ensures
        out_view(r) == failed(ev_view(*e), step),
{
    match e {
        Ok(_) => Ok(()),
        Err(m) => fail(step, m.clone()),
    }
}

/// The first seven characters of `c`, or all of them.
fn short_sha_of(c: &str) -> (r: String)
    ensures
        r@ == short_sha(c@),
{
    let v = chars_of(c);
    if v.len() <= 7 {
        string_of(&v, 0, v.len())
    } else {
        string_of(&v, 0, 7)
    }
}

/// The local branch that the sync checks out for `t`.
fn display_branch_of(t: &RemoteRef, branch: &Option<String>) -> (r: String)
    ensures
        r@ == display_branch(t@, opt_view(*branch)),
{
    match t {
        RemoteRef::Commit(c) => {
            let mut b = owned("commits/");
            let x = short_sha_of(c.as_str());
            b.append(x.as_str());
            b
        },
        RemoteRef::Tag(x) => {
            let mut b = owned("tags/");
            b.append(x.as_str());
            b
        },
        RemoteRef::Branch(_) => match branch {
            Some(b) => b.clone(),
            None => owned("invalid-branch"),
        },
    }
}

fn ref_text_of(t: RemoteRef) -> (r: String)
    ensures
        r@ == ref_text(t@),
{
    match t {
        RemoteRef::Commit(c) => c,
        RemoteRef::Tag(x) => x,
        RemoteRef::Branch(b) => b,
    }
}

impl SyncMachine {
    /// A new sync of `entry`, with `default_branch` for an entry that names no
    /// branch.
    pub fn new(
        entry: &TomlRepo,
        default_branch: &Option<String>,
        mode: StashMode,
        no_checkout: bool,
        depth: Option<usize>,
    ) -> (m: Self)
        ensures
            m@ == initial(entry@, opt_view(*default_branch), mode, no_checkout, depth),
    {
        let mut e = entry.copied();
        if e.branch.is_none() {
            e.branch = copy_opt(default_branch);
        }
        let url = match &entry.remote {
            Some(u) => u.clone(),
            None => String::new(),
        };
        SyncMachine {
            entry: e,
            url,
            mode,
            no_checkout,
            depth,
            phase: Phase::Start,
            remote_name: String::new(),
            ref_str: String::new(),
            branch: String::new(),
            stash_message: String::new(),
            candidate: String::new(),
            outcome: Ok(()),
        }
    }

    /// Where the machine stands.
    pub fn phase(&self) -> (p: Phase)
        ensures
            p == self@.phase,
    {
        self.phase
    }

    /// The mode the sync runs in; `Hard` once the repository had to be
    /// created.
    pub fn mode(&self) -> (m: StashMode)
        ensures
            m == self@.mode,
    {
        self.mode
    }

    /// The resolved target: a commit, a tag or `<remote>/<branch>`; empty
    /// until it is known.
    pub fn target(&self) -> (r: &String)
        ensures
            r@ == self@.ref_str,
    {
        &self.ref_str
    }

    /// The local branch the sync checks out; empty until it is known.
    pub fn branch(&self) -> (r: &String)
        ensures
            r@ == self@.branch,
    {
        &self.branch
    }

    /// The `git branch --set-upstream-to` to run once the sync is over, if
    /// any.
    pub fn tracking_args(&self, no_track: bool) -> (r: Option<Vec<String>>)
        ensures
            match tracking_argv(self@, no_track) {
                Some(a) => r is Some && views(r->Some_0@) == a,
                None => r is None,
            },
    {
        if !no_track && self.phase == Phase::Done && self.outcome.is_ok()
            && self.entry.commit.is_none() && self.entry.tag.is_none() {
            Some(crate::git::set_tracking_remote_branch_args(self.ref_str.as_str()))
        } else {
            None
        }
    }

    fn finish(&mut self, out: Result<(), SyncError>) -> (a: Action)
        ensures
            (final(self)@, a@) == fin(old(self)@, out_view(out)),
    {
        self.phase = Phase::Done;
        self.outcome = copy_outcome(&out);
        Action::Finish(out)
    }

    fn go(&mut self, p: Phase, args: Vec<String>) -> (a: Action)
        ensures
            (final(self)@, a@) == go(old(self)@, p, views(args@)),
    {
        self.phase = p;
        Action::Git(args)
    }

    fn begin_checkout(&mut self) -> (a: Action)
        ensures
            (final(self)@, a@) == begin_checkout(old(self)@),
    {
        self.go(Phase::AwaitShowCurrent, show_current_args())
    }

    fn after_stash(&mut self) -> (a: Action)
        ensures
            (final(self)@, a@) == after_stash(old(self)@),
    {
        if self.mode == StashMode::Normal || !self.no_checkout {
            self.begin_checkout()
        } else {
            let args = reset(ResetType::Mixed, self.ref_str.as_str());
            self.go(Phase::AwaitReset, args)
        }
    }

    fn settle(&mut self, out: Result<(), SyncError>) -> (a: Action)
        ensures
            (final(self)@, a@) == settle(old(self)@, out_view(out)),
    {
        if contains_str(self.stash_message.as_str(), "WIP") && (self.mode == StashMode::Normal || (
        self.mode == StashMode::Stash && out.is_err())) {
            self.outcome = out;
            self.go(Phase::AwaitPop, stash_pop())
        } else {
            self.finish(out)
        }
    }

    fn after_checkout(&mut self, out: Result<(), SyncError>) -> (a: Action)
        ensures
            (final(self)@, a@) == after_checkout(old(self)@, out_view(out)),
    {
        match out {
            Ok(_) => {
                let args = reset(ResetType::Hard, self.ref_str.as_str());
                self.go(Phase::AwaitReset, args)
            },
            Err(_) => self.settle(out),
        }
    }

    /// The first action of the sync.
    pub fn start(&mut self) -> (a: Action)
        requires
            old(self)@.phase == Phase::Start,
        ensures
            (final(self)@, a@) == first(old(self)@),
    {
        if self.entry.local.is_none() || self.entry.remote.is_none() {
            self.finish(fail(SyncStep::Entry, owned("local or remote is missing.")))
        } else {
            self.phase = Phase::AwaitDir;
            Action::CreateDir
        }
    }

    /// The next action, given the result of the last one.
    pub fn step(&mut self, event: Result<String, String>) -> (a: Action)
        requires
            old(self)@.phase != Phase::Start,
            old(self)@.phase != Phase::Done,
        ensures
            (final(self)@, a@) == next(old(self)@, ev_view(event)),
    {
        match self.phase {
            Phase::AwaitDir => match event {
                Err(m) => self.finish(fail(SyncStep::CreateDir, m)),
                Ok(_) => {
                    self.phase = Phase::AwaitGitDir;
                    Action::CheckGitDir
                },
            },
            Phase::AwaitGitDir => match event {
                Ok(_) => self.go(Phase::AwaitShowCdup, is_repository_args()),
                Err(_) => {
                    self.mode = StashMode::Hard;
                    self.go(Phase::AwaitInit, init())
                },
            },
            Phase::AwaitShowCdup => {
                if is_repository(true, &event).is_ok() {
                    self.go(Phase::AwaitRemoteList, find_remote_name_by_url_args())
                } else {
                    self.mode = StashMode::Hard;
                    self.go(Phase::AwaitInit, init())
                }
            },
            Phase::AwaitInit => match event {
                Err(m) => self.finish(fail(SyncStep::Init, m)),
                Ok(_) => {
                    let args = add_remote_url(self.url.as_str());
                    self.go(Phase::AwaitAddRemote, args)
                },
            },
            Phase::AwaitAddRemote => match event {
                Err(m) => self.finish(fail(SyncStep::AddRemote, m)),
                Ok(_) => self.go(Phase::AwaitRemoteList, find_remote_name_by_url_args()),
            },
            Phase::AwaitRemoteList => self.on_remote_list(event),
            Phase::AwaitFetch => self.on_fetch(event),
            Phase::AwaitRefValid => self.on_ref_valid(event),
            Phase::AwaitUntrackedList => match event {
                Err(_) => {
                    self.stash_message = owned("stash failed.");
                    self.after_stash()
                },
                Ok(o) => match add_untracked_files(o.as_str()) {
                    None => self.go(Phase::AwaitStash, stash()),
                    Some(a) => self.go(Phase::AwaitAdd, a),
                },
            },
            Phase::AwaitAdd => match event {
                Err(_) => {
                    self.stash_message = owned("stash failed.");
                    self.after_stash()
                },
                Ok(_) => self.go(Phase::AwaitStash, stash()),
            },
            Phase::AwaitStash => {
                match event {
                    Err(_) => {
                        self.stash_message = owned("stash failed.");
                    },
                    Ok(m) => {
                        self.stash_message = m;
                    },
                }
                self.after_stash()
            },
            Phase::AwaitShowCurrent => self.on_show_current(event),
            Phase::AwaitCurrentListed => self.on_current_listed(event),
            Phase::AwaitBranchExists => match event {
                Err(m) => self.after_checkout(fail(SyncStep::Checkout, m)),
                Ok(o) => {
                    let exists = local_branch_already_exist(self.branch.as_str(), o.as_str());
                    let force = self.mode != StashMode::Normal;
                    let args = checkout(self.branch.as_str(), self.ref_str.as_str(), exists, force);
                    self.go(Phase::AwaitCheckout, args)
                },
            },
            Phase::AwaitCheckout => {
                let out = outcome_of(&event, SyncStep::Checkout);
                self.after_checkout(out)
            },
            Phase::AwaitClean => match event {
                Err(m) => self.finish(fail(SyncStep::Clean, m)),
                Ok(_) => {
                    if !self.no_checkout {
                        self.begin_checkout()
                    } else {
                        let args = reset(ResetType::Hard, self.ref_str.as_str());
                        self.go(Phase::AwaitReset, args)
                    }
                },
            },
            Phase::AwaitReset => {
                let out = outcome_of(&event, SyncStep::Reset);
                self.settle(out)
            },
            _ => {
                let out = copy_outcome(&self.outcome);
                self.finish(out)
            },
        }
    }

    fn on_remote_list(&mut self, event: Result<String, String>) -> (a: Action)
        requires
            old(self)@.phase == Phase::AwaitRemoteList,
        ensures
            (final(self)@, a@) == next(old(self)@, ev_view(event)),
    {
        match event {
            Err(m) => self.finish(fail(SyncStep::RemoteLookup, m)),
            Ok(o) => match find_remote_name_by_url(o.as_str(), self.url.as_str()) {
                Err(g) => self.finish(fail(SyncStep::RemoteLookup, g.message())),
                Ok(n) => {
                    let args = fetch(n.as_str(), self.depth);
                    self.remote_name = n;
                    self.go(Phase::AwaitFetch, args)
                },
            },
        }
    }

    fn on_fetch(&mut self, event: Result<String, String>) -> (a: Action)
        requires
            old(self)@.phase == Phase::AwaitFetch,
        ensures
            (final(self)@, a@) == next(old(self)@, ev_view(event)),
    {
        match event {
            Err(m) => self.finish(fail(SyncStep::Fetch, m)),
            Ok(_) => match self.entry.remote_ref_named(self.remote_name.as_str()) {
                Err(g) => self.finish(fail(SyncStep::Resolve, g.message())),
                Ok(t) => {
                    let b = display_branch_of(&t, &self.entry.branch);
                    let r = ref_text_of(t);
                    let args = is_remote_ref_valid_args(r.as_str());
                    self.ref_str = r;
                    self.branch = b;
                    self.go(Phase::AwaitRefValid, args)
                },
            },
        }
    }

    fn on_ref_valid(&mut self, event: Result<String, String>) -> (a: Action)
        requires
            old(self)@.phase == Phase::AwaitRefValid,
        ensures
            (final(self)@, a@) == next(old(self)@, ev_view(event)),
    {
        match is_remote_ref_valid(self.ref_str.as_str(), &event) {
            Err(g) => self.finish(fail(SyncStep::Validate, g.message())),
            Ok(_) => {
                if self.mode == StashMode::Hard {
                    self.go(Phase::AwaitClean, clean())
                } else if self.mode == StashMode::Normal && self.no_checkout {
                    let args = reset(ResetType::Soft, self.ref_str.as_str());
                    self.go(Phase::AwaitReset, args)
                } else {
                    self.go(Phase::AwaitUntrackedList, untracked_list_args())
                }
            },
        }
    }

    fn on_show_current(&mut self, event: Result<String, String>) -> (a: Action)
        requires
            old(self)@.phase == Phase::AwaitShowCurrent,
        ensures
            (final(self)@, a@) == next(old(self)@, ev_view(event)),
    {
        let c = match &event {
            Ok(o) => current_branch_candidate(o.as_str()),
            Err(_) => None,
        };
        match c {
            Some(c) => {
                let args = list_branch_args(c.as_str());
                self.candidate = c;
                self.go(Phase::AwaitCurrentListed, args)
            },
            None => {
                let args = list_branch_args(self.branch.as_str());
                self.go(Phase::AwaitBranchExists, args)
            },
        }
    }

    fn on_current_listed(&mut self, event: Result<String, String>) -> (a: Action)
        requires
            old(self)@.phase == Phase::AwaitCurrentListed,
        ensures
            (final(self)@, a@) == next(old(self)@, ev_view(event)),
    {
        let current = get_current_branch(self.candidate.as_str(), &event);
        let same = match &current {
            Ok(c) => *c == self.branch,
            Err(_) => false,
        };
        if same {
            self.after_checkout(Ok(()))
        } else {
            let args = list_branch_args(self.branch.as_str());
            self.go(Phase::AwaitBranchExists, args)
        }
    }
}


/// The states and actions of a sync from `v` as it receives `es` in turn.
pub open spec fn trace(v: SyncView, es: Seq<Result<Seq<char>, Seq<char>>>) -> Seq<(SyncView, ActionView)>
    decreases es.len(),
{
    if es.len() == 0 {
        seq![]
    } else {
        let n = next(v, es[0]);
        seq![n] + trace(n.0, es.drop_first())
    }
}

/// The phases in which the target is known.
pub open spec fn resolved(p: Phase) -> bool {
    match p {
        Phase::Start | Phase::AwaitDir | Phase::AwaitGitDir | Phase::AwaitShowCdup
        | Phase::AwaitInit | Phase::AwaitAddRemote | Phase::AwaitRemoteList | Phase::AwaitFetch
        | Phase::Done => false,
        _ => true,
    }
}

/// `a` asks git to reset to `c`.
pub open spec fn resets_to(a: ActionView, c: Seq<char>) -> bool {
    match a {
        ActionView::Git(args) => args.len() == 3 && args[0] == "reset"@ && args[2] == c,
        _ => false,
    }
}

pub open spec fn pinned_to(v: SyncView, c: Seq<char>) -> bool {
    &&& v.entry.commit == Some(c)
    &&& resolved(v.phase) ==> v.ref_str == c && v.branch == "commits/"@ + short_sha(c)
}

proof fn lemma_pinned_step(v: SyncView, e: Result<Seq<char>, Seq<char>>, c: Seq<char>)
    requires
        pinned_to(v, c),
    ensures
        pinned_to(next(v, e).0, c),
        next(v, e).0.phase == Phase::AwaitReset ==> resets_to(next(v, e).1, c),
{
}

/// Commit before branch: when an entry names a commit, every `git reset`
/// that its sync asks for, in any mode and whatever git answers, targets that
/// commit, and the branch it checks out is `commits/<sha[..7]>`, even where
/// the entry also names a tag or a branch.
pub proof fn lemma_commit_precedence(
    entry: RepoView,
    default_branch: Option<Seq<char>>,
    mode: StashMode,
    no_checkout: bool,
    depth: Option<usize>,
    es: Seq<Result<Seq<char>, Seq<char>>>,
)
    requires
        entry.commit is Some,
    ensures
        ({
            let v = first(initial(entry, default_branch, mode, no_checkout, depth)).0;
            let t = trace(v, es);
            forall|i: int|
                0 <= i < t.len() ==> (#[trigger] t[i]).0.phase == Phase::AwaitReset ==> resets_to(
                    t[i].1,
                    entry.commit->0,
                ) && t[i].0.branch == "commits/"@ + short_sha(entry.commit->0)
        }),
{
    let v = first(initial(entry, default_branch, mode, no_checkout, depth)).0;
    lemma_pinned_trace(v, es, entry.commit->0);
}

proof fn lemma_pinned_trace(v: SyncView, es: Seq<Result<Seq<char>, Seq<char>>>, c: Seq<char>)
    requires
        pinned_to(v, c),
    ensures
        forall|i: int|
            0 <= i < trace(v, es).len() ==> pinned_to((#[trigger] trace(v, es)[i]).0, c) && (
            trace(v, es)[i].0.phase == Phase::AwaitReset ==> resets_to(trace(v, es)[i].1, c)),
    decreases es.len(),
{
    if es.len() > 0 {
        let n = next(v, es[0]);
        lemma_pinned_step(v, es[0], c);
        lemma_pinned_trace(n.0, es.drop_first(), c);
        let t = trace(v, es);
        assert forall|i: int| 0 <= i < t.len() implies pinned_to((#[trigger] t[i]).0, c) && (
        t[i].0.phase == Phase::AwaitReset ==> resets_to(t[i].1, c)) by {
            if i > 0 {
                assert(t[i] == trace(n.0, es.drop_first())[i - 1]);
            }
        }
    }
}

/// The phases that come after the stash was tried.
pub open spec fn stash_tried(p: Phase) -> bool {
    match p {
        Phase::AwaitShowCurrent | Phase::AwaitCurrentListed | Phase::AwaitBranchExists
        | Phase::AwaitCheckout | Phase::AwaitReset | Phase::AwaitPop | Phase::Done => true,
        _ => false,
    }
}

pub open spec fn stash_consistent(v: SyncView) -> bool {
    is_wip(v.stash_message) ==> stash_tried(v.phase)
}

proof fn lemma_stash_step(v: SyncView, e: Result<Seq<char>, Seq<char>>)
    requires
        stash_consistent(v),
    ensures
        stash_consistent(next(v, e).0),
        v.mode == StashMode::Normal && is_wip(v.stash_message) && v.phase != Phase::Done
            && next(v, e).1 is Finish ==> v.phase == Phase::AwaitPop,
        v.phase != Phase::AwaitPop && next(v, e).0.phase == Phase::AwaitPop ==> next(v, e).1
            == ActionView::Git(stash_pop_argv()),
        v.phase == Phase::AwaitPop ==> next(v, e).0.phase == Phase::Done,
{
}

/// The state that the `i`-th step of a trace starts from.
pub open spec fn before(v: SyncView, es: Seq<Result<Seq<char>, Seq<char>>>, i: int) -> SyncView {
    if i == 0 {
        v
    } else {
        trace(v, es)[i - 1].0
    }
}

proof fn lemma_trace_index(v: SyncView, es: Seq<Result<Seq<char>, Seq<char>>>, i: int)
    requires
        0 <= i < es.len(),
    ensures
        trace(v, es).len() == es.len(),
        trace(v, es)[i] == next(before(v, es, i), es[i]),
    decreases es.len(),
{
    let n = next(v, es[0]);
    lemma_trace_len(n.0, es.drop_first());
    if i > 0 {
        lemma_trace_index(n.0, es.drop_first(), i - 1);
        if i > 1 {
            assert(trace(v, es)[i - 1] == trace(n.0, es.drop_first())[i - 2]);
        }
    }
}

proof fn lemma_trace_len(v: SyncView, es: Seq<Result<Seq<char>, Seq<char>>>)
    ensures
        trace(v, es).len() == es.len(),
    decreases es.len(),
{
    if es.len() > 0 {
        lemma_trace_len(next(v, es[0]).0, es.drop_first());
    }
}

proof fn lemma_consistent_before(v: SyncView, es: Seq<Result<Seq<char>, Seq<char>>>, i: int)
    requires
        stash_consistent(v),
        0 <= i <= es.len(),
    ensures
        stash_consistent(before(v, es, i)),
    decreases i,
{
    if i > 0 {
        lemma_consistent_before(v, es, i - 1);
        lemma_trace_index(v, es, i - 1);
        lemma_stash_step(before(v, es, i - 1), es[i - 1]);
    }
}

proof fn lemma_success_step(v: SyncView, e: Result<Seq<char>, Seq<char>>)
    requires
        v.phase != Phase::Start,
    ensures
        next(v, e).0.phase != Phase::Start,
        v.phase != Phase::Done && next(v, e).1 == ActionView::Finish(None) ==> (v.phase
            == Phase::AwaitReset && e is Ok) || (v.phase == Phase::AwaitPop && v.outcome is None),
        next(v, e).0.phase == Phase::AwaitPop && next(v, e).0.outcome is None ==> v.phase
            == Phase::AwaitReset && e is Ok,
{
}

proof fn lemma_before_not_start(v: SyncView, es: Seq<Result<Seq<char>, Seq<char>>>, i: int)
    requires
        v.phase != Phase::Start,
        0 <= i <= es.len(),
    ensures
        before(v, es, i).phase != Phase::Start,
    decreases i,
{
    if i > 0 {
        lemma_before_not_start(v, es, i - 1);
        lemma_trace_index(v, es, i - 1);
        lemma_success_step(before(v, es, i - 1), es[i - 1]);
    }
}

/// A sync that succeeds was reset to the commit: when an entry names a
/// commit, the step that finishes its sync with success is, or directly
/// follows, a step in which git answered with success the `git reset` to that
/// commit (which `lemma_commit_precedence` shows the sync asks for).
pub proof fn lemma_success_was_reset(
    entry: RepoView,
    default_branch: Option<Seq<char>>,
    mode: StashMode,
    no_checkout: bool,
    depth: Option<usize>,
    es: Seq<Result<Seq<char>, Seq<char>>>,
    i: int,
)
    requires
        entry.commit is Some,
        0 <= i < es.len(),
    ensures
        ({
            let v = first(initial(entry, default_branch, mode, no_checkout, depth)).0;
            (trace(v, es)[i].1 == ActionView::Finish(None) && before(v, es, i).phase != Phase::Done)
                ==> exists|j: int|
                0 <= j <= i && #[trigger] before(v, es, j).phase == Phase::AwaitReset && es[j] is Ok
                    && before(v, es, j).ref_str == entry.commit->0
        }),
{
    let v = first(initial(entry, default_branch, mode, no_checkout, depth)).0;
    let c = entry.commit->0;
    let t = trace(v, es);
    lemma_pinned_trace(v, es, c);
    lemma_trace_index(v, es, i);
    lemma_before_not_start(v, es, i);
    lemma_success_step(before(v, es, i), es[i]);
    if t[i].1 == ActionView::Finish(None) && before(v, es, i).phase != Phase::Done {
        if before(v, es, i).phase == Phase::AwaitReset {
            if i > 0 {
                assert(pinned_to(t[i - 1].0, c));
            }
            assert(before(v, es, i).ref_str == c);
        } else {
            assert(i > 0);
            lemma_trace_index(v, es, i - 1);
            lemma_before_not_start(v, es, i - 1);
            lemma_success_step(before(v, es, i - 1), es[i - 1]);
            assert(before(v, es, i - 1).phase == Phase::AwaitReset);
            if i > 1 {
                assert(pinned_to(t[i - 2].0, c));
            }
            assert(before(v, es, i - 1).ref_str == c);
        }
    }
}

/// Local work is kept: in `Normal` mode, whatever git answers, a sync that
/// has stashed work (`git stash` reported a `WIP` entry) finishes only from the
/// step that waits for `git stash pop`, and that step was entered by asking
/// for the pop, whether the checkout and reset succeeded or not.
pub proof fn lemma_stash_is_popped(
    entry: RepoView,
    default_branch: Option<Seq<char>>,
    no_checkout: bool,
    depth: Option<usize>,
    es: Seq<Result<Seq<char>, Seq<char>>>,
    i: int,
)
    requires
        1 <= i < es.len(),
    ensures
        ({
            let v = first(initial(entry, default_branch, StashMode::Normal, no_checkout, depth)).0;
            let t = trace(v, es);
            (t[i - 1].0.mode == StashMode::Normal && is_wip(t[i - 1].0.stash_message) && t[i
                - 1].0.phase != Phase::Done && t[i].1 is Finish) ==> t[i - 1].0.phase
                == Phase::AwaitPop && t[i - 1].1 == ActionView::Git(stash_pop_argv())
        }),
{
    let v = first(initial(entry, default_branch, StashMode::Normal, no_checkout, depth)).0;
    reveal_strlit("WIP");
    assert(!is_wip(Seq::<char>::empty()));
    assert(stash_consistent(v));
    lemma_trace_index(v, es, i);
    lemma_trace_index(v, es, i - 1);
    lemma_consistent_before(v, es, i);
    lemma_consistent_before(v, es, i - 1);
    lemma_stash_step(before(v, es, i), es[i]);
    lemma_stash_step(before(v, es, i - 1), es[i - 1]);
}

} // verus!
