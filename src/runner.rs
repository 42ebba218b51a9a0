//! Running many syncs at once: handing out repositories to a bounded number
//! of workers and collecting what became of each.
//!
//! A worker asks `claim` for the next repository, runs its sync, and reports
//! with `complete`. At most `thread_count` repositories are ever claimed and
//! not yet completed, and a repository's outcome is recorded under its own
//! index only.
use vstd::prelude::*;
use crate::git::owned;
use crate::sync::SyncError;
use crate::text::{contains, contains_str, replace, replace_str, trim, trim_str};

verus! {

/// What became of one repository: its tracking message, or its error.
pub type RepoOutcome = Result<String, SyncError>;

/// The outcomes of a run, by index into the manifest's repositories.
pub struct RunReport {
    pub successes: Vec<(usize, String)>,
    pub failures: Vec<(usize, SyncError)>,
}

/// The work of a run: which repositories were handed out and what became of
/// them.
pub struct RunQueue {
    total: usize,
    thread_count: usize,
    live: usize,
    outcomes: Vec<Option<RepoOutcome>>,
}

/// The queue as values: `outcomes[i]` for each repository handed out, `None`
/// while it runs, `Some(o)` once it completed with `o`.
pub struct QueueView {
    pub total: nat,
    pub thread_count: nat,
    pub live: nat,
    pub outcomes: Seq<Option<RepoOutcome>>,
}

/// How many of `os` are still running.
pub open spec fn running(os: Seq<Option<RepoOutcome>>) -> nat
    decreases os.len(),
{
    if os.len() == 0 {
        0
    } else {
        running(os.drop_last()) + if os.last() is None {
            1nat
        } else {
            0nat
        }
    }
}

proof fn lemma_running_update(os: Seq<Option<RepoOutcome>>, i: int, o: RepoOutcome)
    requires
        0 <= i < os.len(),
        os[i] is None,
    ensures
        running(os.update(i, Some(o))) + 1 == running(os),
    decreases os.len(),
{
    if i < os.len() - 1 {
        lemma_running_update(os.drop_last(), i, o);
        assert(os.update(i, Some(o)).drop_last() =~= os.drop_last().update(i, Some(o)));
    } else {
        assert(os.update(i, Some(o)).drop_last() =~= os.drop_last());
    }
}

proof fn lemma_running_push(os: Seq<Option<RepoOutcome>>)
    ensures
        running(os.push(None)) == running(os) + 1,
{
    assert(os.push(None).drop_last() =~= os);
}

proof fn lemma_running_bound(os: Seq<Option<RepoOutcome>>)
    ensures
        running(os) <= os.len(),
    decreases os.len(),
{
    if os.len() > 0 {
        lemma_running_bound(os.drop_last());
    }
}

impl View for RunQueue {
    type V = QueueView;

    closed spec fn view(&self) -> QueueView {
        QueueView {
            total: self.total as nat,
            thread_count: self.thread_count as nat,
            live: self.live as nat,
            outcomes: self.outcomes@,
        }
    }
}

/// The repositories that succeeded, with their messages, in index order.
pub open spec fn successes_of(os: Seq<Option<RepoOutcome>>) -> Seq<(nat, Seq<char>)>
    decreases os.len(),
{
    if os.len() == 0 {
        seq![]
    } else {
        let rest = successes_of(os.drop_last());
        match os.last() {
            Some(Ok(m)) => rest.push(((os.len() - 1) as nat, m@)),
            _ => rest,
        }
    }
}

/// The repositories that failed, with their errors, in index order.
pub open spec fn failures_of(os: Seq<Option<RepoOutcome>>) -> Seq<(nat, SyncError)>
    decreases os.len(),
{
    if os.len() == 0 {
        seq![]
    } else {
        let rest = failures_of(os.drop_last());
        match os.last() {
            Some(Err(e)) => rest.push(((os.len() - 1) as nat, e)),
            _ => rest,
        }
    }
}

impl RunQueue {
    /// The queue's invariant: the running count is what it says, and never
    /// above the worker count.
    pub closed spec fn wf(&self) -> bool {
        &&& self.thread_count >= 1
        &&& self.outcomes@.len() <= self.total
        &&& self.live == running(self.outcomes@)
        &&& self.live <= self.thread_count
    }

    /// A queue of `total` repositories for `thread_count` workers; a worker
    /// count of 0 is taken as 1.
    pub fn new(total: usize, thread_count: usize) -> (q: Self)
        ensures
            q.wf(),
            q@.total == total,
            q@.outcomes.len() == 0,
            q@.live == 0,
            q@.thread_count == if thread_count == 0 {
                1
            } else {
                thread_count
            },
    {
        RunQueue {
            total,
            thread_count: if thread_count == 0 {
                1
            } else {
                thread_count
            },
            live: 0,
            outcomes: Vec::new(),
        }
    }

    /// Hands out the next repository, if a worker slot is free and one is
    /// left; it then counts as running.
    pub fn claim(&mut self) -> (r: Option<usize>)
        requires
            old(self).wf(),
        ensures
            final(self).wf(),
            r is Some <==> (old(self)@.live < old(self)@.thread_count && old(self)@.outcomes.len()
                < old(self)@.total),
            r is Some ==> r->Some_0 == old(self)@.outcomes.len() && final(self)@ == (QueueView {
                live: old(self)@.live + 1,
                outcomes: old(self)@.outcomes.push(None),
                ..old(self)@
            }),
            r is None ==> final(self)@ == old(self)@,
    {
        if self.live < self.thread_count && self.outcomes.len() < self.total {
            let i = self.outcomes.len();
            proof {
                lemma_running_push(self.outcomes@);
            }
            self.outcomes.push(None);
            self.live = self.live + 1;
            Some(i)
        } else {
            None
        }
    }

    /// Records what became of repository `index`, which was running; nothing
    /// else changes.
    pub fn complete(&mut self, index: usize, outcome: RepoOutcome)
        requires
            old(self).wf(),
            index < old(self)@.outcomes.len(),
            old(self)@.outcomes[index as int] is None,
        ensures
            final(self).wf(),
            final(self)@ == (QueueView {
                live: (old(self)@.live - 1) as nat,
                outcomes: old(self)@.outcomes.update(index as int, Some(outcome)),
                ..old(self)@
            }),
    {
        proof {
            lemma_running_update(self.outcomes@, index as int, outcome);
        }
        self.outcomes.set(index, Some(outcome));
        self.live = self.live - 1;
    }

    /// Whether `index` was handed out and has not completed.
    pub fn is_running(&self, index: usize) -> (r: bool)
        ensures
            r == (index < self@.outcomes.len() && self@.outcomes[index as int] is None),
    {
        index < self.outcomes.len() && self.outcomes[index].is_none()
    }

    /// The number of repositories running.
    pub fn live(&self) -> (r: usize)
        ensures
            r == self@.live,
    {
        self.live
    }

    /// The outcomes, split into successes and failures, in index order.
    pub fn report(self) -> (r: RunReport)
        ensures
            r.successes@.map_values(|p: (usize, String)| (p.0 as nat, p.1@)) == successes_of(
                self@.outcomes,
            ),
            r.failures@.map_values(|p: (usize, SyncError)| (p.0 as nat, p.1)) == failures_of(
                self@.outcomes,
            ),
    {
        let os = &self.outcomes;
        let mut successes: Vec<(usize, String)> = Vec::new();
        let mut failures: Vec<(usize, SyncError)> = Vec::new();
        let mut i: usize = 0;
        while i < os.len()
            invariant
                i <= os.len(),
                successes@.map_values(|p: (usize, String)| (p.0 as nat, p.1@)) == successes_of(
                    os@.take(i as int),
                ),
                failures@.map_values(|p: (usize, SyncError)| (p.0 as nat, p.1)) == failures_of(
                    os@.take(i as int),
                ),
            decreases os.len() - i,
        {
            assert(os@.take(i + 1).drop_last() =~= os@.take(i as int));
            let ghost s0 = successes@;
            let ghost f0 = failures@;
            match &os[i] {
                Some(Ok(m)) => {
                    successes.push((i, m.clone()));
                    assert(successes@.map_values(|p: (usize, String)| (p.0 as nat, p.1@)) =~= s0.map_values(|p: (usize, String)| (p.0 as nat, p.1@)).push((i as nat, m@)));
                },
                Some(Err(e)) => {
                    let e2 = SyncError { step: e.step, message: e.message.clone() };
                    assert(e2 == *e);
                    failures.push((i, e2));
                    assert(failures@.map_values(|p: (usize, SyncError)| (p.0 as nat, p.1)) =~= f0.map_values(|p: (usize, SyncError)| (p.0 as nat, p.1)).push((i as nat, *e)));
                },
                None => {},
            }
            i = i + 1;
        }
        assert(os@.take(i as int) =~= os@);
        RunReport { successes, failures }
    }
}

/// At most as many repositories run at once as there are workers: the queue
/// never counts more running than its worker count, and a claim made while
/// all workers are busy hands out nothing.
pub proof fn lemma_concurrency_bound(q: RunQueue)
    requires
        q.wf(),
    ensures
        q@.live <= q@.thread_count,
        q@.live == running(q@.outcomes),
{
}

proof fn lemma_successes_hold(os: Seq<Option<RepoOutcome>>, j: int)
    requires
        0 <= j < os.len(),
        os[j] is Some && os[j]->Some_0 is Ok,
    ensures
        successes_of(os).contains((j as nat, os[j]->Some_0->Ok_0@)),
    decreases os.len(),
{
    if j < os.len() - 1 {
        lemma_successes_hold(os.drop_last(), j);
        let rest = successes_of(os.drop_last());
        let k = choose|k: int| 0 <= k < rest.len() && rest[k] == (j as nat, os[j]->Some_0->Ok_0@);
        match os.last() {
            Some(Ok(m)) => assert(successes_of(os)[k] == rest[k]),
            _ => {},
        }
    } else {
        let rest = successes_of(os.drop_last());
        assert(successes_of(os)[rest.len() as int] == (j as nat, os[j]->Some_0->Ok_0@));
    }
}

/// One failure holds no other repository back: whatever became of the other
/// repositories, one that completed with success is reported among the
/// successes, under its own index and with its own message. With the claim's
/// contract (a free slot is always handed out while repositories are left),
/// a failed repository frees its slot for the next.
pub proof fn lemma_isolation(os: Seq<Option<RepoOutcome>>, j: int, m: String)
    requires
        0 <= j < os.len(),
        os[j] == Some(Ok::<String, SyncError>(m)),
    ensures
        successes_of(os).contains((j as nat, m@)),
{
    lemma_successes_hold(os, j);
}

pub open spec fn after_text(before: Seq<char>, after: Seq<char>) -> Seq<char> {
    if before != after && contains(after, "already update to date."@) {
        "update to "@ + trim(replace(after, "already update to date."@, ""@))
    } else {
        after
    }
}

/// The summary shown after a sync: where it changed the repository into an
/// up-to-date one, `update to …` in place of `already update to date.`.
pub fn after_message(before: &str, after: &str) -> (r: String)
    ensures
        r@ == after_text(before@, after@),
{
    let b = owned(before);
    let a = owned(after);
    if !(b == a) && contains_str(after, "already update to date.") {
        proof {
            reveal_strlit("already update to date.");
        }
        let rest = replace_str(after, "already update to date.", "");
        let t = trim_str(rest.as_str());
        let mut r = owned("update to ");
        r.append(t.as_str());
        r
    } else {
        a
    }
}

pub open spec fn errors_text(n: nat) -> Seq<char> {
    crate::text::decimal(n) + " error(s)"@
}

/// The closing statistics line: `<N> error(s)`.
pub fn error_statistics(n: usize) -> (r: String)
    ensures
        r@ == errors_text(n as nat),
{
    let mut r = crate::text::decimal_string(n);
    r.append(" error(s)");
    r
}

} // verus!
