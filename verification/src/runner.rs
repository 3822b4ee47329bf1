//! The runner's book of running jobs: each started job with the context
//! that cancels it. The threads that run the jobs are the caller's.
use vstd::prelude::*;
use crate::ctx::{Ctx, Cancel, CtxTree, cancelled};
use crate::client::ClientError;

verus! {

/// Jobs that were started and not yet joined, in start order.
#[derive(Debug)]
pub struct JobTable {
    jobs: Vec<(u128, Ctx<Cancel>)>,
}

/// Abstract table: job id and context index of each entry.
pub open spec fn entries_view(jobs: Seq<(u128, Ctx<Cancel>)>) -> Seq<(u128, int)> {
    jobs.map_values(|e: (u128, Ctx<Cancel>)| (e.0, e.1.index()))
}

/// Position of the first entry of job `id`.
pub open spec fn find_job(es: Seq<(u128, int)>, id: u128) -> Option<int>
    decreases es.len(),
{
    if es.len() == 0 {
        None
    } else if es[0].0 == id {
        Some(0)
    } else {
        match find_job(es.drop_first(), id) {
            Some(k) => Some(k + 1),
            None => None,
        }
    }
}

/// The entries whose job has not finished.
pub open spec fn unfinished(es: Seq<(u128, int)>, finished: Seq<bool>, n: int) -> Seq<(u128, int)>
    decreases n,
{
    if n <= 0 {
        Seq::empty()
    } else if finished[n - 1] {
        unfinished(es, finished, n - 1)
    } else {
        unfinished(es, finished, n - 1).push(es[n - 1])
    }
}

impl View for JobTable {
    type V = Seq<(u128, int)>;

    closed spec fn view(&self) -> Seq<(u128, int)> {
        entries_view(self.jobs@)
    }
}

impl JobTable {
    /// All contexts of the table belong to `tree`, each made by
    /// `with_cancel`.
    pub open spec fn within(&self, tree: &CtxTree) -> bool {
        forall|i: int| 0 <= i < self@.len() ==> 0 <= #[trigger] self@[i].1 < tree@.len()
            && tree@[self@[i].1].parent is Some
    }

    pub fn new() -> (t: JobTable)
        ensures
            t@ == Seq::<(u128, int)>::empty(),
    {
        let t = JobTable { jobs: Vec::new() };
        assert(t@ =~= Seq::<(u128, int)>::empty());
        t
    }

    pub fn len(&self) -> (r: usize)
        ensures
            r == self@.len(),
    {
        self.jobs.len()
    }

    /// Records a started job and the context that cancels it.
    pub fn start(&mut self, id: u128, ctx: Ctx<Cancel>)
        ensures
            final(self)@ == old(self)@.push((id, ctx.index())),
    {
        let ghost before = self.jobs@;
        self.jobs.push((id, ctx));
        assert(entries_view(self.jobs@) =~= entries_view(before).push((id, ctx.index())));
    }

    /// Cancels the first recorded job with this id, if there is one, and
    /// tells whether there was.
    pub fn cancel(&self, id: u128, tree: &mut CtxTree) -> (found: bool)
        requires
            old(tree).wf(),
            self.within(old(tree)),
        ensures
            final(tree).wf(),
            found == find_job(self@, id) is Some,
            match find_job(self@, id) {
                Some(k) => final(tree)@ == cancelled(old(tree)@, self@[k].1),
                None => final(tree)@ == old(tree)@,
            },
    {
        let ghost es = self@;
        let mut i: usize = 0;
        while i < self.jobs.len()
            invariant
                es == self@,
                es.len() == self.jobs@.len(),
                i <= es.len(),
                forall|j: int| 0 <= j < i ==> es[j].0 != id,
                tree@ == old(tree)@,
                tree.wf(),
                self.within(tree),
            decreases es.len() - i,
        {
            assert(es[i as int] == (self.jobs@[i as int].0, self.jobs@[i as int].1.index()));
            if self.jobs[i].0 == id {
                assert(0 <= es[i as int].1 < tree@.len() && tree@[es[i as int].1].parent is Some);
                proof {
                    lemma_find_job_at(es, id, i as int);
                }
                self.jobs[i].1.cancel(tree);
                return true;
            }
            i = i + 1;
        }
        proof {
            lemma_find_job_none(es, id);
        }
        false
    }

    /// Forgets the jobs that finished (`finished[i]` for the `i`-th entry)
    /// and returns how many there were.
    pub fn remove_finished(&mut self, finished: &Vec<bool>) -> (removed: usize)
        requires
            finished@.len() == old(self)@.len(),
        ensures
            final(self)@ == unfinished(old(self)@, finished@, old(self)@.len() as int),
            removed + final(self)@.len() == old(self)@.len(),
    {
        let ghost es = self@;
        let mut kept: Vec<(u128, Ctx<Cancel>)> = Vec::new();
        let mut removed: usize = 0;
        let mut i: usize = 0;
        while i < self.jobs.len()
            invariant
                es == entries_view(self.jobs@),
                finished@.len() == es.len(),
                i <= es.len(),
                entries_view(kept@) == unfinished(es, finished@, i as int),
                removed + kept@.len() == i,
            decreases es.len() - i,
        {
            if finished[i] {
                removed = removed + 1;
            } else {
                let ghost before = kept@;
                kept.push(self.jobs[i]);
                assert(entries_view(kept@) =~= entries_view(before).push(es[i as int]));
            }
            i = i + 1;
        }
        self.jobs = kept;
        removed
    }
}

proof fn lemma_find_job_at(es: Seq<(u128, int)>, id: u128, i: int)
    requires
        0 <= i < es.len(),
        es[i].0 == id,
        forall|j: int| 0 <= j < i ==> es[j].0 != id,
    ensures
        find_job(es, id) == Some(i),
    decreases i,
{
    if i > 0 {
        lemma_find_job_at(es.drop_first(), id, i - 1);
    }
}

proof fn lemma_find_job_none(es: Seq<(u128, int)>, id: u128)
    requires
        forall|j: int| 0 <= j < es.len() ==> es[j].0 != id,
    ensures
        find_job(es, id) is None,
    decreases es.len(),
{
    if es.len() > 0 {
        lemma_find_job_none(es.drop_first(), id);
    }
}

/// What the polling loop does once a poll for jobs came back.
#[derive(Debug, Clone, Copy, PartialEq, Eq, Structural)]
pub enum PollAction {
    /// Hand the received messages on.
    Deliver,
    /// The failure is worth retrying: pause, then poll again.
    PauseAndRetry,
    /// Another failure: log it and poll again.
    Retry,
}

/// The polling loop's decision on the outcome of a poll: `None` when it
/// succeeded, else its failure.
pub fn after_poll(failure: Option<ClientError>) -> (r: PollAction)
    ensures
        r == match failure {
            None => PollAction::Deliver,
            Some(e) => if e is ConnectionError || e is ServerError { PollAction::PauseAndRetry } else { PollAction::Retry },
        },
{
    match failure {
        None => PollAction::Deliver,
        Some(e) => if e.is_retryable() { PollAction::PauseAndRetry } else { PollAction::Retry },
    }
}

} // verus!
