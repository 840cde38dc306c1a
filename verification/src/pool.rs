//! The order in which the jobs of a fanout run, run again, and finish.

use std::collections::VecDeque;
use vstd::prelude::*;
use crate::fanout::PreparedJob;
use crate::json::JsonView;
use crate::tasks::TaskResult;

verus! {

/// A pool as mathematics: the jobs that wait, each with the number of its next
/// run; the runs that are under way, by job and number; and what came of the
/// jobs that are done.
pub struct PoolView {
    pub max_parallel: nat,
    pub retries: nat,
    pub queue: Seq<(PreparedJob, u32)>,
    pub flying: Seq<(usize, u32)>,
    pub done: Seq<Option<TaskResult>>,
}

impl PoolView {
    /// Whether job `i` waits for a run.
    pub open spec fn waits(self, i: int) -> bool {
        exists|k: int| 0 <= k < self.queue.len() && (#[trigger] self.queue[k]).0.index == i
    }

    /// Whether job `i` is being run.
    pub open spec fn flies(self, i: int) -> bool {
        exists|k: int| 0 <= k < self.flying.len() && (#[trigger] self.flying[k]).0 == i
    }

    /// Whether run `attempt` of a job is one that may be made.
    pub open spec fn allows(self, attempt: u32) -> bool {
        1 <= attempt <= self.retries + 1
    }

    /// Whether a result ends its job: it succeeded, or no run is left to it.
    pub open spec fn settles(self, result: TaskResult) -> bool {
        result.ok || result.attempt > self.retries
    }

    /// No more runs are under way than may be; every job is in exactly one of
    /// the three places; and what is done was settled by a run of that job.
    pub open spec fn wf(self) -> bool {
        &&& 1 <= self.max_parallel
        &&& self.flying.len() <= self.max_parallel
        &&& forall|k: int|
            0 <= k < self.queue.len() ==> (#[trigger] self.queue[k]).0.index < self.done.len()
                && self.allows(self.queue[k].1) && self.done[self.queue[k].0.index as int] is None
        &&& forall|k: int|
            0 <= k < self.flying.len() ==> (#[trigger] self.flying[k]).0 < self.done.len()
                && self.allows(self.flying[k].1) && self.done[self.flying[k].0 as int] is None
        &&& forall|k: int, l: int|
            0 <= k < l < self.queue.len() ==> (#[trigger] self.queue[k]).0.index != (
            #[trigger] self.queue[l]).0.index
        &&& forall|k: int, l: int|
            0 <= k < l < self.flying.len() ==> (#[trigger] self.flying[k]).0 != (
            #[trigger] self.flying[l]).0
        &&& forall|k: int, l: int|
            0 <= k < self.queue.len() && 0 <= l < self.flying.len() ==> (
            #[trigger] self.queue[k]).0.index != (#[trigger] self.flying[l]).0
        &&& forall|i: int|
            0 <= i < self.done.len() ==> (#[trigger] self.done[i]) is Some || self.waits(i)
                || self.flies(i)
        &&& forall|i: int|
            0 <= i < self.done.len() ==> ((#[trigger] self.done[i]) matches Some(result)
                ==> result.index == i && self.allows(result.attempt) && self.settles(result))
    }

    /// Whether every job is done and nothing is under way.
    pub open spec fn finished(self) -> bool {
        self.flying.len() == 0 && forall|i: int|
            0 <= i < self.done.len() ==> (#[trigger] self.done[i]) is Some
    }

    /// Whether one more run may be started now.
    pub open spec fn can_launch(self) -> bool {
        self.flying.len() < self.max_parallel && self.queue.len() > 0
    }

    /// The pool after the first waiting job has been started.
    pub open spec fn launched(self) -> PoolView {
        PoolView {
            queue: self.queue.skip(1),
            flying: self.flying.push((self.queue[0].0.index, self.queue[0].1)),
            ..self
        }
    }

    /// The pool after `result` came in: its run is no longer under way, and its
    /// job is done, or waits behind all others for its next run.
    pub open spec fn recorded(self, result: TaskResult) -> PoolView {
        let landed = self.flying.remove(self.flying.index_of((result.index, result.attempt)));
        if self.settles(result) {
            PoolView {
                flying: landed,
                done: self.done.update(result.index as int, Some(result)),
                ..self
            }
        } else {
            let again = PreparedJob {
                index: result.index,
                name: result.name,
                out: result.out,
                child_args: result.child_args,
            };
            PoolView {
                flying: landed,
                queue: self.queue.push((again, (result.attempt + 1) as u32)),
                ..self
            }
        }
    }

    /// The most runs that can still end, those under way counted too.
    pub open spec fn runs_left(self) -> int {
        waiting_runs(self.queue, self.retries) + flying_runs(self.flying, self.retries)
    }
}

/// The most runs that waiting jobs can still have.
pub open spec fn waiting_runs(queue: Seq<(PreparedJob, u32)>, retries: nat) -> int
    decreases queue.len(),
{
    if queue.len() == 0 {
        0
    } else {
        waiting_runs(queue.drop_last(), retries) + (retries + 2 - queue.last().1)
    }
}

/// The most runs that jobs under way can still have, the present one counted.
pub open spec fn flying_runs(flying: Seq<(usize, u32)>, retries: nat) -> int
    decreases flying.len(),
{
    if flying.len() == 0 {
        0
    } else {
        flying_runs(flying.drop_last(), retries) + (retries + 2 - flying.last().1)
    }
}

proof fn lemma_waiting_skip(queue: Seq<(PreparedJob, u32)>, retries: nat)
    requires
        queue.len() > 0,
    ensures
        waiting_runs(queue, retries) == waiting_runs(queue.skip(1), retries) + (retries + 2
            - queue[0].1),
    decreases queue.len(),
{
    if queue.len() == 1 {
        assert(queue.skip(1) =~= Seq::empty());
        assert(queue.drop_last() =~= Seq::empty());
    } else {
        lemma_waiting_skip(queue.drop_last(), retries);
        assert(queue.drop_last().skip(1) =~= queue.skip(1).drop_last());
    }
}

proof fn lemma_flying_remove(flying: Seq<(usize, u32)>, k: int, retries: nat)
    requires
        0 <= k < flying.len(),
    ensures
        flying_runs(flying, retries) == flying_runs(flying.remove(k), retries) + (retries + 2
            - flying[k].1),
    decreases flying.len(),
{
    if k == flying.len() - 1 {
        assert(flying.remove(k) =~= flying.drop_last());
    } else {
        lemma_flying_remove(flying.drop_last(), k, retries);
        assert(flying.drop_last().remove(k) =~= flying.remove(k).drop_last());
        assert(flying.remove(k).last() == flying.last());
    }
}

/// Starting a run keeps the pool in order and changes nothing about how many
/// runs are left.
pub proof fn launch_keeps_order(view: PoolView)
    requires
        view.wf(),
        view.can_launch(),
    ensures
        view.launched().wf(),
        view.launched().runs_left() == view.runs_left(),
{
    let next = view.launched();
    let job = view.queue[0];
    assert forall|i: int| 0 <= i < next.done.len() implies (#[trigger] next.done[i]) is Some
        || next.waits(i) || next.flies(i) by {
        assert(view.done[i] is Some || view.waits(i) || view.flies(i));
        if view.flies(i) {
            let k = choose|k: int| 0 <= k < view.flying.len() && (#[trigger] view.flying[k]).0 == i;
            assert(next.flying[k].0 == i);
        } else if view.waits(i) {
            let k = choose|k: int|
                0 <= k < view.queue.len() && (#[trigger] view.queue[k]).0.index == i;
            if k == 0 {
                assert(next.flying[view.flying.len() as int].0 == i);
            } else {
                assert(next.queue[k - 1].0.index == i);
            }
        }
    }
    assert forall|k: int, l: int|
        0 <= k < next.queue.len() && 0 <= l < next.flying.len() implies (
    #[trigger] next.queue[k]).0.index != (#[trigger] next.flying[l]).0 by {
        assert(next.queue[k] == view.queue[k + 1]);
        if l == view.flying.len() {
            assert(view.queue[0].0.index != view.queue[k + 1].0.index);
        } else {
            assert(next.flying[l] == view.flying[l]);
        }
    }
    assert forall|k: int, l: int| 0 <= k < l < next.flying.len() implies (
    #[trigger] next.flying[k]).0 != (#[trigger] next.flying[l]).0 by {
        assert(next.flying[k] == view.flying[k]);
        if l < view.flying.len() {
            assert(next.flying[l] == view.flying[l]);
        }
    }
    assert forall|k: int| 0 <= k < next.flying.len() implies (#[trigger] next.flying[k]).0
        < next.done.len() && next.allows(next.flying[k].1)
        && next.done[next.flying[k].0 as int] is None by {
        if k < view.flying.len() {
            assert(next.flying[k] == view.flying[k]);
        }
    }
    lemma_waiting_skip(view.queue, view.retries);
    assert(next.flying.drop_last() =~= view.flying);
}

/// Taking in a result of a run under way keeps the pool in order, and leaves
/// fewer runs to come.
pub proof fn record_keeps_order(view: PoolView, result: TaskResult)
    requires
        view.wf(),
        view.flying.contains((result.index, result.attempt)),
        !view.settles(result) ==> result.attempt < u32::MAX,
    ensures
        view.recorded(result).wf(),
        view.recorded(result).runs_left() < view.runs_left(),
        0 <= view.recorded(result).runs_left(),
{
    let next = view.recorded(result);
    let run = (result.index, result.attempt);
    let at = view.flying.index_of(run);
    assert(0 <= at < view.flying.len() && view.flying[at] == run);
    assert forall|k: int| 0 <= k < next.flying.len() implies (#[trigger] next.flying[k]).0
        != result.index && exists|o: int|
        0 <= o < view.flying.len() && o != at && #[trigger] view.flying[o] == next.flying[k] by {
        let o = if k < at {
            k
        } else {
            k + 1
        };
        assert(view.flying[o] == next.flying[k]);
        assert(view.flying[o].0 != view.flying[at].0);
    }
    assert forall|i: int| 0 <= i < next.done.len() implies (#[trigger] next.done[i]) is Some
        || next.waits(i) || next.flies(i) by {
        assert(view.done[i] is Some || view.waits(i) || view.flies(i));
        if view.waits(i) {
            let k = choose|k: int|
                0 <= k < view.queue.len() && (#[trigger] view.queue[k]).0.index == i;
            assert(next.queue[k].0.index == i);
        } else if view.flies(i) {
            let k = choose|k: int| 0 <= k < view.flying.len() && (#[trigger] view.flying[k]).0 == i;
            if k == at {
                if !view.settles(result) {
                    assert(next.queue[view.queue.len() as int].0.index == i);
                }
            } else if k < at {
                assert(next.flying[k].0 == i);
            } else {
                assert(next.flying[k - 1].0 == i);
            }
        }
    }
    assert forall|k: int, l: int| 0 <= k < l < next.flying.len() implies (
    #[trigger] next.flying[k]).0 != (#[trigger] next.flying[l]).0 by {
        let a = if k < at {
            k
        } else {
            k + 1
        };
        let b = if l < at {
            l
        } else {
            l + 1
        };
        assert(view.flying[a] == next.flying[k] && view.flying[b] == next.flying[l]);
    }
    assert forall|k: int, l: int| 0 <= k < l < next.queue.len() implies (
    #[trigger] next.queue[k]).0.index != (#[trigger] next.queue[l]).0.index by {
        assert(next.queue[k] == view.queue[k]);
        if l < view.queue.len() {
            assert(next.queue[l] == view.queue[l]);
        } else {
            assert(view.queue[k].0.index != view.flying[at].0);
        }
    }
    assert forall|k: int, l: int|
        0 <= k < next.queue.len() && 0 <= l < next.flying.len() implies (
    #[trigger] next.queue[k]).0.index != (#[trigger] next.flying[l]).0 by {
        if k < view.queue.len() {
            assert(next.queue[k] == view.queue[k]);
        }
    }
    assert forall|k: int| 0 <= k < next.queue.len() implies (#[trigger] next.queue[k]).0.index
        < next.done.len() && next.allows(next.queue[k].1)
        && next.done[next.queue[k].0.index as int] is None by {
        if k < view.queue.len() {
            assert(next.queue[k] == view.queue[k]);
            assert(view.queue[k].0.index != view.flying[at].0);
        }
    }
    lemma_flying_remove(view.flying, at, view.retries);
    if !view.settles(result) {
        assert(next.queue.drop_last() =~= view.queue);
    }
    lemma_runs_left_natural(next);
}

proof fn lemma_runs_left_natural(view: PoolView)
    requires
        view.wf(),
    ensures
        0 <= view.runs_left(),
{
    lemma_waiting_natural(view.queue, view.retries);
    lemma_flying_natural(view.flying, view.retries);
}

proof fn lemma_waiting_natural(queue: Seq<(PreparedJob, u32)>, retries: nat)
    requires
        forall|k: int| 0 <= k < queue.len() ==> (#[trigger] queue[k]).1 <= retries + 1,
    ensures
        0 <= waiting_runs(queue, retries),
    decreases queue.len(),
{
    if queue.len() > 0 {
        lemma_waiting_natural(queue.drop_last(), retries);
        assert(queue[queue.len() - 1].1 <= retries + 1);
    }
}

proof fn lemma_flying_natural(flying: Seq<(usize, u32)>, retries: nat)
    requires
        forall|k: int| 0 <= k < flying.len() ==> (#[trigger] flying[k]).1 <= retries + 1,
    ensures
        0 <= flying_runs(flying, retries),
    decreases flying.len(),
{
    if flying.len() > 0 {
        lemma_flying_natural(flying.drop_last(), retries);
        assert(flying[flying.len() - 1].1 <= retries + 1);
    }
}

/// A pool that is not finished is never stuck: a run is under way, or one may
/// be started.
pub proof fn never_stuck(view: PoolView)
    requires
        view.wf(),
        !view.finished(),
    ensures
        view.flying.len() > 0 || view.can_launch(),
{
    if view.flying.len() == 0 {
        let i = choose|i: int| 0 <= i < view.done.len() && (#[trigger] view.done[i]) is None;
        assert(view.waits(i) || view.flies(i));
    }
}

/// In a finished pool a job that failed was run once and then as often again
/// as retries allow; none was run more often.
pub proof fn failures_used_up_their_retries(view: PoolView, i: int)
    requires
        view.wf(),
        view.finished(),
        0 <= i < view.done.len(),
    ensures
        view.done[i]->0.index == i,
        1 <= view.done[i]->0.attempt <= view.retries + 1,
        !view.done[i]->0.ok ==> view.done[i]->0.attempt == view.retries + 1,
{
    assert(view.done[i] is Some);
}

/// A job that waits again is the very job that was run, with its next number.
pub proof fn retry_runs_the_same_job(
    view: PoolView,
    job: PreparedJob,
    result: TaskResult,
    exit_code: i32,
    payload: JsonView,
)
    requires
        view.wf(),
        view.flying.contains((result.index, result.attempt)),
        result.tells(job, result.attempt, exit_code, false, payload),
        result.attempt <= view.retries,
        result.attempt < u32::MAX,
    ensures
        view.recorded(result).queue == view.queue.push((job, (result.attempt + 1) as u32)),
{
}

/// One step of a pool: a run is started, or its result comes in.
pub enum PoolStep {
    Launch,
    Record(TaskResult),
}

/// Whether a result is of the job that its number says.
pub open spec fn of_its_job(jobs: Seq<PreparedJob>, result: TaskResult) -> bool {
    &&& result.index < jobs.len()
    &&& result.name == jobs[result.index as int].name
    &&& result.out == jobs[result.index as int].out
    &&& result.child_args == jobs[result.index as int].child_args
}

impl PoolView {
    /// Whether this is a pool in which every job waits for its first run.
    pub open spec fn fresh(self, jobs: Seq<PreparedJob>) -> bool {
        &&& self.wf()
        &&& forall|i: int| 0 <= i < jobs.len() ==> (#[trigger] jobs[i]).index == i
        &&& self.queue == jobs.map_values(|job: PreparedJob| (job, 1u32))
        &&& self.flying.len() == 0
        &&& self.done.len() == jobs.len()
        &&& forall|i: int| 0 <= i < jobs.len() ==> (#[trigger] self.done[i]) is None
        &&& self.runs_left() == jobs.len() * (self.retries + 1)
    }

    /// Whether a step can be made now: a run may be started, or one that is
    /// under way has a result of its own job.
    pub open spec fn permits(self, jobs: Seq<PreparedJob>, step: PoolStep) -> bool {
        match step {
            PoolStep::Launch => self.can_launch(),
            PoolStep::Record(result) => {
                &&& self.flying.contains((result.index, result.attempt))
                &&& !self.settles(result) ==> result.attempt < u32::MAX
                &&& of_its_job(jobs, result)
            },
        }
    }

    /// The pool after a step.
    pub open spec fn stepped(self, step: PoolStep) -> PoolView {
        match step {
            PoolStep::Launch => self.launched(),
            PoolStep::Record(result) => self.recorded(result),
        }
    }

    /// The pool after steps, one after the other.
    pub open spec fn after(self, steps: Seq<PoolStep>) -> PoolView
        decreases steps.len(),
    {
        if steps.len() == 0 {
            self
        } else {
            self.after(steps.drop_last()).stepped(steps.last())
        }
    }

    /// Whether each of the steps could be made when it was.
    pub open spec fn follows(self, jobs: Seq<PreparedJob>, steps: Seq<PoolStep>) -> bool
        decreases steps.len(),
    {
        steps.len() > 0 ==> self.follows(jobs, steps.drop_last()) && self.after(
            steps.drop_last(),
        ).permits(jobs, steps.last())
    }

    /// The runs that steps started, in order.
    pub open spec fn launches(self, steps: Seq<PoolStep>) -> Seq<(PreparedJob, u32)>
        decreases steps.len(),
    {
        if steps.len() == 0 {
            Seq::empty()
        } else {
            let before = self.launches(steps.drop_last());
            match steps.last() {
                PoolStep::Launch => before.push(self.after(steps.drop_last()).queue[0]),
                PoolStep::Record(_) => before,
            }
        }
    }
}

/// The numbers of the runs of job `i`, in order.
pub open spec fn attempts_of(runs: Seq<(PreparedJob, u32)>, i: int) -> Seq<u32>
    decreases runs.len(),
{
    if runs.len() == 0 {
        Seq::empty()
    } else if runs.last().0.index == i {
        attempts_of(runs.drop_last(), i).push(runs.last().1)
    } else {
        attempts_of(runs.drop_last(), i)
    }
}

/// Whether numbers count up from one.
pub open spec fn counts_up(numbers: Seq<u32>) -> bool {
    forall|k: int| 0 <= k < numbers.len() ==> (#[trigger] numbers[k]) == k + 1
}

/// Whatever steps a pool makes, each result that came in is the one that its
/// job is done with, or is not ok, within the retries, and followed by a run or
/// the wait for one. So every run of a job but its last failed, and no run
/// follows a success.
pub proof fn only_failures_are_run_again(
    start: PoolView,
    jobs: Seq<PreparedJob>,
    steps: Seq<PoolStep>,
    k: int,
)
    requires
        start.fresh(jobs),
        start.follows(jobs, steps),
        0 <= k < steps.len(),
        steps[k] is Record,
    ensures
        ({
            let result = steps[k]->Record_0;
            let view = start.after(steps);
            let had = attempts_of(start.launches(steps), result.index as int);
            &&& result.index < jobs.len()
            &&& view.done[result.index as int] == Some(result) || (!result.ok && result.attempt
                <= start.retries)
            &&& result.ok ==> view.done[result.index as int] == Some(result) && result.attempt
                == had.len()
            &&& result.attempt < had.len() ==> !result.ok
            &&& result.attempt <= had.len()
        }),
{
    runs_are_made_in_turn(start, jobs, steps);
    lemma_results_stay(start, jobs, steps, k);
}

proof fn lemma_results_stay(
    start: PoolView,
    jobs: Seq<PreparedJob>,
    steps: Seq<PoolStep>,
    k: int,
)
    requires
        start.fresh(jobs),
        start.follows(jobs, steps),
        0 <= k < steps.len(),
        steps[k] is Record,
    ensures
        ({
            let result = steps[k]->Record_0;
            let view = start.after(steps);
            &&& result.index < jobs.len()
            &&& view.done[result.index as int] == Some(result) || (!result.ok && result.attempt
                <= start.retries)
            &&& result.attempt <= attempts_of(start.launches(steps), result.index as int).len()
        }),
    decreases steps.len(),
{
    let past = steps.drop_last();
    let result = steps[k]->Record_0;
    let i = result.index as int;
    lemma_turns(start, jobs, past);
    let view = start.after(past);
    let runs = start.launches(past);
    if k == steps.len() - 1 {
        let run = (result.index, result.attempt);
        let at = view.flying.index_of(run);
        assert(0 <= at < view.flying.len() && view.flying[at] == run);
        assert(turn(view, jobs, runs, i));
    } else {
        assert(past[k] == steps[k]);
        lemma_results_stay(start, jobs, past, k);
        match steps.last() {
            PoolStep::Launch => {
                assert(start.launches(steps).drop_last() =~= runs);
            },
            PoolStep::Record(other) => {
                let run = (other.index, other.attempt);
                let at = view.flying.index_of(run);
                assert(0 <= at < view.flying.len() && view.flying[at] == run);
                assert(view.done[other.index as int] is None);
            },
        }
    }
}

/// Whatever steps a pool makes, each run is of the job that was asked for, the
/// runs of a job are numbered from one in order, no job has more runs than one
/// and its retries, so that there are no more in all than that for each job,
/// and what is done is of its own job, by its last run.
pub proof fn runs_are_made_in_turn(
    start: PoolView,
    jobs: Seq<PreparedJob>,
    steps: Seq<PoolStep>,
)
    requires
        start.fresh(jobs),
        start.follows(jobs, steps),
    ensures
        start.after(steps).wf(),
        start.launches(steps).len() <= jobs.len() * (start.retries + 1),
        forall|k: int|
            0 <= k < start.launches(steps).len() ==> (#[trigger] start.launches(steps)[k]).0.index
                < jobs.len() && start.launches(steps)[k].0
                == jobs[start.launches(steps)[k].0.index as int],
        forall|i: int|
            0 <= i < jobs.len() ==> counts_up(#[trigger] attempts_of(start.launches(steps), i))
                && attempts_of(start.launches(steps), i).len() <= start.retries + 1,
        forall|i: int|
            0 <= i < jobs.len() ==> ((#[trigger] start.after(steps).done[i]) matches Some(result)
                ==> of_its_job(jobs, result) && result.index == i && result.attempt == attempts_of(
                start.launches(steps),
                i,
            ).len()),
{
    lemma_turns(start, jobs, steps);
    let view = start.after(steps);
    let runs = start.launches(steps);
    lemma_flying_at_least(view.flying, view.retries);
    lemma_waiting_natural(view.queue, view.retries);
    assert forall|i: int| 0 <= i < jobs.len() implies counts_up(#[trigger] attempts_of(runs, i))
        && attempts_of(runs, i).len() <= start.retries + 1 by {
        assert(turn(view, jobs, runs, i));
        assert(view.done[i] is Some || view.waits(i) || view.flies(i));
    }
    assert forall|i: int| 0 <= i < jobs.len() implies ((#[trigger] view.done[i]) matches Some(
        result,
    ) ==> of_its_job(jobs, result) && result.index == i && result.attempt == attempts_of(
        runs,
        i,
    ).len()) by {
        assert(turn(view, jobs, runs, i));
    }
}

/// How the place of job `i` in a pool goes with the runs that it had.
spec fn turn(
    view: PoolView,
    jobs: Seq<PreparedJob>,
    runs: Seq<(PreparedJob, u32)>,
    i: int,
) -> bool {
    let had = attempts_of(runs, i);
    &&& counts_up(had)
    &&& forall|k: int|
        0 <= k < view.queue.len() && (#[trigger] view.queue[k]).0.index == i ==> view.queue[k].1
            == had.len() + 1
    &&& forall|k: int|
        0 <= k < view.flying.len() && (#[trigger] view.flying[k]).0 == i ==> view.flying[k].1
            == had.len()
    &&& view.done[i] matches Some(result) ==> of_its_job(jobs, result) && result.index == i
        && result.attempt == had.len()
}

proof fn lemma_flying_at_least(flying: Seq<(usize, u32)>, retries: nat)
    requires
        forall|k: int| 0 <= k < flying.len() ==> (#[trigger] flying[k]).1 <= retries + 1,
    ensures
        flying.len() <= flying_runs(flying, retries),
    decreases flying.len(),
{
    if flying.len() > 0 {
        lemma_flying_at_least(flying.drop_last(), retries);
        assert(flying[flying.len() - 1].1 <= retries + 1);
    }
}

proof fn lemma_turns(start: PoolView, jobs: Seq<PreparedJob>, steps: Seq<PoolStep>)
    requires
        start.fresh(jobs),
        start.follows(jobs, steps),
    ensures
        start.after(steps).wf(),
        start.after(steps).retries == start.retries,
        start.after(steps).done.len() == jobs.len(),
        start.launches(steps).len() - start.after(steps).flying.len() + start.after(
            steps,
        ).runs_left() <= jobs.len() * (start.retries + 1),
        forall|k: int|
            0 <= k < start.after(steps).queue.len() ==> (#[trigger] start.after(
                steps,
            ).queue[k]).0 == jobs[start.after(steps).queue[k].0.index as int],
        forall|k: int|
            0 <= k < start.launches(steps).len() ==> (#[trigger] start.launches(steps)[k]).0.index
                < jobs.len() && start.launches(steps)[k].0
                == jobs[start.launches(steps)[k].0.index as int],
        forall|i: int|
            0 <= i < jobs.len() ==> #[trigger] turn(
                start.after(steps),
                jobs,
                start.launches(steps),
                i,
            ),
    decreases steps.len(),
{
    if steps.len() > 0 {
        let past = steps.drop_last();
        lemma_turns(start, jobs, past);
        let view = start.after(past);
        let next = start.after(steps);
        let runs = start.launches(past);
        let more = start.launches(steps);
        match steps.last() {
            PoolStep::Launch => {
                launch_keeps_order(view);
                let first = view.queue[0];
                assert(more.drop_last() =~= runs);
                assert forall|k: int| 0 <= k < next.queue.len() implies (
                #[trigger] next.queue[k]).0 == jobs[next.queue[k].0.index as int] by {
                    assert(next.queue[k] == view.queue[k + 1]);
                }
                assert forall|i: int| 0 <= i < jobs.len() implies #[trigger] turn(
                    next,
                    jobs,
                    more,
                    i,
                ) by {
                    assert(turn(view, jobs, runs, i));
                    assert forall|k: int|
                        0 <= k < next.queue.len() && (#[trigger] next.queue[k]).0.index
                            == i implies next.queue[k].1 == attempts_of(more, i).len() + 1 by {
                        assert(next.queue[k] == view.queue[k + 1]);
                        assert(view.queue[0].0.index != view.queue[k + 1].0.index);
                    }
                    assert forall|k: int|
                        0 <= k < next.flying.len() && (#[trigger] next.flying[k]).0
                            == i implies next.flying[k].1 == attempts_of(more, i).len() by {
                        if k < view.flying.len() {
                            assert(next.flying[k] == view.flying[k]);
                            assert(view.queue[0].0.index != view.flying[k].0);
                        }
                    }
                }
            },
            PoolStep::Record(result) => {
                record_keeps_order(view, result);
                let run = (result.index, result.attempt);
                let at = view.flying.index_of(run);
                assert(0 <= at < view.flying.len() && view.flying[at] == run);
                let job = jobs[result.index as int];
                assert forall|k: int| 0 <= k < next.queue.len() implies (
                #[trigger] next.queue[k]).0 == jobs[next.queue[k].0.index as int] by {
                    if k < view.queue.len() {
                        assert(next.queue[k] == view.queue[k]);
                    } else {
                        assert(next.queue[k].0 == job);
                    }
                }
                assert forall|i: int| 0 <= i < jobs.len() implies #[trigger] turn(
                    next,
                    jobs,
                    more,
                    i,
                ) by {
                    assert(turn(view, jobs, runs, i));
                    assert forall|k: int|
                        0 <= k < next.flying.len() && (#[trigger] next.flying[k]).0
                            == i implies next.flying[k].1 == attempts_of(more, i).len() by {
                        let o = if k < at {
                            k
                        } else {
                            k + 1
                        };
                        assert(view.flying[o] == next.flying[k]);
                    }
                    assert forall|k: int|
                        0 <= k < next.queue.len() && (#[trigger] next.queue[k]).0.index
                            == i implies next.queue[k].1 == attempts_of(more, i).len() + 1 by {
                        if k < view.queue.len() {
                            assert(next.queue[k] == view.queue[k]);
                        } else {
                            assert(view.flying[at].0 == i);
                        }
                    }
                    assert(i == result.index ==> view.flying[at].0 == i);
                }
            },
        }
    } else {
        assert forall|i: int| 0 <= i < jobs.len() implies #[trigger] turn(
            start,
            jobs,
            start.launches(steps),
            i,
        ) by {
            assert(start.done[i] is None);
        }
    }
}

/// The jobs of one fanout on their way.
pub struct Pool {
    max_parallel: usize,
    retries: u32,
    queue: VecDeque<(PreparedJob, u32)>,
    flying: Vec<(usize, u32)>,
    done: Vec<Option<TaskResult>>,
}

/// What a pool wants next.
pub enum PoolAction {
    /// Run this job; this is the number of the run.
    Launch(PreparedJob, u32),
    /// Wait until one of the runs under way has a result.
    Await,
    /// All jobs are done.
    Finish,
}

impl View for Pool {
    type V = PoolView;

    closed spec fn view(&self) -> PoolView {
        PoolView {
            max_parallel: self.max_parallel as nat,
            retries: self.retries as nat,
            queue: self.queue@,
            flying: self.flying@,
            done: self.done@,
        }
    }
}

impl Pool {
    /// A pool in which every job waits for its first run. `jobs` are numbered
    /// by their places.
    pub fn new(jobs: Vec<PreparedJob>, max_parallel: usize, retries: u32) -> (pool: Pool)
        requires
            max_parallel >= 1,
            forall|i: int| 0 <= i < jobs@.len() ==> (#[trigger] jobs@[i]).index == i,
        ensures
            pool@.fresh(jobs@),
            pool@.max_parallel == max_parallel,
            pool@.retries == retries,
    {
        let ghost all = jobs@;
        let total: usize = jobs.len();
        let mut rest: Vec<PreparedJob> = jobs;
        let mut queue: VecDeque<(PreparedJob, u32)> = VecDeque::new();
        let mut done: Vec<Option<TaskResult>> = Vec::new();
        while rest.len() > 0
            invariant
                total == all.len(),
                rest@.len() <= total,
                rest@ == all.take(rest@.len() as int),
                queue@ =~= all.skip(rest@.len() as int).map_values(|job: PreparedJob| (job, 1u32)),
                done@.len() == total - rest@.len(),
                forall|i: int| 0 <= i < done@.len() ==> (#[trigger] done@[i]) is None,
            decreases rest@.len(),
        {
            let ghost left = rest@.len();
            let ghost before = queue@;
            match rest.pop() {
                Some(job) => {
                    queue.push_front((job, 1u32));
                    done.push(None);
                    assert(queue@ =~= all.skip(left - 1).map_values(
                        |job: PreparedJob| (job, 1u32),
                    ));
                },
                None => {},
            }
        }
        assert(all.skip(0) =~= all);
        let pool: Pool = Pool { max_parallel, retries, queue, flying: Vec::new(), done };
        proof {
            assert forall|i: int| 0 <= i < pool@.done.len() implies (
            #[trigger] pool@.done[i]) is Some || pool@.waits(i) || pool@.flies(i) by {
                assert(pool@.queue[i].0.index == i);
            }
            lemma_first_runs(pool@.queue, retries as nat);
        }
        pool
    }

    /// Says what is to be done next, and counts a run that is to be started as
    /// under way. As many runs are started as may be before any is awaited.
    pub fn next(&mut self) -> (action: PoolAction)
        requires
            old(self)@.wf(),
        ensures
            final(self)@.wf(),
            action is Finish <==> old(self)@.finished(),
            action is Launch <==> !old(self)@.finished() && old(self)@.can_launch(),
            match action {
                PoolAction::Launch(job, attempt) => {
                    &&& (job, attempt) == old(self)@.queue[0]
                    &&& final(self)@ == old(self)@.launched()
                },
                PoolAction::Await => final(self)@ == old(self)@ && old(self)@.flying.len() > 0,
                PoolAction::Finish => final(self)@ == old(self)@,
            },
            final(self)@.runs_left() == old(self)@.runs_left(),
    {
        if self.finished() {
            return PoolAction::Finish;
        }
        proof {
            never_stuck(self@);
        }
        if self.flying.len() < self.max_parallel {
            proof {
                if self@.queue.len() > 0 {
                    launch_keeps_order(self@);
                }
            }
            let ghost before = self@;
            match self.queue.pop_front() {
                Some((job, attempt)) => {
                    self.flying.push((job.index, attempt));
                    assert(self@.queue =~= before.launched().queue);
                    return PoolAction::Launch(job, attempt);
                },
                None => {},
            }
        }
        PoolAction::Await
    }

    /// Whether run `attempt` of job `index` is under way.
    pub fn awaits(&self, index: usize, attempt: u32) -> (under_way: bool)
        ensures
            under_way == self@.flying.contains((index, attempt)),
    {
        let mut i: usize = 0;
        while i < self.flying.len()
            invariant
                i <= self.flying@.len(),
                forall|k: int| 0 <= k < i ==> self.flying@[k] != (index, attempt),
            decreases self.flying@.len() - i,
        {
            if self.flying[i].0 == index && self.flying[i].1 == attempt {
                assert(self@.flying[i as int] == (index, attempt));
                return true;
            }
            i = i + 1;
        }
        false
    }

    /// Takes in the result of a run that is under way. A job that failed waits
    /// again, behind all others, as long as it has retries; else it is done.
    pub fn record(&mut self, result: TaskResult)
        requires
            old(self)@.wf(),
            old(self)@.flying.contains((result.index, result.attempt)),
            !old(self)@.settles(result) ==> result.attempt < u32::MAX,
        ensures
            final(self)@ == old(self)@.recorded(result),
            final(self)@.wf(),
            0 <= final(self)@.runs_left() < old(self)@.runs_left(),
    {
        proof {
            record_keeps_order(self@, result);
        }
        let ghost before = self@;
        let ghost run = (result.index, result.attempt);
        let ghost at = before.flying.index_of(run);
        let mut i: usize = 0;
        while i < self.flying.len() && self.flying[i].0 != result.index
            invariant
                self@ == before,
                before.wf(),
                i <= self.flying@.len(),
                run == (result.index, result.attempt),
                at == before.flying.index_of(run),
                before.flying.contains(run),
                forall|k: int| 0 <= k < i ==> (#[trigger] before.flying[k]).0 != result.index,
            decreases self.flying@.len() - i,
        {
            i = i + 1;
        }
        assert(0 <= at < before.flying.len() && before.flying[at] == run);
        assert(i == at);
        let _ = self.flying.remove(i);
        if !result.ok && result.attempt <= self.retries {
            let again: PreparedJob = PreparedJob {
                index: result.index,
                name: result.name,
                out: result.out,
                child_args: result.child_args,
            };
            self.queue.push_back((again, result.attempt + 1));
        } else {
            let index: usize = result.index;
            self.done.set(index, Some(result));
        }
    }

    /// Whether every job is done and nothing is under way.
    pub fn finished(&self) -> (all: bool)
        ensures
            all == self@.finished(),
    {
        if self.flying.len() > 0 {
            return false;
        }
        let mut i: usize = 0;
        while i < self.done.len()
            invariant
                i <= self.done@.len(),
                forall|k: int| 0 <= k < i ==> (#[trigger] self.done@[k]) is Some,
            decreases self.done@.len() - i,
        {
            if self.done[i].is_none() {
                assert(self@.done[i as int] is None);
                return false;
            }
            i = i + 1;
        }
        true
    }

    /// The results of a finished pool, in the order of the jobs.
    pub fn into_results(self) -> (results: Vec<TaskResult>)
        requires
            self@.wf(),
            self@.finished(),
        ensures
            results@.len() == self@.done.len(),
            forall|i: int|
                0 <= i < results@.len() ==> (#[trigger] results@[i]) == self@.done[i]->0
                    && results@[i].index == i,
    {
        let ghost all = self@.done;
        let mut rest: Vec<Option<TaskResult>> = self.done;
        let mut results: Vec<TaskResult> = Vec::new();
        while rest.len() > 0
            invariant
                rest@.len() + results@.len() == all.len(),
                rest@ == all.skip(results@.len() as int),
                forall|i: int| 0 <= i < all.len() ==> (#[trigger] all[i]) is Some,
                forall|i: int|
                    0 <= i < results@.len() ==> (#[trigger] results@[i]) == all[i]->0,
            decreases rest@.len(),
        {
            let ghost k = results@.len() as int;
            assert(all[k] is Some);
            match rest.remove(0) {
                Some(result) => {
                    results.push(result);
                },
                None => {},
            }
            assert(rest@ =~= all.skip(k + 1));
        }
        assert forall|i: int| 0 <= i < results@.len() implies (#[trigger] results@[i]) == all[i]->0
            && results@[i].index == i by {
            assert(all[i] is Some);
        }
        results
    }
}

proof fn lemma_first_runs(queue: Seq<(PreparedJob, u32)>, retries: nat)
    requires
        forall|k: int| 0 <= k < queue.len() ==> (#[trigger] queue[k]).1 == 1,
    ensures
        waiting_runs(queue, retries) == queue.len() * (retries + 1),
    decreases queue.len(),
{
    if queue.len() > 0 {
        lemma_first_runs(queue.drop_last(), retries);
        assert(queue[queue.len() - 1].1 == 1);
        assert(queue.len() * (retries + 1) == (queue.len() - 1) * (retries + 1) + (retries + 1))
            by (nonlinear_arith);
    }
}

} // verus!
