//! What batches of jobs promise.

use vstd::prelude::*;
use crate::fanout;
use crate::fanout::PreparedJob;
use crate::jobs;
use crate::json::{JsonView, NumberView, Reply};
use crate::laws::words;
use crate::pool;
use crate::pool::PoolView;
use crate::tasks;
use crate::tasks::TaskResult;
use crate::text;

verus! {

/// The keys of a report differ.
pub(crate) proof fn lemma_report_keys()
    ensures
        "ok"@ != "command"@,
        "ok"@ != "jobs_file"@,
        "ok"@ != "max_parallel"@,
        "ok"@ != "retries"@,
        "ok"@ != "elapsed_ms"@,
        "ok"@ != "tasks"@,
        "command"@ != "jobs_file"@,
        "command"@ != "max_parallel"@,
        "command"@ != "retries"@,
        "command"@ != "elapsed_ms"@,
        "command"@ != "tasks"@,
        "jobs_file"@ != "max_parallel"@,
        "jobs_file"@ != "retries"@,
        "jobs_file"@ != "elapsed_ms"@,
        "jobs_file"@ != "tasks"@,
        "max_parallel"@ != "retries"@,
        "max_parallel"@ != "elapsed_ms"@,
        "max_parallel"@ != "tasks"@,
        "retries"@ != "elapsed_ms"@,
        "retries"@ != "tasks"@,
        "elapsed_ms"@ != "tasks"@,
{
    reveal_strlit("ok");
    reveal_strlit("command");
    reveal_strlit("jobs_file");
    reveal_strlit("max_parallel");
    reveal_strlit("retries");
    reveal_strlit("elapsed_ms");
    reveal_strlit("tasks");
    assert("ok"@.len() != "command"@.len());
    assert("ok"@.len() != "jobs_file"@.len());
    assert("ok"@.len() != "max_parallel"@.len());
    assert("ok"@.len() != "retries"@.len());
    assert("ok"@.len() != "elapsed_ms"@.len());
    assert("ok"@.len() != "tasks"@.len());
    assert("command"@.len() != "jobs_file"@.len());
    assert("command"@.len() != "max_parallel"@.len());
    assert("command"@[0] != "retries"@[0]);
    assert("command"@.len() != "elapsed_ms"@.len());
    assert("command"@.len() != "tasks"@.len());
    assert("jobs_file"@.len() != "max_parallel"@.len());
    assert("jobs_file"@.len() != "retries"@.len());
    assert("jobs_file"@.len() != "elapsed_ms"@.len());
    assert("jobs_file"@.len() != "tasks"@.len());
    assert("max_parallel"@.len() != "retries"@.len());
    assert("max_parallel"@.len() != "elapsed_ms"@.len());
    assert("max_parallel"@.len() != "tasks"@.len());
    assert("retries"@.len() != "elapsed_ms"@.len());
    assert("retries"@.len() != "tasks"@.len());
    assert("elapsed_ms"@.len() != "tasks"@.len());
}

/// The keys of a task differ.
proof fn lemma_task_keys()
    ensures
        "name"@ != "out"@,
        "name"@ != "ok"@,
        "name"@ != "attempts"@,
        "name"@ != "exit_code"@,
        "name"@ != "result"@,
        "out"@ != "ok"@,
        "out"@ != "attempts"@,
        "out"@ != "exit_code"@,
        "out"@ != "result"@,
        "ok"@ != "attempts"@,
        "ok"@ != "exit_code"@,
        "ok"@ != "result"@,
        "attempts"@ != "exit_code"@,
        "attempts"@ != "result"@,
        "exit_code"@ != "result"@,
{
    reveal_strlit("name");
    reveal_strlit("out");
    reveal_strlit("ok");
    reveal_strlit("attempts");
    reveal_strlit("exit_code");
    reveal_strlit("result");
    assert("name"@.len() != "out"@.len());
    assert("name"@.len() != "ok"@.len());
    assert("name"@.len() != "attempts"@.len());
    assert("name"@.len() != "exit_code"@.len());
    assert("name"@.len() != "result"@.len());
    assert("out"@.len() != "ok"@.len());
    assert("out"@.len() != "attempts"@.len());
    assert("out"@.len() != "exit_code"@.len());
    assert("out"@.len() != "result"@.len());
    assert("ok"@.len() != "attempts"@.len());
    assert("ok"@.len() != "exit_code"@.len());
    assert("ok"@.len() != "result"@.len());
    assert("attempts"@.len() != "exit_code"@.len());
    assert("attempts"@.len() != "result"@.len());
    assert("exit_code"@.len() != "result"@.len());
}

/// The keys of a failure differ.
proof fn lemma_failure_keys()
    ensures
        "ok"@ != "command"@,
        "ok"@ != "error"@,
        "ok"@ != "code"@,
        "ok"@ != "message"@,
        "command"@ != "error"@,
        "command"@ != "code"@,
        "command"@ != "message"@,
        "error"@ != "code"@,
        "error"@ != "message"@,
        "code"@ != "message"@,
{
    reveal_strlit("ok");
    reveal_strlit("command");
    reveal_strlit("error");
    reveal_strlit("code");
    reveal_strlit("message");
    assert("ok"@.len() != "command"@.len());
    assert("ok"@.len() != "error"@.len());
    assert("ok"@.len() != "code"@.len());
    assert("ok"@.len() != "message"@.len());
    assert("command"@.len() != "error"@.len());
    assert("command"@.len() != "code"@.len());
    assert("command"@[0] != "message"@[0]);
    assert("error"@.len() != "code"@.len());
    assert("error"@.len() != "message"@.len());
    assert("code"@.len() != "message"@.len());
}

/// A batch is reported as ok exactly if every one of its results is ok: one
/// failed result, at any place, makes the whole report not ok.
pub proof fn a_batch_is_ok_only_as_a_whole(
    results: Seq<TaskResult>,
    jobs_file: Seq<char>,
    max_parallel: int,
    retries: int,
    elapsed_ms: int,
)
    ensures
        ({
            let report = tasks::fanout_report(
                results,
                jobs_file,
                max_parallel,
                retries,
                elapsed_ms,
            );
            &&& report.get("ok"@) == Some(JsonView::Bool(true)) || report.get("ok"@) == Some(
                JsonView::Bool(false),
            )
            &&& report.get("ok"@) == Some(JsonView::Bool(true)) <==> forall|i: int|
                0 <= i < results.len() ==> (#[trigger] results[i]).ok
            &&& forall|i: int|
                0 <= i < results.len() && !(#[trigger] results[i]).ok ==> report.get("ok"@)
                    == Some(JsonView::Bool(false))
        }),
{
    lemma_report_keys();
}

/// The status of the reply to a batch is zero if every result is ok, and one if
/// any is not.
pub proof fn a_failed_job_fails_the_command(
    reply: Reply,
    results: Seq<TaskResult>,
    jobs_file: Seq<char>,
    max_parallel: int,
    retries: int,
    elapsed_ms: int,
    fallback: Seq<char>,
)
    requires
        ({
            let report = tasks::fanout_report(
                results,
                jobs_file,
                max_parallel,
                retries,
                elapsed_ms,
            );
            reply.shows(
                report,
                fallback,
                if report.true_at("ok"@) {
                    0
                } else {
                    1
                },
            )
        }),
    ensures
        reply.code == 0 <==> forall|i: int| 0 <= i < results.len() ==> (#[trigger] results[i]).ok,
        reply.code == 0 || reply.code == 1,
{
    a_batch_is_ok_only_as_a_whole(results, jobs_file, max_parallel, retries, elapsed_ms);
}

/// The report tells of every result, in the order of the jobs, what its run
/// came to.
pub proof fn every_result_is_reported(
    results: Seq<TaskResult>,
    jobs_file: Seq<char>,
    max_parallel: int,
    retries: int,
    elapsed_ms: int,
    i: int,
)
    requires
        0 <= i < results.len(),
    ensures
        ({
            let report = tasks::fanout_report(
                results,
                jobs_file,
                max_parallel,
                retries,
                elapsed_ms,
            );
            let list = report.get("tasks"@)->0->Array_0;
            let entry = list[i];
            let code = results[i].exit_code;
            &&& report.get("tasks"@) == Some(JsonView::Array(list))
            &&& list.len() == results.len()
            &&& entry.get("name"@) == Some(JsonView::Str(results[i].name@))
            &&& entry.get("out"@) == Some(JsonView::Str(results[i].out@))
            &&& entry.get("ok"@) == Some(JsonView::Bool(results[i].ok))
            &&& entry.get("attempts"@) == Some(
                JsonView::Number(NumberView::Unsigned(results[i].attempt as u64)),
            )
            &&& code >= 0 ==> entry.get("exit_code"@) == Some(
                JsonView::Number(NumberView::Unsigned(code as u64)),
            )
            &&& code < 0 ==> entry.get("exit_code"@) == Some(
                JsonView::Number(NumberView::Negative(code as i64)),
            )
            &&& entry.get("result"@) == Some(results[i].payload@)
        }),
{
    lemma_report_keys();
    lemma_task_keys();
}

/// The report tells how the batch was run.
pub proof fn the_settings_are_reported(
    results: Seq<TaskResult>,
    jobs_file: Seq<char>,
    max_parallel: u64,
    retries: u64,
    elapsed_ms: u64,
)
    ensures
        ({
            let report = tasks::fanout_report(
                results,
                jobs_file,
                max_parallel as int,
                retries as int,
                elapsed_ms as int,
            );
            &&& report.get("command"@) == Some(JsonView::Str("images fanout"@))
            &&& report.get("jobs_file"@) == Some(JsonView::Str(jobs_file))
            &&& report.get("max_parallel"@) == Some(
                JsonView::Number(NumberView::Unsigned(max_parallel)),
            )
            &&& report.get("retries"@) == Some(JsonView::Number(NumberView::Unsigned(retries)))
            &&& report.get("elapsed_ms"@) == Some(
                JsonView::Number(NumberView::Unsigned(elapsed_ms)),
            )
        }),
{
    lemma_report_keys();
}

/// What is told of a run is told of the job that was run, with what its child
/// said.
pub proof fn a_result_is_of_its_own_run(
    result: TaskResult,
    job: PreparedJob,
    attempt: u32,
    exit_code: i32,
    ok: bool,
    payload: JsonView,
)
    requires
        result.tells(job, attempt, exit_code, ok, payload),
    ensures
        result.index == job.index,
        result.name@ == job.name@,
        result.out@ == job.out@,
        result.child_args@ == job.child_args@,
        result.attempt == attempt,
        result.exit_code == exit_code,
        result.ok == ok,
        result.payload@ == payload,
{
}

/// What a child printed is taken as it is where it reads as JSON, and is quoted
/// in a failure where it does not; a child without an exit code counts as one
/// that ended with one.
pub proof fn a_child_is_heard(printed: Seq<char>, read: JsonView, code: i32)
    ensures
        tasks::said(printed, Some(read)) == read,
        ({
            let quoted = tasks::said(printed, None);
            let error = quoted.get("error"@)->0;
            &&& quoted.get("ok"@) == Some(JsonView::Bool(false))
            &&& quoted.get("error"@) is Some
            &&& error.get("code"@) == Some(JsonView::Str("child_output_invalid"@))
            &&& error.get("message"@) == Some(JsonView::Str(printed))
        }),
        tasks::exit_code_of(Some(code)) == code,
        tasks::exit_code_of(None) == 1,
{
    lemma_failure_keys();
}

/// The text of what a child printed is the decoded text but for white space at
/// its ends.
pub proof fn a_child_is_trimmed(stdout: Seq<u8>)
    ensures
        ({
            let whole = text::lossy_text(stdout);
            let printed = tasks::printed_text(stdout);
            exists|i: int, j: int| #[trigger]
                words::white_around(whole, i, j) && printed == whole.subrange(i, j)
        }),
        ({
            let printed = tasks::printed_text(stdout);
            printed.len() > 0 ==> !text::white_space(printed[0]) && !text::white_space(
                printed.last(),
            )
        }),
{
    words::trimming_takes_white_space_only(text::lossy_text(stdout));
}

/// A failure says that nothing went well, and why.
pub proof fn a_failure_says_why(code: Seq<char>, message: Seq<char>)
    ensures
        ({
            let payload = tasks::failure(code, message);
            let error = payload.get("error"@)->0;
            &&& payload.get("ok"@) == Some(JsonView::Bool(false))
            &&& payload.get("error"@) is Some
            &&& error.get("code"@) == Some(JsonView::Str(code))
            &&& error.get("message"@) == Some(JsonView::Str(message))
        }),
        ({
            let payload = fanout::fanout_failure(message);
            let error = payload.get("error"@)->0;
            &&& payload.get("ok"@) == Some(JsonView::Bool(false))
            &&& payload.get("command"@) == Some(JsonView::Str("images fanout"@))
            &&& payload.get("error"@) is Some
            &&& error.get("code"@) == Some(JsonView::Str("fanout_failed"@))
            &&& error.get("message"@) == Some(JsonView::Str(message))
        }),
        ({
            let payload = jobs::status_failure(message);
            let error = payload.get("error"@)->0;
            &&& payload.get("ok"@) == Some(JsonView::Bool(false))
            &&& payload.get("command"@) == Some(JsonView::Str("jobs status"@))
            &&& payload.get("error"@) is Some
            &&& error.get("code"@) == Some(JsonView::Str("jobs_status_failed"@))
            &&& error.get("message"@) == Some(JsonView::Str(message))
        }),
{
    lemma_failure_keys();
}

/// A run is held back only where as many are under way as may be, or no job
/// waits; and the job that waited longest is the one to run.
pub proof fn a_pool_is_kept_full(view: PoolView)
    ensures
        !view.can_launch() ==> view.flying.len() >= view.max_parallel || view.queue.len() == 0,
        view.can_launch() ==> view.flying.len() < view.max_parallel && view.queue.len() > 0,
        view.can_launch() ==> ({
            let next = view.launched();
            &&& next.flying.len() == view.flying.len() + 1
            &&& next.flying.last() == (view.queue.first().0.index, view.queue.first().1)
            &&& next.queue.len() == view.queue.len() - 1
            &&& forall|k: int| 0 <= k < next.queue.len() ==> next.queue[k] == view.queue[k + 1]
            &&& forall|k: int|
                0 <= k < view.flying.len() ==> next.flying[k] == view.flying[k]
            &&& next.done == view.done
            &&& next.max_parallel == view.max_parallel
            &&& next.retries == view.retries
        }),
{
}

/// A result that is ok, or that no retry is left after, is what its job is done
/// with; any other sends its job to the end of the queue for its next run. The
/// other jobs stay where they are.
pub proof fn a_result_settles_or_sends_back(view: PoolView, result: TaskResult)
    requires
        view.wf(),
        view.flying.contains((result.index, result.attempt)),
        result.attempt < u32::MAX,
    ensures
        ({
            let next = view.recorded(result);
            let i = result.index as int;
            &&& next.flying.len() == view.flying.len() - 1
            &&& !next.flying.contains((result.index, result.attempt))
            &&& forall|run: (usize, u32)|
                run != (result.index, result.attempt) && view.flying.contains(run)
                    ==> #[trigger] next.flying.contains(run)
            &&& next.done.len() == view.done.len()
            &&& forall|k: int| 0 <= k < view.done.len() && k != i ==> next.done[k] == view.done[k]
            &&& result.ok || result.attempt > view.retries ==> next.done[i] == Some(result)
                && next.queue == view.queue
            &&& !result.ok && result.attempt <= view.retries ==> {
                &&& next.done[i] == view.done[i]
                &&& next.queue.len() == view.queue.len() + 1
                &&& next.queue.last().0.index == result.index
                &&& next.queue.last().0.child_args == result.child_args
                &&& next.queue.last().1 == result.attempt + 1
                &&& forall|k: int| 0 <= k < view.queue.len() ==> next.queue[k] == view.queue[k]
            }
        }),
{
    let run = (result.index, result.attempt);
    let at = view.flying.index_of(run);
    let next = view.recorded(result);
    assert(0 <= at < view.flying.len() && view.flying[at] == run);
    assert(next.flying == view.flying.remove(at));
    assert forall|k: int| 0 <= k < next.flying.len() implies (#[trigger] next.flying[k]) != run by {
        let o = if k < at {
            k
        } else {
            k + 1
        };
        assert(view.flying[o] == next.flying[k]);
        assert(view.flying[o].0 != view.flying[at].0);
    }
    assert forall|other: (usize, u32)|
        other != run && view.flying.contains(other) implies #[trigger] next.flying.contains(
        other,
    ) by {
        let o = choose|o: int| 0 <= o < view.flying.len() && view.flying[o] == other;
        let k = if o < at {
            o
        } else {
            o - 1
        };
        assert(next.flying[k] == other);
    }
}

/// A pool is over exactly if nothing is under way and every job has a result.
pub proof fn a_pool_ends_with_all_results(view: PoolView)
    ensures
        view.finished() <==> view.flying.len() == 0 && forall|i: int|
            0 <= i < view.done.len() ==> (#[trigger] view.done[i]) is Some,
{
}

/// A new pool has every job in its queue, in order and for its first run, and
/// nothing under way or done.
pub proof fn a_new_pool_holds_every_job(view: PoolView, jobs: Seq<PreparedJob>, i: int)
    requires
        view.fresh(jobs),
    ensures
        view.queue.len() == jobs.len(),
        0 <= i < jobs.len() ==> view.queue[i].0 == jobs[i] && view.queue[i].1 == 1,
        0 <= i < jobs.len() ==> jobs[i].index == i,
        view.flying.len() == 0,
        view.done.len() == jobs.len(),
        0 <= i < jobs.len() ==> view.done[i] is None,
{
}

/// The runs of a job are numbered from one on.
pub proof fn runs_are_numbered_from_one(numbers: Seq<u32>, k: int)
    ensures
        pool::counts_up(numbers) && 0 <= k < numbers.len() ==> numbers[k] == k + 1,
        pool::counts_up(numbers) && numbers.len() < u32::MAX ==> pool::counts_up(
            numbers.push((numbers.len() + 1) as u32),
        ),
{
    if pool::counts_up(numbers) && numbers.len() < u32::MAX {
        let more = numbers.push((numbers.len() + 1) as u32);
        assert forall|j: int| 0 <= j < more.len() implies (#[trigger] more[j]) == j + 1 by {
            if j < numbers.len() {
                assert(more[j] == numbers[j]);
            }
        }
    }
}

/// A result of a job carries that job's name, place and arguments.
pub proof fn a_result_carries_its_job(jobs: Seq<PreparedJob>, result: TaskResult)
    requires
        pool::of_its_job(jobs, result),
    ensures
        ({
            let job = jobs[result.index as int];
            &&& 0 <= result.index < jobs.len()
            &&& result.name == job.name
            &&& result.out == job.out
            &&& result.child_args == job.child_args
        }),
{
}

} // verus!
