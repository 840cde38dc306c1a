//! What the state of jobs means to those who wait for them or ask about them.

use vstd::prelude::*;
use crate::client;
use crate::client::Polled;
use crate::jobs;
use crate::jobs::{Outcome, TicketView};
use crate::json::{Json, JsonView, NumberView};

verus! {

/// The words for the state of a job differ.
proof fn lemma_status_words()
    ensures
        "completed"@ != "partial_failed"@,
        "completed"@ != "failed"@,
        "completed"@ != "cancelled"@,
        "completed"@ != "canceled"@,
        "completed"@ != "unknown"@,
        "partial_failed"@ != "failed"@,
        "partial_failed"@ != "cancelled"@,
        "partial_failed"@ != "canceled"@,
        "partial_failed"@ != "unknown"@,
        "failed"@ != "cancelled"@,
        "failed"@ != "canceled"@,
        "failed"@ != "unknown"@,
        "cancelled"@ != "canceled"@,
        "cancelled"@ != "unknown"@,
        "canceled"@ != "unknown"@,
{
    reveal_strlit("completed");
    reveal_strlit("partial_failed");
    reveal_strlit("failed");
    reveal_strlit("cancelled");
    reveal_strlit("canceled");
    reveal_strlit("unknown");
    assert("completed"@.len() != "partial_failed"@.len());
    assert("completed"@.len() != "failed"@.len());
    assert("completed"@[1] != "cancelled"@[1]);
    assert("completed"@.len() != "canceled"@.len());
    assert("completed"@.len() != "unknown"@.len());
    assert("partial_failed"@.len() != "failed"@.len());
    assert("partial_failed"@.len() != "cancelled"@.len());
    assert("partial_failed"@.len() != "canceled"@.len());
    assert("partial_failed"@.len() != "unknown"@.len());
    assert("failed"@.len() != "cancelled"@.len());
    assert("failed"@.len() != "canceled"@.len());
    assert("failed"@.len() != "unknown"@.len());
    assert("cancelled"@.len() != "canceled"@.len());
    assert("cancelled"@.len() != "unknown"@.len());
    assert("canceled"@.len() != "unknown"@.len());
}

/// The keys of a summary differ.
proof fn lemma_summary_keys()
    ensures
        "ok"@ != "command"@,
        "ok"@ != "pending"@,
        "ok"@ != "completed"@,
        "ok"@ != "failed"@,
        "ok"@ != "done"@,
        "ok"@ != "all_ok"@,
        "ok"@ != "tasks"@,
        "command"@ != "pending"@,
        "command"@ != "completed"@,
        "command"@ != "failed"@,
        "command"@ != "done"@,
        "command"@ != "all_ok"@,
        "command"@ != "tasks"@,
        "pending"@ != "completed"@,
        "pending"@ != "failed"@,
        "pending"@ != "done"@,
        "pending"@ != "all_ok"@,
        "pending"@ != "tasks"@,
        "completed"@ != "failed"@,
        "completed"@ != "done"@,
        "completed"@ != "all_ok"@,
        "completed"@ != "tasks"@,
        "failed"@ != "done"@,
        "failed"@ != "all_ok"@,
        "failed"@ != "tasks"@,
        "done"@ != "all_ok"@,
        "done"@ != "tasks"@,
        "all_ok"@ != "tasks"@,
{
    reveal_strlit("ok");
    reveal_strlit("command");
    reveal_strlit("pending");
    reveal_strlit("completed");
    reveal_strlit("failed");
    reveal_strlit("done");
    reveal_strlit("all_ok");
    reveal_strlit("tasks");
    assert("ok"@.len() != "command"@.len());
    assert("ok"@.len() != "pending"@.len());
    assert("ok"@.len() != "completed"@.len());
    assert("ok"@.len() != "failed"@.len());
    assert("ok"@.len() != "done"@.len());
    assert("ok"@.len() != "all_ok"@.len());
    assert("ok"@.len() != "tasks"@.len());
    assert("command"@[0] != "pending"@[0]);
    assert("command"@.len() != "completed"@.len());
    assert("command"@.len() != "failed"@.len());
    assert("command"@.len() != "done"@.len());
    assert("command"@.len() != "all_ok"@.len());
    assert("command"@.len() != "tasks"@.len());
    assert("pending"@.len() != "completed"@.len());
    assert("pending"@.len() != "failed"@.len());
    assert("pending"@.len() != "done"@.len());
    assert("pending"@.len() != "all_ok"@.len());
    assert("pending"@.len() != "tasks"@.len());
    assert("completed"@.len() != "failed"@.len());
    assert("completed"@.len() != "done"@.len());
    assert("completed"@.len() != "all_ok"@.len());
    assert("completed"@.len() != "tasks"@.len());
    assert("failed"@.len() != "done"@.len());
    assert("failed"@[0] != "all_ok"@[0]);
    assert("failed"@.len() != "tasks"@.len());
    assert("done"@.len() != "all_ok"@.len());
    assert("done"@.len() != "tasks"@.len());
    assert("all_ok"@.len() != "tasks"@.len());
}

/// The keys of a report on a ticket differ.
proof fn lemma_ticket_keys()
    ensures
        "job_id"@ != "name"@,
        "job_id"@ != "out"@,
        "job_id"@ != "ok"@,
        "job_id"@ != "status"@,
        "job_id"@ != "output"@,
        "job_id"@ != "error"@,
        "job_id"@ != "job"@,
        "job_id"@ != "code"@,
        "job_id"@ != "message"@,
        "name"@ != "out"@,
        "name"@ != "ok"@,
        "name"@ != "status"@,
        "name"@ != "output"@,
        "name"@ != "error"@,
        "name"@ != "job"@,
        "name"@ != "code"@,
        "name"@ != "message"@,
        "out"@ != "ok"@,
        "out"@ != "status"@,
        "out"@ != "output"@,
        "out"@ != "error"@,
        "out"@ != "job"@,
        "out"@ != "code"@,
        "out"@ != "message"@,
        "ok"@ != "status"@,
        "ok"@ != "output"@,
        "ok"@ != "error"@,
        "ok"@ != "job"@,
        "ok"@ != "code"@,
        "ok"@ != "message"@,
        "status"@ != "output"@,
        "status"@ != "error"@,
        "status"@ != "job"@,
        "status"@ != "code"@,
        "status"@ != "message"@,
        "output"@ != "error"@,
        "output"@ != "job"@,
        "output"@ != "code"@,
        "output"@ != "message"@,
        "error"@ != "job"@,
        "error"@ != "code"@,
        "error"@ != "message"@,
        "job"@ != "code"@,
        "job"@ != "message"@,
        "code"@ != "message"@,
{
    reveal_strlit("job_id");
    reveal_strlit("name");
    reveal_strlit("out");
    reveal_strlit("ok");
    reveal_strlit("status");
    reveal_strlit("output");
    reveal_strlit("error");
    reveal_strlit("job");
    reveal_strlit("code");
    reveal_strlit("message");
    assert("job_id"@.len() != "name"@.len());
    assert("job_id"@.len() != "out"@.len());
    assert("job_id"@.len() != "ok"@.len());
    assert("job_id"@[0] != "status"@[0]);
    assert("job_id"@[0] != "output"@[0]);
    assert("job_id"@.len() != "error"@.len());
    assert("job_id"@.len() != "job"@.len());
    assert("job_id"@.len() != "code"@.len());
    assert("job_id"@.len() != "message"@.len());
    assert("name"@.len() != "out"@.len());
    assert("name"@.len() != "ok"@.len());
    assert("name"@.len() != "status"@.len());
    assert("name"@.len() != "output"@.len());
    assert("name"@.len() != "error"@.len());
    assert("name"@.len() != "job"@.len());
    assert("name"@[0] != "code"@[0]);
    assert("name"@.len() != "message"@.len());
    assert("out"@.len() != "ok"@.len());
    assert("out"@.len() != "status"@.len());
    assert("out"@.len() != "output"@.len());
    assert("out"@.len() != "error"@.len());
    assert("out"@[0] != "job"@[0]);
    assert("out"@.len() != "code"@.len());
    assert("out"@.len() != "message"@.len());
    assert("ok"@.len() != "status"@.len());
    assert("ok"@.len() != "output"@.len());
    assert("ok"@.len() != "error"@.len());
    assert("ok"@.len() != "job"@.len());
    assert("ok"@.len() != "code"@.len());
    assert("ok"@.len() != "message"@.len());
    assert("status"@[0] != "output"@[0]);
    assert("status"@.len() != "error"@.len());
    assert("status"@.len() != "job"@.len());
    assert("status"@.len() != "code"@.len());
    assert("status"@.len() != "message"@.len());
    assert("output"@.len() != "error"@.len());
    assert("output"@.len() != "job"@.len());
    assert("output"@.len() != "code"@.len());
    assert("output"@.len() != "message"@.len());
    assert("error"@.len() != "job"@.len());
    assert("error"@.len() != "code"@.len());
    assert("error"@.len() != "message"@.len());
    assert("job"@.len() != "code"@.len());
    assert("job"@.len() != "message"@.len());
    assert("code"@.len() != "message"@.len());
}

/// A job is over in five states and in no other, and two of them are good.
pub proof fn five_states_are_final(status: Seq<char>, job: JsonView)
    ensures
        client::terminal(status) <==> (status == "completed"@ || status == "partial_failed"@
            || status == "failed"@ || status == "cancelled"@ || status == "canceled"@),
        client::job_succeeded(job) <==> job.get("status"@) == Some(JsonView::Str("completed"@))
            || job.get("status"@) == Some(JsonView::Str("partial_failed"@)),
{
}

/// An answer about a job in one of the five final states ends the waiting with
/// that job, whether or not time has run out.
pub proof fn a_final_state_ends_the_waiting(
    job_id: Seq<char>,
    payload: Json,
    job: JsonView,
    status: Seq<char>,
    expired: bool,
)
    requires
        payload@.get("job"@) == Some(job),
        job.get("status"@) == Some(JsonView::Str(status)),
        status == "completed"@ || status == "partial_failed"@
            || status == "failed"@ || status == "cancelled"@ || status == "canceled"@,
    ensures
        client::wait_outcome(job_id, Polled::Answered(payload), expired) == Some(
            Ok::<JsonView, Seq<char>>(job),
        ),
{
}

/// An answer about a job in any other state, or in none, lets the waiting go on
/// as long as there is time, and ends it when there is none.
pub proof fn any_other_state_is_waited_out(
    job_id: Seq<char>,
    payload: Json,
    job: JsonView,
    status: Seq<char>,
    expired: bool,
)
    requires
        payload@.get("job"@) == Some(job),
        !(job.get("status"@) is Some && job.get("status"@)->0 is Str) || (job.get("status"@) == Some(
            JsonView::Str(status),
        ) && !(status == "completed"@ || status == "partial_failed"@
            || status == "failed"@ || status == "cancelled"@ || status == "canceled"@)),
    ensures
        !expired ==> client::wait_outcome(job_id, Polled::Answered(payload), expired) is None,
        expired ==> client::wait_outcome(job_id, Polled::Answered(payload), expired) == Some(
            Err::<JsonView, Seq<char>>("Timed out waiting for job "@ + job_id + "."@),
        ),
{
}

/// Without an answer, or without a job in it, the waiting ends for that reason.
pub proof fn waiting_needs_an_answer(
    job_id: Seq<char>,
    message: String,
    payload: Json,
    expired: bool,
)
    ensures
        client::wait_outcome(job_id, Polled::Failed(message), expired) == Some(
            Err::<JsonView, Seq<char>>(message@),
        ),
        client::wait_outcome(job_id, Polled::Refused(message), expired) == Some(
            Err::<JsonView, Seq<char>>("Polling job failed: "@ + message@),
        ),
        payload@.get("job"@) is None ==> client::wait_outcome(
            job_id,
            Polled::Answered(payload),
            expired,
        ) == Some(Err::<JsonView, Seq<char>>("Job payload missing."@)),
{
}

/// The events in an answer are shown from the first that was not seen on, and
/// nothing else is shown.
pub proof fn events_are_shown_from_where_they_were_left(
    payload: Json,
    message: String,
    events: Seq<JsonView>,
    seen: nat,
    k: int,
)
    ensures
        payload@.get("events"@) == Some(JsonView::Array(events)) ==> ({
            let shown = client::new_events(Polled::Answered(payload), seen as int);
            &&& client::told_events(Polled::Answered(payload)) == Some(events)
            &&& shown.len() == if seen <= events.len() {
                events.len() - seen
            } else {
                0
            }
            &&& 0 <= k < shown.len() ==> shown[k] == events[seen + k]
        }),
        !(payload@.get("events"@) is Some && payload@.get("events"@)->0 is Array) ==> ({
            &&& client::told_events(Polled::Answered(payload)) is None
            &&& client::new_events(Polled::Answered(payload), seen as int).len() == 0
        }),
        client::told_events(Polled::Failed(message)) is None,
        client::told_events(Polled::Refused(message)) is None,
        client::new_events(Polled::Refused(message), seen as int).len() == 0,
        client::new_events(Polled::Failed(message), seen as int).len() == 0,
{
}

/// A report that was looked up tells of a pending job unless its state is one of
/// the five final ones; in a final state the job is complete if the report is
/// ok, and failed if it is not. A job that could not be looked up has failed.
pub proof fn only_final_states_settle_a_ticket(task: JsonView, status: Seq<char>)
    requires
        task.get("status"@) == Some(JsonView::Str(status)) || (!(task.get("status"@) is Some
            && task.get("status"@)->0 is Str) && status == "unknown"@),
    ensures
        ({
            let lost = task.get("error"@) is Some && task.get("error"@)->0.get("code"@) == Some(
                JsonView::Str("job_lookup_failed"@),
            );
            let is_final = status == "completed"@ || status == "partial_failed"@
                || status == "failed"@ || status == "cancelled"@ || status == "canceled"@;
            let good = task.get("ok"@) == Some(JsonView::Bool(true));
            &&& lost ==> jobs::outcome_of(task) == Outcome::Failed
            &&& !lost && !is_final ==> jobs::outcome_of(task) == Outcome::Pending
            &&& !lost && is_final && good ==> jobs::outcome_of(task) == Outcome::Completed
            &&& !lost && is_final && !good ==> jobs::outcome_of(task) == Outcome::Failed
        }),
{
    lemma_status_words();
}

/// Every report adds one to the count of its outcome and nothing to the others.
pub proof fn every_report_is_counted(tasks: Seq<JsonView>, task: JsonView, outcome: Outcome)
    ensures
        jobs::tally(Seq::empty(), outcome) == 0,
        jobs::tally(tasks.push(task), outcome) == jobs::tally(tasks, outcome) + if jobs::outcome_of(
            task,
        ) == outcome {
            1int
        } else {
            0
        },
{
    assert(tasks.push(task).drop_last() =~= tasks);
}

/// The summary tells the counts, and when the batch is done and well.
pub proof fn the_summary_tells_the_counts(tasks: Seq<JsonView>)
    requires
        tasks.len() <= u64::MAX,
    ensures
        ({
            let summary = jobs::summary(tasks);
            let pending = jobs::tally(tasks, Outcome::Pending);
            let completed = jobs::tally(tasks, Outcome::Completed);
            let failed = jobs::tally(tasks, Outcome::Failed);
            &&& summary.get("ok"@) == Some(JsonView::Bool(true))
            &&& summary.get("command"@) == Some(JsonView::Str("jobs status"@))
            &&& summary.get("pending"@) == Some(
                JsonView::Number(NumberView::Unsigned(pending as u64)),
            )
            &&& summary.get("completed"@) == Some(
                JsonView::Number(NumberView::Unsigned(completed as u64)),
            )
            &&& summary.get("failed"@) == Some(
                JsonView::Number(NumberView::Unsigned(failed as u64)),
            )
            &&& summary.get("done"@) == Some(JsonView::Bool(pending == 0))
            &&& summary.get("all_ok"@) == Some(JsonView::Bool(pending == 0 && failed == 0))
            &&& summary.get("tasks"@) == Some(JsonView::Array(tasks))
            &&& pending + completed + failed == tasks.len()
        }),
{
    lemma_summary_keys();
    jobs::tallies_add_up(tasks);
}

/// As long as one ticket's job was looked up and is in no final state, the
/// batch is not done, and at least one job is counted as pending.
pub proof fn a_pending_job_keeps_the_batch_open(tasks: Seq<JsonView>, i: int, status: Seq<char>)
    requires
        0 <= i < tasks.len() <= u64::MAX,
        tasks[i].get("status"@) == Some(JsonView::Str(status)),
        !(status == "completed"@ || status == "partial_failed"@
            || status == "failed"@ || status == "cancelled"@ || status == "canceled"@),
        !(tasks[i].get("error"@) is Some && tasks[i].get("error"@)->0.get("code"@) is Some),
    ensures
        jobs::summary(tasks).get("done"@) == Some(JsonView::Bool(false)),
        jobs::summary(tasks).get("all_ok"@) == Some(JsonView::Bool(false)),
        jobs::tally(tasks, Outcome::Pending) > 0,
{
    lemma_summary_keys();
    only_final_states_settle_a_ticket(tasks[i], status);
    jobs::tally_is_zero_without(tasks, Outcome::Pending);
}

/// The place of an output is the ticket's own, or else the one that was noted;
/// it is copied exactly if the job is complete, or complete in part.
pub proof fn outputs_are_copied_once_the_job_is_good(
    ticket: TicketView,
    noted: Option<Seq<char>>,
    job: JsonView,
    out: Option<Seq<char>>,
)
    ensures
        ticket.out is Some ==> jobs::chosen_out(ticket, noted) == ticket.out,
        ticket.out is None ==> jobs::chosen_out(ticket, noted) == noted,
        job.get("status"@) == Some(JsonView::Str("completed"@)) || job.get("status"@) == Some(
            JsonView::Str("partial_failed"@),
        ) ==> jobs::copy_dest(job, out) == out,
        job.get("status"@) != Some(JsonView::Str("completed"@)) && job.get("status"@) != Some(
            JsonView::Str("partial_failed"@),
        ) ==> jobs::copy_dest(job, out) is None,
{
}

/// The report on a ticket whose job was looked up tells of the job as it is.
pub proof fn a_found_job_is_reported_as_it_is(
    ticket: TicketView,
    job: JsonView,
    out: Option<Seq<char>>,
    copied: JsonView,
    status: Seq<char>,
)
    ensures
        ({
            let task = jobs::found_task(ticket, job, out, copied);
            &&& task.get("job_id"@) == Some(JsonView::Str(ticket.job_id))
            &&& task.get("name"@) == Some(
                if ticket.name is Some {
                    JsonView::Str(ticket.name->0)
                } else {
                    JsonView::Null
                },
            )
            &&& task.get("out"@) == Some(
                if out is Some {
                    JsonView::Str(out->0)
                } else {
                    JsonView::Null
                },
            )
            &&& task.get("ok"@) == Some(
                JsonView::Bool(
                    job.get("status"@) == Some(JsonView::Str("completed"@)) || job.get("status"@)
                        == Some(JsonView::Str("partial_failed"@)),
                ),
            )
            &&& job.get("status"@) == Some(JsonView::Str(status)) ==> task.get("status"@) == Some(
                JsonView::Str(status),
            )
            &&& !(job.get("status"@) is Some && job.get("status"@)->0 is Str) ==> task.get(
                "status"@,
            ) == Some(JsonView::Str("unknown"@))
            &&& task.get("output"@) == Some(copied)
            &&& job.get("error"@) is Some ==> task.get("error"@) == job.get("error"@)
            &&& job.get("error"@) is None ==> task.get("error"@) == Some(JsonView::Null)
            &&& task.get("job"@) == Some(job)
        }),
{
    lemma_ticket_keys();
}

/// The report on a ticket whose job was not looked up says so, and counts as
/// failed.
pub proof fn a_lost_job_is_reported_as_lost(ticket: TicketView, status: Seq<char>)
    ensures
        ({
            let task = jobs::lost_task(ticket, status);
            let error = task.get("error"@)->0;
            &&& task.get("job_id"@) == Some(JsonView::Str(ticket.job_id))
            &&& task.get("name"@) == Some(
                if ticket.name is Some {
                    JsonView::Str(ticket.name->0)
                } else {
                    JsonView::Null
                },
            )
            &&& task.get("ok"@) == Some(JsonView::Bool(false))
            &&& task.get("status"@) == Some(JsonView::Str("unknown"@))
            &&& task.get("error"@) is Some
            &&& error.get("code"@) == Some(JsonView::Str("job_lookup_failed"@))
            &&& error.get("message"@) == Some(JsonView::Str("HTTP "@ + status))
            &&& jobs::outcome_of(task) == Outcome::Failed
        }),
{
    lemma_ticket_keys();
}

/// A job that the daemon tells of is counted by its state: pending in any state
/// but the five final ones, unless its own error says that it was lost.
pub proof fn a_found_job_is_counted_by_its_state(
    ticket: TicketView,
    job: JsonView,
    out: Option<Seq<char>>,
    copied: JsonView,
    status: Seq<char>,
)
    requires
        job.get("status"@) == Some(JsonView::Str(status)),
        !(job.get("error"@) is Some && job.get("error"@)->0.get("code"@) == Some(
            JsonView::Str("job_lookup_failed"@),
        )),
    ensures
        ({
            let outcome = jobs::outcome_of(jobs::found_task(ticket, job, out, copied));
            &&& status == "completed"@ || status == "partial_failed"@ ==> outcome
                == Outcome::Completed
            &&& status == "failed"@ || status == "cancelled"@ || status == "canceled"@ ==> outcome
                == Outcome::Failed
            &&& !(status == "completed"@ || status == "partial_failed"@
                || status == "failed"@ || status == "cancelled"@ || status == "canceled"@)
                ==> outcome == Outcome::Pending
        }),
{
    lemma_status_words();
    a_found_job_is_reported_as_it_is(ticket, job, out, copied, status);
    only_final_states_settle_a_ticket(jobs::found_task(ticket, job, out, copied), status);
}

} // verus!
