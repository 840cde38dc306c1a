//! What the ways from a command to its reply promise, step by step.

use vstd::prelude::*;
use crate::client::{
    Enqueued, EventView, ImagesEvent, ImagesFlow, ImagesPhase, PhaseView, Polled,
};
use crate::daemon::{DaemonInfo, Phase, Startup, StartupEvent};
use crate::jobs;
use crate::jobs::{StatusEvent, StatusPhaseView, StatusView};
use crate::json::{Json, JsonView};
use crate::text;
use crate::tickets;

verus! {

/// The keys of a reply differ.
proof fn lemma_reply_keys()
    ensures
        "ok"@ != "command"@,
        "ok"@ != "provider"@,
        "ok"@ != "job_id"@,
        "ok"@ != "queued"@,
        "ok"@ != "status"@,
        "ok"@ != "output"@,
        "ok"@ != "job"@,
        "ok"@ != "error"@,
        "ok"@ != "out"@,
        "ok"@ != "ticket"@,
        "ok"@ != "code"@,
        "ok"@ != "message"@,
        "command"@ != "provider"@,
        "command"@ != "job_id"@,
        "command"@ != "queued"@,
        "command"@ != "status"@,
        "command"@ != "output"@,
        "command"@ != "job"@,
        "command"@ != "error"@,
        "command"@ != "out"@,
        "command"@ != "ticket"@,
        "command"@ != "code"@,
        "command"@ != "message"@,
        "provider"@ != "job_id"@,
        "provider"@ != "queued"@,
        "provider"@ != "status"@,
        "provider"@ != "output"@,
        "provider"@ != "job"@,
        "provider"@ != "error"@,
        "provider"@ != "out"@,
        "provider"@ != "ticket"@,
        "provider"@ != "code"@,
        "provider"@ != "message"@,
        "job_id"@ != "queued"@,
        "job_id"@ != "status"@,
        "job_id"@ != "output"@,
        "job_id"@ != "job"@,
        "job_id"@ != "error"@,
        "job_id"@ != "out"@,
        "job_id"@ != "ticket"@,
        "job_id"@ != "code"@,
        "job_id"@ != "message"@,
        "queued"@ != "status"@,
        "queued"@ != "output"@,
        "queued"@ != "job"@,
        "queued"@ != "error"@,
        "queued"@ != "out"@,
        "queued"@ != "ticket"@,
        "queued"@ != "code"@,
        "queued"@ != "message"@,
        "status"@ != "output"@,
        "status"@ != "job"@,
        "status"@ != "error"@,
        "status"@ != "out"@,
        "status"@ != "ticket"@,
        "status"@ != "code"@,
        "status"@ != "message"@,
        "output"@ != "job"@,
        "output"@ != "error"@,
        "output"@ != "out"@,
        "output"@ != "ticket"@,
        "output"@ != "code"@,
        "output"@ != "message"@,
        "job"@ != "error"@,
        "job"@ != "out"@,
        "job"@ != "ticket"@,
        "job"@ != "code"@,
        "job"@ != "message"@,
        "error"@ != "out"@,
        "error"@ != "ticket"@,
        "error"@ != "code"@,
        "error"@ != "message"@,
        "out"@ != "ticket"@,
        "out"@ != "code"@,
        "out"@ != "message"@,
        "ticket"@ != "code"@,
        "ticket"@ != "message"@,
        "code"@ != "message"@,
{
    reveal_strlit("ok");
    reveal_strlit("command");
    reveal_strlit("provider");
    reveal_strlit("job_id");
    reveal_strlit("queued");
    reveal_strlit("status");
    reveal_strlit("output");
    reveal_strlit("job");
    reveal_strlit("error");
    reveal_strlit("out");
    reveal_strlit("ticket");
    reveal_strlit("code");
    reveal_strlit("message");
    assert("ok"@.len() != "command"@.len());
    assert("ok"@.len() != "provider"@.len());
    assert("ok"@.len() != "job_id"@.len());
    assert("ok"@.len() != "queued"@.len());
    assert("ok"@.len() != "status"@.len());
    assert("ok"@.len() != "output"@.len());
    assert("ok"@.len() != "job"@.len());
    assert("ok"@.len() != "error"@.len());
    assert("ok"@.len() != "out"@.len());
    assert("ok"@.len() != "ticket"@.len());
    assert("ok"@.len() != "code"@.len());
    assert("ok"@.len() != "message"@.len());
    assert("command"@.len() != "provider"@.len());
    assert("command"@.len() != "job_id"@.len());
    assert("command"@.len() != "queued"@.len());
    assert("command"@.len() != "status"@.len());
    assert("command"@.len() != "output"@.len());
    assert("command"@.len() != "job"@.len());
    assert("command"@.len() != "error"@.len());
    assert("command"@.len() != "out"@.len());
    assert("command"@.len() != "ticket"@.len());
    assert("command"@.len() != "code"@.len());
    assert("command"@[0] != "message"@[0]);
    assert("provider"@.len() != "job_id"@.len());
    assert("provider"@.len() != "queued"@.len());
    assert("provider"@.len() != "status"@.len());
    assert("provider"@.len() != "output"@.len());
    assert("provider"@.len() != "job"@.len());
    assert("provider"@.len() != "error"@.len());
    assert("provider"@.len() != "out"@.len());
    assert("provider"@.len() != "ticket"@.len());
    assert("provider"@.len() != "code"@.len());
    assert("provider"@.len() != "message"@.len());
    assert("job_id"@[0] != "queued"@[0]);
    assert("job_id"@[0] != "status"@[0]);
    assert("job_id"@[0] != "output"@[0]);
    assert("job_id"@.len() != "job"@.len());
    assert("job_id"@.len() != "error"@.len());
    assert("job_id"@.len() != "out"@.len());
    assert("job_id"@[0] != "ticket"@[0]);
    assert("job_id"@.len() != "code"@.len());
    assert("job_id"@.len() != "message"@.len());
    assert("queued"@[0] != "status"@[0]);
    assert("queued"@[0] != "output"@[0]);
    assert("queued"@.len() != "job"@.len());
    assert("queued"@.len() != "error"@.len());
    assert("queued"@.len() != "out"@.len());
    assert("queued"@[0] != "ticket"@[0]);
    assert("queued"@.len() != "code"@.len());
    assert("queued"@.len() != "message"@.len());
    assert("status"@[0] != "output"@[0]);
    assert("status"@.len() != "job"@.len());
    assert("status"@.len() != "error"@.len());
    assert("status"@.len() != "out"@.len());
    assert("status"@[0] != "ticket"@[0]);
    assert("status"@.len() != "code"@.len());
    assert("status"@.len() != "message"@.len());
    assert("output"@.len() != "job"@.len());
    assert("output"@.len() != "error"@.len());
    assert("output"@.len() != "out"@.len());
    assert("output"@[0] != "ticket"@[0]);
    assert("output"@.len() != "code"@.len());
    assert("output"@.len() != "message"@.len());
    assert("job"@.len() != "error"@.len());
    assert("job"@[0] != "out"@[0]);
    assert("job"@.len() != "ticket"@.len());
    assert("job"@.len() != "code"@.len());
    assert("job"@.len() != "message"@.len());
    assert("error"@.len() != "out"@.len());
    assert("error"@.len() != "ticket"@.len());
    assert("error"@.len() != "code"@.len());
    assert("error"@.len() != "message"@.len());
    assert("out"@.len() != "ticket"@.len());
    assert("out"@.len() != "code"@.len());
    assert("out"@.len() != "message"@.len());
    assert("ticket"@.len() != "code"@.len());
    assert("ticket"@.len() != "message"@.len());
    assert("code"@.len() != "message"@.len());
}

/// A command whose daemon is up is sent to it; one whose daemon is not up ends
/// with the reason.
pub proof fn a_command_needs_the_daemon(flow: ImagesFlow, info: DaemonInfo, message: Seq<char>)
    requires
        flow.phase@ is Ensure,
    ensures
        flow.next_phase(EventView::Ensured(Ok(info))) == PhaseView::Enqueue(info),
        flow.next_phase(EventView::Ensured(Err(message))) == PhaseView::Finished(Err(message)),
{
}

/// A command that could not be sent ends with the reason.
pub proof fn an_unsent_command_ends(flow: ImagesFlow, info: DaemonInfo, message: Seq<char>)
    requires
        flow.phase@ == PhaseView::Enqueue(info),
    ensures
        flow.next_phase(EventView::Unsent(message)) == PhaseView::Finished(Err(message)),
{
}

/// A refused command is answered, not ok, with the daemon's own error, or else
/// with its status.
pub proof fn a_refusal_is_passed_on(
    flow: ImagesFlow,
    info: DaemonInfo,
    status: Seq<char>,
    payload: JsonView,
)
    requires
        flow.phase@ == PhaseView::Enqueue(info),
    ensures
        ({
            let next = flow.next_phase(EventView::Answered(false, status, payload));
            let reply = next->Finished_0->Ok_0;
            let error = reply.get("error"@)->0;
            &&& next == PhaseView::Finished(Ok(reply))
            &&& reply.get("ok"@) == Some(JsonView::Bool(false))
            &&& reply.get("error"@) is Some
            &&& payload.get("error"@) is Some ==> reply.get("error"@) == payload.get("error"@)
            &&& payload.get("error"@) is None ==> error.get("code"@) == Some(
                JsonView::Str("http_error"@),
            ) && error.get("message"@) == Some(JsonView::Str("Daemon returned "@ + status))
        }),
{
    lemma_reply_keys();
}

/// A command that was taken without a job in the answer ends with the reason.
pub proof fn a_taken_command_has_a_job(
    flow: ImagesFlow,
    info: DaemonInfo,
    status: Seq<char>,
    payload: JsonView,
)
    requires
        flow.phase@ == PhaseView::Enqueue(info),
        !(payload.get("job_id"@) is Some && payload.get("job_id"@)->0 is Str),
    ensures
        flow.next_phase(EventView::Answered(true, status, payload)) == PhaseView::Finished(
            Err("Daemon enqueue response did not include job_id."@),
        ),
{
}

/// A job that is to be waited for is waited for, at the daemon that took it.
pub proof fn a_taken_job_is_waited_for(
    flow: ImagesFlow,
    info: DaemonInfo,
    status: Seq<char>,
    payload: JsonView,
    job_id: Seq<char>,
)
    requires
        flow.phase@ == PhaseView::Enqueue(info),
        payload.get("job_id"@) == Some(JsonView::Str(job_id)),
        !flow.no_wait,
    ensures
        flow.next_phase(EventView::Answered(true, status, payload)) == PhaseView::Wait(
            info,
            job_id,
        ),
{
}

/// A job that is not to be waited for is noted, and the reply is the daemon's
/// answer with the command, the job, the place of its output and the ticket.
pub proof fn a_taken_job_is_noted(
    flow: ImagesFlow,
    info: DaemonInfo,
    status: Seq<char>,
    payload: JsonView,
    job_id: Seq<char>,
    key: Seq<char>,
)
    requires
        flow.phase@ == PhaseView::Enqueue(info),
        payload.get("job_id"@) == Some(JsonView::Str(job_id)),
        flow.no_wait,
    ensures
        ({
            let next = flow.next_phase(EventView::Answered(true, status, payload));
            let reply = next->Remember_1;
            let ticket = reply.get("ticket"@)->0;
            &&& next == PhaseView::Remember(job_id, reply)
            &&& reply.get("ok"@) == Some(JsonView::Bool(true))
            &&& reply.get("command"@) == Some(
                JsonView::Str(
                    if flow.edit {
                        "images edit"@
                    } else {
                        "images generate"@
                    },
                ),
            )
            &&& reply.get("queued"@) == Some(JsonView::Bool(true))
            &&& reply.get("job_id"@) == Some(JsonView::Str(job_id))
            &&& reply.get("out"@) == Some(JsonView::Str(flow.out@))
            &&& payload.get("status"@) is Some ==> reply.get("status"@) == payload.get("status"@)
            &&& payload.get("status"@) is None ==> reply.get("status"@) == Some(
                JsonView::Str("queued"@),
            )
            &&& reply.get("ticket"@) is Some
            &&& ticket.get("job_id"@) == Some(JsonView::Str(job_id))
            &&& ticket.get("out"@) == Some(JsonView::Str(flow.out@))
            &&& key != "ok"@ && key != "command"@ && key != "queued"@ && key != "job_id"@ && key
                != "out"@ && key != "status"@ && key != "ticket"@ ==> reply.get(key) == payload.get(
                key,
            )
        }),
{
    lemma_reply_keys();
}

/// Once a ticket is noted, its reply is given.
pub proof fn a_noted_job_is_replied(flow: ImagesFlow, job_id: Seq<char>, reply: JsonView)
    requires
        flow.phase@ == PhaseView::Remember(job_id, reply),
    ensures
        flow.next_phase(EventView::Remembered) == PhaseView::Finished(Ok(reply)),
{
}

/// A job that is over is copied; one that cannot be waited for ends with the
/// reason.
pub proof fn a_job_that_is_over_is_copied(
    flow: ImagesFlow,
    info: DaemonInfo,
    job_id: Seq<char>,
    job: JsonView,
    message: Seq<char>,
)
    requires
        flow.phase@ == PhaseView::Wait(info, job_id),
    ensures
        flow.next_phase(EventView::Waited(Ok(job))) == PhaseView::Copy(job_id, job),
        flow.next_phase(EventView::Waited(Err(message))) == PhaseView::Finished(Err(message)),
{
}

/// Once the outputs are copied, the reply tells of the job and the copies; where
/// they cannot be copied, the command ends with the reason.
pub proof fn a_copied_job_is_replied(
    flow: ImagesFlow,
    job_id: Seq<char>,
    job: JsonView,
    copied: JsonView,
    message: Seq<char>,
)
    requires
        flow.phase@ == PhaseView::Copy(job_id, job),
    ensures
        flow.next_phase(EventView::Copied(Err(message))) == PhaseView::Finished(Err(message)),
        ({
            let next = flow.next_phase(EventView::Copied(Ok(copied)));
            let reply = next->Finished_0->Ok_0;
            let of_job = |key: Seq<char>|
                if job.get(key) is Some {
                    job.get(key)
                } else {
                    Some(JsonView::Null)
                };
            &&& next == PhaseView::Finished(Ok(reply))
            &&& reply.get("ok"@) == Some(
                JsonView::Bool(
                    job.get("status"@) == Some(JsonView::Str("completed"@)) || job.get("status"@)
                        == Some(JsonView::Str("partial_failed"@)),
                ),
            )
            &&& reply.get("command"@) == Some(
                JsonView::Str(
                    if flow.edit {
                        "images edit"@
                    } else {
                        "images generate"@
                    },
                ),
            )
            &&& reply.get("provider"@) == of_job("provider"@)
            &&& reply.get("job_id"@) == Some(JsonView::Str(job_id))
            &&& reply.get("queued"@) == Some(JsonView::Bool(true))
            &&& reply.get("status"@) == of_job("status"@)
            &&& reply.get("output"@) == Some(copied)
            &&& reply.get("job"@) == Some(job)
            &&& reply.get("error"@) == of_job("error"@)
        }),
{
    lemma_reply_keys();
}

/// What came of something is viewed as it is.
pub proof fn events_are_viewed_as_they_are(
    info: DaemonInfo,
    message: String,
    status: String,
    success: bool,
    payload: Json,
    job_id: String,
)
    ensures
        ImagesEvent::Ensured(Ok(info))@ == EventView::Ensured(Ok(info)),
        ImagesEvent::Ensured(Err(message))@ == EventView::Ensured(Err(message@)),
        ImagesEvent::Sent(Enqueued::Failed(message))@ == EventView::Unsent(message@),
        ImagesEvent::Sent(Enqueued::Answered { success, status, payload })@ == EventView::Answered(
            success,
            status@,
            payload@,
        ),
        ImagesEvent::Remembered@ == EventView::Remembered,
        ImagesEvent::Waited(Ok(payload))@ == EventView::Waited(Ok(payload@)),
        ImagesEvent::Waited(Err(message))@ == EventView::Waited(Err(message@)),
        ImagesEvent::Copied(Ok(payload))@ == EventView::Copied(Ok(payload@)),
        ImagesEvent::Copied(Err(message))@ == EventView::Copied(Err(message@)),
        ImagesPhase::Ensure@ == PhaseView::Ensure,
        ImagesPhase::Enqueue(info)@ == PhaseView::Enqueue(info),
        (ImagesPhase::Remember { job_id, reply: payload })@ == PhaseView::Remember(
            job_id@,
            payload@,
        ),
        (ImagesPhase::Wait { info, job_id })@ == PhaseView::Wait(info, job_id@),
        (ImagesPhase::Copy { job_id, job: payload })@ == PhaseView::Copy(job_id@, payload@),
        ImagesPhase::Finished(Ok(payload))@ == PhaseView::Finished(Ok(payload@)),
        ImagesPhase::Finished(Err(message))@ == PhaseView::Finished(Err(message@)),
{
}

/// A daemon that answers is used, one that does not is launched once, and then
/// probed for as long as there is time.
pub proof fn bringing_up_goes_on(
    startup: Startup,
    info: DaemonInfo,
    message: String,
)
    ensures
        startup.phase is Probe || startup.phase is Poll ==> startup.next_phase(
            StartupEvent::Health(Some(info)),
        ) == Phase::Up(info),
        startup.phase is Probe ==> startup.next_phase(StartupEvent::Health(None)) == Phase::Launch,
        startup.phase is Launch ==> startup.next_phase(StartupEvent::Launched(Ok(())))
            == Phase::Clock,
        startup.phase is Launch ==> startup.next_phase(StartupEvent::Launched(Err(message)))
            == Phase::Failed(message),
        startup.phase is Clock ==> startup.next_phase((StartupEvent::Clock { time_left: true }))
            == Phase::Poll,
        startup.phase is Clock ==> startup.next_phase((StartupEvent::Clock { time_left: false }))
            == Phase::Failed(startup.late),
        startup.phase is Poll ==> startup.next_phase(StartupEvent::Health(None)) == Phase::Clock,
{
}

/// The asking about tickets begins once the daemon is up, and ends with the
/// reason where it is not.
pub proof fn asking_needs_the_daemon(view: StatusView, info: DaemonInfo, message: String)
    requires
        view.phase is Ensure,
    ensures
        ({
            let next = view.next(StatusEvent::Ensured(Ok(info)));
            &&& next.phase == StatusPhaseView::Poll(info)
            &&& next.tasks == view.tasks
            &&& next.tickets == view.tickets
        }),
        view.next(StatusEvent::Ensured(Err(message))).phase == StatusPhaseView::Finished(
            Err(message@),
        ),
{
}

/// The answer about a ticket is taken for the first ticket that has no report: a
/// lost job is reported as lost, a good one is first copied where there is a
/// place for it, and any other is reported with nothing copied.
pub proof fn an_answer_is_for_the_next_ticket(
    view: StatusView,
    info: DaemonInfo,
    message: String,
    payload: Json,
    store: Option<String>,
)
    requires
        view.wf(),
        view.phase == StatusPhaseView::Poll(info),
    ensures
        ({
            let ticket = view.tickets[view.tasks.len() as int];
            let job = if payload@.get("job"@) is Some {
                payload@.get("job"@)->0
            } else {
                JsonView::Null
            };
            let good = job.get("status"@) == Some(JsonView::Str("completed"@)) || job.get(
                "status"@,
            ) == Some(JsonView::Str("partial_failed"@));
            let noted = tickets::store_in(text::opt_text(store)).string_at(ticket.job_id);
            let out = if ticket.out is Some {
                ticket.out
            } else {
                noted
            };
            let failed = view.next(StatusEvent::Polled { answer: Polled::Failed(message), store });
            let lost = view.next(StatusEvent::Polled { answer: Polled::Refused(message), store });
            let told = view.next(StatusEvent::Polled { answer: Polled::Answered(payload), store });
            &&& failed.phase == StatusPhaseView::Finished(Err(message@))
            &&& lost.tasks == view.tasks.push(jobs::lost_task(ticket, message@))
            &&& good && out is Some ==> told.phase == StatusPhaseView::Copy(info, job, out)
                && told.tasks == view.tasks
            &&& !(good && out is Some) ==> told.tasks == view.tasks.push(
                jobs::found_task(ticket, job, out, JsonView::Null),
            )
        }),
{
}

/// What was copied is reported for the ticket that it was copied for; a copy
/// that fails ends the asking.
pub proof fn a_copy_is_for_the_same_ticket(
    view: StatusView,
    info: DaemonInfo,
    job: JsonView,
    out: Option<Seq<char>>,
    copied: Json,
    message: String,
)
    requires
        view.wf(),
        view.phase == StatusPhaseView::Copy(info, job, out),
    ensures
        view.next(StatusEvent::Copied(Ok(copied))).tasks == view.tasks.push(
            jobs::found_task(view.tickets[view.tasks.len() as int], job, out, copied@),
        ),
        view.next(StatusEvent::Copied(Err(message))).phase == StatusPhaseView::Finished(
            Err(message@),
        ),
{
}

/// After a report the next ticket is asked about at the same daemon, and after
/// the last the summary of all reports is given.
pub proof fn asking_goes_through_all_tickets(view: StatusView, event: StatusEvent, info: DaemonInfo)
    requires
        view.wf(),
        view.phase == StatusPhaseView::Poll(info) || (view.phase is Copy && view.phase->Copy_0
            == info),
        view.next(event).tasks.len() > view.tasks.len(),
    ensures
        view.tasks.len() + 1 < view.tickets.len() ==> view.next(event).phase
            == StatusPhaseView::Poll(info),
        view.tasks.len() + 1 == view.tickets.len() ==> view.next(event).phase
            == StatusPhaseView::Finished(Ok(jobs::summary(view.next(event).tasks))),
{
}

} // verus!
