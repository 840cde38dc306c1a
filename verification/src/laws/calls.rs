//! What calls of the library give, told by what went in and what came out.

use vstd::prelude::*;
use crate::client;
use crate::client::{
    EditArgs, EditRequest, GenerateRequest, ImageArgs, ImagesCommand, ImagesEvent, ImagesFlow,
    JobWait, Polled, UploadFile, WaitNext,
};
use crate::daemon;
use crate::daemon::{DaemonAction, DaemonInfo, Startup, Stop};
use crate::fanout;
use crate::fanout::{FanoutJob, PreparedJob};
use crate::jobs;
use crate::jobs::{
    JobsAction, OpenTask, Outcome, StatusAction, StatusFlow, StatusPhaseView, Ticket, TicketFile,
};
use crate::json::{Json, JsonView, NumberView, Reply};
use crate::laws::{arguments, batches, copies, requests, services, statuses, words};
use crate::outputs;
use crate::outputs::{CopyPlan, CopyTask};
use crate::paths;
use crate::pool::{Pool, PoolAction};
use crate::tasks;
use crate::tasks::{ChildOutput, TaskResult};
use crate::text;
use crate::Route;

verus! {

/// A batch is reported ok exactly if every result in it is.
pub proof fn a_report_is_ok_only_as_a_whole(
    results: Vec<TaskResult>,
    jobs_file: &str,
    max_parallel: usize,
    retries: u32,
    elapsed_ms: u64,
    payload: Json,
)
    requires
        call_ensures(
            tasks::report,
            (&results, jobs_file, max_parallel, retries, elapsed_ms),
            payload,
        ),
    ensures
        payload@.get("ok"@) == Some(JsonView::Bool(true)) <==> forall|i: int|
            0 <= i < results@.len() ==> (#[trigger] results@[i]).ok,
        payload@.get("tasks"@) is Some && payload@.get("tasks"@)->0 is Array,
        payload@.get("tasks"@)->0->Array_0.len() == results@.len(),
{
    batches::a_batch_is_ok_only_as_a_whole(
        results@,
        jobs_file@,
        max_parallel as int,
        retries as int,
        elapsed_ms as int,
    );
    batches::lemma_report_keys();
}

/// A child went well exactly if it ended well and what it printed says so.
pub proof fn a_child_went_well_only_if_it_says_so(
    job: PreparedJob,
    attempt: u32,
    success: bool,
    code: Option<i32>,
    printed: &str,
    parsed: Option<Json>,
    result: TaskResult,
)
    requires
        call_ensures(
            tasks::ended_task,
            (job, attempt, success, code, printed, parsed),
            result,
        ),
    ensures
        result.ok <==> success && parsed is Some && parsed->0@.get("ok"@) == Some(
            JsonView::Bool(true),
        ),
        result.index == job.index,
        result.name == job.name,
        result.out == job.out,
        result.child_args == job.child_args,
        result.attempt == attempt,
        code is Some ==> result.exit_code == code->0,
        code is None ==> result.exit_code == 1,
        parsed is Some ==> result.payload@ == parsed->0@,
        parsed is None ==> result.payload@.get("error"@) is Some
            && result.payload@.get("error"@)->0.get("message"@) == Some(JsonView::Str(printed@)),
{
    batches::a_failure_says_why("child_output_invalid"@, printed@);
}

/// A child that could not be started did not go well, and says why.
pub proof fn a_child_must_be_started(
    job: PreparedJob,
    attempt: u32,
    error: String,
    result: TaskResult,
)
    requires
        call_ensures(tasks::run_child, (job, attempt, ChildOutput::NotStarted(error)), result),
    ensures
        !result.ok,
        result.exit_code == 1,
        result.index == job.index,
        result.child_args == job.child_args,
        result.attempt == attempt,
        result.payload@.get("error"@) is Some,
        result.payload@.get("error"@)->0.get("code"@) == Some(
            JsonView::Str("child_spawn_failed"@),
        ),
        result.payload@.get("error"@)->0.get("message"@) == Some(JsonView::Str(error@)),
{
    batches::a_failure_says_why("child_spawn_failed"@, error@);
}

/// A child that ended went well only if it ended well, and keeps its own code.
pub proof fn a_child_that_ended_keeps_its_code(
    job: PreparedJob,
    attempt: u32,
    success: bool,
    code: Option<i32>,
    stdout: Vec<u8>,
    result: TaskResult,
)
    requires
        call_ensures(
            tasks::run_child,
            (job, attempt, ChildOutput::Ended { success, code, stdout }),
            result,
        ),
    ensures
        result.ok <==> success && result.payload@.get("ok"@) == Some(JsonView::Bool(true)),
        result.index == job.index,
        result.child_args == job.child_args,
        result.attempt == attempt,
        code is Some ==> result.exit_code == code->0,
        code is None ==> result.exit_code == 1,
{
}

/// A new pool is to run every job, each for the first time.
pub proof fn a_pool_begins_with_every_job(
    jobs: Vec<PreparedJob>,
    max_parallel: usize,
    retries: u32,
    pool: Pool,
    i: int,
)
    requires
        max_parallel >= 1,
        forall|k: int| 0 <= k < jobs@.len() ==> (#[trigger] jobs@[k]).index == k,
        call_ensures(Pool::new, (jobs, max_parallel, retries), pool),
    ensures
        pool@.max_parallel == max_parallel,
        pool@.retries == retries,
        pool@.queue.len() == jobs@.len(),
        0 <= i < jobs@.len() ==> pool@.queue[i] == (jobs@[i], 1u32),
        pool@.flying.len() == 0,
        pool@.done.len() == jobs@.len(),
        0 <= i < jobs@.len() ==> pool@.done[i] is None,
{
    batches::a_new_pool_holds_every_job(pool@, jobs@, i);
}

/// A pool gives back the result of each job at its place.
pub proof fn a_pool_ends_with_every_result(pool: Pool, results: Vec<TaskResult>, i: int)
    requires
        pool@.wf(),
        pool@.finished(),
        call_ensures(Pool::into_results, (pool,), results),
    ensures
        results@.len() == pool@.done.len(),
        0 <= i < results@.len() ==> pool@.done[i] == Some(results@[i]) && results@[i].index == i,
{
    batches::a_pool_ends_with_all_results(pool@);
    if 0 <= i < results@.len() {
        assert(results@[i] == pool@.done[i]->0);
    }
}

/// A pool runs the job at the head of its queue as long as there is room, and is
/// over once every job has a result.
pub proof fn a_pool_runs_what_is_next(pool: &mut Pool, action: PoolAction)
    requires
        old(pool)@.wf(),
        call_ensures(Pool::next, (pool,), action),
    ensures
        ({
            let before = old(pool)@;
            let after = final(pool)@;
            let over = before.flying.len() == 0 && forall|i: int|
                0 <= i < before.done.len() ==> (#[trigger] before.done[i]) is Some;
            let room = before.queue.len() > 0 && before.flying.len() < before.max_parallel;
            &&& action is Finish <==> over
            &&& action is Launch <==> !over && room
            &&& action matches PoolAction::Launch(job, attempt) ==> {
                &&& (job, attempt) == before.queue[0]
                &&& after.queue == before.queue.skip(1)
                &&& after.flying.len() == before.flying.len() + 1
                &&& after.flying.last() == (job.index, attempt)
                &&& after.done == before.done
            }
            &&& action !is Launch ==> after == before
            &&& after.max_parallel == before.max_parallel
            &&& after.retries == before.retries
        }),
{
    batches::a_pool_ends_with_all_results(old(pool)@);
    batches::a_pool_is_kept_full(old(pool)@);
}

/// A result that is good, or that no retry is left after, is kept; any other
/// sends its job to the end of the queue.
pub proof fn a_pool_keeps_or_retries(pool: &mut Pool, result: TaskResult)
    requires
        old(pool)@.wf(),
        old(pool)@.flying.contains((result.index, result.attempt)),
        result.attempt < u32::MAX,
        call_ensures(Pool::record, (pool, result), ()),
    ensures
        ({
            let before = old(pool)@;
            let after = final(pool)@;
            let i = result.index as int;
            let kept = result.ok || result.attempt > before.retries;
            &&& kept ==> after.done[i] == Some(result) && after.queue == before.queue
            &&& !kept ==> after.queue.len() == before.queue.len() + 1
                && after.queue.last().0.index == result.index && after.queue.last().1
                == result.attempt + 1 && after.done[i] == before.done[i]
            &&& after.flying.len() == before.flying.len() - 1
        }),
{
    batches::a_result_settles_or_sends_back(old(pool)@, result);
}

/// A command ends well exactly if its payload says so.
pub proof fn commands_end_as_their_payload_says(
    payload: Json,
    images: Reply,
    batch: Reply,
    shown: Reply,
    asked: Reply,
)
    requires
        call_ensures(client::run_images, (Ok::<Json, String>(payload),), images),
        call_ensures(fanout::dispatch, (Ok::<Json, String>(payload),), batch),
        call_ensures(daemon::print_and_status, (&payload,), shown),
        call_ensures(jobs::print_status, (Ok::<Json, String>(payload),), asked),
    ensures
        ({
            let ok = payload@.get("ok"@) == Some(JsonView::Bool(true));
            &&& images.code == if ok { 0int } else { 1 }
            &&& batch.code == if ok { 0int } else { 1 }
            &&& shown.code == if ok { 0int } else { 1 }
            &&& asked.code == 0
            &&& images.text@ == batch.text@
            &&& images.text@ == asked.text@
        }),
{
}

/// A command that comes to nothing ends badly, and says why under its own code.
pub proof fn commands_that_fail_say_why(
    message: String,
    error: &str,
    images: Reply,
    batch: Reply,
    asked: Reply,
    daemon: Reply,
    code: i32,
)
    requires
        call_ensures(client::run_images, (Err::<Json, String>(message),), images),
        call_ensures(fanout::dispatch, (Err::<Json, String>(message),), batch),
        call_ensures(jobs::print_status, (Err::<Json, String>(message),), asked),
        call_ensures(daemon::foreground_failed, (error,), daemon),
        call_ensures(client::fallback_local, (), code),
    ensures
        images.code == 1 && batch.code == 1 && asked.code == 1 && daemon.code == 1 && code == 1,
        images.shows(tasks::failure("daemon_request_failed"@, message@), ""@, 1),
        daemon.shows(tasks::failure("daemon_failed"@, error@), ""@, 1),
{
}

/// A request for images asks for each option as it was given.
pub proof fn a_request_asks_for_what_was_given(
    provider: &str,
    shared: ImageArgs,
    request: GenerateRequest,
)
    requires
        call_ensures(client::generate_request, (provider, &shared), request),
    ensures
        request.prompt@ == shared.prompt@,
        requests::same_option(request.size, shared.size),
        requests::same_option(request.format, shared.output_format),
        requests::same_option(request.quality, shared.quality),
        requests::same_option(request.moderation, shared.moderation),
        request.background is Some && request.background->0@ == shared.background@,
        request.n == shared.n,
        request.compression == shared.output_compression,
        request.storage_targets is None,
        request.fallback_targets is None,
{
    requests::a_request_asks_for_every_option(request, provider@, shared);
}

/// An edit is asked for exactly if all its files could be read, and holds the
/// bytes of each of them.
pub proof fn an_edit_holds_all_its_files(
    provider: &str,
    edit: EditArgs,
    contents: Vec<Result<Vec<u8>, String>>,
    mask: Option<Result<Vec<u8>, String>>,
    request: Result<EditRequest, String>,
    i: int,
)
    requires
        contents@.len() == edit.ref_image@.len(),
        mask is Some <==> edit.mask is Some,
        call_ensures(client::edit_request, (provider, &edit, contents, mask), request),
    ensures
        request is Ok <==> (forall|j: int|
            0 <= j < contents@.len() ==> (#[trigger] contents@[j]) is Ok) && (mask is Some ==> mask->0
            is Ok),
        request is Ok ==> ({
            let r = request->Ok_0;
            &&& r.refs@.len() == contents@.len()
            &&& 0 <= i < contents@.len() ==> contents@[i] is Ok && contents@[i]->Ok_0
                == r.refs@[i].bytes
            &&& r.mask is Some <==> mask is Some
            &&& mask is Some ==> mask->0->Ok_0 == r.mask->0.bytes
            &&& requests::same_option(r.input_fidelity, edit.input_fidelity)
            &&& r.selection_hint is None
            &&& r.base.prompt@ == edit.shared.prompt@
            &&& requests::same_option(r.base.quality, edit.shared.quality)
        }),
{
    requests::an_edit_needs_all_its_files(edit, contents@, mask);
    if request is Ok {
        requests::a_request_asks_for_every_option(request->Ok_0.base, provider@, edit.shared);
        if 0 <= i < contents@.len() {
            assert(client::sent_as(request->Ok_0.refs@[i].name@, edit.ref_image@[i]@));
        }
    }
}

/// A file is sent with its bytes under its own name, or it is said why not.
pub proof fn a_file_is_sent_as_it_was_read(
    path: &str,
    name: String,
    bytes: Vec<u8>,
    error: String,
    named: Result<UploadFile, String>,
    unnamed: Result<UploadFile, String>,
    unread: Result<UploadFile, String>,
)
    requires
        call_ensures(
            client::upload_named,
            (path, Some(name), Ok::<Vec<u8>, String>(bytes)),
            named,
        ),
        call_ensures(
            client::upload_named,
            (path, None::<String>, Ok::<Vec<u8>, String>(bytes)),
            unnamed,
        ),
        call_ensures(
            client::upload_named,
            (path, Some(name), Err::<Vec<u8>, String>(error)),
            unread,
        ),
    ensures
        named is Ok && named->Ok_0.bytes == bytes && named->Ok_0.name@ == name@,
        unnamed is Ok && unnamed->Ok_0.bytes == bytes && unnamed->Ok_0.name@ == "image.png"@,
        unread is Err && unread->Err_0@ == "Unable to read "@ + path@ + ": "@ + error@,
{
}

/// A command for images begins with the daemon, knows its kind and where its
/// output goes, and leaves without waiting exactly if that is asked for.
pub proof fn a_command_begins_as_it_was_given(
    command: ImagesCommand,
    no_wait: bool,
    word: &str,
    flow: ImagesFlow,
    unset: ImagesFlow,
)
    requires
        call_ensures(ImagesFlow::new, (&command, no_wait, Some(word)), flow),
        call_ensures(ImagesFlow::new, (&command, no_wait, None::<&str>), unset),
    ensures
        flow.phase is Ensure,
        flow.edit == command is Edit,
        command is Generate ==> flow.out@ == command->Generate_0.out@,
        command is Edit ==> flow.out@ == command->Edit_0.shared.out@,
        unset.no_wait == no_wait,
        no_wait ==> flow.no_wait,
        !no_wait ==> (flow.no_wait <==> daemon::switched_on(Some(word@))),
{
}

/// New images and edits are asked for at addresses of their own, and a job is
/// asked after by its name.
pub proof fn requests_have_their_addresses(
    flow: ImagesFlow,
    info: DaemonInfo,
    host: &str,
    job_id: &str,
    enqueue: String,
    ask: String,
    probe: String,
)
    requires
        host@ == info.host@,
        call_ensures(ImagesFlow::enqueue_url, (&flow, &info), enqueue),
        call_ensures(client::job_url, (&info, job_id), ask),
        call_ensures(daemon::probe_url, (host, info.port), probe),
    ensures
        ({
            let base = daemon::url_of(info.host@, info.port as int);
            &&& flow.edit ==> enqueue@ == base + "/api/images/edit"@
            &&& !flow.edit ==> enqueue@ == base + "/api/images/generate"@
            &&& ask@ == base + "/api/jobs/"@ + job_id@
            &&& probe@ == base + "/api/queue"@
        }),
{
}

/// Waiting begins with no event seen.
pub proof fn waiting_begins_anew(job_id: &str, wait: JobWait)
    requires
        call_ensures(JobWait::new, (job_id,), wait),
    ensures
        wait.job_id@ == job_id@,
        wait.seen_events == 0,
{
}

/// A job in one of the five final states is over; any other is waited for while
/// there is time.
pub proof fn a_job_is_waited_for_until_it_is_over(
    wait: &mut JobWait,
    payload: Json,
    job: JsonView,
    status: Seq<char>,
    expired: bool,
    answer: (Vec<Json>, WaitNext),
)
    requires
        payload@.get("job"@) == Some(job),
        job.get("status"@) == Some(JsonView::Str(status)),
        call_ensures(JobWait::poll, (wait, Polled::Answered(payload), expired), answer),
    ensures
        ({
            let over = status == "completed"@ || status == "partial_failed"@ || status == "failed"@
                || status == "cancelled"@ || status == "canceled"@;
            &&& over ==> answer.1 is Over && answer.1->Over_0@ == job
            &&& !over && !expired ==> answer.1 is Pending
            &&& !over && expired ==> answer.1 is Failed && answer.1->Failed_0@
                == "Timed out waiting for job "@ + old(wait).job_id@ + "."@
        }),
        final(wait).job_id == old(wait).job_id,
{
    let over = status == "completed"@ || status == "partial_failed"@ || status == "failed"@
        || status == "cancelled"@ || status == "canceled"@;
    if over {
        statuses::a_final_state_ends_the_waiting(old(wait).job_id@, payload, job, status, expired);
    } else {
        statuses::any_other_state_is_waited_out(old(wait).job_id@, payload, job, status, expired);
    }
}

/// Each event is shown once: those not seen are shown, and are seen from then on.
pub proof fn an_event_is_shown_once(
    wait: &mut JobWait,
    payload: Json,
    events: Seq<JsonView>,
    expired: bool,
    answer: (Vec<Json>, WaitNext),
    k: int,
)
    requires
        payload@.get("events"@) == Some(JsonView::Array(events)),
        call_ensures(JobWait::poll, (wait, Polled::Answered(payload), expired), answer),
    ensures
        final(wait).seen_events == events.len(),
        old(wait).seen_events <= events.len() ==> answer.0@.len() == events.len() - old(
            wait,
        ).seen_events,
        old(wait).seen_events > events.len() ==> answer.0@.len() == 0,
        0 <= k < answer.0@.len() ==> answer.0@[k]@ == events[old(wait).seen_events + k],
{
    statuses::events_are_shown_from_where_they_were_left(
        payload,
        arbitrary(),
        events,
        old(wait).seen_events as nat,
        k,
    );
    let shown = client::new_events(Polled::Answered(payload), old(wait).seen_events as int);
    assert(crate::json::trees(answer.0@).len() == answer.0@.len());
    if 0 <= k < answer.0@.len() {
        assert(crate::json::trees(answer.0@)[k] == answer.0@[k]@);
    }
}

/// The daemon is told to do what its word says.
pub proof fn the_daemon_does_what_it_is_told(argv: &[String], action: DaemonAction)
    requires
        call_ensures(daemon::dispatch, (argv,), action),
    ensures
        ({
            let words = crate::args::positional(text::texts(argv@));
            let word = words[1];
            &&& words.len() <= 1 ==> action is Foreground
            &&& words.len() > 1 ==> {
                &&& action is Start <==> word == seq!['s', 't', 'a', 'r', 't']
                &&& action is Stop <==> word == seq!['s', 't', 'o', 'p']
                &&& action is Status <==> word == seq!['s', 't', 'a', 't', 'u', 's']
                &&& action is Foreground <==> word == "foreground"@ || word == seq!['r', 'u', 'n']
                &&& action is Unknown ==> action->Unknown_0@ == word
            }
        }),
{
    reveal_strlit("start");
    reveal_strlit("stop");
    reveal_strlit("status");
    reveal_strlit("run");
    assert("start"@ =~= seq!['s', 't', 'a', 'r', 't']);
    assert("stop"@ =~= seq!['s', 't', 'o', 'p']);
    assert("status"@ =~= seq!['s', 't', 'a', 't', 'u', 's']);
    assert("run"@ =~= seq!['r', 'u', 'n']);
}

/// Of the jobs, only the status can be asked for, and it is where nothing is said.
pub proof fn jobs_are_asked_for_their_status(argv: &[String], action: JobsAction)
    requires
        call_ensures(jobs::dispatch, (argv,), action),
    ensures
        ({
            let words = crate::args::positional(text::texts(argv@));
            &&& action is Status <==> words.len() <= 1 || words[1] == "status"@
            &&& action is Unknown ==> action->Unknown_0@ == words[1]
        }),
{
}

/// A word that is not known ends the command with its own code, and the usage.
pub proof fn unknown_words_are_answered(word: &str, daemon_reply: Reply, jobs_reply: Reply)
    requires
        call_ensures(daemon::unknown_action, (word,), daemon_reply),
        call_ensures(jobs::unknown_action, (word,), jobs_reply),
    ensures
        daemon_reply.code == 2,
        jobs_reply.code == 2,
        daemon_reply.shows(
            daemon::unknown_command(
                "Unknown daemon command: "@ + word@,
                "gpt-image-2-skill daemon [start|stop|status|foreground]"@,
            ),
            ""@,
            2,
        ),
        jobs_reply.shows(
            daemon::unknown_command(
                "Unknown jobs command: "@ + word@,
                "gpt-image-2-skill jobs status [--id JOB]... [--file tickets.json]"@,
            ),
            ""@,
            2,
        ),
{
}

/// A daemon that was noted is asked; where none was, the one at the usual place
/// is, with no process known. It is up exactly if it answers.
pub proof fn the_noted_daemon_is_asked(
    info: DaemonInfo,
    host: &str,
    port: &str,
    version: &str,
    noted: DaemonInfo,
    unnoted: DaemonInfo,
    up: Option<DaemonInfo>,
    down: Option<DaemonInfo>,
)
    requires
        call_ensures(daemon::candidate, (Some(info), Some(host), Some(port), version), noted),
        call_ensures(
            daemon::candidate,
            (None::<DaemonInfo>, Some(host), Some(port), version),
            unnoted,
        ),
        call_ensures(daemon::healthy_info, (info, true), up),
        call_ensures(daemon::healthy_info, (info, false), down),
    ensures
        noted == info,
        unnoted.pid == 0,
        unnoted.host@ == daemon::host_of(Some(host@)),
        unnoted.port == daemon::port_of(Some(port@)),
        unnoted.version@ == version@,
        up == Some(info),
        down is None,
{
}

/// A daemon notes its own process and where it listens.
pub proof fn a_daemon_notes_where_it_is(
    pid: u32,
    host: &str,
    port: &str,
    version: &str,
    info: DaemonInfo,
    place: &str,
    header: String,
    base: String,
)
    requires
        call_ensures(daemon::info_at, (pid, Some(host), Some(port), version), info),
        place@ == info.host@,
        call_ensures(daemon::host_header, (place, info.port), header),
        call_ensures(daemon::daemon_base_url, (Some(host), Some(port)), base),
    ensures
        info.pid == pid,
        info.host@ == daemon::host_of(Some(host@)),
        info.port == daemon::port_of(Some(port@)),
        info.version@ == version@,
        base@.len() > 7,
        base@.take(7) == seq!['h', 't', 't', 'p', ':', '/', '/'],
        base@.skip(7) == header@,
{
    services::urls_hold_host_and_port(info.host@, info.port as nat);
}

/// A noted daemon is stopped and forgotten; without one there is nothing to do.
pub proof fn a_noted_daemon_is_stopped(info: DaemonInfo, stop: Stop, idle: Stop)
    requires
        call_ensures(daemon::stop, (&Some(info),), stop),
        call_ensures(daemon::stop, (&None::<DaemonInfo>,), idle),
    ensures
        stop.forget,
        stop.kill is Some <==> info.pid != 0,
        stop.kill is Some ==> text::digits_value(stop.kill->0@) == Some(info.pid as nat),
        stop.payload@.get("stopped"@) == Some(JsonView::Bool(true)),
        stop.payload@.get("pid"@) == Some(
            JsonView::Number(NumberView::Unsigned(info.pid as u64)),
        ),
        !idle.forget,
        idle.kill is None,
        idle.payload@.get("stopped"@) == Some(JsonView::Bool(false)),
{
    services::a_stop_is_answered(info);
}

/// Bringing up a daemon begins with a probe, and says where it looked if it comes
/// too late.
pub proof fn bringing_up_begins_with_a_probe(
    base_url: &str,
    log_path: &str,
    background: Startup,
    shared: Startup,
)
    requires
        call_ensures(daemon::start_background_inner, (base_url, log_path), background),
        call_ensures(daemon::ensure_running, (base_url,), shared),
    ensures
        background.phase is Probe,
        shared.phase is Probe,
        background.late@ == "Started daemon process but "@ + base_url@
            + " did not respond. See "@ + log_path@ + "."@,
        shared.late@ == "Daemon did not become healthy on "@ + base_url@ + "."@,
{
}

/// A switch is read the same for waiting and for leaving the daemon alone.
pub proof fn switches_are_read_alike(word: &str, skip: bool, no_wait: bool)
    requires
        call_ensures(daemon::skip_daemon, (Some(word),), skip),
        call_ensures(daemon::no_wait, (Some(word),), no_wait),
    ensures
        skip == no_wait,
        skip <==> ({
            let small = text::lowered(word@);
            ||| small == seq!['1']
            ||| small == seq!['o', 'n']
            ||| small == seq!['y', 'e', 's']
            ||| small == seq!['t', 'r', 'u', 'e']
        }),
{
    services::four_words_switch_on(word@);
}

/// Every batch that is accepted runs between one and ten jobs side by side, and
/// the later of two jobs files counts.
pub proof fn the_arguments_of_a_batch_are_read(
    argv: &[String],
    more: &[String],
    path: Seq<char>,
    first: (Vec<String>, String, usize, u32),
    second: Result<(Vec<String>, String, usize, u32), String>,
)
    requires
        argv@.len() > 0,
        text::texts(more@) == text::texts(argv@) + seq!["--jobs"@, path],
        call_ensures(
            fanout::parse_args,
            (argv,),
            Ok::<(Vec<String>, String, usize, u32), String>(first),
        ),
        call_ensures(fanout::parse_args, (more,), second),
    ensures
        second is Ok,
        second->Ok_0.1@ == path,
        second->Ok_0.2 == first.2,
        second->Ok_0.3 == first.3,
        text::texts(second->Ok_0.0@) == text::texts(first.0@),
{
    assert(fanout::asked(text::texts(argv@)) is Ok);
    assert(text::texts(argv@).len() == argv@.len());
    arguments::the_last_jobs_file_counts(text::texts(argv@), path);
}

/// A job is made ready exactly if neither its prompt nor its output is blank.
pub proof fn a_job_is_made_ready_unless_it_is_blank(
    index: usize,
    job: FanoutJob,
    globals: &[String],
    ready: Result<PreparedJob, String>,
)
    requires
        call_ensures(fanout::prepare_job, (index, &job, globals), ready),
    ensures
        ({
            let blank = |s: Seq<char>|
                forall|k: int| 0 <= k < s.len() ==> text::white_space(#[trigger] s[k]);
            &&& ready is Ok <==> !blank(job.prompt@) && !blank(job.out@)
            &&& ready is Ok ==> ready->Ok_0.index == index && ready->Ok_0.out@ == job.out@
                && text::texts(ready->Ok_0.child_args@) == fanout::child_arguments(
                job,
                text::texts(globals@),
            )
        }),
{
    arguments::blank_jobs_are_refused(index as nat, job);
}

/// All jobs of a batch are made ready in their order, or none is.
pub proof fn a_batch_is_made_ready_as_a_whole(
    jobs: &[FanoutJob],
    globals: &[String],
    ready: Result<Vec<PreparedJob>, String>,
    i: int,
)
    requires
        call_ensures(fanout::prepare_batch, (jobs, globals), ready),
    ensures
        ready is Ok <==> jobs@.len() > 0 && forall|j: int|
            0 <= j < jobs@.len() ==> fanout::refusal(j, #[trigger] jobs@[j]) is None,
        ready is Ok ==> ready->Ok_0@.len() == jobs@.len(),
        ready is Ok && 0 <= i < jobs@.len() ==> ready->Ok_0@[i].index == i && ready->Ok_0@[i].out@
            == jobs@[i].out@,
{
    arguments::the_first_refused_job_says_why(jobs@, 0);
    if ready is Ok && 0 <= i < jobs@.len() {
        assert(ready->Ok_0@[i].made_from(i, jobs@[i], text::texts(globals@)));
    }
}

/// What cannot be read, or does not hold what it should, is said.
pub proof fn what_is_wrong_with_a_file_is_said(
    path: &str,
    dest: &str,
    error: &str,
    unreadable: String,
    no_list: String,
    uncopied: String,
)
    requires
        call_ensures(fanout::unreadable, (path, error), unreadable),
        call_ensures(fanout::not_a_job_list, (error,), no_list),
        call_ensures(outputs::copy_failed, (path, dest, error), uncopied),
    ensures
        unreadable@ == "Unable to read "@ + path@ + ": "@ + error@,
        no_list@ == "Jobs file must be a JSON array: "@ + error@,
        uncopied@ == "Unable to copy "@ + path@ + " -> "@ + dest@ + ": "@ + error@,
{
}

/// The tickets asked about are those named and those in the file, in that order,
/// and there must be one.
pub proof fn all_tickets_are_asked_about(
    ids: Vec<Ticket>,
    more: Vec<Ticket>,
    alone: Result<Vec<Ticket>, String>,
    both: Result<Vec<Ticket>, String>,
    k: int,
)
    requires
        call_ensures(jobs::collect_tickets, (ids, TicketFile::NotNamed), alone),
        call_ensures(jobs::collect_tickets, (ids, TicketFile::Holds(more)), both),
    ensures
        alone is Ok <==> ids@.len() > 0,
        both is Ok <==> ids@.len() + more@.len() > 0,
        alone is Ok ==> alone->Ok_0@ == ids@,
        both is Ok ==> both->Ok_0@.len() == ids@.len() + more@.len(),
        both is Ok && 0 <= k < ids@.len() ==> both->Ok_0@[k] == ids@[k],
        both is Ok && 0 <= k < more@.len() ==> both->Ok_0@[ids@.len() + k] == more@[k],
        alone is Err ==> alone->Err_0@ == "jobs status requires --id JOB or --file tickets.json"@,
{
}

/// A ticket file that cannot be used is a reason to ask about nothing.
pub proof fn a_ticket_file_must_be_readable(
    ids: Vec<Ticket>,
    path: String,
    error: String,
    unread: Result<Vec<Ticket>, String>,
    invalid: Result<Vec<Ticket>, String>,
)
    requires
        call_ensures(
            jobs::collect_tickets,
            (ids, TicketFile::Unreadable { path, error }),
            unread,
        ),
        call_ensures(jobs::collect_tickets, (ids, TicketFile::Invalid(error)), invalid),
    ensures
        unread is Err && unread->Err_0@ == "Unable to read "@ + path@ + ": "@ + error@,
        invalid is Err && invalid->Err_0@
            == "Ticket file must be a JSON array of {job_id, out}: "@ + error@,
{
}

/// A report of a job that was found is pending unless its state is final.
pub proof fn a_report_is_pending_until_its_state_is_final(
    task: Json,
    status: Seq<char>,
    outcome: Outcome,
)
    requires
        task@.get("status"@) == Some(JsonView::Str(status)),
        task@.get("error"@) is None,
        call_ensures(jobs::classify, (&task,), outcome),
    ensures
        ({
            let over = status == "completed"@ || status == "partial_failed"@ || status == "failed"@
                || status == "cancelled"@ || status == "canceled"@;
            &&& outcome is Pending <==> !over
            &&& outcome is Completed <==> over && task@.get("ok"@) == Some(JsonView::Bool(true))
        }),
{
    statuses::only_final_states_settle_a_ticket(task@, status);
}

/// Outputs go to the ticket's own place, else to the one noted, once the job has
/// ended well.
pub proof fn outputs_go_to_the_ticket_first(
    ticket: Ticket,
    payload: Json,
    noted: Option<String>,
    open: OpenTask,
    dest: Option<String>,
    job: JsonView,
)
    requires
        payload@.get("job"@) == Some(job),
        call_ensures(OpenTask::new, (&ticket, &payload, noted), open),
        call_ensures(OpenTask::dest, (&open,), dest),
    ensures
        open.job@ == job,
        ticket.out is Some ==> open.out is Some && open.out->0@ == ticket.out->0@,
        ticket.out is None ==> requests::same_option(open.out, noted),
        ({
            let good = job.get("status"@) == Some(JsonView::Str("completed"@)) || job.get(
                "status"@,
            ) == Some(JsonView::Str("partial_failed"@));
            &&& good ==> requests::same_option(dest, open.out)
            &&& !good ==> dest is None
        }),
{
    statuses::outputs_are_copied_once_the_job_is_good(
        ticket@,
        text::opt_text(noted),
        job,
        text::opt_text(open.out),
    );
}

/// Copies are reported if all of them went well; the first that did not, or the
/// directory that could not be made, is the reason if not.
pub proof fn copies_are_reported_if_all_went_well(
    plan: CopyPlan,
    error: String,
    outcomes: Vec<Result<u64, String>>,
    made: Result<Json, String>,
    unmade: Result<Json, String>,
)
    requires
        outputs::went_on(outcomes@, plan.tasks@.len()),
        call_ensures(
            outputs::copy_outputs_to,
            (&plan, Ok::<(), String>(()), &outcomes),
            made,
        ),
        call_ensures(
            outputs::copy_outputs_to,
            (&plan, Err::<(), String>(error), &outcomes),
            unmade,
        ),
    ensures
        made is Ok <==> forall|j: int|
            0 <= j < outcomes@.len() ==> (#[trigger] outcomes@[j]) is Ok,
        unmade is Err && unmade->Err_0@ == error@,
{
    copies::the_first_failed_copy_says_why(outputs::copies(plan.tasks@), outcomes@, 0);
}

/// A command goes where its words say, and past the daemon if that is asked for
/// or it makes no images.
pub proof fn a_command_goes_where_its_words_say(
    argv: &[String],
    word: &str,
    makes_images: bool,
    route: Route,
)
    requires
        call_ensures(crate::run, (argv, Some(word), makes_images), route),
    ensures
        ({
            let words = crate::args::positional(text::texts(argv@));
            let daemon = words.len() > 0 && words[0] == "daemon"@;
            let jobs = words.len() > 0 && words[0] == "jobs"@;
            let batch = words.len() > 1 && words[0] == "images"@ && words[1] == "fanout"@;
            let past = daemon::switched_on(Some(word@)) || !makes_images;
            &&& route is Daemon <==> daemon
            &&& route is Jobs <==> jobs
            &&& route is Fanout <==> batch
            &&& route is Client <==> !daemon && !jobs && !batch && !past
            &&& route is Core <==> !daemon && !jobs && !batch && past
        }),
{
    words::commands_are_told_by_their_words(text::texts(argv@));
}

/// What is noted of a job is found under it, and what was noted of others stays.
pub proof fn a_note_is_found_again(
    store: Json,
    job_id: &str,
    out: &str,
    other: &str,
    more: Json,
    found: Option<String>,
    before: Option<String>,
    after: Option<String>,
)
    requires
        store@ is Object,
        job_id@ != other@,
        call_ensures(crate::tickets::add_ticket, (store, job_id, out), more),
        call_ensures(crate::tickets::ticket_out, (&more, job_id), found),
        call_ensures(crate::tickets::ticket_out, (&store, other), before),
        call_ensures(crate::tickets::ticket_out, (&more, other), after),
    ensures
        found is Some && found->0@ == out@,
        requests::same_option(before, after),
{
}

/// An entry that is put into an object is read from it, and the others stay.
pub proof fn an_entry_is_read_back(
    object: Json,
    key: &str,
    other: &str,
    entry: Json,
    more: Json,
    found: Option<&Json>,
    before: Option<&Json>,
    after: Option<&Json>,
)
    requires
        object@ is Object,
        key@ != other@,
        call_ensures(Json::with, (object, key, entry), more),
        call_ensures(Json::get, (&more, key), found),
        call_ensures(Json::get, (&object, other), before),
        call_ensures(Json::get, (&more, other), after),
    ensures
        found is Some && found->0@ == entry@,
        before is Some <==> after is Some,
        before is Some ==> before->0@ == after->0@,
{
}

/// A number that is written is read back, and one that is too large is not.
pub proof fn a_number_is_read_back(
    n: u64,
    max: u64,
    written: String,
    source: &str,
    read: Option<u64>,
)
    requires
        call_ensures(text::decimal_text, (n,), written),
        source@ == written@,
        call_ensures(text::parse_decimal, (source, max), read),
    ensures
        n <= max ==> read == Some(n),
        n > max ==> read is None,
{
    text::lemma_decimal_digits(n as nat);
    assert(text::is_digit(written@[0]));
    words::numbers_may_be_signed_and_are_bounded(written@, max as int);
}

/// A summary holds every report, and is not done while one of them is of a job
/// in no final state.
pub proof fn a_summary_is_open_while_a_job_is(
    tasks: Vec<Json>,
    payload: Json,
    i: int,
    status: Seq<char>,
)
    requires
        tasks@.len() <= u64::MAX,
        0 <= i < tasks@.len(),
        tasks@[i]@.get("status"@) == Some(JsonView::Str(status)),
        tasks@[i]@.get("error"@) is None,
        !(status == "completed"@ || status == "partial_failed"@ || status == "failed"@
            || status == "cancelled"@ || status == "canceled"@),
        call_ensures(jobs::summarize, (tasks,), payload),
    ensures
        payload@.get("done"@) == Some(JsonView::Bool(false)),
        payload@.get("all_ok"@) == Some(JsonView::Bool(false)),
        payload@.get("tasks"@) == Some(JsonView::Array(crate::json::trees(tasks@))),
{
    let views = crate::json::trees(tasks@);
    assert(views.len() == tasks@.len() && views[i] == tasks@[i]@);
    statuses::the_summary_tells_the_counts(views);
    statuses::a_pending_job_keeps_the_batch_open(views, i, status);
}

/// A job that was found is reported under its ticket with its own state, and is
/// ok in the two good ones.
pub proof fn a_found_job_is_told_as_it_is(
    open: OpenTask,
    ticket: Ticket,
    copied: Json,
    task: Json,
    status: Seq<char>,
)
    requires
        open.job@.get("status"@) == Some(JsonView::Str(status)),
        call_ensures(OpenTask::task, (open, &ticket, copied), task),
    ensures
        task@.get("job_id"@) == Some(JsonView::Str(ticket.job_id@)),
        task@.get("status"@) == Some(JsonView::Str(status)),
        task@.get("ok"@) == Some(
            JsonView::Bool(status == "completed"@ || status == "partial_failed"@),
        ),
        task@.get("output"@) == Some(copied@),
        task@.get("job"@) == Some(open.job@),
        open.out is Some ==> task@.get("out"@) == Some(JsonView::Str(open.out->0@)),
{
    statuses::a_found_job_is_reported_as_it_is(
        ticket@,
        open.job@,
        text::opt_text(open.out),
        copied@,
        status,
    );
}

/// A job that was not found is reported under its ticket as a failure.
pub proof fn a_lost_job_is_told_as_lost(ticket: Ticket, status: &str, task: Json)
    requires
        call_ensures(jobs::lookup_failed, (&ticket, status), task),
    ensures
        task@.get("job_id"@) == Some(JsonView::Str(ticket.job_id@)),
        task@.get("ok"@) == Some(JsonView::Bool(false)),
        task@.get("error"@) is Some,
        task@.get("error"@)->0.get("message"@) == Some(JsonView::Str("HTTP "@ + status@)),
{
    statuses::a_lost_job_is_reported_as_lost(ticket@, status@);
}

/// Every listed output with a path is copied in its turn, and a single one goes
/// right where it was asked for.
pub proof fn a_plan_copies_every_listed_output(
    job: Json,
    listed: Seq<JsonView>,
    out: &str,
    plan: CopyPlan,
    k: int,
    source: Seq<char>,
)
    requires
        job@.get("outputs"@) == Some(JsonView::Array(listed)),
        0 < listed.len() <= u64::MAX,
        0 <= k < listed.len(),
        listed[k].get("path"@) == Some(JsonView::Str(source)),
        call_ensures(outputs::plan_copies, (&job, out), plan),
    ensures
        ({
            let at = copies::with_path(listed, k as nat) as int;
            &&& plan.tasks@.len() == copies::with_path(listed, listed.len())
            &&& 0 <= at < plan.tasks@.len()
            &&& plan.tasks@[at].source@ == source
            &&& listed.len() == 1 ==> plan.tasks@[at].dest@ == out@
        }),
{
    let files = outputs::output_files(job@);
    let dests = choose|dests: Seq<Seq<char>>| #[trigger]
        outputs::destinations(dests, out@, files.len()) && outputs::copies(plan.tasks@)
            == outputs::tasks_for(files, dests, files.len());
    copies::listed_outputs_are_copied(job@, listed, dests, out@, k, source);
    let at = copies::with_path(listed, k as nat) as int;
    let views = outputs::copies(plan.tasks@);
    assert(views.len() == plan.tasks@.len());
    assert(views[at] == plan.tasks@[at]@);
}

/// Every copy is told of with its place and its size.
pub proof fn every_copy_is_told_of(tasks: Vec<CopyTask>, bytes: Vec<u64>, payload: Json, k: int)
    requires
        bytes@.len() == tasks@.len(),
        0 <= k < tasks@.len(),
        call_ensures(outputs::copied, (&tasks, &bytes), payload),
    ensures
        ({
            let list = payload@.get("files"@)->0->Array_0;
            &&& payload@.get("files"@) == Some(JsonView::Array(list))
            &&& list.len() == tasks@.len()
            &&& list[k].get("path"@) == Some(JsonView::Str(tasks@[k].dest@))
            &&& list[k].get("bytes"@) == Some(JsonView::Number(NumberView::Unsigned(bytes@[k])))
        }),
{
    copies::every_copy_is_reported(outputs::copies(tasks@), bytes@, k);
    assert(outputs::copies(tasks@)[k] == tasks@[k]@);
}

/// Asking about tickets begins with the daemon and with nothing told.
pub proof fn asking_begins_with_the_daemon(
    tickets: Vec<Ticket>,
    flow: StatusFlow,
    action: StatusAction,
    result: Option<Result<Json, String>>,
    k: int,
)
    requires
        tickets@.len() > 0,
        call_ensures(StatusFlow::new, (tickets,), flow),
        call_ensures(StatusFlow::action, (&flow,), action),
        call_ensures(StatusFlow::result, (flow,), result),
    ensures
        action is Ensure,
        result is None,
        flow@.tasks.len() == 0,
        flow@.tickets.len() == tickets@.len(),
        0 <= k < tickets@.len() ==> flow@.tickets[k].job_id == tickets@[k].job_id@,
{
}

/// The daemon is asked about the first ticket that was not told of, by its job.
pub proof fn the_next_ticket_is_asked_about(
    flow: StatusFlow,
    info: DaemonInfo,
    action: StatusAction,
    url: String,
    job_id: &str,
)
    requires
        flow@.wf(),
        flow@.phase == StatusPhaseView::Poll(info),
        job_id@ == flow@.tickets[flow@.tasks.len() as int].job_id,
        call_ensures(StatusFlow::action, (&flow,), action),
        call_ensures(client::job_url, (&info, job_id), url),
    ensures
        action is Poll,
        action->Poll_0@ == url@,
{
}

/// A job that is named is asked about after those named before it.
pub proof fn a_named_job_is_asked_about(
    argv: &[String],
    more: &[String],
    job_id: Seq<char>,
    first: (Vec<Ticket>, Option<String>),
    second: Result<(Vec<Ticket>, Option<String>), String>,
    k: int,
)
    requires
        argv@.len() > 0,
        text::texts(more@) == text::texts(argv@) + seq!["--id"@, job_id],
        call_ensures(
            jobs::parse_tickets,
            (argv,),
            Ok::<(Vec<Ticket>, Option<String>), String>(first),
        ),
        call_ensures(jobs::parse_tickets, (more,), second),
    ensures
        second is Ok,
        second->Ok_0.0@.len() == first.0@.len() + 1,
        second->Ok_0.0@.last().job_id@ == job_id,
        0 <= k < first.0@.len() ==> second->Ok_0.0@[k]@ == first.0@[k]@,
        requests::same_option(second->Ok_0.1, first.1),
{
    let words = text::texts(argv@);
    let list = crate::args::arguments(words);
    assert(words.len() == argv@.len());
    assert(crate::args::arguments(text::texts(more@)) =~= list + seq!["--id"@, job_id]);
    arguments::every_named_ticket_is_asked_about(list, "--id"@, job_id);
    let old_views = jobs::ticket_views(first.0@);
    let new_views = jobs::ticket_views(second->Ok_0.0@);
    assert(new_views.len() == second->Ok_0.0@.len());
    assert(old_views.len() == first.0@.len());
    assert(new_views.last() == second->Ok_0.0@.last()@);
    if 0 <= k < first.0@.len() {
        assert(new_views.drop_last()[k] == old_views[k]);
    }
}

/// What is remembered of a job is found again.
pub proof fn what_is_remembered_is_found(
    file: &str,
    job_id: &str,
    out: &str,
    content: Option<String>,
    written: &str,
    found: Option<String>,
)
    requires
        crate::tickets::store_in(Some(file@)).float_free(),
        call_ensures(crate::tickets::remember_ticket, (Some(file), job_id, out), content),
        content is Some ==> written@ == content->0@,
        call_ensures(crate::tickets::lookup_ticket_out, (Some(written), job_id), found),
    ensures
        content is Some,
        found is Some && found->0@ == out@,
{
}

/// A command keeps its kind, its output and its wish not to wait.
pub proof fn a_command_stays_what_it_is(flow: ImagesFlow, event: ImagesEvent, next: ImagesFlow)
    requires
        call_ensures(ImagesFlow::step, (flow, event), next),
    ensures
        next.edit == flow.edit,
        next.out@ == flow.out@,
        next.no_wait == flow.no_wait,
{
}

/// The white space around a text is taken away, and nothing else.
pub proof fn white_space_around_is_taken_away(
    s: &str,
    before: Seq<char>,
    core: Seq<char>,
    after: Seq<char>,
    inner: &str,
)
    requires
        s@ == before + core + after,
        forall|k: int| 0 <= k < before.len() ==> text::white_space(before[k]),
        forall|k: int| 0 <= k < after.len() ==> text::white_space(after[k]),
        core.len() > 0 ==> !text::white_space(core[0]) && !text::white_space(core.last()),
        call_ensures(text::trim, (s,), inner),
    ensures
        inner@ == core,
{
    words::trimming_leaves_the_core(before, core, after);
}

/// A daemon that is up is told of with its process and its place.
pub proof fn a_daemon_is_told_of(
    info: DaemonInfo,
    base_url: &str,
    started: Json,
    up: Json,
    down: Json,
)
    requires
        call_ensures(daemon::start_background, (Ok::<DaemonInfo, String>(info), base_url), started),
        call_ensures(daemon::status_payload, (&Some(info), base_url), up),
        call_ensures(daemon::status_payload, (&None::<DaemonInfo>, base_url), down),
    ensures
        started@.get("ok"@) == Some(JsonView::Bool(true)),
        started@.get("daemon"@) == up@.get("daemon"@),
        started@.get("url"@) == Some(JsonView::Str(base_url@)),
        up@.get("running"@) == Some(JsonView::Bool(true)),
        down@.get("running"@) == Some(JsonView::Bool(false)),
        down@.get("url"@) == started@.get("url"@),
{
    services::a_start_is_answered(info, base_url@, base_url@);
    services::a_status_is_answered(info, base_url@);
}

/// Outputs that stand beside each other have names of their own.
pub proof fn outputs_have_names_of_their_own(
    stem: Option<String>,
    ext: Option<String>,
    i: usize,
    j: usize,
    first: String,
    second: String,
)
    requires
        i < usize::MAX,
        j < usize::MAX,
        i != j,
        call_ensures(paths::numbered_name, (&stem, &ext, i), first),
        call_ensures(paths::numbered_name, (&stem, &ext, j), second),
    ensures
        first@ != second@,
{
    paths::numbered_names_differ(text::opt_text(stem), text::opt_text(ext), i as nat, j as nat);
}

} // verus!
