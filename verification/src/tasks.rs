//! One run of a fanout job: what its child process left, and how that is
//! reported.

use vstd::prelude::*;
use crate::fanout::PreparedJob;
use crate::json;
use crate::json::{Json, JsonView};
use crate::text;
use crate::text::{decode_lossy, owned, trim};

verus! {

/// What one run of a job came to.
pub struct TaskResult {
    pub index: usize,
    pub name: String,
    pub out: String,
    pub child_args: Vec<String>,
    pub attempt: u32,
    pub exit_code: i32,
    pub ok: bool,
    pub payload: Json,
}

/// How a child process came out: it ended, with or without an exit code, and
/// left bytes; or it never started.
pub enum ChildOutput {
    Ended { success: bool, code: Option<i32>, stdout: Vec<u8> },
    NotStarted(String),
}

/// An error as replies carry it.
pub open spec fn error_entry(code: Seq<char>, message: Seq<char>) -> JsonView {
    JsonView::Object(map!["code"@ => JsonView::Str(code), "message"@ => JsonView::Str(message)])
}

/// A payload that says nothing but that something failed.
pub open spec fn failure(code: Seq<char>, message: Seq<char>) -> JsonView {
    JsonView::Object(
        map!["ok"@ => JsonView::Bool(false), "error"@ => error_entry(code, message)],
    )
}

/// An error as replies carry it.
pub fn error_json(code: &str, message: &str) -> (entry: Json)
    ensures
        entry@ == error_entry(code@, message@),
{
    Json::object().with("code", Json::text(code)).with("message", Json::text(message))
}

/// A payload that says nothing but that something failed.
pub fn failure_json(code: &str, message: &str) -> (payload: Json)
    ensures
        payload@ == failure(code@, message@),
{
    Json::object().with("ok", Json::Bool(false)).with("error", error_json(code, message))
}

impl TaskResult {
    /// Whether this is what run `attempt` of `job` came to.
    pub open spec fn tells(
        self,
        job: PreparedJob,
        attempt: u32,
        exit_code: i32,
        ok: bool,
        payload: JsonView,
    ) -> bool {
        &&& self.index == job.index
        &&& self.name == job.name
        &&& self.out == job.out
        &&& self.child_args == job.child_args
        &&& self.attempt == attempt
        &&& self.exit_code == exit_code
        &&& self.ok == ok
        &&& self.payload@ == payload
    }
}

/// What a child said: the JSON it printed, or, where it printed something
/// else, a failure that quotes it.
pub open spec fn said(printed: Seq<char>, parsed: Option<JsonView>) -> JsonView {
    match parsed {
        Some(payload) => payload,
        None => failure("child_output_invalid"@, printed),
    }
}

/// The exit code of a process, one where it has none.
pub open spec fn exit_code_of(code: Option<i32>) -> i32 {
    match code {
        Some(c) => c,
        None => 1,
    }
}

/// The result of a run whose child ended and printed `printed`, which reads
/// as `parsed`. It is a success if the process succeeded and says so.
pub fn ended_task(
    job: PreparedJob,
    attempt: u32,
    success: bool,
    code: Option<i32>,
    printed: &str,
    parsed: Option<Json>,
) -> (result: TaskResult)
    ensures
        ({
            let payload = said(
                printed@,
                match parsed {
                    Some(j) => Some(j@),
                    None => None,
                },
            );
            result.tells(
                job,
                attempt,
                exit_code_of(code),
                success && payload.true_at("ok"@),
                payload,
            )
        }),
{
    let payload: Json = match parsed {
        Some(payload) => payload,
        None => failure_json("child_output_invalid", printed),
    };
    let ok: bool = success && payload.is_true_at("ok");
    TaskResult {
        index: job.index,
        name: job.name,
        out: job.out,
        child_args: job.child_args,
        attempt,
        exit_code: match code {
            Some(c) => c,
            None => 1,
        },
        ok,
        payload,
    }
}

/// What a child printed, as text, without the white space around it.
pub open spec fn printed_text(stdout: Seq<u8>) -> Seq<char> {
    text::trimmed(text::lossy_text(stdout))
}

/// The result of run `attempt` of a job, from what its child process left.
pub fn run_child(job: PreparedJob, attempt: u32, output: ChildOutput) -> (result: TaskResult)
    ensures
        match output {
            ChildOutput::Ended { success, code, stdout } => {
                let printed = printed_text(stdout@);
                let payload = said(printed, json::json_of_text(printed));
                result.tells(
                    job,
                    attempt,
                    exit_code_of(code),
                    success && payload.true_at("ok"@),
                    payload,
                )
            },
            ChildOutput::NotStarted(error) => result.tells(
                job,
                attempt,
                1,
                false,
                failure("child_spawn_failed"@, error@),
            ),
        },
{
    match output {
        ChildOutput::Ended { success, code, stdout } => {
            let shown: String = decode_lossy(stdout.as_slice());
            let printed: &str = trim(shown.as_str());
            let parsed: Option<Json> = Json::parse(printed);
            ended_task(job, attempt, success, code, printed, parsed)
        },
        ChildOutput::NotStarted(error) => TaskResult {
            index: job.index,
            name: job.name,
            out: job.out,
            child_args: job.child_args,
            attempt,
            exit_code: 1,
            ok: false,
            payload: failure_json("child_spawn_failed", error.as_str()),
        },
    }
}

/// How a result is reported.
pub open spec fn task_entry(task: TaskResult) -> JsonView {
    JsonView::Object(
        map![
            "name"@ => JsonView::Str(task.name@),
            "out"@ => JsonView::Str(task.out@),
            "ok"@ => JsonView::Bool(task.ok),
            "attempts"@ => json::count(task.attempt as int),
            "exit_code"@ => JsonView::Number(json::signed_form(task.exit_code as int)),
            "result"@ => task.payload@,
        ],
    )
}

/// How a result is reported.
pub fn task_payload(task: &TaskResult) -> (payload: Json)
    ensures
        payload@ == task_entry(*task),
{
    Json::object().with("name", Json::text(task.name.as_str())).with(
        "out",
        Json::text(task.out.as_str()),
    ).with("ok", Json::Bool(task.ok)).with(
        "attempts",
        Json::unsigned(task.attempt as u64),
    ).with("exit_code", Json::integer(task.exit_code)).with("result", task.payload.copy())
}

/// Whether every task succeeded.
pub open spec fn all_succeeded(results: Seq<TaskResult>) -> bool {
    forall|i: int| 0 <= i < results.len() ==> (#[trigger] results[i]).ok
}

/// The report on a whole fanout.
pub open spec fn fanout_report(
    results: Seq<TaskResult>,
    jobs_file: Seq<char>,
    max_parallel: int,
    retries: int,
    elapsed_ms: int,
) -> JsonView {
    JsonView::Object(
        map![
            "ok"@ => JsonView::Bool(all_succeeded(results)),
            "command"@ => JsonView::Str("images fanout"@),
            "jobs_file"@ => JsonView::Str(jobs_file),
            "max_parallel"@ => json::count(max_parallel),
            "retries"@ => json::count(retries),
            "elapsed_ms"@ => json::count(elapsed_ms),
            "tasks"@ => JsonView::Array(results.map_values(|task: TaskResult| task_entry(task))),
        ],
    )
}

/// The report on a whole fanout.
pub fn report(
    results: &Vec<TaskResult>,
    jobs_file: &str,
    max_parallel: usize,
    retries: u32,
    elapsed_ms: u64,
) -> (payload: Json)
    ensures
        payload@ == fanout_report(
            results@,
            jobs_file@,
            max_parallel as int,
            retries as int,
            elapsed_ms as int,
        ),
{
    let mut all_ok: bool = true;
    let mut tasks: Vec<Json> = Vec::new();
    let mut i: usize = 0;
    while i < results.len()
        invariant
            i <= results@.len(),
            tasks@.len() == i,
            all_ok == all_succeeded(results@.take(i as int)),
            forall|k: int| 0 <= k < i ==> (#[trigger] tasks@[k])@ == task_entry(results@[k]),
        decreases results@.len() - i,
    {
        tasks.push(task_payload(&results[i]));
        proof {
            let before = results@.take(i as int);
            let after = results@.take(i + 1);
            assert(forall|k: int| 0 <= k < i ==> before[k] == after[k]);
            assert(after[i as int] == results@[i as int]);
            if all_succeeded(after) {
                assert forall|k: int| 0 <= k < before.len() implies (#[trigger] before[k]).ok by {
                    assert(after[k].ok);
                }
            }
        }
        all_ok = all_ok && results[i].ok;
        i = i + 1;
    }
    proof {
        assert(results@.take(i as int) =~= results@);
        assert(json::trees(tasks@) =~= results@.map_values(|task: TaskResult| task_entry(task)));
    }
    Json::object().with("ok", Json::Bool(all_ok)).with(
        "command",
        Json::text("images fanout"),
    ).with("jobs_file", Json::text(jobs_file)).with(
        "max_parallel",
        Json::unsigned(max_parallel as u64),
    ).with("retries", Json::unsigned(retries as u64)).with(
        "elapsed_ms",
        Json::unsigned(elapsed_ms),
    ).with("tasks", Json::Array(tasks))
}

} // verus!
