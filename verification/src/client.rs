//! The client of the daemon: the requests it sends, and its way from a command
//! to a reply.

use vstd::prelude::*;
use vstd::string::StringExecFns;
use crate::daemon;
use crate::daemon::{url, DaemonInfo};
use crate::fanout::unreadable;
use crate::json;
use crate::json::{Json, JsonView, Reply};
use crate::paths;
use crate::tasks;
use crate::tasks::{error_json, failure_json};
use crate::text;
use crate::text::{copy_opt, owned, same_text, trim};

verus! {

/// How many seconds pass between two questions about a job.
pub const POLL_INTERVAL_SECS: u64 = 1;

/// For how many seconds a job is waited for.
pub const POLL_TIMEOUT_SECS: u64 = 1200;

/// For how many seconds the answer to a request is waited for.
pub const REQUEST_TIMEOUT_SECS: u64 = 120;

/// What the commands that make images have in common.
pub struct ImageArgs {
    pub prompt: String,
    pub out: String,
    pub size: Option<String>,
    pub output_format: Option<String>,
    pub quality: Option<String>,
    pub background: String,
    pub n: Option<u32>,
    pub output_compression: Option<u8>,
    pub moderation: Option<String>,
}

/// What only an edit has: images to start from, and where to change them.
pub struct EditArgs {
    pub shared: ImageArgs,
    pub input_fidelity: Option<String>,
    pub ref_image: Vec<String>,
    pub mask: Option<String>,
}

/// A command that makes images.
pub enum ImagesCommand {
    Generate(ImageArgs),
    Edit(EditArgs),
}

/// A file that goes with a request.
pub struct UploadFile {
    pub name: String,
    pub bytes: Vec<u8>,
}

/// A request for new images.
pub struct GenerateRequest {
    pub prompt: String,
    pub provider: Option<String>,
    pub size: Option<String>,
    pub format: Option<String>,
    pub quality: Option<String>,
    pub background: Option<String>,
    pub n: Option<u32>,
    pub compression: Option<u8>,
    pub moderation: Option<String>,
    pub storage_targets: Option<Vec<String>>,
    pub fallback_targets: Option<Vec<String>>,
}

/// A request for changed images: what one for new images has, and the images.
pub struct EditRequest {
    pub base: GenerateRequest,
    pub input_fidelity: Option<String>,
    pub refs: Vec<UploadFile>,
    pub mask: Option<UploadFile>,
    pub selection_hint: Option<String>,
}

/// The provider that a request names: none where the choice is left open.
pub open spec fn named_provider(provider: Seq<char>) -> Option<Seq<char>> {
    let name = text::trimmed(provider);
    if name.len() == 0 || name == "auto"@ {
        None
    } else {
        Some(name)
    }
}

/// The provider that a request names.
pub fn provider_arg(provider: &str) -> (named: Option<String>)
    ensures
        text::opt_text(named) == named_provider(provider@),
{
    let name: &str = trim(provider);
    if name.is_empty() || same_text(name, "auto") {
        None
    } else {
        Some(owned(name))
    }
}

impl GenerateRequest {
    /// Whether this asks for what the arguments say.
    pub open spec fn asks(self, provider: Seq<char>, shared: ImageArgs) -> bool {
        &&& self.prompt@ == shared.prompt@
        &&& text::opt_text(self.provider) == named_provider(provider)
        &&& text::opt_text(self.size) == text::opt_text(shared.size)
        &&& text::opt_text(self.format) == text::opt_text(shared.output_format)
        &&& text::opt_text(self.quality) == text::opt_text(shared.quality)
        &&& text::opt_text(self.background) == Some(shared.background@)
        &&& self.n == shared.n
        &&& self.compression == shared.output_compression
        &&& text::opt_text(self.moderation) == text::opt_text(shared.moderation)
        &&& self.storage_targets is None
        &&& self.fallback_targets is None
    }
}

/// The request for new images.
pub fn generate_request(provider: &str, shared: &ImageArgs) -> (request: GenerateRequest)
    ensures
        request.asks(provider@, *shared),
{
    GenerateRequest {
        prompt: owned(shared.prompt.as_str()),
        provider: provider_arg(provider),
        size: copy_opt(&shared.size),
        format: copy_opt(&shared.output_format),
        quality: copy_opt(&shared.quality),
        background: Some(owned(shared.background.as_str())),
        n: shared.n,
        compression: shared.output_compression,
        moderation: copy_opt(&shared.moderation),
        storage_targets: None,
        fallback_targets: None,
    }
}

/// The name under which a file is sent.
pub open spec fn upload_name(file_name: Option<Seq<char>>) -> Seq<char> {
    match file_name {
        Some(name) => name,
        None => "image.png"@,
    }
}

/// What is the same on every system about the name under which a file is sent.
pub open spec fn sent_as(name: Seq<char>, path: Seq<char>) -> bool {
    !paths::doubled(path) ==> name == upload_name(paths::final_name(path)) || name == upload_name(
        paths::driven_name(path),
    )
}

/// The file to send, given its own name and what came of reading it.
pub fn upload_named(
    path: &str,
    file_name: Option<String>,
    content: Result<Vec<u8>, String>,
) -> (upload: Result<UploadFile, String>)
    ensures
        match (upload, content) {
            (Ok(file), Ok(bytes)) => file.bytes == bytes && file.name@ == upload_name(
                text::opt_text(file_name),
            ),
            (Err(message), Err(error)) => message@ == "Unable to read "@ + path@ + ": "@ + error@,
            _ => false,
        },
{
    match content {
        Ok(bytes) => {
            let name: String = match file_name {
                Some(name) => name,
                None => owned("image.png"),
            };
            Ok(UploadFile { name, bytes })
        },
        Err(error) => Err(unreadable(path, error.as_str())),
    }
}

/// The file to send, given what came of reading it.
pub fn read_upload(path: &str, content: Result<Vec<u8>, String>) -> (upload: Result<
    UploadFile,
    String,
>)
    ensures
        match (upload, content) {
            (Ok(file), Ok(bytes)) => file.bytes == bytes && sent_as(file.name@, path@),
            (Err(message), Err(error)) => message@ == "Unable to read "@ + path@ + ": "@ + error@,
            _ => false,
        },
{
    let file_name: Option<String> = paths::file_name(path);
    upload_named(path, file_name, content)
}

/// Why files cannot be sent, if they cannot: the first that was not read says
/// why.
pub open spec fn first_unread(
    files: Seq<Seq<char>>,
    contents: Seq<Result<Vec<u8>, String>>,
    from: int,
) -> Option<Seq<char>>
    decreases files.len() - from,
{
    if from < 0 || from >= files.len() {
        None
    } else {
        match contents[from] {
            Err(error) => Some("Unable to read "@ + files[from] + ": "@ + error@),
            Ok(_) => first_unread(files, contents, from + 1),
        }
    }
}

/// The files to send, given what came of reading each.
fn read_uploads(files: &Vec<String>, contents: Vec<Result<Vec<u8>, String>>) -> (uploads: Result<
    Vec<UploadFile>,
    String,
>)
    requires
        files@.len() == contents@.len(),
    ensures
        match uploads {
            Ok(list) => {
                &&& first_unread(text::texts(files@), contents@, 0) is None
                &&& list@.len() == files@.len()
                &&& forall|i: int|
                    0 <= i < list@.len() ==> sent_as((#[trigger] list@[i]).name@, files@[i]@)
                        && contents@[i] == Ok::<Vec<u8>, String>(list@[i].bytes)
            },
            Err(message) => first_unread(text::texts(files@), contents@, 0) == Some(message@),
        },
{
    let ghost all = contents@;
    let ghost names = text::texts(files@);
    let mut rest: Vec<Result<Vec<u8>, String>> = contents;
    let mut list: Vec<UploadFile> = Vec::new();
    let mut i: usize = 0;
    while i < files.len()
        invariant
            i <= files@.len(),
            files@.len() == all.len(),
            all == contents@,
            names == text::texts(files@),
            rest@ == all.skip(i as int),
            list@.len() == i,
            first_unread(names, all, 0) == first_unread(names, all, i as int),
            forall|k: int|
                0 <= k < i ==> sent_as((#[trigger] list@[k]).name@, files@[k]@) && all[k] == Ok::<
                    Vec<u8>,
                    String,
                >(list@[k].bytes),
        decreases files@.len() - i,
    {
        let content: Result<Vec<u8>, String> = rest.remove(0);
        assert(rest@ =~= all.skip(i + 1));
        assert(names[i as int] == files@[i as int]@);
        match read_upload(files[i].as_str(), content) {
            Ok(file) => {
                list.push(file);
            },
            Err(message) => {
                return Err(message);
            },
        }
        i = i + 1;
    }
    Ok(list)
}

/// Why an edit cannot be asked for, if it cannot: the first reference image
/// that was not read, or else the mask.
pub open spec fn edit_refusal(
    edit: EditArgs,
    contents: Seq<Result<Vec<u8>, String>>,
    mask: Option<Result<Vec<u8>, String>>,
) -> Option<Seq<char>> {
    match first_unread(text::texts(edit.ref_image@), contents, 0) {
        Some(message) => Some(message),
        None => match mask {
            Some(Err(error)) => Some("Unable to read "@ + edit.mask->0@ + ": "@ + error@),
            _ => None,
        },
    }
}

/// The request for changed images, given what came of reading the reference
/// images and the mask.
pub fn edit_request(
    provider: &str,
    edit: &EditArgs,
    contents: Vec<Result<Vec<u8>, String>>,
    mask: Option<Result<Vec<u8>, String>>,
) -> (request: Result<EditRequest, String>)
    requires
        contents@.len() == edit.ref_image@.len(),
        mask is Some <==> edit.mask is Some,
    ensures
        match request {
            Ok(r) => {
                &&& edit_refusal(*edit, contents@, mask) is None
                &&& r.base.asks(provider@, edit.shared)
                &&& text::opt_text(r.input_fidelity) == text::opt_text(edit.input_fidelity)
                &&& r.refs@.len() == contents@.len()
                &&& forall|i: int|
                    0 <= i < r.refs@.len() ==> sent_as(
                        (#[trigger] r.refs@[i]).name@,
                        edit.ref_image@[i]@,
                    ) && contents@[i] == Ok::<Vec<u8>, String>(r.refs@[i].bytes)
                &&& r.mask is Some <==> edit.mask is Some
                &&& r.mask matches Some(file) ==> sent_as(file.name@, edit.mask->0@) && mask->0
                    == Ok::<Vec<u8>, String>(file.bytes)
                &&& r.selection_hint is None
            },
            Err(message) => edit_refusal(*edit, contents@, mask) == Some(message@),
        },
{
    let refs: Vec<UploadFile> = match read_uploads(&edit.ref_image, contents) {
        Ok(refs) => refs,
        Err(message) => {
            return Err(message);
        },
    };
    let mask: Option<UploadFile> = match (&edit.mask, mask) {
        (Some(path), Some(content)) => match read_upload(path.as_str(), content) {
            Ok(file) => Some(file),
            Err(message) => {
                return Err(message);
            },
        },
        _ => None,
    };
    Ok(
        EditRequest {
            base: generate_request(provider, &edit.shared),
            input_fidelity: copy_opt(&edit.input_fidelity),
            refs,
            mask,
            selection_hint: None,
        },
    )
}

/// The name of a command in replies.
pub open spec fn spec_command_name(edit: bool) -> Seq<char> {
    if edit {
        "images edit"@
    } else {
        "images generate"@
    }
}

/// The name of a command in replies.
pub fn command_name(command: &ImagesCommand) -> (name: &'static str)
    ensures
        name@ == spec_command_name(command is Edit),
{
    match command {
        ImagesCommand::Generate(_) => name_of(false),
        ImagesCommand::Edit(_) => name_of(true),
    }
}

fn name_of(edit: bool) -> (name: &'static str)
    ensures
        name@ == spec_command_name(edit),
{
    if edit {
        "images edit"
    } else {
        "images generate"
    }
}

/// Whether a job in this status will not change any more.
pub open spec fn terminal(status: Seq<char>) -> bool {
    ||| status == "completed"@
    ||| status == "partial_failed"@
    ||| status == "failed"@
    ||| status == "cancelled"@
    ||| status == "canceled"@
}

/// Whether a job has anything to show for itself.
pub open spec fn job_succeeded(job: JsonView) -> bool {
    match job.string_at("status"@) {
        Some(status) => status == "completed"@ || status == "partial_failed"@,
        None => false,
    }
}

/// Whether a job in this status will not change any more.
pub fn is_terminal(status: &str) -> (over: bool)
    ensures
        over == terminal(status@),
{
    same_text(status, "completed") || same_text(status, "partial_failed") || same_text(
        status,
        "failed",
    ) || same_text(status, "cancelled") || same_text(status, "canceled")
}

/// Whether a job has anything to show for itself.
pub fn job_ok(job: &Json) -> (ok: bool)
    ensures
        ok == job_succeeded(job@),
{
    match job.str_at("status") {
        Some(status) => same_text(status, "completed") || same_text(status, "partial_failed"),
        None => false,
    }
}

/// A job that has something to show will not change any more.
pub proof fn succeeded_jobs_are_over(job: JsonView)
    requires
        job_succeeded(job),
    ensures
        terminal(job.string_at("status"@)->0),
{
}

/// What came of sending a command to the daemon.
pub enum Enqueued {
    /// It was not sent, or the answer could not be read.
    Failed(String),
    /// It was answered: whether with success, with which status, and with what.
    Answered { success: bool, status: String, payload: Json },
}

/// Where the way from a command to a reply stands, that is, what is to be done
/// next.
pub enum ImagesPhase {
    /// Make sure that the daemon runs.
    Ensure,
    /// Send the command to the daemon.
    Enqueue(DaemonInfo),
    /// Note where the output of the job is to go, and then give this reply.
    Remember { job_id: String, reply: Json },
    /// Wait until the job is over.
    Wait { info: DaemonInfo, job_id: String },
    /// Copy the outputs of the job.
    Copy { job_id: String, job: Json },
    /// Give this reply.
    Finished(Result<Json, String>),
}

/// What came of what was to be done.
pub enum ImagesEvent {
    Ensured(Result<DaemonInfo, String>),
    Sent(Enqueued),
    Remembered,
    Waited(Result<Json, String>),
    Copied(Result<Json, String>),
}

/// The way of one command from its arguments to its reply.
pub struct ImagesFlow {
    pub edit: bool,
    pub out: String,
    pub no_wait: bool,
    pub phase: ImagesPhase,
}

/// The phases as mathematics.
pub enum PhaseView {
    Ensure,
    Enqueue(DaemonInfo),
    Remember(Seq<char>, JsonView),
    Wait(DaemonInfo, Seq<char>),
    Copy(Seq<char>, JsonView),
    Finished(Result<JsonView, Seq<char>>),
}

/// The events as mathematics.
pub enum EventView {
    Ensured(Result<DaemonInfo, Seq<char>>),
    Unsent(Seq<char>),
    Answered(bool, Seq<char>, JsonView),
    Remembered,
    Waited(Result<JsonView, Seq<char>>),
    Copied(Result<JsonView, Seq<char>>),
}

/// A reply, or why there is none, as mathematics.
pub open spec fn outcome(result: Result<Json, String>) -> Result<JsonView, Seq<char>> {
    match result {
        Ok(payload) => Ok(payload@),
        Err(message) => Err(message@),
    }
}

impl View for ImagesPhase {
    type V = PhaseView;

    open spec fn view(&self) -> PhaseView {
        match *self {
            ImagesPhase::Ensure => PhaseView::Ensure,
            ImagesPhase::Enqueue(info) => PhaseView::Enqueue(info),
            ImagesPhase::Remember { job_id, reply } => PhaseView::Remember(job_id@, reply@),
            ImagesPhase::Wait { info, job_id } => PhaseView::Wait(info, job_id@),
            ImagesPhase::Copy { job_id, job } => PhaseView::Copy(job_id@, job@),
            ImagesPhase::Finished(result) => PhaseView::Finished(outcome(result)),
        }
    }
}

impl View for ImagesEvent {
    type V = EventView;

    open spec fn view(&self) -> EventView {
        match *self {
            ImagesEvent::Ensured(Ok(info)) => EventView::Ensured(Ok(info)),
            ImagesEvent::Ensured(Err(message)) => EventView::Ensured(Err(message@)),
            ImagesEvent::Sent(Enqueued::Failed(message)) => EventView::Unsent(message@),
            ImagesEvent::Sent(Enqueued::Answered { success, status, payload }) =>
                EventView::Answered(success, status@, payload@),
            ImagesEvent::Remembered => EventView::Remembered,
            ImagesEvent::Waited(result) => EventView::Waited(outcome(result)),
            ImagesEvent::Copied(result) => EventView::Copied(outcome(result)),
        }
    }
}

/// The reply where the daemon refused the command: its own error, or else the
/// status.
pub open spec fn refused_reply(status: Seq<char>, payload: JsonView) -> JsonView {
    JsonView::Object(
        map![
            "ok"@ => JsonView::Bool(false),
            "error"@ => match payload.get("error"@) {
                Some(error) => error,
                None => tasks::error_entry("http_error"@, "Daemon returned "@ + status),
            },
        ],
    )
}

/// A ticket for a job.
pub open spec fn ticket_entry(job_id: Seq<char>, out: Seq<char>) -> JsonView {
    JsonView::Object(map!["job_id"@ => JsonView::Str(job_id), "out"@ => JsonView::Str(out)])
}

/// The reply where the job is not waited for: what the daemon said, and the
/// ticket.
pub open spec fn queued_reply(
    payload: JsonView,
    command: Seq<char>,
    job_id: Seq<char>,
    out: Seq<char>,
) -> JsonView {
    JsonView::Object(
        payload->Object_0.insert("ok"@, JsonView::Bool(true)).insert(
            "command"@,
            JsonView::Str(command),
        ).insert("queued"@, JsonView::Bool(true)).insert("job_id"@, JsonView::Str(job_id)).insert(
            "out"@,
            JsonView::Str(out),
        ).insert(
            "status"@,
            match payload.get("status"@) {
                Some(status) => status,
                None => JsonView::Str("queued"@),
            },
        ).insert("ticket"@, ticket_entry(job_id, out)),
    )
}

/// The reply where the job is over and its outputs were copied.
pub open spec fn finished_reply(
    command: Seq<char>,
    job_id: Seq<char>,
    job: JsonView,
    copied: JsonView,
) -> JsonView {
    JsonView::Object(
        map![
            "ok"@ => JsonView::Bool(job_succeeded(job)),
            "command"@ => JsonView::Str(command),
            "provider"@ => job.get_or_null("provider"@),
            "job_id"@ => JsonView::Str(job_id),
            "queued"@ => JsonView::Bool(true),
            "status"@ => job.get_or_null("status"@),
            "output"@ => copied,
            "job"@ => job,
            "error"@ => job.get_or_null("error"@),
        ],
    )
}

/// What follows the daemon's answer to a command.
pub open spec fn after_answer(
    flow: ImagesFlow,
    info: DaemonInfo,
    success: bool,
    status: Seq<char>,
    payload: JsonView,
) -> PhaseView {
    if !success {
        PhaseView::Finished(Ok(refused_reply(status, payload)))
    } else {
        match payload.string_at("job_id"@) {
            None => PhaseView::Finished(
                Err("Daemon enqueue response did not include job_id."@),
            ),
            Some(job_id) => if flow.no_wait {
                PhaseView::Remember(
                    job_id,
                    queued_reply(payload, spec_command_name(flow.edit), job_id, flow.out@),
                )
            } else {
                PhaseView::Wait(info, job_id)
            },
        }
    }
}

impl ImagesFlow {
    /// The next phase. An event that nobody asked for changes nothing.
    pub open spec fn next_phase(self, event: EventView) -> PhaseView {
        match (self.phase@, event) {
            (PhaseView::Ensure, EventView::Ensured(Ok(info))) => PhaseView::Enqueue(info),
            (PhaseView::Ensure, EventView::Ensured(Err(message))) => PhaseView::Finished(
                Err(message),
            ),
            (PhaseView::Enqueue(_), EventView::Unsent(message)) => PhaseView::Finished(
                Err(message),
            ),
            (PhaseView::Enqueue(info), EventView::Answered(success, status, payload)) =>
                after_answer(self, info, success, status, payload),
            (PhaseView::Remember(_, reply), EventView::Remembered) => PhaseView::Finished(
                Ok(reply),
            ),
            (PhaseView::Wait(_, job_id), EventView::Waited(Ok(job))) => PhaseView::Copy(
                job_id,
                job,
            ),
            (PhaseView::Wait(_, _), EventView::Waited(Err(message))) => PhaseView::Finished(
                Err(message),
            ),
            (PhaseView::Copy(job_id, job), EventView::Copied(Ok(copied))) => PhaseView::Finished(
                Ok(finished_reply(spec_command_name(self.edit), job_id, job, copied)),
            ),
            (PhaseView::Copy(_, _), EventView::Copied(Err(message))) => PhaseView::Finished(
                Err(message),
            ),
            (phase, _) => phase,
        }
    }

    /// The way of a command at its start. The job is not waited for if either
    /// the command line or the value of the variable says so.
    pub fn new(command: &ImagesCommand, no_wait: bool, no_wait_env: Option<&str>) -> (flow:
        ImagesFlow)
        ensures
            flow.edit == command is Edit,
            flow.out@ == match *command {
                ImagesCommand::Generate(shared) => shared.out@,
                ImagesCommand::Edit(edit) => edit.shared.out@,
            },
            flow.no_wait == (no_wait || daemon::switched_on(text::opt_str(no_wait_env))),
            flow.phase is Ensure,
    {
        let no_wait: bool = no_wait || daemon::no_wait(no_wait_env);
        match command {
            ImagesCommand::Generate(shared) => ImagesFlow {
                edit: false,
                out: owned(shared.out.as_str()),
                no_wait,
                phase: ImagesPhase::Ensure,
            },
            ImagesCommand::Edit(edit) => ImagesFlow {
                edit: true,
                out: owned(edit.shared.out.as_str()),
                no_wait,
                phase: ImagesPhase::Ensure,
            },
        }
    }

    /// The URL that the command is sent to.
    pub fn enqueue_url(&self, info: &DaemonInfo) -> (target: String)
        ensures
            target@ == daemon::url_of(info.host@, info.port as int) + if self.edit {
                "/api/images/edit"@
            } else {
                "/api/images/generate"@
            },
    {
        if self.edit {
            url(info.host.as_str(), info.port, "/api/images/edit")
        } else {
            url(info.host.as_str(), info.port, "/api/images/generate")
        }
    }

    /// Takes in the daemon's answer to a command.
    fn answered(
        &self,
        info: DaemonInfo,
        success: bool,
        status: &str,
        payload: Json,
    ) -> (phase: ImagesPhase)
        ensures
            phase@ == after_answer(*self, info, success, status@, payload@),
    {
        if !success {
            let error: Json = match payload.get("error") {
                Some(error) => error.copy(),
                None => {
                    let message: String = owned("Daemon returned ").concat(status);
                    error_json("http_error", message.as_str())
                },
            };
            return ImagesPhase::Finished(
                Ok(Json::object().with("ok", Json::Bool(false)).with("error", error)),
            );
        }
        let job_id: String = match payload.str_at("job_id") {
            Some(job_id) => owned(job_id),
            None => {
                return ImagesPhase::Finished(
                    Err(owned("Daemon enqueue response did not include job_id.")),
                );
            },
        };
        if !self.no_wait {
            return ImagesPhase::Wait { info, job_id };
        }
        let status: Json = match payload.get("status") {
            Some(status) => status.copy(),
            None => Json::text("queued"),
        };
        let ticket: Json = Json::object().with("job_id", Json::text(job_id.as_str())).with(
            "out",
            Json::text(self.out.as_str()),
        );
        let reply: Json = payload.with("ok", Json::Bool(true)).with(
            "command",
            Json::text(name_of(self.edit)),
        ).with("queued", Json::Bool(true)).with("job_id", Json::text(job_id.as_str())).with(
            "out",
            Json::text(self.out.as_str()),
        ).with("status", status).with("ticket", ticket);
        ImagesPhase::Remember { job_id, reply }
    }

    /// The reply for a job that is over.
    fn finished(&self, job_id: &str, job: Json, copied: Json) -> (reply: Json)
        ensures
            reply@ == finished_reply(spec_command_name(self.edit), job_id@, job@, copied@),
    {
        let provider: Json = job.copy_at("provider");
        let status: Json = job.copy_at("status");
        let error: Json = job.copy_at("error");
        let ok: bool = job_ok(&job);
        Json::object().with("ok", Json::Bool(ok)).with("command", Json::text(name_of(self.edit))).with(
            "provider",
            provider,
        ).with("job_id", Json::text(job_id)).with("queued", Json::Bool(true)).with(
            "status",
            status,
        ).with("output", copied).with("job", job).with("error", error)
    }

    /// Takes in what came of what was to be done.
    pub fn step(self, event: ImagesEvent) -> (next: ImagesFlow)
        ensures
            next.phase@ == self.next_phase(event@),
            next.edit == self.edit,
            next.out@ == self.out@,
            next.no_wait == self.no_wait,
    {
        let ImagesFlow { edit, out, no_wait, phase } = self;
        let flow: ImagesFlow = ImagesFlow { edit, out, no_wait, phase: ImagesPhase::Ensure };
        let phase: ImagesPhase = match (phase, event) {
            (ImagesPhase::Ensure, ImagesEvent::Ensured(Ok(info))) => ImagesPhase::Enqueue(info),
            (ImagesPhase::Ensure, ImagesEvent::Ensured(Err(message))) => ImagesPhase::Finished(
                Err(message),
            ),
            (ImagesPhase::Enqueue(_), ImagesEvent::Sent(Enqueued::Failed(message))) =>
                ImagesPhase::Finished(Err(message)),
            (
                ImagesPhase::Enqueue(info),
                ImagesEvent::Sent(Enqueued::Answered { success, status, payload }),
            ) => flow.answered(info, success, status.as_str(), payload),
            (ImagesPhase::Remember { job_id, reply }, ImagesEvent::Remembered) =>
                ImagesPhase::Finished(Ok(reply)),
            (ImagesPhase::Wait { info, job_id }, ImagesEvent::Waited(Ok(job))) =>
                ImagesPhase::Copy { job_id, job },
            (ImagesPhase::Wait { info, job_id }, ImagesEvent::Waited(Err(message))) =>
                ImagesPhase::Finished(Err(message)),
            (ImagesPhase::Copy { job_id, job }, ImagesEvent::Copied(Ok(copied))) =>
                ImagesPhase::Finished(Ok(flow.finished(job_id.as_str(), job, copied))),
            (ImagesPhase::Copy { job_id, job }, ImagesEvent::Copied(Err(message))) =>
                ImagesPhase::Finished(Err(message)),
            (phase, _) => phase,
        };
        ImagesFlow { edit: flow.edit, out: flow.out, no_wait: flow.no_wait, phase }
    }
}

/// A ticket is noted exactly where the daemon took the job and nobody waits
/// for it.
pub proof fn tickets_only_without_waiting(flow: ImagesFlow, event: EventView)
    requires
        !(flow.phase@ is Remember),
    ensures
        flow.next_phase(event) is Remember <==> (flow.no_wait && flow.phase@ is Enqueue && (event
            matches EventView::Answered(success, _, payload) && success && payload.string_at(
            "job_id"@,
        ) is Some)),
        flow.next_phase(event) is Wait && !(flow.phase@ is Wait) ==> !flow.no_wait,
{
}

/// A reply that a job is queued names the job, tells its ticket, and is ok.
pub proof fn queued_reply_holds_its_ticket(
    payload: JsonView,
    command: Seq<char>,
    job_id: Seq<char>,
    out: Seq<char>,
)
    ensures
        queued_reply(payload, command, job_id, out).true_at("ok"@),
        queued_reply(payload, command, job_id, out).get("ticket"@) == Some(
            ticket_entry(job_id, out),
        ),
        queued_reply(payload, command, job_id, out).string_at("job_id"@) == Some(job_id),
{
    reveal_strlit("ok");
    reveal_strlit("command");
    reveal_strlit("queued");
    reveal_strlit("job_id");
    reveal_strlit("out");
    reveal_strlit("status");
    reveal_strlit("ticket");
    assert("ok"@.len() == 2 && "command"@.len() == 7 && "queued"@.len() == 6);
    assert("job_id"@.len() == 6 && "out"@.len() == 3 && "status"@.len() == 6);
    assert("ticket"@.len() == 6);
    assert("job_id"@[0] == 'j' && "status"@[0] == 's' && "ticket"@[0] == 't');
}

/// A reply to a refused command is not ok, and a reply about a job that is over
/// is ok exactly if the job has something to show.
pub proof fn replies_are_ok_only_on_success(
    status: Seq<char>,
    payload: JsonView,
    command: Seq<char>,
    job_id: Seq<char>,
    job: JsonView,
    copied: JsonView,
)
    ensures
        !refused_reply(status, payload).true_at("ok"@),
        finished_reply(command, job_id, job, copied).true_at("ok"@) <==> job_succeeded(job),
{
    reveal_strlit("ok");
    reveal_strlit("command");
    reveal_strlit("provider");
    reveal_strlit("job_id");
    reveal_strlit("queued");
    reveal_strlit("status");
    reveal_strlit("output");
    reveal_strlit("job");
    reveal_strlit("error");
    assert("ok"@.len() == 2 && "command"@.len() == 7 && "provider"@.len() == 8);
    assert("job_id"@.len() == 6 && "queued"@.len() == 6 && "status"@.len() == 6);
    assert("output"@.len() == 6 && "job"@.len() == 3 && "error"@.len() == 5);
}

/// Once a reply is there, nothing changes it.
pub proof fn images_outcome_is_final(flow: ImagesFlow, event: EventView)
    requires
        flow.phase@ is Finished,
    ensures
        flow.next_phase(event) == flow.phase@,
{
}

/// The reply to a command that makes images: what the daemon came to, or why
/// it came to nothing. The status is zero only if the reply is ok.
pub fn run_images(result: Result<Json, String>) -> (reply: Reply)
    ensures
        match result {
            Ok(payload) => reply.shows(
                payload@,
                "{\"ok\":false}"@,
                if payload@.true_at("ok"@) {
                    0
                } else {
                    1
                },
            ),
            Err(message) => reply.shows(
                tasks::failure("daemon_request_failed"@, message@),
                ""@,
                1,
            ),
        },
{
    match result {
        Ok(payload) => {
            let code: i32 = if payload.is_true_at("ok") {
                0
            } else {
                1
            };
            Reply::new(&payload, "{\"ok\":false}", code)
        },
        Err(message) => Reply::new(
            &failure_json("daemon_request_failed", message.as_str()),
            "",
            1,
        ),
    }
}

/// The status of a command that was to make images and names none.
pub fn fallback_local() -> (code: i32)
    ensures
        code == 1,
{
    1
}

/// What came of asking the daemon about a job.
pub enum Polled {
    /// It was not asked, or the answer could not be read.
    Failed(String),
    /// It refused, with this status.
    Refused(String),
    /// It answered.
    Answered(Json),
}

/// What follows an answer about a job.
pub enum WaitNext {
    /// The job is over.
    Over(Json),
    /// The job cannot be waited for.
    Failed(String),
    /// The job goes on.
    Pending,
}

/// What is said when a job takes too long.
pub open spec fn late_message(job_id: Seq<char>) -> Seq<char> {
    "Timed out waiting for job "@ + job_id + "."@
}

/// Whether an answer tells of a job that is over.
pub open spec fn over(job: JsonView) -> bool {
    match job.string_at("status"@) {
        Some(status) => terminal(status),
        None => false,
    }
}

/// What follows an answer about a job, as mathematics: the job, or why it is
/// not waited for, or nothing as long as the job goes on and there is time.
pub open spec fn wait_outcome(job_id: Seq<char>, polled: Polled, expired: bool) -> Option<
    Result<JsonView, Seq<char>>,
> {
    match polled {
        Polled::Failed(message) => Some(Err(message@)),
        Polled::Refused(status) => Some(Err("Polling job failed: "@ + status@)),
        Polled::Answered(payload) => match payload@.get("job"@) {
            None => Some(Err("Job payload missing."@)),
            Some(job) => if over(job) {
                Some(Ok(job))
            } else if expired {
                Some(Err(late_message(job_id)))
            } else {
                None
            },
        },
    }
}

/// The events that an answer tells of.
pub open spec fn told_events(polled: Polled) -> Option<Seq<JsonView>> {
    match polled {
        Polled::Answered(payload) => match payload@.get("events"@) {
            Some(entry) => entry.items(),
            None => None,
        },
        _ => None,
    }
}

/// The events that were not seen before, after the first `seen`.
pub open spec fn new_events(polled: Polled, seen: int) -> Seq<JsonView> {
    match told_events(polled) {
        Some(events) => if seen <= events.len() {
            events.skip(seen)
        } else {
            Seq::empty()
        },
        None => Seq::empty(),
    }
}

/// The waiting for one job.
pub struct JobWait {
    pub job_id: String,
    pub seen_events: usize,
}

impl JobWait {
    /// The waiting at its start.
    pub fn new(job_id: &str) -> (wait: JobWait)
        ensures
            wait.job_id@ == job_id@,
            wait.seen_events == 0,
    {
        JobWait { job_id: owned(job_id), seen_events: 0 }
    }

    /// Takes in an answer, and whether the time for waiting has run out: gives
    /// the events that are new in the answer, and what follows.
    pub fn poll(&mut self, polled: Polled, expired: bool) -> (answer: (Vec<Json>, WaitNext))
        ensures
            json::trees(answer.0@) == new_events(polled, old(self).seen_events as int),
            match answer.1 {
                WaitNext::Over(job) => wait_outcome(old(self).job_id@, polled, expired) == Some(
                    Ok::<JsonView, Seq<char>>(job@),
                ),
                WaitNext::Failed(message) => wait_outcome(old(self).job_id@, polled, expired) == Some(
                    Err::<JsonView, Seq<char>>(message@),
                ),
                WaitNext::Pending => wait_outcome(old(self).job_id@, polled, expired) is None,
            },
            final(self).job_id == old(self).job_id,
            final(self).seen_events == match told_events(polled) {
                Some(events) => events.len(),
                None => old(self).seen_events as nat,
            },
    {
        let mut events: Vec<Json> = Vec::new();
        assert(json::trees(events@) =~= Seq::<JsonView>::empty());
        let payload: Json = match polled {
            Polled::Failed(message) => {
                return (events, WaitNext::Failed(message));
            },
            Polled::Refused(status) => {
                let message: String = owned("Polling job failed: ").concat(status.as_str());
                return (events, WaitNext::Failed(message));
            },
            Polled::Answered(payload) => payload,
        };
        if let Some(Json::Array(told)) = payload.get("events") {
            let seen: usize = self.seen_events;
            let mut i: usize = seen;
            while i < told.len()
                invariant
                    seen <= i,
                    seen <= told@.len() ==> i <= told@.len() && events@.len() == i - seen,
                    seen > told@.len() ==> i == seen && events@.len() == 0,
                    forall|k: int|
                        0 <= k < events@.len() ==> (#[trigger] events@[k]).tree() == told@[k
                            + seen].tree(),
                decreases told@.len() - i,
            {
                events.push(told[i].copy());
                i = i + 1;
            }
            proof {
                assert(json::trees(events@) =~= new_events(polled, seen as int));
            }
            self.seen_events = told.len();
        }
        let next: WaitNext = match payload.get("job") {
            None => WaitNext::Failed(owned("Job payload missing.")),
            Some(job) => {
                let over: bool = match job.str_at("status") {
                    Some(status) => is_terminal(status),
                    None => is_terminal(""),
                };
                proof {
                    reveal_strlit("");
                    reveal_strlit("completed");
                    reveal_strlit("partial_failed");
                    reveal_strlit("failed");
                    reveal_strlit("cancelled");
                    reveal_strlit("canceled");
                    assert(""@.len() == 0 && "completed"@.len() == 9);
                    assert("partial_failed"@.len() == 14 && "failed"@.len() == 6);
                    assert("cancelled"@.len() == 9 && "canceled"@.len() == 8);
                }
                if over {
                    WaitNext::Over(job.copy())
                } else if expired {
                    WaitNext::Failed(self.timed_out())
                } else {
                    WaitNext::Pending
                }
            },
        };
        (events, next)
    }

    fn timed_out(&self) -> (message: String)
        ensures
            message@ == late_message(self.job_id@),
    {
        owned("Timed out waiting for job ").concat(self.job_id.as_str()).concat(".")
    }
}

/// As long as the log of a job only grows, two questions in a row show each
/// event once, in order.
pub proof fn each_event_shown_once(first: Polled, second: Polled)
    requires
        told_events(first) is Some,
        told_events(second) is Some,
        told_events(first)->0.is_prefix_of(told_events(second)->0),
    ensures
        new_events(first, 0) + new_events(second, told_events(first)->0.len() as int)
            == told_events(second)->0,
{
    let a = told_events(first)->0;
    let b = told_events(second)->0;
    assert(new_events(first, 0) =~= a);
    assert(a + b.skip(a.len() as int) =~= b);
}

/// A job that is over is never given up for want of time, and only a job that
/// is over ends the waiting well.
pub proof fn waiting_ends_well_only_when_over(
    job_id: Seq<char>,
    polled: Polled,
    expired: bool,
    job: JsonView,
)
    ensures
        wait_outcome(job_id, polled, expired) == Some(Ok::<JsonView, Seq<char>>(job)) <==> (polled
            matches Polled::Answered(payload) && payload@.get("job"@) == Some(job) && over(job)),
{
}

/// The URL that tells about a job.
pub fn job_url(info: &DaemonInfo, job_id: &str) -> (target: String)
    ensures
        target@ == daemon::url_of(info.host@, info.port as int) + "/api/jobs/"@ + job_id@,
{
    let base: String = url(info.host.as_str(), info.port, "/api/jobs/");
    base.concat(job_id)
}

} // verus!
