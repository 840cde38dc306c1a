//! The `jobs` command: which tickets it asks about, and what it tells of their
//! jobs.

use vstd::prelude::*;
use vstd::string::StringExecFns;
use crate::args;
use crate::args::{has_positional, positional_at};
use crate::client;
use crate::client::{is_terminal, job_ok, Polled};
use crate::daemon;
use crate::daemon::{unknown_command_reply, DaemonInfo};
use crate::json;
use crate::json::{Json, JsonView, Reply};
use crate::tasks;
use crate::tasks::error_json;
use crate::text;
use crate::text::{copy_opt, owned, same_text};
use crate::tickets;
use crate::tickets::lookup_ticket_out;

verus! {

/// For how many seconds the answer about a ticket's job is waited for.
pub const STATUS_TIMEOUT_SECS: u64 = 10;

/// A ticket for a job that nobody waited for.
pub struct Ticket {
    pub job_id: String,
    pub out: Option<String>,
    pub name: Option<String>,
}

/// A ticket as mathematics.
pub struct TicketView {
    pub job_id: Seq<char>,
    pub out: Option<Seq<char>>,
    pub name: Option<Seq<char>>,
}

impl View for Ticket {
    type V = TicketView;

    open spec fn view(&self) -> TicketView {
        TicketView {
            job_id: self.job_id@,
            out: text::opt_text(self.out),
            name: text::opt_text(self.name),
        }
    }
}

/// The tickets of a list as mathematics.
pub open spec fn ticket_views(list: Seq<Ticket>) -> Seq<TicketView> {
    list.map_values(|ticket: Ticket| ticket@)
}

/// The text that a ticket has under `key`, which may be missing or null; nothing
/// else can stand there.
pub open spec fn text_or_null(entry: JsonView, key: Seq<char>) -> Option<Option<Seq<char>>> {
    match entry.get(key) {
        None => Some(None),
        Some(JsonView::Null) => Some(None),
        Some(JsonView::Str(value)) => Some(Some(value)),
        Some(_) => None,
    }
}

/// The ticket that an object stands for: it must name its job.
pub open spec fn ticket_in(entry: JsonView) -> Option<TicketView> {
    match (
        entry.string_at("job_id"@),
        text_or_null(entry, "out"@),
        text_or_null(entry, "name"@),
    ) {
        (Some(job_id), Some(out), Some(name)) => Some(TicketView { job_id, out, name }),
        _ => None,
    }
}

fn read_text_or_null(entry: &Json, key: &str) -> (value: Option<Option<String>>)
    ensures
        match value {
            Some(v) => text_or_null(entry@, key@) == Some(text::opt_text(v)),
            None => text_or_null(entry@, key@) is None,
        },
{
    match entry.get(key) {
        None => Some(None),
        Some(Json::Null) => Some(None),
        Some(Json::Str(value)) => Some(Some(owned(value.as_str()))),
        Some(_) => None,
    }
}

impl Ticket {
    /// The ticket that an object stands for, such as the one in the reply about
    /// a queued job.
    pub fn from_json(entry: &Json) -> (ticket: Option<Ticket>)
        ensures
            match ticket {
                Some(t) => ticket_in(entry@) == Some(t@),
                None => ticket_in(entry@) is None,
            },
    {
        match (
            entry.str_at("job_id"),
            read_text_or_null(entry, "out"),
            read_text_or_null(entry, "name"),
        ) {
            (Some(job_id), Some(out), Some(name)) => Some(
                Ticket { job_id: owned(job_id), out, name },
            ),
            _ => None,
        }
    }
}

/// Whether a command line is for the `jobs` command.
pub open spec fn names_jobs(argv: Seq<Seq<char>>) -> bool {
    args::positional_is(argv, 0, "jobs"@)
}

/// Whether a command line is for the `jobs` command.
pub fn is_command(argv: &[String]) -> (found: bool)
    ensures
        found == names_jobs(text::texts(argv@)),
{
    has_positional(argv, 0, "jobs")
}

/// What the `jobs` command is asked to do.
pub enum JobsAction {
    Status,
    Unknown(String),
}

/// The word after `jobs`; without one the status is asked for.
pub open spec fn jobs_word(argv: Seq<Seq<char>>) -> Seq<char> {
    if args::positional(argv).len() > 1 {
        args::positional(argv)[1]
    } else {
        "status"@
    }
}

/// What the `jobs` command is asked to do.
pub fn dispatch(argv: &[String]) -> (action: JobsAction)
    ensures
        match action {
            JobsAction::Status => jobs_word(text::texts(argv@)) == "status"@,
            JobsAction::Unknown(word) => word@ == jobs_word(text::texts(argv@)) && word@
                != "status"@,
        },
{
    let word: &str = match positional_at(argv, 1) {
        Some(word) => word.as_str(),
        None => "status",
    };
    if same_text(word, "status") {
        JobsAction::Status
    } else {
        JobsAction::Unknown(owned(word))
    }
}

/// The reply to a `jobs` command that is not known.
pub fn unknown_action(word: &str) -> (reply: Reply)
    ensures
        reply.shows(
            daemon::unknown_command(
                "Unknown jobs command: "@ + word@,
                "gpt-image-2-skill jobs status [--id JOB]... [--file tickets.json]"@,
            ),
            ""@,
            2,
        ),
{
    let message: String = owned("Unknown jobs command: ").concat(word);
    unknown_command_reply(
        message.as_str(),
        "gpt-image-2-skill jobs status [--id JOB]... [--file tickets.json]",
    )
}

/// What one part of a command line asks about.
pub enum Ask {
    /// A job.
    Id(Seq<char>),
    /// The jobs of the tickets in a file.
    File(Seq<char>),
    /// A job, without saying which.
    NoId,
    /// A file, without saying which.
    NoFile,
}

/// The flags that name a job.
pub open spec fn names_id(arg: Seq<char>) -> bool {
    arg == "--id"@ || arg == "--job-id"@
}

/// The flags that name a file of tickets.
pub open spec fn names_file(arg: Seq<char>) -> bool {
    arg == "--file"@ || arg == "--jobs"@
}

/// What arguments ask about, read from left to right; others are passed over.
pub open spec fn asks(list: Seq<Seq<char>>) -> Seq<Ask>
    decreases list.len(),
{
    if list.len() == 0 {
        Seq::empty()
    } else if names_id(list[0]) {
        if list.len() == 1 {
            seq![Ask::NoId]
        } else {
            seq![Ask::Id(list[1])] + asks(list.skip(2))
        }
    } else if names_file(list[0]) {
        if list.len() == 1 {
            seq![Ask::NoFile]
        } else {
            seq![Ask::File(list[1])] + asks(list.skip(2))
        }
    } else {
        asks(list.skip(1))
    }
}

/// What is wrong with the arguments, if anything is: only the last flag can
/// lack its value.
pub open spec fn ask_refusal(list: Seq<Ask>) -> Option<Seq<char>> {
    if list.len() == 0 {
        None
    } else {
        match list.last() {
            Ask::NoId => Some("--id requires a job id"@),
            Ask::NoFile => Some("--file requires a path"@),
            _ => None,
        }
    }
}

/// A ticket that knows nothing but its job.
pub open spec fn bare(job_id: Seq<char>) -> TicketView {
    TicketView { job_id, out: None, name: None }
}

/// The jobs that are asked about by name, in order.
pub open spec fn named_tickets(list: Seq<Ask>) -> Seq<TicketView>
    decreases list.len(),
{
    if list.len() == 0 {
        Seq::empty()
    } else {
        match list.last() {
            Ask::Id(job_id) => named_tickets(list.drop_last()).push(bare(job_id)),
            _ => named_tickets(list.drop_last()),
        }
    }
}

/// The file of tickets: the last one that is named.
pub open spec fn ticket_file(list: Seq<Ask>) -> Option<Seq<char>>
    decreases list.len(),
{
    if list.len() == 0 {
        None
    } else {
        match list.last() {
            Ask::File(path) => Some(path),
            _ => ticket_file(list.drop_last()),
        }
    }
}

/// The tickets and the file that a command line names, or why it is refused.
pub fn parse_tickets(argv: &[String]) -> (parsed: Result<(Vec<Ticket>, Option<String>), String>)
    ensures
        ({
            let list = asks(args::arguments(text::texts(argv@)));
            match parsed {
                Ok((ids, file)) => {
                    &&& ask_refusal(list) is None
                    &&& ticket_views(ids@) == named_tickets(list)
                    &&& text::opt_text(file) == ticket_file(list)
                },
                Err(message) => ask_refusal(list) == Some(message@),
            }
        }),
{
    let ghost list = args::arguments(text::texts(argv@));
    let ghost mut seen: Seq<Ask> = Seq::empty();
    let mut ids: Vec<Ticket> = Vec::new();
    let mut file: Option<String> = None;
    let mut i: usize = 1;
    proof {
        assert(list.skip(0) =~= list);
        assert(seen + asks(list) =~= asks(list));
        assert(ticket_views(ids@) =~= Seq::empty());
    }
    while i < argv.len()
        invariant
            list == args::arguments(text::texts(argv@)),
            1 <= i,
            argv@.len() > 0 ==> i <= argv@.len() && seen + asks(list.skip(i - 1)) == asks(list),
            argv@.len() == 0 ==> i == 1 && seen + asks(list) == asks(list),
            ask_refusal(seen) is None,
            ticket_views(ids@) == named_tickets(seen),
            text::opt_text(file) == ticket_file(seen),
        decreases argv@.len() - i,
    {
        let ghost rest = list.skip(i - 1);
        let ghost before = seen;
        let arg: &str = argv[i].as_str();
        assert(rest[0] == arg@);
        assert(rest.len() == argv@.len() - i);
        let id: bool = same_text(arg, "--id") || same_text(arg, "--job-id");
        let named: bool = same_text(arg, "--file") || same_text(arg, "--jobs");
        if id || named {
            if argv.len() - i == 1 {
                proof {
                    let last = if id {
                        Ask::NoId
                    } else {
                        Ask::NoFile
                    };
                    assert(asks(list) =~= seen.push(last));
                    assert(seen.push(last).last() == last);
                }
                return Err(
                    if id {
                        owned("--id requires a job id")
                    } else {
                        owned("--file requires a path")
                    },
                );
            }
            let value: &str = argv[i + 1].as_str();
            proof {
                assert(rest[1] == value@);
                assert(rest.skip(2) =~= list.skip(i + 1));
                let ask = if id {
                    Ask::Id(value@)
                } else {
                    Ask::File(value@)
                };
                seen = before.push(ask);
                assert(seen.drop_last() =~= before);
                assert(seen + asks(list.skip(i + 1)) =~= before + (seq![ask] + asks(
                    list.skip(i + 1),
                )));
            }
            if id {
                let ghost tickets = ids@;
                ids.push(Ticket { job_id: owned(value), out: None, name: None });
                assert(ticket_views(ids@) =~= ticket_views(tickets).push(bare(value@)));
            } else {
                file = Some(owned(value));
            }
            i = i + 2;
        } else {
            assert(rest.skip(1) =~= list.skip(i as int));
            i = i + 1;
        }
    }
    proof {
        if argv@.len() > 0 {
            assert(list.skip(i - 1) =~= Seq::empty());
        }
        assert(seen =~= asks(list));
    }
    Ok((ids, file))
}

/// What is queued without waiting can be saved and asked about with nothing
/// lost: the ticket in the reply names the job and the place of its output,
/// which no note overrides, and a file that holds it is asked for by its path.
pub proof fn saved_ticket_loses_nothing(
    payload: JsonView,
    command: Seq<char>,
    job_id: Seq<char>,
    out: Seq<char>,
    noted: Option<Seq<char>>,
    program: Seq<char>,
    path: Seq<char>,
)
    ensures
        ({
            let ticket = TicketView { job_id, out: Some(out), name: None };
            let saved = client::queued_reply(payload, command, job_id, out).get("ticket"@);
            &&& saved is Some
            &&& ticket_in(saved->0) == Some(ticket)
            &&& chosen_out(ticket, noted) == Some(out)
        }),
        ({
            let argv = seq![program, "jobs"@, "status"@, "--file"@, path];
            let list = asks(args::arguments(argv));
            &&& ask_refusal(list) is None
            &&& named_tickets(list) == Seq::<TicketView>::empty()
            &&& ticket_file(list) == Some(path)
        }),
{
    client::queued_reply_holds_its_ticket(payload, command, job_id, out);
    reveal_strlit("job_id");
    reveal_strlit("out");
    reveal_strlit("name");
    assert("job_id"@.len() == 6 && "out"@.len() == 3 && "name"@.len() == 4);
    reveal_strlit("jobs");
    reveal_strlit("status");
    reveal_strlit("--id");
    reveal_strlit("--job-id");
    reveal_strlit("--file");
    reveal_strlit("--jobs");
    assert("jobs"@.len() == 4 && "jobs"@[0] == 'j');
    assert("status"@.len() == 6 && "status"@[0] == 's');
    assert("--id"@.len() == 4 && "--id"@[0] == '-');
    assert("--file"@.len() == 6 && "--file"@[0] == '-' && "--file"@[2] == 'f');
    assert("--jobs"@.len() == 6 && "--jobs"@[0] == '-' && "--jobs"@[2] == 'j');
    assert("--job-id"@.len() == 8);
    let argv = seq![program, "jobs"@, "status"@, "--file"@, path];
    let all = args::arguments(argv);
    assert(all =~= seq!["jobs"@, "status"@, "--file"@, path]);
    assert(all.skip(1) =~= seq!["status"@, "--file"@, path]);
    assert(all.skip(1).skip(1) =~= seq!["--file"@, path]);
    assert(all.skip(1).skip(1).skip(2) =~= Seq::empty());
    let none: Seq<Ask> = Seq::empty();
    assert(asks(all.skip(1).skip(1)) =~= seq![Ask::File(path)]) by {
        assert(asks(all.skip(1).skip(1).skip(2)) =~= none);
    }
    assert(!names_id("status"@) && !names_file("status"@));
    assert(all.skip(1)[0] == "status"@);
    assert(asks(all.skip(1)) == asks(all.skip(1).skip(1)));
    assert(!names_id("jobs"@) && !names_file("jobs"@));
    assert(all[0] == "jobs"@);
    assert(asks(all) == asks(all.skip(1)));
    assert(seq![Ask::File(path)].drop_last() =~= none);
    assert(named_tickets(none) =~= Seq::empty());
}

/// What came of reading a file of tickets.
pub enum TicketFile {
    /// No file is named.
    NotNamed,
    /// The file could not be read.
    Unreadable { path: String, error: String },
    /// The file holds something else.
    Invalid(String),
    /// The file holds these tickets.
    Holds(Vec<Ticket>),
}

/// The tickets to ask about, those of the file last, or why there are none.
pub fn collect_tickets(ids: Vec<Ticket>, file: TicketFile) -> (tickets: Result<
    Vec<Ticket>,
    String,
>)
    ensures
        match (file, tickets) {
            (TicketFile::Unreadable { path, error }, Err(message)) => message@ == "Unable to read "@
                + path@ + ": "@ + error@,
            (TicketFile::Invalid(error), Err(message)) => message@
                == "Ticket file must be a JSON array of {job_id, out}: "@ + error@,
            (TicketFile::NotNamed, Err(message)) => ids@.len() == 0 && message@
                == "jobs status requires --id JOB or --file tickets.json"@,
            (TicketFile::Holds(more), Err(message)) => ids@.len() == 0 && more@.len() == 0
                && message@ == "jobs status requires --id JOB or --file tickets.json"@,
            (TicketFile::NotNamed, Ok(list)) => list@ == ids@ && list@.len() > 0,
            (TicketFile::Holds(more), Ok(list)) => list@ == ids@ + more@ && list@.len() > 0,
            _ => false,
        },
{
    let mut list: Vec<Ticket> = ids;
    match file {
        TicketFile::NotNamed => {},
        TicketFile::Unreadable { path, error } => {
            return Err(crate::fanout::unreadable(path.as_str(), error.as_str()));
        },
        TicketFile::Invalid(error) => {
            return Err(
                owned("Ticket file must be a JSON array of {job_id, out}: ").concat(error.as_str()),
            );
        },
        TicketFile::Holds(more) => {
            let mut more: Vec<Ticket> = more;
            list.append(&mut more);
        },
    }
    if list.len() == 0 {
        return Err(owned("jobs status requires --id JOB or --file tickets.json"));
    }
    Ok(list)
}

/// The status of a job.
pub open spec fn status_of(job: JsonView) -> Seq<char> {
    match job.string_at("status"@) {
        Some(status) => status,
        None => "unknown"@,
    }
}

/// Where the output of a job is to go: where its ticket says, or else where it
/// was noted.
pub open spec fn chosen_out(ticket: TicketView, noted: Option<Seq<char>>) -> Option<Seq<char>> {
    match ticket.out {
        Some(out) => Some(out),
        None => noted,
    }
}

/// Where the outputs of a job are copied now: nowhere unless it is over and
/// has something to show.
pub open spec fn copy_dest(job: JsonView, out: Option<Seq<char>>) -> Option<Seq<char>> {
    if client::terminal(status_of(job)) && client::job_succeeded(job) {
        out
    } else {
        None
    }
}

/// How a ticket is reported whose job could not be looked up.
pub open spec fn lost_task(ticket: TicketView, status: Seq<char>) -> JsonView {
    JsonView::Object(
        map![
            "job_id"@ => JsonView::Str(ticket.job_id),
            "name"@ => json::opt_string(ticket.name),
            "ok"@ => JsonView::Bool(false),
            "status"@ => JsonView::Str("unknown"@),
            "error"@ => tasks::error_entry("job_lookup_failed"@, "HTTP "@ + status),
        ],
    )
}

/// How a ticket is reported whose job was looked up.
pub open spec fn found_task(
    ticket: TicketView,
    job: JsonView,
    out: Option<Seq<char>>,
    copied: JsonView,
) -> JsonView {
    JsonView::Object(
        map![
            "job_id"@ => JsonView::Str(ticket.job_id),
            "name"@ => json::opt_string(ticket.name),
            "out"@ => json::opt_string(out),
            "ok"@ => JsonView::Bool(client::job_succeeded(job)),
            "status"@ => JsonView::Str(status_of(job)),
            "output"@ => copied,
            "error"@ => job.get_or_null("error"@),
            "job"@ => job,
        ],
    )
}

/// A ticket whose job was looked up, before its outputs are copied.
pub struct OpenTask {
    pub job: Json,
    pub out: Option<String>,
}

impl OpenTask {
    /// The job that was looked up, and where its output is to go.
    pub fn new(ticket: &Ticket, payload: &Json, noted: Option<String>) -> (open: OpenTask)
        ensures
            open.job@ == payload@.get_or_null("job"@),
            text::opt_text(open.out) == chosen_out(ticket@, text::opt_text(noted)),
    {
        let out: Option<String> = match &ticket.out {
            Some(out) => Some(owned(out.as_str())),
            None => noted,
        };
        OpenTask { job: payload.copy_at("job"), out }
    }

    /// Where the outputs are to be copied now, if they are.
    pub fn dest(&self) -> (dest: Option<String>)
        ensures
            text::opt_text(dest) == copy_dest(self.job@, text::opt_text(self.out)),
    {
        let status: &str = match self.job.str_at("status") {
            Some(status) => status,
            None => "unknown",
        };
        if is_terminal(status) && job_ok(&self.job) {
            copy_opt(&self.out)
        } else {
            None
        }
    }

    /// The report on the ticket, with what came of copying.
    pub fn task(self, ticket: &Ticket, copied: Json) -> (task: Json)
        ensures
            task@ == found_task(ticket@, self.job@, text::opt_text(self.out), copied@),
    {
        let status: Json = match self.job.str_at("status") {
            Some(status) => Json::text(status),
            None => Json::text("unknown"),
        };
        let ok: bool = job_ok(&self.job);
        let error: Json = self.job.copy_at("error");
        Json::object().with("job_id", Json::text(ticket.job_id.as_str())).with(
            "name",
            Json::opt_text(&ticket.name),
        ).with("out", Json::opt_text(&self.out)).with("ok", Json::Bool(ok)).with(
            "status",
            status,
        ).with("output", copied).with("error", error).with("job", self.job)
    }
}

/// The report on a ticket whose job could not be looked up.
pub fn lookup_failed(ticket: &Ticket, status: &str) -> (task: Json)
    ensures
        task@ == lost_task(ticket@, status@),
{
    let message: String = owned("HTTP ").concat(status);
    Json::object().with("job_id", Json::text(ticket.job_id.as_str())).with(
        "name",
        Json::opt_text(&ticket.name),
    ).with("ok", Json::Bool(false)).with("status", Json::text("unknown")).with(
        "error",
        error_json("job_lookup_failed", message.as_str()),
    )
}

/// What became of the job of a ticket.
#[derive(Clone, Copy, PartialEq, Eq, Structural)]
pub enum Outcome {
    Pending,
    Completed,
    Failed,
}

/// Whether a report says that the job could not be looked up.
pub open spec fn was_lost(task: JsonView) -> bool {
    match task.get("error"@) {
        Some(error) => error.string_at("code"@) == Some("job_lookup_failed"@),
        None => false,
    }
}

/// What a report tells of its job.
pub open spec fn outcome_of(task: JsonView) -> Outcome {
    if was_lost(task) {
        Outcome::Failed
    } else if !client::terminal(status_of(task)) {
        Outcome::Pending
    } else if task.true_at("ok"@) {
        Outcome::Completed
    } else {
        Outcome::Failed
    }
}

/// What a report tells of its job.
pub fn classify(task: &Json) -> (outcome: Outcome)
    ensures
        outcome == outcome_of(task@),
{
    let lost: bool = match task.get("error") {
        Some(error) => match error.str_at("code") {
            Some(code) => same_text(code, "job_lookup_failed"),
            None => false,
        },
        None => false,
    };
    let status: &str = match task.str_at("status") {
        Some(status) => status,
        None => "unknown",
    };
    if lost {
        Outcome::Failed
    } else if !is_terminal(status) {
        Outcome::Pending
    } else if task.is_true_at("ok") {
        Outcome::Completed
    } else {
        Outcome::Failed
    }
}

/// How many reports tell of an outcome.
pub open spec fn tally(tasks: Seq<JsonView>, outcome: Outcome) -> nat
    decreases tasks.len(),
{
    if tasks.len() == 0 {
        0
    } else {
        tally(tasks.drop_last(), outcome) + if outcome_of(tasks.last()) == outcome {
            1nat
        } else {
            0
        }
    }
}

/// The report on all tickets.
pub open spec fn summary(tasks: Seq<JsonView>) -> JsonView {
    JsonView::Object(
        map![
            "ok"@ => JsonView::Bool(true),
            "command"@ => JsonView::Str("jobs status"@),
            "pending"@ => json::count(tally(tasks, Outcome::Pending) as int),
            "completed"@ => json::count(tally(tasks, Outcome::Completed) as int),
            "failed"@ => json::count(tally(tasks, Outcome::Failed) as int),
            "done"@ => JsonView::Bool(tally(tasks, Outcome::Pending) == 0),
            "all_ok"@ => JsonView::Bool(
                tally(tasks, Outcome::Pending) == 0 && tally(tasks, Outcome::Failed) == 0,
            ),
            "tasks"@ => JsonView::Array(tasks),
        ],
    )
}

/// Every ticket is counted once.
pub proof fn tallies_add_up(tasks: Seq<JsonView>)
    ensures
        tally(tasks, Outcome::Pending) + tally(tasks, Outcome::Completed) + tally(
            tasks,
            Outcome::Failed,
        ) == tasks.len(),
    decreases tasks.len(),
{
    if tasks.len() > 0 {
        tallies_add_up(tasks.drop_last());
    }
}

/// A tally is zero exactly if no report tells of the outcome.
pub proof fn tally_is_zero_without(tasks: Seq<JsonView>, outcome: Outcome)
    ensures
        tally(tasks, outcome) == 0 <==> forall|i: int|
            0 <= i < tasks.len() ==> outcome_of(#[trigger] tasks[i]) != outcome,
    decreases tasks.len(),
{
    if tasks.len() > 0 {
        let init = tasks.drop_last();
        tally_is_zero_without(init, outcome);
        if tally(tasks, outcome) == 0 {
            assert forall|i: int| 0 <= i < tasks.len() implies outcome_of(#[trigger] tasks[i])
                != outcome by {
                if i < init.len() {
                    assert(init[i] == tasks[i]);
                }
            }
        } else if forall|i: int| 0 <= i < tasks.len() ==> outcome_of(#[trigger] tasks[i]) != outcome {
            assert forall|i: int| 0 <= i < init.len() implies outcome_of(#[trigger] init[i])
                != outcome by {
                assert(init[i] == tasks[i]);
            }
            assert(outcome_of(tasks[tasks.len() - 1]) != outcome);
        }
    }
}

/// The batch is done exactly if no job is pending, and all is well exactly if
/// every job is complete.
pub proof fn summary_tells_when_done(tasks: Seq<JsonView>)
    ensures
        summary(tasks).true_at("done"@) <==> forall|i: int|
            0 <= i < tasks.len() ==> !(outcome_of(#[trigger] tasks[i]) is Pending),
        summary(tasks).true_at("all_ok"@) <==> forall|i: int|
            0 <= i < tasks.len() ==> outcome_of(#[trigger] tasks[i]) is Completed,
{
    reveal_strlit("ok");
    reveal_strlit("command");
    reveal_strlit("pending");
    reveal_strlit("completed");
    reveal_strlit("failed");
    reveal_strlit("done");
    reveal_strlit("all_ok");
    reveal_strlit("tasks");
    assert("done"@.len() == 4 && "all_ok"@.len() == 6 && "tasks"@.len() == 5);
    assert("all_ok"@[0] == 'a' && "failed"@[0] == 'f');
    tally_is_zero_without(tasks, Outcome::Pending);
    tally_is_zero_without(tasks, Outcome::Failed);
}

/// What was noted when nobody waited for a job is where its output goes when
/// the job is asked about by name alone.
pub proof fn remembered_out_is_used(
    after: Seq<char>,
    before: Option<Seq<char>>,
    job_id: Seq<char>,
    out: Seq<char>,
)
    requires
        tickets::tells_one_more(after, before, job_id, out),
    ensures
        chosen_out(bare(job_id), tickets::noted_out(tickets::store_in(Some(after)), job_id))
            == Some(out),
{
}

/// The report on all tickets.
pub fn summarize(tasks: Vec<Json>) -> (payload: Json)
    ensures
        payload@ == summary(json::trees(tasks@)),
{
    let ghost trees = json::trees(tasks@);
    let mut pending: usize = 0;
    let mut completed: usize = 0;
    let mut failed: usize = 0;
    let mut i: usize = 0;
    while i < tasks.len()
        invariant
            i <= tasks@.len(),
            trees == json::trees(tasks@),
            pending == tally(trees.take(i as int), Outcome::Pending),
            completed == tally(trees.take(i as int), Outcome::Completed),
            failed == tally(trees.take(i as int), Outcome::Failed),
        decreases tasks@.len() - i,
    {
        proof {
            tallies_add_up(trees.take(i as int));
            assert(trees.take(i + 1).drop_last() =~= trees.take(i as int));
            assert(trees.take(i + 1).last() == tasks@[i as int]@);
        }
        match classify(&tasks[i]) {
            Outcome::Pending => {
                pending = pending + 1;
            },
            Outcome::Completed => {
                completed = completed + 1;
            },
            Outcome::Failed => {
                failed = failed + 1;
            },
        }
        i = i + 1;
    }
    assert(trees.take(i as int) =~= trees);
    Json::object().with("ok", Json::Bool(true)).with("command", Json::text("jobs status")).with(
        "pending",
        Json::unsigned(pending as u64),
    ).with("completed", Json::unsigned(completed as u64)).with(
        "failed",
        Json::unsigned(failed as u64),
    ).with("done", Json::Bool(pending == 0)).with(
        "all_ok",
        Json::Bool(pending == 0 && failed == 0),
    ).with("tasks", Json::Array(tasks))
}

/// Where the asking about tickets stands.
pub enum StatusPhase {
    /// The daemon is to be brought up.
    Ensure,
    /// The daemon is to be asked about the next ticket.
    Poll(DaemonInfo),
    /// The outputs of the next ticket's job are to be copied.
    Copy { info: DaemonInfo, open: OpenTask },
    /// The asking is over.
    Finished(Result<Json, String>),
}

/// What is to be done next.
pub enum StatusAction {
    /// Make sure that the daemon runs.
    Ensure,
    /// Ask for this URL.
    Poll(String),
    /// Copy the outputs of the job to the place.
    Copy { job: Json, dest: String },
    /// Give the reply.
    Finish,
}

/// What came of what was to be done.
pub enum StatusEvent {
    Ensured(Result<DaemonInfo, String>),
    /// The answer about a job, with the content of the store of tickets.
    Polled { answer: Polled, store: Option<String> },
    Copied(Result<Json, String>),
}

/// The phases as mathematics.
pub enum StatusPhaseView {
    Ensure,
    Poll(DaemonInfo),
    Copy(DaemonInfo, JsonView, Option<Seq<char>>),
    Finished(Result<JsonView, Seq<char>>),
}

/// The asking about tickets as mathematics: the tickets, the reports so far,
/// which are on the first tickets, and the phase.
pub struct StatusView {
    pub tickets: Seq<TicketView>,
    pub tasks: Seq<JsonView>,
    pub phase: StatusPhaseView,
}

/// Whether an event is what a phase waits for.
pub open spec fn awaited(phase: StatusPhaseView, event: StatusEvent) -> bool {
    match phase {
        StatusPhaseView::Ensure => event is Ensured,
        StatusPhaseView::Poll(_) => event is Polled,
        StatusPhaseView::Copy(_, _, _) => event is Copied,
        StatusPhaseView::Finished(_) => false,
    }
}

impl StatusView {
    /// The ticket that is asked about.
    pub open spec fn current(self) -> TicketView {
        self.tickets[self.tasks.len() as int]
    }

    /// Whether the reports are on the first tickets, one each in order, and
    /// the phase fits them.
    pub open spec fn wf(self) -> bool {
        &&& self.tasks.len() <= self.tickets.len()
        &&& forall|k: int|
            0 <= k < self.tasks.len() ==> (#[trigger] self.tasks[k]).string_at("job_id"@) == Some(
                self.tickets[k].job_id,
            )
        &&& match self.phase {
            StatusPhaseView::Ensure => self.tickets.len() > 0 && self.tasks.len() == 0,
            StatusPhaseView::Poll(_) => self.tasks.len() < self.tickets.len(),
            StatusPhaseView::Copy(_, job, out) => self.tasks.len() < self.tickets.len()
                && copy_dest(job, out) is Some,
            StatusPhaseView::Finished(Ok(payload)) => self.tasks.len() == self.tickets.len()
                && payload == summary(self.tasks),
            StatusPhaseView::Finished(Err(_)) => true,
        }
    }

    /// The same with another phase.
    pub open spec fn at(self, phase: StatusPhaseView) -> StatusView {
        StatusView { phase, ..self }
    }

    /// One more report: on to the next ticket, or to the end.
    pub open spec fn told(self, info: DaemonInfo, task: JsonView) -> StatusView {
        let tasks = self.tasks.push(task);
        StatusView {
            tickets: self.tickets,
            tasks,
            phase: if tasks.len() < self.tickets.len() {
                StatusPhaseView::Poll(info)
            } else {
                StatusPhaseView::Finished(Ok(summary(tasks)))
            },
        }
    }

    /// What follows the daemon's answer about the current ticket.
    pub open spec fn answered(
        self,
        info: DaemonInfo,
        payload: JsonView,
        store: Option<Seq<char>>,
    ) -> StatusView {
        let ticket = self.current();
        let job = payload.get_or_null("job"@);
        let out = chosen_out(
            ticket,
            tickets::noted_out(tickets::store_in(store), ticket.job_id),
        );
        match copy_dest(job, out) {
            Some(_) => self.at(StatusPhaseView::Copy(info, job, out)),
            None => self.told(info, found_task(ticket, job, out, JsonView::Null)),
        }
    }

    /// What follows an event. One that nobody waits for changes nothing.
    pub open spec fn next(self, event: StatusEvent) -> StatusView {
        match (self.phase, event) {
            (StatusPhaseView::Ensure, StatusEvent::Ensured(Ok(info))) => self.at(
                StatusPhaseView::Poll(info),
            ),
            (StatusPhaseView::Ensure, StatusEvent::Ensured(Err(message))) => self.at(
                StatusPhaseView::Finished(Err(message@)),
            ),
            (StatusPhaseView::Poll(info), StatusEvent::Polled { answer, store }) => match answer {
                Polled::Failed(message) => self.at(StatusPhaseView::Finished(Err(message@))),
                Polled::Refused(status) => self.told(info, lost_task(self.current(), status@)),
                Polled::Answered(payload) => self.answered(
                    info,
                    payload@,
                    text::opt_text(store),
                ),
            },
            (StatusPhaseView::Copy(info, job, out), StatusEvent::Copied(Ok(copied))) => self.told(
                info,
                found_task(self.current(), job, out, copied@),
            ),
            (StatusPhaseView::Copy(_, _, _), StatusEvent::Copied(Err(message))) => self.at(
                StatusPhaseView::Finished(Err(message@)),
            ),
            _ => self,
        }
    }

    /// How many events are awaited yet, at most.
    pub open spec fn steps_left(self) -> int {
        let left = self.tickets.len() - self.tasks.len();
        match self.phase {
            StatusPhaseView::Ensure => 2 * left + 1,
            StatusPhaseView::Poll(_) => 2 * left,
            StatusPhaseView::Copy(_, _, _) => 2 * left - 1,
            StatusPhaseView::Finished(_) => 0,
        }
    }
}

impl View for StatusPhase {
    type V = StatusPhaseView;

    open spec fn view(&self) -> StatusPhaseView {
        match *self {
            StatusPhase::Ensure => StatusPhaseView::Ensure,
            StatusPhase::Poll(info) => StatusPhaseView::Poll(info),
            StatusPhase::Copy { info, open } => StatusPhaseView::Copy(
                info,
                open.job@,
                text::opt_text(open.out),
            ),
            StatusPhase::Finished(result) => StatusPhaseView::Finished(client::outcome(result)),
        }
    }
}

/// The asking about tickets, one after the other.
pub struct StatusFlow {
    tickets: Vec<Ticket>,
    tasks: Vec<Json>,
    phase: StatusPhase,
}

impl View for StatusFlow {
    type V = StatusView;

    closed spec fn view(&self) -> StatusView {
        StatusView {
            tickets: ticket_views(self.tickets@),
            tasks: json::trees(self.tasks@),
            phase: self.phase@,
        }
    }
}

/// A report names the job of its ticket.
proof fn lemma_task_names_job(
    ticket: TicketView,
    status: Seq<char>,
    job: JsonView,
    out: Option<Seq<char>>,
    copied: JsonView,
)
    ensures
        lost_task(ticket, status).string_at("job_id"@) == Some(ticket.job_id),
        found_task(ticket, job, out, copied).string_at("job_id"@) == Some(ticket.job_id),
{
    reveal_strlit("job_id");
    reveal_strlit("name");
    reveal_strlit("out");
    reveal_strlit("ok");
    reveal_strlit("status");
    reveal_strlit("output");
    reveal_strlit("error");
    reveal_strlit("job");
    assert("job_id"@.len() == 6 && "name"@.len() == 4 && "out"@.len() == 3 && "ok"@.len() == 2);
    assert("error"@.len() == 5 && "job"@.len() == 3);
    assert("job_id"@[0] == 'j' && "status"@[0] == 's' && "output"@[0] == 'o');
}

/// Whatever comes, the reports stay on the first tickets, one each in order,
/// none is changed, and every event that is waited for brings the end nearer.
pub proof fn tickets_are_answered_in_order(view: StatusView, event: StatusEvent)
    requires
        view.wf(),
    ensures
        view.next(event).wf(),
        view.next(event).tickets == view.tickets,
        view.tasks.is_prefix_of(view.next(event).tasks),
        view.next(event).tasks.len() <= view.tasks.len() + 1,
        awaited(view.phase, event) ==> 0 <= view.next(event).steps_left() < view.steps_left(),
        !awaited(view.phase, event) ==> view.next(event) == view,
{
    let ticket = view.current();
    match (view.phase, event) {
        (StatusPhaseView::Poll(_), StatusEvent::Polled { answer, store }) => match answer {
            Polled::Refused(status) => {
                lemma_task_names_job(ticket, status@, JsonView::Null, None, JsonView::Null);
            },
            Polled::Answered(payload) => {
                lemma_task_names_job(
                    ticket,
                    Seq::empty(),
                    payload@.get_or_null("job"@),
                    chosen_out(
                        ticket,
                        tickets::noted_out(
                            tickets::store_in(text::opt_text(store)),
                            ticket.job_id,
                        ),
                    ),
                    JsonView::Null,
                );
            },
            _ => {},
        },
        (StatusPhaseView::Copy(_, job, out), StatusEvent::Copied(Ok(copied))) => {
            lemma_task_names_job(ticket, Seq::empty(), job, out, copied@);
        },
        _ => {},
    }
}

/// A job that was queued without waiting, and that has something to show when
/// it is asked about by name alone, is copied to where its ticket said.
pub proof fn queued_job_reaches_its_out(
    view: StatusView,
    info: DaemonInfo,
    payload: JsonView,
    after: Seq<char>,
    before: Option<Seq<char>>,
    job_id: Seq<char>,
    out: Seq<char>,
)
    requires
        view.current() == bare(job_id),
        tickets::tells_one_more(after, before, job_id, out),
        client::job_succeeded(payload.get_or_null("job"@)),
    ensures
        view.answered(info, payload, Some(after)).phase == StatusPhaseView::Copy(
            info,
            payload.get_or_null("job"@),
            Some(out),
        ),
        copy_dest(payload.get_or_null("job"@), Some(out)) == Some(out),
{
}

impl StatusFlow {
    /// The asking about tickets at its start.
    pub fn new(tickets: Vec<Ticket>) -> (flow: StatusFlow)
        requires
            tickets@.len() > 0,
        ensures
            flow@ == (StatusView {
                tickets: ticket_views(tickets@),
                tasks: Seq::empty(),
                phase: StatusPhaseView::Ensure,
            }),
            flow@.wf(),
            flow@.steps_left() == 2 * tickets@.len() + 1,
    {
        let flow: StatusFlow = StatusFlow {
            tickets,
            tasks: Vec::new(),
            phase: StatusPhase::Ensure,
        };
        assert(json::trees(flow.tasks@) =~= Seq::empty());
        flow
    }

    /// What is to be done next.
    pub fn action(&self) -> (action: StatusAction)
        requires
            self@.wf(),
        ensures
            match (self@.phase, action) {
                (StatusPhaseView::Ensure, StatusAction::Ensure) => true,
                (StatusPhaseView::Poll(info), StatusAction::Poll(url)) => url@ == daemon::url_of(
                    info.host@,
                    info.port as int,
                ) + "/api/jobs/"@ + self@.current().job_id,
                (StatusPhaseView::Copy(_, looked_up, out), StatusAction::Copy { job, dest }) => job@
                    == looked_up && Some(dest@) == copy_dest(looked_up, out),
                (StatusPhaseView::Finished(_), StatusAction::Finish) => true,
                _ => false,
            },
    {
        match &self.phase {
            StatusPhase::Ensure => StatusAction::Ensure,
            StatusPhase::Poll(info) => {
                let ticket: &Ticket = &self.tickets[self.tasks.len()];
                StatusAction::Poll(client::job_url(info, ticket.job_id.as_str()))
            },
            StatusPhase::Copy { info: _, open } => match open.dest() {
                Some(dest) => StatusAction::Copy { job: open.job.copy(), dest },
                None => StatusAction::Finish,
            },
            StatusPhase::Finished(_) => StatusAction::Finish,
        }
    }

    /// Takes in a report on the current ticket.
    fn told(self, info: DaemonInfo, task: Json) -> (next: StatusFlow)
        requires
            self@.tasks.len() < self@.tickets.len(),
        ensures
            next@ == self@.told(info, task@),
    {
        let mut tasks: Vec<Json> = self.tasks;
        let ghost before = tasks@;
        tasks.push(task);
        assert(json::trees(tasks@) =~= json::trees(before).push(task@));
        if tasks.len() < self.tickets.len() {
            StatusFlow { tickets: self.tickets, tasks, phase: StatusPhase::Poll(info) }
        } else {
            let mut copies: Vec<Json> = Vec::new();
            let mut i: usize = 0;
            while i < tasks.len()
                invariant
                    i <= tasks@.len(),
                    copies@.len() == i,
                    forall|k: int| 0 <= k < i ==> (#[trigger] copies@[k]).tree() == tasks@[k].tree(),
                decreases tasks@.len() - i,
            {
                copies.push(tasks[i].copy());
                i = i + 1;
            }
            assert(json::trees(copies@) =~= json::trees(tasks@));
            let payload: Json = summarize(copies);
            StatusFlow { tickets: self.tickets, tasks, phase: StatusPhase::Finished(Ok(payload)) }
        }
    }

    /// Takes in the daemon's answer about the current ticket.
    fn polled(self, info: DaemonInfo, answer: Polled, store: Option<String>) -> (next: StatusFlow)
        requires
            self@.tasks.len() < self@.tickets.len(),
        ensures
            next@ == self@.at(StatusPhaseView::Poll(info)).next(
                StatusEvent::Polled { answer, store },
            ),
    {
        let StatusFlow { tickets, tasks, phase } = self;
        let ticket: &Ticket = &tickets[tasks.len()];
        match answer {
            Polled::Failed(message) => StatusFlow {
                tickets,
                tasks,
                phase: StatusPhase::Finished(Err(message)),
            },
            Polled::Refused(status) => {
                let task: Json = lookup_failed(ticket, status.as_str());
                StatusFlow { tickets, tasks, phase }.told(info, task)
            },
            Polled::Answered(payload) => {
                let file: Option<&str> = match &store {
                    Some(content) => Some(content.as_str()),
                    None => None,
                };
                let noted: Option<String> = lookup_ticket_out(file, ticket.job_id.as_str());
                let open: OpenTask = OpenTask::new(ticket, &payload, noted);
                match open.dest() {
                    Some(_) => StatusFlow {
                        tickets,
                        tasks,
                        phase: StatusPhase::Copy { info, open },
                    },
                    None => {
                        let task: Json = open.task(ticket, Json::Null);
                        StatusFlow { tickets, tasks, phase }.told(info, task)
                    },
                }
            },
        }
    }

    /// Takes in what came of what was to be done.
    pub fn step(self, event: StatusEvent) -> (next: StatusFlow)
        requires
            self@.wf(),
        ensures
            next@ == self@.next(event),
            next@.wf(),
            next@.tickets == self@.tickets,
    {
        proof {
            tickets_are_answered_in_order(self@, event);
        }
        let StatusFlow { tickets, tasks, phase } = self;
        match (phase, event) {
            (StatusPhase::Ensure, StatusEvent::Ensured(Ok(info))) => StatusFlow {
                tickets,
                tasks,
                phase: StatusPhase::Poll(info),
            },
            (StatusPhase::Ensure, StatusEvent::Ensured(Err(message))) => StatusFlow {
                tickets,
                tasks,
                phase: StatusPhase::Finished(Err(message)),
            },
            (StatusPhase::Poll(info), StatusEvent::Polled { answer, store }) => {
                let flow: StatusFlow = StatusFlow { tickets, tasks, phase: StatusPhase::Ensure };
                flow.polled(info, answer, store)
            },
            (StatusPhase::Copy { info, open }, StatusEvent::Copied(Ok(copied))) => {
                let task: Json = open.task(&tickets[tasks.len()], copied);
                let flow: StatusFlow = StatusFlow { tickets, tasks, phase: StatusPhase::Ensure };
                flow.told(info, task)
            },
            (StatusPhase::Copy { info, open }, StatusEvent::Copied(Err(message))) => StatusFlow {
                tickets,
                tasks,
                phase: StatusPhase::Finished(Err(message)),
            },
            (phase, _) => StatusFlow { tickets, tasks, phase },
        }
    }

    /// What the asking came to; nothing as long as it is not over.
    pub fn result(self) -> (result: Option<Result<Json, String>>)
        ensures
            match (self@.phase, result) {
                (StatusPhaseView::Finished(outcome), Some(r)) => client::outcome(r) == outcome,
                (StatusPhaseView::Finished(_), None) => false,
                (_, Some(_)) => false,
                (_, None) => true,
            },
    {
        match self.phase {
            StatusPhase::Finished(result) => Some(result),
            _ => None,
        }
    }
}

/// What `jobs status` says when it fails.
pub open spec fn status_failure(message: Seq<char>) -> JsonView {
    JsonView::Object(
        map![
            "ok"@ => JsonView::Bool(false),
            "command"@ => JsonView::Str("jobs status"@),
            "error"@ => tasks::error_entry("jobs_status_failed"@, message),
        ],
    )
}

/// The reply of `jobs status`: status zero whatever became of the jobs.
pub fn print_status(result: Result<Json, String>) -> (reply: Reply)
    ensures
        match result {
            Ok(payload) => reply.shows(payload@, "{\"ok\":false}"@, 0),
            Err(message) => reply.shows(status_failure(message@), ""@, 1),
        },
{
    match result {
        Ok(payload) => Reply::new(&payload, "{\"ok\":false}", 0),
        Err(message) => {
            let payload: Json = Json::object().with("ok", Json::Bool(false)).with(
                "command",
                Json::text("jobs status"),
            ).with("error", error_json("jobs_status_failed", message.as_str()));
            Reply::new(&payload, "", 1)
        },
    }
}

} // verus!
