//! The shared daemon: where it listens, how it is brought up, and what the
//! `daemon` command replies.

use vstd::prelude::*;
use vstd::string::StringExecFns;
use crate::args;
use crate::args::positional_at;
use crate::json;
use crate::json::{Json, JsonView, Reply};
use crate::paths;
use crate::tasks;
use crate::tasks::failure_json;
use crate::text;
use crate::text::{decimal_text, lowered_is, owned, parse_decimal, same_text, trim};

verus! {

/// The variable that switches the daemon off.
pub const SKIP_DAEMON_ENV: &'static str = "GPT_IMAGE_2_SKIP_DAEMON";

/// The variable with the host of the daemon.
pub const DAEMON_HOST_ENV: &'static str = "GPT_IMAGE_2_DAEMON_HOST";

/// The variable with the port of the daemon.
pub const DAEMON_PORT_ENV: &'static str = "GPT_IMAGE_2_DAEMON_PORT";

/// The variable that keeps clients from waiting for their jobs.
pub const DAEMON_NO_WAIT_ENV: &'static str = "GPT_IMAGE_2_DAEMON_NO_WAIT";

/// The port of the daemon unless a variable says otherwise.
pub const DEFAULT_PORT: u16 = 8787;

/// For how many seconds a daemon that was launched is waited for.
pub const STARTUP_TIMEOUT_SECS: u64 = 8;

/// How many milliseconds pass between two probes of a daemon that was launched.
pub const STARTUP_PAUSE_MILLIS: u64 = 150;

/// For how many seconds the answer to a probe is waited for.
pub const PROBE_TIMEOUT_SECS: u64 = 2;

/// How Windows is to start the daemon so that it outlives its client: in a
/// process group of its own, without a console.
pub const DETACHED_FLAGS: u32 = 0x0000_0208;

/// The same, and outside the job object that its client may be in.
pub const BREAKAWAY_FLAGS: u32 = 0x0100_0208;

/// A daemon: its process and where it listens.
pub struct DaemonInfo {
    pub pid: u32,
    pub host: String,
    pub port: u16,
    pub version: String,
}

/// Whether a variable is set to a word for yes, in any case of its letters.
pub open spec fn switched_on(value: Option<Seq<char>>) -> bool {
    match value {
        Some(word) => {
            let small = text::lowered(word);
            small == "1"@ || small == "true"@ || small == "yes"@ || small == "on"@
        },
        None => false,
    }
}

/// The host that a variable names; the local one where it names none.
pub open spec fn host_of(value: Option<Seq<char>>) -> Seq<char> {
    match value {
        Some(host) => if text::trimmed(host).len() > 0 {
            text::trimmed(host)
        } else {
            "127.0.0.1"@
        },
        None => "127.0.0.1"@,
    }
}

/// The port that a variable names; the usual one where it names none.
pub open spec fn port_of(value: Option<Seq<char>>) -> int {
    match value {
        Some(port) => match text::bounded_value(port, u16::MAX as int) {
            Some(n) => n,
            None => DEFAULT_PORT as int,
        },
        None => DEFAULT_PORT as int,
    }
}

/// A host with a port.
pub open spec fn host_and_port(host: Seq<char>, port: int) -> Seq<char> {
    host + ":"@ + text::decimal(port as nat)
}

/// The URL of what listens at a host and port.
pub open spec fn url_of(host: Seq<char>, port: int) -> Seq<char> {
    "http://"@ + host_and_port(host, port)
}

fn is_switched_on(value: Option<&str>) -> (on: bool)
    ensures
        on == switched_on(text::opt_str(value)),
{
    match value {
        Some(word) => lowered_is(word, "1") || lowered_is(word, "true") || lowered_is(word, "yes")
            || lowered_is(word, "on"),
        None => false,
    }
}

/// Whether the daemon is to be left alone, by the value of `SKIP_DAEMON_ENV`.
pub fn skip_daemon(value: Option<&str>) -> (skip: bool)
    ensures
        skip == switched_on(text::opt_str(value)),
{
    is_switched_on(value)
}

/// Whether jobs are not to be waited for, by the value of `DAEMON_NO_WAIT_ENV`.
pub fn no_wait(value: Option<&str>) -> (no_wait: bool)
    ensures
        no_wait == switched_on(text::opt_str(value)),
{
    is_switched_on(value)
}

/// The host of the daemon, by the value of `DAEMON_HOST_ENV`.
pub fn daemon_host(value: Option<&str>) -> (host: String)
    ensures
        host@ == host_of(text::opt_str(value)),
{
    match value {
        Some(host) => {
            let host: &str = trim(host);
            if host.is_empty() {
                owned("127.0.0.1")
            } else {
                owned(host)
            }
        },
        None => owned("127.0.0.1"),
    }
}

/// The port of the daemon, by the value of `DAEMON_PORT_ENV`.
pub fn daemon_port(value: Option<&str>) -> (port: u16)
    ensures
        port == port_of(text::opt_str(value)),
{
    match value {
        Some(port) => match parse_decimal(port, u16::MAX as u64) {
            Some(n) => n as u16,
            None => DEFAULT_PORT,
        },
        None => DEFAULT_PORT,
    }
}

/// A host with a port, as a `Host` header has it.
pub fn host_header(host: &str, port: u16) -> (header: String)
    ensures
        header@ == host_and_port(host@, port as int),
{
    let number: String = decimal_text(port as u64);
    owned(host).concat(":").concat(number.as_str())
}

/// The URL of what listens at a host and port, followed by `path`.
pub fn url(host: &str, port: u16, path: &str) -> (url: String)
    ensures
        url@ == url_of(host@, port as int) + path@,
{
    let at: String = host_header(host, port);
    owned("http://").concat(at.as_str()).concat(path)
}

/// The URL of the daemon, by the values of `DAEMON_HOST_ENV` and
/// `DAEMON_PORT_ENV`.
pub fn daemon_base_url(host: Option<&str>, port: Option<&str>) -> (base: String)
    ensures
        base@ == url_of(host_of(text::opt_str(host)), port_of(text::opt_str(port))),
{
    let host: String = daemon_host(host);
    let at: String = host_header(host.as_str(), daemon_port(port));
    owned("http://").concat(at.as_str())
}

/// The file, inside the configuration directory, that tells about the daemon.
pub fn daemon_info_path(config_dir: &str) -> (path: String)
    ensures
        !paths::verbatim(config_dir@) ==> paths::inside(path@, config_dir@, "daemon.json"@),
        "daemon.json"@.is_suffix_of(path@),
{
    proof {
        reveal_strlit("daemon.json");
    }
    paths::join(config_dir, "daemon.json")
}

/// The file, inside the configuration directory, that the daemon logs to.
pub fn daemon_log_path(config_dir: &str) -> (path: String)
    ensures
        !paths::verbatim(config_dir@) ==> paths::inside(path@, config_dir@, "daemon.log"@),
        "daemon.log"@.is_suffix_of(path@),
{
    proof {
        reveal_strlit("daemon.log");
    }
    paths::join(config_dir, "daemon.log")
}

/// What the `daemon` command is asked to do.
pub enum DaemonAction {
    Start,
    Stop,
    Status,
    Foreground,
    Unknown(String),
}

/// The word after `daemon`; without one the daemon runs in the foreground.
pub open spec fn daemon_word(argv: Seq<Seq<char>>) -> Seq<char> {
    if args::positional(argv).len() > 1 {
        args::positional(argv)[1]
    } else {
        "foreground"@
    }
}

/// What the `daemon` command is asked to do.
pub fn dispatch(argv: &[String]) -> (action: DaemonAction)
    ensures
        action is Start <==> daemon_word(text::texts(argv@)) == "start"@,
        action is Stop <==> daemon_word(text::texts(argv@)) == "stop"@,
        action is Status <==> daemon_word(text::texts(argv@)) == "status"@,
        action is Foreground <==> daemon_word(text::texts(argv@)) == "foreground"@ || daemon_word(
            text::texts(argv@),
        ) == "run"@,
        action matches DaemonAction::Unknown(word) ==> word@ == daemon_word(text::texts(argv@)),
{
    proof {
        reveal_strlit("start");
        reveal_strlit("stop");
        reveal_strlit("status");
        reveal_strlit("foreground");
        reveal_strlit("run");
        assert("start"@.len() == 5 && "stop"@.len() == 4 && "status"@.len() == 6);
        assert("foreground"@.len() == 10 && "run"@.len() == 3);
    }
    let word: &str = match positional_at(argv, 1) {
        Some(word) => word.as_str(),
        None => "foreground",
    };
    if same_text(word, "start") {
        DaemonAction::Start
    } else if same_text(word, "stop") {
        DaemonAction::Stop
    } else if same_text(word, "status") {
        DaemonAction::Status
    } else if same_text(word, "foreground") || same_text(word, "run") {
        DaemonAction::Foreground
    } else {
        DaemonAction::Unknown(owned(word))
    }
}

/// What a command that is not known is answered.
pub open spec fn unknown_command(message: Seq<char>, usage: Seq<char>) -> JsonView {
    JsonView::Object(
        map![
            "ok"@ => JsonView::Bool(false),
            "error"@ => JsonView::Object(
                map![
                    "code"@ => JsonView::Str("invalid_command"@),
                    "message"@ => JsonView::Str(message),
                    "detail"@ => JsonView::Object(map!["usage"@ => JsonView::Str(usage)]),
                ],
            ),
        ],
    )
}

/// The reply to a command that is not known: status two.
pub fn unknown_command_reply(message: &str, usage: &str) -> (reply: Reply)
    ensures
        reply.shows(unknown_command(message@, usage@), ""@, 2),
{
    let detail: Json = Json::object().with("usage", Json::text(usage));
    let error: Json = Json::object().with("code", Json::text("invalid_command")).with(
        "message",
        Json::text(message),
    ).with("detail", detail);
    let payload: Json = Json::object().with("ok", Json::Bool(false)).with("error", error);
    Reply::new(&payload, "", 2)
}

/// The reply to a `daemon` command that is not known.
pub fn unknown_action(word: &str) -> (reply: Reply)
    ensures
        reply.shows(
            unknown_command(
                "Unknown daemon command: "@ + word@,
                "gpt-image-2-skill daemon [start|stop|status|foreground]"@,
            ),
            ""@,
            2,
        ),
{
    let message: String = owned("Unknown daemon command: ").concat(word);
    unknown_command_reply(
        message.as_str(),
        "gpt-image-2-skill daemon [start|stop|status|foreground]",
    )
}

/// The reply that shows a payload: status zero only if the payload is ok.
pub fn print_and_status(payload: &Json) -> (reply: Reply)
    ensures
        reply.shows(
            payload@,
            ""@,
            if payload@.true_at("ok"@) {
                0
            } else {
                1
            },
        ),
{
    let code: i32 = if payload.is_true_at("ok") {
        0
    } else {
        1
    };
    Reply::new(payload, "", code)
}

/// What a daemon in the foreground that could not serve says, with status one.
pub fn foreground_failed(error: &str) -> (reply: Reply)
    ensures
        reply.shows(tasks::failure("daemon_failed"@, error@), ""@, 1),
{
    Reply::new(&failure_json("daemon_failed", error), "", 1)
}

/// The daemon that a process is, or is taken for, at the place that the
/// variables name.
pub fn info_at(pid: u32, host: Option<&str>, port: Option<&str>, version: &str) -> (info: DaemonInfo)
    ensures
        info.pid == pid,
        info.host@ == host_of(text::opt_str(host)),
        info.port == port_of(text::opt_str(port)),
        info.version@ == version@,
{
    DaemonInfo { pid, host: daemon_host(host), port: daemon_port(port), version: owned(version) }
}

/// The daemon to probe: the one that was noted, or else whatever may listen at
/// the place that the variables name, with process number zero.
pub fn candidate(
    noted: Option<DaemonInfo>,
    host: Option<&str>,
    port: Option<&str>,
    version: &str,
) -> (info: DaemonInfo)
    ensures
        match noted {
            Some(known) => info == known,
            None => {
                &&& info.pid == 0
                &&& info.host@ == host_of(text::opt_str(host))
                &&& info.port == port_of(text::opt_str(port))
                &&& info.version@ == version@
            },
        },
{
    match noted {
        Some(known) => known,
        None => info_at(0, host, port, version),
    }
}

/// The daemon, if it answered the probe.
pub fn healthy_info(info: DaemonInfo, answered: bool) -> (healthy: Option<DaemonInfo>)
    ensures
        healthy == if answered {
            Some(info)
        } else {
            None
        },
{
    if answered {
        Some(info)
    } else {
        None
    }
}

/// The URL that a probe asks for.
pub fn probe_url(host: &str, port: u16) -> (probe: String)
    ensures
        probe@ == url_of(host@, port as int) + "/api/queue"@,
{
    url(host, port, "/api/queue")
}

/// How a daemon is described.
pub open spec fn info_entry(info: DaemonInfo) -> JsonView {
    JsonView::Object(
        map![
            "pid"@ => json::count(info.pid as int),
            "host"@ => JsonView::Str(info.host@),
            "port"@ => json::count(info.port as int),
            "version"@ => JsonView::Str(info.version@),
        ],
    )
}

fn info_json(info: &DaemonInfo) -> (entry: Json)
    ensures
        entry@ == info_entry(*info),
{
    Json::object().with("pid", Json::unsigned(info.pid as u64)).with(
        "host",
        Json::text(info.host.as_str()),
    ).with("port", Json::unsigned(info.port as u64)).with(
        "version",
        Json::text(info.version.as_str()),
    )
}

/// What `daemon start` answers.
pub open spec fn start_answer(
    started: Result<DaemonInfo, Seq<char>>,
    base_url: Seq<char>,
) -> JsonView {
    match started {
        Ok(info) => JsonView::Object(
            map![
                "ok"@ => JsonView::Bool(true),
                "command"@ => JsonView::Str("daemon start"@),
                "daemon"@ => info_entry(info),
                "url"@ => JsonView::Str(base_url),
            ],
        ),
        Err(message) => tasks::failure("daemon_start_failed"@, message),
    }
}

/// What `daemon start` answers.
pub fn start_background(started: Result<DaemonInfo, String>, base_url: &str) -> (payload: Json)
    ensures
        payload@ == start_answer(
            match started {
                Ok(info) => Ok(info),
                Err(message) => Err(message@),
            },
            base_url@,
        ),
{
    match started {
        Ok(info) => Json::object().with("ok", Json::Bool(true)).with(
            "command",
            Json::text("daemon start"),
        ).with("daemon", info_json(&info)).with("url", Json::text(base_url)),
        Err(message) => failure_json("daemon_start_failed", message.as_str()),
    }
}

/// What `daemon stop` does and answers.
pub struct Stop {
    /// The process to end, as a command line has it.
    pub kill: Option<String>,
    /// Whether the note about the daemon is to be removed.
    pub forget: bool,
    /// The answer.
    pub payload: Json,
}

/// What `daemon stop` answers.
pub open spec fn stop_answer(noted: Option<DaemonInfo>) -> JsonView {
    match noted {
        None => JsonView::Object(
            map![
                "ok"@ => JsonView::Bool(true),
                "command"@ => JsonView::Str("daemon stop"@),
                "stopped"@ => JsonView::Bool(false),
                "message"@ => JsonView::Str("Daemon is not running."@),
            ],
        ),
        Some(info) => JsonView::Object(
            map![
                "ok"@ => JsonView::Bool(true),
                "command"@ => JsonView::Str("daemon stop"@),
                "stopped"@ => JsonView::Bool(true),
                "pid"@ => json::count(info.pid as int),
            ],
        ),
    }
}

/// The process number to end; none stands behind number zero.
pub open spec fn kill_target(pid: u32) -> Option<Seq<char>> {
    if pid == 0 {
        None
    } else {
        Some(text::decimal(pid as nat))
    }
}

/// The process number to end, as a command line has it.
pub fn kill_pid(pid: u32) -> (target: Option<String>)
    ensures
        text::opt_text(target) == kill_target(pid),
{
    if pid == 0 {
        None
    } else {
        Some(decimal_text(pid as u64))
    }
}

/// What `daemon stop` does and answers, given the daemon that was noted.
pub fn stop(noted: &Option<DaemonInfo>) -> (stop: Stop)
    ensures
        text::opt_text(stop.kill) == match *noted {
            Some(info) => kill_target(info.pid),
            None => None,
        },
        stop.forget == noted is Some,
        stop.payload@ == stop_answer(*noted),
{
    match noted {
        None => Stop {
            kill: None,
            forget: false,
            payload: Json::object().with("ok", Json::Bool(true)).with(
                "command",
                Json::text("daemon stop"),
            ).with("stopped", Json::Bool(false)).with(
                "message",
                Json::text("Daemon is not running."),
            ),
        },
        Some(info) => Stop {
            kill: kill_pid(info.pid),
            forget: true,
            payload: Json::object().with("ok", Json::Bool(true)).with(
                "command",
                Json::text("daemon stop"),
            ).with("stopped", Json::Bool(true)).with("pid", Json::unsigned(info.pid as u64)),
        },
    }
}

/// What `daemon status` answers.
pub open spec fn status_answer(healthy: Option<DaemonInfo>, base_url: Seq<char>) -> JsonView {
    match healthy {
        Some(info) => JsonView::Object(
            map![
                "ok"@ => JsonView::Bool(true),
                "command"@ => JsonView::Str("daemon status"@),
                "running"@ => JsonView::Bool(true),
                "daemon"@ => info_entry(info),
                "url"@ => JsonView::Str(url_of(info.host@, info.port as int) + "/api"@),
            ],
        ),
        None => JsonView::Object(
            map![
                "ok"@ => JsonView::Bool(true),
                "command"@ => JsonView::Str("daemon status"@),
                "running"@ => JsonView::Bool(false),
                "url"@ => JsonView::Str(base_url),
            ],
        ),
    }
}

/// What `daemon status` answers.
pub fn status_payload(healthy: &Option<DaemonInfo>, base_url: &str) -> (payload: Json)
    ensures
        payload@ == status_answer(*healthy, base_url@),
{
    match healthy {
        Some(info) => {
            let api: String = url(info.host.as_str(), info.port, "/api");
            Json::object().with("ok", Json::Bool(true)).with(
                "command",
                Json::text("daemon status"),
            ).with("running", Json::Bool(true)).with("daemon", info_json(info)).with(
                "url",
                Json::Str(api),
            )
        },
        None => Json::object().with("ok", Json::Bool(true)).with(
            "command",
            Json::text("daemon status"),
        ).with("running", Json::Bool(false)).with("url", Json::text(base_url)),
    }
}

/// Where the bringing up of a daemon stands, that is, what is to be done next.
pub enum Phase {
    /// Probe whether a daemon is there already.
    Probe,
    /// Launch one.
    Launch,
    /// Look whether there is time left.
    Clock,
    /// Probe whether the launched one is there, and pause if it is not.
    Poll,
    /// The daemon is up.
    Up(DaemonInfo),
    /// It could not be brought up.
    Failed(String),
}

/// What came of what was to be done.
pub enum StartupEvent {
    Health(Option<DaemonInfo>),
    Launched(Result<(), String>),
    Clock { time_left: bool },
}

/// The bringing up of a daemon, with what is said when time runs out.
pub struct Startup {
    pub phase: Phase,
    pub late: String,
}

impl Startup {
    /// The next phase. An event that nobody asked for changes nothing.
    pub open spec fn next_phase(self, event: StartupEvent) -> Phase {
        match (self.phase, event) {
            (Phase::Probe, StartupEvent::Health(Some(info))) => Phase::Up(info),
            (Phase::Probe, StartupEvent::Health(None)) => Phase::Launch,
            (Phase::Launch, StartupEvent::Launched(Ok(()))) => Phase::Clock,
            (Phase::Launch, StartupEvent::Launched(Err(message))) => Phase::Failed(message),
            (Phase::Clock, StartupEvent::Clock { time_left }) => if time_left {
                Phase::Poll
            } else {
                Phase::Failed(self.late)
            },
            (Phase::Poll, StartupEvent::Health(Some(info))) => Phase::Up(info),
            (Phase::Poll, StartupEvent::Health(None)) => Phase::Clock,
            (phase, _) => phase,
        }
    }

    /// Takes in what came of what was to be done.
    pub fn step(self, event: StartupEvent) -> (next: Startup)
        ensures
            next.phase == self.next_phase(event),
            next.late == self.late,
    {
        let late: String = self.late;
        let phase: Phase = match (self.phase, event) {
            (Phase::Probe, StartupEvent::Health(Some(info))) => Phase::Up(info),
            (Phase::Probe, StartupEvent::Health(None)) => Phase::Launch,
            (Phase::Launch, StartupEvent::Launched(Ok(()))) => Phase::Clock,
            (Phase::Launch, StartupEvent::Launched(Err(message))) => Phase::Failed(message),
            (Phase::Clock, StartupEvent::Clock { time_left }) => if time_left {
                Phase::Poll
            } else {
                Phase::Failed(late.clone())
            },
            (Phase::Poll, StartupEvent::Health(Some(info))) => Phase::Up(info),
            (Phase::Poll, StartupEvent::Health(None)) => Phase::Clock,
            (phase, _) => phase,
        };
        Startup { phase, late }
    }
}

/// Bringing up a daemon by starting its process.
pub fn start_background_inner(base_url: &str, log_path: &str) -> (startup: Startup)
    ensures
        startup.phase is Probe,
        startup.late@ == "Started daemon process but "@ + base_url@ + " did not respond. See "@
            + log_path@ + "."@,
{
    Startup {
        phase: Phase::Probe,
        late: owned("Started daemon process but ").concat(base_url).concat(
            " did not respond. See ",
        ).concat(log_path).concat("."),
    }
}

/// Making sure that a daemon runs, by bringing one up in the background if
/// need be.
pub fn ensure_running(base_url: &str) -> (startup: Startup)
    ensures
        startup.phase is Probe,
        startup.late@ == "Daemon did not become healthy on "@ + base_url@ + "."@,
{
    Startup {
        phase: Phase::Probe,
        late: owned("Daemon did not become healthy on ").concat(base_url).concat("."),
    }
}

/// What a client says after its first probe.
pub open spec fn reuse_notice(found: Option<DaemonInfo>) -> Seq<char> {
    match found {
        Some(info) => "reusing daemon pid="@ + text::decimal(info.pid as nat),
        None => "starting shared daemon"@,
    }
}

/// What a client says after its first probe: that it uses the daemon that it
/// found, or that it starts one.
pub fn probe_notice(found: &Option<DaemonInfo>) -> (notice: String)
    ensures
        notice@ == reuse_notice(*found),
{
    match found {
        Some(info) => {
            let pid: String = decimal_text(info.pid as u64);
            owned("reusing daemon pid=").concat(pid.as_str())
        },
        None => owned("starting shared daemon"),
    }
}

/// A daemon counts as up only when a probe has just found it so.
pub proof fn up_only_when_healthy(startup: Startup, event: StartupEvent, info: DaemonInfo)
    requires
        startup.next_phase(event) == Phase::Up(info),
        !(startup.phase is Up),
    ensures
        event == StartupEvent::Health(Some(info)),
{
}

/// Only before a launch can one be asked for, and then only when the first
/// probe has found no daemon: once it is past, no step leads back.
pub proof fn launched_at_most_once(startup: Startup, event: StartupEvent)
    ensures
        startup.next_phase(event) is Launch ==> startup.phase is Launch || (startup.phase is Probe
            && event == StartupEvent::Health(None)),
        startup.next_phase(event) is Probe ==> startup.phase is Probe,
{
}

impl Startup {
    /// The bringing up after events, one after the other.
    pub open spec fn after(self, events: Seq<StartupEvent>) -> Startup
        decreases events.len(),
    {
        if events.len() == 0 {
            self
        } else {
            let before = self.after(events.drop_last());
            Startup { phase: before.next_phase(events.last()), late: before.late }
        }
    }

    /// How many launches the events answered.
    pub open spec fn launches(self, events: Seq<StartupEvent>) -> nat
        decreases events.len(),
    {
        if events.len() == 0 {
            0
        } else {
            self.launches(events.drop_last()) + if self.after(events.drop_last()).phase is Launch
                && events.last() is Launched {
                1nat
            } else {
                0
            }
        }
    }
}

/// Whatever events come, one launch is answered at most, and that only if a
/// probe found no daemon; a daemon is up only if a probe found it so; and the
/// bringing up fails only for a launch that failed or for want of time.
pub proof fn brought_up_for_a_reason(startup: Startup, events: Seq<StartupEvent>)
    requires
        startup.phase is Probe,
    ensures
        startup.launches(events) <= 1,
        startup.launches(events) == 1 ==> events.contains(StartupEvent::Health(None)),
        startup.after(events).phase matches Phase::Up(info) ==> events.contains(
            StartupEvent::Health(Some(info)),
        ),
        startup.after(events).phase matches Phase::Failed(message) ==> startup.launches(events) == 1
            && (events.contains(StartupEvent::Launched(Err(message))) || (message == startup.late
            && events.contains((StartupEvent::Clock { time_left: false })))),
{
    lemma_startup(startup, events);
}

proof fn lemma_startup(startup: Startup, events: Seq<StartupEvent>)
    requires
        startup.phase is Probe,
    ensures
        startup.after(events).late == startup.late,
        match startup.after(events).phase {
            Phase::Probe => startup.launches(events) == 0,
            Phase::Launch => startup.launches(events) == 0 && events.contains(
                StartupEvent::Health(None),
            ),
            Phase::Clock => startup.launches(events) == 1,
            Phase::Poll => startup.launches(events) == 1,
            Phase::Up(info) => startup.launches(events) <= 1 && events.contains(
                StartupEvent::Health(Some(info)),
            ),
            Phase::Failed(message) => startup.launches(events) == 1 && (events.contains(
                StartupEvent::Launched(Err(message)),
            ) || (message == startup.late && events.contains(
                (StartupEvent::Clock { time_left: false }),
            ))),
        },
        startup.launches(events) == 1 ==> events.contains(StartupEvent::Health(None)),
    decreases events.len(),
{
    if events.len() > 0 {
        let past = events.drop_last();
        lemma_startup(startup, past);
        assert(events[events.len() - 1] == events.last());
        assert forall|event: StartupEvent| past.contains(event) implies #[trigger] events.contains(
            event,
        ) by {
            let k = choose|k: int| 0 <= k < past.len() && past[k] == event;
            assert(events[k] == event);
        }
    }
}

/// Bringing up fails only where the launch failed, with its message, or where
/// time ran out, with the message for that.
pub proof fn fails_for_a_reason(startup: Startup, event: StartupEvent, message: String)
    requires
        startup.next_phase(event) == Phase::Failed(message),
        !(startup.phase is Failed),
    ensures
        event == StartupEvent::Launched(Err(message)) || (event == (StartupEvent::Clock {
            time_left: false,
        }) && message == startup.late),
{
}

/// Once up or failed, the bringing up stays so.
pub proof fn outcome_is_final(startup: Startup, event: StartupEvent)
    requires
        startup.phase is Up || startup.phase is Failed,
    ensures
        startup.next_phase(event) == startup.phase,
{
}

/// The host is never blank, nor has it white space around it.
pub proof fn host_is_trimmed(value: Option<Seq<char>>)
    ensures
        host_of(value).len() > 0,
        text::trimmed(host_of(value)) == host_of(value),
{
    reveal_strlit("127.0.0.1");
    if let Some(host) = value {
        text::trim_idempotent(host);
    }
}

/// A port written in decimal is the port that is used.
pub proof fn port_round_trip(port: u16)
    ensures
        port_of(Some(text::decimal(port as nat))) == port,
{
    text::decimal_round_trip(port as nat);
}

} // verus!
