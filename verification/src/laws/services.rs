//! What the daemon and its commands promise.

use vstd::prelude::*;
use crate::daemon;
use crate::daemon::DaemonInfo;
use crate::json::{JsonView, NumberView};
use crate::laws::words;
use crate::text;

verus! {

/// The keys of an answer differ.
proof fn lemma_answer_keys()
    ensures
        "ok"@ != "command"@,
        "ok"@ != "daemon"@,
        "ok"@ != "url"@,
        "ok"@ != "stopped"@,
        "ok"@ != "message"@,
        "ok"@ != "pid"@,
        "ok"@ != "running"@,
        "ok"@ != "error"@,
        "ok"@ != "host"@,
        "ok"@ != "port"@,
        "ok"@ != "version"@,
        "ok"@ != "code"@,
        "ok"@ != "detail"@,
        "ok"@ != "usage"@,
        "command"@ != "daemon"@,
        "command"@ != "url"@,
        "command"@ != "stopped"@,
        "command"@ != "message"@,
        "command"@ != "pid"@,
        "command"@ != "running"@,
        "command"@ != "error"@,
        "command"@ != "host"@,
        "command"@ != "port"@,
        "command"@ != "version"@,
        "command"@ != "code"@,
        "command"@ != "detail"@,
        "command"@ != "usage"@,
        "daemon"@ != "url"@,
        "daemon"@ != "stopped"@,
        "daemon"@ != "message"@,
        "daemon"@ != "pid"@,
        "daemon"@ != "running"@,
        "daemon"@ != "error"@,
        "daemon"@ != "host"@,
        "daemon"@ != "port"@,
        "daemon"@ != "version"@,
        "daemon"@ != "code"@,
        "daemon"@ != "detail"@,
        "daemon"@ != "usage"@,
        "url"@ != "stopped"@,
        "url"@ != "message"@,
        "url"@ != "pid"@,
        "url"@ != "running"@,
        "url"@ != "error"@,
        "url"@ != "host"@,
        "url"@ != "port"@,
        "url"@ != "version"@,
        "url"@ != "code"@,
        "url"@ != "detail"@,
        "url"@ != "usage"@,
        "stopped"@ != "message"@,
        "stopped"@ != "pid"@,
        "stopped"@ != "running"@,
        "stopped"@ != "error"@,
        "stopped"@ != "host"@,
        "stopped"@ != "port"@,
        "stopped"@ != "version"@,
        "stopped"@ != "code"@,
        "stopped"@ != "detail"@,
        "stopped"@ != "usage"@,
        "message"@ != "pid"@,
        "message"@ != "running"@,
        "message"@ != "error"@,
        "message"@ != "host"@,
        "message"@ != "port"@,
        "message"@ != "version"@,
        "message"@ != "code"@,
        "message"@ != "detail"@,
        "message"@ != "usage"@,
        "pid"@ != "running"@,
        "pid"@ != "error"@,
        "pid"@ != "host"@,
        "pid"@ != "port"@,
        "pid"@ != "version"@,
        "pid"@ != "code"@,
        "pid"@ != "detail"@,
        "pid"@ != "usage"@,
        "running"@ != "error"@,
        "running"@ != "host"@,
        "running"@ != "port"@,
        "running"@ != "version"@,
        "running"@ != "code"@,
        "running"@ != "detail"@,
        "running"@ != "usage"@,
        "error"@ != "host"@,
        "error"@ != "port"@,
        "error"@ != "version"@,
        "error"@ != "code"@,
        "error"@ != "detail"@,
        "error"@ != "usage"@,
        "host"@ != "port"@,
        "host"@ != "version"@,
        "host"@ != "code"@,
        "host"@ != "detail"@,
        "host"@ != "usage"@,
        "port"@ != "version"@,
        "port"@ != "code"@,
        "port"@ != "detail"@,
        "port"@ != "usage"@,
        "version"@ != "code"@,
        "version"@ != "detail"@,
        "version"@ != "usage"@,
        "code"@ != "detail"@,
        "code"@ != "usage"@,
        "detail"@ != "usage"@,
{
    reveal_strlit("ok");
    reveal_strlit("command");
    reveal_strlit("daemon");
    reveal_strlit("url");
    reveal_strlit("stopped");
    reveal_strlit("message");
    reveal_strlit("pid");
    reveal_strlit("running");
    reveal_strlit("error");
    reveal_strlit("host");
    reveal_strlit("port");
    reveal_strlit("version");
    reveal_strlit("code");
    reveal_strlit("detail");
    reveal_strlit("usage");
    assert("ok"@.len() != "command"@.len());
    assert("ok"@.len() != "daemon"@.len());
    assert("ok"@.len() != "url"@.len());
    assert("ok"@.len() != "stopped"@.len());
    assert("ok"@.len() != "message"@.len());
    assert("ok"@.len() != "pid"@.len());
    assert("ok"@.len() != "running"@.len());
    assert("ok"@.len() != "error"@.len());
    assert("ok"@.len() != "host"@.len());
    assert("ok"@.len() != "port"@.len());
    assert("ok"@.len() != "version"@.len());
    assert("ok"@.len() != "code"@.len());
    assert("ok"@.len() != "detail"@.len());
    assert("ok"@.len() != "usage"@.len());
    assert("command"@.len() != "daemon"@.len());
    assert("command"@.len() != "url"@.len());
    assert("command"@[0] != "stopped"@[0]);
    assert("command"@[0] != "message"@[0]);
    assert("command"@.len() != "pid"@.len());
    assert("command"@[0] != "running"@[0]);
    assert("command"@.len() != "error"@.len());
    assert("command"@.len() != "host"@.len());
    assert("command"@.len() != "port"@.len());
    assert("command"@[0] != "version"@[0]);
    assert("command"@.len() != "code"@.len());
    assert("command"@.len() != "detail"@.len());
    assert("command"@.len() != "usage"@.len());
    assert("daemon"@.len() != "url"@.len());
    assert("daemon"@.len() != "stopped"@.len());
    assert("daemon"@.len() != "message"@.len());
    assert("daemon"@.len() != "pid"@.len());
    assert("daemon"@.len() != "running"@.len());
    assert("daemon"@.len() != "error"@.len());
    assert("daemon"@.len() != "host"@.len());
    assert("daemon"@.len() != "port"@.len());
    assert("daemon"@.len() != "version"@.len());
    assert("daemon"@.len() != "code"@.len());
    assert("daemon"@[1] != "detail"@[1]);
    assert("daemon"@.len() != "usage"@.len());
    assert("url"@.len() != "stopped"@.len());
    assert("url"@.len() != "message"@.len());
    assert("url"@[0] != "pid"@[0]);
    assert("url"@.len() != "running"@.len());
    assert("url"@.len() != "error"@.len());
    assert("url"@.len() != "host"@.len());
    assert("url"@.len() != "port"@.len());
    assert("url"@.len() != "version"@.len());
    assert("url"@.len() != "code"@.len());
    assert("url"@.len() != "detail"@.len());
    assert("url"@.len() != "usage"@.len());
    assert("stopped"@[0] != "message"@[0]);
    assert("stopped"@.len() != "pid"@.len());
    assert("stopped"@[0] != "running"@[0]);
    assert("stopped"@.len() != "error"@.len());
    assert("stopped"@.len() != "host"@.len());
    assert("stopped"@.len() != "port"@.len());
    assert("stopped"@[0] != "version"@[0]);
    assert("stopped"@.len() != "code"@.len());
    assert("stopped"@.len() != "detail"@.len());
    assert("stopped"@.len() != "usage"@.len());
    assert("message"@.len() != "pid"@.len());
    assert("message"@[0] != "running"@[0]);
    assert("message"@.len() != "error"@.len());
    assert("message"@.len() != "host"@.len());
    assert("message"@.len() != "port"@.len());
    assert("message"@[0] != "version"@[0]);
    assert("message"@.len() != "code"@.len());
    assert("message"@.len() != "detail"@.len());
    assert("message"@.len() != "usage"@.len());
    assert("pid"@.len() != "running"@.len());
    assert("pid"@.len() != "error"@.len());
    assert("pid"@.len() != "host"@.len());
    assert("pid"@.len() != "port"@.len());
    assert("pid"@.len() != "version"@.len());
    assert("pid"@.len() != "code"@.len());
    assert("pid"@.len() != "detail"@.len());
    assert("pid"@.len() != "usage"@.len());
    assert("running"@.len() != "error"@.len());
    assert("running"@.len() != "host"@.len());
    assert("running"@.len() != "port"@.len());
    assert("running"@[0] != "version"@[0]);
    assert("running"@.len() != "code"@.len());
    assert("running"@.len() != "detail"@.len());
    assert("running"@.len() != "usage"@.len());
    assert("error"@.len() != "host"@.len());
    assert("error"@.len() != "port"@.len());
    assert("error"@.len() != "version"@.len());
    assert("error"@.len() != "code"@.len());
    assert("error"@.len() != "detail"@.len());
    assert("error"@[0] != "usage"@[0]);
    assert("host"@[0] != "port"@[0]);
    assert("host"@.len() != "version"@.len());
    assert("host"@[0] != "code"@[0]);
    assert("host"@.len() != "detail"@.len());
    assert("host"@.len() != "usage"@.len());
    assert("port"@.len() != "version"@.len());
    assert("port"@[0] != "code"@[0]);
    assert("port"@.len() != "detail"@.len());
    assert("port"@.len() != "usage"@.len());
    assert("version"@.len() != "code"@.len());
    assert("version"@.len() != "detail"@.len());
    assert("version"@.len() != "usage"@.len());
    assert("code"@.len() != "detail"@.len());
    assert("code"@.len() != "usage"@.len());
    assert("detail"@.len() != "usage"@.len());
}

/// A switch is on exactly if it is set to one of four words for yes, in any case
/// of their letters.
pub proof fn four_words_switch_on(word: Seq<char>)
    ensures
        daemon::switched_on(Some(word)) <==> ({
            let small = text::lowered(word);
            ||| small == seq!['1']
            ||| small == seq!['o', 'n']
            ||| small == seq!['y', 'e', 's']
            ||| small == seq!['t', 'r', 'u', 'e']
        }),
        !daemon::switched_on(None),
{
    reveal_strlit("1");
    reveal_strlit("on");
    reveal_strlit("yes");
    reveal_strlit("true");
    assert("1"@ =~= seq!['1']);
    assert("on"@ =~= seq!['o', 'n']);
    assert("yes"@ =~= seq!['y', 'e', 's']);
    assert("true"@ =~= seq!['t', 'r', 'u', 'e']);
}

/// The host is what is set, without the white space around it, and the local
/// one where that is blank or nothing is set.
pub proof fn the_host_is_the_one_that_is_set(
    before: Seq<char>,
    core: Seq<char>,
    after: Seq<char>,
)
    requires
        forall|k: int| 0 <= k < before.len() ==> text::white_space(before[k]),
        forall|k: int| 0 <= k < after.len() ==> text::white_space(after[k]),
        core.len() > 0 ==> !text::white_space(core[0]) && !text::white_space(core.last()),
    ensures
        core.len() > 0 ==> daemon::host_of(Some(before + core + after)) == core,
        core.len() == 0 ==> daemon::host_of(Some(before + core + after)) == "127.0.0.1"@,
        daemon::host_of(None) == "127.0.0.1"@,
{
    words::trimming_leaves_the_core(before, core, after);
}

/// The port is the number that is set, and the usual one where none is set or
/// it is no port.
pub proof fn the_port_is_the_one_that_is_set(value: Seq<char>)
    ensures
        daemon::port_of(Some(value)) == if text::decimal_value(value) is Some
            && text::decimal_value(value)->0 <= 65535 {
            text::decimal_value(value)->0 as int
        } else {
            8787
        },
        daemon::port_of(None) == 8787,
{
}

/// A URL is the scheme, the host, a colon and the port in decimal.
pub proof fn urls_hold_host_and_port(host: Seq<char>, port: nat)
    ensures
        ({
            let url = daemon::url_of(host, port as int);
            let scheme = seq!['h', 't', 't', 'p', ':', '/', '/'];
            &&& url.len() > 8 + host.len()
            &&& url.take(7) == scheme
            &&& url.subrange(7, 7 + host.len() as int) == host
            &&& url[7 + host.len() as int] == ':'
            &&& text::digits_value(url.skip(8 + host.len() as int)) == Some(port)
            &&& url.skip(7) == daemon::host_and_port(host, port as int)
        }),
{
    reveal_strlit("http://");
    reveal_strlit(":");
    text::lemma_decimal_digits(port);
    let url = daemon::url_of(host, port as int);
    assert(url.take(7) =~= seq!['h', 't', 't', 'p', ':', '/', '/']);
    assert(url.subrange(7, 7 + host.len() as int) =~= host);
    assert(url.skip(8 + host.len() as int) =~= text::decimal(port));
    assert(url.skip(7) =~= daemon::host_and_port(host, port as int));
}

/// A command that is not known is answered with what was said and how it is
/// used, and is not ok.
pub proof fn an_unknown_command_is_told_the_usage(message: Seq<char>, usage: Seq<char>)
    ensures
        ({
            let answer = daemon::unknown_command(message, usage);
            let error = answer.get("error"@)->0;
            let detail = error.get("detail"@)->0;
            &&& answer.get("ok"@) == Some(JsonView::Bool(false))
            &&& answer.get("error"@) is Some
            &&& error.get("code"@) == Some(JsonView::Str("invalid_command"@))
            &&& error.get("message"@) == Some(JsonView::Str(message))
            &&& error.get("detail"@) is Some
            &&& detail.get("usage"@) == Some(JsonView::Str(usage))
        }),
{
    lemma_answer_keys();
}

/// A daemon is described by its process, its place and its version.
pub proof fn a_daemon_is_described_as_it_is(info: DaemonInfo)
    ensures
        ({
            let entry = daemon::info_entry(info);
            &&& entry.get("pid"@) == Some(JsonView::Number(NumberView::Unsigned(info.pid as u64)))
            &&& entry.get("host"@) == Some(JsonView::Str(info.host@))
            &&& entry.get("port"@) == Some(
                JsonView::Number(NumberView::Unsigned(info.port as u64)),
            )
            &&& entry.get("version"@) == Some(JsonView::Str(info.version@))
        }),
{
    lemma_answer_keys();
}

/// The start of a daemon is answered with the daemon and its URL, or with why
/// it did not start.
pub proof fn a_start_is_answered(
    info: DaemonInfo,
    message: Seq<char>,
    base_url: Seq<char>,
)
    ensures
        ({
            let answer = daemon::start_answer(Ok(info), base_url);
            &&& answer.get("ok"@) == Some(JsonView::Bool(true))
            &&& answer.get("command"@) == Some(JsonView::Str("daemon start"@))
            &&& answer.get("daemon"@) == Some(daemon::info_entry(info))
            &&& answer.get("url"@) == Some(JsonView::Str(base_url))
        }),
        ({
            let answer = daemon::start_answer(Err(message), base_url);
            let error = answer.get("error"@)->0;
            &&& answer.get("ok"@) == Some(JsonView::Bool(false))
            &&& answer.get("error"@) is Some
            &&& error.get("code"@) == Some(JsonView::Str("daemon_start_failed"@))
            &&& error.get("message"@) == Some(JsonView::Str(message))
        }),
{
    lemma_answer_keys();
}

/// A stop is answered with the process that was noted, and with that there is
/// none where none was noted; no process has number zero.
pub proof fn a_stop_is_answered(info: DaemonInfo)
    ensures
        ({
            let answer = daemon::stop_answer(Some(info));
            &&& answer.get("ok"@) == Some(JsonView::Bool(true))
            &&& answer.get("command"@) == Some(JsonView::Str("daemon stop"@))
            &&& answer.get("stopped"@) == Some(JsonView::Bool(true))
            &&& answer.get("pid"@) == Some(
                JsonView::Number(NumberView::Unsigned(info.pid as u64)),
            )
        }),
        ({
            let answer = daemon::stop_answer(None);
            &&& answer.get("ok"@) == Some(JsonView::Bool(true))
            &&& answer.get("command"@) == Some(JsonView::Str("daemon stop"@))
            &&& answer.get("stopped"@) == Some(JsonView::Bool(false))
            &&& answer.get("message"@) == Some(JsonView::Str("Daemon is not running."@))
        }),
        daemon::kill_target(0) is None,
        info.pid != 0 ==> daemon::kill_target(info.pid) is Some && text::digits_value(
            daemon::kill_target(info.pid)->0,
        ) == Some(info.pid as nat),
{
    lemma_answer_keys();
    text::lemma_decimal_digits(info.pid as nat);
}

/// The status is answered with the daemon that is up and where its API is, and
/// with where one would be where none is.
pub proof fn a_status_is_answered(info: DaemonInfo, base_url: Seq<char>)
    ensures
        ({
            let answer = daemon::status_answer(Some(info), base_url);
            &&& answer.get("ok"@) == Some(JsonView::Bool(true))
            &&& answer.get("command"@) == Some(JsonView::Str("daemon status"@))
            &&& answer.get("running"@) == Some(JsonView::Bool(true))
            &&& answer.get("daemon"@) == Some(daemon::info_entry(info))
            &&& answer.get("url"@) == Some(
                JsonView::Str(daemon::url_of(info.host@, info.port as int) + "/api"@),
            )
        }),
        ({
            let answer = daemon::status_answer(None, base_url);
            &&& answer.get("ok"@) == Some(JsonView::Bool(true))
            &&& answer.get("command"@) == Some(JsonView::Str("daemon status"@))
            &&& answer.get("running"@) == Some(JsonView::Bool(false))
            &&& answer.get("daemon"@) is None
            &&& answer.get("url"@) == Some(JsonView::Str(base_url))
        }),
{
    lemma_answer_keys();
}

/// A daemon that is found is named by its process; where none is found, it is
/// said that one is started.
pub proof fn the_first_probe_is_told(info: DaemonInfo)
    ensures
        ({
            let notice = daemon::reuse_notice(Some(info));
            let start = "reusing daemon pid="@;
            &&& start.is_prefix_of(notice)
            &&& text::digits_value(notice.skip(start.len() as int)) == Some(info.pid as nat)
        }),
        daemon::reuse_notice(None) == "starting shared daemon"@,
{
    text::lemma_decimal_digits(info.pid as nat);
    let notice = daemon::reuse_notice(Some(info));
    let start = "reusing daemon pid="@;
    assert(notice.skip(start.len() as int) =~= text::decimal(info.pid as nat));
    assert(notice.subrange(0, start.len() as int) =~= start);
}

} // verus!
