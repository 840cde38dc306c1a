use gpt_image_2_skill::daemon::{
    candidate, daemon_base_url, daemon_host, daemon_info_path, daemon_log_path, daemon_port, dispatch,
    ensure_running, foreground_failed, healthy_info, host_header, info_at, kill_pid, no_wait,
    print_and_status, probe_notice, probe_url, skip_daemon, start_background, start_background_inner,
    status_payload, stop, unknown_action, url, DaemonAction, DaemonInfo, Phase, Startup, StartupEvent,
};
use gpt_image_2_skill::json::Json;
use gpt_image_2_skill::{is_daemon_command, run, Route};
use serde_json::Value;

fn strings(list: &[&str]) -> Vec<String> {
    list.iter().map(|s| s.to_string()).collect()
}

fn value(text: &str) -> Value {
    serde_json::from_str(text).unwrap()
}

fn info(pid: u32) -> DaemonInfo {
    info_at(pid, Some("localhost"), Some("9000"), "1.2.3")
}

#[test]
fn switches_are_words_for_yes() {
    for word in ["1", "true", "TRUE", "Yes", "oN"] {
        assert!(skip_daemon(Some(word)));
        assert!(no_wait(Some(word)));
    }
    for word in ["", "0", "2", "no", " 1", "off", "t rue"] {
        assert!(!skip_daemon(Some(word)));
        assert!(!no_wait(Some(word)));
    }
    assert!(!skip_daemon(None));
    assert!(!no_wait(None));
}

#[test]
fn the_usual_place_of_the_daemon() {
    assert_eq!(daemon_base_url(None, None), "http://127.0.0.1:8787");
    assert_eq!(daemon_host(Some(" \t")), "127.0.0.1");
    assert_eq!(daemon_host(Some("  box \u{3000}\n")), "box");
    assert_eq!(daemon_port(Some("65536")), 8787);
    assert_eq!(daemon_port(Some(" 80")), 8787);
    assert_eq!(daemon_port(Some("+80")), 80);
    assert_eq!(daemon_port(Some("")), 8787);
    assert_eq!(daemon_base_url(Some("h"), Some("1")), "http://h:1");
}

#[test]
fn every_port_is_read_back() {
    for port in [0u16, 1, 80, 8787, 65535] {
        assert_eq!(daemon_port(Some(&port.to_string())), port);
        assert_eq!(host_header("h", port), format!("h:{port}"));
    }
}

#[test]
fn urls_follow_the_host_and_port() {
    assert_eq!(url("h", 5, "/api/x"), "http://h:5/api/x");
    assert_eq!(probe_url("127.0.0.1", 8787), "http://127.0.0.1:8787/api/queue");
}

#[test]
fn files_stand_in_the_configuration_directory() {
    assert_eq!(daemon_info_path("/home/u/.conf"), "/home/u/.conf/daemon.json");
    assert_eq!(daemon_log_path("conf/"), "conf/daemon.log");
    assert_eq!(daemon_log_path(""), "daemon.log");
    let shared = daemon_info_path("\\\\box\\share");
    assert!(shared == "\\\\box\\share/daemon.json" || shared == "\\\\box\\share\\daemon.json");
}

#[test]
fn daemon_words_are_told_apart() {
    let action = |list: &[&str]| dispatch(&strings(list));
    assert!(matches!(action(&["x", "daemon"]), DaemonAction::Foreground));
    assert!(matches!(action(&["x", "daemon", "run"]), DaemonAction::Foreground));
    assert!(matches!(action(&["x", "daemon", "--json", "foreground"]), DaemonAction::Foreground));
    assert!(matches!(action(&["x", "--json", "daemon", "start"]), DaemonAction::Start));
    assert!(matches!(action(&["x", "daemon", "stop"]), DaemonAction::Stop));
    assert!(matches!(action(&["x", "daemon", "status", "start"]), DaemonAction::Status));
    assert!(matches!(action(&["x", "daemon", "Stop"]), DaemonAction::Unknown(word) if word == "Stop"));
}

#[test]
fn unknown_daemon_words_are_answered_with_the_usage() {
    let reply = unknown_action("restart");
    assert_eq!(reply.code, 2);
    assert_eq!(
        value(&reply.text),
        value(
            r#"{"ok":false,"error":{"code":"invalid_command","message":"Unknown daemon command: restart",
            "detail":{"usage":"gpt-image-2-skill daemon [start|stop|status|foreground]"}}}"#
        )
    );
}

#[test]
fn the_status_follows_the_payload() {
    let ok = print_and_status(&Json::object().with("ok", Json::Bool(true)));
    assert_eq!((ok.code, ok.text.as_str()), (0, "{\n  \"ok\": true\n}"));
    assert_eq!(print_and_status(&Json::object()).code, 1);
    assert_eq!(print_and_status(&Json::object().with("ok", Json::text("true"))).code, 1);
    let failed = foreground_failed("port taken");
    assert_eq!(failed.code, 1);
    assert_eq!(
        value(&failed.text),
        value(r#"{"ok":false,"error":{"code":"daemon_failed","message":"port taken"}}"#)
    );
}

#[test]
fn a_noted_daemon_is_the_candidate() {
    let noted = candidate(Some(info(7)), None, None, "9");
    assert_eq!((noted.pid, noted.host.as_str(), noted.port), (7, "localhost", 9000));
    let other = candidate(None, None, None, "9");
    assert_eq!((other.pid, other.host.as_str(), other.port), (0, "127.0.0.1", 8787));
    assert_eq!(other.version, "9");
    assert!(healthy_info(info(1), false).is_none());
    assert_eq!(healthy_info(info(1), true).unwrap().pid, 1);
}

#[test]
fn start_tells_the_daemon_or_why_not() {
    assert_eq!(
        start_background(Ok(info(42)), "http://b").to_value(),
        value(
            r#"{"ok":true,"command":"daemon start","url":"http://b",
            "daemon":{"pid":42,"host":"localhost","port":9000,"version":"1.2.3"}}"#
        )
    );
    assert_eq!(
        start_background(Err("no".to_string()), "http://b").to_value(),
        value(r#"{"ok":false,"error":{"code":"daemon_start_failed","message":"no"}}"#)
    );
}

#[test]
fn stop_ends_the_noted_process() {
    let none = stop(&None);
    assert_eq!((none.kill, none.forget), (None, false));
    assert_eq!(
        none.payload.to_value(),
        value(r#"{"ok":true,"command":"daemon stop","stopped":false,"message":"Daemon is not running."}"#)
    );
    let one = stop(&Some(info(4711)));
    assert_eq!((one.kill, one.forget), (Some("4711".to_string()), true));
    assert_eq!(
        one.payload.to_value(),
        value(r#"{"ok":true,"command":"daemon stop","stopped":true,"pid":4711}"#)
    );
    assert_eq!(kill_pid(0), None);
}

#[test]
fn status_tells_where_the_daemon_is() {
    assert_eq!(
        status_payload(&Some(info(3)), "http://b").to_value(),
        value(
            r#"{"ok":true,"command":"daemon status","running":true,"url":"http://localhost:9000/api",
            "daemon":{"pid":3,"host":"localhost","port":9000,"version":"1.2.3"}}"#
        )
    );
    let usual = info_at(3, None, None, "1");
    let payload = status_payload(&Some(usual), "http://b");
    assert_eq!(payload.str_at("url"), Some("http://127.0.0.1:8787/api"));
    assert_eq!(
        status_payload(&None, "http://b").to_value(),
        value(r#"{"ok":true,"command":"daemon status","running":false,"url":"http://b"}"#)
    );
}

#[test]
fn a_daemon_that_answers_is_not_started_again() {
    let startup = ensure_running("http://b");
    assert!(matches!(startup.phase, Phase::Probe));
    let up = startup.step(StartupEvent::Health(Some(info(5))));
    assert!(matches!(up.phase, Phase::Up(ref found) if found.pid == 5));
    let still = up.step(StartupEvent::Health(None));
    assert!(matches!(still.phase, Phase::Up(_)));
}

#[test]
fn a_daemon_is_launched_once_and_then_polled() {
    let mut startup: Startup = ensure_running("http://b");
    startup = startup.step(StartupEvent::Health(None));
    assert!(matches!(startup.phase, Phase::Launch));
    startup = startup.step(StartupEvent::Health(Some(info(1))));
    assert!(matches!(startup.phase, Phase::Launch));
    startup = startup.step(StartupEvent::Launched(Ok(())));
    assert!(matches!(startup.phase, Phase::Clock));
    startup = startup.step(StartupEvent::Clock { time_left: true });
    assert!(matches!(startup.phase, Phase::Poll));
    startup = startup.step(StartupEvent::Health(None));
    assert!(matches!(startup.phase, Phase::Clock));
    startup = startup.step(StartupEvent::Clock { time_left: true });
    startup = startup.step(StartupEvent::Health(Some(info(9))));
    assert!(matches!(startup.phase, Phase::Up(ref found) if found.pid == 9));
}

#[test]
fn bringing_up_fails_for_a_reason() {
    let late = ensure_running("http://b")
        .step(StartupEvent::Health(None))
        .step(StartupEvent::Launched(Ok(())))
        .step(StartupEvent::Clock { time_left: false });
    assert!(
        matches!(late.phase, Phase::Failed(ref m) if m == "Daemon did not become healthy on http://b.")
    );
    let late = start_background_inner("http://b", "/l/daemon.log")
        .step(StartupEvent::Health(None))
        .step(StartupEvent::Launched(Ok(())))
        .step(StartupEvent::Clock { time_left: false });
    assert!(matches!(late.phase, Phase::Failed(ref m)
        if m == "Started daemon process but http://b did not respond. See /l/daemon.log."));
    let refused = ensure_running("http://b")
        .step(StartupEvent::Health(None))
        .step(StartupEvent::Launched(Err("no exe".to_string())));
    assert!(matches!(refused.phase, Phase::Failed(ref m) if m == "no exe"));
}

#[test]
fn events_that_come_late_launch_nothing_more() {
    let mut startup: Startup = ensure_running("http://b");
    let mut launches = 0;
    for _ in 0..3 {
        for event in [
            StartupEvent::Health(None),
            StartupEvent::Launched(Ok(())),
            StartupEvent::Clock { time_left: true },
            StartupEvent::Health(None),
        ] {
            if matches!(startup.phase, Phase::Launch) && matches!(event, StartupEvent::Launched(_)) {
                launches += 1;
            }
            startup = startup.step(event);
        }
    }
    assert_eq!(launches, 1);
    assert!(!matches!(startup.phase, Phase::Up(_)));
}

#[test]
fn the_first_probe_is_announced() {
    assert_eq!(probe_notice(&None), "starting shared daemon");
    assert_eq!(probe_notice(&Some(info(1234))), "reusing daemon pid=1234");
}

#[test]
fn command_lines_find_their_part() {
    let part = |list: &[&str], skip: Option<&str>, images: bool| run(&strings(list), skip, images);
    assert!(matches!(part(&["x", "--json", "daemon"], Some("1"), false), Route::Daemon));
    assert!(matches!(part(&["x", "jobs"], None, false), Route::Jobs));
    assert!(matches!(part(&["x", "images", "--jobs", "fanout"], Some("1"), true), Route::Fanout));
    assert!(matches!(part(&["x", "images", "generate"], None, true), Route::Client));
    assert!(matches!(part(&["x", "images", "generate"], Some("on"), true), Route::Core));
    assert!(matches!(part(&["x", "doctor"], None, false), Route::Core));
    assert!(matches!(part(&[], None, false), Route::Core));
    assert!(!is_daemon_command(&strings(&["daemon"])));
    assert!(is_daemon_command(&strings(&["x", "daemon", "jobs"])));
}
