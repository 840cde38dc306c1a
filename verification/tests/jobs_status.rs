use gpt_image_2_skill::client::Polled;
use gpt_image_2_skill::daemon::info_at;
use gpt_image_2_skill::jobs::{
    classify, collect_tickets, dispatch, is_command, lookup_failed, parse_tickets, print_status, summarize,
    unknown_action, JobsAction, OpenTask, Outcome, StatusAction, StatusEvent, StatusFlow, Ticket, TicketFile,
};
use gpt_image_2_skill::json::Json;
use gpt_image_2_skill::tickets::remember_ticket;
use serde_json::Value;

fn strings(list: &[&str]) -> Vec<String> {
    list.iter().map(|s| s.to_string()).collect()
}

fn value(text: &str) -> Value {
    serde_json::from_str(text).unwrap()
}

fn json(text: &str) -> Json {
    Json::parse(text).unwrap()
}

fn ticket(job_id: &str, out: Option<&str>, name: Option<&str>) -> Ticket {
    Ticket { job_id: job_id.to_string(), out: out.map(String::from), name: name.map(String::from) }
}

fn polled(payload: &str) -> StatusEvent {
    StatusEvent::Polled { answer: Polled::Answered(json(payload)), store: None }
}

#[test]
fn jobs_is_told_by_its_word() {
    assert!(is_command(&strings(&["x", "--json", "jobs", "status"])));
    assert!(!is_command(&strings(&["jobs"])));
    assert!(!is_command(&strings(&["x", "status", "jobs"])));
}

#[test]
fn jobs_words_are_told_apart() {
    assert!(matches!(dispatch(&strings(&["x", "jobs"])), JobsAction::Status));
    assert!(matches!(dispatch(&strings(&["x", "jobs", "--id", "status"])), JobsAction::Status));
    assert!(matches!(dispatch(&strings(&["x", "jobs", "list"])), JobsAction::Unknown(word) if word == "list"));
    let reply = unknown_action("list");
    assert_eq!(reply.code, 2);
    assert_eq!(
        value(&reply.text),
        value(
            r#"{"ok":false,"error":{"code":"invalid_command","message":"Unknown jobs command: list",
            "detail":{"usage":"gpt-image-2-skill jobs status [--id JOB]... [--file tickets.json]"}}}"#
        )
    );
}

#[test]
fn tickets_are_asked_for_by_name_and_file() {
    let (ids, file) = parse_tickets(&strings(&[
        "x", "jobs", "status", "--id", "a", "--file", "f1", "--verbose", "--job-id", "--id", "--jobs", "f2",
    ]))
    .ok()
    .unwrap();
    assert_eq!(ids.iter().map(|t| t.job_id.as_str()).collect::<Vec<_>>(), vec!["a", "--id"]);
    assert!(ids.iter().all(|t| t.out.is_none() && t.name.is_none()));
    assert_eq!(file.as_deref(), Some("f2"));
    let (none, file) = parse_tickets(&[]).ok().unwrap();
    assert!(none.is_empty() && file.is_none());
}

#[test]
fn a_flag_needs_its_value() {
    let message = |list: &[&str]| parse_tickets(&strings(list)).err().unwrap();
    assert_eq!(message(&["x", "--id"]), "--id requires a job id");
    assert_eq!(message(&["x", "--id", "a", "--job-id"]), "--id requires a job id");
    assert_eq!(message(&["x", "--file"]), "--file requires a path");
    assert_eq!(message(&["x", "--id", "a", "--jobs"]), "--file requires a path");
}

#[test]
fn tickets_of_a_file_come_last() {
    let list = collect_tickets(
        vec![ticket("a", None, None)],
        TicketFile::Holds(vec![ticket("b", Some("o"), None)]),
    )
    .ok()
    .unwrap();
    assert_eq!(list.iter().map(|t| t.job_id.as_str()).collect::<Vec<_>>(), vec!["a", "b"]);
    assert_eq!(collect_tickets(vec![ticket("a", None, None)], TicketFile::NotNamed).ok().unwrap().len(), 1);
}

#[test]
fn there_must_be_tickets() {
    let message = |file| collect_tickets(Vec::new(), file).err().unwrap();
    let none = "jobs status requires --id JOB or --file tickets.json";
    assert_eq!(message(TicketFile::NotNamed), none);
    assert_eq!(message(TicketFile::Holds(Vec::new())), none);
    assert_eq!(
        message(TicketFile::Unreadable { path: "t".to_string(), error: "gone".to_string() }),
        "Unable to read t: gone"
    );
    assert_eq!(
        message(TicketFile::Invalid("eof".to_string())),
        "Ticket file must be a JSON array of {job_id, out}: eof"
    );
}

#[test]
fn tickets_are_read_from_objects() {
    let read = Ticket::from_json(&json(r#"{"job_id":"j","out":null,"name":"n","more":1}"#)).unwrap();
    assert_eq!((read.job_id.as_str(), read.out, read.name.as_deref()), ("j", None, Some("n")));
    for text in [r#"{"out":"o"}"#, r#"{"job_id":1}"#, r#"{"job_id":"j","out":1}"#, r#"{"job_id":"j","name":[]}"#, "[]"] {
        assert!(Ticket::from_json(&json(text)).is_none());
    }
}

#[test]
fn a_lost_job_is_reported() {
    assert_eq!(
        lookup_failed(&ticket("j", Some("o"), Some("n")), "404 Not Found").to_value(),
        value(
            r#"{"job_id":"j","name":"n","ok":false,"status":"unknown",
            "error":{"code":"job_lookup_failed","message":"HTTP 404 Not Found"}}"#
        )
    );
}

#[test]
fn the_ticket_says_where_the_output_goes() {
    let payload = json(r#"{"job":{"status":"completed"}}"#);
    let own = OpenTask::new(&ticket("j", Some("o"), None), &payload, Some("noted".to_string()));
    assert_eq!(own.dest().as_deref(), Some("o"));
    let noted = OpenTask::new(&ticket("j", None, None), &payload, Some("noted".to_string()));
    assert_eq!(noted.dest().as_deref(), Some("noted"));
    assert_eq!(OpenTask::new(&ticket("j", None, None), &payload, None).dest(), None);
    let running = json(r#"{"job":{"status":"running"}}"#);
    assert_eq!(OpenTask::new(&ticket("j", Some("o"), None), &running, None).dest(), None);
    let failed = json(r#"{"job":{"status":"failed","error":"e"}}"#);
    let open = OpenTask::new(&ticket("j", Some("o"), None), &failed, None);
    assert_eq!(open.dest(), None);
    assert_eq!(
        open.task(&ticket("j", Some("o"), None), Json::Null).to_value(),
        value(
            r#"{"job_id":"j","name":null,"out":"o","ok":false,"status":"failed","output":null,"error":"e",
            "job":{"status":"failed","error":"e"}}"#
        )
    );
    let nothing = OpenTask::new(&ticket("j", None, None), &json("{}"), None);
    assert_eq!(
        nothing.task(&ticket("j", None, None), Json::Null).to_value(),
        value(
            r#"{"job_id":"j","name":null,"out":null,"ok":false,"status":"unknown","output":null,
            "error":null,"job":null}"#
        )
    );
}

#[test]
fn reports_are_classified() {
    assert!(classify(&json(r#"{"status":"completed","ok":true}"#)) == Outcome::Completed);
    assert!(classify(&json(r#"{"status":"completed","ok":false}"#)) == Outcome::Failed);
    assert!(classify(&json(r#"{"status":"running","ok":true}"#)) == Outcome::Pending);
    assert!(classify(&json("{}")) == Outcome::Pending);
    let lost = r#"{"status":"completed","ok":true,"error":{"code":"job_lookup_failed"}}"#;
    assert!(classify(&json(lost)) == Outcome::Failed);
    assert!(classify(&json(r#"{"status":"completed","ok":true,"error":"job_lookup_failed"}"#)) == Outcome::Completed);
}

#[test]
fn outcomes_are_tallied() {
    let tasks = [
        r#"{"status":"completed","ok":true}"#,
        r#"{"status":"failed","ok":false}"#,
        r#"{"status":"running","ok":false}"#,
        r#"{"status":"partial_failed","ok":true}"#,
    ];
    let summary = summarize(tasks.iter().map(|t| json(t)).collect());
    let all = format!(
        r#"{{"ok":true,"command":"jobs status","pending":1,"completed":2,"failed":1,"done":false,
        "all_ok":false,"tasks":[{}]}}"#,
        tasks.join(",")
    );
    assert_eq!(summary.to_value(), value(&all));
    let done = summarize(vec![json(tasks[0]), json(tasks[1])]);
    assert!(done.is_true_at("done") && !done.is_true_at("all_ok"));
    let well = summarize(vec![json(tasks[0]), json(tasks[3])]);
    assert!(well.is_true_at("done") && well.is_true_at("all_ok"));
}

#[test]
fn tickets_are_asked_about_one_after_the_other() {
    let store = remember_ticket(None, "b", "noted.png").unwrap();
    let mut flow = StatusFlow::new(vec![ticket("a", None, None), ticket("b", None, Some("n"))]);
    assert!(matches!(flow.action(), StatusAction::Ensure));
    flow = flow.step(polled("{}"));
    assert!(matches!(flow.action(), StatusAction::Ensure));
    flow = flow.step(StatusEvent::Ensured(Ok(info_at(1, None, None, "1"))));
    assert!(matches!(flow.action(), StatusAction::Poll(url) if url == "http://127.0.0.1:8787/api/jobs/a"));
    flow = flow.step(polled(r#"{"job":{"status":"running"}}"#));
    assert!(matches!(flow.action(), StatusAction::Poll(url) if url == "http://127.0.0.1:8787/api/jobs/b"));
    flow = flow.step(StatusEvent::Polled {
        answer: Polled::Answered(json(r#"{"job":{"status":"completed"}}"#)),
        store: Some(store),
    });
    assert!(matches!(flow.action(), StatusAction::Copy { job, dest }
        if dest == "noted.png" && job.str_at("status") == Some("completed")));
    flow = flow.step(StatusEvent::Copied(Ok(json(r#"{"path":"noted.png"}"#))));
    assert!(matches!(flow.action(), StatusAction::Finish));
    let Some(Ok(summary)) = flow.result() else { panic!("no summary") };
    assert_eq!(
        summary.to_value(),
        value(
            r#"{"ok":true,"command":"jobs status","pending":1,"completed":1,"failed":0,"done":false,
            "all_ok":false,"tasks":[
            {"job_id":"a","name":null,"out":null,"ok":false,"status":"running","output":null,"error":null,
             "job":{"status":"running"}},
            {"job_id":"b","name":"n","out":"noted.png","ok":true,"status":"completed",
             "output":{"path":"noted.png"},"error":null,"job":{"status":"completed"}}]}"#
        )
    );
}

#[test]
fn asking_ends_at_the_first_error() {
    let flow = || StatusFlow::new(vec![ticket("a", Some("o"), None)]);
    assert!(flow().result().is_none());
    let down = flow().step(StatusEvent::Ensured(Err("down".to_string())));
    assert!(matches!(down.result(), Some(Err(m)) if m == "down"));
    let asked = || flow().step(StatusEvent::Ensured(Ok(info_at(1, None, None, "1"))));
    let reset = asked().step(StatusEvent::Polled {
        answer: Polled::Failed("reset".to_string()),
        store: None,
    });
    assert!(matches!(reset.result(), Some(Err(m)) if m == "reset"));
    let full = asked()
        .step(polled(r#"{"job":{"status":"completed"}}"#))
        .step(StatusEvent::Copied(Err("full".to_string())));
    assert!(matches!(full.result(), Some(Err(m)) if m == "full"));
    let lost = asked().step(StatusEvent::Polled {
        answer: Polled::Refused("404 Not Found".to_string()),
        store: None,
    });
    let Some(Ok(summary)) = lost.result() else { panic!("no summary") };
    assert_eq!(summary.to_value()["failed"], Value::from(1));
}

#[test]
fn jobs_status_replies_with_its_summary_or_its_failure() {
    let reply = print_status(Ok(Json::object().with("all_ok", Json::Bool(false))));
    assert_eq!((reply.code, reply.text.as_str()), (0, "{\n  \"all_ok\": false\n}"));
    let failed = print_status(Err("--id requires a job id".to_string()));
    assert_eq!(failed.code, 1);
    assert_eq!(
        value(&failed.text),
        value(
            r#"{"ok":false,"command":"jobs status",
            "error":{"code":"jobs_status_failed","message":"--id requires a job id"}}"#
        )
    );
}
