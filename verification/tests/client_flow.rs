use gpt_image_2_skill::client::{
    command_name, edit_request, fallback_local, generate_request, is_terminal, job_ok, job_url, provider_arg,
    read_upload, run_images, upload_named, EditArgs, Enqueued, ImageArgs, ImagesCommand, ImagesEvent,
    ImagesFlow, ImagesPhase, JobWait, Polled, WaitNext, POLL_INTERVAL_SECS, POLL_TIMEOUT_SECS,
};
use gpt_image_2_skill::daemon::{info_at, DaemonInfo};
use gpt_image_2_skill::jobs::Ticket;
use gpt_image_2_skill::json::Json;
use gpt_image_2_skill::outputs::{copied, copy_failed, copy_outputs_to, plan_copies, plan_tasks};
use gpt_image_2_skill::tickets::{
    add_ticket, lookup_ticket_out, read_ticket_map, remember_ticket, store_from, ticket_out, ticket_store_path,
};
use serde_json::Value;

fn value(text: &str) -> Value {
    serde_json::from_str(text).unwrap()
}

fn json(text: &str) -> Json {
    Json::parse(text).unwrap()
}

fn info() -> DaemonInfo {
    info_at(8, None, None, "1")
}

fn shared() -> ImageArgs {
    ImageArgs {
        prompt: "a cat".to_string(),
        out: "out/cat.png".to_string(),
        size: Some("2K".to_string()),
        output_format: Some("png".to_string()),
        quality: None,
        background: "auto".to_string(),
        n: Some(2),
        output_compression: Some(7),
        moderation: None,
    }
}

fn edit() -> EditArgs {
    EditArgs {
        shared: shared(),
        input_fidelity: Some("high".to_string()),
        ref_image: vec!["in/a.png".to_string(), "..".to_string()],
        mask: Some("m.png".to_string()),
    }
}

fn answered(success: bool, status: &str, payload: &str) -> ImagesEvent {
    ImagesEvent::Sent(Enqueued::Answered { success, status: status.to_string(), payload: json(payload) })
}

fn sent(no_wait: bool, event: ImagesEvent) -> ImagesFlow {
    ImagesFlow::new(&ImagesCommand::Generate(shared()), no_wait, None)
        .step(ImagesEvent::Ensured(Ok(info())))
        .step(event)
}

#[test]
fn the_provider_is_named_only_where_it_is_chosen() {
    assert_eq!(provider_arg(" codex\n"), Some("codex".to_string()));
    assert_eq!(provider_arg(" auto "), None);
    assert_eq!(provider_arg("  "), None);
    assert_eq!(provider_arg("Auto"), Some("Auto".to_string()));
}

#[test]
fn a_generate_request_asks_for_what_the_arguments_say() {
    let request = generate_request(" openai ", &shared());
    assert_eq!(request.prompt, "a cat");
    assert_eq!(request.provider.as_deref(), Some("openai"));
    assert_eq!(request.size.as_deref(), Some("2K"));
    assert_eq!(request.format.as_deref(), Some("png"));
    assert_eq!(request.quality, None);
    assert_eq!(request.background.as_deref(), Some("auto"));
    assert_eq!((request.n, request.compression), (Some(2), Some(7)));
    assert_eq!(request.moderation, None);
    assert!(request.storage_targets.is_none() && request.fallback_targets.is_none());
}

#[test]
fn an_edit_request_carries_its_files() {
    let request =
        edit_request("auto", &edit(), vec![Ok(vec![1]), Ok(vec![2, 3])], Some(Ok(vec![4]))).unwrap();
    assert_eq!(request.base.provider, None);
    assert_eq!(request.input_fidelity.as_deref(), Some("high"));
    let refs: Vec<(&str, &[u8])> =
        request.refs.iter().map(|file| (file.name.as_str(), file.bytes.as_slice())).collect();
    assert_eq!(refs, vec![("a.png", &[1u8][..]), ("image.png", &[2u8, 3][..])]);
    let mask = request.mask.unwrap();
    assert_eq!((mask.name.as_str(), mask.bytes.as_slice()), ("m.png", &[4u8][..]));
    assert!(request.selection_hint.is_none());
}

#[test]
fn an_edit_is_refused_by_the_first_file_that_is_not_read() {
    let gone = || Err::<Vec<u8>, String>("gone".to_string());
    let refused = |contents, mask| edit_request("auto", &edit(), contents, mask).err().unwrap();
    assert_eq!(refused(vec![gone(), gone()], Some(gone())), "Unable to read in/a.png: gone");
    assert_eq!(refused(vec![Ok(vec![]), gone()], Some(gone())), "Unable to read ..: gone");
    assert_eq!(refused(vec![Ok(vec![]), Ok(vec![])], Some(gone())), "Unable to read m.png: gone");
}

#[test]
fn uploads_are_named_after_their_files() {
    assert_eq!(read_upload("x/y.webp", Ok(vec![9])).unwrap().name, "y.webp");
    assert_eq!(read_upload("/", Ok(vec![])).unwrap().name, "image.png");
    assert_eq!(upload_named("p", Some("n".to_string()), Ok(vec![])).unwrap().name, "n");
    assert_eq!(upload_named("p", None, Ok(vec![])).unwrap().name, "image.png");
    let refused = upload_named("p", None, Err("e".to_string())).err().unwrap();
    assert_eq!(refused, "Unable to read p: e");
}

#[test]
fn commands_have_names() {
    assert_eq!(command_name(&ImagesCommand::Generate(shared())), "images generate");
    assert_eq!(command_name(&ImagesCommand::Edit(edit())), "images edit");
    assert_eq!(fallback_local(), 1);
}

#[test]
fn job_states_are_told_apart() {
    for status in ["completed", "partial_failed", "failed", "cancelled", "canceled"] {
        assert!(is_terminal(status));
    }
    for status in ["", "queued", "running", "Completed", "unknown"] {
        assert!(!is_terminal(status));
    }
    assert!(job_ok(&json(r#"{"status":"completed"}"#)));
    assert!(job_ok(&json(r#"{"status":"partial_failed"}"#)));
    assert!(!job_ok(&json(r#"{"status":"failed"}"#)));
    assert!(!job_ok(&json(r#"{"status":1}"#)));
    assert!(!job_ok(&json("null")));
}

#[test]
fn commands_go_to_their_own_urls() {
    let generate = ImagesFlow::new(&ImagesCommand::Generate(shared()), false, None);
    assert_eq!(generate.enqueue_url(&info()), "http://127.0.0.1:8787/api/images/generate");
    let change = ImagesFlow::new(&ImagesCommand::Edit(edit()), false, Some("yes"));
    assert_eq!(change.enqueue_url(&info()), "http://127.0.0.1:8787/api/images/edit");
    assert!(change.no_wait && !generate.no_wait);
    assert_eq!(change.out, "out/cat.png");
    assert_eq!(job_url(&info(), "j1"), "http://127.0.0.1:8787/api/jobs/j1");
}

#[test]
fn a_command_ends_where_the_daemon_does_not_run() {
    let flow = ImagesFlow::new(&ImagesCommand::Generate(shared()), false, None)
        .step(ImagesEvent::Ensured(Err("down".to_string())));
    assert!(matches!(flow.phase, ImagesPhase::Finished(Err(ref m)) if m == "down"));
    let still = flow.step(ImagesEvent::Ensured(Ok(info())));
    assert!(matches!(still.phase, ImagesPhase::Finished(Err(ref m)) if m == "down"));
    let unsent = sent(false, ImagesEvent::Sent(Enqueued::Failed("reset".to_string())));
    assert!(matches!(unsent.phase, ImagesPhase::Finished(Err(ref m)) if m == "reset"));
}

#[test]
fn a_refused_command_is_answered_with_the_error() {
    let own = sent(true, answered(false, "400 Bad Request", r#"{"error":{"code":"x"},"job_id":"j"}"#));
    let ImagesPhase::Finished(Ok(reply)) = own.phase else { panic!("not finished") };
    assert_eq!(reply.to_value(), value(r#"{"ok":false,"error":{"code":"x"}}"#));
    let bare = sent(false, answered(false, "502 Bad Gateway", "[]"));
    let ImagesPhase::Finished(Ok(reply)) = bare.phase else { panic!("not finished") };
    assert_eq!(
        reply.to_value(),
        value(r#"{"ok":false,"error":{"code":"http_error","message":"Daemon returned 502 Bad Gateway"}}"#)
    );
    assert_eq!(run_images(Ok(reply)).code, 1);
}

#[test]
fn a_command_without_a_job_is_an_error() {
    let flow = sent(true, answered(true, "200 OK", r#"{"job_id":5}"#));
    assert!(matches!(flow.phase, ImagesPhase::Finished(Err(ref m))
        if m == "Daemon enqueue response did not include job_id."));
}

#[test]
fn a_job_that_is_not_waited_for_leaves_a_ticket() {
    let flow = sent(true, answered(true, "200 OK", r#"{"job_id":"j7","extra":1,"ok":false}"#));
    let ImagesPhase::Remember { ref job_id, .. } = flow.phase else { panic!("no ticket") };
    assert_eq!(job_id, "j7");
    let ImagesPhase::Finished(Ok(reply)) = flow.step(ImagesEvent::Remembered).phase else {
        panic!("not finished")
    };
    assert_eq!(
        reply.to_value(),
        value(
            r#"{"job_id":"j7","extra":1,"ok":true,"command":"images generate","queued":true,
            "out":"out/cat.png","status":"queued","ticket":{"job_id":"j7","out":"out/cat.png"}}"#
        )
    );
    let ticket = Ticket::from_json(reply.get("ticket").unwrap()).unwrap();
    assert_eq!((ticket.job_id.as_str(), ticket.out.as_deref()), ("j7", Some("out/cat.png")));
    assert_eq!(ticket.name, None);
    assert_eq!(run_images(Ok(reply)).code, 0);
    let told = sent(true, answered(true, "200 OK", r#"{"job_id":"j7","status":"running"}"#));
    let ImagesPhase::Remember { reply, .. } = told.phase else { panic!("no ticket") };
    assert_eq!(reply.str_at("status"), Some("running"));
}

#[test]
fn a_job_that_is_waited_for_is_copied_and_reported() {
    let flow = sent(false, answered(true, "200 OK", r#"{"job_id":"j7"}"#));
    assert!(matches!(flow.phase, ImagesPhase::Wait { ref job_id, .. } if job_id == "j7"));
    let flow = flow.step(ImagesEvent::Waited(Ok(json(
        r#"{"status":"completed","provider":"openai"}"#,
    ))));
    assert!(matches!(flow.phase, ImagesPhase::Copy { .. }));
    let flow = flow.step(ImagesEvent::Copied(Ok(json(r#"{"path":"p"}"#))));
    let ImagesPhase::Finished(Ok(reply)) = flow.phase else { panic!("not finished") };
    assert_eq!(
        reply.to_value(),
        value(
            r#"{"ok":true,"command":"images generate","provider":"openai","job_id":"j7","queued":true,
            "status":"completed","output":{"path":"p"},"error":null,
            "job":{"status":"completed","provider":"openai"}}"#
        )
    );
}

#[test]
fn waiting_and_copying_can_fail() {
    let waiting = || sent(false, answered(true, "200 OK", r#"{"job_id":"j7"}"#));
    let lost = waiting().step(ImagesEvent::Waited(Err("late".to_string())));
    assert!(matches!(lost.phase, ImagesPhase::Finished(Err(ref m)) if m == "late"));
    let full = waiting()
        .step(ImagesEvent::Waited(Ok(json(r#"{"status":"failed","error":"e"}"#))))
        .step(ImagesEvent::Copied(Err("disk full".to_string())));
    assert!(matches!(full.phase, ImagesPhase::Finished(Err(ref m)) if m == "disk full"));
}

#[test]
fn a_failed_request_is_replied() {
    let reply = run_images(Err("down".to_string()));
    assert_eq!(reply.code, 1);
    assert_eq!(
        value(&reply.text),
        value(r#"{"ok":false,"error":{"code":"daemon_request_failed","message":"down"}}"#)
    );
}

#[test]
fn waiting_shows_each_event_once() {
    let mut wait = JobWait::new("j1");
    let ask = |events: &str| Polled::Answered(json(&format!(r#"{{"job":{{"status":"running"}},"events":{events}}}"#)));
    let (shown, next) = wait.poll(ask(r#"["a","b"]"#), false);
    assert_eq!(shown.iter().map(|e| e.line()).collect::<Vec<_>>(), vec!["\"a\"", "\"b\""]);
    assert!(matches!(next, WaitNext::Pending));
    let (shown, _) = wait.poll(ask(r#"["a","b","c"]"#), false);
    assert_eq!(shown.iter().map(|e| e.line()).collect::<Vec<_>>(), vec!["\"c\""]);
    let (shown, _) = wait.poll(Polled::Answered(json(r#"{"job":{}}"#)), false);
    assert!(shown.is_empty());
    assert_eq!(wait.seen_events, 3);
    let (shown, _) = wait.poll(ask(r#"["x"]"#), false);
    assert!(shown.is_empty());
    assert_eq!(wait.seen_events, 1);
}

#[test]
fn waiting_ends_with_the_job_or_a_reason() {
    let mut wait = JobWait::new("j1");
    let over = Polled::Answered(json(r#"{"job":{"status":"canceled"}}"#));
    assert!(matches!(wait.poll(over, true).1, WaitNext::Over(ref job) if job.str_at("status") == Some("canceled")));
    let fails = |wait: &mut JobWait, polled: Polled, expired: bool| match wait.poll(polled, expired).1 {
        WaitNext::Failed(message) => message,
        _ => panic!("no failure"),
    };
    assert_eq!(fails(&mut wait, Polled::Failed("reset".to_string()), false), "reset");
    assert_eq!(
        fails(&mut wait, Polled::Refused("404 Not Found".to_string()), false),
        "Polling job failed: 404 Not Found"
    );
    assert_eq!(fails(&mut wait, Polled::Answered(json("{}")), false), "Job payload missing.");
    let running = Polled::Answered(json(r#"{"job":{"status":"running"}}"#));
    assert_eq!(fails(&mut wait, running, true), "Timed out waiting for job j1.");
    assert_eq!((POLL_INTERVAL_SECS, POLL_TIMEOUT_SECS), (1, 20 * 60));
}

#[test]
fn a_single_output_goes_to_the_path_itself() {
    let plan = plan_copies(&json(r#"{"output_path":"/tmp/x.png","outputs":[]}"#), "a/b.png");
    assert_eq!(plan.dir.as_deref(), Some("a"));
    assert_eq!(plan.tasks.len(), 1);
    assert_eq!((plan.tasks[0].source.as_str(), plan.tasks[0].dest.as_str()), ("/tmp/x.png", "a/b.png"));
    let report = copy_outputs_to(&plan, Ok(()), &vec![Ok(12)]).unwrap();
    assert_eq!(
        report.to_value(),
        value(r#"{"path":"a/b.png","files":[{"index":0,"path":"a/b.png","bytes":12}]}"#)
    );
}

#[test]
fn several_outputs_go_to_numbered_paths() {
    let job = json(r#"{"outputs":[{"path":"1","index":4},{"no":"path"},{"path":"3"},{"path":"4","index":0}]}"#);
    let plan = plan_copies(&job, "b.png");
    assert_eq!(plan.dir, None);
    let dests: Vec<&str> = plan.tasks.iter().map(|task| task.dest.as_str()).collect();
    assert_eq!(dests, vec!["b-1.png", "b-3.png", "b-4.png"]);
    let report = copied(&plan.tasks, &vec![1, 2, 3]);
    assert_eq!(
        report.to_value(),
        value(
            r#"{"path":"b-4.png","files":[{"index":4,"path":"b-1.png","bytes":1},
            {"index":2,"path":"b-3.png","bytes":2},{"index":0,"path":"b-4.png","bytes":3}]}"#
        )
    );
    let first = copied(&plan_copies(&json(r#"{"outputs":[{"path":"1","index":4}]}"#), "b").tasks, &vec![1]);
    assert_eq!(first.str_at("path"), Some("b"));
}

#[test]
fn a_job_without_outputs_has_nothing_to_copy() {
    assert_eq!(plan_copies(&json(r#"{"output_path":"s"}"#), "a/b/").dir.as_deref(), Some("a"));
    let plan = plan_copies(&json(r#"{"outputs":"x"}"#), "a/b.png");
    assert_eq!(plan.dir, None);
    let report = copy_outputs_to(&plan, Ok(()), &Vec::new()).unwrap();
    assert_eq!(report.to_value(), value(r#"{"path":null,"files":[]}"#));
}

#[test]
fn copying_stops_at_the_first_failure() {
    let plan = plan_copies(&json(r#"{"outputs":[{"path":"s1"},{"path":"s2"}]}"#), "d/o.png");
    let failed = copy_outputs_to(&plan, Ok(()), &vec![Err("full".to_string())]).err().unwrap();
    assert_eq!(failed, "Unable to copy s1 -> d/o-1.png: full");
    let failed = copy_outputs_to(&plan, Ok(()), &vec![Ok(1), Err("full".to_string())]).err().unwrap();
    assert_eq!(failed, "Unable to copy s2 -> d/o-2.png: full");
    let failed = copy_outputs_to(&plan, Err("denied".to_string()), &Vec::new()).err().unwrap();
    assert_eq!(failed, "denied");
    assert_eq!(copy_failed("a", "b", "c"), "Unable to copy a -> b: c");
}

#[test]
fn copy_tasks_follow_the_given_places() {
    let files = vec![json(r#"{"path":"s"}"#), json("3")];
    let tasks = plan_tasks(&files, &vec!["d0".to_string(), "d1".to_string()]);
    assert_eq!(tasks.len(), 1);
    assert_eq!((tasks[0].source.as_str(), tasks[0].dest.as_str()), ("s", "d0"));
    assert_eq!(tasks[0].index.as_u64(), Some(0));
}

#[test]
fn a_remembered_ticket_is_found_again() {
    let first = remember_ticket(None, "j1", "a.png").unwrap();
    let second = remember_ticket(Some(&first), "j2", "b.png").unwrap();
    let third = remember_ticket(Some(&second), "j1", "c.png").unwrap();
    assert_eq!(lookup_ticket_out(Some(&second), "j1").as_deref(), Some("a.png"));
    assert_eq!(lookup_ticket_out(Some(&third), "j1").as_deref(), Some("c.png"));
    assert_eq!(lookup_ticket_out(Some(&third), "j2").as_deref(), Some("b.png"));
    assert_eq!(lookup_ticket_out(Some(&third), "j3"), None);
    assert_eq!(first, "{\n  \"j1\": \"a.png\"\n}");
    assert_eq!(remember_ticket(Some(&third), "j1", "c.png").unwrap(), third);
    assert_eq!(read_ticket_map(Some(&third)).to_value(), value(r#"{"j1":"c.png","j2":"b.png"}"#));
}

#[test]
fn a_broken_store_counts_as_empty() {
    for content in ["", "[]", "\"x\"", "{"] {
        assert_eq!(read_ticket_map(Some(content)).to_value(), value("{}"));
    }
    assert_eq!(read_ticket_map(None).to_value(), value("{}"));
    assert_eq!(store_from(Some(Json::Null)).to_value(), value("{}"));
    assert_eq!(lookup_ticket_out(Some(r#"{"j":1}"#), "j"), None);
    let store = add_ticket(store_from(None), "j", "o");
    assert_eq!(ticket_out(&store, "j").as_deref(), Some("o"));
    assert_eq!(ticket_store_path("/c"), "/c/client-outs.json");
}
