use gpt_image_2_skill::fanout::{
    dispatch, is_command, not_a_job_list, parse_args, prepare_batch, prepare_job, prepare_named, push_opt,
    unreadable, FanoutJob, PreparedJob, RefImages,
};
use gpt_image_2_skill::json::Json;
use gpt_image_2_skill::pool::{Pool, PoolAction};
use gpt_image_2_skill::tasks::{
    ended_task, error_json, failure_json, report, run_child, task_payload, ChildOutput, TaskResult,
};
use serde_json::Value;

fn strings(list: &[&str]) -> Vec<String> {
    list.iter().map(|s| s.to_string()).collect()
}

fn value(text: &str) -> Value {
    serde_json::from_str(text).unwrap()
}

fn job(prompt: &str, out: &str) -> FanoutJob {
    FanoutJob {
        name: None,
        prompt: prompt.to_string(),
        ref_image: RefImages::Absent,
        out: out.to_string(),
        size: None,
        format: None,
        quality: None,
        input_fidelity: None,
        background: None,
        mask: None,
        compression: None,
        moderation: None,
    }
}

fn prepared(index: usize) -> PreparedJob {
    PreparedJob {
        index,
        name: format!("job {index}"),
        out: format!("{index}.png"),
        child_args: strings(&["--json", "images"]),
    }
}

fn ended(job: PreparedJob, attempt: u32, ok: bool) -> TaskResult {
    let stdout = if ok { b"{\"ok\":true}".to_vec() } else { b"{\"ok\":false}".to_vec() };
    run_child(job, attempt, ChildOutput::Ended { success: ok, code: Some(if ok { 0 } else { 1 }), stdout })
}

#[test]
fn fanout_is_told_by_its_two_words() {
    assert!(is_command(&strings(&["x", "images", "fanout"])));
    assert!(is_command(&strings(&["x", "--json", "images", "-v", "fanout", "more"])));
    assert!(!is_command(&strings(&["x", "fanout", "images"])));
    assert!(!is_command(&strings(&["x", "images"])));
    assert!(!is_command(&strings(&["images", "fanout"])));
}

#[test]
fn fanout_settings_have_defaults() {
    let (globals, path, max_parallel, retries) =
        parse_args(&strings(&["x", "images", "fanout", "--jobs", "j.json"])).unwrap();
    assert!(globals.is_empty());
    assert_eq!((path.as_str(), max_parallel, retries), ("j.json", 10, 2));
}

#[test]
fn fanout_settings_are_read_and_capped() {
    let (globals, path, max_parallel, retries) = parse_args(&strings(&[
        "x", "--json-events", "images", "--provider", "openai", "fanout", "--jobs", "a", "--json", "-m", "gpt",
        "--max-parallel", "99", "--jobs", "b", "--retries", "0",
    ]))
    .unwrap();
    assert_eq!(globals, strings(&["--provider", "openai", "-m", "gpt", "--json-events"]));
    assert_eq!((path.as_str(), max_parallel, retries), ("b", 10, 0));
    let (_, _, low, _) = parse_args(&strings(&["x", "--jobs", "a", "--max-parallel", "0"])).unwrap();
    assert_eq!(low, 1);
    let (_, _, mid, most) =
        parse_args(&strings(&["x", "--jobs", "a", "--max-parallel", "3", "--retries", "4294967295"])).unwrap();
    assert_eq!((mid, most), (3, u32::MAX));
}

#[test]
fn fanout_arguments_are_refused_at_the_first_fault() {
    let message = |list: &[&str]| parse_args(&strings(list)).unwrap_err();
    assert_eq!(message(&["x"]), "images fanout requires --jobs <file.json>");
    assert_eq!(message(&[]), "images fanout requires --jobs <file.json>");
    assert_eq!(message(&["x", "--jobs"]), "--jobs requires a file path");
    assert_eq!(message(&["x", "--max-parallel"]), "--max-parallel requires a number");
    assert_eq!(message(&["x", "--retries"]), "--retries requires a number");
    assert_eq!(message(&["x", "--retries", "-1"]), "Invalid --retries: -1");
    assert_eq!(message(&["x", "--max-parallel", "two"]), "Invalid --max-parallel: two");
    assert_eq!(message(&["x", "--retries", "4294967296"]), "Invalid --retries: 4294967296");
    assert_eq!(message(&["x", "--model"]), "--model requires a value");
    assert_eq!(message(&["x", "--wait", "--retries", "x"]), "Unknown fanout flag: --wait");
    assert_eq!(message(&["x", "--retries", "x", "--wait"]), "Invalid --retries: x");
}

#[test]
fn empty_reference_images_are_left_out() {
    assert!(RefImages::Absent.paths().is_empty());
    assert!(RefImages::One(String::new()).paths().is_empty());
    assert_eq!(RefImages::One("a".to_string()).paths(), strings(&["a"]));
    assert_eq!(RefImages::Many(strings(&["", "a", "", "b"])).paths(), strings(&["a", "b"]));
}

#[test]
fn a_job_without_images_is_generated() {
    let ready = prepare_job(0, &job("a cat", "out/cat.png"), &strings(&["--model", "m"])).unwrap();
    assert_eq!((ready.index, ready.name.as_str(), ready.out.as_str()), (0, "cat.png", "out/cat.png"));
    assert_eq!(
        ready.child_args,
        strings(&[
            "--json", "--model", "m", "images", "generate", "--prompt", "a cat", "--out", "out/cat.png"
        ])
    );
}

#[test]
fn a_job_with_images_is_an_edit_with_all_its_options() {
    let mut full = job("p", "o.png");
    full.name = Some("mine".to_string());
    full.ref_image = RefImages::Many(strings(&["r1", "", "r2"]));
    full.size = Some("2K".to_string());
    full.format = Some("webp".to_string());
    full.quality = Some("high".to_string());
    full.input_fidelity = Some("low".to_string());
    full.background = Some("opaque".to_string());
    full.mask = Some("m.png".to_string());
    full.compression = Some(80);
    full.moderation = Some("auto".to_string());
    let ready = prepare_job(3, &full, &[]).unwrap();
    assert_eq!(ready.name, "mine");
    assert_eq!(
        ready.child_args,
        strings(&[
            "--json", "images", "edit", "--ref-image", "r1", "--ref-image", "r2", "--prompt", "p", "--out",
            "o.png", "--size", "2K", "--format", "webp", "--quality", "high", "--input-fidelity", "low",
            "--background", "opaque", "--mask", "m.png", "--moderation", "auto", "--compression", "80",
        ])
    );
}

#[test]
fn jobs_are_named_after_their_files() {
    assert_eq!(prepare_job(0, &job("p", "a/.."), &[]).unwrap().name, "job");
    assert_eq!(prepare_job(0, &job("p", "a/b/"), &[]).unwrap().name, "b");
    let named = prepare_named(0, &job("p", "a"), &[], Some("f".to_string())).unwrap();
    assert_eq!(named.name, "f");
    assert_eq!(prepare_named(0, &job("p", "a"), &[], None).unwrap().name, "job");
}

#[test]
fn a_job_in_a_backslash_path_is_named_after_its_end() {
    let name = prepare_job(0, &job("p", "d\\o"), &[]).unwrap().name;
    assert!(name == "d\\o" || name == "o");
}

#[test]
fn jobs_need_a_prompt_and_an_output() {
    assert_eq!(prepare_job(0, &job(" \n", "o"), &[]).err().unwrap(), "Job 0 is missing prompt.");
    assert_eq!(prepare_job(12, &job("p", "\t"), &[]).err().unwrap(), "Job 12 is missing out.");
    assert_eq!(prepare_job(1, &job("", ""), &[]).err().unwrap(), "Job 1 is missing prompt.");
}

#[test]
fn a_batch_is_refused_as_a_whole() {
    assert_eq!(prepare_batch(&[], &[]).err().unwrap(), "Jobs file is empty.");
    let jobs = [job("p", "a"), job("p", ""), job("", "b")];
    assert_eq!(prepare_batch(&jobs, &[]).err().unwrap(), "Job 1 is missing out.");
    let ready = prepare_batch(&[job("p", "a"), job("q", "b")], &[]).unwrap();
    assert_eq!(ready.iter().map(|job| job.index).collect::<Vec<_>>(), vec![0, 1]);
    assert_eq!(ready[1].name, "b");
}

#[test]
fn options_are_pushed_only_where_they_are_set() {
    let mut list = strings(&["a"]);
    push_opt(&mut list, "--x", &None);
    push_opt(&mut list, "--y", &Some("1".to_string()));
    assert_eq!(list, strings(&["a", "--y", "1"]));
}

#[test]
fn unusable_files_are_named() {
    assert_eq!(unreadable("j.json", "not found"), "Unable to read j.json: not found");
    assert_eq!(not_a_job_list("eof"), "Jobs file must be a JSON array: eof");
}

#[test]
fn a_child_counts_as_ok_only_if_it_ends_well_and_says_so() {
    let run = |success: bool, code: Option<i32>, stdout: &[u8]| {
        run_child(prepared(2), 4, ChildOutput::Ended { success, code, stdout: stdout.to_vec() })
    };
    let good = run(true, Some(0), b" \n{\"ok\":true}\n");
    assert_eq!((good.ok, good.exit_code, good.attempt, good.index), (true, 0, 4, 2));
    assert_eq!((good.name.as_str(), good.out.as_str()), ("job 2", "2.png"));
    assert!(!run(false, Some(3), b"{\"ok\":true}").ok);
    assert_eq!(run(false, None, b"{\"ok\":true}").exit_code, 1);
    assert!(!run(true, Some(0), b"{\"ok\":1}").ok);
    assert!(!run(true, Some(0), b"[]").ok);
}

#[test]
fn a_child_that_prints_something_else_is_quoted() {
    let said = run_child(
        prepared(0),
        1,
        ChildOutput::Ended { success: true, code: Some(0), stdout: b"\tpanic \xff! ".to_vec() },
    );
    assert!(!said.ok);
    assert_eq!(
        said.payload.to_value(),
        value("{\"ok\":false,\"error\":{\"code\":\"child_output_invalid\",\"message\":\"panic \u{fffd}!\"}}")
    );
}

#[test]
fn a_child_that_never_started_is_a_failure() {
    let lost = run_child(prepared(0), 2, ChildOutput::NotStarted("no such file".to_string()));
    assert_eq!((lost.ok, lost.exit_code, lost.attempt), (false, 1, 2));
    assert_eq!(
        lost.payload.to_value(),
        value(r#"{"ok":false,"error":{"code":"child_spawn_failed","message":"no such file"}}"#)
    );
}

#[test]
fn a_result_follows_what_was_read() {
    let read = Json::object().with("ok", Json::Bool(true));
    assert!(ended_task(prepared(0), 1, true, Some(0), "ignored", Some(read)).ok);
    let unread = ended_task(prepared(0), 1, true, None, "text", None);
    assert_eq!(unread.exit_code, 1);
    assert_eq!(unread.payload.to_value(), failure_json("child_output_invalid", "text").to_value());
    assert_eq!(error_json("c", "m").to_value(), value(r#"{"code":"c","message":"m"}"#));
}

#[test]
fn results_are_reported_in_order() {
    let results = vec![ended(prepared(0), 1, true), ended(prepared(1), 3, false)];
    assert_eq!(
        task_payload(&results[1]).to_value(),
        value(
            r#"{"name":"job 1","out":"1.png","ok":false,"attempts":3,"exit_code":1,"result":{"ok":false}}"#
        )
    );
    assert_eq!(
        report(&results, "j.json", 4, 2, 77).to_value(),
        value(
            r#"{"ok":false,"command":"images fanout","jobs_file":"j.json","max_parallel":4,"retries":2,
            "elapsed_ms":77,"tasks":[
            {"name":"job 0","out":"0.png","ok":true,"attempts":1,"exit_code":0,"result":{"ok":true}},
            {"name":"job 1","out":"1.png","ok":false,"attempts":3,"exit_code":1,"result":{"ok":false}}]}"#
        )
    );
    assert!(report(&results[..1].iter().map(|_| ended(prepared(0), 1, true)).collect(), "j", 1, 0, 0)
        .is_true_at("ok"));
}

#[test]
fn negative_exit_codes_are_reported() {
    let result = ended_task(prepared(0), 1, false, Some(-9), "", None);
    assert_eq!(task_payload(&result).to_value()["exit_code"], Value::from(-9));
}

#[test]
fn fanout_replies_with_its_report_or_its_failure() {
    let good = dispatch(Ok(Json::object().with("ok", Json::Bool(true))));
    assert_eq!(good.code, 0);
    assert_eq!(dispatch(Ok(Json::object())).code, 1);
    let bad = dispatch(Err("Jobs file is empty.".to_string()));
    assert_eq!(bad.code, 1);
    assert_eq!(
        value(&bad.text),
        value(
            r#"{"ok":false,"command":"images fanout",
            "error":{"code":"fanout_failed","message":"Jobs file is empty."}}"#
        )
    );
}

#[test]
fn a_pool_runs_no_more_than_it_may() {
    let mut pool = Pool::new((0..3).map(prepared).collect(), 2, 0);
    assert!(matches!(pool.next(), PoolAction::Launch(job, 1) if job.index == 0));
    assert!(matches!(pool.next(), PoolAction::Launch(job, 1) if job.index == 1));
    assert!(matches!(pool.next(), PoolAction::Await));
    assert!(pool.awaits(1, 1));
    assert!(!pool.awaits(2, 1));
    pool.record(ended(prepared(1), 1, true));
    assert!(!pool.awaits(1, 1));
    assert!(matches!(pool.next(), PoolAction::Launch(job, 1) if job.index == 2));
    pool.record(ended(prepared(2), 1, false));
    assert!(matches!(pool.next(), PoolAction::Await));
    assert!(!pool.finished());
    pool.record(ended(prepared(0), 1, true));
    assert!(matches!(pool.next(), PoolAction::Finish));
    let results = pool.into_results();
    assert_eq!(results.iter().map(|r| r.index).collect::<Vec<_>>(), vec![0, 1, 2]);
    assert_eq!(results.iter().map(|r| r.ok).collect::<Vec<_>>(), vec![true, true, false]);
}

#[test]
fn a_failed_job_waits_behind_the_others_and_uses_up_its_retries() {
    let mut pool = Pool::new((0..2).map(prepared).collect(), 1, 2);
    let mut order: Vec<(usize, u32)> = Vec::new();
    loop {
        match pool.next() {
            PoolAction::Launch(job, attempt) => {
                order.push((job.index, attempt));
                assert_eq!(job.child_args, strings(&["--json", "images"]));
                let ok = job.index == 1;
                pool.record(ended(job, attempt, ok));
            }
            PoolAction::Await => unreachable!(),
            PoolAction::Finish => break,
        }
    }
    assert_eq!(order, vec![(0, 1), (1, 1), (0, 2), (0, 3)]);
    let results = pool.into_results();
    assert_eq!((results[0].ok, results[0].attempt), (false, 3));
    assert_eq!((results[1].ok, results[1].attempt), (true, 1));
}

#[test]
fn a_pool_without_jobs_is_finished() {
    let mut pool = Pool::new(Vec::new(), 1, 5);
    assert!(matches!(pool.next(), PoolAction::Finish));
    assert!(pool.into_results().is_empty());
}
