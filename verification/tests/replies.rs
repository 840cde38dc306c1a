use gpt_image_2_skill::json::{Json, Reply};
use serde_json::Value;

fn value(text: &str) -> Value {
    serde_json::from_str(text).unwrap()
}

#[test]
fn json_goes_to_values_and_back() {
    let text = r#"{"a":[1,-2,2.5,true,null,"x"],"b":{"c":"d","e":{}},"f":[]}"#;
    let parsed = Json::parse(text).unwrap();
    assert_eq!(parsed.to_value(), value(text));
    assert_eq!(Json::from_value(&value(text)).to_value(), value(text));
    assert_eq!(parsed.copy().to_value(), value(text));
}

#[test]
fn text_that_is_no_json_is_not_read() {
    assert!(Json::parse("").is_none());
    assert!(Json::parse("{\"a\":}").is_none());
    assert!(Json::parse("{} {}").is_none());
}

#[test]
fn json_nests_only_so_deep() {
    let deep = |n: usize| "[".repeat(n) + &"]".repeat(n);
    assert!(Json::parse(&deep(127)).is_some());
    assert!(Json::parse(&deep(128)).is_none());
}

#[test]
fn entries_are_found_by_key() {
    let job = Json::parse(r#"{"status":"queued","n":3,"ok":true,"no":false,"neg":-1}"#).unwrap();
    assert_eq!(job.str_at("status"), Some("queued"));
    assert_eq!(job.str_at("n"), None);
    assert_eq!(job.str_at("missing"), None);
    assert!(job.is_true_at("ok"));
    assert!(!job.is_true_at("no"));
    assert!(!job.is_true_at("status"));
    assert_eq!(job.get("n").unwrap().as_u64(), Some(3));
    assert_eq!(job.get("neg").unwrap().as_u64(), None);
    assert_eq!(job.copy_at("missing").to_value(), Value::Null);
    assert_eq!(job.copy_at("n").to_value(), Value::from(3));
    assert!(Json::text("x").get("status").is_none());
    assert_eq!(Json::parse("1.0").unwrap().as_u64(), None);
}

#[test]
fn the_last_entry_under_a_key_counts() {
    let object = Json::object()
        .with("a", Json::unsigned(1))
        .with("b", Json::integer(-5))
        .with("a", Json::text("two"));
    assert_eq!(object.str_at("a"), Some("two"));
    assert_eq!(object.to_value(), value(r#"{"a":"two","b":-5}"#));
    assert_eq!(Json::opt_text(&None).to_value(), Value::Null);
    assert_eq!(Json::integer(7).to_value(), value("7"));
}

#[test]
fn replies_show_indented_json() {
    let reply = Reply::new(&Json::object().with("ok", Json::Bool(false)), "-", 3);
    assert_eq!(reply.text, "{\n  \"ok\": false\n}");
    assert_eq!(reply.code, 3);
}

#[test]
fn what_is_written_is_read_back() {
    let tree = Json::parse(r#"{"k":"v \" \n é","n":[18446744073709551615,-9]}"#).unwrap();
    let written = tree.pretty().unwrap();
    assert_eq!(Json::parse(&written).unwrap().to_value(), tree.to_value());
}

#[test]
fn events_are_written_on_one_line() {
    let event = Json::parse("{ \"phase\" : \"queued\",\n \"n\": [1, 2] }").unwrap();
    assert_eq!(event.line(), r#"{"n":[1,2],"phase":"queued"}"#);
}
