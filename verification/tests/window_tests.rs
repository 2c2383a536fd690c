use chrono::TimeZone;
use apm_monitor::container::util_payload_at;
use apm_monitor::db::{health_payload_at, monitor_payload_at};
use apm_monitor::json::Json;

fn local(secs: i64) -> String {
    chrono::Local.timestamp_opt(secs, 0).single().map(|d| d.format("%Y-%m-%dT%H:%M:%S%:z").to_string()).unwrap_or_default()
}

fn member<'a>(v: &'a Json, key: &str) -> &'a Json {
    match v {
        Json::Object(m) => &m.iter().find(|(k, _)| k == key).unwrap().1,
        _ => panic!("object expected"),
    }
}

fn text(v: &Json) -> &str {
    match v {
        Json::Str(s) => s.as_str(),
        _ => panic!("string expected"),
    }
}

const START: i64 = 1_551_113_065;
const END: i64 = 1_551_116_665;

#[test]
fn monitor_window_has_start_then_end_in_local_time() {
    let p = monitor_payload_at("QCE/CDB", "CpuUseRate", Json::Array(vec![]), START, END);
    assert_eq!(text(member(&p, "StartTime")), local(START));
    assert_eq!(text(member(&p, "EndTime")), local(END));
    assert_ne!(text(member(&p, "StartTime")), text(member(&p, "EndTime")));
}

#[test]
fn health_time_is_the_end_of_the_window() {
    let p = health_payload_at("mysql", "cdb-1", END);
    assert_eq!(text(member(&p, "Time")), local(END));
}

#[test]
fn util_window_has_start_then_end_in_local_time() {
    let p = util_payload_at("ap-shanghai", "[]", START, END);
    let q = match member(&p, "Query") {
        Json::Array(a) => &a[0],
        _ => panic!("array expected"),
    };
    assert_eq!(text(member(q, "StartTime")), local(START));
    assert_eq!(text(member(q, "EndTime")), local(END));
}
