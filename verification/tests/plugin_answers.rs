use griffon::cleaner::command::{
    error_reply, missing_paths_reply, missing_payload_reply, unknown_function_reply,
    CleanerErrorKind,
};
use griffon::containers::{
    cli_failed, container_of, container_of_line, invalid_arguments_message, invalid_payload_reply, launch_failed,
    serialize_message,
};
use griffon::scanner::category::ThreatCategory;
use griffon::scanner::engine::{ScanOptions, STATE_LOADING, STATE_READY, STATE_STOPPED};
use griffon::scanner::plugin::{
    db_state_request, invalid_arguments, invalid_payload, quarantine_answer,
    quarantine_unavailable, reply, restore_answer, scan_request, serialize_failed,
    serialize_report_failed, update_answer,
};

#[test]
fn scanner_answers_are_worded() {
    assert_eq!(reply(Ok("{\"ok\":true}".to_string())), "{\"ok\":true}");
    assert_eq!(reply(Err("boom".to_string())), "ERR: boom");
    assert_eq!(invalid_arguments("missing field"), "ERR invalid arguments: missing field");
    assert_eq!(serialize_failed("x"), "ERR json serialize: x");
    assert_eq!(invalid_payload("eof"), "ERR invalid payload json: eof");
    assert_eq!(quarantine_unavailable("ro"), "Failed to initialize quarantine: ro");
    assert_eq!(serialize_report_failed("report", "nan"), "Failed to serialize report: nan");
    let a = quarantine_answer("/tmp/x", Ok(())).ok().unwrap();
    assert!(a.ok);
    assert_eq!(a.message, "/tmp/x quarantined successfully");
    assert_eq!(
        quarantine_answer("/tmp/x", Err("gone".to_string())).err().unwrap(),
        "Failed to quarantine /tmp/x: gone"
    );
    assert_eq!(
        restore_answer("n", Ok("/home/a".to_string())).ok().unwrap().message,
        "Restored to /home/a"
    );
    assert_eq!(
        restore_answer("n", Err("busy".to_string())).err().unwrap(),
        "Failed to restore n: busy"
    );
    assert_eq!(update_answer(Ok(())).ok().unwrap().message, "Update completed successfully");
    assert_eq!(update_answer(Err("offline".to_string())).err().unwrap(), "Update failed: offline");
}

#[test]
fn scan_requests_wait_for_a_ready_engine() {
    let opts = ScanOptions {
        paths: vec!["/home".to_string()],
        archive: true,
        folder: false,
        threading: "auto".to_string(),
        threads: 0,
        threats: vec!["rootkits".to_string()],
    };
    assert_eq!(
        scan_request(STATE_LOADING, &opts).err().unwrap(),
        "Engine is still loading signatures, try again shortly"
    );
    assert_eq!(
        scan_request(STATE_STOPPED, &opts).err().unwrap(),
        "Engine is not running, call start first"
    );
    let args = scan_request(STATE_READY, &opts).ok().unwrap();
    assert_eq!(args.paths, vec!["/home"]);
    assert_eq!(args.included, vec![ThreatCategory::Rootkit]);
    assert_eq!(db_state_request(STATE_READY, 7), Ok(7));
    assert!(db_state_request(9, 7).is_err());
}

#[test]
fn cleaner_failures_are_worded() {
    assert_eq!(error_reply(CleanerErrorKind::Context, "no file"), "ERR context: no file");
    assert_eq!(
        error_reply(CleanerErrorKind::SerializeFront, "x"),
        "ERR json serialize front payload: x"
    );
    assert_eq!(
        error_reply(CleanerErrorKind::DeleteArgsJson, "eof"),
        "ERR delete_selected invalid JSON args: eof"
    );
    assert_eq!(missing_paths_reply(), "ERR delete_selected requires at least one path");
    assert_eq!(missing_payload_reply(), "ERR missing payload");
    assert_eq!(unknown_function_reply("fly"), "ERR unknown function: fly");
}

#[test]
fn containers_default_missing_fields() {
    let c = container_of(Some("abc"), None, Some("nginx"), Some("running"), None);
    assert_eq!(c.id, "abc");
    assert_eq!(c.name, "Unknown");
    assert_eq!(c.image, "nginx");
    assert_eq!(c.state, "running");
    assert_eq!(c.status, "Unknown");
    assert_eq!(launch_failed("no binary"), "Failed to execute docker command: no binary");
    assert_eq!(cli_failed("denied"), "Docker CLI error: denied");
    assert_eq!(invalid_arguments_message("x"), "invalid arguments: x");
    assert_eq!(serialize_message("y"), "json serialize: y");
    assert_eq!(invalid_payload_reply("{oops"), "ERR invalid payload json: {oops");
}

#[test]
fn docker_ps_lines_become_containers() {
    let c = container_of_line(
        r#"{"ID":"f00","Names":"web","Image":"nginx","State":"running","Status":"Up 2 hours","Size":3}"#,
    )
    .unwrap();
    assert_eq!(c.id, "f00");
    assert_eq!(c.name, "web");
    assert_eq!(c.image, "nginx");
    assert_eq!(c.state, "running");
    assert_eq!(c.status, "Up 2 hours");
    let partial = container_of_line(r#"{"ID":7,"Names":"db"}"#).unwrap();
    assert_eq!(partial.id, "Unknown");
    assert_eq!(partial.name, "db");
    assert_eq!(partial.status, "Unknown");
    assert!(container_of_line("   ").is_none());
    assert!(container_of_line("not json").is_none());
    assert_eq!(container_of_line("[1,2]").unwrap().id, "Unknown");
}
