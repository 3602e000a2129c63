use griffon::daemon::dispatch::{
    route_client_request, task_not_queued, ClientRequest, DaemonTask,
    call_reply, event_of_message, handle_plugin_event_response, handle_switch_notification,
    handle_switch_plugin, hello_answer, not_implemented, queue_failed, reply_lost,
    send_call_failed, wait_failed,
};
use griffon::daemon::history::{
    history_line, info, plugin_call_rejected, plugin_call_requested, plugin_closed,
    plugin_enabled, plugin_history_path, plugin_result,
};
use griffon::daemon::registry::{alloc_request_id, is_shared_library, CallRefusal, PluginManager};
use griffon::daemon::settings::{
    send_plugin_response_notification, DaemonConfig, NotificationConfig, NotificationLevel,
    PluginSettings,
};
use griffon::daemon::types::{InterfaceResponse, PluginEvent, PluginInfoDto};
use griffon::gui::history::{
    extract_value, history_entries, history_file_uuid, newest_first_entries, parse_history_line,
};
use griffon::gui::plugins::plugin_notifications_enabled;
use griffon::runner::HelloOkPayload;
use griffon::wire::{ErrorPayload, Message, ResultPayload};

const SCANNER: [u8; 16] = [
    0xa1, 0xb2, 0xc3, 0xd4, 0x00, 0x01, 0x40, 0x02, 0x80, 0x03, 0x00, 0x00, 0x00, 0x00, 0x00,
    0x2a,
];
const SCANNER_TEXT: &str = "a1b2c3d4-0001-4002-8003-00000000002a";

fn scanner_info() -> PluginInfoDto {
    PluginInfoDto {
        pid: 4242,
        name: "Griffon Scanner".to_string(),
        plugin_uuid: SCANNER,
        status: true,
        path: "/usr/lib/griffon/plugins/libgriffon_scanner.so".to_string(),
        functions: vec!["scan".to_string()],
    }
}

#[test]
fn request_ids_skip_zero() {
    assert_eq!(alloc_request_id(0), 1);
    assert_eq!(alloc_request_id(41), 42);
    assert_eq!(alloc_request_id(u32::MAX), 1);
}

#[test]
fn plugins_are_shared_library_files() {
    assert!(is_shared_library("/p/libx.so", true));
    assert!(!is_shared_library("/p/libx.so", false));
    assert!(!is_shared_library("/p/libx.dll", true));
}

#[test]
fn notifications_follow_general_then_plugin_settings() {
    let mut cfg = NotificationConfig::default();
    assert!(cfg.is_enabled_for_plugin(&SCANNER));
    assert!(!cfg.switch_plugin_notification(&SCANNER));
    assert!(!cfg.is_enabled_for_plugin(&SCANNER));
    assert_eq!(cfg.plugins.len(), 1);
    assert_eq!(cfg.plugins[0].0, SCANNER_TEXT);
    assert!(cfg.switch_plugin_notification(&SCANNER));
    assert!(cfg.is_enabled_for_plugin(&SCANNER));
    assert_eq!(cfg.plugins.len(), 1);
    cfg.general.notifications_enabled = false;
    assert!(!cfg.is_enabled_for_plugin(&SCANNER));
}

#[test]
fn a_notification_is_built_only_when_shown() {
    let mut cfg = NotificationConfig::default();
    let n = send_plugin_response_notification(&cfg, &SCANNER, "Scanner", "scan", true).unwrap();
    assert_eq!(n.title, "Scanner finished");
    assert_eq!(n.body, "Function `scan` answered successfully.");
    assert_eq!(n.level, NotificationLevel::Success);
    let n = send_plugin_response_notification(&cfg, &SCANNER, "Scanner", "scan", false).unwrap();
    assert_eq!(n.title, "Scanner failed");
    assert_eq!(n.body, "Function `scan` returned an error.");
    assert_eq!(n.level, NotificationLevel::Error);
    cfg.plugins.push((
        SCANNER_TEXT.to_string(),
        PluginSettings {
            notifications_enabled: false,
        },
    ));
    assert!(send_plugin_response_notification(&cfg, &SCANNER, "Scanner", "scan", true).is_none());
}

#[test]
fn every_known_plugin_gets_settings_once() {
    let mut cfg = DaemonConfig::default();
    assert!(!cfg.ensure_plugin_exists(&[0u8; 16]));
    assert!(cfg.plugins.is_empty());
    assert!(cfg.ensure_plugin_exists(&SCANNER));
    assert!(!cfg.ensure_plugin_exists(&SCANNER));
    assert_eq!(cfg.plugins.len(), 1);
    assert!(cfg.plugins[0].1.notifications_enabled);
    assert!(plugin_notifications_enabled(&cfg, SCANNER_TEXT));
    cfg.plugins[0].1.notifications_enabled = false;
    assert!(!plugin_notifications_enabled(&cfg, SCANNER_TEXT));
    assert!(plugin_notifications_enabled(&cfg, "not-a-uuid"));
}

#[test]
fn history_lines_and_files() {
    let r = info("Scanner", SCANNER, "event=started".to_string());
    assert_eq!(
        history_line(1700000000, &r),
        format!("[1700000000][INFO][Scanner][{SCANNER_TEXT}] event=started\n")
    );
    assert_eq!(
        plugin_history_path("/var/log/griffon", &SCANNER),
        format!("/var/log/griffon/history_{SCANNER_TEXT}")
    );
    assert_eq!(
        plugin_history_path("/var/log/griffon/", &[0u8; 16]),
        "/var/log/griffon/history_unknown"
    );
}

#[test]
fn event_messages_list_their_fields() {
    let p = scanner_info();
    let r = plugin_enabled(&p);
    assert_eq!(r.level, "INFO");
    assert_eq!(
        r.message,
        format!(
            "event=plugin_enabled name=\"Griffon Scanner\" uuid=\"{SCANNER_TEXT}\" pid=4242 path=\"/usr/lib/griffon/plugins/libgriffon_scanner.so\""
        )
    );
    let r = plugin_call_requested(&p, 7, "scan", 2);
    assert!(r.message.starts_with("event=plugin_call_requested "));
    assert!(r.message.ends_with("request_id=7 function=\"scan\" args_count=2"), "{}", r.message);
    let r = plugin_call_rejected(&p, 8, "scan", "disabled");
    assert_eq!(r.level, "WARN");
    let r = plugin_closed("Scanner", SCANNER, 9, "eof");
    assert_eq!(r.level, "WARN");
    assert_eq!(
        r.message,
        format!("event=plugin_closed name=\"Scanner\" uuid=\"{SCANNER_TEXT}\" pid=9 reason=\"eof\"")
    );
    let r = plugin_result("Scanner", SCANNER, 9, 3, true, "done");
    assert!(r.message.ends_with("request_id=3 ok=true output=\"done\""));
}

#[test]
fn a_written_history_line_reads_back() {
    let p = scanner_info();
    let line = history_line(1700000123, &plugin_enabled(&p));
    let e = parse_history_line(&line, "fallback", "history_x").unwrap();
    assert_eq!(e.timestamp, 1700000123);
    assert_eq!(e.level, "INFO");
    assert_eq!(e.plugin_name, "Griffon Scanner");
    assert_eq!(e.plugin_uuid, SCANNER_TEXT);
    assert_eq!(e.event.as_deref(), Some("plugin_enabled"));
    assert_eq!(e.pid.as_deref(), Some("4242"));
    assert_eq!(
        e.path.as_deref(),
        Some("/usr/lib/griffon/plugins/libgriffon_scanner.so")
    );
    assert!(e.message.starts_with("event=plugin_enabled"));
    assert_eq!(e.source_file, "history_x");
}

#[test]
fn history_lines_that_are_not_well_formed() {
    let e = parse_history_line("[abc][WARN][x][] hello  ", "f-uuid", "file").unwrap();
    assert_eq!(e.timestamp, 0);
    assert_eq!(e.plugin_uuid, "f-uuid");
    assert_eq!(e.message, "hello");
    assert!(e.event.is_none());
    assert!(parse_history_line("[1][INFO][x] no uuid group", "f", "file").is_none());
    assert!(parse_history_line("plain text", "f", "file").is_none());
}

#[test]
fn values_are_extracted_quoted_or_bare() {
    assert_eq!(
        extract_value("event=x path=\"/a b/c\" pid=12 end", "path").as_deref(),
        Some("/a b/c")
    );
    assert_eq!(extract_value("event=x pid=12 end", "pid").as_deref(), Some("12"));
    assert_eq!(extract_value("pid=12", "pid").as_deref(), Some("12"));
    assert_eq!(extract_value("path=\"open", "path"), None);
    assert_eq!(extract_value("event=x", "pid"), None);
}

#[test]
fn the_register_finds_starts_and_calls_plugins() {
    let mut m = PluginManager::new("/plugins");
    assert_eq!(m.plugins_dir(), "/plugins");
    assert_eq!(m.check_plugin("/plugins/libscanner.so"), Some(0));
    assert_eq!(m.check_plugin("/plugins/libscanner.so"), None);
    assert_eq!(m.check_plugin("/plugins/libcleaner.so"), Some(1));
    let list = m.list_plugins();
    assert_eq!(list.len(), 2);
    assert_eq!(list[0].name, "libscanner.so");
    assert_eq!(list[0].plugin_uuid, [0u8; 16]);

    assert!(matches!(m.prepare_call(&SCANNER), Err(CallRefusal::NotFound)));
    m.record_handshake(0, "Scanner".to_string(), vec!["scan".to_string()], SCANNER, 77);
    assert_eq!(m.position(&SCANNER), Some(0));
    assert!(!m.is_plugin_enabled(&SCANNER));
    assert!(matches!(m.prepare_call(&SCANNER), Err(CallRefusal::Disabled)));
    m.record_runner_started(0, 78);
    assert!(m.is_plugin_enabled(&SCANNER));
    assert!(matches!(m.prepare_call(&SCANNER), Ok(3)));
    assert_eq!(m.alloc_request_id(), 4);
    m.record_stopped(0, false);
    assert!(!m.is_plugin_enabled(&SCANNER));
    assert!(!m.list_plugins()[0].status);
}

#[test]
fn a_plugin_is_enabled_only_when_its_runner_starts_and_answers_the_hello() {
    let mut m = PluginManager::new("/plugins");
    m.check_plugin("/plugins/libscanner.so");
    m.check_plugin("/plugins/libcleaner.so");
    m.check_plugin("/plugins/libdocker.so");
    assert_eq!(m.settle_enable(0, Err("spawn failed".to_string()), None), Err("spawn failed".to_string()));
    assert_eq!(m.list_plugins()[0].pid, 0);
    assert_eq!(
        m.settle_enable(
            1,
            Ok(41),
            Some(Ok(("Cleaner".to_string(), vec!["run".to_string()], SCANNER)))
        ),
        Ok(())
    );
    assert!(m.is_plugin_enabled(&SCANNER));
    let list = m.list_plugins();
    assert_eq!(list[1].name, "Cleaner");
    assert_eq!(list[1].pid, 41);
    assert_eq!(list[1].functions, vec!["run"]);
    assert_eq!(
        m.settle_enable(2, Ok(42), Some(Err("expected HelloOk".to_string()))),
        Err("expected HelloOk".to_string())
    );
    let list = m.list_plugins();
    assert_eq!(list[2].name, "libdocker.so");
    assert_eq!(list[2].pid, 42);
    assert!(list[2].status);
    assert!(!m.is_plugin_enabled(&[0u8; 16]));
}

#[test]
fn missing_plugins_are_forgotten_in_order() {
    let mut m = PluginManager::new("/plugins");
    m.check_plugin("/plugins/a.so");
    m.check_plugin("/plugins/b.so");
    m.check_plugin("/plugins/c.so");
    let removed = m.remove_missing(&["/plugins/c.so".to_string(), "/plugins/a.so".to_string()]);
    assert_eq!(removed.len(), 1);
    assert_eq!(removed[0].plugin_info.path, "/plugins/b.so");
    let left: Vec<String> = m.list_plugins().into_iter().map(|p| p.path).collect();
    assert_eq!(left, vec!["/plugins/a.so", "/plugins/c.so"]);
}

#[test]
fn pending_events_wait_for_their_reader() {
    let mut m = PluginManager::new("/plugins");
    assert!(m.try_recv_pending().is_none());
    m.push_pending(PluginEvent::Heartbeat { pid: 1 });
    m.push_pending(PluginEvent::Result {
        pid: 1,
        request_id: 5,
        ok: true,
        output: "five".to_string(),
    });
    m.push_pending(PluginEvent::Error {
        pid: 1,
        request_id: 6,
        message: "six".to_string(),
    });
    assert!(m.take_pending_response(9).is_none());
    match m.take_pending_response(6) {
        Some(PluginEvent::Error { message, .. }) => assert_eq!(message, "six"),
        _ => panic!("expected the answer to call 6"),
    }
    assert!(matches!(m.try_recv_pending(), Some(PluginEvent::Heartbeat { pid: 1 })));
    assert!(matches!(
        m.try_recv_pending(),
        Some(PluginEvent::Result { request_id: 5, .. })
    ));
    assert!(m.try_recv_pending().is_none());
}

#[test]
fn runner_messages_become_events() {
    let ev = event_of_message(
        3,
        Message::Result {
            request_id: 1,
            data: ResultPayload {
                ok: true,
                output: "x".to_string(),
            },
        },
    );
    assert!(matches!(ev, Some(PluginEvent::Result { pid: 3, request_id: 1, ok: true, .. })));
    let ev = event_of_message(
        3,
        Message::Error {
            request_id: 2,
            data: ErrorPayload {
                code: 1,
                message: "bad".to_string(),
            },
        },
    );
    assert!(matches!(ev, Some(PluginEvent::Error { pid: 3, request_id: 2, .. })));
    assert!(matches!(event_of_message(3, Message::Heartbeat), Some(PluginEvent::Heartbeat { pid: 3 })));
    assert!(event_of_message(3, Message::Hello).is_none());

    let hello = HelloOkPayload {
        name: "n".to_string(),
        uuid: "u".to_string(),
        functions: vec![],
    };
    assert_eq!(hello_answer(Message::HelloOk(hello)).unwrap().name, "n");
    assert_eq!(hello_answer(Message::Heartbeat).err().unwrap(), "expected HelloOk");

    assert!(matches!(
        call_reply(4, Ok("out".to_string())),
        Message::Result { request_id: 4, data: ResultPayload { ok: true, .. } }
    ));
    assert!(matches!(
        call_reply(4, Err("boom".to_string())),
        Message::Error { request_id: 4, data: ErrorPayload { code: 1, .. } }
    ));
}

#[test]
fn events_become_answers() {
    let a = handle_plugin_event_response(
        5,
        PluginEvent::Error {
            pid: 1,
            request_id: 5,
            message: "bad".to_string(),
        },
    );
    assert_eq!(a.notify, Some(false));
    match a.response {
        InterfaceResponse::CallResult { request_id, ok, output } => {
            assert_eq!(request_id, 5);
            assert!(!ok);
            assert_eq!(output, "bad");
        }
        _ => panic!("expected a call result"),
    }
    let a = handle_plugin_event_response(
        5,
        PluginEvent::Closed {
            pid: 1,
            reason: "eof".to_string(),
        },
    );
    assert!(a.notify.is_none());
    match a.response {
        InterfaceResponse::Error { message, .. } => assert_eq!(message, "Plugin closed: eof"),
        _ => panic!("expected an error"),
    }
    let a = handle_plugin_event_response(5, PluginEvent::Heartbeat { pid: 1 });
    match a.response {
        InterfaceResponse::Error { message, .. } => {
            assert_eq!(message, "Unexpected message type while waiting for response")
        }
        _ => panic!("expected an error"),
    }
}

fn error_text(r: InterfaceResponse) -> String {
    match r {
        InterfaceResponse::Error { message, .. } => message,
        InterfaceResponse::CallResult { output, .. } => output,
        _ => panic!("expected a failure"),
    }
}

#[test]
fn failures_are_answered_with_their_reason() {
    assert!(matches!(
        handle_switch_plugin(1, &SCANNER, Ok(true)),
        InterfaceResponse::SwitchDone { request_id: 1, enable: true }
    ));
    assert_eq!(
        error_text(handle_switch_plugin(1, &SCANNER, Err("busy".to_string()))),
        format!("Failed to switch plugin {SCANNER_TEXT}: busy")
    );
    assert_eq!(
        error_text(handle_switch_notification(1, &SCANNER, Err("io".to_string()))),
        format!("Failed to switch notification status for plugin {SCANNER_TEXT}: io")
    );
    assert_eq!(error_text(send_call_failed(2, "pipe")), "send_call failed: pipe");
    assert_eq!(error_text(wait_failed(2, "timeout")), "wait_for_response failed: timeout");
    assert_eq!(
        error_text(queue_failed(2, "refresh task", "closed")),
        "Failed to queue refresh task: closed"
    );
    assert_eq!(
        error_text(reply_lost(2, "gone")),
        "Dispatcher response channel closed: gone"
    );
    assert_eq!(error_text(not_implemented(2)), "Request not implemented yet");
}

#[test]
fn history_files_are_named_after_their_plugin() {
    assert_eq!(history_file_uuid(&format!("history_{SCANNER_TEXT}")).as_deref(), Some(SCANNER_TEXT));
    assert_eq!(history_file_uuid("history_history_x").as_deref(), Some("x"));
    assert_eq!(history_file_uuid("history_").as_deref(), Some(""));
    assert_eq!(history_file_uuid("notes.txt"), None);
}

#[test]
fn a_history_file_reads_line_by_line_newest_first() {
    let lines = vec![
        format!("[100][INFO][Scanner][{SCANNER_TEXT}] event=a"),
        "   ".to_string(),
        "garbage".to_string(),
        format!("[300][WARN][Scanner][] event=b"),
        format!("[-5][INFO][Scanner][{SCANNER_TEXT}] event=c"),
        format!("[300][ERROR][Scanner][{SCANNER_TEXT}] event=d"),
    ];
    let entries = history_entries(&lines, "fallback", "history_x");
    let events: Vec<&str> = entries.iter().map(|e| e.event.as_deref().unwrap()).collect();
    assert_eq!(events, vec!["a", "b", "c", "d"]);
    assert_eq!(entries[1].plugin_uuid, "fallback");
    let sorted = newest_first_entries(entries);
    let events: Vec<&str> = sorted.iter().map(|e| e.event.as_deref().unwrap()).collect();
    assert_eq!(events, vec!["b", "d", "a", "c"]);
    assert_eq!(sorted[3].timestamp, -5);
}

#[test]
fn client_requests_become_tasks_or_answers() {
    match route_client_request(9, ClientRequest::CallPlugin {
        plugin_uuid: SCANNER,
        fn_name: "scan".to_string(),
        args: vec!["/home".to_string()],
    }) {
        Ok(DaemonTask::CallPlugin { request_id, plugin_uuid, fn_name, args }) => {
            assert_eq!((request_id, plugin_uuid), (9, SCANNER));
            assert_eq!(fn_name, "scan");
            assert_eq!(args, vec!["/home"]);
        }
        _ => panic!("expected a call task"),
    }
    assert!(matches!(
        route_client_request(3, ClientRequest::RefreshPlugins),
        Ok(DaemonTask::RefreshPlugins { request_id: 3 })
    ));
    assert!(matches!(
        route_client_request(4, ClientRequest::StopPlugin { plugin_uuid: SCANNER }),
        Ok(DaemonTask::StopPlugin { request_id: 4, .. })
    ));
    match route_client_request(5, ClientRequest::Other) {
        Err(InterfaceResponse::Error { request_id, message }) => {
            assert_eq!(request_id, 5);
            assert_eq!(message, "Request not implemented yet");
        }
        _ => panic!("expected an error answer"),
    }
    match task_not_queued(&DaemonTask::RefreshPlugins { request_id: 3 }, "closed") {
        InterfaceResponse::Error { request_id, message } => {
            assert_eq!(request_id, 3);
            assert_eq!(message, "Failed to queue refresh task: closed");
        }
        _ => panic!("expected an error answer"),
    }
    match task_not_queued(&DaemonTask::StartPlugin { request_id: 7, plugin_uuid: SCANNER }, "closed") {
        InterfaceResponse::Error { message, .. } => assert_eq!(message, "Failed to queue task: closed"),
        _ => panic!("expected an error answer"),
    }
}
