use griffon::cli::{parse_command, CliCommand};
use griffon::daemon::uuid_text::{format_uuid_bytes, is_nil_uuid, parse_uuid_16};
use griffon::gui::plugins::{plugin_uuid_of, validate_call, validate_plugin_uuid};
use griffon::runner::{
    apply_init_entries, build_hello_ok, fallback_plugin_name, has_shared_library_extension,
    parse_functions, PluginSelfDescription,
};
use griffon::wire::{call_to_wire, payload_text, split_message, CallPayload};

const CLEANER_UUID: &str = "123e4567-e23b-12d3-a456-426614174000";

fn cleaner_bytes() -> [u8; 16] {
    [
        0x12, 0x3e, 0x45, 0x67, 0xe2, 0x3b, 0x12, 0xd3, 0xa4, 0x56, 0x42, 0x66, 0x14, 0x17, 0x40,
        0x00,
    ]
}

#[test]
fn uuid_bytes_are_written_hyphenated_in_lowercase() {
    assert_eq!(format_uuid_bytes(&cleaner_bytes()), CLEANER_UUID);
    assert_eq!(
        format_uuid_bytes(&[0u8; 16]),
        "00000000-0000-0000-0000-000000000000"
    );
}

#[test]
fn only_the_all_zero_identifier_is_nil() {
    assert!(is_nil_uuid(&[0u8; 16]));
    let mut b = [0u8; 16];
    b[15] = 1;
    assert!(!is_nil_uuid(&b));
}

#[test]
fn uuid_text_is_read_in_every_form_the_parser_accepts() {
    assert_eq!(parse_uuid_16(Some(CLEANER_UUID)), Some(cleaner_bytes()));
    assert_eq!(
        parse_uuid_16(Some("123E4567E23B12D3A456426614174000")),
        Some(cleaner_bytes())
    );
    assert_eq!(parse_uuid_16(Some("not-a-uuid")), None);
    assert_eq!(parse_uuid_16(None), None);
}

#[test]
fn an_identifier_reads_back_from_its_text() {
    let mut b = [0u8; 16];
    for (i, x) in b.iter_mut().enumerate() {
        *x = (i as u8).wrapping_mul(37).wrapping_add(5);
    }
    let text = format_uuid_bytes(&b);
    assert_eq!(parse_uuid_16(Some(&text)), Some(b));
    assert_eq!(parse_uuid_16(Some(&format_uuid_bytes(&[0xffu8; 16]))), Some([0xffu8; 16]));
}

#[test]
fn a_call_needs_a_uuid_and_a_function_name() {
    assert_eq!(plugin_uuid_of(CLEANER_UUID), Ok(cleaner_bytes()));
    assert_eq!(plugin_uuid_of("xyz"), Err("Invalid UUID".to_string()));
    assert_eq!(validate_call(CLEANER_UUID, "run"), Ok(cleaner_bytes()));
    assert_eq!(
        validate_call(CLEANER_UUID, "   "),
        Err("Function name cannot be empty".to_string())
    );
    assert_eq!(validate_call("xyz", ""), Err("Invalid UUID".to_string()));
}

#[test]
fn a_plugin_uuid_is_normalised_to_lowercase() {
    assert_eq!(
        validate_plugin_uuid("  123E4567-E23B-12D3-A456-426614174000 "),
        Ok(CLEANER_UUID.to_string())
    );
    let e = validate_plugin_uuid(" nope ").unwrap_err();
    assert!(e.starts_with("Invalid plugin UUID \"nope\": "), "{e}");
}

#[test]
fn a_message_splits_into_function_and_payload() {
    assert_eq!(
        split_message("  fn:delete_selected /tmp/a  /tmp/b  "),
        ("delete_selected".to_string(), "/tmp/a  /tmp/b".to_string())
    );
    assert_eq!(split_message("run"), ("run".to_string(), String::new()));
    assert_eq!(split_message(""), (String::new(), String::new()));
}

#[test]
fn a_call_is_written_with_its_arguments() {
    let call = CallPayload {
        fn_name: "scan".to_string(),
        args: vec!["/home".to_string(), "--recursive".to_string()],
    };
    assert_eq!(call_to_wire(&call), "fn:scan /home --recursive");
    let bare = CallPayload {
        fn_name: "status".to_string(),
        args: vec![],
    };
    assert_eq!(call_to_wire(&bare), "fn:status");
}

#[test]
fn a_plugin_reads_back_the_call_the_runner_wrote() {
    let call = CallPayload {
        fn_name: "quarantine".to_string(),
        args: vec!["a".to_string(), " b ".to_string()],
    };
    let (name, payload) = split_message(&call_to_wire(&call));
    assert_eq!(name, "quarantine");
    assert_eq!(payload, "a  b");
}

#[test]
fn shared_libraries_are_recognised_by_extension() {
    assert!(has_shared_library_extension("/plugins/libgriffon_scanner.so"));
    assert!(!has_shared_library_extension("/plugins/readme.txt"));
    assert!(!has_shared_library_extension("/plugins/.so"));
    assert!(!has_shared_library_extension("/plugins/so"));
}

#[test]
fn a_function_list_is_split_at_slashes_and_commas() {
    assert_eq!(
        parse_functions("run/run_raw, run_front//list_candidates ,"),
        vec!["run", "run_raw", "run_front", "list_candidates"]
    );
    assert!(parse_functions(" / , ").is_empty());
}

#[test]
fn the_fallback_name_is_the_last_path_piece() {
    assert_eq!(fallback_plugin_name("/a/b/libx.so"), "libx.so");
    assert_eq!(fallback_plugin_name("libx.so"), "libx.so");
    assert_eq!(fallback_plugin_name("/a/b/"), "");
}

#[test]
fn init_entries_fill_the_description_and_later_ones_win() {
    let entries = vec![
        ("author".to_string(), "Someone".to_string()),
        ("name".to_string(), "Griffon Cleaner".to_string()),
        ("function".to_string(), "run/list_candidates".to_string()),
        ("UUID".to_string(), CLEANER_UUID.to_string()),
        ("name".to_string(), "Cleaner".to_string()),
    ];
    let d = apply_init_entries(&entries);
    assert_eq!(d.name, "Cleaner");
    assert_eq!(d.functions, "run/list_candidates");
    assert_eq!(d.uuid, CLEANER_UUID);

    let hello = build_hello_ok(&d, "libcleaner.so");
    assert_eq!(hello.name, "Cleaner");
    assert_eq!(hello.uuid, CLEANER_UUID);
    assert_eq!(hello.functions, vec!["run", "list_candidates"]);
}

#[test]
fn a_blank_plugin_name_falls_back() {
    let d = PluginSelfDescription {
        uuid: String::new(),
        functions: String::new(),
        name: "  ".to_string(),
    };
    let hello = build_hello_ok(&d, "libx.so");
    assert_eq!(hello.name, "libx.so");
    assert!(hello.functions.is_empty());
}

#[test]
fn client_commands_are_parsed() {
    assert!(matches!(parse_command("   "), CliCommand::Nothing));
    assert!(matches!(parse_command("refresh"), CliCommand::Refresh));
    assert!(matches!(parse_command(" quit "), CliCommand::Quit));
    assert!(matches!(parse_command("exit"), CliCommand::Quit));
    assert!(matches!(parse_command("restart 42"), CliCommand::Restart(42)));
    assert!(matches!(parse_command("restart x"), CliCommand::InvalidPid));
    match parse_command("restart") {
        CliCommand::Usage(u) => assert_eq!(u, "Usage: restart <PID>"),
        _ => panic!("expected usage"),
    }
    match parse_command(&format!("start {CLEANER_UUID}")) {
        CliCommand::Start(b) => assert_eq!(b, cleaner_bytes()),
        _ => panic!("expected start"),
    }
    match parse_command(&format!("stop {CLEANER_UUID}")) {
        CliCommand::Stop(b) => assert_eq!(b, cleaner_bytes()),
        _ => panic!("expected stop"),
    }
    assert!(matches!(parse_command("stop zzz"), CliCommand::InvalidUuid));
    assert!(matches!(parse_command("dance"), CliCommand::Invalid));
}

#[test]
fn a_call_command_carries_its_arguments() {
    match parse_command(&format!("call {CLEANER_UUID} delete_selected /tmp/a | /tmp/b ||")) {
        CliCommand::Call {
            plugin_uuid,
            fn_name,
            args,
        } => {
            assert_eq!(plugin_uuid, cleaner_bytes());
            assert_eq!(fn_name, "delete_selected");
            assert_eq!(args, vec!["/tmp/a", "/tmp/b"]);
        }
        _ => panic!("expected call"),
    }
    match parse_command(&format!("call {CLEANER_UUID} run")) {
        CliCommand::Call { fn_name, args, .. } => {
            assert_eq!(fn_name, "run");
            assert!(args.is_empty());
        }
        _ => panic!("expected call"),
    }
}

#[test]
fn an_empty_payload_stands_for_no_arguments() {
    assert_eq!(payload_text(""), None);
    assert_eq!(payload_text("{}"), Some("{}".to_string()));
    let (_, p) = split_message("fn:check");
    assert_eq!(payload_text(&p), None);
}
