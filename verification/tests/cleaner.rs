use griffon::cleaner::api::{
    normalize_file_type, CandidateKind, CleanerFilters, DeleteSelectedRequest,
};
use griffon::cleaner::cache::{
    file_type_key, is_dangerous_delete_target, record_cleaned_file, record_clean_warning,
    record_root, step_failure, validate_delete_target, walk_error_is_permission_denied,
    CacheCleaner, DeleteTally, DeleteTargetFacts, EntryFacts, item_size, needs_dir_size,
    should_remove, PathKind,
};
use griffon::cleaner::cache_paths::{expand_home, known_cache_paths};
use griffon::cleaner::command::{
    after_delete_args, after_delete_payload, after_delete_text, after_request, first_step, json_function,
    parse_cleaner_message, CleanerCommand, CleanerErrorKind, CleanerStep, JsonFunction,
};
use griffon::cleaner::config::{selected_cache_categories, CleanerConfig, Profile};
use griffon::cleaner::docker::{
    DockerCleaner, DockerCleanupAction, DockerCommandOutcome, DockerProbe, reclaimable_text,
};
use griffon::cleaner::front_report::{extract_docker_actions, module_label, parse_docker_action_line};
use griffon::cleaner::reports::{run_modules, ModuleReport};

#[test]
fn direct_cleaner_commands() {
    assert!(matches!(parse_cleaner_message(" fn:run "), CleanerCommand::RunFront));
    assert!(matches!(parse_cleaner_message("run_front"), CleanerCommand::RunFront));
    assert!(matches!(parse_cleaner_message("run_raw"), CleanerCommand::RunRaw));
    assert!(matches!(
        parse_cleaner_message("fn:list_candidates"),
        CleanerCommand::ListCandidates
    ));
}

#[test]
fn delete_requests_carry_their_paths() {
    match parse_cleaner_message("fn:delete_selected /tmp/a\t/tmp/b  ") {
        CleanerCommand::DeleteSelectedPaths(ps) => assert_eq!(ps, vec!["/tmp/a", "/tmp/b"]),
        _ => panic!("expected paths"),
    }
    match parse_cleaner_message("delete_selected [\"/tmp/a\"]") {
        CleanerCommand::DeleteSelectedJsonArgs(a) => assert_eq!(a, "[\"/tmp/a\"]"),
        _ => panic!("expected a JSON array"),
    }
    assert!(matches!(
        parse_cleaner_message("delete_selected   "),
        CleanerCommand::DeleteSelectedMissingPaths
    ));
    match parse_cleaner_message(" {\"function\":\"run\"} ") {
        CleanerCommand::JsonRequest(j) => assert_eq!(j, "{\"function\":\"run\"}"),
        _ => panic!("expected a JSON request"),
    }
    assert!(matches!(json_function("run"), JsonFunction::Run));
    assert!(matches!(json_function("delete_selected"), JsonFunction::DeleteSelected));
    assert!(matches!(json_function("RUN"), JsonFunction::Unknown));
}

#[test]
fn file_type_filters_normalise_both_sides() {
    assert_eq!(normalize_file_type("  ..LOG "), "log");
    let none = CleanerFilters {
        file_types: vec![],
        dry_run: None,
    };
    assert!(!none.has_file_type_filter());
    assert!(none.matches_file_type("anything"));
    let some = CleanerFilters {
        file_types: vec![".Log".to_string(), "tmp".to_string()],
        dry_run: Some(true),
    };
    assert!(some.matches_file_type("LOG"));
    assert!(some.matches_file_type(".tmp"));
    assert!(!some.matches_file_type("deb"));
}

#[test]
fn a_delete_request_prefers_its_paths() {
    let req = DeleteSelectedRequest {
        items: vec!["/a".to_string()],
        paths: vec!["/b".to_string(), "/c".to_string()],
        dry_run: Some(false),
        file_types: vec!["log".to_string()],
    };
    assert_eq!(req.selected_paths(), vec!["/b", "/c"]);
    let req2 = DeleteSelectedRequest {
        items: vec!["/a".to_string()],
        paths: vec![],
        dry_run: None,
        file_types: vec![],
    };
    assert_eq!(req2.selected_paths(), vec!["/a"]);
    let f = req.to_filters();
    assert_eq!(f.file_types, vec!["log"]);
    assert_eq!(f.dry_run, Some(false));
}

fn facts(canonical: &str) -> DeleteTargetFacts {
    DeleteTargetFacts {
        exists: true,
        is_symlink: Ok(false),
        canonical: Ok(canonical.to_string()),
    }
}

#[test]
fn delete_targets_are_checked_in_order() {
    let roots = vec!["/home/u/.cache".to_string()];
    assert_eq!(
        validate_delete_target("", &facts("/x"), &roots),
        Err("Empty path is not allowed".to_string())
    );
    let missing = DeleteTargetFacts {
        exists: false,
        ..facts("/x")
    };
    assert_eq!(
        validate_delete_target("/x", &missing, &roots),
        Err("Path does not exist".to_string())
    );
    let link = DeleteTargetFacts {
        is_symlink: Ok(true),
        ..facts("/x")
    };
    assert_eq!(
        validate_delete_target("/x", &link, &roots),
        Err("Refusing to delete symbolic link".to_string())
    );
    let unreadable = DeleteTargetFacts {
        is_symlink: Err("denied".to_string()),
        ..facts("/x")
    };
    assert_eq!(
        validate_delete_target("/x", &unreadable, &roots),
        Err("symlink metadata failed: denied".to_string())
    );
    let unresolved = DeleteTargetFacts {
        canonical: Err("loop".to_string()),
        ..facts("/x")
    };
    assert_eq!(
        validate_delete_target("/x", &unresolved, &roots),
        Err("canonicalize failed: loop".to_string())
    );
    assert_eq!(
        validate_delete_target("/usr", &facts("/usr/"), &roots),
        Err("Refusing to delete dangerous top-level/system path".to_string())
    );
    assert_eq!(
        validate_delete_target("/x", &facts("/home/u/.cache/x"), &[]),
        Err("No valid allowed cleaner roots found".to_string())
    );
    assert_eq!(
        validate_delete_target("/x", &facts("/home/u/.cachex/x"), &roots),
        Err("Path is outside allowed cleaner scope".to_string())
    );
    assert_eq!(
        validate_delete_target("/x", &facts("/home/u/.cache"), &roots),
        Err("Refusing to delete an entire cleaner root directly".to_string())
    );
    assert_eq!(
        validate_delete_target("/x", &facts("/home/u/.cache/pip/wheel"), &roots),
        Ok("/home/u/.cache/pip/wheel".to_string())
    );
    assert!(is_dangerous_delete_target("/var/log"));
    assert!(!is_dangerous_delete_target("/var/log/app"));
}

#[test]
fn a_delete_tally_answers_ok_only_without_failures() {
    let mut t = DeleteTally::new();
    t.record_deleted(10);
    t.record_deleted(5);
    let r = t.into_response(true);
    assert!(r.ok && r.dry_run);
    assert_eq!((r.deleted_count, r.deleted_bytes), (2, 15));
    let mut t = DeleteTally::new();
    t.record_failure(&"/x".to_string(), step_failure("remove_file", &"busy".to_string()));
    let r = t.into_response(false);
    assert!(!r.ok);
    assert_eq!(r.failed[0].path, "/x");
    assert_eq!(r.failed[0].error, "remove_file failed: busy");
}

#[test]
fn file_types_are_counted_by_key() {
    assert_eq!(file_type_key("/var/cache/apt/archives/x.DEB"), "deb");
    assert_eq!(file_type_key("/var/lib/apt/lists/a_Packages"), "apt_index");
    assert_eq!(file_type_key("/tmp/Makefile"), "no_ext");
    assert_eq!(file_type_key("/tmp/.bashrc"), "no_ext");
    assert_eq!(file_type_key("/tmp/x. "), "unknown");
}

#[test]
fn candidates_are_listed_largest_first() {
    let table = known_cache_paths();
    let roots = vec![(
        table[0].pattern.to_string(),
        vec![
            EntryFacts {
                path: "/c/small.log".to_string(),
                kind: Some(CandidateKind::File),
                size: 10,
            },
            EntryFacts {
                path: "/c/empty".to_string(),
                kind: Some(CandidateKind::File),
                size: 0,
            },
            EntryFacts {
                path: "/c/big".to_string(),
                kind: Some(CandidateKind::Directory),
                size: 500,
            },
            EntryFacts {
                path: "/c/fifo".to_string(),
                kind: None,
                size: 7,
            },
            EntryFacts {
                path: "/c/also_small.log".to_string(),
                kind: Some(CandidateKind::File),
                size: 10,
            },
        ],
    )];
    let c = CacheCleaner::new().collect_cache_candidates(&table, &roots);
    let names: Vec<&str> = c.iter().map(|x| x.name.as_str()).collect();
    assert_eq!(names, vec!["big", "small.log", "also_small.log"]);
    assert_eq!(c[1].file_type, "log");
    assert_eq!(c[0].category, "system");
    assert_eq!(c[1].size, 10);
}

#[test]
fn cleaned_files_are_counted_per_root_and_type() {
    let mut r = ModuleReport::empty("cache");
    record_root(&mut r, true);
    record_root(&mut r, false);
    record_cleaned_file(&mut r, "~/.cache", "/h/.cache/a.log", 100, true);
    record_cleaned_file(&mut r, "~/.cache", "/h/.cache/b.LOG", 50, true);
    record_cleaned_file(&mut r, "/var/tmp", "/var/tmp/c.bin", 1, false);
    assert_eq!((r.existing_paths_count, r.missing_paths_count), (1, 1));
    assert_eq!(r.files_touched, 3);
    assert_eq!(r.bytes_freed, 151);
    assert_eq!(r.skipped_files_count, 2);
    assert_eq!(r.deleted_files_count, 1);
    let log = r.per_file_type.iter().find(|(k, _)| k == "log").unwrap();
    assert_eq!((log.1.files_touched, log.1.bytes_freed), (2, 150));
    let cache = r.per_root_path.iter().find(|(k, _)| k == "~/.cache").unwrap();
    assert_eq!((cache.1.files_touched, cache.1.bytes_freed), (2, 150));
    record_clean_warning(&mut r, "walk failed".to_string(), true);
    assert_eq!(r.warnings, vec!["walk failed"]);
    assert_eq!((r.warning_count, r.permission_denied), (1, 1));
}

#[test]
fn permission_refusals_are_recognised_in_any_case() {
    assert!(walk_error_is_permission_denied(true, "whatever"));
    assert!(walk_error_is_permission_denied(false, "IO error: Permission Denied (os error 13)"));
    assert!(!walk_error_is_permission_denied(false, "No such file"));
}

#[test]
fn the_run_totals_its_modules() {
    let mut a = ModuleReport::empty("cache");
    a.files_touched = 2;
    a.bytes_freed = 30;
    a.warnings = vec!["w".to_string()];
    let mut b = ModuleReport::empty("docker");
    b.files_touched = 1;
    b.bytes_freed = 12;
    b.errors = vec!["e".to_string()];
    let g = run_modules(true, vec![a, b]);
    assert!(g.dry_run);
    assert_eq!(g.per_module.len(), 2);
    assert_eq!(g.total_files_touched, 3);
    assert_eq!(g.total_bytes_freed, 42);
    assert_eq!(g.total_warnings, 1);
    assert_eq!(g.total_errors, 1);
}

#[test]
fn enabled_categories_are_listed_in_order() {
    let cfg = CleanerConfig {
        profile: Profile::Safe,
        max_log_retention_days: 7,
        min_bigfile_size_mb: 100,
        enable_system_cache: false,
        enable_user_cache: true,
        enable_browser_cache: false,
        enable_dev_cache: true,
        enable_package_cache: false,
        enable_desktop_cache: true,
    };
    assert_eq!(
        selected_cache_categories(&cfg),
        vec!["user", "devtools", "desktop_env"]
    );
    assert_eq!(Profile::Full.as_str(), "full");
}

#[test]
fn home_patterns_expand() {
    assert_eq!(expand_home("~/.cache", Some("/home/u")).as_deref(), Some("/home/u/.cache"));
    assert_eq!(expand_home("~/.cache", None), None);
    assert_eq!(expand_home("/var/cache", None).as_deref(), Some("/var/cache"));
}

#[test]
fn the_docker_plan_depends_on_the_profile() {
    let safe = DockerCleanupAction::cleanup_actions(&Profile::Safe);
    let full = DockerCleanupAction::cleanup_actions(&Profile::Full);
    assert_eq!(safe.len(), 4);
    assert!(!safe[3].enabled);
    assert!(full[3].enabled);
    assert_eq!(
        safe[0].plan_line(),
        "- Stopped containers: docker container prune -f [enabled] - Remove stopped containers."
    );
    let plan = DockerCleanupAction::format_action_plan(&safe);
    assert_eq!(plan[0], "Docker action plan:");
    assert_eq!(plan.len(), 5);
}

#[test]
fn docker_plan_lines_read_back() {
    let mut all = DockerCleanupAction::cleanup_actions(&Profile::Safe);
    all.extend(DockerCleanupAction::cleanup_actions(&Profile::Full));
    for a in all {
        let parsed = parse_docker_action_line(&a.plan_line()).unwrap();
        assert_eq!(parsed.name, a.name);
        assert_eq!(parsed.command, format!("docker {}", a.args.join(" ")));
        assert_eq!(parsed.enabled, a.enabled);
        assert_eq!(parsed.status, if a.enabled { "enabled" } else { "disabled" });
        assert_eq!(parsed.reason, a.reason);
    }
    assert!(parse_docker_action_line("Docker action plan:").is_none());
    let actions = extract_docker_actions(&[
        "Docker action plan:".to_string(),
        "- X: docker system df [maybe]".to_string(),
    ]);
    assert_eq!(actions.len(), 1);
    assert_eq!(actions[0].status, "unknown");
    assert_eq!(actions[0].reason, "");
    assert_eq!(actions[0].command, "docker system df");
}

#[test]
fn docker_runs_report_what_happened() {
    let d = DockerCleaner::new();
    let actions = DockerCleanupAction::cleanup_actions(&Profile::Safe);
    let r = d.run(
        &DockerProbe {
            cli_available: false,
            daemon_available: false,
        },
        false,
        &actions,
        0,
        &[],
    );
    assert_eq!(r.warnings, vec!["Docker CLI is not installed."]);
    let probe = DockerProbe {
        cli_available: true,
        daemon_available: true,
    };
    assert!(d.commands_to_run(&probe, true, &actions).is_empty());
    let cmds = d.commands_to_run(&probe, false, &actions);
    assert_eq!(cmds.len(), 3);
    assert_eq!(cmds[0], vec!["container", "prune", "-f"]);
    let dry = d.run(&probe, true, &actions, 1234, &[]);
    assert_eq!(dry.bytes_freed, 1234);
    assert_eq!(dry.skipped_files_count, 3);
    let outcomes = vec![
        DockerCommandOutcome::Finished {
            success: true,
            stdout: "Total reclaimed space: 1GB".to_string(),
            stderr: String::new(),
        },
        DockerCommandOutcome::NotStarted("no such binary".to_string()),
        DockerCommandOutcome::Finished {
            success: false,
            stdout: String::new(),
            stderr: "denied".to_string(),
        },
    ];
    let real = d.run(&probe, false, &actions, 99, &outcomes);
    assert_eq!(real.files_touched, 1);
    assert_eq!(real.deleted_files_count, 1);
    assert_eq!(real.errors.len(), 2);
    assert_eq!(real.bytes_freed, 99);
    assert_eq!(real.module_id, "docker");
}

#[test]
fn reclaimable_sizes_are_read_from_docker_df() {
    assert_eq!(
        reclaimable_text("{\"Type\":\"Images\",\"Reclaimable\":\"1,5GB (40%)\"}").as_deref(),
        Some("1.5GB")
    );
    assert_eq!(reclaimable_text("{\"Type\":\"Images\"}"), None);
    assert_eq!(reclaimable_text("{\"Reclaimable\":\"2GB"), None);
}

#[test]
fn modules_have_labels() {
    assert_eq!(module_label("cache"), "Cache Cleaner");
    assert_eq!(module_label("bigfiles"), "Big Files Scanner");
    assert_eq!(module_label("mystery"), "Cleaner Module");
}

#[test]
fn cleaner_messages_are_answered_step_by_step() {
    assert!(matches!(first_step("  run "), CleanerStep::RunFront));
    assert!(matches!(
        first_step("fn:run_raw"),
        CleanerStep::RunRaw(CleanerErrorKind::SerializeRaw)
    ));
    assert!(matches!(first_step("list_candidates"), CleanerStep::ListCandidates));
    assert!(matches!(first_step("delete_selected /a /b"), CleanerStep::Delete(p) if p == vec!["/a", "/b"]));
    assert!(matches!(first_step("fn:delete_selected   "), CleanerStep::Reply(m) if m == "ERR delete_selected requires at least one path"));
    assert!(matches!(first_step("delete_selected [\"/a\", \"/b c\"]"), CleanerStep::Delete(p) if p == vec!["/a", "/b c"]));
    assert!(matches!(first_step("delete_selected []"), CleanerStep::Reply(m) if m == "ERR delete_selected requires at least one path"));
    assert!(matches!(first_step("delete_selected [1]"), CleanerStep::Reply(m) if m.starts_with("ERR delete_selected invalid JSON args: ")));
    assert!(matches!(after_delete_text("[\"/x\"]"), CleanerStep::Delete(p) if p == vec!["/x"]));
    assert!(matches!(first_step(" {\"function\":\"run\"} "), CleanerStep::DecodeRequest(j) if j == "{\"function\":\"run\"}"));
    assert!(matches!(after_delete_args(Ok(vec![])), CleanerStep::Reply(m) if m == "ERR delete_selected requires at least one path"));
    assert!(matches!(after_delete_args(Ok(vec!["/x".to_string()])), CleanerStep::Delete(p) if p == vec!["/x"]));
    assert!(matches!(after_delete_args(Err("bad".to_string())), CleanerStep::Reply(m) if m == "ERR delete_selected invalid JSON args: bad"));
    assert!(matches!(
        after_request(Ok(("run".to_string(), false))),
        CleanerStep::RunRaw(CleanerErrorKind::SerializeAnalysis)
    ));
    assert!(matches!(after_request(Ok(("list_candidates".to_string(), true))), CleanerStep::ListCandidates));
    assert!(matches!(after_request(Ok(("delete_selected".to_string(), true))), CleanerStep::DecodeDeletePayload));
    assert!(matches!(after_request(Ok(("delete_selected".to_string(), false))), CleanerStep::Reply(m) if m == "ERR missing payload"));
    assert!(matches!(after_request(Ok(("purge".to_string(), false))), CleanerStep::Reply(m) if m == "ERR unknown function: purge"));
    assert!(matches!(after_request(Err("eof".to_string())), CleanerStep::Reply(m) if m == "ERR invalid request json: eof"));
    assert!(matches!(after_delete_payload(Ok(vec![])), CleanerStep::Delete(p) if p.is_empty()));
    assert!(matches!(after_delete_payload(Err("x".to_string())), CleanerStep::Reply(m) if m == "ERR invalid delete_selected payload: x"));
}

#[test]
fn each_selected_path_is_measured_removed_and_counted() {
    let file: Result<(PathKind, u64), String> = Ok((PathKind::File, 10));
    let dir: Result<(PathKind, u64), String> = Ok((PathKind::Dir, 4096));
    let other: Result<(PathKind, u64), String> = Ok((PathKind::Other, 0));
    let gone: Result<(PathKind, u64), String> = Err("no such file".to_string());
    assert!(!needs_dir_size(&file) && needs_dir_size(&dir) && !needs_dir_size(&gone));
    assert_eq!(item_size(&file, &None), Ok(10));
    assert_eq!(item_size(&dir, &Some(Ok(300))), Ok(300));
    assert_eq!(item_size(&dir, &Some(Err("denied".to_string()))), Err("dir_size failed: denied".to_string()));
    assert_eq!(item_size(&other, &None), Err("Unsupported path type".to_string()));
    assert_eq!(item_size(&gone, &None), Err("metadata failed: no such file".to_string()));
    assert!(should_remove(&Ok(1), false));
    assert!(!should_remove(&Ok(1), true));
    assert!(!should_remove(&Err("x".to_string()), false));
    let mut t = DeleteTally::new();
    t.settle_item(&"/c/a".to_string(), Ok(10), Some(Ok(())));
    t.settle_item(&"/c/b".to_string(), Ok(5), None);
    t.settle_item(&"/c/c".to_string(), Ok(7), Some(Err("busy".to_string())));
    t.settle_item(&"/c/d".to_string(), Err("Unsupported path type".to_string()), None);
    assert_eq!(t.deleted_count, 2);
    assert_eq!(t.deleted_bytes, 15);
    assert_eq!(t.failed.len(), 2);
    assert_eq!(t.failed[0].path, "/c/c");
    assert_eq!(t.failed[0].error, "delete failed: busy");
    assert_eq!(t.failed[1].error, "Unsupported path type");
}

#[test]
fn the_metrics_count_the_deleted_files_and_errors_of_every_module() {
    let mut a = ModuleReport::empty("cache");
    a.deleted_files_count = 4;
    a.errors = vec!["Permission denied on /x".to_string(), "boom".to_string()];
    a.permission_denied = 3;
    let mut b = ModuleReport::empty("docker");
    b.deleted_files_count = 2;
    let g = run_modules(false, vec![a, b]);
    assert_eq!(griffon::cleaner::metrics::files_cleaned_total(&g), Some(6));
    let tally = griffon::cleaner::metrics::errors_by_type(&g);
    assert_eq!(
        tally,
        vec![("module_error".to_string(), 1), ("permission_denied".to_string(), 3)]
    );
    let mut c = ModuleReport::empty("x");
    c.deleted_files_count = u64::MAX;
    let mut d = ModuleReport::empty("y");
    d.deleted_files_count = 1;
    assert_eq!(griffon::cleaner::metrics::files_cleaned_total(&run_modules(true, vec![c, d])), None);
}
