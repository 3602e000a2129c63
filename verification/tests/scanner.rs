use std::io::{Cursor, Write};

use griffon::scanner::archive::extract_entries;
use griffon::scanner::args::{PrepArgs, ScanArgs};
use griffon::scanner::category::ThreatCategory;
use griffon::scanner::data_type::{FileResult, ScanReport, Severity, Threat};
use griffon::scanner::engine::{
    begin_start, check_status, command_of, engine_not_ready, engine_state_label, finish_start,
    restart_after_update, stop_engine, unknown_function, ScanOptions, ScannerCommand,
    STATE_ERROR, STATE_LOADING, STATE_READY, STATE_STOPPED,
};
use griffon::scanner::hashing::{hash_contents, scan_bytes, scan_file, SignatureDb};
use griffon::scanner::scan_engine::{thread_count, ScanEngine};
use griffon::scanner::scan_file::{
    archive_entry_path, archive_step, combine_rule_scans, detect_archive, entry_within_limit,
    read_failure, skip_check, ArchiveKind, ArchiveStep,
};
use griffon::scanner::updater::ScannerUpdater;

const EICAR: &[u8] = b"X5O!P%@AP[4\\PZX54(P^)7CC)7}$EICAR-STANDARD-ANTIVIRUS-TEST-FILE!$H+H*";
const EICAR_SHA256: &str = "275a021bbfb6489e54d471899f7db9d1663fc695ec2fe2a2c4538aabf651fd0f";

fn eicar_db() -> SignatureDb {
    SignatureDb::from_lines(&[
        "# known malware".to_string(),
        String::new(),
        format!("  {}  ", EICAR_SHA256.to_uppercase()),
    ])
}

fn zip_of(entries: &[(&str, &[u8])]) -> Vec<u8> {
    let mut w = zip::ZipWriter::new(Cursor::new(Vec::new()));
    let opts = zip::write::SimpleFileOptions::default()
        .compression_method(zip::CompressionMethod::Stored);
    for (name, bytes) in entries {
        w.start_file(*name, opts).unwrap();
        w.write_all(bytes).unwrap();
    }
    w.finish().unwrap().into_inner()
}

fn scan_content(path: &str, bytes: &[u8], depth: u32, db: &SignatureDb) -> Vec<FileResult> {
    griffon::scanner::content::scan_content(path, bytes, depth, Some(db))
}

fn scan_report(paths: &[&str], results: Vec<FileResult>) -> ScanReport {
    let mut engine = ScanEngine::new();
    let args = ScanArgs {
        paths: paths.iter().map(|p| p.to_string()).collect(),
        ..Default::default()
    };
    engine.scan(&args, results)
}

#[test]
fn test_clean_file_returns_no_threats() {
    let path = "tests/scanner.rs";
    let results = scan_content(path, b"fn main() { println!(\"hello\"); }\n", 0, &eicar_db());
    let report = scan_report(&[path], results);

    assert_eq!(report.total_threats, 0, "Clean file should have 0 threats");
}

#[test]
fn test_eicar_file_is_detected() {
    let path = "tests/fixtures/eicar.com";
    let results = scan_content(path, EICAR, 0, &eicar_db());
    let report = scan_report(&[path], results);

    assert!(report.total_threats > 0, "EICAR file must be detected");
}

#[test]
fn test_eicar_zip_is_detected() {
    let path = "tests/fixtures/eicar.zip";
    let archive = zip_of(&[("readme.txt", b"nothing here".as_slice()), ("eicar.com", EICAR)]);
    let results = scan_content(path, &archive, 0, &eicar_db());
    let report = scan_report(&[path], results);

    assert!(
        report.total_threats > 0,
        "Scanner failed to detect EICAR inside the ZIP archive"
    );
    let threats = report.all_threats();
    assert_eq!(threats.len(), 1);
    assert_eq!(threats[0].path, "tests/fixtures/eicar.zip/!/eicar.com");
}

#[test]
fn test_eicar_nested_zip_is_detected() {
    let path = "tests/fixtures/eicar_nested.zip";
    let inner = zip_of(&[("eicar.com", EICAR)]);
    let outer = zip_of(&[("inner.zip", inner.as_slice())]);
    let results = scan_content(path, &outer, 0, &eicar_db());
    let report = scan_report(&[path], results);

    assert!(
        report.total_threats > 0,
        "Scanner failed to recurse and detect EICAR inside the nested ZIP archive"
    );
    assert_eq!(report.total_scanned, 3);
}

#[test]
fn the_engine_scans_content_with_its_database_down_to_the_depth_limit() {
    let inner = zip_of(&[("eicar.com", EICAR)]);
    let outer = zip_of(&[("inner.zip", inner.as_slice()), ("notes.txt", b"hi".as_slice())]);
    let mut engine = ScanEngine::new();
    engine.hash_db = Some(eicar_db());
    let all = engine.scan_bytes("/t/outer.zip", &outer, 0);
    let paths: Vec<&str> = all.iter().map(|r| r.path.as_str()).collect();
    assert_eq!(
        paths,
        vec![
            "/t/outer.zip",
            "/t/outer.zip/!/inner.zip",
            "/t/outer.zip/!/inner.zip/!/eicar.com",
            "/t/outer.zip/!/notes.txt",
        ]
    );
    assert_eq!(all[2].threats.len(), 1);
    assert_eq!(all[2].threats[0].matched_rule, "hash-db");
    assert!(all.iter().all(|r| !r.skipped && r.error.is_none()));
    let at_limit = engine.scan_bytes("/t/outer.zip", &outer, 5);
    assert_eq!(at_limit.len(), 1);
    let beyond = engine.scan_bytes("/t/outer.zip", &outer, 9);
    assert_eq!(beyond.len(), 1);
    assert!(!beyond[0].skipped);
    engine.scan_args.yara_only = true;
    let rules_only = engine.scan_bytes("/t/outer.zip", &outer, 0);
    assert_eq!(rules_only.len(), 4);
    assert!(rules_only.iter().all(|r| r.threats.is_empty()));
}

#[test]
fn test_large_file_is_skipped() {
    let path = "tests/fixtures/dummy_fs/large_file.dat";
    let results: Vec<FileResult> = skip_check(path, Some(60 * 1024 * 1024), &None)
        .into_iter()
        .collect();

    assert_eq!(results.len(), 1, "Should return exactly one FileResult");
    assert!(
        results[0].skipped,
        "File > 50MB should be marked as skipped"
    );

    let error_msg = results[0].error.as_deref().unwrap_or("");
    assert!(
        error_msg.contains("maximum scan size"),
        "Should contain the size limit error message"
    );
}

#[test]
fn test_media_file_is_skipped() {
    let path = "tests/fixtures/dummy_fs/media/image.png";
    let results: Vec<FileResult> = skip_check(path, Some(2048), &Some("image/png".to_string()))
        .into_iter()
        .collect();

    assert_eq!(results.len(), 1, "Should return exactly one FileResult");
    assert!(results[0].skipped, "Media file should be marked as skipped");

    let error_msg = results[0].error.as_deref().unwrap_or("");
    assert!(
        error_msg.contains("safe media type"),
        "Should contain the media type error message"
    );
}

#[test]
fn ordinary_files_are_not_skipped() {
    assert!(skip_check("a.txt", Some(52428800), &Some("text/plain".to_string())).is_none());
    assert!(skip_check("a.bin", None, &None).is_none());
    let r = skip_check("a.mp4", None, &Some("video/mp4".to_string())).unwrap();
    assert_eq!(r.error.as_deref(), Some("Skipped safe media type: video/mp4"));
    assert_eq!(r.path, "a.mp4");
    let r = read_failure("gone.txt", "No such file or directory");
    assert!(!r.skipped);
    assert_eq!(r.error.as_deref(), Some("No such file or directory"));
}

#[test]
fn hashes_are_lowercase_sha256_hex() {
    assert_eq!(
        hash_contents(b""),
        "e3b0c44298fc1c149afbf4c8996fb92427ae41e4649b934ca495991b7852b855"
    );
    assert_eq!(hash_contents(EICAR), EICAR_SHA256);
}

#[test]
fn the_database_keeps_trimmed_lowercase_hashes_once() {
    let db = SignatureDb::from_lines(&[
        " ABC ".to_string(),
        "abc".to_string(),
        "#def".to_string(),
        "   ".to_string(),
        "0123".to_string(),
    ]);
    assert_eq!(db.count(), 2);
    assert!(db.contains("abc"));
    assert!(db.contains("0123"));
    assert!(!db.contains("def"));
    assert!(db.contains("ABC"));
}

#[test]
fn a_known_hash_is_a_high_severity_threat() {
    let ts = scan_bytes("x/eicar.com", EICAR, &eicar_db()).unwrap();
    assert_eq!(ts.len(), 1);
    assert_eq!(ts[0].path, "x/eicar.com");
    assert_eq!(ts[0].name, "known-malware:275a021bbfb6489e");
    assert_eq!(ts[0].severity, Severity::High);
    assert_eq!(ts[0].matched_rule, "hash-db");
    assert!(scan_bytes("x/ok", b"ok", &eicar_db()).unwrap().is_empty());
    assert_eq!(
        scan_file("x/gone", &Err("denied".to_string()), &eicar_db()).err().unwrap(),
        "Failed to hash file: denied"
    );
    assert_eq!(
        scan_file("x/e", &Ok(EICAR.to_vec()), &eicar_db()).unwrap().len(),
        1
    );
}

#[test]
fn archives_are_recognised_by_their_magic_numbers() {
    assert_eq!(detect_archive(&zip_of(&[("a", b"b".as_slice())])), ArchiveKind::Zip);
    assert_eq!(detect_archive(&[0x1f, 0x8b, 8, 0]), ArchiveKind::GzipSingle);
    let mut tar = vec![0u8; 300];
    tar[257..262].copy_from_slice(b"ustar");
    assert_eq!(detect_archive(&tar), ArchiveKind::Tar);
    assert_eq!(detect_archive(b"PK"), ArchiveKind::Unknown);
    assert_eq!(detect_archive(b"plain text"), ArchiveKind::Unknown);
}

#[test]
fn archives_are_entered_only_when_shallow_and_zip() {
    assert_eq!(archive_step(0, ArchiveKind::Zip), ArchiveStep::ScanEntries);
    assert_eq!(archive_step(4, ArchiveKind::Zip), ArchiveStep::ScanEntries);
    assert_eq!(archive_step(5, ArchiveKind::Zip), ArchiveStep::Done);
    assert_eq!(archive_step(0, ArchiveKind::Tar), ArchiveStep::MarkSkipped);
    assert_eq!(archive_step(0, ArchiveKind::Unknown), ArchiveStep::Done);
    assert!(entry_within_limit(100 * 1024 * 1024));
    assert!(!entry_within_limit(100 * 1024 * 1024 + 1));
    assert_eq!(archive_entry_path("/tmp/a.zip", "dir/x"), "/tmp/a.zip/!/dir/x");
    assert_eq!(archive_entry_path("", "x"), "!/x");
}

#[test]
fn zip_entries_are_extracted_in_order() {
    let archive = zip_of(&[("one.txt", b"1".as_slice()), ("two/three.txt", b"23".as_slice())]);
    let entries = extract_entries(&archive, &ArchiveKind::Zip);
    assert_eq!(entries.len(), 2);
    assert_eq!(entries[0].name, "one.txt");
    assert_eq!(entries[0].bytes, b"1");
    assert_eq!(entries[1].name, "two/three.txt");
    assert_eq!(entries[1].bytes, b"23");
    assert!(extract_entries(b"not a zip", &ArchiveKind::Zip).is_empty());
    assert!(extract_entries(&archive, &ArchiveKind::Tar).is_empty());
}

fn threat(name: &str, severity: Severity) -> Threat {
    Threat {
        path: "p".to_string(),
        name: name.to_string(),
        severity,
        matched_rule: "r".to_string(),
    }
}

#[test]
fn rule_scans_combine_threats_and_the_last_error() {
    let r = combine_rule_scans(
        "f",
        vec![
            Ok(vec![threat("a", Severity::Low)]),
            Err("bad rule".to_string()),
            Ok(vec![threat("b", Severity::High), threat("c", Severity::Medium)]),
            Err("timeout".to_string()),
        ],
    );
    assert_eq!(r.path, "f");
    assert!(!r.skipped);
    let names: Vec<&str> = r.threats.iter().map(|t| t.name.as_str()).collect();
    assert_eq!(names, vec!["a", "b", "c"]);
    assert_eq!(r.error.as_deref(), Some("YARA scan error: timeout"));
}

#[test]
fn a_report_counts_its_results_and_sorts_threats_by_severity() {
    let mut report = ScanReport::default();
    assert!(report.is_clean());
    report.add(vec![
        FileResult {
            path: "a".to_string(),
            threats: vec![threat("low", Severity::Low), threat("crit", Severity::Critical)],
            skipped: false,
            error: None,
        },
        FileResult {
            path: "b".to_string(),
            threats: vec![],
            skipped: true,
            error: Some("too big".to_string()),
        },
    ]);
    report.add(vec![FileResult {
        path: "c".to_string(),
        threats: vec![threat("high", Severity::High), threat("low2", Severity::Low)],
        skipped: false,
        error: None,
    }]);
    assert_eq!(report.total_scanned, 3);
    assert_eq!(report.total_threats, 2);
    assert_eq!(report.total_skipped, 1);
    assert_eq!(report.total_errors, 1);
    assert!(!report.is_clean());
    let names: Vec<&str> = report.all_threats().iter().map(|t| t.name.as_str()).collect();
    assert_eq!(names, vec!["crit", "high", "low", "low2"]);
    let errors = report.errors();
    assert_eq!(errors.len(), 1);
    assert_eq!(errors[0].path, "b");
    assert_eq!(
        report.summary(),
        "Scan complete: 3 files scanned, 2 threats found, 1 errors, 1 skipped"
    );
}

#[test]
fn severities_are_ranked_and_named() {
    assert_eq!(Severity::Low.rank(), 0);
    assert_eq!(Severity::Critical.rank(), 3);
    assert_eq!(Severity::Medium.to_string(), "medium");
    assert_eq!(Severity::default(), Severity::Medium);
}

#[test]
fn category_names_read_back() {
    for c in ThreatCategory::all() {
        if c == ThreatCategory::Other {
            assert_eq!(ThreatCategory::try_from_str(c.as_str()), None);
        } else {
            assert_eq!(ThreatCategory::try_from_str(c.as_str()), Some(c));
        }
    }
    assert_eq!(ThreatCategory::try_from_str("TroJans"), Some(ThreatCategory::Trojan));
    assert_eq!(
        ThreatCategory::parse("Worms"),
        Err("Unknown category: 'worms'".to_string())
    );
    assert_eq!("apt".parse::<ThreatCategory>(), Ok(ThreatCategory::Apt));
}

#[test]
fn category_names_are_read_in_uppercase_and_are_distinct() {
    let all = ThreatCategory::all();
    for c in &all {
        let upper = c.as_str().to_uppercase();
        if *c == ThreatCategory::Other {
            assert_eq!(ThreatCategory::try_from_str(&upper), None);
        } else {
            assert_eq!(ThreatCategory::try_from_str(&upper), Some(*c));
        }
        for d in &all {
            assert_eq!(c.as_str() == d.as_str(), c == d);
        }
    }
    assert_eq!(ThreatCategory::try_from_str("trojan"), None);
    assert_eq!(ThreatCategory::try_from_str("other"), None);
}

#[test]
fn active_categories_are_the_included_ones_without_the_excluded() {
    let all = ScanArgs::default();
    assert_eq!(all.get_active_categories(), ThreatCategory::all());
    let only = ScanArgs {
        included: vec![ThreatCategory::Rootkit, ThreatCategory::Apt],
        exclude: vec![ThreatCategory::Apt],
        ..Default::default()
    };
    assert_eq!(only.get_active_categories(), vec![ThreatCategory::Rootkit]);
    let without = ScanArgs {
        exclude: vec![ThreatCategory::Other, ThreatCategory::Ransomware],
        ..Default::default()
    };
    let active = without.get_active_categories();
    assert_eq!(active.len(), 7);
    assert_eq!(active[0], ThreatCategory::Trojan);
    assert!(!active.contains(&ThreatCategory::Other));
}

#[test]
fn scan_options_become_scan_args() {
    let opts = ScanOptions {
        paths: vec!["/home".to_string(), "/tmp".to_string()],
        archive: false,
        folder: true,
        threading: "max".to_string(),
        threads: 4,
        threats: vec!["Trojans".to_string(), "worms".to_string(), "apt".to_string()],
    };
    let args = opts.to_scan_args();
    assert_eq!(args.paths, vec!["/home"]);
    assert!(!args.archives);
    assert!(args.recursive);
    assert_eq!(args.threads, "max");
    assert_eq!(args.nb_threads, 4);
    assert_eq!(args.included, vec![ThreatCategory::Trojan, ThreatCategory::Apt]);
    assert!(args.exclude.is_empty());
}

#[test]
fn threads_are_read_from_the_setting() {
    assert_eq!(thread_count(" AUTO ", 8), Ok(None));
    assert_eq!(thread_count("conservative", 8), Ok(Some(4)));
    assert_eq!(thread_count("conservative", 1), Ok(Some(1)));
    assert_eq!(thread_count("+12", 8), Ok(Some(12)));
    assert_eq!(
        thread_count("many", 8),
        Err("Invalid --threads value: 'many'. Use a number, 'auto', or 'conservative'".to_string())
    );
}

#[test]
fn the_engine_prepares_with_its_database() {
    let mut engine = ScanEngine::new();
    let prep = PrepArgs {
        hash_db: Some("/var/lib/griffon".to_string()),
        yara_rules: None,
        yara_only: false,
        threads: "auto".to_string(),
    };
    assert_eq!(ScanEngine::hash_db_path(&prep, "rules"), "/var/lib/griffon/hashes.txt");
    assert_eq!(ScanEngine::rules_dir(&prep, "rules"), "rules");
    assert_eq!(engine.prepare(&prep, Some(eicar_db()), 12), (1, 12));
    let only_rules = PrepArgs {
        yara_only: true,
        ..prep
    };
    assert_eq!(engine.prepare(&only_rules, None, 3), (1, 3));
    engine.load_hash_db(&["a".to_string(), "b".to_string()]);
    assert!(engine.scans_in_parallel());
}

#[test]
fn the_engine_life_cycle() {
    let mut state = STATE_STOPPED;
    assert_eq!(engine_state_label(state), "stopped");
    assert!(engine_not_ready(state).is_some());
    assert!(begin_start(&mut state));
    assert_eq!(state, STATE_LOADING);
    assert!(!begin_start(&mut state));
    let s = engine_not_ready(state).unwrap();
    assert_eq!(s.state, "loading");
    assert_eq!(s.message, "Engine is still loading signatures, try again shortly");
    let ack = stop_engine(&mut state);
    assert!(!ack.ok);
    assert_eq!(state, STATE_LOADING);
    finish_start(&mut state, true);
    assert_eq!(state, STATE_READY);
    assert!(engine_not_ready(state).is_none());
    assert!(restart_after_update(state));
    assert_eq!(check_status(state).message, "Engine is ready");
    let ack = stop_engine(&mut state);
    assert!(ack.ok);
    assert_eq!(ack.message, "Engine stopped");
    assert_eq!(stop_engine(&mut state).message, "Already stopped");
    finish_start(&mut state, false);
    assert_eq!(state, STATE_ERROR);
    assert_eq!(engine_state_label(7), "unknown");
}

#[test]
fn scanner_commands_are_named() {
    assert_eq!(command_of("q_list"), Some(ScannerCommand::QList));
    assert_eq!(command_of("db_update"), Some(ScannerCommand::DbUpdate));
    assert_eq!(command_of("Scan"), None);
    assert_eq!(unknown_function("fly"), "ERR unknown function: fly");
}

#[test]
fn the_updater_compares_versions() {
    let u = ScannerUpdater {
        rules_dir: "rules".to_string(),
    };
    assert_eq!(
        u.manifest_url(),
        "https://raw.githubusercontent.com/GriffonAV/Griffon_scan_db/main/manifest.toml"
    );
    assert_eq!(
        u.rule_url("apt.yar"),
        "https://raw.githubusercontent.com/GriffonAV/Griffon_scan_db/main/apt.yar"
    );
    assert_eq!(u.local_path("apt.yar"), "rules/apt.yar");
    assert!(u.needs_update(&None, "1.0"));
    assert!(u.needs_update(&Some("0.9".to_string()), "1.0"));
    assert!(!u.needs_update(&Some("1.0".to_string()), "1.0"));
}
