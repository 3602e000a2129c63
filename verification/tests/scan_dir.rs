use griffon::scanner::args::ScanArgs;
use griffon::scanner::scan_engine::ScanEngine;
use griffon::scanner::walk::WalkEntry;

fn entry(path: &str, depth: usize, is_dir: bool) -> WalkEntry {
    WalkEntry {
        path: path.to_string(),
        name: path.rsplit('/').next().unwrap().to_string(),
        depth,
        is_dir,
        is_file: !is_dir,
    }
}

/// The walk of `tests/fixtures/dummy_fs`, a directory with files at its top, in
/// subdirectories, and a `node_modules` directory.
fn dummy_fs() -> Vec<WalkEntry> {
    vec![
        entry("tests/fixtures/dummy_fs", 0, true),
        entry("tests/fixtures/dummy_fs/clean.txt", 1, false),
        entry("tests/fixtures/dummy_fs/large_file.dat", 1, false),
        entry("tests/fixtures/dummy_fs/media", 1, true),
        entry("tests/fixtures/dummy_fs/media/image.png", 2, false),
        entry("tests/fixtures/dummy_fs/node_modules", 1, true),
        entry("tests/fixtures/dummy_fs/node_modules/lib.js", 2, false),
        entry("tests/fixtures/dummy_fs/node_modules/pkg", 2, true),
        entry("tests/fixtures/dummy_fs/node_modules/pkg/index.js", 3, false),
        entry("tests/fixtures/dummy_fs/src", 1, true),
        entry("tests/fixtures/dummy_fs/src/main.rs", 2, false),
    ]
}

fn setup_test_engine() -> ScanEngine {
    ScanEngine::new()
}

#[test]
fn test_directory_exclusion_ignores_node_modules() {
    let mut engine = setup_test_engine();

    engine.scan_args = ScanArgs {
        recursive: true,
        threads: "off".to_string(),
        ..Default::default()
    };

    let results = engine.scan_dir(&dummy_fs());

    let scanned_node_modules = results.iter().any(|r| r.contains("node_modules"));

    assert!(
        !scanned_node_modules,
        "Scanner must not traverse into node_modules directory"
    );
}

#[test]
fn test_recursive_vs_non_recursive() {
    let mut engine = setup_test_engine();
    let target_dir = dummy_fs();

    engine.scan_args = ScanArgs {
        recursive: false,
        threads: "off".to_string(),
        ..Default::default()
    };
    let results_flat = engine.scan_dir(&target_dir);

    engine.scan_args.recursive = true;
    let results_deep = engine.scan_dir(&target_dir);

    assert!(
        results_deep.len() > results_flat.len(),
        "Recursive scan should discover more files than non-recursive scan"
    );
}

#[test]
fn walk_keeps_files_outside_refused_directories_in_order() {
    let engine = ScanEngine::new();
    let results = engine.scan_dir(&dummy_fs());
    assert_eq!(
        results,
        vec![
            "tests/fixtures/dummy_fs/clean.txt".to_string(),
            "tests/fixtures/dummy_fs/large_file.dat".to_string(),
            "tests/fixtures/dummy_fs/media/image.png".to_string(),
            "tests/fixtures/dummy_fs/src/main.rs".to_string(),
        ]
    );
}

#[test]
fn walk_never_enters_system_directories() {
    let engine = ScanEngine::new();
    let listing = vec![
        entry("/", 0, true),
        entry("/proc", 1, true),
        entry("/proc/cpuinfo", 2, false),
        entry("/home", 1, true),
        entry("/home/notes.txt", 2, false),
    ];
    assert_eq!(engine.scan_dir(&listing), vec!["/home/notes.txt".to_string()]);
}

#[test]
fn the_recursive_walk_keeps_every_file_of_the_flat_listing() {
    let listing = dummy_fs();
    let flat = griffon::scanner::walk::files_to_scan(false, &listing);
    let deep = griffon::scanner::walk::files_to_scan(true, &listing);
    assert_eq!(flat.len(), 2);
    for f in &flat {
        assert!(deep.contains(f));
    }
    assert!(deep.len() > flat.len());
}
