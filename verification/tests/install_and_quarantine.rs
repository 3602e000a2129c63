use griffon::gui::plugins::{
    ensure_extension as gui_ensure_extension, format_helper_error, format_name, has_extension,
    manifest_path, plugin_deleted, plugin_files, sanitize_plugin_name,
};
use griffon::installer::{
    check_manifest_location, ensure_extension, find_uuid_in_toml, manifest_uuid_of_text, install_destination,
    manifest_uuid_matches, no_plugin_found, removal_target, ArchiveEntryFacts, EntryStep,
    InstallPlan, InstallerStyle, TomlValue,
};
use griffon::scanner::quarantine::{
    check_virtual_path, item_name_of, real_path_of, Quarantine, QuarantineItem,
};
use griffon::sorting::{reversed, stable_sort_desc, strip_keys};
use griffon::table::{find_key, insert_entry};

#[test]
fn plugin_names_become_file_names() {
    assert_eq!(format_name("Griffon Scanner"), "griffon_scanner");
    assert_eq!(sanitize_plugin_name("  My Plugin.toml "), Ok("my_plugin".to_string()));
    assert_eq!(sanitize_plugin_name("   "), Err("Plugin name cannot be empty".to_string()));
    assert_eq!(sanitize_plugin_name("../etc"), Err("Invalid plugin name".to_string()));
    assert_eq!(sanitize_plugin_name("a/b"), Err("Invalid plugin name".to_string()));
    assert_eq!(sanitize_plugin_name("bad$name"), Err("Invalid plugin name".to_string()));
    assert_eq!(
        plugin_files("/plugins", "my_plugin"),
        (
            "/plugins/my_plugin.toml".to_string(),
            "/plugins/my_plugin.so".to_string()
        )
    );
    assert_eq!(manifest_path("/plugins", "My Plugin"), "/plugins/my_plugin.toml");
    assert_eq!(
        plugin_deleted("x", 0),
        Err("Plugin 'x' was not found".to_string())
    );
    assert_eq!(plugin_deleted("x", 2), Ok(()));
}

#[test]
fn extensions_are_compared_without_case() {
    assert!(has_extension("/tmp/p.ZIP", "zip"));
    assert!(!has_extension("/tmp/p", "zip"));
    assert_eq!(gui_ensure_extension("/tmp/p.Zip", "zip"), Ok(()));
    assert_eq!(
        gui_ensure_extension("/tmp/p.tar", "zip"),
        Err("Invalid file extension for /tmp/p.tar. Expected .zip".to_string())
    );
    assert_eq!(
        ensure_extension("/tmp/p.tar", "zip"),
        Err("Expected a .zip file: /tmp/p.tar".to_string())
    );
}

#[test]
fn helper_failures_are_explained() {
    assert_eq!(
        format_helper_error(Some(126), "", "Installation"),
        "Installation was cancelled by the user"
    );
    assert_eq!(
        format_helper_error(Some(127), "x", "Removal"),
        "Removal failed because administrator authorization was denied"
    );
    assert_eq!(format_helper_error(Some(1), "  disk full \n", "Installation"), "disk full");
    assert_eq!(
        format_helper_error(Some(-2), " ", "Installation"),
        "Installation failed with exit code -2"
    );
    assert_eq!(
        format_helper_error(None, "", "Installation"),
        "Installation was terminated unexpectedly"
    );
}

fn entry(index: usize, name: Option<&str>, size: u64) -> ArchiveEntryFacts {
    ArchiveEntryFacts {
        index,
        enclosed_name: name.map(|n| n.to_string()),
        size,
    }
}

#[test]
fn an_archive_gives_one_manifest_and_one_library() {
    let mut plan = InstallPlan::new();
    let style = InstallerStyle::Privileged;
    assert!(matches!(
        plan.plan_entry(style, &entry(0, Some("README.md"), 10)),
        Ok(EntryStep::Skip)
    ));
    match plan.plan_entry(style, &entry(1, Some("dist/plugin.TOML"), 10)) {
        Ok(EntryStep::Extract(n)) => assert_eq!(n, "plugin.TOML"),
        _ => panic!("expected the manifest"),
    }
    match plan.plan_entry(style, &entry(2, Some("dist/libplugin.so"), 10)) {
        Ok(EntryStep::Extract(n)) => assert_eq!(n, "libplugin.so"),
        _ => panic!("expected the library"),
    }
    assert_eq!(
        plan.finish(style),
        Ok(("plugin.TOML".to_string(), "libplugin.so".to_string()))
    );
    match plan.installed(style, "/usr/lib/griffon/plugins") {
        Ok(p) => {
            assert_eq!(p.toml_path, "/usr/lib/griffon/plugins/plugin.TOML");
            assert_eq!(p.so_path, "/usr/lib/griffon/plugins/libplugin.so");
            assert_eq!(p.plugin_dir, "/usr/lib/griffon/plugins");
        }
        Err(e) => panic!("unexpected refusal: {e}"),
    }
    assert!(matches!(
        plan.plan_entry(style, &entry(3, Some("other.toml"), 10)),
        Err(e) if e == "Archive contains multiple TOML manifests"
    ));
    assert!(matches!(
        InstallPlan::new().installed(InstallerStyle::Development, "/p"),
        Err(e) if e == "No .toml file found in the ZIP archive"
    ));
}

#[test]
fn unsafe_or_incomplete_archives_are_refused() {
    let mut plan = InstallPlan::new();
    assert!(matches!(
        plan.plan_entry(InstallerStyle::Privileged, &entry(4, None, 1)),
        Err(e) if e == "Unsafe path found in ZIP archive"
    ));
    assert!(matches!(
        plan.plan_entry(InstallerStyle::Development, &entry(4, None, 1)),
        Err(e) if e == "Unsafe path found in ZIP archive at index 4"
    ));
    assert!(matches!(
        plan.plan_entry(InstallerStyle::Privileged, &entry(0, Some("big.so"), 268435457)),
        Err(e) if e == "Plugin file is too large: big.so"
    ));
    assert!(matches!(
        plan.plan_entry(InstallerStyle::Development, &entry(0, Some("big.so"), 268435457)),
        Ok(EntryStep::Extract(_))
    ));
    assert!(matches!(
        plan.plan_entry(InstallerStyle::Development, &entry(1, Some("again.so"), 1)),
        Err(e) if e == "Multiple shared libraries found in archive"
    ));
    assert_eq!(
        plan.finish(InstallerStyle::Development),
        Err("No .toml file found in the ZIP archive".to_string())
    );
    let only_toml = InstallPlan {
        toml: Some("p.toml".to_string()),
        so: None,
    };
    assert_eq!(
        only_toml.finish(InstallerStyle::Privileged),
        Err("Archive does not contain a shared library".to_string())
    );
}

#[test]
fn plugin_files_are_removed_only_inside_the_plugin_directory() {
    assert_eq!(
        install_destination("/usr/lib/griffon/plugins", "p.so"),
        "/usr/lib/griffon/plugins/p.so"
    );
    let dir = "/usr/lib/griffon/plugins";
    assert_eq!(
        removal_target("/x.so", false, &Err(String::new()), dir, true),
        Err("Required plugin file does not exist: /x.so".to_string())
    );
    assert_eq!(removal_target("/x.so", false, &Err(String::new()), dir, false), Ok(None));
    assert_eq!(
        removal_target("/x.so", true, &Err("loop".to_string()), dir, true),
        Err("Unable to resolve plugin file /x.so: loop".to_string())
    );
    assert_eq!(
        removal_target("p.so", true, &Ok("/usr/lib/griffon/plugins/p.so".to_string()), dir, true),
        Ok(Some("/usr/lib/griffon/plugins/p.so".to_string()))
    );
    assert_eq!(
        removal_target("p.so", true, &Ok("/etc/passwd".to_string()), dir, true),
        Err("Refusing to delete a file outside the Griffon plugin directory: /etc/passwd".to_string())
    );
    assert_eq!(check_manifest_location("/usr/lib/griffon/plugins/p.toml", dir), Ok(()));
    assert_eq!(
        check_manifest_location("/usr/lib/griffon/pluginsx/p.toml", dir),
        Err("Manifest is outside the Griffon plugin directory: /usr/lib/griffon/pluginsx/p.toml".to_string())
    );
    assert_eq!(
        no_plugin_found("abc"),
        "No installed plugin found for UUID abc"
    );
}

#[test]
fn a_manifest_uuid_is_compared_in_canonical_form() {
    let id = "123e4567-e23b-12d3-a456-426614174000";
    assert!(manifest_uuid_matches("123E4567E23B12D3A456426614174000", id));
    assert!(!manifest_uuid_matches("123e4567-e23b-12d3-a456-426614174001", id));
    assert!(!manifest_uuid_matches("nope", id));
}

#[test]
fn the_manifest_uuid_is_found_table_first() {
    let v = TomlValue::Table(vec![
        (
            "plugin".to_string(),
            TomlValue::Table(vec![("uuid".to_string(), TomlValue::Str("inner".to_string()))]),
        ),
        ("uuid".to_string(), TomlValue::Str("top".to_string())),
    ]);
    assert_eq!(find_uuid_in_toml(&v).as_deref(), Some("top"));
    let v = TomlValue::Table(vec![
        ("name".to_string(), TomlValue::Str("x".to_string())),
        (
            "items".to_string(),
            TomlValue::Array(vec![
                TomlValue::Other,
                TomlValue::Table(vec![("uuid".to_string(), TomlValue::Str("deep".to_string()))]),
            ]),
        ),
    ]);
    assert_eq!(find_uuid_in_toml(&v).as_deref(), Some("deep"));
    let v = TomlValue::Table(vec![("uuid".to_string(), TomlValue::Other)]);
    assert_eq!(find_uuid_in_toml(&v), None);
}

#[test]
fn quarantine_paths_inside_archives_stand_for_the_archive() {
    assert_eq!(real_path_of("/d/a.zip!/x/y"), ("/d/a.zip".to_string(), true));
    assert_eq!(real_path_of("/d/a.txt"), ("/d/a.txt".to_string(), false));
    assert_eq!(check_virtual_path("/d/a.zip!/x", true).as_deref(), Some("/d/a.zip"));
    assert_eq!(check_virtual_path("/d/a.zip!/x", false), None);
    assert_eq!(check_virtual_path("/d/a.txt", false).as_deref(), Some("/d/a.txt"));
}

#[test]
fn a_quarantined_file_is_listed_under_its_stored_name() {
    let q = Quarantine {
        dir: "/var/lib/griffon/quarantine".to_string(),
    };
    let hash = "e3b0c44298fc1c149afbf4c8996fb92427ae41e4649b934ca495991b7852b855";
    let (stored, manifest) = q.quarantine_paths("20260704_214704", hash);
    assert_eq!(
        stored,
        "/var/lib/griffon/quarantine/20260704_214704_e3b0c44298fc1c14.quarantined"
    );
    assert_eq!(
        manifest,
        "/var/lib/griffon/quarantine/20260704_214704_e3b0c44298fc1c14.json"
    );
    let name = item_name_of(&manifest).unwrap();
    assert_eq!(name, "20260704_214704_e3b0c44298fc1c14.quarantined");
    assert_eq!(q.stored_paths(&name), (stored, manifest));
    assert_eq!(item_name_of("/q/readme.txt"), None);
}

#[test]
fn quarantine_batches() {
    let q = Quarantine {
        dir: "q".to_string(),
    };
    assert_eq!(q.quarantine_files(&[Ok("a".to_string()), Ok("b".to_string())]), Ok(()));
    assert_eq!(
        q.quarantine_files(&[Ok("a".to_string()), Err("read".to_string()), Err("late".to_string())]),
        Err("read".to_string())
    );
    assert_eq!(
        q.restore_files(&[], &[]),
        Err("No names provided for restore".to_string())
    );
    let names = vec!["a.quarantined".to_string(), "b.quarantined".to_string()];
    assert_eq!(
        q.restore_files(&names, &[Err("gone".to_string()), Ok("/home/b".to_string())]),
        Ok(vec!["/home/b".to_string()])
    );
    assert_eq!(
        q.restore_files(&names, &[Err("gone".to_string()), Err("busy".to_string())]),
        Err("Failed to restore all 2 file(s): a.quarantined: gone; b.quarantined: busy".to_string())
    );
    assert_eq!(
        q.delete_quarantined_files(&names, &[Ok(()), Err("busy".to_string())]),
        Ok(vec!["a.quarantined".to_string()])
    );
    assert_eq!(
        q.delete_quarantined_files(&[], &[]),
        Err("No names provided for delete".to_string())
    );
}

fn item(name: &str, at: &str) -> QuarantineItem {
    QuarantineItem {
        quarantine_name: name.to_string(),
        original_path: format!("/home/{name}"),
        quarantined_at: at.to_string(),
    }
}

#[test]
fn the_quarantine_list_is_newest_first() {
    let q = Quarantine {
        dir: "q".to_string(),
    };
    let sorted = q.list_sorted(vec![
        item("a", "2026-01-01T10:00:00Z"),
        item("b", "2026-03-01T10:00:00Z"),
        item("c", "2026-01-01T10:00:00Z"),
        item("d", "2025-12-31T23:59:59Z"),
    ]);
    let names: Vec<&str> = sorted.iter().map(|i| i.quarantine_name.as_str()).collect();
    assert_eq!(names, vec!["b", "a", "c", "d"]);
}

#[test]
fn sorting_is_stable_and_descending() {
    let v = vec![("a", 1u64), ("b", 3), ("c", 1), ("d", 2)];
    let s = stable_sort_desc(v);
    assert_eq!(strip_keys(s), vec!["b", "d", "a", "c"]);
    assert_eq!(reversed(vec![1, 2, 3]), vec![3, 2, 1]);
}

#[test]
fn tables_replace_in_place_and_append_new_keys() {
    let mut t: Vec<(String, u32)> = Vec::new();
    insert_entry(&mut t, "x", 1);
    insert_entry(&mut t, "y", 2);
    insert_entry(&mut t, "x", 3);
    assert_eq!(t, vec![("x".to_string(), 3), ("y".to_string(), 2)]);
    assert_eq!(find_key(&t, "y"), Some(1));
    assert_eq!(find_key(&t, "z"), None);
}

#[test]
fn archive_entries_cannot_escape_the_plugin_directory() {
    let mut plan = InstallPlan::new();
    match plan.plan_entry(InstallerStyle::Development, &entry(0, Some("a/../../evil.so"), 1)) {
        Ok(EntryStep::Extract(n)) => {
            assert_eq!(n, "evil.so");
            assert_eq!(
                install_destination("/usr/lib/griffon/plugins", &n),
                "/usr/lib/griffon/plugins/evil.so"
            );
        }
        _ => panic!("expected the library"),
    }
    assert!(matches!(
        plan.plan_entry(InstallerStyle::Development, &entry(1, Some("x/.."), 1)),
        Ok(EntryStep::Skip)
    ));
}

#[test]
fn a_manifest_text_gives_its_uuid() {
    let text = "[plugin]\nname = \"Scanner\"\nversion = 3\nuuid = \"123e4567-e89b-12d3-a456-426614174000\"\n\n[ui]\nsections = []\n";
    assert_eq!(
        manifest_uuid_of_text(text),
        Some("123e4567-e89b-12d3-a456-426614174000".to_string())
    );
    assert_eq!(manifest_uuid_of_text("uuid = \"top\"\n[plugin]\nuuid = \"inner\"\n"), Some("top".to_string()));
    assert_eq!(manifest_uuid_of_text("[plugin]\nuuid = 5\n"), None);
    assert_eq!(manifest_uuid_of_text("[[plugins]]\nuuid = \"in-array\"\n"), Some("in-array".to_string()));
    assert_eq!(manifest_uuid_of_text("this is = = not toml"), None);
}
