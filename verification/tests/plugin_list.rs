use griffon::daemon::settings::{DaemonConfig, PluginSettings};
use griffon::gui::listing::{listed_stem, plugin_entry, sort_by_display_name, PluginEntry};
use griffon::gui::manifests::{Plugin, PluginManifest, Section, UI};

fn manifest_plugin(name: &str, id: &str) -> Plugin {
    Plugin {
        name: name.to_string(),
        id: id.to_string(),
        version: "1.0.0".to_string(),
        author: "Griffon".to_string(),
        description: format!("The {name} plugin"),
        tabs: vec!["main".to_string()],
    }
}

fn entry(file: &str, name: &str) -> PluginEntry {
    PluginEntry {
        file_name: file.to_string(),
        uuid: String::new(),
        display_name: name.to_string(),
        version: String::new(),
        author: String::new(),
        description: String::new(),
        notifications_enabled: true,
    }
}

#[test]
fn only_toml_files_are_listed_under_their_stem() {
    assert_eq!(listed_stem("/usr/lib/griffon/plugins/scanner.toml"), Some("scanner".to_string()));
    assert_eq!(listed_stem("plugins/my.plugin.toml"), Some("my.plugin".to_string()));
    assert_eq!(listed_stem("/usr/lib/griffon/plugins/scanner.so"), None);
    assert_eq!(listed_stem("/usr/lib/griffon/plugins/scanner.TOML"), None);
    assert_eq!(listed_stem("/usr/lib/griffon/plugins/README"), None);
}

#[test]
fn an_entry_shows_the_manifest_and_the_notification_setting() {
    let manifest = PluginManifest {
        plugin: manifest_plugin("Griffon Scanner", "a1b2"),
        ui: UI {
            sections: vec![Section {
                id: "scan".to_string(),
                tab: "main".to_string(),
            }],
        },
    };
    let mut config = DaemonConfig::default();
    let e = plugin_entry("griffon_scanner", &manifest.plugin, &config);
    assert_eq!(e.file_name, "griffon_scanner");
    assert_eq!(e.uuid, "a1b2");
    assert_eq!(e.display_name, "Griffon Scanner");
    assert_eq!(e.version, "1.0.0");
    assert_eq!(e.author, "Griffon");
    assert_eq!(e.description, "The Griffon Scanner plugin");
    assert!(e.notifications_enabled);
    config.plugins.push((
        "a1b2".to_string(),
        PluginSettings {
            notifications_enabled: false,
        },
    ));
    assert!(!plugin_entry("griffon_scanner", &manifest.plugin, &config).notifications_enabled);
    config.plugins.clear();
    config.general.notifications_enabled = false;
    assert!(!plugin_entry("griffon_scanner", &manifest.plugin, &config).notifications_enabled);
}

#[test]
fn the_plugin_list_is_ordered_by_display_name() {
    let sorted = sort_by_display_name(vec![
        entry("c", "Scanner"),
        entry("a", "Cleaner"),
        entry("d", "Docker helper"),
        entry("b", "Cleaner"),
        entry("e", "Antivirus"),
    ]);
    let files: Vec<&str> = sorted.iter().map(|e| e.file_name.as_str()).collect();
    assert_eq!(files, vec!["e", "a", "b", "d", "c"]);
    assert!(sort_by_display_name(Vec::new()).is_empty());
}
