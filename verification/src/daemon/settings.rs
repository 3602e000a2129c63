//! The daemon's settings file: notifications in general and per plugin, and the plugins it
//! knows. The per-plugin table is keyed by the plugin's hyphenated UUID, each key once.
use vstd::prelude::*;
use crate::daemon::uuid_text::{format_uuid_bytes, is_nil_uuid, uuid_text};
use crate::table::{distinct_keys, find_key, insert_entry, lookup, table_keys, table_map};
use crate::text::{chars_of, extend_chars, string_of};

verus! {

/// The version a settings file without one has.
pub fn default_config_version() -> (r: u32)
    ensures
        r == 1,
{
    1
}

/// The value a missing switch has: on.
pub fn default_true() -> (r: bool)
    ensures
        r,
{
    true
}

/// Settings for all plugins.
pub struct GeneralSettings {
    pub notifications_enabled: bool,
}

/// Settings of one plugin.
pub struct PluginSettings {
    pub notifications_enabled: bool,
}

impl Default for GeneralSettings {
    /// Notifications on.
    fn default() -> (r: GeneralSettings)
        ensures
            r.notifications_enabled,
    {
        GeneralSettings { notifications_enabled: true }
    }
}

impl Default for PluginSettings {
    /// Notifications on.
    fn default() -> (r: PluginSettings)
        ensures
            r.notifications_enabled,
    {
        PluginSettings { notifications_enabled: true }
    }
}

/// The notification settings of the daemon.
pub struct NotificationConfig {
    pub version: u32,
    pub general: GeneralSettings,
    pub plugins: Vec<(String, PluginSettings)>,
}

/// Whether notifications of a plugin are shown: never when they are off in general;
/// otherwise as the plugin's settings say, on for a plugin without settings.
pub open spec fn enabled_in(general: bool, plugins: Map<Seq<char>, PluginSettings>, key: Seq<char>) -> bool {
    general && (plugins.contains_key(key) ==> plugins[key].notifications_enabled)
}

/// The plugin settings after switching a plugin's notifications: a plugin without
/// settings gets them, on, before the switch.
pub open spec fn switched(plugins: Map<Seq<char>, PluginSettings>, key: Seq<char>) -> Map<Seq<char>, PluginSettings> {
    plugins.insert(key, PluginSettings { notifications_enabled: !enabled_in(true, plugins, key) })
}

impl Default for NotificationConfig {
    /// Version 1, notifications on, no plugin settings.
    fn default() -> (r: NotificationConfig)
        ensures
            r.version == 1,
            r.general.notifications_enabled,
            r.plugins@.len() == 0,
    {
        NotificationConfig { version: 1, general: GeneralSettings::default(), plugins: Vec::new() }
    }
}

fn settings_of(plugins: &Vec<(String, PluginSettings)>, key: &str) -> (r: Option<bool>)
    requires
        distinct_keys(plugins@),
    ensures
        r == match lookup(plugins@, key@) {
            Some(s) => Some(s.notifications_enabled),
            None => None::<bool>,
        },
{
    match find_key(plugins, key) {
        Some(i) => Some(plugins[i].1.notifications_enabled),
        None => None,
    }
}

impl NotificationConfig {
    /// Whether notifications of the plugin with this identifier are shown.
    pub fn is_enabled_for_plugin(&self, plugin_uuid: &[u8; 16]) -> (r: bool)
        requires
            distinct_keys(self.plugins@),
        ensures
            r == enabled_in(self.general.notifications_enabled, table_map(self.plugins@), uuid_text(plugin_uuid@)),
    {
        if !self.general.notifications_enabled {
            return false;
        }
        let key = format_uuid_bytes(plugin_uuid);
        match settings_of(&self.plugins, key.as_str()) {
            Some(b) => b,
            None => true,
        }
    }

    /// Switches the notifications of a plugin, giving it settings (on) first if it has
    /// none; answers whether they are now on.
    pub fn switch_plugin_notification(&mut self, plugin_uuid: &[u8; 16]) -> (r: bool)
        requires
            distinct_keys(old(self).plugins@),
        ensures
            distinct_keys(final(self).plugins@),
            table_map(final(self).plugins@) == switched(table_map(old(self).plugins@), uuid_text(plugin_uuid@)),
            r == !enabled_in(true, table_map(old(self).plugins@), uuid_text(plugin_uuid@)),
            final(self).version == old(self).version,
            final(self).general == old(self).general,
    {
        let key = format_uuid_bytes(plugin_uuid);
        let current = match settings_of(&self.plugins, key.as_str()) {
            Some(b) => b,
            None => true,
        };
        insert_entry(&mut self.plugins, key.as_str(), PluginSettings { notifications_enabled: !current });
        !current
    }
}

/// The daemon's settings.
pub struct DaemonConfig {
    pub version: u32,
    pub general: GeneralSettings,
    pub plugins: Vec<(String, PluginSettings)>,
}

impl Default for DaemonConfig {
    /// Version 1, notifications on, no plugin settings.
    fn default() -> (r: DaemonConfig)
        ensures
            r.version == 1,
            r.general.notifications_enabled,
            r.plugins@.len() == 0,
    {
        DaemonConfig { version: 1, general: GeneralSettings::default(), plugins: Vec::new() }
    }
}

/// The plugin settings after making sure a plugin has some, and whether they changed: the
/// nil identifier and a plugin with settings change nothing; another plugin gets default
/// settings (notifications on).
pub open spec fn spec_ensure_plugin(plugins: Map<Seq<char>, PluginSettings>, key: Seq<char>, nil: bool) -> (Map<Seq<char>, PluginSettings>, bool) {
    if nil || plugins.contains_key(key) {
        (plugins, false)
    } else {
        (plugins.insert(key, PluginSettings { notifications_enabled: true }), true)
    }
}

impl DaemonConfig {
    /// Makes sure a plugin has settings: the nil identifier and a plugin that has some are
    /// left alone; another gets default settings (notifications on), appended. Answers
    /// whether the settings changed (and so must be saved).
    pub fn ensure_plugin_exists(&mut self, plugin_uuid: &[u8; 16]) -> (r: bool)
        requires
            distinct_keys(old(self).plugins@),
        ensures
            distinct_keys(final(self).plugins@),
            (table_map(final(self).plugins@), r) == spec_ensure_plugin(
                table_map(old(self).plugins@),
                uuid_text(plugin_uuid@),
                plugin_uuid@ == Seq::new(16, |i: int| 0u8),
            ),
            r ==> table_keys(final(self).plugins@) == table_keys(old(self).plugins@).push(uuid_text(plugin_uuid@)),
            !r ==> final(self).plugins@ == old(self).plugins@,
            final(self).version == old(self).version,
            final(self).general == old(self).general,
    {
        if is_nil_uuid(plugin_uuid) {
            return false;
        }
        let key = format_uuid_bytes(plugin_uuid);
        match find_key(&self.plugins, key.as_str()) {
            Some(_) => false,
            None => {
                insert_entry(&mut self.plugins, key.as_str(), PluginSettings { notifications_enabled: true });
                true
            },
        }
    }
}

/// How a notification looks.
#[derive(PartialEq, Eq, Structural, Clone, Copy, Debug)]
pub enum NotificationLevel {
    Success,
    Error,
}

/// A desktop notification to show.
pub struct SystemNotification {
    pub title: String,
    pub body: String,
    pub level: NotificationLevel,
}

/// The notification to send for a plugin's answer, when the settings show it (none
/// otherwise): `<plugin> finished` with ``Function `<f>` answered successfully.``, or
/// `<plugin> failed` with ``Function `<f>` returned an error.``. The daemon hands it to
/// the desktop's notification service.
pub fn send_plugin_response_notification(
    config: &NotificationConfig,
    plugin_uuid: &[u8; 16],
    plugin_name: &str,
    function_name: &str,
    ok: bool,
) -> (r: Option<SystemNotification>)
    requires
        distinct_keys(config.plugins@),
    ensures
        !enabled_in(config.general.notifications_enabled, table_map(config.plugins@), uuid_text(plugin_uuid@)) ==> r is None,
        enabled_in(config.general.notifications_enabled, table_map(config.plugins@), uuid_text(plugin_uuid@)) ==> (r matches Some(n) && n.title@ == plugin_name@ + (if ok {
            " finished"@
        } else {
            " failed"@
        }) && n.body@ == "Function `"@ + function_name@ + (if ok {
            "` answered successfully."@
        } else {
            "` returned an error."@
        }) && n.level == (if ok { NotificationLevel::Success } else { NotificationLevel::Error })),
{
    if !config.is_enabled_for_plugin(plugin_uuid) {
        return None;
    }
    let mut title = chars_of(plugin_name);
    let mut body = chars_of("Function `");
    extend_chars(&mut body, chars_of(function_name).as_slice());
    if ok {
        extend_chars(&mut title, chars_of(" finished").as_slice());
        extend_chars(&mut body, chars_of("` answered successfully.").as_slice());
    } else {
        extend_chars(&mut title, chars_of(" failed").as_slice());
        extend_chars(&mut body, chars_of("` returned an error.").as_slice());
    }
    Some(SystemNotification {
        title: string_of(title.as_slice()),
        body: string_of(body.as_slice()),
        level: if ok { NotificationLevel::Success } else { NotificationLevel::Error },
    })
}


/// Switching a plugin's notifications turns their display around for that plugin, when
/// notifications are on in general, and changes nothing for any other plugin.
pub proof fn law_switch_flips(plugins: Map<Seq<char>, PluginSettings>, key: Seq<char>, other: Seq<char>)
    requires
        other != key,
    ensures
        enabled_in(true, switched(plugins, key), key) == !enabled_in(true, plugins, key),
        forall|g: bool| enabled_in(g, switched(plugins, key), other) == enabled_in(g, plugins, other),
{
}

/// Switching a plugin's notifications twice shows them as before, for every plugin.
pub proof fn law_switch_twice(plugins: Map<Seq<char>, PluginSettings>, key: Seq<char>, any: Seq<char>, general: bool)
    ensures
        enabled_in(general, switched(switched(plugins, key), key), any) == enabled_in(general, plugins, any),
{
}

/// Making sure a plugin has settings a second time changes nothing.
pub proof fn law_ensure_plugin_idempotent(plugins: Map<Seq<char>, PluginSettings>, key: Seq<char>, nil: bool)
    ensures
        spec_ensure_plugin(spec_ensure_plugin(plugins, key, nil).0, key, nil) == (
            spec_ensure_plugin(plugins, key, nil).0,
            false,
        ),
{
}

} // verus!
