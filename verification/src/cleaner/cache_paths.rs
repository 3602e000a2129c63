//! The cache directories that the cleaner knows, and which of them a run may touch.
use vstd::prelude::*;
use crate::cleaner::config::{CleanerConfig, Profile};
use crate::text::{chars_of, extend_chars, has_prefix, starts_with_lit, string_of, sub_chars};

verus! {

/// The kind of a cache directory.
#[derive(PartialEq, Eq, Structural, Clone, Copy, Debug)]
pub enum CacheCategory {
    System,
    User,
    Browser,
    DevTools,
    PackageManager,
    DesktopEnv,
}

/// A known cache directory: `~/` in its pattern stands for the home directory.
#[derive(Clone, Copy)]
pub struct CachePath {
    pub id: &'static str,
    pub category: CacheCategory,
    pub pattern: &'static str,
    pub requires_root: bool,
    pub dangerous: bool,
    pub safe_in_profile: bool,
}

/// The known cache directories, in the order the cleaner visits them.
pub open spec fn known_cache_table() -> Seq<CachePath> {
    seq![
        CachePath { id: "system_var_cache", category: CacheCategory::System, pattern: "/var/cache", requires_root: true, dangerous: false, safe_in_profile: true },
        CachePath { id: "system_tmp", category: CacheCategory::System, pattern: "/tmp", requires_root: false, dangerous: false, safe_in_profile: true },
        CachePath { id: "system_var_tmp", category: CacheCategory::System, pattern: "/var/tmp", requires_root: true, dangerous: false, safe_in_profile: true },
        CachePath { id: "system_machine_journal", category: CacheCategory::System, pattern: "/var/log/journal", requires_root: true, dangerous: true, safe_in_profile: false },
        CachePath { id: "apt_lists", category: CacheCategory::PackageManager, pattern: "/var/lib/apt/lists", requires_root: true, dangerous: false, safe_in_profile: true },
        CachePath { id: "apt_archives", category: CacheCategory::PackageManager, pattern: "/var/cache/apt/archives", requires_root: true, dangerous: false, safe_in_profile: true },
        CachePath { id: "dnf_cache", category: CacheCategory::PackageManager, pattern: "/var/cache/dnf", requires_root: true, dangerous: false, safe_in_profile: true },
        CachePath { id: "pacman_pkg", category: CacheCategory::PackageManager, pattern: "/var/cache/pacman/pkg", requires_root: true, dangerous: false, safe_in_profile: true },
        CachePath { id: "snap_cache", category: CacheCategory::PackageManager, pattern: "/var/lib/snapd/snaps", requires_root: true, dangerous: true, safe_in_profile: false },
        CachePath { id: "user_cache", category: CacheCategory::User, pattern: "~/.cache", requires_root: false, dangerous: false, safe_in_profile: true },
        CachePath { id: "user_trash", category: CacheCategory::User, pattern: "~/.local/share/Trash", requires_root: false, dangerous: false, safe_in_profile: true },
        CachePath { id: "user_thumbnails", category: CacheCategory::User, pattern: "~/.thumbnails", requires_root: false, dangerous: false, safe_in_profile: true },
        CachePath { id: "user_downloads_tmp", category: CacheCategory::User, pattern: "~/Downloads", requires_root: false, dangerous: true, safe_in_profile: false },
        CachePath { id: "pip_cache", category: CacheCategory::DevTools, pattern: "~/.cache/pip", requires_root: false, dangerous: false, safe_in_profile: true },
        CachePath { id: "npm_cache", category: CacheCategory::DevTools, pattern: "~/.npm", requires_root: false, dangerous: false, safe_in_profile: true },
        CachePath { id: "yarn_cache", category: CacheCategory::DevTools, pattern: "~/.cache/yarn", requires_root: false, dangerous: false, safe_in_profile: true },
        CachePath { id: "cargo_registry_cache", category: CacheCategory::DevTools, pattern: "~/.cargo/registry/cache", requires_root: false, dangerous: false, safe_in_profile: true },
        CachePath { id: "cargo_git_db", category: CacheCategory::DevTools, pattern: "~/.cargo/git/db", requires_root: false, dangerous: false, safe_in_profile: true },
        CachePath { id: "rustup_toolchains", category: CacheCategory::DevTools, pattern: "~/.rustup/toolchains", requires_root: false, dangerous: true, safe_in_profile: false },
        CachePath { id: "rustup_downloads", category: CacheCategory::DevTools, pattern: "~/.rustup/downloads", requires_root: false, dangerous: false, safe_in_profile: true },
        CachePath { id: "pipenv_cache", category: CacheCategory::DevTools, pattern: "~/.cache/pipenv", requires_root: false, dangerous: false, safe_in_profile: true },
        CachePath { id: "firefox_profile_cache", category: CacheCategory::Browser, pattern: "~/.cache/mozilla/firefox", requires_root: false, dangerous: false, safe_in_profile: true },
        CachePath { id: "firefox_profiles", category: CacheCategory::Browser, pattern: "~/.mozilla/firefox", requires_root: false, dangerous: true, safe_in_profile: false },
        CachePath { id: "chrome_cache", category: CacheCategory::Browser, pattern: "~/.cache/google-chrome", requires_root: false, dangerous: false, safe_in_profile: true },
        CachePath { id: "chromium_cache", category: CacheCategory::Browser, pattern: "~/.cache/chromium", requires_root: false, dangerous: false, safe_in_profile: true },
        CachePath { id: "brave_cache", category: CacheCategory::Browser, pattern: "~/.cache/BraveSoftware", requires_root: false, dangerous: false, safe_in_profile: true },
        CachePath { id: "vivaldi_cache", category: CacheCategory::Browser, pattern: "~/.cache/vivaldi", requires_root: false, dangerous: false, safe_in_profile: true },
        CachePath { id: "gnome_cache", category: CacheCategory::DesktopEnv, pattern: "~/.cache/gnome-software", requires_root: false, dangerous: false, safe_in_profile: true },
        CachePath { id: "flatpak_cache", category: CacheCategory::DesktopEnv, pattern: "~/.var/app", requires_root: false, dangerous: true, safe_in_profile: false },
        CachePath { id: "kde_cache", category: CacheCategory::DesktopEnv, pattern: "~/.cache/kioexec", requires_root: false, dangerous: false, safe_in_profile: true },
        CachePath { id: "vlc_cache", category: CacheCategory::DesktopEnv, pattern: "~/.cache/vlc", requires_root: false, dangerous: false, safe_in_profile: true },
        CachePath { id: "spotify_cache", category: CacheCategory::DesktopEnv, pattern: "~/.cache/spotify", requires_root: false, dangerous: false, safe_in_profile: true },
    ]
}

/// The known cache directories.
pub fn known_cache_paths() -> (r: Vec<CachePath>)
    ensures
        r@ == known_cache_table(),
{
    let r = vec![
        CachePath { id: "system_var_cache", category: CacheCategory::System, pattern: "/var/cache", requires_root: true, dangerous: false, safe_in_profile: true },
        CachePath { id: "system_tmp", category: CacheCategory::System, pattern: "/tmp", requires_root: false, dangerous: false, safe_in_profile: true },
        CachePath { id: "system_var_tmp", category: CacheCategory::System, pattern: "/var/tmp", requires_root: true, dangerous: false, safe_in_profile: true },
        CachePath { id: "system_machine_journal", category: CacheCategory::System, pattern: "/var/log/journal", requires_root: true, dangerous: true, safe_in_profile: false },
        CachePath { id: "apt_lists", category: CacheCategory::PackageManager, pattern: "/var/lib/apt/lists", requires_root: true, dangerous: false, safe_in_profile: true },
        CachePath { id: "apt_archives", category: CacheCategory::PackageManager, pattern: "/var/cache/apt/archives", requires_root: true, dangerous: false, safe_in_profile: true },
        CachePath { id: "dnf_cache", category: CacheCategory::PackageManager, pattern: "/var/cache/dnf", requires_root: true, dangerous: false, safe_in_profile: true },
        CachePath { id: "pacman_pkg", category: CacheCategory::PackageManager, pattern: "/var/cache/pacman/pkg", requires_root: true, dangerous: false, safe_in_profile: true },
        CachePath { id: "snap_cache", category: CacheCategory::PackageManager, pattern: "/var/lib/snapd/snaps", requires_root: true, dangerous: true, safe_in_profile: false },
        CachePath { id: "user_cache", category: CacheCategory::User, pattern: "~/.cache", requires_root: false, dangerous: false, safe_in_profile: true },
        CachePath { id: "user_trash", category: CacheCategory::User, pattern: "~/.local/share/Trash", requires_root: false, dangerous: false, safe_in_profile: true },
        CachePath { id: "user_thumbnails", category: CacheCategory::User, pattern: "~/.thumbnails", requires_root: false, dangerous: false, safe_in_profile: true },
        CachePath { id: "user_downloads_tmp", category: CacheCategory::User, pattern: "~/Downloads", requires_root: false, dangerous: true, safe_in_profile: false },
        CachePath { id: "pip_cache", category: CacheCategory::DevTools, pattern: "~/.cache/pip", requires_root: false, dangerous: false, safe_in_profile: true },
        CachePath { id: "npm_cache", category: CacheCategory::DevTools, pattern: "~/.npm", requires_root: false, dangerous: false, safe_in_profile: true },
        CachePath { id: "yarn_cache", category: CacheCategory::DevTools, pattern: "~/.cache/yarn", requires_root: false, dangerous: false, safe_in_profile: true },
        CachePath { id: "cargo_registry_cache", category: CacheCategory::DevTools, pattern: "~/.cargo/registry/cache", requires_root: false, dangerous: false, safe_in_profile: true },
        CachePath { id: "cargo_git_db", category: CacheCategory::DevTools, pattern: "~/.cargo/git/db", requires_root: false, dangerous: false, safe_in_profile: true },
        CachePath { id: "rustup_toolchains", category: CacheCategory::DevTools, pattern: "~/.rustup/toolchains", requires_root: false, dangerous: true, safe_in_profile: false },
        CachePath { id: "rustup_downloads", category: CacheCategory::DevTools, pattern: "~/.rustup/downloads", requires_root: false, dangerous: false, safe_in_profile: true },
        CachePath { id: "pipenv_cache", category: CacheCategory::DevTools, pattern: "~/.cache/pipenv", requires_root: false, dangerous: false, safe_in_profile: true },
        CachePath { id: "firefox_profile_cache", category: CacheCategory::Browser, pattern: "~/.cache/mozilla/firefox", requires_root: false, dangerous: false, safe_in_profile: true },
        CachePath { id: "firefox_profiles", category: CacheCategory::Browser, pattern: "~/.mozilla/firefox", requires_root: false, dangerous: true, safe_in_profile: false },
        CachePath { id: "chrome_cache", category: CacheCategory::Browser, pattern: "~/.cache/google-chrome", requires_root: false, dangerous: false, safe_in_profile: true },
        CachePath { id: "chromium_cache", category: CacheCategory::Browser, pattern: "~/.cache/chromium", requires_root: false, dangerous: false, safe_in_profile: true },
        CachePath { id: "brave_cache", category: CacheCategory::Browser, pattern: "~/.cache/BraveSoftware", requires_root: false, dangerous: false, safe_in_profile: true },
        CachePath { id: "vivaldi_cache", category: CacheCategory::Browser, pattern: "~/.cache/vivaldi", requires_root: false, dangerous: false, safe_in_profile: true },
        CachePath { id: "gnome_cache", category: CacheCategory::DesktopEnv, pattern: "~/.cache/gnome-software", requires_root: false, dangerous: false, safe_in_profile: true },
        CachePath { id: "flatpak_cache", category: CacheCategory::DesktopEnv, pattern: "~/.var/app", requires_root: false, dangerous: true, safe_in_profile: false },
        CachePath { id: "kde_cache", category: CacheCategory::DesktopEnv, pattern: "~/.cache/kioexec", requires_root: false, dangerous: false, safe_in_profile: true },
        CachePath { id: "vlc_cache", category: CacheCategory::DesktopEnv, pattern: "~/.cache/vlc", requires_root: false, dangerous: false, safe_in_profile: true },
        CachePath { id: "spotify_cache", category: CacheCategory::DesktopEnv, pattern: "~/.cache/spotify", requires_root: false, dangerous: false, safe_in_profile: true },
    ];
    assert(r@ =~= known_cache_table());
    r
}

} // verus!

verus! {

use crate::paths::{path_join, path_join_exec};

/// The view of an optional text.
pub open spec fn opt_view(o: Option<&str>) -> Option<Seq<char>> {
    match o {
        Some(h) => Some(h@),
        None => None,
    }
}

/// A cache directory may be touched under a profile: any under `Full`, the safe ones
/// under `Safe`.
pub fn path_allowed_in_profile(cache: &CachePath, profile: &Profile) -> (r: bool)
    ensures
        r == (*profile is Full || cache.safe_in_profile),
{
    match profile {
        Profile::Safe => cache.safe_in_profile,
        Profile::Full => true,
    }
}

/// Where a pattern points: `~/rest` under the home directory (nowhere without one),
/// anything else as written.
pub open spec fn spec_expand_home(pattern: Seq<char>, home: Option<Seq<char>>) -> Option<Seq<char>> {
    if has_prefix(pattern, "~/"@) {
        match home {
            Some(h) => Some(path_join(h, pattern.skip(2))),
            None => None,
        }
    } else {
        Some(pattern)
    }
}

/// Expands a leading `~/` with the home directory.
pub fn expand_home(pattern: &str, home: Option<&str>) -> (r: Option<String>)
    ensures
        match r {
            Some(p) => spec_expand_home(pattern@, opt_view(home)) == Some(p@),
            None => spec_expand_home(pattern@, opt_view(home)) is None,
        },
{
    let p = chars_of(pattern);
    if starts_with_lit(p.as_slice(), "~/") {
        proof {
            reveal_strlit("~/");
        }
        match home {
            Some(h) => {
                let rest = sub_chars(p.as_slice(), 2, p.len());
                assert(rest@ =~= pattern@.skip(2));
                let j = path_join_exec(chars_of(h).as_slice(), rest.as_slice());
                Some(string_of(j.as_slice()))
            },
            None => None,
        }
    } else {
        Some(string_of(p.as_slice()))
    }
}

/// Whether the configuration enables a category.
pub open spec fn category_enabled(cfg: CleanerConfig, c: CacheCategory) -> bool {
    match c {
        CacheCategory::System => cfg.enable_system_cache,
        CacheCategory::User => cfg.enable_user_cache,
        CacheCategory::Browser => cfg.enable_browser_cache,
        CacheCategory::DevTools => cfg.enable_dev_cache,
        CacheCategory::PackageManager => cfg.enable_package_cache,
        CacheCategory::DesktopEnv => cfg.enable_desktop_cache,
    }
}

/// The name of a profile as `{:?}` writes it.
pub open spec fn profile_debug(p: Profile) -> Seq<char> {
    match p {
        Profile::Safe => "Safe"@,
        Profile::Full => "Full"@,
    }
}

/// What happens to one known cache directory in a run: it is left out silently (its
/// category is disabled, or its home directory unknown), left out with a warning, or
/// used at the given path.
pub enum CacheDecision {
    Silent,
    Warn(Seq<char>),
    Use(Seq<char>, Seq<char>),
}

/// The decision for one known cache directory: the category must be enabled, the
/// profile must allow the path, root must be available when the path needs it, and a
/// dangerous path needs the full profile.
pub open spec fn cache_decision(
    cache: CachePath,
    cfg: CleanerConfig,
    is_root: bool,
    home: Option<Seq<char>>,
) -> CacheDecision {
    if !category_enabled(cfg, cache.category) {
        CacheDecision::Silent
    } else if !(cfg.profile is Full || cache.safe_in_profile) {
        CacheDecision::Warn("Path skipped by profile "@ + profile_debug(cfg.profile) + ": "@ + cache.pattern@)
    } else if cache.requires_root && !is_root {
        CacheDecision::Warn("Path skipped (requires root): "@ + cache.pattern@)
    } else if cache.dangerous && !(cfg.profile is Full) {
        CacheDecision::Warn("Dangerous path skipped outside Full profile: "@ + cache.pattern@)
    } else {
        match spec_expand_home(cache.pattern@, home) {
            Some(p) => CacheDecision::Use(cache.pattern@, p),
            None => CacheDecision::Silent,
        }
    }
}

/// The directories used, as `(pattern, path)`, in table order.
pub open spec fn used_paths(
    t: Seq<CachePath>,
    cfg: CleanerConfig,
    is_root: bool,
    home: Option<Seq<char>>,
) -> Seq<(Seq<char>, Seq<char>)>
    decreases t.len(),
{
    if t.len() == 0 {
        Seq::empty()
    } else {
        let rest = used_paths(t.drop_last(), cfg, is_root, home);
        match cache_decision(t.last(), cfg, is_root, home) {
            CacheDecision::Use(l, p) => rest.push((l, p)),
            _ => rest,
        }
    }
}

/// The warnings given, in table order.
pub open spec fn skip_warnings(
    t: Seq<CachePath>,
    cfg: CleanerConfig,
    is_root: bool,
    home: Option<Seq<char>>,
) -> Seq<Seq<char>>
    decreases t.len(),
{
    if t.len() == 0 {
        Seq::empty()
    } else {
        let rest = skip_warnings(t.drop_last(), cfg, is_root, home);
        match cache_decision(t.last(), cfg, is_root, home) {
            CacheDecision::Warn(w) => rest.push(w),
            _ => rest,
        }
    }
}

fn profile_debug_exec(p: Profile) -> (r: Vec<char>)
    ensures
        r@ == profile_debug(p),
{
    match p {
        Profile::Safe => chars_of("Safe"),
        Profile::Full => chars_of("Full"),
    }
}

fn warning_text(prefix: &str, middle: Option<Profile>, pattern: &str) -> (r: String)
    ensures
        r@ == match middle {
            Some(p) => prefix@ + profile_debug(p) + ": "@ + pattern@,
            None => prefix@ + pattern@,
        },
{
    let mut v = chars_of(prefix);
    match middle {
        Some(p) => {
            extend_chars(&mut v, profile_debug_exec(p).as_slice());
            extend_chars(&mut v, chars_of(": ").as_slice());
        },
        None => {},
    }
    extend_chars(&mut v, chars_of(pattern).as_slice());
    string_of(v.as_slice())
}

/// The cache directories a run visits, as `(pattern, path)`, with a warning appended to
/// `warnings` for every directory the profile, missing root rights or danger leave out.
pub fn default_cache_paths_with_logs(
    table: &[CachePath],
    cfg: &CleanerConfig,
    is_root: bool,
    home: Option<&str>,
    warnings: &mut Vec<String>,
) -> (r: Vec<(String, String)>)
    ensures
        r@.map_values(|e: (String, String)| (e.0@, e.1@)) == used_paths(
            table@,
            *cfg,
            is_root,
            opt_view(home),
        ),
        crate::text::views(final(warnings)@) == crate::text::views(old(warnings)@) + skip_warnings(
            table@,
            *cfg,
            is_root,
            opt_view(home),
        ),
{
    let ghost hv = opt_view(home);
    let ghost w0 = crate::text::views(warnings@);
    let mut out: Vec<(String, String)> = Vec::new();
    let mut i: usize = 0;
    while i < table.len()
        invariant
            0 <= i <= table@.len(),
            hv == opt_view(home),
            out@.map_values(|e: (String, String)| (e.0@, e.1@)) == used_paths(table@.take(i as int), *cfg, is_root, hv),
            crate::text::views(warnings@) == w0 + skip_warnings(table@.take(i as int), *cfg, is_root, hv),
        decreases table@.len() - i,
    {
        let cache = table[i];
        proof {
            assert(table@.take(i + 1).drop_last() =~= table@.take(i as int));
            assert(table@.take(i + 1).last() == cache);
        }
        let ghost wb = warnings@;
        let ghost ob = out@;
        let enabled = match cache.category {
            CacheCategory::System => cfg.enable_system_cache,
            CacheCategory::User => cfg.enable_user_cache,
            CacheCategory::Browser => cfg.enable_browser_cache,
            CacheCategory::DevTools => cfg.enable_dev_cache,
            CacheCategory::PackageManager => cfg.enable_package_cache,
            CacheCategory::DesktopEnv => cfg.enable_desktop_cache,
        };
        if enabled {
            if !path_allowed_in_profile(&cache, &cfg.profile) {
                warnings.push(warning_text("Path skipped by profile ", Some(cfg.profile), cache.pattern));
                proof {
                    assert(crate::text::views(warnings@) =~= crate::text::views(wb).push(warnings@.last()@));
                }
            } else if cache.requires_root && !is_root {
                warnings.push(warning_text("Path skipped (requires root): ", None, cache.pattern));
                proof {
                    assert(crate::text::views(warnings@) =~= crate::text::views(wb).push(warnings@.last()@));
                }
            } else if cache.dangerous && !matches!(cfg.profile, Profile::Full) {
                warnings.push(warning_text("Dangerous path skipped outside Full profile: ", None, cache.pattern));
                proof {
                    assert(crate::text::views(warnings@) =~= crate::text::views(wb).push(warnings@.last()@));
                }
            } else {
                match expand_home(cache.pattern, home) {
                    Some(path) => {
                        out.push((string_of(chars_of(cache.pattern).as_slice()), path));
                        proof {
                            assert(out@.map_values(|e: (String, String)| (e.0@, e.1@)) =~= ob.map_values(
                                |e: (String, String)| (e.0@, e.1@),
                            ).push((cache.pattern@, out@.last().1@)));
                        }
                    },
                    None => {},
                }
            }
        }
        i += 1;
    }
    proof {
        assert(table@.take(table@.len() as int) =~= table@);
    }
    out
}

} // verus!
