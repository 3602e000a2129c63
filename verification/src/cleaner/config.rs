//! The cleaner's configuration.
use vstd::prelude::*;

verus! {

/// How far the cleaner may go: `Safe` skips paths that are not safe in every profile.
#[derive(PartialEq, Eq, Structural, Clone, Copy, Debug)]
pub enum Profile {
    Safe,
    Full,
}

} // verus!

verus! {

/// The cleaner's settings. (The log-size ceiling, a float, stays with the caller.)
pub struct CleanerConfig {
    pub profile: Profile,
    pub max_log_retention_days: u32,
    pub min_bigfile_size_mb: u64,
    pub enable_system_cache: bool,
    pub enable_user_cache: bool,
    pub enable_browser_cache: bool,
    pub enable_dev_cache: bool,
    pub enable_package_cache: bool,
    pub enable_desktop_cache: bool,
}

/// The settings file of the cleaner. (The log-size ceiling, a float, stays with the caller.)
pub struct FileCleanerConfig {
    pub profile: Profile,
    pub dry_run: bool,
    pub root_paths: Vec<String>,
    pub max_log_retention_days: u32,
    pub min_bigfile_size_mb: u64,
    pub enable_system_cache: bool,
    pub enable_user_cache: bool,
    pub enable_browser_cache: bool,
    pub enable_dev_cache: bool,
    pub enable_package_cache: bool,
    pub enable_desktop_cache: bool,
}

impl FileCleanerConfig {
    /// The settings a run uses.
    pub fn to_runtime_config(&self) -> (r: CleanerConfig)
        ensures
            r.profile == self.profile,
            r.max_log_retention_days == self.max_log_retention_days,
            r.min_bigfile_size_mb == self.min_bigfile_size_mb,
            r.enable_system_cache == self.enable_system_cache,
            r.enable_user_cache == self.enable_user_cache,
            r.enable_browser_cache == self.enable_browser_cache,
            r.enable_dev_cache == self.enable_dev_cache,
            r.enable_package_cache == self.enable_package_cache,
            r.enable_desktop_cache == self.enable_desktop_cache,
    {
        CleanerConfig {
            profile: self.profile,
            max_log_retention_days: self.max_log_retention_days,
            min_bigfile_size_mb: self.min_bigfile_size_mb,
            enable_system_cache: self.enable_system_cache,
            enable_user_cache: self.enable_user_cache,
            enable_browser_cache: self.enable_browser_cache,
            enable_dev_cache: self.enable_dev_cache,
            enable_package_cache: self.enable_package_cache,
            enable_desktop_cache: self.enable_desktop_cache,
        }
    }
}

/// The name of a profile as the reports write it.
pub open spec fn profile_name(p: Profile) -> Seq<char> {
    match p {
        Profile::Safe => "safe"@,
        Profile::Full => "full"@,
    }
}

impl Profile {
    /// The name of the profile, as in the settings file.
    pub fn as_str(&self) -> (r: &'static str)
        ensures
            r@ == profile_name(*self),
    {
        match self {
            Profile::Safe => "safe",
            Profile::Full => "full",
        }
    }
}

/// `name` when `on`, else nothing.
pub open spec fn if_on(on: bool, name: Seq<char>) -> Seq<Seq<char>> {
    if on { seq![name] } else { Seq::empty() }
}

/// The names of the enabled cache categories, in a fixed order.
pub open spec fn spec_selected_categories(cfg: CleanerConfig) -> Seq<Seq<char>> {
    if_on(cfg.enable_system_cache, "system"@) + if_on(cfg.enable_user_cache, "user"@) + if_on(
        cfg.enable_browser_cache,
        "browser"@,
    ) + if_on(cfg.enable_dev_cache, "devtools"@) + if_on(cfg.enable_package_cache, "package_manager"@)
        + if_on(cfg.enable_desktop_cache, "desktop_env"@)
}

fn push_if(res: &mut Vec<String>, on: bool, name: &str)
    ensures
        crate::text::views(final(res)@) == crate::text::views(old(res)@) + if_on(on, name@),
{
    if on {
        res.push(crate::text::string_of(crate::text::chars_of(name).as_slice()));
        assert(crate::text::views(res@) =~= crate::text::views(old(res)@) + if_on(on, name@));
    } else {
        assert(crate::text::views(res@) =~= crate::text::views(old(res)@) + if_on(on, name@));
    }
}

/// The names of the enabled cache categories: system, user, browser, devtools,
/// package_manager, desktop_env, each when enabled.
pub fn selected_cache_categories(cfg: &CleanerConfig) -> (r: Vec<String>)
    ensures
        crate::text::views(r@) == spec_selected_categories(*cfg),
{
    let mut res: Vec<String> = Vec::new();
    assert(crate::text::views(res@) =~= Seq::<Seq<char>>::empty());
    push_if(&mut res, cfg.enable_system_cache, "system");
    push_if(&mut res, cfg.enable_user_cache, "user");
    push_if(&mut res, cfg.enable_browser_cache, "browser");
    push_if(&mut res, cfg.enable_dev_cache, "devtools");
    push_if(&mut res, cfg.enable_package_cache, "package_manager");
    push_if(&mut res, cfg.enable_desktop_cache, "desktop_env");
    assert(crate::text::views(res@) =~= spec_selected_categories(*cfg));
    res
}

} // verus!
