//! Updating the rule files from the published rule database.
use vstd::prelude::*;
use crate::paths::{path_join, path_join_exec};
use crate::text::{chars_eq, chars_of, extend_chars, string_of};

verus! {

/// Where the rule database is published.
pub open spec fn base_url() -> Seq<char> {
    "https://raw.githubusercontent.com/GriffonAV/Griffon_scan_db/main"@
}

/// The rule updater and the directory it keeps the rules in.
pub struct ScannerUpdater {
    pub rules_dir: String,
}

impl ScannerUpdater {
    /// The address of the published manifest.
    pub fn manifest_url(&self) -> (r: String)
        ensures
            r@ == base_url() + "/manifest.toml"@,
    {
        let mut v = chars_of("https://raw.githubusercontent.com/GriffonAV/Griffon_scan_db/main");
        extend_chars(&mut v, chars_of("/manifest.toml").as_slice());
        string_of(v.as_slice())
    }

    /// The address of a published rule file.
    pub fn rule_url(&self, filename: &str) -> (r: String)
        ensures
            r@ == base_url() + "/"@ + filename@,
    {
        let mut v = chars_of("https://raw.githubusercontent.com/GriffonAV/Griffon_scan_db/main");
        extend_chars(&mut v, chars_of("/").as_slice());
        extend_chars(&mut v, chars_of(filename).as_slice());
        string_of(v.as_slice())
    }

    /// Where a rule file, or the local manifest, is kept.
    pub fn local_path(&self, filename: &str) -> (r: String)
        ensures
            r@ == path_join(self.rules_dir@, filename@),
    {
        string_of(path_join_exec(chars_of(self.rules_dir.as_str()).as_slice(), chars_of(filename).as_slice()).as_slice())
    }

    /// The rules are downloaded unless a local manifest has the published version.
    pub fn needs_update(&self, local_version: &Option<String>, published_version: &str) -> (r: bool)
        ensures
            r == match local_version {
                Some(v) => v@ != published_version@,
                None => true,
            },
    {
        match local_version {
            Some(v) => !chars_eq(chars_of(v.as_str()).as_slice(), chars_of(published_version).as_slice()),
            None => true,
        }
    }
}

} // verus!
