//! The options of a scan and of the engine's preparation.
use vstd::prelude::*;
use crate::scanner::category::{ThreatCategory, all_categories};
use crate::text::{chars_of, string_of};

verus! {

/// The options of a scan.
pub struct ScanArgs {
    /// Look inside archives.
    pub archives: bool,
    /// Descend into subdirectories.
    pub recursive: bool,
    pub paths: Vec<String>,
    /// Scan with the rules only, not the hash database.
    pub yara_only: bool,
    /// `auto`, `conservative`, a number, or `off` for a sequential scan.
    pub threads: String,
    pub nb_threads: u32,
    /// Only these categories, when any is given.
    pub included: Vec<ThreatCategory>,
    /// Never these categories.
    pub exclude: Vec<ThreatCategory>,
}

impl Default for ScanArgs {
    /// Archives and subdirectories scanned, hashes and rules, `auto` threads, every
    /// category.
    fn default() -> (r: ScanArgs)
        ensures
            r.archives && r.recursive && !r.yara_only,
            r.paths@.len() == 0,
            r.threads@ == "auto"@,
            r.nb_threads == 0,
            r.included@.len() == 0 && r.exclude@.len() == 0,
    {
        ScanArgs {
            archives: true,
            recursive: true,
            paths: Vec::new(),
            yara_only: false,
            threads: string_of(chars_of("auto").as_slice()),
            nb_threads: 0,
            included: Vec::new(),
            exclude: Vec::new(),
        }
    }
}

/// The categories a scan uses: the included ones when any is given, else every category
/// in declaration order; in either case without the excluded ones.
pub open spec fn spec_active_categories(included: Seq<ThreatCategory>, exclude: Seq<ThreatCategory>) -> Seq<ThreatCategory> {
    (if included.len() > 0 {
        included
    } else {
        all_categories()
    }).filter(|c: ThreatCategory| !exclude.contains(c))
}

fn contains_category(v: &Vec<ThreatCategory>, c: ThreatCategory) -> (r: bool)
    ensures
        r == v@.contains(c),
{
    let mut i: usize = 0;
    while i < v.len()
        invariant
            0 <= i <= v@.len(),
            forall|j: int| 0 <= j < i ==> v@[j] != c,
        decreases v@.len() - i,
    {
        if v[i] == c {
            return true;
        }
        i += 1;
    }
    false
}

impl ScanArgs {
    /// The categories this scan uses.
    pub fn get_active_categories(&self) -> (r: Vec<ThreatCategory>)
        ensures
            r@ == spec_active_categories(self.included@, self.exclude@),
    {
        let base: Vec<ThreatCategory> = if self.included.len() > 0 {
            self.included.clone()
        } else {
            ThreatCategory::all()
        };
        proof {
            if self.included@.len() > 0 {
                assert(base@ =~= self.included@);
            }
        }
        let ghost keep = |c: ThreatCategory| !self.exclude@.contains(c);
        let mut r: Vec<ThreatCategory> = Vec::new();
        let mut i: usize = 0;
        while i < base.len()
            invariant
                0 <= i <= base@.len(),
                keep == (|c: ThreatCategory| !self.exclude@.contains(c)),
                r@ == base@.take(i as int).filter(keep),
            decreases base@.len() - i,
        {
            let c = base[i];
            proof {
                assert(base@.take(i + 1).drop_last() =~= base@.take(i as int));
                assert(base@.take(i + 1).last() == c);
                base@.take(i as int).lemma_filter_push(c, keep);
                assert(base@.take(i as int).push(c) =~= base@.take(i + 1));
            }
            if !contains_category(&self.exclude, c) {
                r.push(c);
            }
            i += 1;
        }
        assert(base@.take(base@.len() as int) =~= base@);
        r
    }
}

/// The options of the engine's preparation.
pub struct PrepArgs {
    /// Directory of the hash database, instead of the default rules directory.
    pub hash_db: Option<String>,
    /// Directory of the rule files, instead of the default one.
    pub yara_rules: Option<String>,
    /// Load the rules only, not the hash database.
    pub yara_only: bool,
    pub threads: String,
}

impl Default for PrepArgs {
    /// The default directories, hashes and rules, no thread setting.
    fn default() -> (r: PrepArgs)
        ensures
            r.hash_db is None && r.yara_rules is None && !r.yara_only,
            r.threads@.len() == 0,
    {
        PrepArgs { hash_db: None, yara_rules: None, yara_only: false, threads: String::new() }
    }
}


impl Clone for ScanArgs {
    /// A copy of the options.
    fn clone(&self) -> (r: ScanArgs)
        ensures
            r.archives == self.archives,
            r.recursive == self.recursive,
            crate::text::views(r.paths@) == crate::text::views(self.paths@),
            r.yara_only == self.yara_only,
            r.threads@ == self.threads@,
            r.nb_threads == self.nb_threads,
            r.included@ == self.included@,
            r.exclude@ == self.exclude@,
    {
        ScanArgs {
            archives: self.archives,
            recursive: self.recursive,
            paths: crate::text::clone_strings(self.paths.as_slice()),
            yara_only: self.yara_only,
            threads: self.threads.clone(),
            nb_threads: self.nb_threads,
            included: copy_categories(&self.included),
            exclude: copy_categories(&self.exclude),
        }
    }
}

fn copy_categories(v: &Vec<ThreatCategory>) -> (r: Vec<ThreatCategory>)
    ensures
        r@ == v@,
{
    let mut r: Vec<ThreatCategory> = Vec::new();
    let mut i: usize = 0;
    while i < v.len()
        invariant
            0 <= i <= v@.len(),
            r@ == v@.take(i as int),
        decreases v@.len() - i,
    {
        r.push(v[i]);
        assert(r@ =~= v@.take(i + 1));
        i += 1;
    }
    assert(v@.take(v@.len() as int) =~= v@);
    r
}

} // verus!
