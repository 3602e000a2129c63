//! The scan engine: its options, its signature database, the files a directory scan
//! visits and the thread setting of a scan.
use vstd::prelude::*;
use crate::paths::{path_join, path_join_exec};
use crate::scanner::args::{PrepArgs, ScanArgs};
use crate::scanner::data_type::{FileResult, ScanReport, count_results, has_error, has_threats, was_skipped};
use crate::scanner::hashing::SignatureDb;
use crate::scanner::walk::{WalkEntry, files_to_scan, flat_files, walk_files};
use crate::text::{chars_of, eq_lit, extend_chars, lowercase_chars, parse_usize, spec_parse_unsigned, spec_to_lowercase, string_of, trim_chars, trim_seq, views};

verus! {

/// The scan engine.
pub struct ScanEngine {
    /// The database of known hashes, once loaded.
    pub hash_db: Option<SignatureDb>,
    /// The options of the current scan.
    pub scan_args: ScanArgs,
}

impl Default for ScanEngine {
    /// No database loaded, default scan options.
    fn default() -> (r: ScanEngine)
        ensures
            r.hash_db is None,
            r.scan_args.archives && r.scan_args.recursive && !r.scan_args.yara_only,
            r.scan_args.threads@ == "auto"@,
    {
        ScanEngine { hash_db: None, scan_args: ScanArgs::default() }
    }
}

/// The file of the hash database: `hashes.txt` in the given directory, or else in the
/// default rules directory.
pub open spec fn spec_hash_db_path(dir: Option<Seq<char>>, default_dir: Seq<char>) -> Seq<char> {
    path_join(
        match dir {
            Some(d) => d,
            None => default_dir,
        },
        "hashes.txt"@,
    )
}

/// The directory of the rule files: the given one, or else the default rules directory.
pub open spec fn spec_rules_dir(dir: Option<Seq<char>>, default_dir: Seq<char>) -> Seq<char> {
    match dir {
        Some(d) => d,
        None => default_dir,
    }
}

/// How many threads a scan asks for: the trimmed, lowercased setting `auto` leaves the
/// choice to the pool, `conservative` takes half the cores (at least one), a number takes
/// that many; anything else is refused.
pub open spec fn spec_thread_count(threads: Seq<char>, cores: usize) -> Result<Option<nat>, Seq<char>> {
    let t = spec_to_lowercase(trim_seq(threads));
    if t == "auto"@ {
        Ok(None)
    } else if t == "conservative"@ {
        Ok(Some(if cores / 2 >= 1 { (cores / 2) as nat } else { 1 }))
    } else {
        match spec_parse_unsigned(t, usize::MAX as nat) {
            Some(n) => Ok(Some(n)),
            None => Err(
                "Invalid --threads value: '"@ + t + "'. Use a number, 'auto', or 'conservative'"@,
            ),
        }
    }
}

/// How many threads a scan asks for, given the machine's cores.
pub fn thread_count(threads: &str, cores: usize) -> (r: Result<Option<usize>, String>)
    ensures
        match spec_thread_count(threads@, cores) {
            Ok(None) => r == Ok::<Option<usize>, String>(None),
            Ok(Some(n)) => r matches Ok(Some(m)) && m == n,
            Err(e) => r matches Err(m) && m@ == e,
        },
{
    let t = lowercase_chars(trim_chars(chars_of(threads).as_slice()).as_slice());
    if eq_lit(t.as_slice(), "auto") {
        return Ok(None);
    }
    if eq_lit(t.as_slice(), "conservative") {
        let half = cores / 2;
        return Ok(Some(if half >= 1 { half } else { 1 }));
    }
    match parse_usize(t.as_slice()) {
        Some(n) => Ok(Some(n)),
        None => {
            let mut m = chars_of("Invalid --threads value: '");
            extend_chars(&mut m, t.as_slice());
            extend_chars(&mut m, chars_of("'. Use a number, 'auto', or 'conservative'").as_slice());
            Err(string_of(m.as_slice()))
        },
    }
}

impl ScanEngine {
    /// A new engine.
    pub fn new() -> (r: ScanEngine)
        ensures
            r.hash_db is None,
            r.scan_args.threads@ == "auto"@,
    {
        ScanEngine::default()
    }

    /// The file of the hash database to load.
    pub fn hash_db_path(args: &PrepArgs, default_dir: &str) -> (r: String)
        ensures
            r@ == spec_hash_db_path(crate::scanner::scan_file::opt_text(args.hash_db), default_dir@),
    {
        let base = match &args.hash_db {
            Some(d) => chars_of(d.as_str()),
            None => chars_of(default_dir),
        };
        string_of(path_join_exec(base.as_slice(), chars_of("hashes.txt").as_slice()).as_slice())
    }

    /// The directory of the rule files to load.
    pub fn rules_dir(args: &PrepArgs, default_dir: &str) -> (r: String)
        ensures
            r@ == spec_rules_dir(crate::scanner::scan_file::opt_text(args.yara_rules), default_dir@),
    {
        match &args.yara_rules {
            Some(d) => d.clone(),
            None => string_of(chars_of(default_dir).as_slice()),
        }
    }

    /// Keeps the hash database read from the lines of its file.
    pub fn load_hash_db(&mut self, lines: &[String])
        ensures
            final(self).hash_db matches Some(db) && db@ == crate::scanner::hashing::db_entries(
                views(lines@),
            ).to_set(),
    {
        self.hash_db = Some(SignatureDb::from_lines(lines));
    }

    /// Prepares the engine: the hash database is kept unless only rules are used; the
    /// answer counts the known hashes (0 without a database) and the loaded rules.
    pub fn prepare(&mut self, args: &PrepArgs, hash_db: Option<SignatureDb>, rule_count: usize) -> (r: (i32, i32))
        ensures
            !args.yara_only ==> final(self).hash_db == hash_db,
            args.yara_only ==> final(self).hash_db == old(self).hash_db,
            r.0 == match final(self).hash_db {
                Some(db) => db@.len() as i32,
                None => 0i32,
            },
            r.1 == rule_count as i32,
    {
        if !args.yara_only {
            self.hash_db = hash_db;
        }
        let hashes: i32 = match &self.hash_db {
            Some(db) => db.count() as i32,
            None => 0,
        };
        (hashes, rule_count as i32)
    }

    /// Whether a directory scan runs on the thread pool: unless threads are `off`.
    pub fn scans_in_parallel(&self) -> (r: bool)
        ensures
            r == (self.scan_args.threads@ != "off"@),
    {
        !eq_lit(chars_of(self.scan_args.threads.as_str()).as_slice(), "off")
    }

    /// The files a scan of a directory visits, from the walk of the directory: every file
    /// the walk keeps when the scan is recursive, else the files directly inside it. A
    /// parallel scan visits the same files, in any order.
    pub fn scan_dir(&self, listing: &[WalkEntry]) -> (r: Vec<String>)
        ensures
            views(r@) == if self.scan_args.recursive {
                walk_files(listing@)
            } else {
                flat_files(listing@)
            },
    {
        files_to_scan(self.scan_args.recursive, listing)
    }

    /// A scan with these options: they become the engine's, and the report holds the
    /// results of the scanned file or directory.
    pub fn scan(&mut self, args: &ScanArgs, results: Vec<FileResult>) -> (r: ScanReport)
        requires
            results@.len() <= u64::MAX,
        ensures
            final(self).scan_args.recursive == args.recursive,
            final(self).scan_args.threads@ == args.threads@,
            final(self).scan_args.included@ == args.included@,
            final(self).scan_args.exclude@ == args.exclude@,
            final(self).hash_db == old(self).hash_db,
            r.results@ == results@,
            r.total_scanned == results@.len(),
            r.total_threats == count_results(results@, |f: FileResult| has_threats(f)),
            r.total_skipped == count_results(results@, |f: FileResult| was_skipped(f)),
            r.total_errors == count_results(results@, |f: FileResult| has_error(f)),
    {
        self.scan_args = args.clone();
        let mut report = ScanReport::default();
        proof {
            lemma_count_bounded(results@, |f: FileResult| has_threats(f));
            lemma_count_bounded(results@, |f: FileResult| was_skipped(f));
            lemma_count_bounded(results@, |f: FileResult| has_error(f));
        }
        report.add(results);
        assert(report.results@ =~= results@);
        report
    }
}

proof fn lemma_count_bounded(rs: Seq<FileResult>, p: spec_fn(FileResult) -> bool)
    ensures
        count_results(rs, p) <= rs.len(),
    decreases rs.len(),
{
    if rs.len() > 0 {
        lemma_count_bounded(rs.drop_last(), p);
    }
}

} // verus!
