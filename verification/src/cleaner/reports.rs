//! What a cleaning run reports, per module and in total.
use vstd::prelude::*;
use crate::text::{chars_eq, chars_of, string_of};

verus! {

/// Files and bytes counted under one root path.
pub struct PathStats {
    pub files_touched: u64,
    pub bytes_freed: u64,
}

/// Files and bytes counted for one file type.
pub struct TypeStats {
    pub files_touched: u64,
    pub bytes_freed: u64,
}

/// The report of one cleaner module. The per-root and per-type tables hold each key once.
pub struct ModuleReport {
    pub module_id: String,
    pub files_touched: u64,
    pub bytes_freed: u64,
    pub warnings: Vec<String>,
    pub errors: Vec<String>,
    pub permission_denied: u64,
    pub per_root_path: Vec<(String, PathStats)>,
    pub per_file_type: Vec<(String, TypeStats)>,
    pub candidate_files_count: u64,
    pub deleted_files_count: u64,
    pub skipped_files_count: u64,
    pub missing_paths_count: u64,
    pub existing_paths_count: u64,
    pub duration_ms: u128,
    pub warning_count: u64,
}

/// The report of a whole run: one report per module, each module once.
pub struct GlobalReport {
    pub dry_run: bool,
    pub per_module: Vec<(String, ModuleReport)>,
    pub total_files_touched: u64,
    pub total_bytes_freed: u64,
    pub total_warnings: u64,
    pub total_errors: u64,
    pub total_permission_denied: u64,
    pub total_duration_ms: u128,
}

/// The keys of a table, in order.
pub open spec fn root_keys(t: Seq<(String, PathStats)>) -> Seq<Seq<char>> {
    t.map_values(|e: (String, PathStats)| e.0@)
}

/// The keys of a table, in order.
pub open spec fn type_keys(t: Seq<(String, TypeStats)>) -> Seq<Seq<char>> {
    t.map_values(|e: (String, TypeStats)| e.0@)
}

/// No key occurs twice.
pub open spec fn unique_keys(k: Seq<Seq<char>>) -> bool {
    forall|i: int, j: int| 0 <= i < k.len() && 0 <= j < k.len() && i != j ==> k[i] != k[j]
}

/// The counts of a root in the table, as `(files, bytes)`.
pub open spec fn root_stats(t: Seq<(String, PathStats)>, key: Seq<char>) -> Option<(u64, u64)>
    decreases t.len(),
{
    if t.len() == 0 {
        None
    } else if t.last().0@ == key {
        Some((t.last().1.files_touched, t.last().1.bytes_freed))
    } else {
        root_stats(t.drop_last(), key)
    }
}

/// The counts of a file type in the table, as `(files, bytes)`.
pub open spec fn type_stats(t: Seq<(String, TypeStats)>, key: Seq<char>) -> Option<(u64, u64)>
    decreases t.len(),
{
    if t.len() == 0 {
        None
    } else if t.last().0@ == key {
        Some((t.last().1.files_touched, t.last().1.bytes_freed))
    } else {
        type_stats(t.drop_last(), key)
    }
}

/// The counts after one more file of `size` bytes.
pub open spec fn bumped(old: Option<(u64, u64)>, size: u64) -> (int, int) {
    match old {
        Some((f, b)) => (f + 1, b + size),
        None => (1, size as int),
    }
}

/// The report of a module with this id that has done nothing: every count zero, and no
/// warning, error, root or file type.
pub open spec fn is_empty_report(r: ModuleReport, module_id: Seq<char>) -> bool {
    &&& r.module_id@ == module_id
    &&& r.files_touched == 0
    &&& r.bytes_freed == 0
    &&& r.warnings@.len() == 0
    &&& r.errors@.len() == 0
    &&& r.permission_denied == 0
    &&& r.per_root_path@.len() == 0
    &&& r.per_file_type@.len() == 0
    &&& r.candidate_files_count == 0
    &&& r.deleted_files_count == 0
    &&& r.skipped_files_count == 0
    &&& r.missing_paths_count == 0
    &&& r.existing_paths_count == 0
    &&& r.duration_ms == 0
    &&& r.warning_count == 0
}

impl ModuleReport {
    /// The report of a module that has done nothing yet.
    pub fn empty(module_id: &str) -> (r: ModuleReport)
        ensures
            r.module_id@ == module_id@,
            r.files_touched == 0,
            r.bytes_freed == 0,
            r.warnings@.len() == 0,
            r.errors@.len() == 0,
            r.permission_denied == 0,
            r.per_root_path@.len() == 0,
            r.per_file_type@.len() == 0,
            r.candidate_files_count == 0,
            r.deleted_files_count == 0,
            r.skipped_files_count == 0,
            r.missing_paths_count == 0,
            r.existing_paths_count == 0,
            r.duration_ms == 0,
            r.warning_count == 0,
    {
        ModuleReport {
            module_id: string_of(chars_of(module_id).as_slice()),
            files_touched: 0,
            bytes_freed: 0,
            warnings: Vec::new(),
            errors: Vec::new(),
            permission_denied: 0,
            per_root_path: Vec::new(),
            per_file_type: Vec::new(),
            candidate_files_count: 0,
            deleted_files_count: 0,
            skipped_files_count: 0,
            missing_paths_count: 0,
            existing_paths_count: 0,
            duration_ms: 0,
            warning_count: 0,
        }
    }
}

proof fn lemma_root_stats_index(t: Seq<(String, PathStats)>, key: Seq<char>, i: int)
    requires
        unique_keys(root_keys(t)),
        0 <= i < t.len(),
        t[i].0@ == key,
    ensures
        root_stats(t, key) == Some((t[i].1.files_touched, t[i].1.bytes_freed)),
    decreases t.len(),
{
    if i < t.len() - 1 {
        assert(root_keys(t)[i] == key);
        assert(root_keys(t)[t.len() - 1] == t.last().0@);
        let d = t.drop_last();
        assert(root_keys(d) =~= root_keys(t).drop_last());
        assert(d[i] == t[i]);
        lemma_root_stats_index(d, key, i);
    }
}

proof fn lemma_root_stats_absent(t: Seq<(String, PathStats)>, key: Seq<char>)
    requires
        forall|i: int| 0 <= i < t.len() ==> t[i].0@ != key,
    ensures
        root_stats(t, key) is None,
    decreases t.len(),
{
    if t.len() > 0 {
        lemma_root_stats_absent(t.drop_last(), key);
    }
}

proof fn lemma_type_stats_index(t: Seq<(String, TypeStats)>, key: Seq<char>, i: int)
    requires
        unique_keys(type_keys(t)),
        0 <= i < t.len(),
        t[i].0@ == key,
    ensures
        type_stats(t, key) == Some((t[i].1.files_touched, t[i].1.bytes_freed)),
    decreases t.len(),
{
    if i < t.len() - 1 {
        assert(type_keys(t)[i] == key);
        assert(type_keys(t)[t.len() - 1] == t.last().0@);
        let d = t.drop_last();
        assert(type_keys(d) =~= type_keys(t).drop_last());
        assert(d[i] == t[i]);
        lemma_type_stats_index(d, key, i);
    }
}

proof fn lemma_type_stats_absent(t: Seq<(String, TypeStats)>, key: Seq<char>)
    requires
        forall|i: int| 0 <= i < t.len() ==> t[i].0@ != key,
    ensures
        type_stats(t, key) is None,
    decreases t.len(),
{
    if t.len() > 0 {
        lemma_type_stats_absent(t.drop_last(), key);
    }
}

/// Counts one more file of `size` bytes under the root `root_label`: its entry grows by
/// one file and `size` bytes, or is created with those; every other entry is unchanged.
pub fn bump_root_stats(report: &mut ModuleReport, root_label: &str, size: u64)
    requires
        unique_keys(root_keys(old(report).per_root_path@)),
        root_stats(old(report).per_root_path@, root_label@) matches Some((f, b)) ==> f + 1
            <= u64::MAX && b + size <= u64::MAX,
    ensures
        unique_keys(root_keys(final(report).per_root_path@)),
        root_stats(final(report).per_root_path@, root_label@) matches Some((f, b)) && (f as int,
        b as int) == bumped(root_stats(old(report).per_root_path@, root_label@), size),
        forall|k: Seq<char>|
            k != root_label@ ==> root_stats(final(report).per_root_path@, k) == root_stats(
                old(report).per_root_path@,
                k,
            ),
        final(report).module_id == old(report).module_id,
        final(report).files_touched == old(report).files_touched,
        final(report).bytes_freed == old(report).bytes_freed,
        final(report).per_file_type == old(report).per_file_type,
        final(report).warnings == old(report).warnings,
        final(report).errors == old(report).errors,
        final(report).permission_denied == old(report).permission_denied,
        final(report).candidate_files_count == old(report).candidate_files_count,
        final(report).deleted_files_count == old(report).deleted_files_count,
        final(report).skipped_files_count == old(report).skipped_files_count,
        final(report).missing_paths_count == old(report).missing_paths_count,
        final(report).existing_paths_count == old(report).existing_paths_count,
        final(report).duration_ms == old(report).duration_ms,
        final(report).warning_count == old(report).warning_count,
{
    let key = chars_of(root_label);
    let ghost t0 = report.per_root_path@;
    let mut i: usize = 0;
    while i < report.per_root_path.len()
        invariant
            0 <= i <= report.per_root_path@.len(),
            *report == *old(report),
            report.per_root_path@ == t0,
            t0 == old(report).per_root_path@,
            key@ == root_label@,
            unique_keys(root_keys(t0)),
            root_stats(t0, root_label@) matches Some((f, b)) ==> f + 1 <= u64::MAX && b + size
                <= u64::MAX,
            forall|j: int| 0 <= j < i ==> t0[j].0@ != key@,
        decreases report.per_root_path@.len() - i,
    {
        let k = chars_of(report.per_root_path[i].0.as_str());
        if chars_eq(k.as_slice(), key.as_slice()) {
            proof {
                lemma_root_stats_index(t0, key@, i as int);
            }
            let old_stats = &report.per_root_path[i].1;
            let updated = PathStats {
                files_touched: old_stats.files_touched + 1,
                bytes_freed: old_stats.bytes_freed + size,
            };
            let name = report.per_root_path[i].0.clone();
            report.per_root_path.set(i, (name, updated));
            proof {
                let t1 = report.per_root_path@;
                assert(root_keys(t1) =~= root_keys(t0));
                lemma_root_stats_index(t1, key@, i as int);
                assert forall|kk: Seq<char>| kk != root_label@ implies root_stats(t1, kk)
                    == root_stats(t0, kk) by {
                    lemma_root_stats_other(t0, t1, i as int, kk);
                }
            }
            return;
        }
        i += 1;
    }
    proof {
        lemma_root_stats_absent(t0, key@);
    }
    report.per_root_path.push((string_of(key.as_slice()), PathStats { files_touched: 1, bytes_freed: size }));
    proof {
        let t1 = report.per_root_path@;
        assert(t1.drop_last() =~= t0);
        assert(root_keys(t1) =~= root_keys(t0).push(root_label@));
        assert forall|a: int, b: int|
            0 <= a < root_keys(t1).len() && 0 <= b < root_keys(t1).len() && a != b implies root_keys(
            t1,
        )[a] != root_keys(t1)[b] by {
            if a < t0.len() && b < t0.len() {
                assert(root_keys(t1)[a] == root_keys(t0)[a]);
                assert(root_keys(t1)[b] == root_keys(t0)[b]);
            } else if a < t0.len() {
                assert(root_keys(t1)[a] == t0[a].0@);
            } else {
                assert(root_keys(t1)[b] == t0[b].0@);
            }
        }
    }
}

proof fn lemma_root_stats_other(
    t0: Seq<(String, PathStats)>,
    t1: Seq<(String, PathStats)>,
    i: int,
    k: Seq<char>,
)
    requires
        t0.len() == t1.len(),
        0 <= i < t0.len(),
        t1[i].0@ == t0[i].0@,
        t0[i].0@ != k,
        forall|j: int| 0 <= j < t0.len() && j != i ==> t1[j] == t0[j],
    ensures
        root_stats(t1, k) == root_stats(t0, k),
    decreases t0.len(),
{
    if t0.len() > 0 {
        if i < t0.len() - 1 {
            lemma_root_stats_other(t0.drop_last(), t1.drop_last(), i, k);
        } else {
            assert(t1.drop_last() =~= t0.drop_last());
        }
    }
}

proof fn lemma_type_stats_other(
    t0: Seq<(String, TypeStats)>,
    t1: Seq<(String, TypeStats)>,
    i: int,
    k: Seq<char>,
)
    requires
        t0.len() == t1.len(),
        0 <= i < t0.len(),
        t1[i].0@ == t0[i].0@,
        t0[i].0@ != k,
        forall|j: int| 0 <= j < t0.len() && j != i ==> t1[j] == t0[j],
    ensures
        type_stats(t1, k) == type_stats(t0, k),
    decreases t0.len(),
{
    if t0.len() > 0 {
        if i < t0.len() - 1 {
            lemma_type_stats_other(t0.drop_last(), t1.drop_last(), i, k);
        } else {
            assert(t1.drop_last() =~= t0.drop_last());
        }
    }
}

/// Counts one more file of `size` bytes of the type `type_key`, as `bump_root_stats`
/// does for roots.
pub fn bump_type_key_stats(report: &mut ModuleReport, type_key: &str, size: u64)
    requires
        unique_keys(type_keys(old(report).per_file_type@)),
        type_stats(old(report).per_file_type@, type_key@) matches Some((f, b)) ==> f + 1
            <= u64::MAX && b + size <= u64::MAX,
    ensures
        unique_keys(type_keys(final(report).per_file_type@)),
        type_stats(final(report).per_file_type@, type_key@) matches Some((f, b)) && (f as int,
        b as int) == bumped(type_stats(old(report).per_file_type@, type_key@), size),
        forall|k: Seq<char>|
            k != type_key@ ==> type_stats(final(report).per_file_type@, k) == type_stats(
                old(report).per_file_type@,
                k,
            ),
        final(report).module_id == old(report).module_id,
        final(report).files_touched == old(report).files_touched,
        final(report).bytes_freed == old(report).bytes_freed,
        final(report).per_root_path == old(report).per_root_path,
        final(report).warnings == old(report).warnings,
        final(report).errors == old(report).errors,
        final(report).permission_denied == old(report).permission_denied,
        final(report).candidate_files_count == old(report).candidate_files_count,
        final(report).deleted_files_count == old(report).deleted_files_count,
        final(report).skipped_files_count == old(report).skipped_files_count,
        final(report).missing_paths_count == old(report).missing_paths_count,
        final(report).existing_paths_count == old(report).existing_paths_count,
        final(report).duration_ms == old(report).duration_ms,
        final(report).warning_count == old(report).warning_count,
{
    let key = chars_of(type_key);
    let ghost t0 = report.per_file_type@;
    let mut i: usize = 0;
    while i < report.per_file_type.len()
        invariant
            0 <= i <= report.per_file_type@.len(),
            *report == *old(report),
            report.per_file_type@ == t0,
            t0 == old(report).per_file_type@,
            key@ == type_key@,
            unique_keys(type_keys(t0)),
            type_stats(t0, type_key@) matches Some((f, b)) ==> f + 1 <= u64::MAX && b + size
                <= u64::MAX,
            forall|j: int| 0 <= j < i ==> t0[j].0@ != key@,
        decreases report.per_file_type@.len() - i,
    {
        let k = chars_of(report.per_file_type[i].0.as_str());
        if chars_eq(k.as_slice(), key.as_slice()) {
            proof {
                lemma_type_stats_index(t0, key@, i as int);
            }
            let old_stats = &report.per_file_type[i].1;
            let updated = TypeStats {
                files_touched: old_stats.files_touched + 1,
                bytes_freed: old_stats.bytes_freed + size,
            };
            let name = report.per_file_type[i].0.clone();
            report.per_file_type.set(i, (name, updated));
            proof {
                let t1 = report.per_file_type@;
                assert(type_keys(t1) =~= type_keys(t0));
                lemma_type_stats_index(t1, key@, i as int);
                assert forall|kk: Seq<char>| kk != type_key@ implies type_stats(t1, kk)
                    == type_stats(t0, kk) by {
                    lemma_type_stats_other(t0, t1, i as int, kk);
                }
            }
            return;
        }
        i += 1;
    }
    proof {
        lemma_type_stats_absent(t0, key@);
    }
    report.per_file_type.push((string_of(key.as_slice()), TypeStats { files_touched: 1, bytes_freed: size }));
    proof {
        let t1 = report.per_file_type@;
        assert(t1.drop_last() =~= t0);
        assert(type_keys(t1) =~= type_keys(t0).push(type_key@));
        assert forall|a: int, b: int|
            0 <= a < type_keys(t1).len() && 0 <= b < type_keys(t1).len() && a != b implies type_keys(
            t1,
        )[a] != type_keys(t1)[b] by {
            if a < t0.len() && b < t0.len() {
                assert(type_keys(t1)[a] == type_keys(t0)[a]);
                assert(type_keys(t1)[b] == type_keys(t0)[b]);
            } else if a < t0.len() {
                assert(type_keys(t1)[a] == t0[a].0@);
            } else {
                assert(type_keys(t1)[b] == t0[b].0@);
            }
        }
    }
}


/// The total of a count over module reports.
pub open spec fn total_of(rs: Seq<ModuleReport>, f: spec_fn(ModuleReport) -> int) -> int
    decreases rs.len(),
{
    if rs.len() == 0 {
        0
    } else {
        total_of(rs.drop_last(), f) + f(rs.last())
    }
}

/// The reports by module id: a later report replaces an earlier one with the same id.
pub open spec fn reports_by_module(rs: Seq<ModuleReport>) -> Map<Seq<char>, ModuleReport>
    decreases rs.len(),
{
    if rs.len() == 0 {
        Map::empty()
    } else {
        reports_by_module(rs.drop_last()).insert(rs.last().module_id@, rs.last())
    }
}

/// Files touched by a module.
pub open spec fn files_of(r: ModuleReport) -> int {
    r.files_touched as int
}

/// Bytes freed by a module.
pub open spec fn bytes_of(r: ModuleReport) -> int {
    r.bytes_freed as int
}

/// Warnings of a module.
pub open spec fn warnings_of(r: ModuleReport) -> int {
    r.warnings@.len() as int
}

/// Errors of a module.
pub open spec fn errors_of(r: ModuleReport) -> int {
    r.errors@.len() as int
}

/// Permission refusals of a module.
pub open spec fn denied_of(r: ModuleReport) -> int {
    r.permission_denied as int
}

/// Running time of a module.
pub open spec fn duration_of(r: ModuleReport) -> int {
    r.duration_ms as int
}

proof fn lemma_total_prefix(rs: Seq<ModuleReport>, f: spec_fn(ModuleReport) -> int, i: int)
    requires
        0 <= i < rs.len(),
        forall|r: ModuleReport| #[trigger] f(r) >= 0,
    ensures
        total_of(rs.take(i + 1), f) == total_of(rs.take(i), f) + f(rs[i]),
        total_of(rs.take(i), f) <= total_of(rs, f),
        total_of(rs.take(i + 1), f) <= total_of(rs, f),
    decreases rs.len(),
{
    assert(rs.take(i + 1).drop_last() =~= rs.take(i));
    if i + 1 < rs.len() {
        lemma_total_prefix(rs.drop_last(), f, i);
        assert(rs.drop_last().take(i) =~= rs.take(i));
        assert(rs.drop_last().take(i + 1) =~= rs.take(i + 1));
    } else {
        assert(rs.take(i + 1) =~= rs);
    }
}

/// The report of a whole run, from the reports of its modules in the order they ran:
/// each module's report under its id (a later report with the same id replaces the
/// earlier), and the totals of files, bytes, warnings, errors, permission refusals and
/// running time over all of them.
pub fn run_modules(dry_run: bool, reports: Vec<ModuleReport>) -> (g: GlobalReport)
    requires
        total_of(reports@, |r: ModuleReport| files_of(r)) <= u64::MAX,
        total_of(reports@, |r: ModuleReport| bytes_of(r)) <= u64::MAX,
        total_of(reports@, |r: ModuleReport| warnings_of(r)) <= u64::MAX,
        total_of(reports@, |r: ModuleReport| errors_of(r)) <= u64::MAX,
        total_of(reports@, |r: ModuleReport| denied_of(r)) <= u64::MAX,
        total_of(reports@, |r: ModuleReport| duration_of(r)) <= u128::MAX,
    ensures
        g.dry_run == dry_run,
        crate::table::distinct_keys(g.per_module@),
        crate::table::table_map(g.per_module@) == reports_by_module(reports@),
        g.total_files_touched == total_of(reports@, |r: ModuleReport| files_of(r)),
        g.total_bytes_freed == total_of(reports@, |r: ModuleReport| bytes_of(r)),
        g.total_warnings == total_of(reports@, |r: ModuleReport| warnings_of(r)),
        g.total_errors == total_of(reports@, |r: ModuleReport| errors_of(r)),
        g.total_permission_denied == total_of(reports@, |r: ModuleReport| denied_of(r)),
        g.total_duration_ms == total_of(reports@, |r: ModuleReport| duration_of(r)),
{
    let ghost rs = reports@;
    let ghost ff = |r: ModuleReport| files_of(r);
    let ghost fb = |r: ModuleReport| bytes_of(r);
    let ghost fw = |r: ModuleReport| warnings_of(r);
    let ghost fe = |r: ModuleReport| errors_of(r);
    let ghost fd = |r: ModuleReport| denied_of(r);
    let ghost ft = |r: ModuleReport| duration_of(r);
    let mut g = GlobalReport {
        dry_run,
        per_module: Vec::new(),
        total_files_touched: 0,
        total_bytes_freed: 0,
        total_warnings: 0,
        total_errors: 0,
        total_permission_denied: 0,
        total_duration_ms: 0,
    };
    let n = reports.len();
    let mut rev = crate::sorting::reversed(reports);
    let mut i: usize = 0;
    proof {
        assert(rs.take(0) =~= Seq::<ModuleReport>::empty());
        assert(crate::table::table_map(g.per_module@) =~= Map::<Seq<char>, ModuleReport>::empty());
    }
    while rev.len() > 0
        invariant
            i + rev@.len() == rs.len(),
            rs.len() == n,
            forall|j: int| 0 <= j < rev@.len() ==> #[trigger] rev@[j] == rs[rs.len() - 1 - j],
            g.dry_run == dry_run,
            crate::table::distinct_keys(g.per_module@),
            crate::table::table_map(g.per_module@) == reports_by_module(rs.take(i as int)),
            g.total_files_touched == total_of(rs.take(i as int), ff),
            g.total_bytes_freed == total_of(rs.take(i as int), fb),
            g.total_warnings == total_of(rs.take(i as int), fw),
            g.total_errors == total_of(rs.take(i as int), fe),
            g.total_permission_denied == total_of(rs.take(i as int), fd),
            g.total_duration_ms == total_of(rs.take(i as int), ft),
            total_of(rs, ff) <= u64::MAX,
            total_of(rs, fb) <= u64::MAX,
            total_of(rs, fw) <= u64::MAX,
            total_of(rs, fe) <= u64::MAX,
            total_of(rs, fd) <= u64::MAX,
            total_of(rs, ft) <= u128::MAX,
            ff == (|r: ModuleReport| files_of(r)),
            fb == (|r: ModuleReport| bytes_of(r)),
            fw == (|r: ModuleReport| warnings_of(r)),
            fe == (|r: ModuleReport| errors_of(r)),
            fd == (|r: ModuleReport| denied_of(r)),
            ft == (|r: ModuleReport| duration_of(r)),
        decreases rev@.len(),
    {
        let report = rev.pop().unwrap();
        proof {
            assert(report == rs[i as int]);
            lemma_total_prefix(rs, ff, i as int);
            lemma_total_prefix(rs, fb, i as int);
            lemma_total_prefix(rs, fw, i as int);
            lemma_total_prefix(rs, fe, i as int);
            lemma_total_prefix(rs, fd, i as int);
            lemma_total_prefix(rs, ft, i as int);
            assert(rs.take(i + 1).drop_last() =~= rs.take(i as int));
        }
        g.total_files_touched = g.total_files_touched + report.files_touched;
        g.total_bytes_freed = g.total_bytes_freed + report.bytes_freed;
        g.total_warnings = g.total_warnings + report.warnings.len() as u64;
        g.total_errors = g.total_errors + report.errors.len() as u64;
        g.total_permission_denied = g.total_permission_denied + report.permission_denied;
        g.total_duration_ms = g.total_duration_ms + report.duration_ms;
        let id = report.module_id.clone();
        crate::table::insert_entry(&mut g.per_module, id.as_str(), report);
        i += 1;
    }
    proof {
        assert(rs.take(rs.len() as int) =~= rs);
    }
    g
}

} // verus!
