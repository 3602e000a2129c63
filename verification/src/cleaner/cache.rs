//! The cache cleaner module: which entries it lists, which paths it refuses to delete,
//! and how it counts what it cleans.
use vstd::prelude::*;
use crate::cleaner::api::{CandidateKind, CleanerCandidate, DeleteFailure, DeleteSelectedResponse};
use crate::cleaner::cache_paths::{CacheCategory, CachePath};
use crate::cleaner::reports::{ModuleReport, bump_type_key_stats, root_keys, root_stats, type_keys, type_stats, unique_keys, bumped};
use crate::paths::{components, components_exec, extension, extension_exec, file_name, file_name_exec, path_starts_with, path_starts_with_exec};
use crate::sorting::{lemma_sort_desc_permutes, lemma_sort_desc_sorted, sort_desc, sorted_desc, stable_sort_desc, strip_keys};
use crate::text::{chars_eq, chars_of, contains, extend_chars, has_infix, lowercase_chars, spec_to_lowercase, string_of, trim_chars, trim_seq};

verus! {

/// The cache cleaner module.
pub struct CacheCleaner;

impl CacheCleaner {
    pub fn new() -> (r: CacheCleaner) {
        CacheCleaner
    }

    /// The module's id.
    pub fn id(&self) -> (r: &'static str)
        ensures
            r@ == "cache"@,
    {
        "cache"
    }

    /// The module's description.
    pub fn description(&self) -> (r: &'static str)
        ensures
            r@ == "Clean system and user cache directories."@,
    {
        "Clean system and user cache directories."
    }
}

/// The name of a category in reports.
pub open spec fn spec_category_key(c: CacheCategory) -> Seq<char> {
    match c {
        CacheCategory::System => "system"@,
        CacheCategory::User => "user"@,
        CacheCategory::Browser => "browser"@,
        CacheCategory::DevTools => "devtools"@,
        CacheCategory::PackageManager => "package_manager"@,
        CacheCategory::DesktopEnv => "desktop_env"@,
    }
}

/// The name of a category in reports.
pub fn category_key(category: CacheCategory) -> (r: &'static str)
    ensures
        r@ == spec_category_key(category),
{
    match category {
        CacheCategory::System => "system",
        CacheCategory::User => "user",
        CacheCategory::Browser => "browser",
        CacheCategory::DevTools => "devtools",
        CacheCategory::PackageManager => "package_manager",
        CacheCategory::DesktopEnv => "desktop_env",
    }
}

/// The category of the first known directory with this pattern, or `unknown`.
pub open spec fn spec_root_category(t: Seq<CachePath>, label: Seq<char>) -> Seq<char>
    decreases t.len(),
{
    if t.len() == 0 {
        "unknown"@
    } else if t[0].pattern@ == label {
        spec_category_key(t[0].category)
    } else {
        spec_root_category(t.drop_first(), label)
    }
}

/// The category name of a root, found by its pattern in the table.
pub fn root_label_to_category(table: &[CachePath], root_label: &str) -> (r: &'static str)
    ensures
        r@ == spec_root_category(table@, root_label@),
{
    let label = chars_of(root_label);
    let mut i: usize = 0;
    assert(table@.skip(0) =~= table@);
    while i < table.len()
        invariant
            0 <= i <= table@.len(),
            label@ == root_label@,
            spec_root_category(table@, root_label@) == spec_root_category(table@.skip(i as int), root_label@),
        decreases table@.len() - i,
    {
        proof {
            let s = table@.skip(i as int);
            assert(s[0] == table@[i as int]);
            assert(s.drop_first() =~= table@.skip(i + 1));
        }
        if chars_eq(chars_of(table[i].pattern).as_slice(), label.as_slice()) {
            return category_key(table[i].category);
        }
        i += 1;
    }
    "unknown"
}

/// The type under which a file is counted: package index files of apt (names with
/// `Packages`, `InRelease` or `Translation-`) are `apt_index`; otherwise the lowercased
/// extension, `unknown` for a blank one and `no_ext` without one.
pub open spec fn spec_file_type_key(p: Seq<char>) -> Seq<char> {
    let n = match file_name(p) {
        Some(n) => n,
        None => Seq::empty(),
    };
    if has_infix(n, "Packages"@) || has_infix(n, "InRelease"@) || has_infix(n, "Translation-"@) {
        "apt_index"@
    } else {
        match extension(p) {
            Some(e) => if trim_seq(e).len() > 0 {
                spec_to_lowercase(e)
            } else {
                "unknown"@
            },
            None => "no_ext"@,
        }
    }
}

/// The type under which a file is counted.
pub fn file_type_key(path: &str) -> (r: String)
    ensures
        r@ == spec_file_type_key(path@),
{
    let p = chars_of(path);
    let n = match file_name_exec(p.as_slice()) {
        Some(n) => n,
        None => Vec::new(),
    };
    proof {
        if file_name(path@) is None {
            assert(n@ =~= Seq::<char>::empty());
        }
    }
    if contains(n.as_slice(), chars_of("Packages").as_slice()) || contains(
        n.as_slice(),
        chars_of("InRelease").as_slice(),
    ) || contains(n.as_slice(), chars_of("Translation-").as_slice()) {
        return string_of(chars_of("apt_index").as_slice());
    }
    match extension_exec(p.as_slice()) {
        Some(e) => {
            if trim_chars(e.as_slice()).len() > 0 {
                string_of(lowercase_chars(e.as_slice()).as_slice())
            } else {
                string_of(chars_of("unknown").as_slice())
            }
        },
        None => string_of(chars_of("no_ext").as_slice()),
    }
}

/// Counts one more file of `size` bytes under its file type.
pub fn bump_type_stats(report: &mut ModuleReport, file_path: &str, size: u64)
    requires
        unique_keys(type_keys(old(report).per_file_type@)),
        type_stats(old(report).per_file_type@, spec_file_type_key(file_path@)) matches Some((f, b))
            ==> f + 1 <= u64::MAX && b + size <= u64::MAX,
    ensures
        unique_keys(type_keys(final(report).per_file_type@)),
        type_stats(final(report).per_file_type@, spec_file_type_key(file_path@)) matches Some((f, b))
            && (f as int, b as int) == bumped(
            type_stats(old(report).per_file_type@, spec_file_type_key(file_path@)),
            size,
        ),
        forall|k: Seq<char>|
            k != spec_file_type_key(file_path@) ==> type_stats(final(report).per_file_type@, k)
                == type_stats(old(report).per_file_type@, k),
        final(report).module_id == old(report).module_id,
        final(report).files_touched == old(report).files_touched,
        final(report).bytes_freed == old(report).bytes_freed,
        final(report).per_root_path == old(report).per_root_path,
        final(report).warnings == old(report).warnings,
        final(report).errors == old(report).errors,
        final(report).permission_denied == old(report).permission_denied,
        final(report).candidate_files_count == old(report).candidate_files_count,
        final(report).deleted_files_count == old(report).deleted_files_count,
        final(report).skipped_files_count == old(report).skipped_files_count,
        final(report).missing_paths_count == old(report).missing_paths_count,
        final(report).existing_paths_count == old(report).existing_paths_count,
        final(report).duration_ms == old(report).duration_ms,
        final(report).warning_count == old(report).warning_count,
{
    let key = file_type_key(file_path);
    bump_type_key_stats(report, key.as_str(), size);
}

/// Two paths are equal when their components are (`Path`'s `==`).
pub open spec fn path_eq(a: Seq<char>, b: Seq<char>) -> bool {
    components(a) == components(b)
}

fn path_eq_exec(a: &[char], b: &[char]) -> (r: bool)
    ensures
        r == path_eq(a@, b@),
{
    let x = components_exec(a);
    let y = components_exec(b);
    if x.len() != y.len() {
        return false;
    }
    let mut i: usize = 0;
    while i < x.len()
        invariant
            0 <= i <= x@.len(),
            x@.len() == y@.len(),
            x@.len() == components(a@).len(),
            y@.len() == components(b@).len(),
            forall|j: int| 0 <= j < x@.len() ==> #[trigger] x@[j]@ == components(a@)[j],
            forall|j: int| 0 <= j < y@.len() ==> #[trigger] y@[j]@ == components(b@)[j],
            forall|j: int| 0 <= j < i ==> components(a@)[j] == components(b@)[j],
        decreases x@.len() - i,
    {
        if !chars_eq(x[i].as_slice(), y[i].as_slice()) {
            proof {
                assert(x@[i as int]@ == components(a@)[i as int]);
                assert(y@[i as int]@ == components(b@)[i as int]);
            }
            return false;
        }
        proof {
            assert(x@[i as int]@ == components(a@)[i as int]);
            assert(y@[i as int]@ == components(b@)[i as int]);
        }
        i += 1;
    }
    assert(components(a@) =~= components(b@));
    true
}

/// The system directories the cleaner never deletes.
pub open spec fn dangerous_targets() -> Seq<Seq<char>> {
    seq![
        "/"@, "/bin"@, "/boot"@, "/dev"@, "/etc"@, "/home"@, "/lib"@, "/lib64"@, "/opt"@,
        "/proc"@, "/root"@, "/run"@, "/sbin"@, "/srv"@, "/sys"@, "/tmp"@, "/usr"@, "/var"@,
        "/var/cache"@, "/var/lib"@, "/var/log"@,
    ]
}

/// A path is a dangerous target when it equals one of the system directories.
pub open spec fn spec_is_dangerous(p: Seq<char>) -> bool {
    exists|i: int| 0 <= i < dangerous_targets().len() && path_eq(p, #[trigger] dangerous_targets()[i])
}

/// Whether a path is one of the system directories that the cleaner never deletes.
pub fn is_dangerous_delete_target(path: &str) -> (r: bool)
    ensures
        r == spec_is_dangerous(path@),
{
    let p = chars_of(path);
    let targets: Vec<&str> = vec![
        "/", "/bin", "/boot", "/dev", "/etc", "/home", "/lib", "/lib64", "/opt", "/proc", "/root",
        "/run", "/sbin", "/srv", "/sys", "/tmp", "/usr", "/var", "/var/cache", "/var/lib",
        "/var/log",
    ];
    proof {
        assert(targets@.map_values(|s: &str| s@) =~= dangerous_targets());
    }
    let mut i: usize = 0;
    while i < targets.len()
        invariant
            0 <= i <= targets@.len(),
            targets@.len() == dangerous_targets().len(),
            forall|j: int| 0 <= j < targets@.len() ==> #[trigger] targets@[j]@ == dangerous_targets()[j],
            p@ == path@,
            forall|j: int| 0 <= j < i ==> !path_eq(path@, #[trigger] dangerous_targets()[j]),
        decreases targets@.len() - i,
    {
        if path_eq_exec(p.as_slice(), chars_of(targets[i]).as_slice()) {
            proof {
                assert(targets@[i as int]@ == dangerous_targets()[i as int]);
            }
            return true;
        }
        proof {
            assert(targets@[i as int]@ == dangerous_targets()[i as int]);
        }
        i += 1;
    }
    false
}

/// What the file system says about a path that is to be deleted.
pub struct DeleteTargetFacts {
    /// The path exists.
    pub exists: bool,
    /// Whether the path itself is a symbolic link, or why that could not be read.
    pub is_symlink: Result<bool, String>,
    /// The canonical form of the path, or why it could not be formed.
    pub canonical: Result<String, String>,
}

/// Some root is a prefix of the path.
pub open spec fn under_some_root(p: Seq<char>, roots: Seq<Seq<char>>) -> bool {
    exists|i: int| 0 <= i < roots.len() && path_starts_with(p, #[trigger] roots[i])
}

/// The path is one of the roots.
pub open spec fn is_some_root(p: Seq<char>, roots: Seq<Seq<char>>) -> bool {
    exists|i: int| 0 <= i < roots.len() && path_eq(p, #[trigger] roots[i])
}

/// The verdict on a delete target: the error message, or the canonical path to delete.
/// Empty and missing paths, symbolic links, paths that cannot be resolved, system
/// directories, paths outside every allowed root and the roots themselves are refused,
/// in that order.
pub open spec fn spec_validate_delete_target(
    raw: Seq<char>,
    exists: bool,
    is_symlink: Result<bool, Seq<char>>,
    canonical: Result<Seq<char>, Seq<char>>,
    roots: Seq<Seq<char>>,
) -> Result<Seq<char>, Seq<char>> {
    if raw.len() == 0 {
        Err("Empty path is not allowed"@)
    } else if !exists {
        Err("Path does not exist"@)
    } else {
        match is_symlink {
            Err(e) => Err("symlink metadata failed: "@ + e),
            Ok(true) => Err("Refusing to delete symbolic link"@),
            Ok(false) => match canonical {
                Err(e) => Err("canonicalize failed: "@ + e),
                Ok(c) => if spec_is_dangerous(c) {
                    Err("Refusing to delete dangerous top-level/system path"@)
                } else if roots.len() == 0 {
                    Err("No valid allowed cleaner roots found"@)
                } else if !under_some_root(c, roots) {
                    Err("Path is outside allowed cleaner scope"@)
                } else if is_some_root(c, roots) {
                    Err("Refusing to delete an entire cleaner root directly"@)
                } else {
                    Ok(c)
                },
            },
        }
    }
}

/// The view of a result of texts.
pub open spec fn result_view(r: Result<String, String>) -> Result<Seq<char>, Seq<char>> {
    match r {
        Ok(s) => Ok(s@),
        Err(e) => Err(e@),
    }
}

/// The view of a result of a flag or a text.
pub open spec fn flag_view(r: Result<bool, String>) -> Result<bool, Seq<char>> {
    match r {
        Ok(b) => Ok(b),
        Err(e) => Err(e@),
    }
}

fn prefixed(prefix: &str, e: &String) -> (r: String)
    ensures
        r@ == prefix@ + e@,
{
    let mut v = chars_of(prefix);
    extend_chars(&mut v, chars_of(e.as_str()).as_slice());
    string_of(v.as_slice())
}

fn lit(s: &str) -> (r: String)
    ensures
        r@ == s@,
{
    string_of(chars_of(s).as_slice())
}

/// Decides whether a path may be deleted, from what the file system says about it and
/// the canonical allowed roots (those that could be resolved).
pub fn validate_delete_target(
    raw_path: &str,
    facts: &DeleteTargetFacts,
    canonical_roots: &[String],
) -> (r: Result<String, String>)
    ensures
        result_view(r) == spec_validate_delete_target(
            raw_path@,
            facts.exists,
            flag_view(facts.is_symlink),
            result_view(facts.canonical),
            crate::text::views(canonical_roots@),
        ),
{
    if chars_of(raw_path).len() == 0 {
        return Err(lit("Empty path is not allowed"));
    }
    if !facts.exists {
        return Err(lit("Path does not exist"));
    }
    match &facts.is_symlink {
        Err(e) => return Err(prefixed("symlink metadata failed: ", e)),
        Ok(true) => return Err(lit("Refusing to delete symbolic link")),
        Ok(false) => {},
    }
    let c = match &facts.canonical {
        Err(e) => return Err(prefixed("canonicalize failed: ", e)),
        Ok(c) => c,
    };
    if is_dangerous_delete_target(c.as_str()) {
        return Err(lit("Refusing to delete dangerous top-level/system path"));
    }
    if canonical_roots.len() == 0 {
        return Err(lit("No valid allowed cleaner roots found"));
    }
    let cv = chars_of(c.as_str());
    let ghost roots = crate::text::views(canonical_roots@);
    let mut under = false;
    let mut equal = false;
    let mut i: usize = 0;
    while i < canonical_roots.len()
        invariant
            0 <= i <= canonical_roots@.len(),
            roots == crate::text::views(canonical_roots@),
            cv@ == c@,
            under == exists|j: int| 0 <= j < i && path_starts_with(c@, #[trigger] roots[j]),
            equal == exists|j: int| 0 <= j < i && path_eq(c@, #[trigger] roots[j]),
        decreases canonical_roots@.len() - i,
    {
        let rv = chars_of(canonical_roots[i].as_str());
        proof {
            assert(roots[i as int] == rv@);
        }
        if path_starts_with_exec(cv.as_slice(), rv.as_slice()) {
            under = true;
        }
        if path_eq_exec(cv.as_slice(), rv.as_slice()) {
            equal = true;
        }
        i += 1;
    }
    if !under {
        return Err(lit("Path is outside allowed cleaner scope"));
    }
    if equal {
        return Err(lit("Refusing to delete an entire cleaner root directly"));
    }
    Ok(c.clone())
}

/// The running totals of a delete request.
pub struct DeleteTally {
    pub deleted_count: u64,
    pub deleted_bytes: u64,
    pub failed: Vec<DeleteFailure>,
}

impl DeleteTally {
    /// Nothing deleted, nothing failed.
    pub fn new() -> (r: DeleteTally)
        ensures
            r.deleted_count == 0,
            r.deleted_bytes == 0,
            r.failed@.len() == 0,
    {
        DeleteTally { deleted_count: 0, deleted_bytes: 0, failed: Vec::new() }
    }

    /// Records a path that was deleted (or, in a dry run, would be).
    pub fn record_deleted(&mut self, size: u64)
        requires
            old(self).deleted_count < u64::MAX,
            old(self).deleted_bytes + size <= u64::MAX,
        ensures
            final(self).deleted_count == old(self).deleted_count + 1,
            final(self).deleted_bytes == old(self).deleted_bytes + size,
            final(self).failed == old(self).failed,
    {
        self.deleted_count = self.deleted_count + 1;
        self.deleted_bytes = self.deleted_bytes + size;
    }

    /// Records a path that could not be deleted.
    pub fn record_failure(&mut self, path: &String, error: String)
        ensures
            final(self).deleted_count == old(self).deleted_count,
            final(self).deleted_bytes == old(self).deleted_bytes,
            final(self).failed@.len() == old(self).failed@.len() + 1,
            final(self).failed@.drop_last() == old(self).failed@,
            final(self).failed@.last().path@ == path@,
            final(self).failed@.last().error == error,
    {
        self.failed.push(DeleteFailure { path: path.clone(), error });
    }

    /// The answer: successful when nothing failed.
    pub fn into_response(self, dry_run: bool) -> (r: DeleteSelectedResponse)
        ensures
            r.ok == (self.failed@.len() == 0),
            r.dry_run == dry_run,
            r.deleted_count == self.deleted_count,
            r.deleted_bytes == self.deleted_bytes,
            r.failed == self.failed,
    {
        let ok = self.failed.len() == 0;
        DeleteSelectedResponse {
            ok,
            dry_run,
            deleted_count: self.deleted_count,
            deleted_bytes: self.deleted_bytes,
            failed: self.failed,
        }
    }
}

/// The error text of a failed step of a deletion: `<step> failed: <error>`.
pub fn step_failure(step: &str, error: &String) -> (r: String)
    ensures
        r@ == step@ + " failed: "@ + error@,
{
    let mut v = chars_of(step);
    extend_chars(&mut v, chars_of(" failed: ").as_slice());
    extend_chars(&mut v, chars_of(error.as_str()).as_slice());
    string_of(v.as_slice())
}

/// What a path that is to be deleted is, by its metadata.
#[derive(PartialEq, Eq, Structural, Clone, Copy, Debug)]
pub enum PathKind {
    File,
    Dir,
    Other,
}

/// Whether the size of a path to delete must be measured by walking it: only for a
/// directory.
pub fn needs_dir_size(meta: &Result<(PathKind, u64), String>) -> (r: bool)
    ensures
        r == (meta matches Ok((k, _)) && k == PathKind::Dir),
{
    match meta {
        Ok((PathKind::Dir, _)) => true,
        _ => false,
    }
}

/// The size that deleting a path frees, from its metadata (its kind and length) and, for
/// a directory, the total length of the files under it: a file's length, a directory's
/// total, or why it cannot be deleted (`metadata failed: ..`, `dir_size failed: ..`,
/// `Unsupported path type` for what is neither).
pub fn item_size(meta: &Result<(PathKind, u64), String>, dir_size: &Option<Result<u64, String>>) -> (r: Result<u64, String>)
    requires
        (meta matches Ok((k, _)) && k == PathKind::Dir) ==> dir_size is Some,
    ensures
        match meta {
            Err(e) => r matches Err(m) && m@ == "metadata failed: "@ + e@,
            Ok((PathKind::File, len)) => r == Ok::<u64, String>(*len),
            Ok((PathKind::Dir, _)) => match dir_size {
                Some(Ok(v)) => r == Ok::<u64, String>(*v),
                Some(Err(e)) => r matches Err(m) && m@ == "dir_size failed: "@ + e@,
                None => false,
            },
            Ok((PathKind::Other, _)) => r matches Err(m) && m@ == "Unsupported path type"@,
        },
{
    match meta {
        Err(e) => Err(prefixed("metadata failed: ", e)),
        Ok((PathKind::File, len)) => Ok(*len),
        Ok((PathKind::Dir, _)) => match dir_size {
            Some(Ok(v)) => Ok(*v),
            Some(Err(e)) => Err(prefixed("dir_size failed: ", e)),
            None => Err(lit("Unsupported path type")),
        },
        Ok((PathKind::Other, _)) => Err(lit("Unsupported path type")),
    }
}

/// Whether a path whose size is known is removed now: not in a dry run, and not when its
/// size could not be found.
pub fn should_remove(size: &Result<u64, String>, dry_run: bool) -> (r: bool)
    ensures
        r == (size is Ok && !dry_run),
{
    size.is_ok() && !dry_run
}

impl DeleteTally {
    /// Settles one requested path, once its size is known (or why not) and, unless in a
    /// dry run, its removal was tried: a path whose size is unknown fails with that
    /// reason, a failed removal fails with `delete failed: ..`, and otherwise the path
    /// counts as deleted with its size.
    pub fn settle_item(&mut self, item: &String, size: Result<u64, String>, removal: Option<Result<(), String>>)
        requires
            (size is Ok && !(removal matches Some(Err(_)))) ==> old(self).deleted_count < u64::MAX
                && old(self).deleted_bytes + size->Ok_0 <= u64::MAX,
        ensures
            match size {
                Err(e) => final(self).deleted_count == old(self).deleted_count
                    && final(self).deleted_bytes == old(self).deleted_bytes
                    && final(self).failed@ == old(self).failed@.push(final(self).failed@.last())
                    && final(self).failed@.last().path@ == item@ && final(self).failed@.last().error == e,
                Ok(n) => match removal {
                    Some(Err(e)) => final(self).deleted_count == old(self).deleted_count
                        && final(self).deleted_bytes == old(self).deleted_bytes
                        && final(self).failed@ == old(self).failed@.push(final(self).failed@.last())
                        && final(self).failed@.last().path@ == item@
                        && final(self).failed@.last().error@ == "delete failed: "@ + e@,
                    _ => final(self).deleted_count == old(self).deleted_count + 1
                        && final(self).deleted_bytes == old(self).deleted_bytes + n
                        && final(self).failed == old(self).failed,
                },
            },
    {
        match size {
            Err(e) => {
                self.record_failure(item, e);
                proof {
                    assert(self.failed@ =~= old(self).failed@.push(self.failed@.last()));
                }
            },
            Ok(n) => match removal {
                Some(Err(e)) => {
                    let m = prefixed("delete failed: ", &e);
                    self.record_failure(item, m);
                    proof {
                        assert(self.failed@ =~= old(self).failed@.push(self.failed@.last()));
                    }
                },
                _ => self.record_deleted(n),
            },
        }
    }
}

/// An entry found directly inside a cache directory.
pub struct EntryFacts {
    pub path: String,
    /// `None` when the entry is neither a file nor a directory.
    pub kind: Option<CandidateKind>,
    /// The file's length, or the total length of the files under the directory.
    pub size: u64,
}

/// A candidate as plain values: path, name, category, kind, size and file type.
pub type CandidateFields = (Seq<char>, Seq<char>, Seq<char>, CandidateKind, u64, Seq<char>);

/// The candidate made from an entry of a root, when it is a non-empty file or directory.
pub open spec fn candidate_of(root_label: Seq<char>, table: Seq<CachePath>, e: EntryFacts) -> Option<CandidateFields> {
    match e.kind {
        None => None,
        Some(k) => if e.size == 0 {
            None
        } else {
            Some(
                (
                    e.path@,
                    match file_name(e.path@) {
                        Some(n) => n,
                        None => "unknown"@,
                    },
                    spec_root_category(table, root_label),
                    k,
                    e.size,
                    spec_file_type_key(e.path@),
                ),
            )
        },
    }
}

/// The fields of a candidate.
pub open spec fn candidate_fields(c: CleanerCandidate) -> CandidateFields {
    (c.path@, c.name@, c.category@, c.kind, c.size, c.file_type@)
}


/// The candidates found under one root, in the order of its entries, each with its size.
pub open spec fn found_in(table: Seq<CachePath>, label: Seq<char>, es: Seq<EntryFacts>) -> Seq<(CandidateFields, u64)>
    decreases es.len(),
{
    if es.len() == 0 {
        Seq::empty()
    } else {
        let prev = found_in(table, label, es.drop_last());
        match candidate_of(label, table, es.last()) {
            Some(f) => prev.push((f, f.4)),
            None => prev,
        }
    }
}

/// The candidates found under all roots, root after root.
pub open spec fn found_all(table: Seq<CachePath>, roots: Seq<(Seq<char>, Seq<EntryFacts>)>) -> Seq<(CandidateFields, u64)>
    decreases roots.len(),
{
    if roots.len() == 0 {
        Seq::empty()
    } else {
        found_all(table, roots.drop_last()) + found_in(table, roots.last().0, roots.last().1)
    }
}

/// The view of listed roots: each root's label and entries.
pub open spec fn roots_view(roots: Seq<(String, Vec<EntryFacts>)>) -> Seq<(Seq<char>, Seq<EntryFacts>)> {
    roots.map_values(|r: (String, Vec<EntryFacts>)| (r.0@, r.1@))
}

/// The fields of keyed candidates, keeping the keys.
pub open spec fn keyed_fields(v: Seq<(CleanerCandidate, u64)>) -> Seq<(CandidateFields, u64)> {
    v.map_values(|p: (CleanerCandidate, u64)| (candidate_fields(p.0), p.1))
}

fn candidate_from(table: &[CachePath], label: &String, e: &EntryFacts) -> (r: Option<CleanerCandidate>)
    ensures
        match r {
            Some(c) => candidate_of(label@, table@, *e) == Some(candidate_fields(c)),
            None => candidate_of(label@, table@, *e) is None,
        },
{
    let kind = match &e.kind {
        None => return None,
        Some(CandidateKind::File) => CandidateKind::File,
        Some(CandidateKind::Directory) => CandidateKind::Directory,
    };
    if e.size == 0 {
        return None;
    }
    let p = chars_of(e.path.as_str());
    let name = match file_name_exec(p.as_slice()) {
        Some(n) => string_of(n.as_slice()),
        None => string_of(chars_of("unknown").as_slice()),
    };
    let category = string_of(chars_of(root_label_to_category(table, label.as_str())).as_slice());
    let file_type = file_type_key(e.path.as_str());
    Some(CleanerCandidate { path: e.path.clone(), name, category, kind, size: e.size, file_type })
}

impl CacheCleaner {
    /// The cache entries that could be deleted: each non-empty file or directory found
    /// directly inside a listed root, with its root's category, largest first (entries of
    /// equal size keep the order in which they were listed).
    pub fn collect_cache_candidates(&self, table: &[CachePath], roots: &Vec<(String, Vec<EntryFacts>)>) -> (r: Vec<CleanerCandidate>)
        ensures
            r@.map_values(|c: CleanerCandidate| candidate_fields(c)) == sort_desc(
                found_all(table@, roots_view(roots@)),
            ).map_values(|p: (CandidateFields, u64)| p.0),
    {
        let ghost rv = roots_view(roots@);
        let mut acc: Vec<(CleanerCandidate, u64)> = Vec::new();
        let mut i: usize = 0;
        while i < roots.len()
            invariant
                0 <= i <= roots@.len(),
                rv == roots_view(roots@),
                keyed_fields(acc@) == found_all(table@, rv.take(i as int)),
            decreases roots@.len() - i,
        {
            let label = &roots[i].0;
            let entries = &roots[i].1;
            let ghost before = acc@;
            proof {
                assert(rv.take(i + 1).drop_last() =~= rv.take(i as int));
                assert(rv[i as int] == (label@, entries@));
            }
            proof {
                assert(entries@.take(0) =~= Seq::<EntryFacts>::empty());
                assert(keyed_fields(acc@) =~= keyed_fields(before) + found_in(table@, label@, entries@.take(0)));
            }
            let mut j: usize = 0;
            while j < entries.len()
                invariant
                    0 <= j <= entries@.len(),
                    keyed_fields(acc@) == keyed_fields(before) + found_in(table@, label@, entries@.take(j as int)),
                decreases entries@.len() - j,
            {
                proof {
                    assert(entries@.take(j + 1).drop_last() =~= entries@.take(j as int));
                    assert(entries@.take(j + 1).last() == entries@[j as int]);
                }
                let ghost prev = acc@;
                match candidate_from(table, label, &entries[j]) {
                    Some(c) => {
                        let size = c.size;
                        acc.push((c, size));
                        proof {
                            assert(keyed_fields(acc@) =~= keyed_fields(prev).push(
                                (candidate_fields(acc@.last().0), size),
                            ));
                        }
                    },
                    None => {},
                }
                proof {
                    assert(keyed_fields(acc@) =~= keyed_fields(before) + found_in(table@, label@, entries@.take(j + 1)));
                }
                j += 1;
            }
            proof {
                assert(entries@.take(entries@.len() as int) =~= entries@);
            }
            i += 1;
        }
        proof {
            assert(rv.take(roots@.len() as int) =~= rv);
        }
        let sorted = stable_sort_desc(acc);
        proof {
            let f = |p: (CleanerCandidate, u64)| (candidate_fields(p.0), p.1);
            crate::sorting::lemma_sort_desc_map(acc@, f);
        }
        let r = strip_keys(sorted);
        proof {
            assert(r@.map_values(|c: CleanerCandidate| candidate_fields(c)) =~= keyed_fields(sorted@).map_values(
                |p: (CandidateFields, u64)| p.0,
            ));
        }
        r
    }
}


/// What happens to a cache directory's report while it is cleaned, file by file: a file
/// is met, a problem is recorded, or a file of some size is cleaned (removed, or counted
/// in a dry run).
pub enum CleanEvent {
    Candidate,
    Warning,
    /// A cleaned file: its size and its file type.
    Cleaned(u64, String),
}

/// The files counted under a root in a report.
pub open spec fn root_files(r: ModuleReport, label: Seq<char>) -> int {
    match root_stats(r.per_root_path@, label) {
        Some((f, _)) => f as int,
        None => 0,
    }
}

/// The bytes counted under a root in a report.
pub open spec fn root_bytes(r: ModuleReport, label: Seq<char>) -> int {
    match root_stats(r.per_root_path@, label) {
        Some((_, b)) => b as int,
        None => 0,
    }
}

/// The files counted under a file type in a report.
pub open spec fn type_files(r: ModuleReport, key: Seq<char>) -> int {
    match type_stats(r.per_file_type@, key) {
        Some((f, _)) => f as int,
        None => 0,
    }
}

/// The bytes counted under a file type in a report.
pub open spec fn type_bytes(r: ModuleReport, key: Seq<char>) -> int {
    match type_stats(r.per_file_type@, key) {
        Some((_, b)) => b as int,
        None => 0,
    }
}

/// What one event does to the counts of a report while the directory of root `label` is
/// cleaned: meeting a file or recording a problem changes none of the cleaned counts; a
/// cleaned file adds one file and its size to the totals and to its root, and counts as
/// skipped in a dry run, as deleted otherwise.
pub open spec fn clean_step(before: ModuleReport, label: Seq<char>, dry_run: bool, ev: CleanEvent, after: ModuleReport) -> bool {
    match ev {
        CleanEvent::Cleaned(size, ft) => {
            &&& forall|k: Seq<char>| #[trigger] type_files(after, k) == type_files(before, k) + (if k == ft@ { 1int } else { 0int })
            &&& forall|k: Seq<char>| #[trigger] type_bytes(after, k) == type_bytes(before, k) + (if k == ft@ { size as int } else { 0int })
            &&& after.files_touched == before.files_touched + 1
            &&& after.bytes_freed == before.bytes_freed + size
            &&& root_files(after, label) == root_files(before, label) + 1
            &&& root_bytes(after, label) == root_bytes(before, label) + size
            &&& after.skipped_files_count == before.skipped_files_count + (if dry_run { 1int } else { 0int })
            &&& after.deleted_files_count == before.deleted_files_count + (if dry_run { 0int } else { 1int })
        },
        _ => {
            &&& after.files_touched == before.files_touched
            &&& after.bytes_freed == before.bytes_freed
            &&& after.per_root_path == before.per_root_path
            &&& after.per_file_type == before.per_file_type
            &&& after.skipped_files_count == before.skipped_files_count
            &&& after.deleted_files_count == before.deleted_files_count
        },
    }
}

/// The number of files cleaned by some events.
pub open spec fn cleaned_count(evs: Seq<CleanEvent>) -> int
    decreases evs.len(),
{
    if evs.len() == 0 {
        0
    } else {
        cleaned_count(evs.drop_last()) + (if evs.last() is Cleaned { 1int } else { 0int })
    }
}

/// The bytes of the files cleaned by some events.
pub open spec fn cleaned_bytes(evs: Seq<CleanEvent>) -> int
    decreases evs.len(),
{
    if evs.len() == 0 {
        0
    } else {
        cleaned_bytes(evs.drop_last()) + match evs.last() {
            CleanEvent::Cleaned(size, _) => size as int,
            _ => 0int,
        }
    }
}

/// The number of cleaned files of a file type among some events.
pub open spec fn cleaned_count_of_type(evs: Seq<CleanEvent>, key: Seq<char>) -> int
    decreases evs.len(),
{
    if evs.len() == 0 {
        0
    } else {
        cleaned_count_of_type(evs.drop_last(), key) + match evs.last() {
            CleanEvent::Cleaned(_, ft) => if ft@ == key { 1int } else { 0int },
            _ => 0int,
        }
    }
}

/// The bytes of the cleaned files of a file type among some events.
pub open spec fn cleaned_bytes_of_type(evs: Seq<CleanEvent>, key: Seq<char>) -> int
    decreases evs.len(),
{
    if evs.len() == 0 {
        0
    } else {
        cleaned_bytes_of_type(evs.drop_last(), key) + match evs.last() {
            CleanEvent::Cleaned(size, ft) => if ft@ == key { size as int } else { 0int },
            _ => 0int,
        }
    }
}

/// Cleaning one cache directory keeps the report's counts in agreement: however its
/// files, problems and cleaned files follow each other, the totals, the directory's root
/// and the skipped (dry run) or deleted count all grow by the number of cleaned files, and
/// the totals and the root grow by the same number of bytes, the sum of their sizes; each
/// file type grows by the files of that type and their bytes.
pub proof fn law_directory_counts_agree(reports: Seq<ModuleReport>, events: Seq<CleanEvent>, label: Seq<char>, dry_run: bool)
    requires
        reports.len() == events.len() + 1,
        forall|i: int| 0 <= i < events.len() ==> clean_step(#[trigger] reports[i], label, dry_run, events[i], reports[i + 1]),
    ensures
        ({
            let first = reports[0];
            let last = reports.last();
            &&& last.files_touched - first.files_touched == cleaned_count(events)
            &&& root_files(last, label) - root_files(first, label) == cleaned_count(events)
            &&& last.bytes_freed - first.bytes_freed == cleaned_bytes(events)
            &&& root_bytes(last, label) - root_bytes(first, label) == cleaned_bytes(events)
            &&& (if dry_run { last.skipped_files_count - first.skipped_files_count } else {
                last.deleted_files_count - first.deleted_files_count }) == cleaned_count(events)
            &&& (if dry_run { last.deleted_files_count - first.deleted_files_count } else {
                last.skipped_files_count - first.skipped_files_count }) == 0
            &&& forall|k: Seq<char>| type_files(last, k) - type_files(first, k) == #[trigger] cleaned_count_of_type(events, k)
            &&& forall|k: Seq<char>| type_bytes(last, k) - type_bytes(first, k) == #[trigger] cleaned_bytes_of_type(events, k)
        }),
    decreases events.len(),
{
    if events.len() > 0 {
        let n = events.len() as int;
        let rs = reports.drop_last();
        let es = events.drop_last();
        assert forall|i: int| 0 <= i < es.len() implies clean_step(#[trigger] rs[i], label, dry_run, es[i], rs[i + 1]) by {
            assert(rs[i] == reports[i] && rs[i + 1] == reports[i + 1] && es[i] == events[i]);
        }
        law_directory_counts_agree(rs, es, label, dry_run);
        assert(clean_step(reports[n - 1], label, dry_run, events[n - 1], reports[n]));
        assert(rs.last() == reports[n - 1]);
        assert(rs[0] == reports[0]);
        assert forall|k: Seq<char>| type_files(reports.last(), k) - type_files(reports[0], k) == #[trigger] cleaned_count_of_type(events, k) by {
            assert(type_files(reports[n - 1], k) - type_files(reports[0], k) == cleaned_count_of_type(es, k));
            match events[n - 1] {
                CleanEvent::Cleaned(size, ft) => {
                    assert(type_files(reports[n], k) == type_files(reports[n - 1], k) + (if k == ft@ { 1int } else { 0int }));
                },
                _ => {},
            }
        }
        assert forall|k: Seq<char>| type_bytes(reports.last(), k) - type_bytes(reports[0], k) == #[trigger] cleaned_bytes_of_type(events, k) by {
            assert(type_bytes(reports[n - 1], k) - type_bytes(reports[0], k) == cleaned_bytes_of_type(es, k));
            match events[n - 1] {
                CleanEvent::Cleaned(size, ft) => {
                    assert(type_bytes(reports[n], k) == type_bytes(reports[n - 1], k) + (if k == ft@ { size as int } else { 0int }));
                },
                _ => {},
            }
        }
    }
}

/// Counts a root of a cleaning run: present roots and missing roots are counted apart.
pub fn record_root(report: &mut ModuleReport, exists: bool)
    requires
        exists ==> old(report).existing_paths_count < u64::MAX,
        !exists ==> old(report).missing_paths_count < u64::MAX,
    ensures
        *final(report) == (ModuleReport {
            existing_paths_count: if exists {
                (old(report).existing_paths_count + 1) as u64
            } else {
                old(report).existing_paths_count
            },
            missing_paths_count: if exists {
                old(report).missing_paths_count
            } else {
                (old(report).missing_paths_count + 1) as u64
            },
            ..*old(report)
        }),
{
    if exists {
        report.existing_paths_count = report.existing_paths_count + 1;
    } else {
        report.missing_paths_count = report.missing_paths_count + 1;
    }
}

/// Counts a file met under a root, before anything is done with it.
pub fn record_candidate_file(report: &mut ModuleReport)
    requires
        old(report).candidate_files_count < u64::MAX,
    ensures
        *final(report) == (ModuleReport {
            candidate_files_count: (old(report).candidate_files_count + 1) as u64,
            ..*old(report)
        }),        forall|l: Seq<char>, d: bool| #[trigger] clean_step(*old(report), l, d, CleanEvent::Candidate, *final(report)),
{
    report.candidate_files_count = report.candidate_files_count + 1;
}

/// Records a problem met while cleaning: one more warning with this message, and one
/// more permission refusal when that was the cause.
pub fn record_clean_warning(report: &mut ModuleReport, message: String, permission_denied: bool)
    requires
        old(report).warning_count < u64::MAX,
        permission_denied ==> old(report).permission_denied < u64::MAX,
    ensures
        final(report).warnings@ == old(report).warnings@.push(message),
        *final(report) == (ModuleReport {
            warnings: final(report).warnings,
            warning_count: (old(report).warning_count + 1) as u64,
            permission_denied: if permission_denied {
                (old(report).permission_denied + 1) as u64
            } else {
                old(report).permission_denied
            },
            ..*old(report)
        }),        forall|l: Seq<char>, d: bool| #[trigger] clean_step(*old(report), l, d, CleanEvent::Warning, *final(report)),
{
    if permission_denied {
        report.permission_denied = report.permission_denied + 1;
    }
    report.warnings.push(message);
    report.warning_count = report.warning_count + 1;
}

/// A walk error counts as a permission refusal when its I/O cause is one, or when its
/// message, lowercased, says `permission denied`.
pub open spec fn spec_walk_error_is_permission_denied(io_permission_denied: bool, message: Seq<char>) -> bool {
    io_permission_denied || has_infix(spec_to_lowercase(message), "permission denied"@)
}

/// Whether a walk error counts as a permission refusal.
pub fn walk_error_is_permission_denied(io_permission_denied: bool, message: &str) -> (r: bool)
    ensures
        r == spec_walk_error_is_permission_denied(io_permission_denied, message@),
{
    if io_permission_denied {
        return true;
    }
    let lower = crate::text::std_to_lowercase(message);
    contains(chars_of(lower.as_str()).as_slice(), chars_of("permission denied").as_slice())
}

/// `prefix`, the subject, `": "` and the error.
pub fn clean_message(prefix: &str, subject: &str, error: &str) -> (r: String)
    ensures
        r@ == prefix@ + subject@ + ": "@ + error@,
{
    let mut v = chars_of(prefix);
    extend_chars(&mut v, chars_of(subject).as_slice());
    extend_chars(&mut v, chars_of(": ").as_slice());
    extend_chars(&mut v, chars_of(error).as_slice());
    string_of(v.as_slice())
}

/// Counts a file that was removed, or that a dry run would remove: one more file and
/// `size` more bytes in the totals, under its root and under its file type; a dry run
/// counts it as skipped, a real run as deleted.
pub fn record_cleaned_file(report: &mut ModuleReport, root_label: &str, file_path: &str, size: u64, dry_run: bool)
    requires
        old(report).files_touched < u64::MAX,
        old(report).bytes_freed + size <= u64::MAX,
        dry_run ==> old(report).skipped_files_count < u64::MAX,
        !dry_run ==> old(report).deleted_files_count < u64::MAX,
        unique_keys(type_keys(old(report).per_file_type@)),
        type_stats(old(report).per_file_type@, spec_file_type_key(file_path@)) matches Some((f, b))
            ==> f + 1 <= u64::MAX && b + size <= u64::MAX,
        unique_keys(root_keys(old(report).per_root_path@)),
        root_stats(old(report).per_root_path@, root_label@) matches Some((f, b)) ==> f + 1
            <= u64::MAX && b + size <= u64::MAX,
    ensures
        final(report).files_touched == old(report).files_touched + 1,
        final(report).bytes_freed == old(report).bytes_freed + size,
        final(report).skipped_files_count == old(report).skipped_files_count + (if dry_run { 1int } else { 0int }),
        final(report).deleted_files_count == old(report).deleted_files_count + (if dry_run { 0int } else { 1int }),
        unique_keys(type_keys(final(report).per_file_type@)),
        type_stats(final(report).per_file_type@, spec_file_type_key(file_path@)) matches Some((f, b))
            && (f as int, b as int) == bumped(
            type_stats(old(report).per_file_type@, spec_file_type_key(file_path@)),
            size,
        ),
        forall|k: Seq<char>|
            k != spec_file_type_key(file_path@) ==> type_stats(final(report).per_file_type@, k)
                == type_stats(old(report).per_file_type@, k),
        unique_keys(root_keys(final(report).per_root_path@)),
        root_stats(final(report).per_root_path@, root_label@) matches Some((f, b)) && (f as int,
        b as int) == bumped(root_stats(old(report).per_root_path@, root_label@), size),
        forall|k: Seq<char>|
            k != root_label@ ==> root_stats(final(report).per_root_path@, k) == root_stats(
                old(report).per_root_path@,
                k,
            ),
        *final(report) == (ModuleReport {
            files_touched: final(report).files_touched,
            bytes_freed: final(report).bytes_freed,
            skipped_files_count: final(report).skipped_files_count,
            deleted_files_count: final(report).deleted_files_count,
            per_file_type: final(report).per_file_type,
            per_root_path: final(report).per_root_path,
            ..*old(report)
        }),
        forall|ft: String| ft@ == spec_file_type_key(file_path@) ==> #[trigger] clean_step(*old(report), root_label@, dry_run, CleanEvent::Cleaned(size, ft), *final(report)),
{
    if dry_run {
        report.skipped_files_count = report.skipped_files_count + 1;
    } else {
        report.deleted_files_count = report.deleted_files_count + 1;
    }
    report.files_touched = report.files_touched + 1;
    report.bytes_freed = report.bytes_freed + size;
    bump_type_stats(report, file_path, size);
    crate::cleaner::reports::bump_root_stats(report, root_label, size);
}

/// The candidates of a listing come largest first, and every non-empty file or directory
/// found under the roots is among them exactly once per time it was found.
pub proof fn law_candidates_sorted_and_complete(table: Seq<CachePath>, roots: Seq<(Seq<char>, Seq<EntryFacts>)>)
    ensures
        sorted_desc(sort_desc(found_all(table, roots))),
        sort_desc(found_all(table, roots)).to_multiset() == found_all(table, roots).to_multiset(),
{
    lemma_sort_desc_sorted(found_all(table, roots));
    lemma_sort_desc_permutes(found_all(table, roots));
}

/// A path that passes the checks is safe to delete: it exists, is no symbolic link, is
/// not a system directory, lies under an allowed root and is not a root itself; and what
/// is deleted is its canonical form.
pub proof fn law_validated_targets_are_safe(
    raw: Seq<char>,
    exists: bool,
    is_symlink: Result<bool, Seq<char>>,
    canonical: Result<Seq<char>, Seq<char>>,
    roots: Seq<Seq<char>>,
)
    ensures
        spec_validate_delete_target(raw, exists, is_symlink, canonical, roots) matches Ok(c) ==> {
            &&& raw.len() > 0
            &&& exists
            &&& is_symlink == Ok::<bool, Seq<char>>(false)
            &&& canonical == Ok::<Seq<char>, Seq<char>>(c)
            &&& !spec_is_dangerous(c)
            &&& under_some_root(c, roots)
            &&& !is_some_root(c, roots)
        },
{
}


proof fn lemma_category_names_differ(c1: CacheCategory, c2: CacheCategory)
    ensures
        spec_category_key(c1) == spec_category_key(c2) ==> c1 == c2,
{
    reveal_strlit("system");
    reveal_strlit("user");
    reveal_strlit("browser");
    reveal_strlit("devtools");
    reveal_strlit("package_manager");
    reveal_strlit("desktop_env");
    if spec_category_key(c1) == spec_category_key(c2) && c1 != c2 {
        let a = spec_category_key(c1);
        let b = spec_category_key(c2);
        assert(a.len() == b.len() && a[0] == b[0]);
        if a.len() == 8 {
            assert(a[1] == b[1]);
        }
    }
}

/// The names under which the cache categories are reported: system, user, browser,
/// devtools, package_manager and desktop_env, one each and all different; a configuration
/// selects a category's name exactly when it enables that category; and a root of a
/// cache table is filed under the name of its category (the first row with its pattern
/// decides).
pub proof fn law_category_names(c1: CacheCategory, c2: CacheCategory, cfg: crate::cleaner::config::CleanerConfig, t: Seq<CachePath>, i: int)
    ensures
        spec_category_key(CacheCategory::System) == "system"@,
        spec_category_key(CacheCategory::User) == "user"@,
        spec_category_key(CacheCategory::Browser) == "browser"@,
        spec_category_key(CacheCategory::DevTools) == "devtools"@,
        spec_category_key(CacheCategory::PackageManager) == "package_manager"@,
        spec_category_key(CacheCategory::DesktopEnv) == "desktop_env"@,
        spec_category_key(c1) == spec_category_key(c2) ==> c1 == c2,
        crate::cleaner::config::spec_selected_categories(cfg).contains(spec_category_key(c1))
            <==> crate::cleaner::cache_paths::category_enabled(cfg, c1),
        0 <= i < t.len() && (forall|j: int| 0 <= j < i ==> (#[trigger] t[j]).pattern@ != t[i].pattern@)
            ==> spec_root_category(t, t[i].pattern@) == spec_category_key(t[i].category),
{
    lemma_category_names_differ(c1, c2);
    lemma_selected_names(cfg, c1);
    if 0 <= i < t.len() && (forall|j: int| 0 <= j < i ==> (#[trigger] t[j]).pattern@ != t[i].pattern@) {
        lemma_root_category_first(t, i);
    }
}

proof fn lemma_concat_contains(a: Seq<Seq<char>>, b: Seq<Seq<char>>, x: Seq<char>)
    ensures
        (a + b).contains(x) <==> a.contains(x) || b.contains(x),
{
    if (a + b).contains(x) {
        let i = choose|i: int| 0 <= i < (a + b).len() && (a + b)[i] == x;
        if i < a.len() {
            assert(a[i] == x);
        } else {
            assert(b[i - a.len()] == x);
        }
    }
    if a.contains(x) {
        let i = choose|i: int| 0 <= i < a.len() && a[i] == x;
        assert((a + b)[i] == x);
    }
    if b.contains(x) {
        let i = choose|i: int| 0 <= i < b.len() && b[i] == x;
        assert((a + b)[i + a.len()] == x);
    }
}

proof fn lemma_if_on_contains(on: bool, name: Seq<char>, x: Seq<char>)
    ensures
        crate::cleaner::config::if_on(on, name).contains(x) <==> (on && name == x),
{
    if on {
        assert(crate::cleaner::config::if_on(on, name)[0] == name);
    }
}

proof fn lemma_selected_names(cfg: crate::cleaner::config::CleanerConfig, c: CacheCategory)
    ensures
        crate::cleaner::config::spec_selected_categories(cfg).contains(spec_category_key(c))
            <==> crate::cleaner::cache_paths::category_enabled(cfg, c),
{
    let k = spec_category_key(c);
    let p0 = crate::cleaner::config::if_on(cfg.enable_system_cache, "system"@);
    let p1 = crate::cleaner::config::if_on(cfg.enable_user_cache, "user"@);
    let p2 = crate::cleaner::config::if_on(cfg.enable_browser_cache, "browser"@);
    let p3 = crate::cleaner::config::if_on(cfg.enable_dev_cache, "devtools"@);
    let p4 = crate::cleaner::config::if_on(cfg.enable_package_cache, "package_manager"@);
    let p5 = crate::cleaner::config::if_on(cfg.enable_desktop_cache, "desktop_env"@);
    lemma_concat_contains(p0, p1, k);
    lemma_concat_contains(p0 + p1, p2, k);
    lemma_concat_contains(p0 + p1 + p2, p3, k);
    lemma_concat_contains(p0 + p1 + p2 + p3, p4, k);
    lemma_concat_contains(p0 + p1 + p2 + p3 + p4, p5, k);
    lemma_if_on_contains(cfg.enable_system_cache, "system"@, k);
    lemma_if_on_contains(cfg.enable_user_cache, "user"@, k);
    lemma_if_on_contains(cfg.enable_browser_cache, "browser"@, k);
    lemma_if_on_contains(cfg.enable_dev_cache, "devtools"@, k);
    lemma_if_on_contains(cfg.enable_package_cache, "package_manager"@, k);
    lemma_if_on_contains(cfg.enable_desktop_cache, "desktop_env"@, k);
    lemma_category_names_differ(c, CacheCategory::System);
    lemma_category_names_differ(c, CacheCategory::User);
    lemma_category_names_differ(c, CacheCategory::Browser);
    lemma_category_names_differ(c, CacheCategory::DevTools);
    lemma_category_names_differ(c, CacheCategory::PackageManager);
    lemma_category_names_differ(c, CacheCategory::DesktopEnv);
}

proof fn lemma_root_category_first(t: Seq<CachePath>, i: int)
    requires
        0 <= i < t.len(),
        forall|j: int| 0 <= j < i ==> (#[trigger] t[j]).pattern@ != t[i].pattern@,
    ensures
        spec_root_category(t, t[i].pattern@) == spec_category_key(t[i].category),
    decreases i,
{
    if i > 0 {
        let d = t.drop_first();
        assert forall|j: int| 0 <= j < i - 1 implies (#[trigger] d[j]).pattern@ != d[i - 1].pattern@ by {
            assert(d[j] == t[j + 1] && d[i - 1] == t[i]);
        }
        lemma_root_category_first(d, i - 1);
        assert(d[i - 1] == t[i]);
        assert(t[0].pattern@ != t[i].pattern@);
    }
}

} // verus!
