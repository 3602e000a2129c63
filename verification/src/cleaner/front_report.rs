//! The summary of a cleaning run that the desktop application shows.
use vstd::prelude::*;
use crate::text::{chars_of, contains, extend_chars, find, find_char, find_char_exec, find_seq, has_infix, has_prefix, is_ws, join_seq, lemma_find_char_from_some, lemma_find_first, lemma_trim_end_at, lemma_trim_noop, lemma_trim_shape, lemma_trim_start_at, lemma_trim_start_noop, occurs_at, starts_with_lit, string_of, sub_chars, trim_chars, trim_end_seq, trim_seq, lemma_find_from_some};
use crate::cleaner::docker::{docker_action, spec_action_line};

verus! {

/// A `docker` command as the front end lists it.
pub struct FrontCleanerAction {
    pub name: String,
    pub command: String,
    pub enabled: bool,
    pub status: String,
    pub reason: String,
}

/// The fields of a plan line: name, command, enabled, status and reason.
pub type ActionFields = (Seq<char>, Seq<char>, bool, Seq<char>, Seq<char>);

/// The status word of a command part.
pub open spec fn status_word(enabled: bool, disabled: bool) -> Seq<char> {
    if enabled {
        "enabled"@
    } else if disabled {
        "disabled"@
    } else {
        "unknown"@
    }
}

/// The command part and reason of what follows `: docker `: cut at the first ` - `.
pub open spec fn command_and_reason(rest: Seq<char>) -> (Seq<char>, Seq<char>) {
    match find_seq(rest, " - "@) {
        Some(j) => (trim_seq(rest.take(j)), trim_seq(rest.skip(j + 3))),
        None => (trim_seq(rest), Seq::empty()),
    }
}

/// The command of a command part: what precedes its first `[`, trimmed.
pub open spec fn command_of(cp: Seq<char>) -> Seq<char> {
    match find_char(cp, '[') {
        Some(k) => trim_seq(cp.take(k)),
        None => trim_seq(cp),
    }
}

/// How a plan line of the Docker module reads back: a line `- <name>: docker <rest>` gives
/// the trimmed name, `docker ` and the command, whether `[enabled]` / `[disabled]` appear
/// in the command part, and the trimmed reason after ` - `.
pub open spec fn spec_parse_action_line(line: Seq<char>) -> Option<ActionFields> {
    if !has_prefix(line, "- "@) || !has_infix(line, ": docker "@) {
        None
    } else {
        let l = line.skip(2);
        match find_seq(l, ": docker "@) {
            None => None,
            Some(i) => {
                let (cp, reason) = command_and_reason(l.skip(i + 9));
                let enabled = has_infix(cp, "[enabled]"@);
                let disabled = has_infix(cp, "[disabled]"@);
                Some(
                    (
                        trim_seq(l.take(i)),
                        "docker "@ + command_of(cp),
                        enabled,
                        status_word(enabled, disabled),
                        reason,
                    ),
                )
            },
        }
    }
}

/// The fields of a parsed action.
pub open spec fn action_fields(a: FrontCleanerAction) -> ActionFields {
    (a.name@, a.command@, a.enabled, a.status@, a.reason@)
}

/// Reads one line of the Docker module's plan.
pub fn parse_docker_action_line(line: &str) -> (r: Option<FrontCleanerAction>)
    ensures
        match r {
            Some(a) => spec_parse_action_line(line@) == Some(action_fields(a)),
            None => spec_parse_action_line(line@) is None,
        },
{
    let v = chars_of(line);
    let marker = chars_of(": docker ");
    if !starts_with_lit(v.as_slice(), "- ") || !contains(v.as_slice(), marker.as_slice()) {
        return None;
    }
    proof {
        reveal_strlit("- ");
        reveal_strlit(": docker ");
        reveal_strlit(" - ");
    }
    let l = sub_chars(v.as_slice(), 2, v.len());
    assert(l@ =~= line@.skip(2));
    let i = match find(l.as_slice(), marker.as_slice()) {
        Some(i) => i,
        None => return None,
    };
    proof {
        lemma_find_from_some(l@, marker@, 0);
    }
    let name = sub_chars(l.as_slice(), 0, i);
    let rest = sub_chars(l.as_slice(), i + 9, l.len());
    assert(name@ =~= l@.take(i as int));
    assert(rest@ =~= l@.skip(i + 9));
    let sep = chars_of(" - ");
    let (cp, reason) = match find(rest.as_slice(), sep.as_slice()) {
        Some(j) => {
            proof {
                lemma_find_from_some(rest@, sep@, 0);
            }
            let a = sub_chars(rest.as_slice(), 0, j);
            let b = sub_chars(rest.as_slice(), j + 3, rest.len());
            assert(a@ =~= rest@.take(j as int));
            assert(b@ =~= rest@.skip(j + 3));
            (trim_chars(a.as_slice()), trim_chars(b.as_slice()))
        },
        None => (trim_chars(rest.as_slice()), Vec::new()),
    };
    let enabled = contains(cp.as_slice(), chars_of("[enabled]").as_slice());
    let disabled = contains(cp.as_slice(), chars_of("[disabled]").as_slice());
    let cmd_raw = match find_char_exec(cp.as_slice(), '[') {
        Some(k) => {
            proof {
                crate::text::lemma_find_char_from_some(cp@, '[', 0);
            }
            sub_chars(cp.as_slice(), 0, k)
        },
        None => sub_chars(cp.as_slice(), 0, cp.len()),
    };
    proof {
        assert(cp@.take(cp@.len() as int) =~= cp@);
    }
    let cmd = trim_chars(cmd_raw.as_slice());
    let mut command = chars_of("docker ");
    extend_chars(&mut command, cmd.as_slice());
    let status = if enabled {
        chars_of("enabled")
    } else if disabled {
        chars_of("disabled")
    } else {
        chars_of("unknown")
    };
    Some(FrontCleanerAction {
        name: string_of(trim_chars(name.as_slice()).as_slice()),
        command: string_of(command.as_slice()),
        enabled,
        status: string_of(status.as_slice()),
        reason: string_of(reason.as_slice()),
    })
}

} // verus!

verus! {

use crate::cleaner::reports::{ModuleReport, GlobalReport, PathStats, TypeStats};
use crate::sorting::{sort_desc, stable_sort_desc};
use crate::text::{eq_lit, views};

/// How many entries the top lists keep.
pub const TOP_LIMIT: usize = 10;

/// How many warnings a module preview keeps.
pub const WARNINGS_PREVIEW_LIMIT: usize = 5;

/// How many errors a module preview keeps.
pub const ERRORS_PREVIEW_LIMIT: usize = 5;

/// The totals of a run.
pub struct FrontCleanerSummary {
    pub dry_run: bool,
    pub total_reclaimable_bytes: u64,
    pub total_files_touched: u64,
    pub total_warnings: u64,
    pub total_errors: u64,
    pub total_permission_denied: u64,
    pub duration_ms: u128,
}

/// What the run was asked to clean.
pub struct FrontCleanerSelectedScope {
    pub profile: String,
    pub enabled_categories: Vec<String>,
    pub dry_run: bool,
}

/// Where the run comes from.
pub struct FrontCleanerMetadata {
    pub run_id: String,
    pub generated_at: String,
    pub plugin_name: String,
    pub plugin_version: String,
}

/// A line of a top list.
pub struct FrontCleanerStatEntry {
    pub name: String,
    pub files_touched: u64,
    pub bytes: u64,
}

/// One module as the front end shows it.
pub struct FrontCleanerModule {
    pub id: String,
    pub label: String,
    pub reclaimable_bytes: u64,
    pub files_touched: u64,
    pub duration_ms: u128,
    pub warnings_count: u64,
    pub errors_count: u64,
    pub permission_denied: u64,
    pub candidate_files_count: u64,
    pub deleted_files_count: u64,
    pub skipped_files_count: u64,
    pub warnings_preview: Vec<String>,
    pub warnings_truncated: bool,
    pub errors_preview: Vec<String>,
    pub errors_truncated: bool,
    pub top_root_paths: Vec<FrontCleanerStatEntry>,
    pub top_file_types: Vec<FrontCleanerStatEntry>,
    pub actions: Vec<FrontCleanerAction>,
}

/// The whole front-end payload.
pub struct FrontCleanerPayload {
    pub summary: FrontCleanerSummary,
    pub modules: Vec<FrontCleanerModule>,
    pub selected_scope: FrontCleanerSelectedScope,
    pub metadata: FrontCleanerMetadata,
}

/// The human label of a module id.
pub open spec fn spec_module_label(id: Seq<char>) -> Seq<char> {
    if id == "cache"@ {
        "Cache Cleaner"@
    } else if id == "docker"@ {
        "Docker Cleaner"@
    } else if id == "logs"@ {
        "Logs Cleaner"@
    } else if id == "packages"@ {
        "Packages Cleaner"@
    } else if id == "bigfiles"@ {
        "Big Files Scanner"@
    } else {
        "Cleaner Module"@
    }
}

/// The human label of a module id.
pub fn module_label(module_id: &str) -> (r: String)
    ensures
        r@ == spec_module_label(module_id@),
{
    let id = chars_of(module_id);
    let s = if eq_lit(id.as_slice(), "cache") {
        chars_of("Cache Cleaner")
    } else if eq_lit(id.as_slice(), "docker") {
        chars_of("Docker Cleaner")
    } else if eq_lit(id.as_slice(), "logs") {
        chars_of("Logs Cleaner")
    } else if eq_lit(id.as_slice(), "packages") {
        chars_of("Packages Cleaner")
    } else if eq_lit(id.as_slice(), "bigfiles") {
        chars_of("Big Files Scanner")
    } else {
        chars_of("Cleaner Module")
    };
    string_of(s.as_slice())
}

/// The actions read from the lines that parse as plan lines, in order.
pub open spec fn spec_docker_actions(lines: Seq<Seq<char>>) -> Seq<ActionFields>
    decreases lines.len(),
{
    if lines.len() == 0 {
        Seq::empty()
    } else {
        match spec_parse_action_line(lines.last()) {
            Some(a) => spec_docker_actions(lines.drop_last()).push(a),
            None => spec_docker_actions(lines.drop_last()),
        }
    }
}

/// The Docker actions listed among a module's warnings.
pub fn extract_docker_actions(warnings: &[String]) -> (r: Vec<FrontCleanerAction>)
    ensures
        r@.map_values(|a: FrontCleanerAction| action_fields(a)) == spec_docker_actions(
            views(warnings@),
        ),
{
    let mut r: Vec<FrontCleanerAction> = Vec::new();
    let mut i: usize = 0;
    while i < warnings.len()
        invariant
            0 <= i <= warnings@.len(),
            r@.map_values(|a: FrontCleanerAction| action_fields(a)) == spec_docker_actions(
                views(warnings@).take(i as int),
            ),
        decreases warnings@.len() - i,
    {
        let ghost before = r@;
        proof {
            assert(views(warnings@).take(i + 1).drop_last() =~= views(warnings@).take(i as int));
            assert(views(warnings@).take(i + 1).last() == warnings@[i as int]@);
        }
        match parse_docker_action_line(warnings[i].as_str()) {
            Some(a) => {
                r.push(a);
                proof {
                    assert(r@.map_values(|a: FrontCleanerAction| action_fields(a)) =~= before.map_values(
                        |a: FrontCleanerAction| action_fields(a),
                    ).push(action_fields(r@.last())));
                }
            },
            None => {},
        }
        i += 1;
    }
    assert(views(warnings@).take(warnings@.len() as int) =~= views(warnings@));
    r
}

/// A row of a top list, paired with the key it is ordered by (its bytes).
pub open spec fn root_rows(t: Seq<(String, PathStats)>) -> Seq<((String, u64, u64), u64)> {
    t.map_values(
        |e: (String, PathStats)| ((e.0, e.1.files_touched, e.1.bytes_freed), e.1.bytes_freed),
    )
}

/// A row of a top list, paired with the key it is ordered by (its bytes).
pub open spec fn type_rows(t: Seq<(String, TypeStats)>) -> Seq<((String, u64, u64), u64)> {
    t.map_values(
        |e: (String, TypeStats)| ((e.0, e.1.files_touched, e.1.bytes_freed), e.1.bytes_freed),
    )
}

/// A file type is listed when it counts at least three files or one mebibyte.
pub open spec fn notable(row: ((String, u64, u64), u64)) -> bool {
    row.0.1 >= 3 || row.0.2 >= 1024 * 1024
}

/// The notable rows, in order.
pub open spec fn notable_rows(s: Seq<((String, u64, u64), u64)>) -> Seq<((String, u64, u64), u64)>
    decreases s.len(),
{
    if s.len() == 0 {
        Seq::empty()
    } else if notable(s.last()) {
        notable_rows(s.drop_last()).push(s.last())
    } else {
        notable_rows(s.drop_last())
    }
}

/// The first `n` elements (all when fewer).
pub open spec fn take_at_most<T>(s: Seq<T>, n: int) -> Seq<T> {
    if s.len() <= n {
        s
    } else {
        s.take(n)
    }
}

/// A stat entry shows a row.
pub open spec fn shows_row(e: FrontCleanerStatEntry, row: ((String, u64, u64), u64)) -> bool {
    e.name@ == row.0.0@ && e.files_touched == row.0.1 && e.bytes == row.0.2
}

/// The entries show the rows, one for one.
pub open spec fn shows_rows(es: Seq<FrontCleanerStatEntry>, rows: Seq<((String, u64, u64), u64)>) -> bool {
    es.len() == rows.len() && forall|i: int| 0 <= i < es.len() ==> #[trigger] shows_row(es[i], rows[i])
}

fn entries_of(rows: &Vec<((String, u64, u64), u64)>, limit: usize) -> (r: Vec<FrontCleanerStatEntry>)
    ensures
        shows_rows(r@, take_at_most(rows@, limit as int)),
{
    let mut r: Vec<FrontCleanerStatEntry> = Vec::new();
    let mut i: usize = 0;
    while i < rows.len() && i < limit
        invariant
            0 <= i <= rows@.len(),
            i <= limit,
            r@.len() == i,
            forall|j: int| 0 <= j < i ==> #[trigger] shows_row(r@[j], rows@[j]),
        decreases rows@.len() - i,
    {
        let row = &rows[i];
        r.push(FrontCleanerStatEntry { name: row.0.0.clone(), files_touched: row.0.1, bytes: row.0.2 });
        i += 1;
    }
    proof {
        let t = take_at_most(rows@, limit as int);
        assert forall|j: int| 0 <= j < r@.len() implies #[trigger] shows_row(r@[j], t[j]) by {
            assert(t[j] == rows@[j]);
        }
    }
    r
}

/// The roots that freed the most bytes, at most ten, largest first (ties keep the
/// table's order).
pub fn top_root_paths(module: &ModuleReport) -> (r: Vec<FrontCleanerStatEntry>)
    ensures
        shows_rows(r@, take_at_most(sort_desc(root_rows(module.per_root_path@)), TOP_LIMIT as int)),
{
    let mut rows: Vec<((String, u64, u64), u64)> = Vec::new();
    let mut i: usize = 0;
    while i < module.per_root_path.len()
        invariant
            0 <= i <= module.per_root_path@.len(),
            rows@ == root_rows(module.per_root_path@).take(i as int),
        decreases module.per_root_path@.len() - i,
    {
        let e = &module.per_root_path[i];
        rows.push(((e.0.clone(), e.1.files_touched, e.1.bytes_freed), e.1.bytes_freed));
        assert(rows@ =~= root_rows(module.per_root_path@).take(i + 1));
        i += 1;
    }
    assert(rows@ =~= root_rows(module.per_root_path@));
    let sorted = stable_sort_desc(rows);
    entries_of(&sorted, TOP_LIMIT)
}

/// The notable file types that freed the most bytes, at most ten, largest first.
pub fn top_file_types(module: &ModuleReport) -> (r: Vec<FrontCleanerStatEntry>)
    ensures
        shows_rows(
            r@,
            take_at_most(notable_rows(sort_desc(type_rows(module.per_file_type@))), TOP_LIMIT as int),
        ),
{
    let mut rows: Vec<((String, u64, u64), u64)> = Vec::new();
    let mut i: usize = 0;
    while i < module.per_file_type.len()
        invariant
            0 <= i <= module.per_file_type@.len(),
            rows@ == type_rows(module.per_file_type@).take(i as int),
        decreases module.per_file_type@.len() - i,
    {
        let e = &module.per_file_type[i];
        rows.push(((e.0.clone(), e.1.files_touched, e.1.bytes_freed), e.1.bytes_freed));
        assert(rows@ =~= type_rows(module.per_file_type@).take(i + 1));
        i += 1;
    }
    assert(rows@ =~= type_rows(module.per_file_type@));
    let sorted = stable_sort_desc(rows);
    let mut kept: Vec<((String, u64, u64), u64)> = Vec::new();
    let mut j: usize = 0;
    while j < sorted.len()
        invariant
            0 <= j <= sorted@.len(),
            kept@ == notable_rows(sorted@.take(j as int)),
        decreases sorted@.len() - j,
    {
        let row = &sorted[j];
        proof {
            assert(sorted@.take(j + 1).drop_last() =~= sorted@.take(j as int));
        }
        if row.0.1 >= 3 || row.0.2 >= 1024 * 1024 {
            kept.push(((row.0.0.clone(), row.0.1, row.0.2), row.1));
        }
        j += 1;
    }
    assert(sorted@.take(sorted@.len() as int) =~= sorted@);
    entries_of(&kept, TOP_LIMIT)
}

fn preview(items: &[String], limit: usize) -> (r: Vec<String>)
    ensures
        views(r@) == take_at_most(views(items@), limit as int),
{
    let mut r: Vec<String> = Vec::new();
    let mut i: usize = 0;
    while i < items.len() && i < limit
        invariant
            0 <= i <= items@.len(),
            i <= limit,
            r@.len() == i,
            views(r@) == views(items@).take(i as int),
        decreases items@.len() - i,
    {
        let ghost before = r@;
        let c = items[i].clone();
        assert(c@ == items@[i as int]@);
        r.push(c);
        assert(r@ == before.push(c));
        assert(views(r@) =~= views(items@).take(i + 1)) by {
            assert forall|k: int| 0 <= k < i + 1 implies views(r@)[k] == views(items@).take(i + 1)[k] by {
                if k < i {
                    assert(views(before)[k] == views(r@)[k]);
                }
            }
        }
        i += 1;
    }
    assert(views(items@).take(items@.len() as int) =~= views(items@));
    r
}

/// A front-end module describes a module report: its counts, the first five warnings
/// and errors (and whether more exist), its top roots and file types, and, for the Docker
/// module, the actions listed in its warnings.
pub open spec fn describes(f: FrontCleanerModule, m: ModuleReport) -> bool {
    &&& f.id@ == m.module_id@
    &&& f.label@ == spec_module_label(m.module_id@)
    &&& f.reclaimable_bytes == m.bytes_freed
    &&& f.files_touched == m.files_touched
    &&& f.duration_ms == m.duration_ms
    &&& f.warnings_count == m.warnings@.len()
    &&& f.errors_count == m.errors@.len()
    &&& f.permission_denied == m.permission_denied
    &&& f.candidate_files_count == m.candidate_files_count
    &&& f.deleted_files_count == m.deleted_files_count
    &&& f.skipped_files_count == m.skipped_files_count
    &&& views(f.warnings_preview@) == take_at_most(views(m.warnings@), WARNINGS_PREVIEW_LIMIT as int)
    &&& f.warnings_truncated == (m.warnings@.len() > WARNINGS_PREVIEW_LIMIT)
    &&& views(f.errors_preview@) == take_at_most(views(m.errors@), ERRORS_PREVIEW_LIMIT as int)
    &&& f.errors_truncated == (m.errors@.len() > ERRORS_PREVIEW_LIMIT)
    &&& shows_rows(f.top_root_paths@, take_at_most(sort_desc(root_rows(m.per_root_path@)), TOP_LIMIT as int))
    &&& shows_rows(
        f.top_file_types@,
        take_at_most(notable_rows(sort_desc(type_rows(m.per_file_type@))), TOP_LIMIT as int),
    )
    &&& f.actions@.map_values(|a: FrontCleanerAction| action_fields(a)) == (if m.module_id@ == "docker"@ {
        spec_docker_actions(views(m.warnings@))
    } else {
        Seq::empty()
    })
}

/// The front-end view of one module: its counts, the first five warnings and errors (and
/// whether more exist), its top roots and file types, and, for the Docker module, the
/// actions listed in its warnings.
pub fn build_front_module(module: &ModuleReport) -> (r: FrontCleanerModule)
    ensures
        describes(r, *module),
{
    let id = chars_of(module.module_id.as_str());
    let actions = if eq_lit(id.as_slice(), "docker") {
        extract_docker_actions(module.warnings.as_slice())
    } else {
        let v: Vec<FrontCleanerAction> = Vec::new();
        assert(v@.map_values(|a: FrontCleanerAction| action_fields(a)) =~= Seq::empty());
        v
    };
    FrontCleanerModule {
        id: module.module_id.clone(),
        label: module_label(module.module_id.as_str()),
        reclaimable_bytes: module.bytes_freed,
        files_touched: module.files_touched,
        duration_ms: module.duration_ms,
        warnings_count: module.warnings.len() as u64,
        errors_count: module.errors.len() as u64,
        permission_denied: module.permission_denied,
        candidate_files_count: module.candidate_files_count,
        deleted_files_count: module.deleted_files_count,
        skipped_files_count: module.skipped_files_count,
        warnings_preview: preview(module.warnings.as_slice(), WARNINGS_PREVIEW_LIMIT),
        warnings_truncated: module.warnings.len() > WARNINGS_PREVIEW_LIMIT,
        errors_preview: preview(module.errors.as_slice(), ERRORS_PREVIEW_LIMIT),
        errors_truncated: module.errors.len() > ERRORS_PREVIEW_LIMIT,
        top_root_paths: top_root_paths(module),
        top_file_types: top_file_types(module),
        actions,
    }
}

} // verus!

verus! {

use crate::cleaner::analysis::CleanerSelectionSummary;
use crate::text::clone_strings;

/// Each module paired with the key the front end orders it by (its freed bytes).
pub open spec fn module_order_rows(ms: Seq<(String, ModuleReport)>) -> Seq<(int, u64)> {
    Seq::new(ms.len(), |i: int| (i, ms[i].1.bytes_freed))
}

/// The front-end payload of a run: the run's totals, one entry per module ordered by
/// freed bytes, largest first (ties keep the report's order), the selected scope and the
/// run's metadata.
pub fn build_front_cleaner_payload(
    report: &GlobalReport,
    selected_scope: &CleanerSelectionSummary,
    metadata: FrontCleanerMetadata,
) -> (r: FrontCleanerPayload)
    ensures
        r.summary.dry_run == report.dry_run,
        r.summary.total_reclaimable_bytes == report.total_bytes_freed,
        r.summary.total_files_touched == report.total_files_touched,
        r.summary.total_warnings == report.total_warnings,
        r.summary.total_errors == report.total_errors,
        r.summary.total_permission_denied == report.total_permission_denied,
        r.summary.duration_ms == report.total_duration_ms,
        r.modules@.len() == report.per_module@.len(),
        forall|j: int|
            0 <= j < r.modules@.len() ==> describes(
                #[trigger] r.modules@[j],
                report.per_module@[sort_desc(module_order_rows(report.per_module@))[j].0].1,
            ),
        r.selected_scope.profile@ == selected_scope.profile@,
        views(r.selected_scope.enabled_categories@) == views(selected_scope.enabled_categories@),
        r.selected_scope.dry_run == selected_scope.dry_run,
        r.metadata == metadata,
{
    let n = report.per_module.len();
    let mut rows: Vec<(usize, u64)> = Vec::new();
    let mut i: usize = 0;
    while i < n
        invariant
            0 <= i <= n,
            n == report.per_module@.len(),
            rows@.len() == i,
            forall|k: int| 0 <= k < i ==> #[trigger] rows@[k].0 as int == k && rows@[k].1 == report.per_module@[k].1.bytes_freed,
        decreases n - i,
    {
        rows.push((i, report.per_module[i].1.bytes_freed));
        i += 1;
    }
    let sorted = stable_sort_desc(rows);
    proof {
        lemma_sort_desc_index_rows(rows@, report.per_module@);
    }
    let mut modules: Vec<FrontCleanerModule> = Vec::new();
    let mut j: usize = 0;
    while j < sorted.len()
        invariant
            0 <= j <= sorted@.len(),
            sorted@.len() == n,
            n == report.per_module@.len(),
            modules@.len() == j,
            forall|k: int| 0 <= k < sorted@.len() ==> #[trigger] sorted@[k].0 < n
                && sorted@[k].0 as int == sort_desc(module_order_rows(report.per_module@))[k].0,
            forall|k: int|
                0 <= k < j ==> describes(
                    #[trigger] modules@[k],
                    report.per_module@[sort_desc(module_order_rows(report.per_module@))[k].0].1,
                ),
        decreases sorted@.len() - j,
    {
        let idx = sorted[j].0;
        modules.push(build_front_module(&report.per_module[idx].1));
        j += 1;
    }
    FrontCleanerPayload {
        summary: FrontCleanerSummary {
            dry_run: report.dry_run,
            total_reclaimable_bytes: report.total_bytes_freed,
            total_files_touched: report.total_files_touched,
            total_warnings: report.total_warnings,
            total_errors: report.total_errors,
            total_permission_denied: report.total_permission_denied,
            duration_ms: report.total_duration_ms,
        },
        modules,
        selected_scope: FrontCleanerSelectedScope {
            profile: selected_scope.profile.clone(),
            enabled_categories: clone_strings(selected_scope.enabled_categories.as_slice()),
            dry_run: selected_scope.dry_run,
        },
        metadata,
    }
}

/// Sorting the index rows sorts the module order rows the same way.
proof fn lemma_sort_desc_index_rows(rows: Seq<(usize, u64)>, ms: Seq<(String, ModuleReport)>)
    requires
        rows.len() == ms.len(),
        forall|k: int| 0 <= k < rows.len() ==> #[trigger] rows[k].0 as int == k && rows[k].1 == ms[k].1.bytes_freed,
    ensures
        sort_desc(rows).len() == rows.len(),
        forall|k: int| 0 <= k < rows.len() ==> #[trigger] sort_desc(rows)[k].0 < rows.len()
            && sort_desc(rows)[k].0 as int == sort_desc(module_order_rows(ms))[k].0,
{
    let m = module_order_rows(ms);
    let f = |p: (usize, u64)| (p.0 as int, p.1);
    assert(rows.map_values(f) =~= m);
    crate::sorting::lemma_sort_desc_map(rows, f);
    crate::sorting::lemma_sort_desc_sorted(rows);
    crate::sorting::lemma_sort_desc_elems(rows);
}

} // verus!

verus! {

/// The plan word of an action's state.
pub open spec fn plan_word(enabled: bool) -> Seq<char> {
    if enabled {
        seq!['e', 'n', 'a', 'b', 'l', 'e', 'd']
    } else {
        seq!['d', 'i', 's', 'a', 'b', 'l', 'e', 'd']
    }
}

proof fn lemma_plan_word(enabled: bool)
    ensures
        plan_word(enabled) == (if enabled { "enabled"@ } else { "disabled"@ }),
        forall|j: int| 0 <= j < plan_word(enabled).len() ==> 'a' <= #[trigger] plan_word(enabled)[j] <= 'z',
        plan_word(enabled).len() >= 7,
        plan_word(enabled)[0] == (if enabled { 'e' } else { 'd' }),
{
    reveal_strlit("enabled");
    reveal_strlit("disabled");
    assert(plan_word(enabled) =~= (if enabled { "enabled"@ } else { "disabled"@ }));
}

/// The command part of a plan line: the argument text, a space, and the bracketed word.
pub open spec fn plan_command_part(j: Seq<char>, enabled: bool) -> Seq<char> {
    j + seq![' ', '['] + plan_word(enabled) + seq![']']
}

proof fn lemma_name_cut(name: Seq<char>, x: Seq<char>)
    requires
        forall|j: int| 0 <= j < name.len() ==> name[j] != ':',
    ensures
        find_seq(name + ": docker "@ + x, ": docker "@) == Some(name.len() as int),
{
    reveal_strlit(": docker ");
    let dk = ": docker "@;
    let l = name + dk + x;
    let n = name.len() as int;
    assert(l.subrange(n, n + 9) =~= dk);
    assert forall|k: int| 0 <= k < n implies !occurs_at(l, dk, k) by {
        if occurs_at(l, dk, k) {
            assert(l.subrange(k, k + 9)[0] == l[k]);
            assert(l[k] == name[k]);
        }
    }
    lemma_find_first(l, dk, n);
}

proof fn lemma_reason_cut(j: Seq<char>, enabled: bool, reason: Seq<char>)
    requires
        !has_infix(j + seq![' '], " - "@),
    ensures
        find_seq(plan_command_part(j, enabled) + " - "@ + reason, " - "@) == Some(
            plan_command_part(j, enabled).len() as int,
        ),
{
    reveal_strlit(" - ");
    lemma_plan_word(enabled);
    let w = plan_word(enabled);
    let sep = " - "@;
    let tt = plan_command_part(j, enabled);
    let rest = tt + sep + reason;
    let jl = j.len() as int;
    let wl = w.len() as int;
    let kk = tt.len() as int;
    let jp = j + seq![' '];
    assert(rest.subrange(kk, kk + 3) =~= sep);
    assert forall|k: int| 0 <= k < kk implies !occurs_at(rest, sep, k) by {
        if occurs_at(rest, sep, k) {
            assert(rest.subrange(k, k + 3)[0] == rest[k]);
            assert(rest.subrange(k, k + 3)[1] == rest[k + 1]);
            assert(rest.subrange(k, k + 3)[2] == rest[k + 2]);
            if k + 2 <= jl {
                assert(rest[k] == jp[k]);
                assert(rest[k + 1] == jp[k + 1]);
                assert(rest[k + 2] == jp[k + 2]);
                assert(jp.subrange(k, k + 3) =~= sep);
                assert(occurs_at(jp, sep, k));
            } else if k + 1 == jl {
                assert(rest[k + 1] == ' ');
            } else if k == jl {
                assert(rest[k + 1] == '[');
            } else if k == jl + 1 {
                assert(rest[k] == '[');
            } else if k < jl + 2 + wl {
                assert(rest[k] == w[k - jl - 2]);
            } else {
                assert(rest[k] == ']');
            }
        }
    }
    lemma_find_first(rest, sep, kk);
}

proof fn lemma_command_part(j: Seq<char>, enabled: bool)
    requires
        trim_seq(j) == j,
        forall|k: int| 0 <= k < j.len() ==> j[k] != '[',
    ensures
        command_of(trim_seq(plan_command_part(j, enabled))) == j,
        has_infix(trim_seq(plan_command_part(j, enabled)), "[enabled]"@) == enabled,
        has_infix(trim_seq(plan_command_part(j, enabled)), "[disabled]"@) == !enabled,
{
    reveal_strlit("[enabled]");
    reveal_strlit("[disabled]");
    lemma_plan_word(enabled);
    let w = plan_word(enabled);
    let tt = plan_command_part(j, enabled);
    let jl = j.len() as int;
    let wl = w.len() as int;
    let jp = j + seq![' '];
    let pre = if jl > 0 { jp } else { Seq::<char>::empty() };
    let cp = pre + seq!['['] + w + seq![']'];
    lemma_trim_shape(j);
    if jl > 0 {
        assert(tt =~= cp);
        assert(!is_ws(tt[0])) by {
            assert(tt[0] == j[0]);
        }
        assert(!is_ws(tt.last()));
        lemma_trim_noop(tt);
        lemma_trim_start_noop(jp);
        assert(jp[0] == j[0]);
        assert(!is_ws(jp[jl - 1])) by {
            assert(jp[jl - 1] == j.last());
        }
        lemma_trim_end_at(jp, jl);
        assert(jp.take(jl) =~= j);
        assert(trim_seq(pre) == j);
    } else {
        assert(j =~= Seq::<char>::empty());
        lemma_trim_start_at(tt, 1);
        assert(tt.subrange(1, tt.len() as int) =~= cp);
        assert(!is_ws(cp.last()));
        assert(trim_end_seq(cp) == cp);
        assert(trim_seq(pre) =~= j);
    }
    assert(trim_seq(tt) == cp);
    let p = pre.len() as int;
    assert forall|k: int| 0 <= k < cp.len() && k != p implies cp[k] != '[' by {
        if k < p {
            assert(cp[k] == pre[k]);
            if k < jl {
                assert(pre[k] == j[k]);
            }
        } else if k < p + 1 + wl {
            assert(cp[k] == w[k - p - 1]);
        } else {
            assert(cp[k] == ']');
        }
    }
    assert(cp[p] == '[');
    lemma_find_char_from_some(cp, '[', 0);
    assert(find_char(cp, '[') == Some(p));
    assert(cp.take(p) =~= pre);
    let en = "[enabled]"@;
    let dis = "[disabled]"@;
    if enabled {
        assert(cp.subrange(p, p + 9) =~= en);
        assert(occurs_at(cp, en, p));
        assert forall|k: int| !occurs_at(cp, dis, k) by {
            if occurs_at(cp, dis, k) {
                assert(cp.subrange(k, k + 10)[0] == cp[k]);
                assert(cp.subrange(k, k + 10)[1] == cp[k + 1]);
                assert(cp[p + 1] == w[0]);
            }
        }
    } else {
        assert(cp.subrange(p, p + 10) =~= dis);
        assert(occurs_at(cp, dis, p));
        assert forall|k: int| !occurs_at(cp, en, k) by {
            if occurs_at(cp, en, k) {
                assert(cp.subrange(k, k + 9)[0] == cp[k]);
                assert(cp.subrange(k, k + 9)[1] == cp[k + 1]);
                assert(cp[p + 1] == w[0]);
            }
        }
    }
}

/// The front end reads back a plan line of the Docker module: its name, its command, its
/// state and its reason, for an action whose name holds no `:`, whose argument text holds
/// no `[` and no ` - ` (nor ends with ` -`), and whose name, argument text and reason
/// neither start nor end with whitespace.
pub proof fn law_plan_line_reads_back(name: Seq<char>, args: Seq<Seq<char>>, enabled: bool, reason: Seq<char>)
    requires
        forall|j: int| 0 <= j < name.len() ==> name[j] != ':',
        trim_seq(name) == name,
        trim_seq(join_seq(args, seq![' '])) == join_seq(args, seq![' ']),
        forall|j: int| 0 <= j < join_seq(args, seq![' ']).len() ==> join_seq(args, seq![' '])[j] != '[',
        !has_infix(join_seq(args, seq![' ']) + seq![' '], " - "@),
        trim_seq(reason) == reason,
    ensures
        spec_parse_action_line(spec_action_line(name, args, enabled, reason)) == Some(
            (
                name,
                "docker "@ + join_seq(args, seq![' ']),
                enabled,
                (if enabled { "enabled"@ } else { "disabled"@ }),
                reason,
            ),
        ),
{
    reveal_strlit("- ");
    reveal_strlit(": docker ");
    reveal_strlit(" [");
    reveal_strlit("] - ");
    reveal_strlit(" - ");
    lemma_plan_word(enabled);
    let j = join_seq(args, seq![' ']);
    let line = spec_action_line(name, args, enabled, reason);
    let dk = ": docker "@;
    let sep = " - "@;
    let n = name.len() as int;
    let tt = plan_command_part(j, enabled);
    let x = tt + sep + reason;
    let l = name + dk + x;
    assert(line =~= seq!['-', ' '] + l);
    assert(line.take(2) =~= "- "@);
    assert(line.skip(2) =~= l);
    assert(line.subrange(n + 2, n + 11) =~= dk);
    assert(occurs_at(line, dk, n + 2));
    lemma_name_cut(name, x);
    assert(l.take(n) =~= name);
    assert(l.skip(n + 9) =~= x);
    lemma_reason_cut(j, enabled, reason);
    assert(x.take(tt.len() as int) =~= tt);
    assert(x.skip(tt.len() as int + 3) =~= reason);
    lemma_command_part(j, enabled);
}

} // verus!


verus! {

/// No character of the text is `c` (checked from the front).
pub open spec fn lacks_rec(s: Seq<char>, c: char) -> bool
    decreases s.len(),
{
    s.len() == 0 || (s[0] != c && lacks_rec(s.drop_first(), c))
}

proof fn lemma_lacks_rec(s: Seq<char>, c: char)
    requires
        lacks_rec(s, c),
    ensures
        forall|j: int| 0 <= j < s.len() ==> s[j] != c,
    decreases s.len(),
{
    if s.len() > 0 {
        lemma_lacks_rec(s.drop_first(), c);
        assert forall|j: int| 0 <= j < s.len() implies s[j] != c by {
            if j > 0 {
                assert(s[j] == s.drop_first()[j - 1]);
            }
        }
    }
}

/// No `-` of the text is followed by a space (checked from the front).
pub open spec fn no_dash_gap(s: Seq<char>) -> bool
    decreases s.len(),
{
    s.len() < 2 || (!(s[0] == '-' && s[1] == ' ') && no_dash_gap(s.drop_first()))
}

proof fn lemma_no_dash_gap(s: Seq<char>)
    requires
        no_dash_gap(s),
    ensures
        !has_infix(s, " - "@),
{
    lemma_no_dash_gap_at(s);
    reveal_strlit(" - ");
    if has_infix(s, " - "@) {
        let i = choose|i: int| occurs_at(s, " - "@, i);
        assert(s.subrange(i, i + 3)[1] == s[i + 1]);
        assert(s.subrange(i, i + 3)[2] == s[i + 2]);
    }
}

proof fn lemma_no_dash_gap_at(s: Seq<char>)
    requires
        no_dash_gap(s),
    ensures
        forall|k: int| 0 <= k && k + 1 < s.len() ==> !(#[trigger] s[k] == '-' && s[k + 1] == ' '),
    decreases s.len(),
{
    if s.len() >= 2 {
        lemma_no_dash_gap_at(s.drop_first());
        assert forall|k: int| 0 <= k && k + 1 < s.len() implies !(#[trigger] s[k] == '-' && s[k + 1] == ' ') by {
            if k > 0 {
                assert(s[k] == s.drop_first()[k - 1]);
                assert(s[k + 1] == s.drop_first()[k]);
            }
        }
    }
}

proof fn lemma_fixed_action_reads_back(name: Seq<char>, args: Seq<Seq<char>>, enabled: bool, reason: Seq<char>)
    requires
        lacks_rec(name, ':'),
        name.len() > 0 && !is_ws(name[0]) && !is_ws(name.last()),
        join_seq(args, seq![' ']).len() > 0,
        !is_ws(join_seq(args, seq![' '])[0]),
        !is_ws(join_seq(args, seq![' ']).last()),
        lacks_rec(join_seq(args, seq![' ']), '['),
        no_dash_gap(join_seq(args, seq![' ']) + seq![' ']),
        reason.len() > 0 && !is_ws(reason[0]) && !is_ws(reason.last()),
    ensures
        spec_parse_action_line(spec_action_line(name, args, enabled, reason)) == Some(
            (
                name,
                "docker "@ + join_seq(args, seq![' ']),
                enabled,
                (if enabled { "enabled"@ } else { "disabled"@ }),
                reason,
            ),
        ),
{
    let j = join_seq(args, seq![' ']);
    lemma_lacks_rec(name, ':');
    lemma_lacks_rec(j, '[');
    lemma_trim_noop(name);
    lemma_trim_noop(j);
    lemma_trim_noop(reason);
    lemma_no_dash_gap(j + seq![' ']);
    law_plan_line_reads_back(name, args, enabled, reason);
}

/// Every line of the Docker module's plan reads back as its action: the front end gets
/// each of the four actions' name, command (`docker` and its arguments), state and reason,
/// whether the action is enabled or not; the plan's heading is no action.
pub proof fn law_docker_plan_lines_read_back(k: int, enabled: bool)
    requires
        0 <= k < 4,
    ensures
        ({
            let (name, args, reason) = docker_action(k);
            spec_parse_action_line(spec_action_line(name, args, enabled, reason)) == Some(
                (
                    name,
                    "docker "@ + join_seq(args, seq![' ']),
                    enabled,
                    (if enabled { "enabled"@ } else { "disabled"@ }),
                    reason,
                ),
            )
        }),
        spec_parse_action_line("Docker action plan:"@) is None,
{
    reveal_strlit("Docker action plan:");
    reveal_strlit("- ");
    reveal_with_fuel(join_seq, 4);
    reveal_with_fuel(lacks_rec, 20);
    reveal_with_fuel(no_dash_gap, 20);
    reveal_strlit("prune");
    reveal_strlit("-f");
    let (name, args, reason) = docker_action(k);
    assert(args.drop_last() =~= seq![args[0], args[1]]);
    assert(seq![args[0], args[1]].drop_last() =~= seq![args[0]]);
    if k == 0 {
        reveal_strlit("Stopped containers");
        reveal_strlit("container");
        reveal_strlit("Remove stopped containers.");
        assert(name =~= seq!['S','t','o','p','p','e','d',' ','c','o','n','t','a','i','n','e','r','s']);
        assert(join_seq(args, seq![' ']) =~= seq!['c','o','n','t','a','i','n','e','r',' ','p','r','u','n','e',' ','-','f']);
        assert(reason[0] == 'R' && reason.last() == '.');
    } else if k == 1 {
        reveal_strlit("Dangling images");
        reveal_strlit("image");
        reveal_strlit("Remove dangling Docker images.");
        assert(name =~= seq!['D','a','n','g','l','i','n','g',' ','i','m','a','g','e','s']);
        assert(join_seq(args, seq![' ']) =~= seq!['i','m','a','g','e',' ','p','r','u','n','e',' ','-','f']);
        assert(reason[0] == 'R' && reason.last() == '.');
    } else if k == 2 {
        reveal_strlit("Build cache");
        reveal_strlit("builder");
        reveal_strlit("Remove unused Docker build cache.");
        assert(name =~= seq!['B','u','i','l','d',' ','c','a','c','h','e']);
        assert(join_seq(args, seq![' ']) =~= seq!['b','u','i','l','d','e','r',' ','p','r','u','n','e',' ','-','f']);
        assert(reason[0] == 'R' && reason.last() == '.');
    } else {
        reveal_strlit("Unused volumes");
        reveal_strlit("volume");
        reveal_strlit("Only enabled in full profile because volumes may contain persistent data.");
        assert(name =~= seq!['U','n','u','s','e','d',' ','v','o','l','u','m','e','s']);
        assert(join_seq(args, seq![' ']) =~= seq!['v','o','l','u','m','e',' ','p','r','u','n','e',' ','-','f']);
        assert(reason[0] == 'O' && reason.last() == '.');
    }
    lemma_fixed_action_reads_back(name, args, enabled, reason);
    let h = "Docker action plan:"@;
    assert(h.len() >= 2 ==> h.take(2)[0] == 'D');
    assert(!has_prefix(h, "- "@));
}


proof fn lemma_notable_rows(s: Seq<((String, u64, u64), u64)>)
    ensures
        notable_rows(s).len() <= s.len(),
        forall|x: ((String, u64, u64), u64)| #[trigger] notable_rows(s).contains(x) <==> (s.contains(x) && notable(x)),
    decreases s.len(),
{
    if s.len() > 0 {
        let d = s.drop_last();
        lemma_notable_rows(d);
        assert forall|x: ((String, u64, u64), u64)| #[trigger] notable_rows(s).contains(x) <==> (s.contains(x) && notable(x)) by {
            if s.contains(x) && notable(x) {
                let i = choose|i: int| 0 <= i < s.len() && s[i] == x;
                if i < d.len() {
                    assert(d[i] == x);
                    assert(d.contains(x));
                    assert(notable_rows(d).contains(x));
                    let k = choose|k: int| 0 <= k < notable_rows(d).len() && notable_rows(d)[k] == x;
                    if notable(s.last()) {
                        assert(notable_rows(s) == notable_rows(d).push(s.last()));
                        assert(notable_rows(s)[k] == x);
                    } else {
                        assert(notable_rows(s) == notable_rows(d));
                    }
                } else {
                    assert(notable_rows(s).last() == x);
                }
            }
            if notable_rows(s).contains(x) {
                let k = choose|k: int| 0 <= k < notable_rows(s).len() && notable_rows(s)[k] == x;
                if notable(s.last()) && k == notable_rows(s).len() - 1 {
                    assert(s[s.len() - 1] == x);
                } else {
                    assert(notable_rows(d)[k] == x);
                    assert(notable_rows(d).contains(x));
                    let i = choose|i: int| 0 <= i < d.len() && d[i] == x;
                    assert(s[i] == x);
                }
            }
        }
    }
}

proof fn lemma_sorted_rows_same_members(s: Seq<((String, u64, u64), u64)>)
    ensures
        sort_desc(s).len() == s.len(),
        forall|x: ((String, u64, u64), u64)| #[trigger] sort_desc(s).contains(x) <==> s.contains(x),
{
    crate::sorting::lemma_sort_desc_permutes(s);
    s.to_multiset_ensures();
    sort_desc(s).to_multiset_ensures();
    assert(sort_desc(s).len() == sort_desc(s).to_multiset().len());
    assert forall|x: ((String, u64, u64), u64)| #[trigger] sort_desc(s).contains(x) <==> s.contains(x) by {
        assert(sort_desc(s).contains(x) <==> sort_desc(s).to_multiset().count(x) > 0);
        assert(s.contains(x) <==> s.to_multiset().count(x) > 0);
    }
}

/// The top file types of a module's report keep exactly the notable types: every row
/// shown counts at least three files or at least 1 MiB (1048576 bytes) and is one of the
/// module's types; at most ten rows are shown; and when the module has at most ten types,
/// every type with at least three files or at least 1 MiB is shown.
pub proof fn law_top_file_types_keep_the_notable_types(t: Seq<(String, TypeStats)>)
    ensures
        ({
            let rows = take_at_most(notable_rows(sort_desc(type_rows(t))), 10);
            &&& rows.len() <= 10
            &&& forall|k: int| 0 <= k < rows.len() ==> (#[trigger] rows[k]).0.1 >= 3 || rows[k].0.2 >= 1048576
            &&& forall|k: int| 0 <= k < rows.len() ==> type_rows(t).contains(#[trigger] rows[k])
            &&& t.len() <= 10 ==> forall|i: int| 0 <= i < t.len() && ((#[trigger] t[i]).1.files_touched >= 3
                || t[i].1.bytes_freed >= 1048576) ==> rows.contains(type_rows(t)[i])
        }),
{
    let all = type_rows(t);
    let sorted = sort_desc(all);
    let kept = notable_rows(sorted);
    let rows = take_at_most(kept, 10);
    lemma_sorted_rows_same_members(all);
    lemma_notable_rows(sorted);
    assert forall|k: int| 0 <= k < rows.len() implies (#[trigger] rows[k]).0.1 >= 3 || rows[k].0.2 >= 1048576 by {
        assert(rows[k] == kept[k]);
        assert(kept.contains(kept[k]));
    }
    assert forall|k: int| 0 <= k < rows.len() implies all.contains(#[trigger] rows[k]) by {
        assert(rows[k] == kept[k]);
        assert(kept.contains(kept[k]));
    }
    if t.len() <= 10 {
        assert(rows == kept);
        assert forall|i: int| 0 <= i < t.len() && ((#[trigger] t[i]).1.files_touched >= 3
            || t[i].1.bytes_freed >= 1048576) implies rows.contains(all[i]) by {
            assert(all[i] == ((t[i].0, t[i].1.files_touched, t[i].1.bytes_freed), t[i].1.bytes_freed));
            assert(all.contains(all[i]));
            assert(sorted.contains(all[i]));
            assert(notable(all[i]));
            assert(kept.contains(all[i]));
        }
    }
}

} // verus!
