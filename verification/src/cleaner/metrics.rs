//! The labels and error tallies of the cleaner's metrics export.
use vstd::prelude::*;
use crate::text::{chars_of, contains, extend_chars, has_infix, has_prefix, lowercase_chars, spec_to_lowercase, starts_with_lit, string_of};
use crate::cleaner::reports::{GlobalReport, ModuleReport};

verus! {

/// The labels of a metrics export.
pub struct CleanerMetricsLabels {
    pub scenario: String,
    pub version: String,
    pub mode: String,
    pub plugin: String,
    pub timestamp: String,
}

/// The error type of a lowercased error message.
pub open spec fn classify_lower(n: Seq<char>) -> int {
    if has_infix(n, "permission denied"@) || has_infix(n, "access denied"@) {
        4
    } else if has_infix(n, "not found"@) || has_infix(n, "no such file"@) || has_infix(
        n,
        "does not exist"@,
    ) {
        0
    } else if has_infix(n, "timed out"@) || has_infix(n, "timeout"@) {
        5
    } else if has_infix(n, "invalid input"@) || has_infix(n, "invalid data"@) {
        1
    } else if has_infix(n, "io error"@) || has_infix(n, "i/o error"@) {
        2
    } else {
        3
    }
}

/// The error types, in the order in which the export lists them.
pub open spec fn error_type_name(t: int) -> Seq<char> {
    if t == 0 {
        "file_not_found"@
    } else if t == 1 {
        "invalid_input"@
    } else if t == 2 {
        "io_error"@
    } else if t == 3 {
        "module_error"@
    } else if t == 4 {
        "permission_denied"@
    } else {
        "timed_out"@
    }
}

/// The error type of a message, as an index of `error_type_name`.
pub open spec fn spec_classify(error: Seq<char>) -> int {
    classify_lower(spec_to_lowercase(error))
}

fn contains_lit(v: &[char], lit: &str) -> (r: bool)
    ensures
        r == has_infix(v@, lit@),
{
    contains(v, chars_of(lit).as_slice())
}

/// The index of an error message's type.
pub fn classify_error_index(error: &str) -> (r: usize)
    ensures
        r as int == spec_classify(error@),
        r < 6,
{
    let n = lowercase_chars(chars_of(error).as_slice());
    let v = n.as_slice();
    if contains_lit(v, "permission denied") || contains_lit(v, "access denied") {
        4
    } else if contains_lit(v, "not found") || contains_lit(v, "no such file") || contains_lit(
        v,
        "does not exist",
    ) {
        0
    } else if contains_lit(v, "timed out") || contains_lit(v, "timeout") {
        5
    } else if contains_lit(v, "invalid input") || contains_lit(v, "invalid data") {
        1
    } else if contains_lit(v, "io error") || contains_lit(v, "i/o error") {
        2
    } else {
        3
    }
}

/// The name of an error type.
pub fn error_type_label(t: usize) -> (r: String)
    requires
        t < 6,
    ensures
        r@ == error_type_name(t as int),
{
    let s = if t == 0 {
        chars_of("file_not_found")
    } else if t == 1 {
        chars_of("invalid_input")
    } else if t == 2 {
        chars_of("io_error")
    } else if t == 3 {
        chars_of("module_error")
    } else if t == 4 {
        chars_of("permission_denied")
    } else {
        chars_of("timed_out")
    };
    string_of(s.as_slice())
}

/// The type of an error message: permission problems, missing files, time-outs, invalid
/// input and I/O errors, checked in that order on the lowercased message, else a module
/// error.
pub fn classify_error_message(error: &str) -> (r: String)
    ensures
        r@ == error_type_name(spec_classify(error@)),
{
    error_type_label(classify_error_index(error))
}

/// The version label: the package version, prefixed with `v` unless it has one.
pub fn default_version_label(version: &str) -> (r: String)
    ensures
        r@ == (if has_prefix(version@, "v"@) {
            version@
        } else {
            "v"@ + version@
        }),
{
    let v = chars_of(version);
    if starts_with_lit(v.as_slice(), "v") {
        string_of(v.as_slice())
    } else {
        let mut r = chars_of("v");
        extend_chars(&mut r, v.as_slice());
        string_of(r.as_slice())
    }
}

/// The mode label: `safe` for a dry run, else `aggressive`.
pub fn default_mode_label(dry_run: bool) -> (r: String)
    ensures
        r@ == (if dry_run {
            "safe"@
        } else {
            "aggressive"@
        }),
{
    if dry_run {
        string_of(chars_of("safe").as_slice())
    } else {
        string_of(chars_of("aggressive").as_slice())
    }
}

/// How many of the messages are of type `t`.
pub open spec fn count_type(errors: Seq<String>, t: int) -> nat
    decreases errors.len(),
{
    if errors.len() == 0 {
        0
    } else {
        count_type(errors.drop_last(), t) + (if spec_classify(errors.last()@) == t {
            1nat
        } else {
            0nat
        })
    }
}

/// What a module adds to the tally of type `t`: its messages of that type, and for
/// permission problems also the permission denials its messages do not account for.
pub open spec fn module_tally(m: ModuleReport, t: int) -> nat {
    let c = count_type(m.errors@, t);
    if t == 4 && m.permission_denied > c {
        m.permission_denied as nat
    } else {
        c
    }
}

/// The tally of type `t` over modules.
pub open spec fn tally(ms: Seq<(String, ModuleReport)>, t: int) -> nat
    decreases ms.len(),
{
    if ms.len() == 0 {
        0
    } else {
        tally(ms.drop_last(), t) + module_tally(ms.last().1, t)
    }
}

/// The nonzero tallies in the order of the error types.
pub open spec fn tally_entries(ms: Seq<(String, ModuleReport)>, upto: int) -> Seq<(Seq<char>, nat)>
    decreases upto,
{
    if upto <= 0 {
        Seq::empty()
    } else {
        let rest = tally_entries(ms, upto - 1);
        let c = tally(ms, upto - 1);
        if c > 0 {
            rest.push((error_type_name(upto - 1), c))
        } else {
            rest
        }
    }
}

proof fn lemma_count_type_bound(errors: Seq<String>, t: int)
    ensures
        count_type(errors, t) <= errors.len(),
    decreases errors.len(),
{
    if errors.len() > 0 {
        lemma_count_type_bound(errors.drop_last(), t);
    }
}

/// The errors of the run tallied by type, in the order file_not_found, invalid_input,
/// io_error, module_error, permission_denied, timed_out, with the types of zero count
/// left out. Permission denials that a module counted beyond its messages count too.
pub fn errors_by_type(report: &GlobalReport) -> (r: Vec<(String, u64)>)
    requires
        forall|t: int| 0 <= t < 6 ==> tally(report.per_module@, t) <= u64::MAX,
    ensures
        r@.map_values(|e: (String, u64)| (e.0@, e.1 as nat)) == tally_entries(report.per_module@, 6),
{
    let mut counts: Vec<u64> = vec![0, 0, 0, 0, 0, 0];
    let mut i: usize = 0;
    let ghost ms = report.per_module@;
    while i < report.per_module.len()
        invariant
            0 <= i <= ms.len(),
            ms == report.per_module@,
            counts@.len() == 6,
            forall|t: int| 0 <= t < 6 ==> tally(ms, t) <= u64::MAX,
            forall|t: int| 0 <= t < 6 ==> #[trigger] counts@[t] == tally(ms.take(i as int), t),
        decreases ms.len() - i,
    {
        let m = &report.per_module[i].1;
        proof {
            assert(ms.take(i + 1).drop_last() =~= ms.take(i as int));
            assert forall|t: int| 0 <= t < 6 implies tally(ms.take(i + 1), t) <= tally(ms, t) by {
                lemma_tally_prefix(ms, i + 1, t);
            }
        }
        let mut local: Vec<u64> = vec![0, 0, 0, 0, 0, 0];
        let mut k: usize = 0;
        while k < m.errors.len()
            invariant
                0 <= k <= m.errors@.len(),
                local@.len() == 6,
                forall|t: int| 0 <= t < 6 ==> #[trigger] local@[t] == count_type(m.errors@.take(k as int), t),
            decreases m.errors@.len() - k,
        {
            let t = classify_error_index(m.errors[k].as_str());
            proof {
                assert(m.errors@.take(k + 1).drop_last() =~= m.errors@.take(k as int));
                lemma_count_type_bound(m.errors@.take(k as int), t as int);
            }
            let old_v = local[t];
            local.set(t, old_v + 1);
            k += 1;
        }
        proof {
            assert(m.errors@.take(m.errors@.len() as int) =~= m.errors@);
        }
        let mut t: usize = 0;
        while t < 6
            invariant
                0 <= t <= 6,
                i < ms.len(),
                ms == report.per_module@,
                counts@.len() == 6,
                local@.len() == 6,
                forall|u: int| 0 <= u < 6 ==> #[trigger] local@[u] == count_type(m.errors@, u),
                forall|u: int| 0 <= u < 6 ==> tally(ms, u) <= u64::MAX,
                forall|u: int| 0 <= u < 6 ==> tally(ms.take(i + 1), u) <= tally(ms, u),
                forall|u: int| 0 <= u < t ==> #[trigger] counts@[u] == tally(ms.take(i + 1), u),
                forall|u: int| t <= u < 6 ==> #[trigger] counts@[u] == tally(ms.take(i as int), u),
                ms.take(i + 1).drop_last() == ms.take(i as int),
                ms.take(i + 1).last() == report.per_module@[i as int],
                m == &report.per_module@[i as int].1,
            decreases 6 - t,
        {
            let add = if t == 4 && m.permission_denied > local[4] {
                m.permission_denied
            } else {
                local[t]
            };
            let cur = counts[t];
            proof {
                let pre = ms.take(i + 1);
                assert(tally(pre, t as int) == tally(pre.drop_last(), t as int) + module_tally(
                    pre.last().1,
                    t as int,
                ));
                assert(pre.last().1 == *m);
                assert(local@[t as int] == count_type(m.errors@, t as int));
                assert(local@[4] == count_type(m.errors@, 4));
                assert(module_tally(*m, t as int) == add);
                assert(tally(pre, t as int) == cur + add);
                assert(tally(pre, t as int) <= tally(ms, t as int));
                assert(tally(ms, t as int) <= u64::MAX);
            }
            counts.set(t, cur + add);
            t += 1;
        }
        i += 1;
    }
    proof {
        assert(ms.take(ms.len() as int) =~= ms);
    }
    let mut out: Vec<(String, u64)> = Vec::new();
    let mut t: usize = 0;
    while t < 6
        invariant
            0 <= t <= 6,
            counts@.len() == 6,
            forall|u: int| 0 <= u < 6 ==> #[trigger] counts@[u] == tally(ms, u),
            out@.map_values(|e: (String, u64)| (e.0@, e.1 as nat)) == tally_entries(ms, t as int),
        decreases 6 - t,
    {
        if counts[t] > 0 {
            let ghost before = out@;
            out.push((error_type_label(t), counts[t]));
            proof {
                assert(out@.map_values(|e: (String, u64)| (e.0@, e.1 as nat)) =~= before.map_values(
                    |e: (String, u64)| (e.0@, e.1 as nat),
                ).push((error_type_name(t as int), tally(ms, t as int))));
            }
        }
        t += 1;
    }
    out
}

proof fn lemma_tally_prefix(ms: Seq<(String, ModuleReport)>, n: int, t: int)
    requires
        0 <= n <= ms.len(),
    ensures
        tally(ms.take(n), t) <= tally(ms, t),
    decreases ms.len(),
{
    if n < ms.len() {
        assert(ms.drop_last().take(n) =~= ms.take(n));
        lemma_tally_prefix(ms.drop_last(), n, t);
    } else {
        assert(ms.take(n) =~= ms);
    }
}

} // verus!

verus! {

/// The files the modules of a run deleted, in all.
pub open spec fn deleted_total(ms: Seq<(String, ModuleReport)>) -> int
    decreases ms.len(),
{
    if ms.len() == 0 {
        0
    } else {
        deleted_total(ms.drop_last()) + ms.last().1.deleted_files_count
    }
}

proof fn lemma_deleted_total_prefix(ms: Seq<(String, ModuleReport)>, n: int)
    requires
        0 <= n <= ms.len(),
    ensures
        deleted_total(ms.take(n)) <= deleted_total(ms),
    decreases ms.len() - n,
{
    if n < ms.len() {
        lemma_deleted_total_prefix(ms, n + 1);
        assert(ms.take(n + 1).drop_last() =~= ms.take(n));
    } else {
        assert(ms.take(n) =~= ms);
    }
}

/// The number of files the run cleaned, for the metrics export: the files each module
/// deleted, added up; none when the sum does not fit in 64 bits.
pub fn files_cleaned_total(report: &GlobalReport) -> (r: Option<u64>)
    ensures
        match r {
            Some(n) => n == deleted_total(report.per_module@),
            None => deleted_total(report.per_module@) > u64::MAX,
        },
{
    let ghost ms = report.per_module@;
    let mut total: u64 = 0;
    let mut i: usize = 0;
    assert(ms.take(0) =~= Seq::<(String, ModuleReport)>::empty());
    while i < report.per_module.len()
        invariant
            0 <= i <= ms.len(),
            ms == report.per_module@,
            total == deleted_total(ms.take(i as int)),
        decreases ms.len() - i,
    {
        proof {
            assert(ms.take(i + 1).drop_last() =~= ms.take(i as int));
            assert(ms.take(i + 1).last() == ms[i as int]);
        }
        match total.checked_add(report.per_module[i].1.deleted_files_count) {
            Some(t) => total = t,
            None => {
                proof {
                    lemma_deleted_total_prefix(ms, i + 1);
                }
                return None;
            },
        }
        i += 1;
    }
    assert(ms.take(ms.len() as int) =~= ms);
    Some(total)
}


/// How an error message is classified, by the phrases its lowercase form holds: a
/// permission refusal (`permission denied`, `access denied`) comes first; then a missing
/// file (`not found`, `no such file`, `does not exist`); then a time-out (`timed out`,
/// `timeout`); then invalid input (`invalid input`, `invalid data`); then an I/O error
/// (`io error`, `i/o error`); a message with none of these phrases is a module error.
pub proof fn law_error_messages_are_classified_by_their_phrases(message: Seq<char>)
    ensures
        ({
            let n = spec_to_lowercase(message);
            let name = error_type_name(spec_classify(message));
            let denied = has_infix(n, "permission denied"@) || has_infix(n, "access denied"@);
            let missing = has_infix(n, "not found"@) || has_infix(n, "no such file"@) || has_infix(n, "does not exist"@);
            let timeout = has_infix(n, "timed out"@) || has_infix(n, "timeout"@);
            let invalid = has_infix(n, "invalid input"@) || has_infix(n, "invalid data"@);
            let io = has_infix(n, "io error"@) || has_infix(n, "i/o error"@);
            &&& denied ==> name == "permission_denied"@
            &&& !denied && missing ==> name == "file_not_found"@
            &&& !denied && !missing && timeout ==> name == "timed_out"@
            &&& !denied && !missing && !timeout && invalid ==> name == "invalid_input"@
            &&& !denied && !missing && !timeout && !invalid && io ==> name == "io_error"@
            &&& !denied && !missing && !timeout && !invalid && !io ==> name == "module_error"@
        }),
{
}

} // verus!
