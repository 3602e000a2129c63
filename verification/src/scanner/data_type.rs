//! What a scan finds: threats, the result for each file, and the report of a scan.
use vstd::prelude::*;
use crate::sorting::{lemma_sort_desc_permutes, lemma_sort_desc_sorted, sort_desc, sorted_desc, stable_sort_desc, strip_keys};
use crate::text::{chars_of, decimal, extend_chars, string_of, u64_to_chars};

verus! {

/// How serious a threat is, from `Low` to `Critical`.
#[derive(PartialEq, Eq, Structural, Clone, Copy, Debug, PartialOrd, Ord)]
pub enum Severity {
    Low,
    Medium,
    High,
    Critical,
}

/// The rank of a severity: `Low` is 0, `Critical` 3.
pub open spec fn severity_rank(s: Severity) -> u64 {
    match s {
        Severity::Low => 0,
        Severity::Medium => 1,
        Severity::High => 2,
        Severity::Critical => 3,
    }
}

/// The name of a severity, in lowercase.
pub open spec fn severity_name(s: Severity) -> Seq<char> {
    match s {
        Severity::Low => "low"@,
        Severity::Medium => "medium"@,
        Severity::High => "high"@,
        Severity::Critical => "critical"@,
    }
}

impl Default for Severity {
    /// `Medium`.
    fn default() -> (r: Severity)
        ensures
            r == Severity::Medium,
    {
        Severity::Medium
    }
}

impl Severity {
    /// The rank of the severity: `Low` is 0, `Critical` 3.
    pub fn rank(&self) -> (r: u64)
        ensures
            r == severity_rank(*self),
    {
        match self {
            Severity::Low => 0,
            Severity::Medium => 1,
            Severity::High => 2,
            Severity::Critical => 3,
        }
    }

    /// The name of the severity, in lowercase.
    pub fn to_string(&self) -> (r: String)
        ensures
            r@ == severity_name(*self),
    {
        let s = match self {
            Severity::Low => "low",
            Severity::Medium => "medium",
            Severity::High => "high",
            Severity::Critical => "critical",
        };
        string_of(chars_of(s).as_slice())
    }
}

/// A threat found in a file.
pub struct Threat {
    pub path: String,
    pub name: String,
    pub severity: Severity,
    /// The rule that matched, or `hash-db` for a known hash.
    pub matched_rule: String,
}

impl Default for Threat {
    /// An empty threat of low severity.
    fn default() -> (r: Threat)
        ensures
            r.path@.len() == 0 && r.name@.len() == 0 && r.matched_rule@.len() == 0,
            r.severity == Severity::Low,
    {
        Threat { path: String::new(), name: String::new(), severity: Severity::Low, matched_rule: String::new() }
    }
}

/// The result of scanning one file.
pub struct FileResult {
    pub path: String,
    pub threats: Vec<Threat>,
    pub skipped: bool,
    pub error: Option<String>,
}

impl FileResult {
    /// A file found clean.
    pub fn clean(path: String) -> (r: FileResult)
        ensures
            r.path == path,
            r.threats@.len() == 0,
            !r.skipped,
            r.error is None,
    {
        FileResult { path, threats: Vec::new(), skipped: false, error: None }
    }
}

/// The report of a scan: every file result, in order, and its totals.
pub struct ScanReport {
    pub results: Vec<FileResult>,
    pub total_scanned: u64,
    pub total_skipped: u64,
    pub total_threats: u64,
    pub total_errors: u64,
}

/// How many results satisfy `p`.
pub open spec fn count_results(rs: Seq<FileResult>, p: spec_fn(FileResult) -> bool) -> nat
    decreases rs.len(),
{
    if rs.len() == 0 {
        0
    } else {
        count_results(rs.drop_last(), p) + if p(rs.last()) { 1nat } else { 0nat }
    }
}

/// A result with at least one threat.
pub open spec fn has_threats(r: FileResult) -> bool {
    r.threats@.len() > 0
}

/// A skipped result.
pub open spec fn was_skipped(r: FileResult) -> bool {
    r.skipped
}

/// A result with an error.
pub open spec fn has_error(r: FileResult) -> bool {
    r.error is Some
}

/// The threats of the results, result after result.
pub open spec fn flat_threats(rs: Seq<FileResult>) -> Seq<Threat>
    decreases rs.len(),
{
    if rs.len() == 0 {
        Seq::empty()
    } else {
        flat_threats(rs.drop_last()) + rs.last().threats@
    }
}

/// A threat keyed by its severity's rank.
pub open spec fn by_severity(t: Threat) -> (Threat, u64) {
    (t, severity_rank(t.severity))
}

/// The report's summary line.
pub open spec fn spec_summary(scanned: u64, threats: u64, errors: u64, skipped: u64) -> Seq<char> {
    "Scan complete: "@ + decimal(scanned as nat) + " files scanned, "@ + decimal(threats as nat)
        + " threats found, "@ + decimal(errors as nat) + " errors, "@ + decimal(skipped as nat)
        + " skipped"@
}

impl Default for ScanReport {
    /// An empty report.
    fn default() -> (r: ScanReport)
        ensures
            r.results@.len() == 0,
            r.total_scanned == 0 && r.total_skipped == 0 && r.total_threats == 0 && r.total_errors
                == 0,
    {
        ScanReport { results: Vec::new(), total_scanned: 0, total_skipped: 0, total_threats: 0, total_errors: 0 }
    }
}

impl ScanReport {
    /// Appends results: each counts as scanned, and as a file with threats, skipped or in
    /// error when it is.
    pub fn add(&mut self, results: Vec<FileResult>)
        requires
            old(self).total_scanned + results@.len() <= u64::MAX,
            old(self).total_threats + count_results(results@, |r: FileResult| has_threats(r)) <= u64::MAX,
            old(self).total_skipped + count_results(results@, |r: FileResult| was_skipped(r)) <= u64::MAX,
            old(self).total_errors + count_results(results@, |r: FileResult| has_error(r)) <= u64::MAX,
        ensures
            final(self).results@ == old(self).results@ + results@,
            final(self).total_scanned == old(self).total_scanned + results@.len(),
            final(self).total_threats == old(self).total_threats + count_results(results@, |r: FileResult| has_threats(r)),
            final(self).total_skipped == old(self).total_skipped + count_results(results@, |r: FileResult| was_skipped(r)),
            final(self).total_errors == old(self).total_errors + count_results(results@, |r: FileResult| has_error(r)),
    {
        let ghost rs = results@;
        let ghost pt = |r: FileResult| has_threats(r);
        let ghost ps = |r: FileResult| was_skipped(r);
        let ghost pe = |r: FileResult| has_error(r);
        let n = results.len();
        let mut rev = crate::sorting::reversed(results);
        let mut i: usize = 0;
        proof {
            assert(rs.take(0) =~= Seq::<FileResult>::empty());
            assert(self.results@ =~= old(self).results@ + rs.take(0));
        }
        while rev.len() > 0
            invariant
                i + rev@.len() == rs.len(),
                rs.len() == n,
                forall|j: int| 0 <= j < rev@.len() ==> #[trigger] rev@[j] == rs[rs.len() - 1 - j],
                self.results@ == old(self).results@ + rs.take(i as int),
                self.total_scanned == old(self).total_scanned + i,
                self.total_threats == old(self).total_threats + count_results(rs.take(i as int), pt),
                self.total_skipped == old(self).total_skipped + count_results(rs.take(i as int), ps),
                self.total_errors == old(self).total_errors + count_results(rs.take(i as int), pe),
                old(self).total_scanned + rs.len() <= u64::MAX,
                old(self).total_threats + count_results(rs, pt) <= u64::MAX,
                old(self).total_skipped + count_results(rs, ps) <= u64::MAX,
                old(self).total_errors + count_results(rs, pe) <= u64::MAX,
                pt == (|r: FileResult| has_threats(r)),
                ps == (|r: FileResult| was_skipped(r)),
                pe == (|r: FileResult| has_error(r)),
            decreases rev@.len(),
        {
            let result = rev.pop().unwrap();
            proof {
                assert(result == rs[i as int]);
                assert(rs.take(i + 1).drop_last() =~= rs.take(i as int));
                assert(rs.take(i + 1).last() == rs[i as int]);
                lemma_count_prefix(rs, pt, i as int);
                lemma_count_prefix(rs, ps, i as int);
                lemma_count_prefix(rs, pe, i as int);
            }
            self.total_scanned = self.total_scanned + 1;
            if result.threats.len() > 0 {
                self.total_threats = self.total_threats + 1;
            }
            if result.skipped {
                self.total_skipped = self.total_skipped + 1;
            }
            if result.error.is_some() {
                self.total_errors = self.total_errors + 1;
            }
            self.results.push(result);
            proof {
                assert(self.results@ =~= old(self).results@ + rs.take(i + 1));
            }
            i += 1;
        }
        proof {
            assert(rs.take(rs.len() as int) =~= rs);
        }
    }

    /// Every threat of the report, most severe first; threats of equal severity keep the
    /// order of their files and, within a file, their own.
    pub fn all_threats(&self) -> (r: Vec<&Threat>)
        ensures
            r@.map_values(|t: &Threat| *t) == sort_desc(flat_threats(self.results@).map_values(
                |t: Threat| by_severity(t),
            )).map_values(|p: (Threat, u64)| p.0),
    {
        let ghost rs = self.results@;
        let mut keyed: Vec<(&Threat, u64)> = Vec::new();
        let mut i: usize = 0;
        while i < self.results.len()
            invariant
                0 <= i <= rs.len(),
                rs == self.results@,
                keyed@.map_values(|p: (&Threat, u64)| (*p.0, p.1)) == flat_threats(rs.take(i as int)).map_values(
                    |t: Threat| by_severity(t),
                ),
            decreases rs.len() - i,
        {
            let ts = &self.results[i].threats;
            let ghost before = keyed@.map_values(|p: (&Threat, u64)| (*p.0, p.1));
            let mut j: usize = 0;
            while j < ts.len()
                invariant
                    0 <= j <= ts@.len(),
                    keyed@.map_values(|p: (&Threat, u64)| (*p.0, p.1)) == before + ts@.take(j as int).map_values(
                        |t: Threat| by_severity(t),
                    ),
                decreases ts@.len() - j,
            {
                let ghost prev = keyed@;
                let k = ts[j].severity.rank();
                keyed.push((&ts[j], k));
                proof {
                    assert(keyed@.map_values(|p: (&Threat, u64)| (*p.0, p.1)) =~= prev.map_values(
                        |p: (&Threat, u64)| (*p.0, p.1),
                    ).push(by_severity(ts@[j as int])));
                    assert(ts@.take(j + 1).map_values(|t: Threat| by_severity(t)) =~= ts@.take(
                        j as int,
                    ).map_values(|t: Threat| by_severity(t)).push(by_severity(ts@[j as int])));
                }
                j += 1;
            }
            proof {
                assert(ts@.take(ts@.len() as int) =~= ts@);
                assert(rs.take(i + 1).drop_last() =~= rs.take(i as int));
                assert(rs.take(i + 1).last() == rs[i as int]);
                assert(flat_threats(rs.take(i + 1)).map_values(|t: Threat| by_severity(t)) =~= flat_threats(
                    rs.take(i as int),
                ).map_values(|t: Threat| by_severity(t)) + ts@.map_values(|t: Threat| by_severity(t)));
            }
            i += 1;
        }
        proof {
            assert(rs.take(rs.len() as int) =~= rs);
        }
        let sorted = stable_sort_desc(keyed);
        proof {
            let f = |p: (&Threat, u64)| (*p.0, p.1);
            crate::sorting::lemma_sort_desc_map(keyed@, f);
        }
        let r = strip_keys(sorted);
        proof {
            assert(r@.map_values(|t: &Threat| *t) =~= sorted@.map_values(|p: (&Threat, u64)| (*p.0, p.1)).map_values(
                |p: (Threat, u64)| p.0,
            ));
        }
        r
    }

    /// The results that hold an error, in order.
    pub fn errors(&self) -> (r: Vec<&FileResult>)
        ensures
            r@.map_values(|f: &FileResult| *f) == self.results@.filter(|f: FileResult| has_error(f)),
    {
        let ghost rs = self.results@;
        let ghost p = |f: FileResult| has_error(f);
        let mut r: Vec<&FileResult> = Vec::new();
        let mut i: usize = 0;
        while i < self.results.len()
            invariant
                0 <= i <= rs.len(),
                rs == self.results@,
                p == (|f: FileResult| has_error(f)),
                r@.map_values(|f: &FileResult| *f) == rs.take(i as int).filter(p),
            decreases rs.len() - i,
        {
            let ghost prev = r@;
            proof {
                rs.take(i as int).lemma_filter_push(rs[i as int], p);
                assert(rs.take(i as int).push(rs[i as int]) =~= rs.take(i + 1));
            }
            if self.results[i].error.is_some() {
                r.push(&self.results[i]);
                assert(r@.map_values(|f: &FileResult| *f) =~= prev.map_values(|f: &FileResult| *f).push(rs[i as int]));
            }
            i += 1;
        }
        assert(rs.take(rs.len() as int) =~= rs);
        r
    }

    /// Clean when nothing was found and nothing failed.
    pub fn is_clean(&self) -> (r: bool)
        ensures
            r == (self.total_threats == 0 && self.total_errors == 0),
    {
        self.total_threats == 0 && self.total_errors == 0
    }

    /// `Scan complete: <n> files scanned, <n> threats found, <n> errors, <n> skipped`.
    pub fn summary(&self) -> (r: String)
        ensures
            r@ == spec_summary(self.total_scanned, self.total_threats, self.total_errors, self.total_skipped),
    {
        let mut v = chars_of("Scan complete: ");
        extend_chars(&mut v, u64_to_chars(self.total_scanned).as_slice());
        extend_chars(&mut v, chars_of(" files scanned, ").as_slice());
        extend_chars(&mut v, u64_to_chars(self.total_threats).as_slice());
        extend_chars(&mut v, chars_of(" threats found, ").as_slice());
        extend_chars(&mut v, u64_to_chars(self.total_errors).as_slice());
        extend_chars(&mut v, chars_of(" errors, ").as_slice());
        extend_chars(&mut v, u64_to_chars(self.total_skipped).as_slice());
        extend_chars(&mut v, chars_of(" skipped").as_slice());
        string_of(v.as_slice())
    }
}

proof fn lemma_count_prefix(rs: Seq<FileResult>, p: spec_fn(FileResult) -> bool, i: int)
    requires
        0 <= i < rs.len(),
    ensures
        count_results(rs.take(i + 1), p) == count_results(rs.take(i), p) + if p(rs[i]) { 1nat } else { 0nat },
        count_results(rs.take(i + 1), p) <= count_results(rs, p),
    decreases rs.len(),
{
    assert(rs.take(i + 1).drop_last() =~= rs.take(i));
    if i + 1 < rs.len() {
        lemma_count_prefix(rs.drop_last(), p, i);
        assert(rs.drop_last().take(i + 1) =~= rs.take(i + 1));
    } else {
        assert(rs.take(i + 1) =~= rs);
    }
}

/// The totals of a report agree with its results: every result counts as scanned, and as
/// a file with threats, skipped or in error when it is.
pub open spec fn totals_match(results: Seq<FileResult>, scanned: int, threats: int, skipped: int, errors: int) -> bool {
    &&& scanned == results.len()
    &&& threats == count_results(results, |r: FileResult| has_threats(r))
    &&& skipped == count_results(results, |r: FileResult| was_skipped(r))
    &&& errors == count_results(results, |r: FileResult| has_error(r))
}

proof fn lemma_count_concat(a: Seq<FileResult>, b: Seq<FileResult>, p: spec_fn(FileResult) -> bool)
    ensures
        count_results(a + b, p) == count_results(a, p) + count_results(b, p),
    decreases b.len(),
{
    if b.len() == 0 {
        assert(a + b =~= a);
    } else {
        lemma_count_concat(a, b.drop_last(), p);
        assert((a + b).drop_last() =~= a + b.drop_last());
        assert((a + b).last() == b.last());
    }
}

/// Adding results to a report keeps its totals in agreement with its results: an empty
/// report agrees, and so does every report built from it by `add`.
pub proof fn law_add_keeps_totals(
    before: Seq<FileResult>,
    scanned: int,
    threats: int,
    skipped: int,
    errors: int,
    added: Seq<FileResult>,
)
    requires
        totals_match(before, scanned, threats, skipped, errors),
    ensures
        totals_match(Seq::empty(), 0, 0, 0, 0),
        totals_match(
            before + added,
            scanned + added.len(),
            threats + count_results(added, |r: FileResult| has_threats(r)),
            skipped + count_results(added, |r: FileResult| was_skipped(r)),
            errors + count_results(added, |r: FileResult| has_error(r)),
        ),
{
    lemma_count_concat(before, added, |r: FileResult| has_threats(r));
    lemma_count_concat(before, added, |r: FileResult| was_skipped(r));
    lemma_count_concat(before, added, |r: FileResult| has_error(r));
}

/// The threats of a report come most severe first, and every threat of every result is
/// among them exactly as often as it was found.
pub proof fn law_all_threats_sorted_and_complete(results: Seq<FileResult>)
    ensures
        ({
            let keyed = flat_threats(results).map_values(|t: Threat| by_severity(t));
            &&& sorted_desc(sort_desc(keyed))
            &&& sort_desc(keyed).to_multiset() == keyed.to_multiset()
        }),
{
    let keyed = flat_threats(results).map_values(|t: Threat| by_severity(t));
    lemma_sort_desc_sorted(keyed);
    lemma_sort_desc_permutes(keyed);
}


/// Whether severity `a` is at least as severe as `b`, by the declared order
/// `Low < Medium < High < Critical`.
pub open spec fn at_least(a: Severity, b: Severity) -> bool {
    match b {
        Severity::Low => true,
        Severity::Medium => a != Severity::Low,
        Severity::High => a == Severity::High || a == Severity::Critical,
        Severity::Critical => a == Severity::Critical,
    }
}

/// Threats are listed most severe first: the rank grows strictly along `Low`, `Medium`,
/// `High`, `Critical`, so in the threats of a report a threat is never followed by a more
/// severe one (every `Critical` before every `High`, every `High` before every `Medium`,
/// every `Medium` before every `Low`).
pub proof fn law_threats_are_listed_most_severe_first(results: Seq<FileResult>)
    ensures
        severity_rank(Severity::Low) < severity_rank(Severity::Medium),
        severity_rank(Severity::Medium) < severity_rank(Severity::High),
        severity_rank(Severity::High) < severity_rank(Severity::Critical),
        ({
            let out = sort_desc(flat_threats(results).map_values(|t: Threat| by_severity(t))).map_values(
                |p: (Threat, u64)| p.0,
            );
            forall|i: int, j: int| 0 <= i < j < out.len() ==> at_least(#[trigger] out[i].severity, #[trigger] out[j].severity)
        }),
{
    let keyed = flat_threats(results).map_values(|t: Threat| by_severity(t));
    let sorted = sort_desc(keyed);
    let out = sorted.map_values(|p: (Threat, u64)| p.0);
    lemma_sort_desc_sorted(keyed);
    lemma_sort_desc_permutes(keyed);
    assert forall|i: int, j: int| 0 <= i < j < out.len() implies at_least(#[trigger] out[i].severity, #[trigger] out[j].severity) by {
        assert(sorted[i].1 >= sorted[j].1);
        assert(out[i] == sorted[i].0 && out[j] == sorted[j].0);
        assert(sorted.to_multiset().count(sorted[i]) > 0) by {
            assert(sorted.contains(sorted[i]));
            sorted.to_multiset_ensures();
        }
        assert(sorted.to_multiset().count(sorted[j]) > 0) by {
            assert(sorted.contains(sorted[j]));
            sorted.to_multiset_ensures();
        }
        keyed.to_multiset_ensures();
        let a = choose|k: int| 0 <= k < keyed.len() && keyed[k] == sorted[i];
        let b = choose|k: int| 0 <= k < keyed.len() && keyed[k] == sorted[j];
        assert(keyed[a] == by_severity(flat_threats(results)[a]));
        assert(keyed[b] == by_severity(flat_threats(results)[b]));
    }
}

} // verus!
