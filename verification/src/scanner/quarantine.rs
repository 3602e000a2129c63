//! The quarantine: where quarantined files and their manifests are kept, how batches of
//! restorations and deletions are answered, and how the list is ordered.
use vstd::prelude::*;
use crate::paths::{components, lemma_components_join, cur_comp, extension, extension_exec, file_stem, file_stem_exec, lemma_file_name_of_join, lemma_split_name_suffix, parent_comp, path_join, path_join_exec};
use crate::text::{chars_of, decimal, extend_chars, find_char, find_char_exec, join_seq, join_strings, lacks_char, lemma_find_char_from_some, lemma_text_lt_irreflexive, lemma_text_lt_transitive, lemma_text_not_lt_transitive, lemma_replace_trailing, replace_all, replace_all_exec, string_of, sub_chars, text_lt, text_lt_exec, u64_to_chars, views};

verus! {

/// The quarantine directory.
pub struct Quarantine {
    pub dir: String,
}

/// What is recorded of a quarantined file.
pub struct QuarantineManifest {
    pub original_path: String,
    pub quarantined_at: String,
    pub original_hash: String,
}

/// A quarantined file as the list shows it.
pub struct QuarantineItem {
    pub quarantine_name: String,
    pub original_path: String,
    pub quarantined_at: String,
}

/// The file of a path: the text before the first `!` of a path inside an archive, and
/// whether the path was inside an archive.
pub open spec fn spec_real_path(path: Seq<char>) -> (Seq<char>, bool) {
    match find_char(path, '!') {
        Some(k) => (path.take(k), true),
        None => (path, false),
    }
}

/// The file of a path, and whether the path was inside an archive.
pub fn real_path_of(path: &str) -> (r: (String, bool))
    ensures
        (r.0@, r.1) == spec_real_path(path@),
{
    let p = chars_of(path);
    match find_char_exec(p.as_slice(), '!') {
        Some(k) => {
            proof {
                lemma_find_char_from_some(p@, '!', 0);
            }
            let head = sub_chars(p.as_slice(), 0, k);
            assert(head@ =~= path@.take(k as int));
            (string_of(head.as_slice()), true)
        },
        None => (string_of(p.as_slice()), false),
    }
}

/// The file to quarantine for a path: a path inside an archive stands for its archive,
/// when that exists; other paths stand for themselves.
pub fn check_virtual_path(path: &str, archive_exists: bool) -> (r: Option<String>)
    ensures
        match r {
            Some(p) => p@ == spec_real_path(path@).0 && (spec_real_path(path@).1 ==> archive_exists),
            None => spec_real_path(path@).1 && !archive_exists,
        },
{
    let (file, inside) = real_path_of(path);
    if inside && !archive_exists {
        return None;
    }
    Some(file)
}

/// The name under which a file is quarantined: `<timestamp>_<first 16 digits of its
/// hash>.quarantined`.
pub open spec fn spec_quarantine_name(timestamp: Seq<char>, hash: Seq<char>) -> Seq<char> {
    timestamp + "_"@ + hash.take(16) + ".quarantined"@
}

/// The name of the manifest of a quarantined file: its name with `.quarantined` replaced
/// by `.json`.
pub open spec fn spec_manifest_name(name: Seq<char>) -> Seq<char> {
    replace_all(name, ".quarantined"@, ".json"@)
}

fn manifest_name(name: &str) -> (r: Vec<char>)
    ensures
        r@ == spec_manifest_name(name@),
{
    let pat = chars_of(".quarantined");
    proof {
        reveal_strlit(".quarantined");
    }
    replace_all_exec(chars_of(name).as_slice(), pat.as_slice(), chars_of(".json").as_slice())
}

impl Quarantine {
    /// Where a file hashed `hash` and quarantined at `timestamp` is kept, and where its
    /// manifest is.
    pub fn quarantine_paths(&self, timestamp: &str, hash: &str) -> (r: (String, String))
        requires
            hash@.len() >= 16,
        ensures
            r.0@ == path_join(self.dir@, spec_quarantine_name(timestamp@, hash@)),
            r.1@ == path_join(self.dir@, spec_manifest_name(spec_quarantine_name(timestamp@, hash@))),
    {
        let mut name = chars_of(timestamp);
        extend_chars(&mut name, chars_of("_").as_slice());
        let h = sub_chars(chars_of(hash).as_slice(), 0, 16);
        assert(h@ =~= hash@.take(16));
        extend_chars(&mut name, h.as_slice());
        extend_chars(&mut name, chars_of(".quarantined").as_slice());
        let name_s = string_of(name.as_slice());
        let d = chars_of(self.dir.as_str());
        let dest = string_of(path_join_exec(d.as_slice(), name.as_slice()).as_slice());
        let m = manifest_name(name_s.as_str());
        let manifest = string_of(path_join_exec(d.as_slice(), m.as_slice()).as_slice());
        (dest, manifest)
    }

    /// Where the quarantined file of this name is, and where its manifest is.
    pub fn stored_paths(&self, quarantined_name: &str) -> (r: (String, String))
        ensures
            r.0@ == path_join(self.dir@, quarantined_name@),
            r.1@ == path_join(self.dir@, spec_manifest_name(quarantined_name@)),
    {
        let d = chars_of(self.dir.as_str());
        let dest = string_of(path_join_exec(d.as_slice(), chars_of(quarantined_name).as_slice()).as_slice());
        let m = manifest_name(quarantined_name);
        let manifest = string_of(path_join_exec(d.as_slice(), m.as_slice()).as_slice());
        (dest, manifest)
    }

    /// The answer to quarantining several files, each in turn until one fails: success
    /// when every one succeeded, else the first failure.
    pub fn quarantine_files(&self, outcomes: &[Result<String, String>]) -> (r: Result<(), String>)
        ensures
            r is Ok <==> (forall|i: int| 0 <= i < outcomes@.len() ==> #[trigger] outcomes@[i] is Ok),
            r matches Err(e) ==> exists|i: int|
                0 <= i < outcomes@.len() && (forall|j: int| 0 <= j < i ==> #[trigger] outcomes@[j] is Ok)
                    && #[trigger] outcomes@[i] == Err::<String, String>(e),
    {
        let mut i: usize = 0;
        while i < outcomes.len()
            invariant
                0 <= i <= outcomes@.len(),
                forall|j: int| 0 <= j < i ==> #[trigger] outcomes@[j] is Ok,
            decreases outcomes@.len() - i,
        {
            match &outcomes[i] {
                Err(e) => {
                    let r = e.clone();
                    assert(outcomes@[i as int] == Err::<String, String>(r));
                    return Err(r);
                },
                Ok(_) => {},
            }
            i += 1;
        }
        Ok(())
    }
}

/// The error line of one name of a batch: `<name>: <error>`.
pub open spec fn named_error(name: Seq<char>, e: Seq<char>) -> Seq<char> {
    name + ": "@ + e
}

/// What a batch gathered: for each name in turn, what succeeded, and the error lines.
pub open spec fn batch_split<T>(names: Seq<Seq<char>>, outcomes: Seq<Result<T, Seq<char>>>) -> (Seq<T>, Seq<Seq<char>>)
    decreases names.len(),
{
    if names.len() == 0 {
        (Seq::empty(), Seq::empty())
    } else {
        let (ok, errs) = batch_split(names.drop_last(), outcomes);
        match outcomes[names.len() - 1] {
            Ok(v) => (ok.push(v), errs),
            Err(e) => (ok, errs.push(named_error(names.last(), e))),
        }
    }
}

/// The answer to a batch: refused when no name is given; a failure naming every error
/// when nothing succeeded; else what succeeded, in order.
pub open spec fn spec_batch_answer<T>(
    verb: Seq<char>,
    none_given: Seq<char>,
    names: Seq<Seq<char>>,
    outcomes: Seq<Result<T, Seq<char>>>,
) -> Result<Seq<T>, Seq<char>> {
    if names.len() == 0 {
        Err(none_given)
    } else {
        let (ok, errs) = batch_split(names, outcomes);
        if ok.len() == 0 {
            Err(
                "Failed to "@ + verb + " all "@ + decimal(names.len()) + " file(s): "@ + join_seq(
                    errs,
                    "; "@,
                ),
            )
        } else {
            Ok(ok)
        }
    }
}

/// The view of outcomes whose successes are texts.
pub open spec fn text_outcomes(o: Seq<Result<String, String>>) -> Seq<Result<Seq<char>, Seq<char>>> {
    o.map_values(|r: Result<String, String>| match r {
        Ok(v) => Ok(v@),
        Err(e) => Err(e@),
    })
}

/// The view of outcomes without values.
pub open spec fn unit_outcomes(o: Seq<Result<(), String>>) -> Seq<Result<(), Seq<char>>> {
    o.map_values(|r: Result<(), String>| match r {
        Ok(v) => Ok(v),
        Err(e) => Err(e@),
    })
}

fn batch_failure(verb: &str, n: usize, errors: &Vec<String>) -> (r: String)
    ensures
        r@ == "Failed to "@ + verb@ + " all "@ + decimal(n as nat) + " file(s): "@ + join_seq(
            views(errors@),
            "; "@,
        ),
{
    let mut m = chars_of("Failed to ");
    extend_chars(&mut m, chars_of(verb).as_slice());
    extend_chars(&mut m, chars_of(" all ").as_slice());
    extend_chars(&mut m, u64_to_chars(n as u64).as_slice());
    extend_chars(&mut m, chars_of(" file(s): ").as_slice());
    extend_chars(&mut m, join_strings(errors.as_slice(), chars_of("; ").as_slice()).as_slice());
    string_of(m.as_slice())
}

fn error_line(name: &String, e: &String) -> (r: String)
    ensures
        r@ == named_error(name@, e@),
{
    let mut m = chars_of(name.as_str());
    extend_chars(&mut m, chars_of(": ").as_slice());
    extend_chars(&mut m, chars_of(e.as_str()).as_slice());
    string_of(m.as_slice())
}

impl Quarantine {
    /// The answer to restoring several quarantined files, from the outcome of restoring
    /// each (the restored path, or why not), in the order of the names.
    pub fn restore_files(&self, quarantined_names: &[String], outcomes: &[Result<String, String>]) -> (r: Result<Vec<String>, String>)
        requires
            outcomes@.len() == quarantined_names@.len(),
        ensures
            match spec_batch_answer(
                "restore"@,
                "No names provided for restore"@,
                views(quarantined_names@),
                text_outcomes(outcomes@),
            ) {
                Ok(ok) => r matches Ok(v) && views(v@) == ok,
                Err(e) => r matches Err(m) && m@ == e,
            },
    {
        if quarantined_names.len() == 0 {
            return Err(string_of(chars_of("No names provided for restore").as_slice()));
        }
        let ghost names = views(quarantined_names@);
        let ghost outs = text_outcomes(outcomes@);
        let mut restored: Vec<String> = Vec::new();
        let mut errors: Vec<String> = Vec::new();
        let mut i: usize = 0;
        while i < quarantined_names.len()
            invariant
                0 <= i <= quarantined_names@.len(),
                outcomes@.len() == quarantined_names@.len(),
                names == views(quarantined_names@),
                outs == text_outcomes(outcomes@),
                (views(restored@), views(errors@)) == batch_split(names.take(i as int), outs),
            decreases quarantined_names@.len() - i,
        {
            proof {
                assert(names.take(i + 1).drop_last() =~= names.take(i as int));
                assert(names.take(i + 1).last() == quarantined_names@[i as int]@);
                assert(outs[i as int] == match outcomes@[i as int] {
                    Ok(v) => Ok(v@),
                    Err(e) => Err::<Seq<char>, Seq<char>>(e@),
                });
            }
            match &outcomes[i] {
                Ok(p) => {
                    let ghost before = views(restored@);
                    restored.push(p.clone());
                    assert(views(restored@) =~= before.push(p@));
                },
                Err(e) => {
                    let ghost before = views(errors@);
                    errors.push(error_line(&quarantined_names[i], e));
                    assert(views(errors@) =~= before.push(named_error(quarantined_names@[i as int]@, e@)));
                },
            }
            i += 1;
        }
        assert(names.take(names.len() as int) =~= names);
        if restored.len() == 0 {
            return Err(batch_failure("restore", quarantined_names.len(), &errors));
        }
        Ok(restored)
    }

    /// The answer to deleting several quarantined files, from the outcome of deleting each,
    /// in the order of the names: the names deleted, or a failure.
    pub fn delete_quarantined_files(&self, quarantined_names: &[String], outcomes: &[Result<(), String>]) -> (r: Result<Vec<String>, String>)
        requires
            outcomes@.len() == quarantined_names@.len(),
        ensures
            match spec_batch_answer(
                "delete"@,
                "No names provided for delete"@,
                views(quarantined_names@),
                unit_outcomes(outcomes@),
            ) {
                Ok(_) => r matches Ok(v) && views(v@) == batch_deleted(
                    views(quarantined_names@),
                    unit_outcomes(outcomes@),
                ),
                Err(e) => r matches Err(m) && m@ == e,
            },
    {
        if quarantined_names.len() == 0 {
            return Err(string_of(chars_of("No names provided for delete").as_slice()));
        }
        let ghost names = views(quarantined_names@);
        let ghost outs = unit_outcomes(outcomes@);
        let mut deleted: Vec<String> = Vec::new();
        let mut errors: Vec<String> = Vec::new();
        let mut i: usize = 0;
        while i < quarantined_names.len()
            invariant
                0 <= i <= quarantined_names@.len(),
                outcomes@.len() == quarantined_names@.len(),
                names == views(quarantined_names@),
                outs == unit_outcomes(outcomes@),
                views(errors@) == batch_split(names.take(i as int), outs).1,
                deleted@.len() == batch_split(names.take(i as int), outs).0.len(),
                views(deleted@) == batch_deleted(names.take(i as int), outs),
            decreases quarantined_names@.len() - i,
        {
            proof {
                assert(names.take(i + 1).drop_last() =~= names.take(i as int));
                assert(names.take(i + 1).last() == quarantined_names@[i as int]@);
                assert(outs[i as int] == match outcomes@[i as int] {
                    Ok(v) => Ok(v),
                    Err(e) => Err::<(), Seq<char>>(e@),
                });
            }
            match &outcomes[i] {
                Ok(_) => {
                    let ghost before = views(deleted@);
                    deleted.push(quarantined_names[i].clone());
                    assert(views(deleted@) =~= before.push(quarantined_names@[i as int]@));
                },
                Err(e) => {
                    let ghost before = views(errors@);
                    errors.push(error_line(&quarantined_names[i], e));
                    assert(views(errors@) =~= before.push(named_error(quarantined_names@[i as int]@, e@)));
                },
            }
            i += 1;
        }
        assert(names.take(names.len() as int) =~= names);
        if deleted.len() == 0 {
            return Err(batch_failure("delete", quarantined_names.len(), &errors));
        }
        Ok(deleted)
    }
}

/// The names whose deletion succeeded, in order.
pub open spec fn batch_deleted(names: Seq<Seq<char>>, outcomes: Seq<Result<(), Seq<char>>>) -> Seq<Seq<char>>
    decreases names.len(),
{
    if names.len() == 0 {
        Seq::empty()
    } else {
        let prev = batch_deleted(names.drop_last(), outcomes);
        match outcomes[names.len() - 1] {
            Ok(_) => prev.push(names.last()),
            Err(_) => prev,
        }
    }
}

/// The list name of a manifest file: its stem with `.quarantined`, for a `.json` file.
pub open spec fn spec_item_name(manifest_path: Seq<char>) -> Option<Seq<char>> {
    if extension(manifest_path) == Some("json"@) && file_stem(manifest_path) is Some {
        Some(file_stem(manifest_path)->0 + ".quarantined"@)
    } else {
        None
    }
}

/// The list name of a file of the quarantine directory, when it is a manifest.
pub fn item_name_of(manifest_path: &str) -> (r: Option<String>)
    ensures
        opt_view(r) == spec_item_name(manifest_path@),
{
    let p = chars_of(manifest_path);
    let is_json = match extension_exec(p.as_slice()) {
        Some(e) => crate::text::eq_lit(e.as_slice(), "json"),
        None => false,
    };
    if !is_json {
        return None;
    }
    match file_stem_exec(p.as_slice()) {
        Some(stem) => {
            let mut n = stem;
            extend_chars(&mut n, chars_of(".quarantined").as_slice());
            Some(string_of(n.as_slice()))
        },
        None => None,
    }
}

/// The view of an optional text.
pub open spec fn opt_view(o: Option<String>) -> Option<Seq<char>> {
    match o {
        Some(s) => Some(s@),
        None => None,
    }
}

/// Inserts an item after the last one quarantined no earlier (by the text of the time).
pub open spec fn insert_newest_first(s: Seq<QuarantineItem>, x: QuarantineItem) -> Seq<QuarantineItem>
    decreases s.len(),
{
    if s.len() == 0 {
        seq![x]
    } else if !text_lt(s.last().quarantined_at@, x.quarantined_at@) {
        s.push(x)
    } else {
        insert_newest_first(s.drop_last(), x).push(s.last())
    }
}

/// The items, newest first by the text of their time; items with the same time keep their
/// order.
pub open spec fn newest_first(s: Seq<QuarantineItem>) -> Seq<QuarantineItem>
    decreases s.len(),
{
    if s.len() == 0 {
        Seq::empty()
    } else {
        insert_newest_first(newest_first(s.drop_last()), s.last())
    }
}

proof fn lemma_insert_newest_at(s: Seq<QuarantineItem>, x: QuarantineItem, p: int)
    requires
        0 <= p <= s.len(),
        forall|j: int| p <= j < s.len() ==> text_lt(#[trigger] s[j].quarantined_at@, x.quarantined_at@),
        p == 0 || !text_lt(s[p - 1].quarantined_at@, x.quarantined_at@),
    ensures
        insert_newest_first(s, x) == s.take(p).push(x) + s.skip(p),
    decreases s.len(),
{
    if s.len() == 0 {
        assert(s.take(p).push(x) + s.skip(p) =~= seq![x]);
    } else if p == s.len() {
        assert(s.take(p) =~= s);
        assert(s.skip(p) =~= Seq::<QuarantineItem>::empty());
        assert(s.take(p).push(x) + s.skip(p) =~= s.push(x));
    } else {
        let d = s.drop_last();
        assert(text_lt(s[s.len() - 1].quarantined_at@, x.quarantined_at@));
        lemma_insert_newest_at(d, x, p);
        assert(d.take(p) =~= s.take(p));
        assert(d.skip(p).push(s.last()) =~= s.skip(p));
        assert((d.take(p).push(x) + d.skip(p)).push(s.last()) =~= s.take(p).push(x) + s.skip(p));
    }
}

impl Quarantine {
    /// The quarantined items, newest first by the text of their quarantine time (items
    /// with the same time keep the order in which the directory listed them).
    pub fn list_sorted(&self, items: Vec<QuarantineItem>) -> (r: Vec<QuarantineItem>)
        ensures
            r@ == newest_first(items@),
    {
        let ghost orig = items@;
        let n = items.len();
        let mut rev = crate::sorting::reversed(items);
        let mut out: Vec<QuarantineItem> = Vec::new();
        let mut taken: usize = 0;
        proof {
            assert(orig.take(0) =~= Seq::<QuarantineItem>::empty());
        }
        while rev.len() > 0
            invariant
                taken + rev@.len() == orig.len(),
                orig.len() == n,
                forall|j: int| 0 <= j < rev@.len() ==> #[trigger] rev@[j] == orig[orig.len() - 1 - j],
                out@ == newest_first(orig.take(taken as int)),
            decreases rev@.len(),
        {
            let x = rev.pop().unwrap();
            proof {
                assert(x == orig[taken as int]);
                assert(orig.take(taken + 1).drop_last() =~= orig.take(taken as int));
            }
            let key = chars_of(x.quarantined_at.as_str());
            let mut p: usize = out.len();
            while p > 0 && text_lt_exec(chars_of(out[p - 1].quarantined_at.as_str()).as_slice(), key.as_slice())
                invariant
                    0 <= p <= out@.len(),
                    key@ == x.quarantined_at@,
                    forall|j: int| p <= j < out@.len() ==> text_lt(#[trigger] out@[j].quarantined_at@, x.quarantined_at@),
                decreases p,
            {
                p -= 1;
            }
            proof {
                lemma_insert_newest_at(out@, x, p as int);
            }
            out.insert(p, x);
            taken += 1;
        }
        proof {
            assert(orig.take(n as int) =~= orig);
        }
        out
    }
}

/// Items ordered newest first: no item comes before a later one by the text of its time.
pub open spec fn is_newest_first(s: Seq<QuarantineItem>) -> bool {
    forall|i: int, j: int|
        0 <= i < j < s.len() ==> !text_lt(#[trigger] s[i].quarantined_at@, #[trigger] s[j].quarantined_at@)
}

proof fn lemma_insert_newest_multiset(s: Seq<QuarantineItem>, x: QuarantineItem)
    ensures
        insert_newest_first(s, x).to_multiset() =~= s.to_multiset().insert(x),
    decreases s.len(),
{
    broadcast use vstd::seq_lib::group_to_multiset_ensures;

    if s.len() > 0 && text_lt(s.last().quarantined_at@, x.quarantined_at@) {
        lemma_insert_newest_multiset(s.drop_last(), x);
        assert(s.drop_last().push(s.last()) =~= s);
    }
}

proof fn lemma_insert_newest_elems(s: Seq<QuarantineItem>, x: QuarantineItem)
    ensures
        insert_newest_first(s, x).len() == s.len() + 1,
        forall|k: int| 0 <= k < s.len() + 1 ==> {
            let y = #[trigger] insert_newest_first(s, x)[k];
            y == x || exists|i: int| 0 <= i < s.len() && y == s[i]
        },
    decreases s.len(),
{
    if s.len() > 0 && text_lt(s.last().quarantined_at@, x.quarantined_at@) {
        let d = s.drop_last();
        lemma_insert_newest_elems(d, x);
        assert forall|k: int| 0 <= k < s.len() + 1 implies {
            let y = #[trigger] insert_newest_first(s, x)[k];
            y == x || exists|i: int| 0 <= i < s.len() && y == s[i]
        } by {
            if k == s.len() {
                assert(insert_newest_first(s, x)[k] == s[s.len() - 1]);
            } else {
                let y = insert_newest_first(d, x)[k];
                if y != x {
                    let i = choose|i: int| 0 <= i < d.len() && y == d[i];
                    assert(y == s[i]);
                }
            }
        }
    } else if s.len() > 0 {
        assert forall|k: int| 0 <= k < s.len() + 1 implies {
            let y = #[trigger] insert_newest_first(s, x)[k];
            y == x || exists|i: int| 0 <= i < s.len() && y == s[i]
        } by {
            if k < s.len() {
                assert(insert_newest_first(s, x)[k] == s[k]);
            }
        }
    }
}

proof fn lemma_insert_newest_sorted(s: Seq<QuarantineItem>, x: QuarantineItem)
    requires
        is_newest_first(s),
    ensures
        is_newest_first(insert_newest_first(s, x)),
    decreases s.len(),
{
    if s.len() == 0 {
    } else if !text_lt(s.last().quarantined_at@, x.quarantined_at@) {
        let r = s.push(x);
        assert forall|i: int, j: int| 0 <= i < j < r.len() implies
            !text_lt(#[trigger] r[i].quarantined_at@, #[trigger] r[j].quarantined_at@) by {
            if j == s.len() && i < s.len() - 1 {
                lemma_text_not_lt_transitive(s[i].quarantined_at@, s.last().quarantined_at@, x.quarantined_at@);
            } else if j < s.len() {
                assert(r[i] == s[i] && r[j] == s[j]);
            }
        }
    } else {
        let d = s.drop_last();
        let m = insert_newest_first(d, x);
        lemma_insert_newest_sorted(d, x);
        lemma_insert_newest_elems(d, x);
        let r = m.push(s.last());
        assert forall|i: int, j: int| 0 <= i < j < r.len() implies
            !text_lt(#[trigger] r[i].quarantined_at@, #[trigger] r[j].quarantined_at@) by {
            if j == m.len() {
                let y = m[i];
                assert(r[i] == y);
                if y == x {
                    if text_lt(x.quarantined_at@, s.last().quarantined_at@) {
                        lemma_text_lt_transitive(x.quarantined_at@, s.last().quarantined_at@, x.quarantined_at@);
                        lemma_text_lt_irreflexive(x.quarantined_at@);
                    }
                } else {
                    let k = choose|k: int| 0 <= k < d.len() && y == d[k];
                    assert(s[k] == y);
                    assert(!text_lt(s[k].quarantined_at@, s[s.len() - 1].quarantined_at@));
                }
            } else {
                assert(r[i] == m[i] && r[j] == m[j]);
            }
        }
    }
}

/// The quarantine list is newest first and holds exactly the items it was given: every
/// item comes no earlier (by the text of its time) than each one after it, and no item is
/// lost, added or doubled.
pub proof fn law_quarantine_list_newest_first(items: Seq<QuarantineItem>)
    ensures
        is_newest_first(newest_first(items)),
        newest_first(items).to_multiset() =~= items.to_multiset(),
    decreases items.len(),
{
    broadcast use vstd::seq_lib::group_to_multiset_ensures;

    if items.len() > 0 {
        law_quarantine_list_newest_first(items.drop_last());
        lemma_insert_newest_sorted(newest_first(items.drop_last()), items.last());
        lemma_insert_newest_multiset(newest_first(items.drop_last()), items.last());
        assert(items.drop_last().push(items.last()) =~= items);
    }
}

} // verus!

verus! {

/// A file quarantined at a timestamp, with a hash, both of plain characters (no `.` and
/// no `/`, as the time stamps and hexadecimal hashes that quarantining writes), is listed
/// under the very name under which it is stored, so that restoring or deleting by the
/// listed name reaches the stored file and its manifest.
pub proof fn law_listed_name_is_stored_name(dir: Seq<char>, timestamp: Seq<char>, hash: Seq<char>)
    requires
        hash.len() >= 16,
        lacks_char(timestamp, '.'),
        lacks_char(timestamp, '/'),
        lacks_char(hash.take(16), '.'),
        lacks_char(hash.take(16), '/'),
    ensures
        spec_item_name(path_join(dir, spec_manifest_name(spec_quarantine_name(timestamp, hash))))
            == Some(spec_quarantine_name(timestamp, hash)),
{
    reveal_strlit(".quarantined");
    reveal_strlit(".json");
    reveal_strlit("json");
    reveal_strlit("_");
    let h = hash.take(16);
    let stem = timestamp + "_"@ + h;
    let name = spec_quarantine_name(timestamp, hash);
    assert(name == stem + ".quarantined"@);
    assert(lacks_char(stem, '.')) by {
        assert forall|j: int| 0 <= j < stem.len() implies stem[j] != '.' by {
            if j < timestamp.len() {
                assert(stem[j] == timestamp[j]);
            } else if j == timestamp.len() {
                assert(stem[j] == '_');
            } else {
                assert(stem[j] == h[j - timestamp.len() - 1]);
            }
        }
    }
    assert(".quarantined"@[0] == '.');
    lemma_replace_trailing(stem, ".quarantined"@, ".json"@);
    let m = stem + seq!['.'] + "json"@;
    assert(stem + ".json"@ =~= m);
    assert(spec_manifest_name(name) == m);
    assert forall|j: int| 0 <= j < m.len() implies m[j] != '/' by {
        if j < timestamp.len() {
            assert(m[j] == timestamp[j]);
        } else if j == timestamp.len() {
            assert(m[j] == '_');
        } else if j < stem.len() {
            assert(m[j] == h[j - timestamp.len() - 1]);
        } else if j == stem.len() {
            assert(m[j] == '.');
        } else {
            assert(m[j] == "json"@[j - stem.len() - 1]);
        }
    }
    assert(m.len() >= 6);
    assert(m != cur_comp());
    assert(m != parent_comp());
    lemma_file_name_of_join(dir, m);
    assert(stem.len() >= 17);
    assert(stem != cur_comp());
    assert forall|j: int| 0 <= j < "json"@.len() implies "json"@[j] != '.' by {}
    lemma_split_name_suffix(stem, "json"@);
}

/// With a time stamp and hash of plain characters, quarantining writes the file and its
/// manifest directly inside the quarantine directory.
pub proof fn law_quarantined_files_stay_in_dir(dir: Seq<char>, timestamp: Seq<char>, hash: Seq<char>)
    requires
        hash.len() >= 16,
        lacks_char(timestamp, '/'),
        lacks_char(hash.take(16), '/'),
        lacks_char(timestamp, '.'),
        lacks_char(hash.take(16), '.'),
    ensures
        components(path_join(dir, spec_quarantine_name(timestamp, hash))) == components(dir).push(
            spec_quarantine_name(timestamp, hash),
        ),
        components(path_join(dir, spec_manifest_name(spec_quarantine_name(timestamp, hash))))
            == components(dir).push(spec_manifest_name(spec_quarantine_name(timestamp, hash))),
{
    reveal_strlit(".quarantined");
    reveal_strlit(".json");
    reveal_strlit("_");
    let h = hash.take(16);
    let stem = timestamp + "_"@ + h;
    let name = spec_quarantine_name(timestamp, hash);
    assert(name == stem + ".quarantined"@);
    assert(lacks_char(stem, '.')) by {
        assert forall|j: int| 0 <= j < stem.len() implies stem[j] != '.' by {
            if j < timestamp.len() {
                assert(stem[j] == timestamp[j]);
            } else if j == timestamp.len() {
                assert(stem[j] == '_');
            } else {
                assert(stem[j] == h[j - timestamp.len() - 1]);
            }
        }
    }
    assert(".quarantined"@[0] == '.');
    lemma_replace_trailing(stem, ".quarantined"@, ".json"@);
    let m = stem + ".json"@;
    assert forall|j: int| 0 <= j < name.len() implies name[j] != '/' by {
        if j < timestamp.len() {
            assert(name[j] == timestamp[j]);
        } else if j == timestamp.len() {
            assert(name[j] == '_');
        } else if j < stem.len() {
            assert(name[j] == h[j - timestamp.len() - 1]);
        } else {
            assert(name[j] == ".quarantined"@[j - stem.len()]);
        }
    }
    assert forall|j: int| 0 <= j < m.len() implies m[j] != '/' by {
        if j < timestamp.len() {
            assert(m[j] == timestamp[j]);
        } else if j == timestamp.len() {
            assert(m[j] == '_');
        } else if j < stem.len() {
            assert(m[j] == h[j - timestamp.len() - 1]);
        } else {
            assert(m[j] == ".json"@[j - stem.len()]);
        }
    }
    lemma_components_join(dir, name);
    lemma_components_join(dir, m);
}

} // verus!

