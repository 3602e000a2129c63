//! Scanning content: its own result, and, inside a zip archive, the results of the files
//! it holds, one level deeper each time, down to a fixed depth.
use vstd::prelude::*;
use crate::scanner::archive::{entries_view, extract_entries, file_entries, zip_parse};
use crate::scanner::data_type::{FileResult, Severity, Threat};
use crate::scanner::hashing::{SignatureDb, scan_bytes, spec_hash_hex, spec_hash_threats, threat_fields};
use crate::scanner::scan_engine::ScanEngine;
use crate::scanner::scan_file::{
    ArchiveKind, ArchiveStep, MAX_DEPTH, MAX_ENTRY_SIZE, archive_entry_path, archive_step, detect_archive,
    opt_text, spec_archive_step, spec_detect_archive, spec_entry_path,
};
use crate::text::{chars_of, string_of};

verus! {

/// A file result as plain values: path, threats, whether it was skipped, and its error.
pub type ResultView = (Seq<char>, Seq<(Seq<char>, Seq<char>, Severity, Seq<char>)>, bool, Option<Seq<char>>);

/// The plain values of a file result.
pub open spec fn result_view(r: FileResult) -> ResultView {
    (r.path@, r.threats@.map_values(|t: Threat| threat_fields(t)), r.skipped, opt_text(r.error))
}

/// The plain values of file results.
pub open spec fn results_view(v: Seq<FileResult>) -> Seq<ResultView> {
    v.map_values(|r: FileResult| result_view(r))
}

/// The database's known hashes, when there is one.
pub open spec fn db_view(db: Option<&SignatureDb>) -> Option<Set<Seq<char>>> {
    match db {
        Some(d) => Some(d@),
        None => None,
    }
}

/// The result of content itself: the threats that its hash reveals when a database is
/// given (none otherwise), marked skipped when it is an archive of a kind that cannot be
/// opened (above the depth limit), and without error.
pub open spec fn own_result(path: Seq<char>, bytes: Seq<u8>, depth: u32, db: Option<Set<Seq<char>>>) -> ResultView {
    (
        path,
        match db {
            Some(s) => spec_hash_threats(path, spec_hash_hex(bytes), s),
            None => Seq::empty(),
        },
        spec_archive_step(depth, spec_detect_archive(bytes)) == ArchiveStep::MarkSkipped,
        None,
    )
}

/// The results of content at a depth: its own result first; then, when it is a zip
/// archive that can be read and the depth limit is not reached, the results of each file
/// it holds (skipping those larger than `MAX_ENTRY_SIZE`), in order, one level deeper,
/// each under the archive's path joined with `!/` and the entry's name.
pub open spec fn spec_scan_content(path: Seq<char>, bytes: Seq<u8>, depth: u32, db: Option<Set<Seq<char>>>) -> Seq<ResultView>
    decreases MAX_DEPTH - depth, 0int,
{
    let own = own_result(path, bytes, depth, db);
    if depth < MAX_DEPTH && spec_archive_step(depth, spec_detect_archive(bytes)) == ArchiveStep::ScanEntries {
        match zip_parse(bytes) {
            Some(items) => seq![own] + spec_scan_entries(path, file_entries(items), (depth + 1) as u32, db),
            None => seq![own],
        }
    } else {
        seq![own]
    }
}

/// The results of the files of an archive, at the depth of those files.
pub open spec fn spec_scan_entries(
    path: Seq<char>,
    entries: Seq<(Seq<char>, Seq<u8>)>,
    depth: u32,
    db: Option<Set<Seq<char>>>,
) -> Seq<ResultView>
    decreases MAX_DEPTH - depth, entries.len(),
{
    if entries.len() == 0 || depth > MAX_DEPTH {
        Seq::empty()
    } else {
        let prev = spec_scan_entries(path, entries.drop_last(), depth, db);
        let e = entries.last();
        if e.1.len() <= MAX_ENTRY_SIZE {
            prev + spec_scan_content(spec_entry_path(path, e.0), e.1, depth, db)
        } else {
            prev
        }
    }
}

fn hash_threats(path: &str, bytes: &[u8], db: Option<&SignatureDb>) -> (r: Vec<Threat>)
    ensures
        r@.map_values(|t: Threat| threat_fields(t)) == match db_view(db) {
            Some(s) => spec_hash_threats(path@, spec_hash_hex(bytes@), s),
            None => Seq::empty(),
        },
{
    match db {
        Some(d) => match scan_bytes(path, bytes, d) {
            Ok(ts) => ts,
            Err(_) => Vec::new(),
        },
        None => {
            let r: Vec<Threat> = Vec::new();
            assert(r@.map_values(|t: Threat| threat_fields(t)) =~= Seq::empty());
            r
        },
    }
}

/// Scans content at an archive depth: its own result, then those of the files inside it
/// when it is a zip archive, depth first (see `spec_scan_content`). The content is checked
/// against the signature database when one is given.
pub fn scan_content(path: &str, bytes: &[u8], depth: u32, db: Option<&SignatureDb>) -> (r: Vec<FileResult>)
    ensures
        results_view(r@) == spec_scan_content(path@, bytes@, depth, db_view(db)),
    decreases MAX_DEPTH - depth,
{
    let kind = detect_archive(bytes);
    let step = archive_step(depth, kind);
    let own = FileResult {
        path: string_of(chars_of(path).as_slice()),
        threats: hash_threats(path, bytes, db),
        skipped: step == ArchiveStep::MarkSkipped,
        error: None,
    };
    let ghost own_v = own_result(path@, bytes@, depth, db_view(db));
    assert(result_view(own) == own_v);
    let mut results: Vec<FileResult> = Vec::new();
    results.push(own);
    assert(results_view(results@) =~= seq![own_v]);
    if step != ArchiveStep::ScanEntries {
        return results;
    }
    let entries = extract_entries(bytes, &kind);
    let ghost es = entries_view(entries@);
    proof {
        if zip_parse(bytes@) is None {
            assert(es =~= Seq::<(Seq<char>, Seq<u8>)>::empty());
        }
    }
    let ghost d1: u32 = (depth + 1) as u32;
    let mut i: usize = 0;
    assert(es.take(0) =~= Seq::<(Seq<char>, Seq<u8>)>::empty());
    while i < entries.len()
        invariant
            0 <= i <= entries@.len(),
            depth < MAX_DEPTH,
            d1 == depth + 1,
            es == entries_view(entries@),
            results_view(results@) == seq![own_v] + spec_scan_entries(path@, es.take(i as int), d1, db_view(db)),
        decreases entries@.len() - i,
    {
        let e = &entries[i];
        proof {
            assert(es.take(i + 1).drop_last() =~= es.take(i as int));
            assert(es.take(i + 1).last() == es[i as int]);
            assert(es[i as int] == (e.name@, e.bytes@));
        }
        if e.bytes.len() <= MAX_ENTRY_SIZE {
            let inner = archive_entry_path(path, e.name.as_str());
            let mut sub = scan_content(inner.as_str(), e.bytes.as_slice(), depth + 1, db);
            let ghost before = results@;
            let ghost subv = sub@;
            results.append(&mut sub);
            assert(results_view(results@) =~= results_view(before) + results_view(subv));
        }
        i += 1;
    }
    assert(es.take(entries@.len() as int) =~= es);
    results
}

impl ScanEngine {
    /// Scans content at an archive depth with the engine's database, unless the scan
    /// uses the rules only.
    pub fn scan_bytes(&self, path: &str, bytes: &[u8], depth: u32) -> (r: Vec<FileResult>)
        ensures
            results_view(r@) == spec_scan_content(
                path@,
                bytes@,
                depth,
                if self.scan_args.yara_only {
                    None
                } else {
                    match self.hash_db {
                        Some(d) => Some(d@),
                        None => None,
                    }
                },
            ),
    {
        let db = if self.scan_args.yara_only {
            None
        } else {
            match &self.hash_db {
                Some(d) => Some(d),
                None => None,
            }
        };
        scan_content(path, bytes, depth, db)
    }
}


/// Archives that the scanner cannot open are never reported as fully scanned: below the
/// depth limit, a tar, tar.gz or gzip archive gets the step that marks its result skipped,
/// a zip archive has its entries scanned, and content that is no archive is done; at or
/// beyond the limit nothing more happens. In particular, content that starts with the
/// gzip bytes 1F 8B and is scanned below the limit has its own result marked skipped, and
/// it is the only result.
pub proof fn law_unopenable_archives_are_marked_skipped(depth: u32, kind: ArchiveKind, path: Seq<char>, bytes: Seq<u8>, db: Option<Set<Seq<char>>>)
    ensures
        depth < 5 && (kind == ArchiveKind::Tar || kind == ArchiveKind::TarGz || kind == ArchiveKind::GzipSingle)
            ==> spec_archive_step(depth, kind) == ArchiveStep::MarkSkipped,
        depth < 5 && kind == ArchiveKind::Zip ==> spec_archive_step(depth, kind) == ArchiveStep::ScanEntries,
        depth < 5 && kind == ArchiveKind::Unknown ==> spec_archive_step(depth, kind) == ArchiveStep::Done,
        depth >= 5 ==> spec_archive_step(depth, kind) == ArchiveStep::Done,
        depth < 5 && bytes.len() >= 2 && bytes[0] == 0x1f && bytes[1] == 0x8b ==> {
            &&& spec_detect_archive(bytes) != ArchiveKind::Zip
            &&& spec_detect_archive(bytes) != ArchiveKind::Unknown
            &&& spec_scan_content(path, bytes, depth, db).len() == 1
            &&& spec_scan_content(path, bytes, depth, db)[0].0 == path
            &&& spec_scan_content(path, bytes, depth, db)[0].2
        },
{
}

} // verus!
