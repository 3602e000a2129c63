//! The decisions of a file scan: which files are skipped, how archives are entered, and
//! how the rule scans of a file's categories combine into its result.
use vstd::prelude::*;
use crate::paths::{path_join, path_join_exec};
use crate::scanner::data_type::{FileResult, Threat};
use crate::text::{chars_of, extend_chars, has_prefix, starts_with_lit, string_of};

verus! {

/// Files larger than this many bytes are not scanned (50 MiB).
pub const MAX_FILE_SIZE: u64 = 52428800;

/// Archive entries larger than this many bytes are not scanned (100 MiB).
pub const MAX_ENTRY_SIZE: usize = 104857600;

/// Archives are entered at most this deep.
pub const MAX_DEPTH: u32 = 5;

/// The result of a file that is not scanned, with the reason.
pub open spec fn skipped_result(path: Seq<char>, reason: Seq<char>) -> (Seq<char>, bool, Option<Seq<char>>) {
    (path, true, Some(reason))
}

/// A file result as plain values: path, skipped, error (its threats are listed apart).
pub open spec fn result_fields(r: FileResult) -> (Seq<char>, bool, Option<Seq<char>>) {
    (r.path@, r.skipped, match r.error {
        Some(e) => Some(e@),
        None => None,
    })
}

/// A media type that cannot carry a threat: video, audio or image.
pub open spec fn is_safe_media(mime: Seq<char>) -> bool {
    has_prefix(mime, "video/"@) || has_prefix(mime, "audio/"@) || has_prefix(mime, "image/"@)
}

/// Why a file is not scanned, if it is not: too large (when its size is known), or of a
/// safe media type (when its type is recognised).
pub open spec fn spec_skip_reason(size: Option<u64>, mime: Option<Seq<char>>) -> Option<Seq<char>> {
    if size matches Some(s) && s > MAX_FILE_SIZE {
        Some("File exceeds maximum scan size"@)
    } else if mime matches Some(m) && is_safe_media(m) {
        Some("Skipped safe media type: "@ + mime->0)
    } else {
        None
    }
}

/// The view of an optional text.
pub open spec fn opt_text(o: Option<String>) -> Option<Seq<char>> {
    match o {
        Some(s) => Some(s@),
        None => None,
    }
}

/// The result of a file that is not scanned, from its size and its recognised media
/// type; `None` when it is to be scanned.
pub fn skip_check(path: &str, size: Option<u64>, mime: &Option<String>) -> (r: Option<FileResult>)
    ensures
        match spec_skip_reason(size, opt_text(*mime)) {
            Some(reason) => r matches Some(f) && result_fields(f) == skipped_result(path@, reason)
                && f.threats@.len() == 0,
            None => r is None,
        },
{
    if let Some(s) = size {
        if s > MAX_FILE_SIZE {
            return Some(FileResult {
                path: string_of(chars_of(path).as_slice()),
                threats: Vec::new(),
                skipped: true,
                error: Some(string_of(chars_of("File exceeds maximum scan size").as_slice())),
            });
        }
    }
    if let Some(m) = mime {
        let mv = chars_of(m.as_str());
        if starts_with_lit(mv.as_slice(), "video/") || starts_with_lit(mv.as_slice(), "audio/")
            || starts_with_lit(mv.as_slice(), "image/") {
            let mut e = chars_of("Skipped safe media type: ");
            extend_chars(&mut e, mv.as_slice());
            return Some(FileResult {
                path: string_of(chars_of(path).as_slice()),
                threats: Vec::new(),
                skipped: true,
                error: Some(string_of(e.as_slice())),
            });
        }
    }
    None
}

/// The result of a file that could not be read: not skipped, with the read error.
pub fn read_failure(path: &str, error: &str) -> (r: FileResult)
    ensures
        result_fields(r) == (path@, false, Some(error@)),
        r.threats@.len() == 0,
{
    FileResult {
        path: string_of(chars_of(path).as_slice()),
        threats: Vec::new(),
        skipped: false,
        error: Some(string_of(chars_of(error).as_slice())),
    }
}

/// The kinds of archive the scanner recognises.
#[derive(PartialEq, Eq, Structural, Clone, Copy, Debug)]
pub enum ArchiveKind {
    Zip,
    TarGz,
    Tar,
    GzipSingle,
    Unknown,
}

/// What to do with scanned content, at some archive depth, once its own scan is done.
#[derive(PartialEq, Eq, Structural, Clone, Copy, Debug)]
pub enum ArchiveStep {
    /// Nothing more: not an archive, or too deep.
    Done,
    /// An archive of a kind that cannot be opened: its result is marked skipped.
    MarkSkipped,
    /// A zip archive: its entries are extracted and scanned one level deeper.
    ScanEntries,
}

/// What follows the scan of content of the given kind at the given depth.
pub open spec fn spec_archive_step(depth: u32, kind: ArchiveKind) -> ArchiveStep {
    if depth >= MAX_DEPTH {
        ArchiveStep::Done
    } else if kind == ArchiveKind::Unknown {
        ArchiveStep::Done
    } else if kind != ArchiveKind::Zip {
        ArchiveStep::MarkSkipped
    } else {
        ArchiveStep::ScanEntries
    }
}

/// What follows the scan of content of the given kind at the given depth.
pub fn archive_step(depth: u32, kind: ArchiveKind) -> (r: ArchiveStep)
    ensures
        r == spec_archive_step(depth, kind),
{
    if depth >= MAX_DEPTH {
        ArchiveStep::Done
    } else if kind == ArchiveKind::Unknown {
        ArchiveStep::Done
    } else if kind != ArchiveKind::Zip {
        ArchiveStep::MarkSkipped
    } else {
        ArchiveStep::ScanEntries
    }
}

/// An archive entry is scanned when it is at most `MAX_ENTRY_SIZE` bytes long.
pub fn entry_within_limit(len: usize) -> (r: bool)
    ensures
        r == (len <= MAX_ENTRY_SIZE),
{
    len <= MAX_ENTRY_SIZE
}

/// The path under which an archive entry is reported: the archive's path joined with
/// `!/` and the entry's name.
pub open spec fn spec_entry_path(archive: Seq<char>, entry: Seq<char>) -> Seq<char> {
    path_join(archive, "!/"@ + entry)
}

/// The path under which an archive entry is reported.
pub fn archive_entry_path(archive: &str, entry: &str) -> (r: String)
    ensures
        r@ == spec_entry_path(archive@, entry@),
{
    let mut p = chars_of("!/");
    extend_chars(&mut p, chars_of(entry).as_slice());
    string_of(path_join_exec(chars_of(archive).as_slice(), p.as_slice()).as_slice())
}

/// The threats that the rule scans of a file's categories found, category after category.
pub open spec fn scan_threats(outcomes: Seq<Result<Vec<Threat>, String>>) -> Seq<Threat>
    decreases outcomes.len(),
{
    if outcomes.len() == 0 {
        Seq::empty()
    } else {
        scan_threats(outcomes.drop_last()) + match outcomes.last() {
            Ok(ts) => ts@,
            Err(_) => Seq::empty(),
        }
    }
}

/// The error of the last category whose rule scan failed, if any.
pub open spec fn scan_error(outcomes: Seq<Result<Vec<Threat>, String>>) -> Option<Seq<char>>
    decreases outcomes.len(),
{
    if outcomes.len() == 0 {
        None
    } else {
        match outcomes.last() {
            Err(e) => Some("YARA scan error: "@ + e@),
            Ok(_) => scan_error(outcomes.drop_last()),
        }
    }
}

/// The result of content, from the rule scans of each of its categories (in the order of
/// the active categories): every threat found, in order, and the error of the last scan
/// that failed; never skipped.
pub fn combine_rule_scans(path: &str, outcomes: Vec<Result<Vec<Threat>, String>>) -> (r: FileResult)
    ensures
        r.path@ == path@,
        !r.skipped,
        r.threats@ == scan_threats(outcomes@),
        opt_text(r.error) == scan_error(outcomes@),
{
    let ghost os = outcomes@;
    let mut result = FileResult::clean(string_of(chars_of(path).as_slice()));
    let n = outcomes.len();
    let mut rev = crate::sorting::reversed(outcomes);
    let mut i: usize = 0;
    proof {
        assert(os.take(0) =~= Seq::<Result<Vec<Threat>, String>>::empty());
    }
    while rev.len() > 0
        invariant
            i + rev@.len() == os.len(),
            os.len() == n,
            forall|j: int| 0 <= j < rev@.len() ==> #[trigger] rev@[j] == os[os.len() - 1 - j],
            result.path@ == path@,
            !result.skipped,
            result.threats@ == scan_threats(os.take(i as int)),
            opt_text(result.error) == scan_error(os.take(i as int)),
        decreases rev@.len(),
    {
        let o = rev.pop().unwrap();
        proof {
            assert(o == os[i as int]);
            assert(os.take(i + 1).drop_last() =~= os.take(i as int));
            assert(os.take(i + 1).last() == os[i as int]);
        }
        match o {
            Ok(mut ts) => {
                let ghost t0 = result.threats@;
                let ghost tv = ts@;
                result.threats.append(&mut ts);
                assert(result.threats@ == t0 + tv);
            },
            Err(e) => {
                let mut m = chars_of("YARA scan error: ");
                extend_chars(&mut m, chars_of(e.as_str()).as_slice());
                result.error = Some(string_of(m.as_slice()));
            },
        }
        i += 1;
    }
    proof {
        assert(os.take(os.len() as int) =~= os);
    }
    result
}


/// The kind of archive some content is, by its leading bytes: a zip archive starts with
/// `PK` and 3-4, 5-6 or 7-8; a tar archive has `ustar` at offset 257; gzip data starts
/// with 1F 8B; anything else is not an archive the scanner knows.
pub open spec fn spec_detect_archive(b: Seq<u8>) -> ArchiveKind {
    if b.len() >= 4 && b[0] == 0x50 && b[1] == 0x4b && ((b[2] == 3 && b[3] == 4) || (b[2] == 5
        && b[3] == 6) || (b[2] == 7 && b[3] == 8)) {
        ArchiveKind::Zip
    } else if b.len() >= 262 && b[257] == 0x75 && b[258] == 0x73 && b[259] == 0x74 && b[260] == 0x61
        && b[261] == 0x72 {
        ArchiveKind::Tar
    } else if b.len() >= 2 && b[0] == 0x1f && b[1] == 0x8b {
        ArchiveKind::GzipSingle
    } else {
        ArchiveKind::Unknown
    }
}

/// The kind of archive some content is, by its leading bytes.
pub fn detect_archive(b: &[u8]) -> (r: ArchiveKind)
    ensures
        r == spec_detect_archive(b@),
{
    if b.len() >= 4 && b[0] == 0x50 && b[1] == 0x4b && ((b[2] == 3 && b[3] == 4) || (b[2] == 5
        && b[3] == 6) || (b[2] == 7 && b[3] == 8)) {
        ArchiveKind::Zip
    } else if b.len() >= 262 && b[257] == 0x75 && b[258] == 0x73 && b[259] == 0x74 && b[260]
        == 0x61 && b[261] == 0x72 {
        ArchiveKind::Tar
    } else if b.len() >= 2 && b[0] == 0x1f && b[1] == 0x8b {
        ArchiveKind::GzipSingle
    } else {
        ArchiveKind::Unknown
    }
}

} // verus!
