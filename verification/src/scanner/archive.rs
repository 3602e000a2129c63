//! Reading the entries of an archive found inside scanned content.
use vstd::prelude::*;
use std::io::Cursor;
use zip::ZipArchive;
use crate::scanner::scan_file::ArchiveKind;

verus! {

#[verifier::external_type_specification]
#[verifier::external_body]
#[verifier::reject_recursive_types(T)]
pub struct ExCursor<T>(std::io::Cursor<T>);

#[verifier::external_type_specification]
#[verifier::external_body]
#[verifier::reject_recursive_types(R)]
pub struct ExZipArchive<R>(zip::ZipArchive<R>);

/// An entry of a zip archive as plain values: whether it can be opened, its name (decoded
/// as the archive says, or else read as lossy UTF-8), whether it is a regular file, and
/// the bytes that reading it gives.
pub type ZipItem = (bool, Seq<char>, bool, Seq<u8>);

/// A name for what zip's `ZipArchive::new` reads from some bytes: the archive's entries,
/// or nothing when the bytes are not a readable zip archive.
pub uninterp spec fn zip_parse(data: Seq<u8>) -> Option<Seq<ZipItem>>;

/// A name for the entries of an open zip archive.
pub uninterp spec fn zip_items(a: ZipArchive<Cursor<Vec<u8>>>) -> Seq<ZipItem>;

/// zip's `ZipArchive::new` over the bytes: the archive when they are one, with the entries
/// named by `zip_parse`.
#[verifier::external_body]
fn zip_open(data: Vec<u8>) -> (r: Option<ZipArchive<Cursor<Vec<u8>>>>)
    ensures
        r is Some <==> zip_parse(data@) is Some,
        r matches Some(a) ==> zip_parse(data@) == Some(zip_items(a)),
{
    ZipArchive::new(Cursor::new(data)).ok()
}

/// zip's `ZipArchive::len`: the number of entries.
#[verifier::external_body]
fn zip_len(a: &ZipArchive<Cursor<Vec<u8>>>) -> (r: usize)
    ensures
        r == zip_items(*a).len(),
{
    a.len()
}

/// zip's `ZipArchive::by_index` and the entry's `name` and `is_file`: `None` when the
/// entry cannot be opened. A name that cannot be decoded is read from its raw bytes
/// (`name_raw`) as lossy UTF-8, so that every entry that opens keeps a name. The entries
/// are unchanged.
#[verifier::external_body]
fn zip_entry_info(a: &mut ZipArchive<Cursor<Vec<u8>>>, i: usize) -> (r: Option<(String, bool)>)
    requires
        i < zip_items(*old(a)).len(),
    ensures
        zip_items(*final(a)) == zip_items(*old(a)),
        match r {
            Some((n, f)) => zip_items(*old(a))[i as int].0 && n@ == zip_items(*old(a))[i as int].1
                && f == zip_items(*old(a))[i as int].2,
            None => !zip_items(*old(a))[i as int].0,
        },
{
    match a.by_index(i) {
        Ok(f) => match f.name() {
            Ok(n) => Some((n.to_string(), f.is_file())),
            Err(_) => Some((String::from_utf8_lossy(f.name_raw()).into_owned(), f.is_file())),
        },
        Err(_) => None,
    }
}

/// zip's `ZipArchive::by_index` read to its end (`std::io::copy` into a buffer): the bytes
/// of an entry that can be opened. The entries are unchanged.
#[verifier::external_body]
fn zip_entry_bytes(a: &mut ZipArchive<Cursor<Vec<u8>>>, i: usize) -> (r: Vec<u8>)
    requires
        i < zip_items(*old(a)).len(),
        zip_items(*old(a))[i as int].0,
    ensures
        zip_items(*final(a)) == zip_items(*old(a)),
        r@ == zip_items(*old(a))[i as int].3,
{
    let mut buf = Vec::new();
    if let Ok(mut f) = a.by_index(i) {
        std::io::copy(&mut f, &mut buf).ok();
    }
    buf
}

/// A file found inside an archive.
pub struct ArchiveEntry {
    /// Its path inside the archive.
    pub name: String,
    pub bytes: Vec<u8>,
}

/// The regular files among entries that can be opened, with their names and bytes, in
/// order.
pub open spec fn file_entries(items: Seq<ZipItem>) -> Seq<(Seq<char>, Seq<u8>)>
    decreases items.len(),
{
    if items.len() == 0 {
        Seq::empty()
    } else {
        let prev = file_entries(items.drop_last());
        let it = items.last();
        if it.0 && it.2 {
            prev.push((it.1, it.3))
        } else {
            prev
        }
    }
}

/// The plain values of archive entries.
pub open spec fn entries_view(v: Seq<ArchiveEntry>) -> Seq<(Seq<char>, Seq<u8>)> {
    v.map_values(|e: ArchiveEntry| (e.name@, e.bytes@))
}

/// The files of a zip archive: none when the bytes are not one; else every regular file
/// that can be opened, in order.
pub fn extract_zip(bytes: &[u8]) -> (r: Vec<ArchiveEntry>)
    ensures
        match zip_parse(bytes@) {
            None => r@.len() == 0,
            Some(items) => entries_view(r@) == file_entries(items),
        },
{
    let mut data: Vec<u8> = Vec::new();
    let mut k: usize = 0;
    while k < bytes.len()
        invariant
            0 <= k <= bytes@.len(),
            data@ == bytes@.take(k as int),
        decreases bytes@.len() - k,
    {
        data.push(bytes[k]);
        assert(data@ =~= bytes@.take(k + 1));
        k += 1;
    }
    assert(bytes@.take(bytes@.len() as int) =~= bytes@);
    let mut archive = match zip_open(data) {
        None => return Vec::new(),
        Some(a) => a,
    };
    let ghost items = zip_items(archive);
    let n = zip_len(&archive);
    let mut entries: Vec<ArchiveEntry> = Vec::new();
    let mut i: usize = 0;
    assert(items.take(0) =~= Seq::<ZipItem>::empty());
    assert(entries_view(entries@) =~= Seq::<(Seq<char>, Seq<u8>)>::empty());
    while i < n
        invariant
            0 <= i <= n,
            n == items.len(),
            zip_items(archive) == items,
            entries_view(entries@) == file_entries(items.take(i as int)),
        decreases n - i,
    {
        proof {
            assert(items.take(i + 1).drop_last() =~= items.take(i as int));
            assert(items.take(i + 1).last() == items[i as int]);
        }
        match zip_entry_info(&mut archive, i) {
            Some((name, true)) => {
                let b = zip_entry_bytes(&mut archive, i);
                let ghost before = entries_view(entries@);
                entries.push(ArchiveEntry { name, bytes: b });
                assert(entries_view(entries@) =~= before.push((items[i as int].1, items[i as int].3)));
            },
            _ => {},
        }
        i += 1;
    }
    assert(items.take(n as int) =~= items);
    entries
}

/// The files inside an archive of the given kind: those of a zip archive; none for the
/// kinds that cannot be opened.
pub fn extract_entries(bytes: &[u8], kind: &ArchiveKind) -> (r: Vec<ArchiveEntry>)
    ensures
        *kind == ArchiveKind::Zip ==> match zip_parse(bytes@) {
            None => r@.len() == 0,
            Some(items) => entries_view(r@) == file_entries(items),
        },
        *kind != ArchiveKind::Zip ==> r@.len() == 0,
{
    match kind {
        ArchiveKind::Zip => extract_zip(bytes),
        _ => Vec::new(),
    }
}

} // verus!
