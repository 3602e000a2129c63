//! The requests and answers of the cleaner plugin.
use vstd::prelude::*;
use crate::text::{chars_of, chars_eq, clone_strings, lowercase_chars, spec_to_lowercase, strip_leading, strip_leading_exec, trim_chars, trim_seq, views};

verus! {

/// Which files a cleaning run is restricted to.
pub struct CleanerFilters {
    pub file_types: Vec<String>,
    pub dry_run: Option<bool>,
}

/// A file type as the filters compare it: trimmed, without leading dots, lowercased.
pub open spec fn spec_normalize_file_type(s: Seq<char>) -> Seq<char> {
    spec_to_lowercase(strip_leading(trim_seq(s), '.'))
}

/// Normalises a file type: trims it, drops its leading dots and lowercases it.
pub fn normalize_file_type(file_type: &str) -> (r: String)
    ensures
        r@ == spec_normalize_file_type(file_type@),
{
    let v = chars_of(file_type);
    let t = trim_chars(v.as_slice());
    let s = strip_leading_exec(t.as_slice(), '.');
    let l = lowercase_chars(s.as_slice());
    crate::text::string_of(l.as_slice())
}

/// A file type passes the filters when none is set or one of them normalises to the same.
pub open spec fn spec_matches_file_type(types: Seq<Seq<char>>, file_type: Seq<char>) -> bool {
    types.len() == 0 || exists|i: int|
        0 <= i < types.len() && spec_normalize_file_type(#[trigger] types[i])
            == spec_normalize_file_type(file_type)
}

impl CleanerFilters {
    /// Whether a file-type filter is set.
    pub fn has_file_type_filter(&self) -> (r: bool)
        ensures
            r == (self.file_types@.len() > 0),
    {
        !self.file_types.is_empty()
    }

    /// Whether a file of the given type passes the filters.
    pub fn matches_file_type(&self, file_type: &str) -> (r: bool)
        ensures
            r == spec_matches_file_type(views(self.file_types@), file_type@),
    {
        if self.file_types.is_empty() {
            return true;
        }
        let target = normalize_file_type(file_type);
        let tv = chars_of(target.as_str());
        let mut i: usize = 0;
        while i < self.file_types.len()
            invariant
                0 <= i <= self.file_types@.len(),
                self.file_types@.len() > 0,
                tv@ == spec_normalize_file_type(file_type@),
                forall|j: int|
                    0 <= j < i ==> spec_normalize_file_type(#[trigger] views(self.file_types@)[j])
                        != spec_normalize_file_type(file_type@),
            decreases self.file_types@.len() - i,
        {
            let n = normalize_file_type(self.file_types[i].as_str());
            let nv = chars_of(n.as_str());
            if chars_eq(nv.as_slice(), tv.as_slice()) {
                proof {
                    assert(views(self.file_types@)[i as int] == self.file_types@[i as int]@);
                }
                return true;
            }
            proof {
                assert(views(self.file_types@)[i as int] == self.file_types@[i as int]@);
            }
            i += 1;
        }
        false
    }
}

/// Whether a candidate is a file or a directory.
pub enum CandidateKind {
    File,
    Directory,
}

/// An entry of a cache directory that could be deleted.
pub struct CleanerCandidate {
    pub path: String,
    pub name: String,
    pub category: String,
    pub kind: CandidateKind,
    pub size: u64,
    pub file_type: String,
}

/// The answer to a candidate listing.
pub struct ListCandidatesResponse {
    pub ok: bool,
    pub items: Vec<CleanerCandidate>,
}

/// A request to delete chosen paths.
pub struct DeleteSelectedRequest {
    pub items: Vec<String>,
    pub paths: Vec<String>,
    pub dry_run: Option<bool>,
    pub file_types: Vec<String>,
}

impl DeleteSelectedRequest {
    /// The chosen paths: `paths` when given, else `items`.
    pub fn selected_paths(&self) -> (r: Vec<String>)
        ensures
            views(r@) == (if self.paths@.len() > 0 {
                views(self.paths@)
            } else {
                views(self.items@)
            }),
    {
        if !self.paths.is_empty() {
            return clone_strings(self.paths.as_slice());
        }
        clone_strings(self.items.as_slice())
    }

    /// The filters of this request.
    pub fn to_filters(&self) -> (r: CleanerFilters)
        ensures
            views(r.file_types@) == views(self.file_types@),
            r.dry_run == self.dry_run,
    {
        CleanerFilters { file_types: clone_strings(self.file_types.as_slice()), dry_run: self.dry_run }
    }
}

/// A path that could not be deleted, and why.
pub struct DeleteFailure {
    pub path: String,
    pub error: String,
}

/// The answer to a delete request.
pub struct DeleteSelectedResponse {
    pub ok: bool,
    pub dry_run: bool,
    pub deleted_count: u64,
    pub deleted_bytes: u64,
    pub failed: Vec<DeleteFailure>,
}

} // verus!
