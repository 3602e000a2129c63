//! Which files a directory scan visits.
use vstd::prelude::*;
use crate::text::{chars_of, eq_lit};

verus! {

/// An entry of a directory walk, in the walk's order (a directory before its contents).
pub struct WalkEntry {
    pub path: String,
    /// The last component of the path.
    pub name: String,
    /// 0 for the walk's root, 1 for its direct entries, and so on.
    pub depth: usize,
    pub is_dir: bool,
    /// A regular file (a symbolic link is not followed, and is not one).
    pub is_file: bool,
}

/// System directories that a walk never enters.
pub open spec fn is_system_dir(path: Seq<char>) -> bool {
    path == "/dev"@ || path == "/proc"@ || path == "/sys"@ || path == "/run"@ || path == "/mnt"@
        || path == "/media"@ || path == "/lost+found"@
}

/// Directory names that a walk never enters: version control, dependencies, build
/// output and caches.
pub open spec fn is_skipped_dir_name(name: Seq<char>) -> bool {
    name == ".git"@ || name == ".svn"@ || name == ".hg"@ || name == "node_modules"@ || name
        == "target"@ || name == "vendor"@ || name == "__pycache__"@ || name == "build"@
}

/// An entry the walk keeps: anything but a system directory or a skipped directory name.
pub open spec fn spec_is_valid_entry(path: Seq<char>, name: Seq<char>, is_dir: bool) -> bool {
    !is_dir || (!is_system_dir(path) && !is_skipped_dir_name(name))
}

/// Whether the walk keeps an entry (and, for a directory, enters it).
pub fn is_valid_entry(entry: &WalkEntry) -> (r: bool)
    ensures
        r == spec_is_valid_entry(entry.path@, entry.name@, entry.is_dir),
{
    if !entry.is_dir {
        return true;
    }
    let p = chars_of(entry.path.as_str());
    let p = p.as_slice();
    if eq_lit(p, "/dev") || eq_lit(p, "/proc") || eq_lit(p, "/sys") || eq_lit(p, "/run") || eq_lit(
        p,
        "/mnt",
    ) || eq_lit(p, "/media") || eq_lit(p, "/lost+found") {
        return false;
    }
    let n = chars_of(entry.name.as_str());
    let n = n.as_slice();
    if eq_lit(n, ".git") || eq_lit(n, ".svn") || eq_lit(n, ".hg") || eq_lit(n, "node_modules")
        || eq_lit(n, "target") || eq_lit(n, "vendor") || eq_lit(n, "__pycache__") || eq_lit(
        n,
        "build",
    ) {
        return false;
    }
    true
}

/// The state of a recursive walk after some entries: the depth of the directory being
/// skipped, if any, and the files kept so far.
pub open spec fn walk_state(es: Seq<WalkEntry>) -> (Option<nat>, Seq<Seq<char>>)
    decreases es.len(),
{
    if es.len() == 0 {
        (None, Seq::empty())
    } else {
        let (skip, files) = walk_state(es.drop_last());
        let e = es.last();
        if skip matches Some(d) && e.depth > d {
            (skip, files)
        } else if !spec_is_valid_entry(e.path@, e.name@, e.is_dir) {
            (Some(e.depth as nat), files)
        } else if e.is_file {
            (None, files.push(e.path@))
        } else {
            (None, files)
        }
    }
}

/// The files a recursive walk keeps: the walk does not enter refused directories, so
/// neither they nor anything below them is kept.
pub open spec fn walk_files(es: Seq<WalkEntry>) -> Seq<Seq<char>> {
    walk_state(es).1
}

/// The files directly inside the root (depth 1), in order.
pub open spec fn flat_files(es: Seq<WalkEntry>) -> Seq<Seq<char>>
    decreases es.len(),
{
    if es.len() == 0 {
        Seq::empty()
    } else if es.last().depth == 1 && es.last().is_file {
        flat_files(es.drop_last()).push(es.last().path@)
    } else {
        flat_files(es.drop_last())
    }
}

/// The files a directory scan visits, from the walk of the directory: recursively, every
/// file the walk keeps; otherwise, the files directly inside the directory.
pub fn files_to_scan(recursive: bool, listing: &[WalkEntry]) -> (r: Vec<String>)
    ensures
        crate::text::views(r@) == if recursive {
            walk_files(listing@)
        } else {
            flat_files(listing@)
        },
{
    let mut r: Vec<String> = Vec::new();
    let mut skip: Option<usize> = None;
    let mut i: usize = 0;
    while i < listing.len()
        invariant
            0 <= i <= listing@.len(),
            recursive ==> walk_state(listing@.take(i as int)) == (
                match skip {
                    Some(d) => Some(d as nat),
                    None => None::<nat>,
                },
                crate::text::views(r@),
            ),
            !recursive ==> crate::text::views(r@) == flat_files(listing@.take(i as int)),
        decreases listing@.len() - i,
    {
        let e = &listing[i];
        proof {
            assert(listing@.take(i + 1).drop_last() =~= listing@.take(i as int));
            assert(listing@.take(i + 1).last() == *e);
        }
        let ghost before = crate::text::views(r@);
        if recursive {
            let skipping = match skip {
                Some(d) => e.depth > d,
                None => false,
            };
            if skipping {
            } else if !is_valid_entry(e) {
                skip = Some(e.depth);
            } else {
                skip = None;
                if e.is_file {
                    r.push(e.path.clone());
                    assert(crate::text::views(r@) =~= before.push(e.path@));
                }
            }
        } else {
            if e.depth == 1 && e.is_file {
                r.push(e.path.clone());
                assert(crate::text::views(r@) =~= before.push(e.path@));
            }
        }
        i += 1;
    }
    assert(listing@.take(listing@.len() as int) =~= listing@);
    r
}

proof fn lemma_skipped_entries(s: Seq<WalkEntry>, t: Seq<WalkEntry>, x: nat)
    requires
        walk_state(s).0 == Some(x),
        forall|i: int| 0 <= i < t.len() ==> #[trigger] t[i].depth > x,
    ensures
        walk_state(s + t) == walk_state(s),
    decreases t.len(),
{
    if t.len() == 0 {
        assert(s + t =~= s);
    } else {
        let t0 = t.drop_last();
        lemma_skipped_entries(s, t0, x);
        assert((s + t).drop_last() =~= s + t0);
        assert((s + t).last() == t[t.len() - 1]);
    }
}

proof fn lemma_same_state_same_walk(a: Seq<WalkEntry>, b: Seq<WalkEntry>, r: Seq<WalkEntry>)
    requires
        walk_state(a) == walk_state(b),
    ensures
        walk_state(a + r) == walk_state(b + r),
    decreases r.len(),
{
    if r.len() == 0 {
        assert(a + r =~= a);
        assert(b + r =~= b);
    } else {
        let r0 = r.drop_last();
        lemma_same_state_same_walk(a, b, r0);
        assert((a + r).drop_last() =~= a + r0);
        assert((b + r).drop_last() =~= b + r0);
        assert((a + r).last() == r.last());
        assert((b + r).last() == r.last());
    }
}

/// Nothing below a directory that the walk refuses is ever kept: whatever entries lie
/// below it (deeper, right after it), the walk keeps the same files as without them.
pub proof fn law_refused_subtrees_are_never_kept(p: Seq<WalkEntry>, t: Seq<WalkEntry>, rest: Seq<WalkEntry>)
    requires
        p.len() > 0,
        !spec_is_valid_entry(p.last().path@, p.last().name@, p.last().is_dir),
        forall|i: int| 0 <= i < t.len() ==> #[trigger] t[i].depth > p.last().depth,
    ensures
        walk_files(p + t + rest) == walk_files(p + rest),
{
    let x = walk_state(p).0->0;
    assert(walk_state(p).0 is Some && x <= p.last().depth);
    lemma_skipped_entries(p, t, x);
    lemma_same_state_same_walk(p + t, p, rest);
}


proof fn lemma_skip_below_root(es: Seq<WalkEntry>)
    requires
        forall|i: int| 0 <= i < es.len() ==> (#[trigger] es[i].is_file ==> !es[i].is_dir),
        forall|i: int| 0 <= i < es.len() && #[trigger] es[i].depth == 0 ==> spec_is_valid_entry(es[i].path@, es[i].name@, es[i].is_dir),
    ensures
        walk_state(es).0 matches Some(d) ==> d >= 1,
        forall|x: Seq<char>| flat_files(es).contains(x) ==> walk_files(es).contains(x),
    decreases es.len(),
{
    if es.len() > 0 {
        let d = es.drop_last();
        assert forall|i: int| 0 <= i < d.len() && #[trigger] d[i].depth == 0 implies spec_is_valid_entry(d[i].path@, d[i].name@, d[i].is_dir) by {
            assert(d[i] == es[i]);
        }
        assert forall|i: int| 0 <= i < d.len() && #[trigger] d[i].is_file implies !d[i].is_dir by {
            assert(d[i] == es[i]);
        }
        lemma_skip_below_root(d);
        let e = es.last();
        assert(e.is_file ==> !e.is_dir) by {
            assert(es[es.len() - 1] == e);
        }
        assert(e.depth == 0 ==> spec_is_valid_entry(e.path@, e.name@, e.is_dir)) by {
            assert(es[es.len() - 1] == e);
        }
        let (skip, files) = walk_state(d);
        assert forall|x: Seq<char>| flat_files(es).contains(x) implies walk_files(es).contains(x) by {
            if flat_files(d).contains(x) {
                let k = choose|k: int| 0 <= k < files.len() && files[k] == x;
                assert(walk_files(es)[k] == x);
            } else {
                assert(e.depth == 1 && e.is_file && x == e.path@);
                assert(!(skip matches Some(dd) && e.depth > dd));
                assert(spec_is_valid_entry(e.path@, e.name@, e.is_dir));
                assert(walk_files(es) == files.push(e.path@));
                assert(walk_files(es)[files.len() as int] == x);
            }
        }
    }
}

/// A recursive walk keeps every file that a flat listing keeps, unless the walk's root
/// itself is a directory the walk refuses: the files directly inside the root are never
/// below a refused directory. (Regular files are not directories.)
pub proof fn law_recursive_walk_holds_the_flat_list(es: Seq<WalkEntry>)
    requires
        forall|i: int| 0 <= i < es.len() ==> (#[trigger] es[i].is_file ==> !es[i].is_dir),
        forall|i: int| 0 <= i < es.len() && #[trigger] es[i].depth == 0 ==> spec_is_valid_entry(es[i].path@, es[i].name@, es[i].is_dir),
    ensures
        forall|x: Seq<char>| flat_files(es).contains(x) ==> walk_files(es).contains(x),
{
    lemma_skip_below_root(es);
}

} // verus!
