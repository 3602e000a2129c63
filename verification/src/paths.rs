//! Paths as text, with the component model that `std::path::Path` documents for Unix:
//! `/` separates components, a leading `/` is the root, empty components and `.` are
//! normalised away except for a `.` that begins a relative path.
use vstd::prelude::*;
use crate::text::{chars_eq, split_by, sub_chars};

verus! {

/// The root component.
pub open spec fn root_comp() -> Seq<char> {
    seq!['/']
}

/// The current-directory component.
pub open spec fn cur_comp() -> Seq<char> {
    seq!['.']
}

/// The parent-directory component.
pub open spec fn parent_comp() -> Seq<char> {
    seq!['.', '.']
}

/// A piece between separators that stands for a component of its own.
pub open spec fn keeps_piece(p: Seq<char>) -> bool {
    p.len() > 0 && p != cur_comp()
}

/// The kept pieces of a list, in order.
pub open spec fn kept_pieces(ps: Seq<Seq<char>>) -> Seq<Seq<char>>
    decreases ps.len(),
{
    if ps.len() == 0 {
        Seq::empty()
    } else if keeps_piece(ps.last()) {
        kept_pieces(ps.drop_last()).push(ps.last())
    } else {
        kept_pieces(ps.drop_last())
    }
}

/// The components of a path, each as text (`/` for the root, `.` for a leading current
/// directory).
pub open spec fn components(p: Seq<char>) -> Seq<Seq<char>> {
    let pieces = split_by(p, seq!['/']);
    if p.len() > 0 && p[0] == '/' {
        seq![root_comp()] + kept_pieces(pieces)
    } else if pieces[0] == cur_comp() {
        seq![cur_comp()] + kept_pieces(pieces)
    } else {
        kept_pieces(pieces)
    }
}

/// `Path::starts_with`: the components of `base` begin the components of `p`.
pub open spec fn path_starts_with(p: Seq<char>, base: Seq<char>) -> bool {
    let a = components(p);
    let b = components(base);
    b.len() <= a.len() && a.take(b.len() as int) == b
}

/// `Path::file_name`: the last component when it is a normal one.
pub open spec fn file_name(p: Seq<char>) -> Option<Seq<char>> {
    let c = components(p);
    if c.len() == 0 {
        None
    } else {
        let l = c.last();
        if l == root_comp() || l == cur_comp() || l == parent_comp() {
            None
        } else {
            Some(l)
        }
    }
}

/// Index of the last `.` of a name, if any.
pub open spec fn last_dot(n: Seq<char>) -> Option<int>
    decreases n.len(),
{
    if n.len() == 0 {
        None
    } else if n.last() == '.' {
        Some(n.len() - 1)
    } else {
        last_dot(n.drop_last())
    }
}

/// The stem and extension of a file name, split at its last dot unless that dot begins
/// the name (`.hidden` has no extension; `..` is a name of its own).
pub open spec fn split_name_at_dot(n: Seq<char>) -> (Seq<char>, Option<Seq<char>>) {
    if n == parent_comp() {
        (n, None)
    } else {
        match last_dot(n) {
            Some(d) => if d == 0 {
                (n, None)
            } else {
                (n.take(d), Some(n.skip(d + 1)))
            },
            None => (n, None),
        }
    }
}

/// `Path::extension`.
pub open spec fn extension(p: Seq<char>) -> Option<Seq<char>> {
    match file_name(p) {
        Some(n) => split_name_at_dot(n).1,
        None => None,
    }
}

/// `Path::file_stem`.
pub open spec fn file_stem(p: Seq<char>) -> Option<Seq<char>> {
    match file_name(p) {
        Some(n) => Some(split_name_at_dot(n).0),
        None => None,
    }
}

fn is_cur(p: &[char]) -> (r: bool)
    ensures
        r == (p@ == cur_comp()),
{
    let r = p.len() == 1 && p[0] == '.';
    proof {
        if r {
            assert(p@ =~= cur_comp());
        }
    }
    r
}

fn is_parent(p: &[char]) -> (r: bool)
    ensures
        r == (p@ == parent_comp()),
{
    let r = p.len() == 2 && p[0] == '.' && p[1] == '.';
    proof {
        if r {
            assert(p@ =~= parent_comp());
        }
    }
    r
}

/// The components of a path.
pub fn components_exec(p: &[char]) -> (r: Vec<Vec<char>>)
    ensures
        r@.len() == components(p@).len(),
        forall|i: int| 0 <= i < r@.len() ==> #[trigger] r@[i]@ == components(p@)[i],
{
    let mut out: Vec<Vec<char>> = Vec::new();
    let has_root = p.len() > 0 && p[0] == '/';
    if has_root {
        let mut r = Vec::new();
        r.push('/');
        assert(r@ =~= root_comp());
        out.push(r);
    }
    // the first piece: up to the first separator
    let mut first_end: usize = 0;
    while first_end < p.len() && p[first_end] != '/'
        invariant
            0 <= first_end <= p@.len(),
            forall|j: int| 0 <= j < first_end ==> p@[j] != '/',
        decreases p@.len() - first_end,
    {
        first_end += 1;
    }
    let first = sub_chars(p, 0, first_end);
    proof {
        lemma_first_piece(p@, first_end as int);
    }
    let lead_cur = !has_root && is_cur(first.as_slice());
    if lead_cur {
        let mut c = Vec::new();
        c.push('.');
        assert(c@ =~= cur_comp());
        out.push(c);
    }
    let ghost prefix_len = out@.len();
    let ghost pre = out@;
    // walk the pieces
    let mut cur: Vec<char> = Vec::new();
    let mut i: usize = 0;
    proof {
        assert(p@.take(0) =~= Seq::<char>::empty());
        assert(kept_pieces(split_by(Seq::<char>::empty(), seq!['/']).drop_last()) =~= Seq::<
            Seq<char>,
        >::empty());
    }
    while i < p.len()
        invariant
            0 <= i <= p@.len(),
            out@.len() >= prefix_len,
            out@.take(prefix_len as int) == pre,
            out@.len() - prefix_len == kept_pieces(
                split_by(p@.take(i as int), seq!['/']).drop_last(),
            ).len(),
            forall|k: int|
                0 <= k < out@.len() - prefix_len ==> #[trigger] out@[prefix_len + k]@ == kept_pieces(
                    split_by(p@.take(i as int), seq!['/']).drop_last(),
                )[k],
            cur@ == split_by(p@.take(i as int), seq!['/']).last(),
            split_by(p@.take(i as int), seq!['/']).len() >= 1,
        decreases p@.len() - i,
    {
        let c = p[i];
        let ghost before = split_by(p@.take(i as int), seq!['/']);
        proof {
            assert(p@.take(i + 1).drop_last() =~= p@.take(i as int));
            assert(p@.take(i + 1).last() == c);
        }
        if c == '/' {
            proof {
                assert(seq!['/'][0] == c);
            }
            if cur.len() > 0 && !is_cur(cur.as_slice()) {
                out.push(cur);
            }
            cur = Vec::new();
            proof {
                let after = split_by(p@.take(i + 1), seq!['/']);
                assert(after == before.push(Seq::empty()));
                assert(after.drop_last() =~= before);
                assert(cur@ =~= Seq::<char>::empty());
                assert(before =~= before.drop_last().push(before.last()));
            }
        } else {
            proof {
                assert(!seq!['/'].contains(c));
            }
            cur.push(c);
            proof {
                let after = split_by(p@.take(i + 1), seq!['/']);
                assert(after.drop_last() =~= before.drop_last());
            }
        }
        i += 1;
    }
    let ghost all = split_by(p@.take(i as int), seq!['/']);
    if cur.len() > 0 && !is_cur(cur.as_slice()) {
        out.push(cur);
    }
    proof {
        assert(p@.take(p@.len() as int) =~= p@);
        assert(all =~= all.drop_last().push(all.last()));
        let k = kept_pieces(all);
        assert(out@.len() == components(p@).len());
        assert forall|j: int| 0 <= j < out@.len() implies #[trigger] out@[j]@ == components(
            p@,
        )[j] by {
            if j >= prefix_len {
                assert(out@[prefix_len + (j - prefix_len)]@ == k[j - prefix_len]);
            } else {
                assert(out@[j] == pre[j]);
            }
        }
    }
    out
}

proof fn lemma_first_piece(p: Seq<char>, e: int)
    requires
        0 <= e <= p.len(),
        forall|j: int| 0 <= j < e ==> p[j] != '/',
        e == p.len() || p[e] == '/',
    ensures
        split_by(p, seq!['/'])[0] == p.take(e),
{
    lemma_split_first(p, e);
}

proof fn lemma_split_first(p: Seq<char>, e: int)
    requires
        0 <= e <= p.len(),
        forall|j: int| 0 <= j < e ==> p[j] != '/',
        e == p.len() || p[e] == '/',
    ensures
        split_by(p, seq!['/'])[0] == p.take(e),
        split_by(p, seq!['/']).len() >= 1,
    decreases p.len(),
{
    if p.len() == 0 {
    } else {
        let q = p.drop_last();
        if e == p.len() {
            lemma_split_first(q, e - 1);
            assert(!seq!['/'].contains(p.last())) by {
                assert(p.last() == p[e - 1]);
            }
            let init = split_by(q, seq!['/']);
            if init.len() == 1 {
                assert(q.take(e - 1).push(p.last()) =~= p.take(e));
            } else {
                lemma_split_len(q, e - 1);
            }
        } else {
            lemma_split_first(q, e);
            if e < q.len() {
                lemma_split_ge2(q, e);
            } else {
                assert(seq!['/'][0] == p.last());
            }
        }
    }
}

proof fn lemma_split_ge2(p: Seq<char>, e: int)
    requires
        0 <= e < p.len(),
        p[e] == '/',
    ensures
        split_by(p, seq!['/']).len() >= 2,
    decreases p.len(),
{
    let q = p.drop_last();
    if e == p.len() - 1 {
        lemma_split_nonempty(q);
        assert(seq!['/'][0] == p.last());
    } else {
        lemma_split_ge2(q, e);
    }
}

proof fn lemma_split_nonempty(p: Seq<char>)
    ensures
        split_by(p, seq!['/']).len() >= 1,
    decreases p.len(),
{
    if p.len() > 0 {
        lemma_split_nonempty(p.drop_last());
    }
}

proof fn lemma_split_len(p: Seq<char>, e: int)
    requires
        0 <= e <= p.len(),
        e == p.len(),
        forall|j: int| 0 <= j < e ==> p[j] != '/',
    ensures
        split_by(p, seq!['/']).len() == 1,
    decreases p.len(),
{
    if p.len() > 0 {
        assert(!seq!['/'].contains(p.last())) by {
            assert(p.last() == p[e - 1]);
        }
        lemma_split_len(p.drop_last(), e - 1);
    }
}

} // verus!

verus! {

/// `Path::file_name`.
pub fn file_name_exec(p: &[char]) -> (r: Option<Vec<char>>)
    ensures
        match r {
            Some(n) => file_name(p@) == Some(n@),
            None => file_name(p@) is None,
        },
{
    let mut comps = components_exec(p);
    let n = comps.len();
    if n == 0 {
        return None;
    }
    let l = comps.pop().unwrap();
    proof {
        assert(l@ == components(p@).last());
    }
    let root: Vec<char> = vec!['/'];
    let cur: Vec<char> = vec!['.'];
    let par: Vec<char> = vec!['.', '.'];
    proof {
        assert(root@ =~= root_comp());
        assert(cur@ =~= cur_comp());
        assert(par@ =~= parent_comp());
    }
    if chars_eq(l.as_slice(), root.as_slice()) || chars_eq(l.as_slice(), cur.as_slice())
        || chars_eq(l.as_slice(), par.as_slice()) {
        None
    } else {
        Some(l)
    }
}

fn last_dot_exec(n: &[char]) -> (r: Option<usize>)
    ensures
        match r {
            Some(d) => last_dot(n@) == Some(d as int),
            None => last_dot(n@) is None,
        },
{
    let mut k: usize = n.len();
    assert(n@.take(n@.len() as int) =~= n@);
    while k > 0
        invariant
            0 <= k <= n@.len(),
            last_dot(n@) == last_dot(n@.take(k as int)),
        decreases k,
    {
        if n[k - 1] == '.' {
            proof {
                assert(n@.take(k as int).last() == '.');
            }
            return Some(k - 1);
        }
        proof {
            assert(n@.take(k as int).drop_last() =~= n@.take(k - 1));
        }
        k -= 1;
    }
    None
}

proof fn lemma_last_dot_bound(n: Seq<char>)
    ensures
        last_dot(n) matches Some(d) ==> 0 <= d < n.len() && n[d] == '.',
    decreases n.len(),
{
    if n.len() > 0 && n.last() != '.' {
        lemma_last_dot_bound(n.drop_last());
    }
}

/// Splits a file name into its stem and extension.
pub fn split_name_at_dot_exec(n: &[char]) -> (r: (Vec<char>, Option<Vec<char>>))
    ensures
        r.0@ == split_name_at_dot(n@).0,
        match r.1 {
            Some(e) => split_name_at_dot(n@).1 == Some(e@),
            None => split_name_at_dot(n@).1 is None,
        },
{
    let whole = sub_chars(n, 0, n.len());
    assert(whole@ =~= n@);
    if n.len() == 2 && n[0] == '.' && n[1] == '.' {
        assert(n@ =~= parent_comp());
        return (whole, None);
    }
    proof {
        if n@ == parent_comp() {
            assert(n@[0] == '.' && n@[1] == '.');
        }
    }
    match last_dot_exec(n) {
        Some(d) => {
            proof {
                lemma_last_dot_bound(n@);
            }
            if d == 0 {
                (whole, None)
            } else {
                let stem = sub_chars(n, 0, d);
                let ext = sub_chars(n, d + 1, n.len());
                assert(stem@ =~= n@.take(d as int));
                assert(ext@ =~= n@.skip(d + 1));
                (stem, Some(ext))
            }
        },
        None => (whole, None),
    }
}

/// `Path::extension`.
pub fn extension_exec(p: &[char]) -> (r: Option<Vec<char>>)
    ensures
        match r {
            Some(e) => extension(p@) == Some(e@),
            None => extension(p@) is None,
        },
{
    match file_name_exec(p) {
        Some(n) => split_name_at_dot_exec(n.as_slice()).1,
        None => None,
    }
}

/// `Path::file_stem`.
pub fn file_stem_exec(p: &[char]) -> (r: Option<Vec<char>>)
    ensures
        match r {
            Some(e) => file_stem(p@) == Some(e@),
            None => file_stem(p@) is None,
        },
{
    match file_name_exec(p) {
        Some(n) => Some(split_name_at_dot_exec(n.as_slice()).0),
        None => None,
    }
}

/// `Path::starts_with`: compares whole components.
pub fn path_starts_with_exec(p: &[char], base: &[char]) -> (r: bool)
    ensures
        r == path_starts_with(p@, base@),
{
    let a = components_exec(p);
    let b = components_exec(base);
    if b.len() > a.len() {
        return false;
    }
    let mut i: usize = 0;
    while i < b.len()
        invariant
            0 <= i <= b@.len() <= a@.len(),
            a@.len() == components(p@).len(),
            b@.len() == components(base@).len(),
            forall|j: int| 0 <= j < a@.len() ==> #[trigger] a@[j]@ == components(p@)[j],
            forall|j: int| 0 <= j < b@.len() ==> #[trigger] b@[j]@ == components(base@)[j],
            forall|j: int| 0 <= j < i ==> components(p@)[j] == components(base@)[j],
        decreases b@.len() - i,
    {
        if !chars_eq(a[i].as_slice(), b[i].as_slice()) {
            proof {
                assert(a@[i as int]@ == components(p@)[i as int]);
                assert(b@[i as int]@ == components(base@)[i as int]);
                assert(components(p@).take(b@.len() as int)[i as int] == components(p@)[i as int]);
            }
            return false;
        }
        proof {
            assert(a@[i as int]@ == components(p@)[i as int]);
            assert(b@[i as int]@ == components(base@)[i as int]);
        }
        i += 1;
    }
    assert(components(p@).take(b@.len() as int) =~= components(base@));
    true
}

} // verus!

verus! {

/// `PathBuf::join` on Unix: an absolute `p` replaces `base`; otherwise `p` is appended,
/// with a `/` in between when `base` is non-empty and does not end with one.
pub open spec fn path_join(base: Seq<char>, p: Seq<char>) -> Seq<char> {
    if p.len() > 0 && p[0] == '/' {
        p
    } else if base.len() > 0 && base.last() != '/' {
        base + seq!['/'] + p
    } else {
        base + p
    }
}

/// `PathBuf::join`.
pub fn path_join_exec(base: &[char], p: &[char]) -> (r: Vec<char>)
    ensures
        r@ == path_join(base@, p@),
{
    if p.len() > 0 && p[0] == '/' {
        return sub_chars(p, 0, p.len());
    }
    let mut r = sub_chars(base, 0, base.len());
    if base.len() > 0 && base[base.len() - 1] != '/' {
        r.push('/');
    }
    crate::text::extend_chars(&mut r, p);
    r
}

} // verus!

verus! {

proof fn lemma_split_last_piece(s: Seq<char>, m: Seq<char>)
    requires
        s.len() == 0 || s.last() == '/',
        forall|j: int| 0 <= j < m.len() ==> m[j] != '/',
    ensures
        split_by(s + m, seq!['/']).len() >= 1,
        split_by(s + m, seq!['/']).last() == m,
    decreases m.len(),
{
    lemma_split_nonempty(s + m);
    if m.len() == 0 {
        assert(s + m =~= s);
        if s.len() > 0 {
            assert(seq!['/'].contains(s.last())) by {
                assert(seq!['/'][0] == s.last());
            }
        }
    } else {
        let m0 = m.drop_last();
        lemma_split_last_piece(s, m0);
        assert((s + m).drop_last() =~= s + m0);
        assert((s + m).last() == m.last());
        assert(!seq!['/'].contains(m.last())) by {
            assert(m.last() == m[m.len() - 1]);
        }
        assert(m0.push(m.last()) =~= m);
    }
}

proof fn lemma_kept_last(ps: Seq<Seq<char>>)
    requires
        ps.len() > 0,
        keeps_piece(ps.last()),
    ensures
        kept_pieces(ps).len() > 0,
        kept_pieces(ps).last() == ps.last(),
{
}

/// A name with no `/` that is not `.` or `..`, joined to any directory, is the file name
/// of the joined path.
pub proof fn lemma_file_name_of_join(dir: Seq<char>, name: Seq<char>)
    requires
        name.len() > 0,
        forall|j: int| 0 <= j < name.len() ==> name[j] != '/',
        name != cur_comp(),
        name != parent_comp(),
    ensures
        file_name(path_join(dir, name)) == Some(name),
{
    let p = path_join(dir, name);
    let s = if dir.len() > 0 && dir.last() != '/' { dir + seq!['/'] } else { dir };
    assert(p =~= s + name);
    lemma_split_last_piece(s, name);
    let pieces = split_by(p, seq!['/']);
    lemma_kept_last(pieces);
    let c = components(p);
    assert(c.last() == name);
    assert(name != root_comp()) by {
        assert(name[0] != '/');
    }
}

proof fn lemma_last_dot_suffix(a: Seq<char>, b: Seq<char>)
    requires
        forall|j: int| 0 <= j < b.len() ==> b[j] != '.',
    ensures
        last_dot(a + b) == last_dot(a),
    decreases b.len(),
{
    if b.len() == 0 {
        assert(a + b =~= a);
    } else {
        let b0 = b.drop_last();
        assert((a + b).drop_last() =~= a + b0);
        assert((a + b).last() == b[b.len() - 1]);
        lemma_last_dot_suffix(a, b0);
    }
}

/// A name made of a non-empty stem, a dot and an extension without dots splits into that
/// stem and that extension.
pub proof fn lemma_split_name_suffix(stem: Seq<char>, ext: Seq<char>)
    requires
        stem.len() > 0,
        stem != cur_comp(),
        forall|j: int| 0 <= j < ext.len() ==> ext[j] != '.',
    ensures
        split_name_at_dot(stem + seq!['.'] + ext) == (stem, Some(ext)),
{
    let a = stem + seq!['.'];
    let n = a + ext;
    lemma_last_dot_suffix(a, ext);
    assert(a.drop_last() =~= stem);
    assert(last_dot(a) == Some(stem.len() as int));
    assert(n.take(stem.len() as int) =~= stem);
    assert(n.skip(stem.len() as int + 1) =~= ext);
    assert(n != parent_comp()) by {
        if n == parent_comp() {
            assert(n.len() == 2);
            assert(stem.len() == 1 && ext.len() == 0);
            assert(n[0] == '.');
            assert(n[0] == stem[0]);
            assert(stem =~= cur_comp());
        }
    }
}

} // verus!

verus! {

/// A piece holds none of the separators.
pub open spec fn no_sep(p: Seq<char>, seps: Seq<char>) -> bool {
    forall|j: int| 0 <= j < p.len() ==> !seps.contains(#[trigger] p[j])
}

proof fn lemma_split_pieces_plain(s: Seq<char>, seps: Seq<char>)
    ensures
        forall|i: int| 0 <= i < split_by(s, seps).len() ==> no_sep(#[trigger] split_by(s, seps)[i], seps),
    decreases s.len(),
{
    if s.len() > 0 {
        let init = split_by(s.drop_last(), seps);
        lemma_split_pieces_plain(s.drop_last(), seps);
        crate::text::lemma_split_by_nonempty(s.drop_last(), seps);
        if !seps.contains(s.last()) {
            let l = init.last().push(s.last());
            assert(no_sep(init[init.len() - 1], seps));
            assert(no_sep(l, seps)) by {
                assert forall|j: int| 0 <= j < l.len() implies !seps.contains(#[trigger] l[j]) by {
                    if j < l.len() - 1 {
                        assert(l[j] == init.last()[j]);
                    }
                }
            }
        }
    }
}

proof fn lemma_kept_pieces_plain(ps: Seq<Seq<char>>, seps: Seq<char>)
    requires
        forall|i: int| 0 <= i < ps.len() ==> no_sep(#[trigger] ps[i], seps),
    ensures
        forall|i: int| 0 <= i < kept_pieces(ps).len() ==> no_sep(#[trigger] kept_pieces(ps)[i], seps)
            && keeps_piece(kept_pieces(ps)[i]),
    decreases ps.len(),
{
    if ps.len() > 0 {
        let d = ps.drop_last();
        lemma_kept_pieces_plain(d, seps);
        assert(no_sep(ps[ps.len() - 1], seps));
        let k = kept_pieces(ps);
        assert forall|i: int| 0 <= i < k.len() implies no_sep(#[trigger] k[i], seps) && keeps_piece(k[i]) by {
            if i < kept_pieces(d).len() {
                assert(k[i] == kept_pieces(d)[i]);
            } else {
                assert(k[i] == ps.last());
            }
        }
    }
}

/// A file name is a plain name: not empty, without `/`, and neither `.` nor `..`.
pub proof fn lemma_file_name_plain(p: Seq<char>)
    ensures
        file_name(p) matches Some(n) ==> n.len() > 0 && (forall|j: int| 0 <= j < n.len() ==> n[j] != '/')
            && n != cur_comp() && n != parent_comp(),
{
    let pieces = split_by(p, seq!['/']);
    lemma_split_pieces_plain(p, seq!['/']);
    lemma_kept_pieces_plain(pieces, seq!['/']);
    let k = kept_pieces(pieces);
    let c = components(p);
    if file_name(p) is Some {
        let n = c.last();
        if k.len() == 0 {
            if p.len() > 0 && p[0] == '/' {
                assert(c =~= seq![root_comp()]);
            } else if pieces[0] == cur_comp() {
                assert(c =~= seq![cur_comp()]);
            } else {
                assert(c =~= k);
            }
        } else {
            assert(c.last() == k.last());
            assert(no_sep(k[k.len() - 1], seq!['/']));
            assert forall|j: int| 0 <= j < n.len() implies n[j] != '/' by {
                assert(!seq!['/'].contains(n[j]));
                if n[j] == '/' {
                    assert(seq!['/'][0] == n[j]);
                }
            }
        }
    }
}

} // verus!

verus! {

proof fn lemma_split_append_plain(t: Seq<char>, m: Seq<char>)
    requires
        forall|j: int| 0 <= j < m.len() ==> m[j] != '/',
    ensures
        split_by(t + m, seq!['/']).len() == split_by(t, seq!['/']).len(),
        split_by(t + m, seq!['/']) == split_by(t, seq!['/']).update(
            split_by(t, seq!['/']).len() - 1,
            split_by(t, seq!['/']).last() + m,
        ),
    decreases m.len(),
{
    lemma_split_nonempty(t);
    if m.len() == 0 {
        assert(t + m =~= t);
        let ps = split_by(t, seq!['/']);
        assert(ps.last() + m =~= ps.last());
        assert(ps.update(ps.len() - 1, ps.last()) =~= ps);
    } else {
        let m0 = m.drop_last();
        lemma_split_append_plain(t, m0);
        assert((t + m).drop_last() =~= t + m0);
        assert((t + m).last() == m[m.len() - 1]);
        assert(!seq!['/'].contains(m.last())) by {
            assert(m.last() == m[m.len() - 1]);
        }
        let ps = split_by(t, seq!['/']);
        let q = ps.update(ps.len() - 1, ps.last() + m0);
        assert(q.last() == ps.last() + m0);
        assert((ps.last() + m0).push(m.last()) =~= ps.last() + m);
        assert(q.update(q.len() - 1, q.last().push(m.last())) =~= ps.update(ps.len() - 1, ps.last() + m));
    }
}

proof fn lemma_split_after_sep(s: Seq<char>, m: Seq<char>)
    requires
        forall|j: int| 0 <= j < m.len() ==> m[j] != '/',
    ensures
        split_by(s + seq!['/'] + m, seq!['/']) == split_by(s, seq!['/']).push(m),
        split_by(s + seq!['/'], seq!['/']) == split_by(s, seq!['/']).push(Seq::<char>::empty()),
{
    let t = s + seq!['/'];
    assert(t.drop_last() =~= s);
    assert(seq!['/'].contains(t.last())) by {
        assert(seq!['/'][0] == t.last());
    }
    lemma_split_append_plain(t, m);
    let ps = split_by(s, seq!['/']);
    assert(Seq::<char>::empty() + m =~= m);
    assert(ps.push(Seq::<char>::empty()).update(ps.len() as int, m) =~= ps.push(m));
}

/// Joining a plain name to a directory adds exactly that name to the directory's
/// components, so the joined path lies directly inside the directory.
pub proof fn lemma_components_join(base: Seq<char>, m: Seq<char>)
    requires
        m.len() > 0,
        forall|j: int| 0 <= j < m.len() ==> m[j] != '/',
        m != cur_comp(),
    ensures
        components(path_join(base, m)) == components(base).push(m),
        path_starts_with(path_join(base, m), base),
{
    let j = path_join(base, m);
    assert(keeps_piece(m));
    if base.len() == 0 {
        assert(j =~= m);
        lemma_split_len(m, m.len() as int);
        lemma_first_piece(m, m.len() as int);
        assert(m.take(m.len() as int) =~= m);
        assert(split_by(m, seq!['/']) =~= seq![m]);
        assert(kept_pieces(seq![m]) =~= kept_pieces(Seq::<Seq<char>>::empty()).push(m)) by {
            assert(seq![m].drop_last() =~= Seq::<Seq<char>>::empty());
        }
        assert(split_by(base, seq!['/']) =~= seq![Seq::<char>::empty()]);
        assert(kept_pieces(seq![Seq::<char>::empty()]) =~= Seq::<Seq<char>>::empty()) by {
            assert(seq![Seq::<char>::empty()].drop_last() =~= Seq::<Seq<char>>::empty());
        }
        assert(split_by(base, seq!['/'])[0] != cur_comp()) by {
            assert(split_by(base, seq!['/'])[0].len() == 0);
        }
        assert(components(base) =~= Seq::<Seq<char>>::empty());
        assert(components(j) =~= seq![m]);
    } else {
        let s = if base.last() != '/' { base } else { base.drop_last() };
        assert(j =~= s + seq!['/'] + m);
        lemma_split_after_sep(s, m);
        lemma_split_nonempty(s);
        let ps = split_by(s, seq!['/']);
        assert(split_by(j, seq!['/'])[0] == ps[0]);
        assert(kept_pieces(ps.push(m)) =~= kept_pieces(ps).push(m)) by {
            assert(ps.push(m).drop_last() =~= ps);
        }
        if base.last() == '/' {
            assert(base =~= s + seq!['/']);
            assert(kept_pieces(ps.push(Seq::<char>::empty())) =~= kept_pieces(ps)) by {
                assert(ps.push(Seq::<char>::empty()).drop_last() =~= ps);
            }
            assert(split_by(base, seq!['/'])[0] == ps[0]);
            if s.len() > 0 {
                assert(base[0] == s[0]);
                assert(j[0] == s[0]);
            } else {
                assert(base[0] == '/');
                assert(j[0] == '/');
            }
        } else {
            assert(base[0] == j[0]);
        }
        assert(components(j) =~= components(base).push(m));
    }
    let a = components(j);
    let b = components(base);
    assert(a.take(b.len() as int) =~= b);
}

} // verus!

