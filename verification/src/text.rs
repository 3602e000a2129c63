//! Character-level text helpers shared by the rest of the library.
//!
//! Strings are reasoned about through their `Seq<char>` views.
use vstd::prelude::*;

verus! {

/// `char::is_whitespace`: the Unicode `White_Space` property.
pub open spec fn is_ws(c: char) -> bool {
    let u = c as u32;
    ||| (0x09 <= u && u <= 0x0d)
    ||| u == 0x20
    ||| u == 0x85
    ||| u == 0xa0
    ||| u == 0x1680
    ||| (0x2000 <= u && u <= 0x200a)
    ||| u == 0x2028
    ||| u == 0x2029
    ||| u == 0x202f
    ||| u == 0x205f
    ||| u == 0x3000
}

/// The sequence without its leading whitespace.
pub open spec fn trim_start_seq(s: Seq<char>) -> Seq<char>
    decreases s.len(),
{
    if s.len() > 0 && is_ws(s[0]) {
        trim_start_seq(s.drop_first())
    } else {
        s
    }
}

/// The sequence without its trailing whitespace.
pub open spec fn trim_end_seq(s: Seq<char>) -> Seq<char>
    decreases s.len(),
{
    if s.len() > 0 && is_ws(s.last()) {
        trim_end_seq(s.drop_last())
    } else {
        s
    }
}

/// `str::trim`: leading and trailing whitespace removed.
pub open spec fn trim_seq(s: Seq<char>) -> Seq<char> {
    trim_end_seq(trim_start_seq(s))
}

/// ASCII lowercase of one character.
pub open spec fn ascii_lower(c: char) -> char {
    if 'A' <= c && c <= 'Z' {
        ((c as u32) + 32) as char
    } else {
        c
    }
}

pub open spec fn ascii_lower_seq(s: Seq<char>) -> Seq<char> {
    s.map_values(|c: char| ascii_lower(c))
}

pub open spec fn is_ascii_seq(s: Seq<char>) -> bool {
    forall|i: int| 0 <= i < s.len() ==> (s[i] as u32) < 128
}

/// `p` is a prefix of `s`.
pub open spec fn has_prefix(s: Seq<char>, p: Seq<char>) -> bool {
    p.len() <= s.len() && s.take(p.len() as int) == p
}

/// `p` occurs in `s` at index `i`.
pub open spec fn occurs_at(s: Seq<char>, p: Seq<char>, i: int) -> bool {
    0 <= i && i + p.len() <= s.len() && s.subrange(i, i + p.len()) == p
}

/// `p` occurs somewhere in `s`.
pub open spec fn has_infix(s: Seq<char>, p: Seq<char>) -> bool {
    exists|i: int| occurs_at(s, p, i)
}

/// Index of the first occurrence of `p` in `s` at or after `i`.
pub open spec fn find_from(s: Seq<char>, p: Seq<char>, i: int) -> Option<int>
    decreases s.len() + 1 - i,
{
    if i < 0 || i + p.len() > s.len() {
        None
    } else if occurs_at(s, p, i) {
        Some(i)
    } else {
        find_from(s, p, i + 1)
    }
}

/// `str::find` with a string pattern: the first occurrence of `p` in `s`.
pub open spec fn find_seq(s: Seq<char>, p: Seq<char>) -> Option<int> {
    find_from(s, p, 0)
}

/// Index of the first `c` in `s` at or after `i`.
pub open spec fn find_char_from(s: Seq<char>, c: char, i: int) -> Option<int>
    decreases s.len() - i,
{
    if i < 0 || i >= s.len() {
        None
    } else if s[i] == c {
        Some(i)
    } else {
        find_char_from(s, c, i + 1)
    }
}

/// `str::find` with a character pattern.
pub open spec fn find_char(s: Seq<char>, c: char) -> Option<int> {
    find_char_from(s, c, 0)
}

/// Every character of `s` differs from `c`.
pub open spec fn lacks_char(s: Seq<char>, c: char) -> bool {
    forall|i: int| 0 <= i < s.len() ==> s[i] != c
}

/// A name for what `str::to_lowercase` returns on text that is not all ASCII (the
/// Unicode lowercase mapping).
pub uninterp spec fn unicode_lowercase(s: Seq<char>) -> Seq<char>;

/// What `str::to_lowercase` returns: on ASCII text, `A`..`Z` mapped onto `a`..`z`;
/// otherwise the Unicode mapping.
pub open spec fn spec_to_lowercase(s: Seq<char>) -> Seq<char> {
    if is_ascii_seq(s) {
        ascii_lower_seq(s)
    } else {
        unicode_lowercase(s)
    }
}

/// Appends one character to a `String` (std's `String::push`).
#[verifier::external_body]
pub(crate) fn push_char(s: &mut String, c: char)
    ensures
        final(s)@ == old(s)@.push(c),
{
    s.push(c);
}

/// std's `str::to_lowercase`. On ASCII text the documentation's Unicode mapping reduces
/// to mapping `A`..`Z` onto `a`..`z`, which is stated; on other text the result is only
/// named, by `unicode_lowercase`.
#[verifier::external_body]
pub(crate) fn std_to_lowercase(s: &str) -> (r: String)
    ensures
        r@ == (if is_ascii_seq(s@) {
            ascii_lower_seq(s@)
        } else {
            unicode_lowercase(s@)
        }),
{
    s.to_lowercase()
}

/// Copies the characters of a string slice into a vector.
pub fn chars_of(s: &str) -> (v: Vec<char>)
    ensures
        v@ == s@,
{
    let mut v: Vec<char> = Vec::new();
    for c in it: s.chars()
        invariant
            v@ == it.seq().take(it.index() as int),
            it.seq() == s@,
    {
        v.push(c);
        assert(v@ =~= it.seq().take(it.index() as int + 1));
    }
    v
}

/// Builds a `String` from characters.
pub fn string_of(v: &[char]) -> (s: String)
    ensures
        s@ == v@,
{
    let mut s = String::new();
    let mut i: usize = 0;
    while i < v.len()
        invariant
            0 <= i <= v@.len(),
            s@ == v@.take(i as int),
        decreases v@.len() - i,
    {
        push_char(&mut s, v[i]);
        assert(s@ =~= v@.take(i as int + 1));
        i += 1;
    }
    assert(v@.take(v@.len() as int) =~= v@);
    s
}

/// `char::is_whitespace`.
pub fn char_is_ws(c: char) -> (b: bool)
    ensures
        b == is_ws(c),
{
    let u = c as u32;
    (0x09 <= u && u <= 0x0d) || u == 0x20 || u == 0x85 || u == 0xa0 || u == 0x1680 || (0x2000
        <= u && u <= 0x200a) || u == 0x2028 || u == 0x2029 || u == 0x202f || u == 0x205f || u
        == 0x3000
}

proof fn lemma_trim_start_skip(s: Seq<char>, i: int)
    requires
        0 <= i <= s.len(),
        forall|j: int| 0 <= j < i ==> is_ws(s[j]),
    ensures
        trim_start_seq(s) == trim_start_seq(s.subrange(i, s.len() as int)),
    decreases i,
{
    if i > 0 {
        assert(s.drop_first().subrange(i - 1, s.drop_first().len() as int) =~= s.subrange(
            i,
            s.len() as int,
        ));
        lemma_trim_start_skip(s.drop_first(), i - 1);
    } else {
        assert(s.subrange(0, s.len() as int) =~= s);
    }
}

proof fn lemma_trim_end_skip(s: Seq<char>, k: int)
    requires
        0 <= k <= s.len(),
        forall|j: int| k <= j < s.len() ==> is_ws(s[j]),
    ensures
        trim_end_seq(s) == trim_end_seq(s.take(k)),
    decreases s.len() - k,
{
    if k < s.len() {
        assert(s.drop_last().take(k) =~= s.take(k));
        lemma_trim_end_skip(s.drop_last(), k);
    } else {
        assert(s.take(k) =~= s);
    }
}

/// `str::trim` on a character sequence.
pub fn trim_chars(v: &[char]) -> (r: Vec<char>)
    ensures
        r@ == trim_seq(v@),
{
    let n = v.len();
    let mut i: usize = 0;
    while i < n && char_is_ws(v[i])
        invariant
            0 <= i <= n,
            n == v@.len(),
            forall|j: int| 0 <= j < i ==> is_ws(v@[j]),
        decreases n - i,
    {
        i += 1;
    }
    proof {
        lemma_trim_start_skip(v@, i as int);
    }
    let ghost rest = v@.subrange(i as int, n as int);
    assert(trim_start_seq(rest) == rest) by {
        if rest.len() > 0 {
            assert(rest[0] == v@[i as int]);
        }
    }
    let mut k: usize = n;
    while k > i && char_is_ws(v[k - 1])
        invariant
            i <= k <= n,
            n == v@.len(),
            forall|j: int| k <= j < n ==> is_ws(v@[j]),
        decreases k,
    {
        k -= 1;
    }
    proof {
        let kk = (k - i) as int;
        assert forall|j: int| kk <= j < rest.len() implies is_ws(rest[j]) by {
            assert(rest[j] == v@[j + i]);
        }
        lemma_trim_end_skip(rest, kk);
        let t = rest.take(kk);
        if t.len() > 0 {
            assert(t.last() == v@[k - 1]);
        }
        assert(trim_end_seq(t) == t);
    }
    let mut r: Vec<char> = Vec::new();
    let mut j: usize = i;
    while j < k
        invariant
            i <= j <= k <= n,
            n == v@.len(),
            r@ == v@.subrange(i as int, j as int),
        decreases k - j,
    {
        r.push(v[j]);
        assert(r@ =~= v@.subrange(i as int, j + 1));
        j += 1;
    }
    assert(r@ =~= rest.take((k - i) as int));
    r
}

/// Lowercases text with `str::to_lowercase`.
pub fn lowercase_chars(v: &[char]) -> (r: Vec<char>)
    ensures
        r@ == spec_to_lowercase(v@),
        is_ascii_seq(v@) ==> r@ == ascii_lower_seq(v@),
{
    let s = string_of(v);
    let l = std_to_lowercase(s.as_str());
    chars_of(l.as_str())
}

/// Elementwise equality of two character sequences.
pub fn chars_eq(a: &[char], b: &[char]) -> (r: bool)
    ensures
        r == (a@ == b@),
{
    if a.len() != b.len() {
        return false;
    }
    let mut i: usize = 0;
    while i < a.len()
        invariant
            0 <= i <= a@.len(),
            a@.len() == b@.len(),
            forall|j: int| 0 <= j < i ==> a@[j] == b@[j],
        decreases a@.len() - i,
    {
        if a[i] != b[i] {
            return false;
        }
        i += 1;
    }
    assert(a@ =~= b@);
    true
}

/// Whether `p` occurs in `s` at index `i`.
pub fn occurs_at_exec(s: &[char], p: &[char], i: usize) -> (r: bool)
    ensures
        r == occurs_at(s@, p@, i as int),
{
    if i > s.len() || p.len() > s.len() - i {
        return false;
    }
    let mut j: usize = 0;
    while j < p.len()
        invariant
            0 <= j <= p@.len(),
            i + p@.len() <= s@.len(),
            s@.len() == s.len(),
            forall|k: int| 0 <= k < j ==> s@[i + k] == p@[k],
        decreases p@.len() - j,
    {
        assert(i + j < s.len());
        if s[i + j] != p[j] {
            assert(s@.subrange(i as int, i + p@.len())[j as int] != p@[j as int]);
            return false;
        }
        j += 1;
    }
    assert(s@.subrange(i as int, i + p@.len()) =~= p@);
    true
}

/// `s.starts_with(p)`.
pub fn starts_with(s: &[char], p: &[char]) -> (r: bool)
    ensures
        r == has_prefix(s@, p@),
{
    let r = occurs_at_exec(s, p, 0);
    proof {
        if p@.len() <= s@.len() {
            assert(s@.subrange(0, p@.len() as int) =~= s@.take(p@.len() as int));
        }
    }
    r
}

/// `s.find(p)`: index of the first occurrence of `p`.
pub fn find(s: &[char], p: &[char]) -> (r: Option<usize>)
    ensures
        match r {
            Some(i) => find_seq(s@, p@) == Some(i as int),
            None => find_seq(s@, p@) is None,
        },
{
    if p.len() > s.len() {
        return None;
    }
    let last = s.len() - p.len();
    let mut i: usize = 0;
    while i <= last
        invariant
            0 <= i <= last + 1,
            last + p@.len() == s@.len(),
            find_from(s@, p@, 0) == find_from(s@, p@, i as int),
        decreases last + 1 - i,
    {
        if occurs_at_exec(s, p, i) {
            return Some(i);
        }
        if i == last {
            assert(find_from(s@, p@, i as int) == find_from(s@, p@, i + 1));
            assert(find_from(s@, p@, i + 1) is None);
            return None;
        }
        i += 1;
    }
    None
}

/// Index of the first occurrence of `c` in `s`.
pub fn find_char_exec(s: &[char], c: char) -> (r: Option<usize>)
    ensures
        match r {
            Some(i) => find_char(s@, c) == Some(i as int),
            None => find_char(s@, c) is None,
        },
{
    let mut i: usize = 0;
    while i < s.len()
        invariant
            0 <= i <= s@.len(),
            find_char_from(s@, c, 0) == find_char_from(s@, c, i as int),
        decreases s@.len() - i,
    {
        if s[i] == c {
            return Some(i);
        }
        i += 1;
    }
    None
}

/// `s.contains(p)`.
pub fn contains(s: &[char], p: &[char]) -> (r: bool)
    ensures
        r == has_infix(s@, p@),
{
    match find(s, p) {
        Some(i) => {
            proof {
                lemma_find_from_some(s@, p@, 0);
            }
            true
        },
        None => {
            proof {
                lemma_find_from_none(s@, p@, 0);
            }
            false
        },
    }
}

/// What `find_from` returns is an occurrence.
pub proof fn lemma_find_from_some(s: Seq<char>, p: Seq<char>, i: int)
    ensures
        find_from(s, p, i) matches Some(k) ==> occurs_at(s, p, k) && i <= k,
    decreases s.len() + 1 - i,
{
    if !(i < 0 || i + p.len() > s.len()) && !occurs_at(s, p, i) {
        lemma_find_from_some(s, p, i + 1);
    }
}

/// `find_from` fails only where no occurrence at or after `i` exists.
pub proof fn lemma_find_from_none(s: Seq<char>, p: Seq<char>, i: int)
    requires
        i >= 0,
    ensures
        find_from(s, p, i) is None ==> forall|k: int| k >= i ==> !occurs_at(s, p, k),
    decreases s.len() + 1 - i,
{
    if !(i + p.len() > s.len()) && !occurs_at(s, p, i) {
        lemma_find_from_none(s, p, i + 1);
    }
}

/// The decimal digit character of `d`.
pub open spec fn digit_char(d: int) -> char {
    (d + 48) as char
}

/// Decimal representation of a natural number, as `u64::to_string` writes it.
pub open spec fn decimal(n: nat) -> Seq<char>
    decreases n,
{
    if n < 10 {
        seq![digit_char(n as int)]
    } else {
        decimal(n / 10).push(digit_char((n % 10) as int))
    }
}

/// Writes `n` in decimal.
pub fn u64_to_chars(n: u64) -> (r: Vec<char>)
    ensures
        r@ == decimal(n as nat),
    decreases n,
{
    let d = (n % 10) as u32;
    let c = char_from_digit(d);
    if n < 10 {
        let mut v = Vec::new();
        v.push(c);
        v
    } else {
        let mut v = u64_to_chars(n / 10);
        v.push(c);
        v
    }
}

fn char_from_digit(d: u32) -> (c: char)
    requires
        d < 10,
    ensures
        c == digit_char(d as int),
{
    match d {
        0 => '0',
        1 => '1',
        2 => '2',
        3 => '3',
        4 => '4',
        5 => '5',
        6 => '6',
        7 => '7',
        8 => '8',
        _ => '9',
    }
}

} // verus!

verus! {

/// Index of the first whitespace character of `s` at or after `i`.
pub open spec fn find_ws_from(s: Seq<char>, i: int) -> Option<int>
    decreases s.len() - i,
{
    if i < 0 || i >= s.len() {
        None
    } else if is_ws(s[i]) {
        Some(i)
    } else {
        find_ws_from(s, i + 1)
    }
}

/// Index of the first whitespace character of `s`.
pub open spec fn find_ws(s: Seq<char>) -> Option<int> {
    find_ws_from(s, 0)
}

/// Index of the first whitespace character.
pub fn find_ws_exec(s: &[char]) -> (r: Option<usize>)
    ensures
        match r {
            Some(i) => find_ws(s@) == Some(i as int),
            None => find_ws(s@) is None,
        },
{
    let mut i: usize = 0;
    while i < s.len()
        invariant
            0 <= i <= s@.len(),
            find_ws_from(s@, 0) == find_ws_from(s@, i as int),
        decreases s@.len() - i,
    {
        if char_is_ws(s[i]) {
            return Some(i);
        }
        i += 1;
    }
    None
}

/// `find_ws_from` finds the first whitespace at or after `i`.
pub proof fn lemma_find_ws_from(s: Seq<char>, i: int)
    requires
        0 <= i,
    ensures
        match find_ws_from(s, i) {
            Some(k) => i <= k < s.len() && is_ws(s[k]) && forall|j: int| i <= j < k ==> !is_ws(s[j]),
            None => forall|j: int| i <= j < s.len() ==> !is_ws(s[j]),
        },
    decreases s.len() - i,
{
    if i < s.len() && !is_ws(s[i]) {
        lemma_find_ws_from(s, i + 1);
    }
}

/// The first whitespace is at `k` when none precedes it.
pub proof fn lemma_find_ws_at(s: Seq<char>, k: int)
    requires
        0 <= k < s.len(),
        is_ws(s[k]),
        forall|j: int| 0 <= j < k ==> !is_ws(s[j]),
    ensures
        find_ws(s) == Some(k),
{
    lemma_find_ws_from(s, 0);
}

/// No whitespace at all.
pub proof fn lemma_find_ws_none(s: Seq<char>)
    requires
        forall|j: int| 0 <= j < s.len() ==> !is_ws(s[j]),
    ensures
        find_ws(s) is None,
{
    lemma_find_ws_from(s, 0);
}

/// A sequence that does not begin with whitespace keeps its start.
pub proof fn lemma_trim_start_noop(s: Seq<char>)
    requires
        s.len() == 0 || !is_ws(s[0]),
    ensures
        trim_start_seq(s) == s,
{
}

/// `trim_start` removes exactly a whitespace prefix.
pub proof fn lemma_trim_start_shape(s: Seq<char>)
    ensures
        exists|i: int|
            0 <= i <= s.len() && trim_start_seq(s) == s.subrange(i, s.len() as int) && (forall|
                j: int,
            | 0 <= j < i ==> is_ws(s[j])) && (i == s.len() || !is_ws(s[i])),
    decreases s.len(),
{
    if s.len() > 0 && is_ws(s[0]) {
        lemma_trim_start_shape(s.drop_first());
        let i = choose|i: int|
            0 <= i <= s.drop_first().len() && trim_start_seq(s.drop_first())
                == s.drop_first().subrange(i, s.drop_first().len() as int) && (forall|j: int|
                0 <= j < i ==> is_ws(s.drop_first()[j])) && (i == s.drop_first().len()
                || !is_ws(s.drop_first()[i]));
        assert(s.drop_first().subrange(i, s.drop_first().len() as int) =~= s.subrange(
            i + 1,
            s.len() as int,
        ));
        assert forall|j: int| 0 <= j < i + 1 implies is_ws(s[j]) by {
            if j > 0 {
                assert(s[j] == s.drop_first()[j - 1]);
            }
        }
        assert(i + 1 == s.len() || !is_ws(s[i + 1])) by {
            if i + 1 < s.len() {
                assert(s[i + 1] == s.drop_first()[i]);
            }
        }
    } else {
        assert(s.subrange(0, s.len() as int) =~= s);
    }
}

/// `trim_end` removes exactly a whitespace suffix.
pub proof fn lemma_trim_end_shape(s: Seq<char>)
    ensures
        exists|k: int|
            0 <= k <= s.len() && trim_end_seq(s) == s.take(k) && (forall|j: int|
                k <= j < s.len() ==> is_ws(s[j])) && (k == 0 || !is_ws(s[k - 1])),
    decreases s.len(),
{
    if s.len() > 0 && is_ws(s.last()) {
        lemma_trim_end_shape(s.drop_last());
        let k = choose|k: int|
            0 <= k <= s.drop_last().len() && trim_end_seq(s.drop_last()) == s.drop_last().take(k)
                && (forall|j: int| k <= j < s.drop_last().len() ==> is_ws(s.drop_last()[j])) && (
            k == 0 || !is_ws(s.drop_last()[k - 1]));
        assert(s.drop_last().take(k) =~= s.take(k));
        assert forall|j: int| k <= j < s.len() implies is_ws(s[j]) by {
            if j < s.len() - 1 {
                assert(s[j] == s.drop_last()[j]);
            }
        }
        assert(k == 0 || !is_ws(s[k - 1])) by {
            if k > 0 {
                assert(s[k - 1] == s.drop_last()[k - 1]);
            }
        }
    } else {
        assert(s.take(s.len() as int) =~= s);
    }
}

/// Characterisation of `trim_end` by its cut point.
pub proof fn lemma_trim_end_at(s: Seq<char>, k: int)
    requires
        0 <= k <= s.len(),
        forall|j: int| k <= j < s.len() ==> is_ws(s[j]),
        k == 0 || !is_ws(s[k - 1]),
    ensures
        trim_end_seq(s) == s.take(k),
{
    lemma_trim_end_skip(s, k);
    if k > 0 {
        assert(s.take(k).last() == s[k - 1]);
    }
    assert(trim_end_seq(s.take(k)) == s.take(k));
}

/// Characterisation of `trim_start` by its cut point.
pub proof fn lemma_trim_start_at(s: Seq<char>, i: int)
    requires
        0 <= i <= s.len(),
        forall|j: int| 0 <= j < i ==> is_ws(s[j]),
        i == s.len() || !is_ws(s[i]),
    ensures
        trim_start_seq(s) == s.subrange(i, s.len() as int),
{
    lemma_trim_start_skip(s, i);
    let r = s.subrange(i, s.len() as int);
    if r.len() > 0 {
        assert(r[0] == s[i]);
    }
    lemma_trim_start_noop(r);
}

/// The result of `trim` is empty or starts and ends with a non-whitespace character.
pub proof fn lemma_trim_shape(s: Seq<char>)
    ensures
        trim_seq(s).len() == 0 || (!is_ws(trim_seq(s)[0]) && !is_ws(trim_seq(s).last())),
        trim_seq(s).len() == 0 <==> (forall|j: int| 0 <= j < s.len() ==> is_ws(s[j])),
{
    lemma_trim_start_shape(s);
    let i = choose|i: int|
        0 <= i <= s.len() && trim_start_seq(s) == s.subrange(i, s.len() as int) && (forall|j: int|
            0 <= j < i ==> is_ws(s[j])) && (i == s.len() || !is_ws(s[i]));
    let a = trim_start_seq(s);
    lemma_trim_end_shape(a);
    let k = choose|k: int|
        0 <= k <= a.len() && trim_end_seq(a) == a.take(k) && (forall|j: int|
            k <= j < a.len() ==> is_ws(a[j])) && (k == 0 || !is_ws(a[k - 1]));
    if k > 0 {
        assert(trim_seq(s)[0] == s[i]);
        assert(trim_seq(s).last() == a[k - 1]);
    } else {
        if i < s.len() {
            assert(a[0] == s[i]);
        }
        assert forall|j: int| 0 <= j < s.len() implies is_ws(s[j]) by {
            if j >= i {
                assert(s[j] == a[j - i]);
            }
        }
    }
    if forall|j: int| 0 <= j < s.len() ==> is_ws(s[j]) {
        if k > 0 {
            assert(a[0] == s[i]);
        }
    }
}

/// Trimming a sequence that neither starts nor ends with whitespace changes nothing.
pub proof fn lemma_trim_noop(s: Seq<char>)
    requires
        s.len() == 0 || (!is_ws(s[0]) && !is_ws(s.last())),
    ensures
        trim_seq(s) == s,
{
    lemma_trim_start_noop(s);
}

/// Trimming is idempotent.
pub proof fn lemma_trim_idempotent(s: Seq<char>)
    ensures
        trim_seq(trim_seq(s)) == trim_seq(s),
{
    lemma_trim_shape(s);
    lemma_trim_noop(trim_seq(s));
}

} // verus!

verus! {

/// Appends characters to a vector.
pub fn extend_chars(dst: &mut Vec<char>, src: &[char])
    ensures
        final(dst)@ == old(dst)@ + src@,
{
    let ghost start = dst@;
    let mut i: usize = 0;
    while i < src.len()
        invariant
            0 <= i <= src@.len(),
            dst@ == start + src@.take(i as int),
        decreases src@.len() - i,
    {
        dst.push(src[i]);
        assert(dst@ =~= start + src@.take(i as int + 1));
        i += 1;
    }
    assert(src@.take(src@.len() as int) =~= src@);
}

/// Copies `v[a..b]`.
pub fn sub_chars(v: &[char], a: usize, b: usize) -> (r: Vec<char>)
    requires
        a <= b <= v@.len(),
    ensures
        r@ == v@.subrange(a as int, b as int),
{
    let mut r: Vec<char> = Vec::new();
    let mut j: usize = a;
    while j < b
        invariant
            a <= j <= b <= v@.len(),
            r@ == v@.subrange(a as int, j as int),
        decreases b - j,
    {
        r.push(v[j]);
        assert(r@ =~= v@.subrange(a as int, j + 1));
        j += 1;
    }
    r
}

/// Elements joined by a separator, as `[..].join(sep)` does.
pub open spec fn join_seq(list: Seq<Seq<char>>, sep: Seq<char>) -> Seq<char>
    decreases list.len(),
{
    if list.len() == 0 {
        Seq::empty()
    } else if list.len() == 1 {
        list[0]
    } else {
        join_seq(list.drop_last(), sep) + sep + list.last()
    }
}

/// The character views of a list of strings.
pub open spec fn views(list: Seq<String>) -> Seq<Seq<char>> {
    list.map_values(|s: String| s@)
}

/// `list.join(sep)`.
pub fn join_strings(list: &[String], sep: &[char]) -> (r: Vec<char>)
    ensures
        r@ == join_seq(views(list@), sep@),
{
    let mut r: Vec<char> = Vec::new();
    let mut i: usize = 0;
    while i < list.len()
        invariant
            0 <= i <= list@.len(),
            r@ == join_seq(views(list@).take(i as int), sep@),
        decreases list@.len() - i,
    {
        let piece = chars_of(list[i].as_str());
        if i > 0 {
            extend_chars(&mut r, sep);
        }
        extend_chars(&mut r, piece.as_slice());
        proof {
            let t = views(list@).take(i + 1);
            assert(t.drop_last() =~= views(list@).take(i as int));
            assert(t.last() == list@[i as int]@);
            if i == 0 {
                assert(r@ =~= t[0]);
            }
        }
        i += 1;
    }
    assert(views(list@).take(list@.len() as int) =~= views(list@));
    r
}

/// Copies a list of strings into a vector.
pub fn clone_strings(list: &[String]) -> (r: Vec<String>)
    ensures
        views(r@) == views(list@),
        r@.len() == list@.len(),
{
    let mut r: Vec<String> = Vec::new();
    let mut i: usize = 0;
    while i < list.len()
        invariant
            0 <= i <= list@.len(),
            r@.len() == i,
            forall|j: int| 0 <= j < i ==> r@[j]@ == list@[j]@,
        decreases list@.len() - i,
    {
        r.push(list[i].clone());
        i += 1;
    }
    assert(views(r@) =~= views(list@));
    r
}

/// After cutting trailing whitespace, trimming gives the same as trimming directly.
pub proof fn lemma_trim_after_trim_end(s: Seq<char>)
    ensures
        trim_seq(trim_end_seq(s)) == trim_seq(s),
{
    lemma_trim_end_shape(s);
    let k = choose|k: int|
        0 <= k <= s.len() && trim_end_seq(s) == s.take(k) && (forall|j: int|
            k <= j < s.len() ==> is_ws(s[j])) && (k == 0 || !is_ws(s[k - 1]));
    lemma_trim_start_shape(s);
    let i = choose|i: int|
        0 <= i <= s.len() && trim_start_seq(s) == s.subrange(i, s.len() as int) && (forall|j: int|
            0 <= j < i ==> is_ws(s[j])) && (i == s.len() || !is_ws(s[i]));
    if k == 0 {
        assert(s.take(0) =~= Seq::<char>::empty());
        lemma_trim_shape(s);
        assert(trim_seq(Seq::<char>::empty()) == Seq::<char>::empty());
    } else {
        assert(i <= k - 1);
        let t = s.take(k);
        lemma_trim_start_at(t, i);
        let u = t.subrange(i, t.len() as int);
        assert(u =~= s.subrange(i, k));
        lemma_trim_end_at(u, u.len() as int);
        assert(u.take(u.len() as int) =~= u);
        let a = s.subrange(i, s.len() as int);
        assert forall|j: int| k - i <= j < a.len() implies is_ws(a[j]) by {
            assert(a[j] == s[j + i]);
        }
        assert(a[k - i - 1] == s[k - 1]);
        lemma_trim_end_at(a, k - i);
        assert(a.take(k - i) =~= s.subrange(i, k));
    }
}

} // verus!

verus! {

/// The pieces of `s` between the characters of `seps`, as `str::split` with a set of
/// separator characters yields them (`n` separators give `n + 1` pieces).
pub open spec fn split_by(s: Seq<char>, seps: Seq<char>) -> Seq<Seq<char>>
    decreases s.len(),
{
    if s.len() == 0 {
        seq![Seq::empty()]
    } else {
        let init = split_by(s.drop_last(), seps);
        if seps.contains(s.last()) {
            init.push(Seq::empty())
        } else {
            init.update(init.len() - 1, init.last().push(s.last()))
        }
    }
}

/// Each piece trimmed, the empty ones dropped.
pub open spec fn keep_trimmed(ps: Seq<Seq<char>>) -> Seq<Seq<char>>
    decreases ps.len(),
{
    if ps.len() == 0 {
        Seq::empty()
    } else if trim_seq(ps.last()).len() > 0 {
        keep_trimmed(ps.drop_last()).push(trim_seq(ps.last()))
    } else {
        keep_trimmed(ps.drop_last())
    }
}

/// `s.split(seps).map(trim).filter(non-empty)`.
pub open spec fn split_trim_nonempty(s: Seq<char>, seps: Seq<char>) -> Seq<Seq<char>> {
    keep_trimmed(split_by(s, seps))
}

pub proof fn lemma_split_by_nonempty(s: Seq<char>, seps: Seq<char>)
    ensures
        split_by(s, seps).len() >= 1,
    decreases s.len(),
{
    if s.len() > 0 {
        lemma_split_by_nonempty(s.drop_last(), seps);
    }
}

fn seps_contains(seps: &[char], c: char) -> (r: bool)
    ensures
        r == seps@.contains(c),
{
    let mut i: usize = 0;
    while i < seps.len()
        invariant
            0 <= i <= seps@.len(),
            forall|j: int| 0 <= j < i ==> seps@[j] != c,
        decreases seps@.len() - i,
    {
        if seps[i] == c {
            assert(seps@[i as int] == c);
            return true;
        }
        i += 1;
    }
    false
}

/// Splits on any separator character, trims each piece and keeps the non-empty ones.
pub fn split_trim_nonempty_exec(s: &str, seps: &[char]) -> (r: Vec<String>)
    ensures
        views(r@) == split_trim_nonempty(s@, seps@),
{
    let v = chars_of(s);
    let mut out: Vec<String> = Vec::new();
    let mut cur: Vec<char> = Vec::new();
    let mut i: usize = 0;
    proof {
        assert(v@.take(0) =~= Seq::<char>::empty());
    }
    while i < v.len()
        invariant
            0 <= i <= v@.len(),
            split_by(v@.take(i as int), seps@).len() >= 1,
            views(out@) == keep_trimmed(split_by(v@.take(i as int), seps@).drop_last()),
            cur@ == split_by(v@.take(i as int), seps@).last(),
        decreases v@.len() - i,
    {
        let c = v[i];
        let ghost pre = split_by(v@.take(i as int), seps@);
        proof {
            assert(v@.take(i + 1).drop_last() =~= v@.take(i as int));
            assert(v@.take(i + 1).last() == c);
        }
        if seps_contains(seps, c) {
            let t = trim_chars(cur.as_slice());
            if t.len() > 0 {
                out.push(string_of(t.as_slice()));
            }
            proof {
                let post = split_by(v@.take(i + 1), seps@);
                assert(post == pre.push(Seq::empty()));
                assert(post.drop_last() =~= pre);
                assert(pre.drop_last() =~= pre.drop_last());
                assert(views(out@) =~= keep_trimmed(pre));
            }
            cur = Vec::new();
            proof {
                assert(cur@ =~= Seq::<char>::empty());
            }
        } else {
            cur.push(c);
            proof {
                let post = split_by(v@.take(i + 1), seps@);
                assert(post.drop_last() =~= pre.drop_last());
            }
        }
        i += 1;
    }
    let t = trim_chars(cur.as_slice());
    let ghost fin = split_by(v@.take(i as int), seps@);
    if t.len() > 0 {
        out.push(string_of(t.as_slice()));
    }
    proof {
        assert(v@.take(v@.len() as int) =~= v@);
        assert(views(out@) =~= keep_trimmed(fin));
    }
    out
}

} // verus!

verus! {

/// Equality of a character sequence with a literal.
pub fn eq_lit(a: &[char], lit: &str) -> (r: bool)
    ensures
        r == (a@ == lit@),
{
    let l = chars_of(lit);
    chars_eq(a, l.as_slice())
}

/// `s.starts_with(lit)`.
pub fn starts_with_lit(a: &[char], lit: &str) -> (r: bool)
    ensures
        r == has_prefix(a@, lit@),
{
    let l = chars_of(lit);
    starts_with(a, l.as_slice())
}

/// All the characters with the Unicode `White_Space` property.
pub open spec fn ws_chars() -> Seq<char> {
    seq![
        '\u{9}', '\u{a}', '\u{b}', '\u{c}', '\u{d}', '\u{20}', '\u{85}', '\u{a0}', '\u{1680}',
        '\u{2000}', '\u{2001}', '\u{2002}', '\u{2003}', '\u{2004}', '\u{2005}', '\u{2006}',
        '\u{2007}', '\u{2008}', '\u{2009}', '\u{200a}', '\u{2028}', '\u{2029}', '\u{202f}',
        '\u{205f}', '\u{3000}',
    ]
}

/// `ws_chars` holds exactly the whitespace characters.
pub proof fn lemma_ws_chars(c: char)
    ensures
        ws_chars().contains(c) <==> is_ws(c),
{
    let w = ws_chars();
    if is_ws(c) {
        let u = c as u32;
        if u == 0x09 { assert(w[0] == c); } else if u == 0x0a { assert(w[1] == c); }
        else if u == 0x0b { assert(w[2] == c); } else if u == 0x0c { assert(w[3] == c); }
        else if u == 0x0d { assert(w[4] == c); } else if u == 0x20 { assert(w[5] == c); }
        else if u == 0x85 { assert(w[6] == c); } else if u == 0xa0 { assert(w[7] == c); }
        else if u == 0x1680 { assert(w[8] == c); } else if u == 0x2000 { assert(w[9] == c); }
        else if u == 0x2001 { assert(w[10] == c); } else if u == 0x2002 { assert(w[11] == c); }
        else if u == 0x2003 { assert(w[12] == c); } else if u == 0x2004 { assert(w[13] == c); }
        else if u == 0x2005 { assert(w[14] == c); } else if u == 0x2006 { assert(w[15] == c); }
        else if u == 0x2007 { assert(w[16] == c); } else if u == 0x2008 { assert(w[17] == c); }
        else if u == 0x2009 { assert(w[18] == c); } else if u == 0x200a { assert(w[19] == c); }
        else if u == 0x2028 { assert(w[20] == c); } else if u == 0x2029 { assert(w[21] == c); }
        else if u == 0x202f { assert(w[22] == c); } else if u == 0x205f { assert(w[23] == c); }
        else { assert(w[24] == c); }
    }
    if w.contains(c) {
        let i = choose|i: int| 0 <= i < w.len() && w[i] == c;
        assert(is_ws(w[i]));
    }
}

/// `str::split_whitespace`: the non-empty runs of non-whitespace characters.
pub open spec fn split_whitespace_seq(s: Seq<char>) -> Seq<Seq<char>> {
    split_trim_nonempty(s, ws_chars())
}

/// `str::split_whitespace`.
pub fn split_whitespace(s: &str) -> (r: Vec<String>)
    ensures
        views(r@) == split_whitespace_seq(s@),
{
    let w: Vec<char> = vec![
        '\u{9}', '\u{a}', '\u{b}', '\u{c}', '\u{d}', '\u{20}', '\u{85}', '\u{a0}', '\u{1680}',
        '\u{2000}', '\u{2001}', '\u{2002}', '\u{2003}', '\u{2004}', '\u{2005}', '\u{2006}',
        '\u{2007}', '\u{2008}', '\u{2009}', '\u{200a}', '\u{2028}', '\u{2029}', '\u{202f}',
        '\u{205f}', '\u{3000}',
    ];
    assert(w@ =~= ws_chars());
    split_trim_nonempty_exec(s, w.as_slice())
}

} // verus!

verus! {

/// The sequence without its leading copies of `c` (`trim_start_matches(c)`).
pub open spec fn strip_leading(s: Seq<char>, c: char) -> Seq<char>
    decreases s.len(),
{
    if s.len() > 0 && s[0] == c {
        strip_leading(s.drop_first(), c)
    } else {
        s
    }
}

proof fn lemma_strip_leading_skip(s: Seq<char>, c: char, i: int)
    requires
        0 <= i <= s.len(),
        forall|j: int| 0 <= j < i ==> s[j] == c,
    ensures
        strip_leading(s, c) == strip_leading(s.subrange(i, s.len() as int), c),
    decreases i,
{
    if i > 0 {
        assert(s.drop_first().subrange(i - 1, s.drop_first().len() as int) =~= s.subrange(
            i,
            s.len() as int,
        ));
        lemma_strip_leading_skip(s.drop_first(), c, i - 1);
    } else {
        assert(s.subrange(0, s.len() as int) =~= s);
    }
}

/// `trim_start_matches(c)` for a single character.
pub fn strip_leading_exec(v: &[char], c: char) -> (r: Vec<char>)
    ensures
        r@ == strip_leading(v@, c),
{
    let mut i: usize = 0;
    while i < v.len() && v[i] == c
        invariant
            0 <= i <= v@.len(),
            forall|j: int| 0 <= j < i ==> v@[j] == c,
        decreases v@.len() - i,
    {
        i += 1;
    }
    proof {
        lemma_strip_leading_skip(v@, c, i as int);
        let rest = v@.subrange(i as int, v@.len() as int);
        if rest.len() > 0 {
            assert(rest[0] == v@[i as int]);
        }
    }
    sub_chars(v, i, v.len())
}

} // verus!

verus! {

/// What `find_char_from` returns is an occurrence, the first one at or after `i`.
pub proof fn lemma_find_char_from_some(s: Seq<char>, c: char, i: int)
    requires
        0 <= i,
    ensures
        match find_char_from(s, c, i) {
            Some(k) => i <= k < s.len() && s[k] == c && forall|j: int| i <= j < k ==> s[j] != c,
            None => forall|j: int| i <= j < s.len() ==> s[j] != c,
        },
    decreases s.len() - i,
{
    if i < s.len() && s[i] != c {
        lemma_find_char_from_some(s, c, i + 1);
    }
}


/// An ASCII decimal digit.
pub open spec fn is_digit(c: char) -> bool {
    '0' <= c <= '9'
}

/// The text of a number without its optional leading `+`.
pub open spec fn unsigned_digits(s: Seq<char>) -> Seq<char> {
    if s.len() > 0 && s[0] == '+' {
        s.drop_first()
    } else {
        s
    }
}

/// Every character is a decimal digit.
pub open spec fn all_digits(s: Seq<char>) -> bool {
    forall|i: int| 0 <= i < s.len() ==> is_digit(#[trigger] s[i])
}

/// The value of a string of decimal digits.
pub open spec fn digits_value(s: Seq<char>) -> nat
    decreases s.len(),
{
    if s.len() == 0 {
        0
    } else {
        digits_value(s.drop_last()) * 10 + (s.last() as nat - '0' as nat) as nat
    }
}

/// What `str::parse` gives for an unsigned integer type whose largest value is `max`: an
/// optional `+`, then one or more decimal digits, whose value is at most `max`.
pub open spec fn spec_parse_unsigned(s: Seq<char>, max: nat) -> Option<nat> {
    let ds = unsigned_digits(s);
    if ds.len() > 0 && all_digits(ds) && digits_value(ds) <= max {
        Some(digits_value(ds))
    } else {
        None
    }
}

proof fn lemma_digits_value_grows(s: Seq<char>, i: int)
    requires
        0 <= i <= s.len(),
        forall|k: int| 0 <= k < s.len() ==> is_digit(#[trigger] s[k]),
    ensures
        digits_value(s.take(i)) <= digits_value(s),
    decreases s.len() - i,
{
    if i < s.len() {
        lemma_digits_value_grows(s, i + 1);
        assert(s.take(i + 1).drop_last() =~= s.take(i));
    } else {
        assert(s.take(i) =~= s);
    }
}

/// Parses an unsigned decimal number as `usize::from_str` does.
pub fn parse_usize(s: &[char]) -> (r: Option<usize>)
    ensures
        match r {
            Some(n) => spec_parse_unsigned(s@, usize::MAX as nat) == Some(n as nat),
            None => spec_parse_unsigned(s@, usize::MAX as nat) is None,
        },
{
    let start: usize = if s.len() > 0 && s[0] == '+' { 1 } else { 0 };
    let ghost ds = unsigned_digits(s@);
    assert(ds =~= s@.skip(start as int));
    if start >= s.len() {
        return None;
    }
    let mut value: usize = 0;
    let mut i: usize = start;
    assert(ds.take(0) =~= Seq::<char>::empty());
    while i < s.len()
        invariant
            start <= i <= s@.len(),
            ds == s@.skip(start as int),
            ds == unsigned_digits(s@),
            forall|k: int| start <= k < i ==> is_digit(#[trigger] s@[k]),
            value == digits_value(ds.take(i - start)),
        decreases s@.len() - i,
    {
        let c = s[i];
        proof {
            assert(ds.take(i - start + 1).drop_last() =~= ds.take(i - start));
            assert(ds.take(i - start + 1).last() == c);
        }
        if !('0' <= c && c <= '9') {
            proof {
                assert(ds[i - start] == c);
                assert(!is_digit(ds[i - start]));
                assert(!all_digits(ds));
            }
            return None;
        }
        let d = (c as u32 - '0' as u32) as usize;
        proof {
            assert(d == (c as nat - '0' as nat) as nat);
            assert(digits_value(ds.take(i - start + 1)) == digits_value(ds.take(i - start)) * 10 + d);
        }
        if value > (usize::MAX - d) / 10 {
            proof {
                let m = usize::MAX as int;
                assert(value * 10 + d > m) by (nonlinear_arith)
                    requires
                        value > (m - d) / 10,
                        0 <= d < 10,
                        m >= 10,
                ;
                if all_digits(ds) {
                    lemma_digits_value_grows(ds, i - start + 1);
                    assert(digits_value(ds) > m);
                }
            }
            return None;
        }
        proof {
            let m = usize::MAX as int;
            assert(value * 10 + d <= m) by (nonlinear_arith)
                requires
                    value <= (m - d) / 10,
                    0 <= d < 10,
                    m >= 10,
            ;
        }
        value = value * 10 + d;
        i += 1;
    }
    assert(ds.take(ds.len() as int) =~= ds);
    Some(value)
}


/// `s.replace(p, t)` from position `i` on: each occurrence of `p`, left to right and
/// without overlap, replaced by `t`.
pub open spec fn replace_from(s: Seq<char>, p: Seq<char>, t: Seq<char>, i: int) -> Seq<char>
    recommends
        p.len() > 0,
    decreases s.len() - i,
{
    if i < 0 || i >= s.len() || p.len() == 0 {
        if 0 <= i <= s.len() { s.subrange(i, s.len() as int) } else { Seq::empty() }
    } else {
        match find_from(s, p, i) {
            None => s.subrange(i, s.len() as int),
            Some(k) => if k + p.len() <= s.len() && k >= i {
                s.subrange(i, k) + t + replace_from(s, p, t, k + p.len())
            } else {
                Seq::empty()
            },
        }
    }
}

/// `s.replace(p, t)` for a non-empty pattern.
pub open spec fn replace_all(s: Seq<char>, p: Seq<char>, t: Seq<char>) -> Seq<char> {
    replace_from(s, p, t, 0)
}

/// Replaces every occurrence of a non-empty pattern, as `str::replace` does.
pub fn replace_all_exec(s: &[char], p: &[char], t: &[char]) -> (r: Vec<char>)
    requires
        p@.len() > 0,
    ensures
        r@ == replace_all(s@, p@, t@),
{
    let mut out: Vec<char> = Vec::new();
    let mut i: usize = 0;
    while i < s.len()
        invariant
            0 <= i <= s@.len(),
            p@.len() > 0,
            out@ + replace_from(s@, p@, t@, i as int) == replace_all(s@, p@, t@),
        decreases s@.len() - i,
    {
        let rest = sub_chars(s, i, s.len());
        match find(rest.as_slice(), p) {
            None => {
                proof {
                    lemma_find_shift_none(s@, p@, i as int);
                }
                extend_chars(&mut out, rest.as_slice());
                proof {
                    assert(replace_from(s@, p@, t@, s@.len() as int) =~= Seq::<char>::empty());
                }
                assert(out@ + replace_from(s@, p@, t@, s@.len() as int) =~= replace_all(s@, p@, t@));
                i = s.len();
            },
            Some(k) => {
                proof {
                    lemma_find_shift_some(s@, p@, i as int, k as int);
                }
                extend_chars(&mut out, sub_chars(rest.as_slice(), 0, k).as_slice());
                extend_chars(&mut out, t);
                proof {
                    assert(rest@.subrange(0, k as int) =~= s@.subrange(i as int, i + k));
                    assert(out@ + replace_from(s@, p@, t@, i + k + p@.len()) =~= replace_all(s@, p@, t@));
                }
                i = i + k + p.len();
            },
        }
    }
    proof {
        assert(replace_from(s@, p@, t@, i as int) =~= Seq::<char>::empty());
        assert(out@ =~= out@ + replace_from(s@, p@, t@, i as int));
    }
    out
}

proof fn lemma_find_shift_from(s: Seq<char>, p: Seq<char>, i: int, j: int)
    requires
        0 <= i <= s.len(),
        0 <= j,
        p.len() > 0,
    ensures
        find_from(s.skip(i), p, j) == match find_from(s, p, i + j) {
            Some(k) => Some(k - i),
            None => None::<int>,
        },
    decreases s.len() - i - j + 1,
{
    let r = s.skip(i);
    if j + p.len() > r.len() {
    } else {
        assert(r.subrange(j, j + p.len()) =~= s.subrange(i + j, i + j + p.len()));
        if !occurs_at(r, p, j) {
            lemma_find_shift_from(s, p, i, j + 1);
        }
    }
}

proof fn lemma_find_shift_none(s: Seq<char>, p: Seq<char>, i: int)
    requires
        0 <= i <= s.len(),
        p.len() > 0,
        find_seq(s.skip(i), p) is None,
    ensures
        find_from(s, p, i) is None,
{
    lemma_find_shift_from(s, p, i, 0);
}

proof fn lemma_find_shift_some(s: Seq<char>, p: Seq<char>, i: int, k: int)
    requires
        0 <= i <= s.len(),
        p.len() > 0,
        find_seq(s.skip(i), p) == Some(k),
    ensures
        find_from(s, p, i) == Some(i + k),
        0 <= k,
        i + k + p.len() <= s.len(),
{
    lemma_find_shift_from(s, p, i, 0);
    lemma_find_from_some(s.skip(i), p, 0);
}


/// `a < b` in the order of `str`: lexicographic by character.
pub open spec fn text_lt(a: Seq<char>, b: Seq<char>) -> bool
    decreases a.len(),
{
    if b.len() == 0 {
        false
    } else if a.len() == 0 {
        true
    } else if a[0] != b[0] {
        a[0] < b[0]
    } else {
        text_lt(a.drop_first(), b.drop_first())
    }
}

/// No text comes before itself.
pub proof fn lemma_text_lt_irreflexive(a: Seq<char>)
    ensures
        !text_lt(a, a),
    decreases a.len(),
{
    if a.len() > 0 {
        lemma_text_lt_irreflexive(a.drop_first());
    }
}

/// The order of texts is transitive.
pub proof fn lemma_text_lt_transitive(a: Seq<char>, b: Seq<char>, c: Seq<char>)
    requires
        text_lt(a, b),
        text_lt(b, c),
    ensures
        text_lt(a, c),
    decreases a.len(),
{
    if a.len() > 0 && b.len() > 0 && c.len() > 0 && a[0] == b[0] && b[0] == c[0] {
        lemma_text_lt_transitive(a.drop_first(), b.drop_first(), c.drop_first());
    }
}

/// Of two texts that differ, one comes before the other.
pub proof fn lemma_text_lt_connected(a: Seq<char>, b: Seq<char>)
    requires
        !text_lt(a, b),
        !text_lt(b, a),
    ensures
        a == b,
    decreases a.len(),
{
    if a.len() == 0 {
        assert(b.len() == 0);
        assert(a =~= b);
    } else if b.len() == 0 {
    } else {
        lemma_text_lt_connected(a.drop_first(), b.drop_first());
        assert(a =~= seq![a[0]] + a.drop_first());
        assert(b =~= seq![b[0]] + b.drop_first());
    }
}

/// "Not before" is transitive: `c <= b <= a` gives `c <= a`.
pub proof fn lemma_text_not_lt_transitive(a: Seq<char>, b: Seq<char>, c: Seq<char>)
    requires
        !text_lt(a, b),
        !text_lt(b, c),
    ensures
        !text_lt(a, c),
{
    if text_lt(a, c) {
        if text_lt(b, a) {
            lemma_text_lt_transitive(b, a, c);
        } else {
            lemma_text_lt_connected(a, b);
        }
    }
}

/// `a < b` for texts.
pub fn text_lt_exec(a: &[char], b: &[char]) -> (r: bool)
    ensures
        r == text_lt(a@, b@),
{
    let mut i: usize = 0;
    assert(a@.skip(0) =~= a@);
    assert(b@.skip(0) =~= b@);
    while i < a.len() && i < b.len()
        invariant
            0 <= i <= a@.len(),
            i <= b@.len(),
            text_lt(a@, b@) == text_lt(a@.skip(i as int), b@.skip(i as int)),
        decreases a@.len() - i,
    {
        proof {
            assert(a@.skip(i as int)[0] == a@[i as int]);
            assert(b@.skip(i as int)[0] == b@[i as int]);
            assert(a@.skip(i as int).drop_first() =~= a@.skip(i + 1));
            assert(b@.skip(i as int).drop_first() =~= b@.skip(i + 1));
        }
        if a[i] != b[i] {
            return a[i] < b[i];
        }
        i += 1;
    }
    proof {
        if i == b@.len() {
            assert(b@.skip(i as int).len() == 0);
        } else {
            assert(a@.skip(i as int).len() == 0);
        }
    }
    i == a.len() && i < b.len()
}


/// Reads a non-empty run of decimal digits whose value is at most `max`.
pub fn parse_digits(ds: &[char], max: u64) -> (r: Option<u64>)
    ensures
        match r {
            Some(n) => ds@.len() > 0 && all_digits(ds@) && digits_value(ds@) == n && n <= max,
            None => !(ds@.len() > 0 && all_digits(ds@) && digits_value(ds@) <= max),
        },
{
    if ds.len() == 0 {
        return None;
    }
    let mut value: u64 = 0;
    let mut i: usize = 0;
    assert(ds@.take(0) =~= Seq::<char>::empty());
    while i < ds.len()
        invariant
            0 <= i <= ds@.len(),
            forall|k: int| 0 <= k < i ==> is_digit(#[trigger] ds@[k]),
            value == digits_value(ds@.take(i as int)),
            value <= max,
        decreases ds@.len() - i,
    {
        let c = ds[i];
        proof {
            assert(ds@.take(i + 1).drop_last() =~= ds@.take(i as int));
            assert(ds@.take(i + 1).last() == c);
        }
        if !('0' <= c && c <= '9') {
            assert(!is_digit(ds@[i as int]));
            return None;
        }
        let d = (c as u32 - '0' as u32) as u64;
        proof {
            assert(digits_value(ds@.take(i + 1)) == digits_value(ds@.take(i as int)) * 10 + d);
        }
        if d > max || value > (max - d) / 10 {
            proof {
                let m = max as int;
                if d <= max {
                    assert(value * 10 + d > m) by (nonlinear_arith)
                        requires
                            value > (m - d) / 10,
                            0 <= d <= m,
                    ;
                }
                if all_digits(ds@) {
                    lemma_digits_value_grows(ds@, i + 1);
                }
            }
            return None;
        }
        proof {
            let m = max as int;
            assert(value * 10 + d <= m) by (nonlinear_arith)
                requires
                    value <= (m - d) / 10,
                    0 <= d <= m,
            ;
        }
        value = value * 10 + d;
        i += 1;
    }
    assert(ds@.take(ds@.len() as int) =~= ds@);
    Some(value)
}

/// What `str::parse::<i64>` gives: an optional sign, then one or more decimal digits,
/// within the range of `i64`.
pub open spec fn spec_parse_i64(s: Seq<char>) -> Option<int> {
    if s.len() > 0 && s[0] == '-' {
        let ds = s.drop_first();
        if ds.len() > 0 && all_digits(ds) && digits_value(ds) <= 0x8000_0000_0000_0000 {
            Some(-(digits_value(ds) as int))
        } else {
            None
        }
    } else {
        match spec_parse_unsigned(s, 0x7fff_ffff_ffff_ffff) {
            Some(n) => Some(n as int),
            None => None,
        }
    }
}

/// Parses a signed decimal number as `i64::from_str` does.
pub fn parse_i64(s: &[char]) -> (r: Option<i64>)
    ensures
        match r {
            Some(n) => spec_parse_i64(s@) == Some(n as int),
            None => spec_parse_i64(s@) is None,
        },
{
    if s.len() > 0 && s[0] == '-' {
        let ds = sub_chars(s, 1, s.len());
        assert(ds@ =~= s@.drop_first());
        match parse_digits(ds.as_slice(), 0x8000_0000_0000_0000) {
            Some(v) => {
                if v == 0x8000_0000_0000_0000 {
                    Some(i64::MIN)
                } else {
                    Some(-(v as i64))
                }
            },
            None => None,
        }
    } else {
        let plus = s.len() > 0 && s[0] == '+';
        let ds = if plus { sub_chars(s, 1, s.len()) } else { sub_chars(s, 0, s.len()) };
        assert(ds@ =~= unsigned_digits(s@));
        match parse_digits(ds.as_slice(), 0x7fff_ffff_ffff_ffff) {
            Some(v) => Some(v as i64),
            None => None,
        }
    }
}

} // verus!

verus! {

proof fn lemma_find_trailing(stem: Seq<char>, p: Seq<char>, i: int)
    requires
        p.len() > 0,
        0 <= i <= stem.len(),
        lacks_char(stem, p[0]),
    ensures
        find_from(stem + p, p, i) == Some(stem.len() as int),
    decreases stem.len() - i,
{
    let s = stem + p;
    if i == stem.len() {
        assert(s.subrange(i, i + p.len()) =~= p);
    } else {
        assert(s.subrange(i, i + p.len())[0] == stem[i]);
        assert(!occurs_at(s, p, i));
        lemma_find_trailing(stem, p, i + 1);
    }
}

/// Replacing a pattern that occurs only at the end of a text, where its first character
/// occurs nowhere before, replaces that one occurrence.
pub proof fn lemma_replace_trailing(stem: Seq<char>, p: Seq<char>, t: Seq<char>)
    requires
        p.len() > 0,
        lacks_char(stem, p[0]),
    ensures
        replace_all(stem + p, p, t) == stem + t,
{
    let s = stem + p;
    lemma_find_trailing(stem, p, 0);
    if stem.len() + p.len() > 0 {
        assert(s.subrange(0, stem.len() as int) =~= stem);
        assert(replace_from(s, p, t, s.len() as int) =~= Seq::<char>::empty());
        assert(stem + t + Seq::<char>::empty() =~= stem + t);
    }
}

} // verus!

verus! {

proof fn lemma_find_first_from(s: Seq<char>, p: Seq<char>, i: int, k: int)
    requires
        0 <= i <= k,
        occurs_at(s, p, k),
        forall|j: int| 0 <= j < k ==> !occurs_at(s, p, j),
    ensures
        find_from(s, p, i) == Some(k),
    decreases k - i,
{
    if i < k {
        lemma_find_first_from(s, p, i + 1, k);
    }
}

/// The first occurrence of a pattern is where it occurs with no occurrence before.
pub proof fn lemma_find_first(s: Seq<char>, p: Seq<char>, k: int)
    requires
        0 <= k,
        occurs_at(s, p, k),
        forall|j: int| 0 <= j < k ==> !occurs_at(s, p, j),
    ensures
        find_seq(s, p) == Some(k),
{
    lemma_find_first_from(s, p, 0, k);
}

} // verus!

