//! Plugin identifiers: 16 bytes, written as a hyphenated lowercase UUID.
use vstd::prelude::*;
use crate::scanner::hashing::{hex_digit, hex_seq};

verus! {

/// The hyphenated lowercase text of a 16-byte identifier: the hexadecimal digits of bytes
/// 0-3, 4-5, 6-7, 8-9 and 10-15, separated by `-`.
pub open spec fn uuid_text(b: Seq<u8>) -> Seq<char> {
    hex_seq(b.subrange(0, 4)) + seq!['-'] + hex_seq(b.subrange(4, 6)) + seq!['-'] + hex_seq(
        b.subrange(6, 8),
    ) + seq!['-'] + hex_seq(b.subrange(8, 10)) + seq!['-'] + hex_seq(b.subrange(10, 16))
}

fn hex_digit_exec(d: u8) -> (c: char)
    requires
        d < 16,
    ensures
        c == hex_digit(d as int),
{
    if d < 10 {
        (d + 48) as char
    } else {
        (d - 10 + 97) as char
    }
}

fn push_hex(out: &mut Vec<char>, b: &[u8; 16], from: usize, to: usize)
    requires
        from <= to <= 16,
    ensures
        final(out)@ == old(out)@ + hex_seq(b@.subrange(from as int, to as int)),
{
    let ghost start = out@;
    let mut i = from;
    assert(b@.subrange(from as int, from as int) =~= Seq::<u8>::empty());
    while i < to
        invariant
            from <= i <= to <= 16,
            b@.len() == 16,
            out@ == start + hex_seq(b@.subrange(from as int, i as int)),
        decreases to - i,
    {
        let x = b[i];
        let hi = hex_digit_exec(x / 16);
        let lo = hex_digit_exec(x % 16);
        out.push(hi);
        out.push(lo);
        proof {
            let s = b@.subrange(from as int, i + 1);
            assert(s.drop_last() =~= b@.subrange(from as int, i as int));
            assert(s.last() == x);
            assert(out@ =~= start + hex_seq(s));
        }
        i += 1;
    }
}

/// The hyphenated lowercase text of a plugin identifier.
pub fn format_uuid_bytes(b: &[u8; 16]) -> (r: String)
    ensures
        r@ == uuid_text(b@),
{
    let mut out: Vec<char> = Vec::new();
    push_hex(&mut out, b, 0, 4);
    out.push('-');
    push_hex(&mut out, b, 4, 6);
    out.push('-');
    push_hex(&mut out, b, 6, 8);
    out.push('-');
    push_hex(&mut out, b, 8, 10);
    out.push('-');
    push_hex(&mut out, b, 10, 16);
    assert(out@ =~= uuid_text(b@));
    crate::text::string_of(out.as_slice())
}

/// Whether an identifier is the nil one (all zero bytes), which unidentified plugins carry.
pub fn is_nil_uuid(b: &[u8; 16]) -> (r: bool)
    ensures
        r == (b@ == Seq::new(16, |i: int| 0u8)),
{
    let mut i: usize = 0;
    while i < 16
        invariant
            0 <= i <= 16,
            b@.len() == 16,
            forall|j: int| 0 <= j < i ==> b@[j] == 0,
        decreases 16 - i,
    {
        if b[i] != 0 {
            assert(b@[i as int] != Seq::new(16, |i: int| 0u8)[i as int]);
            return false;
        }
        i += 1;
    }
    assert(b@ =~= Seq::new(16, |i: int| 0u8));
    true
}


/// Whether a text is the hyphenated lowercase text of some 16 bytes.
pub open spec fn is_uuid_text(t: Seq<char>) -> bool {
    exists|b: Seq<u8>| b.len() == 16 && #[trigger] uuid_text(b) == t
}

proof fn lemma_hex_seq_len(d: Seq<u8>)
    ensures
        hex_seq(d).len() == 2 * d.len(),
    decreases d.len(),
{
    if d.len() > 0 {
        lemma_hex_seq_len(d.drop_last());
    }
}

proof fn lemma_hex_digit_injective(x: int, y: int)
    requires
        0 <= x < 16,
        0 <= y < 16,
        hex_digit(x) == hex_digit(y),
    ensures
        x == y,
{
    let cx = hex_digit(x) as int;
    let cy = hex_digit(y) as int;
    assert(cx == if x < 10 { x + 48 } else { x + 87 });
    assert(cy == if y < 10 { y + 48 } else { y + 87 });
}

proof fn lemma_hex_seq_injective(a: Seq<u8>, b: Seq<u8>)
    requires
        a.len() == b.len(),
        hex_seq(a) == hex_seq(b),
    ensures
        a == b,
    decreases a.len(),
{
    if a.len() > 0 {
        let ha = hex_seq(a.drop_last());
        let hb = hex_seq(b.drop_last());
        lemma_hex_seq_len(a.drop_last());
        lemma_hex_seq_len(b.drop_last());
        let n = ha.len() as int;
        let x = a.last() as int;
        let y = b.last() as int;
        assert(hex_seq(a) == ha + seq![hex_digit(x / 16), hex_digit(x % 16)]);
        assert(hex_seq(b) == hb + seq![hex_digit(y / 16), hex_digit(y % 16)]);
        assert(hex_seq(a)[n] == hex_digit(x / 16));
        assert(hex_seq(b)[n] == hex_digit(y / 16));
        assert(hex_seq(a)[n + 1] == hex_digit(x % 16));
        assert(hex_seq(b)[n + 1] == hex_digit(y % 16));
        lemma_hex_digit_injective(x / 16, y / 16);
        lemma_hex_digit_injective(x % 16, y % 16);
        assert(ha =~= hex_seq(a).subrange(0, n));
        assert(hb =~= hex_seq(b).subrange(0, n));
        lemma_hex_seq_injective(a.drop_last(), b.drop_last());
        assert(a =~= a.drop_last().push(a.last()));
        assert(b =~= b.drop_last().push(b.last()));
    }
}

proof fn lemma_uuid_part(a: Seq<u8>, b: Seq<u8>, from: int, to: int, at: int)
    requires
        a.len() == 16,
        b.len() == 16,
        0 <= from <= to <= 16,
        0 <= at,
        at + 2 * (to - from) <= uuid_text(a).len(),
        uuid_text(a) == uuid_text(b),
        uuid_text(a).subrange(at, at + 2 * (to - from)) == hex_seq(a.subrange(from, to)),
        uuid_text(b).subrange(at, at + 2 * (to - from)) == hex_seq(b.subrange(from, to)),
    ensures
        a.subrange(from, to) == b.subrange(from, to),
{
    lemma_hex_seq_injective(a.subrange(from, to), b.subrange(from, to));
}

/// Two identifiers with the same text are the same identifier.
pub proof fn lemma_uuid_text_injective(a: Seq<u8>, b: Seq<u8>)
    requires
        a.len() == 16,
        b.len() == 16,
        uuid_text(a) == uuid_text(b),
    ensures
        a == b,
{
    lemma_hex_seq_len(a.subrange(0, 4));
    lemma_hex_seq_len(a.subrange(4, 6));
    lemma_hex_seq_len(a.subrange(6, 8));
    lemma_hex_seq_len(a.subrange(8, 10));
    lemma_hex_seq_len(a.subrange(10, 16));
    lemma_hex_seq_len(b.subrange(0, 4));
    lemma_hex_seq_len(b.subrange(4, 6));
    lemma_hex_seq_len(b.subrange(6, 8));
    lemma_hex_seq_len(b.subrange(8, 10));
    lemma_hex_seq_len(b.subrange(10, 16));
    let ta = uuid_text(a);
    let tb = uuid_text(b);
    assert(ta.len() == 36);
    assert(ta.subrange(0, 8) =~= hex_seq(a.subrange(0, 4)));
    assert(tb.subrange(0, 8) =~= hex_seq(b.subrange(0, 4)));
    assert(ta.subrange(9, 13) =~= hex_seq(a.subrange(4, 6)));
    assert(tb.subrange(9, 13) =~= hex_seq(b.subrange(4, 6)));
    assert(ta.subrange(14, 18) =~= hex_seq(a.subrange(6, 8)));
    assert(tb.subrange(14, 18) =~= hex_seq(b.subrange(6, 8)));
    assert(ta.subrange(19, 23) =~= hex_seq(a.subrange(8, 10)));
    assert(tb.subrange(19, 23) =~= hex_seq(b.subrange(8, 10)));
    assert(ta.subrange(24, 36) =~= hex_seq(a.subrange(10, 16)));
    assert(tb.subrange(24, 36) =~= hex_seq(b.subrange(10, 16)));
    lemma_uuid_part(a, b, 0, 4, 0);
    lemma_uuid_part(a, b, 4, 6, 9);
    lemma_uuid_part(a, b, 6, 8, 14);
    lemma_uuid_part(a, b, 8, 10, 19);
    lemma_uuid_part(a, b, 10, 16, 24);
    assert forall|i: int| 0 <= i < 16 implies a[i] == b[i] by {
        if i < 4 {
            assert(a.subrange(0, 4)[i] == b.subrange(0, 4)[i]);
        } else if i < 6 {
            assert(a.subrange(4, 6)[i - 4] == b.subrange(4, 6)[i - 4]);
        } else if i < 8 {
            assert(a.subrange(6, 8)[i - 6] == b.subrange(6, 8)[i - 6]);
        } else if i < 10 {
            assert(a.subrange(8, 10)[i - 8] == b.subrange(8, 10)[i - 8]);
        } else {
            assert(a.subrange(10, 16)[i - 10] == b.subrange(10, 16)[i - 10]);
        }
    }
    assert(a =~= b);
}

/// A name for what `Uuid::parse_str` reads from a text: the 16 bytes, or nothing when the
/// text is not a UUID.
pub uninterp spec fn uuid_parse(s: Seq<char>) -> Option<Seq<u8>>;

/// uuid's `Uuid::parse_str`, as bytes. What it accepts (simple, hyphenated, braced or URN
/// text, in either case) is named by `uuid_parse`; the text of its error is not stated.
/// As its documentation promises, it reads the hyphenated form that it writes: the
/// hyphenated lowercase text of 16 bytes gives back those bytes.
#[verifier::external_body]
pub(crate) fn parse_uuid(s: &str) -> (r: Result<[u8; 16], String>)
    ensures
        match r {
            Ok(b) => uuid_parse(s@) == Some(b@),
            Err(_) => uuid_parse(s@) is None,
        },
        r is Err ==> !is_uuid_text(s@),
        r matches Ok(x) ==> (is_uuid_text(s@) ==> uuid_text(x@) == s@),
{
    match uuid::Uuid::parse_str(s) {
        Ok(u) => Ok(*u.as_bytes()),
        Err(e) => Err(e.to_string()),
    }
}

/// uuid's `Display` of a `Uuid`: the hyphenated lowercase text of its bytes.
#[verifier::external_body]
pub(crate) fn uuid_to_string(b: &[u8; 16]) -> (r: String)
    ensures
        r@ == uuid_text(b@),
{
    uuid::Uuid::from_bytes(*b).to_string()
}

/// The identifier a text names, if it is a UUID. The text that `format_uuid_bytes` writes
/// for an identifier names that identifier.
pub fn parse_uuid_16(plugin_uuid_str: Option<&str>) -> (r: Option<[u8; 16]>)
    ensures
        match plugin_uuid_str {
            None => r is None,
            Some(s) => match uuid_parse(s@) {
                Some(b) => r matches Some(x) && x@ == b,
                None => r is None,
            },
        },
        forall|b: Seq<u8>| b.len() == 16 && (plugin_uuid_str matches Some(s) && #[trigger] uuid_text(b) == s@)
            ==> (r matches Some(x) && x@ == b),
{
    match plugin_uuid_str {
        Some(s) => match parse_uuid(s) {
            Ok(b) => {
                proof {
                    assert forall|c: Seq<u8>| c.len() == 16 && #[trigger] uuid_text(c) == s@ implies b@ == c by {
                        lemma_uuid_text_injective(b@, c);
                    }
                }
                Some(b)
            },
            Err(_) => None,
        },
        None => None,
    }
}

} // verus!
