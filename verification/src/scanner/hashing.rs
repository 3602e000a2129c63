//! The signature database of known malware hashes, and hashing with SHA-256.
use vstd::prelude::*;
use sha2::Digest;
use crate::scanner::data_type::{Severity, Threat};
use crate::text::{ascii_lower_seq, chars_eq, chars_of, extend_chars, is_ascii_seq, lowercase_chars, spec_to_lowercase, string_of, sub_chars, trim_chars, trim_seq, views};

verus! {

/// A name for the SHA-256 digest of some bytes.
pub uninterp spec fn sha256(data: Seq<u8>) -> Seq<u8>;

/// SHA-256 of some bytes (the `Digest::digest` of sha2's `Sha256`): a 32-byte digest,
/// named by `sha256`.
#[verifier::external_body]
fn sha256_digest(data: &[u8]) -> (r: Vec<u8>)
    ensures
        r@ == sha256(data@),
        r@.len() == 32,
{
    sha2::Sha256::digest(data).to_vec()
}

/// The lowercase hexadecimal digit of `d`, below 16.
pub open spec fn hex_digit(d: int) -> char {
    if d < 10 {
        (d + 48) as char
    } else {
        (d - 10 + 97) as char
    }
}

/// Bytes in lowercase hexadecimal, two digits per byte, high digit first.
pub open spec fn hex_seq(data: Seq<u8>) -> Seq<char>
    decreases data.len(),
{
    if data.len() == 0 {
        Seq::empty()
    } else {
        hex_seq(data.drop_last()) + seq![
            hex_digit(data.last() as int / 16),
            hex_digit(data.last() as int % 16),
        ]
    }
}

/// hex's `encode`: each byte as two lowercase hexadecimal digits.
#[verifier::external_body]
fn hex_encode(data: &[u8]) -> (r: String)
    ensures
        r@ == hex_seq(data@),
{
    hex::encode(data)
}

/// The hexadecimal text of some bytes is twice as long, and its digits are lowercase.
pub proof fn lemma_hex_shape(data: Seq<u8>)
    ensures
        hex_seq(data).len() == 2 * data.len(),
        forall|i: int|
            0 <= i < hex_seq(data).len() ==> ('0' <= #[trigger] hex_seq(data)[i] <= '9' || 'a'
                <= hex_seq(data)[i] <= 'f'),
    decreases data.len(),
{
    if data.len() > 0 {
        lemma_hex_shape(data.drop_last());
        let h = hex_seq(data.drop_last());
        let t = seq![hex_digit(data.last() as int / 16), hex_digit(data.last() as int % 16)];
        assert forall|i: int| 0 <= i < hex_seq(data).len() implies ('0' <= #[trigger] hex_seq(
            data,
        )[i] <= '9' || 'a' <= hex_seq(data)[i] <= 'f') by {
            if i < h.len() {
                assert(hex_seq(data)[i] == h[i]);
            } else {
                assert(hex_seq(data)[i] == t[i - h.len()]);
            }
        }
    }
}

/// Lowercase hexadecimal text is its own lowercase.
proof fn lemma_hex_lowercase(data: Seq<u8>)
    ensures
        spec_to_lowercase(hex_seq(data)) == hex_seq(data),
{
    lemma_hex_shape(data);
    let h = hex_seq(data);
    assert(is_ascii_seq(h));
    assert(ascii_lower_seq(h) =~= h);
}

/// The SHA-256 hash of some bytes, in lowercase hexadecimal.
pub open spec fn spec_hash_hex(data: Seq<u8>) -> Seq<char> {
    hex_seq(sha256(data))
}

/// The SHA-256 hash of some bytes, in lowercase hexadecimal (64 digits).
pub fn hash_contents(bytes: &[u8]) -> (r: String)
    ensures
        r@ == spec_hash_hex(bytes@),
        r@.len() == 64,
{
    let d = sha256_digest(bytes);
    proof {
        lemma_hex_shape(d@);
    }
    hex_encode(d.as_slice())
}

/// A database line holds a hash when, trimmed, it is neither empty nor a `#` comment.
pub open spec fn holds_hash(line: Seq<char>) -> bool {
    trim_seq(line).len() > 0 && trim_seq(line)[0] != '#'
}

/// The hashes of the database's lines, in order: each kept line trimmed and lowercased.
pub open spec fn db_entries(lines: Seq<Seq<char>>) -> Seq<Seq<char>>
    decreases lines.len(),
{
    if lines.len() == 0 {
        Seq::empty()
    } else if holds_hash(lines.last()) {
        db_entries(lines.drop_last()).push(spec_to_lowercase(trim_seq(lines.last())))
    } else {
        db_entries(lines.drop_last())
    }
}

/// The set of known malware hashes, in lowercase hexadecimal.
pub struct SignatureDb {
    hashes: Vec<String>,
}

impl View for SignatureDb {
    type V = Set<Seq<char>>;

    closed spec fn view(&self) -> Set<Seq<char>> {
        views(self.hashes@).to_set()
    }
}

impl SignatureDb {
    /// No hash is held twice.
    #[verifier::type_invariant]
    closed spec fn inv(self) -> bool {
        views(self.hashes@).no_duplicates()
    }

    /// The database of the lines of a hash file: every line that, trimmed, is neither empty
    /// nor a `#` comment gives a hash, trimmed and lowercased.
    pub fn from_lines(lines: &[String]) -> (r: SignatureDb)
        ensures
            r@ == db_entries(views(lines@)).to_set(),
    {
        let ghost ls = views(lines@);
        let mut hashes: Vec<String> = Vec::new();
        let mut i: usize = 0;
        proof {
            assert(views(hashes@) =~= Seq::<Seq<char>>::empty());
            assert(ls.take(0) =~= Seq::<Seq<char>>::empty());
            assert(views(hashes@).to_set() =~= db_entries(ls.take(0)).to_set());
        }
        while i < lines.len()
            invariant
                0 <= i <= lines@.len(),
                ls == views(lines@),
                views(hashes@).no_duplicates(),
                views(hashes@).to_set() == db_entries(ls.take(i as int)).to_set(),
            decreases lines@.len() - i,
        {
            proof {
                assert(ls.take(i + 1).drop_last() =~= ls.take(i as int));
                assert(ls.take(i + 1).last() == lines@[i as int]@);
            }
            let t = trim_chars(chars_of(lines[i].as_str()).as_slice());
            if t.len() > 0 && t[0] != '#' {
                let h = lowercase_chars(t.as_slice());
                let ghost hv = h@;
                let mut found = false;
                let mut k: usize = 0;
                while k < hashes.len()
                    invariant
                        0 <= k <= hashes@.len(),
                        h@ == hv,
                        found == exists|j: int| 0 <= j < k && #[trigger] views(hashes@)[j] == hv,
                    decreases hashes@.len() - k,
                {
                    if chars_eq(chars_of(hashes[k].as_str()).as_slice(), h.as_slice()) {
                        assert(views(hashes@)[k as int] == hv);
                        found = true;
                    }
                    k += 1;
                }
                let ghost before = views(hashes@);
                if !found {
                    hashes.push(string_of(h.as_slice()));
                    proof {
                        assert(views(hashes@) =~= before.push(hv));
                        before.lemma_push_to_set_commute(hv);
                        assert forall|a: int, b: int|
                            0 <= a < views(hashes@).len() && 0 <= b < views(hashes@).len() && a
                                != b implies views(hashes@)[a] != views(hashes@)[b] by {
                            if a < before.len() && b < before.len() {
                                assert(views(hashes@)[a] == before[a]);
                                assert(views(hashes@)[b] == before[b]);
                            } else if a < before.len() {
                                assert(views(hashes@)[a] == before[a]);
                            } else {
                                assert(views(hashes@)[b] == before[b]);
                            }
                        }
                    }
                } else {
                    proof {
                        let j = choose|j: int| 0 <= j < before.len() && #[trigger] before[j] == hv;
                        assert(before.to_set().contains(hv)) by {
                            assert(before.contains(hv));
                        }
                        assert(before.to_set().insert(hv) =~= before.to_set());
                    }
                }
                proof {
                    db_entries(ls.take(i as int)).lemma_push_to_set_commute(hv);
                    assert(views(hashes@).to_set() =~= db_entries(ls.take(i + 1)).to_set());
                }
            }
            i += 1;
        }
        proof {
            assert(ls.take(lines@.len() as int) =~= ls);
        }
        SignatureDb { hashes }
    }

    /// Whether a hash, in any case, is known.
    pub fn contains(&self, hash: &str) -> (r: bool)
        ensures
            r == self@.contains(spec_to_lowercase(hash@)),
    {
        let h = lowercase_chars(chars_of(hash).as_slice());
        let mut k: usize = 0;
        while k < self.hashes.len()
            invariant
                0 <= k <= self.hashes@.len(),
                h@ == spec_to_lowercase(hash@),
                forall|j: int| 0 <= j < k ==> #[trigger] views(self.hashes@)[j] != h@,
            decreases self.hashes@.len() - k,
        {
            if chars_eq(chars_of(self.hashes[k].as_str()).as_slice(), h.as_slice()) {
                proof {
                    assert(views(self.hashes@)[k as int] == h@);
                    assert(views(self.hashes@).contains(h@));
                }
                return true;
            }
            proof {
                assert(views(self.hashes@)[k as int] == self.hashes@[k as int]@);
            }
            k += 1;
        }
        proof {
            assert(!views(self.hashes@).contains(h@));
        }
        false
    }

    /// How many hashes are known.
    pub fn count(&self) -> (r: usize)
        ensures
            r == self@.len(),
    {
        proof {
            use_type_invariant(self);
            views(self.hashes@).unique_seq_to_set();
        }
        self.hashes.len()
    }
}

/// The threats a content's hash reveals: one of high severity, named after the first 16
/// digits of the hash, when the database knows the hash; none otherwise.
pub open spec fn spec_hash_threats(path: Seq<char>, hash: Seq<char>, db: Set<Seq<char>>) -> Seq<(Seq<char>, Seq<char>, Severity, Seq<char>)> {
    if db.contains(hash) {
        seq![(path, "known-malware:"@ + hash.take(16), Severity::High, "hash-db"@)]
    } else {
        Seq::empty()
    }
}

/// A threat as plain values: path, name, severity and matched rule.
pub open spec fn threat_fields(t: Threat) -> (Seq<char>, Seq<char>, Severity, Seq<char>) {
    (t.path@, t.name@, t.severity, t.matched_rule@)
}

fn threats_for_hash(path: &str, hash: &String, db: &SignatureDb) -> (r: Vec<Threat>)
    requires
        hash@.len() == 64,
        spec_to_lowercase(hash@) == hash@,
    ensures
        r@.map_values(|t: Threat| threat_fields(t)) == spec_hash_threats(path@, hash@, db@),
{
    let mut r: Vec<Threat> = Vec::new();
    if db.contains(hash.as_str()) {
        let mut name = chars_of("known-malware:");
        extend_chars(&mut name, sub_chars(chars_of(hash.as_str()).as_slice(), 0, 16).as_slice());
        r.push(Threat {
            path: string_of(chars_of(path).as_slice()),
            name: string_of(name.as_slice()),
            severity: Severity::High,
            matched_rule: string_of(chars_of("hash-db").as_slice()),
        });
        assert(hash@.subrange(0, 16) =~= hash@.take(16));
    }
    assert(r@.map_values(|t: Threat| threat_fields(t)) =~= spec_hash_threats(path@, hash@, db@));
    r
}

/// Scans content by its hash: the threats that its SHA-256 hash reveals.
pub fn scan_bytes(path: &str, input: &[u8], db: &SignatureDb) -> (r: Result<Vec<Threat>, String>)
    ensures
        r matches Ok(ts) && ts@.map_values(|t: Threat| threat_fields(t)) == spec_hash_threats(
            path@,
            spec_hash_hex(input@),
            db@,
        ),
{
    let hash = hash_contents(input);
    proof {
        lemma_hex_lowercase(sha256(input@));
    }
    Ok(threats_for_hash(path, &hash, db))
}

/// Scans a file by its hash, from what reading it gave: the threats that its hash
/// reveals, or, when it could not be read, `Failed to hash file: <error>`.
pub fn scan_file(path: &str, contents: &Result<Vec<u8>, String>, db: &SignatureDb) -> (r: Result<Vec<Threat>, String>)
    ensures
        match contents {
            Ok(bytes) => r matches Ok(ts) && ts@.map_values(|t: Threat| threat_fields(t))
                == spec_hash_threats(path@, spec_hash_hex(bytes@), db@),
            Err(e) => r matches Err(m) && m@ == "Failed to hash file: "@ + e@,
        },
{
    match contents {
        Ok(bytes) => scan_bytes(path, bytes.as_slice(), db),
        Err(e) => {
            let mut m = chars_of("Failed to hash file: ");
            extend_chars(&mut m, chars_of(e.as_str()).as_slice());
            Err(string_of(m.as_slice()))
        },
    }
}

} // verus!
