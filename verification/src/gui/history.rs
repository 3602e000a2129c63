//! Reading the plugin history back.
use vstd::prelude::*;
use crate::daemon::history::spec_history_line;
use crate::daemon::uuid_text::uuid_text;
use crate::scanner::hashing::{hex_seq, lemma_hex_shape};
use crate::sorting::{lemma_sort_desc_elems, lemma_sort_desc_sorted, sort_desc, stable_sort_desc, strip_keys};
use crate::text::{has_prefix, starts_with_lit, all_digits, decimal, digit_char, digits_value, find_char_from, is_digit, trim_start_seq, unsigned_digits, chars_of, find, find_char, find_char_exec, find_seq, find_ws, find_ws_exec, lemma_find_char_from_some, lemma_find_from_some, find_from, occurs_at, parse_i64, spec_parse_i64, string_of, sub_chars, trim_chars, trim_seq};

verus! {

/// An event of the plugin history, as the front end shows it.
pub struct PluginHistoryEntry {
    pub timestamp: i64,
    pub level: String,
    pub plugin_name: String,
    pub plugin_uuid: String,
    pub event: Option<String>,
    pub pid: Option<String>,
    pub path: Option<String>,
    pub message: String,
    pub source_file: String,
}

/// The value of `key` in an event message: after the first `key=`, the text up to the
/// next `"` when it starts with one (none without a closing `"`), else up to the first
/// whitespace or the end.
pub open spec fn spec_extract_value(message: Seq<char>, key: Seq<char>) -> Option<Seq<char>> {
    let prefix = key + "="@;
    match find_seq(message, prefix) {
        None => None,
        Some(s) => {
            let v = message.skip(s + prefix.len());
            if v.len() > 0 && v[0] == '"' {
                match find_char(v.drop_first(), '"') {
                    None => None,
                    Some(e) => Some(v.drop_first().take(e)),
                }
            } else {
                match find_ws(v) {
                    Some(e) => Some(v.take(e)),
                    None => Some(v),
                }
            }
        },
    }
}

/// The value of `key` in an event message.
pub fn extract_value(message: &str, key: &str) -> (r: Option<String>)
    ensures
        opt_view(r) == spec_extract_value(message@, key@),
{
    let m = chars_of(message);
    let mut prefix = chars_of(key);
    prefix.push('=');
    assert(prefix@ =~= key@ + "="@) by {
        reveal_strlit("=");
    }
    let s = match find(m.as_slice(), prefix.as_slice()) {
        None => return None,
        Some(s) => s,
    };
    proof {
        lemma_find_from_some(m@, prefix@, 0);
        assert(find_from(m@, prefix@, 0) == Some(s as int));
        assert(occurs_at(m@, prefix@, s as int));
    }
    let n = m.len();
    let pl = prefix.len();
    assert(s + pl <= n);
    let v = sub_chars(m.as_slice(), s + pl, n);
    assert(v@ =~= message@.skip(s + pl));
    if v.len() > 0 && v[0] == '"' {
        let inner = sub_chars(v.as_slice(), 1, v.len());
        assert(inner@ =~= v@.drop_first());
        match find_char_exec(inner.as_slice(), '"') {
            None => None,
            Some(e) => {
                proof {
                    lemma_find_char_from_some(inner@, '"', 0);
                }
                let val = sub_chars(inner.as_slice(), 0, e);
                assert(val@ =~= inner@.take(e as int));
                Some(string_of(val.as_slice()))
            },
        }
    } else {
        match find_ws_exec(v.as_slice()) {
            Some(e) => {
                proof {
                    crate::text::lemma_find_ws_from(v@, 0);
                }
                let val = sub_chars(v.as_slice(), 0, e);
                assert(val@ =~= v@.take(e as int));
                Some(string_of(val.as_slice()))
            },
            None => Some(string_of(v.as_slice())),
        }
    }
}

/// The view of an optional text.
pub open spec fn opt_view(o: Option<String>) -> Option<Seq<char>> {
    match o {
        Some(s) => Some(s@),
        None => None,
    }
}

/// Up to `k` leading `[..]` groups of a line and the text after them: `None` when a group
/// opens without closing.
pub open spec fn bracket_groups(rest: Seq<char>, k: nat) -> Option<(Seq<Seq<char>>, Seq<char>)>
    decreases k,
{
    if k == 0 {
        Some((Seq::empty(), rest))
    } else if rest.len() > 0 && rest[0] == '[' {
        let stripped = rest.drop_first();
        match find_char(stripped, ']') {
            None => None,
            Some(j) => match bracket_groups(stripped.skip(j + 1), (k - 1) as nat) {
                None => None,
                Some((gs, after)) => Some((seq![stripped.take(j)] + gs, after)),
            },
        }
    } else {
        Some((Seq::empty(), rest))
    }
}

/// An entry as plain values.
pub type EntryFields = (int, Seq<char>, Seq<char>, Seq<char>, Option<Seq<char>>, Option<Seq<char>>, Option<Seq<char>>, Seq<char>, Seq<char>);

/// The entry a history line holds: four `[..]` groups (time, level, plugin name, plugin
/// uuid, the file's uuid when the last is empty), then the trimmed message, with its
/// `event`, `pid` and `path` values. A time that is not a number reads as 0.
pub open spec fn spec_parse_history_line(line: Seq<char>, fallback_uuid: Seq<char>, source_file: Seq<char>) -> Option<EntryFields> {
    match bracket_groups(line, 4) {
        None => None,
        Some((gs, after)) => if gs.len() < 4 {
            None
        } else {
            let message = trim_seq(after);
            Some(
                (
                    match spec_parse_i64(gs[0]) {
                        Some(t) => t,
                        None => 0,
                    },
                    gs[1],
                    gs[2],
                    if gs[3].len() == 0 { fallback_uuid } else { gs[3] },
                    spec_extract_value(message, "event"@),
                    spec_extract_value(message, "pid"@),
                    spec_extract_value(message, "path"@),
                    message,
                    source_file,
                ),
            )
        },
    }
}

/// An entry's plain values.
pub open spec fn entry_fields(e: PluginHistoryEntry) -> EntryFields {
    (
        e.timestamp as int,
        e.level@,
        e.plugin_name@,
        e.plugin_uuid@,
        opt_view(e.event),
        opt_view(e.pid),
        opt_view(e.path),
        e.message@,
        e.source_file@,
    )
}

/// Reads the entry of a history line.
pub fn parse_history_line(line: &str, fallback_uuid: &str, source_file: &str) -> (r: Option<PluginHistoryEntry>)
    ensures
        match r {
            Some(e) => spec_parse_history_line(line@, fallback_uuid@, source_file@) == Some(entry_fields(e)),
            None => spec_parse_history_line(line@, fallback_uuid@, source_file@) is None,
        },
{
    let mut rest = chars_of(line);
    let mut groups: Vec<Vec<char>> = Vec::new();
    let mut k: usize = 0;
    let ghost whole = line@;
    while k < 4 && rest.len() > 0 && rest[0] == '['
        invariant
            0 <= k <= 4,
            whole == line@,
            groups@.len() == k,
            bracket_groups(whole, 4) == match bracket_groups(rest@, (4 - k) as nat) {
                None => None,
                Some((gs, after)) => Some((groups@.map_values(|g: Vec<char>| g@) + gs, after)),
            },
        decreases 4 - k,
    {
        let stripped = sub_chars(rest.as_slice(), 1, rest.len());
        assert(stripped@ =~= rest@.drop_first());
        match find_char_exec(stripped.as_slice(), ']') {
            None => {
                proof {
                    assert(find_char(rest@.drop_first(), ']') is None);
                    assert(bracket_groups(rest@, (4 - k) as nat) is None);
                }
                return None;
            },
            Some(j) => {
                proof {
                    lemma_find_char_from_some(stripped@, ']', 0);
                }
                let value = sub_chars(stripped.as_slice(), 0, j);
                let after = sub_chars(stripped.as_slice(), j + 1, stripped.len());
                assert(value@ =~= stripped@.take(j as int));
                assert(after@ =~= stripped@.skip(j + 1));
                let ghost old_groups = groups@.map_values(|g: Vec<char>| g@);
                groups.push(value);
                proof {
                    let ng = groups@.map_values(|g: Vec<char>| g@);
                    assert(ng =~= old_groups.push(value@));
                    match bracket_groups(after@, (4 - k - 1) as nat) {
                        None => {},
                        Some((gs, a)) => {
                            assert(old_groups + (seq![value@] + gs) =~= ng + gs);
                        },
                    }
                }
                rest = after;
                k += 1;
            },
        }
    }
    proof {
        assert(bracket_groups(rest@, (4 - k) as nat) == Some((Seq::<Seq<char>>::empty(), rest@)));
        assert(groups@.map_values(|g: Vec<char>| g@) + Seq::<Seq<char>>::empty() =~= groups@.map_values(|g: Vec<char>| g@));
    }
    if k < 4 {
        return None;
    }
    let ghost gv = groups@.map_values(|g: Vec<char>| g@);
    assert(gv[0] == groups@[0]@ && gv[1] == groups@[1]@ && gv[2] == groups@[2]@ && gv[3] == groups@[3]@);
    let timestamp = match parse_i64(groups[0].as_slice()) {
        Some(t) => t,
        None => 0,
    };
    let uuid = if groups[3].len() == 0 {
        string_of(chars_of(fallback_uuid).as_slice())
    } else {
        string_of(groups[3].as_slice())
    };
    let message = string_of(trim_chars(rest.as_slice()).as_slice());
    let event = extract_value(message.as_str(), "event");
    let pid = extract_value(message.as_str(), "pid");
    let path = extract_value(message.as_str(), "path");
    Some(PluginHistoryEntry {
        timestamp,
        level: string_of(groups[1].as_slice()),
        plugin_name: string_of(groups[2].as_slice()),
        plugin_uuid: uuid,
        event,
        pid,
        path,
        message,
        source_file: string_of(chars_of(source_file).as_slice()),
    })
}


/// The decimal text of a number is a non-empty run of digits whose value is the number.
proof fn lemma_decimal_digits(n: nat)
    ensures
        decimal(n).len() > 0,
        all_digits(decimal(n)),
        digits_value(decimal(n)) == n,
    decreases n,
{
    if n < 10 {
        let s = decimal(n);
        assert(s.drop_last() =~= Seq::<char>::empty());
        assert(digit_char(n as int) as nat == n + 48);
        assert('0' as nat == 48);
        assert(s.last() == digit_char(n as int));
        assert(digits_value(s) == digits_value(s.drop_last()) * 10 + (s.last() as nat - '0' as nat) as nat);
    } else {
        lemma_decimal_digits(n / 10);
        let s = decimal(n);
        assert(s.drop_last() =~= decimal(n / 10));
        assert(digit_char((n % 10) as int) as nat == n % 10 + 48);
        assert('0' as nat == 48);
        assert(s.last() == digit_char((n % 10) as int));
        assert((n / 10) * 10 + n % 10 == n) by (nonlinear_arith);
        assert(digits_value(s) == digits_value(decimal(n / 10)) * 10 + (s.last() as nat - '0' as nat) as nat);
        assert forall|i: int| 0 <= i < s.len() implies is_digit(#[trigger] s[i]) by {
            if i < s.len() - 1 {
                assert(s[i] == decimal(n / 10)[i]);
            }
        }
    }
}

/// The first `c` of `a`, `c`, `b` is the one after `a` when `a` holds none.
proof fn lemma_find_char_after(a: Seq<char>, c: char, b: Seq<char>, i: int)
    requires
        0 <= i <= a.len(),
        forall|j: int| 0 <= j < a.len() ==> a[j] != c,
    ensures
        find_char_from(a + seq![c] + b, c, i) == Some(a.len() as int),
    decreases a.len() - i,
{
    let s = a + seq![c] + b;
    if i < a.len() {
        assert(s[i] == a[i]);
        lemma_find_char_after(a, c, b, i + 1);
    } else {
        assert(s[i] == c);
    }
}

/// One `[group]` off the front of a line.
proof fn lemma_one_group(g: Seq<char>, rest: Seq<char>, k: nat)
    requires
        k > 0,
        forall|j: int| 0 <= j < g.len() ==> g[j] != ']',
    ensures
        bracket_groups(seq!['['] + g + seq![']'] + rest, k) == match bracket_groups(rest, (k - 1) as nat) {
            None => None,
            Some((gs, after)) => Some((seq![g] + gs, after)),
        },
{
    let line = seq!['['] + g + seq![']'] + rest;
    let stripped = line.drop_first();
    assert(stripped =~= g + seq![']'] + rest);
    lemma_find_char_after(g, ']', rest, 0);
    assert(stripped.take(g.len() as int) =~= g);
    assert(stripped.skip(g.len() as int + 1) =~= rest);
}

/// Reading a history line back gives what was written: the time (when it fits an `i64`),
/// the level, the plugin's name and uuid, and the message, trimmed, with its `event`,
/// `pid` and `path` values. This holds when the level and the name hold no `]`; the line
/// is read without its final line break.
pub proof fn law_history_roundtrip(
    ts: u64,
    level: Seq<char>,
    name: Seq<char>,
    uuid: Seq<u8>,
    message: Seq<char>,
    fallback_uuid: Seq<char>,
    source_file: Seq<char>,
)
    requires
        ts <= i64::MAX,
        uuid.len() == 16,
        forall|j: int| 0 <= j < level.len() ==> level[j] != ']',
        forall|j: int| 0 <= j < name.len() ==> name[j] != ']',
    ensures
        spec_parse_history_line(
            spec_history_line(ts, level, name, uuid, message).drop_last(),
            fallback_uuid,
            source_file,
        ) == Some(
            (
                ts as int,
                level,
                name,
                uuid_text(uuid),
                spec_extract_value(trim_seq(message), "event"@),
                spec_extract_value(trim_seq(message), "pid"@),
                spec_extract_value(trim_seq(message), "path"@),
                trim_seq(message),
                source_file,
            ),
        ),
{
    reveal_strlit("[");
    reveal_strlit("][");
    reveal_strlit("] ");
    reveal_strlit("\n");
    let d = decimal(ts as nat);
    let u = uuid_text(uuid);
    lemma_decimal_digits(ts as nat);
    lemma_hex_shape(uuid.subrange(0, 4));
    lemma_hex_shape(uuid.subrange(4, 6));
    lemma_hex_shape(uuid.subrange(6, 8));
    lemma_hex_shape(uuid.subrange(8, 10));
    lemma_hex_shape(uuid.subrange(10, 16));
    assert forall|j: int| 0 <= j < d.len() implies d[j] != ']' by {
        assert(is_digit(d[j]));
    }
    assert forall|j: int| 0 <= j < u.len() implies u[j] != ']' by {
        let h0 = hex_seq(uuid.subrange(0, 4));
        let h1 = hex_seq(uuid.subrange(4, 6));
        let h2 = hex_seq(uuid.subrange(6, 8));
        let h3 = hex_seq(uuid.subrange(8, 10));
        let h4 = hex_seq(uuid.subrange(10, 16));
        if j < 8 {
            assert(u[j] == h0[j]);
        } else if j == 8 {
        } else if j < 13 {
            assert(u[j] == h1[j - 9]);
        } else if j == 13 {
        } else if j < 18 {
            assert(u[j] == h2[j - 14]);
        } else if j == 18 {
        } else if j < 23 {
            assert(u[j] == h3[j - 19]);
        } else if j == 23 {
        } else {
            assert(u[j] == h4[j - 24]);
        }
    }
    let tail = seq![' '] + message;
    let line = spec_history_line(ts, level, name, uuid, message).drop_last();
    let r3 = seq!['['] + u + seq![']'] + tail;
    let r2 = seq!['['] + name + seq![']'] + r3;
    let r1 = seq!['['] + level + seq![']'] + r2;
    assert(line =~= seq!['['] + d + seq![']'] + r1);
    lemma_one_group(d, r1, 4);
    lemma_one_group(level, r2, 3);
    lemma_one_group(name, r3, 2);
    lemma_one_group(u, tail, 1);
    assert(bracket_groups(tail, 0) == Some((Seq::<Seq<char>>::empty(), tail)));
    let gs = seq![d] + (seq![level] + (seq![name] + (seq![u] + Seq::<Seq<char>>::empty())));
    assert(bracket_groups(line, 4) == Some((gs, tail)));
    assert(gs[0] == d && gs[1] == level && gs[2] == name && gs[3] == u);
    assert(d[0] != '-');
    assert(unsigned_digits(d) == d) by {
        assert(is_digit(d[0]));
    }
    assert(spec_parse_i64(d) == Some(ts as int));
    assert(tail.drop_first() =~= message);
    assert(trim_start_seq(tail) == trim_start_seq(message));
    assert(u.len() == 36);
}

} // verus!

verus! {

/// `s.trim_start_matches(p)` for a non-empty `p`: every leading copy of `p` removed.
pub open spec fn strip_all_prefix(s: Seq<char>, p: Seq<char>) -> Seq<char>
    decreases s.len(),
{
    if p.len() > 0 && has_prefix(s, p) {
        strip_all_prefix(s.skip(p.len() as int), p)
    } else {
        s
    }
}

/// The uuid a history file stands for, from its name: a name beginning with `history_`,
/// without its leading `history_` copies; other files hold no history.
pub open spec fn spec_history_file_uuid(file_name: Seq<char>) -> Option<Seq<char>> {
    if has_prefix(file_name, "history_"@) {
        Some(strip_all_prefix(file_name, "history_"@))
    } else {
        None
    }
}

/// The uuid a history file stands for, if the file holds a history.
pub fn history_file_uuid(file_name: &str) -> (r: Option<String>)
    ensures
        opt_view(r) == spec_history_file_uuid(file_name@),
{
    proof {
        reveal_strlit("history_");
    }
    let mut rest = chars_of(file_name);
    if !starts_with_lit(rest.as_slice(), "history_") {
        return None;
    }
    while starts_with_lit(rest.as_slice(), "history_")
        invariant
            "history_"@.len() == 8,
            strip_all_prefix(rest@, "history_"@) == strip_all_prefix(file_name@, "history_"@),
        decreases rest@.len(),
    {
        let ghost before = rest@;
        rest = sub_chars(rest.as_slice(), 8, rest.len());
        assert(rest@ =~= before.skip(8));
    }
    Some(string_of(rest.as_slice()))
}

/// The entries of a history file's lines, in order: blank lines and lines that are not
/// entries are passed over.
pub open spec fn history_fields(lines: Seq<Seq<char>>, fallback_uuid: Seq<char>, source_file: Seq<char>) -> Seq<EntryFields>
    decreases lines.len(),
{
    if lines.len() == 0 {
        Seq::empty()
    } else {
        let prev = history_fields(lines.drop_last(), fallback_uuid, source_file);
        if trim_seq(lines.last()).len() == 0 {
            prev
        } else {
            match spec_parse_history_line(lines.last(), fallback_uuid, source_file) {
                Some(f) => prev.push(f),
                None => prev,
            }
        }
    }
}

/// The entries of a history file, line after line.
pub fn history_entries(lines: &[String], fallback_uuid: &str, source_file: &str) -> (r: Vec<PluginHistoryEntry>)
    ensures
        r@.map_values(|e: PluginHistoryEntry| entry_fields(e)) == history_fields(
            crate::text::views(lines@),
            fallback_uuid@,
            source_file@,
        ),
{
    let ghost ls = crate::text::views(lines@);
    let mut r: Vec<PluginHistoryEntry> = Vec::new();
    let mut i: usize = 0;
    while i < lines.len()
        invariant
            0 <= i <= lines@.len(),
            ls == crate::text::views(lines@),
            r@.map_values(|e: PluginHistoryEntry| entry_fields(e)) == history_fields(
                ls.take(i as int),
                fallback_uuid@,
                source_file@,
            ),
        decreases lines@.len() - i,
    {
        proof {
            assert(ls.take(i + 1).drop_last() =~= ls.take(i as int));
            assert(ls.take(i + 1).last() == lines@[i as int]@);
        }
        let ghost before = r@.map_values(|e: PluginHistoryEntry| entry_fields(e));
        let line = lines[i].as_str();
        if trim_chars(chars_of(line).as_slice()).len() > 0 {
            match parse_history_line(line, fallback_uuid, source_file) {
                Some(e) => {
                    r.push(e);
                    assert(r@.map_values(|e: PluginHistoryEntry| entry_fields(e)) =~= before.push(
                        entry_fields(r@.last()),
                    ));
                },
                None => {},
            }
        }
        i += 1;
    }
    assert(ls.take(lines@.len() as int) =~= ls);
    r
}

/// The sort key of a time: the order of `i64` kept in `u64`.
pub open spec fn time_key(t: i64) -> u64 {
    (t + 9223372036854775808int) as u64
}

/// An entry keyed by its time.
pub open spec fn keyed_entry(e: PluginHistoryEntry) -> (PluginHistoryEntry, u64) {
    (e, time_key(e.timestamp))
}

fn time_key_exec(t: i64) -> (r: u64)
    ensures
        r == time_key(t),
{
    ((t as i128) + 9223372036854775808i128) as u64
}

/// Entries newest first; entries of the same time keep their order.
pub fn newest_first_entries(entries: Vec<PluginHistoryEntry>) -> (r: Vec<PluginHistoryEntry>)
    ensures
        r@ == sort_desc(entries@.map_values(|e: PluginHistoryEntry| keyed_entry(e))).map_values(
            |p: (PluginHistoryEntry, u64)| p.0,
        ),
        forall|i: int, j: int| 0 <= i <= j < r@.len() ==> r@[i].timestamp >= r@[j].timestamp,
{
    let ghost orig = entries@;
    let n = entries.len();
    let mut rev = crate::sorting::reversed(entries);
    let mut keyed: Vec<(PluginHistoryEntry, u64)> = Vec::new();
    let mut i: usize = 0;
    while rev.len() > 0
        invariant
            i + rev@.len() == orig.len(),
            orig.len() == n,
            forall|j: int| 0 <= j < rev@.len() ==> #[trigger] rev@[j] == orig[orig.len() - 1 - j],
            keyed@ == orig.take(i as int).map_values(|e: PluginHistoryEntry| keyed_entry(e)),
        decreases rev@.len(),
    {
        let e = rev.pop().unwrap();
        proof {
            assert(e == orig[i as int]);
        }
        let k = time_key_exec(e.timestamp);
        keyed.push((e, k));
        proof {
            assert(orig.take(i + 1).map_values(|e: PluginHistoryEntry| keyed_entry(e)) =~= orig.take(
                i as int,
            ).map_values(|e: PluginHistoryEntry| keyed_entry(e)).push(keyed_entry(orig[i as int])));
        }
        i += 1;
    }
    assert(orig.take(n as int) =~= orig);
    let ghost ks = keyed@;
    let sorted = stable_sort_desc(keyed);
    proof {
        lemma_sort_desc_sorted(ks);
        lemma_sort_desc_elems(ks);
    }
    let r = strip_keys(sorted);
    proof {
        let s = sort_desc(ks);
        assert forall|a: int, b: int| 0 <= a <= b < r@.len() implies r@[a].timestamp >= r@[b].timestamp by {
            assert(s[a].1 >= s[b].1);
            assert(ks.contains(s[a]));
            assert(ks.contains(s[b]));
            let x = choose|x: int| 0 <= x < ks.len() && ks[x] == s[a];
            let y = choose|y: int| 0 <= y < ks.len() && ks[y] == s[b];
            assert(ks[x] == keyed_entry(orig[x]));
            assert(ks[y] == keyed_entry(orig[y]));
            assert(r@[a] == s[a].0);
            assert(r@[b] == s[b].0);
        }
    }
    r
}

} // verus!

