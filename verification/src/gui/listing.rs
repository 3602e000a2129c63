//! The plugin list of the front end: which files of the plugin directory are manifests,
//! what is shown of each plugin, and the order of the list.
use vstd::prelude::*;
use crate::daemon::settings::{DaemonConfig, enabled_in};
use crate::gui::manifests::Plugin;
use crate::gui::plugins::plugin_notifications_enabled;
use crate::paths::{extension, extension_exec, file_stem, file_stem_exec};
use crate::table::{distinct_keys, table_map};
use crate::text::{chars_eq, chars_of, lemma_text_lt_irreflexive, lemma_text_lt_transitive, lemma_text_not_lt_transitive, string_of, text_lt, text_lt_exec};

verus! {

/// A plugin as the front end lists it.
pub struct PluginEntry {
    pub file_name: String,
    pub uuid: String,
    pub display_name: String,
    pub version: String,
    pub author: String,
    pub description: String,
    pub notifications_enabled: bool,
}

/// The name under which a file of the plugin directory is listed: the stem of a file
/// whose extension is exactly `toml`; other files are not listed.
pub open spec fn spec_listed_stem(path: Seq<char>) -> Option<Seq<char>> {
    if extension(path) == Some("toml"@) {
        file_stem(path)
    } else {
        None
    }
}

/// The name under which a file of the plugin directory is listed, if it is a manifest.
pub fn listed_stem(path: &str) -> (r: Option<String>)
    ensures
        match r {
            Some(s) => spec_listed_stem(path@) == Some(s@),
            None => spec_listed_stem(path@) is None,
        },
{
    let p = chars_of(path);
    let is_toml = match extension_exec(p.as_slice()) {
        Some(e) => chars_eq(e.as_slice(), chars_of("toml").as_slice()),
        None => false,
    };
    if !is_toml {
        return None;
    }
    match file_stem_exec(p.as_slice()) {
        Some(s) => Some(string_of(s.as_slice())),
        None => None,
    }
}

fn copy_text(s: &String) -> (r: String)
    ensures
        r@ == s@,
{
    string_of(chars_of(s.as_str()).as_slice())
}

/// What the list shows of a plugin whose manifest lies in a file with the given stem: the
/// manifest's fields, its `id` as the uuid, and whether its notifications are shown as on.
pub fn plugin_entry(file_name: &str, plugin: &Plugin, config: &DaemonConfig) -> (r: PluginEntry)
    requires
        distinct_keys(config.plugins@),
    ensures
        r.file_name@ == file_name@,
        r.uuid@ == plugin.id@,
        r.display_name@ == plugin.name@,
        r.version@ == plugin.version@,
        r.author@ == plugin.author@,
        r.description@ == plugin.description@,
        r.notifications_enabled == enabled_in(config.general.notifications_enabled, table_map(config.plugins@), plugin.id@),
{
    PluginEntry {
        file_name: string_of(chars_of(file_name).as_slice()),
        uuid: copy_text(&plugin.id),
        display_name: copy_text(&plugin.name),
        version: copy_text(&plugin.version),
        author: copy_text(&plugin.author),
        description: copy_text(&plugin.description),
        notifications_enabled: plugin_notifications_enabled(config, plugin.id.as_str()),
    }
}

/// Inserts an entry after the last one whose display name does not come after its own.
pub open spec fn insert_by_name(s: Seq<PluginEntry>, x: PluginEntry) -> Seq<PluginEntry>
    decreases s.len(),
{
    if s.len() == 0 {
        seq![x]
    } else if !text_lt(x.display_name@, s.last().display_name@) {
        s.push(x)
    } else {
        insert_by_name(s.drop_last(), x).push(s.last())
    }
}

/// The entries by display name; entries with the same name keep their order.
pub open spec fn by_display_name(s: Seq<PluginEntry>) -> Seq<PluginEntry>
    decreases s.len(),
{
    if s.len() == 0 {
        Seq::empty()
    } else {
        insert_by_name(by_display_name(s.drop_last()), s.last())
    }
}

/// Entries in the order of their display names.
pub open spec fn is_by_display_name(s: Seq<PluginEntry>) -> bool {
    forall|i: int, j: int|
        0 <= i < j < s.len() ==> !text_lt(#[trigger] s[j].display_name@, #[trigger] s[i].display_name@)
}

proof fn lemma_insert_by_name_at(s: Seq<PluginEntry>, x: PluginEntry, p: int)
    requires
        0 <= p <= s.len(),
        forall|j: int| p <= j < s.len() ==> text_lt(x.display_name@, #[trigger] s[j].display_name@),
        p == 0 || !text_lt(x.display_name@, s[p - 1].display_name@),
    ensures
        insert_by_name(s, x) == s.take(p).push(x) + s.skip(p),
    decreases s.len(),
{
    if s.len() == 0 {
        assert(s.take(p).push(x) + s.skip(p) =~= seq![x]);
    } else if p == s.len() {
        assert(s.take(p) =~= s);
        assert(s.skip(p) =~= Seq::<PluginEntry>::empty());
        assert(s.take(p).push(x) + s.skip(p) =~= s.push(x));
    } else {
        let d = s.drop_last();
        assert(text_lt(x.display_name@, s[s.len() - 1].display_name@));
        lemma_insert_by_name_at(d, x, p);
        assert(d.take(p) =~= s.take(p));
        assert(d.skip(p).push(s.last()) =~= s.skip(p));
        assert((d.take(p).push(x) + d.skip(p)).push(s.last()) =~= s.take(p).push(x) + s.skip(p));
    }
}

/// Orders the entries by display name; entries with the same name keep their order.
pub fn sort_by_display_name(entries: Vec<PluginEntry>) -> (r: Vec<PluginEntry>)
    ensures
        r@ == by_display_name(entries@),
{
    let ghost orig = entries@;
    let n = entries.len();
    let mut rev = crate::sorting::reversed(entries);
    let mut out: Vec<PluginEntry> = Vec::new();
    let mut taken: usize = 0;
    proof {
        assert(orig.take(0) =~= Seq::<PluginEntry>::empty());
    }
    while rev.len() > 0
        invariant
            taken + rev@.len() == orig.len(),
            orig.len() == n,
            forall|j: int| 0 <= j < rev@.len() ==> #[trigger] rev@[j] == orig[orig.len() - 1 - j],
            out@ == by_display_name(orig.take(taken as int)),
        decreases rev@.len(),
    {
        let x = rev.pop().unwrap();
        proof {
            assert(x == orig[taken as int]);
            assert(orig.take(taken + 1).drop_last() =~= orig.take(taken as int));
        }
        let key = chars_of(x.display_name.as_str());
        let mut p: usize = out.len();
        while p > 0 && text_lt_exec(key.as_slice(), chars_of(out[p - 1].display_name.as_str()).as_slice())
            invariant
                0 <= p <= out@.len(),
                key@ == x.display_name@,
                forall|j: int| p <= j < out@.len() ==> text_lt(x.display_name@, #[trigger] out@[j].display_name@),
            decreases p,
        {
            p -= 1;
        }
        proof {
            lemma_insert_by_name_at(out@, x, p as int);
        }
        out.insert(p, x);
        taken += 1;
    }
    proof {
        assert(orig.take(n as int) =~= orig);
    }
    out
}

proof fn lemma_insert_by_name_multiset(s: Seq<PluginEntry>, x: PluginEntry)
    ensures
        insert_by_name(s, x).to_multiset() =~= s.to_multiset().insert(x),
    decreases s.len(),
{
    broadcast use vstd::seq_lib::group_to_multiset_ensures;

    if s.len() > 0 && text_lt(x.display_name@, s.last().display_name@) {
        lemma_insert_by_name_multiset(s.drop_last(), x);
        assert(s.drop_last().push(s.last()) =~= s);
    }
}

proof fn lemma_insert_by_name_elems(s: Seq<PluginEntry>, x: PluginEntry)
    ensures
        insert_by_name(s, x).len() == s.len() + 1,
        forall|k: int| 0 <= k < s.len() + 1 ==> {
            let y = #[trigger] insert_by_name(s, x)[k];
            y == x || exists|i: int| 0 <= i < s.len() && y == s[i]
        },
    decreases s.len(),
{
    if s.len() > 0 && text_lt(x.display_name@, s.last().display_name@) {
        let d = s.drop_last();
        lemma_insert_by_name_elems(d, x);
        assert forall|k: int| 0 <= k < s.len() + 1 implies {
            let y = #[trigger] insert_by_name(s, x)[k];
            y == x || exists|i: int| 0 <= i < s.len() && y == s[i]
        } by {
            if k == s.len() {
                assert(insert_by_name(s, x)[k] == s[s.len() - 1]);
            } else {
                let y = insert_by_name(d, x)[k];
                if y != x {
                    let i = choose|i: int| 0 <= i < d.len() && y == d[i];
                    assert(y == s[i]);
                }
            }
        }
    } else if s.len() > 0 {
        assert forall|k: int| 0 <= k < s.len() + 1 implies {
            let y = #[trigger] insert_by_name(s, x)[k];
            y == x || exists|i: int| 0 <= i < s.len() && y == s[i]
        } by {
            if k < s.len() {
                assert(insert_by_name(s, x)[k] == s[k]);
            }
        }
    }
}

proof fn lemma_insert_by_name_sorted(s: Seq<PluginEntry>, x: PluginEntry)
    requires
        is_by_display_name(s),
    ensures
        is_by_display_name(insert_by_name(s, x)),
    decreases s.len(),
{
    if s.len() == 0 {
    } else if !text_lt(x.display_name@, s.last().display_name@) {
        let r = s.push(x);
        assert forall|i: int, j: int| 0 <= i < j < r.len() implies
            !text_lt(#[trigger] r[j].display_name@, #[trigger] r[i].display_name@) by {
            if j == s.len() && i < s.len() - 1 {
                lemma_text_not_lt_transitive(x.display_name@, s.last().display_name@, s[i].display_name@);
            } else if j < s.len() {
                assert(r[i] == s[i] && r[j] == s[j]);
            }
        }
    } else {
        let d = s.drop_last();
        let m = insert_by_name(d, x);
        lemma_insert_by_name_sorted(d, x);
        lemma_insert_by_name_elems(d, x);
        let r = m.push(s.last());
        assert forall|i: int, j: int| 0 <= i < j < r.len() implies
            !text_lt(#[trigger] r[j].display_name@, #[trigger] r[i].display_name@) by {
            if j == m.len() {
                let y = m[i];
                assert(r[i] == y);
                if y == x {
                    if text_lt(s.last().display_name@, x.display_name@) {
                        lemma_text_lt_transitive(x.display_name@, s.last().display_name@, x.display_name@);
                        lemma_text_lt_irreflexive(x.display_name@);
                    }
                } else {
                    let k = choose|k: int| 0 <= k < d.len() && y == d[k];
                    assert(s[k] == y);
                    assert(!text_lt(s[s.len() - 1].display_name@, s[k].display_name@));
                }
            } else {
                assert(r[i] == m[i] && r[j] == m[j]);
            }
        }
    }
}

/// The plugin list is in the order of display names and holds exactly the entries it was
/// given: no entry's name comes before that of an entry listed earlier, and no entry is
/// lost, added or doubled.
pub proof fn law_plugin_list_by_display_name(entries: Seq<PluginEntry>)
    ensures
        is_by_display_name(by_display_name(entries)),
        by_display_name(entries).to_multiset() =~= entries.to_multiset(),
    decreases entries.len(),
{
    broadcast use vstd::seq_lib::group_to_multiset_ensures;

    if entries.len() > 0 {
        law_plugin_list_by_display_name(entries.drop_last());
        lemma_insert_by_name_sorted(by_display_name(entries.drop_last()), entries.last());
        lemma_insert_by_name_multiset(by_display_name(entries.drop_last()), entries.last());
        assert(entries.drop_last().push(entries.last()) =~= entries);
    }
}

} // verus!
