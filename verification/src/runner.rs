//! What the plugin runner decides: which files are plugins, how a plugin's self-description
//! is read, and what it answers to the daemon's hello.
use vstd::prelude::*;
use crate::text::{chars_eq, chars_of, split_by, split_trim_nonempty, split_trim_nonempty_exec, string_of, sub_chars, trim_chars, trim_seq, views};
use crate::paths::{extension, extension_exec};

verus! {

/// A plugin's answer to the daemon's hello.
pub struct HelloOkPayload {
    pub name: String,
    pub uuid: String,
    pub functions: Vec<String>,
}

/// What a plugin reported about itself through its `init` entry point.
pub struct PluginSelfDescription {
    pub uuid: String,
    pub functions: String,
    pub name: String,
}

/// The extension of shared libraries.
pub open spec fn so_ext() -> Seq<char> {
    seq!['s', 'o']
}

/// A path names a shared library when its extension is `so` (the caller checks that it
/// is a regular file).
pub fn has_shared_library_extension(path: &str) -> (r: bool)
    ensures
        r == (extension(path@) == Some(so_ext())),
{
    let p = chars_of(path);
    match extension_exec(p.as_slice()) {
        Some(e) => {
            let so: Vec<char> = vec!['s', 'o'];
            assert(so@ =~= so_ext());
            chars_eq(e.as_slice(), so.as_slice())
        },
        None => false,
    }
}

/// The separators of a plugin's function list.
pub open spec fn function_list_seps() -> Seq<char> {
    seq!['/', ',']
}

/// Reads a plugin's function list: split at `/` and `,`, trimmed, empty names dropped.
pub fn parse_functions(s: &str) -> (r: Vec<String>)
    ensures
        views(r@) == split_trim_nonempty(s@, function_list_seps()),
{
    let seps: Vec<char> = vec!['/', ','];
    assert(seps@ =~= function_list_seps());
    split_trim_nonempty_exec(s, seps.as_slice())
}

/// The last `/`-separated piece of a path: the name that stands for a plugin whose own
/// name is blank.
pub fn fallback_plugin_name(path: &str) -> (r: String)
    ensures
        r@ == split_by(path@, seq!['/']).last(),
{
    let p = chars_of(path);
    let mut k: usize = p.len();
    while k > 0 && p[k - 1] != '/'
        invariant
            0 <= k <= p@.len(),
            forall|j: int| k <= j < p@.len() ==> p@[j] != '/',
        decreases k,
    {
        k -= 1;
    }
    let tail = sub_chars(p.as_slice(), k, p.len());
    proof {
        lemma_split_last(p@, k as int);
    }
    string_of(tail.as_slice())
}

proof fn lemma_split_last(p: Seq<char>, k: int)
    requires
        0 <= k <= p.len(),
        forall|j: int| k <= j < p.len() ==> p[j] != '/',
        k == 0 || p[k - 1] == '/',
    ensures
        split_by(p, seq!['/']).len() >= 1,
        split_by(p, seq!['/']).last() == p.subrange(k, p.len() as int),
    decreases p.len(),
{
    if p.len() == 0 {
    } else if k == p.len() {
        assert(seq!['/'][0] == p.last());
        lemma_split_last_nonempty(p.drop_last());
    } else {
        lemma_split_last(p.drop_last(), k);
        assert(!seq!['/'].contains(p.last()));
        assert(p.drop_last().subrange(k, p.len() - 1).push(p.last()) =~= p.subrange(
            k,
            p.len() as int,
        ));
    }
}

proof fn lemma_split_last_nonempty(p: Seq<char>)
    ensures
        split_by(p, seq!['/']).len() >= 1,
    decreases p.len(),
{
    if p.len() > 0 {
        lemma_split_last_nonempty(p.drop_last());
    }
}

/// The runner's hello answer: the plugin's name, or the fallback when that name is blank,
/// its uuid, and its parsed function list.
pub fn build_hello_ok(plugin: &PluginSelfDescription, fallback_name: &str) -> (r: HelloOkPayload)
    ensures
        r.name@ == (if trim_seq(plugin.name@).len() == 0 {
            fallback_name@
        } else {
            plugin.name@
        }),
        r.uuid@ == plugin.uuid@,
        views(r.functions@) == split_trim_nonempty(plugin.functions@, function_list_seps()),
{
    let n = chars_of(plugin.name.as_str());
    let t = trim_chars(n.as_slice());
    let name = if t.len() == 0 {
        string_of(chars_of(fallback_name).as_slice())
    } else {
        plugin.name.clone()
    };
    HelloOkPayload {
        name,
        uuid: plugin.uuid.clone(),
        functions: parse_functions(plugin.functions.as_str()),
    }
}

/// Which field of the self-description a key of the `init` entries sets.
pub open spec fn init_key_field(key: Seq<char>) -> int {
    if key == "function"@ {
        0
    } else if key == "name"@ {
        1
    } else if key == "UUID"@ {
        2
    } else {
        3
    }
}

/// The value that the last entry with a key of the given field sets, if any.
pub open spec fn last_value_for(entries: Seq<(String, String)>, field: int) -> Option<Seq<char>>
    decreases entries.len(),
{
    if entries.len() == 0 {
        None
    } else if init_key_field(entries.last().0@) == field {
        Some(entries.last().1@)
    } else {
        last_value_for(entries.drop_last(), field)
    }
}

/// The value of a field after all entries: the last one given, else empty.
pub open spec fn field_after(entries: Seq<(String, String)>, field: int) -> Seq<char> {
    match last_value_for(entries, field) {
        Some(v) => v,
        None => Seq::empty(),
    }
}

/// Reads the `(key, value)` entries that a plugin's `init` returned: `function`, `name`
/// and `UUID` set the matching fields, later entries overriding earlier ones; other keys
/// are ignored.
pub fn apply_init_entries(entries: &[(String, String)]) -> (r: PluginSelfDescription)
    ensures
        r.functions@ == field_after(entries@, 0),
        r.name@ == field_after(entries@, 1),
        r.uuid@ == field_after(entries@, 2),
{
    let k_function = chars_of("function");
    let k_name = chars_of("name");
    let k_uuid = chars_of("UUID");
    let mut d = PluginSelfDescription { uuid: String::new(), functions: String::new(), name: String::new() };
    let mut i: usize = 0;
    while i < entries.len()
        invariant
            0 <= i <= entries@.len(),
            k_function@ == "function"@,
            k_name@ == "name"@,
            k_uuid@ == "UUID"@,
            d.functions@ == field_after(entries@.take(i as int), 0),
            d.name@ == field_after(entries@.take(i as int), 1),
            d.uuid@ == field_after(entries@.take(i as int), 2),
        decreases entries@.len() - i,
    {
        let key = chars_of(entries[i].0.as_str());
        proof {
            assert(entries@.take(i + 1).drop_last() =~= entries@.take(i as int));
            assert(entries@.take(i + 1).last() == entries@[i as int]);
        }
        if chars_eq(key.as_slice(), k_function.as_slice()) {
            d.functions = entries[i].1.clone();
        } else if chars_eq(key.as_slice(), k_name.as_slice()) {
            d.name = entries[i].1.clone();
        } else if chars_eq(key.as_slice(), k_uuid.as_slice()) {
            d.uuid = entries[i].1.clone();
        }
        i += 1;
    }
    assert(entries@.take(entries@.len() as int) =~= entries@);
    d
}

} // verus!
