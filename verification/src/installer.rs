//! Installing and removing plugin archives: which archive entries are taken, where they
//! go, which files may be deleted, and how a plugin's manifest is found by its uuid.
use vstd::prelude::*;
use crate::daemon::uuid_text::{parse_uuid, uuid_parse, uuid_text, uuid_to_string};
use crate::gui::plugins::{eq_ignore_ascii_case, eq_ignore_ascii_case_exec, ext_or_empty, has_extension};
use crate::paths::{components, cur_comp, extension, extension_exec, file_name, file_name_exec, lemma_components_join, lemma_file_name_plain, parent_comp, path_join, path_join_exec, path_starts_with, path_starts_with_exec};
use crate::text::{ascii_lower_seq, chars_eq, chars_of, extend_chars, string_of};

verus! {

/// Plugin files larger than this are refused (256 MiB).
pub const MAX_PLUGIN_FILE_SIZE: u64 = 268435456;

/// Checks an archive's extension: `Expected a .<ext> file: <path>` otherwise.
pub fn ensure_extension(path: &str, expected: &str) -> (r: Result<(), String>)
    ensures
        eq_ignore_ascii_case(ext_or_empty(path@), expected@) ==> r is Ok,
        !eq_ignore_ascii_case(ext_or_empty(path@), expected@) ==> (r matches Err(e) && e@
            == "Expected a ."@ + expected@ + " file: "@ + path@),
{
    if has_extension(path, expected) {
        return Ok(());
    }
    let mut m = chars_of("Expected a .");
    extend_chars(&mut m, chars_of(expected).as_slice());
    extend_chars(&mut m, chars_of(" file: ").as_slice());
    extend_chars(&mut m, chars_of(path).as_slice());
    Err(string_of(m.as_slice()))
}

/// What an entry of a plugin archive is, as read from the archive.
pub struct ArchiveEntryFacts {
    /// Its position in the archive.
    pub index: usize,
    /// Its path, when it stays inside the extraction directory.
    pub enclosed_name: Option<String>,
    /// Its uncompressed size.
    pub size: u64,
}

/// Which installer reads the archive: the privileged helper, or the front end installing
/// into its development directory. They word their errors apart, and only the helper
/// limits file sizes.
#[derive(PartialEq, Eq, Structural, Clone, Copy, Debug)]
pub enum InstallerStyle {
    Privileged,
    Development,
}

/// The plugin files chosen so far: the file names of the manifest and the library.
pub struct InstallPlan {
    pub toml: Option<String>,
    pub so: Option<String>,
}

/// What to do with an archive entry.
pub enum EntryStep {
    /// Not a plugin file.
    Skip,
    /// Extract it under this file name.
    Extract(String),
}

/// The view of an optional text.
pub open spec fn opt_view(o: Option<String>) -> Option<Seq<char>> {
    match o {
        Some(s) => Some(s@),
        None => None,
    }
}

/// The lowercased extension of an entry's path, or an empty text.
pub open spec fn entry_ext(path: Seq<char>) -> Seq<char> {
    ascii_lower_seq(ext_or_empty(path))
}

/// The decision on an entry, given the plan so far: `Ok(None)` to skip it, `Ok(Some(n))`
/// to extract it as `n` (and take it into the plan), or the error that ends the
/// installation.
pub open spec fn spec_plan_entry(
    style: InstallerStyle,
    toml: Option<Seq<char>>,
    so: Option<Seq<char>>,
    index: usize,
    enclosed: Option<Seq<char>>,
    size: u64,
) -> Result<Option<Seq<char>>, Seq<char>> {
    match enclosed {
        None => Err(if style == InstallerStyle::Privileged {
            "Unsafe path found in ZIP archive"@
        } else {
            "Unsafe path found in ZIP archive at index "@ + crate::text::decimal(index as nat)
        }),
        Some(p) => {
            let e = entry_ext(p);
            if e != "toml"@ && e != "so"@ {
                Ok(None)
            } else if style == InstallerStyle::Privileged && size > MAX_PLUGIN_FILE_SIZE {
                Err("Plugin file is too large: "@ + p)
            } else if e == "toml"@ && toml is Some {
                Err(if style == InstallerStyle::Privileged {
                    "Archive contains multiple TOML manifests"@
                } else {
                    "Multiple TOML manifests found in archive"@
                })
            } else if e == "so"@ && so is Some {
                Err(if style == InstallerStyle::Privileged {
                    "Archive contains multiple shared libraries"@
                } else {
                    "Multiple shared libraries found in archive"@
                })
            } else {
                match file_name(p) {
                    None => Err(if style == InstallerStyle::Privileged {
                        "Invalid file name in archive: "@ + p
                    } else {
                        "Invalid file name in ZIP archive"@
                    }),
                    Some(n) => Ok(Some(n)),
                }
            }
        },
    }
}

fn lit(s: &str) -> (r: String)
    ensures
        r@ == s@,
{
    string_of(chars_of(s).as_slice())
}

fn cat(a: &str, b: &str) -> (r: String)
    ensures
        r@ == a@ + b@,
{
    let mut v = chars_of(a);
    extend_chars(&mut v, chars_of(b).as_slice());
    string_of(v.as_slice())
}

impl InstallPlan {
    /// Nothing chosen yet.
    pub fn new() -> (r: InstallPlan)
        ensures
            r.toml is None && r.so is None,
    {
        InstallPlan { toml: None, so: None }
    }

    /// Decides on an archive entry: other files are skipped; a manifest (`.toml`) or a
    /// library (`.so`) is extracted under its file name and taken into the plan, unless
    /// it is unsafe, too large, a second one of its kind, or without a file name.
    pub fn plan_entry(&mut self, style: InstallerStyle, entry: &ArchiveEntryFacts) -> (r: Result<EntryStep, String>)
        ensures
            match spec_plan_entry(style, opt_view(old(self).toml), opt_view(old(self).so), entry.index, opt_view(entry.enclosed_name), entry.size) {
                Err(e) => r matches Err(m) && m@ == e,
                Ok(None) => r matches Ok(EntryStep::Skip),
                Ok(Some(n)) => r matches Ok(EntryStep::Extract(m)) && m@ == n,
            },
            match spec_plan_entry(style, opt_view(old(self).toml), opt_view(old(self).so), entry.index, opt_view(entry.enclosed_name), entry.size) {
                Ok(Some(n)) => if entry_ext(opt_view(entry.enclosed_name)->0) == "toml"@ {
                    opt_view(final(self).toml) == Some(n) && final(self).so == old(self).so
                } else {
                    opt_view(final(self).so) == Some(n) && final(self).toml == old(self).toml
                },
                _ => final(self).toml == old(self).toml && final(self).so == old(self).so,
            },
    {
        let p = match &entry.enclosed_name {
            None => {
                if style == InstallerStyle::Privileged {
                    return Err(lit("Unsafe path found in ZIP archive"));
                }
                let mut m = chars_of("Unsafe path found in ZIP archive at index ");
                extend_chars(&mut m, crate::text::u64_to_chars(entry.index as u64).as_slice());
                return Err(string_of(m.as_slice()));
            },
            Some(p) => p,
        };
        let pv = chars_of(p.as_str());
        let ext = match extension_exec(pv.as_slice()) {
            Some(e) => e,
            None => Vec::new(),
        };
        proof {
            if extension(p@) is None {
                assert(ext@ =~= Seq::<char>::empty());
            }
        }
        let is_toml = eq_ignore_ascii_case_exec(ext.as_slice(), chars_of("toml").as_slice());
        let is_so = eq_ignore_ascii_case_exec(ext.as_slice(), chars_of("so").as_slice());
        proof {
            reveal_strlit("toml");
            reveal_strlit("so");
            assert(ascii_lower_seq("toml"@) =~= "toml"@);
            assert(ascii_lower_seq("so"@) =~= "so"@);
        }
        if !is_toml && !is_so {
            return Ok(EntryStep::Skip);
        }
        if style == InstallerStyle::Privileged && entry.size > MAX_PLUGIN_FILE_SIZE {
            return Err(cat("Plugin file is too large: ", p.as_str()));
        }
        if is_toml && self.toml.is_some() {
            return Err(if style == InstallerStyle::Privileged {
                lit("Archive contains multiple TOML manifests")
            } else {
                lit("Multiple TOML manifests found in archive")
            });
        }
        if is_so && self.so.is_some() {
            return Err(if style == InstallerStyle::Privileged {
                lit("Archive contains multiple shared libraries")
            } else {
                lit("Multiple shared libraries found in archive")
            });
        }
        let name = match file_name_exec(pv.as_slice()) {
            None => {
                return Err(if style == InstallerStyle::Privileged {
                    cat("Invalid file name in archive: ", p.as_str())
                } else {
                    lit("Invalid file name in ZIP archive")
                });
            },
            Some(n) => string_of(n.as_slice()),
        };
        if is_toml {
            self.toml = Some(name.clone());
        } else {
            self.so = Some(name.clone());
        }
        Ok(EntryStep::Extract(name))
    }

    /// The manifest and the library chosen, once every entry was seen; an archive without
    /// one of them is refused.
    pub fn finish(&self, style: InstallerStyle) -> (r: Result<(String, String), String>)
        ensures
            match (self.toml, self.so) {
                (Some(t), Some(s)) => r matches Ok((a, b)) && a@ == t@ && b@ == s@,
                (None, _) => r matches Err(e) && e@ == if style == InstallerStyle::Privileged {
                    "Archive does not contain a TOML manifest"@
                } else {
                    "No .toml file found in the ZIP archive"@
                },
                (Some(_), None) => r matches Err(e) && e@ == if style == InstallerStyle::Privileged {
                    "Archive does not contain a shared library"@
                } else {
                    "No .so file found in the ZIP archive"@
                },
            },
    {
        let t = match &self.toml {
            None => {
                return Err(if style == InstallerStyle::Privileged {
                    lit("Archive does not contain a TOML manifest")
                } else {
                    lit("No .toml file found in the ZIP archive")
                });
            },
            Some(t) => t.clone(),
        };
        let s = match &self.so {
            None => {
                return Err(if style == InstallerStyle::Privileged {
                    lit("Archive does not contain a shared library")
                } else {
                    lit("No .so file found in the ZIP archive")
                });
            },
            Some(s) => s.clone(),
        };
        Ok((t, s))
    }
}

/// An installed plugin: where its manifest and its library now are, and the plugin
/// directory that holds them.
pub struct InstalledPlugin {
    pub toml_path: String,
    pub so_path: String,
    pub plugin_dir: String,
}

impl InstallPlan {
    /// The installed plugin, once every entry was seen and both files were chosen: each
    /// file in the plugin directory under its name. An archive without one of them is
    /// refused as `finish` refuses it.
    pub fn installed(&self, style: InstallerStyle, plugin_dir: &str) -> (r: Result<InstalledPlugin, String>)
        ensures
            match (self.toml, self.so) {
                (Some(t), Some(s)) => r matches Ok(p) && p.toml_path@ == path_join(plugin_dir@, t@)
                    && p.so_path@ == path_join(plugin_dir@, s@) && p.plugin_dir@ == plugin_dir@,
                (None, _) => r matches Err(e) && e@ == if style == InstallerStyle::Privileged {
                    "Archive does not contain a TOML manifest"@
                } else {
                    "No .toml file found in the ZIP archive"@
                },
                (Some(_), None) => r matches Err(e) && e@ == if style == InstallerStyle::Privileged {
                    "Archive does not contain a shared library"@
                } else {
                    "No .so file found in the ZIP archive"@
                },
            },
    {
        let (t, s) = self.finish(style)?;
        Ok(InstalledPlugin {
            toml_path: install_destination(plugin_dir, &t),
            so_path: install_destination(plugin_dir, &s),
            plugin_dir: lit(plugin_dir),
        })
    }
}

/// Where an extracted plugin file is installed: in the plugin directory, under its name.
pub fn install_destination(plugin_dir: &str, file_name: &str) -> (r: String)
    ensures
        r@ == path_join(plugin_dir@, file_name@),
{
    string_of(path_join_exec(chars_of(plugin_dir).as_slice(), chars_of(file_name).as_slice()).as_slice())
}

/// The file to delete for a plugin file, if any: a missing file is refused when it is
/// required and skipped otherwise; a file that cannot be resolved, or whose resolved path
/// is outside the plugin directory, is refused.
pub fn removal_target(
    path: &str,
    exists: bool,
    canonical: &Result<String, String>,
    plugin_dir: &str,
    required: bool,
) -> (r: Result<Option<String>, String>)
    ensures
        !exists && required ==> (r matches Err(e) && e@ == "Required plugin file does not exist: "@ + path@),
        !exists && !required ==> r matches Ok(None),
        exists ==> match canonical {
            Err(e) => r matches Err(m) && m@ == "Unable to resolve plugin file "@ + path@ + ": "@ + e@,
            Ok(c) => if path_starts_with(c@, plugin_dir@) {
                r matches Ok(Some(x)) && x@ == c@
            } else {
                r matches Err(m) && m@ == "Refusing to delete a file outside the Griffon plugin directory: "@ + c@
            },
        },
{
    if !exists {
        if required {
            return Err(cat("Required plugin file does not exist: ", path));
        }
        return Ok(None);
    }
    match canonical {
        Err(e) => {
            let mut m = chars_of("Unable to resolve plugin file ");
            extend_chars(&mut m, chars_of(path).as_slice());
            extend_chars(&mut m, chars_of(": ").as_slice());
            extend_chars(&mut m, chars_of(e.as_str()).as_slice());
            Err(string_of(m.as_slice()))
        },
        Ok(c) => {
            if path_starts_with_exec(chars_of(c.as_str()).as_slice(), chars_of(plugin_dir).as_slice()) {
                Ok(Some(c.clone()))
            } else {
                Err(cat("Refusing to delete a file outside the Griffon plugin directory: ", c.as_str()))
            }
        },
    }
}

/// Checks that a resolved manifest lies in the plugin directory.
pub fn check_manifest_location(canonical_manifest: &str, plugin_dir: &str) -> (r: Result<(), String>)
    ensures
        path_starts_with(canonical_manifest@, plugin_dir@) ==> r is Ok,
        !path_starts_with(canonical_manifest@, plugin_dir@) ==> (r matches Err(e) && e@
            == "Manifest is outside the Griffon plugin directory: "@ + canonical_manifest@),
{
    if path_starts_with_exec(chars_of(canonical_manifest).as_slice(), chars_of(plugin_dir).as_slice()) {
        return Ok(());
    }
    Err(cat("Manifest is outside the Griffon plugin directory: ", canonical_manifest))
}

/// Whether a manifest's uuid, once read as a UUID and written in hyphenated lowercase,
/// is the plugin's.
pub fn manifest_uuid_matches(manifest_uuid: &str, plugin_uuid: &str) -> (r: bool)
    ensures
        r == match uuid_parse(manifest_uuid@) {
            Some(b) => uuid_text(b) == plugin_uuid@,
            None => false,
        },
{
    match parse_uuid(manifest_uuid) {
        Ok(b) => chars_eq(chars_of(uuid_to_string(&b).as_str()).as_slice(), chars_of(plugin_uuid).as_slice()),
        Err(_) => false,
    }
}

/// The answer when no manifest has the plugin's uuid.
pub fn no_plugin_found(plugin_uuid: &str) -> (r: String)
    ensures
        r@ == "No installed plugin found for UUID "@ + plugin_uuid@,
{
    cat("No installed plugin found for UUID ", plugin_uuid)
}

/// A value of a plugin manifest, as far as the search for its uuid reads it.
pub enum TomlValue {
    Str(String),
    Table(Vec<(String, TomlValue)>),
    Array(Vec<TomlValue>),
    Other,
}

/// The string under the key `uuid` in a table's entries, if any (the first such entry).
pub open spec fn table_uuid(es: Seq<(String, TomlValue)>) -> Option<Seq<char>>
    decreases es.len(),
{
    if es.len() == 0 {
        None
    } else {
        match table_uuid(es.drop_last()) {
            Some(s) => Some(s),
            None => if es.last().0@ == "uuid"@ {
                match es.last().1 {
                    TomlValue::Str(s) => Some(s@),
                    _ => None,
                }
            } else {
                None
            },
        }
    }
}

/// The uuid of a manifest value: a table's own `uuid` string, else the first found in its
/// values in order; in an array, the first found in its items.
pub open spec fn spec_find_uuid(v: TomlValue) -> Option<Seq<char>>
    decreases v, 0int,
{
    match v {
        TomlValue::Table(es) => match table_uuid(es@) {
            Some(s) => Some(s),
            None => entries_uuid(es@, 0),
        },
        TomlValue::Array(vs) => values_uuid(vs@, 0),
        _ => None,
    }
}

/// The first uuid found in the values of table entries from `i` on.
pub open spec fn entries_uuid(es: Seq<(String, TomlValue)>, i: int) -> Option<Seq<char>>
    decreases es, es.len() - i,
{
    if i < 0 || i >= es.len() {
        None
    } else {
        match spec_find_uuid(es[i].1) {
            Some(s) => Some(s),
            None => entries_uuid(es, i + 1),
        }
    }
}

/// The first uuid found in the items of an array from `i` on.
pub open spec fn values_uuid(vs: Seq<TomlValue>, i: int) -> Option<Seq<char>>
    decreases vs, vs.len() - i,
{
    if i < 0 || i >= vs.len() {
        None
    } else {
        match spec_find_uuid(vs[i]) {
            Some(s) => Some(s),
            None => values_uuid(vs, i + 1),
        }
    }
}


fn table_uuid_exec(es: &Vec<(String, TomlValue)>) -> (r: Option<String>)
    ensures
        opt_view(r) == table_uuid(es@),
{
    let mut i: usize = 0;
    assert(es@.take(0) =~= Seq::<(String, TomlValue)>::empty());
    while i < es.len()
        invariant
            0 <= i <= es@.len(),
            table_uuid(es@.take(i as int)) is None,
        decreases es@.len() - i,
    {
        proof {
            assert(es@.take(i + 1).drop_last() =~= es@.take(i as int));
            assert(es@.take(i + 1).last() == es@[i as int]);
        }
        if crate::text::eq_lit(chars_of(es[i].0.as_str()).as_slice(), "uuid") {
            match &es[i].1 {
                TomlValue::Str(s) => {
                    proof {
                        lemma_table_uuid_prefix(es@, i as int + 1);
                    }
                    return Some(s.clone());
                },
                _ => {},
            }
        }
        i += 1;
    }
    assert(es@.take(es@.len() as int) =~= es@);
    None
}

proof fn lemma_table_uuid_prefix(es: Seq<(String, TomlValue)>, n: int)
    requires
        0 < n <= es.len(),
        table_uuid(es.take(n)) is Some,
    ensures
        table_uuid(es) == table_uuid(es.take(n)),
    decreases es.len(),
{
    if n < es.len() {
        assert(es.drop_last().take(n) =~= es.take(n));
        lemma_table_uuid_prefix(es.drop_last(), n);
    } else {
        assert(es.take(n) =~= es);
    }
}

#[verifier::external_type_specification]
#[verifier::external_body]
pub struct ExTomlValue(toml::Value);

/// A manifest value as plain values: a string, a table's entries in order, an array's
/// items in order, or another kind of value.
pub enum TomlTree {
    Str(Seq<char>),
    Table(Seq<(Seq<char>, TomlTree)>),
    Array(Seq<TomlTree>),
    Other,
}

/// The plain values of a manifest value.
pub open spec fn tree_of(v: TomlValue) -> TomlTree
    decreases v, 0int,
{
    match v {
        TomlValue::Str(s) => TomlTree::Str(s@),
        TomlValue::Table(es) => TomlTree::Table(entries_tree(es@)),
        TomlValue::Array(vs) => TomlTree::Array(values_tree(vs@)),
        TomlValue::Other => TomlTree::Other,
    }
}

/// The plain values of a table's entries.
pub open spec fn entries_tree(es: Seq<(String, TomlValue)>) -> Seq<(Seq<char>, TomlTree)>
    decreases es, es.len(),
{
    if es.len() == 0 {
        Seq::empty()
    } else {
        entries_tree(es.drop_last()).push((es.last().0@, tree_of(es.last().1)))
    }
}

/// The plain values of an array's items.
pub open spec fn values_tree(vs: Seq<TomlValue>) -> Seq<TomlTree>
    decreases vs, vs.len(),
{
    if vs.len() == 0 {
        Seq::empty()
    } else {
        values_tree(vs.drop_last()).push(tree_of(vs.last()))
    }
}

/// A name for what toml's `from_str::<toml::Value>` reads from a text: the document, with
/// strings, tables (their entries in the order the table lists them) and arrays kept and
/// every other value standing as `Other`; nothing when the text is not a TOML document.
pub uninterp spec fn toml_parse(text: Seq<char>) -> Option<TomlTree>;

/// A toml value as a manifest value, kind by kind.
#[verifier::external_body]
fn toml_model(v: &toml::Value) -> TomlValue {
    match v {
        toml::Value::String(s) => TomlValue::Str(s.clone()),
        toml::Value::Table(t) => TomlValue::Table(t.iter().map(|(k, x)| (k.clone(), toml_model(x))).collect()),
        toml::Value::Array(a) => TomlValue::Array(a.iter().map(toml_model).collect()),
        _ => TomlValue::Other,
    }
}

/// toml's `from_str::<toml::Value>` on a manifest's text, as a manifest value; what it
/// reads is named by `toml_parse`.
#[verifier::external_body]
fn parse_toml(text: &str) -> (r: Option<TomlValue>)
    ensures
        match r {
            None => toml_parse(text@) is None,
            Some(v) => toml_parse(text@) == Some(tree_of(v)),
        },
{
    toml::from_str::<toml::Value>(text).ok().map(|v| toml_model(&v))
}

/// The string under the key `uuid` among a table's entries, if any (the first such entry).
pub open spec fn tree_table_uuid(es: Seq<(Seq<char>, TomlTree)>) -> Option<Seq<char>>
    decreases es.len(),
{
    if es.len() == 0 {
        None
    } else {
        match tree_table_uuid(es.drop_last()) {
            Some(s) => Some(s),
            None => if es.last().0 == "uuid"@ {
                match es.last().1 {
                    TomlTree::Str(s) => Some(s),
                    _ => None,
                }
            } else {
                None
            },
        }
    }
}

/// The uuid of a manifest document: a table's own `uuid` string, else the first found in
/// its values in order; in an array, the first found in its items.
pub open spec fn tree_find_uuid(t: TomlTree) -> Option<Seq<char>>
    decreases t, 0int,
{
    match t {
        TomlTree::Table(es) => match tree_table_uuid(es) {
            Some(s) => Some(s),
            None => tree_entries_uuid(es, 0),
        },
        TomlTree::Array(vs) => tree_values_uuid(vs, 0),
        _ => None,
    }
}

/// The first uuid found in the values of table entries from `i` on.
pub open spec fn tree_entries_uuid(es: Seq<(Seq<char>, TomlTree)>, i: int) -> Option<Seq<char>>
    decreases es, es.len() - i,
{
    if i < 0 || i >= es.len() {
        None
    } else {
        match tree_find_uuid(es[i].1) {
            Some(s) => Some(s),
            None => tree_entries_uuid(es, i + 1),
        }
    }
}

/// The first uuid found in the items of an array from `i` on.
pub open spec fn tree_values_uuid(vs: Seq<TomlTree>, i: int) -> Option<Seq<char>>
    decreases vs, vs.len() - i,
{
    if i < 0 || i >= vs.len() {
        None
    } else {
        match tree_find_uuid(vs[i]) {
            Some(s) => Some(s),
            None => tree_values_uuid(vs, i + 1),
        }
    }
}

proof fn lemma_entries_tree(es: Seq<(String, TomlValue)>)
    ensures
        entries_tree(es).len() == es.len(),
        forall|i: int| 0 <= i < es.len() ==> #[trigger] entries_tree(es)[i] == (es[i].0@, tree_of(es[i].1)),
    decreases es.len(),
{
    if es.len() > 0 {
        lemma_entries_tree(es.drop_last());
    }
}

proof fn lemma_values_tree(vs: Seq<TomlValue>)
    ensures
        values_tree(vs).len() == vs.len(),
        forall|i: int| 0 <= i < vs.len() ==> #[trigger] values_tree(vs)[i] == tree_of(vs[i]),
    decreases vs.len(),
{
    if vs.len() > 0 {
        lemma_values_tree(vs.drop_last());
    }
}

proof fn lemma_table_tree(es: Seq<(String, TomlValue)>)
    ensures
        table_uuid(es) == tree_table_uuid(entries_tree(es)),
    decreases es.len(),
{
    if es.len() > 0 {
        lemma_table_tree(es.drop_last());
        let t = entries_tree(es);
        assert(t == entries_tree(es.drop_last()).push((es.last().0@, tree_of(es.last().1))));
        assert(t.drop_last() =~= entries_tree(es.drop_last()));
        assert(t.last() == (es.last().0@, tree_of(es.last().1)));
        assert(t.len() > 0);
        match es.last().1 {
            TomlValue::Str(x) => {
                assert(tree_of(es.last().1) == TomlTree::Str(x@));
            },
            TomlValue::Table(x) => {
                assert(tree_of(es.last().1) is Table);
            },
            TomlValue::Array(x) => {
                assert(tree_of(es.last().1) is Array);
            },
            TomlValue::Other => {
                assert(tree_of(es.last().1) is Other);
            },
        }
    }
}

proof fn lemma_find_tree(v: TomlValue)
    ensures
        spec_find_uuid(v) == tree_find_uuid(tree_of(v)),
    decreases v, 0int,
{
    match v {
        TomlValue::Table(es) => {
            lemma_table_tree(es@);
            lemma_entries_find(es@, 0);
        },
        TomlValue::Array(vs) => {
            lemma_values_find(vs@, 0);
        },
        _ => {},
    }
}

proof fn lemma_entries_find(es: Seq<(String, TomlValue)>, i: int)
    ensures
        entries_uuid(es, i) == tree_entries_uuid(entries_tree(es), i),
    decreases es, es.len() - i,
{
    lemma_entries_tree(es);
    if 0 <= i < es.len() {
        assert(entries_tree(es)[i] == (es[i].0@, tree_of(es[i].1)));
        lemma_find_tree(es[i].1);
        lemma_entries_find(es, i + 1);
    }
}

proof fn lemma_values_find(vs: Seq<TomlValue>, i: int)
    ensures
        values_uuid(vs, i) == tree_values_uuid(values_tree(vs), i),
    decreases vs, vs.len() - i,
{
    lemma_values_tree(vs);
    if 0 <= i < vs.len() {
        assert(values_tree(vs)[i] == tree_of(vs[i]));
        lemma_find_tree(vs[i]);
        lemma_values_find(vs, i + 1);
    }
}

/// The uuid of a plugin manifest: the first string under a `uuid` key, looking into a
/// table's own keys first, then into its values in order, and into arrays item by item.
pub fn find_uuid_in_toml(value: &TomlValue) -> (r: Option<String>)
    ensures
        opt_view(r) == spec_find_uuid(*value),
    decreases value,
{
    match value {
        TomlValue::Table(es) => {
            match table_uuid_exec(es) {
                Some(s) => return Some(s),
                None => {},
            }
            let mut i: usize = 0;
            while i < es.len()
                invariant
                    0 <= i <= es@.len(),
                    *value == TomlValue::Table(*es),
                    table_uuid(es@) is None,
                    entries_uuid(es@, 0) == entries_uuid(es@, i as int),
                decreases es@.len() - i,
            {
                proof {
                    assert(decreases_to!(*value => es@[i as int].1));
                }
                match find_uuid_in_toml(&es[i].1) {
                    Some(s) => return Some(s),
                    None => {},
                }
                i += 1;
            }
            None
        },
        TomlValue::Array(vs) => {
            let mut i: usize = 0;
            while i < vs.len()
                invariant
                    0 <= i <= vs@.len(),
                    *value == TomlValue::Array(*vs),
                    values_uuid(vs@, 0) == values_uuid(vs@, i as int),
                decreases vs@.len() - i,
            {
                proof {
                    assert(decreases_to!(*value => vs@[i as int]));
                }
                match find_uuid_in_toml(&vs[i]) {
                    Some(s) => return Some(s),
                    None => {},
                }
                i += 1;
            }
            None
        },
        _ => None,
    }
}

/// Whatever an archive entry's path, a plugin file taken from it is installed under a
/// plain name (not empty, without `/`, neither `.` nor `..`) directly inside the plugin
/// directory: the destination's components are the directory's and that name.
pub proof fn law_installed_files_stay_in_plugin_dir(
    style: InstallerStyle,
    toml: Option<Seq<char>>,
    so: Option<Seq<char>>,
    index: usize,
    enclosed: Option<Seq<char>>,
    size: u64,
    plugin_dir: Seq<char>,
)
    ensures
        spec_plan_entry(style, toml, so, index, enclosed, size) matches Ok(Some(n)) ==> {
            &&& n.len() > 0
            &&& forall|j: int| 0 <= j < n.len() ==> n[j] != '/'
            &&& n != cur_comp() && n != parent_comp()
            &&& components(path_join(plugin_dir, n)) == components(plugin_dir).push(n)
            &&& path_starts_with(path_join(plugin_dir, n), plugin_dir)
        },
{
    if let Some(p) = enclosed {
        lemma_file_name_plain(p);
        if let Some(n) = file_name(p) {
            if spec_plan_entry(style, toml, so, index, enclosed, size) == Ok::<Option<Seq<char>>, Seq<char>>(Some(n)) {
                lemma_components_join(plugin_dir, n);
            }
        }
    }
}


/// The uuid in a plugin manifest's text: none when it is not a TOML document; else the
/// first string under a `uuid` key, looking into a table's own keys first, then into its
/// values in order, and into arrays item by item.
pub fn manifest_uuid_of_text(text: &str) -> (r: Option<String>)
    ensures
        match toml_parse(text@) {
            None => r is None,
            Some(t) => opt_view(r) == tree_find_uuid(t),
        },
{
    match parse_toml(text) {
        None => None,
        Some(v) => {
            let r = find_uuid_in_toml(&v);
            proof {
                lemma_find_tree(v);
            }
            r
        },
    }
}

} // verus!
