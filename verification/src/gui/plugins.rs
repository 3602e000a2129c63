//! How the front end names plugins, reads their notification settings, and checks what it
//! sends to the daemon.
use vstd::prelude::*;
use crate::daemon::settings::{DaemonConfig, enabled_in};
use crate::daemon::uuid_text::{parse_uuid, parse_uuid_16, uuid_parse, uuid_text, uuid_to_string};
use crate::paths::{components, extension, extension_exec, file_stem, file_stem_exec, lemma_components_join, path_join, path_join_exec};
use crate::table::{distinct_keys, find_key, table_map};
use crate::text::{ascii_lower_seq, chars_of, contains, decimal, extend_chars, has_infix, lowercase_chars, replace_all, replace_all_exec, spec_to_lowercase, string_of, trim_chars, trim_seq, u64_to_chars};

verus! {

/// Whether the front end shows a plugin's notifications as on: only when they are on in
/// general, and then as the plugin's settings say (on when it has none).
pub fn plugin_notifications_enabled(config: &DaemonConfig, plugin_uuid: &str) -> (r: bool)
    requires
        distinct_keys(config.plugins@),
    ensures
        r == enabled_in(config.general.notifications_enabled, table_map(config.plugins@), plugin_uuid@),
{
    let plugin_enabled = match find_key(&config.plugins, plugin_uuid) {
        Some(i) => config.plugins[i].1.notifications_enabled,
        None => config.general.notifications_enabled,
    };
    config.general.notifications_enabled && plugin_enabled
}

/// A plugin's file name from its display name: spaces become `_`, then lowercase.
pub open spec fn spec_format_name(name: Seq<char>) -> Seq<char> {
    spec_to_lowercase(replace_all(name, " "@, "_"@))
}

/// A plugin's file name from its display name.
pub fn format_name(name: &str) -> (r: String)
    ensures
        r@ == spec_format_name(name@),
{
    proof {
        reveal_strlit(" ");
    }
    let replaced = replace_all_exec(chars_of(name).as_slice(), chars_of(" ").as_slice(), chars_of("_").as_slice());
    string_of(lowercase_chars(replaced.as_slice()).as_slice())
}

/// A character allowed in a plugin's file name.
pub open spec fn name_char(c: char) -> bool {
    ('a' <= c <= 'z') || ('A' <= c <= 'Z') || ('0' <= c <= '9') || c == '_' || c == '-'
}

/// The file name of a plugin to delete: the trimmed name must be non-empty and hold no
/// `/`, `\` or `..`; its stem, formatted, must be non-empty and made of ASCII letters,
/// digits, `_` and `-`.
pub open spec fn spec_sanitize(name: Seq<char>) -> Result<Seq<char>, Seq<char>> {
    let t = trim_seq(name);
    if t.len() == 0 {
        Err("Plugin name cannot be empty"@)
    } else if has_infix(t, "/"@) || has_infix(t, "\\"@) || has_infix(t, ".."@) {
        Err("Invalid plugin name"@)
    } else {
        match file_stem(t) {
            None => Err("Invalid plugin name"@),
            Some(stem) => {
                let f = spec_format_name(stem);
                if f.len() == 0 {
                    Err("Plugin name cannot be empty"@)
                } else if !(forall|i: int| 0 <= i < f.len() ==> name_char(#[trigger] f[i])) {
                    Err("Invalid plugin name"@)
                } else {
                    Ok(f)
                }
            },
        }
    }
}

/// The view of a result of texts.
pub open spec fn result_view(r: Result<String, String>) -> Result<Seq<char>, Seq<char>> {
    match r {
        Ok(s) => Ok(s@),
        Err(e) => Err(e@),
    }
}

fn err(s: &str) -> (r: Result<String, String>)
    ensures
        result_view(r) == Err::<Seq<char>, Seq<char>>(s@),
{
    Err(string_of(chars_of(s).as_slice()))
}

fn all_name_chars(fv: &[char]) -> (r: bool)
    ensures
        r == (forall|i: int| 0 <= i < fv@.len() ==> name_char(#[trigger] fv@[i])),
{
    let mut i: usize = 0;
    while i < fv.len()
        invariant
            0 <= i <= fv@.len(),
            forall|j: int| 0 <= j < i ==> name_char(#[trigger] fv@[j]),
        decreases fv@.len() - i,
    {
        let c = fv[i];
        if !(('a' <= c && c <= 'z') || ('A' <= c && c <= 'Z') || ('0' <= c && c <= '9') || c == '_' || c == '-') {
            assert(!name_char(fv@[i as int]));
            return false;
        }
        i += 1;
    }
    true
}

/// Checks and formats the name of a plugin to delete.
pub fn sanitize_plugin_name(name: &str) -> (r: Result<String, String>)
    ensures
        result_view(r) == spec_sanitize(name@),
{
    let t = trim_chars(chars_of(name).as_slice());
    if t.len() == 0 {
        return err("Plugin name cannot be empty");
    }
    if contains(t.as_slice(), chars_of("/").as_slice()) || contains(t.as_slice(), chars_of("\\").as_slice())
        || contains(t.as_slice(), chars_of("..").as_slice()) {
        return err("Invalid plugin name");
    }
    let stem = match file_stem_exec(t.as_slice()) {
        None => return err("Invalid plugin name"),
        Some(s) => s,
    };
    let stem_s = string_of(stem.as_slice());
    let f = format_name(stem_s.as_str());
    let fv = chars_of(f.as_str());
    if fv.len() == 0 {
        return err("Plugin name cannot be empty");
    }
    if !all_name_chars(fv.as_slice()) {
        return err("Invalid plugin name");
    }
    Ok(f)
}

/// The files of a plugin in the manifest directory: `<name>.toml` and `<name>.so`.
pub fn plugin_files(dir: &str, plugin_name: &str) -> (r: (String, String))
    ensures
        r.0@ == path_join(dir@, plugin_name@ + ".toml"@),
        r.1@ == path_join(dir@, plugin_name@ + ".so"@),
{
    let d = chars_of(dir);
    let mut t = chars_of(plugin_name);
    extend_chars(&mut t, chars_of(".toml").as_slice());
    let mut s = chars_of(plugin_name);
    extend_chars(&mut s, chars_of(".so").as_slice());
    (
        string_of(path_join_exec(d.as_slice(), t.as_slice()).as_slice()),
        string_of(path_join_exec(d.as_slice(), s.as_slice()).as_slice()),
    )
}

/// The answer to deleting a plugin's files: refused when none was there.
pub fn plugin_deleted(plugin_name: &str, deleted_files: usize) -> (r: Result<(), String>)
    ensures
        deleted_files == 0 ==> (r matches Err(e) && e@ == "Plugin '"@ + plugin_name@ + "' was not found"@),
        deleted_files > 0 ==> r is Ok,
{
    if deleted_files == 0 {
        let mut m = chars_of("Plugin '");
        extend_chars(&mut m, chars_of(plugin_name).as_slice());
        extend_chars(&mut m, chars_of("' was not found").as_slice());
        return Err(string_of(m.as_slice()));
    }
    Ok(())
}

/// The manifest of a plugin from its name: `<dir>/<formatted name>.toml`.
pub fn manifest_path(dir: &str, name: &str) -> (r: String)
    ensures
        r@ == dir@ + "/"@ + spec_format_name(name@) + ".toml"@,
{
    let mut v = chars_of(dir);
    extend_chars(&mut v, chars_of("/").as_slice());
    extend_chars(&mut v, chars_of(format_name(name).as_str()).as_slice());
    extend_chars(&mut v, chars_of(".toml").as_slice());
    string_of(v.as_slice())
}

/// The identifier of a plugin to call, switch or delete: the text must be a UUID.
pub fn plugin_uuid_of(plugin_uuid_str: &str) -> (r: Result<[u8; 16], String>)
    ensures
        match uuid_parse(plugin_uuid_str@) {
            Some(b) => r matches Ok(x) && x@ == b,
            None => r matches Err(e) && e@ == "Invalid UUID"@,
        },
{
    match parse_uuid_16(Some(plugin_uuid_str)) {
        Some(b) => Ok(b),
        None => Err(string_of(chars_of("Invalid UUID").as_slice())),
    }
}

/// Checks a call before it is sent: the plugin's identifier must be a UUID and the
/// function's name must not be blank.
pub fn validate_call(plugin_uuid_str: &str, fn_name: &str) -> (r: Result<[u8; 16], String>)
    ensures
        match uuid_parse(plugin_uuid_str@) {
            None => r matches Err(e) && e@ == "Invalid UUID"@,
            Some(b) => if trim_seq(fn_name@).len() == 0 {
                r matches Err(e) && e@ == "Function name cannot be empty"@
            } else {
                r matches Ok(x) && x@ == b
            },
        },
{
    let b = plugin_uuid_of(plugin_uuid_str)?;
    if trim_chars(chars_of(fn_name).as_slice()).len() == 0 {
        return Err(string_of(chars_of("Function name cannot be empty").as_slice()));
    }
    Ok(b)
}

/// The hyphenated lowercase form of a plugin identifier given as text, after trimming; or
/// `Invalid plugin UUID "<text>": <reason>`.
pub fn validate_plugin_uuid(plugin_uuid: &str) -> (r: Result<String, String>)
    ensures
        match uuid_parse(trim_seq(plugin_uuid@)) {
            Some(b) => r matches Ok(s) && s@ == uuid_text(b),
            None => r matches Err(e) && crate::text::has_prefix(e@, "Invalid plugin UUID \""@ + trim_seq(plugin_uuid@) + "\": "@),
        },
{
    let t = string_of(trim_chars(chars_of(plugin_uuid).as_slice()).as_slice());
    match parse_uuid(t.as_str()) {
        Ok(b) => Ok(uuid_to_string(&b)),
        Err(reason) => {
            let mut m = chars_of("Invalid plugin UUID \"");
            extend_chars(&mut m, chars_of(t.as_str()).as_slice());
            extend_chars(&mut m, chars_of("\": ").as_slice());
            let ghost head = m@;
            extend_chars(&mut m, chars_of(reason.as_str()).as_slice());
            assert(m@.subrange(0, head.len() as int) =~= head);
            Err(string_of(m.as_slice()))
        },
    }
}

/// Two texts equal when ASCII letters are compared without case.
pub open spec fn eq_ignore_ascii_case(a: Seq<char>, b: Seq<char>) -> bool {
    ascii_lower_seq(a) == ascii_lower_seq(b)
}

fn ascii_lower_exec(v: &[char]) -> (r: Vec<char>)
    ensures
        r@ == ascii_lower_seq(v@),
{
    let mut r: Vec<char> = Vec::new();
    let mut i: usize = 0;
    while i < v.len()
        invariant
            0 <= i <= v@.len(),
            r@ == ascii_lower_seq(v@.take(i as int)),
        decreases v@.len() - i,
    {
        let c = v[i];
        let l = if 'A' <= c && c <= 'Z' { ((c as u32) + 32) as u8 as char } else { c };
        proof {
            if 'A' <= c && c <= 'Z' {
                assert((((c as u32) + 32) as u8 as char) == crate::text::ascii_lower(c));
            }
        }
        r.push(l);
        assert(r@ =~= ascii_lower_seq(v@.take(i + 1)));
        i += 1;
    }
    assert(v@.take(v@.len() as int) =~= v@);
    r
}

/// Whether two texts are equal when ASCII letters are compared without case.
pub fn eq_ignore_ascii_case_exec(a: &[char], b: &[char]) -> (r: bool)
    ensures
        r == eq_ignore_ascii_case(a@, b@),
{
    let x = ascii_lower_exec(a);
    let y = ascii_lower_exec(b);
    crate::text::chars_eq(x.as_slice(), y.as_slice())
}

/// A file's extension, or an empty text without one.
pub open spec fn ext_or_empty(path: Seq<char>) -> Seq<char> {
    match extension(path) {
        Some(e) => e,
        None => Seq::empty(),
    }
}

/// Whether a file has the expected extension, letters compared without case.
pub fn has_extension(path: &str, expected: &str) -> (r: bool)
    ensures
        r == eq_ignore_ascii_case(ext_or_empty(path@), expected@),
{
    let e = match extension_exec(chars_of(path).as_slice()) {
        Some(e) => e,
        None => Vec::new(),
    };
    proof {
        if extension(path@) is None {
            assert(e@ =~= Seq::<char>::empty());
        }
    }
    eq_ignore_ascii_case_exec(e.as_slice(), chars_of(expected).as_slice())
}

/// Checks a file's extension before installing it: `Invalid file extension for <path>.
/// Expected .<ext>` otherwise.
pub fn ensure_extension(path: &str, expected: &str) -> (r: Result<(), String>)
    ensures
        eq_ignore_ascii_case(ext_or_empty(path@), expected@) ==> r is Ok,
        !eq_ignore_ascii_case(ext_or_empty(path@), expected@) ==> (r matches Err(e) && e@
            == "Invalid file extension for "@ + path@ + ". Expected ."@ + expected@),
{
    if has_extension(path, expected) {
        return Ok(());
    }
    let mut m = chars_of("Invalid file extension for ");
    extend_chars(&mut m, chars_of(path).as_slice());
    extend_chars(&mut m, chars_of(". Expected .").as_slice());
    extend_chars(&mut m, chars_of(expected).as_slice());
    Err(string_of(m.as_slice()))
}

/// The text of a signed number.
pub open spec fn signed_decimal(n: int) -> Seq<char> {
    if n < 0 { "-"@ + decimal((-n) as nat) } else { decimal(n as nat) }
}

fn i32_text(n: i32) -> (r: Vec<char>)
    ensures
        r@ == signed_decimal(n as int),
{
    if n < 0 {
        let m: u64 = (-(n as i64)) as u64;
        let mut v = chars_of("-");
        extend_chars(&mut v, u64_to_chars(m).as_slice());
        v
    } else {
        u64_to_chars(n as u64)
    }
}

/// The message of a failed privileged helper: exit code 126 means the user cancelled,
/// 127 that authorization was denied; otherwise its trimmed error output when there is
/// some, else its exit code, else that it was terminated.
pub open spec fn spec_helper_error(status: Option<i32>, stderr: Seq<char>, operation: Seq<char>) -> Seq<char> {
    let e = trim_seq(stderr);
    if status == Some(126i32) {
        operation + " was cancelled by the user"@
    } else if status == Some(127i32) {
        operation + " failed because administrator authorization was denied"@
    } else if e.len() > 0 {
        e
    } else {
        match status {
            Some(code) => operation + " failed with exit code "@ + signed_decimal(code as int),
            None => operation + " was terminated unexpectedly"@,
        }
    }
}

/// The message of a failed privileged helper, from its exit code and error output.
pub fn format_helper_error(status_code: Option<i32>, stderr: &str, operation: &str) -> (r: String)
    ensures
        r@ == spec_helper_error(status_code, stderr@, operation@),
{
    let e = trim_chars(chars_of(stderr).as_slice());
    let mut m = chars_of(operation);
    match status_code {
        Some(126) => {
            extend_chars(&mut m, chars_of(" was cancelled by the user").as_slice());
            return string_of(m.as_slice());
        },
        Some(127) => {
            extend_chars(&mut m, chars_of(" failed because administrator authorization was denied").as_slice());
            return string_of(m.as_slice());
        },
        _ => {},
    }
    if e.len() > 0 {
        return string_of(e.as_slice());
    }
    match status_code {
        Some(code) => {
            extend_chars(&mut m, chars_of(" failed with exit code ").as_slice());
            extend_chars(&mut m, i32_text(code).as_slice());
        },
        None => {
            extend_chars(&mut m, chars_of(" was terminated unexpectedly").as_slice());
        },
    }
    string_of(m.as_slice())
}

/// The files deleted for a plugin name that passes the checks lie directly inside the
/// plugin directory: the name becomes `<name>.toml` and `<name>.so` there, nothing more.
pub proof fn law_deleted_plugin_files_stay_in_dir(name: Seq<char>, dir: Seq<char>)
    ensures
        spec_sanitize(name) matches Ok(f) ==> {
            &&& components(path_join(dir, f + ".toml"@)) == components(dir).push(f + ".toml"@)
            &&& components(path_join(dir, f + ".so"@)) == components(dir).push(f + ".so"@)
        },
{
    reveal_strlit(".toml");
    reveal_strlit(".so");
    if let Ok(f) = spec_sanitize(name) {
        let t = f + ".toml"@;
        let o = f + ".so"@;
        assert forall|j: int| 0 <= j < t.len() implies t[j] != '/' by {
            if j < f.len() {
                assert(name_char(f[j]));
            }
        }
        assert forall|j: int| 0 <= j < o.len() implies o[j] != '/' by {
            if j < f.len() {
                assert(name_char(f[j]));
            }
        }
        assert(t.len() > 1 && o.len() > 1);
        lemma_components_join(dir, t);
        lemma_components_join(dir, o);
    }
}

} // verus!

