//! The Docker helper plugin: the containers that `docker ps` lists, and its error answers.
use vstd::prelude::*;
use crate::text::{chars_of, extend_chars, string_of, trim_chars, trim_seq};

verus! {

/// A container as the plugin lists it.
pub struct Container {
    pub id: String,
    pub name: String,
    pub image: String,
    pub state: String,
    pub status: String,
}

/// A field of `docker ps`, or `Unknown` when it is missing or not text.
pub open spec fn field_or_unknown(v: Option<Seq<char>>) -> Seq<char> {
    match v {
        Some(s) => s,
        None => "Unknown"@,
    }
}

/// The view of an optional text.
pub open spec fn opt_str(o: Option<&str>) -> Option<Seq<char>> {
    match o {
        Some(s) => Some(s@),
        None => None,
    }
}

fn field(v: Option<&str>) -> (r: String)
    ensures
        r@ == field_or_unknown(opt_str(v)),
{
    match v {
        Some(s) => string_of(chars_of(s).as_slice()),
        None => string_of(chars_of("Unknown").as_slice()),
    }
}

/// A container from the `ID`, `Names`, `Image`, `State` and `Status` fields of a line of
/// `docker ps`, each `Unknown` when missing.
pub fn container_of(
    id: Option<&str>,
    names: Option<&str>,
    image: Option<&str>,
    state: Option<&str>,
    status: Option<&str>,
) -> (r: Container)
    ensures
        r.id@ == field_or_unknown(opt_str(id)),
        r.name@ == field_or_unknown(opt_str(names)),
        r.image@ == field_or_unknown(opt_str(image)),
        r.state@ == field_or_unknown(opt_str(state)),
        r.status@ == field_or_unknown(opt_str(status)),
{
    Container { id: field(id), name: field(names), image: field(image), state: field(state), status: field(status) }
}

/// A name for what serde_json reads of a JSON text at a key: nothing when the text is not
/// JSON; else the text under the key, when the value is an object with a string there
/// (`from_str::<Value>`, then indexing by the key and `as_str`).
pub uninterp spec fn json_string_field(line: Seq<char>, key: Seq<char>) -> Option<Option<Seq<char>>>;

/// The view of an optional optional text.
pub open spec fn opt_opt_view(o: Option<Option<String>>) -> Option<Option<Seq<char>>> {
    match o {
        None => None,
        Some(None) => Some(None),
        Some(Some(s)) => Some(Some(s@)),
    }
}

/// serde_json's `from_str::<Value>` on a text, then the string at a key (`as_str` of the
/// value indexed by the key); what it reads is named by `json_string_field`.
#[verifier::external_body]
fn json_field(line: &str, key: &str) -> (r: Option<Option<String>>)
    ensures
        opt_opt_view(r) == json_string_field(line@, key@),
{
    serde_json::from_str::<serde_json::Value>(line).ok().map(|v| v[key].as_str().map(|s| s.to_string()))
}

/// A field read from a line: its text, or `Unknown` when it is missing or not text.
pub open spec fn line_field(f: Option<Option<Seq<char>>>) -> Seq<char> {
    match f {
        Some(Some(s)) => s,
        _ => "Unknown"@,
    }
}

fn line_field_exec(f: Option<Option<String>>) -> (r: String)
    ensures
        r@ == line_field(opt_opt_view(f)),
{
    match f {
        Some(Some(s)) => s,
        _ => string_of(chars_of("Unknown").as_slice()),
    }
}

/// The container a line of `docker ps --format '{{json .}}'` describes: none for a blank
/// line or one that is not JSON; else its `ID`, `Names`, `Image`, `State` and `Status`
/// fields, each `Unknown` when missing or not text.
pub fn container_of_line(line: &str) -> (r: Option<Container>)
    ensures
        trim_seq(line@).len() == 0 ==> r is None,
        trim_seq(line@).len() > 0 ==> (r is Some <==> json_string_field(line@, "ID"@) is Some),
        r matches Some(c) ==> c.id@ == line_field(json_string_field(line@, "ID"@))
            && c.name@ == line_field(json_string_field(line@, "Names"@))
            && c.image@ == line_field(json_string_field(line@, "Image"@))
            && c.state@ == line_field(json_string_field(line@, "State"@))
            && c.status@ == line_field(json_string_field(line@, "Status"@)),
{
    if trim_chars(chars_of(line).as_slice()).len() == 0 {
        return None;
    }
    let id = json_field(line, "ID");
    if id.is_none() {
        return None;
    }
    let name = json_field(line, "Names");
    let image = json_field(line, "Image");
    let state = json_field(line, "State");
    let status = json_field(line, "Status");
    Some(Container {
        id: line_field_exec(id),
        name: line_field_exec(name),
        image: line_field_exec(image),
        state: line_field_exec(state),
        status: line_field_exec(status),
    })
}

fn cat(a: &str, b: &str) -> (r: String)
    ensures
        r@ == a@ + b@,
{
    let mut v = chars_of(a);
    extend_chars(&mut v, chars_of(b).as_slice());
    string_of(v.as_slice())
}

/// The error when `docker` could not be started.
pub fn launch_failed(error: &str) -> (r: String)
    ensures
        r@ == "Failed to execute docker command: "@ + error@,
{
    cat("Failed to execute docker command: ", error)
}

/// The error when `docker ps` failed, with what it wrote on its error output.
pub fn cli_failed(stderr: &str) -> (r: String)
    ensures
        r@ == "Docker CLI error: "@ + stderr@,
{
    cat("Docker CLI error: ", stderr)
}

/// The message of arguments that do not fit a command.
pub fn invalid_arguments_message(error: &str) -> (r: String)
    ensures
        r@ == "invalid arguments: "@ + error@,
{
    cat("invalid arguments: ", error)
}

/// The message when an answer could not be written as JSON.
pub fn serialize_message(error: &str) -> (r: String)
    ensures
        r@ == "json serialize: "@ + error@,
{
    cat("json serialize: ", error)
}

/// The answer to a payload that is not JSON: the payload itself is quoted back.
pub fn invalid_payload_reply(raw_payload: &str) -> (r: String)
    ensures
        r@ == "ERR invalid payload json: "@ + raw_payload@,
{
    cat("ERR invalid payload json: ", raw_payload)
}

} // verus!
