//! How the cleaner plugin reads a message.
use vstd::prelude::*;
use crate::text::{chars_of, eq_lit, has_prefix, split_whitespace_seq, split_whitespace, starts_with_lit, string_of, sub_chars, trim_chars, trim_seq, views};

verus! {

/// What a message to the cleaner asks for.
pub enum CleanerCommand {
    /// Run the cleaner and answer with the front-end payload.
    RunFront,
    /// Run the cleaner and answer with the raw export payload.
    RunRaw,
    /// List the cache entries that could be deleted.
    ListCandidates,
    /// Delete the paths of a JSON array (the text of the array).
    DeleteSelectedJsonArgs(String),
    /// Delete these whitespace-separated paths.
    DeleteSelectedPaths(Vec<String>),
    /// A delete request without any path.
    DeleteSelectedMissingPaths,
    /// Anything else: a JSON request object (the trimmed message).
    JsonRequest(String),
}

/// The function of a JSON request.
pub enum JsonFunction {
    Run,
    ListCandidates,
    DeleteSelected,
    Unknown,
}

/// The arguments of a `delete_selected` message.
pub open spec fn delete_args(raw: Seq<char>) -> Seq<char> {
    if has_prefix(raw, "fn:delete_selected"@) {
        trim_seq(raw.skip(18))
    } else {
        trim_seq(raw.skip(15))
    }
}

/// What a raw message asks the cleaner to do.
pub open spec fn spec_cleaner_command_kind(msg: Seq<char>) -> int {
    let raw = trim_seq(msg);
    if raw == "fn:run"@ || raw == "run"@ || raw == "fn:run_front"@ || raw == "run_front"@ {
        0
    } else if raw == "fn:run_raw"@ || raw == "run_raw"@ {
        1
    } else if raw == "fn:list_candidates"@ || raw == "list_candidates"@ {
        2
    } else if has_prefix(raw, "fn:delete_selected"@) || has_prefix(raw, "delete_selected"@) {
        let args = delete_args(raw);
        if args.len() == 0 {
            5
        } else if args[0] == '[' {
            3
        } else {
            4
        }
    } else {
        6
    }
}

/// The command read from a message. The trimmed message is matched against the direct
/// commands; a message beginning with `fn:delete_selected` or `delete_selected` carries
/// its arguments, a JSON array when they begin with `[`, else paths separated by
/// whitespace; anything else is a JSON request.
pub fn parse_cleaner_message(msg: &str) -> (r: CleanerCommand)
    ensures
        spec_cleaner_command_kind(msg@) == match r {
            CleanerCommand::RunFront => 0int,
            CleanerCommand::RunRaw => 1,
            CleanerCommand::ListCandidates => 2,
            CleanerCommand::DeleteSelectedJsonArgs(_) => 3,
            CleanerCommand::DeleteSelectedPaths(_) => 4,
            CleanerCommand::DeleteSelectedMissingPaths => 5,
            CleanerCommand::JsonRequest(_) => 6,
        },
        r matches CleanerCommand::DeleteSelectedJsonArgs(a) ==> a@ == delete_args(trim_seq(msg@)),
        r matches CleanerCommand::DeleteSelectedPaths(ps) ==> views(ps@) == split_whitespace_seq(
            delete_args(trim_seq(msg@)),
        ),
        r matches CleanerCommand::JsonRequest(j) ==> j@ == trim_seq(msg@),
{
    let all = chars_of(msg);
    let raw = trim_chars(all.as_slice());
    let r = raw.as_slice();
    if eq_lit(r, "fn:run") || eq_lit(r, "run") || eq_lit(r, "fn:run_front") || eq_lit(r, "run_front") {
        return CleanerCommand::RunFront;
    }
    if eq_lit(r, "fn:run_raw") || eq_lit(r, "run_raw") {
        return CleanerCommand::RunRaw;
    }
    if eq_lit(r, "fn:list_candidates") || eq_lit(r, "list_candidates") {
        return CleanerCommand::ListCandidates;
    }
    let with_fn = starts_with_lit(r, "fn:delete_selected");
    if with_fn || starts_with_lit(r, "delete_selected") {
        proof {
            reveal_strlit("fn:delete_selected");
            reveal_strlit("delete_selected");
        }
        let rest = if with_fn {
            sub_chars(r, 18, r.len())
        } else {
            sub_chars(r, 15, r.len())
        };
        let args = trim_chars(rest.as_slice());
        proof {
            assert(rest@ =~= (if with_fn { raw@.skip(18) } else { raw@.skip(15) }));
        }
        if args.len() == 0 {
            return CleanerCommand::DeleteSelectedMissingPaths;
        }
        if args[0] == '[' {
            return CleanerCommand::DeleteSelectedJsonArgs(string_of(args.as_slice()));
        }
        let text = string_of(args.as_slice());
        return CleanerCommand::DeleteSelectedPaths(split_whitespace(text.as_str()));
    }
    CleanerCommand::JsonRequest(string_of(r))
}

/// The function that a JSON request names.
pub fn json_function(function: &str) -> (r: JsonFunction)
    ensures
        r is Run <==> function@ == "run"@,
        r is ListCandidates <==> function@ == "list_candidates"@,
        r is DeleteSelected <==> function@ == "delete_selected"@,
{
    let f = chars_of(function);
    proof {
        reveal_strlit("run");
        reveal_strlit("list_candidates");
        reveal_strlit("delete_selected");
        assert("run"@.len() == 3);
        assert("list_candidates"@[0] == 'l');
        assert("delete_selected"@[0] == 'd');
    }
    if eq_lit(f.as_slice(), "run") {
        JsonFunction::Run
    } else if eq_lit(f.as_slice(), "list_candidates") {
        JsonFunction::ListCandidates
    } else if eq_lit(f.as_slice(), "delete_selected") {
        JsonFunction::DeleteSelected
    } else {
        JsonFunction::Unknown
    }
}

} // verus!

verus! {

/// What went wrong while answering a message to the cleaner.
#[derive(PartialEq, Eq, Structural, Clone, Copy, Debug)]
pub enum CleanerErrorKind {
    /// The run itself failed.
    Cleaner,
    /// The settings could not be read.
    Context,
    /// Listing the candidates failed.
    ListCandidates,
    /// The arguments of `delete_selected` are not a JSON array of paths.
    DeleteArgsJson,
    /// The message is not a JSON request.
    RequestJson,
    /// The payload of a JSON `delete_selected` request is not a delete request.
    DeletePayload,
    /// The front-end payload could not be written as JSON.
    SerializeFront,
    /// The raw export payload could not be written as JSON.
    SerializeRaw,
    /// The analysis of a JSON `run` could not be written as JSON.
    SerializeAnalysis,
    /// Another answer could not be written as JSON.
    Serialize,
}

/// The beginning of the answer for each kind of failure.
pub open spec fn error_prefix(kind: CleanerErrorKind) -> Seq<char> {
    match kind {
        CleanerErrorKind::Cleaner => "ERR cleaner: "@,
        CleanerErrorKind::Context => "ERR context: "@,
        CleanerErrorKind::ListCandidates => "ERR list_candidates: "@,
        CleanerErrorKind::DeleteArgsJson => "ERR delete_selected invalid JSON args: "@,
        CleanerErrorKind::RequestJson => "ERR invalid request json: "@,
        CleanerErrorKind::DeletePayload => "ERR invalid delete_selected payload: "@,
        CleanerErrorKind::SerializeFront => "ERR json serialize front payload: "@,
        CleanerErrorKind::SerializeRaw => "ERR json serialize raw payload: "@,
        CleanerErrorKind::SerializeAnalysis => "ERR json serialize analysis: "@,
        CleanerErrorKind::Serialize => "ERR json serialize: "@,
    }
}

/// The answer to a failure: its prefix, then what went wrong.
pub fn error_reply(kind: CleanerErrorKind, detail: &str) -> (r: String)
    ensures
        r@ == error_prefix(kind) + detail@,
{
    let prefix = match kind {
        CleanerErrorKind::Cleaner => "ERR cleaner: ",
        CleanerErrorKind::Context => "ERR context: ",
        CleanerErrorKind::ListCandidates => "ERR list_candidates: ",
        CleanerErrorKind::DeleteArgsJson => "ERR delete_selected invalid JSON args: ",
        CleanerErrorKind::RequestJson => "ERR invalid request json: ",
        CleanerErrorKind::DeletePayload => "ERR invalid delete_selected payload: ",
        CleanerErrorKind::SerializeFront => "ERR json serialize front payload: ",
        CleanerErrorKind::SerializeRaw => "ERR json serialize raw payload: ",
        CleanerErrorKind::SerializeAnalysis => "ERR json serialize analysis: ",
        CleanerErrorKind::Serialize => "ERR json serialize: ",
    };
    let mut v = chars_of(prefix);
    crate::text::extend_chars(&mut v, chars_of(detail).as_slice());
    string_of(v.as_slice())
}

/// The answer to a delete request without any path.
pub fn missing_paths_reply() -> (r: String)
    ensures
        r@ == "ERR delete_selected requires at least one path"@,
{
    string_of(chars_of("ERR delete_selected requires at least one path").as_slice())
}

/// The answer to a JSON `delete_selected` request without a payload.
pub fn missing_payload_reply() -> (r: String)
    ensures
        r@ == "ERR missing payload"@,
{
    string_of(chars_of("ERR missing payload").as_slice())
}

/// The answer to a JSON request for an unknown function.
pub fn unknown_function_reply(function: &str) -> (r: String)
    ensures
        r@ == "ERR unknown function: "@ + function@,
{
    let mut v = chars_of("ERR unknown function: ");
    crate::text::extend_chars(&mut v, chars_of(function).as_slice());
    string_of(v.as_slice())
}

} // verus!


verus! {

/// What the cleaner plugin does next while answering a message: run, list or delete;
/// decode a JSON request that the message carries (and come back with what it held); or
/// answer at once.
pub enum CleanerStep {
    /// Run the cleaner and answer with the front-end payload.
    RunFront,
    /// Run the cleaner and answer with the raw export payload; a payload that cannot be
    /// written as JSON is answered as this kind of failure.
    RunRaw(CleanerErrorKind),
    /// List the cache entries that could be deleted.
    ListCandidates,
    /// Delete these paths.
    Delete(Vec<String>),
    /// Decode this text as a JSON request (its function, and whether it has a payload),
    /// then go on with `after_request`.
    DecodeRequest(String),
    /// Decode the request's payload as a delete request, then go on with
    /// `after_delete_payload`.
    DecodeDeletePayload,
    /// Answer with this text.
    Reply(String),
}

/// A name for what serde_json's `from_str::<Vec<String>>` reads from a text: the strings
/// of a JSON array of strings, or the text of the error that reading it gives.
pub uninterp spec fn json_string_array(text: Seq<char>) -> Result<Seq<Seq<char>>, Seq<char>>;

/// serde_json's `from_str::<Vec<String>>`, with its error as text; what it reads is named
/// by `json_string_array`.
#[verifier::external_body]
fn parse_string_array(text: &str) -> (r: Result<Vec<String>, String>)
    ensures
        match r {
            Ok(v) => json_string_array(text@) == Ok::<Seq<Seq<char>>, Seq<char>>(views(v@)),
            Err(e) => json_string_array(text@) == Err::<Seq<Seq<char>>, Seq<char>>(e@),
        },
{
    serde_json::from_str::<Vec<String>>(text).map_err(|e| e.to_string())
}

/// The step after reading the arguments of a delete message as a JSON array of paths: an
/// empty array is refused as a delete without paths, a non-empty one is deleted, and what
/// cannot be read is answered with the reading error.
pub open spec fn delete_args_step(decoded: Result<Seq<Seq<char>>, Seq<char>>, r: CleanerStep) -> bool {
    match decoded {
        Ok(items) => if items.len() == 0 {
            r matches CleanerStep::Reply(m) && m@ == "ERR delete_selected requires at least one path"@
        } else {
            r matches CleanerStep::Delete(ps) && views(ps@) == items
        },
        Err(e) => r matches CleanerStep::Reply(m) && m@ == error_prefix(CleanerErrorKind::DeleteArgsJson) + e,
    }
}

/// The step for the arguments of a delete message that begin with `[`: they are read as a
/// JSON array of paths (see `delete_args_step`).
pub fn after_delete_text(args: &str) -> (r: CleanerStep)
    ensures
        delete_args_step(json_string_array(args@), r),
{
    let decoded = parse_string_array(args);
    let r = after_delete_args(decoded);
    r
}

/// The first step of answering a message: the direct commands run or list; a delete with
/// paths deletes them, one without any is refused, one with a JSON array has it read;
/// anything else is decoded as a JSON request.
pub fn first_step(msg: &str) -> (r: CleanerStep)
    ensures
        spec_cleaner_command_kind(msg@) == 0 ==> r is RunFront,
        spec_cleaner_command_kind(msg@) == 1 ==> r == CleanerStep::RunRaw(CleanerErrorKind::SerializeRaw),
        spec_cleaner_command_kind(msg@) == 2 ==> r is ListCandidates,
        spec_cleaner_command_kind(msg@) == 3 ==> delete_args_step(json_string_array(delete_args(trim_seq(msg@))), r),
        spec_cleaner_command_kind(msg@) == 4 ==> (r matches CleanerStep::Delete(ps) && views(ps@) == split_whitespace_seq(delete_args(trim_seq(msg@)))),
        spec_cleaner_command_kind(msg@) == 5 ==> (r matches CleanerStep::Reply(m) && m@ == "ERR delete_selected requires at least one path"@),
        spec_cleaner_command_kind(msg@) == 6 ==> (r matches CleanerStep::DecodeRequest(j) && j@ == trim_seq(msg@)),
{
    match parse_cleaner_message(msg) {
        CleanerCommand::RunFront => CleanerStep::RunFront,
        CleanerCommand::RunRaw => CleanerStep::RunRaw(CleanerErrorKind::SerializeRaw),
        CleanerCommand::ListCandidates => CleanerStep::ListCandidates,
        CleanerCommand::DeleteSelectedJsonArgs(a) => after_delete_text(a.as_str()),
        CleanerCommand::DeleteSelectedPaths(ps) => CleanerStep::Delete(ps),
        CleanerCommand::DeleteSelectedMissingPaths => CleanerStep::Reply(missing_paths_reply()),
        CleanerCommand::JsonRequest(j) => CleanerStep::DecodeRequest(j),
    }
}

/// After decoding the JSON array of a delete message: an empty array is refused as a
/// delete without paths, a non-empty one is deleted, and text that is not an array of
/// paths is answered with the decoding error.
pub fn after_delete_args(decoded: Result<Vec<String>, String>) -> (r: CleanerStep)
    ensures
        match decoded {
            Ok(items) => if items@.len() == 0 {
                r matches CleanerStep::Reply(m) && m@ == "ERR delete_selected requires at least one path"@
            } else {
                r matches CleanerStep::Delete(ps) && ps@ == items@
            },
            Err(e) => r matches CleanerStep::Reply(m) && m@ == error_prefix(CleanerErrorKind::DeleteArgsJson) + e@,
        },
{
    match decoded {
        Ok(items) => if items.len() == 0 {
            CleanerStep::Reply(missing_paths_reply())
        } else {
            CleanerStep::Delete(items)
        },
        Err(e) => CleanerStep::Reply(error_reply(CleanerErrorKind::DeleteArgsJson, e.as_str())),
    }
}

/// After decoding a JSON request (its function, and whether it carries a payload): `run`
/// runs for the raw payload, `list_candidates` lists, `delete_selected` needs its payload
/// decoded (and is refused without one), another function is unknown; text that is not a
/// request is answered with the decoding error.
pub fn after_request(decoded: Result<(String, bool), String>) -> (r: CleanerStep)
    ensures
        match decoded {
            Err(e) => r matches CleanerStep::Reply(m) && m@ == error_prefix(CleanerErrorKind::RequestJson) + e@,
            Ok((f, has_payload)) => if f@ == "run"@ {
                r == CleanerStep::RunRaw(CleanerErrorKind::SerializeAnalysis)
            } else if f@ == "list_candidates"@ {
                r is ListCandidates
            } else if f@ == "delete_selected"@ {
                if has_payload {
                    r is DecodeDeletePayload
                } else {
                    r matches CleanerStep::Reply(m) && m@ == "ERR missing payload"@
                }
            } else {
                r matches CleanerStep::Reply(m) && m@ == "ERR unknown function: "@ + f@
            },
        },
{
    match decoded {
        Err(e) => CleanerStep::Reply(error_reply(CleanerErrorKind::RequestJson, e.as_str())),
        Ok((f, has_payload)) => match json_function(f.as_str()) {
            JsonFunction::Run => CleanerStep::RunRaw(CleanerErrorKind::SerializeAnalysis),
            JsonFunction::ListCandidates => CleanerStep::ListCandidates,
            JsonFunction::DeleteSelected => if has_payload {
                CleanerStep::DecodeDeletePayload
            } else {
                CleanerStep::Reply(missing_payload_reply())
            },
            JsonFunction::Unknown => CleanerStep::Reply(unknown_function_reply(f.as_str())),
        },
    }
}

/// After decoding the payload of a JSON delete request: its items are deleted (even none),
/// and a payload that is not a delete request is answered with the decoding error.
pub fn after_delete_payload(decoded: Result<Vec<String>, String>) -> (r: CleanerStep)
    ensures
        match decoded {
            Ok(items) => r matches CleanerStep::Delete(ps) && ps@ == items@,
            Err(e) => r matches CleanerStep::Reply(m) && m@ == error_prefix(CleanerErrorKind::DeletePayload) + e@,
        },
{
    match decoded {
        Ok(items) => CleanerStep::Delete(items),
        Err(e) => CleanerStep::Reply(error_reply(CleanerErrorKind::DeletePayload, e.as_str())),
    }
}

} // verus!
