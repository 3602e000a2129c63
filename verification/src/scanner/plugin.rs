//! The scanner plugin's answers: how each command's outcome is worded, and when a scan
//! request may run.
use vstd::prelude::*;
use crate::scanner::args::ScanArgs;
use crate::scanner::engine::{
    engine_not_ready, named_categories, spec_not_ready_message, Ack, ScanOptions, STATE_READY,
};
use crate::text::{chars_of, extend_chars, string_of, views};

verus! {

fn cat(a: &str, b: &str) -> (r: String)
    ensures
        r@ == a@ + b@,
{
    let mut v = chars_of(a);
    extend_chars(&mut v, chars_of(b).as_slice());
    string_of(v.as_slice())
}

fn cat4(a: &str, b: &str, c: &str, d: &str) -> (r: String)
    ensures
        r@ == a@ + b@ + c@ + d@,
{
    let mut v = chars_of(a);
    extend_chars(&mut v, chars_of(b).as_slice());
    extend_chars(&mut v, chars_of(c).as_slice());
    extend_chars(&mut v, chars_of(d).as_slice());
    string_of(v.as_slice())
}

/// The text a command answers: its JSON output, or `ERR: <error>`.
pub fn reply(outcome: Result<String, String>) -> (r: String)
    ensures
        match outcome {
            Ok(json) => r == json,
            Err(e) => r@ == "ERR: "@ + e@,
        },
{
    match outcome {
        Ok(json) => json,
        Err(e) => cat("ERR: ", e.as_str()),
    }
}

/// The answer to arguments that do not fit the command.
pub fn invalid_arguments(error: &str) -> (r: String)
    ensures
        r@ == "ERR invalid arguments: "@ + error@,
{
    cat("ERR invalid arguments: ", error)
}

/// The answer when a command's output could not be written as JSON.
pub fn serialize_failed(error: &str) -> (r: String)
    ensures
        r@ == "ERR json serialize: "@ + error@,
{
    cat("ERR json serialize: ", error)
}

/// The answer to a payload that is not JSON.
pub fn invalid_payload(error: &str) -> (r: String)
    ensures
        r@ == "ERR invalid payload json: "@ + error@,
{
    cat("ERR invalid payload json: ", error)
}

/// The error when the quarantine directory cannot be prepared.
pub fn quarantine_unavailable(error: &str) -> (r: String)
    ensures
        r@ == "Failed to initialize quarantine: "@ + error@,
{
    cat("Failed to initialize quarantine: ", error)
}

/// The answer to quarantining (or deleting) a path.
pub fn quarantine_answer(path: &str, outcome: Result<(), String>) -> (r: Result<Ack, String>)
    ensures
        match outcome {
            Ok(_) => r matches Ok(a) && a.ok && a.message@ == path@ + " quarantined successfully"@,
            Err(e) => r matches Err(m) && m@ == "Failed to quarantine "@ + path@ + ": "@ + e@,
        },
{
    match outcome {
        Ok(_) => Ok(Ack::ok(cat(path, " quarantined successfully"))),
        Err(e) => Err(cat4("Failed to quarantine ", path, ": ", e.as_str())),
    }
}

/// The answer to restoring a quarantined item, from where it was restored or why not.
pub fn restore_answer(name: &str, outcome: Result<String, String>) -> (r: Result<Ack, String>)
    ensures
        match outcome {
            Ok(p) => r matches Ok(a) && a.ok && a.message@ == "Restored to "@ + p@,
            Err(e) => r matches Err(m) && m@ == "Failed to restore "@ + name@ + ": "@ + e@,
        },
{
    match outcome {
        Ok(p) => Ok(Ack::ok(cat("Restored to ", p.as_str()))),
        Err(e) => Err(cat4("Failed to restore ", name, ": ", e.as_str())),
    }
}

/// The answer to updating the signatures.
pub fn update_answer(outcome: Result<(), String>) -> (r: Result<Ack, String>)
    ensures
        match outcome {
            Ok(_) => r matches Ok(a) && a.ok && a.message@ == "Update completed successfully"@,
            Err(e) => r matches Err(m) && m@ == "Update failed: "@ + e@,
        },
{
    match outcome {
        Ok(_) => Ok(Ack::ok(string_of(chars_of("Update completed successfully").as_slice()))),
        Err(e) => Err(cat("Update failed: ", e.as_str())),
    }
}

/// The error when a report or list could not be written as JSON.
pub fn serialize_report_failed(what: &str, error: &str) -> (r: String)
    ensures
        r@ == "Failed to serialize "@ + what@ + ": "@ + error@,
{
    cat4("Failed to serialize ", what, ": ", error)
}

/// A scan request in an engine state: refused with the state's message unless the engine
/// is ready; then the scan options of its first path.
pub fn scan_request(state: u8, opts: &ScanOptions) -> (r: Result<ScanArgs, String>)
    requires
        state == STATE_READY ==> opts.paths@.len() > 0,
    ensures
        state != STATE_READY ==> (r matches Err(m) && m@ == spec_not_ready_message(state)),
        state == STATE_READY ==> (r matches Ok(a) && views(a.paths@) == seq![opts.paths@[0]@]
            && a.archives == opts.archive && a.recursive == opts.folder && a.threads@
            == opts.threading@ && a.nb_threads == opts.threads && a.included@ == named_categories(
            views(opts.threats@),
        ) && a.exclude@.len() == 0 && !a.yara_only),
{
    match engine_not_ready(state) {
        Some(status) => Err(status.message),
        None => Ok(opts.to_scan_args()),
    }
}

/// The answer to `db_state`: refused with the state's message unless the engine is ready;
/// then the number of loaded rules.
pub fn db_state_request(state: u8, rule_count: usize) -> (r: Result<usize, String>)
    ensures
        state != STATE_READY ==> (r matches Err(m) && m@ == spec_not_ready_message(state)),
        state == STATE_READY ==> r == Ok::<usize, String>(rule_count),
{
    match engine_not_ready(state) {
        Some(status) => Err(status.message),
        None => Ok(rule_count),
    }
}

} // verus!
