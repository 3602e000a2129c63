//! The scanner engine's life cycle, its commands, and the options a scan request carries.
use vstd::prelude::*;
use crate::scanner::args::ScanArgs;
use crate::scanner::category::{ThreatCategory, spec_try_from_str};
use crate::text::{chars_of, eq_lit, extend_chars, string_of};

verus! {

/// The engine is not running.
pub const STATE_STOPPED: u8 = 0;
/// The engine is loading its signatures.
pub const STATE_LOADING: u8 = 1;
/// The engine can scan.
pub const STATE_READY: u8 = 2;
/// The engine failed to load.
pub const STATE_ERROR: u8 = 3;

/// The name of an engine state.
pub open spec fn spec_state_label(state: u8) -> Seq<char> {
    if state == STATE_STOPPED {
        "stopped"@
    } else if state == STATE_LOADING {
        "loading"@
    } else if state == STATE_READY {
        "ready"@
    } else if state == STATE_ERROR {
        "error"@
    } else {
        "unknown"@
    }
}

/// The name of an engine state.
pub fn engine_state_label(state: u8) -> (r: &'static str)
    ensures
        r@ == spec_state_label(state),
{
    if state == STATE_STOPPED {
        "stopped"
    } else if state == STATE_LOADING {
        "loading"
    } else if state == STATE_READY {
        "ready"
    } else if state == STATE_ERROR {
        "error"
    } else {
        "unknown"
    }
}

/// The engine's state and a message about it.
pub struct EngineStatus {
    pub state: String,
    pub message: String,
}

/// The answer to a command that only succeeds or fails.
pub struct Ack {
    pub ok: bool,
    pub message: String,
}

impl Ack {
    /// A success with this message.
    pub fn ok(message: String) -> (r: Ack)
        ensures
            r.ok,
            r.message == message,
    {
        Ack { ok: true, message }
    }
}

fn lit(s: &str) -> (r: String)
    ensures
        r@ == s@,
{
    string_of(chars_of(s).as_slice())
}

/// Why a command that needs the engine cannot run in a state.
pub open spec fn spec_not_ready_message(state: u8) -> Seq<char> {
    if state == STATE_LOADING {
        "Engine is still loading signatures, try again shortly"@
    } else if state == STATE_STOPPED {
        "Engine is not running, call start first"@
    } else if state == STATE_ERROR {
        "Engine failed to initialize"@
    } else {
        "Engine is in an unknown state"@
    }
}

/// `None` when the engine is ready; otherwise its state and why it cannot scan.
pub fn engine_not_ready(state: u8) -> (r: Option<EngineStatus>)
    ensures
        state == STATE_READY <==> r is None,
        r matches Some(s) ==> s.state@ == spec_state_label(state) && s.message@
            == spec_not_ready_message(state),
{
    if state == STATE_READY {
        return None;
    }
    let message = if state == STATE_LOADING {
        lit("Engine is still loading signatures, try again shortly")
    } else if state == STATE_STOPPED {
        lit("Engine is not running, call start first")
    } else if state == STATE_ERROR {
        lit("Engine failed to initialize")
    } else {
        lit("Engine is in an unknown state")
    };
    Some(EngineStatus { state: lit(engine_state_label(state)), message })
}

/// What the `check` command says of a state.
pub open spec fn spec_check_message(state: u8) -> Seq<char> {
    if state == STATE_READY {
        "Engine is ready"@
    } else if state == STATE_LOADING {
        "Engine is still loading signatures"@
    } else if state == STATE_ERROR {
        "Engine failed to initialize"@
    } else {
        "Engine is not running"@
    }
}

/// The answer to the `check` command: the engine's state and a message about it.
pub fn check_status(state: u8) -> (r: EngineStatus)
    ensures
        r.state@ == spec_state_label(state),
        r.message@ == spec_check_message(state),
{
    let message = if state == STATE_READY {
        lit("Engine is ready")
    } else if state == STATE_LOADING {
        lit("Engine is still loading signatures")
    } else if state == STATE_ERROR {
        lit("Engine failed to initialize")
    } else {
        lit("Engine is not running")
    };
    EngineStatus { state: lit(engine_state_label(state)), message }
}

/// Stopping: whether it succeeds, and the state after. A stopped engine stays stopped, a
/// loading one keeps loading and refuses, any other stops.
pub open spec fn spec_stop(state: u8) -> (bool, u8) {
    if state == STATE_STOPPED {
        (true, STATE_STOPPED)
    } else if state == STATE_LOADING {
        (false, STATE_LOADING)
    } else {
        (true, STATE_STOPPED)
    }
}

/// Beginning a start: whether loading may begin, and the state after.
pub open spec fn spec_begin_start(state: u8) -> (bool, u8) {
    if state != STATE_LOADING && state != STATE_READY {
        (true, STATE_LOADING)
    } else {
        (false, state)
    }
}

/// The state after a start ends.
pub open spec fn spec_finish_start(prepared: bool) -> u8 {
    if prepared { STATE_READY } else { STATE_ERROR }
}

/// Stops the engine: a stopped engine stays so, a loading one is left loading (and the
/// answer is a failure); any other is stopped.
pub fn stop_engine(state: &mut u8) -> (r: Ack)
    ensures
        (r.ok, *final(state)) == spec_stop(*old(state)),
        *old(state) == STATE_STOPPED ==> r.ok && r.message@ == "Already stopped"@ && *final(state)
            == STATE_STOPPED,
        *old(state) == STATE_LOADING ==> !r.ok && r.message@
            == "Engine is still loading, wait for ready"@ && *final(state) == STATE_LOADING,
        *old(state) != STATE_STOPPED && *old(state) != STATE_LOADING ==> r.ok && r.message@
            == "Engine stopped"@ && *final(state) == STATE_STOPPED,
{
    if *state == STATE_STOPPED {
        return Ack::ok(lit("Already stopped"));
    }
    if *state == STATE_LOADING {
        return Ack { ok: false, message: lit("Engine is still loading, wait for ready") };
    }
    *state = STATE_STOPPED;
    Ack::ok(lit("Engine stopped"))
}

/// Begins to start the engine: unless it is already loading or ready, it enters the
/// loading state and the answer is that loading may begin.
pub fn begin_start(state: &mut u8) -> (r: bool)
    ensures
        (r, *final(state)) == spec_begin_start(*old(state)),
        r == (*old(state) != STATE_LOADING && *old(state) != STATE_READY),
        r ==> *final(state) == STATE_LOADING,
        !r ==> *final(state) == *old(state),
{
    if *state == STATE_LOADING || *state == STATE_READY {
        return false;
    }
    *state = STATE_LOADING;
    true
}

/// Ends a start: the engine is ready when its preparation succeeded, else in error.
pub fn finish_start(state: &mut u8, prepared: bool)
    ensures
        *final(state) == spec_finish_start(prepared),
        *final(state) == if prepared { STATE_READY } else { STATE_ERROR },
{
    *state = if prepared { STATE_READY } else { STATE_ERROR };
}

/// After the signatures were updated, a ready engine is restarted to use them.
pub fn restart_after_update(state: u8) -> (r: bool)
    ensures
        r == (state == STATE_READY),
{
    state == STATE_READY
}

/// The commands of the scanner plugin.
#[derive(PartialEq, Eq, Structural, Clone, Copy, Debug)]
pub enum ScannerCommand {
    Check,
    Stop,
    Scan,
    DbState,
    DbUpdate,
    Quarantine,
    Delete,
    QList,
    Restore,
}

/// The command a function name calls.
pub open spec fn spec_command_of(name: Seq<char>) -> Option<ScannerCommand> {
    if name == "check"@ {
        Some(ScannerCommand::Check)
    } else if name == "stop"@ {
        Some(ScannerCommand::Stop)
    } else if name == "scan"@ {
        Some(ScannerCommand::Scan)
    } else if name == "db_state"@ {
        Some(ScannerCommand::DbState)
    } else if name == "db_update"@ {
        Some(ScannerCommand::DbUpdate)
    } else if name == "quarantine"@ {
        Some(ScannerCommand::Quarantine)
    } else if name == "delete"@ {
        Some(ScannerCommand::Delete)
    } else if name == "q_list"@ {
        Some(ScannerCommand::QList)
    } else if name == "restore"@ {
        Some(ScannerCommand::Restore)
    } else {
        None
    }
}

/// The command a function name calls, if any.
pub fn command_of(name: &str) -> (r: Option<ScannerCommand>)
    ensures
        r == spec_command_of(name@),
{
    let n = chars_of(name);
    let n = n.as_slice();
    if eq_lit(n, "check") {
        Some(ScannerCommand::Check)
    } else if eq_lit(n, "stop") {
        Some(ScannerCommand::Stop)
    } else if eq_lit(n, "scan") {
        Some(ScannerCommand::Scan)
    } else if eq_lit(n, "db_state") {
        Some(ScannerCommand::DbState)
    } else if eq_lit(n, "db_update") {
        Some(ScannerCommand::DbUpdate)
    } else if eq_lit(n, "quarantine") {
        Some(ScannerCommand::Quarantine)
    } else if eq_lit(n, "delete") {
        Some(ScannerCommand::Delete)
    } else if eq_lit(n, "q_list") {
        Some(ScannerCommand::QList)
    } else if eq_lit(n, "restore") {
        Some(ScannerCommand::Restore)
    } else {
        None
    }
}

/// The answer to a call of an unknown function.
pub fn unknown_function(name: &str) -> (r: String)
    ensures
        r@ == "ERR unknown function: "@ + name@,
{
    let mut v = chars_of("ERR unknown function: ");
    extend_chars(&mut v, chars_of(name).as_slice());
    string_of(v.as_slice())
}

/// How a scan request wants its threads.
#[derive(PartialEq, Eq, Structural, Clone, Copy, Debug)]
pub enum Threading {
    Auto,
    Max,
    Custom,
}

impl Default for Threading {
    /// `Auto`.
    fn default() -> (r: Threading)
        ensures
            r == Threading::Auto,
    {
        Threading::Auto
    }
}

/// The options of a scan request.
pub struct ScanOptions {
    pub paths: Vec<String>,
    pub archive: bool,
    pub folder: bool,
    pub threading: String,
    pub threads: u32,
    pub threats: Vec<String>,
}

/// A request that names a path.
pub struct PathTarget {
    pub path: String,
}

/// The categories named in a request, in order; unknown names are dropped.
pub open spec fn named_categories(names: Seq<Seq<char>>) -> Seq<ThreatCategory>
    decreases names.len(),
{
    if names.len() == 0 {
        Seq::empty()
    } else {
        match spec_try_from_str(names.last()) {
            Some(c) => named_categories(names.drop_last()).push(c),
            None => named_categories(names.drop_last()),
        }
    }
}

impl ScanOptions {
    /// The scan options of a request: its first path, archives and subdirectories as
    /// asked, its threading, only the categories it names (unknown names dropped), none
    /// excluded, hashes and rules both used.
    pub fn to_scan_args(&self) -> (r: ScanArgs)
        requires
            self.paths@.len() > 0,
        ensures
            crate::text::views(r.paths@) == seq![self.paths@[0]@],
            r.archives == self.archive,
            r.recursive == self.folder,
            r.threads@ == self.threading@,
            r.nb_threads == self.threads,
            r.included@ == named_categories(crate::text::views(self.threats@)),
            r.exclude@.len() == 0,
            !r.yara_only,
    {
        let ghost names = crate::text::views(self.threats@);
        let mut included: Vec<ThreatCategory> = Vec::new();
        let mut i: usize = 0;
        while i < self.threats.len()
            invariant
                0 <= i <= self.threats@.len(),
                names == crate::text::views(self.threats@),
                included@ == named_categories(names.take(i as int)),
            decreases self.threats@.len() - i,
        {
            proof {
                assert(names.take(i + 1).drop_last() =~= names.take(i as int));
                assert(names.take(i + 1).last() == self.threats@[i as int]@);
            }
            if let Some(c) = ThreatCategory::try_from_str(self.threats[i].as_str()) {
                included.push(c);
            }
            i += 1;
        }
        assert(names.take(names.len() as int) =~= names);
        let mut paths: Vec<String> = Vec::new();
        paths.push(self.paths[0].clone());
        assert(crate::text::views(paths@) =~= seq![self.paths@[0]@]);
        ScanArgs {
            archives: self.archive,
            recursive: self.folder,
            paths,
            yara_only: false,
            threads: self.threading.clone(),
            nb_threads: self.threads,
            included,
            exclude: Vec::new(),
        }
    }
}

/// The engine's life cycle: from any state but loading, a stop followed by a start that
/// prepares successfully leaves the engine ready, and one that fails leaves it in error;
/// while it loads, neither a stop nor another start changes its state.
pub proof fn law_engine_life_cycle(state: u8, prepared: bool)
    ensures
        state != STATE_LOADING ==> ({
            let s1 = spec_stop(state).1;
            &&& spec_stop(state).0
            &&& s1 == STATE_STOPPED
            &&& spec_begin_start(s1) == (true, STATE_LOADING)
            &&& spec_finish_start(prepared) == if prepared { STATE_READY } else { STATE_ERROR }
        }),
        spec_stop(STATE_LOADING) == (false, STATE_LOADING),
        spec_begin_start(STATE_LOADING) == (false, STATE_LOADING),
        spec_begin_start(STATE_READY) == (false, STATE_READY),
{
}

} // verus!

