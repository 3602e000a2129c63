//! The command line client: how it reads a command typed by the user.
use vstd::prelude::*;
use crate::daemon::uuid_text::{parse_uuid_16, uuid_parse};
use crate::text::{chars_of, eq_lit, find_char, find_char_exec, lemma_find_char_from_some, parse_digits, spec_parse_unsigned, split_trim_nonempty, split_trim_nonempty_exec, string_of, sub_chars, trim_chars, trim_seq, unsigned_digits, views};

verus! {

/// The text before the first space, and what follows that space, if there is one.
pub open spec fn split_once_space(s: Seq<char>) -> (Seq<char>, Option<Seq<char>>) {
    match find_char(s, ' ') {
        Some(k) => (s.take(k), Some(s.skip(k + 1))),
        None => (s, None),
    }
}

fn split_once_space_exec(s: &[char]) -> (r: (Vec<char>, Option<Vec<char>>))
    ensures
        r.0@ == split_once_space(s@).0,
        match r.1 {
            Some(t) => split_once_space(s@).1 == Some(t@),
            None => split_once_space(s@).1 is None,
        },
{
    match find_char_exec(s, ' ') {
        Some(k) => {
            proof {
                lemma_find_char_from_some(s@, ' ', 0);
            }
            let n = s.len();
            assert(k < n);
            let a = sub_chars(s, 0, k);
            let b = sub_chars(s, k + 1, n);
            assert(a@ =~= s@.take(k as int));
            assert(b@ =~= s@.skip(k + 1));
            (a, Some(b))
        },
        None => (sub_chars(s, 0, s.len()), None),
    }
}

/// A command typed to the client.
pub enum CliCommand {
    /// A blank line: nothing to do.
    Nothing,
    /// Ask the daemon for its plugins again.
    Refresh,
    /// Leave the client.
    Quit,
    /// Restart a process (not carried out yet).
    Restart(u32),
    /// Start a plugin.
    Start([u8; 16]),
    /// Stop a plugin.
    Stop([u8; 16]),
    /// Call a plugin's function.
    Call { plugin_uuid: [u8; 16], fn_name: String, args: Vec<String> },
    /// A command used wrongly: how to use it.
    Usage(String),
    /// A plugin identifier that is not a UUID.
    InvalidUuid,
    /// A process id that is not a number.
    InvalidPid,
    /// An unknown command.
    Invalid,
}

/// What `str::parse::<u32>` gives.
pub open spec fn spec_parse_u32(s: Seq<char>) -> Option<nat> {
    spec_parse_unsigned(s, u32::MAX as nat)
}

fn parse_u32(s: &[char]) -> (r: Option<u32>)
    ensures
        match r {
            Some(n) => spec_parse_u32(s@) == Some(n as nat),
            None => spec_parse_u32(s@) is None,
        },
{
    let plus = s.len() > 0 && s[0] == '+';
    let ds = if plus { sub_chars(s, 1, s.len()) } else { sub_chars(s, 0, s.len()) };
    assert(ds@ =~= unsigned_digits(s@));
    match parse_digits(ds.as_slice(), 0xffff_ffff) {
        Some(v) => Some(v as u32),
        None => None,
    }
}

/// The arguments of a call: split at `|`, trimmed, empty ones dropped; none for an empty
/// text.
pub open spec fn call_args(raw: Seq<char>) -> Seq<Seq<char>> {
    if raw.len() == 0 {
        Seq::empty()
    } else {
        split_trim_nonempty(raw, seq!['|'])
    }
}

/// A command as plain values: its kind (0 nothing, 1 refresh, 2 quit, 3 restart, 4 start,
/// 5 stop, 6 call, 7 usage, 8 invalid uuid, 9 invalid pid, 10 invalid), its number, its
/// identifier, its function, its arguments and its usage text.
pub type CommandFields = (int, nat, Seq<u8>, Seq<char>, Seq<Seq<char>>, Seq<char>);

/// The usage of `call`.
pub open spec fn call_usage() -> Seq<char> {
    "Usage: call <plugin_uuid> <fn_name> <arg1|arg2|...>"@
}

/// What a typed line asks for. The trimmed line is cut at single spaces into the command,
/// its first argument and the rest.
pub open spec fn spec_parse_command(input: Seq<char>) -> CommandFields {
    let t = trim_seq(input);
    let (cmd, rest1) = split_once_space(t);
    let arg1: Option<Seq<char>> = match rest1 {
        Some(r) => Some(split_once_space(r).0),
        None => None,
    };
    let arg2: Option<Seq<char>> = match rest1 {
        Some(r) => split_once_space(r).1,
        None => None,
    };
    let none: CommandFields = (0, 0, Seq::empty(), Seq::empty(), Seq::empty(), Seq::empty());
    if t.len() == 0 {
        none
    } else if cmd == "refresh"@ {
        (1, 0, Seq::empty(), Seq::empty(), Seq::empty(), Seq::empty())
    } else if cmd == "exit"@ || cmd == "quit"@ {
        (2, 0, Seq::empty(), Seq::empty(), Seq::empty(), Seq::empty())
    } else if cmd == "restart"@ {
        match arg1 {
            None => (7, 0, Seq::empty(), Seq::empty(), Seq::empty(), "Usage: restart <PID>"@),
            Some(a) => match spec_parse_u32(a) {
                None => (9, 0, Seq::empty(), Seq::empty(), Seq::empty(), Seq::empty()),
                Some(n) => (3, n, Seq::empty(), Seq::empty(), Seq::empty(), Seq::empty()),
            },
        }
    } else if cmd == "start"@ || cmd == "stop"@ {
        match arg1 {
            None => (7, 0, Seq::empty(), Seq::empty(), Seq::empty(), if cmd == "start"@ {
                "Usage: start <plugin_uuid>"@
            } else {
                "Usage: stop <plugin_uuid>"@
            }),
            Some(a) => match uuid_parse(a) {
                None => (8, 0, Seq::empty(), Seq::empty(), Seq::empty(), Seq::empty()),
                Some(b) => (if cmd == "start"@ { 4 } else { 5 }, 0, b, Seq::empty(), Seq::empty(), Seq::empty()),
            },
        }
    } else if cmd == "call"@ {
        match (arg1, arg2) {
            (Some(a), Some(rest)) => match uuid_parse(a) {
                None => (8, 0, Seq::empty(), Seq::empty(), Seq::empty(), Seq::empty()),
                Some(b) => {
                    let (f, raw) = split_once_space(rest);
                    if f.len() == 0 {
                        (7, 0, Seq::empty(), Seq::empty(), Seq::empty(), call_usage())
                    } else {
                        (6, 0, b, f, call_args(match raw {
                            Some(x) => x,
                            None => Seq::empty(),
                        }), Seq::empty())
                    }
                },
            },
            _ => (7, 0, Seq::empty(), Seq::empty(), Seq::empty(), call_usage()),
        }
    } else {
        (10, 0, Seq::empty(), Seq::empty(), Seq::empty(), Seq::empty())
    }
}

/// A command's plain values.
pub open spec fn command_fields(c: CliCommand) -> CommandFields {
    match c {
        CliCommand::Nothing => (0, 0, Seq::empty(), Seq::empty(), Seq::empty(), Seq::empty()),
        CliCommand::Refresh => (1, 0, Seq::empty(), Seq::empty(), Seq::empty(), Seq::empty()),
        CliCommand::Quit => (2, 0, Seq::empty(), Seq::empty(), Seq::empty(), Seq::empty()),
        CliCommand::Restart(n) => (3, n as nat, Seq::empty(), Seq::empty(), Seq::empty(), Seq::empty()),
        CliCommand::Start(b) => (4, 0, b@, Seq::empty(), Seq::empty(), Seq::empty()),
        CliCommand::Stop(b) => (5, 0, b@, Seq::empty(), Seq::empty(), Seq::empty()),
        CliCommand::Call { plugin_uuid, fn_name, args } => (6, 0, plugin_uuid@, fn_name@, views(args@), Seq::empty()),
        CliCommand::Usage(u) => (7, 0, Seq::empty(), Seq::empty(), Seq::empty(), u@),
        CliCommand::InvalidUuid => (8, 0, Seq::empty(), Seq::empty(), Seq::empty(), Seq::empty()),
        CliCommand::InvalidPid => (9, 0, Seq::empty(), Seq::empty(), Seq::empty(), Seq::empty()),
        CliCommand::Invalid => (10, 0, Seq::empty(), Seq::empty(), Seq::empty(), Seq::empty()),
    }
}

fn usage(s: &str) -> (r: CliCommand)
    ensures
        command_fields(r) == (7int, 0nat, Seq::<u8>::empty(), Seq::<char>::empty(), Seq::<Seq<char>>::empty(), s@),
{
    CliCommand::Usage(string_of(chars_of(s).as_slice()))
}

/// Reads a command typed by the user.
pub fn parse_command(input: &str) -> (r: CliCommand)
    ensures
        command_fields(r) == spec_parse_command(input@),
{
    let t = trim_chars(chars_of(input).as_slice());
    if t.len() == 0 {
        return CliCommand::Nothing;
    }
    let (cmd, rest1) = split_once_space_exec(t.as_slice());
    let c = cmd.as_slice();
    if eq_lit(c, "refresh") {
        return CliCommand::Refresh;
    }
    if eq_lit(c, "exit") || eq_lit(c, "quit") {
        return CliCommand::Quit;
    }
    let is_restart = eq_lit(c, "restart");
    let is_start = eq_lit(c, "start");
    let is_stop = eq_lit(c, "stop");
    let is_call = eq_lit(c, "call");
    if !is_restart && !is_start && !is_stop && !is_call {
        return CliCommand::Invalid;
    }
    let (arg1, arg2) = match rest1 {
        Some(r) => {
            let (a, b) = split_once_space_exec(r.as_slice());
            (Some(a), b)
        },
        None => (None, None),
    };
    if is_restart {
        return match arg1 {
            None => usage("Usage: restart <PID>"),
            Some(a) => match parse_u32(a.as_slice()) {
                None => CliCommand::InvalidPid,
                Some(n) => CliCommand::Restart(n),
            },
        };
    }
    if is_start || is_stop {
        return match arg1 {
            None => if is_start {
                usage("Usage: start <plugin_uuid>")
            } else {
                usage("Usage: stop <plugin_uuid>")
            },
            Some(a) => {
                let text = string_of(a.as_slice());
                match parse_uuid_16(Some(text.as_str())) {
                    None => CliCommand::InvalidUuid,
                    Some(b) => if is_start {
                        CliCommand::Start(b)
                    } else {
                        CliCommand::Stop(b)
                    },
                }
            },
        };
    }
    match (arg1, arg2) {
        (Some(a), Some(rest)) => {
            let text = string_of(a.as_slice());
            match parse_uuid_16(Some(text.as_str())) {
                None => CliCommand::InvalidUuid,
                Some(b) => {
                    let (f, raw) = split_once_space_exec(rest.as_slice());
                    if f.len() == 0 {
                        return usage("Usage: call <plugin_uuid> <fn_name> <arg1|arg2|...>");
                    }
                    let args: Vec<String> = match raw {
                        Some(x) => if x.len() == 0 {
                            let e: Vec<String> = Vec::new();
                            assert(views(e@) =~= Seq::<Seq<char>>::empty());
                            e
                        } else {
                            let sep: Vec<char> = vec!['|'];
                            assert(sep@ =~= seq!['|']);
                            let xs = string_of(x.as_slice());
                            split_trim_nonempty_exec(xs.as_str(), sep.as_slice())
                        },
                        None => {
                            let e: Vec<String> = Vec::new();
                            assert(views(e@) =~= Seq::<Seq<char>>::empty());
                            e
                        },
                    };
                    CliCommand::Call { plugin_uuid: b, fn_name: string_of(f.as_slice()), args }
                },
            }
        },
        _ => usage("Usage: call <plugin_uuid> <fn_name> <arg1|arg2|...>"),
    }
}

} // verus!
