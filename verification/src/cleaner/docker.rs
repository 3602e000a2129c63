//! The Docker cleaner module: which `docker` commands it plans, and how the plan reads.
use vstd::prelude::*;
use crate::text::{chars_of, extend_chars, find, find_from, occurs_at, find_char, find_char_exec, find_seq, join_seq, join_strings, lemma_find_char_from_some, lemma_find_from_some, string_of, sub_chars, trim_chars, trim_seq, views};
use crate::cleaner::config::Profile;
use crate::cleaner::reports::ModuleReport;

verus! {

/// One `docker` command of the cleanup plan.
pub struct DockerCleanupAction {
    pub name: String,
    pub args: Vec<String>,
    pub enabled: bool,
    pub reason: String,
}

/// The text of a plan line for an action:
/// `- <name>: docker <args joined by spaces> [<enabled|disabled>] - <reason>`.
pub open spec fn spec_action_line(
    name: Seq<char>,
    args: Seq<Seq<char>>,
    enabled: bool,
    reason: Seq<char>,
) -> Seq<char> {
    "- "@ + name + ": docker "@ + join_seq(args, seq![' ']) + " ["@ + (if enabled {
        "enabled"@
    } else {
        "disabled"@
    }) + "] - "@ + reason
}

fn words(a: &str, b: &str, c: &str) -> (r: Vec<String>)
    ensures
        views(r@) == seq![a@, b@, c@],
{
    let mut r = Vec::new();
    r.push(string_of(chars_of(a).as_slice()));
    r.push(string_of(chars_of(b).as_slice()));
    r.push(string_of(chars_of(c).as_slice()));
    assert(views(r@) =~= seq![a@, b@, c@]);
    r
}

fn lit(s: &str) -> (r: String)
    ensures
        r@ == s@,
{
    string_of(chars_of(s).as_slice())
}

impl DockerCleanupAction {
    /// The plan's actions: prune stopped containers, dangling images and the build cache
    /// always; unused volumes only in the full profile.
    pub fn cleanup_actions(profile: &Profile) -> (r: Vec<DockerCleanupAction>)
        ensures
            r@.len() == 4,
            r@[0].name@ == "Stopped containers"@,
            views(r@[0].args@) == seq!["container"@, "prune"@, "-f"@],
            r@[0].enabled,
            r@[0].reason@ == "Remove stopped containers."@,
            r@[1].name@ == "Dangling images"@,
            views(r@[1].args@) == seq!["image"@, "prune"@, "-f"@],
            r@[1].enabled,
            r@[1].reason@ == "Remove dangling Docker images."@,
            r@[2].name@ == "Build cache"@,
            views(r@[2].args@) == seq!["builder"@, "prune"@, "-f"@],
            r@[2].enabled,
            r@[2].reason@ == "Remove unused Docker build cache."@,
            r@[3].name@ == "Unused volumes"@,
            views(r@[3].args@) == seq!["volume"@, "prune"@, "-f"@],
            r@[3].enabled == (*profile is Full),
            r@[3].reason@
                == "Only enabled in full profile because volumes may contain persistent data."@,
            forall|k: int| 0 <= k < 4 ==> (#[trigger] r@[k].name@, views(r@[k].args@), r@[k].reason@) == docker_action(k),
    {
        let mut v = Vec::new();
        v.push(DockerCleanupAction {
            name: lit("Stopped containers"),
            args: words("container", "prune", "-f"),
            enabled: true,
            reason: lit("Remove stopped containers."),
        });
        v.push(DockerCleanupAction {
            name: lit("Dangling images"),
            args: words("image", "prune", "-f"),
            enabled: true,
            reason: lit("Remove dangling Docker images."),
        });
        v.push(DockerCleanupAction {
            name: lit("Build cache"),
            args: words("builder", "prune", "-f"),
            enabled: true,
            reason: lit("Remove unused Docker build cache."),
        });
        let full = match profile {
            Profile::Full => true,
            Profile::Safe => false,
        };
        v.push(DockerCleanupAction {
            name: lit("Unused volumes"),
            args: words("volume", "prune", "-f"),
            enabled: full,
            reason: lit("Only enabled in full profile because volumes may contain persistent data."),
        });
        v
    }

    /// The plan line of this action.
    pub fn plan_line(&self) -> (r: String)
        ensures
            r@ == spec_action_line(self.name@, views(self.args@), self.enabled, self.reason@),
    {
        let mut v = chars_of("- ");
        extend_chars(&mut v, chars_of(self.name.as_str()).as_slice());
        extend_chars(&mut v, chars_of(": docker ").as_slice());
        let sp: Vec<char> = vec![' '];
        assert(sp@ =~= seq![' ']);
        extend_chars(&mut v, join_strings(self.args.as_slice(), sp.as_slice()).as_slice());
        extend_chars(&mut v, chars_of(" [").as_slice());
        if self.enabled {
            extend_chars(&mut v, chars_of("enabled").as_slice());
        } else {
            extend_chars(&mut v, chars_of("disabled").as_slice());
        }
        extend_chars(&mut v, chars_of("] - ").as_slice());
        extend_chars(&mut v, chars_of(self.reason.as_str()).as_slice());
        string_of(v.as_slice())
    }

    /// The plan as text lines: a heading, then one line per action.
    pub fn format_action_plan(actions: &[DockerCleanupAction]) -> (r: Vec<String>)
        ensures
            r@.len() == actions@.len() + 1,
            r@[0]@ == "Docker action plan:"@,
            forall|i: int|
                0 <= i < actions@.len() ==> #[trigger] r@[i + 1]@ == spec_action_line(
                    actions@[i].name@,
                    views(actions@[i].args@),
                    actions@[i].enabled,
                    actions@[i].reason@,
                ),
    {
        let mut lines = Vec::new();
        lines.push(lit("Docker action plan:"));
        let mut i: usize = 0;
        while i < actions.len()
            invariant
                0 <= i <= actions@.len(),
                lines@.len() == i + 1,
                lines@[0]@ == "Docker action plan:"@,
                forall|j: int|
                    0 <= j < i ==> #[trigger] lines@[j + 1]@ == spec_action_line(
                        actions@[j].name@,
                        views(actions@[j].args@),
                        actions@[j].enabled,
                        actions@[j].reason@,
                    ),
            decreases actions@.len() - i,
        {
            lines.push(actions[i].plan_line());
            i += 1;
        }
        lines
    }
}


/// The Docker cleaner module.
pub struct DockerCleaner;

impl DockerCleaner {
    pub fn new() -> (r: DockerCleaner) {
        DockerCleaner
    }

    /// The module's id.
    pub fn id(&self) -> (r: &'static str)
        ensures
            r@ == "docker"@,
    {
        "docker"
    }

    /// The module's description.
    pub fn description(&self) -> (r: &'static str)
        ensures
            r@ == "Clean unused Docker containers, images, build cache and optionally volumes."@,
    {
        "Clean unused Docker containers, images, build cache and optionally volumes."
    }
}

/// The enabled actions, in plan order.
pub open spec fn enabled_actions(s: Seq<DockerCleanupAction>) -> Seq<DockerCleanupAction>
    decreases s.len(),
{
    if s.len() == 0 {
        Seq::empty()
    } else if s.last().enabled {
        enabled_actions(s.drop_last()).push(s.last())
    } else {
        enabled_actions(s.drop_last())
    }
}

/// The plan lines of actions, heading included.
pub open spec fn plan_lines(s: Seq<DockerCleanupAction>) -> Seq<Seq<char>> {
    seq!["Docker action plan:"@] + s.map_values(
        |a: DockerCleanupAction| spec_action_line(a.name@, views(a.args@), a.enabled, a.reason@),
    )
}

/// An action's arguments as one text.
pub open spec fn args_text(a: DockerCleanupAction) -> Seq<char> {
    join_seq(views(a.args@), seq![' '])
}

/// How a `docker` command ended.
pub enum DockerCommandOutcome {
    /// It ran, and exited successfully or not, with this output.
    Finished { success: bool, stdout: String, stderr: String },
    /// It could not be started, for this reason.
    NotStarted(String),
}

/// What the module found out about Docker before planning.
pub struct DockerProbe {
    /// `docker --version` succeeded.
    pub cli_available: bool,
    /// `docker info` succeeded.
    pub daemon_available: bool,
}

/// The commands a run executes, as argument lists: none when Docker cannot be used or in
/// a dry run, else those of the enabled actions, in plan order.
pub open spec fn spec_commands_to_run(probe: DockerProbe, dry_run: bool, actions: Seq<DockerCleanupAction>) -> Seq<Seq<Seq<char>>> {
    if !probe.cli_available || !probe.daemon_available || dry_run {
        Seq::empty()
    } else {
        enabled_actions(actions).map_values(|a: DockerCleanupAction| views(a.args@))
    }
}

fn push_lit(v: &mut Vec<char>, s: &str)
    ensures
        final(v)@ == old(v)@ + s@,
{
    extend_chars(v, chars_of(s).as_slice());
}

fn args_text_exec(a: &DockerCleanupAction) -> (r: Vec<char>)
    ensures
        r@ == args_text(*a),
{
    let sp: Vec<char> = vec![' '];
    assert(sp@ =~= seq![' ']);
    join_strings(a.args.as_slice(), sp.as_slice())
}

fn clone_args(a: &Vec<String>) -> (r: Vec<String>)
    ensures
        views(r@) == views(a@),
{
    crate::text::clone_strings(a.as_slice())
}

/// The enabled actions of a plan, in order.
pub fn enabled_of(actions: &[DockerCleanupAction]) -> (r: Vec<&DockerCleanupAction>)
    ensures
        r@.map_values(|a: &DockerCleanupAction| *a) == enabled_actions(actions@),
{
    let mut r: Vec<&DockerCleanupAction> = Vec::new();
    let mut i: usize = 0;
    while i < actions.len()
        invariant
            0 <= i <= actions@.len(),
            r@.map_values(|a: &DockerCleanupAction| *a) == enabled_actions(actions@.take(i as int)),
        decreases actions@.len() - i,
    {
        proof {
            assert(actions@.take(i + 1).drop_last() =~= actions@.take(i as int));
            assert(actions@.take(i + 1).last() == actions@[i as int]);
        }
        if actions[i].enabled {
            r.push(&actions[i]);
        }
        proof {
            assert(r@.map_values(|a: &DockerCleanupAction| *a) =~= enabled_actions(actions@.take(i + 1)));
        }
        i += 1;
    }
    assert(actions@.take(actions@.len() as int) =~= actions@);
    r
}

impl DockerCleaner {
    /// The `docker` commands to execute for a run, as argument lists.
    pub fn commands_to_run(&self, probe: &DockerProbe, dry_run: bool, actions: &[DockerCleanupAction]) -> (r: Vec<Vec<String>>)
        ensures
            r@.map_values(|c: Vec<String>| views(c@)) == spec_commands_to_run(*probe, dry_run, actions@),
    {
        let mut r: Vec<Vec<String>> = Vec::new();
        if !probe.cli_available || !probe.daemon_available || dry_run {
            assert(r@.map_values(|c: Vec<String>| views(c@)) =~= spec_commands_to_run(*probe, dry_run, actions@));
            return r;
        }
        let en = enabled_of(actions);
        let ghost es = enabled_actions(actions@);
        let mut i: usize = 0;
        while i < en.len()
            invariant
                0 <= i <= en@.len(),
                r@.len() == i,
                en@.map_values(|a: &DockerCleanupAction| *a) == es,
                r@.map_values(|c: Vec<String>| views(c@)) == es.take(i as int).map_values(
                    |a: DockerCleanupAction| views(a.args@),
                ),
            decreases en@.len() - i,
        {
            let ghost prev = r@;
            let c = clone_args(&en[i].args);
            r.push(c);
            proof {
                assert(r@.map_values(|c: Vec<String>| views(c@)) =~= prev.map_values(|c: Vec<String>| views(c@)).push(views(c@)));
                assert(es.take(i + 1).map_values(|a: DockerCleanupAction| views(a.args@)) =~= es.take(i as int).map_values(|a: DockerCleanupAction| views(a.args@)).push(views(es[i as int].args@)));
                assert(es[i as int] == *en@[i as int]);
                assert(views(r@[i as int]@) == views(es[i as int].args@));
                assert(r@.map_values(|c: Vec<String>| views(c@)) =~= es.take(i + 1).map_values(
                    |a: DockerCleanupAction| views(a.args@),
                ));
            }
            i += 1;
        }
        assert(es.take(en@.len() as int) =~= es);
        r
    }
}


/// The warnings that a command adds to the report: for a success, a success line, then
/// its trimmed output and error output when they are not blank.
pub open spec fn step_warnings(a: DockerCleanupAction, o: DockerCommandOutcome) -> Seq<Seq<char>> {
    match o {
        DockerCommandOutcome::Finished { success, stdout, stderr } => if success {
            seq!["- "@ + a.name@ + ": docker "@ + args_text(a) + " -> success"@] + (if trim_seq(stdout@).len() > 0 {
                seq!["docker "@ + args_text(a) + " output: "@ + trim_seq(stdout@)]
            } else {
                Seq::empty()
            }) + (if trim_seq(stderr@).len() > 0 {
                seq!["docker "@ + args_text(a) + " stderr: "@ + trim_seq(stderr@)]
            } else {
                Seq::empty()
            })
        } else {
            Seq::empty()
        },
        DockerCommandOutcome::NotStarted(_) => Seq::empty(),
    }
}

/// The errors that a command adds to the report: a line for a failure, with its trimmed
/// outputs, or for a command that could not be started, with the reason.
pub open spec fn step_errors(a: DockerCleanupAction, o: DockerCommandOutcome) -> Seq<Seq<char>> {
    match o {
        DockerCommandOutcome::Finished { success, stdout, stderr } => if success {
            Seq::empty()
        } else {
            seq![
                "- "@ + a.name@ + ": docker "@ + args_text(a) + " -> failed. stdout: "@ + trim_seq(stdout@)
                    + " stderr: "@ + trim_seq(stderr@),
            ]
        },
        DockerCommandOutcome::NotStarted(e) => seq![
            "- "@ + a.name@ + ": failed to run docker "@ + args_text(a) + ": "@ + e@,
        ],
    }
}

/// Whether a command succeeded.
pub open spec fn step_succeeded(o: DockerCommandOutcome) -> bool {
    o matches DockerCommandOutcome::Finished { success, .. } && success
}

/// The warnings of the executed commands, in order.
pub open spec fn run_warnings(acts: Seq<DockerCleanupAction>, outs: Seq<DockerCommandOutcome>) -> Seq<Seq<char>>
    decreases acts.len(),
{
    if acts.len() == 0 {
        Seq::empty()
    } else {
        run_warnings(acts.drop_last(), outs) + step_warnings(acts.last(), outs[acts.len() - 1])
    }
}

/// The errors of the executed commands, in order.
pub open spec fn run_errors(acts: Seq<DockerCleanupAction>, outs: Seq<DockerCommandOutcome>) -> Seq<Seq<char>>
    decreases acts.len(),
{
    if acts.len() == 0 {
        Seq::empty()
    } else {
        run_errors(acts.drop_last(), outs) + step_errors(acts.last(), outs[acts.len() - 1])
    }
}

/// How many of the first `n` commands succeeded.
pub open spec fn successes(outs: Seq<DockerCommandOutcome>, n: int) -> nat
    decreases n,
{
    if n <= 0 {
        0
    } else {
        successes(outs, n - 1) + if step_succeeded(outs[n - 1]) { 1nat } else { 0nat }
    }
}

/// The warnings of a dry run after the plan: a notice, a heading, and the command line of
/// each enabled action.
pub open spec fn dry_run_tail(en: Seq<DockerCleanupAction>) -> Seq<Seq<char>> {
    seq![
        "Dry-run mode: Docker cleanup was not executed. Size is estimated from docker system df."@,
        "Docker commands that would be executed:"@,
    ] + en.map_values(|a: DockerCleanupAction| "- docker "@ + args_text(a))
}

fn step_warnings_exec(a: &DockerCleanupAction, o: &DockerCommandOutcome, out: &mut Vec<String>)
    ensures
        views(final(out)@) == views(old(out)@) + step_warnings(*a, *o),
{
    let ghost start = views(out@);
    match o {
        DockerCommandOutcome::Finished { success, stdout, stderr } => {
            if *success {
                let args = args_text_exec(a);
                let mut l = chars_of("- ");
                extend_chars(&mut l, chars_of(a.name.as_str()).as_slice());
                push_lit(&mut l, ": docker ");
                extend_chars(&mut l, args.as_slice());
                push_lit(&mut l, " -> success");
                out.push(string_of(l.as_slice()));
                let t_out = trim_chars(chars_of(stdout.as_str()).as_slice());
                let t_err = trim_chars(chars_of(stderr.as_str()).as_slice());
                let ghost mid = views(out@);
                if t_out.len() > 0 {
                    let mut m = chars_of("docker ");
                    extend_chars(&mut m, args.as_slice());
                    push_lit(&mut m, " output: ");
                    extend_chars(&mut m, t_out.as_slice());
                    out.push(string_of(m.as_slice()));
                }
                let ghost mid2 = views(out@);
                if t_err.len() > 0 {
                    let mut m = chars_of("docker ");
                    extend_chars(&mut m, args.as_slice());
                    push_lit(&mut m, " stderr: ");
                    extend_chars(&mut m, t_err.as_slice());
                    out.push(string_of(m.as_slice()));
                }
                assert(views(out@) =~= start + step_warnings(*a, *o));
            } else {
                assert(views(out@) =~= start + step_warnings(*a, *o));
            }
        },
        DockerCommandOutcome::NotStarted(_) => {
            assert(views(out@) =~= start + step_warnings(*a, *o));
        },
    }
}

fn step_errors_exec(a: &DockerCleanupAction, o: &DockerCommandOutcome, out: &mut Vec<String>)
    ensures
        views(final(out)@) == views(old(out)@) + step_errors(*a, *o),
{
    let ghost start = views(out@);
    match o {
        DockerCommandOutcome::Finished { success, stdout, stderr } => {
            if !*success {
                let args = args_text_exec(a);
                let mut l = chars_of("- ");
                extend_chars(&mut l, chars_of(a.name.as_str()).as_slice());
                push_lit(&mut l, ": docker ");
                extend_chars(&mut l, args.as_slice());
                push_lit(&mut l, " -> failed. stdout: ");
                extend_chars(&mut l, trim_chars(chars_of(stdout.as_str()).as_slice()).as_slice());
                push_lit(&mut l, " stderr: ");
                extend_chars(&mut l, trim_chars(chars_of(stderr.as_str()).as_slice()).as_slice());
                out.push(string_of(l.as_slice()));
            }
            assert(views(out@) =~= start + step_errors(*a, *o));
        },
        DockerCommandOutcome::NotStarted(e) => {
            let args = args_text_exec(a);
            let mut l = chars_of("- ");
            extend_chars(&mut l, chars_of(a.name.as_str()).as_slice());
            push_lit(&mut l, ": failed to run docker ");
            extend_chars(&mut l, args.as_slice());
            push_lit(&mut l, ": ");
            extend_chars(&mut l, chars_of(e.as_str()).as_slice());
            out.push(string_of(l.as_slice()));
            assert(views(out@) =~= start + step_errors(*a, *o));
        },
    }
}


impl DockerCleaner {
    /// The module's report. Without the Docker CLI, or without a reachable daemon, the
    /// report holds one warning (the latter also counts a permission refusal). Otherwise
    /// its warnings begin with the plan; a dry run then lists the commands it would run and
    /// counts them as skipped, while a real run adds what each executed command (whose
    /// outcomes are given in plan order) reported, counts the successes as touched and
    /// deleted, and puts the failures among the errors. Both give the estimated reclaimable
    /// size as the bytes freed.
    pub fn run(
        &self,
        probe: &DockerProbe,
        dry_run: bool,
        actions: &[DockerCleanupAction],
        estimated_reclaimable: u64,
        outcomes: &[DockerCommandOutcome],
    ) -> (r: ModuleReport)
        requires
            probe.cli_available && probe.daemon_available && !dry_run ==> outcomes@.len()
                == enabled_actions(actions@).len(),
        ensures
            r.module_id@ == "docker"@,
            r.per_root_path@.len() == 0,
            r.per_file_type@.len() == 0,
            r.candidate_files_count == 0,
            r.missing_paths_count == 0,
            r.existing_paths_count == 0,
            r.duration_ms == 0,
            !probe.cli_available ==> {
                &&& views(r.warnings@) == seq!["Docker CLI is not installed."@]
                &&& r.warning_count == 1
                &&& r.errors@.len() == 0
                &&& r.permission_denied == 0
                &&& r.files_touched == 0 && r.bytes_freed == 0
                &&& r.deleted_files_count == 0 && r.skipped_files_count == 0
            },
            probe.cli_available && !probe.daemon_available ==> {
                &&& views(r.warnings@) == seq!["Docker daemon is not available or permission is denied."@]
                &&& r.warning_count == 1
                &&& r.errors@.len() == 0
                &&& r.permission_denied == 1
                &&& r.files_touched == 0 && r.bytes_freed == 0
                &&& r.deleted_files_count == 0 && r.skipped_files_count == 0
            },
            probe.cli_available && probe.daemon_available && dry_run ==> {
                &&& views(r.warnings@) == plan_lines(actions@) + dry_run_tail(enabled_actions(actions@))
                &&& r.warning_count == r.warnings@.len()
                &&& r.errors@.len() == 0
                &&& r.permission_denied == 0
                &&& r.files_touched == 0
                &&& r.bytes_freed == estimated_reclaimable
                &&& r.skipped_files_count == enabled_actions(actions@).len()
                &&& r.deleted_files_count == 0
            },
            probe.cli_available && probe.daemon_available && !dry_run ==> {
                &&& views(r.warnings@) == plan_lines(actions@) + seq!["Executed Docker cleanup actions:"@]
                    + run_warnings(enabled_actions(actions@), outcomes@)
                &&& views(r.errors@) == run_errors(enabled_actions(actions@), outcomes@)
                &&& r.warning_count == r.warnings@.len()
                &&& r.permission_denied == 0
                &&& r.files_touched == successes(outcomes@, outcomes@.len() as int)
                &&& r.deleted_files_count == r.files_touched
                &&& r.bytes_freed == estimated_reclaimable
                &&& r.skipped_files_count == 0
            },
    {
        let mut report = ModuleReport::empty(self.id());
        if !probe.cli_available {
            report.warnings.push(lit("Docker CLI is not installed."));
            report.warning_count = 1;
            assert(views(report.warnings@) =~= seq!["Docker CLI is not installed."@]);
            return report;
        }
        if !probe.daemon_available {
            report.warnings.push(lit("Docker daemon is not available or permission is denied."));
            report.warning_count = 1;
            report.permission_denied = 1;
            assert(views(report.warnings@) =~= seq!["Docker daemon is not available or permission is denied."@]);
            return report;
        }
        let plan = DockerCleanupAction::format_action_plan(actions);
        let mut i: usize = 0;
        while i < plan.len()
            invariant
                0 <= i <= plan@.len(),
                plan@.len() == actions@.len() + 1,
                views(report.warnings@) == views(plan@).take(i as int),
                report.module_id@ == "docker"@,
                report.per_root_path@.len() == 0,
                report.per_file_type@.len() == 0,
                report.errors@.len() == 0,
                report.files_touched == 0 && report.bytes_freed == 0,
                report.permission_denied == 0,
                report.candidate_files_count == 0,
                report.deleted_files_count == 0 && report.skipped_files_count == 0,
                report.missing_paths_count == 0 && report.existing_paths_count == 0,
                report.duration_ms == 0,
            decreases plan@.len() - i,
        {
            let ghost prev = views(report.warnings@);
            let line = plan[i].clone();
            report.warnings.push(line);
            assert(line@ == plan@[i as int]@);
            assert(views(report.warnings@) =~= prev.push(line@));
            assert(views(report.warnings@) =~= views(plan@).take(i + 1));
            i += 1;
        }
        proof {
            assert(views(plan@) =~= plan_lines(actions@)) by {
                assert forall|j: int| 0 <= j < plan@.len() implies #[trigger] views(plan@)[j] == plan_lines(actions@)[j] by {
                    if j > 0 {
                        assert(plan@[(j - 1) + 1]@ == spec_action_line(
                            actions@[j - 1].name@,
                            views(actions@[j - 1].args@),
                            actions@[j - 1].enabled,
                            actions@[j - 1].reason@,
                        ));
                    }
                }
            }
            assert(views(plan@).take(plan@.len() as int) =~= views(plan@));
        }
        let en = enabled_of(actions);
        let ghost es = enabled_actions(actions@);
        report.bytes_freed = estimated_reclaimable;
        if dry_run {
            report.skipped_files_count = en.len() as u64;
            report.warnings.push(lit("Dry-run mode: Docker cleanup was not executed. Size is estimated from docker system df."));
            report.warnings.push(lit("Docker commands that would be executed:"));
            let ghost head = views(report.warnings@);
            let mut k: usize = 0;
            while k < en.len()
                invariant
                    0 <= k <= en@.len(),
                    en@.map_values(|a: &DockerCleanupAction| *a) == es,
                    views(report.warnings@) == head + es.take(k as int).map_values(
                        |a: DockerCleanupAction| "- docker "@ + args_text(a),
                    ),
                    report.module_id@ == "docker"@,
                    report.per_root_path@.len() == 0,
                    report.per_file_type@.len() == 0,
                    report.errors@.len() == 0,
                    report.files_touched == 0 && report.bytes_freed == estimated_reclaimable,
                    report.permission_denied == 0,
                    report.candidate_files_count == 0,
                    report.deleted_files_count == 0 && report.skipped_files_count == es.len(),
                    report.missing_paths_count == 0 && report.existing_paths_count == 0,
                    report.duration_ms == 0,
                decreases en@.len() - k,
            {
                let mut l = chars_of("- docker ");
                extend_chars(&mut l, args_text_exec(en[k]).as_slice());
                let ghost prev = views(report.warnings@);
                report.warnings.push(string_of(l.as_slice()));
                proof {
                    assert(es[k as int] == *en@[k as int]);
                    assert(views(report.warnings@) =~= prev.push("- docker "@ + args_text(es[k as int])));
                    assert(es.take(k + 1).map_values(|a: DockerCleanupAction| "- docker "@ + args_text(a))
                        =~= es.take(k as int).map_values(|a: DockerCleanupAction| "- docker "@ + args_text(a)).push(
                        "- docker "@ + args_text(es[k as int]),
                    ));
                }
                k += 1;
            }
            proof {
                assert(es.take(en@.len() as int) =~= es);
                assert(views(report.warnings@) =~= plan_lines(actions@) + dry_run_tail(es));
            }
            report.warning_count = report.warnings.len() as u64;
            return report;
        }
        report.warnings.push(lit("Executed Docker cleanup actions:"));
        let ghost head = views(report.warnings@);
        proof {
            assert(head =~= plan_lines(actions@) + seq!["Executed Docker cleanup actions:"@]);
        }
        let mut touched: u64 = 0;
        let mut k: usize = 0;
        while k < en.len()
            invariant
                0 <= k <= en@.len(),
                en@.len() == outcomes@.len(),
                en@.map_values(|a: &DockerCleanupAction| *a) == es,
                views(report.warnings@) == head + run_warnings(es.take(k as int), outcomes@),
                views(report.errors@) == run_errors(es.take(k as int), outcomes@),
                touched == successes(outcomes@, k as int),
                touched <= k,
                report.module_id@ == "docker"@,
                report.per_root_path@.len() == 0,
                report.per_file_type@.len() == 0,
                report.files_touched == 0 && report.bytes_freed == estimated_reclaimable,
                report.permission_denied == 0,
                report.candidate_files_count == 0,
                report.deleted_files_count == 0 && report.skipped_files_count == 0,
                report.missing_paths_count == 0 && report.existing_paths_count == 0,
                report.duration_ms == 0,
            decreases en@.len() - k,
        {
            proof {
                assert(es.take(k + 1).drop_last() =~= es.take(k as int));
                assert(es[k as int] == *en@[k as int]);
                assert(es.take(k + 1).last() == es[k as int]);
            }
            step_warnings_exec(en[k], &outcomes[k], &mut report.warnings);
            step_errors_exec(en[k], &outcomes[k], &mut report.errors);
            match &outcomes[k] {
                DockerCommandOutcome::Finished { success, .. } => {
                    if *success {
                        touched = touched + 1;
                    }
                },
                DockerCommandOutcome::NotStarted(_) => {},
            }
            k += 1;
        }
        proof {
            assert(es.take(en@.len() as int) =~= es);
        }
        report.files_touched = touched;
        report.deleted_files_count = touched;
        report.warning_count = report.warnings.len() as u64;
        report
    }
}


/// Every `from` replaced by `to`.
pub open spec fn replace_char(s: Seq<char>, from: char, to: char) -> Seq<char> {
    s.map_values(|c: char| if c == from { to } else { c })
}

/// The size text of the `Reclaimable` field of a line of `docker system df` in JSON: the
/// quoted value after `"Reclaimable":"`, cut before any `(`, trimmed, with `,` read as
/// the decimal point. `None` when the field or its closing quote is missing.
pub open spec fn spec_reclaimable_text(line: Seq<char>) -> Option<Seq<char>> {
    let marker = "\"Reclaimable\":\""@;
    match find_seq(line, marker) {
        None => None,
        Some(i) => {
            let rest = line.skip(i + marker.len());
            match find_char(rest, '"') {
                None => None,
                Some(e) => {
                    let value = rest.take(e);
                    let head = match find_char(value, '(') {
                        Some(p) => value.take(p),
                        None => value,
                    };
                    Some(replace_char(trim_seq(head), ',', '.'))
                },
            }
        },
    }
}

/// The size text of the `Reclaimable` field of a `docker system df` line.
pub fn reclaimable_text(line: &str) -> (r: Option<String>)
    ensures
        match r {
            Some(t) => spec_reclaimable_text(line@) == Some(t@),
            None => spec_reclaimable_text(line@) is None,
        },
{
    let l = chars_of(line);
    let marker = chars_of("\"Reclaimable\":\"");
    let i = match find(l.as_slice(), marker.as_slice()) {
        None => return None,
        Some(i) => i,
    };
    proof {
        lemma_find_from_some(l@, marker@, 0);
        assert(find_from(l@, marker@, 0) == Some(i as int));
        assert(occurs_at(l@, marker@, i as int));
    }
    let m = marker.len();
    let n = l.len();
    assert(i + m <= n);
    let rest = sub_chars(l.as_slice(), i + m, n);
    assert(rest@ =~= line@.skip(i + marker@.len()));
    let e = match find_char_exec(rest.as_slice(), '"') {
        None => return None,
        Some(e) => e,
    };
    proof {
        lemma_find_char_from_some(rest@, '"', 0);
    }
    let value = sub_chars(rest.as_slice(), 0, e);
    assert(value@ =~= rest@.take(e as int));
    let head = match find_char_exec(value.as_slice(), '(') {
        Some(p) => {
            proof {
                lemma_find_char_from_some(value@, '(', 0);
            }
            let h = sub_chars(value.as_slice(), 0, p);
            assert(h@ =~= value@.take(p as int));
            h
        },
        None => value,
    };
    let t = trim_chars(head.as_slice());
    let mut out: Vec<char> = Vec::new();
    let mut k: usize = 0;
    while k < t.len()
        invariant
            0 <= k <= t@.len(),
            out@ == replace_char(t@.take(k as int), ',', '.'),
        decreases t@.len() - k,
    {
        if t[k] == ',' {
            out.push('.');
        } else {
            out.push(t[k]);
        }
        assert(out@ =~= replace_char(t@.take(k + 1), ',', '.'));
        k += 1;
    }
    assert(t@.take(t@.len() as int) =~= t@);
    Some(string_of(out.as_slice()))
}

} // verus!

verus! {

/// The fixed parts of the Docker module's actions, in plan order: name, arguments of
/// `docker`, and reason.
pub open spec fn docker_action(k: int) -> (Seq<char>, Seq<Seq<char>>, Seq<char>) {
    if k == 0 {
        ("Stopped containers"@, seq!["container"@, "prune"@, "-f"@], "Remove stopped containers."@)
    } else if k == 1 {
        ("Dangling images"@, seq!["image"@, "prune"@, "-f"@], "Remove dangling Docker images."@)
    } else if k == 2 {
        ("Build cache"@, seq!["builder"@, "prune"@, "-f"@], "Remove unused Docker build cache."@)
    } else {
        (
            "Unused volumes"@,
            seq!["volume"@, "prune"@, "-f"@],
            "Only enabled in full profile because volumes may contain persistent data."@,
        )
    }
}

} // verus!
