//! Commands and background processes: what a call asks for, and the replies.
use crate::bash::{error_reply, error_value};
use crate::bytes::{lossy, lossy_string};
use crate::child_env::{reserved_message, validate_override};
use crate::codec::{
    dict, kw_i64, kw_str, map_value, named, named_int, named_models, named_text, Kwargs,
};
use crate::fs::{error_datum, error_model, flag, kw_flag, kw_text, text_or_empty};
use crate::laws::commands::{command_replies_tell, ended_replies_tell};
use crate::laws::fields::{fields1, says};
use crate::numbers::{after, drawn, drawn_numbers_differ, following};
use crate::text::{
    begins, join, join3, opt_str_view, opt_view, signed_decimal, to_signed_decimal,
};
use crate::tunnel::frame::{pairs, Pairs};
use crate::value::{array_view, dict_view, models, pair_models, Datum, Model};
use std::collections::HashMap;
use vstd::prelude::*;
use vstd::std_specs::iter::IteratorSpec;

verus! {

// ───────────────────────── numbers ─────────────────────────

/// A number of seconds: an integer, or a floating-point number by its bit
/// pattern.
#[derive(Debug, Clone, Copy, PartialEq, Eq, Structural)]
pub enum Number {
    Float32(u32),
    Float64(u64),
    Unsigned(u64),
    Signed(i64),
}

/// What a [`Number`] stands for, where both integer forms mean their number.
pub open spec fn number_model(n: Number) -> Model {
    match n {
        Number::Float32(b) => Model::Float32(b),
        Number::Float64(b) => Model::Float64(b),
        Number::Unsigned(n) => Model::Integer(n as int),
        Number::Signed(n) => Model::Integer(n as int),
    }
}

/// Whether a value is a number.
pub open spec fn is_number(m: Model) -> bool {
    m is Float32 || m is Float64 || m is Integer
}

/// Reads a number argument.
pub fn kw_number(kw: &Kwargs, key: &str) -> (r: Option<Number>)
    ensures
        match r {
            Some(n) => named(kw@, key@) == Some(number_model(n)),
            None => named(kw@, key@) is None || !is_number(named(kw@, key@)->0),
        },
{
    match kw.get(key) {
        Some(Datum::Float32(b)) => Some(Number::Float32(*b)),
        Some(Datum::Float64(b)) => Some(Number::Float64(*b)),
        Some(Datum::Unsigned(n)) => Some(Number::Unsigned(*n)),
        Some(Datum::Signed(n)) => Some(Number::Signed(*n)),
        _ => None,
    }
}

/// Whether a number is finite and not negative. The bits of a floating-point
/// number are its sign, its exponent, all of whose bits are set where it is
/// not finite, and its fraction; a zero with a sign is not negative.
pub open spec fn usable_seconds(m: Model) -> bool {
    match m {
        Model::Float32(b) => (b / 0x80_0000) % 256 != 255 && (b < 0x8000_0000 || b == 0x8000_0000),
        Model::Float64(b) => (b / 0x10_0000_0000_0000) % 2048 != 2047 && (b
            < 0x8000_0000_0000_0000 || b == 0x8000_0000_0000_0000),
        Model::Integer(n) => n >= 0,
        _ => false,
    }
}

/// The time limit of a command: a finite number of seconds, not negative.
pub fn command_timeout(kw: &Kwargs) -> (r: Option<Number>)
    ensures
        match r {
            Some(n) => named(kw@, "timeout"@) == Some(number_model(n)) && usable_seconds(
                number_model(n),
            ),
            None => named(kw@, "timeout"@) is None || !usable_seconds(named(kw@, "timeout"@)->0),
        },
{
    match kw_number(kw, "timeout") {
        None => None,
        Some(n) => {
            let usable = match n {
                Number::Float32(b) => (b / 0x80_0000) % 256 != 255 && b <= 0x8000_0000,
                Number::Float64(b) => (b / 0x10_0000_0000_0000) % 2048 != 2047 && b
                    <= 0x8000_0000_0000_0000,
                Number::Unsigned(_) => true,
                Number::Signed(i) => i >= 0,
            };
            if usable {
                Some(n)
            } else {
                None
            }
        },
    }
}

// ───────────────────────── variables of a command ─────────────────────────

/// The string entries of a dictionary whose values are strings, in order.
pub open spec fn string_pairs(items: Seq<(Model, Model)>) -> Pairs
    decreases items.len(),
{
    if items.len() == 0 {
        Seq::empty()
    } else {
        let before = string_pairs(items.drop_last());
        match items.last() {
            (Model::Text(k), Model::Text(v)) => before.push((k, v)),
            _ => before,
        }
    }
}

/// The variables that a value asks for.
pub open spec fn variables_of(m: Option<Model>) -> Pairs {
    match m {
        Some(Model::Dict(items)) => string_pairs(items),
        _ => Seq::empty(),
    }
}

/// Reads the variables that a value asks for.
pub fn env_pairs(value: Option<&Datum>) -> (r: Vec<(String, String)>)
    ensures
        pairs(r@) == variables_of(
            match value {
                Some(v) => Some(v@),
                None => None,
            },
        ),
{
    let mut out: Vec<(String, String)> = Vec::new();
    assert(pairs(out@) =~= Seq::empty());
    if let Some(d) = value {
        if let Datum::Dict(items) = d {
            proof {
                dict_view(*d);
            }
            let ghost all = pair_models(items@);
            assert(all.take(0) =~= Seq::empty());
            for i in 0..items.len()
                invariant
                    all == pair_models(items@),
                    pairs(out@) == string_pairs(all.take(i as int)),
            {
                proof {
                    assert(all.take(i as int + 1).drop_last() =~= all.take(i as int));
                    assert(all.take(i as int + 1).last() == (
                        items@[i as int].0@,
                        items@[i as int].1@,
                    ));
                }
                if let (Datum::Text(k), Datum::Text(v)) = (&items[i].0, &items[i].1) {
                    let ghost before = out@;
                    out.push((k.clone(), v.clone()));
                    assert(pairs(out@) =~= pairs(before).push((k@, v@)));
                }
            }
            assert(all.take(all.len() as int) =~= all);
        }
    }
    out
}

/// The first reserved name among variables, from the `from`-th on.
pub open spec fn first_reserved(items: Pairs, from: int) -> Option<Seq<char>>
    decreases items.len() - from,
{
    if from < 0 || from >= items.len() {
        None
    } else if begins(items[from].0, "YR_"@) {
        Some(items[from].0)
    } else {
        first_reserved(items, from + 1)
    }
}

fn check_overrides(items: &Vec<(String, String)>) -> (r: Result<(), String>)
    ensures
        match first_reserved(pairs(items@), 0) {
            None => r is Ok,
            Some(key) => r matches Err(e) && e@ == reserved_message(key),
        },
{
    let ghost all = pairs(items@);
    for i in 0..items.len()
        invariant
            all == pairs(items@),
            first_reserved(all, 0) == first_reserved(all, i as int),
    {
        assert(all[i as int] == (items@[i as int].0@, items@[i as int].1@));
        if let Err(e) = validate_override(items[i].0.as_str()) {
            return Err(e);
        }
    }
    Ok(())
}

// ───────────────────────── commands ─────────────────────────

/// The reply to a command.
pub open spec fn command_reply(stdout: Seq<char>, stderr: Seq<char>, code: int) -> Model {
    dict(
        seq![
            ("stdout"@, Model::Text(stdout)),
            ("stderr"@, Model::Text(stderr)),
            ("exit_code"@, Model::Integer(code)),
        ],
    )
}

/// Makes the reply to a command.
pub fn command_result(stdout: String, stderr: String, exit_code: i64) -> (r: Datum)
    ensures
        r@ == command_reply(stdout@, stderr@, exit_code as int),
{
    let mut out: Vec<(&str, Datum)> = Vec::new();
    out.push(("stdout", Datum::Text(stdout)));
    out.push(("stderr", Datum::Text(stderr)));
    out.push(("exit_code", Datum::integer(exit_code)));
    assert(named_models(out@) =~= seq![
        ("stdout"@, Model::Text(stdout@)),
        ("stderr"@, Model::Text(stderr@)),
        ("exit_code"@, Model::Integer(exit_code as int)),
    ]);
    map_value(out)
}

/// A command to be run by the shell.
#[derive(Debug, PartialEq, Eq)]
pub struct CommandSpec {
    pub cmd: String,
    pub cwd: Option<String>,
    pub envs: Vec<(String, String)>,
    pub timeout: Option<Number>,
}

/// The first of two arguments that is a string.
pub open spec fn either_text(
    kw: Map<Seq<char>, Model>,
    first: Seq<char>,
    second: Seq<char>,
) -> Option<Seq<char>> {
    match named_text(kw, first) {
        Some(s) => Some(s),
        None => named_text(kw, second),
    }
}

/// A directory to run in, where one is named.
pub open spec fn directory(s: Option<Seq<char>>) -> Option<Seq<char>> {
    if s is Some && s->0.len() > 0 {
        s
    } else {
        None
    }
}

/// The variables that a call of a command asks for.
pub open spec fn command_variables(kw: Map<Seq<char>, Model>) -> Pairs {
    variables_of(
        match named(kw, "envs"@) {
            Some(m) => Some(m),
            None => named(kw, "env"@),
        },
    )
}

/// Plans a command, or replies where it asks for a reserved variable.
pub fn plan_command(kw: &Kwargs) -> (r: Result<CommandSpec, Datum>)
    ensures
        match first_reserved(command_variables(kw@), 0) {
            Some(key) => r matches Err(reply) && reply@ == command_reply(
                Seq::empty(),
                reserved_message(key),
                -1,
            ),
            None => r matches Ok(spec) && spec.cmd@ == (match either_text(
                kw@,
                "cmd"@,
                "command"@,
            ) {
                Some(s) => s,
                None => Seq::empty(),
            }) && opt_view(spec.cwd) == directory(either_text(kw@, "cwd"@, "working_dir"@))
                && pairs(spec.envs@) == command_variables(kw@) && (match spec.timeout {
                Some(n) => named(kw@, "timeout"@) == Some(number_model(n)) && usable_seconds(
                    number_model(n),
                ),
                None => named(kw@, "timeout"@) is None || !usable_seconds(
                    named(kw@, "timeout"@)->0,
                ),
            }),
        },
{
    let cmd = match kw_str(kw, "cmd") {
        Some(s) => s,
        None => kw_text(kw, "command"),
    };
    let cwd = match kw_str(kw, "cwd") {
        Some(s) => Some(s),
        None => kw_str(kw, "working_dir"),
    };
    let cwd = named_directory(cwd);
    let envs = match kw.get("envs") {
        Some(v) => env_pairs(Some(v)),
        None => env_pairs(kw.get("env")),
    };
    if let Err(e) = check_overrides(&envs) {
        return Err(command_result(String::new(), e, -1));
    }
    Ok(CommandSpec { cmd, cwd, envs, timeout: command_timeout(kw) })
}

fn named_directory(s: Option<String>) -> (r: Option<String>)
    ensures
        opt_view(r) == directory(opt_view(s)),
{
    match s {
        Some(d) => {
            if d.as_str().is_empty() {
                None
            } else {
                Some(d)
            }
        },
        None => None,
    }
}

/// What a look at a child process found.
#[derive(Debug, PartialEq, Eq)]
pub enum ChildPoll {
    /// It exited; one that a signal ended has no code.
    Exited { code: Option<i32> },
    Running,
    Failed { error: String },
}

/// What to do about a running command.
#[derive(Debug, Clone, Copy, PartialEq, Eq, Structural)]
pub enum CommandStep {
    Finish,
    /// End it and all its children.
    Kill,
    /// Look again a moment later.
    Wait,
}

/// Decides what to do about a command: one that runs past its time limit is
/// ended.
pub fn command_step(poll: &ChildPoll, expired: bool) -> (r: CommandStep)
    ensures
        r == (if !(poll is Running) {
            CommandStep::Finish
        } else if expired {
            CommandStep::Kill
        } else {
            CommandStep::Wait
        }),
{
    match poll {
        ChildPoll::Running => {
            if expired {
                CommandStep::Kill
            } else {
                CommandStep::Wait
            }
        },
        _ => CommandStep::Finish,
    }
}

/// How long a command that was killed is waited for, in seconds.
pub const REAP_GRACE_SECONDS: u64 = 1;

/// What to do about a command that was killed.
#[derive(Debug, Clone, Copy, PartialEq, Eq, Structural)]
pub enum ReapStep {
    Finish,
    /// Leave the wait for its end to another thread, and reply without it.
    HandOver,
    /// Look again a moment later.
    Wait,
}

/// Decides what to do about a command that was killed: the reply does not wait
/// for one that outlasts its grace.
pub fn reap_step(poll: &ChildPoll, expired: bool) -> (r: ReapStep)
    ensures
        r == (if !(poll is Running) {
            ReapStep::Finish
        } else if expired {
            ReapStep::HandOver
        } else {
            ReapStep::Wait
        }),
{
    match poll {
        ChildPoll::Running => {
            if expired {
                ReapStep::HandOver
            } else {
                ReapStep::Wait
            }
        },
        _ => ReapStep::Finish,
    }
}

/// What is said of a command that ran past its time limit.
pub open spec fn timeout_message(label: Seq<char>) -> Seq<char> {
    "Command timed out after "@ + label + " seconds"@
}

/// The reply to a command that has ended, or was left behind after it was
/// killed.
pub open spec fn run_reply(
    end: ChildPoll,
    timed_out: bool,
    stdout: Seq<char>,
    stderr: Seq<char>,
    label: Seq<char>,
) -> Model {
    match end {
        ChildPoll::Failed { error } => command_reply(stdout, error@, -1),
        ChildPoll::Running => command_reply(stdout, timeout_message(label), -1),
        ChildPoll::Exited { code } => if timed_out {
            command_reply(stdout, timeout_message(label), -1)
        } else {
            command_reply(
                stdout,
                stderr,
                match code {
                    Some(c) => c as int,
                    None => -1,
                },
            )
        },
    }
}

/// Replies to a command that has ended. `label` writes its time limit.
pub fn run_command(
    end: ChildPoll,
    timed_out: bool,
    stdout: &[u8],
    stderr: &[u8],
    label: &str,
) -> (r: Datum)
    ensures
        r@ == run_reply(end, timed_out, lossy(stdout@), lossy(stderr@), label@),
{
    let out = lossy_string(stdout);
    match end {
        ChildPoll::Failed { error } => command_result(out, error, -1),
        ChildPoll::Running => command_result(
            out,
            join3("Command timed out after ", label, " seconds"),
            -1,
        ),
        ChildPoll::Exited { code } => {
            if timed_out {
                return command_result(
                    out,
                    join3("Command timed out after ", label, " seconds"),
                    -1,
                );
            }
            let c: i64 = match code {
                Some(c) => c as i64,
                None => -1,
            };
            command_result(out, lossy_string(stderr), c)
        },
    }
}

/// Replies to a command that could not be started.
pub fn command_not_started(error: String) -> (r: Datum)
    ensures
        r@ == command_reply(Seq::empty(), error@, -1),
{
    command_result(String::new(), error, -1)
}

/// Whether the shell itself has to be killed: its process group could not be,
/// and is not gone.
pub fn needs_direct_kill(group_killed: bool, group_gone: bool) -> (r: bool)
    ensures
        r == (!group_killed && !group_gone),
{
    !group_killed && !group_gone
}

// ───────────────────────── process table ─────────────────────────

/// A background process. Its number tells it from every other that had its
/// identifier.
pub struct Process {
    pub number: u64,
    pub cmd: String,
    pub stdin_open: bool,
    pub exit_code: Option<i64>,
}

/// The model of a [`Process`].
pub struct ProcessModel {
    pub number: u64,
    pub cmd: Seq<char>,
    pub stdin_open: bool,
    pub exit_code: Option<i64>,
}

impl View for Process {
    type V = ProcessModel;

    open spec fn view(&self) -> ProcessModel {
        ProcessModel {
            number: self.number,
            cmd: self.cmd@,
            stdin_open: self.stdin_open,
            exit_code: self.exit_code,
        }
    }
}

/// The processes that were started, by their identifiers, and the number that
/// the next one gets.
pub struct Processes {
    pub table: HashMap<i64, Process>,
    pub next: u64,
}

/// The model of [`Processes`].
pub struct ProcessesModel {
    pub table: Map<i64, ProcessModel>,
    pub next: u64,
}

impl View for Processes {
    type V = ProcessesModel;

    open spec fn view(&self) -> ProcessesModel {
        ProcessesModel {
            table: Map::new(
                |pid: i64| self.table@.contains_key(pid),
                |pid: i64| self.table@[pid]@,
            ),
            next: self.next,
        }
    }
}

/// The exit code of a process. One that a signal ended has the code -1.
pub open spec fn exit_number(code: Option<i32>) -> i64 {
    match code {
        Some(c) => c as i64,
        None => -1i64,
    }
}

impl ProcessesModel {
    /// A process of the table.
    pub open spec fn process(self, pid: i64) -> Option<ProcessModel> {
        if self.table.contains_key(pid) {
            Some(self.table[pid])
        } else {
            None
        }
    }

    /// The table with a process that has just started, in place of any of its
    /// identifier.
    pub open spec fn started(self, pid: i64, cmd: Seq<char>, stdin_open: bool) -> ProcessesModel {
        ProcessesModel {
            table: self.table.insert(
                pid,
                ProcessModel { number: self.next, cmd, stdin_open, exit_code: None },
            ),
            next: after(self.next),
        }
    }

    /// The table once the process with a number has ended.
    pub open spec fn exited(self, pid: i64, number: u64, code: Option<i32>) -> ProcessesModel {
        if self.table.contains_key(pid) && self.table[pid].number == number {
            ProcessesModel {
                table: self.table.insert(
                    pid,
                    ProcessModel { exit_code: Some(exit_number(code)), ..self.table[pid] },
                ),
                ..self
            }
        } else {
            self
        }
    }

    /// The table once the input of a process is closed.
    pub open spec fn input_closed(self, pid: i64) -> ProcessesModel {
        if self.table.contains_key(pid) {
            ProcessesModel {
                table: self.table.insert(
                    pid,
                    ProcessModel { stdin_open: false, ..self.table[pid] },
                ),
                ..self
            }
        } else {
            self
        }
    }

    /// The table after one more thing has happened.
    pub open spec fn apply(self, step: ProcessStep) -> ProcessesModel {
        match step {
            ProcessStep::Start { pid, cmd, stdin_open } => self.started(pid, cmd, stdin_open),
            ProcessStep::Exit { pid, number, code } => self.exited(pid, number, code),
            ProcessStep::CloseInput { pid } => self.input_closed(pid),
        }
    }

    /// The table after all that has happened.
    pub open spec fn run(self, steps: Seq<ProcessStep>) -> ProcessesModel
        decreases steps.len(),
    {
        if steps.len() == 0 {
            self
        } else {
            self.run(steps.drop_last()).apply(steps.last())
        }
    }
}

/// What happens to a table of processes.
pub enum ProcessStep {
    Start { pid: i64, cmd: Seq<char>, stdin_open: bool },
    Exit { pid: i64, number: u64, code: Option<i32> },
    CloseInput { pid: i64 },
}

/// How many processes are started.
pub open spec fn starts(steps: Seq<ProcessStep>) -> nat
    decreases steps.len(),
{
    if steps.len() == 0 {
        0
    } else {
        starts(steps.drop_last()) + (if steps.last() is Start {
            1nat
        } else {
            0nat
        })
    }
}

/// Whether a process with an identifier is started.
pub open spec fn restarted(steps: Seq<ProcessStep>, pid: i64) -> bool {
    exists|i: int|
        0 <= i < steps.len() && (#[trigger] steps[i] matches ProcessStep::Start { pid: p, .. } && p
            == pid)
}

proof fn numbers_after(s: ProcessesModel, steps: Seq<ProcessStep>, first: u64, pid: i64)
    requires
        s.next == after(first),
        s.table.contains_key(pid),
        s.table[pid].number == first,
        starts(steps) < u64::MAX,
    ensures
        s.run(steps).next == drawn(first, starts(steps) + 1),
        s.run(steps).table.contains_key(pid),
        (s.run(steps).table[pid].number == first) == !restarted(steps, pid),
    decreases steps.len(),
{
    if steps.len() == 0 {
        reveal_with_fuel(drawn, 2);
    } else {
        let shorter = steps.drop_last();
        numbers_after(s, shorter, first, pid);
        drawn_numbers_differ(first, 0, starts(shorter) + 1);
        assert(drawn(first, 0) == first);
        if restarted(shorter, pid) {
            let i = choose|i: int|
                0 <= i < shorter.len() && (
                #[trigger] shorter[i] matches ProcessStep::Start { pid: p, .. } && p == pid);
            assert(steps[i] == shorter[i]);
        }
        let last = steps.len() - 1;
        assert(steps[last] == steps.last());
        if restarted(steps, pid) {
            let i = choose|i: int|
                0 <= i < steps.len() && (
                #[trigger] steps[i] matches ProcessStep::Start { pid: p, .. } && p == pid);
            assert(i < last ==> shorter[i] == steps[i]);
        }
    }
}

/// The end of a process is noted for as long as no other was started under its
/// identifier, and does not touch one that was. This holds where fewer than
/// 2^64 - 1 processes were started since.
pub proof fn exits_reach_their_process(
    s: ProcessesModel,
    pid: i64,
    cmd: Seq<char>,
    stdin_open: bool,
    steps: Seq<ProcessStep>,
    code: Option<i32>,
)
    requires
        starts(steps) < u64::MAX,
    ensures
        ({
            let now = s.started(pid, cmd, stdin_open).run(steps);
            let ended = now.exited(pid, s.next, code);
            if restarted(steps, pid) {
                ended == now
            } else {
                ended.process(pid) == Some(
                    ProcessModel {
                        exit_code: Some(exit_number(code)),
                        ..now.table[pid]
                    },
                )
            }
        }),
{
    numbers_after(s.started(pid, cmd, stdin_open), steps, s.next, pid);
}

/// The identifier of a process.
pub open spec fn pid_of(kw: Map<Seq<char>, Model>) -> i64 {
    match named_int(kw, "pid"@) {
        Some(n) => n,
        None => -1i64,
    }
}

fn kw_pid(kw: &Kwargs) -> (r: i64)
    ensures
        r == pid_of(kw@),
{
    match kw_i64(kw, "pid") {
        Some(n) => n,
        None => -1,
    }
}

/// What is said of a process that is not in the table.
pub open spec fn no_process(pid: i64) -> Seq<char> {
    "No process with pid "@ + signed_decimal(pid as int)
}

fn no_process_text(pid: i64) -> (r: String)
    ensures
        r@ == no_process(pid),
{
    let n = to_signed_decimal(pid);
    join("No process with pid ", n.as_str())
}

/// A process to be started.
#[derive(Debug, PartialEq, Eq)]
pub struct StartSpec {
    pub cmd: String,
    pub cwd: Option<String>,
    pub envs: Vec<(String, String)>,
    pub want_stdin: bool,
}

/// Plans the start of a process.
pub fn plan_start(kw: &Kwargs) -> (r: StartSpec)
    ensures
        r.cmd@ == text_or_empty(kw@, "cmd"@),
        opt_view(r.cwd) == directory(named_text(kw@, "cwd"@)),
        pairs(r.envs@) == variables_of(named(kw@, "envs"@)),
        r.want_stdin == flag(kw@, "want_stdin"@),
{
    StartSpec {
        cmd: kw_text(kw, "cmd"),
        cwd: named_directory(kw_str(kw, "cwd")),
        envs: env_pairs(kw.get("envs")),
        want_stdin: kw_flag(kw, "want_stdin"),
    }
}

/// The reply to a start.
pub open spec fn start_reply(pid: i64, error: Option<Seq<char>>) -> Model {
    dict(
        seq![
            ("pid"@, Model::Integer(pid as int)),
            ("error"@, error_model(error)),
        ],
    )
}

/// The reply to a wait or a poll for a process that ended.
pub open spec fn ended_reply(out: Seq<char>, err: Seq<char>, code: i64) -> Model {
    dict(
        seq![
            ("status"@, Model::Text("done"@)),
            ("stdout"@, Model::Text(out)),
            ("stderr"@, Model::Text(err)),
            ("exit_code"@, Model::Integer(code as int)),
        ],
    )
}

/// What the outputs and the exit code of a process are once it ended.
pub struct Ended {
    pub stdout: Vec<u8>,
    pub stderr: Vec<u8>,
    pub code: i64,
}

/// How long the outputs of a process that ended are waited for, in seconds.
pub const OUTPUT_DRAIN_SECONDS: u64 = 5;

/// Whether the outputs of a process that ended are to be handed over: both have
/// been read to their end, or the wait for that is over.
pub fn drained(stdout_finished: bool, stderr_finished: bool, expired: bool) -> (r: bool)
    ensures
        r == (stdout_finished && stderr_finished || expired),
{
    stdout_finished && stderr_finished || expired
}

impl Processes {
    /// No processes.
    pub fn new() -> (r: Processes)
        ensures
            r@ == (ProcessesModel { table: Map::empty(), next: 0 }),
    {
        let r = Processes { table: HashMap::new(), next: 0 };
        assert(r@.table =~= Map::empty());
        r
    }

    /// Follows the start of a process, or its failure. A process that was
    /// started has the number that comes with the reply.
    pub fn cmd_start(&mut self, spec: &StartSpec, outcome: Result<i64, String>) -> (r: (
        Datum,
        Option<u64>,
    ))
        ensures
            match outcome {
                Ok(pid) => r.0@ == start_reply(pid, None) && r.1 == Some(old(self)@.next)
                    && final(self)@ == old(self)@.started(pid, spec.cmd@, spec.want_stdin),
                Err(e) => r.0@ == start_reply(-1i64, Some(e@)) && r.1 is None && final(self)@
                    == old(self)@,
            },
    {
        let (pid, error, number) = match outcome {
            Ok(pid) => {
                let number: u64 = self.next;
                let fresh = Process {
                    number,
                    cmd: spec.cmd.clone(),
                    stdin_open: spec.want_stdin,
                    exit_code: None,
                };
                let ghost before = self@;
                self.table.insert(pid, fresh);
                self.next = following(number);
                assert(self@.table =~= before.table.insert(pid, fresh@));
                (pid, None, Some(number))
            },
            Err(e) => (-1i64, Some(e), None),
        };
        let e = match &error {
            Some(e) => error_datum(Some(e.as_str())),
            None => error_datum(None),
        };
        let mut out: Vec<(&str, Datum)> = Vec::new();
        out.push(("pid", Datum::integer(pid)));
        out.push(("error", e));
        assert(named_models(out@) =~= seq![
            ("pid"@, Model::Integer(pid as int)),
            ("error"@, error_model(opt_view(error))),
        ]);
        (map_value(out), number)
    }

    /// Notes that the process with a number ended.
    pub fn exited(&mut self, pid: i64, number: u64, code: Option<i32>)
        ensures
            final(self)@ == old(self)@.exited(pid, number, code),
    {
        let ghost before = self@;
        if let Some(mut p) = self.table.remove(&pid) {
            if p.number == number {
                let c: i64 = match code {
                    Some(c) => c as i64,
                    None => -1,
                };
                p.exit_code = Some(c);
            }
            self.table.insert(pid, p);
        }
        assert(self@.table =~= before.exited(pid, number, code).table);
    }

    /// The process that a wait is for, with its time limit, or the reply where
    /// there is none.
    pub fn plan_wait(&self, kw: &Kwargs) -> (r: Result<(i64, Option<Number>), Datum>)
        ensures
            ({
                let pid = pid_of(kw@);
                match self@.process(pid) {
                    None => r matches Err(reply) && reply@ == command_reply(
                        Seq::empty(),
                        no_process(pid),
                        -1,
                    ),
                    Some(_) => r matches Ok((p, limit)) && p == pid && (match limit {
                        Some(n) => named(kw@, "timeout"@) == Some(number_model(n)),
                        None => named(kw@, "timeout"@) is None || !is_number(
                            named(kw@, "timeout"@)->0,
                        ),
                    }),
                }
            }),
    {
        let pid: i64 = kw_pid(kw);
        match self.table.get(&pid) {
            None => Err(command_result(String::new(), no_process_text(pid), -1)),
            Some(_) => Ok((pid, kw_number(kw, "timeout"))),
        }
    }

    /// The process that a poll is for, with how long it may wait, or the reply
    /// where there is none.
    pub fn plan_poll(&self, kw: &Kwargs) -> (r: Result<(i64, Option<Number>), Datum>)
        ensures
            ({
                let pid = pid_of(kw@);
                match self@.process(pid) {
                    None => r matches Err(reply) && reply@ == dict(
                        seq![
                            ("status"@, Model::Text("error"@)),
                            ("error"@, Model::Text(no_process(pid))),
                        ],
                    ),
                    Some(_) => r matches Ok((p, limit)) && p == pid && (match limit {
                        Some(n) => named(kw@, "wait_timeout"@) == Some(number_model(n)),
                        None => named(kw@, "wait_timeout"@) is None || !is_number(
                            named(kw@, "wait_timeout"@)->0,
                        ),
                    }),
                }
            }),
    {
        let pid: i64 = kw_pid(kw);
        match self.table.get(&pid) {
            None => {
                let message = no_process_text(pid);
                let mut out: Vec<(&str, Datum)> = Vec::new();
                out.push(("status", Datum::text("error")));
                out.push(("error", Datum::Text(message)));
                assert(named_models(out@) =~= seq![
                    ("status"@, Model::Text("error"@)),
                    ("error"@, Model::Text(message@)),
                ]);
                Err(map_value(out))
            },
            Some(_) => Ok((pid, kw_number(kw, "wait_timeout"))),
        }
    }

    /// Replies with all processes, each once and in no particular order, and
    /// which of them run.
    pub fn cmd_list(&self) -> (r: Datum)
        ensures
            exists|order: Seq<i64>|
                order.no_duplicates() && order.to_set() == self@.table.dom() && r@
                    == #[trigger] list_reply(self@.table, order),
    {
        let mut items: Vec<Datum> = Vec::new();
        let ghost order = self.table.keys().remaining().unref();
        for pid in it: self.table.keys()
            invariant
                it.seq().unref() == order,
                order.no_duplicates(),
                order.to_set() == self.table@.dom(),
                models(items@) == listed(self@.table, order).take(it.index()),
        {
            let ghost before = items@;
            match self.table.get(pid) {
                Some(p) => {
                    let mut out: Vec<(&str, Datum)> = Vec::new();
                    out.push(("pid", Datum::integer(*pid)));
                    out.push(("cmd", Datum::Text(p.cmd.clone())));
                    out.push(("running", Datum::Boolean(p.exit_code.is_none())));
                    assert(named_models(out@) =~= seq![
                        ("pid"@, Model::Integer(*pid as int)),
                        ("cmd"@, Model::Text(p@.cmd)),
                        ("running"@, Model::Boolean(p@.exit_code is None)),
                    ]);
                    let item = map_value(out);
                    items.push(item);
                    assert(models(items@) =~= models(before).push(item@));
                },
                None => {},
            }
        }
        assert(models(items@) =~= listed(self@.table, order));
        assert(order.to_set() =~= self@.table.dom());
        let list = Datum::Array(items);
        proof {
            array_view(list);
        }
        let mut out: Vec<(&str, Datum)> = Vec::new();
        out.push(("processes", list));
        assert(named_models(out@) =~= seq![("processes"@, list@)]);
        assert(dict(named_models(out@)) == list_reply(self@.table, order));
        map_value(out)
    }

    /// The process to kill, or the reply where there is none.
    pub fn plan_kill(&self, kw: &Kwargs) -> (r: Result<i64, Datum>)
        ensures
            match self@.process(pid_of(kw@)) {
                None => r matches Err(reply) && reply@ == kill_reply(
                    Some(no_process(pid_of(kw@))),
                ),
                Some(_) => r == Ok::<i64, Datum>(pid_of(kw@)),
            },
    {
        let pid: i64 = kw_pid(kw);
        match self.table.get(&pid) {
            None => {
                let message = no_process_text(pid);
                Err(cmd_kill(Some(message.as_str())))
            },
            Some(_) => Ok(pid),
        }
    }

    /// What to write to the input of a process, or the reply where it has none.
    pub fn plan_stdin(&self, kw: &Kwargs) -> (r: Result<StdinSpec, Datum>)
        ensures
            ({
                let pid = pid_of(kw@);
                match self@.process(pid) {
                    None => r matches Err(reply) && reply@ == error_reply(Some(no_process(pid))),
                    Some(p) => if p.stdin_open {
                        r matches Ok(spec) && spec.pid == pid && spec.data@ == text_or_empty(
                            kw@,
                            "data"@,
                        ) && spec.eof == flag(kw@, "eof"@)
                    } else {
                        r matches Err(reply) && reply@ == error_reply(Some(no_stdin(pid)))
                    },
                }
            }),
    {
        let pid: i64 = kw_pid(kw);
        match self.table.get(&pid) {
            None => {
                let message = no_process_text(pid);
                Err(error_value(Some(message.as_str())))
            },
            Some(p) => {
                if p.stdin_open {
                    Ok(
                        StdinSpec {
                            pid,
                            data: kw_text(kw, "data"),
                            eof: kw_flag(kw, "eof"),
                        },
                    )
                } else {
                    let n = to_signed_decimal(pid);
                    let message = join3(
                        "process ",
                        n.as_str(),
                        " was not started with stdin enabled; start it with stdin=True to use send_stdin",
                    );
                    Err(error_value(Some(message.as_str())))
                }
            },
        }
    }

    /// Follows a write to the input of a process, or its failure. The input is
    /// closed where that was asked for and the write succeeded.
    pub fn cmd_send_stdin(&mut self, spec: &StdinSpec, failure: Option<&str>) -> (r: Datum)
        ensures
            r@ == error_reply(opt_str_view(failure)),
            final(self)@ == (if failure is None && spec.eof {
                old(self)@.input_closed(spec.pid)
            } else {
                old(self)@
            }),
    {
        if failure.is_none() && spec.eof {
            let ghost before = self@;
            if let Some(mut p) = self.table.remove(&spec.pid) {
                p.stdin_open = false;
                self.table.insert(spec.pid, p);
            }
            assert(self@.table =~= before.input_closed(spec.pid).table);
        }
        error_value(failure)
    }
}

/// What a list says of processes, in an order.
pub open spec fn listed(table: Map<i64, ProcessModel>, order: Seq<i64>) -> Seq<Model> {
    Seq::new(
        order.len(),
        |i: int|
            dict(
                seq![
                    ("pid"@, Model::Integer(order[i] as int)),
                    ("cmd"@, Model::Text(table[order[i]].cmd)),
                    ("running"@, Model::Boolean(table[order[i]].exit_code is None)),
                ],
            ),
    )
}

/// The reply with a list of processes.
pub open spec fn list_reply(table: Map<i64, ProcessModel>, order: Seq<i64>) -> Model {
    dict(seq![("processes"@, Model::Array(listed(table, order)))])
}

/// What is said of a process without an input.
pub open spec fn no_stdin(pid: i64) -> Seq<char> {
    "process "@ + signed_decimal(pid as int)
        + " was not started with stdin enabled; start it with stdin=True to use send_stdin"@
}

/// A write to the input of a process.
#[derive(Debug, PartialEq, Eq)]
pub struct StdinSpec {
    pub pid: i64,
    pub data: String,
    pub eof: bool,
}

/// The reply to a kill.
pub open spec fn kill_reply(error: Option<Seq<char>>) -> Model {
    dict(
        seq![
            ("killed"@, Model::Boolean(error is None)),
            ("error"@, error_model(error)),
        ],
    )
}

/// Replies to a kill.
pub fn cmd_kill(error: Option<&str>) -> (r: Datum)
    ensures
        r@ == kill_reply(opt_str_view(error)),
{
    let e = error_datum(error);
    let mut out: Vec<(&str, Datum)> = Vec::new();
    out.push(("killed", Datum::Boolean(error.is_none())));
    out.push(("error", e));
    assert(named_models(out@) =~= seq![
        ("killed"@, Model::Boolean(opt_str_view(error) is None)),
        ("error"@, error_model(opt_str_view(error))),
    ]);
    map_value(out)
}

/// Replies to a wait: the outputs of the process, or that it still runs.
pub fn cmd_wait(pid: i64, ended: Option<&Ended>) -> (r: Datum)
    ensures
        r@ == (match ended {
            Some(e) => command_reply(lossy(e.stdout@), lossy(e.stderr@), e.code as int),
            None => command_reply(
                Seq::empty(),
                "process "@ + signed_decimal(pid as int) + " wait timed out"@,
                -1,
            ),
        }),
        ended is None ==> says(r@, "exit_code"@, Model::Integer(-1)),
        ended is Some ==> says(r@, "stdout"@, Model::Text(lossy(ended->0.stdout@))) && says(
            r@,
            "stderr"@,
            Model::Text(lossy(ended->0.stderr@)),
        ) && says(r@, "exit_code"@, Model::Integer(ended->0.code as int)),
{
    proof {
        match ended {
            Some(e) => command_replies_tell(lossy(e.stdout@), lossy(e.stderr@), e.code as int),
            None => command_replies_tell(
                Seq::empty(),
                "process "@ + signed_decimal(pid as int) + " wait timed out"@,
                -1,
            ),
        }
    }
    match ended {
        Some(e) => command_result(
            lossy_string(e.stdout.as_slice()),
            lossy_string(e.stderr.as_slice()),
            e.code,
        ),
        None => {
            let n = to_signed_decimal(pid);
            command_result(
                String::new(),
                join3("process ", n.as_str(), " wait timed out"),
                -1,
            )
        },
    }
}

/// Replies to a poll: the outputs of the process, or that it still runs.
pub fn cmd_poll(ended: Option<&Ended>) -> (r: Datum)
    ensures
        r@ == (match ended {
            Some(e) => ended_reply(lossy(e.stdout@), lossy(e.stderr@), e.code),
            None => dict(seq![("status"@, Model::Text("running"@))]),
        }),
        ended is None ==> says(r@, "status"@, Model::Text("running"@)),
        ended is Some ==> says(r@, "status"@, Model::Text("done"@)) && says(
            r@,
            "stdout"@,
            Model::Text(lossy(ended->0.stdout@)),
        ) && says(r@, "stderr"@, Model::Text(lossy(ended->0.stderr@))) && says(
            r@,
            "exit_code"@,
            Model::Integer(ended->0.code as int),
        ),
{
    proof {
        match ended {
            Some(e) => ended_replies_tell(lossy(e.stdout@), lossy(e.stderr@), e.code),
            None => fields1("status"@, Model::Text("running"@)),
        }
    }
    let mut out: Vec<(&str, Datum)> = Vec::new();
    match ended {
        Some(e) => {
            let a = lossy_string(e.stdout.as_slice());
            let b = lossy_string(e.stderr.as_slice());
            out.push(("status", Datum::text("done")));
            out.push(("stdout", Datum::Text(a)));
            out.push(("stderr", Datum::Text(b)));
            out.push(("exit_code", Datum::integer(e.code)));
            assert(named_models(out@) =~= seq![
                ("status"@, Model::Text("done"@)),
                ("stdout"@, Model::Text(a@)),
                ("stderr"@, Model::Text(b@)),
                ("exit_code"@, Model::Integer(e.code as int)),
            ]);
        },
        None => {
            out.push(("status", Datum::text("running")));
            assert(named_models(out@) =~= seq![("status"@, Model::Text("running"@))]);
        },
    }
    map_value(out)
}

} // verus!
