//! Laws of commands and of processes in the background.
use super::fields::{fields1, fields2, fields3, fields4, says, size};
use crate::cmd::{
    command_reply, command_variables, directory, either_text, ended_reply, first_reserved,
    is_number, kill_reply, list_reply, listed, no_process, no_stdin, number_model, pid_of,
    run_reply, start_reply, string_pairs, timeout_message, usable_seconds, variables_of, ChildPoll,
    Number, ProcessModel, ProcessesModel,
};
use crate::fs::error_model;
use crate::text::{begins, signed_decimal};
use crate::value::Model;
use vstd::prelude::*;

verus! {

/// The reply to a command has its output, its error output and its exit code,
/// each under its own key.
pub proof fn command_replies_tell(stdout: Seq<char>, stderr: Seq<char>, code: int)
    ensures
        size(command_reply(stdout, stderr, code)) == 3,
        says(command_reply(stdout, stderr, code), "stdout"@, Model::Text(stdout)),
        says(command_reply(stdout, stderr, code), "stderr"@, Model::Text(stderr)),
        says(command_reply(stdout, stderr, code), "exit_code"@, Model::Integer(code)),
{
    reveal_strlit("stdout");
    reveal_strlit("stderr");
    reveal_strlit("exit_code");
    assert("stdout"@[3] == 'o');
    assert("stdout"@.len() == 6);
    assert("stderr"@[3] == 'e');
    assert("stderr"@.len() == 6);
    assert("exit_code"@.len() == 9);
    fields3(
        "stdout"@,
        Model::Text(stdout),
        "stderr"@,
        Model::Text(stderr),
        "exit_code"@,
        Model::Integer(code),
    );
}

/// The reply for a process that ended has its output, its error output and its
/// exit code, each under its own key.
pub proof fn ended_replies_tell(stdout: Seq<char>, stderr: Seq<char>, code: i64)
    ensures
        size(ended_reply(stdout, stderr, code)) == 4,
        says(ended_reply(stdout, stderr, code), "status"@, Model::Text("done"@)),
        says(ended_reply(stdout, stderr, code), "stdout"@, Model::Text(stdout)),
        says(ended_reply(stdout, stderr, code), "stderr"@, Model::Text(stderr)),
        says(ended_reply(stdout, stderr, code), "exit_code"@, Model::Integer(code as int)),
{
    reveal_strlit("status");
    reveal_strlit("stdout");
    reveal_strlit("stderr");
    reveal_strlit("exit_code");
    assert("status"@[2] == 'a');
    assert("status"@.len() == 6);
    assert("stdout"@[2] == 'd');
    assert("stdout"@[3] == 'o');
    assert("stdout"@.len() == 6);
    assert("stderr"@[2] == 'd');
    assert("stderr"@[3] == 'e');
    assert("stderr"@.len() == 6);
    assert("exit_code"@.len() == 9);
    fields4(
        "status"@,
        Model::Text("done"@),
        "stdout"@,
        Model::Text(stdout),
        "stderr"@,
        Model::Text(stderr),
        "exit_code"@,
        Model::Integer(code as int),
    );
}

/// A command that ended in time is replied to with what it printed, and its exit
/// code; the code is -1 where a signal ended it.
pub proof fn commands_in_time_are_replied(
    code: Option<i32>,
    stdout: Seq<char>,
    stderr: Seq<char>,
    label: Seq<char>,
)
    ensures
        ({
            let reply = run_reply(ChildPoll::Exited { code }, false, stdout, stderr, label);
            &&& size(reply) == 3
            &&& says(reply, "stdout"@, Model::Text(stdout))
            &&& says(reply, "stderr"@, Model::Text(stderr))
            &&& code is Some ==> says(reply, "exit_code"@, Model::Integer(code->0 as int))
            &&& code is None ==> says(reply, "exit_code"@, Model::Integer(-1))
        }),
{
    command_replies_tell(
        stdout,
        stderr,
        match code {
            Some(c) => c as int,
            None => -1,
        },
    );
}

/// A command that ran past its time limit is replied to with what it printed,
/// the code -1, and the limit in place of its error output, whether it has gone
/// or still runs.
pub proof fn commands_out_of_time_are_replied(
    end: ChildPoll,
    stdout: Seq<char>,
    stderr: Seq<char>,
    label: Seq<char>,
)
    requires
        !(end is Failed),
    ensures
        ({
            let reply = run_reply(end, true, stdout, stderr, label);
            &&& size(reply) == 3
            &&& says(reply, "stdout"@, Model::Text(stdout))
            &&& says(
                reply,
                "stderr"@,
                Model::Text("Command timed out after "@ + label + " seconds"@),
            )
            &&& says(reply, "exit_code"@, Model::Integer(-1))
        }),
{
    command_replies_tell(stdout, timeout_message(label), -1);
}

/// A command that could not be waited for is replied to with what it printed,
/// the code -1, and the failure in place of its error output.
pub proof fn commands_out_of_sight_are_replied(
    error: String,
    timed_out: bool,
    stdout: Seq<char>,
    stderr: Seq<char>,
    label: Seq<char>,
)
    ensures
        ({
            let reply = run_reply(ChildPoll::Failed { error }, timed_out, stdout, stderr, label);
            &&& size(reply) == 3
            &&& says(reply, "stdout"@, Model::Text(stdout))
            &&& says(reply, "stderr"@, Model::Text(error@))
            &&& says(reply, "exit_code"@, Model::Integer(-1))
        }),
{
    command_replies_tell(stdout, error@, -1);
}

/// The reply to a start has the identifier of the process, and an error where
/// there is none.
pub proof fn start_replies_tell(pid: i64, error: Option<Seq<char>>)
    ensures
        size(start_reply(pid, error)) == 2,
        says(start_reply(pid, error), "pid"@, Model::Integer(pid as int)),
        error is Some ==> says(start_reply(pid, error), "error"@, Model::Text(error->0)),
        error is None ==> says(start_reply(pid, error), "error"@, Model::Nil),
{
    reveal_strlit("pid");
    reveal_strlit("error");
    assert("pid"@.len() == 3);
    assert("error"@.len() == 5);
    fields2(
        "pid"@,
        Model::Integer(pid as int),
        "error"@,
        error_model(error),
    );
}

/// The reply to a kill says that the process was killed, or why it was not.
pub proof fn kill_replies_tell(error: Option<Seq<char>>)
    ensures
        size(kill_reply(error)) == 2,
        error is None ==> says(kill_reply(error), "killed"@, Model::Boolean(true)) && says(
            kill_reply(error),
            "error"@,
            Model::Nil,
        ),
        error is Some ==> says(kill_reply(error), "killed"@, Model::Boolean(false)) && says(
            kill_reply(error),
            "error"@,
            Model::Text(error->0),
        ),
{
    reveal_strlit("killed");
    reveal_strlit("error");
    assert("killed"@.len() == 6);
    assert("error"@.len() == 5);
    fields2(
        "killed"@,
        Model::Boolean(error is None),
        "error"@,
        error_model(error),
    );
}

/// A list of processes has an entry for each of them: its identifier, its
/// command, and whether it still runs.
pub proof fn lists_tell_of_each(table: Map<i64, ProcessModel>, order: Seq<i64>, i: int)
    requires
        0 <= i < order.len(),
    ensures
        listed(table, order).len() == order.len(),
        says(list_reply(table, order), "processes"@, Model::Array(listed(table, order))),
        ({
            let entry = listed(table, order)[i];
            let process = table[order[i]];
            &&& size(entry) == 3
            &&& says(entry, "pid"@, Model::Integer(order[i] as int))
            &&& says(entry, "cmd"@, Model::Text(process.cmd))
            &&& process.exit_code is None ==> says(entry, "running"@, Model::Boolean(true))
            &&& process.exit_code is Some ==> says(entry, "running"@, Model::Boolean(false))
        }),
{
    reveal_strlit("pid");
    reveal_strlit("cmd");
    reveal_strlit("running");
    assert("pid"@[0] == 'p');
    assert("pid"@.len() == 3);
    assert("cmd"@[0] == 'c');
    assert("cmd"@.len() == 3);
    assert("running"@.len() == 7);
    fields3(
        "pid"@,
        Model::Integer(order[i] as int),
        "cmd"@,
        Model::Text(table[order[i]].cmd),
        "running"@,
        Model::Boolean(table[order[i]].exit_code is None),
    );
    fields1("processes"@, Model::Array(listed(table, order)));
}

/// What happens to one process does not touch another.
pub proof fn processes_are_apart(
    s: ProcessesModel,
    pid: i64,
    other: i64,
    cmd: Seq<char>,
    stdin_open: bool,
    number: u64,
    code: Option<i32>,
)
    requires
        other != pid,
    ensures
        s.started(pid, cmd, stdin_open).process(other) == s.process(other),
        s.exited(pid, number, code).process(other) == s.process(other),
        s.input_closed(pid).process(other) == s.process(other),
{
}

/// A process that has just started runs, with its command, and its input is
/// open where that was asked for. It keeps these until its end and the end of
/// its input, of which each leaves the rest as it is.
pub proof fn processes_run_until_their_end(
    s: ProcessesModel,
    pid: i64,
    cmd: Seq<char>,
    stdin_open: bool,
    code: Option<i32>,
)
    ensures
        ({
            let running = s.started(pid, cmd, stdin_open);
            let p = running.process(pid);
            let ended = running.exited(pid, p->0.number, code).process(pid);
            let closed = running.input_closed(pid).process(pid);
            &&& p is Some && p->0.cmd == cmd && p->0.stdin_open == stdin_open
                && p->0.exit_code is None
            &&& ended is Some && ended->0.cmd == cmd && ended->0.stdin_open == stdin_open
                && ended->0.exit_code == Some(
                if code is Some {
                    code->0 as i64
                } else {
                    -1i64
                },
            )
            &&& closed is Some && closed->0.cmd == cmd && !closed->0.stdin_open
                && closed->0.exit_code is None
        }),
{
}

/// The identifier of a process is the integer argument `pid`, or -1.
pub proof fn pids_are_read(kw: Map<Seq<char>, Model>)
    ensures
        kw.contains_key("pid"@) && kw["pid"@] is Integer && i64::MIN <= kw["pid"@]->Integer_0
            <= i64::MAX ==> pid_of(kw) == kw["pid"@]->Integer_0,
        !kw.contains_key("pid"@) ==> pid_of(kw) == -1,
{
}

/// The exponent of a 64-bit floating-point number is at its largest where the
/// number is not finite. A number of seconds is usable where it is finite and
/// not below zero.
pub proof fn usable_doubles(sign: u64, exponent: u64, fraction: u64)
    requires
        sign < 2,
        exponent < 2048,
        fraction < 0x10_0000_0000_0000,
    ensures
        usable_seconds(
            Model::Float64(
                (sign * 0x8000_0000_0000_0000 + exponent * 0x10_0000_0000_0000 + fraction) as u64,
            ),
        ) == (exponent != 2047 && (sign == 0 || exponent == 0 && fraction == 0)),
{
    let b = sign * 0x8000_0000_0000_0000 + exponent * 0x10_0000_0000_0000 + fraction;
    assert(b / 0x10_0000_0000_0000 == sign * 2048 + exponent) by (nonlinear_arith)
        requires
            b == sign * 0x8000_0000_0000_0000 + exponent * 0x10_0000_0000_0000 + fraction,
            fraction < 0x10_0000_0000_0000,
    ;
    assert((sign * 2048 + exponent) % 2048 == exponent) by (nonlinear_arith)
        requires
            exponent < 2048,
    ;
}

/// The same of 32-bit numbers and of integers; nothing else is usable.
pub proof fn usable_numbers(sign: u32, exponent: u32, fraction: u32, n: int, text: Seq<char>)
    requires
        sign < 2,
        exponent < 256,
        fraction < 0x80_0000,
    ensures
        usable_seconds(
            Model::Float32((sign * 0x8000_0000 + exponent * 0x80_0000 + fraction) as u32),
        ) == (exponent != 255 && (sign == 0 || exponent == 0 && fraction == 0)),
        usable_seconds(Model::Integer(n)) == (0 <= n),
        !usable_seconds(Model::Text(text)),
        !usable_seconds(Model::Nil),
{
    let b = sign * 0x8000_0000 + exponent * 0x80_0000 + fraction;
    assert(b / 0x80_0000 == sign * 256 + exponent) by (nonlinear_arith)
        requires
            b == sign * 0x8000_0000 + exponent * 0x80_0000 + fraction,
            fraction < 0x80_0000,
    ;
    assert((sign * 256 + exponent) % 256 == exponent) by (nonlinear_arith)
        requires
            exponent < 256,
    ;
}

/// The variables of a dictionary are its entries of two strings, and no others.
pub proof fn variables_are_string_entries(items: Seq<(Model, Model)>, k: Seq<char>, v: Seq<char>)
    ensures
        string_pairs(items).contains((k, v)) == items.contains((Model::Text(k), Model::Text(v))),
        string_pairs(items).len() <= items.len(),
    decreases items.len(),
{
    if items.len() > 0 {
        let shorter = items.drop_last();
        variables_are_string_entries(shorter, k, v);
        let before = string_pairs(shorter);
        let all = string_pairs(items);
        let wanted = (Model::Text(k), Model::Text(v));
        assert(items =~= shorter.push(items.last()));
        if items.contains(wanted) && items.last() != wanted {
            let i = items.index_of(wanted);
            assert(shorter[i] == wanted);
        }
        if shorter.contains(wanted) {
            let i = shorter.index_of(wanted);
            assert(items[i] == wanted);
        }
        if before.contains((k, v)) {
            let i = before.index_of((k, v));
            assert(all[i] == (k, v));
        }
        if all.contains((k, v)) && all.len() > before.len() {
            let i = all.index_of((k, v));
            if i < before.len() {
                assert(before[i] == (k, v));
            } else {
                assert(items[items.len() - 1] == wanted);
            }
        }
        if items.last() == wanted {
            assert(all[before.len() as int] == (k, v));
        }
    }
}

/// The variables keep their order: those of a list and one more are those of the
/// list, and then the one.
pub proof fn variables_keep_their_order(items: Seq<(Model, Model)>, k: Seq<char>, v: Seq<char>)
    ensures
        string_pairs(items.push((Model::Text(k), Model::Text(v)))) == string_pairs(items).push(
            (k, v),
        ),
        variables_of(Some(Model::Dict(items))) == string_pairs(items),
        variables_of(None) == Seq::<(Seq<char>, Seq<char>)>::empty(),
{
    assert(items.push((Model::Text(k), Model::Text(v))).drop_last() =~= items);
}

/// The reserved name that a command is refused for is the first one that begins
/// with `YR_`; where there is none it is not refused.
pub proof fn reserved_names_are_found(items: Seq<(Seq<char>, Seq<char>)>, from: int)
    requires
        0 <= from <= items.len(),
    ensures
        match first_reserved(items, from) {
            Some(name) => exists|i: int|
                from <= i < items.len() && (#[trigger] items[i]).0 == name && reserved_name(name)
                    && forall|j: int| from <= j < i ==> !reserved_name((#[trigger] items[j]).0),
            None => forall|j: int|
                from <= j < items.len() ==> !reserved_name((#[trigger] items[j]).0),
        },
    decreases items.len() - from,
{
    if from < items.len() {
        reveal_strlit("YR_");
        let name = items[from].0;
        if begins(name, "YR_"@) {
            assert(name.take(3)[0] == name[0] && name.take(3)[1] == name[1] && name.take(3)[2]
                == name[2]);
            assert(reserved_name(name));
        } else {
            if reserved_name(name) {
                assert(name.take(3) =~= "YR_"@);
            }
            reserved_names_are_found(items, from + 1);
            if let Some(found) = first_reserved(items, from + 1) {
                let i = choose|i: int|
                    from + 1 <= i < items.len() && (#[trigger] items[i]).0 == found
                        && reserved_name(found) && forall|j: int|
                        from + 1 <= j < i ==> !reserved_name((#[trigger] items[j]).0);
                assert(items[i].0 == found && forall|j: int|
                    from <= j < i ==> !reserved_name((#[trigger] items[j]).0));
            }
        }
    }
}

/// Whether a variable has a name that the runtime keeps for itself.
pub open spec fn reserved_name(name: Seq<char>) -> bool {
    name.len() >= 3 && name[0] == 'Y' && name[1] == 'R' && name[2] == '_'
}

/// A command may be given under either of two names, of which the first goes
/// before; a directory without a name is none.
pub proof fn arguments_have_two_names(
    kw: Map<Seq<char>, Model>,
    first: Seq<char>,
    second: Seq<char>,
    s: Seq<char>,
)
    ensures
        kw.contains_key(first) && kw[first] == Model::Text(s) ==> either_text(kw, first, second)
            == Some(s),
        !kw.contains_key(first) && kw.contains_key(second) && kw[second] == Model::Text(s)
            ==> either_text(kw, first, second) == Some(s),
        !kw.contains_key(first) && !kw.contains_key(second) ==> either_text(kw, first, second)
            is None,
        s.len() > 0 ==> directory(Some(s)) == Some(s),
        s.len() == 0 ==> directory(Some(s)) is None,
        directory(None) is None,
{
}

/// The variables of a command are those of `envs`, and those of `env` only where
/// `envs` is not given.
pub proof fn commands_take_their_variables(kw: Map<Seq<char>, Model>, items: Seq<(Model, Model)>)
    ensures
        kw.contains_key("envs"@) && kw["envs"@] == Model::Dict(items) ==> command_variables(kw)
            == string_pairs(items),
        !kw.contains_key("envs"@) && kw.contains_key("env"@) && kw["env"@] == Model::Dict(items)
            ==> command_variables(kw) == string_pairs(items),
{
}

/// A process that is not there, and one without an input, are told by their
/// identifiers.
pub proof fn missing_processes_are_named(pid: i64)
    ensures
        no_process(pid) == "No process with pid "@ + signed_decimal(pid as int),
        no_stdin(pid) == "process "@ + signed_decimal(pid as int)
            + " was not started with stdin enabled; start it with stdin=True to use send_stdin"@,
{
}

/// Numbers are numbers in each of their forms, and nothing else is.
pub proof fn numbers_have_four_forms(a: u32, b: u64, c: i64, s: Seq<char>)
    ensures
        number_model(Number::Float32(a)) == Model::Float32(a),
        number_model(Number::Float64(b)) == Model::Float64(b),
        number_model(Number::Unsigned(b)) == Model::Integer(b as int),
        number_model(Number::Signed(c)) == Model::Integer(c as int),
        is_number(Model::Float32(a)) && is_number(Model::Float64(b)) && is_number(
            Model::Integer(c as int),
        ),
        !is_number(Model::Text(s)) && !is_number(Model::Nil) && !is_number(Model::Boolean(true)),
{
}

} // verus!
