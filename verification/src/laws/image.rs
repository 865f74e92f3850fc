//! Laws of the image's process.
use super::fields::{fields1, fields2, fields3, says, says_entry, size};
use super::transfers::written_field;
use super::texts::unsigned_numerals_are_digits;
use crate::entrypoint::{
    create_failure, exit_fields, exit_json_text, exit_message, exit_report, identity_of, info_model,
    last_bytes, opt_int_text, opt_json_string, path_allowed, poll_model, signal_text, spec_error,
    user_parts, Ending, EntrypointState, ExitInfo, ExitModel, Failure, IdentityModel, Manager,
    Probe, ProcessSpec,
};
use crate::json_text::{bool_text, json_fields, json_string};
use crate::messages::ErrorCodes;
use crate::text::{decimal, decimal_reads_back, lemma_first_index, signed_decimal, split_all, views};
use crate::value::Model;
use vstd::prelude::*;

verus! {

// ───────────────────────── configuration ─────────────────────────

/// A path is allowed where it starts at the root and never goes up. The root
/// itself is no path of a configuration.
pub proof fn paths_start_at_the_root(path: Seq<char>, label: Seq<char>)
    ensures
        path.len() == 0 || path[0] != '/' ==> !path_allowed(path, label),
        split_all(path, '/').contains(".."@) ==> !path_allowed(path, label),
        path.len() > 0 && path[0] == '/' && !split_all(path, '/').contains(".."@) && label
            != "image process config"@ ==> path_allowed(path, label),
        path.len() > 0 && path[0] == '/' && !split_all(path, '/').contains(".."@) && (exists|i: int|
            0 <= i < split_all(path, '/').len() && (#[trigger] split_all(path, '/')[i]).len() > 0
                && split_all(path, '/')[i] != "."@) ==> path_allowed(path, label),
{
}

/// The process of an image is started where its configuration has version 1, a
/// command with a name, no NUL, and a working directory that is allowed.
pub proof fn configurations_are_checked(spec: ProcessSpec)
    ensures
        (spec_error(spec) is None) == (spec.version == 1 && spec.args@.len() > 0
            && spec.args@[0]@.len() > 0 && (forall|i: int|
            0 <= i < spec.args@.len() ==> !(#[trigger] spec.args@[i])@.contains('\0')) && path_allowed(
            spec.cwd@,
            "image working directory"@,
        ) && !spec.user@.contains('\0')),
{
    let args = views(spec.args@);
    assert(args.len() == spec.args@.len());
    assert forall|i: int| 0 <= i < args.len() implies args[i] == (#[trigger] spec.args@[i])@ by {}
    if crate::entrypoint::args_have_nul(args) {
        let i = choose|i: int|
            0 <= i < args.len() && crate::entrypoint::has_nul(#[trigger] args[i]);
        assert(spec.args@[i]@.contains('\0'));
    } else {
        assert forall|i: int| 0 <= i < spec.args@.len() implies !(#[trigger] spec.args@[i])@.contains(
            '\0',
        ) by {
            assert(!crate::entrypoint::has_nul(args[i]));
        }
    }
}

// ───────────────────────── identity ─────────────────────────

proof fn numerals_have_no_colon(n: nat)
    ensures
        !decimal(n).contains(':'),
        decimal(n).len() > 0,
{
    decimal_reads_back(n);
    assert forall|i: int| 0 <= i < decimal(n).len() implies decimal(n)[i] != ':' by {
        assert(crate::text::is_digit(decimal(n)[i]));
    }
}

/// A user and a group are told apart by the first colon.
pub proof fn users_and_groups(user: Seq<char>, group: Seq<char>)
    requires
        !user.contains(':'),
    ensures
        user_parts(user.push(':') + group) == (user, group),
        user_parts(user) == (user, Seq::<char>::empty()),
{
    super::texts::split_pairs_join(user, ':');
    let s = user.push(':') + group;
    assert forall|j: int| 0 <= j < user.len() implies s[j] != ':' && user[j] != ':' by {
        assert(s[j] == user[j]);
        assert(user.contains(user[j]));
    }
    lemma_first_index(s, ':', user.len() as int);
    lemma_first_index(user, ':', user.len() as int);
    assert(s.take(user.len() as int) =~= user);
    assert(s.skip(user.len() as int + 1) =~= group);
}

/// A user and a group in numerals are themselves, whatever is found of them. A
/// user alone has the group that is found for it, and else the group 0.
pub proof fn numeric_identities(
    uid: u32,
    gid: u32,
    found: Option<(u32, u32)>,
    found_group: Option<u32>,
)
    ensures
        identity_of(
            decimal(uid as nat).push(':') + decimal(gid as nat),
            found,
            found_group,
        ) == Ok::<Option<IdentityModel>, Seq<char>>(
            Some(IdentityModel { uid, gid, user_name: None }),
        ),
        identity_of(decimal(uid as nat), found, found_group) == Ok::<
            Option<IdentityModel>,
            Seq<char>,
        >(
            Some(
                IdentityModel {
                    uid,
                    gid: if found is Some {
                        (found->0).1
                    } else {
                        0
                    },
                    user_name: None,
                },
            ),
        ),
{
    numerals_have_no_colon(uid as nat);
    numerals_have_no_colon(gid as nat);
    users_and_groups(decimal(uid as nat), decimal(gid as nat));
    decimal_reads_back(uid as nat);
    decimal_reads_back(gid as nat);
    unsigned_numerals_are_digits(decimal(uid as nat), u32::MAX as nat);
    unsigned_numerals_are_digits(decimal(gid as nat), u32::MAX as nat);
}

/// A name has the identifiers that are found for it, and a group of its own
/// goes before those. A name or a group that is not found is an error.
pub proof fn named_identities(
    user: Seq<char>,
    group: Seq<char>,
    found: Option<(u32, u32)>,
    found_group: Option<u32>,
)
    requires
        user.len() > 0,
        group.len() > 0,
        !user.contains(':'),
        !user.contains('\0'),
        !group.contains('\0'),
        crate::entrypoint::numeric_id(user) is None,
        crate::entrypoint::numeric_id(group) is None,
    ensures
        found is None ==> identity_of(user, found, found_group) is Err && identity_of(
            user.push(':') + group,
            found,
            found_group,
        ) is Err,
        found is Some ==> identity_of(user, found, found_group) == Ok::<
            Option<IdentityModel>,
            Seq<char>,
        >(
            Some(
                IdentityModel {
                    uid: (found->0).0,
                    gid: (found->0).1,
                    user_name: Some(user),
                },
            ),
        ),
        found is Some && found_group is Some ==> identity_of(
            user.push(':') + group,
            found,
            found_group,
        ) == Ok::<Option<IdentityModel>, Seq<char>>(
            Some(
                IdentityModel {
                    uid: (found->0).0,
                    gid: found_group->0,
                    user_name: Some(user),
                },
            ),
        ),
        found is Some && found_group is None ==> identity_of(
            user.push(':') + group,
            found,
            found_group,
        ) is Err,
{
    users_and_groups(user, group);
}

/// Without a user the process keeps the identity of the runtime. A group without
/// a user is an error.
pub proof fn absent_identities(
    group: Seq<char>,
    found: Option<(u32, u32)>,
    found_group: Option<u32>,
)
    ensures
        identity_of(Seq::empty(), found, found_group) == Ok::<Option<IdentityModel>, Seq<char>>(
            None,
        ),
        identity_of(Seq::<char>::empty().push(':') + group, found, found_group) is Err,
{
    users_and_groups(Seq::empty(), group);
}

// ───────────────────────── the end ─────────────────────────

/// The end of a process is told as it was: its code, or the signal that ended
/// it. A shell shows a code as it is, and a signal as 128 more.
pub proof fn ends_are_told(pid: u32, end: Ending, tail: Seq<char>)
    ensures
        ({
            let r = exit_report(pid, end, tail);
            &&& r.pid == pid
            &&& r.exit_code == end.code
            &&& r.signal == end.signal
            &&& r.core_dumped == end.core_dumped
            &&& r.started_at == end.started_at
            &&& r.exited_at == end.exited_at
            &&& r.runtime_ms == end.runtime_ms
            &&& r.stderr_tail == tail
            &&& end.code is Some ==> r.status_kind == "exited"@ && r.shell_exit_code == end.code->0
                && r.message == "entrypoint exited with code "@ + signed_decimal(
                end.code->0 as int,
            )
            &&& end.code is None ==> r.status_kind == "signaled"@
            &&& end.code is None && end.signal is Some && end.signal->0 <= i32::MAX - 128
                ==> r.shell_exit_code == 128 + end.signal->0
            &&& end.code is None && end.signal is None ==> r.shell_exit_code == -1
        }),
{
}

/// Signals are told by their numbers, and by their names where they have one.
pub proof fn signals_have_names(signal: i32)
    ensures
        signal_text(1) == Some("SIGHUP"@),
        signal_text(2) == Some("SIGINT"@),
        signal_text(3) == Some("SIGQUIT"@),
        signal_text(4) == Some("SIGILL"@),
        signal_text(6) == Some("SIGABRT"@),
        signal_text(8) == Some("SIGFPE"@),
        signal_text(9) == Some("SIGKILL"@),
        signal_text(11) == Some("SIGSEGV"@),
        signal_text(13) == Some("SIGPIPE"@),
        signal_text(14) == Some("SIGALRM"@),
        signal_text(15) == Some("SIGTERM"@),
        signal_text(signal) is Some ==> exit_message(None, Some(signal))
            == "entrypoint exited after signal "@ + signal_text(signal)->0 + " ("@ + signed_decimal(
            signal as int,
        ) + ")"@,
        signal_text(signal) is None ==> exit_message(None, Some(signal))
            == "entrypoint exited after signal "@ + signed_decimal(signal as int),
{
}

/// The fields that tell of the end have each its own value.
pub proof fn ends_are_replied(info: ExitModel)
    ensures
        ({
            let reply = crate::codec::dict(exit_fields(info));
            &&& size(reply) == 14
            &&& says(reply, "status"@, Model::Text("exited"@))
            &&& says(reply, "type"@, Model::Text(info.kind))
            &&& says(reply, "pid"@, Model::Integer(info.pid as int))
            &&& says(reply, "status_kind"@, Model::Text(info.status_kind))
            &&& info.exit_code is Some ==> says(
                reply,
                "exit_code"@,
                Model::Integer(info.exit_code->0 as int),
            )
            &&& info.exit_code is None ==> says(reply, "exit_code"@, Model::Nil)
            &&& info.signal is Some ==> says(
                reply,
                "signal"@,
                Model::Integer(info.signal->0 as int),
            )
            &&& info.signal is None ==> says(reply, "signal"@, Model::Nil)
            &&& info.signal_name is Some ==> says(
                reply,
                "signal_name"@,
                Model::Text(info.signal_name->0),
            )
            &&& says(reply, "shell_exit_code"@, Model::Integer(info.shell_exit_code as int))
            &&& says(reply, "core_dumped"@, Model::Boolean(info.core_dumped))
            &&& info.started_at <= i64::MAX ==> says(
                reply,
                "started_at"@,
                Model::Integer(info.started_at as int),
            )
            &&& info.exited_at <= i64::MAX ==> says(
                reply,
                "exited_at"@,
                Model::Integer(info.exited_at as int),
            )
            &&& info.runtime_ms <= i64::MAX ==> says(
                reply,
                "runtime_ms"@,
                Model::Integer(info.runtime_ms as int),
            )
            &&& says(reply, "stderr_tail"@, Model::Text(info.stderr_tail))
            &&& says(reply, "message"@, Model::Text(info.message))
        }),
{
    let all = exit_fields(info);
    reveal_strlit("status");
    reveal_strlit("type");
    reveal_strlit("pid");
    reveal_strlit("status_kind");
    reveal_strlit("exit_code");
    reveal_strlit("signal");
    reveal_strlit("signal_name");
    reveal_strlit("shell_exit_code");
    reveal_strlit("core_dumped");
    reveal_strlit("started_at");
    reveal_strlit("exited_at");
    reveal_strlit("runtime_ms");
    reveal_strlit("stderr_tail");
    reveal_strlit("message");
    assert("status"@[1] == 't');
    assert("status"@.len() == 6);
    assert("type"@.len() == 4);
    assert("pid"@.len() == 3);
    assert("status_kind"@[0] == 's');
    assert("status_kind"@[1] == 't');
    assert("status_kind"@[2] == 'a');
    assert("status_kind"@.len() == 11);
    assert("exit_code"@[4] == '_');
    assert("exit_code"@.len() == 9);
    assert("signal"@[1] == 'i');
    assert("signal"@.len() == 6);
    assert("signal_name"@[0] == 's');
    assert("signal_name"@[1] == 'i');
    assert("signal_name"@.len() == 11);
    assert("shell_exit_code"@.len() == 15);
    assert("core_dumped"@[0] == 'c');
    assert("core_dumped"@.len() == 11);
    assert("started_at"@[0] == 's');
    assert("started_at"@.len() == 10);
    assert("exited_at"@[4] == 'e');
    assert("exited_at"@.len() == 9);
    assert("runtime_ms"@[0] == 'r');
    assert("runtime_ms"@.len() == 10);
    assert("stderr_tail"@[0] == 's');
    assert("stderr_tail"@[1] == 't');
    assert("stderr_tail"@[2] == 'd');
    assert("stderr_tail"@.len() == 11);
    assert("message"@.len() == 7);
    assert(all[0].0 == "status"@);
    assert(all[1].0 == "type"@);
    assert(all[2].0 == "pid"@);
    assert(all[3].0 == "status_kind"@);
    assert(all[4].0 == "exit_code"@);
    assert(all[5].0 == "signal"@);
    assert(all[6].0 == "signal_name"@);
    assert(all[7].0 == "shell_exit_code"@);
    assert(all[8].0 == "core_dumped"@);
    assert(all[9].0 == "started_at"@);
    assert(all[10].0 == "exited_at"@);
    assert(all[11].0 == "runtime_ms"@);
    assert(all[12].0 == "stderr_tail"@);
    assert(all[13].0 == "message"@);
    says_entry(all, 0);
    says_entry(all, 1);
    says_entry(all, 2);
    says_entry(all, 3);
    says_entry(all, 4);
    says_entry(all, 5);
    says_entry(all, 6);
    says_entry(all, 7);
    says_entry(all, 8);
    says_entry(all, 9);
    says_entry(all, 10);
    says_entry(all, 11);
    says_entry(all, 12);
    says_entry(all, 13);
}

/// A poll tells whether the process runs, has ended, or could not be started.
pub proof fn polls_are_replied(pid: u32, started_at: u64, failure: Failure, info: ExitInfo)
    requires
        started_at <= i64::MAX,
    ensures
        ({
            let running = poll_model(EntrypointState::Running { pid, started_at });
            let failed = poll_model(EntrypointState::Failed(failure));
            let disabled = poll_model(EntrypointState::Disabled);
            &&& size(running) == 3
            &&& says(running, "status"@, Model::Text("running"@))
            &&& says(running, "pid"@, Model::Integer(pid as int))
            &&& says(running, "started_at"@, Model::Integer(started_at as int))
            &&& says(failed, "status"@, Model::Text("error"@))
            &&& says(failed, "code"@, Model::Integer(failure.code as int))
            &&& says(failed, "message"@, Model::Text(failure.message@))
            &&& says(disabled, "status"@, Model::Text("error"@))
            &&& poll_model(EntrypointState::Exited(info)) == crate::codec::dict(exit_fields(info@))
        }),
{
    reveal_strlit("status");
    reveal_strlit("pid");
    reveal_strlit("started_at");
    reveal_strlit("code");
    reveal_strlit("message");
    assert("status"@.len() == 6);
    assert("pid"@.len() == 3);
    assert("started_at"@.len() == 10);
    assert("code"@.len() == 4);
    assert("message"@.len() == 7);
    fields3(
        "status"@,
        Model::Text("running"@),
        "pid"@,
        Model::Integer(pid as int),
        "started_at"@,
        Model::Integer(started_at as i64 as int),
    );
    fields3(
        "status"@,
        Model::Text("error"@),
        "code"@,
        Model::Integer(failure.code as int),
        "message"@,
        Model::Text(failure.message@),
    );
    fields2(
        "status"@,
        Model::Text("error"@),
        "message"@,
        Model::Text("inherit_entrypoint is not enabled for this sandbox"@),
    );
}

/// The information on a runtime tells the state of the process.
pub proof fn states_are_replied(pid: u32, started_at: u64, failure: Failure)
    ensures
        ({
            let running = info_model(EntrypointState::Running { pid, started_at });
            let failed = info_model(EntrypointState::Failed(failure));
            let disabled = info_model(EntrypointState::Disabled);
            &&& says(running, "state"@, Model::Text("running"@))
            &&& says(running, "pid"@, Model::Integer(pid as int))
            &&& says(failed, "state"@, Model::Text("failed"@))
            &&& says(failed, "code"@, Model::Integer(failure.code as int))
            &&& says(failed, "message"@, Model::Text(failure.message@))
            &&& says(disabled, "state"@, Model::Text("disabled"@))
        }),
{
    reveal_strlit("state");
    reveal_strlit("pid");
    reveal_strlit("code");
    reveal_strlit("message");
    assert("state"@.len() == 5);
    assert("pid"@.len() == 3);
    assert("code"@.len() == 4);
    assert("message"@.len() == 7);
    fields2(
        "state"@,
        Model::Text("running"@),
        "pid"@,
        Model::Integer(pid as int),
    );
    fields3(
        "state"@,
        Model::Text("failed"@),
        "code"@,
        Model::Integer(failure.code as int),
        "message"@,
        Model::Text(failure.message@),
    );
    fields1(
        "state"@,
        Model::Text("disabled"@),
    );
}

/// The creation of a sandbox is complete where no process is asked for or it
/// runs. It fails with the failure of the process, or with its end.
pub proof fn creations_are_judged(m: Manager, probe: Probe, codes: ErrorCodes)
    requires
        !m.create_completed,
    ensures
        m.state is Disabled ==> create_failure(m, probe, codes) is None,
        m.state is Running && probe is Running ==> create_failure(m, probe, codes) is None,
        m.state is Running && !(probe is Running) ==> create_failure(m, probe, codes) is Some
            && (create_failure(m, probe, codes)->0).0 == codes.user_function_exception,
        m.state is Exited ==> create_failure(m, probe, codes) is Some && (create_failure(
            m,
            probe,
            codes,
        )->0).0 == codes.user_function_exception,
        m.state matches EntrypointState::Failed(f) ==> create_failure(m, probe, codes) == Some(
            (f.code, f.message@),
        ),
{
}

/// Of what a process printed the end is kept, up to a size.
pub proof fn tails_are_ends(s: Seq<u8>, max: nat)
    ensures
        s.len() <= max ==> last_bytes(s, max) == s,
        s.len() > max ==> last_bytes(s, max).len() == max,
        last_bytes(s, max) == s.skip(s.len() - last_bytes(s, max).len()),
{
    assert(s.skip(0) =~= s);
}

/// It makes no difference whether the end is taken piece by piece or at once.
pub proof fn tails_of_pieces(a: Seq<u8>, b: Seq<u8>, max: nat)
    ensures
        last_bytes(last_bytes(a, max) + b, max) == last_bytes(a + b, max),
{
    assert(last_bytes(last_bytes(a, max) + b, max) =~= last_bytes(a + b, max));
}

/// The end of a process as JSON has each value under its own name.
pub proof fn ends_are_written(info: ExitModel)
    ensures
        exit_json_text(info) == "{"@ + (written_field("type"@, json_string(info.kind))
            + ","@ + written_field("pid"@, decimal(info.pid as nat))
            + ","@ + written_field("status_kind"@, json_string(info.status_kind))
            + ","@ + written_field("exit_code"@, opt_int_text(info.exit_code))
            + ","@ + written_field("signal"@, opt_int_text(info.signal))
            + ","@ + written_field("signal_name"@, opt_json_string(info.signal_name))
            + ","@ + written_field("shell_exit_code"@, signed_decimal(info.shell_exit_code as int))
            + ","@ + written_field("core_dumped"@, bool_text(info.core_dumped))
            + ","@ + written_field("started_at"@, decimal(info.started_at as nat))
            + ","@ + written_field("exited_at"@, decimal(info.exited_at as nat))
            + ","@ + written_field("runtime_ms"@, decimal(info.runtime_ms as nat))
            + ","@ + written_field("stderr_tail"@, json_string(info.stderr_tail))
            + ","@ + written_field("message"@, json_string(info.message))) + "}"@,
{
    reveal_with_fuel(json_fields, 15);
}

/// Numbers and texts that are not there are written as `null`.
pub proof fn absent_values_are_written(n: i32, s: Seq<char>)
    ensures
        opt_int_text(Some(n)) == signed_decimal(n as int),
        opt_int_text(None) == "null"@,
        opt_json_string(Some(s)) == json_string(s),
        opt_json_string(None) == "null"@,
        bool_text(true) == "true"@,
        bool_text(false) == "false"@,
{
}

} // verus!
