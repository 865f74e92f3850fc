//! The names of actions: which name stands for which action.
use crate::dispatch::{action_of, aliases, all_actions, among, method_action, RuntimeAction};
use vstd::prelude::*;

verus! {

/// The length of a method's name, and two of its characters.
spec fn mark(a: RuntimeAction) -> (nat, char, char) {
    match a {
        RuntimeAction::CmdRun => (7nat, 'r', 'u'),
        RuntimeAction::CmdStart => (9nat, 's', 't'),
        RuntimeAction::CmdPoll => (8nat, 'p', 'o'),
        RuntimeAction::CmdWait => (8nat, 'w', 'a'),
        RuntimeAction::CmdKill => (8nat, 'k', 'i'),
        RuntimeAction::CmdList => (8nat, 'l', 'i'),
        RuntimeAction::CmdSendStdin => (14nat, 's', 'e'),
        RuntimeAction::EntrypointPoll => (15nat, 'y', 'p'),
        RuntimeAction::FsRead => (7nat, 'e', 'a'),
        RuntimeAction::FsWrite => (8nat, 'r', 'i'),
        RuntimeAction::FsWriteChunk => (14nat, 'r', 'i'),
        RuntimeAction::FsReadChunk => (13nat, 'e', 'a'),
        RuntimeAction::FsList => (7nat, 'i', 's'),
        RuntimeAction::FsExists => (9nat, 'x', 'i'),
        RuntimeAction::FsRemove => (9nat, 'e', 'm'),
        RuntimeAction::FsRename => (9nat, 'e', 'n'),
        RuntimeAction::FsMakeDir => (11nat, 'a', 'k'),
        RuntimeAction::FsGetInfo => (11nat, 'e', 't'),
        RuntimeAction::BashInit => (9nat, '_', 'i'),
        RuntimeAction::BashSubmit => (11nat, '_', 's'),
        RuntimeAction::BashPoll => (9nat, '_', 'p'),
        RuntimeAction::BashDestroy => (12nat, '_', 'd'),
    }
}

proof fn method_marks(a: RuntimeAction)
    ensures
        a.method().len() >= 7,
        !a.method().contains('.'),
        a.method() != "exec"@,
        (a.method().len(), a.method()[4], a.method()[5]) == mark(a),
{
    reveal_strlit("exec");
    assert("exec"@.len() == 4);
    match a {
        RuntimeAction::CmdRun => {
            reveal_strlit("cmd_run");
        },
        RuntimeAction::CmdStart => {
            reveal_strlit("cmd_start");
        },
        RuntimeAction::CmdPoll => {
            reveal_strlit("cmd_poll");
        },
        RuntimeAction::CmdWait => {
            reveal_strlit("cmd_wait");
        },
        RuntimeAction::CmdKill => {
            reveal_strlit("cmd_kill");
        },
        RuntimeAction::CmdList => {
            reveal_strlit("cmd_list");
        },
        RuntimeAction::CmdSendStdin => {
            reveal_strlit("cmd_send_stdin");
        },
        RuntimeAction::EntrypointPoll => {
            reveal_strlit("entrypoint_poll");
        },
        RuntimeAction::FsRead => {
            reveal_strlit("fs_read");
        },
        RuntimeAction::FsWrite => {
            reveal_strlit("fs_write");
        },
        RuntimeAction::FsWriteChunk => {
            reveal_strlit("fs_write_chunk");
        },
        RuntimeAction::FsReadChunk => {
            reveal_strlit("fs_read_chunk");
        },
        RuntimeAction::FsList => {
            reveal_strlit("fs_list");
        },
        RuntimeAction::FsExists => {
            reveal_strlit("fs_exists");
        },
        RuntimeAction::FsRemove => {
            reveal_strlit("fs_remove");
        },
        RuntimeAction::FsRename => {
            reveal_strlit("fs_rename");
        },
        RuntimeAction::FsMakeDir => {
            reveal_strlit("fs_make_dir");
        },
        RuntimeAction::FsGetInfo => {
            reveal_strlit("fs_get_info");
        },
        RuntimeAction::BashInit => {
            reveal_strlit("bash_init");
        },
        RuntimeAction::BashSubmit => {
            reveal_strlit("bash_submit");
        },
        RuntimeAction::BashPoll => {
            reveal_strlit("bash_poll");
        },
        RuntimeAction::BashDestroy => {
            reveal_strlit("bash_destroy");
        },
    }
}

proof fn alias_forms(a: RuntimeAction, i: int)
    requires
        0 <= i < aliases(a).len(),
    ensures
        aliases(a)[i] == a.method() || aliases(a)[i].contains('.') || aliases(a)[i] == "exec"@,
{
    reveal_strlit("exec");
    assert("exec"@.len() == 4);
    match a {
        RuntimeAction::CmdRun => {
            reveal_strlit("cmd_run");
            reveal_strlit("process.exec");
            assert("process.exec"@[7] == '.');
            reveal_strlit("process.run");
            assert("process.run"@[7] == '.');
            reveal_strlit("cmd.run");
            assert("cmd.run"@[3] == '.');
        },
        RuntimeAction::CmdStart => {
            reveal_strlit("cmd_start");
            reveal_strlit("process.start");
            assert("process.start"@[7] == '.');
            reveal_strlit("cmd.start");
            assert("cmd.start"@[3] == '.');
        },
        RuntimeAction::CmdPoll => {
            reveal_strlit("cmd_poll");
            reveal_strlit("process.poll");
            assert("process.poll"@[7] == '.');
            reveal_strlit("cmd.poll");
            assert("cmd.poll"@[3] == '.');
        },
        RuntimeAction::CmdWait => {
            reveal_strlit("cmd_wait");
            reveal_strlit("process.wait");
            assert("process.wait"@[7] == '.');
            reveal_strlit("cmd.wait");
            assert("cmd.wait"@[3] == '.');
        },
        RuntimeAction::CmdKill => {
            reveal_strlit("cmd_kill");
            reveal_strlit("process.kill");
            assert("process.kill"@[7] == '.');
            reveal_strlit("cmd.kill");
            assert("cmd.kill"@[3] == '.');
        },
        RuntimeAction::CmdList => {
            reveal_strlit("cmd_list");
            reveal_strlit("process.list");
            assert("process.list"@[7] == '.');
            reveal_strlit("cmd.list");
            assert("cmd.list"@[3] == '.');
        },
        RuntimeAction::CmdSendStdin => {
            reveal_strlit("cmd_send_stdin");
            reveal_strlit("process.stdin");
            assert("process.stdin"@[7] == '.');
            reveal_strlit("process.send_stdin");
            assert("process.send_stdin"@[7] == '.');
            reveal_strlit("cmd.send_stdin");
            assert("cmd.send_stdin"@[3] == '.');
        },
        RuntimeAction::EntrypointPoll => {
            reveal_strlit("entrypoint.poll");
            assert("entrypoint.poll"@[10] == '.');
        },
        RuntimeAction::FsRead => {
            reveal_strlit("fs_read");
            reveal_strlit("file.read");
            assert("file.read"@[4] == '.');
            reveal_strlit("fs.read");
            assert("fs.read"@[2] == '.');
        },
        RuntimeAction::FsWrite => {
            reveal_strlit("fs_write");
            reveal_strlit("file.write");
            assert("file.write"@[4] == '.');
            reveal_strlit("fs.write");
            assert("fs.write"@[2] == '.');
        },
        RuntimeAction::FsWriteChunk => {
            reveal_strlit("fs_write_chunk");
            reveal_strlit("file.write_chunk");
            assert("file.write_chunk"@[4] == '.');
            reveal_strlit("file.upload.chunk");
            assert("file.upload.chunk"@[4] == '.');
            reveal_strlit("fs.write_chunk");
            assert("fs.write_chunk"@[2] == '.');
        },
        RuntimeAction::FsReadChunk => {
            reveal_strlit("fs_read_chunk");
            reveal_strlit("file.read_chunk");
            assert("file.read_chunk"@[4] == '.');
            reveal_strlit("file.download.chunk");
            assert("file.download.chunk"@[4] == '.');
            reveal_strlit("fs.read_chunk");
            assert("fs.read_chunk"@[2] == '.');
        },
        RuntimeAction::FsList => {
            reveal_strlit("fs_list");
            reveal_strlit("file.list");
            assert("file.list"@[4] == '.');
            reveal_strlit("fs.list");
            assert("fs.list"@[2] == '.');
        },
        RuntimeAction::FsExists => {
            reveal_strlit("fs_exists");
            reveal_strlit("file.exists");
            assert("file.exists"@[4] == '.');
            reveal_strlit("fs.exists");
            assert("fs.exists"@[2] == '.');
        },
        RuntimeAction::FsRemove => {
            reveal_strlit("fs_remove");
            reveal_strlit("file.remove");
            assert("file.remove"@[4] == '.');
            reveal_strlit("fs.remove");
            assert("fs.remove"@[2] == '.');
        },
        RuntimeAction::FsRename => {
            reveal_strlit("fs_rename");
            reveal_strlit("file.rename");
            assert("file.rename"@[4] == '.');
            reveal_strlit("fs.rename");
            assert("fs.rename"@[2] == '.');
        },
        RuntimeAction::FsMakeDir => {
            reveal_strlit("fs_make_dir");
            reveal_strlit("file.mkdir");
            assert("file.mkdir"@[4] == '.');
            reveal_strlit("file.make_dir");
            assert("file.make_dir"@[4] == '.');
            reveal_strlit("fs.mkdir");
            assert("fs.mkdir"@[2] == '.');
            reveal_strlit("fs.make_dir");
            assert("fs.make_dir"@[2] == '.');
        },
        RuntimeAction::FsGetInfo => {
            reveal_strlit("fs_get_info");
            reveal_strlit("file.stat");
            assert("file.stat"@[4] == '.');
            reveal_strlit("file.info");
            assert("file.info"@[4] == '.');
            reveal_strlit("fs.stat");
            assert("fs.stat"@[2] == '.');
            reveal_strlit("fs.get_info");
            assert("fs.get_info"@[2] == '.');
        },
        RuntimeAction::BashInit => {
            reveal_strlit("bash_init");
            reveal_strlit("shell.create");
            assert("shell.create"@[5] == '.');
            reveal_strlit("shell.init");
            assert("shell.init"@[5] == '.');
        },
        RuntimeAction::BashSubmit => {
            reveal_strlit("bash_submit");
            reveal_strlit("shell.run");
            assert("shell.run"@[5] == '.');
            reveal_strlit("shell.submit");
            assert("shell.submit"@[5] == '.');
        },
        RuntimeAction::BashPoll => {
            reveal_strlit("bash_poll");
            reveal_strlit("shell.poll");
            assert("shell.poll"@[5] == '.');
        },
        RuntimeAction::BashDestroy => {
            reveal_strlit("bash_destroy");
            reveal_strlit("shell.delete");
            assert("shell.delete"@[5] == '.');
            reveal_strlit("shell.destroy");
            assert("shell.destroy"@[5] == '.');
            reveal_strlit("shell.close");
            assert("shell.close"@[5] == '.');
        },
    }
}

/// No two actions share a method.
pub proof fn methods_differ(a: RuntimeAction, b: RuntimeAction)
    requires
        a.method() == b.method(),
    ensures
        a == b,
{
    method_marks(a);
    method_marks(b);
}

proof fn method_alias(a: RuntimeAction, b: RuntimeAction)
    requires
        among(a.method(), aliases(b)),
    ensures
        a == b,
{
    let list = aliases(b);
    let i = choose|i: int| 0 <= i < list.len() && list[i] == a.method();
    alias_forms(b, i);
    method_marks(a);
    if list[i] == b.method() {
        methods_differ(a, b);
    }
}

proof fn listed(a: RuntimeAction) -> (k: int)
    ensures
        0 <= k < all_actions().len(),
        all_actions()[k] == a,
{
    match a {
        RuntimeAction::CmdRun => 0int,
        RuntimeAction::CmdStart => 1int,
        RuntimeAction::CmdPoll => 2int,
        RuntimeAction::CmdWait => 3int,
        RuntimeAction::CmdKill => 4int,
        RuntimeAction::CmdList => 5int,
        RuntimeAction::CmdSendStdin => 6int,
        RuntimeAction::EntrypointPoll => 7int,
        RuntimeAction::FsRead => 8int,
        RuntimeAction::FsWrite => 9int,
        RuntimeAction::FsWriteChunk => 10int,
        RuntimeAction::FsReadChunk => 11int,
        RuntimeAction::FsList => 12int,
        RuntimeAction::FsExists => 13int,
        RuntimeAction::FsRemove => 14int,
        RuntimeAction::FsRename => 15int,
        RuntimeAction::FsMakeDir => 16int,
        RuntimeAction::FsGetInfo => 17int,
        RuntimeAction::BashInit => 18int,
        RuntimeAction::BashSubmit => 19int,
        RuntimeAction::BashPoll => 20int,
        RuntimeAction::BashDestroy => 21int,
    }
}

proof fn found_from(a: RuntimeAction, from: int, k: int)
    requires
        a != RuntimeAction::EntrypointPoll,
        0 <= from <= k < all_actions().len(),
        all_actions()[k] == a,
    ensures
        action_of(a.method(), from) == Some(a),
        method_action(a.method(), from) == Some(a),
    decreases k - from,
{
    let b = all_actions()[from];
    assert(aliases(a)[0] == a.method());
    assert(aliases(a).contains(a.method()));
    if among(a.method(), aliases(b)) {
        method_alias(a, b);
    }
    if a.method() == b.method() {
        methods_differ(a, b);
    }
    if b != a {
        found_from(a, from + 1, k);
    }
}

/// The name of a method stands for its own action, in a public request and in
/// a call: normalizing a normalized name changes nothing. The poll of the
/// image's process is the exception: a public request names it otherwise.
pub proof fn method_names_are_fixed(a: RuntimeAction)
    requires
        a != RuntimeAction::EntrypointPoll,
    ensures
        action_of(a.method(), 0) == Some(a),
        method_action(a.method(), 0) == Some(a),
{
    let k = listed(a);
    found_from(a, 0, k);
}

} // verus!
