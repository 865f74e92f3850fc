//! Laws of the names of actions.
use crate::dispatch::{action_of, aliases, all_actions, among, method_action, RuntimeAction};
use vstd::prelude::*;

verus! {

spec fn at(s: Seq<char>, i: int) -> int {
    if 0 <= i < s.len() {
        s[i] as int
    } else {
        0
    }
}

/// A number by which names are told apart.
spec fn mark(s: Seq<char>) -> int {
    s.len() + 100 * at(s, 2) + 100_000 * at(s, 3) + 100_000_000 * at(s, 10) + 100_000_000_000 * at(
        s,
        s.len() - 4,
    )
}

spec fn owner(n: int) -> Option<RuntimeAction> {
    if n == 9500009510007 || n == 10100009910104 || n == 10110109911112 || n == 4611009911111 || n == 4600004610007 {
        Some(RuntimeAction::CmdRun)
    } else if n == 11600009510009 || n == 11609709911113 || n == 11600004610009 {
        Some(RuntimeAction::CmdStart)
    } else if n == 11200009510008 || n == 11210809911112 || n == 11200004610008 {
        Some(RuntimeAction::CmdPoll)
    } else if n == 11900009510008 || n == 11910509911112 || n == 11900004610008 {
        Some(RuntimeAction::CmdWait)
    } else if n == 10700009510008 || n == 10710809911112 || n == 10700004610008 {
        Some(RuntimeAction::CmdKill)
    } else if n == 10800009510008 || n == 10811509911112 || n == 10800004610008 {
        Some(RuntimeAction::CmdList)
    } else if n == 11611609510014 || n == 11610009911113 || n == 11611009911118 || n == 11611604610014 {
        Some(RuntimeAction::CmdSendStdin)
    } else if n == 11204611411615 {
        Some(RuntimeAction::EntrypointPoll)
    } else if n == 11400011409507 || n == 11400010110809 || n == 11400011404607 {
        Some(RuntimeAction::FsRead)
    } else if n == 11400011909508 || n == 11400010110810 || n == 11400011904608 {
        Some(RuntimeAction::FsWrite)
    } else if n == 10410411909514 || n == 10409510110816 || n == 10410010110817 || n == 10410411904614 {
        Some(RuntimeAction::FsWriteChunk)
    } else if n == 10411711409513 || n == 10409910110815 || n == 10411110110819 || n == 10411711404613 {
        Some(RuntimeAction::FsReadChunk)
    } else if n == 10800010809507 || n == 10800010110809 || n == 10800010804607 {
        Some(RuntimeAction::FsList)
    } else if n == 10500010109509 || n == 10511510110811 || n == 10500010104609 {
        Some(RuntimeAction::FsExists)
    } else if n == 10900011409509 || n == 10910110110811 || n == 10900011404609 {
        Some(RuntimeAction::FsRemove)
    } else if n == 11000011409509 || n == 11010110110811 || n == 11000011404609 {
        Some(RuntimeAction::FsRename)
    } else if n == 9511410909511 || n == 10700010110810 || n == 9510010110813 || n == 10700010904608 || n == 9511410904611 {
        Some(RuntimeAction::FsMakeDir)
    } else if n == 10511110309511 || n == 11500010110809 || n == 10500010110809 || n == 11500011504607 || n == 10511110304611 {
        Some(RuntimeAction::FsGetInfo)
    } else if n == 10500010411509 || n == 10111610810112 || n == 10500010810110 {
        Some(RuntimeAction::BashInit)
    } else if n == 9811610411511 || n == 4600010810109 || n == 9810510810112 {
        Some(RuntimeAction::BashSubmit)
    } else if n == 11200010411509 || n == 11200010810110 {
        Some(RuntimeAction::BashPoll)
    } else if n == 11611110411512 || n == 10811610810112 || n == 11611410810113 || n == 10810110810111 {
        Some(RuntimeAction::BashDestroy)
    } else {
        None
    }
}

proof fn cmd_run_names()
    ensures
        aliases(RuntimeAction::CmdRun).len() == 5,
        aliases(RuntimeAction::CmdRun)[0] == "cmd_run"@,
        owner(mark("cmd_run"@)) == Some(RuntimeAction::CmdRun),
        aliases(RuntimeAction::CmdRun)[1] == "exec"@,
        owner(mark("exec"@)) == Some(RuntimeAction::CmdRun),
        aliases(RuntimeAction::CmdRun)[2] == "process.exec"@,
        owner(mark("process.exec"@)) == Some(RuntimeAction::CmdRun),
        aliases(RuntimeAction::CmdRun)[3] == "process.run"@,
        owner(mark("process.run"@)) == Some(RuntimeAction::CmdRun),
        aliases(RuntimeAction::CmdRun)[4] == "cmd.run"@,
        owner(mark("cmd.run"@)) == Some(RuntimeAction::CmdRun),
{
    let all = aliases(RuntimeAction::CmdRun);
    reveal_strlit("cmd_run");
    assert(all[0] == "cmd_run"@);
    assert(mark("cmd_run"@) == 9500009510007);
    reveal_strlit("exec");
    assert(all[1] == "exec"@);
    assert(mark("exec"@) == 10100009910104);
    reveal_strlit("process.exec");
    assert(all[2] == "process.exec"@);
    assert(mark("process.exec"@) == 10110109911112);
    reveal_strlit("process.run");
    assert(all[3] == "process.run"@);
    assert(mark("process.run"@) == 4611009911111);
    reveal_strlit("cmd.run");
    assert(all[4] == "cmd.run"@);
    assert(mark("cmd.run"@) == 4600004610007);
}

proof fn cmd_start_names()
    ensures
        aliases(RuntimeAction::CmdStart).len() == 3,
        aliases(RuntimeAction::CmdStart)[0] == "cmd_start"@,
        owner(mark("cmd_start"@)) == Some(RuntimeAction::CmdStart),
        aliases(RuntimeAction::CmdStart)[1] == "process.start"@,
        owner(mark("process.start"@)) == Some(RuntimeAction::CmdStart),
        aliases(RuntimeAction::CmdStart)[2] == "cmd.start"@,
        owner(mark("cmd.start"@)) == Some(RuntimeAction::CmdStart),
{
    let all = aliases(RuntimeAction::CmdStart);
    reveal_strlit("cmd_start");
    assert(all[0] == "cmd_start"@);
    assert(mark("cmd_start"@) == 11600009510009);
    reveal_strlit("process.start");
    assert(all[1] == "process.start"@);
    assert(mark("process.start"@) == 11609709911113);
    reveal_strlit("cmd.start");
    assert(all[2] == "cmd.start"@);
    assert(mark("cmd.start"@) == 11600004610009);
}

proof fn cmd_poll_names()
    ensures
        aliases(RuntimeAction::CmdPoll).len() == 3,
        aliases(RuntimeAction::CmdPoll)[0] == "cmd_poll"@,
        owner(mark("cmd_poll"@)) == Some(RuntimeAction::CmdPoll),
        aliases(RuntimeAction::CmdPoll)[1] == "process.poll"@,
        owner(mark("process.poll"@)) == Some(RuntimeAction::CmdPoll),
        aliases(RuntimeAction::CmdPoll)[2] == "cmd.poll"@,
        owner(mark("cmd.poll"@)) == Some(RuntimeAction::CmdPoll),
{
    let all = aliases(RuntimeAction::CmdPoll);
    reveal_strlit("cmd_poll");
    assert(all[0] == "cmd_poll"@);
    assert(mark("cmd_poll"@) == 11200009510008);
    reveal_strlit("process.poll");
    assert(all[1] == "process.poll"@);
    assert(mark("process.poll"@) == 11210809911112);
    reveal_strlit("cmd.poll");
    assert(all[2] == "cmd.poll"@);
    assert(mark("cmd.poll"@) == 11200004610008);
}

proof fn cmd_wait_names()
    ensures
        aliases(RuntimeAction::CmdWait).len() == 3,
        aliases(RuntimeAction::CmdWait)[0] == "cmd_wait"@,
        owner(mark("cmd_wait"@)) == Some(RuntimeAction::CmdWait),
        aliases(RuntimeAction::CmdWait)[1] == "process.wait"@,
        owner(mark("process.wait"@)) == Some(RuntimeAction::CmdWait),
        aliases(RuntimeAction::CmdWait)[2] == "cmd.wait"@,
        owner(mark("cmd.wait"@)) == Some(RuntimeAction::CmdWait),
{
    let all = aliases(RuntimeAction::CmdWait);
    reveal_strlit("cmd_wait");
    assert(all[0] == "cmd_wait"@);
    assert(mark("cmd_wait"@) == 11900009510008);
    reveal_strlit("process.wait");
    assert(all[1] == "process.wait"@);
    assert(mark("process.wait"@) == 11910509911112);
    reveal_strlit("cmd.wait");
    assert(all[2] == "cmd.wait"@);
    assert(mark("cmd.wait"@) == 11900004610008);
}

proof fn cmd_kill_names()
    ensures
        aliases(RuntimeAction::CmdKill).len() == 3,
        aliases(RuntimeAction::CmdKill)[0] == "cmd_kill"@,
        owner(mark("cmd_kill"@)) == Some(RuntimeAction::CmdKill),
        aliases(RuntimeAction::CmdKill)[1] == "process.kill"@,
        owner(mark("process.kill"@)) == Some(RuntimeAction::CmdKill),
        aliases(RuntimeAction::CmdKill)[2] == "cmd.kill"@,
        owner(mark("cmd.kill"@)) == Some(RuntimeAction::CmdKill),
{
    let all = aliases(RuntimeAction::CmdKill);
    reveal_strlit("cmd_kill");
    assert(all[0] == "cmd_kill"@);
    assert(mark("cmd_kill"@) == 10700009510008);
    reveal_strlit("process.kill");
    assert(all[1] == "process.kill"@);
    assert(mark("process.kill"@) == 10710809911112);
    reveal_strlit("cmd.kill");
    assert(all[2] == "cmd.kill"@);
    assert(mark("cmd.kill"@) == 10700004610008);
}

proof fn cmd_list_names()
    ensures
        aliases(RuntimeAction::CmdList).len() == 3,
        aliases(RuntimeAction::CmdList)[0] == "cmd_list"@,
        owner(mark("cmd_list"@)) == Some(RuntimeAction::CmdList),
        aliases(RuntimeAction::CmdList)[1] == "process.list"@,
        owner(mark("process.list"@)) == Some(RuntimeAction::CmdList),
        aliases(RuntimeAction::CmdList)[2] == "cmd.list"@,
        owner(mark("cmd.list"@)) == Some(RuntimeAction::CmdList),
{
    let all = aliases(RuntimeAction::CmdList);
    reveal_strlit("cmd_list");
    assert(all[0] == "cmd_list"@);
    assert(mark("cmd_list"@) == 10800009510008);
    reveal_strlit("process.list");
    assert(all[1] == "process.list"@);
    assert(mark("process.list"@) == 10811509911112);
    reveal_strlit("cmd.list");
    assert(all[2] == "cmd.list"@);
    assert(mark("cmd.list"@) == 10800004610008);
}

proof fn cmd_send_stdin_names()
    ensures
        aliases(RuntimeAction::CmdSendStdin).len() == 4,
        aliases(RuntimeAction::CmdSendStdin)[0] == "cmd_send_stdin"@,
        owner(mark("cmd_send_stdin"@)) == Some(RuntimeAction::CmdSendStdin),
        aliases(RuntimeAction::CmdSendStdin)[1] == "process.stdin"@,
        owner(mark("process.stdin"@)) == Some(RuntimeAction::CmdSendStdin),
        aliases(RuntimeAction::CmdSendStdin)[2] == "process.send_stdin"@,
        owner(mark("process.send_stdin"@)) == Some(RuntimeAction::CmdSendStdin),
        aliases(RuntimeAction::CmdSendStdin)[3] == "cmd.send_stdin"@,
        owner(mark("cmd.send_stdin"@)) == Some(RuntimeAction::CmdSendStdin),
{
    let all = aliases(RuntimeAction::CmdSendStdin);
    reveal_strlit("cmd_send_stdin");
    assert(all[0] == "cmd_send_stdin"@);
    assert(mark("cmd_send_stdin"@) == 11611609510014);
    reveal_strlit("process.stdin");
    assert(all[1] == "process.stdin"@);
    assert(mark("process.stdin"@) == 11610009911113);
    reveal_strlit("process.send_stdin");
    assert(all[2] == "process.send_stdin"@);
    assert(mark("process.send_stdin"@) == 11611009911118);
    reveal_strlit("cmd.send_stdin");
    assert(all[3] == "cmd.send_stdin"@);
    assert(mark("cmd.send_stdin"@) == 11611604610014);
}

proof fn entrypoint_poll_names()
    ensures
        aliases(RuntimeAction::EntrypointPoll).len() == 1,
        aliases(RuntimeAction::EntrypointPoll)[0] == "entrypoint.poll"@,
        owner(mark("entrypoint.poll"@)) == Some(RuntimeAction::EntrypointPoll),
{
    let all = aliases(RuntimeAction::EntrypointPoll);
    reveal_strlit("entrypoint.poll");
    assert(all[0] == "entrypoint.poll"@);
    assert(mark("entrypoint.poll"@) == 11204611411615);
}

proof fn fs_read_names()
    ensures
        aliases(RuntimeAction::FsRead).len() == 3,
        aliases(RuntimeAction::FsRead)[0] == "fs_read"@,
        owner(mark("fs_read"@)) == Some(RuntimeAction::FsRead),
        aliases(RuntimeAction::FsRead)[1] == "file.read"@,
        owner(mark("file.read"@)) == Some(RuntimeAction::FsRead),
        aliases(RuntimeAction::FsRead)[2] == "fs.read"@,
        owner(mark("fs.read"@)) == Some(RuntimeAction::FsRead),
{
    let all = aliases(RuntimeAction::FsRead);
    reveal_strlit("fs_read");
    assert(all[0] == "fs_read"@);
    assert(mark("fs_read"@) == 11400011409507);
    reveal_strlit("file.read");
    assert(all[1] == "file.read"@);
    assert(mark("file.read"@) == 11400010110809);
    reveal_strlit("fs.read");
    assert(all[2] == "fs.read"@);
    assert(mark("fs.read"@) == 11400011404607);
}

proof fn fs_write_names()
    ensures
        aliases(RuntimeAction::FsWrite).len() == 3,
        aliases(RuntimeAction::FsWrite)[0] == "fs_write"@,
        owner(mark("fs_write"@)) == Some(RuntimeAction::FsWrite),
        aliases(RuntimeAction::FsWrite)[1] == "file.write"@,
        owner(mark("file.write"@)) == Some(RuntimeAction::FsWrite),
        aliases(RuntimeAction::FsWrite)[2] == "fs.write"@,
        owner(mark("fs.write"@)) == Some(RuntimeAction::FsWrite),
{
    let all = aliases(RuntimeAction::FsWrite);
    reveal_strlit("fs_write");
    assert(all[0] == "fs_write"@);
    assert(mark("fs_write"@) == 11400011909508);
    reveal_strlit("file.write");
    assert(all[1] == "file.write"@);
    assert(mark("file.write"@) == 11400010110810);
    reveal_strlit("fs.write");
    assert(all[2] == "fs.write"@);
    assert(mark("fs.write"@) == 11400011904608);
}

proof fn fs_write_chunk_names()
    ensures
        aliases(RuntimeAction::FsWriteChunk).len() == 4,
        aliases(RuntimeAction::FsWriteChunk)[0] == "fs_write_chunk"@,
        owner(mark("fs_write_chunk"@)) == Some(RuntimeAction::FsWriteChunk),
        aliases(RuntimeAction::FsWriteChunk)[1] == "file.write_chunk"@,
        owner(mark("file.write_chunk"@)) == Some(RuntimeAction::FsWriteChunk),
        aliases(RuntimeAction::FsWriteChunk)[2] == "file.upload.chunk"@,
        owner(mark("file.upload.chunk"@)) == Some(RuntimeAction::FsWriteChunk),
        aliases(RuntimeAction::FsWriteChunk)[3] == "fs.write_chunk"@,
        owner(mark("fs.write_chunk"@)) == Some(RuntimeAction::FsWriteChunk),
{
    let all = aliases(RuntimeAction::FsWriteChunk);
    reveal_strlit("fs_write_chunk");
    assert(all[0] == "fs_write_chunk"@);
    assert(mark("fs_write_chunk"@) == 10410411909514);
    reveal_strlit("file.write_chunk");
    assert(all[1] == "file.write_chunk"@);
    assert(mark("file.write_chunk"@) == 10409510110816);
    reveal_strlit("file.upload.chunk");
    assert(all[2] == "file.upload.chunk"@);
    assert(mark("file.upload.chunk"@) == 10410010110817);
    reveal_strlit("fs.write_chunk");
    assert(all[3] == "fs.write_chunk"@);
    assert(mark("fs.write_chunk"@) == 10410411904614);
}

proof fn fs_read_chunk_names()
    ensures
        aliases(RuntimeAction::FsReadChunk).len() == 4,
        aliases(RuntimeAction::FsReadChunk)[0] == "fs_read_chunk"@,
        owner(mark("fs_read_chunk"@)) == Some(RuntimeAction::FsReadChunk),
        aliases(RuntimeAction::FsReadChunk)[1] == "file.read_chunk"@,
        owner(mark("file.read_chunk"@)) == Some(RuntimeAction::FsReadChunk),
        aliases(RuntimeAction::FsReadChunk)[2] == "file.download.chunk"@,
        owner(mark("file.download.chunk"@)) == Some(RuntimeAction::FsReadChunk),
        aliases(RuntimeAction::FsReadChunk)[3] == "fs.read_chunk"@,
        owner(mark("fs.read_chunk"@)) == Some(RuntimeAction::FsReadChunk),
{
    let all = aliases(RuntimeAction::FsReadChunk);
    reveal_strlit("fs_read_chunk");
    assert(all[0] == "fs_read_chunk"@);
    assert(mark("fs_read_chunk"@) == 10411711409513);
    reveal_strlit("file.read_chunk");
    assert(all[1] == "file.read_chunk"@);
    assert(mark("file.read_chunk"@) == 10409910110815);
    reveal_strlit("file.download.chunk");
    assert(all[2] == "file.download.chunk"@);
    assert(mark("file.download.chunk"@) == 10411110110819);
    reveal_strlit("fs.read_chunk");
    assert(all[3] == "fs.read_chunk"@);
    assert(mark("fs.read_chunk"@) == 10411711404613);
}

proof fn fs_list_names()
    ensures
        aliases(RuntimeAction::FsList).len() == 3,
        aliases(RuntimeAction::FsList)[0] == "fs_list"@,
        owner(mark("fs_list"@)) == Some(RuntimeAction::FsList),
        aliases(RuntimeAction::FsList)[1] == "file.list"@,
        owner(mark("file.list"@)) == Some(RuntimeAction::FsList),
        aliases(RuntimeAction::FsList)[2] == "fs.list"@,
        owner(mark("fs.list"@)) == Some(RuntimeAction::FsList),
{
    let all = aliases(RuntimeAction::FsList);
    reveal_strlit("fs_list");
    assert(all[0] == "fs_list"@);
    assert(mark("fs_list"@) == 10800010809507);
    reveal_strlit("file.list");
    assert(all[1] == "file.list"@);
    assert(mark("file.list"@) == 10800010110809);
    reveal_strlit("fs.list");
    assert(all[2] == "fs.list"@);
    assert(mark("fs.list"@) == 10800010804607);
}

proof fn fs_exists_names()
    ensures
        aliases(RuntimeAction::FsExists).len() == 3,
        aliases(RuntimeAction::FsExists)[0] == "fs_exists"@,
        owner(mark("fs_exists"@)) == Some(RuntimeAction::FsExists),
        aliases(RuntimeAction::FsExists)[1] == "file.exists"@,
        owner(mark("file.exists"@)) == Some(RuntimeAction::FsExists),
        aliases(RuntimeAction::FsExists)[2] == "fs.exists"@,
        owner(mark("fs.exists"@)) == Some(RuntimeAction::FsExists),
{
    let all = aliases(RuntimeAction::FsExists);
    reveal_strlit("fs_exists");
    assert(all[0] == "fs_exists"@);
    assert(mark("fs_exists"@) == 10500010109509);
    reveal_strlit("file.exists");
    assert(all[1] == "file.exists"@);
    assert(mark("file.exists"@) == 10511510110811);
    reveal_strlit("fs.exists");
    assert(all[2] == "fs.exists"@);
    assert(mark("fs.exists"@) == 10500010104609);
}

proof fn fs_remove_names()
    ensures
        aliases(RuntimeAction::FsRemove).len() == 3,
        aliases(RuntimeAction::FsRemove)[0] == "fs_remove"@,
        owner(mark("fs_remove"@)) == Some(RuntimeAction::FsRemove),
        aliases(RuntimeAction::FsRemove)[1] == "file.remove"@,
        owner(mark("file.remove"@)) == Some(RuntimeAction::FsRemove),
        aliases(RuntimeAction::FsRemove)[2] == "fs.remove"@,
        owner(mark("fs.remove"@)) == Some(RuntimeAction::FsRemove),
{
    let all = aliases(RuntimeAction::FsRemove);
    reveal_strlit("fs_remove");
    assert(all[0] == "fs_remove"@);
    assert(mark("fs_remove"@) == 10900011409509);
    reveal_strlit("file.remove");
    assert(all[1] == "file.remove"@);
    assert(mark("file.remove"@) == 10910110110811);
    reveal_strlit("fs.remove");
    assert(all[2] == "fs.remove"@);
    assert(mark("fs.remove"@) == 10900011404609);
}

proof fn fs_rename_names()
    ensures
        aliases(RuntimeAction::FsRename).len() == 3,
        aliases(RuntimeAction::FsRename)[0] == "fs_rename"@,
        owner(mark("fs_rename"@)) == Some(RuntimeAction::FsRename),
        aliases(RuntimeAction::FsRename)[1] == "file.rename"@,
        owner(mark("file.rename"@)) == Some(RuntimeAction::FsRename),
        aliases(RuntimeAction::FsRename)[2] == "fs.rename"@,
        owner(mark("fs.rename"@)) == Some(RuntimeAction::FsRename),
{
    let all = aliases(RuntimeAction::FsRename);
    reveal_strlit("fs_rename");
    assert(all[0] == "fs_rename"@);
    assert(mark("fs_rename"@) == 11000011409509);
    reveal_strlit("file.rename");
    assert(all[1] == "file.rename"@);
    assert(mark("file.rename"@) == 11010110110811);
    reveal_strlit("fs.rename");
    assert(all[2] == "fs.rename"@);
    assert(mark("fs.rename"@) == 11000011404609);
}

proof fn fs_make_dir_names()
    ensures
        aliases(RuntimeAction::FsMakeDir).len() == 5,
        aliases(RuntimeAction::FsMakeDir)[0] == "fs_make_dir"@,
        owner(mark("fs_make_dir"@)) == Some(RuntimeAction::FsMakeDir),
        aliases(RuntimeAction::FsMakeDir)[1] == "file.mkdir"@,
        owner(mark("file.mkdir"@)) == Some(RuntimeAction::FsMakeDir),
        aliases(RuntimeAction::FsMakeDir)[2] == "file.make_dir"@,
        owner(mark("file.make_dir"@)) == Some(RuntimeAction::FsMakeDir),
        aliases(RuntimeAction::FsMakeDir)[3] == "fs.mkdir"@,
        owner(mark("fs.mkdir"@)) == Some(RuntimeAction::FsMakeDir),
        aliases(RuntimeAction::FsMakeDir)[4] == "fs.make_dir"@,
        owner(mark("fs.make_dir"@)) == Some(RuntimeAction::FsMakeDir),
{
    let all = aliases(RuntimeAction::FsMakeDir);
    reveal_strlit("fs_make_dir");
    assert(all[0] == "fs_make_dir"@);
    assert(mark("fs_make_dir"@) == 9511410909511);
    reveal_strlit("file.mkdir");
    assert(all[1] == "file.mkdir"@);
    assert(mark("file.mkdir"@) == 10700010110810);
    reveal_strlit("file.make_dir");
    assert(all[2] == "file.make_dir"@);
    assert(mark("file.make_dir"@) == 9510010110813);
    reveal_strlit("fs.mkdir");
    assert(all[3] == "fs.mkdir"@);
    assert(mark("fs.mkdir"@) == 10700010904608);
    reveal_strlit("fs.make_dir");
    assert(all[4] == "fs.make_dir"@);
    assert(mark("fs.make_dir"@) == 9511410904611);
}

proof fn fs_get_info_names()
    ensures
        aliases(RuntimeAction::FsGetInfo).len() == 5,
        aliases(RuntimeAction::FsGetInfo)[0] == "fs_get_info"@,
        owner(mark("fs_get_info"@)) == Some(RuntimeAction::FsGetInfo),
        aliases(RuntimeAction::FsGetInfo)[1] == "file.stat"@,
        owner(mark("file.stat"@)) == Some(RuntimeAction::FsGetInfo),
        aliases(RuntimeAction::FsGetInfo)[2] == "file.info"@,
        owner(mark("file.info"@)) == Some(RuntimeAction::FsGetInfo),
        aliases(RuntimeAction::FsGetInfo)[3] == "fs.stat"@,
        owner(mark("fs.stat"@)) == Some(RuntimeAction::FsGetInfo),
        aliases(RuntimeAction::FsGetInfo)[4] == "fs.get_info"@,
        owner(mark("fs.get_info"@)) == Some(RuntimeAction::FsGetInfo),
{
    let all = aliases(RuntimeAction::FsGetInfo);
    reveal_strlit("fs_get_info");
    assert(all[0] == "fs_get_info"@);
    assert(mark("fs_get_info"@) == 10511110309511);
    reveal_strlit("file.stat");
    assert(all[1] == "file.stat"@);
    assert(mark("file.stat"@) == 11500010110809);
    reveal_strlit("file.info");
    assert(all[2] == "file.info"@);
    assert(mark("file.info"@) == 10500010110809);
    reveal_strlit("fs.stat");
    assert(all[3] == "fs.stat"@);
    assert(mark("fs.stat"@) == 11500011504607);
    reveal_strlit("fs.get_info");
    assert(all[4] == "fs.get_info"@);
    assert(mark("fs.get_info"@) == 10511110304611);
}

proof fn bash_init_names()
    ensures
        aliases(RuntimeAction::BashInit).len() == 3,
        aliases(RuntimeAction::BashInit)[0] == "bash_init"@,
        owner(mark("bash_init"@)) == Some(RuntimeAction::BashInit),
        aliases(RuntimeAction::BashInit)[1] == "shell.create"@,
        owner(mark("shell.create"@)) == Some(RuntimeAction::BashInit),
        aliases(RuntimeAction::BashInit)[2] == "shell.init"@,
        owner(mark("shell.init"@)) == Some(RuntimeAction::BashInit),
{
    let all = aliases(RuntimeAction::BashInit);
    reveal_strlit("bash_init");
    assert(all[0] == "bash_init"@);
    assert(mark("bash_init"@) == 10500010411509);
    reveal_strlit("shell.create");
    assert(all[1] == "shell.create"@);
    assert(mark("shell.create"@) == 10111610810112);
    reveal_strlit("shell.init");
    assert(all[2] == "shell.init"@);
    assert(mark("shell.init"@) == 10500010810110);
}

proof fn bash_submit_names()
    ensures
        aliases(RuntimeAction::BashSubmit).len() == 3,
        aliases(RuntimeAction::BashSubmit)[0] == "bash_submit"@,
        owner(mark("bash_submit"@)) == Some(RuntimeAction::BashSubmit),
        aliases(RuntimeAction::BashSubmit)[1] == "shell.run"@,
        owner(mark("shell.run"@)) == Some(RuntimeAction::BashSubmit),
        aliases(RuntimeAction::BashSubmit)[2] == "shell.submit"@,
        owner(mark("shell.submit"@)) == Some(RuntimeAction::BashSubmit),
{
    let all = aliases(RuntimeAction::BashSubmit);
    reveal_strlit("bash_submit");
    assert(all[0] == "bash_submit"@);
    assert(mark("bash_submit"@) == 9811610411511);
    reveal_strlit("shell.run");
    assert(all[1] == "shell.run"@);
    assert(mark("shell.run"@) == 4600010810109);
    reveal_strlit("shell.submit");
    assert(all[2] == "shell.submit"@);
    assert(mark("shell.submit"@) == 9810510810112);
}

proof fn bash_poll_names()
    ensures
        aliases(RuntimeAction::BashPoll).len() == 2,
        aliases(RuntimeAction::BashPoll)[0] == "bash_poll"@,
        owner(mark("bash_poll"@)) == Some(RuntimeAction::BashPoll),
        aliases(RuntimeAction::BashPoll)[1] == "shell.poll"@,
        owner(mark("shell.poll"@)) == Some(RuntimeAction::BashPoll),
{
    let all = aliases(RuntimeAction::BashPoll);
    reveal_strlit("bash_poll");
    assert(all[0] == "bash_poll"@);
    assert(mark("bash_poll"@) == 11200010411509);
    reveal_strlit("shell.poll");
    assert(all[1] == "shell.poll"@);
    assert(mark("shell.poll"@) == 11200010810110);
}

proof fn bash_destroy_names()
    ensures
        aliases(RuntimeAction::BashDestroy).len() == 4,
        aliases(RuntimeAction::BashDestroy)[0] == "bash_destroy"@,
        owner(mark("bash_destroy"@)) == Some(RuntimeAction::BashDestroy),
        aliases(RuntimeAction::BashDestroy)[1] == "shell.delete"@,
        owner(mark("shell.delete"@)) == Some(RuntimeAction::BashDestroy),
        aliases(RuntimeAction::BashDestroy)[2] == "shell.destroy"@,
        owner(mark("shell.destroy"@)) == Some(RuntimeAction::BashDestroy),
        aliases(RuntimeAction::BashDestroy)[3] == "shell.close"@,
        owner(mark("shell.close"@)) == Some(RuntimeAction::BashDestroy),
{
    let all = aliases(RuntimeAction::BashDestroy);
    reveal_strlit("bash_destroy");
    assert(all[0] == "bash_destroy"@);
    assert(mark("bash_destroy"@) == 11611110411512);
    reveal_strlit("shell.delete");
    assert(all[1] == "shell.delete"@);
    assert(mark("shell.delete"@) == 10811610810112);
    reveal_strlit("shell.destroy");
    assert(all[2] == "shell.destroy"@);
    assert(mark("shell.destroy"@) == 11611410810113);
    reveal_strlit("shell.close");
    assert(all[3] == "shell.close"@);
    assert(mark("shell.close"@) == 10810110810111);
}

proof fn names_have_one_owner(a: RuntimeAction, name: Seq<char>)
    requires
        among(name, aliases(a)),
    ensures
        owner(mark(name)) == Some(a),
{
    let all = aliases(a);
    let i = all.index_of(name);
    assert(all[i] == name);
    match a {
        RuntimeAction::CmdRun => {
            cmd_run_names();
            assert(i == 0 || i == 1 || i == 2 || i == 3 || i == 4);
        },
        RuntimeAction::CmdStart => {
            cmd_start_names();
            assert(i == 0 || i == 1 || i == 2);
        },
        RuntimeAction::CmdPoll => {
            cmd_poll_names();
            assert(i == 0 || i == 1 || i == 2);
        },
        RuntimeAction::CmdWait => {
            cmd_wait_names();
            assert(i == 0 || i == 1 || i == 2);
        },
        RuntimeAction::CmdKill => {
            cmd_kill_names();
            assert(i == 0 || i == 1 || i == 2);
        },
        RuntimeAction::CmdList => {
            cmd_list_names();
            assert(i == 0 || i == 1 || i == 2);
        },
        RuntimeAction::CmdSendStdin => {
            cmd_send_stdin_names();
            assert(i == 0 || i == 1 || i == 2 || i == 3);
        },
        RuntimeAction::EntrypointPoll => {
            entrypoint_poll_names();
            assert(i == 0);
        },
        RuntimeAction::FsRead => {
            fs_read_names();
            assert(i == 0 || i == 1 || i == 2);
        },
        RuntimeAction::FsWrite => {
            fs_write_names();
            assert(i == 0 || i == 1 || i == 2);
        },
        RuntimeAction::FsWriteChunk => {
            fs_write_chunk_names();
            assert(i == 0 || i == 1 || i == 2 || i == 3);
        },
        RuntimeAction::FsReadChunk => {
            fs_read_chunk_names();
            assert(i == 0 || i == 1 || i == 2 || i == 3);
        },
        RuntimeAction::FsList => {
            fs_list_names();
            assert(i == 0 || i == 1 || i == 2);
        },
        RuntimeAction::FsExists => {
            fs_exists_names();
            assert(i == 0 || i == 1 || i == 2);
        },
        RuntimeAction::FsRemove => {
            fs_remove_names();
            assert(i == 0 || i == 1 || i == 2);
        },
        RuntimeAction::FsRename => {
            fs_rename_names();
            assert(i == 0 || i == 1 || i == 2);
        },
        RuntimeAction::FsMakeDir => {
            fs_make_dir_names();
            assert(i == 0 || i == 1 || i == 2 || i == 3 || i == 4);
        },
        RuntimeAction::FsGetInfo => {
            fs_get_info_names();
            assert(i == 0 || i == 1 || i == 2 || i == 3 || i == 4);
        },
        RuntimeAction::BashInit => {
            bash_init_names();
            assert(i == 0 || i == 1 || i == 2);
        },
        RuntimeAction::BashSubmit => {
            bash_submit_names();
            assert(i == 0 || i == 1 || i == 2);
        },
        RuntimeAction::BashPoll => {
            bash_poll_names();
            assert(i == 0 || i == 1);
        },
        RuntimeAction::BashDestroy => {
            bash_destroy_names();
            assert(i == 0 || i == 1 || i == 2 || i == 3);
        },
    }
}

proof fn found_at(name: Seq<char>, a: RuntimeAction, from: int, k: int)
    requires
        among(name, aliases(a)),
        0 <= from <= k < all_actions().len(),
        all_actions()[k] == a,
    ensures
        action_of(name, from) == Some(a),
    decreases k - from,
{
    let b = all_actions()[from];
    names_have_one_owner(a, name);
    if among(name, aliases(b)) {
        names_have_one_owner(b, name);
    } else {
        found_at(name, a, from + 1, k);
    }
}

proof fn listed_at(a: RuntimeAction) -> (k: int)
    ensures
        0 <= k < all_actions().len(),
        all_actions()[k] == a,
{
    match a {
        RuntimeAction::CmdRun => 0int,
        RuntimeAction::CmdStart => 1int,
        RuntimeAction::CmdPoll => 2int,
        RuntimeAction::CmdWait => 3int,
        RuntimeAction::CmdKill => 4int,
        RuntimeAction::CmdList => 5int,
        RuntimeAction::CmdSendStdin => 6int,
        RuntimeAction::EntrypointPoll => 7int,
        RuntimeAction::FsRead => 8int,
        RuntimeAction::FsWrite => 9int,
        RuntimeAction::FsWriteChunk => 10int,
        RuntimeAction::FsReadChunk => 11int,
        RuntimeAction::FsList => 12int,
        RuntimeAction::FsExists => 13int,
        RuntimeAction::FsRemove => 14int,
        RuntimeAction::FsRename => 15int,
        RuntimeAction::FsMakeDir => 16int,
        RuntimeAction::FsGetInfo => 17int,
        RuntimeAction::BashInit => 18int,
        RuntimeAction::BashSubmit => 19int,
        RuntimeAction::BashPoll => 20int,
        RuntimeAction::BashDestroy => 21int,
    }
}

/// Every name of an action stands for that action and no other.
pub proof fn names_stand_for_one_action(name: Seq<char>, a: RuntimeAction)
    requires
        aliases(a).contains(name),
    ensures
        action_of(name, 0) == Some(a),
{
    let k = listed_at(a);
    found_at(name, a, 0, k);
}

proof fn alias_is_found(a: RuntimeAction, i: int)
    requires
        0 <= i < aliases(a).len(),
    ensures
        action_of(aliases(a)[i], 0) == Some(a),
{
    assert(aliases(a).contains(aliases(a)[i]));
    names_stand_for_one_action(aliases(a)[i], a);
}

/// The names of the actions on commands and processes.
pub proof fn command_names_are_known()
    ensures
        action_of("cmd_run"@, 0) == Some(RuntimeAction::CmdRun),
        action_of("exec"@, 0) == Some(RuntimeAction::CmdRun),
        action_of("process.exec"@, 0) == Some(RuntimeAction::CmdRun),
        action_of("process.run"@, 0) == Some(RuntimeAction::CmdRun),
        action_of("cmd.run"@, 0) == Some(RuntimeAction::CmdRun),
        action_of("cmd_start"@, 0) == Some(RuntimeAction::CmdStart),
        action_of("process.start"@, 0) == Some(RuntimeAction::CmdStart),
        action_of("cmd.start"@, 0) == Some(RuntimeAction::CmdStart),
        action_of("cmd_poll"@, 0) == Some(RuntimeAction::CmdPoll),
        action_of("process.poll"@, 0) == Some(RuntimeAction::CmdPoll),
        action_of("cmd.poll"@, 0) == Some(RuntimeAction::CmdPoll),
        action_of("cmd_wait"@, 0) == Some(RuntimeAction::CmdWait),
        action_of("process.wait"@, 0) == Some(RuntimeAction::CmdWait),
        action_of("cmd.wait"@, 0) == Some(RuntimeAction::CmdWait),
        action_of("cmd_kill"@, 0) == Some(RuntimeAction::CmdKill),
        action_of("process.kill"@, 0) == Some(RuntimeAction::CmdKill),
        action_of("cmd.kill"@, 0) == Some(RuntimeAction::CmdKill),
        action_of("cmd_list"@, 0) == Some(RuntimeAction::CmdList),
        action_of("process.list"@, 0) == Some(RuntimeAction::CmdList),
        action_of("cmd.list"@, 0) == Some(RuntimeAction::CmdList),
        action_of("cmd_send_stdin"@, 0) == Some(RuntimeAction::CmdSendStdin),
        action_of("process.stdin"@, 0) == Some(RuntimeAction::CmdSendStdin),
        action_of("process.send_stdin"@, 0) == Some(RuntimeAction::CmdSendStdin),
        action_of("cmd.send_stdin"@, 0) == Some(RuntimeAction::CmdSendStdin),
        action_of("entrypoint.poll"@, 0) == Some(RuntimeAction::EntrypointPoll),
{
    cmd_run_names();
    alias_is_found(RuntimeAction::CmdRun, 0);
    alias_is_found(RuntimeAction::CmdRun, 1);
    alias_is_found(RuntimeAction::CmdRun, 2);
    alias_is_found(RuntimeAction::CmdRun, 3);
    alias_is_found(RuntimeAction::CmdRun, 4);
    cmd_start_names();
    alias_is_found(RuntimeAction::CmdStart, 0);
    alias_is_found(RuntimeAction::CmdStart, 1);
    alias_is_found(RuntimeAction::CmdStart, 2);
    cmd_poll_names();
    alias_is_found(RuntimeAction::CmdPoll, 0);
    alias_is_found(RuntimeAction::CmdPoll, 1);
    alias_is_found(RuntimeAction::CmdPoll, 2);
    cmd_wait_names();
    alias_is_found(RuntimeAction::CmdWait, 0);
    alias_is_found(RuntimeAction::CmdWait, 1);
    alias_is_found(RuntimeAction::CmdWait, 2);
    cmd_kill_names();
    alias_is_found(RuntimeAction::CmdKill, 0);
    alias_is_found(RuntimeAction::CmdKill, 1);
    alias_is_found(RuntimeAction::CmdKill, 2);
    cmd_list_names();
    alias_is_found(RuntimeAction::CmdList, 0);
    alias_is_found(RuntimeAction::CmdList, 1);
    alias_is_found(RuntimeAction::CmdList, 2);
    cmd_send_stdin_names();
    alias_is_found(RuntimeAction::CmdSendStdin, 0);
    alias_is_found(RuntimeAction::CmdSendStdin, 1);
    alias_is_found(RuntimeAction::CmdSendStdin, 2);
    alias_is_found(RuntimeAction::CmdSendStdin, 3);
    entrypoint_poll_names();
    alias_is_found(RuntimeAction::EntrypointPoll, 0);
}

/// The names of the actions on files.
pub proof fn file_names_are_known()
    ensures
        action_of("fs_read"@, 0) == Some(RuntimeAction::FsRead),
        action_of("file.read"@, 0) == Some(RuntimeAction::FsRead),
        action_of("fs.read"@, 0) == Some(RuntimeAction::FsRead),
        action_of("fs_write"@, 0) == Some(RuntimeAction::FsWrite),
        action_of("file.write"@, 0) == Some(RuntimeAction::FsWrite),
        action_of("fs.write"@, 0) == Some(RuntimeAction::FsWrite),
        action_of("fs_write_chunk"@, 0) == Some(RuntimeAction::FsWriteChunk),
        action_of("file.write_chunk"@, 0) == Some(RuntimeAction::FsWriteChunk),
        action_of("file.upload.chunk"@, 0) == Some(RuntimeAction::FsWriteChunk),
        action_of("fs.write_chunk"@, 0) == Some(RuntimeAction::FsWriteChunk),
        action_of("fs_read_chunk"@, 0) == Some(RuntimeAction::FsReadChunk),
        action_of("file.read_chunk"@, 0) == Some(RuntimeAction::FsReadChunk),
        action_of("file.download.chunk"@, 0) == Some(RuntimeAction::FsReadChunk),
        action_of("fs.read_chunk"@, 0) == Some(RuntimeAction::FsReadChunk),
        action_of("fs_list"@, 0) == Some(RuntimeAction::FsList),
        action_of("file.list"@, 0) == Some(RuntimeAction::FsList),
        action_of("fs.list"@, 0) == Some(RuntimeAction::FsList),
        action_of("fs_exists"@, 0) == Some(RuntimeAction::FsExists),
        action_of("file.exists"@, 0) == Some(RuntimeAction::FsExists),
        action_of("fs.exists"@, 0) == Some(RuntimeAction::FsExists),
        action_of("fs_remove"@, 0) == Some(RuntimeAction::FsRemove),
        action_of("file.remove"@, 0) == Some(RuntimeAction::FsRemove),
        action_of("fs.remove"@, 0) == Some(RuntimeAction::FsRemove),
        action_of("fs_rename"@, 0) == Some(RuntimeAction::FsRename),
        action_of("file.rename"@, 0) == Some(RuntimeAction::FsRename),
        action_of("fs.rename"@, 0) == Some(RuntimeAction::FsRename),
        action_of("fs_make_dir"@, 0) == Some(RuntimeAction::FsMakeDir),
        action_of("file.mkdir"@, 0) == Some(RuntimeAction::FsMakeDir),
        action_of("file.make_dir"@, 0) == Some(RuntimeAction::FsMakeDir),
        action_of("fs.mkdir"@, 0) == Some(RuntimeAction::FsMakeDir),
        action_of("fs.make_dir"@, 0) == Some(RuntimeAction::FsMakeDir),
        action_of("fs_get_info"@, 0) == Some(RuntimeAction::FsGetInfo),
        action_of("file.stat"@, 0) == Some(RuntimeAction::FsGetInfo),
        action_of("file.info"@, 0) == Some(RuntimeAction::FsGetInfo),
        action_of("fs.stat"@, 0) == Some(RuntimeAction::FsGetInfo),
        action_of("fs.get_info"@, 0) == Some(RuntimeAction::FsGetInfo),
{
    fs_read_names();
    alias_is_found(RuntimeAction::FsRead, 0);
    alias_is_found(RuntimeAction::FsRead, 1);
    alias_is_found(RuntimeAction::FsRead, 2);
    fs_write_names();
    alias_is_found(RuntimeAction::FsWrite, 0);
    alias_is_found(RuntimeAction::FsWrite, 1);
    alias_is_found(RuntimeAction::FsWrite, 2);
    fs_write_chunk_names();
    alias_is_found(RuntimeAction::FsWriteChunk, 0);
    alias_is_found(RuntimeAction::FsWriteChunk, 1);
    alias_is_found(RuntimeAction::FsWriteChunk, 2);
    alias_is_found(RuntimeAction::FsWriteChunk, 3);
    fs_read_chunk_names();
    alias_is_found(RuntimeAction::FsReadChunk, 0);
    alias_is_found(RuntimeAction::FsReadChunk, 1);
    alias_is_found(RuntimeAction::FsReadChunk, 2);
    alias_is_found(RuntimeAction::FsReadChunk, 3);
    fs_list_names();
    alias_is_found(RuntimeAction::FsList, 0);
    alias_is_found(RuntimeAction::FsList, 1);
    alias_is_found(RuntimeAction::FsList, 2);
    fs_exists_names();
    alias_is_found(RuntimeAction::FsExists, 0);
    alias_is_found(RuntimeAction::FsExists, 1);
    alias_is_found(RuntimeAction::FsExists, 2);
    fs_remove_names();
    alias_is_found(RuntimeAction::FsRemove, 0);
    alias_is_found(RuntimeAction::FsRemove, 1);
    alias_is_found(RuntimeAction::FsRemove, 2);
    fs_rename_names();
    alias_is_found(RuntimeAction::FsRename, 0);
    alias_is_found(RuntimeAction::FsRename, 1);
    alias_is_found(RuntimeAction::FsRename, 2);
    fs_make_dir_names();
    alias_is_found(RuntimeAction::FsMakeDir, 0);
    alias_is_found(RuntimeAction::FsMakeDir, 1);
    alias_is_found(RuntimeAction::FsMakeDir, 2);
    alias_is_found(RuntimeAction::FsMakeDir, 3);
    alias_is_found(RuntimeAction::FsMakeDir, 4);
    fs_get_info_names();
    alias_is_found(RuntimeAction::FsGetInfo, 0);
    alias_is_found(RuntimeAction::FsGetInfo, 1);
    alias_is_found(RuntimeAction::FsGetInfo, 2);
    alias_is_found(RuntimeAction::FsGetInfo, 3);
    alias_is_found(RuntimeAction::FsGetInfo, 4);
}

/// The names of the actions on shells.
pub proof fn shell_names_are_known()
    ensures
        action_of("bash_init"@, 0) == Some(RuntimeAction::BashInit),
        action_of("shell.create"@, 0) == Some(RuntimeAction::BashInit),
        action_of("shell.init"@, 0) == Some(RuntimeAction::BashInit),
        action_of("bash_submit"@, 0) == Some(RuntimeAction::BashSubmit),
        action_of("shell.run"@, 0) == Some(RuntimeAction::BashSubmit),
        action_of("shell.submit"@, 0) == Some(RuntimeAction::BashSubmit),
        action_of("bash_poll"@, 0) == Some(RuntimeAction::BashPoll),
        action_of("shell.poll"@, 0) == Some(RuntimeAction::BashPoll),
        action_of("bash_destroy"@, 0) == Some(RuntimeAction::BashDestroy),
        action_of("shell.delete"@, 0) == Some(RuntimeAction::BashDestroy),
        action_of("shell.destroy"@, 0) == Some(RuntimeAction::BashDestroy),
        action_of("shell.close"@, 0) == Some(RuntimeAction::BashDestroy),
{
    bash_init_names();
    alias_is_found(RuntimeAction::BashInit, 0);
    alias_is_found(RuntimeAction::BashInit, 1);
    alias_is_found(RuntimeAction::BashInit, 2);
    bash_submit_names();
    alias_is_found(RuntimeAction::BashSubmit, 0);
    alias_is_found(RuntimeAction::BashSubmit, 1);
    alias_is_found(RuntimeAction::BashSubmit, 2);
    bash_poll_names();
    alias_is_found(RuntimeAction::BashPoll, 0);
    alias_is_found(RuntimeAction::BashPoll, 1);
    bash_destroy_names();
    alias_is_found(RuntimeAction::BashDestroy, 0);
    alias_is_found(RuntimeAction::BashDestroy, 1);
    alias_is_found(RuntimeAction::BashDestroy, 2);
    alias_is_found(RuntimeAction::BashDestroy, 3);
}

/// All names of actions.
pub open spec fn known_names() -> Seq<Seq<char>> {
    seq![
        "cmd_run"@,
        "exec"@,
        "process.exec"@,
        "process.run"@,
        "cmd.run"@,
        "cmd_start"@,
        "process.start"@,
        "cmd.start"@,
        "cmd_poll"@,
        "process.poll"@,
        "cmd.poll"@,
        "cmd_wait"@,
        "process.wait"@,
        "cmd.wait"@,
        "cmd_kill"@,
        "process.kill"@,
        "cmd.kill"@,
        "cmd_list"@,
        "process.list"@,
        "cmd.list"@,
        "cmd_send_stdin"@,
        "process.stdin"@,
        "process.send_stdin"@,
        "cmd.send_stdin"@,
        "entrypoint.poll"@,
        "fs_read"@,
        "file.read"@,
        "fs.read"@,
        "fs_write"@,
        "file.write"@,
        "fs.write"@,
        "fs_write_chunk"@,
        "file.write_chunk"@,
        "file.upload.chunk"@,
        "fs.write_chunk"@,
        "fs_read_chunk"@,
        "file.read_chunk"@,
        "file.download.chunk"@,
        "fs.read_chunk"@,
        "fs_list"@,
        "file.list"@,
        "fs.list"@,
        "fs_exists"@,
        "file.exists"@,
        "fs.exists"@,
        "fs_remove"@,
        "file.remove"@,
        "fs.remove"@,
        "fs_rename"@,
        "file.rename"@,
        "fs.rename"@,
        "fs_make_dir"@,
        "file.mkdir"@,
        "file.make_dir"@,
        "fs.mkdir"@,
        "fs.make_dir"@,
        "fs_get_info"@,
        "file.stat"@,
        "file.info"@,
        "fs.stat"@,
        "fs.get_info"@,
        "bash_init"@,
        "shell.create"@,
        "shell.init"@,
        "bash_submit"@,
        "shell.run"@,
        "shell.submit"@,
        "bash_poll"@,
        "shell.poll"@,
        "bash_destroy"@,
        "shell.delete"@,
        "shell.destroy"@,
        "shell.close"@,
    ]
}

/// A name that is not among them stands for no action.
pub proof fn other_names_are_unknown(name: Seq<char>)
    requires
        !known_names().contains(name),
    ensures
        action_of(name, 0) is None,
{
    unknown_from(name, 0);
}

proof fn unknown_from(name: Seq<char>, from: int)
    requires
        !known_names().contains(name),
        0 <= from,
    ensures
        action_of(name, from) is None,
    decreases all_actions().len() - from,
{
    if from < all_actions().len() {
        let a = all_actions()[from];
        if among(name, aliases(a)) {
            known_alias(a, name);
        }
        unknown_from(name, from + 1);
    }
}

proof fn known_alias(a: RuntimeAction, name: Seq<char>)
    requires
        among(name, aliases(a)),
    ensures
        known_names().contains(name),
{
    let all = aliases(a);
    let known = known_names();
    let i = all.index_of(name);
    assert(all[i] == name);
    match a {
        RuntimeAction::CmdRun => {
            cmd_run_names();
            assert(known[0] == "cmd_run"@);
            assert(known[1] == "exec"@);
            assert(known[2] == "process.exec"@);
            assert(known[3] == "process.run"@);
            assert(known[4] == "cmd.run"@);
            assert(i == 0 || i == 1 || i == 2 || i == 3 || i == 4);
        },
        RuntimeAction::CmdStart => {
            cmd_start_names();
            assert(known[5] == "cmd_start"@);
            assert(known[6] == "process.start"@);
            assert(known[7] == "cmd.start"@);
            assert(i == 0 || i == 1 || i == 2);
        },
        RuntimeAction::CmdPoll => {
            cmd_poll_names();
            assert(known[8] == "cmd_poll"@);
            assert(known[9] == "process.poll"@);
            assert(known[10] == "cmd.poll"@);
            assert(i == 0 || i == 1 || i == 2);
        },
        RuntimeAction::CmdWait => {
            cmd_wait_names();
            assert(known[11] == "cmd_wait"@);
            assert(known[12] == "process.wait"@);
            assert(known[13] == "cmd.wait"@);
            assert(i == 0 || i == 1 || i == 2);
        },
        RuntimeAction::CmdKill => {
            cmd_kill_names();
            assert(known[14] == "cmd_kill"@);
            assert(known[15] == "process.kill"@);
            assert(known[16] == "cmd.kill"@);
            assert(i == 0 || i == 1 || i == 2);
        },
        RuntimeAction::CmdList => {
            cmd_list_names();
            assert(known[17] == "cmd_list"@);
            assert(known[18] == "process.list"@);
            assert(known[19] == "cmd.list"@);
            assert(i == 0 || i == 1 || i == 2);
        },
        RuntimeAction::CmdSendStdin => {
            cmd_send_stdin_names();
            assert(known[20] == "cmd_send_stdin"@);
            assert(known[21] == "process.stdin"@);
            assert(known[22] == "process.send_stdin"@);
            assert(known[23] == "cmd.send_stdin"@);
            assert(i == 0 || i == 1 || i == 2 || i == 3);
        },
        RuntimeAction::EntrypointPoll => {
            entrypoint_poll_names();
            assert(known[24] == "entrypoint.poll"@);
            assert(i == 0);
        },
        RuntimeAction::FsRead => {
            fs_read_names();
            assert(known[25] == "fs_read"@);
            assert(known[26] == "file.read"@);
            assert(known[27] == "fs.read"@);
            assert(i == 0 || i == 1 || i == 2);
        },
        RuntimeAction::FsWrite => {
            fs_write_names();
            assert(known[28] == "fs_write"@);
            assert(known[29] == "file.write"@);
            assert(known[30] == "fs.write"@);
            assert(i == 0 || i == 1 || i == 2);
        },
        RuntimeAction::FsWriteChunk => {
            fs_write_chunk_names();
            assert(known[31] == "fs_write_chunk"@);
            assert(known[32] == "file.write_chunk"@);
            assert(known[33] == "file.upload.chunk"@);
            assert(known[34] == "fs.write_chunk"@);
            assert(i == 0 || i == 1 || i == 2 || i == 3);
        },
        RuntimeAction::FsReadChunk => {
            fs_read_chunk_names();
            assert(known[35] == "fs_read_chunk"@);
            assert(known[36] == "file.read_chunk"@);
            assert(known[37] == "file.download.chunk"@);
            assert(known[38] == "fs.read_chunk"@);
            assert(i == 0 || i == 1 || i == 2 || i == 3);
        },
        RuntimeAction::FsList => {
            fs_list_names();
            assert(known[39] == "fs_list"@);
            assert(known[40] == "file.list"@);
            assert(known[41] == "fs.list"@);
            assert(i == 0 || i == 1 || i == 2);
        },
        RuntimeAction::FsExists => {
            fs_exists_names();
            assert(known[42] == "fs_exists"@);
            assert(known[43] == "file.exists"@);
            assert(known[44] == "fs.exists"@);
            assert(i == 0 || i == 1 || i == 2);
        },
        RuntimeAction::FsRemove => {
            fs_remove_names();
            assert(known[45] == "fs_remove"@);
            assert(known[46] == "file.remove"@);
            assert(known[47] == "fs.remove"@);
            assert(i == 0 || i == 1 || i == 2);
        },
        RuntimeAction::FsRename => {
            fs_rename_names();
            assert(known[48] == "fs_rename"@);
            assert(known[49] == "file.rename"@);
            assert(known[50] == "fs.rename"@);
            assert(i == 0 || i == 1 || i == 2);
        },
        RuntimeAction::FsMakeDir => {
            fs_make_dir_names();
            assert(known[51] == "fs_make_dir"@);
            assert(known[52] == "file.mkdir"@);
            assert(known[53] == "file.make_dir"@);
            assert(known[54] == "fs.mkdir"@);
            assert(known[55] == "fs.make_dir"@);
            assert(i == 0 || i == 1 || i == 2 || i == 3 || i == 4);
        },
        RuntimeAction::FsGetInfo => {
            fs_get_info_names();
            assert(known[56] == "fs_get_info"@);
            assert(known[57] == "file.stat"@);
            assert(known[58] == "file.info"@);
            assert(known[59] == "fs.stat"@);
            assert(known[60] == "fs.get_info"@);
            assert(i == 0 || i == 1 || i == 2 || i == 3 || i == 4);
        },
        RuntimeAction::BashInit => {
            bash_init_names();
            assert(known[61] == "bash_init"@);
            assert(known[62] == "shell.create"@);
            assert(known[63] == "shell.init"@);
            assert(i == 0 || i == 1 || i == 2);
        },
        RuntimeAction::BashSubmit => {
            bash_submit_names();
            assert(known[64] == "bash_submit"@);
            assert(known[65] == "shell.run"@);
            assert(known[66] == "shell.submit"@);
            assert(i == 0 || i == 1 || i == 2);
        },
        RuntimeAction::BashPoll => {
            bash_poll_names();
            assert(known[67] == "bash_poll"@);
            assert(known[68] == "shell.poll"@);
            assert(i == 0 || i == 1);
        },
        RuntimeAction::BashDestroy => {
            bash_destroy_names();
            assert(known[69] == "bash_destroy"@);
            assert(known[70] == "shell.delete"@);
            assert(known[71] == "shell.destroy"@);
            assert(known[72] == "shell.close"@);
            assert(i == 0 || i == 1 || i == 2 || i == 3);
        },
    }
}

/// The methods of a call, each of which stands for its action.
pub proof fn methods_are_known()
    ensures
        method_action("cmd_run"@, 0) == Some(RuntimeAction::CmdRun),
        RuntimeAction::CmdRun.method() == "cmd_run"@,
        method_action("cmd_start"@, 0) == Some(RuntimeAction::CmdStart),
        RuntimeAction::CmdStart.method() == "cmd_start"@,
        method_action("cmd_poll"@, 0) == Some(RuntimeAction::CmdPoll),
        RuntimeAction::CmdPoll.method() == "cmd_poll"@,
        method_action("cmd_wait"@, 0) == Some(RuntimeAction::CmdWait),
        RuntimeAction::CmdWait.method() == "cmd_wait"@,
        method_action("cmd_kill"@, 0) == Some(RuntimeAction::CmdKill),
        RuntimeAction::CmdKill.method() == "cmd_kill"@,
        method_action("cmd_list"@, 0) == Some(RuntimeAction::CmdList),
        RuntimeAction::CmdList.method() == "cmd_list"@,
        method_action("cmd_send_stdin"@, 0) == Some(RuntimeAction::CmdSendStdin),
        RuntimeAction::CmdSendStdin.method() == "cmd_send_stdin"@,
        method_action("fs_read"@, 0) == Some(RuntimeAction::FsRead),
        RuntimeAction::FsRead.method() == "fs_read"@,
        method_action("fs_write"@, 0) == Some(RuntimeAction::FsWrite),
        RuntimeAction::FsWrite.method() == "fs_write"@,
        method_action("fs_write_chunk"@, 0) == Some(RuntimeAction::FsWriteChunk),
        RuntimeAction::FsWriteChunk.method() == "fs_write_chunk"@,
        method_action("fs_read_chunk"@, 0) == Some(RuntimeAction::FsReadChunk),
        RuntimeAction::FsReadChunk.method() == "fs_read_chunk"@,
        method_action("fs_list"@, 0) == Some(RuntimeAction::FsList),
        RuntimeAction::FsList.method() == "fs_list"@,
        method_action("fs_exists"@, 0) == Some(RuntimeAction::FsExists),
        RuntimeAction::FsExists.method() == "fs_exists"@,
        method_action("fs_remove"@, 0) == Some(RuntimeAction::FsRemove),
        RuntimeAction::FsRemove.method() == "fs_remove"@,
        method_action("fs_rename"@, 0) == Some(RuntimeAction::FsRename),
        RuntimeAction::FsRename.method() == "fs_rename"@,
        method_action("fs_make_dir"@, 0) == Some(RuntimeAction::FsMakeDir),
        RuntimeAction::FsMakeDir.method() == "fs_make_dir"@,
        method_action("fs_get_info"@, 0) == Some(RuntimeAction::FsGetInfo),
        RuntimeAction::FsGetInfo.method() == "fs_get_info"@,
        method_action("bash_init"@, 0) == Some(RuntimeAction::BashInit),
        RuntimeAction::BashInit.method() == "bash_init"@,
        method_action("bash_submit"@, 0) == Some(RuntimeAction::BashSubmit),
        RuntimeAction::BashSubmit.method() == "bash_submit"@,
        method_action("bash_poll"@, 0) == Some(RuntimeAction::BashPoll),
        RuntimeAction::BashPoll.method() == "bash_poll"@,
        method_action("bash_destroy"@, 0) == Some(RuntimeAction::BashDestroy),
        RuntimeAction::BashDestroy.method() == "bash_destroy"@,
        RuntimeAction::EntrypointPoll.method() == "entrypoint_poll"@,
{
    crate::action_names::method_names_are_fixed(RuntimeAction::CmdRun);
    crate::action_names::method_names_are_fixed(RuntimeAction::CmdStart);
    crate::action_names::method_names_are_fixed(RuntimeAction::CmdPoll);
    crate::action_names::method_names_are_fixed(RuntimeAction::CmdWait);
    crate::action_names::method_names_are_fixed(RuntimeAction::CmdKill);
    crate::action_names::method_names_are_fixed(RuntimeAction::CmdList);
    crate::action_names::method_names_are_fixed(RuntimeAction::CmdSendStdin);
    crate::action_names::method_names_are_fixed(RuntimeAction::FsRead);
    crate::action_names::method_names_are_fixed(RuntimeAction::FsWrite);
    crate::action_names::method_names_are_fixed(RuntimeAction::FsWriteChunk);
    crate::action_names::method_names_are_fixed(RuntimeAction::FsReadChunk);
    crate::action_names::method_names_are_fixed(RuntimeAction::FsList);
    crate::action_names::method_names_are_fixed(RuntimeAction::FsExists);
    crate::action_names::method_names_are_fixed(RuntimeAction::FsRemove);
    crate::action_names::method_names_are_fixed(RuntimeAction::FsRename);
    crate::action_names::method_names_are_fixed(RuntimeAction::FsMakeDir);
    crate::action_names::method_names_are_fixed(RuntimeAction::FsGetInfo);
    crate::action_names::method_names_are_fixed(RuntimeAction::BashInit);
    crate::action_names::method_names_are_fixed(RuntimeAction::BashSubmit);
    crate::action_names::method_names_are_fixed(RuntimeAction::BashPoll);
    crate::action_names::method_names_are_fixed(RuntimeAction::BashDestroy);
}

} // verus!
