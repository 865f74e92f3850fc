//! Calls of the runtime: which action a call asks for, and its result.
use crate::args::Args;
use crate::cmd::either_text;
use crate::codec::{
    deserialized, dict, dict_entries, kw_i64, kw_str, kwargs_of, map_value, named, named_int,
    named_models, parse_kwargs, serialized, string_entries, yr_deserialize, yr_serialize_value,
    Arg, Kwargs,
};
use crate::entrypoint::Failure;
use crate::fs::{kw_text, text_or_empty};
use crate::laws::calls::is_result;
use crate::messages::{
    call_result, call_result_msg, CallRequest, ErrorCodes, MessageModel, StreamingMessage,
};
use crate::text::{
    chars_of, decimal, join, join3, opt_str_view, opt_view, same, signed_decimal, slice, string_of,
    to_decimal, to_signed_decimal,
};
use crate::value::{dict_view, model_int, Datum, Model};
use vstd::prelude::*;
use vstd::utf8::{encode_scalar, encode_utf8};

verus! {

// ───────────────────────── log fields ─────────────────────────

/// Line ends written as `\r` and `\n`.
pub open spec fn escaped(s: Seq<char>) -> Seq<char>
    decreases s.len(),
{
    if s.len() == 0 {
        Seq::empty()
    } else {
        let before = escaped(s.drop_last());
        if s.last() == '\r' {
            before + "\\r"@
        } else if s.last() == '\n' {
            before + "\\n"@
        } else {
            before.push(s.last())
        }
    }
}

/// The bytes that the first `n` characters take.
pub open spec fn width(s: Seq<char>, n: nat) -> nat {
    encode_utf8(s.take(n as int)).len()
}

/// The number of leading characters that fit in `max` bytes, among the first
/// `n`.
pub open spec fn fitting(s: Seq<char>, max: nat, n: nat) -> nat
    decreases n,
{
    if n == 0 || width(s, n) <= max {
        n
    } else {
        fitting(s, max, (n - 1) as nat)
    }
}

/// A field of a log line: on one line, and cut after at most 512 bytes, never
/// within a character.
pub open spec fn log_field(s: Seq<char>) -> Seq<char> {
    let e = escaped(s);
    if encode_utf8(e).len() > 512 {
        e.take(fitting(e, 512, e.len()) as int) + "..."@
    } else {
        e
    }
}

proof fn encode_append(a: Seq<char>, b: Seq<char>)
    ensures
        encode_utf8(a + b) == encode_utf8(a) + encode_utf8(b),
    decreases a.len(),
{
    if a.len() == 0 {
        assert(a + b =~= b);
        assert(encode_utf8(a) + encode_utf8(b) =~= encode_utf8(b));
    } else {
        encode_append(a.drop_first(), b);
        assert((a + b).drop_first() =~= a.drop_first() + b);
        assert(encode_utf8(a + b) =~= encode_utf8(a) + encode_utf8(b));
    }
}

proof fn width_step(s: Seq<char>, n: nat)
    requires
        n < s.len(),
    ensures
        width(s, n + 1) == width(s, n) + encode_scalar(s[n as int] as u32).len(),
        1 <= encode_scalar(s[n as int] as u32).len() <= 4,
{
    let one = seq![s[n as int]];
    assert(s.take(n as int + 1) =~= s.take(n as int) + one);
    encode_append(s.take(n as int), one);
    assert(one.drop_first() =~= Seq::empty());
    assert(encode_utf8(one.drop_first()) =~= Seq::empty());
    assert(encode_utf8(one) =~= encode_scalar(s[n as int] as u32));
}

fn char_width(c: char) -> (r: usize)
    ensures
        r == encode_scalar(c as u32).len(),
        1 <= r <= 4,
{
    let n: u32 = c as u32;
    proof {
        vstd::utf8::char_is_scalar(c);
    }
    if n <= 0x7f {
        1
    } else if n <= 0x7ff {
        2
    } else if n <= 0xffff {
        3
    } else {
        4
    }
}

proof fn fitting_is(s: Seq<char>, max: nat, n: nat, k: nat)
    requires
        k <= n <= s.len(),
        width(s, k) <= max,
        k < n ==> width(s, k + 1) > max,
    ensures
        fitting(s, max, n) == k,
    decreases n,
{
    if n > k {
        width_grows(s, k + 1, n);
        if n > k + 1 {
            fitting_is(s, max, (n - 1) as nat, k);
        } else {
            assert(fitting(s, max, (n - 1) as nat) == k);
        }
    }
}

proof fn width_grows(s: Seq<char>, a: nat, b: nat)
    requires
        a <= b <= s.len(),
    ensures
        width(s, a) <= width(s, b),
    decreases b,
{
    if a < b {
        width_step(s, (b - 1) as nat);
        width_grows(s, a, (b - 1) as nat);
    }
}

fn escape_lines(value: &str) -> (r: Vec<char>)
    ensures
        r@ == escaped(value@),
{
    let chars = chars_of(value);
    let mut out: Vec<char> = Vec::new();
    proof {
        reveal_strlit("\\r");
        reveal_strlit("\\n");
        assert(out@ =~= escaped(value@.take(0)));
    }
    for i in 0..chars.len()
        invariant
            chars@ == value@,
            "\\r"@ == seq!['\\', 'r'],
            "\\n"@ == seq!['\\', 'n'],
            out@ == escaped(value@.take(i as int)),
    {
        let ghost before = out@;
        proof {
            assert(value@.take(i as int + 1).drop_last() =~= value@.take(i as int));
            assert(value@.take(i as int + 1).last() == chars@[i as int]);
        }
        if chars[i] == '\r' {
            out.push('\\');
            out.push('r');
            assert(out@ =~= before + "\\r"@);
        } else if chars[i] == '\n' {
            out.push('\\');
            out.push('n');
            assert(out@ =~= before + "\\n"@);
        } else {
            out.push(chars[i]);
        }
    }
    assert(value@.take(value@.len() as int) =~= value@);
    out
}

/// Makes a field of a log line.
pub fn sanitize_log_field(value: &str) -> (r: String)
    ensures
        r@ == log_field(value@),
{
    let out = escape_lines(value);
    let ghost e = out@;
    let mut n: usize = 0;
    let mut bytes: usize = 0;
    assert(e.take(0) =~= Seq::empty());
    while n < out.len()
        invariant
            out@ == e,
            e == escaped(value@),
            n <= out@.len(),
            bytes == width(e, n as nat),
            bytes <= 512,
        decreases out@.len() - n,
    {
        proof {
            width_step(e, n as nat);
        }
        let w: usize = char_width(out[n]);
        if bytes + w > 512 {
            proof {
                fitting_is(e, 512, e.len(), n as nat);
                width_grows(e, n as nat + 1, e.len());
                assert(e.take(e.len() as int) =~= e);
            }
            let head = slice(&out, 0, n);
            assert(head@ =~= e.take(n as int));
            return join(head.as_str(), "...");
        }
        bytes = bytes + w;
        n = n + 1;
    }
    assert(e.take(e.len() as int) =~= e);
    string_of(out.as_slice())
}

/// A field of a log line is never longer than 515 bytes, and holds no line
/// ends.
pub proof fn log_fields_are_short(s: Seq<char>)
    ensures
        encode_utf8(log_field(s)).len() <= 515,
        !log_field(s).contains('\n'),
        !log_field(s).contains('\r'),
{
    let e = escaped(s);
    escaped_lines(s);
    if encode_utf8(e).len() > 512 {
        let n = fitting(e, 512, e.len());
        fitting_bound(e, 512, e.len());
        let dots = "..."@;
        reveal_strlit("...");
        encode_append(e.take(n as int), dots);
        assert(encode_utf8(dots).len() == 3) by {
            assert(dots =~= seq!['.', '.', '.']);
            width_step(dots, 0);
            width_step(dots, 1);
            width_step(dots, 2);
            assert(dots.take(3) =~= dots);
            assert(dots.take(0) =~= Seq::empty());
            assert(width(dots, 0) == 0);
            assert(encode_scalar('.' as u32).len() == 1);
        }
        assert forall|i: int| 0 <= i < log_field(s).len() implies log_field(s)[i] != '\n'
            && log_field(s)[i] != '\r' by {
            if i < n {
                assert(log_field(s)[i] == e[i]);
                assert(e.contains(e[i]));
            }
        }
    }
}

proof fn fitting_bound(s: Seq<char>, max: nat, n: nat)
    requires
        n <= s.len(),
    ensures
        fitting(s, max, n) <= n,
        width(s, fitting(s, max, n)) <= max,
    decreases n,
{
    if n == 0 {
        assert(s.take(0) =~= Seq::empty());
    } else if width(s, n) > max {
        fitting_bound(s, max, (n - 1) as nat);
    }
}

proof fn escaped_lines(s: Seq<char>)
    ensures
        !escaped(s).contains('\n'),
        !escaped(s).contains('\r'),
    decreases s.len(),
{
    if s.len() > 0 {
        escaped_lines(s.drop_last());
        reveal_strlit("\\r");
        reveal_strlit("\\n");
        let b = escaped(s.drop_last());
        let e = escaped(s);
        assert forall|i: int| 0 <= i < e.len() implies e[i] != '\n' && e[i] != '\r' by {
            if i < b.len() {
                assert(e[i] == b[i]);
                assert(b.contains(b[i]));
            }
        }
    }
}

// ───────────────────────── access log ─────────────────────────

/// What the access log says of an action: its name, with its command or its
/// process where it has one.
pub open spec fn access_detail(method: Seq<char>, kw: Map<Seq<char>, Model>) -> Option<Seq<char>> {
    if method == "cmd_run"@ || method == "cmd_start"@ {
        either_text(kw, "cmd"@, "command"@)
    } else if method == "bash_submit"@ {
        either_text(kw, "command"@, "cmd"@)
    } else if method == "cmd_poll"@ || method == "cmd_wait"@ || method == "cmd_kill"@ || method
        == "cmd_send_stdin"@ {
        match named_int(kw, "pid"@) {
            Some(pid) => Some("pid="@ + signed_decimal(pid as int)),
            None => None,
        }
    } else {
        None
    }
}

/// What the log says of an operation.
pub open spec fn access_summary(method: Seq<char>, kw: Map<Seq<char>, Model>) -> Seq<char> {
    match access_detail(method, kw) {
        Some(detail) => method + " "@ + log_field(detail),
        None => method,
    }
}

fn either_str(kw: &Kwargs, first: &str, second: &str) -> (r: Option<String>)
    ensures
        opt_view(r) == either_text(kw@, first@, second@),
{
    match kw_str(kw, first) {
        Some(s) => Some(s),
        None => kw_str(kw, second),
    }
}

/// Makes the entry of an action in the access log.
pub fn access_command_summary(method: &str, kw: &Kwargs) -> (r: String)
    ensures
        r@ == access_summary(method@, kw@),
{
    let detail: Option<String> = if same(method, "cmd_run") || same(method, "cmd_start") {
        either_str(kw, "cmd", "command")
    } else if same(method, "bash_submit") {
        either_str(kw, "command", "cmd")
    } else if same(method, "cmd_poll") || same(method, "cmd_wait") || same(method, "cmd_kill")
        || same(method, "cmd_send_stdin") {
        match kw_i64(kw, "pid") {
            Some(pid) => {
                let n = to_signed_decimal(pid);
                Some(join("pid=", n.as_str()))
            },
            None => None,
        }
    } else {
        None
    };
    match detail {
        Some(text) => {
            let field = sanitize_log_field(text.as_str());
            join3(method, " ", field.as_str())
        },
        None => method.to_owned(),
    }
}

/// The name that a call is traced under.
pub fn access_trace_id(trace_id: &str, request_id: &str) -> (r: String)
    ensures
        r@ == (if trace_id@.len() > 0 {
            trace_id@
        } else {
            request_id@
        }),
{
    if trace_id.is_empty() {
        request_id.to_owned()
    } else {
        trace_id.to_owned()
    }
}

// ───────────────────────── actions ─────────────────────────

/// An action of the runtime.
#[derive(Debug, Clone, Copy, PartialEq, Eq, Structural)]
pub enum RuntimeAction {
    CmdRun,
    CmdStart,
    CmdPoll,
    CmdWait,
    CmdKill,
    CmdList,
    CmdSendStdin,
    EntrypointPoll,
    FsRead,
    FsWrite,
    FsWriteChunk,
    FsReadChunk,
    FsList,
    FsExists,
    FsRemove,
    FsRename,
    FsMakeDir,
    FsGetInfo,
    BashInit,
    BashSubmit,
    BashPoll,
    BashDestroy,
}

impl RuntimeAction {
    /// The name of the method behind an action.
    pub open spec fn method(self) -> Seq<char> {
        match self {
            RuntimeAction::CmdRun => "cmd_run"@,
            RuntimeAction::CmdStart => "cmd_start"@,
            RuntimeAction::CmdPoll => "cmd_poll"@,
            RuntimeAction::CmdWait => "cmd_wait"@,
            RuntimeAction::CmdKill => "cmd_kill"@,
            RuntimeAction::CmdList => "cmd_list"@,
            RuntimeAction::CmdSendStdin => "cmd_send_stdin"@,
            RuntimeAction::EntrypointPoll => "entrypoint_poll"@,
            RuntimeAction::FsRead => "fs_read"@,
            RuntimeAction::FsWrite => "fs_write"@,
            RuntimeAction::FsWriteChunk => "fs_write_chunk"@,
            RuntimeAction::FsReadChunk => "fs_read_chunk"@,
            RuntimeAction::FsList => "fs_list"@,
            RuntimeAction::FsExists => "fs_exists"@,
            RuntimeAction::FsRemove => "fs_remove"@,
            RuntimeAction::FsRename => "fs_rename"@,
            RuntimeAction::FsMakeDir => "fs_make_dir"@,
            RuntimeAction::FsGetInfo => "fs_get_info"@,
            RuntimeAction::BashInit => "bash_init"@,
            RuntimeAction::BashSubmit => "bash_submit"@,
            RuntimeAction::BashPoll => "bash_poll"@,
            RuntimeAction::BashDestroy => "bash_destroy"@,
        }
    }

    /// The method that asks for the operation.
    pub fn name(self) -> (r: &'static str)
        ensures
            r@ == self.method(),
    {
        match self {
            RuntimeAction::CmdRun => "cmd_run",
            RuntimeAction::CmdStart => "cmd_start",
            RuntimeAction::CmdPoll => "cmd_poll",
            RuntimeAction::CmdWait => "cmd_wait",
            RuntimeAction::CmdKill => "cmd_kill",
            RuntimeAction::CmdList => "cmd_list",
            RuntimeAction::CmdSendStdin => "cmd_send_stdin",
            RuntimeAction::EntrypointPoll => "entrypoint_poll",
            RuntimeAction::FsRead => "fs_read",
            RuntimeAction::FsWrite => "fs_write",
            RuntimeAction::FsWriteChunk => "fs_write_chunk",
            RuntimeAction::FsReadChunk => "fs_read_chunk",
            RuntimeAction::FsList => "fs_list",
            RuntimeAction::FsExists => "fs_exists",
            RuntimeAction::FsRemove => "fs_remove",
            RuntimeAction::FsRename => "fs_rename",
            RuntimeAction::FsMakeDir => "fs_make_dir",
            RuntimeAction::FsGetInfo => "fs_get_info",
            RuntimeAction::BashInit => "bash_init",
            RuntimeAction::BashSubmit => "bash_submit",
            RuntimeAction::BashPoll => "bash_poll",
            RuntimeAction::BashDestroy => "bash_destroy",
        }
    }
}

/// A text is one of a list.
pub open spec fn among(s: Seq<char>, list: Seq<Seq<char>>) -> bool {
    list.contains(s)
}

/// Whether a text is one of a list.
fn one_of(s: &str, list: &[&str]) -> (r: bool)
    ensures
        r == among(s@, crate::args::str_views(list@)),
{
    let ghost all = crate::args::str_views(list@);
    for i in 0..list.len()
        invariant
            all == crate::args::str_views(list@),
            forall|j: int| 0 <= j < i ==> all[j] != s@,
    {
        if same(s, list[i]) {
            assert(all[i as int] == s@);
            return true;
        }
    }
    false
}

/// The names that stand for an action in a public request.
pub open spec fn aliases(a: RuntimeAction) -> Seq<Seq<char>> {
    match a {
        RuntimeAction::CmdRun => crate::args::str_views(
            ["cmd_run", "exec", "process.exec", "process.run", "cmd.run"]@,
        ),
        RuntimeAction::CmdStart => crate::args::str_views(
            ["cmd_start", "process.start", "cmd.start"]@,
        ),
        RuntimeAction::CmdPoll => crate::args::str_views(
            ["cmd_poll", "process.poll", "cmd.poll"]@,
        ),
        RuntimeAction::CmdWait => crate::args::str_views(
            ["cmd_wait", "process.wait", "cmd.wait"]@,
        ),
        RuntimeAction::CmdKill => crate::args::str_views(
            ["cmd_kill", "process.kill", "cmd.kill"]@,
        ),
        RuntimeAction::CmdList => crate::args::str_views(
            ["cmd_list", "process.list", "cmd.list"]@,
        ),
        RuntimeAction::CmdSendStdin => crate::args::str_views(
            ["cmd_send_stdin", "process.stdin", "process.send_stdin", "cmd.send_stdin"]@,
        ),
        RuntimeAction::EntrypointPoll => crate::args::str_views(["entrypoint.poll"]@),
        RuntimeAction::FsRead => crate::args::str_views(["fs_read", "file.read", "fs.read"]@),
        RuntimeAction::FsWrite => crate::args::str_views(
            ["fs_write", "file.write", "fs.write"]@,
        ),
        RuntimeAction::FsWriteChunk => crate::args::str_views(
            ["fs_write_chunk", "file.write_chunk", "file.upload.chunk", "fs.write_chunk"]@,
        ),
        RuntimeAction::FsReadChunk => crate::args::str_views(
            ["fs_read_chunk", "file.read_chunk", "file.download.chunk", "fs.read_chunk"]@,
        ),
        RuntimeAction::FsList => crate::args::str_views(["fs_list", "file.list", "fs.list"]@),
        RuntimeAction::FsExists => crate::args::str_views(
            ["fs_exists", "file.exists", "fs.exists"]@,
        ),
        RuntimeAction::FsRemove => crate::args::str_views(
            ["fs_remove", "file.remove", "fs.remove"]@,
        ),
        RuntimeAction::FsRename => crate::args::str_views(
            ["fs_rename", "file.rename", "fs.rename"]@,
        ),
        RuntimeAction::FsMakeDir => crate::args::str_views(
            ["fs_make_dir", "file.mkdir", "file.make_dir", "fs.mkdir", "fs.make_dir"]@,
        ),
        RuntimeAction::FsGetInfo => crate::args::str_views(
            ["fs_get_info", "file.stat", "file.info", "fs.stat", "fs.get_info"]@,
        ),
        RuntimeAction::BashInit => crate::args::str_views(
            ["bash_init", "shell.create", "shell.init"]@,
        ),
        RuntimeAction::BashSubmit => crate::args::str_views(
            ["bash_submit", "shell.run", "shell.submit"]@,
        ),
        RuntimeAction::BashPoll => crate::args::str_views(["bash_poll", "shell.poll"]@),
        RuntimeAction::BashDestroy => crate::args::str_views(
            ["bash_destroy", "shell.delete", "shell.destroy", "shell.close"]@,
        ),
    }
}

/// All actions, in the order in which names are looked up.
pub open spec fn all_actions() -> Seq<RuntimeAction> {
    seq![
        RuntimeAction::CmdRun,
        RuntimeAction::CmdStart,
        RuntimeAction::CmdPoll,
        RuntimeAction::CmdWait,
        RuntimeAction::CmdKill,
        RuntimeAction::CmdList,
        RuntimeAction::CmdSendStdin,
        RuntimeAction::EntrypointPoll,
        RuntimeAction::FsRead,
        RuntimeAction::FsWrite,
        RuntimeAction::FsWriteChunk,
        RuntimeAction::FsReadChunk,
        RuntimeAction::FsList,
        RuntimeAction::FsExists,
        RuntimeAction::FsRemove,
        RuntimeAction::FsRename,
        RuntimeAction::FsMakeDir,
        RuntimeAction::FsGetInfo,
        RuntimeAction::BashInit,
        RuntimeAction::BashSubmit,
        RuntimeAction::BashPoll,
        RuntimeAction::BashDestroy,
    ]
}

/// The first of the actions from the `from`-th on that a name stands for.
pub open spec fn action_of(name: Seq<char>, from: int) -> Option<RuntimeAction>
    decreases all_actions().len() - from,
{
    if from < 0 || from >= all_actions().len() {
        None
    } else if among(name, aliases(all_actions()[from])) {
        Some(all_actions()[from])
    } else {
        action_of(name, from + 1)
    }
}

fn has_alias(name: &str, a: RuntimeAction) -> (r: bool)
    ensures
        r == among(name@, aliases(a)),
{
    match a {
        RuntimeAction::CmdRun => one_of(
            name,
            &["cmd_run", "exec", "process.exec", "process.run", "cmd.run"],
        ),
        RuntimeAction::CmdStart => one_of(name, &["cmd_start", "process.start", "cmd.start"]),
        RuntimeAction::CmdPoll => one_of(name, &["cmd_poll", "process.poll", "cmd.poll"]),
        RuntimeAction::CmdWait => one_of(name, &["cmd_wait", "process.wait", "cmd.wait"]),
        RuntimeAction::CmdKill => one_of(name, &["cmd_kill", "process.kill", "cmd.kill"]),
        RuntimeAction::CmdList => one_of(name, &["cmd_list", "process.list", "cmd.list"]),
        RuntimeAction::CmdSendStdin => one_of(
            name,
            &["cmd_send_stdin", "process.stdin", "process.send_stdin", "cmd.send_stdin"],
        ),
        RuntimeAction::EntrypointPoll => one_of(name, &["entrypoint.poll"]),
        RuntimeAction::FsRead => one_of(name, &["fs_read", "file.read", "fs.read"]),
        RuntimeAction::FsWrite => one_of(name, &["fs_write", "file.write", "fs.write"]),
        RuntimeAction::FsWriteChunk => one_of(
            name,
            &["fs_write_chunk", "file.write_chunk", "file.upload.chunk", "fs.write_chunk"],
        ),
        RuntimeAction::FsReadChunk => one_of(
            name,
            &["fs_read_chunk", "file.read_chunk", "file.download.chunk", "fs.read_chunk"],
        ),
        RuntimeAction::FsList => one_of(name, &["fs_list", "file.list", "fs.list"]),
        RuntimeAction::FsExists => one_of(name, &["fs_exists", "file.exists", "fs.exists"]),
        RuntimeAction::FsRemove => one_of(name, &["fs_remove", "file.remove", "fs.remove"]),
        RuntimeAction::FsRename => one_of(name, &["fs_rename", "file.rename", "fs.rename"]),
        RuntimeAction::FsMakeDir => one_of(
            name,
            &["fs_make_dir", "file.mkdir", "file.make_dir", "fs.mkdir", "fs.make_dir"],
        ),
        RuntimeAction::FsGetInfo => one_of(
            name,
            &["fs_get_info", "file.stat", "file.info", "fs.stat", "fs.get_info"],
        ),
        RuntimeAction::BashInit => one_of(name, &["bash_init", "shell.create", "shell.init"]),
        RuntimeAction::BashSubmit => one_of(name, &["bash_submit", "shell.run", "shell.submit"]),
        RuntimeAction::BashPoll => one_of(name, &["bash_poll", "shell.poll"]),
        RuntimeAction::BashDestroy => one_of(
            name,
            &["bash_destroy", "shell.delete", "shell.destroy", "shell.close"],
        ),
    }
}

fn action_list() -> (r: Vec<RuntimeAction>)
    ensures
        r@ == all_actions(),
{
    let r = vec![
        RuntimeAction::CmdRun,
        RuntimeAction::CmdStart,
        RuntimeAction::CmdPoll,
        RuntimeAction::CmdWait,
        RuntimeAction::CmdKill,
        RuntimeAction::CmdList,
        RuntimeAction::CmdSendStdin,
        RuntimeAction::EntrypointPoll,
        RuntimeAction::FsRead,
        RuntimeAction::FsWrite,
        RuntimeAction::FsWriteChunk,
        RuntimeAction::FsReadChunk,
        RuntimeAction::FsList,
        RuntimeAction::FsExists,
        RuntimeAction::FsRemove,
        RuntimeAction::FsRename,
        RuntimeAction::FsMakeDir,
        RuntimeAction::FsGetInfo,
        RuntimeAction::BashInit,
        RuntimeAction::BashSubmit,
        RuntimeAction::BashPoll,
        RuntimeAction::BashDestroy,
    ];
    assert(r@ =~= all_actions());
    r
}

/// The action that a name of a public request stands for.
pub fn find_action(name: &str) -> (r: Option<RuntimeAction>)
    ensures
        r == action_of(name@, 0),
{
    let list = action_list();
    for i in 0..list.len()
        invariant
            list@ == all_actions(),
            action_of(name@, 0) == action_of(name@, i as int),
    {
        if has_alias(name, list[i]) {
            return Some(list[i]);
        }
    }
    None
}

/// The method that a name of a public request stands for.
pub fn normalize_sandbox_action(action: &str) -> (r: Option<&'static str>)
    ensures
        opt_str_view(r) == (match action_of(action@, 0) {
            Some(a) => Some(a.method()),
            None => None,
        }),
{
    match find_action(action) {
        Some(a) => Some(a.name()),
        None => None,
    }
}

/// The action of a method, by its own name.
pub open spec fn method_action(method: Seq<char>, from: int) -> Option<RuntimeAction>
    decreases all_actions().len() - from,
{
    if from < 0 || from >= all_actions().len() {
        None
    } else if method == all_actions()[from].method() {
        Some(all_actions()[from])
    } else {
        method_action(method, from + 1)
    }
}

/// Finds the action of a method, by its own name.
pub fn dispatch_runtime_action(method: &str) -> (r: Option<RuntimeAction>)
    ensures
        r == method_action(method@, 0),
{
    let list = action_list();
    for i in 0..list.len()
        invariant
            list@ == all_actions(),
            method_action(method@, 0) == method_action(method@, i as int),
    {
        if same(method, list[i].name()) {
            return Some(list[i]);
        }
    }
    None
}

/// What is said of a name that stands for no action.
pub open spec fn unsupported_action(action: Seq<char>) -> Seq<char> {
    "unsupported sandbox action: "@ + action
}

/// The action of a public request, or what is said where there is none.
pub fn execute_sandbox_action(action: &str) -> (r: Result<RuntimeAction, String>)
    ensures
        match action_of(action@, 0) {
            Some(a) => r == Ok::<RuntimeAction, String>(a),
            None => r matches Err(e) && e@ == unsupported_action(action@),
        },
{
    match find_action(action) {
        Some(a) => Ok(a),
        None => Err(join("unsupported sandbox action: ", action)),
    }
}

/// What came of an action. It is remembered under the number of its request,
/// and both transports answer from it.
#[derive(Debug, PartialEq)]
pub enum Performed {
    /// It was carried out, with this result.
    Done(Datum),
    /// There is no action of this name.
    Unsupported(String),
    /// It broke off.
    Broken(String),
}

impl Performed {
    /// The same outcome once more.
    pub fn duplicate(&self) -> (r: Performed)
        ensures
            match (*self, r) {
                (Performed::Done(a), Performed::Done(b)) => a@ == b@,
                (Performed::Unsupported(a), Performed::Unsupported(b)) => a@ == b@,
                (Performed::Broken(a), Performed::Broken(b)) => a@ == b@,
                _ => false,
            },
    {
        match self {
            Performed::Done(value) => Performed::Done(value.duplicate()),
            Performed::Unsupported(action) => Performed::Unsupported(action.clone()),
            Performed::Broken(error) => Performed::Broken(error.clone()),
        }
    }
}

// ───────────────────────── calls ─────────────────────────

/// What `rmp_serde` makes of a map with one entry.
pub uninterp spec fn packed_entry(key: Seq<char>, value: Seq<char>) -> Seq<u8>;

/// A short string in MessagePack: a byte that tells its length, then its bytes.
pub open spec fn short_text(s: Seq<char>) -> Seq<u8> {
    seq![(0xa0 + encode_utf8(s).len()) as u8] + encode_utf8(s)
}

/// `rmp_serde::to_vec_named` of a map with one entry, both strings: a byte that
/// tells of one entry, then the two strings, where these have fewer than 32
/// bytes.
#[verifier::external_body]
fn pack_entry(key: &str, value: &str) -> (r: Vec<u8>)
    ensures
        r@ == packed_entry(key@, value@),
        encode_utf8(key@).len() < 32 && encode_utf8(value@).len() < 32 ==> r@ == seq![0x81u8]
            + short_text(key@) + short_text(value@),
{
    rmp_serde::to_vec_named(&std::collections::BTreeMap::from([(key, value)])).unwrap_or_default()
}

/// A serialized map with one entry: a zero header, then MessagePack.
pub open spec fn serialized_entry(key: Seq<char>, value: Seq<char>) -> Seq<u8> {
    Seq::new(16, |i: int| 0u8) + packed_entry(key, value)
}

/// Serializes a map with one entry.
pub fn yr_serialize(key: &str, value: &str) -> (r: Vec<u8>)
    ensures
        r@ == serialized_entry(key@, value@),
        encode_utf8(key@).len() < 32 && encode_utf8(value@).len() < 32 ==> r@ == Seq::new(
            16,
            |i: int| 0u8,
        ) + (seq![0x81u8] + short_text(key@) + short_text(value@)),
{
    let mut buf: Vec<u8> = vec![0; 16];
    let mut mp = pack_entry(key, value);
    buf.append(&mut mp);
    assert(buf@ =~= serialized_entry(key@, value@));
    buf
}

/// The runtime that calls are made on.
pub struct Ctx {
    pub args: Args,
    pub instance_id: String,
}

/// The object that the result of a call is for.
pub open spec fn object_of(call: CallRequest) -> Seq<char> {
    if call.return_object_id@.len() > 0 {
        call.return_object_id@
    } else if call.return_object_ids@.len() > 0 {
        call.return_object_ids@[0]@
    } else {
        Seq::empty()
    }
}

/// Who the result of a call goes back to.
pub open spec fn caller_of(call: CallRequest, own: Seq<char>) -> Seq<char> {
    if call.sender_id@.len() > 0 {
        call.sender_id@
    } else {
        own
    }
}

/// The method of a call.
pub open spec fn method_of(call: CallRequest) -> Seq<char> {
    text_or_empty(kwargs_of(call.args@), "sandbox_method"@)
}

/// The name that a call is traced under.
pub open spec fn trace_of(call: CallRequest) -> Seq<char> {
    if call.trace_id@.len() > 0 {
        call.trace_id@
    } else {
        call.request_id@
    }
}

/// What a call asks for.
pub enum CallPlan {
    /// Complete the creation of the sandbox.
    Create,
    /// Answer at once.
    Reply { message: StreamingMessage },
    /// Tell of the runtime.
    Info,
    /// Carry out a public request, once for each number.
    Invoke { action: String, args: Kwargs, trace_id: String },
    /// Carry out an action.
    Perform { operation: RuntimeAction, kw: Kwargs, trace_id: String },
    /// Start the tunnel on two ports.
    StartTunnel { ws_port: u16, http_port: u16 },
}

/// The entries of a dictionary argument.
pub open spec fn value_entries(v: Option<Model>) -> Map<Seq<char>, Model> {
    match v {
        Some(Model::Dict(items)) => string_entries(items),
        _ => Map::empty(),
    }
}

/// Reads the entries of a dictionary argument.
pub fn value_map_to_kwargs(value: Option<&Datum>) -> (r: Kwargs)
    ensures
        r@ == value_entries(
            match value {
                Some(v) => Some(v@),
                None => None,
            },
        ),
{
    match value {
        Some(v) => match v.duplicate() {
            Datum::Dict(items) => {
                proof {
                    dict_view(Datum::Dict(items));
                }
                dict_entries(items)
            },
            _ => Kwargs::new(),
        },
        None => Kwargs::new(),
    }
}

/// The integers among the arguments from the `from`-th on, every other one.
pub open spec fn positional(args: Seq<Arg>, from: int) -> Seq<i64>
    decreases args.len() + 1 - from,
{
    if from < 0 || from >= args.len() {
        Seq::empty()
    } else {
        let rest = positional(args, from + 2);
        match deserialized(args[from].value@) {
            Some(m) => match model_int(m) {
                Some(n) => seq![n] + rest,
                None => rest,
            },
            None => rest,
        }
    }
}

/// The ports that a tunnel is asked to start on.
pub open spec fn asked_ports(args: Seq<Arg>) -> (u16, u16) {
    let p = positional(args, 2);
    (
        if p.len() > 0 {
            p[0] as u16
        } else {
            8765
        },
        if p.len() > 1 {
            p[1] as u16
        } else {
            8766
        },
    )
}

/// Reads the ports that a tunnel is asked to start on.
pub fn start_tunnel_server(args: &Vec<Arg>) -> (r: (u16, u16))
    ensures
        r == asked_ports(args@),
{
    let mut found: Vec<i64> = Vec::new();
    let mut i: usize = 2;
    let mut more = i < args.len();
    let ghost all = positional(args@, 2);
    assert(found@ + all =~= all);
    assert(!more ==> found@ =~= all);
    while more
        invariant
            all == positional(args@, 2),
            more ==> 2 <= i < args@.len() && found@ + positional(args@, i as int) == all,
            !more ==> found@ == all,
        decreases args@.len() + 1 - i, if more { 1int } else { 0 },
    {
        let ghost before = found@;
        let ghost rest = positional(args@, i + 2);
        if let Some(v) = yr_deserialize(args[i].value.as_slice()) {
            if let Some(n) = v.as_i64() {
                found.push(n);
                assert(found@ + rest =~= before + positional(args@, i as int));
            }
        }
        if args.len() - i <= 2 {
            assert(rest =~= Seq::empty());
            assert(found@ + rest =~= found@);
            more = false;
        } else {
            i = i + 2;
        }
    }
    let ws: u16 = if found.len() > 0 {
        found[0] as u16
    } else {
        8765
    };
    let http: u16 = if found.len() > 1 {
        found[1] as u16
    } else {
        8766
    };
    (ws, http)
}

/// What is said of a tunnel that did not come up.
pub fn tunnel_not_ready(http_port: u16) -> (r: String)
    ensures
        r@ == "tunnel_server not ready on port "@ + decimal(http_port as nat) + " within 5s"@,
{
    let n = to_decimal(http_port as u64);
    join3("tunnel_server not ready on port ", n.as_str(), " within 5s")
}

impl Ctx {
    /// A runtime with its arguments.
    pub fn new(args: Args) -> (r: Ctx)
        ensures
            r.args@ == args@,
            r.instance_id@ == args@.instance_id,
    {
        let instance_id = args.instance_id.clone();
        Ctx { args, instance_id }
    }

    /// The result of a call: a code, a text, and a value.
    pub open spec fn result(
        self,
        call: CallRequest,
        code: i32,
        message: Seq<char>,
        value: Seq<u8>,
    ) -> MessageModel {
        call_result(
            call.request_id@,
            caller_of(call, self.instance_id@),
            object_of(call),
            code,
            message,
            value,
        )
    }

    /// Makes the result of a call.
    pub fn reply(&self, call: &CallRequest, code: i32, message: &str, value: Vec<u8>) -> (r:
        StreamingMessage)
        ensures
            r@ == self.result(*call, code, message@, value@),
            is_result(
                r@,
                call.request_id@,
                if call.sender_id@.len() > 0 {
                    call.sender_id@
                } else {
                    self.instance_id@
                },
                code,
                message@,
            ),
    {
        let oid = if !call.return_object_id.as_str().is_empty() {
            call.return_object_id.clone()
        } else if call.return_object_ids.len() > 0 {
            call.return_object_ids[0].clone()
        } else {
            let none = String::new();
            assert(none@ =~= Seq::empty());
            none
        };
        let iid = if !call.sender_id.as_str().is_empty() {
            call.sender_id.clone()
        } else {
            self.instance_id.clone()
        };
        call_result_msg(call.request_id.clone(), iid, oid, code, message, value)
    }

    /// Makes the result of a call that gave a value.
    pub fn value_reply(&self, call: &CallRequest, value: &Datum) -> (r: StreamingMessage)
        ensures
            r@ == self.result(*call, 0, "ok"@, serialized(value@)),
    {
        self.reply(call, 0, "ok", yr_serialize_value(value))
    }

    /// Makes the result of a call that failed.
    pub fn error_reply(&self, call: &CallRequest, message: &str) -> (r: StreamingMessage)
        ensures
            r@ == self.result(*call, 1, message@, Seq::empty()),
    {
        let none: Vec<u8> = Vec::new();
        assert(none@ =~= Seq::empty());
        self.reply(call, 1, message, none)
    }

    /// The result of a call for an action that was carried out, or could not be.
    pub open spec fn performed(
        self,
        call: CallRequest,
        outcome: Performed,
        codes: ErrorCodes,
    ) -> MessageModel {
        match outcome {
            Performed::Done(value) => self.result(call, 0, "ok"@, serialized(value@)),
            Performed::Unsupported(action) => self.result(
                call,
                1,
                unsupported_action(action@),
                Seq::empty(),
            ),
            Performed::Broken(error) => self.result(
                call,
                codes.inner_system_error,
                "dispatch panicked: "@ + error@,
                Seq::empty(),
            ),
        }
    }

    /// Makes the result of a call for an action that was carried out, or could
    /// not be, now or for an earlier request of the same number.
    pub fn performed_reply(&self, call: &CallRequest, outcome: &Performed, codes: &ErrorCodes) -> (r:
        StreamingMessage)
        ensures
            r@ == self.performed(*call, *outcome, *codes),
    {
        match outcome {
            Performed::Done(value) => self.value_reply(call, value),
            Performed::Unsupported(action) => {
                let message = join("unsupported sandbox action: ", action.as_str());
                self.error_reply(call, message.as_str())
            },
            Performed::Broken(error) => {
                let message = join("dispatch panicked: ", error.as_str());
                let none: Vec<u8> = Vec::new();
                assert(none@ =~= Seq::empty());
                self.reply(call, codes.inner_system_error, message.as_str(), none)
            },
        }
    }

    /// Makes the result of a call to start a tunnel.
    pub fn tunnel_reply(&self, call: &CallRequest, started: &Result<(), String>) -> (r:
        StreamingMessage)
        ensures
            r@ == (match started {
                Ok(()) => self.result(*call, 0, "ok"@, serialized(Model::Nil)),
                Err(message) => self.result(*call, 1, message@, Seq::empty()),
            }),
    {
        match started {
            Ok(()) => self.value_reply(call, &Datum::Nil),
            Err(message) => self.error_reply(call, message.as_str()),
        }
    }

    /// Makes the result of the creation of the sandbox.
    pub fn create_reply(&self, call: &CallRequest, outcome: &Result<(), Failure>) -> (r:
        StreamingMessage)
        ensures
            r@ == (match outcome {
                Ok(()) => self.result(*call, 0, "created"@, Seq::empty()),
                Err(f) => self.result(*call, f.code, f.message@, Seq::empty()),
            }),
    {
        let none: Vec<u8> = Vec::new();
        assert(none@ =~= Seq::empty());
        match outcome {
            Ok(()) => self.reply(call, 0, "created", none),
            Err(f) => self.reply(call, f.code, f.message.as_str(), none),
        }
    }

    /// Makes the result of a request to tell of the runtime.
    pub fn info_reply(&self, call: &CallRequest, entrypoint: Datum) -> (r: StreamingMessage)
        ensures
            r@ == self.result(
                *call,
                0,
                "ok"@,
                serialized(
                    dict(
                        seq![
                            ("state"@, Model::Text("running"@)),
                            ("entrypoint"@, entrypoint@),
                        ],
                    ),
                ),
            ),
    {
        let mut out: Vec<(&str, Datum)> = Vec::new();
        out.push(("state", Datum::text("running")));
        out.push(("entrypoint", entrypoint));
        assert(named_models(out@) =~= seq![
            ("state"@, Model::Text("running"@)),
            ("entrypoint"@, entrypoint@),
        ]);
        let value = map_value(out);
        self.value_reply(call, &value)
    }

    /// Whether `plan` is what a call asks for.
    pub open spec fn plans(self, call: CallRequest, plan: CallPlan) -> bool {
        let kw = kwargs_of(call.args@);
        let method = method_of(call);
        if call.is_create {
            plan is Create
        } else if method == "ping"@ {
            plan matches CallPlan::Reply { message } && message@ == self.result(
                call,
                0,
                "ok"@,
                serialized_entry("status"@, "ok"@),
            )
        } else if method == "get_info"@ {
            plan is Info
        } else if method == "sandbox_invoke"@ {
            plan matches CallPlan::Invoke { action, args, trace_id } && action@ == text_or_empty(
                kw,
                "action"@,
            ) && args@ == value_entries(named(kw, "args"@)) && trace_id@ == trace_of(call)
        } else if method == "start_tunnel_server"@ {
            plan matches CallPlan::StartTunnel { ws_port, http_port } && (ws_port, http_port)
                == asked_ports(call.args@)
        } else if callable(method) is Some {
            plan matches CallPlan::Perform { operation, kw: k, trace_id } && Some(operation) == callable(
                method,
            ) && k@ == kw && trace_id@ == trace_of(call)
        } else {
            plan matches CallPlan::Reply { message } && message@ == self.result(
                call,
                1,
                "unsupported: "@ + method,
                Seq::empty(),
            )
        }
    }

    /// Finds out what a call asks for.
    pub fn handle_call(&self, call: &CallRequest) -> (r: CallPlan)
        ensures
            self.plans(*call, r),
    {
        if call.is_create {
            return CallPlan::Create;
        }
        let kw = parse_kwargs(&call.args);
        let method = kw_text(&kw, "sandbox_method");
        let m = method.as_str();
        if same(m, "ping") {
            let value = yr_serialize("status", "ok");
            return CallPlan::Reply { message: self.reply(call, 0, "ok", value) };
        }
        if same(m, "get_info") {
            return CallPlan::Info;
        }
        let trace_id = access_trace_id(call.trace_id.as_str(), call.request_id.as_str());
        if same(m, "sandbox_invoke") {
            let action = kw_text(&kw, "action");
            let args = value_map_to_kwargs(kw.get("args"));
            return CallPlan::Invoke { action, args, trace_id };
        }
        if same(m, "start_tunnel_server") {
            let (ws_port, http_port) = start_tunnel_server(&call.args);
            return CallPlan::StartTunnel { ws_port, http_port };
        }
        if !same(m, "entrypoint_poll") {
            if let Some(operation) = dispatch_runtime_action(m) {
                return CallPlan::Perform { operation, kw, trace_id };
            }
        }
        let message = join("unsupported: ", m);
        CallPlan::Reply { message: self.error_reply(call, message.as_str()) }
    }
}

/// The action that a call may name as its method: any but the poll of the
/// image's process, which only a public request may ask for.
pub open spec fn callable(method: Seq<char>) -> Option<RuntimeAction> {
    if method == "entrypoint_poll"@ {
        None
    } else {
        method_action(method, 0)
    }
}

} // verus!
