//! Laws of calls, their arguments and their results.
use crate::codec::{
    alternating, deserialized, kwargs_from, kwargs_of, paired_end, serialized, sized_value,
    string_entries, Arg,
};
use crate::dispatch::{
    access_summary, asked_ports, escaped, fitting, log_field, method_action, method_of,
    packed_entry, positional, serialized_entry, short_text, value_entries, width, CallPlan, Ctx,
    Performed, RuntimeAction,
};
use crate::messages::{
    activity_report, call_receipt, call_result, checkpoint_request, retried, shutdown_response,
    Body, BodyModel, CallRequest, ErrorCodes, MessageModel, StreamingMessage,
};
use crate::value::{msgpack_bytes, msgpack_value, wire, Model};
use vstd::prelude::*;
use vstd::utf8::encode_utf8;

verus! {

// ───────────────────────── results ─────────────────────────

/// Whether a message is the result of a call, for an instance, with a code and a
/// text.
pub open spec fn is_result(
    m: MessageModel,
    request_id: Seq<char>,
    instance_id: Seq<char>,
    code: i32,
    message: Seq<char>,
) -> bool {
    m.message_id == request_id && (m.body matches Some(BodyModel::CallResultReq(r)) && r.request_id
        == request_id && r.instance_id == instance_id && r.code == code && r.message == message)
}

/// The result of a call goes to the instance that sent it, whatever its code,
/// its text and its value. It goes to the runtime's own instance only where no
/// sender is named. It has the number of the call, and its value under the
/// object that the call names; no value is no object.
pub proof fn results_go_to_the_sender(
    ctx: Ctx,
    call: CallRequest,
    code: i32,
    message: Seq<char>,
    value: Seq<u8>,
)
    ensures
        call.sender_id@.len() > 0 ==> is_result(
            ctx.result(call, code, message, value),
            call.request_id@,
            call.sender_id@,
            code,
            message,
        ),
        call.sender_id@.len() == 0 ==> is_result(
            ctx.result(call, code, message, value),
            call.request_id@,
            ctx.instance_id@,
            code,
            message,
        ),
        ({
            let objects = ctx.result(call, code, message, value).body->0->CallResultReq_0.objects;
            &&& value.len() == 0 ==> objects.len() == 0
            &&& value.len() > 0 ==> objects.len() == 1 && objects[0].1 == value
            &&& value.len() > 0 && call.return_object_id@.len() > 0 ==> objects[0].0
                == call.return_object_id@
            &&& value.len() > 0 && call.return_object_id@.len() == 0
                && call.return_object_ids@.len() > 0 ==> objects[0].0
                == call.return_object_ids@[0]@
            &&& value.len() > 0 && call.return_object_id@.len() == 0
                && call.return_object_ids@.len() == 0 ==> objects[0].0.len() == 0
        }),
{
}

/// The caller of an action gets its value with the code 0. An action that there
/// is not has the code 1, and one that broke off the code for errors of the
/// runtime, with the error; neither has a value.
pub proof fn outcomes_go_to_the_sender(
    ctx: Ctx,
    call: CallRequest,
    outcome: Performed,
    codes: ErrorCodes,
)
    requires
        call.sender_id@.len() > 0,
    ensures
        ({
            let m = ctx.performed(call, outcome, codes);
            let objects = m.body->0->CallResultReq_0.objects;
            match outcome {
                Performed::Done(value) => is_result(
                    m,
                    call.request_id@,
                    call.sender_id@,
                    0,
                    "ok"@,
                ) && objects.len() == 1 && objects[0].1 == serialized(value@),
                Performed::Unsupported(action) => is_result(
                    m,
                    call.request_id@,
                    call.sender_id@,
                    1,
                    "unsupported sandbox action: "@ + action@,
                ) && objects.len() == 0,
                Performed::Broken(error) => is_result(
                    m,
                    call.request_id@,
                    call.sender_id@,
                    codes.inner_system_error,
                    "dispatch panicked: "@ + error@,
                ) && objects.len() == 0,
            }
        }),
{
}

/// A serialized value is 16 bytes of zero and the value in MessagePack.
pub proof fn serialized_values_have_a_header(m: Model)
    ensures
        serialized(m).len() == 16 + msgpack_bytes(wire(m)).len(),
        forall|i: int| 0 <= i < 16 ==> #[trigger] serialized(m)[i] == 0,
        serialized(m).skip(16) == msgpack_bytes(wire(m)),
{
    assert(serialized(m).skip(16) =~= msgpack_bytes(wire(m)));
}

// ───────────────────────── plans ─────────────────────────

/// A call that creates is planned as such; any other by its method: an action of
/// that name is carried out with the arguments of the call.
pub proof fn calls_are_planned(ctx: Ctx, call: CallRequest, plan: CallPlan, a: RuntimeAction)
    requires
        ctx.plans(call, plan),
        a != RuntimeAction::EntrypointPoll,
    ensures
        call.is_create ==> plan is Create,
        !call.is_create && method_of(call) == a.method() ==> (
        plan matches CallPlan::Perform { operation, kw, trace_id } && operation == a && kw@
            == kwargs_of(call.args@) && trace_id@ == (if call.trace_id@.len() > 0 {
            call.trace_id@
        } else {
            call.request_id@
        })),
{
    crate::action_names::method_names_are_fixed(a);
    if !call.is_create && method_of(call) == a.method() {
        special_methods(a);
    }
}

proof fn special_methods(a: RuntimeAction)
    ensures
        a.method() != "ping"@,
        a.method() != "get_info"@,
        a.method() != "sandbox_invoke"@,
        a.method() != "start_tunnel_server"@,
        a != RuntimeAction::EntrypointPoll ==> a.method() != "entrypoint_poll"@,
{
    reveal_strlit("ping");
    reveal_strlit("get_info");
    reveal_strlit("sandbox_invoke");
    reveal_strlit("start_tunnel_server");
    reveal_strlit("entrypoint_poll");
    reveal_strlit("cmd_run");
    reveal_strlit("cmd_start");
    reveal_strlit("cmd_poll");
    reveal_strlit("cmd_wait");
    reveal_strlit("cmd_kill");
    reveal_strlit("cmd_list");
    reveal_strlit("cmd_send_stdin");
    reveal_strlit("fs_read");
    reveal_strlit("fs_write");
    reveal_strlit("fs_write_chunk");
    reveal_strlit("fs_read_chunk");
    reveal_strlit("fs_list");
    reveal_strlit("fs_exists");
    reveal_strlit("fs_remove");
    reveal_strlit("fs_rename");
    reveal_strlit("fs_make_dir");
    reveal_strlit("fs_get_info");
    reveal_strlit("bash_init");
    reveal_strlit("bash_submit");
    reveal_strlit("bash_poll");
    reveal_strlit("bash_destroy");
    assert("ping"@[0] == 'p');
    assert("get_info"@[0] == 'g');
    assert("sandbox_invoke"@[0] == 's');
    assert("start_tunnel_server"@[0] == 's');
    assert("entrypoint_poll"@[0] == 'e');
    let m = a.method();
    assert(m[0] == 'c' || m[0] == 'f' || m[0] == 'b' || a == RuntimeAction::EntrypointPoll);
}

/// A call of `sandbox_invoke` is planned as a public request: its action, its
/// arguments and its trace.
pub proof fn public_requests_are_planned(ctx: Ctx, call: CallRequest, plan: CallPlan)
    requires
        ctx.plans(call, plan),
        !call.is_create,
        method_of(call) == "sandbox_invoke"@,
    ensures
        plan matches CallPlan::Invoke { action, args, trace_id } && (kwargs_of(
            call.args@,
        ).contains_key("action"@) && kwargs_of(call.args@)["action"@] is Text ==> action@
            == kwargs_of(call.args@)["action"@]->Text_0) && (kwargs_of(call.args@).contains_key(
            "args"@,
        ) && kwargs_of(call.args@)["args"@] is Dict ==> args@ == string_entries(
            kwargs_of(call.args@)["args"@]->Dict_0,
        )),
{
    reveal_strlit("ping");
    reveal_strlit("get_info");
    reveal_strlit("sandbox_invoke");
    assert("ping"@.len() == 4 && "get_info"@.len() == 8 && "sandbox_invoke"@.len() == 14);
}

/// A ping is answered with the code 0, and a method that there is not with the
/// code 1 and its name.
pub proof fn other_calls_are_answered(ctx: Ctx, call: CallRequest, plan: CallPlan)
    requires
        ctx.plans(call, plan),
        !call.is_create,
        call.sender_id@.len() > 0,
    ensures
        method_of(call) == "ping"@ ==> (plan matches CallPlan::Reply { message } && is_result(
            message@,
            call.request_id@,
            call.sender_id@,
            0,
            "ok"@,
        )),
        method_of(call) == "get_info"@ ==> plan is Info,
        method_of(call) == "start_tunnel_server"@ ==> (
        plan matches CallPlan::StartTunnel { ws_port, http_port } && (ws_port, http_port)
            == asked_ports(call.args@)),
        method_action(method_of(call), 0) is None && method_of(call) != "ping"@ && method_of(call)
            != "get_info"@ && method_of(call) != "sandbox_invoke"@ && method_of(call)
            != "start_tunnel_server"@ ==> (plan matches CallPlan::Reply { message } && is_result(
            message@,
            call.request_id@,
            call.sender_id@,
            1,
            "unsupported: "@ + method_of(call),
        )),
{
    reveal_strlit("ping");
    reveal_strlit("get_info");
    reveal_strlit("sandbox_invoke");
    reveal_strlit("start_tunnel_server");
    assert("ping"@.len() == 4 && "get_info"@.len() == 8 && "sandbox_invoke"@.len() == 14
        && "start_tunnel_server"@.len() == 19);
}

/// The method of a call is its argument `sandbox_method`.
pub proof fn methods_are_arguments(call: CallRequest, method: Seq<char>)
    ensures
        kwargs_of(call.args@).contains_key("sandbox_method"@) && kwargs_of(
            call.args@,
        )["sandbox_method"@] == Model::Text(method) ==> method_of(call) == method,
        !kwargs_of(call.args@).contains_key("sandbox_method"@) ==> method_of(call).len() == 0,
{
}

/// A tunnel is started on the ports that the third and the fifth argument give,
/// and on 8765 and 8766 where there are none.
pub proof fn tunnels_start_on_their_ports(args: Seq<Arg>, ws: int, http: int)
    requires
        0 <= ws <= 65535,
        0 <= http <= 65535,
    ensures
        args.len() <= 2 ==> asked_ports(args) == (8765u16, 8766u16),
        3 <= args.len() <= 4 && deserialized(args[2].value@) == Some(Model::Integer(ws))
            ==> asked_ports(args) == (ws as u16, 8766u16),
        5 <= args.len() <= 6 && deserialized(args[2].value@) == Some(Model::Integer(ws))
            && deserialized(args[4].value@) == Some(Model::Integer(http)) ==> asked_ports(args) == (
            ws as u16,
            http as u16,
        ),
{
    reveal_with_fuel(positional, 4);
}

// ───────────────────────── arguments ─────────────────────────

/// A dictionary gives each string key the value that it has last.
pub proof fn entries_are_last_values(items: Seq<(Model, Model)>, i: int, key: Seq<char>)
    requires
        0 <= i < items.len(),
        items[i].0 == Model::Text(key),
        forall|j: int| i < j < items.len() ==> (#[trigger] items[j]).0 != Model::Text(key),
    ensures
        string_entries(items).contains_key(key),
        string_entries(items)[key] == items[i].1,
    decreases items.len(),
{
    let shorter = items.drop_last();
    if i < items.len() - 1 {
        assert(items[items.len() - 1].0 != Model::Text(key));
        assert forall|j: int| i < j < shorter.len() implies (#[trigger] shorter[j]).0
            != Model::Text(key) by {
            assert(shorter[j] == items[j]);
        }
        entries_are_last_values(shorter, i, key);
    }
}

/// A key that a dictionary does not have is no argument.
pub proof fn absent_entries_are_absent(items: Seq<(Model, Model)>, key: Seq<char>)
    requires
        forall|j: int| 0 <= j < items.len() ==> (#[trigger] items[j]).0 != Model::Text(key),
    ensures
        !string_entries(items).contains_key(key),
    decreases items.len(),
{
    if items.len() > 0 {
        let shorter = items.drop_last();
        assert(items[items.len() - 1].0 != Model::Text(key));
        assert forall|j: int| 0 <= j < shorter.len() implies (#[trigger] shorter[j]).0
            != Model::Text(key) by {
            assert(shorter[j] == items[j]);
        }
        absent_entries_are_absent(shorter, key);
    }
}

/// A dictionary as the second argument is the arguments of a call, and one as
/// the first where there is no second.
pub proof fn dictionaries_are_arguments(args: Seq<Arg>, items: Seq<(Model, Model)>)
    requires
        string_entries(items) != Map::<Seq<char>, Model>::empty(),
    ensures
        args.len() >= 2 && deserialized(args[1].value@) == Some(Model::Dict(items)) ==> kwargs_of(
            args,
        ) == string_entries(items),
        args.len() == 1 && deserialized(args[0].value@) == Some(Model::Dict(items)) ==> kwargs_of(
            args,
        ) == string_entries(items),
{
}

/// Arguments that come as names and values in turn are read in pairs: a name has
/// the value that follows it, the last time it comes.
pub proof fn pairs_are_arguments(args: Seq<Arg>, start: int, end: int, i: int, key: Seq<char>)
    requires
        0 <= start <= i,
        i + 2 <= end <= args.len(),
        (i - start) % 2 == 0,
        (end - start) % 2 == 0,
        deserialized(args[i].value@) == Some(Model::Text(key)),
        deserialized(args[i + 1].value@) is Some,
        forall|j: int|
            i < j < end ==> deserialized((#[trigger] args[j]).value@) != Some(Model::Text(key)),
    ensures
        alternating(args, start, end).contains_key(key),
        alternating(args, start, end)[key] == deserialized(args[i + 1].value@)->0,
    decreases end - start,
{
    if i + 2 < end {
        pairs_are_arguments(args, start, end - 2, i, key);
    }
}

/// Names and values after the first argument are the arguments of a call.
pub proof fn named_arguments_are_read(args: Seq<Arg>, i: int, key: Seq<char>)
    requires
        1 <= i,
        i + 2 <= args.len(),
        i % 2 == 1,
        args.len() % 2 == 1,
        !(deserialized(args[1].value@) matches Some(Model::Dict(_))),
        deserialized(args[i].value@) == Some(Model::Text(key)),
        deserialized(args[i + 1].value@) is Some,
        forall|j: int|
            i < j < args.len() ==> deserialized((#[trigger] args[j]).value@) != Some(
                Model::Text(key),
            ),
    ensures
        kwargs_of(args).contains_key(key),
        kwargs_of(args)[key] == deserialized(args[i + 1].value@)->0,
{
    assert(paired_end(args.len() as int, 1) == args.len());
    pairs_are_arguments(args, 1, args.len() as int, i, key);
    assert(kwargs_from(args, 1) is Some);
}

/// A value behind 24 bytes and its size, in eight bytes of which the lowest comes
/// first, is read.
pub proof fn sized_values_are_read(head: Seq<u8>, size: Seq<u8>, data: Seq<u8>, more: Seq<u8>)
    requires
        head.len() == 24,
        size.len() == 8,
        size[0] == data.len(),
        forall|i: int| 1 <= i < 8 ==> size[i] == 0,
        data.len() > 0,
        msgpack_value(data) is Some,
    ensures
        deserialized(head + size + data + more) == msgpack_value(data),
{
    let buf = head + size + data + more;
    assert(buf.subrange(24, 32) =~= size);
    reveal_with_fuel(crate::codec::le_value, 10);
    assert(size.drop_first()[0] == 0);
    assert(size.drop_first().drop_first()[0] == 0);
    assert(size.drop_first().drop_first().drop_first()[0] == 0);
    assert(size.drop_first().drop_first().drop_first().drop_first()[0] == 0);
    assert(size.drop_first().drop_first().drop_first().drop_first().drop_first()[0] == 0);
    assert(size.drop_first().drop_first().drop_first().drop_first().drop_first().drop_first()[0]
        == 0);
    assert(size.drop_first().drop_first().drop_first().drop_first().drop_first().drop_first().drop_first()[0]
        == 0);
    assert(crate::codec::le_value(size) == data.len());
    assert(buf.subrange(32, 32 + data.len() as int) =~= data);
    assert(sized_value(buf, 32, data.len() as int) == msgpack_value(data));
}

/// The arguments of a public request are the string entries of a dictionary;
/// anything else has none.
pub proof fn request_arguments_are_entries(items: Seq<(Model, Model)>, text: Seq<char>)
    ensures
        value_entries(Some(Model::Dict(items))) == string_entries(items),
        value_entries(None) == Map::<Seq<char>, Model>::empty(),
        value_entries(Some(Model::Text(text))) == Map::<Seq<char>, Model>::empty(),
        value_entries(Some(Model::Nil)) == Map::<Seq<char>, Model>::empty(),
{
}

// ───────────────────────── messages ─────────────────────────

/// Messages are kept for another connection, but for reports of idleness, which
/// have the signal 23, answers to heartbeats, and messages without a body.
pub proof fn messages_are_kept(m: StreamingMessage)
    ensures
        m.body is None ==> !retried(m),
        m.body matches Some(Body::HeartbeatRsp) ==> !retried(m),
        m.body matches Some(Body::KillReq(k)) ==> retried(m) == (k.signal != 23),
        m.body matches Some(Body::CallResultReq(_)) ==> retried(m),
        m.body matches Some(Body::CallRsp(_)) ==> retried(m),
        m.body matches Some(Body::ShutdownRsp(_)) ==> retried(m),
        m.body matches Some(Body::PrepareSnapRsp(_)) ==> retried(m),
        m.body matches Some(Body::SnapStartedRsp(_)) ==> retried(m),
{
}

/// A request for a checkpoint is a kill of the instance with the signal 24, and a
/// report of activity one with the signal 23 and the report.
pub proof fn signals_are_sent(instance_id: Seq<char>, nanos: nat, sequence: nat, payload: Seq<u8>)
    ensures
        checkpoint_request(instance_id, nanos, sequence).body matches Some(BodyModel::KillReq(k))
            && k.instance_id == instance_id && k.signal == 24 && k.payload.len() == 0
            && k.request_id == checkpoint_request(instance_id, nanos, sequence).message_id,
        activity_report(instance_id, payload).body matches Some(BodyModel::KillReq(k))
            && k.instance_id == instance_id && k.signal == 23 && k.payload == payload,
{
}

/// A receipt has the number of its message and the code for no error; the answer
/// to a shutdown has its code and text.
pub proof fn receipts_are_sent(
    message_id: Seq<char>,
    codes: ErrorCodes,
    code: i32,
    message: Seq<char>,
)
    ensures
        call_receipt(message_id, codes).message_id == message_id,
        call_receipt(message_id, codes).body matches Some(BodyModel::CallRsp(c, m)) && c
            == codes.none && m.len() == 0,
        shutdown_response(message_id, code, message).message_id == message_id,
        shutdown_response(message_id, code, message).body matches Some(
            BodyModel::ShutdownRsp(c, m),
        ) && c == code && m == message,
{
    reveal_strlit("");
}

/// The parts of a result stand in its message.
pub proof fn results_have_their_parts(
    request_id: Seq<char>,
    instance_id: Seq<char>,
    object_id: Seq<char>,
    code: i32,
    message: Seq<char>,
    value: Seq<u8>,
)
    ensures
        is_result(
            call_result(request_id, instance_id, object_id, code, message, value),
            request_id,
            instance_id,
            code,
            message,
        ),
        value.len() > 0 ==> call_result(
            request_id,
            instance_id,
            object_id,
            code,
            message,
            value,
        ).body->0->CallResultReq_0.objects == seq![(object_id, value)],
{
}

// ───────────────────────── the log ─────────────────────────

/// A text of one line and at most 512 bytes stands in the log as it is.
pub proof fn short_lines_are_logged(s: Seq<char>)
    requires
        !s.contains('\n'),
        !s.contains('\r'),
        encode_utf8(s).len() <= 512,
    ensures
        log_field(s) == s,
{
    lines_escape_to_themselves(s);
}

proof fn lines_escape_to_themselves(s: Seq<char>)
    requires
        !s.contains('\n'),
        !s.contains('\r'),
    ensures
        escaped(s) == s,
    decreases s.len(),
{
    if s.len() > 0 {
        let shorter = s.drop_last();
        assert(s[s.len() - 1] == s.last());
        assert forall|i: int| 0 <= i < shorter.len() implies shorter[i] != '\n' && shorter[i]
            != '\r' by {
            assert(shorter[i] == s[i]);
        }
        lines_escape_to_themselves(shorter);
        assert(shorter.push(s.last()) =~= s);
    } else {
        assert(escaped(s) =~= s);
    }
}

/// The ends of lines stand in the log as two characters each.
pub proof fn line_ends_are_escaped(s: Seq<char>)
    ensures
        escaped(s.push('\n')) == escaped(s).push('\\').push('n'),
        escaped(s.push('\r')) == escaped(s).push('\\').push('r'),
{
    reveal_strlit("\\r");
    reveal_strlit("\\n");
    assert(s.push('\n').drop_last() =~= s);
    assert(s.push('\r').drop_last() =~= s);
    assert(escaped(s.push('\n')) =~= escaped(s).push('\\').push('n'));
    assert(escaped(s.push('\r')) =~= escaped(s).push('\\').push('r'));
}

/// A call is logged with its command, or with its process.
pub proof fn calls_are_logged(kw: Map<Seq<char>, Model>, cmd: Seq<char>)
    ensures
        kw.contains_key("cmd"@) && kw["cmd"@] == Model::Text(cmd) ==> access_summary(
            "cmd_run"@,
            kw,
        ) == "cmd_run"@ + " "@ + log_field(cmd),
        !kw.contains_key("cmd"@) && !kw.contains_key("command"@) ==> access_summary(
            "cmd_run"@,
            kw,
        ) == "cmd_run"@,
        kw.contains_key("command"@) && kw["command"@] == Model::Text(cmd) ==> access_summary(
            "bash_submit"@,
            kw,
        ) == "bash_submit"@ + " "@ + log_field(cmd),
        access_summary("fs_read"@, kw) == "fs_read"@,
{
    reveal_strlit("cmd_run");
    reveal_strlit("cmd_start");
    reveal_strlit("cmd_poll");
    reveal_strlit("cmd_wait");
    reveal_strlit("cmd_kill");
    reveal_strlit("cmd_send_stdin");
    reveal_strlit("bash_submit");
    reveal_strlit("fs_read");
    assert("fs_read"@.len() == 7 && "cmd_run"@.len() == 7 && "cmd_start"@.len() == 9
        && "bash_submit"@.len() == 11 && "cmd_poll"@.len() == 8 && "cmd_wait"@.len() == 8
        && "cmd_kill"@.len() == 8 && "cmd_send_stdin"@.len() == 14);
    assert("fs_read"@[0] == 'f' && "cmd_run"@[0] == 'c');
}

/// A long text is cut in the log: as much of it as 512 bytes hold, and three
/// dots.
pub proof fn long_lines_are_cut(s: Seq<char>)
    requires
        encode_utf8(escaped(s)).len() > 512,
    ensures
        exists|n: int|
            0 <= n < escaped(s).len() && log_field(s) == #[trigger] escaped(s).take(n) + "..."@
                && encode_utf8(escaped(s).take(n)).len() <= 512 && encode_utf8(
                escaped(s).take(n + 1),
            ).len() > 512,
{
    let e = escaped(s);
    assert(e.take(e.len() as int) =~= e);
    longest_fit(e, e.len());
    let n = fitting(e, 512, e.len()) as int;
    assert(log_field(s) == e.take(n) + "..."@);
}

proof fn longest_fit(e: Seq<char>, n: nat)
    requires
        n <= e.len(),
        width(e, n) > 512,
    ensures
        fitting(e, 512, n) < n,
        width(e, fitting(e, 512, n)) <= 512,
        width(e, (fitting(e, 512, n) + 1) as nat) > 512,
    decreases n,
{
    if n == 0 {
        assert(e.take(0) =~= Seq::<char>::empty());
        assert(encode_utf8(Seq::<char>::empty()).len() == 0);
    } else if width(e, (n - 1) as nat) > 512 {
        longest_fit(e, (n - 1) as nat);
    }
}

/// Bytes that are too few hold no value.
pub proof fn short_bytes_hold_nothing(buf: Seq<u8>)
    requires
        buf.len() < 16,
    ensures
        deserialized(buf) is None,
{
}

/// A value behind eight bytes and its size, in the next eight bytes as a number
/// below 128, is read.
pub proof fn headed_values_are_read(
    head: Seq<u8>,
    size: Seq<u8>,
    data: Seq<u8>,
    more: Seq<u8>,
)
    requires
        head.len() == 8,
        size.len() == 8,
        size[0] == data.len(),
        0 < data.len() < 128,
        head.len() + size.len() + data.len() + more.len() < 32,
        msgpack_value(data) is Some,
    ensures
        deserialized(head + size + data + more) == msgpack_value(data),
{
    let buf = head + size + data + more;
    assert(buf.subrange(8, 16) =~= size);
    assert(buf.subrange(16, 16 + data.len() as int) =~= data);
    assert(sized_value(buf, 16, data.len() as int) == msgpack_value(data));
}

/// A value behind sixteen bytes that tell no size is read, and so is a bare one;
/// binary data is read as what it holds.
pub proof fn bare_values_are_read(head: Seq<u8>, data: Seq<u8>, inner: Seq<u8>)
    requires
        head.len() == 16,
        head[8] == 0,
        data.len() < 16,
    ensures
        msgpack_value(data) is Some && !(msgpack_value(data)->0 is Binary) ==> deserialized(
            head + data,
        ) == msgpack_value(data),
        msgpack_value(data) is None && msgpack_value(head + data) is Some && !(msgpack_value(
            head + data,
        )->0 is Binary) ==> deserialized(head + data) == msgpack_value(head + data),
        msgpack_value(data) is None && msgpack_value(head + data) is None ==> deserialized(
            head + data,
        ) is None,
        msgpack_value(data) == Some(Model::Binary(inner)) && inner.len() < 16 && msgpack_value(
            inner,
        ) is Some && !(msgpack_value(inner)->0 is Binary) ==> deserialized(head + data)
            == msgpack_value(inner),
{
    let buf = head + data;
    assert(buf.skip(16) =~= data);
    assert(buf.subrange(8, 16)[0] == 0);
    reveal_with_fuel(crate::codec::unwrapped, 3);
    reveal_with_fuel(deserialized, 3);
}

/// A short entry is 16 bytes of zero and a dictionary of one entry.
pub proof fn short_entries_have_a_header(key: Seq<char>, value: Seq<char>)
    ensures
        serialized_entry(key, value).len() == 16 + packed_entry(key, value).len(),
        forall|i: int| 0 <= i < 16 ==> #[trigger] serialized_entry(key, value)[i] == 0,
        serialized_entry(key, value).skip(16) == packed_entry(key, value),
        encode_utf8(key).len() < 32 ==> short_text(key).len() == 1 + encode_utf8(key).len()
            && short_text(key)[0] == 0xa0 + encode_utf8(key).len() && short_text(key).skip(1)
            == encode_utf8(key),
{
    assert(serialized_entry(key, value).skip(16) =~= packed_entry(key, value));
    assert(short_text(key).skip(1) =~= encode_utf8(key));
}

} // verus!
