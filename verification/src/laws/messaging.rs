//! Laws of the message stream: readiness, inbound messages, checkpoints and
//! reconnects.

use crate::args::{reconnect_args, ArgsModel};
use crate::messages::{kind_name, Body, BodyModel, CallRequest, ErrorCodes, StreamingMessage};
use crate::stream_loop::{
    acts_as, asks_for, combined, env_view, left, ready_error, rearm_failure, shutdown_answer,
    snap_answer, started_answer, stream_metadata_of, CHECKPOINT_DRAIN_SECONDS, Inbound, LoopModel,
    Phase, ReadyModel, ReadyWait, Rearm, RuntimeReadyState, Service, SnapPreparation, StreamAction,
    StreamActionModel, StreamEvent,
};
use crate::text::{decimal, signed_decimal};
use vstd::prelude::*;
use vstd::utf8::encode_utf8;

verus! {

// ───────────────────────── readiness ─────────────────────────

/// The services are ready once all are, and have failed once one has, with the
/// message of the first; until then they are starting.
pub proof fn services_are_ready_together(states: Seq<ReadyModel>, all: ReadyModel, i: int)
    requires
        combined(states, all),
        0 <= i < states.len(),
    ensures
        all is Ready ==> states[i] is Ready,
        states[i] is Failed ==> all is Failed,
        states[i] is Starting && !(all is Failed) ==> all is Starting,
        states[i] is Failed && (forall|j: int| 0 <= j < i ==> !(#[trigger] states[j] is Failed))
            ==> all == states[i],
        (forall|j: int| 0 <= j < states.len() ==> #[trigger] states[j] is Ready) ==> all is Ready,
        (forall|j: int| 0 <= j < states.len() ==> !(#[trigger] states[j] is Failed)) ==> !(all
            is Failed),
{
    assert(states[i] is Ready || states[i] is Failed || states[i] is Starting);
    if all is Failed {
        let message = all->Failed_0;
        let k = choose|k: int|
            0 <= k < states.len() && #[trigger] states[k] == ReadyModel::Failed(message)
                && forall|j: int| 0 <= j < k ==> !(#[trigger] states[j] is Failed);
        assert(states[k] is Failed);
        if states[i] is Failed && (forall|j: int|
            0 <= j < i ==> !(#[trigger] states[j] is Failed)) {
            assert(i == k) by {
                if k < i {
                    assert(states[k] is Failed);
                } else if i < k {
                    assert(states[i] is Failed);
                }
            }
        }
    }
}

/// A runtime that is ready has nothing to tell; one that has failed tells why,
/// and one that takes more than 30 seconds tells that.
pub proof fn failures_to_get_ready_are_told(m: String)
    ensures
        ready_error(ReadyWait::Reached(RuntimeReadyState::Ready)) is None,
        ready_error(ReadyWait::Reached(RuntimeReadyState::Failed(m))) == Some(m@),
        ready_error(ReadyWait::Reached(RuntimeReadyState::Starting)) is Some,
        ready_error(ReadyWait::Closed) is Some,
        ready_error(ReadyWait::TimedOut) == Some(
            "RRT service readiness timed out after "@ + decimal(30) + " seconds"@,
        ),
{
}

// ───────────────────────── inbound messages ─────────────────────────

/// A call is acknowledged under its number and then carried out as it came; where
/// it names no sender, the runtime's instance is the sender.
pub proof fn calls_are_acknowledged(
    msg: StreamingMessage,
    call: CallRequest,
    instance_id: Seq<char>,
    codes: ErrorCodes,
    step: Inbound,
)
    requires
        asks_for(msg, instance_id, codes, step),
        msg.body == Some(Body::CallReq(call)),
    ensures
        step matches Inbound::Call { receipt, call: sent } && receipt@.message_id == msg.message_id@
            && (receipt@.body matches Some(BodyModel::CallRsp(code, _)) && code == codes.none)
            && sent.request_id == call.request_id && sent.args == call.args && sent.is_create
            == call.is_create && sent.trace_id == call.trace_id && sent.return_object_id
            == call.return_object_id && sent.return_object_ids == call.return_object_ids && (
        call.sender_id@.len() > 0 ==> sent.sender_id@ == call.sender_id@) && (
        call.sender_id@.len() == 0 ==> sent.sender_id@ == instance_id),
{
}

/// Each other message asks for what it says, under its own number; a heartbeat is
/// answered at once, and what the runtime does not know is passed over.
pub proof fn messages_ask_for_what_they_say(
    msg: StreamingMessage,
    instance_id: Seq<char>,
    codes: ErrorCodes,
    step: Inbound,
)
    requires
        asks_for(msg, instance_id, codes, step),
    ensures
        msg.body matches Some(Body::ShutdownReq(grace)) ==> (
        step matches Inbound::Shutdown { message_id, grace_seconds } && message_id == msg.message_id
            && grace_seconds == grace),
        msg.body matches Some(Body::PrepareSnapReq) ==> (
        step matches Inbound::PrepareSnap { message_id } && message_id == msg.message_id),
        msg.body matches Some(Body::SnapStartedReq) ==> (
        step matches Inbound::SnapStarted { message_id } && message_id == msg.message_id),
        msg.body matches Some(Body::HeartbeatReq) ==> (step matches Inbound::Reply { message }
            && message@.message_id == msg.message_id@ && message@.body == Some(
            BodyModel::HeartbeatRsp,
        )),
        msg.body matches Some(Body::KillRsp(status)) ==> (
        step matches Inbound::SignalAnswered { message_id, status: s } && message_id
            == msg.message_id && s == status),
        msg.body is None ==> step is Ignore,
{
}

/// A runtime that is idle accepts a shutdown; one that is still busy after the
/// grace refuses it and tells how much work is going on.
pub proof fn shutdowns_are_answered(
    message_id: Seq<char>,
    active: i64,
    grace_seconds: u64,
    codes: ErrorCodes,
)
    ensures
        ({
            let yes = shutdown_answer(message_id, true, active, grace_seconds, codes);
            let no = shutdown_answer(message_id, false, active, grace_seconds, codes);
            &&& yes.message_id == message_id && no.message_id == message_id
            &&& yes.body matches Some(BodyModel::ShutdownRsp(code, _)) && code == codes.none
            &&& no.body matches Some(BodyModel::ShutdownRsp(code, text)) && code
                == codes.instance_busy && text == "shutdown rejected: "@ + signed_decimal(
                active as int,
            ) + " in-flight request(s) still running after "@ + decimal(grace_seconds as nat)
                + "s"@
        }),
{
}

// ───────────────────────── checkpoints ─────────────────────────

/// The preparation of a checkpoint is answered with the code for no error where
/// it is done, for a busy instance where work goes on, and for an error of the
/// runtime where it cannot be handed over.
pub proof fn preparations_are_answered(
    message_id: Seq<char>,
    active: i64,
    seconds: u64,
    codes: ErrorCodes,
)
    ensures
        ({
            let ready = snap_answer(message_id, SnapPreparation::Ready, codes);
            let none = snap_answer(message_id, SnapPreparation::NoBarrier, codes);
            let busy = snap_answer(message_id, SnapPreparation::Busy { active, seconds }, codes);
            &&& ready.message_id == message_id && none.message_id == message_id && busy.message_id
                == message_id
            &&& ready.body matches Some(BodyModel::PrepareSnapRsp(code, _)) && code == codes.none
            &&& none.body matches Some(BodyModel::PrepareSnapRsp(code, _)) && code
                == codes.inner_system_error
            &&& busy.body matches Some(BodyModel::PrepareSnapRsp(code, text)) && code
                == codes.instance_busy && text == "PrepareSnap rejected: "@ + signed_decimal(
                active as int,
            ) + " in-flight request(s) after "@ + decimal(seconds as nat) + "s"@
        }),
        CHECKPOINT_DRAIN_SECONDS == 60,
{
}

/// Work that is taken up after a checkpoint is answered with the code for no
/// error, or with what went wrong.
pub proof fn starts_are_answered(message_id: Seq<char>, e: Seq<char>, codes: ErrorCodes)
    ensures
        started_answer(message_id, None, codes).message_id == message_id,
        started_answer(message_id, None, codes).body matches Some(
            BodyModel::SnapStartedRsp(code, _),
        ) && code == codes.none,
        started_answer(message_id, Some(e), codes).body matches Some(
            BodyModel::SnapStartedRsp(code, text),
        ) && code == codes.inner_system_error && text == "SnapStarted listener rearm failed: "@
            + e,
{
}

/// The services that run are taken up again each once: HTTP, then the tunnel,
/// then checkpoints.
pub proof fn services_are_taken_up_again(http: bool, tunnel: bool, checkpoint: bool)
    ensures
        ({
            let all = left(Rearm { http, tunnel, checkpoint, done: 0 });
            &&& all.contains(Service::Http) == http
            &&& all.contains(Service::Tunnel) == tunnel
            &&& all.contains(Service::Checkpoint) == checkpoint
            &&& http ==> all[0] == Service::Http
            &&& checkpoint ==> all.last() == Service::Checkpoint
            &&& all.len() == (if http {
                1int
            } else {
                0int
            }) + (if tunnel {
                1int
            } else {
                0int
            }) + (if checkpoint {
                1int
            } else {
                0int
            })
        }),
{
    let all = left(Rearm { http, tunnel, checkpoint, done: 0 });
    let a = if http {
        1int
    } else {
        0int
    };
    let b = if tunnel {
        1int
    } else {
        0int
    };
    assert(http ==> all[0] == Service::Http);
    assert(tunnel ==> all[a] == Service::Tunnel);
    assert(checkpoint ==> all[a + b] == Service::Checkpoint);
}

// ───────────────────────── reconnects ─────────────────────────

/// The pause after a failure doubles, from 200 milliseconds up to five seconds.
pub proof fn pauses_double(m: LoopModel, event: StreamEvent)
    requires
        m.wf(),
        event is Failed || event is Lost,
    ensures
        200 <= m.backoff <= 5000,
        m.next(event).1 == (StreamActionModel::Pause { millis: m.backoff, refused: None }),
        m.backoff <= 2500 ==> m.next(event).0.backoff == 2 * m.backoff,
        m.backoff > 2500 ==> m.next(event).0.backoff == 5000,
        m.next(event).0.pending == m.pending,
        m.next(event).0.phase == Phase::Pausing,
{
}

/// A stream that was opened gets the state of the runtime for its instance, and
/// the next pause is short again.
pub proof fn opened_streams_get_the_state(m: LoopModel, state: String)
    ensures
        ({
            let (after, action) = m.next(StreamEvent::Opened(state));
            &&& after.backoff == 200
            &&& after.phase == Phase::Syncing
            &&& after.pending == m.pending
            &&& action matches StreamActionModel::Report { report } && (
            report.body matches Some(BodyModel::KillReq(k)) && k.instance_id == m.instance_id
                && k.signal == 23 && k.payload == encode_utf8(state@))
        }),
{
}

/// Each attempt reads the environment and is counted.
pub proof fn attempts_are_counted(m: LoopModel)
    ensures
        m.next(StreamEvent::Ready).1 is ReadEnvironment,
        m.next(StreamEvent::Ready).0.phase == Phase::Reading,
        m.attempts < u64::MAX ==> m.next(StreamEvent::Ready).0.attempts == m.attempts + 1,
{
}

/// A stream is opened to the address that is set, under the identity that is
/// set. Without another environment both stay as they are.
pub proof fn streams_are_opened(m: LoopModel, event: StreamEvent)
    requires
        event is EnvironmentRead,
    ensures
        ({
            let (after, action) = m.next(event);
            let env = env_view(event->EnvironmentRead_0);
            &&& env is None ==> after.baseline == m.baseline && after.instance_id
                == m.baseline.instance_id && (
            action matches StreamActionModel::Open { endpoint, args } && endpoint == "http://"@
                + m.baseline.rt_server && args == m.baseline)
            &&& env is Some && reconnect_args(m.baseline, env->0) is Ok ==> {
                let target = reconnect_args(m.baseline, env->0)->Ok_0;
                &&& action matches StreamActionModel::Open { endpoint, args } && endpoint
                    == "http://"@ + target.rt_server && args == target
                &&& after.instance_id == target.instance_id
                &&& after.baseline.instance_id == target.instance_id
                &&& after.baseline.rt_server == m.baseline.rt_server
                &&& after.baseline.job_id == m.baseline.job_id
            }
            &&& env is Some && reconnect_args(m.baseline, env->0) is Err ==> action == (
            StreamActionModel::Pause {
                millis: m.backoff,
                refused: Some(reconnect_args(m.baseline, env->0)->Err_0),
            }) && after.baseline == m.baseline
        }),
{
}

/// Messages go through as they come, in both directions.
pub proof fn messages_go_through(m: LoopModel, message: StreamingMessage)
    ensures
        m.next(StreamEvent::Outbound(message)).1 == (StreamActionModel::Send { message }),
        m.next(StreamEvent::Inbound(message)).1 == (StreamActionModel::Handle { message }),
        m.next(StreamEvent::OutboundClosed).1 is Stop,
        m.pending is None ==> m.next(StreamEvent::Sent).1 is Serve && m.next(
            StreamEvent::Handled(true),
        ).1 is Serve,
        m.pending == Some(message) ==> m.next(StreamEvent::Sent).1 == (StreamActionModel::Send {
            message,
        }) && m.next(StreamEvent::Sent).0.pending is None,
{
}

/// A new loop starts with a short pause and nothing to send.
pub proof fn loops_start_fresh(args: ArgsModel)
    ensures
        LoopModel::fresh(args).backoff == 200,
        LoopModel::fresh(args).attempts == 0,
        LoopModel::fresh(args).pending is None,
        LoopModel::fresh(args).baseline == args,
{
}

/// A stream is opened for the runtime and its instance, to the proxy.
pub proof fn streams_name_both_ends(args: ArgsModel)
    ensures
        stream_metadata_of(args).len() == 4,
        stream_metadata_of(args).contains(("runtime_id"@, args.runtime_id)),
        stream_metadata_of(args).contains(("instance_id"@, args.instance_id)),
        stream_metadata_of(args).contains(("source_id"@, args.instance_id)),
        stream_metadata_of(args).contains(("dst_id"@, "function-proxy"@)),
{
    let all = stream_metadata_of(args);
    assert(all[0] == ("runtime_id"@, args.runtime_id));
    assert(all[1] == ("instance_id"@, args.instance_id));
    assert(all[2] == ("source_id"@, args.instance_id));
    assert(all[3] == ("dst_id"@, "function-proxy"@));
}

/// Messages are told by the names of their kinds.
pub proof fn messages_are_named(b: Body)
    ensures
        kind_name(Body::CreateReq) == "createReq"@,
        kind_name(Body::CreateRsp) == "createRsp"@,
        kind_name(Body::InvokeReq) == "invokeReq"@,
        kind_name(Body::InvokeRsp) == "invokeRsp"@,
        kind_name(Body::ExitReq) == "exitReq"@,
        kind_name(Body::ExitRsp) == "exitRsp"@,
        kind_name(Body::SaveReq) == "saveReq"@,
        kind_name(Body::SaveRsp) == "saveRsp"@,
        kind_name(Body::LoadReq) == "loadReq"@,
        kind_name(Body::LoadRsp) == "loadRsp"@,
        b matches Body::KillReq(_) ==> kind_name(b) == "killReq"@,
        b matches Body::KillRsp(_) ==> kind_name(b) == "killRsp"@,
        b matches Body::CallResultReq(_) ==> kind_name(b) == "callResultReq"@,
        kind_name(Body::CallResultAck) == "callResultAck"@,
        b matches Body::CallReq(_) ==> kind_name(b) == "callReq"@,
        b matches Body::CallRsp(_) ==> kind_name(b) == "callRsp"@,
        kind_name(Body::NotifyReq) == "notifyReq"@,
        kind_name(Body::NotifyRsp) == "notifyRsp"@,
        kind_name(Body::CheckpointReq) == "checkpointReq"@,
        kind_name(Body::CheckpointRsp) == "checkpointRsp"@,
        kind_name(Body::RecoverReq) == "recoverReq"@,
        kind_name(Body::RecoverRsp) == "recoverRsp"@,
        b matches Body::ShutdownReq(_) ==> kind_name(b) == "shutdownReq"@,
        b matches Body::ShutdownRsp(_) ==> kind_name(b) == "shutdownRsp"@,
        kind_name(Body::SignalReq) == "signalReq"@,
        kind_name(Body::SignalRsp) == "signalRsp"@,
        kind_name(Body::HeartbeatReq) == "heartbeatReq"@,
        kind_name(Body::HeartbeatRsp) == "heartbeatRsp"@,
        kind_name(Body::CreateReqs) == "createReqs"@,
        kind_name(Body::CreateRsps) == "createRsps"@,
        kind_name(Body::RGroupReq) == "rGroupReq"@,
        kind_name(Body::RGroupRsp) == "rGroupRsp"@,
        kind_name(Body::PrepareSnapReq) == "prepareSnapReq"@,
        b matches Body::PrepareSnapRsp(_) ==> kind_name(b) == "prepareSnapRsp"@,
        kind_name(Body::SnapStartedReq) == "snapStartedReq"@,
        b matches Body::SnapStartedRsp(_) ==> kind_name(b) == "snapStartedRsp"@,
{
}

/// What is done is what the loop has decided on, down to each value.
pub proof fn decisions_are_carried_out(r: StreamAction, message: StreamingMessage, millis: u64)
    ensures
        acts_as(r, StreamActionModel::Send { message }) ==> r == (StreamAction::Send { message }),
        acts_as(r, StreamActionModel::Handle { message }) ==> r == (StreamAction::Handle {
            message,
        }),
        acts_as(r, StreamActionModel::Pause { millis, refused: None }) ==> r == (
        StreamAction::Pause { millis, refused: None }),
        acts_as(r, StreamActionModel::ReadEnvironment) ==> r is ReadEnvironment,
        acts_as(r, StreamActionModel::Serve) ==> r is Serve,
        acts_as(r, StreamActionModel::Stop) ==> r is Stop,
{
}

/// A stream is opened where the loop says, and under the identity that it says;
/// a report is sent as it is, and a refusal is told.
pub proof fn openings_are_carried_out(
    r: StreamAction,
    endpoint: Seq<char>,
    args: ArgsModel,
    report: crate::messages::MessageModel,
    millis: u64,
    refused: Seq<char>,
)
    ensures
        acts_as(r, StreamActionModel::Open { endpoint, args }) ==> (
        r matches StreamAction::Open { endpoint: e, args: a } && e@ == endpoint && a@ == args),
        acts_as(r, StreamActionModel::Report { report }) ==> (
        r matches StreamAction::Send { message } && message@ == report),
        acts_as(r, StreamActionModel::Pause { millis, refused: Some(refused) }) ==> (
        r matches StreamAction::Pause { millis: n, refused: Some(t) } && n == millis && t@
            == refused),
{
}

/// What is told of a service that could not be taken up again.
pub proof fn failed_services_are_named(e: Seq<char>)
    ensures
        rearm_failure(Service::Http, e) == "HTTP"@ + " listener rearm failed: "@ + e,
        rearm_failure(Service::Tunnel, e) == "tunnel"@ + " listener rearm failed: "@ + e,
        rearm_failure(Service::Checkpoint, e) == "checkpoint"@ + " listener rearm failed: "@ + e,
{
}

/// Each answer says in words what it says by its code, and attempts are counted
/// as far as numbers go.
pub proof fn answers_say_it_in_words(
    message_id: Seq<char>,
    active: i64,
    grace_seconds: u64,
    codes: ErrorCodes,
    m: LoopModel,
)
    ensures
        shutdown_answer(message_id, true, active, grace_seconds, codes).body == Some(
            BodyModel::ShutdownRsp(codes.none, "shutdown accepted after inflight drained"@),
        ),
        snap_answer(message_id, SnapPreparation::Ready, codes).body == Some(
            BodyModel::PrepareSnapRsp(codes.none, "PrepareSnap completed successfully"@),
        ),
        snap_answer(message_id, SnapPreparation::NoBarrier, codes).body == Some(
            BodyModel::PrepareSnapRsp(
                codes.inner_system_error,
                "checkpoint handoff barrier is unavailable"@,
            ),
        ),
        started_answer(message_id, None, codes).body == Some(
            BodyModel::SnapStartedRsp(codes.none, "SnapStarted handled successfully"@),
        ),
        m.attempts == u64::MAX ==> m.next(StreamEvent::Ready).0.attempts == u64::MAX,
{
}

} // verus!
