//! The messages of the runtime stream.
use crate::codec::Arg;
use crate::text::{decimal, join4, to_decimal};
use vstd::prelude::*;

verus! {

/// The signal that reports activity.
pub const IDLE_REPORT_SIGNAL: i32 = 23;

/// The signal that asks for a checkpoint.
pub const CHECKPOINT_SIGNAL: i32 = 24;

/// The numbers that errors have on the stream.
#[derive(Debug, Clone, Copy, PartialEq, Eq)]
pub struct ErrorCodes {
    pub none: i32,
    pub instance_busy: i32,
    pub inner_system_error: i32,
    pub param_invalid: i32,
    pub user_function_exception: i32,
}

/// A value that travels inside a result.
#[derive(Debug, PartialEq, Eq)]
pub struct SmallObject {
    pub id: String,
    pub value: Vec<u8>,
}

/// The result of a call.
#[derive(Debug, PartialEq, Eq)]
pub struct CallResult {
    pub request_id: String,
    pub instance_id: String,
    pub code: i32,
    pub message: String,
    pub small_objects: Vec<SmallObject>,
}

/// A call of the runtime.
#[derive(Debug, PartialEq, Eq)]
pub struct CallRequest {
    pub request_id: String,
    pub sender_id: String,
    pub trace_id: String,
    pub is_create: bool,
    pub args: Vec<Arg>,
    pub return_object_id: String,
    pub return_object_ids: Vec<String>,
}

/// A signal to the proxy.
#[derive(Debug, PartialEq, Eq)]
pub struct KillRequest {
    pub instance_id: String,
    pub signal: i32,
    pub payload: Vec<u8>,
    pub request_id: String,
}

/// A code and a text.
#[derive(Debug, PartialEq, Eq)]
pub struct Status {
    pub code: i32,
    pub message: String,
}

/// What a message is about. The kinds that the runtime neither reads nor sends
/// hold nothing here.
#[derive(Debug, PartialEq, Eq)]
pub enum Body {
    CreateReq,
    CreateRsp,
    InvokeReq,
    InvokeRsp,
    ExitReq,
    ExitRsp,
    SaveReq,
    SaveRsp,
    LoadReq,
    LoadRsp,
    KillReq(KillRequest),
    KillRsp(Status),
    CallResultReq(CallResult),
    CallResultAck,
    CallReq(CallRequest),
    CallRsp(Status),
    NotifyReq,
    NotifyRsp,
    CheckpointReq,
    CheckpointRsp,
    RecoverReq,
    RecoverRsp,
    ShutdownReq(u64),
    ShutdownRsp(Status),
    SignalReq,
    SignalRsp,
    HeartbeatReq,
    HeartbeatRsp,
    CreateReqs,
    CreateRsps,
    RGroupReq,
    RGroupRsp,
    PrepareSnapReq,
    PrepareSnapRsp(Status),
    SnapStartedReq,
    SnapStartedRsp(Status),
}

/// A message of the stream.
#[derive(Debug, PartialEq, Eq)]
pub struct StreamingMessage {
    pub message_id: String,
    pub body: Option<Body>,
}

// ───────────────────────── model ─────────────────────────

/// The model of a [`CallResult`]: its one inline value, where it has one, with
/// the name of the object that it is for.
pub struct ResultModel {
    pub request_id: Seq<char>,
    pub instance_id: Seq<char>,
    pub code: i32,
    pub message: Seq<char>,
    pub objects: Seq<(Seq<char>, Seq<u8>)>,
}

impl View for CallResult {
    type V = ResultModel;

    open spec fn view(&self) -> ResultModel {
        ResultModel {
            request_id: self.request_id@,
            instance_id: self.instance_id@,
            code: self.code,
            message: self.message@,
            objects: Seq::new(
                self.small_objects@.len(),
                |i: int| (self.small_objects@[i].id@, self.small_objects@[i].value@),
            ),
        }
    }
}

/// The model of a [`KillRequest`].
pub struct KillModel {
    pub instance_id: Seq<char>,
    pub signal: i32,
    pub payload: Seq<u8>,
    pub request_id: Seq<char>,
}

impl View for KillRequest {
    type V = KillModel;

    open spec fn view(&self) -> KillModel {
        KillModel {
            instance_id: self.instance_id@,
            signal: self.signal,
            payload: self.payload@,
            request_id: self.request_id@,
        }
    }
}

/// The model of a [`Body`] that the runtime sends.
pub enum BodyModel {
    CallResultReq(ResultModel),
    KillReq(KillModel),
    CallRsp(i32, Seq<char>),
    ShutdownRsp(i32, Seq<char>),
    PrepareSnapRsp(i32, Seq<char>),
    SnapStartedRsp(i32, Seq<char>),
    HeartbeatRsp,
    /// A kind that the runtime does not send.
    Other,
}

impl View for Body {
    type V = BodyModel;

    open spec fn view(&self) -> BodyModel {
        match self {
            Body::CallResultReq(r) => BodyModel::CallResultReq(r@),
            Body::KillReq(k) => BodyModel::KillReq(k@),
            Body::CallRsp(s) => BodyModel::CallRsp(s.code, s.message@),
            Body::ShutdownRsp(s) => BodyModel::ShutdownRsp(s.code, s.message@),
            Body::PrepareSnapRsp(s) => BodyModel::PrepareSnapRsp(s.code, s.message@),
            Body::SnapStartedRsp(s) => BodyModel::SnapStartedRsp(s.code, s.message@),
            Body::HeartbeatRsp => BodyModel::HeartbeatRsp,
            _ => BodyModel::Other,
        }
    }
}

/// The model of a [`StreamingMessage`].
pub struct MessageModel {
    pub message_id: Seq<char>,
    pub body: Option<BodyModel>,
}

impl View for StreamingMessage {
    type V = MessageModel;

    open spec fn view(&self) -> MessageModel {
        MessageModel {
            message_id: self.message_id@,
            body: match self.body {
                Some(b) => Some(b@),
                None => None,
            },
        }
    }
}

// ───────────────────────── making messages ─────────────────────────

/// The result of a call. A value travels inside it, also where no object is
/// named for it.
pub open spec fn call_result(
    request_id: Seq<char>,
    instance_id: Seq<char>,
    object_id: Seq<char>,
    code: i32,
    message: Seq<char>,
    value: Seq<u8>,
) -> MessageModel {
    MessageModel {
        message_id: request_id,
        body: Some(
            BodyModel::CallResultReq(
                ResultModel {
                    request_id,
                    instance_id,
                    code,
                    message,
                    objects: if value.len() > 0 {
                        seq![(object_id, value)]
                    } else {
                        Seq::empty()
                    },
                },
            ),
        ),
    }
}

/// Makes the result of a call. A value that is empty is left out.
pub fn call_result_msg(
    request_id: String,
    instance_id: String,
    object_id: String,
    code: i32,
    message: &str,
    value: Vec<u8>,
) -> (r: StreamingMessage)
    ensures
        r@ == call_result(request_id@, instance_id@, object_id@, code, message@, value@),
{
    let mut small_objects: Vec<SmallObject> = Vec::new();
    let message_id = request_id.clone();
    if value.len() > 0 {
        small_objects.push(SmallObject { id: object_id, value });
    }
    let result = CallResult {
        request_id,
        instance_id,
        code,
        message: message.to_owned(),
        small_objects,
    };
    proof {
        if value@.len() > 0 {
            assert(result@.objects =~= seq![(object_id@, value@)]);
        } else {
            assert(result@.objects =~= Seq::empty());
        }
    }
    StreamingMessage { message_id, body: Some(Body::CallResultReq(result)) }
}

/// The identifier of a request for a checkpoint: when it was made, and its
/// number.
pub open spec fn checkpoint_id(nanos: nat, sequence: nat) -> Seq<char> {
    "rrt-checkpoint-"@ + decimal(nanos) + "-"@ + decimal(sequence)
}

/// A request for a checkpoint of an instance.
pub open spec fn checkpoint_request(
    instance_id: Seq<char>,
    nanos: nat,
    sequence: nat,
) -> MessageModel {
    MessageModel {
        message_id: checkpoint_id(nanos, sequence),
        body: Some(
            BodyModel::KillReq(
                KillModel {
                    instance_id,
                    signal: CHECKPOINT_SIGNAL,
                    payload: Seq::empty(),
                    request_id: checkpoint_id(nanos, sequence),
                },
            ),
        ),
    }
}

/// Makes a request for a checkpoint.
pub fn checkpoint_request_msg(instance_id: &str, nanos: u64, sequence: u64) -> (r: StreamingMessage)
    ensures
        r@ == checkpoint_request(instance_id@, nanos as nat, sequence as nat),
{
    let a = to_decimal(nanos);
    let b = to_decimal(sequence);
    let request_id = join4("rrt-checkpoint-", a.as_str(), "-", b.as_str());
    let payload: Vec<u8> = Vec::new();
    assert(payload@ =~= Seq::empty());
    StreamingMessage {
        message_id: request_id.clone(),
        body: Some(
            Body::KillReq(
                KillRequest {
                    instance_id: instance_id.to_owned(),
                    signal: CHECKPOINT_SIGNAL,
                    payload,
                    request_id,
                },
            ),
        ),
    }
}

/// A report that an instance is busy or idle.
pub open spec fn activity_report(instance_id: Seq<char>, payload: Seq<u8>) -> MessageModel {
    MessageModel {
        message_id: ""@,
        body: Some(
            BodyModel::KillReq(
                KillModel {
                    instance_id,
                    signal: IDLE_REPORT_SIGNAL,
                    payload,
                    request_id: ""@,
                },
            ),
        ),
    }
}

/// Makes a report of activity.
pub fn activity_report_msg(instance_id: &str, payload: Vec<u8>) -> (r: StreamingMessage)
    ensures
        r@ == activity_report(instance_id@, payload@),
{
    StreamingMessage {
        message_id: "".to_owned(),
        body: Some(
            Body::KillReq(
                KillRequest {
                    instance_id: instance_id.to_owned(),
                    signal: IDLE_REPORT_SIGNAL,
                    payload,
                    request_id: "".to_owned(),
                },
            ),
        ),
    }
}

/// The answer to a request to shut down.
pub open spec fn shutdown_response(
    message_id: Seq<char>,
    code: i32,
    message: Seq<char>,
) -> MessageModel {
    MessageModel { message_id, body: Some(BodyModel::ShutdownRsp(code, message)) }
}

/// Makes the answer to a request to shut down.
pub fn shutdown_response_msg(request_id: String, code: i32, message: String) -> (r:
    StreamingMessage)
    ensures
        r@ == shutdown_response(request_id@, code, message@),
{
    StreamingMessage {
        message_id: request_id,
        body: Some(Body::ShutdownRsp(Status { code, message })),
    }
}

/// The receipt of a call, under the number of the message that brought it. The
/// result follows under the call's own number.
pub open spec fn call_receipt(message_id: Seq<char>, codes: ErrorCodes) -> MessageModel {
    MessageModel { message_id, body: Some(BodyModel::CallRsp(codes.none, ""@)) }
}

/// Makes the receipt for a call.
pub fn call_response_msg(message_id: String, codes: &ErrorCodes) -> (r: StreamingMessage)
    ensures
        r@ == call_receipt(message_id@, *codes),
{
    StreamingMessage {
        message_id,
        body: Some(Body::CallRsp(Status { code: codes.none, message: "".to_owned() })),
    }
}

// ───────────────────────── kinds ─────────────────────────

/// Whether a message that could not be sent is sent again: not a report of
/// activity, which a new stream starts with anyway, nor a heartbeat.
pub open spec fn retried(m: StreamingMessage) -> bool {
    match m.body {
        None => false,
        Some(b) => match b {
            Body::KillReq(k) => k.signal != IDLE_REPORT_SIGNAL,
            Body::HeartbeatRsp => false,
            _ => true,
        },
    }
}

/// Whether a message that could not be sent is sent again later.
pub fn should_retry_outbound_msg(msg: &StreamingMessage) -> (r: bool)
    ensures
        r == retried(*msg),
{
    match &msg.body {
        Some(Body::KillReq(k)) => k.signal != IDLE_REPORT_SIGNAL,
        Some(Body::HeartbeatRsp) => false,
        Some(_) => true,
        None => false,
    }
}

/// The name of a kind.
pub open spec fn kind_name(b: Body) -> Seq<char> {
    match b {
        Body::CreateReq => "createReq"@,
        Body::CreateRsp => "createRsp"@,
        Body::InvokeReq => "invokeReq"@,
        Body::InvokeRsp => "invokeRsp"@,
        Body::ExitReq => "exitReq"@,
        Body::ExitRsp => "exitRsp"@,
        Body::SaveReq => "saveReq"@,
        Body::SaveRsp => "saveRsp"@,
        Body::LoadReq => "loadReq"@,
        Body::LoadRsp => "loadRsp"@,
        Body::KillReq(_) => "killReq"@,
        Body::KillRsp(_) => "killRsp"@,
        Body::CallResultReq(_) => "callResultReq"@,
        Body::CallResultAck => "callResultAck"@,
        Body::CallReq(_) => "callReq"@,
        Body::CallRsp(_) => "callRsp"@,
        Body::NotifyReq => "notifyReq"@,
        Body::NotifyRsp => "notifyRsp"@,
        Body::CheckpointReq => "checkpointReq"@,
        Body::CheckpointRsp => "checkpointRsp"@,
        Body::RecoverReq => "recoverReq"@,
        Body::RecoverRsp => "recoverRsp"@,
        Body::ShutdownReq(_) => "shutdownReq"@,
        Body::ShutdownRsp(_) => "shutdownRsp"@,
        Body::SignalReq => "signalReq"@,
        Body::SignalRsp => "signalRsp"@,
        Body::HeartbeatReq => "heartbeatReq"@,
        Body::HeartbeatRsp => "heartbeatRsp"@,
        Body::CreateReqs => "createReqs"@,
        Body::CreateRsps => "createRsps"@,
        Body::RGroupReq => "rGroupReq"@,
        Body::RGroupRsp => "rGroupRsp"@,
        Body::PrepareSnapReq => "prepareSnapReq"@,
        Body::PrepareSnapRsp(_) => "prepareSnapRsp"@,
        Body::SnapStartedReq => "snapStartedReq"@,
        Body::SnapStartedRsp(_) => "snapStartedRsp"@,
    }
}

/// The text for the log of what a message is.
pub fn body_kind(body: &Body) -> (r: &'static str)
    ensures
        r@ == kind_name(*body),
{
    match body {
        Body::CreateReq => "createReq",
        Body::CreateRsp => "createRsp",
        Body::InvokeReq => "invokeReq",
        Body::InvokeRsp => "invokeRsp",
        Body::ExitReq => "exitReq",
        Body::ExitRsp => "exitRsp",
        Body::SaveReq => "saveReq",
        Body::SaveRsp => "saveRsp",
        Body::LoadReq => "loadReq",
        Body::LoadRsp => "loadRsp",
        Body::KillReq(_) => "killReq",
        Body::KillRsp(_) => "killRsp",
        Body::CallResultReq(_) => "callResultReq",
        Body::CallResultAck => "callResultAck",
        Body::CallReq(_) => "callReq",
        Body::CallRsp(_) => "callRsp",
        Body::NotifyReq => "notifyReq",
        Body::NotifyRsp => "notifyRsp",
        Body::CheckpointReq => "checkpointReq",
        Body::CheckpointRsp => "checkpointRsp",
        Body::RecoverReq => "recoverReq",
        Body::RecoverRsp => "recoverRsp",
        Body::ShutdownReq(_) => "shutdownReq",
        Body::ShutdownRsp(_) => "shutdownRsp",
        Body::SignalReq => "signalReq",
        Body::SignalRsp => "signalRsp",
        Body::HeartbeatReq => "heartbeatReq",
        Body::HeartbeatRsp => "heartbeatRsp",
        Body::CreateReqs => "createReqs",
        Body::CreateRsps => "createRsps",
        Body::RGroupReq => "rGroupReq",
        Body::RGroupRsp => "rGroupRsp",
        Body::PrepareSnapReq => "prepareSnapReq",
        Body::PrepareSnapRsp(_) => "prepareSnapRsp",
        Body::SnapStartedReq => "snapStartedReq",
        Body::SnapStartedRsp(_) => "snapStartedRsp",
    }
}

/// Requests for checkpoints at one time differ by their sequence number.
pub proof fn checkpoint_ids_differ(nanos: nat, a: nat, b: nat)
    requires
        checkpoint_id(nanos, a) == checkpoint_id(nanos, b),
    ensures
        a == b,
{
    let prefix = "rrt-checkpoint-"@ + decimal(nanos) + "-"@;
    assert(checkpoint_id(nanos, a).skip(prefix.len() as int) =~= decimal(a));
    assert(checkpoint_id(nanos, b).skip(prefix.len() as int) =~= decimal(b));
    crate::text::decimal_reads_back(a);
    crate::text::decimal_reads_back(b);
}

} // verus!
