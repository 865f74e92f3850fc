//! The life of the runtime stream: readiness, reconnects, and what an inbound
//! message asks for.
use crate::args::{reconnect_args, Args, ArgsModel, ReconnectControlState};
use crate::messages::{
    activity_report, activity_report_msg, call_receipt, call_response_msg, call_result,
    call_result_msg, retried, should_retry_outbound_msg, shutdown_response, shutdown_response_msg,
    Body, BodyModel, CallRequest, ErrorCodes, MessageModel, Status, StreamingMessage,
};
use crate::startup::{CheckpointOutcome, Environment};
use crate::text::{decimal, join, join3, signed_decimal, to_decimal, to_signed_decimal};
use vstd::prelude::*;

verus! {

// ───────────────────────── readiness ─────────────────────────

/// How far a service has come.
#[derive(Debug, PartialEq, Eq)]
pub enum RuntimeReadyState {
    Starting,
    Ready,
    Failed(String),
}

/// The model of a [`RuntimeReadyState`].
pub enum ReadyModel {
    Starting,
    Ready,
    Failed(Seq<char>),
}

impl View for RuntimeReadyState {
    type V = ReadyModel;

    open spec fn view(&self) -> ReadyModel {
        match self {
            RuntimeReadyState::Starting => ReadyModel::Starting,
            RuntimeReadyState::Ready => ReadyModel::Ready,
            RuntimeReadyState::Failed(m) => ReadyModel::Failed(m@),
        }
    }
}

/// The models of a sequence of states.
pub open spec fn ready_models(states: Seq<RuntimeReadyState>) -> Seq<ReadyModel> {
    Seq::new(states.len(), |i: int| states[i]@)
}

/// Whether `message` is that of the first service that failed.
pub open spec fn first_failure(states: Seq<ReadyModel>, message: Seq<char>) -> bool {
    exists|i: int|
        0 <= i < states.len() && #[trigger] states[i] == ReadyModel::Failed(message) && forall|
            j: int,
        |
            0 <= j < i ==> !(#[trigger] states[j] is Failed)
}

/// The readiness of several services together: failed where one failed, ready
/// where all are.
pub open spec fn combined(states: Seq<ReadyModel>, all: ReadyModel) -> bool {
    match all {
        ReadyModel::Failed(message) => first_failure(states, message),
        ReadyModel::Ready => forall|i: int| 0 <= i < states.len() ==> #[trigger] states[i] is Ready,
        ReadyModel::Starting => (forall|i: int|
            0 <= i < states.len() ==> !(#[trigger] states[i] is Failed)) && exists|i: int|
            0 <= i < states.len() && #[trigger] states[i] is Starting,
    }
}

/// The readiness of several services together.
pub fn combine_runtime_readiness(states: &Vec<RuntimeReadyState>) -> (r: RuntimeReadyState)
    ensures
        combined(ready_models(states@), r@),
{
    let ghost m = ready_models(states@);
    let mut starting = false;
    for i in 0..states.len()
        invariant
            m == ready_models(states@),
            forall|j: int| 0 <= j < i ==> !(#[trigger] m[j] is Failed),
            starting ==> exists|j: int| 0 <= j < i && #[trigger] m[j] is Starting,
            !starting ==> forall|j: int| 0 <= j < i ==> #[trigger] m[j] is Ready,
    {
        assert(m[i as int] == states@[i as int]@);
        match &states[i] {
            RuntimeReadyState::Failed(message) => {
                return RuntimeReadyState::Failed(message.clone());
            },
            RuntimeReadyState::Starting => {
                starting = true;
            },
            RuntimeReadyState::Ready => {},
        }
    }
    if starting {
        RuntimeReadyState::Starting
    } else {
        RuntimeReadyState::Ready
    }
}

/// The combined readiness is fixed by the services' own.
pub proof fn combined_is_unique(states: Seq<ReadyModel>, a: ReadyModel, b: ReadyModel)
    requires
        combined(states, a),
        combined(states, b),
    ensures
        a == b,
{
    match (a, b) {
        (ReadyModel::Failed(x), ReadyModel::Failed(y)) => {
            let i = choose|i: int|
                0 <= i < states.len() && #[trigger] states[i] == ReadyModel::Failed(x) && forall|
                    j: int,
                |
                    0 <= j < i ==> !(#[trigger] states[j] is Failed);
            let k = choose|k: int|
                0 <= k < states.len() && #[trigger] states[k] == ReadyModel::Failed(y) && forall|
                    j: int,
                |
                    0 <= j < k ==> !(#[trigger] states[j] is Failed);
            assert(states[i] is Failed && states[k] is Failed);
        },
        _ => {},
    }
}

/// What came of waiting for readiness.
#[derive(Debug, PartialEq, Eq)]
pub enum ReadyWait {
    Reached(RuntimeReadyState),
    /// The services went away.
    Closed,
    TimedOut,
}

/// What waiting for readiness comes to when the channel of a service closes.
/// Of several services the one is named.
pub fn service_lost(index: usize, count: usize) -> (r: ReadyWait)
    ensures
        if count <= 1 {
            r is Closed
        } else {
            r matches ReadyWait::Reached(RuntimeReadyState::Failed(m)) && m@
                == "RRT service readiness channel "@ + decimal(index as nat) + " closed"@
        },
{
    if count <= 1 {
        return ReadyWait::Closed;
    }
    let n = to_decimal(index as u64);
    ReadyWait::Reached(
        RuntimeReadyState::Failed(
            join3("RRT service readiness channel ", n.as_str(), " closed"),
        ),
    )
}

/// How long a create call waits for the services, in seconds.
pub const RUNTIME_READY_SECONDS: u64 = 30;

/// Why a runtime is not ready, if it is not.
pub open spec fn ready_error(waited: ReadyWait) -> Option<Seq<char>> {
    match waited {
        ReadyWait::Reached(RuntimeReadyState::Ready) => None,
        ReadyWait::Reached(RuntimeReadyState::Failed(m)) => Some(m@),
        ReadyWait::Reached(RuntimeReadyState::Starting) => Some(
            "RRT service readiness channel closed before startup completed"@,
        ),
        ReadyWait::Closed => Some(
            "RRT service readiness channel closed before startup completed"@,
        ),
        ReadyWait::TimedOut => Some(
            "RRT service readiness timed out after "@ + decimal(RUNTIME_READY_SECONDS as nat)
                + " seconds"@,
        ),
    }
}

/// The result of a create call on a runtime that did not become ready, or
/// nothing where it did.
pub fn readiness_failure(waited: &ReadyWait, request_id: &str, instance_id: &str, codes: &ErrorCodes) -> (r:
    Option<StreamingMessage>)
    ensures
        match ready_error(*waited) {
            None => r is None,
            Some(message) => r matches Some(m) && m@ == call_result(
                request_id@,
                instance_id@,
                Seq::empty(),
                codes.inner_system_error,
                "runtime initialization failed: "@ + message,
                Seq::empty(),
            ),
        },
{
    let message: String = match waited {
        ReadyWait::Reached(RuntimeReadyState::Ready) => {
            return None;
        },
        ReadyWait::Reached(RuntimeReadyState::Failed(m)) => m.clone(),
        ReadyWait::Reached(RuntimeReadyState::Starting) =>
            "RRT service readiness channel closed before startup completed".to_owned(),
        ReadyWait::Closed =>
            "RRT service readiness channel closed before startup completed".to_owned(),
        ReadyWait::TimedOut => {
            let n = to_decimal(RUNTIME_READY_SECONDS);
            join3("RRT service readiness timed out after ", n.as_str(), " seconds")
        },
    };
    let text = join("runtime initialization failed: ", message.as_str());
    Some(failed_result(request_id, instance_id, text.as_str(), codes))
}

/// The result of a call that could not be carried out.
fn failed_result(request_id: &str, instance_id: &str, message: &str, codes: &ErrorCodes) -> (r:
    StreamingMessage)
    ensures
        r@ == call_result(
            request_id@,
            instance_id@,
            Seq::empty(),
            codes.inner_system_error,
            message@,
            Seq::empty(),
        ),
{
    let none: Vec<u8> = Vec::new();
    assert(none@ =~= Seq::empty());
    call_result_msg(
        request_id.to_owned(),
        instance_id.to_owned(),
        String::new(),
        codes.inner_system_error,
        message,
        none,
    )
}

/// The result of a call whose handler broke off.
pub fn broken_call(request_id: &str, instance_id: &str, error: &str, codes: &ErrorCodes) -> (r:
    StreamingMessage)
    ensures
        r@ == call_result(
            request_id@,
            instance_id@,
            Seq::empty(),
            codes.inner_system_error,
            "dispatch panicked: "@ + error@,
            Seq::empty(),
        ),
{
    let text = join("dispatch panicked: ", error);
    failed_result(request_id, instance_id, text.as_str(), codes)
}

// ───────────────────────── inbound messages ─────────────────────────

/// What an inbound message asks for.
#[derive(Debug, PartialEq, Eq)]
pub enum Inbound {
    /// Acknowledge the message, then carry out the call.
    Call { receipt: StreamingMessage, call: CallRequest },
    /// The proxy answered a signal.
    SignalAnswered { message_id: String, status: Status },
    /// Wait until the runtime is idle, for so many seconds at most.
    Shutdown { message_id: String, grace_seconds: u64 },
    /// Get ready for a checkpoint.
    PrepareSnap { message_id: String },
    /// Take up work after a checkpoint.
    SnapStarted { message_id: String },
    /// Answer at once.
    Reply { message: StreamingMessage },
    Ignore,
}

/// The fields of a call that the runtime fills in: a call without a sender
/// comes from the instance itself.
pub open spec fn filled(call: CallRequest, sent: CallRequest, instance_id: Seq<char>) -> bool {
    &&& sent.request_id == call.request_id
    &&& sent.trace_id == call.trace_id
    &&& sent.is_create == call.is_create
    &&& sent.args == call.args
    &&& sent.return_object_id == call.return_object_id
    &&& sent.return_object_ids == call.return_object_ids
    &&& sent.sender_id@ == (if call.sender_id@.len() == 0 {
        instance_id
    } else {
        call.sender_id@
    })
}

/// Whether `step` is what a message asks for.
pub open spec fn asks_for(
    msg: StreamingMessage,
    instance_id: Seq<char>,
    codes: ErrorCodes,
    step: Inbound,
) -> bool {
    match msg.body {
        Some(Body::CallReq(call)) => step matches Inbound::Call { receipt, call: sent } && receipt@
            == call_receipt(msg.message_id@, codes) && filled(call, sent, instance_id),
        Some(Body::KillRsp(status)) => step matches Inbound::SignalAnswered {
            message_id,
            status: s,
        } && message_id == msg.message_id && s == status,
        Some(Body::ShutdownReq(grace)) => step matches Inbound::Shutdown {
            message_id,
            grace_seconds,
        } && message_id == msg.message_id && grace_seconds == grace,
        Some(Body::PrepareSnapReq) => step matches Inbound::PrepareSnap { message_id } && message_id
            == msg.message_id,
        Some(Body::SnapStartedReq) => step matches Inbound::SnapStarted { message_id } && message_id
            == msg.message_id,
        Some(Body::HeartbeatReq) => step matches Inbound::Reply { message } && message@
            == (MessageModel {
            message_id: msg.message_id@,
            body: Some(BodyModel::HeartbeatRsp),
        }),
        _ => step is Ignore,
    }
}

/// Takes an inbound message. A call is acknowledged under the number of its
/// message before it is carried out.
pub fn handle_inbound_message(msg: StreamingMessage, instance_id: &str, codes: &ErrorCodes) -> (r:
    Inbound)
    ensures
        asks_for(msg, instance_id@, *codes, r),
{
    let StreamingMessage { message_id, body } = msg;
    match body {
        Some(Body::CallReq(call)) => {
            let mut call = call;
            let receipt = call_response_msg(message_id, codes);
            if call.sender_id.as_str().is_empty() {
                call.sender_id = instance_id.to_owned();
            }
            Inbound::Call { receipt, call }
        },
        Some(Body::KillRsp(status)) => Inbound::SignalAnswered { message_id, status },
        Some(Body::ShutdownReq(grace_seconds)) => Inbound::Shutdown { message_id, grace_seconds },
        Some(Body::PrepareSnapReq) => Inbound::PrepareSnap { message_id },
        Some(Body::SnapStartedReq) => Inbound::SnapStarted { message_id },
        Some(Body::HeartbeatReq) => Inbound::Reply {
            message: StreamingMessage { message_id, body: Some(Body::HeartbeatRsp) },
        },
        _ => Inbound::Ignore,
    }
}

/// The answer to a request to shut down: accepted once nothing is in flight,
/// else refused.
pub open spec fn shutdown_answer(
    message_id: Seq<char>,
    idle: bool,
    active: i64,
    grace_seconds: u64,
    codes: ErrorCodes,
) -> MessageModel {
    if idle {
        shutdown_response(message_id, codes.none, "shutdown accepted after inflight drained"@)
    } else {
        shutdown_response(
            message_id,
            codes.instance_busy,
            "shutdown rejected: "@ + signed_decimal(active as int)
                + " in-flight request(s) still running after "@ + decimal(grace_seconds as nat)
                + "s"@,
        )
    }
}

/// Answers a request to shut down once the wait for open work is over.
pub fn shutdown_after_wait(
    message_id: String,
    idle: bool,
    active: i64,
    grace_seconds: u64,
    codes: &ErrorCodes,
) -> (r: StreamingMessage)
    ensures
        r@ == shutdown_answer(message_id@, idle, active, grace_seconds, *codes),
{
    if idle {
        shutdown_response_msg(
            message_id,
            codes.none,
            "shutdown accepted after inflight drained".to_owned(),
        )
    } else {
        let a = to_signed_decimal(active);
        let g = to_decimal(grace_seconds);
        let head = join3(
            "shutdown rejected: ",
            a.as_str(),
            " in-flight request(s) still running after ",
        );
        shutdown_response_msg(
            message_id,
            codes.instance_busy,
            join3(head.as_str(), g.as_str(), "s"),
        )
    }
}

// ───────────────────────── checkpoints ─────────────────────────

/// How far a runtime got ready for a checkpoint.
#[derive(Debug, Clone, Copy, PartialEq, Eq, Structural)]
pub enum SnapPreparation {
    /// So many requests were still in flight after so many seconds.
    Busy { active: i64, seconds: u64 },
    /// The file that a checkpoint is handed over through cannot be opened.
    NoBarrier,
    Ready,
}

/// The answer to a request to get ready for a checkpoint.
pub open spec fn snap_answer(
    message_id: Seq<char>,
    p: SnapPreparation,
    codes: ErrorCodes,
) -> MessageModel {
    let body = match p {
        SnapPreparation::Busy { active, seconds } => BodyModel::PrepareSnapRsp(
            codes.instance_busy,
            "PrepareSnap rejected: "@ + signed_decimal(active as int)
                + " in-flight request(s) after "@ + decimal(seconds as nat) + "s"@,
        ),
        SnapPreparation::NoBarrier => BodyModel::PrepareSnapRsp(
            codes.inner_system_error,
            "checkpoint handoff barrier is unavailable"@,
        ),
        SnapPreparation::Ready => BodyModel::PrepareSnapRsp(
            codes.none,
            "PrepareSnap completed successfully"@,
        ),
    };
    MessageModel { message_id, body: Some(body) }
}

/// Answers a request to prepare for a checkpoint.
pub fn prepare_snap_response(message_id: String, p: SnapPreparation, codes: &ErrorCodes) -> (r:
    StreamingMessage)
    ensures
        r@ == snap_answer(message_id@, p, *codes),
{
    let status = match p {
        SnapPreparation::Busy { active, seconds } => {
            let a = to_signed_decimal(active);
            let s = to_decimal(seconds);
            let head = join3(
                "PrepareSnap rejected: ",
                a.as_str(),
                " in-flight request(s) after ",
            );
            Status { code: codes.instance_busy, message: join3(head.as_str(), s.as_str(), "s") }
        },
        SnapPreparation::NoBarrier => Status {
            code: codes.inner_system_error,
            message: "checkpoint handoff barrier is unavailable".to_owned(),
        },
        SnapPreparation::Ready => Status {
            code: codes.none,
            message: "PrepareSnap completed successfully".to_owned(),
        },
    };
    StreamingMessage { message_id, body: Some(Body::PrepareSnapRsp(status)) }
}

/// How long a runtime may take to drain for a checkpoint, in seconds.
pub const CHECKPOINT_DRAIN_SECONDS: u64 = 60;

/// Whether a runtime is drained enough for a checkpoint: the request for it,
/// and the process that waits for its answer, stay.
pub fn drained_for_checkpoint(active: i64) -> (r: bool)
    ensures
        r == (active <= 2),
{
    active <= 2
}

/// What waiting for a runtime to drain has come to.
#[derive(Debug, Clone, Copy, PartialEq, Eq, Structural)]
pub enum DrainWait {
    /// The checkpoint can be prepared.
    Drained,
    /// It took too long: the request is answered so.
    Refused(SnapPreparation),
    /// Look again a moment later.
    Waiting,
}

/// Whether a runtime is drained for a checkpoint, with a time limit.
pub fn wait_until_drained(active: i64, now: u64, deadline: u64) -> (r: DrainWait)
    ensures
        r == (if active <= 2 {
            DrainWait::Drained
        } else if now >= deadline {
            DrainWait::Refused(
                SnapPreparation::Busy { active, seconds: CHECKPOINT_DRAIN_SECONDS },
            )
        } else {
            DrainWait::Waiting
        }),
{
    if drained_for_checkpoint(active) {
        DrainWait::Drained
    } else if now >= deadline {
        DrainWait::Refused(SnapPreparation::Busy { active, seconds: CHECKPOINT_DRAIN_SECONDS })
    } else {
        DrainWait::Waiting
    }
}

/// What a drained runtime answers, once it looked for the barrier.
pub fn barrier_found(found: bool) -> (r: SnapPreparation)
    ensures
        r == (if found {
            SnapPreparation::Ready
        } else {
            SnapPreparation::NoBarrier
        }),
{
    if found {
        SnapPreparation::Ready
    } else {
        SnapPreparation::NoBarrier
    }
}

/// Whether the stream goes on after a checkpoint: a process that was restored
/// from it has to connect anew.
pub fn stream_survives(outcome: Option<CheckpointOutcome>) -> (r: bool)
    ensures
        r == (outcome != Some(CheckpointOutcome::Restore)),
{
    match outcome {
        Some(CheckpointOutcome::Restore) => false,
        _ => true,
    }
}

/// The answer after a checkpoint, whose listeners were, or could not be, set
/// up again.
pub open spec fn started_answer(
    message_id: Seq<char>,
    failure: Option<Seq<char>>,
    codes: ErrorCodes,
) -> MessageModel {
    MessageModel {
        message_id,
        body: Some(
            match failure {
                None => BodyModel::SnapStartedRsp(
                    codes.none,
                    "SnapStarted handled successfully"@,
                ),
                Some(e) => BodyModel::SnapStartedRsp(
                    codes.inner_system_error,
                    "SnapStarted listener rearm failed: "@ + e,
                ),
            },
        ),
    }
}

/// Answers that the services listen again after a checkpoint, or why not.
pub fn snap_started_response(message_id: String, failure: Option<&str>, codes: &ErrorCodes) -> (r:
    StreamingMessage)
    ensures
        r@ == started_answer(message_id@, crate::text::opt_str_view(failure), *codes),
{
    let status = match failure {
        None => Status {
            code: codes.none,
            message: "SnapStarted handled successfully".to_owned(),
        },
        Some(e) => Status {
            code: codes.inner_system_error,
            message: join("SnapStarted listener rearm failed: ", e),
        },
    };
    StreamingMessage { message_id, body: Some(Body::SnapStartedRsp(status)) }
}

/// A service with a listener of its own.
#[derive(Debug, Clone, Copy, PartialEq, Eq, Structural)]
pub enum Service {
    Http,
    Tunnel,
    Checkpoint,
}

/// Which services have a listener to set up again, and how far that has come.
pub struct Rearm {
    pub http: bool,
    pub tunnel: bool,
    pub checkpoint: bool,
    /// Services before this one are done.
    pub done: u8,
}

/// The services that are left from the `done`-th on, in order.
pub open spec fn left(r: Rearm) -> Seq<Service> {
    (if r.http && r.done == 0 {
        seq![Service::Http]
    } else {
        Seq::empty()
    }) + (if r.tunnel && r.done <= 1 {
        seq![Service::Tunnel]
    } else {
        Seq::empty()
    }) + (if r.checkpoint && r.done <= 2 {
        seq![Service::Checkpoint]
    } else {
        Seq::empty()
    })
}

impl Rearm {
    /// The next service to set up, which is then done.
    pub fn next(&mut self) -> (r: Option<Service>)
        ensures
            match r {
                Some(s) => left(*old(self)) == seq![s] + left(*final(self)),
                None => left(*old(self)).len() == 0 && *final(self) == *old(self),
            },
    {
        let ghost before = left(*self);
        if self.http && self.done == 0 {
            self.done = 1;
            assert(before =~= seq![Service::Http] + left(*self));
            Some(Service::Http)
        } else if self.tunnel && self.done <= 1 {
            self.done = 2;
            assert(before =~= seq![Service::Tunnel] + left(*self));
            Some(Service::Tunnel)
        } else if self.checkpoint && self.done <= 2 {
            self.done = 3;
            assert(before =~= seq![Service::Checkpoint] + left(*self));
            Some(Service::Checkpoint)
        } else {
            None
        }
    }
}

/// What is said of a listener that could not be set up again.
pub open spec fn rearm_failure(s: Service, error: Seq<char>) -> Seq<char> {
    (match s {
        Service::Http => "HTTP"@,
        Service::Tunnel => "tunnel"@,
        Service::Checkpoint => "checkpoint"@,
    }) + " listener rearm failed: "@ + error
}

/// Says which service does not listen again, and why.
pub fn rearm_error(s: Service, error: &str) -> (r: String)
    ensures
        r@ == rearm_failure(s, error@),
{
    let name = match s {
        Service::Http => "HTTP",
        Service::Tunnel => "tunnel",
        Service::Checkpoint => "checkpoint",
    };
    join3(name, " listener rearm failed: ", error)
}

// ───────────────────────── reconnects ─────────────────────────

/// The shortest pause before a reconnect, in milliseconds.
pub const RECONNECT_MIN: u64 = 200;

/// The longest pause before a reconnect, in milliseconds.
pub const RECONNECT_MAX: u64 = 5000;

/// Twice a pause, up to a limit.
pub open spec fn doubled(current: u64, max: u64) -> u64 {
    if 2 * current <= max {
        (2 * current) as u64
    } else {
        max
    }
}

/// The next pause: twice the last, up to a limit.
pub fn next_backoff(current: u64, max: u64) -> (r: u64)
    ensures
        r == doubled(current, max),
{
    if current <= max / 2 {
        2 * current
    } else {
        max
    }
}

/// Pauses stay within their limits.
pub proof fn pauses_stay_within_limits(current: u64)
    requires
        RECONNECT_MIN <= current <= RECONNECT_MAX,
    ensures
        RECONNECT_MIN <= doubled(current, RECONNECT_MAX) <= RECONNECT_MAX,
        doubled(current, RECONNECT_MAX) >= current,
{
}

/// Where the loop that keeps a stream open stands.
#[derive(Debug, Clone, Copy, PartialEq, Eq, Structural)]
pub enum Phase {
    /// The target environment is read.
    Reading,
    /// The stream is opened.
    Opening,
    /// The stream was opened, and gets the state of the runtime.
    Syncing,
    /// The stream gets a message.
    Sending,
    /// Messages are awaited, from either side.
    Serving,
    /// A message from the stream is handled.
    Handling,
    /// A pause before the next attempt.
    Pausing,
    /// The runtime has no more to say.
    Stopped,
}

/// The state of the loop that keeps a stream open.
pub struct StreamLoop {
    pub backoff: u64,
    pub attempts: u64,
    /// A message that a lost stream did not take.
    pub pending: Option<StreamingMessage>,
    pub control: ReconnectControlState,
    pub phase: Phase,
    /// The instance that the stream is for.
    pub instance_id: String,
}

/// The model of a [`StreamLoop`].
pub struct LoopModel {
    pub backoff: u64,
    pub attempts: u64,
    pub pending: Option<StreamingMessage>,
    pub baseline: ArgsModel,
    pub phase: Phase,
    pub instance_id: Seq<char>,
}

impl View for StreamLoop {
    type V = LoopModel;

    open spec fn view(&self) -> LoopModel {
        LoopModel {
            backoff: self.backoff,
            attempts: self.attempts,
            pending: self.pending,
            baseline: self.control.baseline@,
            phase: self.phase,
            instance_id: self.instance_id@,
        }
    }
}

/// Something that happened to the loop.
pub enum StreamEvent {
    /// The runtime has started, or a pause is over.
    Ready,
    /// The target environment was read, where there is one.
    EnvironmentRead(Option<Environment>),
    /// The target environment could not be read, or the stream not be opened.
    Failed,
    /// The stream was opened, and the runtime is in this state.
    Opened(String),
    /// The stream took the message.
    Sent,
    /// The stream did not take the message.
    Unsent(StreamingMessage),
    /// The runtime has a message for the stream.
    Outbound(StreamingMessage),
    /// The runtime has no more messages.
    OutboundClosed,
    /// A message came from the stream.
    Inbound(StreamingMessage),
    /// The message was handled; whether the stream goes on.
    Handled(bool),
    /// The stream was lost.
    Lost,
}

/// What the loop does next.
#[derive(Debug, PartialEq, Eq)]
pub enum StreamAction {
    /// Read the target environment.
    ReadEnvironment,
    /// Open a stream to the endpoint, under the identity of `args`.
    Open { endpoint: String, args: Args },
    /// Hand a message to the stream.
    Send { message: StreamingMessage },
    /// Await a message, from either side.
    Serve,
    /// Handle a message from the stream.
    Handle { message: StreamingMessage },
    /// Pause for so many milliseconds. The text says what the target environment
    /// was refused for, where it was.
    Pause { millis: u64, refused: Option<String> },
    /// End the runtime.
    Stop,
}

/// The model of a [`StreamAction`]. A message of the runtime is itself; the
/// report of its state is known by its model.
pub enum StreamActionModel {
    ReadEnvironment,
    Open { endpoint: Seq<char>, args: ArgsModel },
    Report { report: MessageModel },
    Send { message: StreamingMessage },
    Serve,
    Handle { message: StreamingMessage },
    Pause { millis: u64, refused: Option<Seq<char>> },
    Stop,
}

/// Whether an action is as its model says.
pub open spec fn acts_as(r: StreamAction, m: StreamActionModel) -> bool {
    match m {
        StreamActionModel::ReadEnvironment => r is ReadEnvironment,
        StreamActionModel::Open { endpoint, args } => r matches StreamAction::Open {
            endpoint: e,
            args: a,
        } && e@ == endpoint && a@ == args,
        StreamActionModel::Report { report } => r matches StreamAction::Send { message: s } && s@
            == report,
        StreamActionModel::Send { message } => r matches StreamAction::Send { message: s } && s
            == message,
        StreamActionModel::Serve => r is Serve,
        StreamActionModel::Handle { message } => r matches StreamAction::Handle { message: s } && s
            == message,
        StreamActionModel::Pause { millis, refused } => r matches StreamAction::Pause {
            millis: n,
            refused: t,
        } && n == millis && crate::text::opt_view(t) == refused,
        StreamActionModel::Stop => r is Stop,
    }
}

impl LoopModel {
    /// The pause is always within its limits.
    pub open spec fn wf(self) -> bool {
        RECONNECT_MIN <= self.backoff <= RECONNECT_MAX
    }

    /// Before the first attempt.
    pub open spec fn fresh(args: ArgsModel) -> LoopModel {
        LoopModel {
            backoff: RECONNECT_MIN,
            attempts: 0,
            pending: None,
            baseline: args,
            phase: Phase::Pausing,
            instance_id: Seq::empty(),
        }
    }

    /// A pause before the next attempt; the one after it is longer.
    pub open spec fn pausing(self, refused: Option<Seq<char>>) -> (LoopModel, StreamActionModel) {
        (
            LoopModel {
                backoff: doubled(self.backoff, RECONNECT_MAX),
                phase: Phase::Pausing,
                ..self
            },
            StreamActionModel::Pause { millis: self.backoff, refused },
        )
    }

    /// The next attempt begins: its environment is read.
    pub open spec fn reading(self) -> (LoopModel, StreamActionModel) {
        (
            LoopModel {
                attempts: if self.attempts < u64::MAX {
                    (self.attempts + 1) as u64
                } else {
                    u64::MAX
                },
                phase: Phase::Reading,
                ..self
            },
            StreamActionModel::ReadEnvironment,
        )
    }

    /// The stream is opened with the target environment, where there is one. One
    /// that does not allow it is read again after a pause.
    pub open spec fn opening(self, environment: Option<Map<Seq<char>, Seq<char>>>) -> (
        LoopModel,
        StreamActionModel,
    ) {
        let target = match environment {
            None => Ok(self.baseline),
            Some(env) => reconnect_args(self.baseline, env),
        };
        match target {
            Ok(args) => (
                LoopModel {
                    baseline: ArgsModel { instance_id: args.instance_id, ..self.baseline },
                    instance_id: args.instance_id,
                    phase: Phase::Opening,
                    ..self
                },
                StreamActionModel::Open { endpoint: "http://"@ + args.rt_server, args },
            ),
            Err(error) => self.pausing(Some(error)),
        }
    }

    /// An open stream goes on: with the message that a lost stream left, or by
    /// awaiting one.
    pub open spec fn going_on(self) -> (LoopModel, StreamActionModel) {
        match self.pending {
            Some(message) => (
                LoopModel { pending: None, phase: Phase::Sending, ..self },
                StreamActionModel::Send { message },
            ),
            None => (LoopModel { phase: Phase::Serving, ..self }, StreamActionModel::Serve),
        }
    }

    /// What the loop does after an event.
    pub open spec fn next(self, event: StreamEvent) -> (LoopModel, StreamActionModel) {
        match event {
            StreamEvent::Ready => self.reading(),
            StreamEvent::EnvironmentRead(environment) => self.opening(env_view(environment)),
            StreamEvent::Failed => self.pausing(None),
            StreamEvent::Opened(state) => (
                LoopModel { backoff: RECONNECT_MIN, phase: Phase::Syncing, ..self },
                StreamActionModel::Report {
                    report: activity_report(
                        self.instance_id,
                        vstd::utf8::encode_utf8(state@),
                    ),
                },
            ),
            StreamEvent::Sent => self.going_on(),
            StreamEvent::Unsent(message) => if self.phase == Phase::Syncing {
                self.reading()
            } else {
                (LoopModel {
                    pending: if retried(message) {
                        Some(message)
                    } else {
                        self.pending
                    },
                    ..self
                }).pausing(None)
            },
            StreamEvent::Outbound(message) => (
                LoopModel { phase: Phase::Sending, ..self },
                StreamActionModel::Send { message },
            ),
            StreamEvent::OutboundClosed => (
                LoopModel { phase: Phase::Stopped, ..self },
                StreamActionModel::Stop,
            ),
            StreamEvent::Inbound(message) => (
                LoopModel { phase: Phase::Handling, ..self },
                StreamActionModel::Handle { message },
            ),
            StreamEvent::Handled(survives) => if survives {
                self.going_on()
            } else {
                self.pausing(None)
            },
            StreamEvent::Lost => self.pausing(None),
        }
    }
}

/// The model of a target environment, where there is one.
pub open spec fn env_view(environment: Option<Environment>) -> Option<Map<Seq<char>, Seq<char>>> {
    match environment {
        Some(env) => Some(env@),
        None => None,
    }
}

impl StreamLoop {
    /// A stream that has not been tried yet.
    pub fn new(args: Args) -> (r: StreamLoop)
        ensures
            r@ == LoopModel::fresh(args@),
            r@.wf(),
    {
        let instance_id = String::new();
        assert(instance_id@ =~= Seq::empty());
        StreamLoop {
            backoff: RECONNECT_MIN,
            attempts: 0,
            pending: None,
            control: ReconnectControlState::new(args),
            phase: Phase::Pausing,
            instance_id,
        }
    }

    fn pause(&mut self, refused: Option<String>) -> (r: StreamAction)
        requires
            old(self)@.wf(),
        ensures
            final(self)@.wf(),
            final(self)@ == old(self)@.pausing(crate::text::opt_view(refused)).0,
            acts_as(r, old(self)@.pausing(crate::text::opt_view(refused)).1),
    {
        let millis: u64 = self.backoff;
        proof {
            pauses_stay_within_limits(millis);
        }
        self.backoff = next_backoff(millis, RECONNECT_MAX);
        self.phase = Phase::Pausing;
        StreamAction::Pause { millis, refused }
    }

    fn begin_attempt(&mut self) -> (r: StreamAction)
        ensures
            final(self)@ == old(self)@.reading().0,
            acts_as(r, old(self)@.reading().1),
    {
        if self.attempts < u64::MAX {
            self.attempts = self.attempts + 1;
        }
        self.phase = Phase::Reading;
        StreamAction::ReadEnvironment
    }

    fn go_on(&mut self) -> (r: StreamAction)
        ensures
            final(self)@ == old(self)@.going_on().0,
            acts_as(r, old(self)@.going_on().1),
    {
        let mut kept: Option<StreamingMessage> = None;
        std::mem::swap(&mut self.pending, &mut kept);
        match kept {
            Some(message) => {
                self.phase = Phase::Sending;
                StreamAction::Send { message }
            },
            None => {
                self.phase = Phase::Serving;
                StreamAction::Serve
            },
        }
    }

    /// Makes the next step of the loop after an event.
    pub fn step(&mut self, event: StreamEvent) -> (r: StreamAction)
        requires
            old(self)@.wf(),
        ensures
            final(self)@.wf(),
            final(self)@ == old(self)@.next(event).0,
            acts_as(r, old(self)@.next(event).1),
    {
        match event {
            StreamEvent::Ready => self.begin_attempt(),
            StreamEvent::EnvironmentRead(environment) => {
                match self.control.load(environment.as_ref()) {
                    Ok(args) => {
                        let endpoint = join("http://", args.rt_server.as_str());
                        self.instance_id = args.instance_id.clone();
                        self.phase = Phase::Opening;
                        StreamAction::Open { endpoint, args }
                    },
                    Err(error) => self.pause(Some(error)),
                }
            },
            StreamEvent::Failed => self.pause(None),
            StreamEvent::Opened(state) => {
                self.backoff = RECONNECT_MIN;
                self.phase = Phase::Syncing;
                let message = activity_report_msg(
                    self.instance_id.as_str(),
                    crate::bytes::copy_all(state.as_str().as_bytes()),
                );
                StreamAction::Send { message }
            },
            StreamEvent::Sent => self.go_on(),
            StreamEvent::Unsent(message) => {
                if self.phase == Phase::Syncing {
                    return self.begin_attempt();
                }
                if should_retry_outbound_msg(&message) {
                    self.pending = Some(message);
                }
                self.pause(None)
            },
            StreamEvent::Outbound(message) => {
                self.phase = Phase::Sending;
                StreamAction::Send { message }
            },
            StreamEvent::OutboundClosed => {
                self.phase = Phase::Stopped;
                StreamAction::Stop
            },
            StreamEvent::Inbound(message) => {
                self.phase = Phase::Handling;
                StreamAction::Handle { message }
            },
            StreamEvent::Handled(survives) => {
                if survives {
                    self.go_on()
                } else {
                    self.pause(None)
                }
            },
            StreamEvent::Lost => self.pause(None),
        }
    }
}

/// Whether the stream has got the state of the runtime.
pub open spec fn synced(phase: Phase) -> bool {
    phase == Phase::Sending || phase == Phase::Serving || phase == Phase::Handling
}

/// Whether an event can happen in a phase.
pub open spec fn fits(phase: Phase, event: StreamEvent) -> bool {
    match event {
        StreamEvent::Ready => phase == Phase::Pausing,
        StreamEvent::EnvironmentRead(_) => phase == Phase::Reading,
        StreamEvent::Failed => phase == Phase::Reading || phase == Phase::Opening,
        StreamEvent::Opened(_) => phase == Phase::Opening,
        StreamEvent::Sent => phase == Phase::Syncing || phase == Phase::Sending,
        StreamEvent::Unsent(_) => phase == Phase::Syncing || phase == Phase::Sending,
        StreamEvent::Outbound(_) => phase == Phase::Serving,
        StreamEvent::OutboundClosed => phase == Phase::Serving,
        StreamEvent::Inbound(_) => phase == Phase::Serving,
        StreamEvent::Handled(_) => phase == Phase::Handling,
        StreamEvent::Lost => phase == Phase::Serving,
    }
}

/// The first message on a stream is the state of the runtime: nothing else is
/// sent or handled before the stream took it.
pub proof fn state_comes_first(m: LoopModel, event: StreamEvent)
    requires
        fits(m.phase, event),
    ensures
        event is Opened ==> m.next(event).1 is Report,
        m.next(event).1 is Send || m.next(event).1 is Serve || m.next(event).1 is Handle
            ==> synced(m.phase) || (m.phase == Phase::Syncing && event is Sent),
        synced(m.next(event).0.phase) ==> synced(m.phase) || (m.phase == Phase::Syncing && event
            is Sent),
{
}

/// A message that a lost stream left goes out first on the next, right after the
/// state of the runtime: none is awaited, sent or handled while it is kept, and
/// only its sending ends its keeping. One that was not taken is kept, unless it
/// would be stale.
pub proof fn kept_messages_go_first(m: LoopModel, event: StreamEvent)
    requires
        fits(m.phase, event),
        synced(m.phase) ==> m.pending is None,
    ensures
        ({
            let (after, action) = m.next(event);
            &&& synced(after.phase) ==> after.pending is None
            &&& m.pending is Some && after.pending != m.pending ==> event is Sent && action
                == (StreamActionModel::Send { message: m.pending->0 })
            &&& m.pending is Some && event is Sent ==> action == (StreamActionModel::Send {
                message: m.pending->0,
            })
            &&& event is Unsent && m.phase == Phase::Sending ==> after.pending == (if retried(
                event->Unsent_0,
            ) {
                Some(event->Unsent_0)
            } else {
                None
            })
        }),
{
}

/// After a loss the loop pauses, within its limits and longer each time, until a
/// stream was opened.
pub proof fn losses_are_followed_by_a_pause(m: LoopModel, event: StreamEvent)
    requires
        m.wf(),
        fits(m.phase, event),
        event is Lost || event is Failed || (event is Handled && !event->Handled_0) || (event
            is Unsent && m.phase == Phase::Sending),
    ensures
        ({
            let (after, action) = m.next(event);
            &&& after.phase == Phase::Pausing
            &&& after.wf()
            &&& action == (StreamActionModel::Pause { millis: m.backoff, refused: None })
            &&& RECONNECT_MIN <= m.backoff <= RECONNECT_MAX
            &&& after.backoff >= m.backoff
        }),
{
}

/// The metadata that a stream opens with.
pub open spec fn stream_metadata_of(args: ArgsModel) -> Seq<(Seq<char>, Seq<char>)> {
    seq![
        ("runtime_id"@, args.runtime_id),
        ("instance_id"@, args.instance_id),
        ("source_id"@, args.instance_id),
        ("dst_id"@, "function-proxy"@),
    ]
}

/// Makes the metadata that a stream opens with.
pub fn stream_metadata(args: &Args) -> (r: Vec<(String, String)>)
    ensures
        crate::tunnel::frame::pairs(r@) == stream_metadata_of(args@),
{
    let mut out: Vec<(String, String)> = Vec::new();
    out.push(("runtime_id".to_owned(), args.runtime_id.clone()));
    out.push(("instance_id".to_owned(), args.instance_id.clone()));
    out.push(("source_id".to_owned(), args.instance_id.clone()));
    out.push(("dst_id".to_owned(), "function-proxy".to_owned()));
    assert(crate::tunnel::frame::pairs(out@) =~= stream_metadata_of(args@));
    out
}

} // verus!
