//! HTTP exchanges through the tunnel: admission, the request that goes out,
//! and what the answer becomes downstream.
use super::config::{least, MAX_V1_BODY_BYTES};

use super::dispatch::Step;
use super::envelope::{stream_id, Sequence};
use super::frame::{pairs, Frame, FrameModel, HeaderList, Pairs};
use super::headers::{
    bodiless, response_headers_for_downstream, response_headers_for_stream, response_keeps,
    length_header, stream_length, suppresses_body, whole_length,
};
use super::registry::{entry, with, without, Slot, SlotModel};
use super::state::{
    acts, acts_empty, acts_push, error_frame, Action, ActionModel, Answer, AnswerModel,
    CachedModel, CachedRequest, ConnectionProtocol, ModeModel, NegotiatedModel, Permit, State,
    StateModel, Waiter, PENDING_REQUEST_TTL,
};
use crate::numbers::after;
use crate::text::{lower, opt_copy, parse_unsigned, same_ignoring_case, unsigned_numeral};
use base64::Engine;
use vstd::prelude::*;

verus! {

broadcast use {acts_push, acts_empty};

// ───────────────────────── base64 ─────────────────────────

/// What the standard base64 alphabet makes of bytes, with padding.
pub uninterp spec fn base64_text(b: Seq<u8>) -> Seq<char>;

/// The bytes that a padded text in the standard base64 alphabet holds.
pub uninterp spec fn base64_bytes(s: Seq<char>) -> Option<Seq<u8>>;

/// `base64::engine::general_purpose::STANDARD.encode`: the text, which the same
/// engine decodes to the same bytes. The text has to fit in memory.
#[verifier::external_body]
pub(crate) fn base64_encode(b: &[u8]) -> (r: String)
    requires
        b@.len() / 3 * 4 + 4 <= isize::MAX,
    ensures
        r@ == base64_text(b@),
        base64_bytes(r@) == Some(b@),
{
    base64::engine::general_purpose::STANDARD.encode(b)
}

/// `base64::engine::general_purpose::STANDARD.decode`: the bytes, or nothing
/// where the text is not such an encoding.
#[verifier::external_body]
pub(crate) fn base64_decode(s: &str) -> (r: Option<Vec<u8>>)
    ensures
        match r {
            Some(b) => base64_bytes(s@) == Some(b@),
            None => base64_bytes(s@) is None,
        },
{
    base64::engine::general_purpose::STANDARD.decode(s.as_bytes()).ok()
}

// ───────────────────────── requests ─────────────────────────

/// One of the `Upgrade` headers names WebSocket.
pub open spec fn upgrades(headers: Pairs) -> bool {
    exists|i: int|
        0 <= i < headers.len() && lower((#[trigger] headers[i]).0) == "upgrade"@ && lower(
            headers[i].1,
        ) == "websocket"@
}

/// Whether a request asks for a WebSocket.
pub fn asks_for_websocket(headers: &HeaderList) -> (r: bool)
    ensures
        r == upgrades(pairs(headers@)),
{
    let ghost h = pairs(headers@);
    proof {
        crate::tunnel::exchange::lower_literals();
    }
    for i in 0..headers.len()
        invariant
            h == pairs(headers@),
            lower("upgrade"@) == "upgrade"@,
            lower("websocket"@) == "websocket"@,
            forall|j: int|
                0 <= j < i ==> !(lower((#[trigger] h[j]).0) == "upgrade"@ && lower(h[j].1)
                    == "websocket"@),
    {
        assert(h[i as int] == (headers@[i as int].0@, headers@[i as int].1@));
        if same_ignoring_case(headers[i].0.as_str(), "upgrade") && same_ignoring_case(
            headers[i].1.as_str(),
            "websocket",
        ) {
            return true;
        }
    }
    false
}

/// Some names are in small letters.
pub proof fn lower_literals()
    ensures
        lower("upgrade"@) == "upgrade"@,
        lower("websocket"@) == "websocket"@,
        lower("host"@) == "host"@,
        lower("content-length"@) == "content-length"@,
{
    reveal_strlit("upgrade");
    reveal_strlit("websocket");
    reveal_strlit("host");
    reveal_strlit("content-length");
    assert(lower("upgrade"@) =~= "upgrade"@);
    assert(lower("websocket"@) =~= "websocket"@);
    assert(lower("host"@) =~= "host"@);
    assert(lower("content-length"@) =~= "content-length"@);
}

/// The value of the first `Content-Length` header from the `from`-th on.
pub open spec fn first_length(headers: Pairs, from: int) -> Option<Seq<char>>
    decreases headers.len() - from,
{
    if from < 0 || from >= headers.len() {
        None
    } else if lower(headers[from].0) == "content-length"@ {
        Some(headers[from].1)
    } else {
        first_length(headers, from + 1)
    }
}

/// The length of a request body: as its first `Content-Length` says, where
/// that is a numeral, else as the transport knows it.
pub open spec fn body_length(headers: Pairs, exact: Option<u64>) -> Option<nat> {
    let known = match exact {
        Some(n) => Some(n as nat),
        None => None,
    };
    match first_length(headers, 0) {
        Some(value) => match unsigned_numeral(value, u64::MAX as nat) {
            Some(n) => Some(n),
            None => known,
        },
        None => known,
    }
}

/// The length of a request body, where it is known.
pub fn request_length(headers: &HeaderList, exact: Option<u64>) -> (r: Option<u64>)
    ensures
        match r {
            Some(n) => body_length(pairs(headers@), exact) == Some(n as nat),
            None => body_length(pairs(headers@), exact) is None,
        },
{
    let ghost h = pairs(headers@);
    proof {
        lower_literals();
    }
    for i in 0..headers.len()
        invariant
            h == pairs(headers@),
            lower("content-length"@) == "content-length"@,
            first_length(h, 0) == first_length(h, i as int),
    {
        assert(h[i as int] == (headers@[i as int].0@, headers@[i as int].1@));
        if same_ignoring_case(headers[i].0.as_str(), "content-length") {
            return match parse_unsigned(headers[i].1.as_str(), u64::MAX) {
                Some(n) => Some(n),
                None => exact,
            };
        }
    }
    exact
}

// ───────────────────────── permits ─────────────────────────

impl StateModel {
    /// The permits that are left of a kind.
    pub open spec fn permits(self, p: Permit) -> usize {
        match p {
            Permit::LocalHttp => self.http_permits,
            Permit::LocalWebSocket => self.ws_permits,
            Permit::Negotiated { generation, websocket } => match self.negotiated {
                Some(n) => if n.generation != generation {
                    0
                } else if websocket {
                    n.websocket
                } else {
                    n.http
                },
                None => 0,
            },
        }
    }

    /// With `count` permits left of a kind.
    pub open spec fn with_permits(self, p: Permit, count: usize) -> StateModel {
        match p {
            Permit::LocalHttp => StateModel { http_permits: count, ..self },
            Permit::LocalWebSocket => StateModel { ws_permits: count, ..self },
            Permit::Negotiated { generation, websocket } => match self.negotiated {
                Some(n) => if n.generation != generation {
                    self
                } else if websocket {
                    StateModel {
                        negotiated: Some(NegotiatedModel { websocket: count, ..n }),
                        ..self
                    }
                } else {
                    StateModel { negotiated: Some(NegotiatedModel { http: count, ..n }), ..self }
                },
                None => self,
            },
        }
    }

    /// After a permit was taken, where there is one.
    pub open spec fn taken(self, p: Permit) -> StateModel {
        if self.permits(p) > 0 {
            self.with_permits(p, (self.permits(p) - 1) as usize)
        } else {
            self
        }
    }

    /// After a permit was given back. One that was negotiated on an earlier
    /// connection is worth nothing any more.
    pub open spec fn released(self, p: Permit) -> StateModel {
        if self.permits(p) < usize::MAX {
            self.with_permits(p, (self.permits(p) + 1) as usize)
        } else {
            self
        }
    }
}

/// A permit that is taken and given back leaves everything as it was.
pub proof fn permits_come_back(s: StateModel, p: Permit)
    requires
        s.permits(p) > 0,
    ensures
        s.taken(p).permits(p) == s.permits(p) - 1,
        s.taken(p).released(p) == s,
{
}

impl State {
    /// Takes a permit, where there is one.
    pub fn try_acquire(&mut self, p: Permit) -> (r: bool)
        ensures
            r == (old(self)@.permits(p) > 0),
            final(self)@ == old(self)@.taken(p),
    {
        match p {
            Permit::LocalHttp => {
                if self.http_permits > 0 {
                    self.http_permits = self.http_permits - 1;
                    true
                } else {
                    false
                }
            },
            Permit::LocalWebSocket => {
                if self.ws_permits > 0 {
                    self.ws_permits = self.ws_permits - 1;
                    true
                } else {
                    false
                }
            },
            Permit::Negotiated { generation, websocket } => {
                if let Some(n) = &mut self.negotiated {
                    if n.generation == generation {
                        if websocket && n.websocket > 0 {
                            n.websocket = n.websocket - 1;
                            return true;
                        }
                        if !websocket && n.http > 0 {
                            n.http = n.http - 1;
                            return true;
                        }
                    }
                }
                false
            },
        }
    }

    /// Gives a permit back.
    pub fn release(&mut self, p: Permit)
        ensures
            final(self)@ == old(self)@.released(p),
    {
        match p {
            Permit::LocalHttp => {
                if self.http_permits < usize::MAX {
                    self.http_permits = self.http_permits + 1;
                }
            },
            Permit::LocalWebSocket => {
                if self.ws_permits < usize::MAX {
                    self.ws_permits = self.ws_permits + 1;
                }
            },
            Permit::Negotiated { generation, websocket } => {
                if let Some(n) = &mut self.negotiated {
                    if n.generation == generation {
                        if websocket && n.websocket < usize::MAX {
                            n.websocket = n.websocket + 1;
                        } else if !websocket && n.http < usize::MAX {
                            n.http = n.http + 1;
                        }
                    }
                }
            },
        }
    }
}

// ───────────────────────── admission ─────────────────────────

/// A refusal: a status, and the text of its body.
#[derive(Debug, PartialEq, Eq)]
pub struct Refusal {
    pub status: u16,
    pub message: String,
}

/// The model of a [`Refusal`].
pub struct RefusalModel {
    pub status: u16,
    pub message: Seq<char>,
}

impl View for Refusal {
    type V = RefusalModel;

    open spec fn view(&self) -> RefusalModel {
        RefusalModel { status: self.status, message: self.message@ }
    }
}

/// A refusal by its parts.
pub open spec fn refusal(status: u16, message: Seq<char>) -> RefusalModel {
    RefusalModel { status, message }
}

/// Makes a refusal.
pub fn refuse(status: u16, message: &str) -> (r: Refusal)
    ensures
        r@ == refusal(status, message@),
{
    Refusal { status, message: message.to_owned() }
}

/// How a request goes through the tunnel.
#[derive(Debug, PartialEq, Eq)]
pub enum Route {
    Refused { refusal: Refusal },
    /// In pieces.
    Stream { permit: Permit },
    /// In one frame, with a body of at most `limit` bytes.
    Whole { permit: Permit, limit: usize },
}

/// The model of a [`Route`].
pub enum RouteModel {
    Refused { refusal: RefusalModel },
    Stream { permit: Permit },
    Whole { permit: Permit, limit: usize },
}

impl View for Route {
    type V = RouteModel;

    open spec fn view(&self) -> RouteModel {
        match *self {
            Route::Refused { refusal } => RouteModel::Refused { refusal: refusal@ },
            Route::Stream { permit } => RouteModel::Stream { permit },
            Route::Whole { permit, limit } => RouteModel::Whole { permit, limit },
        }
    }
}

/// Why a request is not admitted, if it is not.
pub open spec fn admission(s: StateModel, upgrade: bool) -> Option<RefusalModel> {
    if upgrade {
        Some(refusal(501, "Reverse WebSocket tunnel is not implemented"@))
    } else if s.http_permits == 0 {
        Some(refusal(429, "Tunnel max_inflight limit reached"@))
    } else {
        None
    }
}

impl StateModel {
    /// The way of an admitted request, which holds a local permit: whole on a
    /// connection that fell back or for a short body, else in pieces.
    pub open spec fn route(self, mode: ModeModel, length: Option<u64>) -> (StateModel, RouteModel) {
        let idle = self.released(Permit::LocalHttp);
        let too_long = |limit: usize| length is Some && length->0 > limit;
        let needs_pieces = RouteModel::Refused {
            refusal: refusal(413, "request body requires tunnel protocol V2 streaming"@),
        };
        match mode {
            ModeModel::Disconnected => (
                idle,
                RouteModel::Refused { refusal: refusal(503, "Tunnel client is not connected"@) },
            ),
            ModeModel::Legacy { .. } => if too_long(MAX_V1_BODY_BYTES) {
                (idle, needs_pieces)
            } else {
                (
                    self,
                    RouteModel::Whole { permit: Permit::LocalHttp, limit: MAX_V1_BODY_BYTES },
                )
            },
            ModeModel::Streaming { generation, protocol, .. } => {
                let permit = Permit::Negotiated { generation, websocket: false };
                let limit = least(
                    protocol.max_body_size as int,
                    MAX_V1_BODY_BYTES as int,
                ) as usize;
                if self.permits(permit) == 0 {
                    (
                        idle,
                        RouteModel::Refused {
                            refusal: refusal(429, "Tunnel negotiated max_inflight limit reached"@),
                        },
                    )
                } else if length is None || length->0 > self.config.fast_path_body_bytes {
                    (self.taken(permit).released(Permit::LocalHttp), RouteModel::Stream { permit })
                } else if too_long(limit) {
                    (
                        self.taken(permit).released(Permit::LocalHttp).released(permit),
                        needs_pieces,
                    )
                } else {
                    (
                        self.taken(permit).released(Permit::LocalHttp),
                        RouteModel::Whole { permit, limit },
                    )
                }
            },
        }
    }
}

impl State {
    /// Admits a request, which then holds a local permit, or refuses it.
    pub fn admit_http(&mut self, upgrade: bool) -> (r: Option<Refusal>)
        ensures
            match r {
                Some(refusal) => admission(old(self)@, upgrade) == Some(refusal@) && final(self)@
                    == old(self)@,
                None => admission(old(self)@, upgrade) is None && final(self)@ == old(self)@.taken(
                    Permit::LocalHttp,
                ),
            },
    {
        if upgrade {
            return Some(refuse(501, "Reverse WebSocket tunnel is not implemented"));
        }
        if !self.try_acquire(Permit::LocalHttp) {
            return Some(refuse(429, "Tunnel max_inflight limit reached"));
        }
        None
    }

    /// Finds the way of an admitted request.
    pub fn route_http(&mut self, mode: &ConnectionProtocol, length: Option<u64>) -> (r: Route)
        ensures
            (final(self)@, r@) == old(self)@.route(mode@, length),
    {
        match mode {
            ConnectionProtocol::Disconnected => {
                self.release(Permit::LocalHttp);
                Route::Refused { refusal: refuse(503, "Tunnel client is not connected") }
            },
            ConnectionProtocol::Legacy { generation: _ } => {
                let too_long = match length {
                    Some(n) => n > MAX_V1_BODY_BYTES as u64,
                    None => false,
                };
                if too_long {
                    self.release(Permit::LocalHttp);
                    return Route::Refused {
                        refusal: refuse(413, "request body requires tunnel protocol V2 streaming"),
                    };
                }
                Route::Whole { permit: Permit::LocalHttp, limit: MAX_V1_BODY_BYTES }
            },
            ConnectionProtocol::Streaming { generation, protocol, session_id: _ } => {
                let permit = Permit::Negotiated { generation: *generation, websocket: false };
                if !self.try_acquire(permit) {
                    self.release(Permit::LocalHttp);
                    return Route::Refused {
                        refusal: refuse(429, "Tunnel negotiated max_inflight limit reached"),
                    };
                }
                self.release(Permit::LocalHttp);
                let in_pieces = match length {
                    Some(n) => n > self.config.fast_path_body_bytes,
                    None => true,
                };
                if in_pieces {
                    return Route::Stream { permit };
                }
                let limit: usize = if protocol.max_body_size <= MAX_V1_BODY_BYTES {
                    protocol.max_body_size
                } else {
                    MAX_V1_BODY_BYTES
                };
                let too_long = match length {
                    Some(n) => n > limit as u64,
                    None => false,
                };
                if too_long {
                    self.release(permit);
                    return Route::Refused {
                        refusal: refuse(413, "request body requires tunnel protocol V2 streaming"),
                    };
                }
                Route::Whole { permit, limit }
            },
        }
    }
}

/// The answer to a body that could not be read whole: too long, or broken.
pub open spec fn body_failure(too_long: bool, message: Seq<char>) -> RefusalModel {
    refusal(
        if too_long {
            413
        } else {
            400
        },
        message,
    )
}

/// Refuses a request whose body could not be read whole.
pub fn refuse_body(too_long: bool, message: &str) -> (r: Refusal)
    ensures
        r@ == body_failure(too_long, message@),
{
    if too_long {
        refuse(413, message)
    } else {
        refuse(400, message)
    }
}

// ───────────────────────── whole requests ─────────────────────────

/// The connection of a mode.
pub open spec fn mode_generation(mode: ModeModel) -> Option<u64> {
    match mode {
        ModeModel::Disconnected => None,
        ModeModel::Legacy { generation } => Some(generation),
        ModeModel::Streaming { generation, .. } => Some(generation),
    }
}

/// The session that an exchange can resume in.
pub open spec fn mode_session(mode: ModeModel) -> Option<Seq<char>> {
    match mode {
        ModeModel::Streaming { protocol, session_id, .. } => if protocol.resumable {
            session_id
        } else {
            None
        },
        _ => None,
    }
}

impl StateModel {
    /// The time that an exchange may take, in nanoseconds.
    pub open spec fn http_timeout(self) -> u64 {
        least(self.config.http_timeout.total_nanos() as int, u64::MAX as int) as u64
    }

    /// The frame of a whole request.
    pub open spec fn whole_request(
        self,
        id: Seq<char>,
        method: Seq<char>,
        path: Seq<char>,
        headers: Pairs,
        body: Seq<u8>,
    ) -> FrameModel {
        FrameModel::HttpReq { id, method, path, headers, body: base64_text(body) }
    }

    /// After a whole request was made. On a connection that negotiated, it
    /// belongs to the connection; where it can be sent again after a
    /// reconnect, it is kept.
    pub open spec fn submitted(
        self,
        id: Seq<char>,
        mode: ModeModel,
        frame: FrameModel,
        now: u64,
    ) -> StateModel {
        let session = mode_session(mode);
        let waiting = StateModel {
            pending_http: with(
                self.pending_http,
                SlotModel {
                    id,
                    generation: if mode is Streaming {
                        mode_generation(mode)
                    } else {
                        None
                    },
                    session,
                    data: Waiter {  },
                },
            ),
            ..self
        };
        if mode is Legacy || session is Some {
            StateModel {
                pending_requests: with(
                    self.pending_requests,
                    SlotModel {
                        id,
                        generation: None,
                        session,
                        data: CachedModel {
                            frame,
                            created_at: now,
                            ttl: if session is Some {
                                self.http_timeout()
                            } else {
                                PENDING_REQUEST_TTL
                            },
                        },
                    },
                ),
                ..waiting
            }
        } else {
            waiting
        }
    }

    /// Whether anything bears the name.
    pub open spec fn knows(self, id: Seq<char>) -> bool {
        entry(self.pending_http, id) is Some || entry(self.pending_requests, id) is Some || entry(
            self.stream_credits,
            id,
        ) is Some || entry(self.response_streams, id) is Some
    }

    /// Without the exchange of a name.
    pub open spec fn forgetting(self, id: Seq<char>) -> StateModel {
        StateModel {
            pending_http: without(self.pending_http, id),
            pending_requests: without(self.pending_requests, id),
            stream_credits: without(self.stream_credits, id),
            response_streams: without(self.response_streams, id),
            ..self
        }
    }

    /// After an exchange was given up before its response was taken.
    pub open spec fn on_cancel(self, id: Seq<char>, generation: u64, now: u64) -> Step {
        if self.knows(id) {
            (
                self.forgetting(id).remembering(generation, id, now),
                seq![ActionModel::Abandon { id }, ActionModel::BodyEnd { id }]
                    + self.sends_eventually(
                    generation,
                    error_frame(id, "downstream request closed"@),
                ),
            )
        } else {
            (self.forgetting(id), Seq::empty())
        }
    }
}

/// What came of waiting for an answer.
#[derive(Debug, PartialEq, Eq)]
pub enum Waited {
    Answered { answer: Answer },
    /// The exchange was given up without an answer.
    Dropped,
    TimedOut,
}

/// The model of a [`Waited`].
pub enum WaitedModel {
    Answered { answer: AnswerModel },
    Dropped,
    TimedOut,
}

impl View for Waited {
    type V = WaitedModel;

    open spec fn view(&self) -> WaitedModel {
        match *self {
            Waited::Answered { answer } => WaitedModel::Answered { answer: answer@ },
            Waited::Dropped => WaitedModel::Dropped,
            Waited::TimedOut => WaitedModel::TimedOut,
        }
    }
}

/// The response that goes downstream.
#[derive(Debug, PartialEq, Eq)]
pub enum Reply {
    Refused { refusal: Refusal },
    Whole { status: u16, headers: HeaderList, body: Vec<u8> },
    /// The body follows in pieces.
    Stream { generation: u64, status: u16, headers: HeaderList },
}

/// The model of a [`Reply`].
pub enum ReplyModel {
    Refused { refusal: RefusalModel },
    Whole { status: u16, headers: Pairs, body: Seq<u8> },
    Stream { generation: u64, status: u16, headers: Pairs },
}

impl View for Reply {
    type V = ReplyModel;

    open spec fn view(&self) -> ReplyModel {
        match *self {
            Reply::Refused { refusal } => ReplyModel::Refused { refusal: refusal@ },
            Reply::Whole { status, headers, body } => ReplyModel::Whole {
                status,
                headers: pairs(headers@),
                body: body@,
            },
            Reply::Stream { generation, status, headers } => ReplyModel::Stream {
                generation,
                status,
                headers: pairs(headers@),
            },
        }
    }
}

/// A new state, what has to be done, and the response downstream.
pub type Ending = (StateModel, Seq<ActionModel>, ReplyModel);

impl StateModel {
    /// A refusal that gives the exchange up.
    pub open spec fn giving_up(
        self,
        id: Seq<char>,
        generation: u64,
        now: u64,
        status: u16,
        message: Seq<char>,
    ) -> Ending {
        let step = self.on_cancel(id, generation, now);
        (step.0, step.1, ReplyModel::Refused { refusal: refusal(status, message) })
    }

    /// The response downstream of a streaming answer. One without a body ends
    /// its stream at once.
    pub open spec fn downstream(
        self,
        method: Seq<char>,
        id: Seq<char>,
        generation: u64,
        status: u16,
        headers: Pairs,
        content_length: Option<u64>,
        now: u64,
    ) -> Ending {
        let out = headers.filter(response_keeps(headers)) + length_header(
            stream_length(headers, method, status, content_length),
        );
        if bodiless(method, status) {
            let silent = StateModel {
                response_streams: without(self.response_streams, id),
                ..self
            };
            if entry(self.response_streams, id) is Some {
                (
                    silent.remembering(generation, id, now),
                    seq![ActionModel::BodyEnd { id }],
                    ReplyModel::Whole { status, headers: out, body: Seq::empty() },
                )
            } else {
                (
                    silent,
                    Seq::empty(),
                    ReplyModel::Whole { status, headers: out, body: Seq::empty() },
                )
            }
        } else {
            (self, Seq::empty(), ReplyModel::Stream { generation, status, headers: out })
        }
    }

    /// What becomes of a whole request once the wait for its answer is over.
    pub open spec fn on_whole_waited(
        self,
        id: Seq<char>,
        generation: u64,
        method: Seq<char>,
        limit: usize,
        waited: WaitedModel,
        now: u64,
    ) -> Ending {
        let done = StateModel { pending_requests: without(self.pending_requests, id), ..self };
        match waited {
            WaitedModel::TimedOut => self.giving_up(id, generation, now, 504, "Tunnel timeout"@),
            WaitedModel::Dropped => self.giving_up(
                id,
                generation,
                now,
                502,
                "Invalid tunnel response"@,
            ),
            WaitedModel::Answered { answer } => match answer {
                AnswerModel::Failed { message } => self.giving_up(
                    id,
                    generation,
                    now,
                    502,
                    message,
                ),
                AnswerModel::Streaming { generation: g, status, headers, content_length, .. } =>
                    done.downstream(method, id, g, status, headers, content_length, now),
                AnswerModel::Legacy { status, headers, body } => match base64_bytes(body) {
                    None => self.giving_up(
                        id,
                        generation,
                        now,
                        502,
                        "Invalid tunnel response body"@,
                    ),
                    Some(bytes) => if bytes.len() > limit {
                        self.giving_up(
                            id,
                            generation,
                            now,
                            502,
                            "Tunnel response body exceeds limit"@,
                        )
                    } else {
                        (done, Seq::empty(), whole_reply(method, status, headers, bytes))
                    },
                },
            },
        }
    }
}

/// The response downstream of a whole answer.
pub open spec fn whole_reply(
    method: Seq<char>,
    status: u16,
    headers: Pairs,
    body: Seq<u8>,
) -> ReplyModel {
    let code = super::dispatch::status_or_bad_gateway(status);
    ReplyModel::Whole {
        status: code,
        headers: headers.filter(response_keeps(headers)) + length_header(
            whole_length(headers, method, code, body.len()),
        ),
        body: if bodiless(method, code) {
            Seq::empty()
        } else {
            body
        },
    }
}

/// Makes the response downstream of a whole answer.
pub fn whole_response(method: &str, status: u16, headers: HeaderList, body: Vec<u8>) -> (r: Reply)
    ensures
        r@ == whole_reply(method@, status, pairs(headers@), body@),
{
    let code: u16 = super::dispatch::valid_status(status);
    let out = response_headers_for_downstream(headers, method, code, body.len());
    if suppresses_body(method, code) {
        let none: Vec<u8> = Vec::new();
        assert(none@ =~= Seq::empty());
        Reply::Whole { status: code, headers: out, body: none }
    } else {
        Reply::Whole { status: code, headers: out, body }
    }
}

fn timeout_of(s: &State) -> (r: u64)
    ensures
        r == s@.http_timeout(),
{
    s.config.http_timeout.as_nanos()
}

impl State {
    /// Makes a whole request, and the frame to send for it.
    pub fn submit_http(
        &mut self,
        numbers: &mut Sequence,
        mode: &ConnectionProtocol,
        method: &str,
        path: &str,
        headers: HeaderList,
        body: &[u8],
        now: u64,
    ) -> (r: (String, Frame))
        requires
            body@.len() / 3 * 4 + 4 <= isize::MAX,
        ensures
            r.0@ == stream_id(old(numbers).next),
            final(numbers).next == after(old(numbers).next),
            r.1@ == old(self)@.whole_request(r.0@, method@, path@, pairs(headers@), body@),
            final(self)@ == old(self)@.submitted(r.0@, mode@, r.1@, now),
            r.1 matches Frame::HttpReq { body: text, .. } && base64_bytes(text@) == Some(body@),
    {
        let id = numbers.fresh_id();
        let frame = Frame::HttpReq {
            id: id.clone(),
            method: method.to_owned(),
            path: path.to_owned(),
            headers,
            body: base64_encode(body),
        };
        let (generation, session, legacy) = match mode {
            ConnectionProtocol::Disconnected => (None, None, false),
            ConnectionProtocol::Legacy { generation: _ } => (None, None, true),
            ConnectionProtocol::Streaming { generation, protocol, session_id } => (
                Some(*generation),
                if protocol.resumable {
                    opt_copy(session_id)
                } else {
                    None
                },
                false,
            ),
        };
        self.pending_http.insert(
            Slot { id: id.clone(), generation, session: opt_copy(&session), data: Waiter {  } },
        );
        if legacy || session.is_some() {
            let ttl: u64 = if session.is_some() {
                timeout_of(self)
            } else {
                PENDING_REQUEST_TTL
            };
            self.pending_requests.insert(
                Slot {
                    id: id.clone(),
                    generation: None,
                    session,
                    data: CachedRequest { frame: frame.duplicate(), created_at: now, ttl },
                },
            );
        }
        (id, frame)
    }

    /// Gives an exchange up before its response was taken.
    pub fn cancel_request(&mut self, id: &str, generation: u64, now: u64) -> (r: Vec<Action>)
        ensures
            (final(self)@, acts(r@)) == old(self)@.on_cancel(id@, generation, now),
    {
        let mut out: Vec<Action> = Vec::new();
        let a = self.pending_http.remove(id).is_some();
        let b = self.pending_requests.remove(id).is_some();
        let c = self.stream_credits.remove(id).is_some();
        let d = self.response_streams.remove(id).is_some();
        if a || b || c || d {
            self.remember_terminated_stream(generation, id, now);
            out.push(Action::Abandon { id: id.to_owned() });
            out.push(Action::BodyEnd { id: id.to_owned() });
            if self.active_client == Some(generation) {
                out.push(
                    Action::SendEventually {
                        frame: Frame::Error {
                            id: id.to_owned(),
                            message: "downstream request closed".to_owned(),
                        },
                    },
                );
            }
        }
        assert(acts(out@) =~= old(self)@.on_cancel(id@, generation, now).1);
        out
    }

    fn give_up(&mut self, id: &str, generation: u64, now: u64, status: u16, message: &str) -> (r: (
        Vec<Action>,
        Reply,
    ))
        ensures
            (final(self)@, acts(r.0@), r.1@) == old(self)@.giving_up(
                id@,
                generation,
                now,
                status,
                message@,
            ),
    {
        let out = self.cancel_request(id, generation, now);
        (out, Reply::Refused { refusal: refuse(status, message) })
    }

    /// Follows a whole request that could not be queued: gives the exchange
    /// up, unless it can be sent again after a reconnect.
    pub fn whole_unsent(&mut self, id: &str, mode: &ConnectionProtocol, generation: u64, now: u64) -> (r:
        Option<(Vec<Action>, Reply)>)
        ensures
            match r {
                None => mode_session(mode@) is Some && final(self)@ == old(self)@,
                Some((actions, reply)) => mode_session(mode@) is None && (
                    final(self)@,
                    acts(actions@),
                    reply@,
                ) == old(self)@.giving_up(
                    id@,
                    generation,
                    now,
                    503,
                    "Tunnel client is not connected"@,
                ),
            },
    {
        let resumable = match mode {
            ConnectionProtocol::Streaming { generation: _, protocol, session_id } =>
                protocol.resumable && session_id.is_some(),
            _ => false,
        };
        if resumable {
            None
        } else {
            Some(self.give_up(id, generation, now, 503, "Tunnel client is not connected"))
        }
    }

    /// Makes the response downstream of a streaming answer.
    pub fn streaming_response_to_downstream(
        &mut self,
        method: &str,
        id: &str,
        generation: u64,
        status: u16,
        headers: HeaderList,
        content_length: Option<u64>,
        now: u64,
    ) -> (r: (Vec<Action>, Reply))
        ensures
            (final(self)@, acts(r.0@), r.1@) == old(self)@.downstream(
                method@,
                id@,
                generation,
                status,
                pairs(headers@),
                content_length,
                now,
            ),
    {
        let mut out: Vec<Action> = Vec::new();
        let headers = response_headers_for_stream(headers, method, status, content_length);
        if suppresses_body(method, status) {
            if self.response_streams.remove(id).is_some() {
                self.remember_terminated_stream(generation, id, now);
                out.push(Action::BodyEnd { id: id.to_owned() });
                assert(acts(out@) =~= seq![ActionModel::BodyEnd { id: id@ }]);
            }
            let none: Vec<u8> = Vec::new();
            assert(none@ =~= Seq::empty());
            return (out, Reply::Whole { status, headers, body: none });
        }
        (out, Reply::Stream { generation, status, headers })
    }

    /// Makes the response downstream once the wait for the answer to a whole
    /// request is over.
    pub fn finish_whole(
        &mut self,
        id: &str,
        generation: u64,
        method: &str,
        limit: usize,
        waited: Waited,
        now: u64,
    ) -> (r: (Vec<Action>, Reply))
        ensures
            (final(self)@, acts(r.0@), r.1@) == old(self)@.on_whole_waited(
                id@,
                generation,
                method@,
                limit,
                waited@,
                now,
            ),
            (waited@ matches WaitedModel::Answered {
                answer: AnswerModel::Legacy { status, body, .. },
            } && 100 <= status <= 999 && base64_bytes(body) is Some && base64_bytes(body)->0.len()
                <= limit) ==> (r.1@ matches ReplyModel::Whole { status: sent, .. } && sent
                == waited@->answer->Legacy_status),
    {
        match waited {
            Waited::TimedOut => self.give_up(id, generation, now, 504, "Tunnel timeout"),
            Waited::Dropped => self.give_up(id, generation, now, 502, "Invalid tunnel response"),
            Waited::Answered { answer } => match answer {
                Answer::Failed { message } => self.give_up(
                    id,
                    generation,
                    now,
                    502,
                    message.as_str(),
                ),
                Answer::Streaming { generation: g, status, headers, content_length, window: _ } => {
                    let _ = self.pending_requests.remove(id);
                    self.streaming_response_to_downstream(
                        method,
                        id,
                        g,
                        status,
                        headers,
                        content_length,
                        now,
                    )
                },
                Answer::Legacy { status, headers, body } => match base64_decode(body.as_str()) {
                    None => self.give_up(
                        id,
                        generation,
                        now,
                        502,
                        "Invalid tunnel response body",
                    ),
                    Some(bytes) => {
                        if bytes.len() > limit {
                            return self.give_up(
                                id,
                                generation,
                                now,
                                502,
                                "Tunnel response body exceeds limit",
                            );
                        }
                        let _ = self.pending_requests.remove(id);
                        let out: Vec<Action> = Vec::new();
                        (out, whole_response(method, status, headers, bytes))
                    },
                },
            },
        }
    }
}

} // verus!
