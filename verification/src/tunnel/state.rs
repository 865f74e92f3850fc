//! The shared state of the tunnel: the active connection, and the exchanges,
//! channels and streams that live on it.
//!
//! The state performs no input or output. Each operation says in a list of
//! [`Action`]s what has to be sent or handed over, in order.
use super::config::{NegotiatedProtocol, TunnelConfig};
use super::credits::{CreditsModel, StreamCredits};
use super::frame::{pairs, Frame, FrameModel, HeaderList, Pairs};
use super::registry::{filter_empty, filter_extends, Registry, SlotModel};
use crate::text::{opt_view, same};
use vstd::prelude::*;

verus! {

/// How long a closed stream still absorbs data that the peer had sent, in
/// nanoseconds.
pub const TERMINATED_STREAM_TTL: u64 = 30_000_000_000;

/// How many closed streams are remembered.
pub const TERMINATED_STREAM_LIMIT: usize = 1024;

/// How long a request that went out in one frame may be sent again, in
/// nanoseconds.
pub const PENDING_REQUEST_TTL: u64 = 120_000_000_000;

/// The code that a lost connection closes a WebSocket channel with.
pub const GOING_AWAY: u16 = 1001;

// ───────────────────────── entries ─────────────────────────

/// The receiving side of one response body.
#[derive(Debug, Clone, Copy, PartialEq, Eq)]
pub struct ResponseSink {
    /// Bytes received so far.
    pub received: usize,
    /// Bytes announced.
    pub expected: Option<usize>,
    pub max_body_size: usize,
    /// Frames that wait for the reader downstream.
    pub queued: usize,
    pub window: usize,
}

impl View for ResponseSink {
    type V = ResponseSink;

    open spec fn view(&self) -> ResponseSink {
        *self
    }
}

/// A request frame kept to be sent again after a reconnect.
pub struct CachedRequest {
    pub frame: Frame,
    pub created_at: u64,
    pub ttl: u64,
}

/// The model of a [`CachedRequest`].
pub struct CachedModel {
    pub frame: FrameModel,
    pub created_at: u64,
    pub ttl: u64,
}

impl View for CachedRequest {
    type V = CachedModel;

    open spec fn view(&self) -> CachedModel {
        CachedModel { frame: self.frame@, created_at: self.created_at, ttl: self.ttl }
    }
}

/// An exchange or channel that someone waits on; the waiting end itself is
/// found by the entry's name.
#[derive(Debug, Clone, Copy, PartialEq, Eq)]
pub struct Waiter {}

impl View for Waiter {
    type V = Waiter;

    open spec fn view(&self) -> Waiter {
        *self
    }
}

/// A stream that was closed a moment ago.
pub struct Tombstone {
    pub generation: u64,
    pub id: String,
    pub at: u64,
}

/// The model of a [`Tombstone`].
pub struct TombModel {
    pub generation: u64,
    pub id: Seq<char>,
    pub at: u64,
}

impl View for Tombstone {
    type V = TombModel;

    open spec fn view(&self) -> TombModel {
        TombModel { generation: self.generation, id: self.id@, at: self.at }
    }
}

/// The models of a sequence of tombstones.
pub open spec fn tombs(items: Seq<Tombstone>) -> Seq<TombModel> {
    Seq::new(items.len(), |i: int| items[i]@)
}

/// What was negotiated on a connection, and the permits left of it.
pub struct NegotiatedConnection {
    pub generation: u64,
    pub protocol: NegotiatedProtocol,
    pub session_id: Option<String>,
    pub http: usize,
    pub websocket: usize,
}

/// The model of a [`NegotiatedConnection`].
pub struct NegotiatedModel {
    pub generation: u64,
    pub protocol: NegotiatedProtocol,
    pub session_id: Option<Seq<char>>,
    pub http: usize,
    pub websocket: usize,
}

impl View for NegotiatedConnection {
    type V = NegotiatedModel;

    open spec fn view(&self) -> NegotiatedModel {
        NegotiatedModel {
            generation: self.generation,
            protocol: self.protocol,
            session_id: opt_view(self.session_id),
            http: self.http,
            websocket: self.websocket,
        }
    }
}

/// The mode that a request finds the active connection in.
#[derive(Debug, PartialEq, Eq)]
pub enum ConnectionProtocol {
    Disconnected,
    Legacy { generation: u64 },
    Streaming { generation: u64, protocol: NegotiatedProtocol, session_id: Option<String> },
}

/// The model of a [`ConnectionProtocol`].
pub enum ModeModel {
    Disconnected,
    Legacy { generation: u64 },
    Streaming { generation: u64, protocol: NegotiatedProtocol, session_id: Option<Seq<char>> },
}

impl View for ConnectionProtocol {
    type V = ModeModel;

    open spec fn view(&self) -> ModeModel {
        match *self {
            ConnectionProtocol::Disconnected => ModeModel::Disconnected,
            ConnectionProtocol::Legacy { generation } => ModeModel::Legacy { generation },
            ConnectionProtocol::Streaming { generation, protocol, session_id } =>
                ModeModel::Streaming { generation, protocol, session_id: opt_view(session_id) },
        }
    }
}

/// A right to one exchange, to be given back when the exchange is over.
#[derive(Debug, Clone, Copy, PartialEq, Eq, Structural)]
pub enum Permit {
    LocalHttp,
    LocalWebSocket,
    Negotiated { generation: u64, websocket: bool },
}

// ───────────────────────── actions ─────────────────────────

/// What a waiting HTTP exchange is told.
#[derive(Debug, PartialEq, Eq)]
pub enum Answer {
    Legacy { status: u16, headers: HeaderList, body: String },
    Streaming {
        generation: u64,
        status: u16,
        headers: HeaderList,
        content_length: Option<u64>,
        window: usize,
    },
    Failed { message: String },
}

/// The model of an [`Answer`].
pub enum AnswerModel {
    Legacy { status: u16, headers: Pairs, body: Seq<char> },
    Streaming {
        generation: u64,
        status: u16,
        headers: Pairs,
        content_length: Option<u64>,
        window: usize,
    },
    Failed { message: Seq<char> },
}

impl View for Answer {
    type V = AnswerModel;

    open spec fn view(&self) -> AnswerModel {
        match *self {
            Answer::Legacy { status, headers, body } => AnswerModel::Legacy {
                status,
                headers: pairs(headers@),
                body: body@,
            },
            Answer::Streaming { generation, status, headers, content_length, window } =>
                AnswerModel::Streaming {
                generation,
                status,
                headers: pairs(headers@),
                content_length,
                window,
            },
            Answer::Failed { message } => AnswerModel::Failed { message: message@ },
        }
    }
}

/// Something to be done outside the state.
#[derive(Debug, PartialEq, Eq)]
pub enum Action {
    /// Queue a control frame for the active connection.
    Send { frame: Frame },
    /// Queue a control frame for the active connection, and wait for a place in
    /// its queue for a while.
    SendEventually { frame: Frame },
    /// Tell the exchange that waits under `id`, and forget it.
    Answer { id: String, answer: Answer },
    /// Forget the exchange that waits under `id`, without an answer.
    Abandon { id: String },
    /// Queue a chunk of a response body for the reader downstream.
    Chunk { id: String, offset: u64, payload: Vec<u8> },
    /// End a response body with an error.
    BodyError { id: String, message: String },
    /// End a response body.
    BodyEnd { id: String },
    /// Queue a control frame for a WebSocket channel.
    ChannelFrame { id: String, frame: Frame },
    /// Queue a binary piece for a WebSocket channel.
    ChannelData { id: String, payload: Vec<u8>, end_of_body: bool },
    /// Queue a control frame for a WebSocket channel, and forget the channel.
    ChannelEnd { id: String, frame: Frame },
    /// Send the pieces of an upload again.
    ResumeUpload { id: String },
}

/// The model of an [`Action`].
pub enum ActionModel {
    Send { frame: FrameModel },
    SendEventually { frame: FrameModel },
    Answer { id: Seq<char>, answer: AnswerModel },
    Abandon { id: Seq<char> },
    Chunk { id: Seq<char>, offset: u64, payload: Seq<u8> },
    BodyError { id: Seq<char>, message: Seq<char> },
    BodyEnd { id: Seq<char> },
    ChannelFrame { id: Seq<char>, frame: FrameModel },
    ChannelData { id: Seq<char>, payload: Seq<u8>, end_of_body: bool },
    ChannelEnd { id: Seq<char>, frame: FrameModel },
    ResumeUpload { id: Seq<char> },
}

impl View for Action {
    type V = ActionModel;

    open spec fn view(&self) -> ActionModel {
        match *self {
            Action::Send { frame } => ActionModel::Send { frame: frame@ },
            Action::SendEventually { frame } => ActionModel::SendEventually { frame: frame@ },
            Action::Answer { id, answer } => ActionModel::Answer { id: id@, answer: answer@ },
            Action::Abandon { id } => ActionModel::Abandon { id: id@ },
            Action::Chunk { id, offset, payload } => ActionModel::Chunk {
                id: id@,
                offset,
                payload: payload@,
            },
            Action::BodyError { id, message } => ActionModel::BodyError {
                id: id@,
                message: message@,
            },
            Action::BodyEnd { id } => ActionModel::BodyEnd { id: id@ },
            Action::ChannelFrame { id, frame } => ActionModel::ChannelFrame {
                id: id@,
                frame: frame@,
            },
            Action::ChannelData { id, payload, end_of_body } => ActionModel::ChannelData {
                id: id@,
                payload: payload@,
                end_of_body,
            },
            Action::ChannelEnd { id, frame } => ActionModel::ChannelEnd {
                id: id@,
                frame: frame@,
            },
            Action::ResumeUpload { id } => ActionModel::ResumeUpload { id: id@ },
        }
    }
}

/// The models of a sequence of actions.
pub open spec fn acts(items: Seq<Action>) -> Seq<ActionModel> {
    Seq::new(items.len(), |i: int| items[i]@)
}

/// Models follow a push.
pub broadcast proof fn acts_push(items: Seq<Action>, a: Action)
    ensures
        #[trigger] acts(items.push(a)) == acts(items).push(a@),
{
    assert(acts(items.push(a)) =~= acts(items).push(a@));
}

/// No actions, no models.
pub broadcast proof fn acts_empty()
    ensures
        #[trigger] acts(Seq::empty()) == Seq::<ActionModel>::empty(),
{
    assert(acts(Seq::empty()) =~= Seq::<ActionModel>::empty());
}

/// An error frame.
pub open spec fn error_frame(id: Seq<char>, message: Seq<char>) -> FrameModel {
    FrameModel::Error { id, message }
}

/// The frame that grants a peer credits and acknowledges what was received.
pub open spec fn window_frame(id: Seq<char>, credits: usize, ack: u64, complete: bool) -> FrameModel {
    FrameModel::Window { id, credits, ack_offset: Some(ack), complete }
}

// ───────────────────────── state ─────────────────────────

/// The state of the tunnel.
pub struct State {
    pub config: TunnelConfig,
    pub active_client: Option<u64>,
    pub pending_http: Registry<Waiter>,
    pub pending_ws: Registry<Waiter>,
    pub pending_requests: Registry<CachedRequest>,
    pub response_streams: Registry<ResponseSink>,
    pub stream_credits: Registry<StreamCredits>,
    pub terminated: Vec<Tombstone>,
    pub active_generation: u64,
    pub legacy_generation: u64,
    pub negotiated: Option<NegotiatedConnection>,
    pub http_permits: usize,
    pub ws_permits: usize,
}

/// The model of a [`State`].
pub struct StateModel {
    pub config: TunnelConfig,
    /// The generation of the connection that frames go to.
    pub active_client: Option<u64>,
    /// HTTP exchanges that wait for a response.
    pub pending_http: Seq<SlotModel<Waiter>>,
    /// WebSocket channels.
    pub pending_ws: Seq<SlotModel<Waiter>>,
    /// Requests that are sent again after a reconnect.
    pub pending_requests: Seq<SlotModel<CachedModel>>,
    /// Response bodies that are being received.
    pub response_streams: Seq<SlotModel<ResponseSink>>,
    /// Request bodies that are being sent.
    pub stream_credits: Seq<SlotModel<CreditsModel>>,
    /// Streams closed a moment ago.
    pub terminated: Seq<TombModel>,
    /// The number of connections so far.
    pub active_generation: u64,
    /// The connection that fell back to single-frame exchanges.
    pub legacy_generation: u64,
    pub negotiated: Option<NegotiatedModel>,
    /// HTTP exchanges that may still start.
    pub http_permits: usize,
    /// WebSocket channels that may still open.
    pub ws_permits: usize,
}

/// The model of what was negotiated, where something was.
pub open spec fn opt_negotiated(n: Option<NegotiatedConnection>) -> Option<NegotiatedModel> {
    match n {
        Some(c) => Some(c@),
        None => None,
    }
}

impl View for State {
    type V = StateModel;

    open spec fn view(&self) -> StateModel {
        StateModel {
            config: self.config,
            active_client: self.active_client,
            pending_http: self.pending_http@,
            pending_ws: self.pending_ws@,
            pending_requests: self.pending_requests@,
            response_streams: self.response_streams@,
            stream_credits: self.stream_credits@,
            terminated: tombs(self.terminated@),
            active_generation: self.active_generation,
            legacy_generation: self.legacy_generation,
            negotiated: opt_negotiated(self.negotiated),
            http_permits: self.http_permits,
            ws_permits: self.ws_permits,
        }
    }
}

impl StateModel {
    /// The frame, if the connection is the active one.
    pub open spec fn sends(self, generation: u64, frame: FrameModel) -> Seq<ActionModel> {
        if self.active_client == Some(generation) {
            seq![ActionModel::Send { frame }]
        } else {
            Seq::empty()
        }
    }

    /// The frame, if the connection is the active one, as soon as it has room.
    pub open spec fn sends_eventually(self, generation: u64, frame: FrameModel) -> Seq<
        ActionModel,
    > {
        if self.active_client == Some(generation) {
            seq![ActionModel::SendEventually { frame }]
        } else {
            Seq::empty()
        }
    }

    /// The limits of the active connection, once it has negotiated them.
    pub open spec fn protocol(self) -> Option<(u64, NegotiatedProtocol)> {
        match self.negotiated {
            Some(n) => if n.generation == self.active_generation {
                Some((n.generation, n.protocol))
            } else {
                None
            },
            None => None,
        }
    }

    /// The session of the active connection.
    pub open spec fn session(self) -> Option<Seq<char>> {
        match self.negotiated {
            Some(n) => if n.generation == self.active_generation {
                n.session_id
            } else {
                None
            },
            None => None,
        }
    }
}

// ───────────────────────── closed streams ─────────────────────────

/// Time since `at`, and nothing where that is still to come.
pub open spec fn elapsed(at: u64, now: u64) -> int {
    if now >= at {
        now - at
    } else {
        0
    }
}

/// How long ago something was.
pub fn time_since(at: u64, now: u64) -> (r: u64)
    ensures
        r == elapsed(at, now),
{
    if now >= at {
        now - at
    } else {
        0
    }
}

/// Which of the first `n` closed streams was closed first.
pub open spec fn oldest(t: Seq<TombModel>, n: nat) -> int
    decreases n,
{
    if n <= 1 {
        0
    } else {
        let k = oldest(t, (n - 1) as nat);
        if t[n - 1].at < t[k].at {
            n - 1
        } else {
            k
        }
    }
}

proof fn oldest_bound(t: Seq<TombModel>, n: nat)
    requires
        n >= 1,
    ensures
        0 <= oldest(t, n) < n,
    decreases n,
{
    if n > 1 {
        oldest_bound(t, (n - 1) as nat);
    }
}

/// The closed streams that still matter at `now`.
pub open spec fn recent(t: Seq<TombModel>, now: u64) -> Seq<TombModel> {
    t.filter(|e: TombModel| elapsed(e.at, now) <= TERMINATED_STREAM_TTL)
}

/// The closed streams other than one.
pub open spec fn except(t: Seq<TombModel>, generation: u64, id: Seq<char>) -> Seq<TombModel> {
    t.filter(|e: TombModel| !(e.generation == generation && e.id == id))
}

/// The closed streams after one more: expired ones are dropped, and the oldest
/// where there are too many.
pub open spec fn remembered(
    t: Seq<TombModel>,
    generation: u64,
    id: Seq<char>,
    now: u64,
) -> Seq<TombModel> {
    let r = recent(t, now);
    let room = if r.len() >= TERMINATED_STREAM_LIMIT {
        r.remove(oldest(r, r.len()))
    } else {
        r
    };
    except(room, generation, id).push(TombModel { generation, id, at: now })
}

/// Whether a stream was closed a moment ago.
pub open spec fn is_closed(t: Seq<TombModel>, generation: u64, id: Seq<char>, now: u64) -> bool {
    exists|i: int|
        0 <= i < t.len() && (#[trigger] t[i]).generation == generation && t[i].id == id && elapsed(
            t[i].at,
            now,
        ) <= TERMINATED_STREAM_TTL
}

fn drop_where(t: &mut Vec<Tombstone>, expired_at: Option<u64>, generation: u64, id: &str)
    ensures
        match expired_at {
            Some(now) => tombs(final(t)@) == recent(tombs(old(t)@), now),
            None => tombs(final(t)@) == except(tombs(old(t)@), generation, id@),
        },
{
    let ghost s = tombs(t@);
    let ghost pred = match expired_at {
        Some(now) => (|e: TombModel| elapsed(e.at, now) <= TERMINATED_STREAM_TTL),
        None => (|e: TombModel| !(e.generation == generation && e.id == id@)),
    };
    let mut i: usize = 0;
    let ghost mut n: int = 0;
    proof {
        filter_empty(pred);
        assert(s.take(0) =~= Seq::<TombModel>::empty());
        assert(s =~= s.take(0).filter(pred) + s.skip(0));
    }
    while i < t.len()
        invariant
            pred == match expired_at {
                Some(now) => (|e: TombModel| elapsed(e.at, now) <= TERMINATED_STREAM_TTL),
                None => (|e: TombModel| !(e.generation == generation && e.id == id@)),
            },
            0 <= n <= s.len(),
            i == s.take(n).filter(pred).len(),
            tombs(t@) == s.take(n).filter(pred) + s.skip(n),
        decreases s.len() - n,
    {
        let ghost before = tombs(t@);
        proof {
            assert(before[i as int] == s[n]);
            filter_extends(s, n, pred);
        }
        let keep = match expired_at {
            Some(now) => time_since(t[i].at, now) <= TERMINATED_STREAM_TTL,
            None => !(t[i].generation == generation && same(t[i].id.as_str(), id)),
        };
        if keep {
            i = i + 1;
        } else {
            let _ = t.remove(i);
            assert(tombs(t@) =~= before.remove(i as int));
        }
        assert(tombs(t@) =~= s.take(n + 1).filter(pred) + s.skip(n + 1));
        proof {
            n = n + 1;
        }
    }
    proof {
        assert(s.take(n) =~= s);
        assert(tombs(t@) =~= s.filter(pred));
    }
}

impl State {
    /// Remembers that a stream was closed, so that data already on its way is
    /// absorbed.
    pub fn remember_terminated_stream(&mut self, generation: u64, id: &str, now: u64)
        ensures
            final(self)@ == (StateModel {
                terminated: remembered(old(self)@.terminated, generation, id@, now),
                ..old(self)@
            }),
    {
        drop_where(&mut self.terminated, Some(now), generation, id);
        let ghost r = tombs(self.terminated@);
        if self.terminated.len() >= TERMINATED_STREAM_LIMIT {
            let mut k: usize = 0;
            let count: usize = self.terminated.len();
            for i in 1..count
                invariant
                    r == tombs(self.terminated@),
                    count == self.terminated@.len(),
                    k < count,
                    k == oldest(r, i as nat),
            {
                if self.terminated[i].at < self.terminated[k].at {
                    k = i;
                }
            }
            let _ = self.terminated.remove(k);
            assert(tombs(self.terminated@) =~= r.remove(oldest(r, r.len())));
        }
        drop_where(&mut self.terminated, None, generation, id);
        let ghost before = tombs(self.terminated@);
        self.terminated.push(Tombstone { generation, id: id.to_owned(), at: now });
        assert(tombs(self.terminated@) =~= before.push(TombModel { generation, id: id@, at: now }));
    }

    /// Whether a stream was closed a moment ago.
    pub fn is_terminated_stream(&self, generation: u64, id: &str, now: u64) -> (r: bool)
        ensures
            r == is_closed(self@.terminated, generation, id@, now),
    {
        for i in 0..self.terminated.len()
            invariant
                forall|j: int|
                    0 <= j < i ==> !((#[trigger] self@.terminated[j]).generation == generation
                        && self@.terminated[j].id == id@ && elapsed(self@.terminated[j].at, now)
                        <= TERMINATED_STREAM_TTL),
        {
            assert(self@.terminated[i as int] == self.terminated@[i as int]@);
            if self.terminated[i].generation == generation && same(
                self.terminated[i].id.as_str(),
                id,
            ) && time_since(self.terminated[i].at, now) <= TERMINATED_STREAM_TTL {
                return true;
            }
        }
        false
    }
}

/// A closed stream is remembered for its whole time, and no more streams than
/// the limit are.
pub proof fn closed_streams_are_remembered(
    t: Seq<TombModel>,
    generation: u64,
    id: Seq<char>,
    now: u64,
    later: u64,
)
    requires
        t.len() <= TERMINATED_STREAM_LIMIT,
        now <= later <= now + TERMINATED_STREAM_TTL,
    ensures
        is_closed(remembered(t, generation, id, now), generation, id, later),
        remembered(t, generation, id, now).len() <= TERMINATED_STREAM_LIMIT,
{
    broadcast use vstd::seq_lib::group_filter_ensures;

    let r = recent(t, now);
    if r.len() >= TERMINATED_STREAM_LIMIT {
        oldest_bound(r, r.len());
    }
    let all = remembered(t, generation, id, now);
    assert(all[all.len() - 1] == (TombModel { generation, id, at: now }));
}

} // verus!
