//! What connecting, negotiating, reconnecting and disconnecting do to the
//! exchanges, channels and streams of the tunnel.
use super::config::{NegotiatedProtocol, TunnelConfig};
use super::credits::{CreditsModel, StreamCredits};
use super::frame::{Frame, FrameModel};
use super::registry::{
    filter_empty, filter_extends, others, picked, rebound, slot_models, without, Pick, PickModel,
    Registry, Slot, SlotModel,
};
use super::state::{
    acts, acts_empty, acts_push, elapsed, time_since, window_frame, Action, ActionModel, Answer,
    AnswerModel, CachedModel, ConnectionProtocol, ModeModel, ResponseSink, State, StateModel,
    GOING_AWAY,
};
use crate::text::{opt_copy, opt_equal, opt_same, opt_view, same, views, views_push};
use vstd::prelude::*;

verus! {

broadcast use {acts_push, acts_empty};

// ───────────────────────── model ─────────────────────────

/// A failure for each exchange.
pub open spec fn failures<M>(removed: Seq<SlotModel<M>>, message: Seq<char>) -> Seq<ActionModel> {
    Seq::new(
        removed.len(),
        |i: int|
            ActionModel::Answer { id: removed[i].id, answer: AnswerModel::Failed { message } },
    )
}

/// An error for each response body.
pub open spec fn body_errors<M>(removed: Seq<SlotModel<M>>, message: Seq<char>) -> Seq<
    ActionModel,
> {
    Seq::new(
        removed.len(),
        |i: int| ActionModel::BodyError { id: removed[i].id, message },
    )
}

/// A close for each WebSocket channel.
pub open spec fn channel_ends<M>(removed: Seq<SlotModel<M>>, message: Seq<char>) -> Seq<
    ActionModel,
> {
    Seq::new(
        removed.len(),
        |i: int|
            ActionModel::ChannelEnd {
                id: removed[i].id,
                frame: FrameModel::WsClose {
                    id: removed[i].id,
                    code: GOING_AWAY,
                    reason: message,
                },
            },
    )
}

/// Request bodies after their connection was lost: those that cannot resume
/// are gone, the others wait.
pub open spec fn credits_lost(s: Seq<SlotModel<CreditsModel>>, generation: u64) -> Seq<
    SlotModel<CreditsModel>,
> {
    let kept = others(s, picked(PickModel::BoundTo(generation)));
    Seq::new(
        kept.len(),
        |i: int|
            if kept[i].generation == Some(generation) {
                SlotModel { data: kept[i].data.disconnected(true), ..kept[i] }
            } else {
                kept[i]
            },
    )
}

/// Request bodies after their session was taken over.
pub open spec fn credits_rebound(
    s: Seq<SlotModel<CreditsModel>>,
    session: Seq<char>,
    generation: u64,
) -> Seq<SlotModel<CreditsModel>> {
    Seq::new(
        s.len(),
        |i: int|
            if s[i].session == Some(session) {
                SlotModel {
                    generation: Some(generation),
                    data: s[i].data.reconnected(),
                    ..s[i]
                }
            } else {
                s[i]
            },
    )
}

/// The window that a resumed response body has left, and what was received.
pub open spec fn resumed_windows(
    s: Seq<SlotModel<ResponseSink>>,
    session: Seq<char>,
) -> Seq<FrameModel> {
    let mine = s.filter(picked(PickModel::Session(session)));
    Seq::new(
        mine.len(),
        |i: int|
            window_frame(
                mine[i].id,
                room_left(mine[i].data),
                mine[i].data.received as u64,
                false,
            ),
    )
}

/// The frames that may still be queued for a response body.
pub open spec fn room_left(sink: ResponseSink) -> usize {
    if sink.window >= sink.queued {
        (sink.window - sink.queued) as usize
    } else {
        0
    }
}

/// Each frame as an action.
pub open spec fn sent(frames: Seq<FrameModel>) -> Seq<ActionModel> {
    Seq::new(frames.len(), |i: int| ActionModel::Send { frame: frames[i] })
}

/// The requests of a session, or of none.
pub open spec fn cached_for(session: Option<Seq<char>>) -> spec_fn(SlotModel<CachedModel>) -> bool {
    |e: SlotModel<CachedModel>| e.session == session
}

/// The requests that are too old to be sent again.
pub open spec fn expired(now: u64) -> spec_fn(SlotModel<CachedModel>) -> bool {
    |e: SlotModel<CachedModel>| elapsed(e.data.created_at, now) > e.data.ttl
}

/// The table without any of the named entries.
pub open spec fn without_all<M, N>(s: Seq<SlotModel<M>>, names: Seq<SlotModel<N>>) -> Seq<
    SlotModel<M>,
>
    decreases names.len(),
{
    if names.len() == 0 {
        s
    } else {
        without(without_all(s, names.drop_last()), names.last().id)
    }
}

/// The sessions of the entries that have one.
pub open spec fn sessions_of<M>(s: Seq<SlotModel<M>>) -> Seq<Seq<char>> {
    s.filter_map(|e: SlotModel<M>| e.session)
}

impl StateModel {
    /// After the streams of a connection lost it.
    pub open spec fn streams_lost(self, generation: u64) -> StateModel {
        let pick = PickModel::BoundTo(generation);
        StateModel {
            pending_http: others(self.pending_http, picked(pick)),
            response_streams: others(self.response_streams, picked(pick)),
            stream_credits: credits_lost(self.stream_credits, generation),
            ..self
        }
    }

    /// What those that cannot resume are told.
    pub open spec fn loss_notices(self, generation: u64, message: Seq<char>) -> Seq<ActionModel> {
        let pick = PickModel::BoundTo(generation);
        failures(self.pending_http.filter(picked(pick)), message) + body_errors(
            self.response_streams.filter(picked(pick)),
            message,
        )
    }

    /// After the WebSocket channels of a connection were closed.
    pub open spec fn channels_lost(self, generation: u64) -> StateModel {
        StateModel {
            pending_ws: others(self.pending_ws, picked(PickModel::Generation(generation))),
            ..self
        }
    }

    /// What those channels are told.
    pub open spec fn channel_notices(self, generation: u64, message: Seq<char>) -> Seq<
        ActionModel,
    > {
        channel_ends(self.pending_ws.filter(picked(PickModel::Generation(generation))), message)
    }

    /// After a connection was lost.
    pub open spec fn deactivated(self, generation: u64) -> StateModel {
        if self.active_client == Some(generation) {
            (StateModel { active_client: None, negotiated: None, ..self }).streams_lost(
                generation,
            ).channels_lost(generation)
        } else {
            self
        }
    }

    /// What is told of it.
    pub open spec fn deactivation_notices(self, generation: u64, message: Seq<char>) -> Seq<
        ActionModel,
    > {
        if self.active_client == Some(generation) {
            self.loss_notices(generation, message) + self.channel_notices(generation, message)
        } else {
            Seq::empty()
        }
    }

    /// After a new connection took over from any other.
    pub open spec fn installed(self) -> StateModel {
        let generation = (self.active_generation + 1) as u64;
        let next = StateModel {
            active_generation: generation,
            active_client: Some(generation),
            negotiated: None,
            legacy_generation: 0,
            ..self
        };
        match self.active_client {
            Some(previous) => next.streams_lost(previous).channels_lost(previous),
            None => next,
        }
    }

    /// What is told of the connection that was replaced.
    pub open spec fn replacement_notices(self) -> Seq<ActionModel> {
        match self.active_client {
            Some(previous) => self.loss_notices(previous, "tunnel client replaced"@)
                + self.channel_notices(previous, "tunnel client replaced"@),
            None => Seq::empty(),
        }
    }

    /// After a resumable session was given up.
    pub open spec fn session_failed(self, session: Seq<char>) -> StateModel {
        let pick = PickModel::Session(session);
        StateModel {
            pending_http: others(self.pending_http, picked(pick)),
            response_streams: others(self.response_streams, picked(pick)),
            stream_credits: others(self.stream_credits, picked(pick)),
            pending_requests: others(self.pending_requests, picked(pick)),
            ..self
        }
    }

    /// What is told of it.
    pub open spec fn session_notices(self, session: Seq<char>, message: Seq<char>) -> Seq<
        ActionModel,
    > {
        let pick = PickModel::Session(session);
        failures(self.pending_http.filter(picked(pick)), message) + body_errors(
            self.response_streams.filter(picked(pick)),
            message,
        )
    }

    /// After every session of a list but one was given up.
    pub open spec fn stale_failed(self, sessions: Seq<Seq<char>>, keep: Seq<char>) -> StateModel
        decreases sessions.len(),
    {
        if sessions.len() == 0 {
            self
        } else {
            let before = self.stale_failed(sessions.drop_last(), keep);
            if sessions.last() == keep {
                before
            } else {
                before.session_failed(sessions.last())
            }
        }
    }

    /// What is told of them.
    pub open spec fn stale_notices(
        self,
        sessions: Seq<Seq<char>>,
        keep: Seq<char>,
        message: Seq<char>,
    ) -> Seq<ActionModel>
        decreases sessions.len(),
    {
        if sessions.len() == 0 {
            Seq::empty()
        } else {
            let before = self.stale_failed(sessions.drop_last(), keep);
            let notices = self.stale_notices(sessions.drop_last(), keep, message);
            if sessions.last() == keep {
                notices
            } else {
                notices + before.session_notices(sessions.last(), message)
            }
        }
    }

    /// The sessions that exchanges and streams belong to, one for each.
    pub open spec fn session_ids(self) -> Seq<Seq<char>> {
        sessions_of(self.pending_http) + sessions_of(self.response_streams) + sessions_of(
            self.stream_credits,
        )
    }

    /// After a session was taken over by a connection.
    pub open spec fn session_rebound(self, session: Seq<char>, generation: u64) -> StateModel {
        StateModel {
            pending_http: rebound(self.pending_http, session, generation),
            response_streams: rebound(self.response_streams, session, generation),
            stream_credits: credits_rebound(self.stream_credits, session, generation),
            ..self
        }
    }

    /// After requests that are too old were given up.
    pub open spec fn cleaned(self, now: u64) -> StateModel {
        let old = self.pending_requests.filter(expired(now));
        StateModel {
            pending_requests: others(self.pending_requests, expired(now)),
            pending_http: without_all(self.pending_http, old),
            ..self
        }
    }

    /// What is done about them.
    pub open spec fn cleaning_notices(self, now: u64) -> Seq<ActionModel> {
        let old = self.pending_requests.filter(expired(now));
        Seq::new(old.len(), |i: int| ActionModel::Abandon { id: old[i].id })
    }

    /// The frames that are sent again.
    pub open spec fn resent(self, generation: u64, session: Option<Seq<char>>) -> Seq<
        ActionModel,
    > {
        let mine = self.pending_requests.filter(cached_for(session));
        if self.active_client == Some(generation) {
            Seq::new(mine.len(), |i: int| ActionModel::Send { frame: mine[i].data.frame })
        } else {
            Seq::empty()
        }
    }

    /// The mode of the active connection, where it is settled.
    pub open spec fn settled_mode(self) -> Option<ModeModel> {
        match self.active_client {
            None => Some(ModeModel::Disconnected),
            Some(generation) => match self.protocol() {
                Some((candidate, protocol)) => Some(
                    ModeModel::Streaming {
                        generation: candidate,
                        protocol,
                        session_id: self.session(),
                    },
                ),
                None => if self.legacy_generation == generation {
                    Some(ModeModel::Legacy { generation })
                } else {
                    None
                },
            },
        }
    }

    /// Whether a connection may fall back to single-frame exchanges.
    pub open spec fn may_fall_back(self, generation: u64) -> bool {
        self.active_client == Some(generation) && !(self.negotiated matches Some(n) && n.generation
            == generation)
    }

    /// After a connection fell back, where it may.
    pub open spec fn fallen_back(self, generation: u64) -> StateModel {
        if self.may_fall_back(generation) {
            StateModel { legacy_generation: generation, ..self }
        } else {
            self
        }
    }

    /// The mode after the time for negotiation has passed.
    pub open spec fn final_mode(self, generation: u64) -> ModeModel {
        if self.active_client != Some(generation) {
            ModeModel::Disconnected
        } else {
            match self.protocol() {
                Some((candidate, protocol)) => ModeModel::Streaming {
                    generation: candidate,
                    protocol,
                    session_id: self.session(),
                },
                None => if self.may_fall_back(generation) {
                    ModeModel::Legacy { generation }
                } else {
                    ModeModel::Disconnected
                },
            }
        }
    }
}

// ───────────────────────── helpers ─────────────────────────

fn push_failures<V: View>(removed: &Vec<Slot<V>>, message: &str, out: &mut Vec<Action>)
    ensures
        acts(final(out)@) == acts(old(out)@) + failures(slot_models(removed@), message@),
{
    let ghost start = acts(out@);
    let ghost all = failures(slot_models(removed@), message@);
    assert(start =~= start + all.take(0));
    for i in 0..removed.len()
        invariant
            all == failures(slot_models(removed@), message@),
            acts(out@) == start + all.take(i as int),
    {
        out.push(
            Action::Answer {
                id: removed[i].id.clone(),
                answer: Answer::Failed { message: message.to_owned() },
            },
        );
        assert(acts(out@) =~= start + all.take(i as int + 1));
    }
    assert(all.take(all.len() as int) =~= all);
}

fn push_body_errors<V: View>(removed: &Vec<Slot<V>>, message: &str, out: &mut Vec<Action>)
    ensures
        acts(final(out)@) == acts(old(out)@) + body_errors(slot_models(removed@), message@),
{
    let ghost start = acts(out@);
    let ghost all = body_errors(slot_models(removed@), message@);
    assert(start =~= start + all.take(0));
    for i in 0..removed.len()
        invariant
            all == body_errors(slot_models(removed@), message@),
            acts(out@) == start + all.take(i as int),
    {
        out.push(Action::BodyError { id: removed[i].id.clone(), message: message.to_owned() });
        assert(acts(out@) =~= start + all.take(i as int + 1));
    }
    assert(all.take(all.len() as int) =~= all);
}

fn push_channel_ends<V: View>(removed: &Vec<Slot<V>>, message: &str, out: &mut Vec<Action>)
    ensures
        acts(final(out)@) == acts(old(out)@) + channel_ends(slot_models(removed@), message@),
{
    let ghost start = acts(out@);
    let ghost all = channel_ends(slot_models(removed@), message@);
    assert(start =~= start + all.take(0));
    for i in 0..removed.len()
        invariant
            all == channel_ends(slot_models(removed@), message@),
            acts(out@) == start + all.take(i as int),
    {
        out.push(
            Action::ChannelEnd {
                id: removed[i].id.clone(),
                frame: Frame::WsClose {
                    id: removed[i].id.clone(),
                    code: GOING_AWAY,
                    reason: message.to_owned(),
                },
            },
        );
        assert(acts(out@) =~= start + all.take(i as int + 1));
    }
    assert(all.take(all.len() as int) =~= all);
}

fn push_sessions<V: View>(table: &Registry<V>, out: &mut Vec<String>)
    ensures
        views(final(out)@) == views(old(out)@) + sessions_of(table@),
{
    let ghost start = views(out@);
    let ghost f = |e: SlotModel<V::V>| e.session;
    let ghost s = table@;
    proof {
        reveal(Seq::filter_map);
        assert(s.take(0) =~= Seq::<SlotModel<V::V>>::empty());
        assert(start =~= start + s.take(0).filter_map(f));
    }
    for i in 0..table.slots.len()
        invariant
            s == table@,
            f == (|e: SlotModel<V::V>| e.session),
            views(out@) == start + s.take(i as int).filter_map(f),
    {
        proof {
            reveal(Seq::filter_map);
            assert(s.take(i as int + 1).drop_last() =~= s.take(i as int));
            assert(s.take(i as int + 1).last() == s[i as int]);
        }
        match &table.slots[i].session {
            Some(name) => {
                let copy = name.clone();
                proof {
                    views_push(out@, copy);
                    assert(s[i as int].session == Some(copy@));
                }
                out.push(copy);
                assert(views(out@) =~= start + s.take(i as int + 1).filter_map(f));
            },
            None => {
                assert(s[i as int].session is None);
                assert(s.take(i as int + 1).filter_map(f) =~= s.take(i as int).filter_map(f));
            },
        }
    }
    assert(s.take(s.len() as int) =~= s);
}

fn disconnect_credits(table: &mut Registry<StreamCredits>, generation: u64)
    ensures
        final(table)@ == credits_lost(old(table)@, generation),
{
    let ghost before = table@;
    let _ = table.take(&Pick::BoundTo(generation));
    let ghost kept = table@;
    let ghost target = credits_lost(before, generation);
    assert(kept == others(before, picked(PickModel::BoundTo(generation))));
    let count: usize = table.slots.len();
    for i in 0..count
        invariant
            count == kept.len(),
            kept == others(before, picked(PickModel::BoundTo(generation))),
            target == credits_lost(before, generation),
            table.slots@.len() == kept.len(),
            forall|j: int| 0 <= j < i ==> table@[j] == target[j],
            forall|j: int| i <= j < kept.len() ==> table@[j] == kept[j],
    {
        let ghost was = table@;
        if table.slots[i].generation == Some(generation) {
            table.slots[i].data.disconnect(true);
        }
        proof {
            assert(was[i as int] == kept[i as int]);
            assert(table@ =~= was.update(i as int, target[i as int]));
            assert forall|j: int| 0 <= j < i + 1 implies table@[j] == target[j] by {}
        }
    }
    assert(table@ =~= target);
}

fn rebind_credits(table: &mut Registry<StreamCredits>, session: &str, generation: u64)
    ensures
        final(table)@ == credits_rebound(old(table)@, session@, generation),
{
    let ghost before = table@;
    let ghost target = credits_rebound(before, session@, generation);
    let count: usize = table.slots.len();
    for i in 0..count
        invariant
            count == before.len(),
            target == credits_rebound(before, session@, generation),
            table.slots@.len() == before.len(),
            forall|j: int| 0 <= j < i ==> table@[j] == target[j],
            forall|j: int| i <= j < before.len() ==> table@[j] == before[j],
    {
        let ghost was = table@;
        if opt_same(&table.slots[i].session, session) {
            table.slots[i].generation = Some(generation);
            table.slots[i].data.rebind();
        }
        proof {
            assert(was[i as int] == before[i as int]);
            assert(table@ =~= was.update(i as int, target[i as int]));
            assert forall|j: int| 0 <= j < i + 1 implies table@[j] == target[j] by {}
        }
    }
    assert(table@ =~= target);
}

// ───────────────────────── operations ─────────────────────────

impl State {
    /// A tunnel that no client has connected to.
    pub fn new(config: TunnelConfig) -> (r: State)
        ensures
            r@ == (StateModel {
                config,
                active_client: None,
                pending_http: Seq::empty(),
                pending_ws: Seq::empty(),
                pending_requests: Seq::empty(),
                response_streams: Seq::empty(),
                stream_credits: Seq::empty(),
                terminated: Seq::empty(),
                active_generation: 0,
                legacy_generation: 0,
                negotiated: None,
                http_permits: config.max_inflight,
                ws_permits: config.max_inflight,
            }),
    {
        let r = State {
            config,
            active_client: None,
            pending_http: Registry::new(),
            pending_ws: Registry::new(),
            pending_requests: Registry::new(),
            response_streams: Registry::new(),
            stream_credits: Registry::new(),
            terminated: Vec::new(),
            active_generation: 0,
            legacy_generation: 0,
            negotiated: None,
            http_permits: config.max_inflight,
            ws_permits: config.max_inflight,
        };
        assert(r@.terminated =~= Seq::empty());
        r
    }

    /// Queues a control frame where the connection is the active one.
    pub fn send_to_generation(&self, generation: u64, frame: Frame, out: &mut Vec<Action>)
        ensures
            acts(final(out)@) == acts(old(out)@) + self@.sends(generation, frame@),
    {
        let ghost start = acts(out@);
        if self.active_client == Some(generation) {
            out.push(Action::Send { frame });
            assert(acts(out@) =~= start + self@.sends(generation, frame@));
        } else {
            assert(acts(out@) =~= start + self@.sends(generation, frame@));
        }
    }

    /// The generation of the active connection.
    pub fn active_client_generation(&self) -> (r: Option<u64>)
        ensures
            r == self@.active_client,
    {
        self.active_client
    }

    /// The limits of the active connection, once negotiated.
    pub fn active_protocol(&self) -> (r: Option<(u64, NegotiatedProtocol)>)
        ensures
            r == self@.protocol(),
    {
        match &self.negotiated {
            Some(n) => {
                if n.generation == self.active_generation {
                    Some((n.generation, n.protocol))
                } else {
                    None
                }
            },
            None => None,
        }
    }

    /// The session of the active connection.
    pub fn active_session_id(&self) -> (r: Option<String>)
        ensures
            opt_view(r) == self@.session(),
    {
        match &self.negotiated {
            Some(n) => {
                if n.generation == self.active_generation {
                    opt_copy(&n.session_id)
                } else {
                    None
                }
            },
            None => None,
        }
    }

    /// Falls back to single-frame exchanges where nothing was negotiated.
    pub fn select_legacy_if_unnegotiated(&mut self, generation: u64) -> (r: bool)
        ensures
            r == old(self)@.may_fall_back(generation),
            final(self)@ == old(self)@.fallen_back(generation),
    {
        if self.active_client != Some(generation) {
            return false;
        }
        if let Some(n) = &self.negotiated {
            if n.generation == generation {
                return false;
            }
        }
        self.legacy_generation = generation;
        true
    }

    /// The mode of the active connection, or its generation where the mode is
    /// still open.
    pub fn settled_protocol(&self) -> (r: Result<ConnectionProtocol, u64>)
        ensures
            match r {
                Ok(mode) => self@.settled_mode() == Some(mode@),
                Err(generation) => self@.settled_mode() is None && self@.active_client == Some(
                    generation,
                ),
            },
    {
        match self.active_client {
            None => Ok(ConnectionProtocol::Disconnected),
            Some(generation) => match self.active_protocol() {
                Some((candidate, protocol)) => Ok(
                    ConnectionProtocol::Streaming {
                        generation: candidate,
                        protocol,
                        session_id: self.active_session_id(),
                    },
                ),
                None => {
                    if self.legacy_generation == generation {
                        Ok(ConnectionProtocol::Legacy { generation })
                    } else {
                        Err(generation)
                    }
                },
            },
        }
    }

    /// The mode once the time for negotiation has passed.
    pub fn protocol_after_wait(&mut self, generation: u64) -> (r: ConnectionProtocol)
        ensures
            r@ == old(self)@.final_mode(generation),
            final(self)@ == (if old(self)@.protocol() is None {
                old(self)@.fallen_back(generation)
            } else {
                old(self)@
            }),
    {
        if self.active_client != Some(generation) {
            return ConnectionProtocol::Disconnected;
        }
        if let Some((candidate, protocol)) = self.active_protocol() {
            return ConnectionProtocol::Streaming {
                generation: candidate,
                protocol,
                session_id: self.active_session_id(),
            };
        }
        if self.select_legacy_if_unnegotiated(generation) {
            ConnectionProtocol::Legacy { generation }
        } else {
            ConnectionProtocol::Disconnected
        }
    }

    /// Fails what a lost connection carried and cannot resume.
    pub fn disconnect_streams_for_generation(
        &mut self,
        generation: u64,
        message: &str,
        out: &mut Vec<Action>,
    )
        ensures
            final(self)@ == old(self)@.streams_lost(generation),
            acts(final(out)@) == acts(old(out)@) + old(self)@.loss_notices(generation, message@),
    {
        let ghost start = acts(out@);
        let waiters = self.pending_http.take(&Pick::BoundTo(generation));
        push_failures(&waiters, message, out);
        let bodies = self.response_streams.take(&Pick::BoundTo(generation));
        push_body_errors(&bodies, message, out);
        assert(acts(out@) =~= start + old(self)@.loss_notices(generation, message@));
        disconnect_credits(&mut self.stream_credits, generation);
    }

    /// Closes the WebSocket channels of a lost connection.
    pub fn close_ws_for_generation(
        &mut self,
        generation: u64,
        message: &str,
        out: &mut Vec<Action>,
    )
        ensures
            final(self)@ == old(self)@.channels_lost(generation),
            acts(final(out)@) == acts(old(out)@) + old(self)@.channel_notices(generation, message@),
    {
        let channels = self.pending_ws.take(&Pick::Generation(generation));
        push_channel_ends(&channels, message, out);
    }

    /// Ends a connection, where it is the active one.
    pub fn deactivate_generation(&mut self, generation: u64, message: &str) -> (r: Vec<Action>)
        ensures
            final(self)@ == old(self)@.deactivated(generation),
            acts(r@) == old(self)@.deactivation_notices(generation, message@),
    {
        let mut out: Vec<Action> = Vec::new();
        if self.active_client != Some(generation) {
            return out;
        }
        self.active_client = None;
        self.negotiated = None;
        self.disconnect_streams_for_generation(generation, message, &mut out);
        self.close_ws_for_generation(generation, message, &mut out);
        assert(acts(out@) =~= old(self)@.deactivation_notices(generation, message@));
        out
    }

    /// Installs a new connection, and says its generation. Streams of the
    /// connection that it replaces fail at once where they cannot resume.
    pub fn install_client(&mut self) -> (r: (u64, Vec<Action>))
        requires
            old(self)@.active_generation < u64::MAX,
        ensures
            final(self)@ == old(self)@.installed(),
            r.0 == old(self)@.active_generation + 1,
            acts(r.1@) == old(self)@.replacement_notices(),
    {
        let mut out: Vec<Action> = Vec::new();
        let generation: u64 = self.active_generation + 1;
        let replaced = self.active_client;
        self.active_generation = generation;
        self.active_client = Some(generation);
        self.negotiated = None;
        self.legacy_generation = 0;
        if let Some(previous) = replaced {
            self.disconnect_streams_for_generation(previous, "tunnel client replaced", &mut out);
            self.close_ws_for_generation(previous, "tunnel client replaced", &mut out);
        }
        assert(acts(out@) =~= old(self)@.replacement_notices());
        (generation, out)
    }

    /// Gives up a resumable session.
    pub fn fail_resumable_session(&mut self, session: &str, message: &str, out: &mut Vec<Action>)
        ensures
            final(self)@ == old(self)@.session_failed(session@),
            acts(final(out)@) == acts(old(out)@) + old(self)@.session_notices(session@, message@),
    {
        let ghost start = acts(out@);
        let waiters = self.pending_http.take(&Pick::Session(session));
        push_failures(&waiters, message, out);
        let bodies = self.response_streams.take(&Pick::Session(session));
        push_body_errors(&bodies, message, out);
        assert(acts(out@) =~= start + old(self)@.session_notices(session@, message@));
        let _ = self.stream_credits.take(&Pick::Session(session));
        let _ = self.pending_requests.take(&Pick::Session(session));
    }

    /// The sessions that exchanges and streams belong to, one for each.
    pub fn resumable_session_ids(&self) -> (r: Vec<String>)
        ensures
            views(r@) == self@.session_ids(),
    {
        let mut out: Vec<String> = Vec::new();
        assert(views(out@) =~= Seq::empty());
        push_sessions(&self.pending_http, &mut out);
        push_sessions(&self.response_streams, &mut out);
        push_sessions(&self.stream_credits, &mut out);
        assert(views(out@) =~= self@.session_ids());
        out
    }

    /// Gives up every session but one.
    pub fn fail_stale_sessions(&mut self, keep: &str, message: &str, out: &mut Vec<Action>)
        ensures
            final(self)@ == old(self)@.stale_failed(old(self)@.session_ids(), keep@),
            acts(final(out)@) == acts(old(out)@) + old(self)@.stale_notices(
                old(self)@.session_ids(),
                keep@,
                message@,
            ),
    {
        let names = self.resumable_session_ids();
        let ghost all = old(self)@.session_ids();
        let ghost start = acts(out@);
        assert(all.take(0) =~= Seq::<Seq<char>>::empty());
        assert(start =~= start + Seq::<ActionModel>::empty());
        for i in 0..names.len()
            invariant
                all == views(names@),
                self@ == old(self)@.stale_failed(all.take(i as int), keep@),
                acts(out@) == start + old(self)@.stale_notices(all.take(i as int), keep@, message@),
        {
            let ghost so_far = acts(out@);
            proof {
                assert(all.take(i as int + 1).drop_last() =~= all.take(i as int));
                assert(all.take(i as int + 1).last() == names@[i as int]@);
            }
            if !same(names[i].as_str(), keep) {
                self.fail_resumable_session(names[i].as_str(), message, out);
                assert(acts(out@) =~= start + old(self)@.stale_notices(
                    all.take(i as int + 1),
                    keep@,
                    message@,
                ));
            }
        }
        assert(all.take(all.len() as int) =~= all);
    }

    /// Moves a session to a connection. Returns the frame that tells the peer,
    /// for each response body, what was received and what may follow.
    pub fn rebind_resumable_session(&mut self, session: &str, generation: u64) -> (r: Vec<Frame>)
        ensures
            final(self)@ == old(self)@.session_rebound(session@, generation),
            Seq::new(r@.len(), |i: int| r@[i]@) == resumed_windows(
                old(self)@.response_streams,
                session@,
            ),
    {
        let ghost s = self@.response_streams;
        let ghost pred = picked::<ResponseSink>(PickModel::Session(session@));
        let mut windows: Vec<Frame> = Vec::new();
        let pick = Pick::Session(session);
        proof {
            filter_empty(pred);
            assert(s.take(0) =~= Seq::<SlotModel<ResponseSink>>::empty());
        }
        for i in 0..self.response_streams.slots.len()
            invariant
                s == self.response_streams@,
                *self == *old(self),
                pick@ == PickModel::Session(session@),
                pred == picked::<ResponseSink>(PickModel::Session(session@)),
                windows@.len() == s.take(i as int).filter(pred).len(),
                forall|j: int|
                    0 <= j < windows@.len() ==> (#[trigger] windows@[j])@ == window_frame(
                        s.take(i as int).filter(pred)[j].id,
                        room_left(s.take(i as int).filter(pred)[j].data),
                        s.take(i as int).filter(pred)[j].data.received as u64,
                        false,
                    ),
        {
            proof {
                filter_extends(s, i as int, pred);
            }
            if self.response_streams.is_picked(i, &pick) {
                let sink = &self.response_streams.slots[i].data;
                let credits: usize = if sink.window >= sink.queued {
                    sink.window - sink.queued
                } else {
                    0
                };
                windows.push(
                    Frame::Window {
                        id: self.response_streams.slots[i].id.clone(),
                        credits,
                        ack_offset: Some(sink.received as u64),
                        complete: false,
                    },
                );
            }
        }
        proof {
            assert(s.take(s.len() as int) =~= s);
            assert(Seq::new(windows@.len(), |i: int| windows@[i]@) =~= resumed_windows(
                s,
                session@,
            ));
        }
        self.pending_http.rebind(session, generation);
        self.response_streams.rebind(session, generation);
        rebind_credits(&mut self.stream_credits, session, generation);
        windows
    }

    /// Gives up requests that are too old to be sent again.
    pub fn cleanup_expired_requests(&mut self, now: u64, out: &mut Vec<Action>)
        ensures
            final(self)@ == old(self)@.cleaned(now),
            acts(final(out)@) == acts(old(out)@) + old(self)@.cleaning_notices(now),
    {
        let ghost s = self@.pending_requests;
        let ghost old_http = self@.pending_http;
        let ghost pred = expired(now);
        let ghost rest = |e: SlotModel<CachedModel>| !pred(e);
        let ghost start = acts(out@);
        let mut i: usize = 0;
        let ghost mut n: int = 0;
        proof {
            filter_empty(pred);
            filter_empty(rest);
            assert(s.take(0) =~= Seq::<SlotModel<CachedModel>>::empty());
            assert(self@.pending_requests =~= s.take(0).filter(rest) + s.skip(0));
            assert(start =~= start + Seq::<ActionModel>::empty());
            assert(Seq::new(0, |i: int| ActionModel::Abandon { id: s[i].id }) =~= Seq::<
                ActionModel,
            >::empty());
        }
        while i < self.pending_requests.slots.len()
            invariant
                pred == expired(now),
                rest == (|e: SlotModel<CachedModel>| !pred(e)),
                0 <= n <= s.len(),
                i == s.take(n).filter(rest).len(),
                self@ == (StateModel {
                    pending_requests: s.take(n).filter(rest) + s.skip(n),
                    pending_http: without_all(old_http, s.take(n).filter(pred)),
                    ..old(self)@
                }),
                acts(out@) == start + Seq::new(
                    s.take(n).filter(pred).len(),
                    |i: int| ActionModel::Abandon { id: s.take(n).filter(pred)[i].id },
                ),
            decreases s.len() - n,
        {
            let ghost so_far = acts(out@);
            proof {
                assert(self.pending_requests@[i as int] == s[n]);
                filter_extends(s, n, pred);
                filter_extends(s, n, rest);
            }
            let old_enough = time_since(self.pending_requests.slots[i].data.created_at, now)
                > self.pending_requests.slots[i].data.ttl;
            if old_enough {
                let ghost before = self.pending_requests@;
                let slot = self.pending_requests.slots.remove(i);
                let _ = self.pending_http.remove(slot.id.as_str());
                proof {
                    let f = s.take(n).filter(pred);
                    assert(self.pending_requests@ =~= before.remove(i as int));
                    assert(self.pending_requests@ =~= s.take(n + 1).filter(rest) + s.skip(n + 1));
                    assert(f.push(s[n]).drop_last() =~= f);
                }
                out.push(Action::Abandon { id: slot.id });
                assert(acts(out@) =~= start + Seq::new(
                    s.take(n + 1).filter(pred).len(),
                    |i: int| ActionModel::Abandon { id: s.take(n + 1).filter(pred)[i].id },
                ));
            } else {
                i = i + 1;
                assert(self.pending_requests@ =~= s.take(n + 1).filter(rest) + s.skip(n + 1));
                assert(acts(out@) =~= start + Seq::new(
                    s.take(n + 1).filter(pred).len(),
                    |i: int| ActionModel::Abandon { id: s.take(n + 1).filter(pred)[i].id },
                ));
            }
            proof {
                n = n + 1;
            }
        }
        proof {
            assert(self.pending_requests@.len() == self.pending_requests.slots@.len());
            assert(n == s.len());
            assert(s.take(n) =~= s);
            assert(self@.pending_requests =~= s.filter(rest));
            assert(acts(out@) =~= start + old(self)@.cleaning_notices(now));
        }
    }

    /// Sends again the requests of a session (or of none) that still wait.
    pub fn resend_pending_requests(
        &mut self,
        generation: u64,
        session: &Option<String>,
        now: u64,
        out: &mut Vec<Action>,
    )
        ensures
            final(self)@ == old(self)@.cleaned(now),
            acts(final(out)@) == acts(old(out)@) + old(self)@.cleaning_notices(now)
                + old(self)@.cleaned(now).resent(generation, opt_view(*session)),
    {
        self.cleanup_expired_requests(now, out);
        let ghost state = self@;
        let ghost start = acts(out@);
        let ghost s = self@.pending_requests;
        let ghost pred = cached_for(opt_view(*session));
        if self.active_client != Some(generation) {
            assert(start =~= start + state.resent(generation, opt_view(*session)));
            return;
        }
        proof {
            filter_empty(pred);
            assert(s.take(0) =~= Seq::<SlotModel<CachedModel>>::empty());
            assert(start =~= start + Seq::<ActionModel>::empty());
            assert(Seq::new(0, |i: int| ActionModel::Send { frame: s[i].data.frame }) =~= Seq::<
                ActionModel,
            >::empty());
        }
        for i in 0..self.pending_requests.slots.len()
            invariant
                self@ == state,
                s == self.pending_requests@,
                pred == cached_for(opt_view(*session)),
                acts(out@) == start + Seq::new(
                    s.take(i as int).filter(pred).len(),
                    |j: int| ActionModel::Send { frame: s.take(i as int).filter(pred)[j].data.frame },
                ),
        {
            proof {
                filter_extends(s, i as int, pred);
            }
            if opt_equal(&self.pending_requests.slots[i].session, session) {
                let frame = self.pending_requests.slots[i].data.frame.duplicate();
                out.push(Action::Send { frame });
            }
            assert(acts(out@) =~= start + Seq::new(
                s.take(i as int + 1).filter(pred).len(),
                |j: int| ActionModel::Send { frame: s.take(i as int + 1).filter(pred)[j].data.frame },
            ));
        }
        proof {
            assert(s.take(s.len() as int) =~= s);
            assert(acts(out@) =~= start + state.resent(generation, opt_view(*session)));
        }
    }
}

} // verus!
