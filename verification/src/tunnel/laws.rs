//! What holds of the tunnel in every state, and across operations.
use super::config::{acceptable, agreed_within_both, requested_session, TunnelConfig};
use super::connection::{credits_lost, credits_rebound, without_all};
use super::credits::{credit, Credit, CreditsModel};
use super::dispatch::Step;
use super::envelope::{decoded, BinaryKind, EnvelopeModel};
use super::exchange::mode_generation;
use super::frame::FrameModel;
use super::registry::{
    entry, others, picked, place, place_bound, rebound, with, without, PickModel, SlotModel,
};
use super::state::{
    closed_streams_are_remembered, remembered, window_frame, ActionModel, CachedModel, ModeModel,
    ResponseSink, StateModel, TombModel, Waiter, TERMINATED_STREAM_LIMIT, TERMINATED_STREAM_TTL,
};
use super::upload::{chunks, grown, UploadEventModel, UploadModel, UploadStage};
use vstd::prelude::*;

verus! {

// ───────────────────────── invariant ─────────────────────────

/// No body exceeds its limit or what was announced.
pub open spec fn sink_ok(s: ResponseSink) -> bool {
    s.received <= s.max_body_size && (s.expected is Some ==> s.received <= s.expected->0)
}

/// No two entries share a name, and `ok` holds of the data of each.
pub open spec fn table_ok<M>(s: Seq<SlotModel<M>>, ok: spec_fn(M) -> bool) -> bool {
    &&& forall|i: int| 0 <= i < s.len() ==> ok((#[trigger] s[i]).data)
    &&& forall|i: int, j: int| 0 <= i < j < s.len() ==> s[i].id != s[j].id
}

/// Anything.
pub open spec fn any<M>() -> spec_fn(M) -> bool {
    |m: M| true
}

/// Sinks that are in order.
pub open spec fn sinks() -> spec_fn(ResponseSink) -> bool {
    |s: ResponseSink| sink_ok(s)
}

/// The credit of a stream never exceeds its window.
pub open spec fn windows() -> spec_fn(CreditsModel) -> bool {
    |c: CreditsModel| c.available <= c.window
}

impl StateModel {
    /// What holds in every state of the tunnel.
    pub open spec fn inv(self) -> bool {
        &&& self.config.wf()
        &&& self.negotiated matches Some(n) ==> n.protocol.within(self.config)
        &&& table_ok(self.pending_http, any())
        &&& table_ok(self.pending_ws, any())
        &&& table_ok(self.pending_requests, any())
        &&& table_ok(self.response_streams, sinks())
        &&& table_ok(self.stream_credits, windows())
        &&& self.terminated.len() <= TERMINATED_STREAM_LIMIT
    }
}

proof fn filter_ok<M>(s: Seq<SlotModel<M>>, pred: spec_fn(SlotModel<M>) -> bool, ok: spec_fn(M) -> bool)
    requires
        table_ok(s, ok),
    ensures
        table_ok(s.filter(pred), ok),
        forall|i: int|
            0 <= i < s.filter(pred).len() ==> exists|j: int|
                0 <= j < s.len() && s[j] == #[trigger] s.filter(pred)[i],
    decreases s.len(),
{
    reveal(Seq::filter);
    if s.len() > 0 {
        let t = s.drop_last();
        assert(table_ok(t, ok)) by {
            assert forall|i: int| 0 <= i < t.len() implies ok((#[trigger] t[i]).data) by {
                assert(t[i] == s[i]);
            }
        }
        filter_ok(t, pred, ok);
        let f = t.filter(pred);
        let g = s.filter(pred);
        assert forall|i: int| 0 <= i < g.len() implies exists|j: int|
            0 <= j < s.len() && s[j] == #[trigger] g[i] by {
            if i < f.len() {
                let j = choose|j: int| 0 <= j < t.len() && t[j] == f[i];
                assert(s[j] == g[i]);
            } else {
                assert(s[s.len() - 1] == g[i]);
            }
        }
        assert forall|i: int| 0 <= i < g.len() implies ok((#[trigger] g[i]).data) by {
            let j = choose|j: int| 0 <= j < s.len() && s[j] == g[i];
            assert(ok(s[j].data));
        }
        assert forall|i: int, j: int| 0 <= i < j < g.len() implies g[i].id != g[j].id by {
            if j == f.len() {
                let k = choose|k: int| 0 <= k < t.len() && t[k] == f[i];
                assert(s[k] == f[i]);
            }
        }
    }
}

proof fn without_ok<M>(s: Seq<SlotModel<M>>, id: Seq<char>, ok: spec_fn(M) -> bool)
    requires
        table_ok(s, ok),
    ensures
        table_ok(without(s, id), ok),
{
    filter_ok(s, |e: SlotModel<M>| e.id != id, ok);
}

proof fn others_ok<M>(s: Seq<SlotModel<M>>, pred: spec_fn(SlotModel<M>) -> bool, ok: spec_fn(M) -> bool)
    requires
        table_ok(s, ok),
    ensures
        table_ok(others(s, pred), ok),
{
    filter_ok(s, |e: SlotModel<M>| !pred(e), ok);
}

proof fn with_ok<M>(s: Seq<SlotModel<M>>, e: SlotModel<M>, ok: spec_fn(M) -> bool)
    requires
        table_ok(s, ok),
        ok(e.data),
    ensures
        table_ok(with(s, e), ok),
{
    broadcast use vstd::seq_lib::group_filter_ensures;

    let pred = |x: SlotModel<M>| x.id != e.id;
    filter_ok(s, pred, ok);
    let t = without(s, e.id);
    assert forall|i: int| 0 <= i < t.len() implies t[i].id != e.id by {
        assert(pred(t[i]));
    }
    let w = with(s, e);
    assert forall|i: int| 0 <= i < w.len() implies ok((#[trigger] w[i]).data) by {
        if i < t.len() {
            assert(w[i] == t[i]);
        }
    }
}

proof fn update_ok<M>(s: Seq<SlotModel<M>>, i: int, e: SlotModel<M>, ok: spec_fn(M) -> bool)
    requires
        table_ok(s, ok),
        0 <= i < s.len(),
        e.id == s[i].id,
        ok(e.data),
    ensures
        table_ok(s.update(i, e), ok),
{
    let t = s.update(i, e);
    assert forall|j: int| 0 <= j < t.len() implies ok((#[trigger] t[j]).data) by {
        if j != i {
            assert(t[j] == s[j]);
        }
    }
}

proof fn without_all_ok<M, N>(s: Seq<SlotModel<M>>, names: Seq<SlotModel<N>>, ok: spec_fn(M) -> bool)
    requires
        table_ok(s, ok),
    ensures
        table_ok(without_all(s, names), ok),
    decreases names.len(),
{
    if names.len() > 0 {
        without_all_ok(s, names.drop_last(), ok);
        without_ok(without_all(s, names.drop_last()), names.last().id, ok);
    }
}

proof fn rebound_ok<M>(s: Seq<SlotModel<M>>, session: Seq<char>, g: u64, ok: spec_fn(M) -> bool)
    requires
        table_ok(s, ok),
    ensures
        table_ok(rebound(s, session, g), ok),
{
    let t = rebound(s, session, g);
    assert forall|i: int| 0 <= i < t.len() implies ok((#[trigger] t[i]).data) by {
        assert(ok(s[i].data));
    }
}

proof fn remembered_ok(t: Seq<TombModel>, generation: u64, id: Seq<char>, now: u64)
    requires
        t.len() <= TERMINATED_STREAM_LIMIT,
    ensures
        remembered(t, generation, id, now).len() <= TERMINATED_STREAM_LIMIT,
{
    closed_streams_are_remembered(t, generation, id, now, now);
}

// ───────────────────────── every operation keeps it ─────────────────────────

proof fn credits_ok(s: Seq<SlotModel<CreditsModel>>, session: Seq<char>, g: u64)
    requires
        table_ok(s, windows()),
    ensures
        table_ok(credits_lost(s, g), windows()),
        table_ok(credits_rebound(s, session, g), windows()),
{
    let kept = others(s, picked(PickModel::BoundTo(g)));
    others_ok(s, picked(PickModel::BoundTo(g)), windows());
    let a = credits_lost(s, g);
    assert forall|i: int| 0 <= i < a.len() implies windows()((#[trigger] a[i]).data) by {
        assert(windows()(kept[i].data));
    }
    let b = credits_rebound(s, session, g);
    assert forall|i: int| 0 <= i < b.len() implies windows()((#[trigger] b[i]).data) by {
        assert(windows()(s[i].data));
    }
}

/// Connecting, disconnecting, and falling back keep the invariant.
pub proof fn connections_keep_invariant(s: StateModel, generation: u64)
    requires
        s.inv(),
        s.active_generation < u64::MAX,
    ensures
        s.installed().inv(),
        s.deactivated(generation).inv(),
        s.fallen_back(generation).inv(),
{
    lost_ok(s, generation);
    match s.active_client {
        Some(previous) => lost_ok(s, previous),
        None => {},
    }
}

proof fn lost_ok(s: StateModel, g: u64)
    requires
        s.inv(),
    ensures
        table_ok(s.streams_lost(g).pending_http, any()),
        table_ok(s.streams_lost(g).response_streams, sinks()),
        table_ok(s.streams_lost(g).stream_credits, windows()),
        table_ok(s.channels_lost(g).pending_ws, any()),
{
    others_ok(s.pending_http, picked(PickModel::BoundTo(g)), any());
    others_ok(s.response_streams, picked(PickModel::BoundTo(g)), sinks());
    credits_ok(s.stream_credits, Seq::empty(), g);
    others_ok(s.pending_ws, picked(PickModel::Generation(g)), any());
}

proof fn cleaned_ok(s: StateModel, now: u64)
    requires
        s.inv(),
    ensures
        s.cleaned(now).inv(),
{
    let pred = super::connection::expired(now);
    others_ok(s.pending_requests, pred, any());
    without_all_ok(s.pending_http, s.pending_requests.filter(pred), any());
}

proof fn session_failed_ok(s: StateModel, session: Seq<char>)
    requires
        s.inv(),
    ensures
        s.session_failed(session).inv(),
        s.session_failed(session).config == s.config,
{
    others_ok(s.pending_http, picked(PickModel::Session(session)), any());
    others_ok(s.response_streams, picked(PickModel::Session(session)), sinks());
    others_ok(s.stream_credits, picked(PickModel::Session(session)), windows());
    others_ok(s.pending_requests, picked(PickModel::Session(session)), any());
}

proof fn stale_failed_ok(s: StateModel, names: Seq<Seq<char>>, keep: Seq<char>)
    requires
        s.inv(),
    ensures
        s.stale_failed(names, keep).inv(),
    decreases names.len(),
{
    if names.len() > 0 {
        stale_failed_ok(s, names.drop_last(), keep);
        session_failed_ok(s.stale_failed(names.drop_last(), keep), names.last());
    }
}

proof fn rebound_state_ok(s: StateModel, session: Seq<char>, g: u64)
    requires
        s.inv(),
    ensures
        s.session_rebound(session, g).inv(),
{
    rebound_ok(s.pending_http, session, g, any());
    rebound_ok(s.response_streams, session, g, sinks());
    credits_ok(s.stream_credits, session, g);
}

proof fn hello_ok(s: StateModel, hello: FrameModel, generation: u64, now: u64)
    requires
        s.inv(),
    ensures
        s.on_hello(hello, generation, now).0.inv(),
{
    if acceptable(hello, s.config) {
        agreed_within_both(hello, s.config);
        let fixed = s.negotiating(hello, generation);
        assert(fixed.inv());
        match requested_session(hello) {
            Some(session) => {
                let names = fixed.session_ids();
                stale_failed_ok(fixed, names, session);
                let alone = fixed.stale_failed(names, session);
                rebound_state_ok(alone, session, generation);
                cleaned_ok(alone.session_rebound(session, generation), now);
            },
            None => {
                cleaned_ok(fixed, now);
            },
        }
    }
}

/// A frame of the peer keeps the invariant.
pub proof fn frames_keep_invariant(s: StateModel, frame: FrameModel, generation: u64, now: u64)
    requires
        s.inv(),
    ensures
        s.on_frame(frame, generation, now).0.inv(),
{
    match frame {
        FrameModel::Hello { .. } => {
            hello_ok(s, frame, generation, now);
        },
        FrameModel::HttpResp { id, .. } => {
            without_ok(s.pending_http, id, any());
        },
        FrameModel::HttpRespBegin { id, content_length, .. } => {
            without_ok(s.pending_http, id, any());
            without_ok(s.pending_requests, id, any());
            without_ok(s.stream_credits, id, windows());
            remembered_ok(s.terminated, generation, id, now);
            if let Some((_, limits)) = s.protocol() {
                let sink = ResponseSink {
                    received: 0,
                    expected: match content_length {
                        Some(n) => Some(n as usize),
                        None => None,
                    },
                    max_body_size: limits.max_body_size,
                    queued: 0,
                    window: limits.stream_window_frames,
                };
                if let Some(waiter) = entry(s.pending_http, id) {
                    with_ok(
                        s.response_streams,
                        SlotModel {
                            id,
                            generation: Some(generation),
                            session: waiter.session,
                            data: sink,
                        },
                        sinks(),
                    );
                }
            }
        },
        FrameModel::HttpRespEnd { id } => {
            without_ok(s.response_streams, id, sinks());
            remembered_ok(s.terminated, generation, id, now);
        },
        FrameModel::Window { id, credits, ack_offset, .. } => {
            place_bound(s.stream_credits, id);
            if let Some(slot) = entry(s.stream_credits, id) {
                let i = place(s.stream_credits, id) as int;
                assert(windows()(s.stream_credits[i].data));
                update_ok(
                    s.stream_credits,
                    i,
                    SlotModel { data: slot.data.granted(credits, ack_offset), ..slot },
                    windows(),
                );
            }
        },
        FrameModel::Error { id, .. } => {
            without_ok(s.pending_http, id, any());
            without_ok(s.stream_credits, id, windows());
            without_ok(s.response_streams, id, sinks());
            remembered_ok(s.terminated, generation, id, now);
        },
        _ => {},
    }
}

/// An envelope of the peer keeps the invariant: no body ever grows beyond its
/// limit or what was announced.
pub proof fn envelopes_keep_invariant(s: StateModel, e: EnvelopeModel, generation: u64, now: u64)
    requires
        s.inv(),
        s.on_envelope(e, generation, now) is Ok,
    ensures
        (s.on_envelope(e, generation, now)->Ok_0).0.inv(),
{
    if e.kind == BinaryKind::HttpResponse {
        without_ok(s.response_streams, e.id, sinks());
        remembered_ok(s.terminated, generation, e.id, now);
        place_bound(s.response_streams, e.id);
        if let Some(slot) = entry(s.response_streams, e.id) {
            let i = place(s.response_streams, e.id) as int;
            assert(sinks()(s.response_streams[i].data));
            let at = if slot.session is Some {
                e.offset->0 as int
            } else {
                slot.data.received as int
            };
            let end = at + e.payload.len();
            if at == slot.data.received && end <= slot.data.max_body_size && (slot.data.expected
                is None || end <= slot.data.expected->0) {
                update_ok(
                    s.response_streams,
                    i,
                    SlotModel {
                        data: ResponseSink {
                            received: end as usize,
                            queued: super::dispatch::bumped(slot.data.queued),
                            ..slot.data
                        },
                        ..slot
                    },
                    sinks(),
                );
            }
        }
    }
}

/// What follows an action, and what readers and exchanges do, keeps the
/// invariant.
pub proof fn follow_ups_keep_invariant(
    s: StateModel,
    id: Seq<char>,
    generation: u64,
    flag: bool,
    last: bool,
    n: u64,
    window: usize,
    now: u64,
)
    requires
        s.inv(),
    ensures
        s.on_begin_answered(id, generation, window, flag, now).0.inv(),
        s.on_chunk_delivered(id, generation, flag, last, now).0.inv(),
        s.on_chunk_consumed(id, n).0.inv(),
        s.on_channel_full(id, generation, flag, now).0.inv(),
        s.on_cancel(id, generation, now).0.inv(),
        s.on_reader_gone(id, generation, now).0.inv(),
        s.channel_closed(id, generation, now).inv(),
        s.channel_opened(id, generation).inv(),
{
    without_ok(s.response_streams, id, sinks());
    without_ok(s.pending_ws, id, any());
    without_ok(s.pending_http, id, any());
    without_ok(s.pending_requests, id, any());
    without_ok(s.stream_credits, id, windows());
    remembered_ok(s.terminated, generation, id, now);
    place_bound(s.response_streams, id);
    if let Some(slot) = entry(s.response_streams, id) {
        let i = place(s.response_streams, id) as int;
        assert(sinks()(s.response_streams[i].data));
        update_ok(
            s.response_streams,
            i,
            SlotModel {
                data: ResponseSink {
                    queued: super::dispatch::lowered(slot.data.queued),
                    ..slot.data
                },
                ..slot
            },
            sinks(),
        );
    }
    with_ok(
        s.pending_ws,
        SlotModel {
            id,
            generation: Some(generation),
            session: None,
            data: Waiter {  },
        },
        any(),
    );
}

/// Making a request, whole or in pieces, keeps the invariant.
pub proof fn requests_keep_invariant(
    s: StateModel,
    id: Seq<char>,
    mode: ModeModel,
    generation: u64,
    protocol: super::config::NegotiatedProtocol,
    session: Option<Seq<char>>,
    frame: FrameModel,
    length: Option<u64>,
    now: u64,
)
    requires
        s.inv(),
    ensures
        s.submitted(id, mode, frame, now).inv(),
        s.uploading(id, generation, protocol, session, frame, now).inv(),
        s.route(mode, length).0.inv(),
        s.channel_route(mode).0.inv(),
{
    let cached = super::exchange::mode_session(mode);
    with_ok(
        s.pending_http,
        SlotModel {
            id,
            generation: if mode is Streaming {
                mode_generation(mode)
            } else {
                None
            },
            session: cached,
            data: Waiter {  },
        },
        any(),
    );
    with_ok(
        s.pending_http,
        SlotModel { id, generation: Some(generation), session, data: Waiter {  } },
        any(),
    );
    with_ok(
        s.stream_credits,
        SlotModel {
            id,
            generation: Some(generation),
            session,
            data: CreditsModel::fresh(protocol.stream_window_frames),
        },
        windows(),
    );
    let ttl: u64 = if cached is Some {
        s.http_timeout()
    } else {
        super::state::PENDING_REQUEST_TTL
    };
    with_ok(
        s.pending_requests,
        SlotModel {
            id,
            generation: None,
            session: cached,
            data: CachedModel { frame, created_at: now, ttl },
        },
        any(),
    );
    with_ok(
        s.pending_requests,
        SlotModel {
            id,
            generation: None,
            session,
            data: CachedModel { frame, created_at: now, ttl: s.http_timeout() },
        },
        any(),
    );
}

proof fn with_credits_ok(s: StateModel, id: Seq<char>, c: CreditsModel)
    requires
        s.inv(),
        c.available <= c.window,
    ensures
        s.with_credits(id, c).inv(),
{
    if let Some(slot) = entry(s.stream_credits, id) {
        place_bound(s.stream_credits, id);
        update_ok(
            s.stream_credits,
            place(s.stream_credits, id) as int,
            SlotModel { data: c, ..slot },
            windows(),
        );
    }
}

proof fn disconnected_ok(s: StateModel, id: Seq<char>, generation: u64)
    requires
        s.inv(),
    ensures
        s.upload_disconnected(id, generation).inv(),
{
    place_bound(s.stream_credits, id);
    if let Some(slot) = entry(s.stream_credits, id) {
        assert(windows()(s.stream_credits[place(s.stream_credits, id) as int].data));
        with_credits_ok(s, id, slot.data.disconnected(slot.session is Some));
    }
}

proof fn over_ok(s: StateModel, u: UploadModel, status: u16, message: Seq<char>, now: u64)
    requires
        s.inv(),
    ensures
        s.upload_over(u, status, message, now).0.inv(),
{
    follow_ups_keep_invariant(s, u.id, u.generation, true, true, 0, 0, now);
}

proof fn sends_ok(s: StateModel, u: UploadModel, now: u64)
    requires
        s.inv(),
    ensures
        s.upload_sends(u, now).0.inv(),
{
    let lost = "Tunnel request stream lost"@;
    over_ok(s, u, 502, lost, now);
    place_bound(s.stream_credits, u.id);
    if let Some(slot) = entry(s.stream_credits, u.id) {
        assert(windows()(s.stream_credits[place(s.stream_credits, u.id) as int].data));
        if credit(slot.data, slot.session is Some, false) == Credit::Granted {
            let spent = CreditsModel {
                available: (slot.data.available - 1) as usize,
                ..slot.data
            };
            let kept = if u.resumable {
                spent.recorded((u.offset, u.pending[0]))
            } else {
                spent
            };
            with_credits_ok(s, u.id, kept);
            over_ok(s.with_credits(u.id, kept), u, 502, lost, now);
        }
    }
}

proof fn goes_on_ok(s: StateModel, u: UploadModel, now: u64)
    requires
        s.inv(),
    ensures
        s.upload_goes_on(u, now).0.inv(),
{
    sends_ok(s, u, now);
    over_ok(s, u, 502, "Tunnel request stream lost"@, now);
    over_ok(s, u, 400, "Request content length mismatch"@, now);
    without_ok(s.stream_credits, u.id, windows());
    place_bound(s.stream_credits, u.id);
    if let Some(slot) = entry(s.stream_credits, u.id) {
        assert(windows()(s.stream_credits[place(s.stream_credits, u.id) as int].data));
        with_credits_ok(s, u.id, CreditsModel { ended: true, ..slot.data });
    }
    over_ok(
        s.upload_ended(u.id),
        UploadModel { stage: UploadStage::Ending, ..u },
        502,
        "Tunnel request stream lost"@,
        now,
    );
}

/// Every step of a request body on its way keeps the invariant.
pub proof fn uploads_keep_invariant(
    s: StateModel,
    u: UploadModel,
    event: UploadEventModel,
    now: u64,
)
    requires
        s.inv(),
    ensures
        s.upload_next(u, event, now).0.inv(),
{
    goes_on_ok(s, u, now);
    match event {
        UploadEventModel::Body(data) => {
            over_ok(s, u, 413, "request body exceeds limit"@, now);
            goes_on_ok(
                s,
                UploadModel {
                    received: grown(u.received, data.len(), u.protocol.max_body_size)->0,
                    pending: u.pending + chunks(data, u.protocol.max_stream_chunk as nat),
                    ..u
                },
                now,
            );
        },
        UploadEventModel::BodyEnded => goes_on_ok(s, UploadModel { finished: true, ..u }, now),
        UploadEventModel::BodyBroken(message) => over_ok(s, u, 400, message, now),
        UploadEventModel::Changed => {},
        UploadEventModel::TimedOut => {
            over_ok(s, u, 502, "Tunnel request stream lost"@, now);
            over_ok(s, u, 502, "Tunnel request stream disconnected"@, now);
        },
        UploadEventModel::Unsent(generation) => {
            let lost = s.upload_disconnected(u.id, generation);
            disconnected_ok(s, u.id, generation);
            over_ok(lost, u, 502, "Tunnel request stream disconnected"@, now);
            goes_on_ok(lost, u, now);
            goes_on_ok(lost, UploadModel { stage: UploadStage::EndLost, ..u }, now);
        },
    }
}

/// Binary messages and the end of the time for negotiating keep the invariant,
/// and in every state a binary message can be taken.
pub proof fn messages_keep_invariant(s: StateModel, raw: Seq<u8>, generation: u64, now: u64)
    requires
        s.inv(),
    ensures
        s.envelope_limit() + 8 <= usize::MAX,
        s.on_binary(raw, generation, now) is Ok ==> (s.on_binary(
            raw,
            generation,
            now,
        )->Ok_0).0.inv(),
        s.on_silence(generation, now).0.inv(),
{
    if let Ok(e) = decoded(raw, s.envelope_limit() as nat) {
        if s.on_envelope(e, generation, now) is Ok {
            envelopes_keep_invariant(s, e, generation, now);
        }
    }
    cleaned_ok(s.fallen_back(generation), now);
}

/// A new tunnel meets the invariant.
pub proof fn new_tunnel_meets_invariant(config: TunnelConfig)
    requires
        config.wf(),
    ensures
        (StateModel {
            config,
            active_client: None,
            pending_http: Seq::empty(),
            pending_ws: Seq::empty(),
            pending_requests: Seq::empty(),
            response_streams: Seq::empty(),
            stream_credits: Seq::empty(),
            terminated: Seq::empty(),
            active_generation: 0,
            legacy_generation: 0,
            negotiated: None,
            http_permits: config.max_inflight,
            ws_permits: config.max_inflight,
        }).inv(),
{
}

// ───────────────────────── across operations ─────────────────────────

/// Frames and envelopes of a connection that was replaced change nothing.
pub proof fn replaced_connections_are_silent(
    s: StateModel,
    frame: FrameModel,
    e: EnvelopeModel,
    generation: u64,
    now: u64,
)
    requires
        s.active_generation < u64::MAX,
        generation <= s.active_generation,
    ensures
        s.installed().on_frame(frame, generation, now) == (s.installed(), Seq::<ActionModel>::empty()),
        s.installed().on_envelope(e, generation, now) == Ok::<Step, Seq<char>>(
            (s.installed(), Seq::empty()),
        ),
{
}

/// A piece that comes again after a reconnect is acknowledged and changes
/// nothing.
pub proof fn repeated_pieces_are_absorbed(s: StateModel, e: EnvelopeModel, generation: u64, now: u64)
    requires
        s.active_client == Some(generation),
        e.kind == BinaryKind::HttpResponse,
        entry(s.response_streams, e.id) matches Some(slot) && slot.generation == Some(generation)
            && slot.session is Some && e.offset is Some && e.offset->0 < slot.data.received
            && e.offset->0 + e.payload.len() <= slot.data.received,
    ensures
        s.on_envelope(e, generation, now) == Ok::<Step, Seq<char>>(
            (
                s,
                seq![
                    ActionModel::Send {
                        frame: window_frame(
                            e.id,
                            0,
                            entry(s.response_streams, e.id)->0.data.received as u64,
                            false,
                        ),
                    },
                ],
            ),
        ),
{
}

/// A piece that follows what was received is handed on, and counted.
pub proof fn next_pieces_are_handed_on(s: StateModel, e: EnvelopeModel, generation: u64, now: u64)
    requires
        s.active_client == Some(generation),
        e.kind == BinaryKind::HttpResponse,
        entry(s.response_streams, e.id) matches Some(slot) && slot.generation == Some(generation)
            && (slot.session is Some ==> e.offset == Some(slot.data.received as u64))
            && slot.data.received + e.payload.len() <= slot.data.max_body_size && (
        slot.data.expected matches Some(n) ==> slot.data.received + e.payload.len() <= n),
    ensures
        s.on_envelope(e, generation, now) matches Ok(step) && step.1 == seq![
            ActionModel::Chunk {
                id: e.id,
                offset: entry(s.response_streams, e.id)->0.data.received as u64,
                payload: e.payload,
            },
        ] && (entry(step.0.response_streams, e.id) matches Some(after) && after.data.received
            == entry(s.response_streams, e.id)->0.data.received + e.payload.len()),
{
    place_bound(s.response_streams, e.id);
    let t = (s.on_envelope(e, generation, now)->Ok_0).0.response_streams;
    super::registry::place_is(t, e.id, place(s.response_streams, e.id) as int);
}

/// Data for a stream that was closed a moment ago is absorbed.
pub proof fn late_data_is_absorbed(
    s: StateModel,
    e: EnvelopeModel,
    generation: u64,
    now: u64,
    later: u64,
)
    requires
        s.inv(),
        s.active_client == Some(generation),
        now <= later <= now + TERMINATED_STREAM_TTL,
        e.kind == BinaryKind::HttpResponse,
    ensures
        ({
            let closed = s.on_reader_gone(e.id, generation, now).0;
            entry(s.response_streams, e.id) is Some ==> closed.on_envelope(e, generation, later)
                == Ok::<Step, Seq<char>>((closed, Seq::empty()))
        }),
{
    closed_streams_are_remembered(s.terminated, generation, e.id, now, later);
    super::registry::without_lacks(s.response_streams, e.id);
}

/// After a connection is lost, nothing that cannot resume is left on it, and
/// everything that can is still there.
pub proof fn lost_connections_leave_only_resumable(s: StateModel, generation: u64, i: int)
    requires
        s.active_client == Some(generation),
    ensures
        ({
            let t = s.deactivated(generation);
            &&& 0 <= i < t.pending_http.len() && t.pending_http[i].generation == Some(generation)
                ==> t.pending_http[i].session is Some
            &&& 0 <= i < t.response_streams.len() && t.response_streams[i].generation == Some(
                generation,
            ) ==> t.response_streams[i].session is Some
            &&& 0 <= i < t.stream_credits.len() && t.stream_credits[i].generation == Some(
                generation,
            ) ==> t.stream_credits[i].session is Some && !t.stream_credits[i].data.connected
            &&& 0 <= i < t.pending_ws.len() ==> t.pending_ws[i].generation != Some(generation)
            &&& 0 <= i < s.response_streams.len() && s.response_streams[i].session is Some
                ==> t.response_streams.contains(s.response_streams[i])
            &&& 0 <= i < s.pending_http.len() && s.pending_http[i].session is Some
                ==> t.pending_http.contains(s.pending_http[i])
        }),
{
    broadcast use vstd::seq_lib::group_filter_ensures;

    let t = s.deactivated(generation);
    let p = picked::<Waiter>(PickModel::BoundTo(generation));
    let np = |e: SlotModel<Waiter>| !p(e);
    let q = picked::<ResponseSink>(PickModel::BoundTo(generation));
    let nq = |e: SlotModel<ResponseSink>| !q(e);
    let c = picked::<CreditsModel>(PickModel::BoundTo(generation));
    let nc = |e: SlotModel<CreditsModel>| !c(e);
    let w = picked::<Waiter>(PickModel::Generation(generation));
    let nw = |e: SlotModel<Waiter>| !w(e);
    if 0 <= i < t.pending_http.len() {
        assert(np(s.pending_http.filter(np)[i]));
    }
    if 0 <= i < t.response_streams.len() {
        assert(nq(s.response_streams.filter(nq)[i]));
    }
    if 0 <= i < t.stream_credits.len() {
        assert(nc(s.stream_credits.filter(nc)[i]));
    }
    if 0 <= i < t.pending_ws.len() {
        assert(nw(s.pending_ws.filter(nw)[i]));
    }
    if 0 <= i < s.response_streams.len() && s.response_streams[i].session is Some {
        assert(nq(s.response_streams[i]));
        assert(s.response_streams.filter(nq).contains(s.response_streams[i]));
    }
    if 0 <= i < s.pending_http.len() && s.pending_http[i].session is Some {
        assert(np(s.pending_http[i]));
        assert(s.pending_http.filter(np).contains(s.pending_http[i]));
    }
}

/// Entries that belong to one session or to none.
pub open spec fn only_session<M>(s: Seq<SlotModel<M>>, keep: Seq<char>) -> bool {
    forall|i: int| 0 <= i < s.len() ==> (#[trigger] s[i]).session is None || s[i].session == Some(keep)
}

/// Entries whose session is none, or `keep`, or not among `names`.
spec fn spared<M>(s: Seq<SlotModel<M>>, names: Seq<Seq<char>>, keep: Seq<char>) -> bool {
    forall|i: int|
        0 <= i < s.len() ==> ((#[trigger] s[i]).session matches Some(x) ==> x == keep
            || !names.contains(x))
}

proof fn others_spared<M>(s: Seq<SlotModel<M>>, names: Seq<Seq<char>>, keep: Seq<char>)
    requires
        names.len() > 0,
        names.last() != keep,
        spared(s, names.drop_last(), keep),
    ensures
        spared(others(s, picked(PickModel::Session(names.last()))), names, keep),
{
    broadcast use vstd::seq_lib::group_filter_ensures;

    let p = picked::<M>(PickModel::Session(names.last()));
    let np = |e: SlotModel<M>| !p(e);
    let t = s.filter(np);
    assert(t == others(s, p));
    assert forall|i: int| 0 <= i < t.len() implies ((#[trigger] t[i]).session matches Some(x) ==> x
        == keep || !names.contains(x)) by {
        assert(np(t[i]));
        s.lemma_filter_contains_rev(np, t[i]);
        let j = choose|j: int| 0 <= j < s.len() && s[j] == t[i];
        assert(s[j] == t[i]);
        if let Some(x) = t[i].session {
            if x != keep && names.contains(x) {
                let k = choose|k: int| 0 <= k < names.len() && names[k] == x;
                if k < names.len() - 1 {
                    assert(names.drop_last()[k] == x);
                    assert(names.drop_last().contains(x));
                }
            }
        }
    }
}

proof fn stays_spared<M>(s: Seq<SlotModel<M>>, names: Seq<Seq<char>>, keep: Seq<char>)
    requires
        names.len() > 0,
        names.last() == keep,
        spared(s, names.drop_last(), keep),
    ensures
        spared(s, names, keep),
{
    assert forall|i: int| 0 <= i < s.len() implies ((#[trigger] s[i]).session matches Some(x) ==> x
        == keep || !names.contains(x)) by {
        if let Some(x) = s[i].session {
            if x != keep && names.contains(x) {
                let k = choose|k: int| 0 <= k < names.len() && names[k] == x;
                assert(names.drop_last()[k] == x);
                assert(names.drop_last().contains(x));
            }
        }
    }
}

proof fn stale_spares(s: StateModel, names: Seq<Seq<char>>, keep: Seq<char>)
    ensures
        spared(s.stale_failed(names, keep).response_streams, names, keep),
        spared(s.stale_failed(names, keep).stream_credits, names, keep),
    decreases names.len(),
{
    if names.len() > 0 {
        let before = s.stale_failed(names.drop_last(), keep);
        stale_spares(s, names.drop_last(), keep);
        if names.last() == keep {
            stays_spared(before.response_streams, names, keep);
            stays_spared(before.stream_credits, names, keep);
        } else {
            others_spared(before.response_streams, names, keep);
            others_spared(before.stream_credits, names, keep);
        }
    }
}

proof fn stale_keeps(s: StateModel, names: Seq<Seq<char>>, keep: Seq<char>, e: SlotModel<ResponseSink>, c: SlotModel<CreditsModel>)
    requires
        e.session == Some(keep),
        c.session == Some(keep),
    ensures
        s.response_streams.contains(e) ==> s.stale_failed(
            names,
            keep,
        ).response_streams.contains(e),
        s.stream_credits.contains(c) ==> s.stale_failed(names, keep).stream_credits.contains(c),
        forall|x: SlotModel<ResponseSink>| #[trigger]
            s.stale_failed(names, keep).response_streams.contains(x)
                ==> s.response_streams.contains(x),
        forall|x: SlotModel<CreditsModel>| #[trigger]
            s.stale_failed(names, keep).stream_credits.contains(x) ==> s.stream_credits.contains(x),
    decreases names.len(),
{
    broadcast use vstd::seq_lib::group_filter_ensures;

    if names.len() > 0 {
        let before = s.stale_failed(names.drop_last(), keep);
        stale_keeps(s, names.drop_last(), keep, e, c);
        if names.last() != keep {
            let p = picked::<ResponseSink>(PickModel::Session(names.last()));
            let np = |x: SlotModel<ResponseSink>| !p(x);
            let q = picked::<CreditsModel>(PickModel::Session(names.last()));
            let nq = |x: SlotModel<CreditsModel>| !q(x);
            if before.response_streams.contains(e) {
                let k = choose|k: int|
                    0 <= k < before.response_streams.len() && before.response_streams[k] == e;
                assert(np(before.response_streams[k]));
                before.response_streams.lemma_filter_contains(np, k);
            }
            if before.stream_credits.contains(c) {
                let k = choose|k: int|
                    0 <= k < before.stream_credits.len() && before.stream_credits[k] == c;
                assert(nq(before.stream_credits[k]));
                before.stream_credits.lemma_filter_contains(nq, k);
            }
            assert forall|x: SlotModel<ResponseSink>| #[trigger]
                before.response_streams.filter(np).contains(x) implies s.response_streams.contains(
                x,
            ) by {
                before.response_streams.lemma_filter_contains_rev(np, x);
            }
            assert forall|x: SlotModel<CreditsModel>| #[trigger]
                before.stream_credits.filter(nq).contains(x) implies s.stream_credits.contains(
                x,
            ) by {
                before.stream_credits.lemma_filter_contains_rev(nq, x);
            }
        }
    }
}

proof fn session_listed<M>(s: Seq<SlotModel<M>>, i: int, x: Seq<char>)
    requires
        0 <= i < s.len(),
        s[i].session == Some(x),
    ensures
        super::connection::sessions_of(s).contains(x),
    decreases s.len(),
{
    reveal(Seq::filter_map);
    let all = super::connection::sessions_of(s);
    let f = |e: SlotModel<M>| e.session;
    let t = s.drop_last();
    assert(super::connection::sessions_of(t) == t.filter_map(f));
    if i == s.len() - 1 {
        assert(all == t.filter_map(f).push(x));
        assert(all[all.len() - 1] == x);
    } else {
        session_listed(t, i, x);
        let m = choose|m: int| 0 <= m < t.filter_map(f).len() && t.filter_map(f)[m] == x;
        assert(all[m] == x);
    }
}

/// A hello that names a session takes it over: every other session is given
/// up, each stream of the session moves to the new connection with what it had
/// received, and each upload waits to send again what was not acknowledged.
pub proof fn hello_takes_the_session_over(
    s: StateModel,
    hello: FrameModel,
    session: Seq<char>,
    generation: u64,
    now: u64,
    sink: SlotModel<ResponseSink>,
    upload: SlotModel<CreditsModel>,
)
    requires
        s.active_generation == generation,
        acceptable(hello, s.config),
        requested_session(hello) == Some(session),
        s.negotiated matches Some(n) ==> n.generation != generation,
        sink.session == Some(session),
        upload.session == Some(session),
    ensures
        ({
            let t = s.on_frame(hello, generation, now).0;
            &&& only_session(t.response_streams, session)
            &&& only_session(t.stream_credits, session)
            &&& s.response_streams.contains(sink) ==> t.response_streams.contains(
                SlotModel { generation: Some(generation), ..sink },
            )
            &&& s.stream_credits.contains(upload) ==> t.stream_credits.contains(
                SlotModel {
                    generation: Some(generation),
                    data: upload.data.reconnected(),
                    ..upload
                },
            )
        }),
{
    let fixed = s.negotiating(hello, generation);
    let names = fixed.session_ids();
    let alone = fixed.stale_failed(names, session);
    stale_spares(fixed, names, session);
    stale_keeps(fixed, names, session, sink, upload);
    let t = s.on_frame(hello, generation, now).0;
    let a = super::connection::sessions_of(s.pending_http);
    let b = super::connection::sessions_of(s.response_streams);
    let c = super::connection::sessions_of(s.stream_credits);
    assert(names == a + b + c);
    assert forall|i: int| 0 <= i < t.response_streams.len() implies (
    #[trigger] t.response_streams[i]).session is None || t.response_streams[i].session == Some(
        session,
    ) by {
        let old = alone.response_streams[i];
        assert(t.response_streams[i].session == old.session);
        if let Some(x) = old.session {
            assert(alone.response_streams.contains(old));
            assert(s.response_streams.contains(old));
            let k = choose|k: int| 0 <= k < s.response_streams.len() && s.response_streams[k] == old;
            session_listed(s.response_streams, k, x);
            let m = choose|m: int| 0 <= m < b.len() && b[m] == x;
            assert(names[a.len() + m] == x);
            assert(names.contains(x));
        }
    }
    assert forall|i: int| 0 <= i < t.stream_credits.len() implies (
    #[trigger] t.stream_credits[i]).session is None || t.stream_credits[i].session == Some(
        session,
    ) by {
        let old = alone.stream_credits[i];
        assert(t.stream_credits[i].session == old.session);
        if let Some(x) = old.session {
            assert(alone.stream_credits.contains(old));
            assert(s.stream_credits.contains(old));
            let k = choose|k: int| 0 <= k < s.stream_credits.len() && s.stream_credits[k] == old;
            session_listed(s.stream_credits, k, x);
            let m = choose|m: int| 0 <= m < c.len() && c[m] == x;
            assert(names[a.len() + b.len() + m] == x);
            assert(names.contains(x));
        }
    }
    if s.response_streams.contains(sink) {
        let k = choose|k: int|
            0 <= k < alone.response_streams.len() && alone.response_streams[k] == sink;
        assert(t.response_streams[k] == (SlotModel { generation: Some(generation), ..sink }));
    }
    if s.stream_credits.contains(upload) {
        let k = choose|k: int|
            0 <= k < alone.stream_credits.len() && alone.stream_credits[k] == upload;
        assert(t.stream_credits[k] == (SlotModel {
            generation: Some(generation),
            data: upload.data.reconnected(),
            ..upload
        }));
    }
}

} // verus!
