//! Laws of tunnel connections: settings, agreement, loss and resumption.
use super::lists::{filtered_items, some_of};
use super::texts::unsigned_numerals_are_digits;
use crate::text::{decimal, decimal_reads_back, unsigned_numeral};
use crate::tunnel::config::{
    acceptable, agreed, duration_of, http_timeout, positive_setting, requested_session,
    DEFAULT_MAX_INFLIGHT, DEFAULT_MAX_WS_MESSAGE_BYTES, DEFAULT_STREAM_CHUNK_BYTES,
    DEFAULT_STREAM_WINDOW_FRAMES, FAST_PATH_BODY_BYTES, MAX_CONFIGURED_BODY_BYTES,
    MAX_CONFIGURED_INFLIGHT, MAX_CONFIGURED_STREAM_CHUNK_BYTES, MAX_CONFIGURED_WINDOW_FRAMES,
    MAX_CONFIGURED_WS_MESSAGE_BYTES, MAX_HTTP_BODY_BYTES, MIN_STREAM_CHUNK_BYTES, Span,
    TunnelConfig,
};
use crate::tunnel::connection::{
    body_errors, cached_for, channel_ends, credits_lost, expired, failures, resumed_windows,
    room_left,
};
use crate::tunnel::credits::{
    connection, credit, piece_end, readiness, Credit, CreditsModel, PieceModel,
};
use crate::tunnel::envelope::{
    decoded, encoded, flag_byte, header_bytes, id_bytes, id_text, wire_payload, BinaryKind,
    EnvelopeModel,
};
use crate::tunnel::frame::FrameModel;
use crate::tunnel::registry::{entry, others, picked, PickModel, SlotModel};
use crate::tunnel::state::{
    elapsed, is_closed, ActionModel, AnswerModel, CachedModel, ModeModel, ResponseSink, StateModel,
    Waiter,
};
use vstd::prelude::*;

verus! {

// ───────────────────────── settings ─────────────────────────

/// A setting is its numeral, up to the largest that is allowed. Zero, anything
/// that is no numeral, and nothing mean the usual value.
pub proof fn settings_are_numerals(n: nat, raw: Seq<char>, usual: usize, largest: usize)
    requires
        n <= usize::MAX,
    ensures
        0 < n <= largest ==> positive_setting(Some(decimal(n)), usual, largest) == n,
        n > largest && n > 0 ==> positive_setting(Some(decimal(n)), usual, largest) == largest,
        positive_setting(Some(decimal(0)), usual, largest) == usual,
        unsigned_numeral(raw, usize::MAX as nat) is None ==> positive_setting(
            Some(raw),
            usual,
            largest,
        ) == usual,
        positive_setting(None, usual, largest) == usual,
{
    decimal_reads_back(n);
    decimal_reads_back(0);
    unsigned_numerals_are_digits(decimal(n), usize::MAX as nat);
    unsigned_numerals_are_digits(decimal(0), usize::MAX as nat);
}

/// The usual values and the limits of the settings.
pub proof fn usual_settings()
    ensures
        MAX_HTTP_BODY_BYTES == 512 * 1024 * 1024,
        MAX_CONFIGURED_BODY_BYTES == 1024 * 1024 * 1024,
        DEFAULT_STREAM_CHUNK_BYTES == 64 * 1024,
        MAX_CONFIGURED_STREAM_CHUNK_BYTES == 64 * 1024,
        MIN_STREAM_CHUNK_BYTES == 1024,
        DEFAULT_MAX_WS_MESSAGE_BYTES == 8 * 1024 * 1024,
        MAX_CONFIGURED_WS_MESSAGE_BYTES == 8 * 1024 * 1024,
        DEFAULT_MAX_INFLIGHT == 16,
        MAX_CONFIGURED_INFLIGHT == 1024,
        DEFAULT_STREAM_WINDOW_FRAMES == 16,
        MAX_CONFIGURED_WINDOW_FRAMES == 1024,
        FAST_PATH_BODY_BYTES == 64 * 1024,
{
}

/// An exchange may take as long as is set, where that is more than nothing, and
/// else ten minutes.
pub proof fn exchanges_take_their_time(raw: Seq<char>, secs: u64, nanos: u32)
    ensures
        http_timeout(None) == (Span { secs: 600, nanos: 0 }),
        duration_of(raw) is None ==> http_timeout(Some(raw)) == (Span { secs: 600, nanos: 0 }),
        duration_of(raw) == Some((0u64, 0u32)) ==> http_timeout(Some(raw)) == (Span {
            secs: 600,
            nanos: 0,
        }),
        duration_of(raw) == Some((secs, nanos)) && (secs > 0 || nanos > 0) ==> http_timeout(
            Some(raw),
        ) == (Span { secs, nanos }),
        (Span { secs, nanos }).total_nanos() == secs * 1_000_000_000 + nanos,
{
}

// ───────────────────────── agreement ─────────────────────────

/// A hello is accepted where both ends speak version 2 and it leaves room for
/// something.
pub proof fn hellos_are_accepted(hello: FrameModel, c: TunnelConfig)
    ensures
        !(hello is Hello) ==> !acceptable(hello, c),
        hello is Hello ==> acceptable(hello, c) == (c.protocol_version >= 2
            && hello->Hello_protocol_version >= 2 && hello->Hello_max_stream_chunk >= 1024
            && hello->Hello_max_inflight >= 1 && hello->Hello_stream_window_frames >= 1
            && hello->Hello_max_body_size >= 1 && hello->Hello_max_ws_message_size >= 1),
{
}

/// The smaller of two numbers.
pub open spec fn smaller(a: int, b: int) -> int {
    if a < b {
        a
    } else {
        b
    }
}

/// What is agreed is the smaller of what both ends allow. All streams together
/// have no more than 480 frames on the way, but each may have one. A session is
/// resumed only where the hello asks for it and names one.
pub proof fn agreements_are_the_smaller(hello: FrameModel, c: TunnelConfig)
    requires
        c.wf(),
        acceptable(hello, c),
    ensures
        ({
            let p = agreed(hello, c);
            let window = smaller(
                hello->Hello_stream_window_frames as int,
                c.stream_window_frames as int,
            );
            &&& p.max_stream_chunk == smaller(
                hello->Hello_max_stream_chunk as int,
                c.stream_chunk_bytes as int,
            )
            &&& p.max_inflight == smaller(hello->Hello_max_inflight as int, c.max_inflight as int)
            &&& p.max_body_size == smaller(
                hello->Hello_max_body_size as int,
                c.max_body_bytes as int,
            )
            &&& p.max_ws_message_size == smaller(
                hello->Hello_max_ws_message_size as int,
                c.max_ws_message_bytes as int,
            )
            &&& p.stream_window_frames <= window
            &&& window * p.max_inflight <= 480 ==> p.stream_window_frames == window
            &&& window * p.max_inflight > 480 && p.max_inflight <= 480 ==> p.stream_window_frames
                == 480int / (p.max_inflight as int)
            &&& p.max_inflight > 480 ==> p.stream_window_frames == 1
            &&& p.resumable == (requested_session(hello) is Some)
        }),
{
    let p = agreed(hello, c);
    let window = smaller(hello->Hello_stream_window_frames as int, c.stream_window_frames as int);
    let n = p.max_inflight as int;
    assert(n >= 1);
    assert(window >= 1);
    if n > 480 {
        assert(window * n > 480) by (nonlinear_arith)
            requires
                window >= 1,
                n > 480,
        ;
    }
    if window * n <= 480 {
        assert(480int / n >= window) by (nonlinear_arith)
            requires
                window * n <= 480,
                n >= 1,
        ;
    } else if n <= 480 {
        assert(480int / n < window) by (nonlinear_arith)
            requires
                window * n > 480,
                n >= 1,
        ;
        assert(480int / n >= 1) by (nonlinear_arith)
            requires
                1 <= n <= 480,
        ;
    } else {
        assert(480int / n == 0) by (nonlinear_arith)
            requires
                n > 480,
        ;
    }
}

/// A hello asks for a session where it says so and names one by a valid
/// identifier.
pub proof fn sessions_are_asked_for(hello: FrameModel)
    requires
        hello is Hello,
    ensures
        requested_session(hello) == (if hello->Hello_resume && hello->Hello_session_id is Some
            && id_bytes(hello->Hello_session_id->0) is Some {
            hello->Hello_session_id
        } else {
            None
        }),
{
}

/// The hello of this end offers what it is set to.
pub proof fn hellos_offer_the_settings(c: TunnelConfig)
    ensures
        c.hello_model() matches FrameModel::Hello {
            protocol_version,
            max_stream_chunk,
            max_inflight,
            stream_window_frames,
            max_body_size,
            max_ws_message_size,
            resume,
            session_id,
        } && protocol_version == c.protocol_version && max_stream_chunk == c.stream_chunk_bytes
            && max_inflight == c.max_inflight && stream_window_frames == c.stream_window_frames
            && max_body_size == c.max_body_bytes && max_ws_message_size == c.max_ws_message_bytes
            && resume && session_id is None,
{
}

/// An acceptable hello fixes what its connection may do.
pub proof fn hellos_fix_the_limits(s: StateModel, hello: FrameModel, generation: u64, now: u64)
    requires
        s.active_generation == generation,
        acceptable(hello, s.config),
        s.negotiated is None || s.negotiated->0.generation != generation,
        requested_session(hello) is None,
    ensures
        ({
            let after = s.on_frame(hello, generation, now).0;
            &&& after.negotiated is Some
            &&& after.negotiated->0.generation == generation
            &&& after.negotiated->0.protocol == agreed(hello, s.config)
            &&& after.negotiated->0.session_id is None
            &&& after.negotiated->0.http == agreed(hello, s.config).max_inflight
            &&& after.negotiated->0.websocket == agreed(hello, s.config).max_inflight
            &&& after.protocol() == Some((generation, agreed(hello, s.config)))
        }),
{
}

/// A second hello of a connection, and one that is not acceptable, change
/// nothing.
pub proof fn other_hellos_change_nothing(
    s: StateModel,
    hello: FrameModel,
    generation: u64,
    now: u64,
)
    requires
        hello is Hello,
        !acceptable(hello, s.config) || s.negotiated is Some && s.negotiated->0.generation
            == generation,
    ensures
        s.on_frame(hello, generation, now) == (s, Seq::<ActionModel>::empty()),
{
}

// ───────────────────────── modes ─────────────────────────

/// Without a connection there is no mode to speak in. With an agreement the
/// connection is streaming, and without one it is legacy once it was found to
/// be; until then the mode is open.
pub proof fn modes_are_settled(s: StateModel, generation: u64)
    ensures
        s.active_client is None ==> s.settled_mode() == Some(ModeModel::Disconnected),
        s.active_client == Some(generation) && s.protocol() is Some ==> s.settled_mode() == Some(
            ModeModel::Streaming {
                generation: (s.protocol()->0).0,
                protocol: (s.protocol()->0).1,
                session_id: s.negotiated->0.session_id,
            },
        ),
        s.active_client == Some(generation) && s.protocol() is None && s.legacy_generation
            == generation ==> s.settled_mode() == Some(ModeModel::Legacy { generation }),
        s.active_client == Some(generation) && s.protocol() is None && s.legacy_generation
            != generation ==> s.settled_mode() is None,
{
}

/// A connection that has not agreed in time falls back, and is legacy from then
/// on; one that was replaced is not there any more.
pub proof fn silent_connections_fall_back(s: StateModel, generation: u64)
    requires
        s.protocol() is None,
    ensures
        s.active_client != Some(generation) ==> s.final_mode(generation) is Disconnected
            && s.fallen_back(generation) == s,
        s.active_client == Some(generation) && (s.negotiated is None || s.negotiated->0.generation
            != generation) ==> s.final_mode(generation) == (ModeModel::Legacy { generation })
            && s.fallen_back(generation).legacy_generation == generation && s.fallen_back(
            generation,
        ).settled_mode() == Some(ModeModel::Legacy { generation }),
{
}

/// A new connection is active, has the next number, and has agreed on nothing.
pub proof fn connections_are_installed(s: StateModel)
    requires
        s.active_generation < u64::MAX,
    ensures
        s.installed().active_generation == s.active_generation + 1,
        s.installed().active_client == Some((s.active_generation + 1) as u64),
        s.installed().negotiated is None,
        s.installed().legacy_generation == 0,
        s.installed().pending_requests == s.pending_requests,
        s.installed().http_permits == s.http_permits,
        s.installed().ws_permits == s.ws_permits,
        s.active_client is None ==> s.installed().pending_http == s.pending_http
            && s.replacement_notices().len() == 0,
{
}

// ───────────────────────── loss ─────────────────────────

/// Every exchange of a connection that is lost, and that cannot be resumed, is
/// answered with the reason; every body is ended with it, and every channel is
/// closed with the code 1001. Others hear nothing.
pub proof fn losses_are_told(
    s: StateModel,
    generation: u64,
    message: Seq<char>,
    w: SlotModel<Waiter>,
    b: SlotModel<ResponseSink>,
    c: SlotModel<Waiter>,
)
    requires
        s.active_client == Some(generation),
    ensures
        ({
            let told = s.deactivation_notices(generation, message);
            &&& s.pending_http.contains(w) && w.generation == Some(generation) && w.session is None
                ==> told.contains(
                ActionModel::Answer { id: w.id, answer: AnswerModel::Failed { message } },
            )
            &&& s.response_streams.contains(b) && b.generation == Some(generation) && b.session
                is None ==> told.contains(ActionModel::BodyError { id: b.id, message })
            &&& s.pending_ws.contains(c) && c.generation == Some(generation) ==> told.contains(
                ActionModel::ChannelEnd {
                    id: c.id,
                    frame: FrameModel::WsClose { id: c.id, code: 1001, reason: message },
                },
            )
        }),
{
    let told = s.deactivation_notices(generation, message);
    let pick = PickModel::BoundTo(generation);
    let a = s.pending_http.filter(picked(pick));
    let d = s.response_streams.filter(picked(pick));
    let e = s.pending_ws.filter(picked(PickModel::Generation(generation)));
    filtered_items(s.pending_http, picked(pick));
    filtered_items(s.response_streams, picked(pick));
    filtered_items(s.pending_ws, picked(PickModel::Generation(generation)));
    if s.pending_http.contains(w) && w.generation == Some(generation) && w.session is None {
        assert(a.contains(w));
        let i = a.index_of(w);
        assert(failures(a, message)[i] == told[i]);
        assert(told[i] == (ActionModel::Answer { id: w.id, answer: AnswerModel::Failed { message } }));
    }
    if s.response_streams.contains(b) && b.generation == Some(generation) && b.session is None {
        assert(d.contains(b));
        let i = d.index_of(b);
        assert(body_errors(d, message)[i] == told[a.len() + i]);
        assert(told[a.len() + i] == (ActionModel::BodyError { id: b.id, message }));
    }
    if s.pending_ws.contains(c) && c.generation == Some(generation) {
        assert(e.contains(c));
        let i = e.index_of(c);
        assert(channel_ends(e, message)[i] == told[a.len() + d.len() + i]);
    }
}

/// What belongs to a connection that is lost is forgotten, unless it can be
/// resumed; what belongs to others stays, and so do requests that are sent again.
pub proof fn losses_are_forgotten(
    s: StateModel,
    generation: u64,
    w: SlotModel<Waiter>,
    b: SlotModel<ResponseSink>,
    c: SlotModel<Waiter>,
)
    requires
        s.active_client == Some(generation),
    ensures
        ({
            let after = s.deactivated(generation);
            &&& after.active_client is None
            &&& after.negotiated is None
            &&& after.pending_http.contains(w) == (s.pending_http.contains(w) && !(w.generation
                == Some(generation) && w.session is None))
            &&& after.response_streams.contains(b) == (s.response_streams.contains(b)
                && !(b.generation == Some(generation) && b.session is None))
            &&& after.pending_ws.contains(c) == (s.pending_ws.contains(c) && c.generation != Some(
                generation,
            ))
            &&& after.pending_requests == s.pending_requests
            &&& after.terminated == s.terminated
        }),
{
    let pick = PickModel::BoundTo(generation);
    let lost = |e: SlotModel<Waiter>| !picked::<Waiter>(pick)(e);
    filtered_items(s.pending_http, lost);
    let gone = |e: SlotModel<ResponseSink>| !picked::<ResponseSink>(pick)(e);
    filtered_items(s.response_streams, gone);
    let closed = |e: SlotModel<Waiter>| !picked::<Waiter>(PickModel::Generation(generation))(e);
    filtered_items(s.pending_ws, closed);
}

/// A connection that is not the active one is lost without a trace.
pub proof fn other_losses_change_nothing(s: StateModel, generation: u64, message: Seq<char>)
    requires
        s.active_client != Some(generation),
    ensures
        s.deactivated(generation) == s,
        s.deactivation_notices(generation, message).len() == 0,
{
}

/// An upload that can be resumed waits for that after its connection is lost.
pub proof fn uploads_wait_for_resumption(
    s: Seq<SlotModel<CreditsModel>>,
    generation: u64,
    i: int,
)
    requires
        0 <= i < credits_lost(s, generation).len(),
    ensures
        ({
            let e = credits_lost(s, generation)[i];
            e.generation == Some(generation) ==> e.session is Some && !e.data.connected
                && e.data.resuming
        }),
{
    let kept = others(s, picked(PickModel::BoundTo(generation)));
    let lost = |e: SlotModel<CreditsModel>|
        !picked::<CreditsModel>(PickModel::BoundTo(generation))(e);
    filtered_items(s, lost);
    assert(kept.contains(kept[i]));
    assert(lost(kept[i]));
}

// ───────────────────────── resumption ─────────────────────────

/// What belongs to a session goes over to the connection that resumes it, in its
/// place; the rest stays with its own.
pub proof fn sessions_go_over(
    s: StateModel,
    session: Seq<char>,
    generation: u64,
    i: int,
    j: int,
    k: int,
)
    ensures
        ({
            let after = s.session_rebound(session, generation);
            &&& after.pending_http.len() == s.pending_http.len()
            &&& after.response_streams.len() == s.response_streams.len()
            &&& after.stream_credits.len() == s.stream_credits.len()
            &&& 0 <= i < s.pending_http.len() ==> after.pending_http[i].id == s.pending_http[i].id
                && after.pending_http[i].generation == (if s.pending_http[i].session == Some(
                session,
            ) {
                Some(generation)
            } else {
                s.pending_http[i].generation
            })
            &&& 0 <= j < s.response_streams.len() ==> after.response_streams[j].data
                == s.response_streams[j].data && after.response_streams[j].generation == (
            if s.response_streams[j].session == Some(session) {
                Some(generation)
            } else {
                s.response_streams[j].generation
            })
            &&& 0 <= k < s.stream_credits.len() && s.stream_credits[k].session == Some(session)
                ==> after.stream_credits[k].generation == Some(generation)
                && after.stream_credits[k].data.connected
                && after.stream_credits[k].data.resuming
                && after.stream_credits[k].data.available == 0
                && after.stream_credits[k].data.unacked == s.stream_credits[k].data.unacked
                && after.stream_credits[k].data.ack_offset == s.stream_credits[k].data.ack_offset
            &&& 0 <= k < s.stream_credits.len() && s.stream_credits[k].session != Some(session)
                ==> after.stream_credits[k] == s.stream_credits[k]
        }),
{
}

/// For each body that is being received in a session, the other end is told how
/// far it came and how many frames it may send.
pub proof fn resumed_bodies_are_told(
    s: Seq<SlotModel<ResponseSink>>,
    session: Seq<char>,
    e: SlotModel<ResponseSink>,
)
    requires
        s.contains(e),
        e.session == Some(session),
    ensures
        resumed_windows(s, session).contains(
            FrameModel::Window {
                id: e.id,
                credits: if e.data.window >= e.data.queued {
                    (e.data.window - e.data.queued) as usize
                } else {
                    0
                },
                ack_offset: Some(e.data.received as u64),
                complete: false,
            },
        ),
{
    filtered_items(s, picked(PickModel::Session(session)));
    let mine = s.filter(picked(PickModel::Session(session)));
    assert(mine.contains(e));
    let i = mine.index_of(e);
    assert(resumed_windows(s, session)[i] == (FrameModel::Window {
        id: e.id,
        credits: room_left(e.data),
        ack_offset: Some(e.data.received as u64),
        complete: false,
    }));
}

/// A session that is given up takes all with it that belongs to it, and tells
/// those who wait.
pub proof fn sessions_are_given_up(
    s: StateModel,
    session: Seq<char>,
    message: Seq<char>,
    w: SlotModel<Waiter>,
    r: SlotModel<CachedModel>,
)
    ensures
        ({
            let after = s.session_failed(session);
            &&& after.pending_http.contains(w) == (s.pending_http.contains(w) && w.session != Some(
                session,
            ))
            &&& after.pending_requests.contains(r) == (s.pending_requests.contains(r) && r.session
                != Some(session))
            &&& s.pending_http.contains(w) && w.session == Some(session) ==> s.session_notices(
                session,
                message,
            ).contains(ActionModel::Answer { id: w.id, answer: AnswerModel::Failed { message } })
        }),
{
    let pick = PickModel::Session(session);
    let lost = |e: SlotModel<Waiter>| !picked::<Waiter>(pick)(e);
    filtered_items(s.pending_http, lost);
    let gone = |e: SlotModel<CachedModel>| !picked::<CachedModel>(pick)(e);
    filtered_items(s.pending_requests, gone);
    filtered_items(s.pending_http, picked(pick));
    let mine = s.pending_http.filter(picked(pick));
    if s.pending_http.contains(w) && w.session == Some(session) {
        assert(mine.contains(w));
        let i = mine.index_of(w);
        let told = s.session_notices(session, message);
        assert(told[i] == failures(mine, message)[i]);
        assert(told[i] == (ActionModel::Answer {
            id: w.id,
            answer: AnswerModel::Failed { message },
        }));
    }
}

/// Requests that were kept are sent again on a new connection, in their order,
/// those of the session that it resumes; requests of another are not.
pub proof fn kept_requests_are_sent_again(
    s: StateModel,
    generation: u64,
    session: Option<Seq<char>>,
    r: SlotModel<CachedModel>,
)
    requires
        s.active_client == Some(generation),
        s.pending_requests.contains(r),
        r.session == session,
    ensures
        s.resent(generation, session).contains(ActionModel::Send { frame: r.data.frame }),
        s.resent(generation, session).len() <= s.pending_requests.len(),
{
    filtered_items(s.pending_requests, cached_for(session));
    let mine = s.pending_requests.filter(cached_for(session));
    assert(mine.contains(r));
    let i = mine.index_of(r);
    assert(s.resent(generation, session)[i] == (ActionModel::Send { frame: r.data.frame }));
    s.pending_requests.lemma_filter_len(cached_for(session));
}

/// Requests that are too old are dropped with their exchanges, and no others.
pub proof fn old_requests_are_dropped(s: StateModel, now: u64, r: SlotModel<CachedModel>)
    ensures
        s.cleaned(now).pending_requests.contains(r) == (s.pending_requests.contains(r) && !(now
            > r.data.created_at && now - r.data.created_at > r.data.ttl)),
        s.pending_requests.contains(r) && now > r.data.created_at && now - r.data.created_at
            > r.data.ttl ==> s.cleaning_notices(now).contains(ActionModel::Abandon { id: r.id }),
{
    let kept = |e: SlotModel<CachedModel>| !expired(now)(e);
    filtered_items(s.pending_requests, kept);
    filtered_items(s.pending_requests, expired(now));
    let old = s.pending_requests.filter(expired(now));
    if s.pending_requests.contains(r) && now > r.data.created_at && now - r.data.created_at
        > r.data.ttl {
        assert(old.contains(r));
        let i = old.index_of(r);
        assert(s.cleaning_notices(now)[i] == (ActionModel::Abandon { id: r.id }));
    }
}

// ───────────────────────── credits ─────────────────────────

/// Credits add up to the window, and no further.
pub proof fn credits_add_up(c: CreditsModel, credits: usize, ack: Option<u64>)
    requires
        c.available <= c.window,
    ensures
        c.available + credits <= c.window ==> c.granted(credits, ack).available == c.available
            + credits,
        c.available + credits > c.window ==> c.granted(credits, ack).available == c.window,
        c.granted(credits, ack).window == c.window,
        c.granted(credits, ack).connected == c.connected,
        c.granted(credits, ack).resuming == c.resuming,
        c.granted(credits, ack).ended == c.ended,
{
}

/// Pieces that were received in full need not be sent again; the others stay, in
/// their order.
pub proof fn received_pieces_are_dropped(c: CreditsModel, credits: usize, ack: u64, p: PieceModel)
    requires
        p.0 + p.1.len() <= u64::MAX,
    ensures
        ack > c.ack_offset ==> c.granted(credits, Some(ack)).unacked.contains(p)
            == (c.unacked.contains(p) && p.0 + p.1.len() > ack),
        some_of(c.granted(credits, Some(ack)).unacked, c.unacked),
        ack <= c.ack_offset ==> c.granted(credits, Some(ack)).unacked == c.unacked && c.granted(
            credits,
            Some(ack),
        ).ack_offset == c.ack_offset,
        c.granted(credits, None).unacked == c.unacked,
{
    filtered_items(c.unacked, |q: PieceModel| piece_end(q) > ack);
    all_of_itself(c.unacked);
}

proof fn all_of_itself(s: Seq<PieceModel>)
    ensures
        some_of(s, s),
    decreases s.len(),
{
    if s.len() > 0 {
        all_of_itself(s.drop_last());
    }
}

/// A piece may be sent where the stream is connected, in order, and has a
/// credit. A stream that cannot be resumed is over once its connection is lost;
/// else the sender waits.
pub proof fn pieces_need_credit(c: CreditsModel, resumable: bool)
    ensures
        (credit(c, resumable, false) == Credit::Granted) == (c.connected && !c.resuming
            && c.available > 0),
        (credit(c, resumable, true) == Credit::Granted) == (c.connected && c.available > 0),
        !c.connected && !c.resuming && !resumable ==> credit(c, resumable, false)
            == Credit::Refused,
        !c.connected && resumable ==> credit(c, resumable, false) == Credit::Wait,
        c.connected && c.available == 0 ==> credit(c, resumable, false) == Credit::Wait,
        (readiness(c, resumable) == Credit::Granted) == (c.connected && !c.resuming),
        (connection(c, resumable) == Credit::Granted) == c.connected,
        !c.connected && !resumable ==> connection(c, resumable) == Credit::Refused && readiness(
            c,
            resumable,
        ) == Credit::Refused,
        !c.connected && resumable ==> connection(c, resumable) == Credit::Wait && readiness(
            c,
            resumable,
        ) == Credit::Wait,
{
}

// ───────────────────────── envelopes ─────────────────────────

/// An envelope has its parts at fixed places: the letters `YD`, the version 1,
/// its kind, the length and the bytes of its identifier, its flags, the length of
/// what follows, and that.
pub proof fn envelopes_have_their_parts(e: EnvelopeModel, id: Seq<u8>, max: nat)
    requires
        id.len() == 16,
        id_bytes(e.id) == Some(id),
        e.payload.len() <= max,
        e.payload.len() + 8 <= usize::MAX,
    ensures
        ({
            let raw = encoded(e, max);
            let r = raw->Ok_0;
            &&& raw is Ok
            &&& r[0] == 0x59 && r[1] == 0x44 && r[2] == 1 && r[4] == 16
            &&& e.kind == BinaryKind::HttpRequest ==> r[3] == 1
            &&& e.kind == BinaryKind::HttpResponse ==> r[3] == 2
            &&& e.kind == BinaryKind::WebSocket ==> r[3] == 3
            &&& r.subrange(5, 21) == id
            &&& r[21] == (if e.end_of_body {
                1int
            } else {
                0int
            }) + (if e.offset is Some {
                2int
            } else {
                0int
            })
            &&& e.offset is None ==> r.len() == 26 + e.payload.len() && r.skip(26) == e.payload
            &&& e.offset is Some ==> r.len() == 34 + e.payload.len() && r.skip(34) == e.payload
        }),
{
    let r = encoded(e, max)->Ok_0;
    let n = wire_payload(e).len();
    crate::bytes::be_bytes_len(n, 4);
    assert(header_bytes(e, id).len() == 26);
    assert(r.subrange(5, 21) =~= id);
    assert(r[21] == flag_byte(e.end_of_body, e.offset));
    if e.offset is Some {
        crate::bytes::be_bytes_len(e.offset->0 as nat, 8);
        assert(r.skip(34) =~= e.payload);
    } else {
        assert(r.skip(26) =~= e.payload);
    }
}

/// A payload that is too long, and an identifier that is none, cannot be sent.
pub proof fn wrong_envelopes_are_refused(e: EnvelopeModel, max: nat)
    ensures
        e.payload.len() > max ==> encoded(e, max) is Err,
        id_bytes(e.id) is None ==> encoded(e, max) is Err,
{
}

/// Bytes that are no envelope are refused.
pub proof fn other_bytes_are_refused(raw: Seq<u8>, max: nat)
    ensures
        raw.len() < 26 ==> decoded(raw, max) is Err,
        raw.len() >= 26 && (raw[0] != 0x59 || raw[1] != 0x44 || raw[2] != 1 || raw[3] == 0 || raw[3]
            > 3 || raw[4] != 16 || raw[21] > 3) ==> decoded(raw, max) is Err,
        raw.len() >= 26 && raw.len() - 26 != crate::bytes::be_value(raw.subrange(22, 26))
            ==> decoded(raw, max) is Err,
{
}

// ───────────────────────── closed streams ─────────────────────────

/// A stream counts as closed for 30 seconds after it was.
pub proof fn closed_streams_are_known(
    s: StateModel,
    generation: u64,
    id: Seq<char>,
    now: u64,
    later: u64,
)
    requires
        now <= later,
        later - now <= 30_000_000_000,
    ensures
        is_closed(s.remembering(generation, id, now).terminated, generation, id, later),
{
    let t = s.remembering(generation, id, now).terminated;
    assert(t.last().id == id);
    assert(t[t.len() - 1].generation == generation);
}

/// A stream that was never closed does not count as closed.
pub proof fn other_streams_are_not_closed(
    s: StateModel,
    generation: u64,
    id: Seq<char>,
    other: Seq<char>,
    now: u64,
    later: u64,
)
    requires
        other != id,
        !is_closed(s.terminated, generation, other, later),
    ensures
        !is_closed(s.remembering(generation, id, now).terminated, generation, other, later),
{
    let t = s.terminated;
    let recent = crate::tunnel::state::recent(t, now);
    let room = if recent.len() >= 1024 {
        recent.remove(crate::tunnel::state::oldest(recent, recent.len()))
    } else {
        recent
    };
    filtered_items(
        t,
        |e: crate::tunnel::state::TombModel|
            elapsed(e.at, now) <= crate::tunnel::state::TERMINATED_STREAM_TTL,
    );
    let kept = crate::tunnel::state::except(room, generation, id);
    filtered_items(
        room,
        |e: crate::tunnel::state::TombModel| !(e.generation == generation && e.id == id),
    );
    let all = s.remembering(generation, id, now).terminated;
    if is_closed(all, generation, other, later) {
        let i = choose|i: int|
            0 <= i < all.len() && (#[trigger] all[i]).generation == generation && all[i].id == other
                && elapsed(all[i].at, later) <= crate::tunnel::state::TERMINATED_STREAM_TTL;
        assert(all[i] == kept[i]);
        assert(kept.contains(all[i]));
        assert(room.contains(all[i]));
        let j = room.index_of(all[i]);
        if recent.len() >= 1024 {
            let o = crate::tunnel::state::oldest(recent, recent.len());
            oldest_is_there(recent, recent.len());
            assert(recent.contains(room[j])) by {
                if j < o {
                    assert(recent[j] == room[j]);
                } else {
                    assert(recent[j + 1] == room[j]);
                }
            }
        }
        assert(recent.contains(all[i]));
        assert(t.contains(all[i]));
        let k = t.index_of(all[i]);
        assert(t[k].id == other);
    }
}

proof fn oldest_is_there(t: Seq<crate::tunnel::state::TombModel>, n: nat)
    requires
        n >= 1,
    ensures
        0 <= crate::tunnel::state::oldest(t, n) < n,
    decreases n,
{
    if n > 1 {
        oldest_is_there(t, (n - 1) as nat);
    }
}

/// No more than 1024 streams are remembered as closed.
pub proof fn few_closed_streams_are_remembered(
    s: StateModel,
    generation: u64,
    id: Seq<char>,
    now: u64,
)
    requires
        s.terminated.len() <= 1024,
    ensures
        s.remembering(generation, id, now).terminated.len() <= 1024,
{
    let t = s.terminated;
    let recent = crate::tunnel::state::recent(t, now);
    t.lemma_filter_len(
        |e: crate::tunnel::state::TombModel|
            elapsed(e.at, now) <= crate::tunnel::state::TERMINATED_STREAM_TTL,
    );
    let room = if recent.len() >= 1024 {
        recent.remove(crate::tunnel::state::oldest(recent, recent.len()))
    } else {
        recent
    };
    if recent.len() >= 1024 {
        oldest_is_there(recent, recent.len());
    }
    room.lemma_filter_len(
        |e: crate::tunnel::state::TombModel| !(e.generation == generation && e.id == id),
    );
}

/// An exchange whose request is too old is forgotten with it.
pub proof fn old_exchanges_are_dropped(s: StateModel, now: u64, r: SlotModel<CachedModel>)
    requires
        s.pending_requests.contains(r),
        now > r.data.created_at,
        now - r.data.created_at > r.data.ttl,
    ensures
        entry(s.cleaned(now).pending_http, r.id) is None,
{
    filtered_items(s.pending_requests, expired(now));
    let old = s.pending_requests.filter(expired(now));
    assert(old.contains(r));
    all_are_dropped(s.pending_http, old, old.index_of(r));
}

proof fn all_are_dropped(
    s: Seq<SlotModel<Waiter>>,
    names: Seq<SlotModel<CachedModel>>,
    i: int,
)
    requires
        0 <= i < names.len(),
    ensures
        entry(crate::tunnel::connection::without_all(s, names), names[i].id) is None,
    decreases names.len(),
{
    let shorter = names.drop_last();
    let before = crate::tunnel::connection::without_all(s, shorter);
    let last = names.last().id;
    if names[i].id == last {
        crate::tunnel::registry::without_lacks(before, last);
    } else {
        assert(shorter[i] == names[i]);
        all_are_dropped(s, shorter, i);
        crate::tunnel::registry::other_entries_stay(
            before,
            SlotModel { id: last, generation: None, session: None, data: Waiter {  } },
            names[i].id,
        );
    }
}

/// An identifier is written in 36 characters: 32 hexadecimal digits, with hyphens
/// after eight, twelve, sixteen and twenty of them.
pub proof fn identifiers_are_written(b: Seq<u8>)
    requires
        b.len() == 16,
    ensures
        id_text(b).len() == 36,
        id_text(b)[8] == '-' && id_text(b)[13] == '-' && id_text(b)[18] == '-' && id_text(b)[23]
            == '-',
        id_text(b).subrange(0, 8) == crate::bytes::hex_text(b).subrange(0, 8),
        id_text(b).subrange(9, 13) == crate::bytes::hex_text(b).subrange(8, 12),
        id_text(b).subrange(14, 18) == crate::bytes::hex_text(b).subrange(12, 16),
        id_text(b).subrange(19, 23) == crate::bytes::hex_text(b).subrange(16, 20),
        id_text(b).subrange(24, 36) == crate::bytes::hex_text(b).subrange(20, 32),
{
    let t = id_text(b);
    let h = crate::bytes::hex_text(b);
    assert(t.subrange(0, 8) =~= h.subrange(0, 8));
    assert(t.subrange(9, 13) =~= h.subrange(8, 12));
    assert(t.subrange(14, 18) =~= h.subrange(12, 16));
    assert(t.subrange(19, 23) =~= h.subrange(16, 20));
    assert(t.subrange(24, 36) =~= h.subrange(20, 32));
}

/// The bytes of a stream's identifier begin with the letters `YRRT` and end with
/// its number.
pub proof fn streams_are_numbered(n: u64)
    ensures
        crate::tunnel::envelope::sequence_bytes(n).len() == 16,
        crate::tunnel::envelope::sequence_bytes(n)[0] == 0x59,
        crate::tunnel::envelope::sequence_bytes(n)[1] == 0x52,
        crate::tunnel::envelope::sequence_bytes(n)[2] == 0x52,
        crate::tunnel::envelope::sequence_bytes(n)[3] == 0x54,
        crate::tunnel::envelope::sequence_bytes(n)[6] == 0x40,
        crate::tunnel::envelope::sequence_bytes(n)[8] >= 128,
        crate::tunnel::envelope::sequence_bytes(n)[8] < 192,
        crate::tunnel::envelope::sequence_bytes(n).skip(9) == crate::bytes::be_bytes(
            n as nat,
            8,
        ).skip(1),
{
    let b = crate::bytes::be_bytes(n as nat, 8);
    crate::bytes::be_bytes_len(n as nat, 8);
    assert(crate::tunnel::envelope::sequence_bytes(n).skip(9) =~= b.skip(1));
}

/// A connection that stays silent is legacy from then on, and gets the requests
/// again that wait without a session.
pub proof fn silent_connections_get_requests(
    s: StateModel,
    generation: u64,
    now: u64,
    r: SlotModel<CachedModel>,
)
    requires
        s.active_client == Some(generation),
        s.negotiated is None,
        s.pending_requests.contains(r),
        r.session is None,
        now <= r.data.created_at || now - r.data.created_at <= r.data.ttl,
    ensures
        s.on_silence(generation, now).0.legacy_generation == generation,
        s.on_silence(generation, now).1.contains(ActionModel::Send { frame: r.data.frame }),
{
    let f = s.fallen_back(generation);
    let c = f.cleaned(now);
    old_requests_are_dropped(f, now, r);
    assert(c.pending_requests.contains(r));
    kept_requests_are_sent_again(c, generation, None, r);
    let again = c.resent(generation, None);
    let first = f.cleaning_notices(now);
    let i = again.index_of(ActionModel::Send { frame: r.data.frame });
    assert((first + again)[first.len() + i] == again[i]);
}

/// Frames go only to the connection that is active.
pub proof fn frames_go_to_the_active_connection(
    s: StateModel,
    generation: u64,
    frame: FrameModel,
)
    ensures
        s.active_client == Some(generation) ==> s.sends(generation, frame) == seq![
            ActionModel::Send { frame },
        ] && s.sends_eventually(generation, frame) == seq![ActionModel::SendEventually { frame }],
        s.active_client != Some(generation) ==> s.sends(generation, frame).len() == 0
            && s.sends_eventually(generation, frame).len() == 0,
{
}

/// What was agreed holds for the connection that it was agreed on only.
pub proof fn agreements_belong_to_their_connection(s: StateModel)
    ensures
        s.negotiated is Some && s.negotiated->0.generation == s.active_generation ==> s.protocol()
            == Some((s.active_generation, s.negotiated->0.protocol)) && s.session()
            == s.negotiated->0.session_id,
        s.negotiated is None || s.negotiated->0.generation != s.active_generation ==> s.protocol()
            is None && s.session() is None,
{
}

/// Why an envelope cannot be sent or read is told.
pub proof fn wrong_envelopes_are_told(e: EnvelopeModel, raw: Seq<u8>, max: nat)
    ensures
        e.payload.len() > max ==> encoded(e, max) == Err::<Seq<u8>, Seq<char>>(
            "binary payload exceeds negotiated chunk limit: "@ + decimal(e.payload.len()) + " > "@
                + decimal(max),
        ),
        e.payload.len() <= max && id_bytes(e.id) is None ==> encoded(e, max) == Err::<
            Seq<u8>,
            Seq<char>,
        >("binary envelope id must be a UUID"@),
        raw.len() < 26 ==> decoded(raw, max) == Err::<EnvelopeModel, Seq<char>>(
            "binary envelope is shorter than its header"@,
        ),
        raw.len() >= 26 && (raw[0] != 0x59 || raw[1] != 0x44) ==> decoded(raw, max) == Err::<
            EnvelopeModel,
            Seq<char>,
        >("invalid binary envelope magic"@),
        raw.len() >= 26 && raw[0] == 0x59 && raw[1] == 0x44 && raw[2] != 1 ==> decoded(raw, max)
            == Err::<EnvelopeModel, Seq<char>>(
            "unsupported binary envelope version: "@ + decimal(raw[2] as nat),
        ),
{
}

} // verus!
