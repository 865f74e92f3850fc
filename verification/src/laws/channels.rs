//! Laws of WebSocket channels through the tunnel, and of what a connection
//! begins with.
use super::lists::{equal_filters, filtered_items};
use crate::bytes::{first_occurrence, lossy};
use crate::http::request::{lists_token, text_lines};
use crate::http::server::blank_line;
use crate::text::{lower, split_pair};
use crate::tunnel::channel::{
    bytes_or_none, channel_capacity, ends_with, handshake, message_frames, message_parts, put,
    DownstreamStep,
};
use crate::tunnel::envelope::{BinaryKind, EnvelopeModel};
use crate::tunnel::exchange::base64_bytes;
use crate::tunnel::frame::{FrameModel, Pairs};
use crate::tunnel::registry::{entry, with_has, without_lacks, SlotModel};
use crate::tunnel::serve::{asks_upgrade, head_asks_upgrade, peeked, Peek};
use crate::tunnel::state::{ActionModel, ModeModel, Permit, StateModel, Waiter};
use vstd::prelude::*;

verus! {

/// A channel needs a connection, and a place of its own. With an agreement it
/// takes one of the agreed places and has the agreed limits.
pub proof fn channels_are_routed(
    s: StateModel,
    generation: u64,
    session_id: Option<Seq<char>>,
)
    requires
        s.ws_permits < usize::MAX,
    ensures
        s.channel_route(ModeModel::Disconnected).1 is Err,
        s.channel_route(ModeModel::Disconnected).0.ws_permits == s.ws_permits + 1,
        ({
            let (after, r) = s.channel_route(ModeModel::Legacy { generation });
            let largest = if s.config.max_body_bytes < 5_242_880 {
                s.config.max_body_bytes
            } else {
                5_242_880
            };
            &&& after == s
            &&& r matches Ok(l) && l.generation == generation && l.permit == Permit::LocalWebSocket
                && l.max_message == largest && l.max_chunk == s.config.stream_chunk_bytes
        }),
        s.negotiated is Some && s.negotiated->0.generation == generation ==> {
            let n = s.negotiated->0;
            let mode = ModeModel::Streaming { generation, protocol: n.protocol, session_id };
            let (after, r) = s.channel_route(mode);
            &&& after.ws_permits == s.ws_permits + 1
            &&& n.websocket == 0 ==> r is Err
            &&& n.websocket > 0 ==> after.negotiated is Some && after.negotiated->0.websocket
                == n.websocket - 1 && after.negotiated->0.http == n.http && (r matches Ok(l)
                && l.generation == generation && l.permit == (Permit::Negotiated {
                generation,
                websocket: true,
            }) && l.max_message == n.protocol.max_ws_message_size && l.max_chunk
                == n.protocol.max_stream_chunk)
        },
{
}

/// A message, a close or an error of the other end goes to the channel that it
/// names, as it came.
pub proof fn channels_get_their_frames(
    s: StateModel,
    id: Seq<char>,
    generation: u64,
    data: Seq<char>,
    binary: bool,
    code: u16,
    reason: Seq<char>,
    now: u64,
)
    requires
        s.active_generation == generation,
    ensures
        ({
            let open = s.channel_opened(id, generation);
            let message = FrameModel::WsMessage { id, data, binary };
            let close = FrameModel::WsClose { id, code, reason };
            let connected = FrameModel::WsConnected { id };
            &&& open.on_frame(message, generation, now).1 == seq![
                ActionModel::ChannelFrame { id, frame: message },
            ]
            &&& open.on_frame(close, generation, now).1 == seq![
                ActionModel::ChannelFrame { id, frame: close },
            ]
            &&& open.on_frame(connected, generation, now).1 == seq![
                ActionModel::ChannelFrame { id, frame: connected },
            ]
        }),
{
    with_has(
        s.pending_ws,
        SlotModel { id, generation: Some(generation), session: None, data: Waiter {  } },
    );
}

/// A binary piece goes to the channel that it names, as it came.
pub proof fn channels_get_their_pieces(
    s: StateModel,
    id: Seq<char>,
    generation: u64,
    payload: Seq<u8>,
    end_of_body: bool,
    offset: Option<u64>,
    now: u64,
)
    requires
        s.active_client == Some(generation),
    ensures
        s.channel_opened(id, generation).on_envelope(
            EnvelopeModel { id, kind: BinaryKind::WebSocket, payload, end_of_body, offset },
            generation,
            now,
        ) matches Ok(step) && step.1 == seq![
            ActionModel::ChannelData { id, payload, end_of_body },
        ],
{
    with_has(
        s.pending_ws,
        SlotModel { id, generation: Some(generation), session: None, data: Waiter {  } },
    );
}

/// A channel that is closed gets nothing more, and data that still comes for it
/// is passed over.
pub proof fn closed_channels_get_nothing(
    s: StateModel,
    id: Seq<char>,
    generation: u64,
    data: Seq<char>,
    payload: Seq<u8>,
    now: u64,
)
    requires
        s.active_generation == generation,
        s.active_client == Some(generation),
        entry(s.pending_ws, id) is Some,
        entry(s.pending_ws, id)->0.generation == Some(generation),
    ensures
        ({
            let after = s.channel_closed(id, generation, now);
            &&& entry(after.pending_ws, id) is None
            &&& after.on_frame(
                FrameModel::WsMessage { id, data, binary: false },
                generation,
                now,
            ).1.len() == 0
            &&& after.on_envelope(
                EnvelopeModel {
                    id,
                    kind: BinaryKind::WebSocket,
                    payload,
                    end_of_body: true,
                    offset: None,
                },
                generation,
                now,
            ) matches Ok(step) && step.1.len() == 0
        }),
{
    without_lacks(s.pending_ws, id);
    super::tunnels::closed_streams_are_known(
        StateModel { pending_ws: crate::tunnel::registry::without(s.pending_ws, id), ..s },
        generation,
        id,
        now,
        now,
    );
}

/// A channel whose queue is full is closed, and the other end is told, but not of
/// its own error.
pub proof fn full_channels_are_closed(s: StateModel, id: Seq<char>, generation: u64, now: u64)
    requires
        s.active_client == Some(generation),
    ensures
        entry(s.on_channel_full(id, generation, true, now).0.pending_ws, id) is None,
        s.on_channel_full(id, generation, true, now).1 == seq![
            ActionModel::Send {
                frame: FrameModel::Error { id, message: "WebSocket channel queue limit reached"@ },
            },
        ],
        s.on_channel_full(id, generation, false, now).1.len() == 0,
{
    without_lacks(s.pending_ws, id);
}

/// A reader downstream that goes away ends its body, and the other end is told.
pub proof fn readers_may_go_away(s: StateModel, id: Seq<char>, generation: u64, now: u64)
    requires
        s.active_client == Some(generation),
    ensures
        entry(s.on_reader_gone(id, generation, now).0.response_streams, id) is None,
        entry(s.response_streams, id) is Some ==> s.on_reader_gone(id, generation, now).1 == seq![
            ActionModel::BodyEnd { id },
            ActionModel::SendEventually {
                frame: FrameModel::Error { id, message: "downstream response closed"@ },
            },
        ],
        entry(s.response_streams, id) is None ==> s.on_reader_gone(id, generation, now).1.len()
            == 0,
{
    without_lacks(s.response_streams, id);
    let told = s.on_reader_gone(id, generation, now).1;
    if entry(s.response_streams, id) is Some {
        assert(told =~= seq![
            ActionModel::BodyEnd { id },
            ActionModel::SendEventually {
                frame: FrameModel::Error { id, message: "downstream response closed"@ },
            },
        ]);
    }
}

/// A channel has room for a whole message in pieces and two frames more, for a
/// window of frames, and for 16 at least.
pub proof fn channels_have_room(window: usize, max_message: usize, max_chunk: usize)
    requires
        max_chunk > 0,
    ensures
        channel_capacity(window, max_message, max_chunk) >= 16,
        channel_capacity(window, max_message, max_chunk) >= window,
        channel_capacity(window, max_message, max_chunk) >= message_frames(max_message, max_chunk)
            + 2,
        message_frames(max_message, max_chunk) * max_chunk >= max_message,
        (message_frames(max_message, max_chunk) - 1) * max_chunk < max_message || max_message == 0,
{
    let n = message_frames(max_message, max_chunk);
    let a = max_message as int;
    let b = max_chunk as int;
    assert(n * b <= a + b - 1 && a + b - 1 < (n + 1) * b) by (nonlinear_arith)
        requires
            n == (a + b - 1) / b,
            b > 0,
            a >= 0,
    ;
    assert((n + 1) * b == n * b + b) by (nonlinear_arith);
    assert((n - 1) * b == n * b - b) by (nonlinear_arith);
}

/// An empty message is one empty piece.
pub proof fn empty_messages_are_sent(max_chunk: nat)
    ensures
        message_parts(Seq::empty(), max_chunk) == seq![Seq::<u8>::empty()],
{
}

/// A header that is set replaces those of its name, and leaves the others.
pub proof fn headers_are_set(
    headers: Pairs,
    name: Seq<char>,
    value: Seq<char>,
    other: (Seq<char>, Seq<char>),
)
    ensures
        put(headers, name, value).last() == (name, value),
        other.0 != name ==> put(headers, name, value).contains(other) == headers.contains(other),
        other.0 == name && put(headers, name, value).contains(other) ==> other.1 == value,
{
    let pred = |h: (Seq<char>, Seq<char>)| h.0 != name;
    filtered_items(headers, pred);
    let kept = headers.filter(pred);
    let all = put(headers, name, value);
    assert forall|q: spec_fn((Seq<char>, Seq<char>)) -> bool|
        (forall|x: (Seq<char>, Seq<char>)| #[trigger] q(x) == pred(x)) implies
        #[trigger] headers.filter(q) == kept by {
        equal_filters(headers, q, pred);
    }
    assert(all == kept.push((name, value)));
    assert(kept.contains(other) == (headers.contains(other) && pred(other)));
    if kept.contains(other) {
        let i = kept.index_of(other);
        assert(all[i] == other);
    }
    if all.contains(other) {
        let i = all.index_of(other);
        if i < kept.len() {
            assert(kept[i] == other);
        }
    }
}

/// A handshake passes on every header but the host, each under its name, and
/// the last where one comes twice.
pub proof fn handshakes_pass_headers(headers: Pairs, n: nat)
    requires
        n < headers.len(),
    ensures
        lower(headers[n as int].0) == "host"@ ==> handshake(headers, n + 1) == handshake(
            headers,
            n,
        ),
        lower(headers[n as int].0) != "host"@ ==> handshake(headers, n + 1).last()
            == headers[n as int] && handshake(headers, n + 1) == put(
            handshake(headers, n),
            headers[n as int].0,
            headers[n as int].1,
        ),
        handshake(headers, 0).len() == 0,
{
}

/// Binary data in a text frame is what its digits hold; a text that holds none
/// is no data.
pub proof fn binary_texts_are_read(s: Seq<char>, b: Seq<u8>)
    ensures
        base64_bytes(s) == Some(b) ==> bytes_or_none(s) == b,
        base64_bytes(s) is None ==> bytes_or_none(s).len() == 0,
{
}

// ───────────────────────── beginnings ─────────────────────────

/// A head asks for a WebSocket where one of its headers `Upgrade` lists that.
pub proof fn heads_ask_for_websockets(head: Seq<char>, i: int, name: Seq<char>, value: Seq<char>)
    requires
        1 <= i < text_lines(head).len(),
        split_pair(text_lines(head)[i], ':') == Some((name, value)),
        lower(name) == "upgrade"@,
        lists_token(value, "websocket"@),
    ensures
        head_asks_upgrade(head),
{
    crate::tunnel::exchange::lower_literals();
    assert(asks_upgrade(text_lines(head)[i]));
}

/// A head without such a header does not.
pub proof fn other_heads_ask_for_none(head: Seq<char>)
    requires
        forall|i: int|
            1 <= i < text_lines(head).len() ==> match split_pair(#[trigger] text_lines(head)[i], ':') {
                Some((name, value)) => lower(name) != "upgrade"@ || !lists_token(
                    value,
                    "websocket"@,
                ),
                None => true,
            },
    ensures
        !head_asks_upgrade(head),
{
    crate::tunnel::exchange::lower_literals();
    if head_asks_upgrade(head) {
        let i = choose|i: int|
            1 <= i < text_lines(head).len() && asks_upgrade(#[trigger] text_lines(head)[i]);
        assert(split_pair(text_lines(head)[i], ':') is Some);
    }
}

/// A connection is looked at until its head ends; then its head decides. More
/// room is made up to 64 KiB, and a longer head is refused.
pub proof fn connections_are_looked_at(seen: Seq<u8>, room: usize, r: Peek, n: int)
    requires
        peeked(seen, room, r),
    ensures
        seen.len() == 0 ==> r == Peek::Closed,
        first_occurrence(seen, blank_line(), n) && seen.len() > 0 ==> r == Peek::Request(
            head_asks_upgrade(lossy(seen.take(n + 4))),
        ),
        seen.len() > 0 && (forall|m: int| !#[trigger] first_occurrence(seen, blank_line(), m)) ==> {
            &&& seen.len() < room ==> r == Peek::Wait
            &&& seen.len() >= room && room >= 65536 ==> r == Peek::TooLarge
            &&& seen.len() >= room && room < 32768 ==> r == Peek::Grow((room * 2) as usize)
            &&& seen.len() >= room && 32768 <= room < 65536 ==> r == Peek::Grow(65536)
        },
{
    if first_occurrence(seen, blank_line(), n) && seen.len() > 0 {
        let m = choose|m: int|
            #![trigger first_occurrence(seen, blank_line(), m)]
            first_occurrence(seen, blank_line(), m) && r == Peek::Request(
                head_asks_upgrade(lossy(seen.take(m + 4))),
            );
        assert(m == n) by {
            if m < n {
                assert(crate::bytes::occurs(seen, blank_line(), m));
            } else if n < m {
                assert(crate::bytes::occurs(seen, blank_line(), n));
            }
        }
    }
}

/// A head ends with two line ends.
pub proof fn heads_end_with_an_empty_line()
    ensures
        blank_line() == seq![13u8, 10, 13, 10],
{
}

/// The pieces that a connection takes are as long as agreed, and as long as is
/// set where nothing is agreed.
pub proof fn pieces_are_as_long_as_agreed(s: StateModel)
    ensures
        s.protocol() is Some ==> s.envelope_limit() == (s.protocol()->0).1.max_stream_chunk,
        s.protocol() is None ==> s.envelope_limit() == s.config.stream_chunk_bytes,
{
}

/// A channel that ends says what it ends with.
pub proof fn ends_are_said(step: DownstreamStep, frame: FrameModel)
    ensures
        ends_with(step, Some(frame)) ==> (step matches DownstreamStep::Stop { last: Some(f) } && f@
            == frame),
        ends_with(step, None) ==> (step matches DownstreamStep::Stop { last } && last is None),
{
}

} // verus!
