//! Laws of HTTP exchanges through the tunnel.
use super::lists::{filtered_items, some_of};
use crate::text::{decimal, lower, split_all, trimmed};
use crate::tunnel::dispatch::{bumped, lowered, status_or_bad_gateway};
use crate::tunnel::envelope::{BinaryKind, EnvelopeModel};
use crate::tunnel::exchange::{
    admission, base64_bytes, base64_text, body_failure, body_length, first_length, refusal,
    upgrades, whole_reply, ReplyModel, RouteModel, WaitedModel,
};
use crate::tunnel::frame::{header_limits, pair_bytes, FrameModel, Pairs};
use crate::tunnel::headers::{
    bodiless, length_header, request_keeps, response_keeps, stream_length, whole_length,
};
use crate::tunnel::registry::{entry, with_has, without_lacks};
use crate::tunnel::state::{is_closed, ActionModel, AnswerModel, ModeModel, Permit, StateModel};
use vstd::prelude::*;
use vstd::utf8::encode_utf8;

verus! {

// ───────────────────────── statuses ─────────────────────────

/// A status from 100 to 999 goes downstream as it came; any other becomes 502.
pub proof fn statuses_pass(status: u16)
    ensures
        100 <= status <= 999 ==> status_or_bad_gateway(status) == status,
        status < 100 || 999 < status ==> status_or_bad_gateway(status) == 502,
{
}

/// The whole response of an upstream goes downstream with its own status, where
/// that has three digits, and with its own body. There is no body after a `HEAD`
/// request, and none with a status below 200, 204 or 304.
pub proof fn whole_responses_pass(
    s: StateModel,
    id: Seq<char>,
    generation: u64,
    method: Seq<char>,
    limit: usize,
    status: u16,
    headers: Pairs,
    body: Seq<char>,
    now: u64,
)
    requires
        100 <= status <= 999,
        base64_bytes(body) is Some,
        base64_bytes(body)->0.len() <= limit,
    ensures
        ({
            let waited = WaitedModel::Answered {
                answer: AnswerModel::Legacy { status, headers, body },
            };
            let (after, actions, reply) = s.on_whole_waited(
                id,
                generation,
                method,
                limit,
                waited,
                now,
            );
            let bytes = base64_bytes(body)->0;
            let none = method == "HEAD"@ || status < 200 || status == 204 || status == 304;
            &&& actions.len() == 0
            &&& entry(after.pending_requests, id) is None
            &&& reply matches ReplyModel::Whole { status: sent, headers: out, body: b } && sent
                == status && (none ==> b.len() == 0) && (!none ==> b == bytes && out.len() > 0
                && out.last() == ("content-length"@, decimal(bytes.len())))
        }),
{
    without_lacks(s.pending_requests, id);
    assert(status_or_bad_gateway(status) == status);
    if !bodiless(method, status) {
        let out = headers.filter(response_keeps(headers)) + length_header(
            whole_length(headers, method, status, base64_bytes(body)->0.len()),
        );
        assert(out.last() == ("content-length"@, decimal(base64_bytes(body)->0.len())));
    }
}

/// A whole response with a status that has no three digits goes downstream as
/// 502.
pub proof fn odd_statuses_are_bad_gateways(
    method: Seq<char>,
    status: u16,
    headers: Pairs,
    body: Seq<u8>,
)
    requires
        status < 100 || 999 < status,
    ensures
        whole_reply(method, status, headers, body) matches ReplyModel::Whole { status: sent, .. }
            && sent == 502,
{
}

/// The beginning of a response hands its status, headers and length to the
/// exchange that waits for it, and the exchange is answered.
pub proof fn streamed_responses_begin(
    s: StateModel,
    id: Seq<char>,
    status: u16,
    headers: Pairs,
    content_length: Option<u64>,
    generation: u64,
    now: u64,
)
    requires
        s.active_generation == generation,
        s.negotiated is Some,
        s.negotiated->0.generation == generation,
        entry(s.pending_http, id) is Some,
        entry(s.pending_http, id)->0.generation is None || entry(s.pending_http, id)->0.generation
            == Some(generation),
        header_limits(headers),
        content_length is Some ==> content_length->0 <= s.negotiated->0.protocol.max_body_size,
    ensures
        ({
            let frame = FrameModel::HttpRespBegin { id, status, headers, content_length };
            let (after, actions) = s.on_frame(frame, generation, now);
            let sink = entry(after.response_streams, id);
            &&& actions.len() == 1
            &&& actions[0] matches ActionModel::Answer { id: to, answer } && to == id && (
            answer matches AnswerModel::Streaming {
                generation: g,
                status: sent,
                headers: h,
                content_length: n,
                window,
            } && g == generation && h == headers && n == content_length && (100 <= status <= 999
                ==> sent == status) && (status < 100 || 999 < status ==> sent == 502) && window
                == s.negotiated->0.protocol.stream_window_frames)
            &&& entry(after.pending_http, id) is None
            &&& entry(after.pending_requests, id) is None
            &&& entry(after.stream_credits, id) is None
            &&& sink is Some && sink->0.generation == Some(generation) && sink->0.session == entry(
                s.pending_http,
                id,
            )->0.session && sink->0.data.received == 0 && sink->0.data.queued == 0
                && sink->0.data.max_body_size == s.negotiated->0.protocol.max_body_size
            &&& content_length is Some ==> sink->0.data.expected == Some(content_length->0 as usize)
            &&& content_length is None ==> sink->0.data.expected is None
        }),
{
    let slot = entry(s.pending_http, id)->0;
    without_lacks(s.pending_http, id);
    without_lacks(s.pending_requests, id);
    without_lacks(s.stream_credits, id);
    let sink = crate::tunnel::state::ResponseSink {
        received: 0,
        expected: match content_length {
            Some(n) => Some(n as usize),
            None => None,
        },
        max_body_size: s.negotiated->0.protocol.max_body_size,
        queued: 0,
        window: s.negotiated->0.protocol.stream_window_frames,
    };
    with_has(
        s.response_streams,
        crate::tunnel::registry::SlotModel {
            id,
            generation: Some(generation),
            session: slot.session,
            data: sink,
        },
    );
}

/// A response that is streamed goes downstream with the status that it began
/// with. Its body follows, but for a `HEAD` request and a status below 200, 204
/// or 304, where the stream is over at once.
pub proof fn streamed_responses_pass(
    s: StateModel,
    method: Seq<char>,
    id: Seq<char>,
    generation: u64,
    status: u16,
    headers: Pairs,
    content_length: Option<u64>,
    now: u64,
)
    requires
        100 <= status,
    ensures
        ({
            let (after, actions, reply) = s.downstream(
                method,
                id,
                generation,
                status,
                headers,
                content_length,
                now,
            );
            let none = method == "HEAD"@ || status < 200 || status == 204 || status == 304;
            &&& !none ==> after == s && actions.len() == 0 && (
            reply matches ReplyModel::Stream { generation: g, status: sent, headers: out } && g
                == generation && sent == status && (content_length is Some ==> out.len() > 0
                && out.last() == ("content-length"@, decimal(content_length->0 as nat))) && (
            content_length is None ==> some_of(out, headers)))
            &&& none ==> entry(after.response_streams, id) is None && (
            reply matches ReplyModel::Whole { status: sent, body, .. } && sent == status
                && body.len() == 0)
            &&& none && entry(s.response_streams, id) is Some ==> actions == seq![
                ActionModel::BodyEnd { id },
            ]
        }),
{
    without_lacks(s.response_streams, id);
    filtered_items(headers, response_keeps(headers));
    let out = headers.filter(response_keeps(headers)) + length_header(
        stream_length(headers, method, status, content_length),
    );
    if !bodiless(method, status) {
        if content_length is Some {
            assert(out.last() == ("content-length"@, decimal(content_length->0 as nat)));
        } else {
            assert(out =~= headers.filter(response_keeps(headers)));
        }
    }
}

/// What goes wrong with an exchange is told downstream: 504 where no answer came
/// in time, 502 where the answer is missing, unreadable or too long, or where
/// the tunnel tells of an error, with the text of that error. The exchange is
/// forgotten.
pub proof fn failed_exchanges_are_refused(
    s: StateModel,
    id: Seq<char>,
    generation: u64,
    method: Seq<char>,
    limit: usize,
    waited: WaitedModel,
    now: u64,
)
    ensures
        ({
            let (after, actions, reply) = s.on_whole_waited(
                id,
                generation,
                method,
                limit,
                waited,
                now,
            );
            let gone = entry(after.pending_http, id) is None && entry(after.pending_requests, id)
                is None && entry(after.stream_credits, id) is None && entry(
                after.response_streams,
                id,
            ) is None;
            &&& waited is TimedOut ==> gone && refused(reply, 504, "Tunnel timeout"@)
            &&& waited is Dropped ==> gone && refused(reply, 502, "Invalid tunnel response"@)
            &&& waited matches WaitedModel::Answered {
                answer: AnswerModel::Failed { message },
            } ==> gone && refused(reply, 502, message)
            &&& waited matches WaitedModel::Answered {
                answer: AnswerModel::Legacy { body, .. },
            } ==> (base64_bytes(body) is None ==> gone && refused(
                reply,
                502,
                "Invalid tunnel response body"@,
            )) && (base64_bytes(body) is Some && base64_bytes(body)->0.len() > limit ==> gone
                && refused(reply, 502, "Tunnel response body exceeds limit"@))
        }),
{
    without_lacks(s.pending_http, id);
    without_lacks(s.pending_requests, id);
    without_lacks(s.stream_credits, id);
    without_lacks(s.response_streams, id);
}

/// Whether an exchange is refused with a status and a text.
pub open spec fn refused(reply: ReplyModel, status: u16, message: Seq<char>) -> bool {
    reply matches ReplyModel::Refused { refusal } && refusal.status == status && refusal.message
        == message
}

// ───────────────────────── headers ─────────────────────────

/// Whether a header is about one connection only, by its name in small letters.
pub open spec fn of_one_connection(name: Seq<char>) -> bool {
    seq![
        "connection"@,
        "keep-alive"@,
        "proxy-authenticate"@,
        "proxy-authorization"@,
        "proxy-connection"@,
        "te"@,
        "trailer"@,
        "transfer-encoding"@,
        "upgrade"@,
    ].contains(name)
}

/// Whether a `Connection` header lists a name.
pub open spec fn listed_by_connection(headers: Pairs, name: Seq<char>) -> bool {
    exists|i: int, k: int|
        0 <= i < headers.len() && 0 <= k < split_all(headers[i].1, ',').len() && lower(
            headers[i].0,
        ) == "connection"@ && name == lower(trimmed(#[trigger] split_all(headers[i].1, ',')[k]))
}

proof fn connection_headers(headers: Pairs, name: Seq<char>)
    requires
        name.len() > 0,
    ensures
        crate::tunnel::headers::about_connection(headers, name) == (of_one_connection(lower(name))
            || listed_by_connection(headers, lower(name))),
{
    let l = lower(name);
    let fixed = seq![
        "connection"@,
        "keep-alive"@,
        "proxy-authenticate"@,
        "proxy-authorization"@,
        "proxy-connection"@,
        "te"@,
        "trailer"@,
        "transfer-encoding"@,
        "upgrade"@,
    ];
    assert(fixed[0] == "connection"@ && fixed[1] == "keep-alive"@ && fixed[2]
        == "proxy-authenticate"@ && fixed[3] == "proxy-authorization"@ && fixed[4]
        == "proxy-connection"@ && fixed[5] == "te"@ && fixed[6] == "trailer"@ && fixed[7]
        == "transfer-encoding"@ && fixed[8] == "upgrade"@);
    if of_one_connection(l) {
        let i = fixed.index_of(l);
        assert(fixed[i] == l);
    }
    assert(crate::tunnel::headers::hop_by_hop(l) == of_one_connection(l));
    if crate::tunnel::headers::named_by_connection(headers, l) {
        let i = choose|i: int|
            0 <= i < headers.len() && lower((#[trigger] headers[i]).0) == "connection"@
                && crate::tunnel::headers::token_in(headers[i].1, l);
        let k = choose|k: int|
            0 <= k < split_all(headers[i].1, ',').len() && crate::tunnel::headers::token_text(
                #[trigger] split_all(headers[i].1, ',')[k],
            ) == l;
        assert(l == lower(trimmed(split_all(headers[i].1, ',')[k])));
    }
    if listed_by_connection(headers, l) {
        let (i, k) = choose|i: int, k: int|
            0 <= i < headers.len() && 0 <= k < split_all(headers[i].1, ',').len() && lower(
                headers[i].0,
            ) == "connection"@ && l == lower(trimmed(#[trigger] split_all(headers[i].1, ',')[k]));
        let v = headers[i].1;
        assert(crate::tunnel::headers::token_text(split_all(v, ',')[k]) == l);
        assert(crate::tunnel::headers::token_in(v, l));
        assert(lower(headers[i].0) == "connection"@);
    }
}

/// The headers of a response pass in their order, but for those about one
/// connection and the length.
pub proof fn response_headers_pass(headers: Pairs, h: (Seq<char>, Seq<char>))
    requires
        h.0.len() > 0,
    ensures
        some_of(headers.filter(response_keeps(headers)), headers),
        headers.filter(response_keeps(headers)).contains(h) == (headers.contains(h)
            && !of_one_connection(lower(h.0)) && !listed_by_connection(headers, lower(h.0))
            && lower(h.0) != "content-length"@),
{
    filtered_items(headers, response_keeps(headers));
    connection_headers(headers, h.0);
}

/// The headers of a request pass in their order, but for those about one
/// connection, the host, the length, and what the client expects.
pub proof fn request_headers_pass(headers: Pairs, h: (Seq<char>, Seq<char>))
    requires
        h.0.len() > 0,
    ensures
        some_of(headers.filter(request_keeps(headers)), headers),
        headers.filter(request_keeps(headers)).contains(h) == (headers.contains(h)
            && !of_one_connection(lower(h.0)) && !listed_by_connection(headers, lower(h.0))
            && lower(h.0) != "host"@ && lower(h.0) != "content-length"@ && lower(h.0)
            != "expect"@),
{
    filtered_items(headers, request_keeps(headers));
    connection_headers(headers, h.0);
}

/// The size of headers: the bytes of their names and values.
pub open spec fn header_bytes(items: Pairs) -> nat
    decreases items.len(),
{
    if items.len() == 0 {
        0
    } else {
        encode_utf8(items[0].0).len() + encode_utf8(items[0].1).len() + header_bytes(
            items.drop_first(),
        )
    }
}

proof fn header_bytes_grow(items: Pairs, n: nat)
    requires
        n <= items.len(),
    ensures
        pair_bytes(items, n) == header_bytes(items.take(n as int)),
    decreases n,
{
    if n > 0 {
        header_bytes_grow(items, (n - 1) as nat);
        assert(items.take(n as int) =~= items.take(n - 1).push(items[n - 1]));
        header_bytes_push(items.take(n - 1), items[n - 1]);
    }
}

proof fn header_bytes_push(items: Pairs, h: (Seq<char>, Seq<char>))
    ensures
        header_bytes(items.push(h)) == header_bytes(items) + encode_utf8(h.0).len() + encode_utf8(
            h.1,
        ).len(),
    decreases items.len(),
{
    let more = items.push(h);
    if items.len() == 0 {
        assert(more.drop_first() =~= Seq::empty());
        assert(header_bytes(more.drop_first()) == 0);
    } else {
        header_bytes_push(items.drop_first(), h);
        assert(more.drop_first() =~= items.drop_first().push(h));
    }
}

/// Headers are within the limits where there are at most 200 of them, with at
/// most 64 KiB of names and values.
pub proof fn header_limits_count(items: Pairs)
    ensures
        header_limits(items) == (items.len() <= 200 && header_bytes(items) <= 64 * 1024),
{
    header_bytes_grow(items, items.len());
    assert(items.take(items.len() as int) =~= items);
}

// ───────────────────────── admission ─────────────────────────

/// A request for a WebSocket is refused with 501, and one that finds no place
/// with 429. Any other is let in.
pub proof fn requests_are_admitted(s: StateModel, upgrade: bool)
    ensures
        upgrade ==> (admission(s, upgrade) matches Some(r) && r.status == 501),
        !upgrade && s.http_permits == 0 ==> (admission(s, upgrade) matches Some(r) && r.status
            == 429),
        !upgrade && s.http_permits > 0 ==> admission(s, upgrade) is None,
{
}

/// A body that is too long is refused with 413, and one that cannot be read with
/// 400.
pub proof fn bodies_are_refused(message: Seq<char>)
    ensures
        body_failure(true, message).status == 413,
        body_failure(false, message).status == 400,
        body_failure(true, message).message == message,
        body_failure(false, message).message == message,
{
}

/// A request for which no connection is there is refused with 503, and gives its
/// place back.
pub proof fn unconnected_requests_are_refused(s: StateModel, length: Option<u64>)
    requires
        s.http_permits < usize::MAX,
    ensures
        ({
            let (after, route) = s.route(ModeModel::Disconnected, length);
            &&& after.http_permits == s.http_permits + 1
            &&& route matches RouteModel::Refused { refusal } && refusal.status == 503
        }),
{
}

/// Without an agreement a request goes in one frame, with a body of at most
/// 5 MiB and under its own place; a longer one is refused with 413 and gives its
/// place back.
pub proof fn legacy_requests_go_whole(s: StateModel, generation: u64, length: Option<u64>)
    requires
        s.http_permits < usize::MAX,
    ensures
        ({
            let (after, route) = s.route(ModeModel::Legacy { generation }, length);
            let limit = 5_242_880usize;
            if length is Some && length->0 > limit {
                &&& after.http_permits == s.http_permits + 1
                &&& route matches RouteModel::Refused { refusal } && refusal.status == 413
            } else {
                &&& after == s
                &&& route matches RouteModel::Whole { permit, limit: l } && permit
                    == Permit::LocalHttp && l == limit
            }
        }),
{
}

/// With an agreement a request takes one of the agreed places and gives its own
/// back. One with a short body goes in one frame, any other in pieces. It is
/// refused with 429 where no agreed place is left.
pub proof fn agreed_requests_are_routed(
    s: StateModel,
    generation: u64,
    session_id: Option<Seq<char>>,
    length: Option<u64>,
)
    requires
        s.http_permits < usize::MAX,
        s.negotiated is Some,
        s.negotiated->0.generation == generation,
    ensures
        ({
            let n = s.negotiated->0;
            let mode = ModeModel::Streaming { generation, protocol: n.protocol, session_id };
            let (after, route) = s.route(mode, length);
            let place = Permit::Negotiated { generation, websocket: false };
            let v1 = 5_242_880usize;
            let limit = if n.protocol.max_body_size < v1 {
                n.protocol.max_body_size
            } else {
                v1
            };
            &&& after.http_permits == s.http_permits + 1
            &&& after.negotiated is Some
            &&& n.http == 0 ==> after.negotiated->0.http == 0 && (
            route matches RouteModel::Refused { refusal } && refusal.status == 429)
            &&& n.http > 0 && (length is None || length->0 > s.config.fast_path_body_bytes)
                ==> after.negotiated->0.http == n.http - 1 && (
            route matches RouteModel::Stream { permit } && permit == place)
            &&& n.http > 0 && length is Some && length->0 <= s.config.fast_path_body_bytes
                && length->0 <= limit ==> after.negotiated->0.http == n.http - 1 && (
            route matches RouteModel::Whole { permit, limit: l } && permit == place && l == limit)
            &&& n.http > 0 && length is Some && length->0 <= s.config.fast_path_body_bytes
                && length->0 > limit ==> after.negotiated->0.http == n.http && (
            route matches RouteModel::Refused { refusal } && refusal.status == 413)
            &&& after.negotiated->0.websocket == n.websocket
        }),
{
}

/// A place that is given back can be taken again, and taking one leaves the
/// other kinds of places as they are.
pub proof fn places_are_apart(s: StateModel, generation: u64)
    ensures
        s.taken(Permit::LocalHttp).ws_permits == s.ws_permits,
        s.taken(Permit::LocalHttp).negotiated == s.negotiated,
        s.taken(Permit::LocalWebSocket).http_permits == s.http_permits,
        s.taken(Permit::LocalWebSocket).negotiated == s.negotiated,
        s.http_permits > 0 ==> s.taken(Permit::LocalHttp).http_permits == s.http_permits - 1,
        s.ws_permits > 0 ==> s.taken(Permit::LocalWebSocket).ws_permits == s.ws_permits - 1,
        s.http_permits < usize::MAX ==> s.released(Permit::LocalHttp).http_permits
            == s.http_permits + 1,
        s.ws_permits < usize::MAX ==> s.released(Permit::LocalWebSocket).ws_permits == s.ws_permits
            + 1,
        s.negotiated is Some && s.negotiated->0.generation != generation ==> s.released(
            Permit::Negotiated { generation, websocket: false },
        ) == s && s.taken(Permit::Negotiated { generation, websocket: true }) == s,
{
}

// ───────────────────────── requests ─────────────────────────

/// The length of a request is what its first `Content-Length` header says, and
/// where that says none, what is known of its body.
pub proof fn request_lengths_are_read(headers: Pairs, i: int, n: nat, exact: Option<u64>)
    requires
        0 <= i < headers.len(),
        lower(headers[i].0) == "content-length"@,
        forall|j: int| 0 <= j < i ==> lower((#[trigger] headers[j]).0) != "content-length"@,
        headers[i].1 == decimal(n),
        n <= u64::MAX,
    ensures
        body_length(headers, exact) == Some(n),
{
    first_length_is(headers, 0, i);
    crate::text::decimal_reads_back(n);
    super::texts::unsigned_numerals_are_digits(decimal(n), u64::MAX as nat);
}

proof fn first_length_is(headers: Pairs, from: int, i: int)
    requires
        0 <= from <= i < headers.len(),
        lower(headers[i].0) == "content-length"@,
        forall|j: int| 0 <= j < i ==> lower((#[trigger] headers[j]).0) != "content-length"@,
    ensures
        first_length(headers, from) == Some(headers[i].1),
    decreases i - from,
{
    if from < i {
        first_length_is(headers, from + 1, i);
    }
}

/// Without a `Content-Length` header the length is what is known of the body.
pub proof fn unannounced_lengths_are_known(headers: Pairs, exact: Option<u64>)
    requires
        forall|j: int| 0 <= j < headers.len() ==> lower((#[trigger] headers[j]).0)
            != "content-length"@,
    ensures
        exact is Some ==> body_length(headers, exact) == Some(exact->0 as nat),
        exact is None ==> body_length(headers, exact) is None,
{
    no_length(headers, 0);
}

proof fn no_length(headers: Pairs, from: int)
    requires
        0 <= from <= headers.len(),
        forall|j: int| 0 <= j < headers.len() ==> lower((#[trigger] headers[j]).0)
            != "content-length"@,
    ensures
        first_length(headers, from) is None,
    decreases headers.len() - from,
{
    if from < headers.len() {
        no_length(headers, from + 1);
    }
}

/// A whole request carries what the client downstream asked for.
pub proof fn whole_requests_carry(
    s: StateModel,
    id: Seq<char>,
    method: Seq<char>,
    path: Seq<char>,
    headers: Pairs,
    body: Seq<u8>,
)
    ensures
        s.whole_request(id, method, path, headers, body) matches FrameModel::HttpReq {
            id: i,
            method: m,
            path: p,
            headers: h,
            body: b,
        } && i == id && m == method && p == path && h == headers && b == base64_text(body),
{
}

/// The response to a request that was made is the answer to that request, and
/// to no other; it is answered once.
pub proof fn requests_get_their_response(
    s: StateModel,
    id: Seq<char>,
    mode: ModeModel,
    frame: FrameModel,
    made: u64,
    status: u16,
    headers: Pairs,
    body: Seq<char>,
    generation: u64,
    now: u64,
)
    requires
        s.active_generation == generation,
        header_limits(headers),
        mode is Streaming ==> mode->Streaming_generation == generation,
    ensures
        ({
            let asked = s.submitted(id, mode, frame, made);
            let response = FrameModel::HttpResp { id, status, headers, body };
            let (after, actions) = asked.on_frame(response, generation, now);
            &&& actions == seq![
                ActionModel::Answer { id, answer: AnswerModel::Legacy { status, headers, body } },
            ]
            &&& after.on_frame(response, generation, now).1.len() == 0
        }),
{
    let slot = crate::tunnel::registry::SlotModel {
        id,
        generation: if mode is Streaming {
            crate::tunnel::exchange::mode_generation(mode)
        } else {
            None
        },
        session: crate::tunnel::exchange::mode_session(mode),
        data: crate::tunnel::state::Waiter {  },
    };
    with_has(s.pending_http, slot);
    let asked = s.submitted(id, mode, frame, made);
    assert(entry(asked.pending_http, id) == Some(slot));
    without_lacks(asked.pending_http, id);
}

/// A request that may be sent again after a reconnect is kept with its frame,
/// and others are not kept.
pub proof fn repeatable_requests_are_kept(
    s: StateModel,
    id: Seq<char>,
    mode: ModeModel,
    frame: FrameModel,
    now: u64,
)
    ensures
        ({
            let asked = s.submitted(id, mode, frame, now);
            let kept = entry(asked.pending_requests, id);
            let resumes = mode matches ModeModel::Streaming { protocol, session_id, .. }
                && protocol.resumable && session_id is Some;
            &&& mode is Legacy ==> kept is Some && kept->0.data.frame == frame
                && kept->0.data.created_at == now && kept->0.data.ttl == 120_000_000_000
                && kept->0.session is None
            &&& resumes ==> kept is Some && kept->0.data.frame == frame && kept->0.data.created_at
                == now && kept->0.session == mode->Streaming_session_id
            &&& !(mode is Legacy) && !resumes ==> asked.pending_requests == s.pending_requests
        }),
{
    let session = crate::tunnel::exchange::mode_session(mode);
    if mode is Legacy || session is Some {
        let asked = s.submitted(id, mode, frame, now);
        let slot = asked.pending_requests.last();
        with_has(s.pending_requests, slot);
    }
}

/// An exchange that is given up is forgotten, and its client is told to stop.
/// What comes for it later has no effect.
pub proof fn given_up_requests_are_closed(
    s: StateModel,
    id: Seq<char>,
    generation: u64,
    now: u64,
    status: u16,
    headers: Pairs,
    body: Seq<char>,
)
    requires
        s.active_client == Some(generation),
        s.active_generation == generation,
        entry(s.pending_http, id) is Some,
    ensures
        ({
            let (after, actions) = s.on_cancel(id, generation, now);
            &&& actions == seq![
                ActionModel::Abandon { id },
                ActionModel::BodyEnd { id },
                ActionModel::SendEventually {
                    frame: FrameModel::Error { id, message: "downstream request closed"@ },
                },
            ]
            &&& after.on_frame(
                FrameModel::HttpResp { id, status, headers, body },
                generation,
                now,
            ) == (after, Seq::<ActionModel>::empty())
        }),
{
    without_lacks(s.pending_http, id);
    let (after, actions) = s.on_cancel(id, generation, now);
    assert(actions =~= seq![
        ActionModel::Abandon { id },
        ActionModel::BodyEnd { id },
        ActionModel::SendEventually {
            frame: FrameModel::Error { id, message: "downstream request closed"@ },
        },
    ]);
}

/// A request asks for a WebSocket where an `Upgrade` header says so, in letters
/// of any case.
pub proof fn upgrades_are_seen(headers: Pairs, i: int)
    requires
        0 <= i < headers.len(),
    ensures
        lower(headers[i].0) == "upgrade"@ && lower(headers[i].1) == "websocket"@ ==> upgrades(
            headers,
        ),
        (forall|j: int| 0 <= j < headers.len() ==> lower((#[trigger] headers[j]).0) != "upgrade"@)
            ==> !upgrades(headers),
{
}

/// A ping is answered with its own identifier and time.
pub proof fn pings_are_answered(
    s: StateModel,
    id: Seq<char>,
    timestamp: u64,
    generation: u64,
    now: u64,
)
    requires
        s.active_generation == generation,
        s.active_client == Some(generation),
    ensures
        s.on_frame(FrameModel::Ping { id, timestamp }, generation, now) == (
            s,
            seq![ActionModel::Send { frame: FrameModel::Pong { id, timestamp } }],
        ),
{
}

/// An error of the other end is told to the exchange that waits, or to the
/// reader of the body that is being received.
pub proof fn errors_are_told(
    s: StateModel,
    id: Seq<char>,
    message: Seq<char>,
    generation: u64,
    now: u64,
)
    requires
        s.active_generation == generation,
    ensures
        ({
            let (after, actions) = s.on_frame(FrameModel::Error { id, message }, generation, now);
            &&& entry(s.pending_http, id) is Some ==> actions == seq![
                ActionModel::Answer { id, answer: AnswerModel::Failed { message } },
            ] && entry(after.pending_http, id) is None
            &&& entry(s.pending_http, id) is None && entry(s.response_streams, id) is Some
                ==> actions == seq![ActionModel::BodyError { id, message }] && entry(
                after.response_streams,
                id,
            ) is None
            &&& entry(after.stream_credits, id) is None
        }),
{
    without_lacks(s.pending_http, id);
    without_lacks(s.response_streams, id);
    without_lacks(s.stream_credits, id);
}

/// A body ends well where no length was announced or as much came; else it ends
/// with an error, which the other end is told.
pub proof fn bodies_end(s: StateModel, id: Seq<char>, generation: u64, now: u64)
    requires
        s.active_generation == generation,
        s.active_client == Some(generation),
        entry(s.response_streams, id) is Some,
    ensures
        ({
            let sink = entry(s.response_streams, id)->0.data;
            let (after, actions) = s.on_frame(FrameModel::HttpRespEnd { id }, generation, now);
            let whole = sink.expected is None || sink.expected->0 == sink.received;
            &&& entry(after.response_streams, id) is None
            &&& actions.len() > 0
            &&& whole ==> actions[0] == (ActionModel::BodyEnd { id })
            &&& whole && entry(s.response_streams, id)->0.session is Some ==> actions == seq![
                ActionModel::BodyEnd { id },
                ActionModel::Send {
                    frame: FrameModel::Window {
                        id,
                        credits: 0,
                        ack_offset: Some(sink.received as u64),
                        complete: true,
                    },
                },
            ]
            &&& whole && entry(s.response_streams, id)->0.session is None ==> actions.len() == 1
            &&& !whole ==> actions == seq![
                ActionModel::BodyError { id, message: "response content length mismatch"@ },
                ActionModel::Send {
                    frame: FrameModel::Error {
                        id,
                        message: "response content length mismatch"@,
                    },
                },
            ]
        }),
{
    without_lacks(s.response_streams, id);
    let sink = entry(s.response_streams, id)->0.data;
    let (after, actions) = s.on_frame(FrameModel::HttpRespEnd { id }, generation, now);
    let whole = sink.expected is None || sink.expected->0 == sink.received;
    if !whole {
        assert(actions =~= seq![
            ActionModel::BodyError { id, message: "response content length mismatch"@ },
            ActionModel::Send {
                frame: FrameModel::Error { id, message: "response content length mismatch"@ },
            },
        ]);
    } else if entry(s.response_streams, id)->0.session is Some {
        assert(actions =~= seq![
            ActionModel::BodyEnd { id },
            ActionModel::Send {
                frame: FrameModel::Window {
                    id,
                    credits: 0,
                    ack_offset: Some(sink.received as u64),
                    complete: true,
                },
            },
        ]);
    }
}

/// The first window of a response goes out once its exchange has taken the
/// answer. Where it has not, the stream is closed and the other end is told.
pub proof fn first_windows_are_granted(
    s: StateModel,
    id: Seq<char>,
    generation: u64,
    window: usize,
    now: u64,
)
    requires
        s.active_client == Some(generation),
    ensures
        s.on_begin_answered(id, generation, window, true, now) == (
            s,
            seq![
                ActionModel::Send {
                    frame: FrameModel::Window {
                        id,
                        credits: window,
                        ack_offset: Some(0),
                        complete: false,
                    },
                },
            ],
        ),
        entry(
            s.on_begin_answered(id, generation, window, false, now).0.response_streams,
            id,
        ) is None,
        s.on_begin_answered(id, generation, window, false, now).1 == seq![
            ActionModel::Send {
                frame: FrameModel::Error { id, message: "downstream request closed"@ },
            },
        ],
{
    without_lacks(s.response_streams, id);
}

/// A piece that the reader downstream has taken grants the other end one more.
pub proof fn taken_pieces_grant_more(s: StateModel, id: Seq<char>, ack: u64, generation: u64)
    requires
        s.active_client == Some(generation),
        entry(s.response_streams, id) is Some,
        entry(s.response_streams, id)->0.generation == Some(generation),
    ensures
        s.on_chunk_consumed(id, ack).1 == seq![
            ActionModel::Send {
                frame: FrameModel::Window {
                    id,
                    credits: 1,
                    ack_offset: Some(ack),
                    complete: false,
                },
            },
        ],
{
}

// ───────────────────────── lengths ─────────────────────────

/// The answer to a `HEAD` request has the length that the upstream announced,
/// and no other; one without an announced length has none.
pub proof fn heads_keep_the_length(
    headers: Pairs,
    status: u16,
    body_len: nat,
    i: int,
    n: nat,
)
    requires
        0 <= i < headers.len(),
        lower(headers[i].0) == "content-length"@,
        headers[i].1 == decimal(n),
        n <= usize::MAX,
        forall|j: int| 0 <= j < i ==> lower((#[trigger] headers[j]).0) != "content-length"@,
    ensures
        whole_length(headers, "HEAD"@, status, body_len) == Some(n),
        n <= u64::MAX ==> stream_length(headers, "HEAD"@, status, None) == Some(n),
{
    crate::text::decimal_reads_back(n);
    super::texts::unsigned_numerals_are_digits(decimal(n), usize::MAX as nat);
    super::texts::unsigned_numerals_are_digits(decimal(n), u64::MAX as nat);
    announced_at(headers, 0, i, usize::MAX as nat);
    announced_at(headers, 0, i, u64::MAX as nat);
}

proof fn announced_at(headers: Pairs, from: int, i: int, max: nat)
    requires
        0 <= from <= i < headers.len(),
        lower(headers[i].0) == "content-length"@,
        crate::text::unsigned_numeral(headers[i].1, max) is Some,
        forall|j: int| 0 <= j < i ==> lower((#[trigger] headers[j]).0) != "content-length"@,
    ensures
        crate::tunnel::headers::announced_length(headers, from, max)
            == crate::text::unsigned_numeral(headers[i].1, max),
    decreases i - from,
{
    if from < i {
        announced_at(headers, from + 1, i, max);
    }
}

/// A length that the beginning of a response tells goes before its headers. The
/// response to any other request has the length of its body, and with a status
/// below 200, 204 or 304 none.
pub proof fn lengths_are_told(
    headers: Pairs,
    method: Seq<char>,
    status: u16,
    body_len: nat,
    n: u64,
)
    requires
        100 <= status,
    ensures
        stream_length(headers, "HEAD"@, status, Some(n)) == Some(n as nat),
        method != "HEAD"@ && (status < 200 || status == 204 || status == 304) ==> whole_length(
            headers,
            method,
            status,
            body_len,
        ) is None && stream_length(headers, method, status, Some(n)) is None,
        method != "HEAD"@ && status >= 200 && status != 204 && status != 304 ==> whole_length(
            headers,
            method,
            status,
            body_len,
        ) == Some(body_len) && stream_length(headers, method, status, Some(n)) == Some(n as nat)
            && stream_length(headers, method, status, None) is None,
        length_header(Some(body_len)) == seq![("content-length"@, decimal(body_len))],
        length_header(None).len() == 0,
{
}

// ───────────────────────── answers that are refused ─────────────────────────

/// A response with too many headers, and one that came over another connection,
/// is an error for the exchange that waits; one that nothing waits for is
/// passed over.
pub proof fn wrong_responses_are_refused(
    s: StateModel,
    id: Seq<char>,
    status: u16,
    headers: Pairs,
    body: Seq<char>,
    generation: u64,
    now: u64,
)
    requires
        s.active_generation == generation,
    ensures
        ({
            let waiter = entry(s.pending_http, id);
            let (after, actions) = s.on_frame(
                FrameModel::HttpResp { id, status, headers, body },
                generation,
                now,
            );
            let stale = waiter is Some && waiter->0.generation is Some && waiter->0.generation
                != Some(generation);
            &&& waiter is None ==> after == s && actions.len() == 0
            &&& waiter is Some ==> actions.len() == 1 && (
            actions[0] matches ActionModel::Answer { id: to, answer } && to == id && (
            !header_limits(headers) || stale ==> answer is Failed) && (header_limits(headers)
                && !stale ==> answer == (AnswerModel::Legacy { status, headers, body })))
        }),
{
}

/// The beginning of a response that is too long, has too many headers, or came
/// over another connection, is an error for the exchange that waits.
pub proof fn wrong_beginnings_are_refused(
    s: StateModel,
    id: Seq<char>,
    status: u16,
    headers: Pairs,
    content_length: Option<u64>,
    generation: u64,
    now: u64,
)
    requires
        s.active_generation == generation,
        entry(s.pending_http, id) is Some,
        ({
            let waiter = entry(s.pending_http, id)->0;
            ||| s.protocol() is None
            ||| waiter.generation is Some && waiter.generation != Some(generation)
            ||| !header_limits(headers)
            ||| content_length is Some && content_length->0 > (s.protocol()->0).1.max_body_size
        }),
    ensures
        ({
            let (after, actions) = s.on_frame(
                FrameModel::HttpRespBegin { id, status, headers, content_length },
                generation,
                now,
            );
            &&& actions.len() > 0
            &&& actions[0] matches ActionModel::Answer { id: to, answer } && to == id && answer
                is Failed
            &&& entry(after.pending_http, id) is None
            &&& after.response_streams == s.response_streams
        }),
{
    without_lacks(s.pending_http, id);
}

// ───────────────────────── pieces of bodies ─────────────────────────

/// A piece of a body that overlaps what came, or leaves a gap, or tells no place
/// where it has to, breaks the connection; so does one for a stream that was
/// never there, and one in the wrong direction.
pub proof fn wrong_pieces_break_the_connection(
    s: StateModel,
    e: EnvelopeModel,
    generation: u64,
    now: u64,
)
    requires
        s.active_client == Some(generation),
    ensures
        e.kind == BinaryKind::HttpRequest ==> s.on_envelope(e, generation, now) is Err,
        e.kind == BinaryKind::HttpResponse && entry(s.response_streams, e.id) is None && !is_closed(
            s.terminated,
            generation,
            e.id,
            now,
        ) ==> s.on_envelope(e, generation, now) is Err,
        e.kind == BinaryKind::WebSocket && entry(s.pending_ws, e.id) is None && !is_closed(
            s.terminated,
            generation,
            e.id,
            now,
        ) ==> s.on_envelope(e, generation, now) is Err,
        e.kind == BinaryKind::HttpResponse && entry(s.response_streams, e.id) is Some && entry(
            s.response_streams,
            e.id,
        )->0.generation == Some(generation) && entry(s.response_streams, e.id)->0.session is Some
            ==> {
            let received = entry(s.response_streams, e.id)->0.data.received;
            &&& e.offset is None ==> s.on_envelope(e, generation, now) is Err
            &&& e.offset is Some && e.offset->0 > received ==> s.on_envelope(e, generation, now)
                is Err
            &&& e.offset is Some && e.offset->0 < received && e.offset->0 + e.payload.len()
                > received ==> s.on_envelope(e, generation, now) is Err
        },
{
}

/// A body that grows beyond what is agreed or announced ends with an error,
/// which both ends are told.
pub proof fn long_bodies_are_ended(s: StateModel, e: EnvelopeModel, generation: u64, now: u64)
    requires
        s.active_client == Some(generation),
        e.kind == BinaryKind::HttpResponse,
        entry(s.response_streams, e.id) is Some,
        ({
            let slot = entry(s.response_streams, e.id)->0;
            let end = slot.data.received + e.payload.len();
            &&& slot.generation == Some(generation)
            &&& slot.session is Some ==> e.offset == Some(slot.data.received as u64)
            &&& end <= u64::MAX && end <= usize::MAX
            &&& end > slot.data.max_body_size || slot.data.expected is Some && end
                > slot.data.expected->0
        }),
    ensures
        s.on_envelope(e, generation, now) matches Ok(step) && entry(
            step.0.response_streams,
            e.id,
        ) is None && step.1.len() == 2 && step.1[0] is BodyError && step.1[0]->BodyError_id == e.id
            && (step.1[1] matches ActionModel::Send { frame } && frame is Error && frame->Error_id
            == e.id),
{
    without_lacks(s.response_streams, e.id);
}

/// A piece that was taken in waits for the reader; one that the reader has taken
/// does not any more.
pub proof fn pieces_wait_for_the_reader(
    s: StateModel,
    e: EnvelopeModel,
    generation: u64,
    now: u64,
    ack: u64,
)
    requires
        s.active_client == Some(generation),
        e.kind == BinaryKind::HttpResponse,
        entry(s.response_streams, e.id) is Some,
        ({
            let slot = entry(s.response_streams, e.id)->0;
            let end = slot.data.received + e.payload.len();
            &&& slot.generation == Some(generation)
            &&& slot.session is Some ==> e.offset == Some(slot.data.received as u64)
            &&& end <= u64::MAX && end <= slot.data.max_body_size
            &&& slot.data.expected is Some ==> end <= slot.data.expected->0
            &&& slot.data.queued < usize::MAX
        }),
    ensures
        ({
            let before = entry(s.response_streams, e.id)->0.data;
            let taken = (s.on_envelope(e, generation, now)->Ok_0).0;
            let waiting = entry(taken.response_streams, e.id);
            let read = entry(taken.on_chunk_consumed(e.id, ack).0.response_streams, e.id);
            &&& waiting is Some && waiting->0.data.queued == before.queued + 1
                && waiting->0.data.window == before.window && waiting->0.data.expected
                == before.expected
            &&& read is Some && read->0.data.queued == before.queued && read->0.data.received
                == before.received + e.payload.len()
        }),
{
    crate::tunnel::registry::place_bound(s.response_streams, e.id);
    let k = crate::tunnel::registry::place(s.response_streams, e.id) as int;
    let taken = (s.on_envelope(e, generation, now)->Ok_0).0;
    crate::tunnel::registry::place_is(taken.response_streams, e.id, k);
    let read = taken.on_chunk_consumed(e.id, ack).0;
    crate::tunnel::registry::place_is(read.response_streams, e.id, k);
}

/// A piece that the reader could not take ends the stream, and the other end is
/// told; the last piece ends the body, well where its length is as announced.
pub proof fn delivered_pieces_may_end_the_body(
    s: StateModel,
    id: Seq<char>,
    generation: u64,
    now: u64,
)
    requires
        s.active_client == Some(generation),
        entry(s.response_streams, id) is Some,
    ensures
        ({
            let sink = entry(s.response_streams, id)->0.data;
            let whole = sink.expected is None || sink.expected->0 == sink.received;
            let lost = s.on_chunk_delivered(id, generation, false, false, now);
            let last = s.on_chunk_delivered(id, generation, true, true, now);
            let more = s.on_chunk_delivered(id, generation, true, false, now);
            &&& entry(lost.0.response_streams, id) is None
            &&& lost.1 == seq![
                ActionModel::Send {
                    frame: FrameModel::Error { id, message: "downstream response closed"@ },
                },
            ]
            &&& entry(last.0.response_streams, id) is None
            &&& whole ==> last.1 == seq![ActionModel::BodyEnd { id }]
            &&& !whole ==> last.1.len() == 2 && last.1[0] == (ActionModel::BodyError {
                id,
                message: "response content length mismatch"@,
            })
            &&& more == (s, Seq::<ActionModel>::empty())
        }),
{
    without_lacks(s.response_streams, id);
}

/// Credits that the other end grants go to the upload that they name, on its own
/// connection; an upload that is being resumed is sent again once the other end
/// has told how far it came.
pub proof fn windows_reach_their_upload(
    s: StateModel,
    id: Seq<char>,
    credits: usize,
    ack: Option<u64>,
    complete: bool,
    generation: u64,
    now: u64,
)
    requires
        s.active_generation == generation,
        entry(s.stream_credits, id) is Some,
    ensures
        ({
            let slot = entry(s.stream_credits, id)->0;
            let (after, actions) = s.on_frame(
                FrameModel::Window { id, credits, ack_offset: ack, complete },
                generation,
                now,
            );
            let now_there = entry(after.stream_credits, id);
            &&& slot.generation != Some(generation) ==> after == s && actions.len() == 0
            &&& slot.generation == Some(generation) ==> now_there is Some && now_there->0.data.window
                == slot.data.window && (slot.data.available + credits <= slot.data.window
                ==> now_there->0.data.available == slot.data.available + credits) && (ack is Some
                && ack->0 > slot.data.ack_offset ==> now_there->0.data.ack_offset == ack->0)
            &&& slot.generation == Some(generation) && slot.data.resuming && ack is Some ==> actions
                == seq![ActionModel::ResumeUpload { id }]
            &&& slot.generation == Some(generation) && !(slot.data.resuming && ack is Some)
                ==> actions.len() == 0
        }),
{
    crate::tunnel::registry::place_bound(s.stream_credits, id);
    let k = crate::tunnel::registry::place(s.stream_credits, id) as int;
    let after = s.on_frame(
        FrameModel::Window { id, credits, ack_offset: ack, complete },
        generation,
        now,
    ).0;
    if entry(s.stream_credits, id)->0.generation == Some(generation) {
        crate::tunnel::registry::place_is(after.stream_credits, id, k);
    }
}

/// Counts go round at their ends.
pub proof fn counts_go_round(n: usize)
    ensures
        n < usize::MAX ==> bumped(n) == n + 1,
        bumped(usize::MAX) == 0,
        n > 0 ==> lowered(n) == n - 1,
        lowered(0) == usize::MAX,
{
}

/// Why a response is refused is told to the exchange that waits.
pub proof fn refused_responses_are_told(
    s: StateModel,
    id: Seq<char>,
    status: u16,
    headers: Pairs,
    body: Seq<char>,
    content_length: Option<u64>,
    generation: u64,
    now: u64,
)
    requires
        s.active_generation == generation,
        entry(s.pending_http, id) is Some,
    ensures
        ({
            let waiter = entry(s.pending_http, id)->0;
            let stale = waiter.generation is Some && waiter.generation != Some(generation);
            let whole = s.on_frame(
                FrameModel::HttpResp { id, status, headers, body },
                generation,
                now,
            ).1[0];
            let begun = s.on_frame(
                FrameModel::HttpRespBegin { id, status, headers, content_length },
                generation,
                now,
            ).1[0];
            &&& !header_limits(headers) ==> whole == failed(
                id,
                "response headers exceed tunnel limit"@,
            )
            &&& header_limits(headers) && stale ==> whole == failed(
                id,
                "response belongs to a stale connection"@,
            )
            &&& s.protocol() is None || stale ==> begun == failed(
                id,
                "streaming response belongs to a stale connection"@,
            )
            &&& s.protocol() is Some && !stale && !header_limits(headers) ==> begun == failed(
                id,
                "response headers exceed tunnel limit"@,
            )
            &&& s.protocol() is Some && !stale && header_limits(headers) && content_length is Some
                && content_length->0 > (s.protocol()->0).1.max_body_size ==> begun == failed(
                id,
                "response body exceeds negotiated limit"@,
            )
        }),
{
}

/// An exchange that is answered with an error.
pub open spec fn failed(id: Seq<char>, message: Seq<char>) -> ActionModel {
    ActionModel::Answer { id, answer: AnswerModel::Failed { message } }
}

} // verus!
