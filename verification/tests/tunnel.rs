use rrt_daemon::tunnel::channel::{
    handshake_headers, message_envelopes, queue_capacity, text_too_long, Channel, Downstream,
    DownstreamStep, Upstream, UpstreamStep,
};
use rrt_daemon::tunnel::config::{
    http_timeout_from_raw, negotiate, parse_positive_duration_seconds, positive_env_usize, Span,
    TunnelConfig, TunnelSettings, DEFAULT_MAX_INFLIGHT, DEFAULT_MAX_WS_MESSAGE_BYTES,
    DEFAULT_STREAM_CHUNK_BYTES, DEFAULT_STREAM_WINDOW_FRAMES, MAX_HTTP_BODY_BYTES,
    TUNNEL_PROTOCOL_VERSION,
};
use rrt_daemon::tunnel::credits::{Credit, StreamCredits};
use rrt_daemon::tunnel::dispatch::{reports_rejection, valid_status};
use rrt_daemon::tunnel::envelope::{
    id_from_uuid_bytes, make_id, uuid_bytes_from_id, BinaryEnvelope, BinaryKind, Sequence,
};
use rrt_daemon::tunnel::exchange::{
    asks_for_websocket, refuse_body, request_length, Reply, Route, Waited,
};
use rrt_daemon::tunnel::frame::{headers_within_limits, Frame};
use rrt_daemon::tunnel::headers::{
    connection_tokens, is_fixed_hop_by_hop, request_headers_for_frame,
    response_headers_for_downstream, response_headers_for_stream, suppresses_body,
};
use rrt_daemon::tunnel::serve::{control_message, request_is_websocket_upgrade, Peek};
use rrt_daemon::tunnel::state::{Action, Answer, ConnectionProtocol, State};
use rrt_daemon::tunnel::upload::{split_chunks, ResumeStep, Upload, UploadEvent, UploadStep};

const SESSION: &str = "00112233-4455-6677-8899-aabbccddeeff";

fn pair(name: &str, value: &str) -> (String, String) {
    (name.to_string(), value.to_string())
}

fn default_timeout() -> Span {
    http_timeout_from_raw(None)
}

// ───────────────────────── settings ─────────────────────────

#[test]
fn tunnel_http_timeout_accepts_positive_integer_and_fractional_seconds() {
    assert_eq!(
        parse_positive_duration_seconds("5"),
        Some(Span { secs: 5, nanos: 0 })
    );
    assert_eq!(
        parse_positive_duration_seconds("12.5"),
        Some(Span {
            secs: 12,
            nanos: 500_000_000
        })
    );
    assert_eq!(
        parse_positive_duration_seconds("0.125"),
        Some(Span {
            secs: 0,
            nanos: 125_000_000
        })
    );
}

#[test]
fn tunnel_http_timeout_falls_back_for_missing_or_invalid_values() {
    let default = Span {
        secs: 600,
        nanos: 0,
    };
    assert_eq!(default_timeout(), default);
    for raw in ["", "invalid", "0", "-1", "NaN", "inf", "1e500", "1e-20"] {
        assert_eq!(http_timeout_from_raw(Some(raw)), default, "raw={raw:?}");
    }
}

#[test]
fn timeouts_become_nanoseconds() {
    let span = Span {
        secs: 1,
        nanos: 500_000_000,
    };
    assert_eq!(span.as_nanos(), 1_500_000_000);
}

#[test]
fn settings_are_positive_and_bounded() {
    let raw = |s: &str| Some(s.to_string());
    assert_eq!(positive_env_usize(&raw("10"), 5, 20), 10);
    assert_eq!(positive_env_usize(&raw("30"), 5, 20), 20);
    assert_eq!(positive_env_usize(&raw("0"), 5, 20), 5);
    assert_eq!(positive_env_usize(&raw("x"), 5, 20), 5);
    assert_eq!(positive_env_usize(&None, 5, 20), 5);
}

fn settings() -> TunnelSettings {
    TunnelSettings {
        http_timeout: None,
        protocol_version: None,
        max_body_size: None,
        stream_chunk_bytes: None,
        max_ws_message_size: None,
        max_inflight: None,
        stream_window_frames: None,
        fast_path_body_bytes: None,
    }
}

#[test]
fn hello_advertises_the_settings() {
    let config = TunnelConfig::from_settings(&settings());
    assert_eq!(config, TunnelConfig::default());
    assert_eq!(
        config.hello(),
        Frame::Hello {
            protocol_version: 2,
            max_stream_chunk: 65536,
            max_inflight: 16,
            stream_window_frames: 16,
            max_body_size: 536870912,
            max_ws_message_size: 8388608,
            resume: true,
            session_id: None,
        }
    );
    assert_eq!(TUNNEL_PROTOCOL_VERSION, 2);
    assert_eq!(DEFAULT_STREAM_CHUNK_BYTES, 65536);
    assert_eq!(DEFAULT_MAX_INFLIGHT, 16);
    assert_eq!(DEFAULT_STREAM_WINDOW_FRAMES, 16);
    assert_eq!(MAX_HTTP_BODY_BYTES, 536870912);
    assert_eq!(DEFAULT_MAX_WS_MESSAGE_BYTES, 8388608);
}

fn hello(resume: bool, session: Option<&str>) -> Frame {
    Frame::Hello {
        protocol_version: 2,
        max_stream_chunk: 4096,
        max_inflight: 4,
        stream_window_frames: 2,
        max_body_size: 1 << 20,
        max_ws_message_size: 1 << 16,
        resume,
        session_id: session.map(str::to_string),
    }
}

#[test]
fn negotiation_takes_the_smaller_limits() {
    let config = TunnelConfig::default();
    let (protocol, session) = negotiate(&hello(true, Some(SESSION)), &config).unwrap();
    assert_eq!(protocol.max_stream_chunk, 4096);
    assert_eq!(protocol.max_inflight, 4);
    assert!(protocol.resumable);
    assert_eq!(session, Some(SESSION.to_string()));
    let (other, none) = negotiate(&hello(true, Some("no number")), &config).unwrap();
    assert_eq!((other.resumable, none), (false, None));
    assert!(negotiate(&Frame::Ping { id: String::new(), timestamp: 0 }, &config).is_none());
}

// ───────────────────────── envelopes ─────────────────────────

#[test]
fn binary_envelope_matches_python_protocol_layout() {
    let id = "00112233-4455-6677-8899-aabbccddeeff".to_string();
    let envelope = BinaryEnvelope {
        id: id.clone(),
        kind: BinaryKind::HttpRequest,
        payload: b"payload".to_vec(),
        end_of_body: false,
        offset: None,
    };
    let raw = envelope.encode(DEFAULT_STREAM_CHUNK_BYTES).unwrap();
    assert_eq!(&raw[..2], b"YD");
    assert_eq!(&raw[2..5], &[1, 1, 16]);
    assert_eq!(&raw[5..21], &uuid_bytes_from_id(&id).unwrap()[..]);
    assert_eq!(raw[21], 0);
    assert_eq!(u32::from_be_bytes(raw[22..26].try_into().unwrap()), 7);
    assert_eq!(&raw[26..], b"payload");
    assert_eq!(
        BinaryEnvelope::decode(&raw, DEFAULT_STREAM_CHUNK_BYTES).unwrap(),
        envelope
    );
}

#[test]
fn binary_envelope_rejects_malformed_and_oversized_payloads() {
    let id = "00112233-4455-6677-8899-aabbccddeeff".to_string();
    let envelope = BinaryEnvelope {
        id,
        kind: BinaryKind::HttpResponse,
        payload: b"last".to_vec(),
        end_of_body: true,
        offset: None,
    };
    let raw = envelope.encode(DEFAULT_STREAM_CHUNK_BYTES).unwrap();
    assert!(BinaryEnvelope::decode(&raw[..25], DEFAULT_STREAM_CHUNK_BYTES).is_err());
    let mut bad_magic = raw.clone();
    bad_magic[..2].copy_from_slice(b"NO");
    assert!(BinaryEnvelope::decode(&bad_magic, DEFAULT_STREAM_CHUNK_BYTES).is_err());
    let mut bad_kind = raw.clone();
    bad_kind[3] = 0xff;
    assert!(BinaryEnvelope::decode(&bad_kind, DEFAULT_STREAM_CHUNK_BYTES).is_err());
    assert!(BinaryEnvelope::decode(&raw, 3).is_err());
    assert!(envelope.encode(3).is_err());
}

#[test]
fn envelopes_keep_their_offset() {
    let envelope = BinaryEnvelope {
        id: make_id(3),
        kind: BinaryKind::WebSocket,
        payload: vec![1, 2],
        end_of_body: true,
        offset: Some(1 << 40),
    };
    let raw = envelope.encode(10).unwrap();
    assert_eq!(BinaryEnvelope::decode(&raw, 10), Ok(envelope));
}

#[test]
fn ids_are_sixteen_bytes_in_groups() {
    let id = make_id(0x1234);
    assert_eq!(id.len(), 36);
    assert_ne!(id, make_id(0x1235));
    let bytes = uuid_bytes_from_id(&id).unwrap();
    assert_eq!(id_from_uuid_bytes(&bytes), id);
    assert!(uuid_bytes_from_id("short").is_err());
    assert!(uuid_bytes_from_id("00112233-4455-6677-8899-aabbccddeefg").is_err());
}

// ───────────────────────── headers ─────────────────────────

#[test]
fn response_content_length_obeys_method_and_status_semantics() {
    let representation_headers = || {
        vec![
            pair("Content-Length", "123"),
            pair("Set-Cookie", "a=1"),
            pair("Set-Cookie", "b=2"),
        ]
    };

    let head = response_headers_for_downstream(representation_headers(), "HEAD", 200, 0);
    assert_eq!(
        head.iter()
            .filter(|(name, _)| name.eq_ignore_ascii_case("content-length"))
            .map(|(_, value)| value.as_str())
            .collect::<Vec<_>>(),
        vec!["123"]
    );

    let no_content = response_headers_for_downstream(representation_headers(), "GET", 204, 0);
    assert!(
        no_content
            .iter()
            .all(|(name, _)| !name.eq_ignore_ascii_case("content-length")),
        "headers={no_content:?}"
    );

    let not_modified = response_headers_for_downstream(representation_headers(), "GET", 304, 0);
    assert!(
        not_modified
            .iter()
            .all(|(name, _)| !name.eq_ignore_ascii_case("content-length")),
        "headers={not_modified:?}"
    );
    assert_eq!(
        not_modified
            .iter()
            .filter(|(name, _)| name.eq_ignore_ascii_case("set-cookie"))
            .count(),
        2
    );
}

#[test]
fn connection_headers_do_not_pass() {
    let headers = vec![
        pair("Connection", "X-Hop, keep-alive"),
        pair("X-Hop", "1"),
        pair("Transfer-Encoding", "chunked"),
        pair("X-Kept", "2"),
    ];
    assert_eq!(connection_tokens(&headers), ["x-hop", "keep-alive"]);
    let sent = request_headers_for_frame(headers);
    assert!(sent.contains(&pair("X-Kept", "2")));
    assert!(sent.iter().all(|(name, _)| {
        !name.eq_ignore_ascii_case("x-hop")
            && !name.eq_ignore_ascii_case("connection")
            && !name.eq_ignore_ascii_case("transfer-encoding")
    }));
    assert!(is_fixed_hop_by_hop("UPGRADE"));
    assert!(!is_fixed_hop_by_hop("accept"));
}

#[test]
fn streamed_responses_announce_a_known_length() {
    let headers = response_headers_for_stream(vec![pair("A", "1")], "GET", 200, Some(5));
    assert!(headers
        .iter()
        .any(|(name, value)| name.eq_ignore_ascii_case("content-length") && value == "5"));
    assert!(suppresses_body("HEAD", 200));
    assert!(suppresses_body("GET", 204));
    assert!(!suppresses_body("GET", 200));
}

#[test]
fn header_lists_have_limits() {
    assert!(headers_within_limits(&vec![pair("a", "b"); 200]));
    assert!(!headers_within_limits(&vec![pair("a", "b"); 201]));
    assert!(!headers_within_limits(&vec![pair("a", &"b".repeat(65536))]));
    assert!(headers_within_limits(&vec![pair("a", &"b".repeat(65535))]));
}

#[test]
fn request_lengths_are_exact_or_announced() {
    assert_eq!(request_length(&vec![pair("Content-Length", "7")], None), Some(7));
    assert_eq!(request_length(&Vec::new(), Some(3)), Some(3));
    assert_eq!(request_length(&Vec::new(), None), None);
    assert!(asks_for_websocket(&vec![pair("Upgrade", "websocket")]));
    assert!(!asks_for_websocket(&Vec::new()));
    assert_eq!(refuse_body(true, "m").status, 413);
}

#[test]
fn statuses_out_of_range_become_bad_gateway() {
    assert_eq!(valid_status(201), 201);
    assert_eq!(valid_status(99), 502);
    assert_eq!(valid_status(1000), 502);
    assert!(reports_rejection(&Frame::HttpReqEnd { id: String::new() }));
    assert!(!reports_rejection(&Frame::Error {
        id: String::new(),
        message: String::new()
    }));
}

// ───────────────────────── flow control ─────────────────────────

#[test]
fn credits_are_spent_and_granted() {
    let mut credits = StreamCredits::new(1);
    assert_eq!(credits.acquire(false, false), Credit::Wait);
    assert!(!credits.grant(5, None));
    assert_eq!(credits.acquire(false, false), Credit::Granted);
    assert_eq!(credits.acquire(false, false), Credit::Wait);
    credits.grant(1, Some(10));
    credits.record(10, vec![1, 2]);
    assert_eq!(credits.unacked(), [(10, vec![1, 2])]);
    credits.grant(1, Some(12));
    assert!(credits.unacked().is_empty());
    credits.disconnect(false);
    assert_eq!(credits.acquire(false, false), Credit::Refused);
}

#[test]
fn resumable_streams_wait_for_the_next_connection() {
    let mut credits = StreamCredits::new(2);
    credits.record(0, vec![1]);
    credits.disconnect(true);
    assert_eq!(credits.acquire(true, false), Credit::Wait);
    credits.rebind();
    assert_eq!(credits.unacked(), [(0, vec![1])]);
    credits.finish_resume();
}

#[test]
fn bodies_are_cut_into_chunks() {
    assert_eq!(split_chunks(b"abcde", 2), [b"ab".to_vec(), b"cd".to_vec(), b"e".to_vec()]);
    assert!(split_chunks(b"", 2).is_empty());
}

// ───────────────────────── peeking ─────────────────────────

#[test]
fn upgrades_are_seen_in_whole_heads_only() {
    let head = b"GET /ws HTTP/1.1\r\nUpgrade: h2c, WebSocket\r\n\r\n";
    assert_eq!(request_is_websocket_upgrade(head, 8192), Peek::Request(true));
    assert_eq!(request_is_websocket_upgrade(&head[..20], 8192), Peek::Wait);
    assert_eq!(
        request_is_websocket_upgrade(b"GET / HTTP/1.1\r\nHost: upgrade\r\n\r\n", 8192),
        Peek::Request(false)
    );
    assert_eq!(request_is_websocket_upgrade(b"", 8192), Peek::Closed);
    let full = vec![b'x'; 8192];
    assert_eq!(request_is_websocket_upgrade(&full, 8192), Peek::Grow(16384));
    let most = vec![b'x'; 65536];
    assert_eq!(request_is_websocket_upgrade(&most, 65536), Peek::TooLarge);
}

#[test]
fn control_messages_have_a_limit() {
    assert!(control_message(&"x".repeat(8388608)));
    assert!(!control_message(&"x".repeat(8388609)));
}

// ───────────────────────── exchanges ─────────────────────────

fn connected(mode: Option<Frame>) -> (State, u64) {
    let mut state = State::new(TunnelConfig::default());
    let (generation, _) = state.install_client();
    match mode {
        Some(frame) => {
            state.dispatch_from_client(frame, generation, 0);
        }
        None => {
            state.negotiation_over(generation, 0);
        }
    }
    (state, generation)
}

fn settled(state: &State) -> ConnectionProtocol {
    match state.settled_protocol() {
        Ok(mode) => mode,
        Err(generation) => panic!("generation {generation} is not settled"),
    }
}

#[test]
fn without_a_connection_requests_are_refused() {
    let mut state = State::new(TunnelConfig::default());
    let mode = settled(&state);
    assert_eq!(mode, ConnectionProtocol::Disconnected);
    assert!(matches!(
        state.route_http(&mode, Some(1)),
        Route::Refused { .. }
    ));
    assert!(state.pending_requests.slots.is_empty());
}

#[test]
fn whole_requests_are_answered() {
    let (mut state, generation) = connected(None);
    let mode = settled(&state);
    assert_eq!(mode, ConnectionProtocol::Legacy { generation });
    let Route::Whole { permit, limit } = state.route_http(&mode, Some(2)) else {
        panic!("not routed");
    };
    assert_eq!(limit, 5242880);
    let (id, frame) = state.submit_http(&mut Sequence::new(), &mode, "GET", "/p", vec![pair("A", "1")], b"hi", 0);
    match frame {
        Frame::HttpReq {
            id: sent,
            method,
            path,
            body,
            ..
        } => {
            assert_eq!(sent, id);
            assert_eq!((method.as_str(), path.as_str()), ("GET", "/p"));
            assert_eq!(body, "aGk=");
        }
        other => panic!("{other:?}"),
    }
    let actions = state.dispatch_from_client(
        Frame::HttpResp {
            id: id.clone(),
            status: 201,
            headers: vec![pair("B", "2")],
            body: "cG9uZw==".to_string(),
        },
        generation,
        0,
    );
    assert_eq!(actions.len(), 1);
    let Action::Answer { id: answered, .. } = &actions[0] else {
        panic!("{actions:?}");
    };
    assert_eq!(answered, &id);
    let answer = Answer::Legacy {
        status: 201,
        headers: vec![pair("B", "2")],
        body: "cG9uZw==".to_string(),
    };
    assert_eq!(
        actions[0],
        Action::Answer {
            id: id.clone(),
            answer
        }
    );
    let answer = Answer::Legacy {
        status: 201,
        headers: vec![pair("B", "2")],
        body: "cG9uZw==".to_string(),
    };
    let (_, reply) =
        state.finish_whole(&id, generation, "GET", limit, Waited::Answered { answer }, 0);
    match reply {
        Reply::Whole { status, body, .. } => {
            assert_eq!(status, 201);
            assert_eq!(body, b"pong");
        }
        other => panic!("{other:?}"),
    }
    state.release(permit);
}

#[test]
fn reconnecting_sends_waiting_requests_again() {
    let (mut state, _) = connected(None);
    let mode = settled(&state);
    state.route_http(&mode, Some(0));
    let (id, _) = state.submit_http(&mut Sequence::new(), &mode, "GET", "/p", Vec::new(), b"", 0);
    let (next, _) = state.install_client();
    let actions = state.negotiation_over(next, 1);
    assert!(
        actions.iter().any(|a| matches!(
            a,
            Action::Send { frame: Frame::HttpReq { id: sent, .. } } if *sent == id
        )),
        "{actions:?}"
    );
}

#[test]
fn resumable_requests_survive_a_reconnect() {
    let (mut state, generation) = connected(Some(hello(true, Some(SESSION))));
    let mode = settled(&state);
    assert!(matches!(mode, ConnectionProtocol::Streaming { .. }));
    state.route_http(&mode, Some(0));
    let (id, _) = state.submit_http(&mut Sequence::new(), &mode, "GET", "/p", Vec::new(), b"", 0);
    state.deactivate_generation(generation, "lost");
    let (next, _) = state.install_client();
    let actions = state.dispatch_from_client(hello(true, Some(SESSION)), next, 1);
    assert!(
        actions.iter().any(|a| matches!(
            a,
            Action::Send { frame: Frame::HttpReq { id: sent, .. } } if *sent == id
        )),
        "{actions:?}"
    );
}

#[test]
fn lost_connections_fail_what_cannot_resume() {
    let (mut state, generation) = connected(Some(hello(false, None)));
    let mode = settled(&state);
    state.route_http(&mode, Some(0));
    let (id, _) = state.submit_http(&mut Sequence::new(), &mode, "GET", "/p", Vec::new(), b"", 0);
    let actions = state.deactivate_generation(generation, "lost");
    assert!(
        actions.iter().any(|a| match a {
            Action::Answer { id: failed, answer } =>
                *failed == id && matches!(answer, Answer::Failed { .. }),
            Action::Abandon { id: failed } => *failed == id,
            _ => false,
        }),
        "{actions:?}"
    );
}

#[test]
fn replaced_connections_are_not_heard() {
    let (mut state, old) = connected(Some(hello(false, None)));
    state.install_client();
    let actions = state.dispatch_from_client(
        Frame::Ping {
            id: "p".to_string(),
            timestamp: 1,
        },
        old,
        0,
    );
    assert!(actions.is_empty());
}

#[test]
fn pings_are_answered() {
    let (mut state, generation) = connected(None);
    let actions = state.dispatch_from_client(
        Frame::Ping {
            id: "p".to_string(),
            timestamp: 9,
        },
        generation,
        0,
    );
    assert_eq!(
        actions,
        [Action::Send {
            frame: Frame::Pong {
                id: "p".to_string(),
                timestamp: 9
            }
        }]
    );
}

#[test]
fn binary_messages_that_are_none_end_the_connection() {
    let (mut state, generation) = connected(Some(hello(false, None)));
    assert_eq!(
        state.binary_from_client(b"malformed", generation, 0),
        Err("binary envelope is shorter than its header".to_string())
    );
    let wrong = BinaryEnvelope {
        id: make_id(1),
        kind: BinaryKind::HttpRequest,
        payload: Vec::new(),
        end_of_body: true,
        offset: None,
    };
    let raw = wrong.encode(10).unwrap();
    assert!(state.binary_from_client(&raw, generation, 0).is_err());
}

#[test]
fn streamed_bodies_are_handed_on_once() {
    let (mut state, generation) = connected(Some(hello(true, Some(SESSION))));
    let mode = settled(&state);
    state.route_http(&mode, Some(0));
    let (id, _) = state.submit_http(&mut Sequence::new(), &mode, "GET", "/p", Vec::new(), b"", 0);
    let actions = state.dispatch_from_client(
        Frame::HttpRespBegin {
            id: id.clone(),
            status: 200,
            headers: Vec::new(),
            content_length: None,
        },
        generation,
        0,
    );
    let Some(Action::Answer {
        answer: Answer::Streaming { window, .. },
        ..
    }) = actions.first()
    else {
        panic!("{actions:?}");
    };
    state.streaming_answered(&id, generation, *window, true, 0);
    let piece = |offset| {
        BinaryEnvelope {
            id: id.clone(),
            kind: BinaryKind::HttpResponse,
            payload: b"abc".to_vec(),
            end_of_body: false,
            offset: Some(offset),
        }
        .encode(100)
        .unwrap()
    };
    let (first, last) = state.binary_from_client(&piece(0), generation, 0).unwrap();
    assert!(!last);
    assert_eq!(
        first,
        [Action::Chunk {
            id: id.clone(),
            offset: 0,
            payload: b"abc".to_vec()
        }]
    );
    state.chunk_delivered(&id, generation, true, false, 0);
    let (again, _) = state.binary_from_client(&piece(0), generation, 0).unwrap();
    assert!(
        !again.iter().any(|a| matches!(a, Action::Chunk { .. })),
        "{again:?}"
    );
}

#[test]
fn in_flight_requests_are_limited() {
    let (mut state, _) = connected(Some(hello(false, None)));
    let mode = settled(&state);
    for _ in 0..4 {
        assert!(matches!(
            state.route_http(&mode, Some(0)),
            Route::Whole { .. }
        ));
    }
    assert!(matches!(
        state.route_http(&mode, Some(0)),
        Route::Refused { .. }
    ));
}

// ───────────────────────── uploads ─────────────────────────

fn uploading(session: Option<&str>) -> (State, u64, Upload) {
    let (mut state, generation) = connected(Some(hello(session.is_some(), session)));
    let ConnectionProtocol::Streaming {
        protocol,
        session_id,
        ..
    } = settled(&state)
    else {
        panic!("not negotiated");
    };
    let (upload, frame) = state
        .begin_upload(
            &mut Sequence::new(),
            generation,
            protocol,
            &session_id,
            "PUT",
            "/p",
            Vec::new(),
            Some(4),
            0,
        )
        .unwrap();
    assert!(matches!(frame, Frame::HttpReqBegin { .. }));
    (state, generation, upload)
}

fn grant(state: &mut State, generation: u64, id: &str, credits: usize, ack: u64) -> Vec<Action> {
    state.dispatch_from_client(
        Frame::Window {
            id: id.to_string(),
            credits,
            ack_offset: Some(ack),
            complete: false,
        },
        generation,
        0,
    )
}

fn refusal(step: UploadStep) -> (u16, String) {
    match step {
        UploadStep::Over {
            reply: Reply::Refused { refusal },
            ..
        } => (refusal.status, refusal.message),
        other => panic!("{other:?}"),
    }
}

fn sent_piece(step: UploadStep) -> (u64, BinaryEnvelope) {
    match step {
        UploadStep::SendPiece { generation, raw } => {
            (generation, BinaryEnvelope::decode(&raw, 65536).unwrap())
        }
        other => panic!("{other:?}"),
    }
}

#[test]
fn bodies_are_sent_piece_by_piece_and_then_their_end() {
    let (mut state, generation) = connected(Some(hello(false, None)));
    let ConnectionProtocol::Streaming { protocol, .. } = settled(&state) else {
        panic!("not negotiated");
    };
    let body: Vec<u8> = (0..10000u32).map(|n| (n % 251) as u8).collect();
    let mut numbers = Sequence::new();
    let (mut upload, frame) = state
        .begin_upload(
            &mut numbers,
            generation,
            protocol,
            &None,
            "PUT",
            "/p",
            Vec::new(),
            Some(10000),
            0,
        )
        .unwrap();
    let id = upload.id.clone();
    assert!(
        matches!(&frame, Frame::HttpReqBegin { id: begun, content_length: Some(10000), .. } if *begun == id)
    );
    let mut step = state.upload_step(&mut upload, UploadEvent::Changed, 0);
    let mut rest = body.clone();
    let (mut sent, mut granted, mut pieces) = (Vec::new(), 0, 0);
    loop {
        step = match step {
            UploadStep::NeedBody if rest.is_empty() => {
                state.upload_step(&mut upload, UploadEvent::BodyEnded, 0)
            }
            UploadStep::NeedBody => {
                let part = rest.drain(..5000).collect();
                state.upload_step(&mut upload, UploadEvent::Body(part), 0)
            }
            UploadStep::Wait => {
                assert_eq!(pieces, granted, "waits only without credit");
                grant(&mut state, generation, &id, 1, 0);
                granted += 1;
                state.upload_step(&mut upload, UploadEvent::Changed, 0)
            }
            UploadStep::SendPiece { generation: g, raw } => {
                assert_eq!(g, generation);
                let piece = BinaryEnvelope::decode(&raw, 4096).unwrap();
                assert_eq!(piece.kind, BinaryKind::HttpRequest);
                assert_eq!(piece.offset, None);
                assert!(!piece.payload.is_empty() && !piece.end_of_body);
                sent.extend(piece.payload);
                pieces += 1;
                assert!(pieces <= granted);
                state.upload_step(&mut upload, UploadEvent::Changed, 0)
            }
            UploadStep::SendEnd { frame, .. } => {
                assert_eq!(frame, Frame::HttpReqEnd { id: id.clone() });
                assert_eq!(sent, body);
                state.upload_step(&mut upload, UploadEvent::Changed, 0)
            }
            UploadStep::Sent => break,
            UploadStep::Over { reply, .. } => panic!("{reply:?}"),
        };
    }
    assert_eq!(pieces, 4);
    let (_, reply) = state.finish_upload(&upload, "PUT", Waited::TimedOut, 0);
    match reply {
        Reply::Refused { refusal } => {
            assert_eq!((refusal.status, refusal.message.as_str()), (504, "Tunnel timeout"));
        }
        other => panic!("{other:?}"),
    }
}

#[test]
fn bodies_end_where_they_were_announced() {
    let (mut state, generation, mut upload) = uploading(None);
    let id = upload.id.clone();
    grant(&mut state, generation, &id, 1, 0);
    let (_, piece) =
        sent_piece(state.upload_step(&mut upload, UploadEvent::Body(b"abc".to_vec()), 0));
    assert_eq!(piece.payload, b"abc");
    assert_eq!(
        refusal(state.upload_step(&mut upload, UploadEvent::BodyEnded, 0)),
        (400, "Request content length mismatch".to_string())
    );
}

#[test]
fn bodies_are_given_up_for_a_reason() {
    let give_up = |event| {
        let (mut state, _, mut upload) = uploading(None);
        refusal(state.upload_step(&mut upload, event, 0))
    };
    assert_eq!(
        give_up(UploadEvent::Body(vec![0; (1 << 20) + 1])),
        (413, "request body exceeds limit".to_string())
    );
    assert_eq!(
        give_up(UploadEvent::BodyBroken("reset".to_string())),
        (400, "reset".to_string())
    );
    assert_eq!(
        give_up(UploadEvent::Unsent(1)),
        (502, "Tunnel request stream disconnected".to_string())
    );
    let (mut state, _, mut upload) = uploading(None);
    let step = state.upload_step(&mut upload, UploadEvent::Body(b"abcd".to_vec()), 0);
    assert_eq!(step, UploadStep::Wait);
    assert_eq!(
        refusal(state.upload_step(&mut upload, UploadEvent::TimedOut, 0)),
        (502, "Tunnel request stream lost".to_string())
    );
}

#[test]
fn lost_pieces_are_sent_again_from_the_acknowledged_offset() {
    let (mut state, generation, mut upload) = uploading(Some(SESSION));
    let id = upload.id.clone();
    grant(&mut state, generation, &id, 2, 0);
    for (part, offset) in [(b"ab", 0), (b"cd", 2)] {
        let event = UploadEvent::Body(part.to_vec());
        let (_, piece) = sent_piece(state.upload_step(&mut upload, event, 0));
        assert_eq!(piece.offset, Some(offset));
    }
    state.deactivate_generation(generation, "lost");
    let step = state.upload_step(&mut upload, UploadEvent::Unsent(generation), 0);
    assert_eq!(step, UploadStep::NeedBody);
    let step = state.upload_step(&mut upload, UploadEvent::BodyEnded, 0);
    assert_eq!(step, UploadStep::Wait);
    let (next, _) = state.install_client();
    state.dispatch_from_client(hello(true, Some(SESSION)), next, 1);
    let actions = grant(&mut state, next, &id, 2, 2);
    assert!(
        actions
            .iter()
            .any(|a| matches!(a, Action::ResumeUpload { id: again } if *again == id)),
        "{actions:?}"
    );
    let mut resume = state.begin_resume(&id).unwrap();
    match state.resume_step(&mut resume) {
        ResumeStep::SendPiece { generation, raw } => {
            assert_eq!(generation, next);
            let piece = BinaryEnvelope::decode(&raw, 65536).unwrap();
            assert_eq!(piece.offset, Some(2));
            assert_eq!(piece.payload, b"cd");
        }
        other => panic!("{other:?}"),
    }
    assert!(matches!(state.resume_step(&mut resume), ResumeStep::SendEnd { .. }));
    assert_eq!(state.resume_step(&mut resume), ResumeStep::Stop);
    let step = state.upload_step(&mut upload, UploadEvent::Changed, 0);
    assert!(matches!(step, UploadStep::SendEnd { .. }));
    let lost = state.upload_step(&mut upload, UploadEvent::Unsent(next), 0);
    assert_eq!(lost, UploadStep::Wait);
    assert_eq!(
        refusal(state.upload_step(&mut upload, UploadEvent::TimedOut, 0)),
        (502, "Tunnel request stream disconnected".to_string())
    );
}

#[test]
fn tunnels_of_one_process_share_no_identifier() {
    let mut numbers = Sequence::new();
    let (mut one, first) = connected(None);
    let (mut two, second) = connected(None);
    let (a, _) = one.open_channel(&mut numbers, first, "/", Vec::new());
    let (b, _) = two.open_channel(&mut numbers, second, "/", Vec::new());
    assert_ne!(a, b);
    assert_eq!(a, make_id(1));
    assert_eq!(numbers.fresh_id(), make_id(3));
}

#[test]
fn cancelled_requests_are_told_to_the_peer() {
    let (mut state, generation) = connected(Some(hello(false, None)));
    let mode = settled(&state);
    state.route_http(&mode, Some(0));
    let (id, _) = state.submit_http(&mut Sequence::new(), &mode, "GET", "/p", Vec::new(), b"", 0);
    let actions = state.cancel_request(&id, generation, 0);
    assert!(
        actions.iter().any(|a| matches!(
            a,
            Action::SendEventually { frame: Frame::Error { id: told, .. } }
            | Action::Send { frame: Frame::Error { id: told, .. } } if *told == id
        )),
        "{actions:?}"
    );
    let late = state.dispatch_from_client(
        Frame::HttpResp {
            id,
            status: 200,
            headers: Vec::new(),
            body: String::new(),
        },
        generation,
        0,
    );
    assert!(late.is_empty(), "{late:?}");
}

#[test]
fn answers_that_are_no_encoding_are_refused() {
    let (mut state, generation) = connected(None);
    let mode = settled(&state);
    let Route::Whole { limit, .. } = state.route_http(&mode, Some(0)) else {
        panic!("not routed");
    };
    let (id, _) = state.submit_http(&mut Sequence::new(), &mode, "GET", "/p", Vec::new(), b"", 0);
    let answer = Answer::Legacy {
        status: 200,
        headers: Vec::new(),
        body: "***".to_string(),
    };
    let (_, reply) =
        state.finish_whole(&id, generation, "GET", limit, Waited::Answered { answer }, 0);
    match reply {
        Reply::Refused { refusal } => {
            assert_eq!(refusal.status, 502);
            assert_eq!(refusal.message, "Invalid tunnel response body");
        }
        other => panic!("{other:?}"),
    }
}

#[test]
fn permits_can_be_taken_again() {
    let (mut state, _) = connected(Some(hello(false, None)));
    let mode = settled(&state);
    let mut permits = Vec::new();
    for _ in 0..4 {
        let Route::Whole { permit, .. } = state.route_http(&mode, Some(0)) else {
            panic!("not routed");
        };
        permits.push(permit);
    }
    state.release(permits.pop().unwrap());
    assert!(matches!(
        state.route_http(&mode, Some(0)),
        Route::Whole { .. }
    ));
}

#[test]
fn closed_streams_absorb_what_comes_late() {
    let (mut state, generation) = connected(Some(hello(false, None)));
    let id = make_id(77);
    state.remember_terminated_stream(generation, &id, 0);
    assert!(state.is_terminated_stream(generation, &id, 1));
    let raw = BinaryEnvelope {
        id,
        kind: BinaryKind::HttpResponse,
        payload: b"late".to_vec(),
        end_of_body: false,
        offset: None,
    }
    .encode(100)
    .unwrap();
    assert_eq!(state.binary_from_client(&raw, generation, 1), Ok((Vec::new(), false)));
}

// ───────────────────────── channels ─────────────────────────

#[test]
fn long_messages_travel_in_pieces() {
    let pieces = message_envelopes(&make_id(1), b"abcde", 2).unwrap();
    assert_eq!(pieces.len(), 3);
    let last = BinaryEnvelope::decode(&pieces[2], 2).unwrap();
    assert!(last.end_of_body);
    assert_eq!(last.payload, b"e");
    assert_eq!(message_envelopes(&make_id(1), b"", 2).unwrap().len(), 1);
    assert_eq!(queue_capacity(16, 4096, 1024), 16);
    assert_eq!(queue_capacity(16, 40960, 1024), 42);
}

#[test]
fn handshakes_keep_the_last_of_each_header_but_the_host() {
    let sent = handshake_headers(&vec![
        pair("cookie", "c"),
        pair("Host", "h"),
        pair("cookie", "d"),
    ]);
    assert_eq!(sent, [pair("cookie", "d")]);
}

fn channel(state: &mut State, generation: u64) -> Channel {
    let (id, frame) = state.open_channel(&mut Sequence::new(), generation, "/ws", Vec::new());
    assert!(matches!(frame, Frame::WsConnect { .. }));
    Channel {
        id,
        generation,
        max_message: 10,
        incoming: Vec::new(),
    }
}

#[test]
fn messages_from_below_become_frames() {
    let (mut state, generation) = connected(None);
    let channel = channel(&mut state, generation);
    let step = state.from_downstream(
        &channel,
        Downstream::Text {
            text: "hi".to_string(),
        },
    );
    assert_eq!(
        step,
        DownstreamStep::SendText {
            frame: Frame::WsMessage {
                id: channel.id.clone(),
                data: "hi".to_string(),
                binary: false
            }
        }
    );
    let step = state.from_downstream(
        &channel,
        Downstream::Binary {
            data: b"hi".to_vec(),
        },
    );
    assert_eq!(
        step,
        DownstreamStep::Send {
            frame: Frame::WsMessage {
                id: channel.id.clone(),
                data: "aGk=".to_string(),
                binary: true
            }
        }
    );
    assert_eq!(
        text_too_long(&channel.id),
        Frame::Error {
            id: channel.id.clone(),
            message: "WebSocket text message exceeds control-frame limit".to_string()
        }
    );
}

#[test]
fn messages_from_above_are_put_together() {
    let (mut state, generation) = connected(Some(hello(false, None)));
    let mut channel = channel(&mut state, generation);
    let piece = |data: &[u8], end_of_body| Upstream::Piece {
        payload: data.to_vec(),
        end_of_body,
    };
    assert_eq!(channel.from_upstream(piece(b"ab", false)), Ok(UpstreamStep::Ignore));
    assert_eq!(
        channel.from_upstream(piece(b"c", true)),
        Ok(UpstreamStep::Binary {
            data: b"abc".to_vec()
        })
    );
    assert_eq!(
        channel.from_upstream(piece(&[0; 11], true)),
        Ok(UpstreamStep::Close {
            frame: Some(Frame::Error {
                id: channel.id.clone(),
                message: "WebSocket binary message exceeds limit".to_string()
            })
        })
    );
    assert_eq!(
        channel.from_upstream(Upstream::Control {
            frame: Frame::WsMessage {
                id: channel.id.clone(),
                data: "aGk=".to_string(),
                binary: true
            }
        }),
        Ok(UpstreamStep::Binary {
            data: b"hi".to_vec()
        })
    );
    assert!(Channel::is_connected_by(&Some(Upstream::Control {
        frame: Frame::WsConnected {
            id: channel.id.clone()
        }
    })));
    assert!(!Channel::is_connected_by(&None));
}
