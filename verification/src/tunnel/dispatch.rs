//! What a frame or an envelope from the tunnel client does.
use super::config::{acceptable, agreed, least, negotiate, requested_session};
use super::connection::{resumed_windows, sent};

use super::envelope::{BinaryEnvelope, BinaryKind, EnvelopeModel};
use super::frame::{header_limits, headers_within_limits, pairs, Frame, FrameModel, Pairs};
use super::registry::{entry, place, place_bound, with, without, Slot, SlotModel};
use super::state::{
    acts, acts_empty, acts_push, error_frame, is_closed, remembered, window_frame, Action,
    ActionModel, Answer, AnswerModel, NegotiatedConnection, NegotiatedModel, ResponseSink, State,
    StateModel,
};
use crate::text::{join, opt_copy};
use vstd::prelude::*;

verus! {

broadcast use {acts_push, acts_empty};

/// A new state, and what has to be done.
pub type Step = (StateModel, Seq<ActionModel>);

/// Whether the peer is told that a channel could not take a frame. It is not
/// told so of an error.
pub fn reports_rejection(frame: &Frame) -> (r: bool)
    ensures
        r == !(frame is Error),
{
    match frame {
        Frame::Error { .. } => false,
        _ => true,
    }
}

/// A three-digit status, or 502.
pub open spec fn status_or_bad_gateway(status: u16) -> u16 {
    if 100 <= status < 1000 {
        status
    } else {
        502
    }
}

/// A three-digit status, or 502.
pub fn valid_status(status: u16) -> (r: u16)
    ensures
        r == status_or_bad_gateway(status),
        100 <= status <= 999 ==> r == status,
        status < 100 || 999 < status ==> r == 502,
{
    if 100 <= status && status < 1000 {
        status
    } else {
        502
    }
}

/// One more, or nothing after the largest number.
pub open spec fn bumped(n: usize) -> usize {
    if n < usize::MAX {
        (n + 1) as usize
    } else {
        0
    }
}

/// One less, or the largest number before nothing.
pub open spec fn lowered(n: usize) -> usize {
    if n > 0 {
        (n - 1) as usize
    } else {
        usize::MAX
    }
}

// ───────────────────────── model ─────────────────────────

impl StateModel {
    /// With a stream remembered as closed.
    pub open spec fn remembering(self, generation: u64, id: Seq<char>, now: u64) -> StateModel {
        StateModel { terminated: remembered(self.terminated, generation, id, now), ..self }
    }

    /// With the limits of a hello in force.
    pub open spec fn negotiating(self, hello: FrameModel, generation: u64) -> StateModel {
        let protocol = agreed(hello, self.config);
        StateModel {
            negotiated: Some(
                NegotiatedModel {
                    generation,
                    protocol,
                    session_id: requested_session(hello),
                    http: protocol.max_inflight,
                    websocket: protocol.max_inflight,
                },
            ),
            ..self
        }
    }

    /// A hello: the first acceptable one of a connection fixes its limits. With
    /// a session, every other session is given up, and this one goes on where
    /// it stopped; without, requests that wait are sent again, unless they
    /// went out already.
    pub open spec fn on_hello(self, hello: FrameModel, generation: u64, now: u64) -> Step {
        let repeated = self.negotiated matches Some(n) && n.generation == generation;
        if !acceptable(hello, self.config) || repeated {
            (self, Seq::empty())
        } else {
            let fixed = self.negotiating(hello, generation);
            match requested_session(hello) {
                Some(session) => {
                    let message = "tunnel client session was replaced"@;
                    let names = fixed.session_ids();
                    let alone = fixed.stale_failed(names, session);
                    let moved = alone.session_rebound(session, generation);
                    let windows = resumed_windows(alone.response_streams, session);
                    (
                        moved.cleaned(now),
                        fixed.stale_notices(names, session, message) + moved.cleaning_notices(now)
                            + moved.cleaned(now).resent(generation, Some(session)) + (
                        if moved.active_client == Some(generation) {
                            sent(windows)
                        } else {
                            Seq::empty()
                        }),
                    )
                },
                None => if self.legacy_generation == generation {
                    (fixed, Seq::empty())
                } else {
                    (
                        fixed.cleaned(now),
                        fixed.cleaning_notices(now) + fixed.cleaned(now).resent(generation, None),
                    )
                },
            }
        }
    }

    /// A whole response in one frame.
    pub open spec fn on_response(
        self,
        id: Seq<char>,
        status: u16,
        headers: Pairs,
        body: Seq<char>,
        generation: u64,
    ) -> Step {
        match entry(self.pending_http, id) {
            None => (self, Seq::empty()),
            Some(waiter) => {
                let answer = if !header_limits(headers) {
                    AnswerModel::Failed { message: "response headers exceed tunnel limit"@ }
                } else if waiter.generation is None || waiter.generation == Some(generation) {
                    AnswerModel::Legacy { status, headers, body }
                } else {
                    AnswerModel::Failed { message: "response belongs to a stale connection"@ }
                };
                (
                    StateModel { pending_http: without(self.pending_http, id), ..self },
                    seq![ActionModel::Answer { id, answer }],
                )
            },
        }
    }

    /// The beginning of a response whose body follows in pieces.
    pub open spec fn on_response_begin(
        self,
        id: Seq<char>,
        status: u16,
        headers: Pairs,
        content_length: Option<u64>,
        generation: u64,
        now: u64,
    ) -> Step {
        match entry(self.pending_http, id) {
            None => (self, Seq::empty()),
            Some(waiter) => {
                let answered = StateModel { pending_http: without(self.pending_http, id), ..self };
                let fails = |message: Seq<char>|
                    ActionModel::Answer { id, answer: AnswerModel::Failed { message } };
                if self.protocol() is None || (waiter.generation is Some && waiter.generation
                    != Some(generation)) {
                    (answered, seq![fails("streaming response belongs to a stale connection"@)])
                } else if !header_limits(headers) {
                    let message = "response headers exceed tunnel limit"@;
                    (
                        answered,
                        seq![fails(message)] + self.sends(generation, error_frame(id, message)),
                    )
                } else {
                    let limits = (self.protocol()->0).1;
                    let begun = StateModel {
                        pending_requests: without(self.pending_requests, id),
                        stream_credits: without(self.stream_credits, id),
                        ..answered
                    };
                    if content_length is Some && content_length->0 > limits.max_body_size {
                        let message = "response body exceeds negotiated limit"@;
                        (
                            begun.remembering(generation, id, now),
                            seq![fails(message)] + self.sends(generation, error_frame(id, message)),
                        )
                    } else {
                        let sink = ResponseSink {
                            received: 0,
                            expected: match content_length {
                                Some(n) => Some(n as usize),
                                None => None,
                            },
                            max_body_size: limits.max_body_size,
                            queued: 0,
                            window: limits.stream_window_frames,
                        };
                        (
                            StateModel {
                                response_streams: with(
                                    self.response_streams,
                                    SlotModel {
                                        id,
                                        generation: Some(generation),
                                        session: waiter.session,
                                        data: sink,
                                    },
                                ),
                                ..begun
                            },
                            seq![
                                ActionModel::Answer {
                                    id,
                                    answer: AnswerModel::Streaming {
                                        generation,
                                        status: status_or_bad_gateway(status),
                                        headers,
                                        content_length,
                                        window: limits.stream_window_frames,
                                    },
                                },
                            ],
                        )
                    }
                }
            },
        }
    }

    /// After a streaming answer was, or could not be, handed over.
    pub open spec fn on_begin_answered(
        self,
        id: Seq<char>,
        generation: u64,
        window: usize,
        delivered: bool,
        now: u64,
    ) -> Step {
        if delivered {
            (self, self.sends(generation, window_frame(id, window, 0, false)))
        } else {
            (
                (StateModel { response_streams: without(self.response_streams, id), ..self })
                    .remembering(generation, id, now),
                self.sends(generation, error_frame(id, "downstream request closed"@)),
            )
        }
    }

    /// The end of a response body.
    pub open spec fn on_response_end(self, id: Seq<char>, generation: u64, now: u64) -> Step {
        match entry(self.response_streams, id) {
            None => (self, Seq::empty()),
            Some(slot) => {
                let sink = slot.data;
                let message = "response content length mismatch"@;
                let actions = if sink.expected is Some && sink.expected->0 != sink.received {
                    seq![ActionModel::BodyError { id, message }] + self.sends(
                        generation,
                        error_frame(id, message),
                    )
                } else if slot.session is Some {
                    seq![ActionModel::BodyEnd { id }] + self.sends(
                        generation,
                        window_frame(id, 0, sink.received as u64, true),
                    )
                } else {
                    seq![ActionModel::BodyEnd { id }]
                };
                (
                    (StateModel { response_streams: without(self.response_streams, id), ..self })
                        .remembering(generation, id, now),
                    actions,
                )
            },
        }
    }

    /// A grant of credits for a request body.
    pub open spec fn on_window(
        self,
        id: Seq<char>,
        credits: usize,
        ack: Option<u64>,
        generation: u64,
    ) -> Step {
        match entry(self.stream_credits, id) {
            None => (self, Seq::empty()),
            Some(slot) => if slot.generation == Some(generation) {
                (
                    StateModel {
                        stream_credits: self.stream_credits.update(
                            place(self.stream_credits, id) as int,
                            SlotModel { data: slot.data.granted(credits, ack), ..slot },
                        ),
                        ..self
                    },
                    if slot.data.resuming && ack is Some {
                        seq![ActionModel::ResumeUpload { id }]
                    } else {
                        Seq::empty()
                    },
                )
            } else {
                (self, Seq::empty())
            },
        }
    }

    /// An error of the peer ends whatever bears the name.
    pub open spec fn on_error(
        self,
        id: Seq<char>,
        message: Seq<char>,
        generation: u64,
        now: u64,
    ) -> Step {
        let quiet = StateModel { stream_credits: without(self.stream_credits, id), ..self };
        if entry(self.pending_http, id) is Some {
            (
                StateModel { pending_http: without(self.pending_http, id), ..quiet },
                seq![ActionModel::Answer { id, answer: AnswerModel::Failed { message } }],
            )
        } else if entry(self.response_streams, id) is Some {
            (
                (StateModel { response_streams: without(self.response_streams, id), ..quiet })
                    .remembering(generation, id, now),
                seq![ActionModel::BodyError { id, message }],
            )
        } else {
            (quiet, self.channel_actions(id, error_frame(id, message), generation))
        }
    }

    /// A frame for a WebSocket channel of the connection.
    pub open spec fn channel_actions(
        self,
        id: Seq<char>,
        frame: FrameModel,
        generation: u64,
    ) -> Seq<ActionModel> {
        match entry(self.pending_ws, id) {
            Some(channel) => if channel.generation == Some(generation) {
                seq![ActionModel::ChannelFrame { id, frame }]
            } else {
                Seq::empty()
            },
            None => Seq::empty(),
        }
    }

    /// After a WebSocket channel could not take a frame.
    pub open spec fn on_channel_full(
        self,
        id: Seq<char>,
        generation: u64,
        report: bool,
        now: u64,
    ) -> Step {
        (
            (StateModel { pending_ws: without(self.pending_ws, id), ..self }).remembering(
                generation,
                id,
                now,
            ),
            if report {
                self.sends(generation, error_frame(id, "WebSocket channel queue limit reached"@))
            } else {
                Seq::empty()
            },
        )
    }

    /// What a frame of a connection does. Frames of a connection that is not
    /// the latest do nothing.
    pub open spec fn on_frame(self, frame: FrameModel, generation: u64, now: u64) -> Step {
        if self.active_generation != generation {
            (self, Seq::empty())
        } else {
            match frame {
                FrameModel::Hello { .. } => self.on_hello(frame, generation, now),
                FrameModel::Ping { id, timestamp } => (
                    self,
                    self.sends(generation, FrameModel::Pong { id, timestamp }),
                ),
                FrameModel::HttpResp { id, status, headers, body } => self.on_response(
                    id,
                    status,
                    headers,
                    body,
                    generation,
                ),
                FrameModel::HttpRespBegin { id, status, headers, content_length } =>
                    self.on_response_begin(id, status, headers, content_length, generation, now),
                FrameModel::HttpRespEnd { id } => self.on_response_end(id, generation, now),
                FrameModel::Window { id, credits, ack_offset, .. } => self.on_window(
                    id,
                    credits,
                    ack_offset,
                    generation,
                ),
                FrameModel::Error { id, message } => self.on_error(id, message, generation, now),
                FrameModel::WsConnected { id } => (
                    self,
                    self.channel_actions(id, frame, generation),
                ),
                FrameModel::WsMessage { id, .. } => (
                    self,
                    self.channel_actions(id, frame, generation),
                ),
                FrameModel::WsClose { id, .. } => (
                    self,
                    self.channel_actions(id, frame, generation),
                ),
                _ => (self, Seq::empty()),
            }
        }
    }

    /// A piece of a response body.
    pub open spec fn on_body_piece(self, e: EnvelopeModel, generation: u64, now: u64) -> Result<
        Step,
        Seq<char>,
    > {
        let id = e.id;
        match entry(self.response_streams, id) {
            None => if is_closed(self.terminated, generation, id, now) {
                Ok((self, Seq::empty()))
            } else {
                Err("response data for unknown stream: "@ + id)
            },
            Some(slot) => {
                let sink = slot.data;
                let at = if slot.session is Some {
                    e.offset->0 as int
                } else {
                    sink.received as int
                };
                let end = at + e.payload.len();
                if slot.generation != Some(generation) {
                    Ok((self, Seq::empty()))
                } else if slot.session is Some && e.offset is None {
                    Err("resumable response chunk is missing offset: "@ + id)
                } else if end > u64::MAX {
                    Err("response offset overflow for stream: "@ + id)
                } else if at < sink.received && end <= sink.received {
                    Ok(
                        (
                            self,
                            self.sends(
                                generation,
                                window_frame(id, 0, sink.received as u64, false),
                            ),
                        ),
                    )
                } else if at < sink.received {
                    Err("overlapping response chunk for stream: "@ + id)
                } else if at > sink.received {
                    Err("response chunk gap for stream: "@ + id)
                } else if end > usize::MAX {
                    Err("response size overflow for stream: "@ + id)
                } else if end > sink.max_body_size || (sink.expected is Some && end
                    > sink.expected->0) {
                    let message = "response body exceeds advertised or negotiated limit"@;
                    Ok(
                        (
                            (StateModel {
                                response_streams: without(self.response_streams, id),
                                ..self
                            }).remembering(generation, id, now),
                            seq![ActionModel::BodyError { id, message }] + self.sends(
                                generation,
                                error_frame(id, message),
                            ),
                        ),
                    )
                } else {
                    Ok(
                        (
                            StateModel {
                                response_streams: self.response_streams.update(
                                    place(self.response_streams, id) as int,
                                    SlotModel {
                                        data: ResponseSink {
                                            received: end as usize,
                                            queued: bumped(sink.queued),
                                            ..sink
                                        },
                                        ..slot
                                    },
                                ),
                                ..self
                            },
                            seq![
                                ActionModel::Chunk { id, offset: at as u64, payload: e.payload },
                            ],
                        ),
                    )
                }
            },
        }
    }

    /// After a chunk was, or could not be, queued for the reader downstream.
    pub open spec fn on_chunk_delivered(
        self,
        id: Seq<char>,
        generation: u64,
        delivered: bool,
        end_of_body: bool,
        now: u64,
    ) -> Step {
        let gone = (StateModel {
            response_streams: without(self.response_streams, id),
            ..self
        }).remembering(generation, id, now);
        if !delivered {
            (gone, self.sends(generation, error_frame(id, "downstream response closed"@)))
        } else if end_of_body {
            match entry(self.response_streams, id) {
                None => (self, Seq::empty()),
                Some(slot) => {
                    let message = "response content length mismatch"@;
                    if slot.data.expected is Some && slot.data.expected->0 != slot.data.received {
                        (
                            gone,
                            seq![ActionModel::BodyError { id, message }] + self.sends(
                                generation,
                                error_frame(id, message),
                            ),
                        )
                    } else {
                        (gone, seq![ActionModel::BodyEnd { id }])
                    }
                },
            }
        } else {
            (self, Seq::empty())
        }
    }

    /// After the reader downstream took a chunk.
    pub open spec fn on_chunk_consumed(self, id: Seq<char>, ack: u64) -> Step {
        match entry(self.response_streams, id) {
            None => (self, Seq::empty()),
            Some(slot) => (
                StateModel {
                    response_streams: self.response_streams.update(
                        place(self.response_streams, id) as int,
                        SlotModel {
                            data: ResponseSink { queued: lowered(slot.data.queued), ..slot.data },
                            ..slot
                        },
                    ),
                    ..self
                },
                match slot.generation {
                    Some(generation) => self.sends(generation, window_frame(id, 1, ack, false)),
                    None => Seq::empty(),
                },
            ),
        }
    }

    /// What an envelope of a connection does, or why the connection cannot go
    /// on. Envelopes of a connection that is not the active one do nothing.
    pub open spec fn on_envelope(self, e: EnvelopeModel, generation: u64, now: u64) -> Result<
        Step,
        Seq<char>,
    > {
        if self.active_client != Some(generation) {
            Ok((self, Seq::empty()))
        } else {
            match e.kind {
                BinaryKind::HttpResponse => self.on_body_piece(e, generation, now),
                BinaryKind::HttpRequest => Err(
                    "TunnelClient sent request-body data in the wrong direction"@,
                ),
                BinaryKind::WebSocket => match entry(self.pending_ws, e.id) {
                    None => if is_closed(self.terminated, generation, e.id, now) {
                        Ok((self, Seq::empty()))
                    } else {
                        Err("WebSocket data for unknown channel: "@ + e.id)
                    },
                    Some(channel) => if channel.generation != Some(generation) {
                        Ok((self, Seq::empty()))
                    } else {
                        Ok(
                            (
                                self,
                                seq![
                                    ActionModel::ChannelData {
                                        id: e.id,
                                        payload: e.payload,
                                        end_of_body: e.end_of_body,
                                    },
                                ],
                            ),
                        )
                    },
                },
            }
        }
    }
}

// ───────────────────────── control frames ─────────────────────────

fn push_frames(frames: Vec<Frame>, out: &mut Vec<Action>)
    ensures
        acts(final(out)@) == acts(old(out)@) + sent(Seq::new(frames@.len(), |i: int| frames@[i]@)),
{
    let ghost start = acts(out@);
    let ghost source = frames@;
    let ghost all = sent(Seq::new(source.len(), |i: int| source[i]@));
    assert(start =~= start + all.take(0));
    for frame in it: frames
        invariant
            it.seq() == source,
            all == sent(Seq::new(source.len(), |i: int| source[i]@)),
            acts(out@) == start + all.take(it.index() as int),
    {
        out.push(Action::Send { frame });
        assert(acts(out@) =~= start + all.take(it.index() as int + 1));
    }
    assert(all.take(all.len() as int) =~= all);
}

fn error_to(id: &str, message: &str) -> (r: Frame)
    ensures
        r@ == error_frame(id@, message@),
{
    Frame::Error { id: id.to_owned(), message: message.to_owned() }
}

impl State {
    fn receive_hello(&mut self, hello: &Frame, generation: u64, now: u64) -> (r: Vec<Action>)
        requires
            old(self)@.config.wf(),
            hello@ is Hello,
        ensures
            (final(self)@, acts(r@)) == old(self)@.on_hello(hello@, generation, now),
    {
        let mut out: Vec<Action> = Vec::new();
        let (protocol, session) = match negotiate(hello, &self.config) {
            Some(agreement) => agreement,
            None => {
                return out;
            },
        };
        if let Some(n) = &self.negotiated {
            if n.generation == generation {
                return out;
            }
        }
        let was_legacy = self.legacy_generation == generation;
        self.negotiated = Some(
            NegotiatedConnection {
                generation,
                protocol,
                session_id: opt_copy(&session),
                http: protocol.max_inflight,
                websocket: protocol.max_inflight,
            },
        );
        let ghost fixed = self@;
        assert(fixed == old(self)@.negotiating(hello@, generation));
        match &session {
            Some(name) => {
                self.fail_stale_sessions(
                    name.as_str(),
                    "tunnel client session was replaced",
                    &mut out,
                );
                let windows = self.rebind_resumable_session(name.as_str(), generation);
                self.resend_pending_requests(generation, &session, now, &mut out);
                if self.active_client == Some(generation) {
                    push_frames(windows, &mut out);
                }
                assert(acts(out@) =~= old(self)@.on_hello(hello@, generation, now).1);
            },
            None => {
                if !was_legacy {
                    self.resend_pending_requests(generation, &None, now, &mut out);
                    assert(acts(out@) =~= old(self)@.on_hello(hello@, generation, now).1);
                }
            },
        }
        out
    }

    fn receive_response(&mut self, frame: Frame, generation: u64) -> (r: Vec<Action>)
        ensures
            frame@ matches FrameModel::HttpResp { id, status, headers, body } ==> (
            final(self)@,
            acts(r@),
        ) == old(self)@.on_response(id, status, headers, body, generation),
            !(frame@ is HttpResp) ==> final(self)@ == old(self)@ && acts(r@).len() == 0,
    {
        let mut out: Vec<Action> = Vec::new();
        match frame {
            Frame::HttpResp { id, status, headers, body } => {
                if let Some(waiter) = self.pending_http.remove(id.as_str()) {
                    let answer = if !headers_within_limits(&headers) {
                        Answer::Failed { message: "response headers exceed tunnel limit".to_owned() }
                    } else if waiter.generation.is_none() || waiter.generation == Some(generation) {
                        Answer::Legacy { status, headers, body }
                    } else {
                        Answer::Failed { message: "response belongs to a stale connection".to_owned() }
                    };
                    out.push(Action::Answer { id, answer });
                    assert(acts(out@) =~= seq![out@[0]@]);
                } else {
                    proof {
                        absent(old(self)@.pending_http, id@);
                    }
                }
            },
            _ => {},
        }
        out
    }

    fn receive_response_begin(&mut self, frame: Frame, generation: u64, now: u64) -> (r: Vec<
        Action,
    >)
        ensures
            frame@ matches FrameModel::HttpRespBegin { id, status, headers, content_length } ==> (
            final(self)@,
            acts(r@),
        ) == old(self)@.on_response_begin(id, status, headers, content_length, generation, now),
            !(frame@ is HttpRespBegin) ==> final(self)@ == old(self)@ && acts(r@).len() == 0,
    {
        let mut out: Vec<Action> = Vec::new();
        let (id, status, headers, content_length) = match frame {
            Frame::HttpRespBegin { id, status, headers, content_length } => (
                id,
                status,
                headers,
                content_length,
            ),
            _ => {
                return out;
            },
        };
        let ghost expected = old(self)@.on_response_begin(
            id@,
            status,
            pairs(headers@),
            content_length,
            generation,
            now,
        );
        let waiter = match self.pending_http.remove(id.as_str()) {
            Some(waiter) => waiter,
            None => {
                proof {
                    absent(old(self)@.pending_http, id@);
                }
                return out;
            },
        };
        let limits = match self.active_protocol() {
            Some((_, limits)) => limits,
            None => {
                out.push(
                    Action::Answer {
                        id,
                        answer: Answer::Failed {
                            message: "streaming response belongs to a stale connection".to_owned(),
                        },
                    },
                );
                assert(acts(out@) =~= expected.1);
                return out;
            },
        };
        if waiter.generation.is_some() && waiter.generation != Some(generation) {
            out.push(
                Action::Answer {
                    id,
                    answer: Answer::Failed {
                        message: "streaming response belongs to a stale connection".to_owned(),
                    },
                },
            );
            assert(acts(out@) =~= expected.1);
            return out;
        }
        if !headers_within_limits(&headers) {
            let error = error_to(id.as_str(), "response headers exceed tunnel limit");
            out.push(
                Action::Answer {
                    id,
                    answer: Answer::Failed {
                        message: "response headers exceed tunnel limit".to_owned(),
                    },
                },
            );
            self.send_to_generation(generation, error, &mut out);
            assert(acts(out@) =~= expected.1);
            return out;
        }
        let _ = self.pending_requests.remove(id.as_str());
        let _ = self.stream_credits.remove(id.as_str());
        let too_long = match content_length {
            Some(n) => n > limits.max_body_size as u64,
            None => false,
        };
        if too_long {
            let error = error_to(id.as_str(), "response body exceeds negotiated limit");
            self.send_failure(
                id.as_str(),
                "response body exceeds negotiated limit",
                generation,
                error,
                &mut out,
            );
            self.remember_terminated_stream(generation, id.as_str(), now);
            assert(acts(out@) =~= expected.1);
            return out;
        }
        self.response_streams.insert(
            Slot {
                id: id.clone(),
                generation: Some(generation),
                session: waiter.session,
                data: ResponseSink {
                    received: 0,
                    expected: match content_length {
                        Some(n) => Some(n as usize),
                        None => None,
                    },
                    max_body_size: limits.max_body_size,
                    queued: 0,
                    window: limits.stream_window_frames,
                },
            },
        );
        out.push(
            Action::Answer {
                id,
                answer: Answer::Streaming {
                    generation,
                    status: valid_status(status),
                    headers,
                    content_length,
                    window: limits.stream_window_frames,
                },
            },
        );
        assert(acts(out@) =~= expected.1);
        out
    }

    fn send_failure(
        &self,
        id: &str,
        message: &str,
        generation: u64,
        error: Frame,
        out: &mut Vec<Action>,
    )
        ensures
            acts(final(out)@) == acts(old(out)@) + (seq![
                ActionModel::Answer { id: id@, answer: AnswerModel::Failed { message: message@ } },
            ] + self@.sends(generation, error@)),
    {
        let ghost start = acts(out@);
        out.push(
            Action::Answer {
                id: id.to_owned(),
                answer: Answer::Failed { message: message.to_owned() },
            },
        );
        self.send_to_generation(generation, error, out);
        assert(acts(out@) =~= start + (seq![
            ActionModel::Answer { id: id@, answer: AnswerModel::Failed { message: message@ } },
        ] + self@.sends(generation, error@)));
    }

    /// Follows a streaming answer: grants the peer its first window where the
    /// exchange took the answer, and ends the stream where it did not.
    pub fn streaming_answered(
        &mut self,
        id: &str,
        generation: u64,
        window: usize,
        delivered: bool,
        now: u64,
    ) -> (r: Vec<Action>)
        ensures
            (final(self)@, acts(r@)) == old(self)@.on_begin_answered(
                id@,
                generation,
                window,
                delivered,
                now,
            ),
    {
        let mut out: Vec<Action> = Vec::new();
        if delivered {
            self.send_to_generation(
                generation,
                Frame::Window {
                    id: id.to_owned(),
                    credits: window,
                    ack_offset: Some(0),
                    complete: false,
                },
                &mut out,
            );
        } else {
            let _ = self.response_streams.remove(id);
            self.remember_terminated_stream(generation, id, now);
            self.send_to_generation(generation, error_to(id, "downstream request closed"), &mut out);
        }
        assert(acts(out@) =~= old(self)@.on_begin_answered(
            id@,
            generation,
            window,
            delivered,
            now,
        ).1);
        out
    }

    fn receive_response_end(&mut self, id: &str, generation: u64, now: u64) -> (r: Vec<Action>)
        ensures
            (final(self)@, acts(r@)) == old(self)@.on_response_end(id@, generation, now),
    {
        let mut out: Vec<Action> = Vec::new();
        if let Some(slot) = self.response_streams.remove(id) {
            let sink = slot.data;
            let mismatch = match sink.expected {
                Some(n) => n != sink.received,
                None => false,
            };
            if mismatch {
                out.push(
                    Action::BodyError {
                        id: id.to_owned(),
                        message: "response content length mismatch".to_owned(),
                    },
                );
                self.send_to_generation(
                    generation,
                    error_to(id, "response content length mismatch"),
                    &mut out,
                );
            } else {
                out.push(Action::BodyEnd { id: id.to_owned() });
                if slot.session.is_some() {
                    self.send_to_generation(
                        generation,
                        Frame::Window {
                            id: id.to_owned(),
                            credits: 0,
                            ack_offset: Some(sink.received as u64),
                            complete: true,
                        },
                        &mut out,
                    );
                }
            }
            self.remember_terminated_stream(generation, id, now);
            assert(acts(out@) =~= old(self)@.on_response_end(id@, generation, now).1);
        } else {
            proof {
                absent(old(self)@.response_streams, id@);
            }
        }
        out
    }

    fn receive_window(
        &mut self,
        id: &str,
        credits: usize,
        ack: Option<u64>,
        generation: u64,
    ) -> (r: Vec<Action>)
        ensures
            (final(self)@, acts(r@)) == old(self)@.on_window(id@, credits, ack, generation),
    {
        let mut out: Vec<Action> = Vec::new();
        if let Some(i) = self.stream_credits.position(id) {
            proof {
                place_bound(self.stream_credits@, id@);
            }
            if self.stream_credits.slots[i].generation == Some(generation) {
                let ghost before = self.stream_credits@;
                let resume = self.stream_credits.slots[i].data.grant(credits, ack);
                assert(self.stream_credits@ =~= before.update(
                    i as int,
                    SlotModel {
                        data: before[i as int].data.granted(credits, ack),
                        ..before[i as int]
                    },
                ));
                if resume {
                    out.push(Action::ResumeUpload { id: id.to_owned() });
                }
                assert(acts(out@) =~= old(self)@.on_window(id@, credits, ack, generation).1);
            }
        }
        out
    }

    fn push_to_channel(&self, id: &str, frame: Frame, generation: u64, out: &mut Vec<Action>)
        ensures
            acts(final(out)@) == acts(old(out)@) + self@.channel_actions(id@, frame@, generation),
    {
        let ghost start = acts(out@);
        if let Some(channel) = self.pending_ws.get(id) {
            if channel.generation == Some(generation) {
                out.push(Action::ChannelFrame { id: id.to_owned(), frame });
            }
        }
        assert(acts(out@) =~= start + self@.channel_actions(id@, frame@, generation));
    }

    fn receive_error(&mut self, id: &str, message: &str, generation: u64, now: u64) -> (r: Vec<
        Action,
    >)
        ensures
            (final(self)@, acts(r@)) == old(self)@.on_error(id@, message@, generation, now),
    {
        let mut out: Vec<Action> = Vec::new();
        let _ = self.stream_credits.remove(id);
        if let Some(_) = self.pending_http.remove(id) {
            out.push(
                Action::Answer {
                    id: id.to_owned(),
                    answer: Answer::Failed { message: message.to_owned() },
                },
            );
            assert(acts(out@) =~= old(self)@.on_error(id@, message@, generation, now).1);
            return out;
        }
        proof {
            absent(old(self)@.pending_http, id@);
        }
        if let Some(_) = self.response_streams.remove(id) {
            out.push(Action::BodyError { id: id.to_owned(), message: message.to_owned() });
            self.remember_terminated_stream(generation, id, now);
            assert(acts(out@) =~= old(self)@.on_error(id@, message@, generation, now).1);
            return out;
        }
        proof {
            absent(old(self)@.response_streams, id@);
        }
        self.push_to_channel(id, error_to(id, message), generation, &mut out);
        assert(acts(out@) =~= old(self)@.on_error(id@, message@, generation, now).1);
        out
    }

    /// Follows a frame or a piece that a WebSocket channel could not take: ends
    /// the channel, and tells the peer where `report` says so.
    pub fn channel_rejected(&mut self, id: &str, generation: u64, report: bool, now: u64) -> (r: Vec<
        Action,
    >)
        ensures
            (final(self)@, acts(r@)) == old(self)@.on_channel_full(id@, generation, report, now),
    {
        let mut out: Vec<Action> = Vec::new();
        let _ = self.pending_ws.remove(id);
        self.remember_terminated_stream(generation, id, now);
        if report {
            self.send_to_generation(
                generation,
                error_to(id, "WebSocket channel queue limit reached"),
                &mut out,
            );
        }
        assert(acts(out@) =~= old(self)@.on_channel_full(id@, generation, report, now).1);
        out
    }

    /// Takes a control frame of a connection.
    pub fn dispatch_from_client(&mut self, frame: Frame, generation: u64, now: u64) -> (r: Vec<
        Action,
    >)
        requires
            old(self)@.config.wf(),
        ensures
            (final(self)@, acts(r@)) == old(self)@.on_frame(frame@, generation, now),
    {
        let mut out: Vec<Action> = Vec::new();
        if self.active_generation != generation {
            return out;
        }
        match &frame {
            Frame::Hello { .. } => self.receive_hello(&frame, generation, now),
            Frame::Ping { id, timestamp } => {
                self.send_to_generation(
                    generation,
                    Frame::Pong { id: id.clone(), timestamp: *timestamp },
                    &mut out,
                );
                assert(acts(out@) =~= old(self)@.on_frame(frame@, generation, now).1);
                out
            },
            Frame::HttpResp { .. } => self.receive_response(frame, generation),
            Frame::HttpRespBegin { .. } => self.receive_response_begin(frame, generation, now),
            Frame::HttpRespEnd { id } => self.receive_response_end(id.as_str(), generation, now),
            Frame::Window { id, credits, ack_offset, complete: _ } => self.receive_window(
                id.as_str(),
                *credits,
                *ack_offset,
                generation,
            ),
            Frame::Error { id, message } => self.receive_error(
                id.as_str(),
                message.as_str(),
                generation,
                now,
            ),
            Frame::WsConnected { id } => {
                self.push_to_channel(id.as_str(), frame.duplicate(), generation, &mut out);
                assert(acts(out@) =~= old(self)@.on_frame(frame@, generation, now).1);
                out
            },
            Frame::WsMessage { id, data: _, binary: _ } => {
                self.push_to_channel(id.as_str(), frame.duplicate(), generation, &mut out);
                assert(acts(out@) =~= old(self)@.on_frame(frame@, generation, now).1);
                out
            },
            Frame::WsClose { id, code: _, reason: _ } => {
                self.push_to_channel(id.as_str(), frame.duplicate(), generation, &mut out);
                assert(acts(out@) =~= old(self)@.on_frame(frame@, generation, now).1);
                out
            },
            _ => out,
        }
    }
}

proof fn absent<M>(s: Seq<SlotModel<M>>, id: Seq<char>)
    requires
        entry(s, id) is None,
    ensures
        without(s, id) == s,
{
    place_bound(s, id);
    keeps_all(s, id);
}

proof fn keeps_all<M>(s: Seq<SlotModel<M>>, id: Seq<char>)
    requires
        forall|j: int| 0 <= j < s.len() ==> s[j].id != id,
    ensures
        without(s, id) == s,
    decreases s.len(),
{
    reveal(Seq::filter);
    if s.len() > 0 {
        keeps_all(s.drop_last(), id);
        assert(s.drop_last().push(s.last()) =~= s);
    } else {
        assert(without(s, id) =~= s);
    }
}

// ───────────────────────── envelopes ─────────────────────────

impl State {
    fn receive_body_piece(&mut self, e: BinaryEnvelope, generation: u64, now: u64) -> (r: Result<
        Vec<Action>,
        String,
    >)
        ensures
            match r {
                Ok(actions) => old(self)@.on_body_piece(e@, generation, now) == Ok::<
                    Step,
                    Seq<char>,
                >((final(self)@, acts(actions@))),
                Err(m) => old(self)@.on_body_piece(e@, generation, now) == Err::<Step, Seq<char>>(m@)
                    && final(self)@ == old(self)@,
            },
    {
        let mut out: Vec<Action> = Vec::new();
        let i = match self.response_streams.position(e.id.as_str()) {
            Some(i) => i,
            None => {
                if self.is_terminated_stream(generation, e.id.as_str(), now) {
                    return Ok(out);
                }
                return Err(join("response data for unknown stream: ", e.id.as_str()));
            },
        };
        proof {
            place_bound(self.response_streams@, e.id@);
        }
        let ghost slot = self.response_streams@[i as int];
        if self.response_streams.slots[i].generation != Some(generation) {
            return Ok(out);
        }
        let sink = self.response_streams.slots[i].data;
        let at: u64 = if self.response_streams.slots[i].session.is_some() {
            match e.offset {
                Some(n) => n,
                None => {
                    return Err(
                        join("resumable response chunk is missing offset: ", e.id.as_str()),
                    );
                },
            }
        } else {
            sink.received as u64
        };
        let len: u64 = e.payload.len() as u64;
        if len > u64::MAX - at {
            return Err(join("response offset overflow for stream: ", e.id.as_str()));
        }
        let end: u64 = at + len;
        let received: u64 = sink.received as u64;
        if at < received {
            if end <= received {
                self.send_to_generation(
                    generation,
                    Frame::Window {
                        id: e.id.clone(),
                        credits: 0,
                        ack_offset: Some(received),
                        complete: false,
                    },
                    &mut out,
                );
                assert(acts(out@) =~= self@.sends(
                    generation,
                    window_frame(e.id@, 0, received, false),
                ));
                return Ok(out);
            }
            return Err(join("overlapping response chunk for stream: ", e.id.as_str()));
        }
        if at > received {
            return Err(join("response chunk gap for stream: ", e.id.as_str()));
        }
        if end > usize::MAX as u64 {
            return Err(join("response size overflow for stream: ", e.id.as_str()));
        }
        let total: usize = end as usize;
        let over = total > sink.max_body_size || match sink.expected {
            Some(n) => total > n,
            None => false,
        };
        if over {
            let _ = self.response_streams.remove(e.id.as_str());
            self.remember_terminated_stream(generation, e.id.as_str(), now);
            out.push(
                Action::BodyError {
                    id: e.id.clone(),
                    message: "response body exceeds advertised or negotiated limit".to_owned(),
                },
            );
            self.send_to_generation(
                generation,
                error_to(e.id.as_str(), "response body exceeds advertised or negotiated limit"),
                &mut out,
            );
            assert(acts(out@) =~= (old(self)@.on_body_piece(e@, generation, now)->Ok_0).1);
            return Ok(out);
        }
        let ghost before = self.response_streams@;
        self.response_streams.slots[i].data.received = total;
        self.response_streams.slots[i].data.queued = if sink.queued < usize::MAX {
            sink.queued + 1
        } else {
            0
        };
        assert(self.response_streams@ =~= before.update(
            i as int,
            SlotModel {
                data: ResponseSink { received: total, queued: bumped(sink.queued), ..sink },
                ..slot
            },
        ));
        out.push(Action::Chunk { id: e.id, offset: at, payload: e.payload });
        assert(acts(out@) =~= (old(self)@.on_body_piece(e@, generation, now)->Ok_0).1);
        Ok(out)
    }

    /// Follows a chunk of a response body: ends the stream where the reader
    /// downstream could not take the chunk, or where the chunk was the last.
    pub fn chunk_delivered(
        &mut self,
        id: &str,
        generation: u64,
        delivered: bool,
        end_of_body: bool,
        now: u64,
    ) -> (r: Vec<Action>)
        ensures
            (final(self)@, acts(r@)) == old(self)@.on_chunk_delivered(
                id@,
                generation,
                delivered,
                end_of_body,
                now,
            ),
    {
        let mut out: Vec<Action> = Vec::new();
        if !delivered {
            let _ = self.response_streams.remove(id);
            self.remember_terminated_stream(generation, id, now);
            self.send_to_generation(
                generation,
                error_to(id, "downstream response closed"),
                &mut out,
            );
        } else if end_of_body {
            if let Some(slot) = self.response_streams.remove(id) {
                let mismatch = match slot.data.expected {
                    Some(n) => n != slot.data.received,
                    None => false,
                };
                if mismatch {
                    out.push(
                        Action::BodyError {
                            id: id.to_owned(),
                            message: "response content length mismatch".to_owned(),
                        },
                    );
                    self.send_to_generation(
                        generation,
                        error_to(id, "response content length mismatch"),
                        &mut out,
                    );
                } else {
                    out.push(Action::BodyEnd { id: id.to_owned() });
                }
                self.remember_terminated_stream(generation, id, now);
            } else {
                proof {
                    absent(old(self)@.response_streams, id@);
                }
            }
        }
        assert(acts(out@) =~= old(self)@.on_chunk_delivered(
            id@,
            generation,
            delivered,
            end_of_body,
            now,
        ).1);
        out
    }

    /// Acknowledges a chunk that the reader downstream took, and grants the
    /// peer one more.
    pub fn chunk_consumed(&mut self, id: &str, offset: u64, len: usize) -> (r: Vec<Action>)
        ensures
            (final(self)@, acts(r@)) == old(self)@.on_chunk_consumed(
                id@,
                least(offset + len, u64::MAX as int) as u64,
            ),
    {
        let mut out: Vec<Action> = Vec::new();
        let ack: u64 = if len as u64 <= u64::MAX - offset {
            offset + len as u64
        } else {
            u64::MAX
        };
        if let Some(i) = self.response_streams.position(id) {
            let ghost before = self.response_streams@;
            let ghost slot = before[i as int];
            let generation = self.response_streams.slots[i].generation;
            let queued: usize = self.response_streams.slots[i].data.queued;
            self.response_streams.slots[i].data.queued = if queued > 0 {
                queued - 1
            } else {
                usize::MAX
            };
            assert(self.response_streams@ =~= before.update(
                i as int,
                SlotModel {
                    data: ResponseSink { queued: lowered(queued), ..slot.data },
                    ..slot
                },
            ));
            if let Some(g) = generation {
                self.send_to_generation(
                    g,
                    Frame::Window {
                        id: id.to_owned(),
                        credits: 1,
                        ack_offset: Some(ack),
                        complete: false,
                    },
                    &mut out,
                );
            }
            assert(acts(out@) =~= old(self)@.on_chunk_consumed(id@, ack).1);
        }
        out
    }

    /// Takes a binary envelope of a connection. An error ends the connection.
    pub fn dispatch_binary_from_client(
        &mut self,
        envelope: BinaryEnvelope,
        generation: u64,
        now: u64,
    ) -> (r: Result<Vec<Action>, String>)
        ensures
            match r {
                Ok(actions) => old(self)@.on_envelope(envelope@, generation, now) == Ok::<
                    Step,
                    Seq<char>,
                >((final(self)@, acts(actions@))),
                Err(m) => old(self)@.on_envelope(envelope@, generation, now) == Err::<
                    Step,
                    Seq<char>,
                >(m@) && final(self)@ == old(self)@,
            },
    {
        let mut out: Vec<Action> = Vec::new();
        if self.active_client != Some(generation) {
            return Ok(out);
        }
        match envelope.kind {
            BinaryKind::HttpResponse => self.receive_body_piece(envelope, generation, now),
            BinaryKind::HttpRequest => Err(
                "TunnelClient sent request-body data in the wrong direction".to_owned(),
            ),
            BinaryKind::WebSocket => {
                match self.pending_ws.get(envelope.id.as_str()) {
                    None => {
                        if self.is_terminated_stream(generation, envelope.id.as_str(), now) {
                            Ok(out)
                        } else {
                            Err(
                                join(
                                    "WebSocket data for unknown channel: ",
                                    envelope.id.as_str(),
                                ),
                            )
                        }
                    },
                    Some(channel) => {
                        if channel.generation != Some(generation) {
                            return Ok(out);
                        }
                        out.push(
                            Action::ChannelData {
                                id: envelope.id,
                                payload: envelope.payload,
                                end_of_body: envelope.end_of_body,
                            },
                        );
                        assert(acts(out@) =~= (old(self)@.on_envelope(
                            envelope@,
                            generation,
                            now,
                        )->Ok_0).1);
                        Ok(out)
                    },
                }
            },
        }
    }
}

} // verus!
