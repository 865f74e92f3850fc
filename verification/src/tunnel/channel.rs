//! WebSocket channels through the tunnel.
use super::config::{greatest, least, DEFAULT_STREAM_WINDOW_FRAMES, MAX_V1_BODY_BYTES};
use super::dispatch::Step;
use super::envelope::{
    encoded, stream_id, BinaryEnvelope, BinaryKind, EnvelopeModel, Sequence,
};
use super::exchange::{
    base64_bytes, base64_decode, base64_encode, base64_text, lower_literals,
};
use super::frame::{pairs, Frame, FrameModel, HeaderList, Pairs};
use super::registry::{entry, with, without, Slot, SlotModel};
use super::state::{
    acts, acts_empty, acts_push, error_frame, Action, ActionModel, ConnectionProtocol, ModeModel,
    Permit, State, StateModel, Waiter,
};
use super::upload::{chunks, chunks_join, joined, joined_parts, split_chunks};
use crate::bytes::{byte_views, copy_all};
use crate::numbers::after;
use crate::text::{lower, same, same_ignoring_case};
use vstd::prelude::*;

verus! {

broadcast use {acts_push, acts_empty};

// ───────────────────────── handshake ─────────────────────────

/// Headers with the value of one name replaced, or the name added at the end.
pub open spec fn put(headers: Pairs, name: Seq<char>, value: Seq<char>) -> Pairs {
    headers.filter(|h: (Seq<char>, Seq<char>)| h.0 != name).push((name, value))
}

/// The first `n` headers of a handshake without `Host`, one value for each
/// name: the last.
pub open spec fn handshake(headers: Pairs, n: nat) -> Pairs
    decreases n,
{
    if n == 0 {
        Seq::empty()
    } else {
        let before = handshake(headers, (n - 1) as nat);
        let h = headers[n - 1];
        if lower(h.0) == "host"@ {
            before
        } else {
            put(before, h.0, h.1)
        }
    }
}

fn put_header(headers: &mut HeaderList, name: &str, value: &str)
    ensures
        pairs(final(headers)@) == put(pairs(old(headers)@), name@, value@),
{
    let ghost s = pairs(headers@);
    let ghost pred = |h: (Seq<char>, Seq<char>)| h.0 != name@;
    let mut i: usize = 0;
    let ghost mut n: int = 0;
    proof {
        super::registry::filter_empty(pred);
        assert(s.take(0) =~= Seq::empty());
        assert(s =~= s.take(0).filter(pred) + s.skip(0));
    }
    while i < headers.len()
        invariant
            pred == (|h: (Seq<char>, Seq<char>)| h.0 != name@),
            0 <= n <= s.len(),
            i == s.take(n).filter(pred).len(),
            pairs(headers@) == s.take(n).filter(pred) + s.skip(n),
        decreases s.len() - n,
    {
        let ghost before = pairs(headers@);
        proof {
            assert(before[i as int] == s[n]);
            super::registry::filter_extends(s, n, pred);
        }
        if same(headers[i].0.as_str(), name) {
            let _ = headers.remove(i);
            assert(pairs(headers@) =~= before.remove(i as int));
        } else {
            i = i + 1;
        }
        assert(pairs(headers@) =~= s.take(n + 1).filter(pred) + s.skip(n + 1));
        proof {
            n = n + 1;
        }
    }
    proof {
        assert(s.take(n) =~= s);
        assert(pairs(headers@) =~= s.filter(pred));
    }
    headers.push((name.to_owned(), value.to_owned()));
    assert(pairs(headers@) =~= put(s, name@, value@));
}

/// The headers of a handshake that go to the upstream.
pub fn handshake_headers(headers: &HeaderList) -> (r: HeaderList)
    ensures
        pairs(r@) == handshake(pairs(headers@), headers@.len()),
{
    let ghost h = pairs(headers@);
    let mut out: HeaderList = Vec::new();
    proof {
        lower_literals();
        assert(pairs(out@) =~= Seq::empty());
    }
    for i in 0..headers.len()
        invariant
            h == pairs(headers@),
            lower("host"@) == "host"@,
            pairs(out@) == handshake(h, i as nat),
    {
        assert(h[i as int] == (headers@[i as int].0@, headers@[i as int].1@));
        if !same_ignoring_case(headers[i].0.as_str(), "host") {
            put_header(&mut out, headers[i].0.as_str(), headers[i].1.as_str());
        }
    }
    out
}

// ───────────────────────── opening ─────────────────────────

/// The limits of a channel: its connection, the longest message, and the
/// longest piece of one.
#[derive(Debug, Clone, Copy, PartialEq, Eq, Structural)]
pub struct ChannelLimits {
    pub generation: u64,
    pub permit: Permit,
    pub max_message: usize,
    pub max_chunk: usize,
}

impl StateModel {
    /// Where a channel, which holds a local permit, can be opened.
    pub open spec fn channel_route(self, mode: ModeModel) -> (
        StateModel,
        Result<ChannelLimits, Seq<char>>,
    ) {
        let idle = self.released(Permit::LocalWebSocket);
        match mode {
            ModeModel::Disconnected => (idle, Err("tunnel client is not connected"@)),
            ModeModel::Legacy { generation } => (
                self,
                Ok(
                    ChannelLimits {
                        generation,
                        permit: Permit::LocalWebSocket,
                        max_message: least(
                            self.config.max_body_bytes as int,
                            MAX_V1_BODY_BYTES as int,
                        ) as usize,
                        max_chunk: self.config.stream_chunk_bytes,
                    },
                ),
            ),
            ModeModel::Streaming { generation, protocol, .. } => {
                let permit = Permit::Negotiated { generation, websocket: true };
                if self.permits(permit) == 0 {
                    (idle, Err("tunnel negotiated WebSocket channel limit reached"@))
                } else {
                    (
                        self.taken(permit).released(Permit::LocalWebSocket),
                        Ok(
                            ChannelLimits {
                                generation,
                                permit,
                                max_message: protocol.max_ws_message_size,
                                max_chunk: protocol.max_stream_chunk,
                            },
                        ),
                    )
                }
            },
        }
    }

    /// After a channel was opened.
    pub open spec fn channel_opened(self, id: Seq<char>, generation: u64) -> StateModel {
        StateModel {
            pending_ws: with(
                self.pending_ws,
                SlotModel {
                    id,
                    generation: Some(generation),
                    session: None,
                    data: Waiter {  },
                },
            ),
            ..self
        }
    }

    /// After a channel of a connection ended.
    pub open spec fn channel_closed(self, id: Seq<char>, generation: u64, now: u64) -> StateModel {
        match entry(self.pending_ws, id) {
            Some(channel) => if channel.generation == Some(generation) {
                (StateModel { pending_ws: without(self.pending_ws, id), ..self }).remembering(
                    generation,
                    id,
                    now,
                )
            } else {
                self
            },
            None => self,
        }
    }
}

/// The pieces that the longest message takes.
pub open spec fn message_frames(max_message: usize, max_chunk: usize) -> int {
    (max_message + max_chunk - 1) / (max_chunk as int)
}

/// The frames that a channel's queue holds: enough for the longest message.
pub open spec fn channel_capacity(window: usize, max_message: usize, max_chunk: usize) -> int {
    greatest(
        greatest(window as int, DEFAULT_STREAM_WINDOW_FRAMES as int),
        message_frames(max_message, max_chunk) + 2,
    )
}

/// The size of a channel's queue.
pub fn queue_capacity(window: usize, max_message: usize, max_chunk: usize) -> (r: usize)
    requires
        max_chunk > 0,
        message_frames(max_message, max_chunk) + 2 <= usize::MAX,
    ensures
        r == channel_capacity(window, max_message, max_chunk),
{
    let whole: usize = max_message / max_chunk;
    proof {
        let m = max_message as int;
        let c = max_chunk as int;
        let w = whole as int;
        vstd::arithmetic::div_mod::lemma_fundamental_div_mod(m, c);
        let rest = m % c;
        if rest == 0 {
            assert((m + c - 1) / c == w) by (nonlinear_arith)
                requires
                    m == c * w,
                    c >= 1,
            ;
        } else {
            assert((m + c - 1) / c == w + 1) by (nonlinear_arith)
                requires
                    m == c * w + rest,
                    0 < rest < c,
            ;
        }
    }
    let frames: usize = if max_message % max_chunk == 0 {
        whole
    } else {
        whole + 1
    };
    let floor: usize = if window >= DEFAULT_STREAM_WINDOW_FRAMES {
        window
    } else {
        DEFAULT_STREAM_WINDOW_FRAMES
    };
    if floor >= frames + 2 {
        floor
    } else {
        frames + 2
    }
}

impl State {
    /// Admits a channel, which then holds a local permit, or refuses it.
    pub fn admit_channel(&mut self) -> (r: Result<(), String>)
        ensures
            final(self)@ == old(self)@.taken(Permit::LocalWebSocket),
            match r {
                Ok(()) => old(self)@.ws_permits > 0,
                Err(e) => old(self)@.ws_permits == 0 && e@
                    == "tunnel max WebSocket channel limit reached"@,
            },
    {
        if self.try_acquire(Permit::LocalWebSocket) {
            Ok(())
        } else {
            Err("tunnel max WebSocket channel limit reached".to_owned())
        }
    }

    /// Finds where an admitted channel can be opened.
    pub fn route_channel(&mut self, mode: &ConnectionProtocol) -> (r: Result<ChannelLimits, String>)
        ensures
            final(self)@ == old(self)@.channel_route(mode@).0,
            match r {
                Ok(limits) => old(self)@.channel_route(mode@).1 == Ok::<ChannelLimits, Seq<char>>(
                    limits,
                ),
                Err(e) => old(self)@.channel_route(mode@).1 == Err::<ChannelLimits, Seq<char>>(e@),
            },
    {
        match mode {
            ConnectionProtocol::Disconnected => {
                self.release(Permit::LocalWebSocket);
                Err("tunnel client is not connected".to_owned())
            },
            ConnectionProtocol::Legacy { generation } => {
                let max_message: usize = if self.config.max_body_bytes <= MAX_V1_BODY_BYTES {
                    self.config.max_body_bytes
                } else {
                    MAX_V1_BODY_BYTES
                };
                Ok(
                    ChannelLimits {
                        generation: *generation,
                        permit: Permit::LocalWebSocket,
                        max_message,
                        max_chunk: self.config.stream_chunk_bytes,
                    },
                )
            },
            ConnectionProtocol::Streaming { generation, protocol, session_id: _ } => {
                let permit = Permit::Negotiated { generation: *generation, websocket: true };
                if !self.try_acquire(permit) {
                    self.release(Permit::LocalWebSocket);
                    return Err("tunnel negotiated WebSocket channel limit reached".to_owned());
                }
                self.release(Permit::LocalWebSocket);
                Ok(
                    ChannelLimits {
                        generation: *generation,
                        permit,
                        max_message: protocol.max_ws_message_size,
                        max_chunk: protocol.max_stream_chunk,
                    },
                )
            },
        }
    }

    /// Opens a channel, and makes the frame to send for it.
    pub fn open_channel(
        &mut self,
        numbers: &mut Sequence,
        generation: u64,
        path: &str,
        headers: HeaderList,
    ) -> (r: (String, Frame))
        ensures
            r.0@ == stream_id(old(numbers).next),
            final(numbers).next == after(old(numbers).next),
            r.1@ == (FrameModel::WsConnect { id: r.0@, path: path@, headers: pairs(headers@) }),
            final(self)@ == old(self)@.channel_opened(r.0@, generation),
    {
        let id = numbers.fresh_id();
        self.pending_ws.insert(
            Slot {
                id: id.clone(),
                generation: Some(generation),
                session: None,
                data: Waiter {  },
            },
        );
        let frame = Frame::WsConnect { id: id.clone(), path: path.to_owned(), headers };
        (id, frame)
    }

    /// Ends a channel of a connection.
    pub fn close_channel(&mut self, id: &str, generation: u64, now: u64)
        ensures
            final(self)@ == old(self)@.channel_closed(id@, generation, now),
    {
        let mine = match self.pending_ws.get(id) {
            Some(channel) => channel.generation == Some(generation),
            None => false,
        };
        if mine {
            let _ = self.pending_ws.remove(id);
            self.remember_terminated_stream(generation, id, now);
        }
    }

    /// Ends a response body that the reader downstream gave up.
    pub fn close_downstream(&mut self, id: &str, generation: u64, now: u64) -> (r: Vec<Action>)
        ensures
            (final(self)@, acts(r@)) == old(self)@.on_reader_gone(id@, generation, now),
    {
        let mut out: Vec<Action> = Vec::new();
        if self.response_streams.remove(id).is_some() {
            self.remember_terminated_stream(generation, id, now);
            out.push(Action::BodyEnd { id: id.to_owned() });
            if self.active_client == Some(generation) {
                out.push(
                    Action::SendEventually {
                        frame: Frame::Error {
                            id: id.to_owned(),
                            message: "downstream response closed".to_owned(),
                        },
                    },
                );
            }
        }
        assert(acts(out@) =~= old(self)@.on_reader_gone(id@, generation, now).1);
        out
    }
}

impl StateModel {
    /// After the reader of a response body went away.
    pub open spec fn on_reader_gone(self, id: Seq<char>, generation: u64, now: u64) -> Step {
        let gone = StateModel { response_streams: without(self.response_streams, id), ..self };
        if entry(self.response_streams, id) is Some {
            (
                gone.remembering(generation, id, now),
                seq![ActionModel::BodyEnd { id }] + self.sends_eventually(
                    generation,
                    error_frame(id, "downstream response closed"@),
                ),
            )
        } else {
            (gone, Seq::empty())
        }
    }
}

// ───────────────────────── messages ─────────────────────────

/// The envelope of the `i`-th piece of a message of `n` pieces.
pub open spec fn message_piece(id: Seq<char>, parts: Seq<Seq<u8>>, i: int) -> EnvelopeModel {
    EnvelopeModel {
        id,
        kind: BinaryKind::WebSocket,
        payload: parts[i],
        end_of_body: i + 1 == parts.len(),
        offset: None,
    }
}

/// The pieces of a message: an empty message is one empty piece.
pub open spec fn message_parts(data: Seq<u8>, max_chunk: nat) -> Seq<Seq<u8>> {
    if data.len() == 0 {
        seq![data]
    } else {
        chunks(data, max_chunk)
    }
}

/// Makes the envelopes of a binary message, in order; nothing where one of
/// them cannot be written.
pub fn message_envelopes(id: &str, data: &[u8], max_chunk: usize) -> (r: Option<Vec<Vec<u8>>>)
    requires
        max_chunk > 0,
    ensures
        ({
            let parts = message_parts(data@, max_chunk as nat);
            match r {
                Some(raw) => raw@.len() == parts.len() && forall|i: int|
                    0 <= i < parts.len() ==> encoded(
                        message_piece(id@, parts, i),
                        max_chunk as nat,
                    ) == Ok::<Seq<u8>, Seq<char>>((#[trigger] raw@[i])@),
                None => exists|i: int|
                    0 <= i < parts.len() && encoded(
                        #[trigger] message_piece(id@, parts, i),
                        max_chunk as nat,
                    ) is Err,
            }
        }),
{
    let ghost parts = message_parts(data@, max_chunk as nat);
    let pieces: Vec<Vec<u8>> = if data.len() == 0 {
        let mut one: Vec<Vec<u8>> = Vec::new();
        let all = copy_all(data);
        one.push(all);
        assert(byte_views(one@) =~= seq![data@]);
        one
    } else {
        split_chunks(data, max_chunk)
    };
    assert(byte_views(pieces@) =~= parts);
    let count: usize = pieces.len();
    let mut out: Vec<Vec<u8>> = Vec::new();
    for i in 0..count
        invariant
            count == pieces@.len(),
            parts == message_parts(data@, max_chunk as nat),
            byte_views(pieces@) == parts,
            out@.len() == i,
            forall|j: int|
                0 <= j < i ==> encoded(message_piece(id@, parts, j), max_chunk as nat) == Ok::<
                    Seq<u8>,
                    Seq<char>,
                >((#[trigger] out@[j])@),
    {
        let payload = copy_all(pieces[i].as_slice());
        let envelope = BinaryEnvelope {
            id: id.to_owned(),
            kind: BinaryKind::WebSocket,
            payload,
            end_of_body: i + 1 == count,
            offset: None,
        };
        assert(byte_views(pieces@)[i as int] == payload@);
        assert(envelope@ == message_piece(id@, parts, i as int));
        match envelope.encode(max_chunk) {
            Ok(raw) => {
                out.push(raw);
            },
            Err(_) => {
                assert(encoded(message_piece(id@, parts, i as int), max_chunk as nat) is Err);
                return None;
            },
        }
    }
    Some(out)
}

/// Something that came from the WebSocket downstream.
#[derive(Debug, PartialEq, Eq)]
pub enum Downstream {
    Text { text: String },
    Binary { data: Vec<u8> },
    /// A close, an error, or the end.
    Closed,
    Other,
}

/// What to do with it.
#[derive(Debug, PartialEq, Eq)]
pub enum DownstreamStep {
    /// Queue a frame, and end the channel with an error where it has no place.
    SendText { frame: Frame },
    /// Queue a frame.
    Send { frame: Frame },
    /// Send these envelopes, and end the channel where one cannot be sent.
    SendPieces { pieces: Vec<Vec<u8>> },
    /// Queue the frame, if there is one, and end the channel.
    Stop { last: Option<Frame> },
    Ignore,
}

/// A channel at work.
pub struct Channel {
    pub id: String,
    pub generation: u64,
    pub max_message: usize,
    /// The pieces so far of a binary message.
    pub incoming: Vec<u8>,
}

/// The frame that ends a channel, or none.
pub open spec fn ends_with(step: DownstreamStep, frame: Option<FrameModel>) -> bool {
    match step {
        DownstreamStep::Stop { last: f } => match f {
            Some(x) => frame == Some(x@),
            None => frame is None,
        },
        _ => false,
    }
}

impl State {
    /// Takes a message from downstream. Text goes out in one frame; bytes go
    /// out in pieces where the connection negotiated that, and in one frame
    /// where it did not.
    pub fn from_downstream(&self, channel: &Channel, event: Downstream) -> (r: DownstreamStep)
        requires
            self@.protocol() matches Some((_, p)) ==> p.max_stream_chunk > 0,
            event matches Downstream::Binary { data } ==> data@.len() / 3 * 4 + 4 <= isize::MAX,
        ensures
            match event {
                Downstream::Text { text } => r matches DownstreamStep::SendText { frame } && frame@
                    == (FrameModel::WsMessage { id: channel.id@, data: text@, binary: false }),
                Downstream::Closed => ends_with(
                    r,
                    Some(FrameModel::WsClose { id: channel.id@, code: 1000, reason: ""@ }),
                ),
                Downstream::Other => r is Ignore,
                Downstream::Binary { data } => match self@.protocol() {
                    None => r matches DownstreamStep::Send { frame } && frame@ == (
                    FrameModel::WsMessage {
                        id: channel.id@,
                        data: base64_text(data@),
                        binary: true,
                    }) && base64_bytes(base64_text(data@)) == Some(data@),
                    Some((active, p)) => if active != channel.generation {
                        ends_with(r, None)
                    } else if data@.len() > p.max_ws_message_size {
                        ends_with(
                            r,
                            Some(
                                error_frame(
                                    channel.id@,
                                    "WebSocket binary message exceeds limit"@,
                                ),
                            ),
                        )
                    } else {
                        let parts = message_parts(data@, p.max_stream_chunk as nat);
                        let wire = |i: int|
                            encoded(
                                message_piece(channel.id@, parts, i),
                                p.max_stream_chunk as nat,
                            );
                        match r {
                            DownstreamStep::SendPieces { pieces } => pieces@.len() == parts.len()
                                && forall|i: int|
                                0 <= i < parts.len() ==> wire(i) == Ok::<Seq<u8>, Seq<char>>(
                                    (#[trigger] pieces@[i])@,
                                ),
                            DownstreamStep::Stop { last } => last is None && exists|i: int|
                                0 <= i < parts.len() && encoded(
                                    #[trigger] message_piece(channel.id@, parts, i),
                                    p.max_stream_chunk as nat,
                                ) is Err,
                            _ => false,
                        }
                    },
                },
            },
    {
        match event {
            Downstream::Text { text } => DownstreamStep::SendText {
                frame: Frame::WsMessage { id: channel.id.clone(), data: text, binary: false },
            },
            Downstream::Closed => DownstreamStep::Stop {
                last: Some(
                    Frame::WsClose { id: channel.id.clone(), code: 1000, reason: "".to_owned() },
                ),
            },
            Downstream::Other => DownstreamStep::Ignore,
            Downstream::Binary { data } => match self.active_protocol() {
                None => DownstreamStep::Send {
                    frame: Frame::WsMessage {
                        id: channel.id.clone(),
                        data: base64_encode(data.as_slice()),
                        binary: true,
                    },
                },
                Some((active, p)) => {
                    if active != channel.generation {
                        return DownstreamStep::Stop { last: None };
                    }
                    if data.len() > p.max_ws_message_size {
                        return DownstreamStep::Stop {
                            last: Some(
                                Frame::Error {
                                    id: channel.id.clone(),
                                    message: "WebSocket binary message exceeds limit".to_owned(),
                                },
                            ),
                        };
                    }
                    match message_envelopes(
                        channel.id.as_str(),
                        data.as_slice(),
                        p.max_stream_chunk,
                    ) {
                        Some(pieces) => DownstreamStep::SendPieces { pieces },
                        None => DownstreamStep::Stop { last: None },
                    }
                },
            },
        }
    }
}

/// The frame that follows a text message which did not fit a control frame.
pub fn text_too_long(id: &str) -> (r: Frame)
    ensures
        r@ == error_frame(id@, "WebSocket text message exceeds control-frame limit"@),
{
    Frame::Error {
        id: id.to_owned(),
        message: "WebSocket text message exceeds control-frame limit".to_owned(),
    }
}

/// Something that came through the tunnel for a channel.
#[derive(Debug, PartialEq, Eq)]
pub enum Upstream {
    Control { frame: Frame },
    Piece { payload: Vec<u8>, end_of_body: bool },
    /// The channel was dropped.
    Ended,
}

/// What goes to the WebSocket downstream.
#[derive(Debug, PartialEq, Eq)]
pub enum UpstreamStep {
    Text { text: String },
    Binary { data: Vec<u8> },
    /// Send a close, and end the channel. Queue the frame first, if there is
    /// one.
    Close { frame: Option<Frame> },
    Ignore,
}

/// The bytes that a text holds in base64, or none where it is no such text.
pub open spec fn bytes_or_none(s: Seq<char>) -> Seq<u8> {
    match base64_bytes(s) {
        Some(b) => b,
        None => Seq::empty(),
    }
}

impl Channel {
    /// Whether the first thing that a new channel hears is that the upstream
    /// is connected.
    pub fn is_connected_by(first: &Option<Upstream>) -> (r: bool)
        ensures
            r == (first matches Some(Upstream::Control { frame }) && frame is WsConnected),
    {
        match first {
            Some(Upstream::Control { frame: Frame::WsConnected { .. } }) => true,
            _ => false,
        }
    }

    /// Takes something from the tunnel. Pieces are put together to one message,
    /// which may not be longer than agreed.
    pub fn from_upstream(&mut self, event: Upstream) -> (r: Result<UpstreamStep, String>)
        ensures
            final(self).id == old(self).id,
            final(self).generation == old(self).generation,
            final(self).max_message == old(self).max_message,
            match event {
                Upstream::Ended => r matches Ok(UpstreamStep::Close { frame }) && frame is None
                    && final(self).incoming@ == old(self).incoming@,
                Upstream::Control { frame } => final(self).incoming@ == old(self).incoming@
                    && match frame@ {
                    FrameModel::WsMessage { data, binary, .. } => if binary {
                        r matches Ok(UpstreamStep::Binary { data: b }) && b@ == bytes_or_none(data)
                    } else {
                        r matches Ok(UpstreamStep::Text { text: t }) && t@ == data
                    },
                    FrameModel::WsClose { .. } | FrameModel::Error { .. } => r matches Ok(
                        UpstreamStep::Close { frame: f },
                    ) && f is None,
                    _ => r == Ok::<UpstreamStep, String>(UpstreamStep::Ignore),
                },
                Upstream::Piece { payload, end_of_body } => {
                    let whole = old(self).incoming@ + payload@;
                    if whole.len() > usize::MAX {
                        r matches Err(e) && e@ == "WebSocket binary message size overflow"@
                            && final(self).incoming@ == old(self).incoming@
                    } else if whole.len() > old(self).max_message {
                        r matches Ok(UpstreamStep::Close { frame: Some(f) }) && f@ == error_frame(
                            old(self).id@,
                            "WebSocket binary message exceeds limit"@,
                        ) && final(self).incoming@ == old(self).incoming@
                    } else if end_of_body {
                        r matches Ok(UpstreamStep::Binary { data }) && data@ == whole && final(self).incoming@ == Seq::<u8>::empty()
                    } else {
                        r == Ok::<UpstreamStep, String>(UpstreamStep::Ignore) && final(self).incoming@ == whole
                    }
                },
            },
    {
        match event {
            Upstream::Ended => Ok(UpstreamStep::Close { frame: None }),
            Upstream::Control { frame } => match frame {
                Frame::WsMessage { id: _, data, binary } => {
                    if binary {
                        match base64_decode(data.as_str()) {
                            Some(b) => Ok(UpstreamStep::Binary { data: b }),
                            None => {
                                let none: Vec<u8> = Vec::new();
                                assert(none@ =~= Seq::empty());
                                Ok(UpstreamStep::Binary { data: none })
                            },
                        }
                    } else {
                        Ok(UpstreamStep::Text { text: data })
                    }
                },
                Frame::WsClose { id: _, code: _, reason: _ } => Ok(
                    UpstreamStep::Close { frame: None },
                ),
                Frame::Error { id: _, message: _ } => Ok(UpstreamStep::Close { frame: None }),
                _ => Ok(UpstreamStep::Ignore),
            },
            Upstream::Piece { payload, end_of_body } => {
                let ghost piece = payload@;
                let mut payload = payload;
                if payload.len() > usize::MAX - self.incoming.len() {
                    return Err("WebSocket binary message size overflow".to_owned());
                }
                if self.incoming.len() + payload.len() > self.max_message {
                    return Ok(
                        UpstreamStep::Close {
                            frame: Some(
                                Frame::Error {
                                    id: self.id.clone(),
                                    message: "WebSocket binary message exceeds limit".to_owned(),
                                },
                            ),
                        },
                    );
                }
                self.incoming.append(&mut payload);
                if end_of_body {
                    let mut data: Vec<u8> = Vec::new();
                    data.append(&mut self.incoming);
                    assert(data@ =~= old(self).incoming@ + piece);
                    Ok(UpstreamStep::Binary { data })
                } else {
                    Ok(UpstreamStep::Ignore)
                }
            },
        }
    }
}

/// The pieces of a message that is not too long are all taken, and put together
/// to the message, which ends with the last of them.
pub proof fn message_pieces_join(id: Seq<char>, data: Seq<u8>, max_chunk: nat, max_message: nat)
    requires
        max_chunk > 0,
        data.len() <= max_message,
    ensures
        ({
            let parts = message_parts(data, max_chunk);
            &&& parts.len() > 0
            &&& joined(parts) == data
            &&& forall|i: int|
                #![trigger message_piece(id, parts, i)]
                0 <= i < parts.len() ==> {
                    let piece = message_piece(id, parts, i);
                    &&& joined(parts.take(i)) + piece.payload == joined(parts.take(i + 1))
                    &&& joined(parts.take(i + 1)).len() <= max_message
                    &&& piece.payload.len() <= max_chunk
                    &&& piece.end_of_body <==> i == parts.len() - 1
                }
        }),
{
    let parts = message_parts(data, max_chunk);
    chunks_join(data, max_chunk);
    if data.len() == 0 {
        assert(parts.drop_first() =~= Seq::empty());
        assert(joined(parts.drop_first()) =~= Seq::empty());
        assert(joined(parts) =~= data);
    }
    assert forall|i: int| 0 <= i < parts.len() implies joined(parts.take(i)) + #[trigger] parts[i]
        == joined(parts.take(i + 1)) && joined(parts.take(i + 1)).len() <= max_message by {
        joined_parts(parts.take(i + 1), i);
        let last = parts.take(i + 1).skip(i);
        assert(parts.take(i + 1).take(i) =~= parts.take(i));
        assert(last =~= seq![parts[i]]);
        assert(last.drop_first() =~= Seq::empty());
        assert(joined(last.drop_first()) =~= Seq::empty());
        assert(joined(last) =~= parts[i]);
        joined_parts(parts, i + 1);
    }
    assert forall|i: int|
        #![trigger message_piece(id, parts, i)]
        0 <= i < parts.len() implies ({
        let piece = message_piece(id, parts, i);
        &&& joined(parts.take(i)) + piece.payload == joined(parts.take(i + 1))
        &&& joined(parts.take(i + 1)).len() <= max_message
        &&& piece.payload.len() <= max_chunk
        &&& piece.end_of_body <==> i == parts.len() - 1
    }) by {
        assert(message_piece(id, parts, i).payload == parts[i]);
    }
}

} // verus!
