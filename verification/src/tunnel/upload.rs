//! Request bodies that go through the tunnel in pieces, and how they resume on
//! a new connection.
use super::config::{least, NegotiatedProtocol};
use super::credits::{
    connection, credit, piece_models, readiness, Credit, CreditsModel, Piece, PieceModel,
    StreamCredits,
};
use super::envelope::{
    encoded, stream_id, BinaryEnvelope, BinaryKind, EnvelopeModel, Sequence,
};
use super::exchange::{refusal, refuse, Ending, Refusal, Reply, ReplyModel, Waited, WaitedModel};
use super::frame::{pairs, Frame, FrameModel, HeaderList, Pairs};
use super::registry::{entry, place, with, without, Registry, Slot, SlotModel};
use super::state::{
    acts, acts_empty, acts_push, Action, ActionModel, Answer, AnswerModel, CachedModel, CachedRequest, State,
    StateModel, Waiter,
};
use crate::bytes::{byte_views, copy_all, copy_range};
use crate::numbers::after;
use crate::text::{opt_copy, opt_view};
use vstd::prelude::*;

verus! {

broadcast use {acts_push, acts_empty};

// ───────────────────────── pieces ─────────────────────────

/// Pieces of `max` bytes, the last one of what is left.
pub open spec fn chunks(data: Seq<u8>, max: nat) -> Seq<Seq<u8>>
    decreases data.len(),
{
    if data.len() == 0 || max == 0 {
        Seq::empty()
    } else if data.len() <= max {
        seq![data]
    } else {
        seq![data.take(max as int)] + chunks(data.skip(max as int), max)
    }
}

/// The bytes of pieces, one after the other.
pub open spec fn joined(parts: Seq<Seq<u8>>) -> Seq<u8>
    decreases parts.len(),
{
    if parts.len() == 0 {
        Seq::empty()
    } else {
        parts[0] + joined(parts.drop_first())
    }
}

/// Pieces can be put together in two steps.
pub proof fn joined_parts(parts: Seq<Seq<u8>>, n: int)
    requires
        0 <= n <= parts.len(),
    ensures
        joined(parts) == joined(parts.take(n)) + joined(parts.skip(n)),
    decreases n,
{
    if n == 0 {
        assert(parts.skip(0) =~= parts);
        assert(joined(parts.take(0)) =~= Seq::empty());
        assert(joined(parts) =~= joined(parts.take(0)) + joined(parts.skip(0)));
    } else {
        joined_parts(parts.drop_first(), n - 1);
        assert(parts.drop_first().take(n - 1) =~= parts.take(n).drop_first());
        assert(parts.drop_first().skip(n - 1) =~= parts.skip(n));
        assert(joined(parts) =~= joined(parts.take(n)) + joined(parts.skip(n)));
    }
}

/// The pieces of some data put together are the data; none is empty, and none
/// is longer than the limit.
pub proof fn chunks_join(data: Seq<u8>, max: nat)
    requires
        max > 0,
    ensures
        joined(chunks(data, max)) == data,
        forall|i: int|
            0 <= i < chunks(data, max).len() ==> 0 < (#[trigger] chunks(data, max)[i]).len() <= max,
    decreases data.len(),
{
    let c = chunks(data, max);
    if data.len() == 0 {
        assert(joined(c) =~= data);
    } else if data.len() <= max {
        assert(c.drop_first() =~= Seq::empty());
        assert(joined(c.drop_first()) =~= Seq::empty());
        assert(joined(c) =~= data);
    } else {
        let rest = data.skip(max as int);
        chunks_join(rest, max);
        assert(c.drop_first() =~= chunks(rest, max));
        assert(joined(c) =~= data);
        assert forall|i: int| 0 <= i < c.len() implies 0 < (#[trigger] c[i]).len() <= max by {
            if i > 0 {
                assert(c[i] == chunks(rest, max)[i - 1]);
            }
        }
    }
}

/// Cuts data into pieces.
pub fn split_chunks(data: &[u8], max: usize) -> (r: Vec<Vec<u8>>)
    requires
        max > 0,
    ensures
        byte_views(r@) == chunks(data@, max as nat),
{
    let mut out: Vec<Vec<u8>> = Vec::new();
    let mut from: usize = 0;
    let ghost all = chunks(data@, max as nat);
    proof {
        assert(data@.skip(0) =~= data@);
        assert(byte_views(out@) + all =~= all);
    }
    while from < data.len()
        invariant
            max > 0,
            from <= data@.len(),
            byte_views(out@) + chunks(data@.skip(from as int), max as nat) == all,
        decreases data@.len() - from,
    {
        let ghost rest = data@.skip(from as int);
        let ghost before = byte_views(out@);
        let to: usize = if data.len() - from <= max {
            data.len()
        } else {
            from + max
        };
        let part = copy_range(data, from, to);
        proof {
            if rest.len() <= max {
                assert(part@ =~= rest);
                assert(data@.skip(to as int) =~= Seq::empty());
                assert(chunks(data@.skip(to as int), max as nat) =~= Seq::empty());
            } else {
                assert(part@ =~= rest.take(max as int));
                assert(data@.skip(to as int) =~= rest.skip(max as int));
            }
            assert(chunks(rest, max as nat) =~= seq![part@] + chunks(
                data@.skip(to as int),
                max as nat,
            ));
        }
        out.push(part);
        proof {
            assert(byte_views(out@) =~= before.push(part@));
            assert(byte_views(out@) + chunks(data@.skip(to as int), max as nat) =~= before
                + chunks(rest, max as nat));
        }
        from = to;
    }
    proof {
        assert(data@.skip(from as int) =~= Seq::empty());
        assert(byte_views(out@) =~= all);
    }
    out
}

// ───────────────────────── uploads ─────────────────────────

/// How far a request body has come.
#[derive(Debug, Clone, Copy, PartialEq, Eq, Structural)]
pub enum UploadStage {
    /// Its pieces are sent.
    Sending,
    /// All of it was sent, and its end waits for the stream to be in order.
    Ending,
    /// Its end was handed over.
    EndSent,
    /// Its end could not be sent, and a resume has to send it.
    EndLost,
    /// Nothing is left to do.
    Sent,
}

/// A request body on its way.
pub struct Upload {
    pub id: String,
    pub generation: u64,
    pub protocol: NegotiatedProtocol,
    pub resumable: bool,
    pub content_length: Option<u64>,
    /// Bytes taken from downstream.
    pub received: usize,
    /// Where the next piece starts.
    pub offset: u64,
    /// Pieces that were not sent yet.
    pub pending: Vec<Vec<u8>>,
    /// Whether downstream has no more.
    pub finished: bool,
    pub stage: UploadStage,
}

/// The model of an [`Upload`].
pub struct UploadModel {
    pub id: Seq<char>,
    pub generation: u64,
    pub protocol: NegotiatedProtocol,
    pub resumable: bool,
    pub content_length: Option<u64>,
    pub received: usize,
    pub offset: u64,
    pub pending: Seq<Seq<u8>>,
    pub finished: bool,
    pub stage: UploadStage,
}

impl View for Upload {
    type V = UploadModel;

    open spec fn view(&self) -> UploadModel {
        UploadModel {
            id: self.id@,
            generation: self.generation,
            protocol: self.protocol,
            resumable: self.resumable,
            content_length: self.content_length,
            received: self.received,
            offset: self.offset,
            pending: byte_views(self.pending@),
            finished: self.finished,
            stage: self.stage,
        }
    }
}

/// A request body of which nothing was read yet.
pub open spec fn new_upload(
    id: Seq<char>,
    generation: u64,
    protocol: NegotiatedProtocol,
    resumable: bool,
    content_length: Option<u64>,
) -> UploadModel {
    UploadModel {
        id,
        generation,
        protocol,
        resumable,
        content_length,
        received: 0,
        offset: 0,
        pending: Seq::empty(),
        finished: false,
        stage: UploadStage::Sending,
    }
}

impl StateModel {
    /// The frame that opens a request body.
    pub open spec fn upload_frame(
        self,
        id: Seq<char>,
        method: Seq<char>,
        path: Seq<char>,
        headers: Pairs,
        content_length: Option<u64>,
    ) -> FrameModel {
        FrameModel::HttpReqBegin { id, method, path, headers, content_length }
    }

    /// After a request body was opened on a connection.
    pub open spec fn uploading(
        self,
        id: Seq<char>,
        generation: u64,
        protocol: NegotiatedProtocol,
        session: Option<Seq<char>>,
        frame: FrameModel,
        now: u64,
    ) -> StateModel {
        let open = StateModel {
            stream_credits: with(
                self.stream_credits,
                SlotModel {
                    id,
                    generation: Some(generation),
                    session,
                    data: CreditsModel::fresh(protocol.stream_window_frames),
                },
            ),
            pending_http: with(
                self.pending_http,
                SlotModel { id, generation: Some(generation), session, data: Waiter {  } },
            ),
            ..self
        };
        if session is Some {
            StateModel {
                pending_requests: with(
                    self.pending_requests,
                    SlotModel {
                        id,
                        generation: None,
                        session,
                        data: CachedModel { frame, created_at: now, ttl: self.http_timeout() },
                    },
                ),
                ..open
            }
        } else {
            open
        }
    }

    /// With the flow control of a stream replaced.
    pub open spec fn with_credits(self, id: Seq<char>, c: CreditsModel) -> StateModel {
        match entry(self.stream_credits, id) {
            None => self,
            Some(slot) => StateModel {
                stream_credits: self.stream_credits.update(
                    place(self.stream_credits, id) as int,
                    SlotModel { data: c, ..slot },
                ),
                ..self
            },
        }
    }

    /// After a stream's connection turned out to be lost.
    pub open spec fn upload_disconnected(self, id: Seq<char>, generation: u64) -> StateModel {
        match entry(self.stream_credits, id) {
            Some(slot) => if slot.generation == Some(generation) {
                self.with_credits(id, slot.data.disconnected(slot.session is Some))
            } else {
                self
            },
            None => self,
        }
    }
}

/// The session that a stream can resume in.
pub open spec fn stream_session(
    protocol: NegotiatedProtocol,
    session: Option<Seq<char>>,
) -> Option<Seq<char>> {
    if protocol.resumable {
        session
    } else {
        None
    }
}

/// The bytes received after `len` more, unless they are too many.
pub open spec fn grown(received: usize, len: nat, max: usize) -> Option<usize> {
    if received + len <= max {
        Some((received + len) as usize)
    } else {
        None
    }
}

/// The envelope of a piece of a request body.
pub open spec fn piece_envelope(
    id: Seq<char>,
    payload: Seq<u8>,
    offset: Option<u64>,
) -> EnvelopeModel {
    EnvelopeModel { id, kind: BinaryKind::HttpRequest, payload, end_of_body: false, offset }
}

fn find_credits(table: &Registry<StreamCredits>, id: &str) -> (r: Option<usize>)
    ensures
        match r {
            Some(i) => i == place(table@, id@) && i < table@.len() && entry(table@, id@) == Some(
                table@[i as int],
            ) && table.slots@.len() == table@.len(),
            None => entry(table@, id@) is None,
        },
{
    table.position(id)
}

impl State {
    /// Opens a request body on a connection, and makes the frame to send for
    /// it, unless the body is announced as too long.
    pub fn begin_upload(
        &mut self,
        numbers: &mut Sequence,
        generation: u64,
        protocol: NegotiatedProtocol,
        session: &Option<String>,
        method: &str,
        path: &str,
        headers: HeaderList,
        content_length: Option<u64>,
        now: u64,
    ) -> (r: Result<(Upload, Frame), Refusal>)
        ensures
            match r {
                Err(e) => content_length is Some && content_length->0 > protocol.max_body_size && e@
                    == refusal(413, "request body exceeds limit"@) && final(self)@ == old(self)@
                    && final(numbers).next == old(numbers).next,
                Ok((upload, frame)) => {
                    let s = stream_session(protocol, opt_view(*session));
                    let id = stream_id(old(numbers).next);
                    &&& !(content_length is Some && content_length->0 > protocol.max_body_size)
                    &&& final(numbers).next == after(old(numbers).next)
                    &&& frame@ == old(self)@.upload_frame(
                        id,
                        method@,
                        path@,
                        pairs(headers@),
                        content_length,
                    )
                    &&& upload@ == new_upload(id, generation, protocol, s is Some, content_length)
                    &&& final(self)@ == old(self)@.uploading(
                        id,
                        generation,
                        protocol,
                        s,
                        frame@,
                        now,
                    )
                },
            },
    {
        if let Some(n) = content_length {
            if n > protocol.max_body_size as u64 {
                return Err(refuse(413, "request body exceeds limit"));
            }
        }
        let session: Option<String> = if protocol.resumable {
            opt_copy(session)
        } else {
            None
        };
        let resumable = session.is_some();
        let id = numbers.fresh_id();
        self.stream_credits.insert(
            Slot {
                id: id.clone(),
                generation: Some(generation),
                session: opt_copy(&session),
                data: StreamCredits::new(protocol.stream_window_frames),
            },
        );
        self.pending_http.insert(
            Slot {
                id: id.clone(),
                generation: Some(generation),
                session: opt_copy(&session),
                data: Waiter {  },
            },
        );
        let frame = Frame::HttpReqBegin {
            id: id.clone(),
            method: method.to_owned(),
            path: path.to_owned(),
            headers,
            content_length,
        };
        if session.is_some() {
            let ttl: u64 = self.config.http_timeout.as_nanos();
            self.pending_requests.insert(
                Slot {
                    id: id.clone(),
                    generation: None,
                    session,
                    data: CachedRequest { frame: frame.duplicate(), created_at: now, ttl },
                },
            );
        }
        let upload = Upload {
            id,
            generation,
            protocol,
            resumable,
            content_length,
            received: 0,
            offset: 0,
            pending: Vec::new(),
            finished: false,
            stage: UploadStage::Sending,
        };
        assert(upload@.pending =~= Seq::empty());
        Ok((upload, frame))
    }

    /// Gives an upload up with a refusal.
    fn abort_upload(&mut self, upload: &Upload, status: u16, message: &str, now: u64) -> (r: (
        Vec<Action>,
        Reply,
    ))
        ensures
            (final(self)@, acts(r.0@), r.1@) == old(self)@.giving_up(
                upload@.id,
                upload@.generation,
                now,
                status,
                message@,
            ),
    {
        let out = self.cancel_request(upload.id.as_str(), upload.generation, now);
        (out, Reply::Refused { refusal: refuse(status, message) })
    }

    /// Follows an opening frame that could not be queued.
    pub fn upload_unopened(&mut self, upload: &Upload, now: u64) -> (r: Option<
        (Vec<Action>, Reply),
    >)
        ensures
            match r {
                None => upload@.resumable && final(self)@ == old(self)@,
                Some((actions, reply)) => !upload@.resumable && (
                    final(self)@,
                    acts(actions@),
                    reply@,
                ) == old(self)@.giving_up(
                    upload@.id,
                    upload@.generation,
                    now,
                    502,
                    "Tunnel client is not connected"@,
                ),
            },
    {
        if upload.resumable {
            None
        } else {
            Some(self.abort_upload(upload, 502, "Tunnel client is not connected", now))
        }
    }

    /// Marks the connection of a stream as lost.
    fn disconnect_upload(&mut self, id: &str, generation: u64)
        ensures
            final(self)@ == old(self)@.upload_disconnected(id@, generation),
    {
        if let Some(i) = find_credits(&self.stream_credits, id) {
            if self.stream_credits.slots[i].generation == Some(generation) {
                let ghost before = self.stream_credits@;
                let resumable = self.stream_credits.slots[i].session.is_some();
                self.stream_credits.slots[i].data.disconnect(resumable);
                assert(self.stream_credits@ =~= before.update(
                    i as int,
                    SlotModel {
                        data: before[i as int].data.disconnected(
                            before[i as int].session is Some,
                        ),
                        ..before[i as int]
                    },
                ));
            }
        }
    }

    /// Makes the response downstream once the wait for the answer is over.
    pub fn finish_upload(&mut self, upload: &Upload, method: &str, waited: Waited, now: u64) -> (r: (
        Vec<Action>,
        Reply,
    ))
        ensures
            (final(self)@, acts(r.0@), r.1@) == old(self)@.on_upload_waited(
                upload@,
                method@,
                waited@,
                now,
            ),
    {
        match waited {
            Waited::TimedOut => self.abort_upload(upload, 504, "Tunnel timeout", now),
            Waited::Dropped => self.abort_upload(upload, 502, "Tunnel response stream closed", now),
            Waited::Answered { answer } => match answer {
                Answer::Failed { message } => self.abort_upload(upload, 502, message.as_str(), now),
                Answer::Legacy { status: _, headers: _, body: _ } => self.abort_upload(
                    upload,
                    502,
                    "Invalid legacy tunnel response",
                    now,
                ),
                Answer::Streaming { generation, status, headers, content_length, window: _ } =>
                    self.streaming_response_to_downstream(
                    method,
                    upload.id.as_str(),
                    generation,
                    status,
                    headers,
                    content_length,
                    now,
                ),
            },
        }
    }
}

impl StateModel {
    /// What becomes of an upload once the wait for its answer is over.
    pub open spec fn on_upload_waited(
        self,
        u: UploadModel,
        method: Seq<char>,
        waited: WaitedModel,
        now: u64,
    ) -> Ending {
        match waited {
            WaitedModel::TimedOut => self.giving_up(
                u.id,
                u.generation,
                now,
                504,
                "Tunnel timeout"@,
            ),
            WaitedModel::Dropped => self.giving_up(
                u.id,
                u.generation,
                now,
                502,
                "Tunnel response stream closed"@,
            ),
            WaitedModel::Answered { answer } => match answer {
                AnswerModel::Failed { message } => self.giving_up(
                    u.id,
                    u.generation,
                    now,
                    502,
                    message,
                ),
                AnswerModel::Legacy { .. } => self.giving_up(
                    u.id,
                    u.generation,
                    now,
                    502,
                    "Invalid legacy tunnel response"@,
                ),
                AnswerModel::Streaming { generation, status, headers, content_length, .. } =>
                    self.downstream(method, u.id, generation, status, headers, content_length, now),
            },
        }
    }
}

// ───────────────────────── sending ─────────────────────────

/// Something that happened to a request body on its way.
#[derive(Debug, PartialEq, Eq)]
pub enum UploadEvent {
    /// More of it was read.
    Body(Vec<u8>),
    /// All of it was read.
    BodyEnded,
    /// It could not be read on.
    BodyBroken(String),
    /// What was handed over was sent, or the stream has changed.
    Changed,
    /// The wait for a change took too long.
    TimedOut,
    /// What was handed over for a connection could not be sent.
    Unsent(u64),
}

/// The model of an [`UploadEvent`].
pub enum UploadEventModel {
    Body(Seq<u8>),
    BodyEnded,
    BodyBroken(Seq<char>),
    Changed,
    TimedOut,
    Unsent(u64),
}

impl View for UploadEvent {
    type V = UploadEventModel;

    open spec fn view(&self) -> UploadEventModel {
        match *self {
            UploadEvent::Body(data) => UploadEventModel::Body(data@),
            UploadEvent::BodyEnded => UploadEventModel::BodyEnded,
            UploadEvent::BodyBroken(message) => UploadEventModel::BodyBroken(message@),
            UploadEvent::Changed => UploadEventModel::Changed,
            UploadEvent::TimedOut => UploadEventModel::TimedOut,
            UploadEvent::Unsent(generation) => UploadEventModel::Unsent(generation),
        }
    }
}

/// What a request body does next.
#[derive(Debug, PartialEq, Eq)]
pub enum UploadStep {
    /// Read more of it.
    NeedBody,
    /// Ask again when the stream changes.
    Wait,
    /// Send a piece.
    SendPiece { generation: u64, raw: Vec<u8> },
    /// Send the end of the body.
    SendEnd { generation: u64, frame: Frame },
    /// All of it was sent.
    Sent,
    /// It was given up.
    Over { actions: Vec<Action>, reply: Reply },
}

/// The model of an [`UploadStep`].
pub enum UploadStepModel {
    NeedBody,
    Wait,
    SendPiece { generation: u64, raw: Seq<u8> },
    SendEnd { generation: u64, frame: FrameModel },
    Sent,
    Over { actions: Seq<ActionModel>, reply: ReplyModel },
}

impl View for UploadStep {
    type V = UploadStepModel;

    open spec fn view(&self) -> UploadStepModel {
        match *self {
            UploadStep::NeedBody => UploadStepModel::NeedBody,
            UploadStep::Wait => UploadStepModel::Wait,
            UploadStep::SendPiece { generation, raw } => UploadStepModel::SendPiece {
                generation,
                raw: raw@,
            },
            UploadStep::SendEnd { generation, frame } => UploadStepModel::SendEnd {
                generation,
                frame: frame@,
            },
            UploadStep::Sent => UploadStepModel::Sent,
            UploadStep::Over { actions, reply } => UploadStepModel::Over {
                actions: acts(actions@),
                reply: reply@,
            },
        }
    }
}

/// A new state, the body after a step, and the step.
pub type UploadOutcome = (StateModel, UploadModel, UploadStepModel);

impl UploadModel {
    /// Whether what was read is as long as was announced.
    pub open spec fn length_met(self) -> bool {
        self.content_length is Some ==> self.content_length->0 == self.received
    }

    /// Where a piece says that it starts: only one that may have to be sent
    /// again does.
    pub open spec fn piece_offset(self) -> Option<u64> {
        if self.resumable {
            Some(self.offset)
        } else {
            None
        }
    }
}

impl StateModel {
    /// A body that is given up with a refusal.
    pub open spec fn upload_over(
        self,
        u: UploadModel,
        status: u16,
        message: Seq<char>,
        now: u64,
    ) -> UploadOutcome {
        let ending = self.giving_up(u.id, u.generation, now, status, message);
        (ending.0, u, UploadStepModel::Over { actions: ending.1, reply: ending.2 })
    }

    /// Sends the next piece: for one credit, which is spent. A piece that may
    /// have to be sent again is kept.
    pub open spec fn upload_sends(self, u: UploadModel, now: u64) -> UploadOutcome {
        let lost = self.upload_over(u, 502, "Tunnel request stream lost"@, now);
        match entry(self.stream_credits, u.id) {
            None => lost,
            Some(slot) => match (
                credit(slot.data, slot.session is Some, false),
                slot.generation,
            ) {
                (Credit::Wait, _) => (self, u, UploadStepModel::Wait),
                (Credit::Granted, Some(generation)) => {
                    let piece = u.pending[0];
                    let spent = CreditsModel {
                        available: (slot.data.available - 1) as usize,
                        ..slot.data
                    };
                    let next = self.with_credits(
                        u.id,
                        if u.resumable {
                            spent.recorded((u.offset, piece))
                        } else {
                            spent
                        },
                    );
                    match encoded(
                        piece_envelope(u.id, piece, u.piece_offset()),
                        u.protocol.max_stream_chunk as nat,
                    ) {
                        Ok(raw) => (
                            next,
                            UploadModel {
                                offset: least(u.offset + piece.len(), u64::MAX as int) as u64,
                                pending: u.pending.drop_first(),
                                ..u
                            },
                            UploadStepModel::SendPiece { generation, raw },
                        ),
                        Err(_) => next.upload_over(u, 502, "Tunnel request stream lost"@, now),
                    }
                },
                _ => lost,
            },
        }
    }

    /// Whether the stream of a body is in order.
    pub open spec fn upload_readiness(self, id: Seq<char>) -> Credit {
        match entry(self.stream_credits, id) {
            None => Credit::Refused,
            Some(slot) => readiness(slot.data, slot.session is Some),
        }
    }

    /// Sends the end of a body once its stream is in order.
    pub open spec fn upload_ends(self, u: UploadModel, now: u64) -> UploadOutcome {
        match (self.upload_readiness(u.id), entry(self.stream_credits, u.id)) {
            (Credit::Wait, _) => (self, u, UploadStepModel::Wait),
            (Credit::Granted, Some(slot)) => match slot.generation {
                Some(generation) => (
                    self,
                    UploadModel { stage: UploadStage::EndSent, ..u },
                    UploadStepModel::SendEnd {
                        generation,
                        frame: FrameModel::HttpReqEnd { id: u.id },
                    },
                ),
                None => self.upload_over(u, 502, "Tunnel request stream lost"@, now),
            },
            _ => self.upload_over(u, 502, "Tunnel request stream lost"@, now),
        }
    }

    /// With the stream of a body marked as ended, so that a resume sends the
    /// end too.
    pub open spec fn upload_ended(self, id: Seq<char>) -> StateModel {
        match entry(self.stream_credits, id) {
            Some(slot) => self.with_credits(id, CreditsModel { ended: true, ..slot.data }),
            None => self,
        }
    }

    /// After a body was sent: a stream that cannot resume needs no flow control
    /// any more.
    pub open spec fn upload_sent(self, u: UploadModel) -> UploadOutcome {
        (
            if u.resumable {
                self
            } else {
                StateModel { stream_credits: without(self.stream_credits, u.id), ..self }
            },
            UploadModel { stage: UploadStage::Sent, ..u },
            UploadStepModel::Sent,
        )
    }

    /// What a body does next: the pieces that wait, in order; then more of the
    /// body is read; once there is no more, its length is checked and its end
    /// is sent.
    pub open spec fn upload_goes_on(self, u: UploadModel, now: u64) -> UploadOutcome {
        match u.stage {
            UploadStage::Sending => if u.pending.len() > 0 {
                self.upload_sends(u, now)
            } else if !u.finished {
                (self, u, UploadStepModel::NeedBody)
            } else if !u.length_met() {
                self.upload_over(u, 400, "Request content length mismatch"@, now)
            } else {
                self.upload_ended(u.id).upload_ends(
                    UploadModel { stage: UploadStage::Ending, ..u },
                    now,
                )
            },
            UploadStage::Ending => self.upload_ends(u, now),
            UploadStage::EndLost => if self.upload_readiness(u.id) == Credit::Wait {
                (self, u, UploadStepModel::Wait)
            } else {
                self.upload_sent(u)
            },
            UploadStage::EndSent | UploadStage::Sent => self.upload_sent(u),
        }
    }

    /// What a body does after an event.
    pub open spec fn upload_next(
        self,
        u: UploadModel,
        event: UploadEventModel,
        now: u64,
    ) -> UploadOutcome {
        match event {
            UploadEventModel::Changed => self.upload_goes_on(u, now),
            UploadEventModel::Body(data) => if !u.reads() {
                self.upload_goes_on(u, now)
            } else {
                match grown(u.received, data.len(), u.protocol.max_body_size) {
                    None => self.upload_over(u, 413, "request body exceeds limit"@, now),
                    Some(n) => self.upload_goes_on(
                        UploadModel {
                            received: n,
                            pending: u.pending + chunks(data, u.protocol.max_stream_chunk as nat),
                            ..u
                        },
                        now,
                    ),
                }
            },
            UploadEventModel::BodyEnded => self.upload_goes_on(
                UploadModel { finished: true, ..u },
                now,
            ),
            UploadEventModel::BodyBroken(message) => if u.reads() {
                self.upload_over(u, 400, message, now)
            } else {
                self.upload_goes_on(u, now)
            },
            UploadEventModel::TimedOut => match u.stage {
                UploadStage::Sending => if u.pending.len() > 0 {
                    self.upload_over(u, 502, "Tunnel request stream lost"@, now)
                } else {
                    self.upload_goes_on(u, now)
                },
                UploadStage::Ending => self.upload_over(
                    u,
                    502,
                    "Tunnel request stream lost"@,
                    now,
                ),
                UploadStage::EndLost => self.upload_over(
                    u,
                    502,
                    "Tunnel request stream disconnected"@,
                    now,
                ),
                UploadStage::EndSent | UploadStage::Sent => self.upload_goes_on(u, now),
            },
            UploadEventModel::Unsent(generation) => {
                let lost = self.upload_disconnected(u.id, generation);
                if !u.resumable {
                    lost.upload_over(u, 502, "Tunnel request stream disconnected"@, now)
                } else if u.stage == UploadStage::EndSent {
                    lost.upload_goes_on(UploadModel { stage: UploadStage::EndLost, ..u }, now)
                } else {
                    lost.upload_goes_on(u, now)
                }
            },
        }
    }
}

impl UploadModel {
    /// Whether more of a body may come from downstream.
    pub open spec fn reads(self) -> bool {
        self.stage == UploadStage::Sending && !self.finished
    }
}

impl State {
    fn upload_refused(&mut self, upload: &Upload, status: u16, message: &str, now: u64) -> (r:
        UploadStep)
        ensures
            (final(self)@, upload@, r@) == old(self)@.upload_over(upload@, status, message@, now),
    {
        let (actions, reply) = self.abort_upload(upload, status, message, now);
        UploadStep::Over { actions, reply }
    }

    fn send_piece(&mut self, upload: &mut Upload, now: u64) -> (r: UploadStep)
        requires
            old(upload)@.pending.len() > 0,
        ensures
            (final(self)@, final(upload)@, r@) == old(self)@.upload_sends(old(upload)@, now),
    {
        let i = match find_credits(&self.stream_credits, upload.id.as_str()) {
            None => {
                return self.upload_refused(upload, 502, "Tunnel request stream lost", now);
            },
            Some(i) => i,
        };
        let ghost before = self.stream_credits@;
        let ghost slot = before[i as int];
        let resumable = self.stream_credits.slots[i].session.is_some();
        let generation = match self.stream_credits.slots[i].generation {
            Some(generation) => generation,
            None => {
                let waits = self.stream_credits.slots[i].data.waits(resumable);
                if waits {
                    return UploadStep::Wait;
                }
                return self.upload_refused(upload, 502, "Tunnel request stream lost", now);
            },
        };
        match self.stream_credits.slots[i].data.acquire(resumable, false) {
            Credit::Wait => {
                assert(self.stream_credits@ =~= before);
                return UploadStep::Wait;
            },
            Credit::Refused => {
                assert(self.stream_credits@ =~= before);
                return self.upload_refused(upload, 502, "Tunnel request stream lost", now);
            },
            Credit::Granted => {},
        }
        let ghost u = upload@;
        let offset: u64 = upload.offset;
        let payload = copy_all(upload.pending[0].as_slice());
        let ghost piece = payload@;
        assert(u.pending[0] == piece);
        if upload.resumable {
            self.stream_credits.slots[i].data.record(offset, copy_all(payload.as_slice()));
        }
        proof {
            let spent = CreditsModel {
                available: (slot.data.available - 1) as usize,
                ..slot.data
            };
            let data = if u.resumable {
                spent.recorded((u.offset, piece))
            } else {
                spent
            };
            assert(self.stream_credits@ =~= before.update(i as int, SlotModel { data, ..slot }));
        }
        let len: u64 = payload.len() as u64;
        let envelope = BinaryEnvelope {
            id: upload.id.clone(),
            kind: BinaryKind::HttpRequest,
            payload,
            end_of_body: false,
            offset: if upload.resumable {
                Some(offset)
            } else {
                None
            },
        };
        match envelope.encode(upload.protocol.max_stream_chunk) {
            Err(_) => self.upload_refused(upload, 502, "Tunnel request stream lost", now),
            Ok(raw) => {
                upload.offset = if len <= u64::MAX - offset {
                    offset + len
                } else {
                    u64::MAX
                };
                let _ = upload.pending.remove(0);
                assert(upload@.pending =~= u.pending.drop_first());
                UploadStep::SendPiece { generation, raw }
            },
        }
    }

    fn stream_readiness(&self, id: &str) -> (r: (Credit, Option<u64>))
        ensures
            r.0 == self@.upload_readiness(id@),
            r.1 == (match entry(self@.stream_credits, id@) {
                None => None,
                Some(slot) => slot.generation,
            }),
    {
        match self.stream_credits.get(id) {
            None => (Credit::Refused, None),
            Some(slot) => {
                let c = if slot.data.connected && !slot.data.resuming {
                    Credit::Granted
                } else if slot.session.is_some() {
                    Credit::Wait
                } else {
                    Credit::Refused
                };
                (c, slot.generation)
            },
        }
    }

    fn send_end(&mut self, upload: &mut Upload, now: u64) -> (r: UploadStep)
        ensures
            (final(self)@, final(upload)@, r@) == old(self)@.upload_ends(old(upload)@, now),
    {
        match self.stream_readiness(upload.id.as_str()) {
            (Credit::Wait, _) => UploadStep::Wait,
            (Credit::Granted, Some(generation)) => {
                upload.stage = UploadStage::EndSent;
                UploadStep::SendEnd {
                    generation,
                    frame: Frame::HttpReqEnd { id: upload.id.clone() },
                }
            },
            _ => self.upload_refused(upload, 502, "Tunnel request stream lost", now),
        }
    }

    fn mark_ended(&mut self, id: &str)
        ensures
            final(self)@ == old(self)@.upload_ended(id@),
    {
        if let Some(i) = find_credits(&self.stream_credits, id) {
            let ghost before = self.stream_credits@;
            self.stream_credits.slots[i].data.ended = true;
            assert(self.stream_credits@ =~= before.update(
                i as int,
                SlotModel {
                    data: CreditsModel { ended: true, ..before[i as int].data },
                    ..before[i as int]
                },
            ));
        }
    }

    fn finish_sending(&mut self, upload: &mut Upload) -> (r: UploadStep)
        ensures
            (final(self)@, final(upload)@, r@) == old(self)@.upload_sent(old(upload)@),
    {
        if !upload.resumable {
            let _ = self.stream_credits.remove(upload.id.as_str());
        }
        upload.stage = UploadStage::Sent;
        UploadStep::Sent
    }

    fn go_on(&mut self, upload: &mut Upload, now: u64) -> (r: UploadStep)
        ensures
            (final(self)@, final(upload)@, r@) == old(self)@.upload_goes_on(old(upload)@, now),
    {
        match upload.stage {
            UploadStage::Sending => {
                if upload.pending.len() > 0 {
                    return self.send_piece(upload, now);
                }
                if !upload.finished {
                    return UploadStep::NeedBody;
                }
                if let Some(n) = upload.content_length {
                    if n != upload.received as u64 {
                        return self.upload_refused(
                            upload,
                            400,
                            "Request content length mismatch",
                            now,
                        );
                    }
                }
                self.mark_ended(upload.id.as_str());
                upload.stage = UploadStage::Ending;
                self.send_end(upload, now)
            },
            UploadStage::Ending => self.send_end(upload, now),
            UploadStage::EndLost => {
                if self.stream_readiness(upload.id.as_str()).0 == Credit::Wait {
                    UploadStep::Wait
                } else {
                    self.finish_sending(upload)
                }
            },
            UploadStage::EndSent | UploadStage::Sent => self.finish_sending(upload),
        }
    }

    /// Makes the next step of a request body after an event.
    pub fn upload_step(&mut self, upload: &mut Upload, event: UploadEvent, now: u64) -> (r:
        UploadStep)
        requires
            old(upload)@.protocol.max_stream_chunk > 0,
        ensures
            (final(self)@, final(upload)@, r@) == old(self)@.upload_next(
                old(upload)@,
                event@,
                now,
            ),
    {
        let ghost u = upload@;
        match event {
            UploadEvent::Changed => self.go_on(upload, now),
            UploadEvent::Body(data) => {
                if upload.stage != UploadStage::Sending || upload.finished {
                    return self.go_on(upload, now);
                }
                let max: usize = upload.protocol.max_body_size;
                if upload.received > max || data.len() > max - upload.received {
                    return self.upload_refused(upload, 413, "request body exceeds limit", now);
                }
                upload.received = upload.received + data.len();
                let mut parts = split_chunks(data.as_slice(), upload.protocol.max_stream_chunk);
                let ghost more = byte_views(parts@);
                upload.pending.append(&mut parts);
                assert(upload@.pending =~= u.pending + more);
                self.go_on(upload, now)
            },
            UploadEvent::BodyEnded => {
                upload.finished = true;
                self.go_on(upload, now)
            },
            UploadEvent::BodyBroken(message) => {
                if upload.stage != UploadStage::Sending || upload.finished {
                    return self.go_on(upload, now);
                }
                self.upload_refused(upload, 400, message.as_str(), now)
            },
            UploadEvent::TimedOut => match upload.stage {
                UploadStage::Sending => {
                    if upload.pending.len() > 0 {
                        return self.upload_refused(upload, 502, "Tunnel request stream lost", now);
                    }
                    self.go_on(upload, now)
                },
                UploadStage::Ending => self.upload_refused(
                    upload,
                    502,
                    "Tunnel request stream lost",
                    now,
                ),
                UploadStage::EndLost => self.upload_refused(
                    upload,
                    502,
                    "Tunnel request stream disconnected",
                    now,
                ),
                UploadStage::EndSent | UploadStage::Sent => self.go_on(upload, now),
            },
            UploadEvent::Unsent(generation) => {
                self.disconnect_upload(upload.id.as_str(), generation);
                if !upload.resumable {
                    return self.upload_refused(
                        upload,
                        502,
                        "Tunnel request stream disconnected",
                        now,
                    );
                }
                if upload.stage == UploadStage::EndSent {
                    upload.stage = UploadStage::EndLost;
                }
                self.go_on(upload, now)
            },
        }
    }
}

// ───────────────────────── resuming ─────────────────────────

/// The progress of sending the pieces of an upload again.
pub struct Resume {
    pub id: String,
    pub pieces: Vec<Piece>,
    pub next: usize,
    pub end_sent: bool,
}

/// The model of a [`Resume`].
pub struct ResumeModel {
    pub id: Seq<char>,
    pub pieces: Seq<PieceModel>,
    pub next: usize,
    pub end_sent: bool,
}

impl View for Resume {
    type V = ResumeModel;

    open spec fn view(&self) -> ResumeModel {
        ResumeModel {
            id: self.id@,
            pieces: piece_models(self.pieces@),
            next: self.next,
            end_sent: self.end_sent,
        }
    }
}

/// What a resume does next.
#[derive(Debug, PartialEq, Eq)]
pub enum ResumeStep {
    /// Nothing is left to do.
    Stop,
    /// Ask again when the stream changes.
    Wait,
    /// Send a piece.
    SendPiece { generation: u64, raw: Vec<u8> },
    /// Send the end of the body.
    SendEnd { generation: u64, frame: Frame },
}

/// The model of a [`ResumeStep`].
pub enum ResumeStepModel {
    Stop,
    Wait,
    SendPiece { generation: u64, raw: Seq<u8> },
    SendEnd { generation: u64, frame: FrameModel },
}

impl View for ResumeStep {
    type V = ResumeStepModel;

    open spec fn view(&self) -> ResumeStepModel {
        match *self {
            ResumeStep::Stop => ResumeStepModel::Stop,
            ResumeStep::Wait => ResumeStepModel::Wait,
            ResumeStep::SendPiece { generation, raw } => ResumeStepModel::SendPiece {
                generation,
                raw: raw@,
            },
            ResumeStep::SendEnd { generation, frame } => ResumeStepModel::SendEnd {
                generation,
                frame: frame@,
            },
        }
    }
}

/// The start of a resume: all pieces that were not acknowledged.
pub open spec fn resume_start(id: Seq<char>, c: CreditsModel) -> ResumeModel {
    ResumeModel { id, pieces: c.outstanding(), next: 0, end_sent: false }
}

impl StateModel {
    /// The next step of a resume: the pieces in order, each for one credit,
    /// then the end of the body where it was reached; then the stream is in
    /// order again.
    pub open spec fn resuming(self, r: ResumeModel) -> (StateModel, ResumeModel, ResumeStepModel) {
        match entry(self.stream_credits, r.id) {
            None => (self, r, ResumeStepModel::Stop),
            Some(slot) => if slot.generation is None {
                (self, r, ResumeStepModel::Stop)
            } else if r.next < r.pieces.len() {
                let piece = r.pieces[r.next as int];
                let wire = encoded(
                    piece_envelope(r.id, piece.1, Some(piece.0)),
                    self.config.stream_chunk_bytes as nat,
                );
                match credit(slot.data, slot.session is Some, true) {
                    Credit::Refused => (self, r, ResumeStepModel::Stop),
                    Credit::Wait => (self, r, ResumeStepModel::Wait),
                    Credit::Granted => match wire {
                        Ok(raw) => (
                            self.with_credits(
                                r.id,
                                CreditsModel {
                                    available: (slot.data.available - 1) as usize,
                                    ..slot.data
                                },
                            ),
                            ResumeModel { next: (r.next + 1) as usize, ..r },
                            ResumeStepModel::SendPiece { generation: slot.generation->0, raw },
                        ),
                        Err(_) => (
                            StateModel {
                                stream_credits: without(
                                    self.with_credits(
                                        r.id,
                                        CreditsModel {
                                            available: (slot.data.available - 1) as usize,
                                            ..slot.data
                                        },
                                    ).stream_credits,
                                    r.id,
                                ),
                                ..self
                            },
                            r,
                            ResumeStepModel::Stop,
                        ),
                    },
                }
            } else if slot.data.ended && !r.end_sent {
                match connection(slot.data, slot.session is Some) {
                    Credit::Refused => (self, r, ResumeStepModel::Stop),
                    Credit::Wait => (self, r, ResumeStepModel::Wait),
                    Credit::Granted => (
                        self,
                        ResumeModel { end_sent: true, ..r },
                        ResumeStepModel::SendEnd {
                            generation: slot.generation->0,
                            frame: FrameModel::HttpReqEnd { id: r.id },
                        },
                    ),
                }
            } else {
                (
                    self.with_credits(r.id, CreditsModel { resuming: false, ..slot.data }),
                    r,
                    ResumeStepModel::Stop,
                )
            },
        }
    }
}

impl State {
    /// Starts to send the pieces of a stream again, where it waits for that.
    pub fn begin_resume(&self, id: &str) -> (r: Option<Resume>)
        ensures
            match entry(self@.stream_credits, id@) {
                None => r is None,
                Some(slot) => match r {
                    None => !slot.data.resuming,
                    Some(resume) => slot.data.resuming && resume@ == resume_start(id@, slot.data),
                },
            },
    {
        match self.stream_credits.get(id) {
            None => None,
            Some(slot) => {
                if slot.data.resuming {
                    Some(
                        Resume {
                            id: id.to_owned(),
                            pieces: slot.data.unacked(),
                            next: 0,
                            end_sent: false,
                        },
                    )
                } else {
                    None
                }
            },
        }
    }

    /// Makes the next step of a resume.
    pub fn resume_step(&mut self, resume: &mut Resume) -> (r: ResumeStep)
        ensures
            (final(self)@, final(resume)@, r@) == old(self)@.resuming(old(resume)@),
    {
        let i = match find_credits(&self.stream_credits, resume.id.as_str()) {
            None => {
                return ResumeStep::Stop;
            },
            Some(i) => i,
        };
        let generation = match self.stream_credits.slots[i].generation {
            None => {
                return ResumeStep::Stop;
            },
            Some(g) => g,
        };
        let resumable = self.stream_credits.slots[i].session.is_some();
        let ghost before = self.stream_credits@;
        let ghost slot = before[i as int];
        if resume.next < resume.pieces.len() {
            match self.stream_credits.slots[i].data.acquire(resumable, true) {
                Credit::Refused => {
                    assert(self.stream_credits@ =~= before);
                    ResumeStep::Stop
                },
                Credit::Wait => {
                    assert(self.stream_credits@ =~= before);
                    ResumeStep::Wait
                },
                Credit::Granted => {
                    assert(self.stream_credits@ =~= before.update(
                        i as int,
                        SlotModel {
                            data: CreditsModel {
                                available: (slot.data.available - 1) as usize,
                                ..slot.data
                            },
                            ..slot
                        },
                    ));
                    let offset: u64 = resume.pieces[resume.next].0;
                    let payload = copy_all(resume.pieces[resume.next].1.as_slice());
                    let envelope = BinaryEnvelope {
                        id: resume.id.clone(),
                        kind: BinaryKind::HttpRequest,
                        payload,
                        end_of_body: false,
                        offset: Some(offset),
                    };
                    assert(resume@.pieces[resume.next as int] == (offset, payload@));
                    match envelope.encode(self.config.stream_chunk_bytes) {
                        Ok(raw) => {
                            resume.next = resume.next + 1;
                            ResumeStep::SendPiece { generation, raw }
                        },
                        Err(_) => {
                            let _ = self.stream_credits.remove(resume.id.as_str());
                            ResumeStep::Stop
                        },
                    }
                },
            }
        } else if self.stream_credits.slots[i].data.ended && !resume.end_sent {
            if self.stream_credits.slots[i].data.connected {
                resume.end_sent = true;
                ResumeStep::SendEnd {
                    generation,
                    frame: Frame::HttpReqEnd { id: resume.id.clone() },
                }
            } else if resumable {
                ResumeStep::Wait
            } else {
                ResumeStep::Stop
            }
        } else {
            self.stream_credits.slots[i].data.finish_resume();
            assert(self.stream_credits@ =~= before.update(
                i as int,
                SlotModel { data: CreditsModel { resuming: false, ..slot.data }, ..slot },
            ));
            ResumeStep::Stop
        }
    }

    /// Follows a step of a resume that could not be sent: the connection is
    /// lost, and everything that was not acknowledged goes out again.
    pub fn resume_unsent(&mut self, resume: &mut Resume, generation: u64)
        ensures
            final(self)@ == old(self)@.upload_disconnected(old(resume)@.id, generation),
            final(resume)@ == (match entry(final(self)@.stream_credits, old(resume)@.id) {
                Some(slot) => resume_start(old(resume)@.id, slot.data),
                None => ResumeModel {
                    pieces: Seq::empty(),
                    next: 0,
                    end_sent: false,
                    ..old(resume)@
                },
            }),
    {
        self.disconnect_upload(resume.id.as_str(), generation);
        let pieces: Vec<Piece> = match self.stream_credits.get(resume.id.as_str()) {
            Some(slot) => slot.data.unacked(),
            None => Vec::new(),
        };
        proof {
            if entry(self@.stream_credits, resume@.id) is None {
                assert(piece_models(pieces@) =~= Seq::empty());
            }
        }
        resume.pieces = pieces;
        resume.next = 0;
        resume.end_sent = false;
    }
}

} // verus!
