//! Laws of request bodies that go through the tunnel in pieces.
use super::exchanges::refused;
use crate::tunnel::credits::CreditsModel;
use crate::tunnel::envelope::{
    decoded, encoded, envelope_round_trip, id_text, BinaryKind, EnvelopeModel,
};
use crate::tunnel::exchange::{ReplyModel, WaitedModel};
use crate::tunnel::frame::{FrameModel, Pairs};
use crate::tunnel::registry::{entry, place, place_bound, place_is, with_has};
use crate::tunnel::state::{AnswerModel, StateModel};
use crate::tunnel::upload::{
    new_upload, piece_envelope, resume_start, ResumeModel, ResumeStepModel, UploadEventModel,
    UploadModel, UploadStage, UploadStepModel,
};
use crate::tunnel::config::NegotiatedProtocol;
use vstd::prelude::*;

verus! {

/// The beginning of an upload carries what the client downstream asked for.
pub proof fn uploads_carry_the_request(
    s: StateModel,
    id: Seq<char>,
    method: Seq<char>,
    path: Seq<char>,
    headers: Pairs,
    content_length: Option<u64>,
)
    ensures
        s.upload_frame(id, method, path, headers, content_length) matches FrameModel::HttpReqBegin {
            id: i,
            method: m,
            path: p,
            headers: h,
            content_length: n,
        } && i == id && m == method && p == path && h == headers && n == content_length,
{
}

/// An upload that begins has sent nothing, and its exchange and its stream are
/// known under its name, to its connection and its session. It has no credit
/// until the other end grants some.
pub proof fn uploads_begin(
    s: StateModel,
    id: Seq<char>,
    generation: u64,
    protocol: NegotiatedProtocol,
    session: Option<Seq<char>>,
    frame: FrameModel,
    content_length: Option<u64>,
    now: u64,
)
    ensures
        ({
            let after = s.uploading(id, generation, protocol, session, frame, now);
            let u = new_upload(id, generation, protocol, session is Some, content_length);
            let stream = entry(after.stream_credits, id);
            let exchange = entry(after.pending_http, id);
            let kept = entry(after.pending_requests, id);
            &&& u.received == 0 && u.offset == 0 && u.pending.len() == 0 && !u.finished && u.stage
                == UploadStage::Sending && u.content_length == content_length && u.id == id
                && u.generation == generation && u.protocol == protocol
            &&& stream is Some && stream->0.generation == Some(generation) && stream->0.session
                == session && stream->0.data.connected && stream->0.data.available == 0
                && stream->0.data.window == protocol.stream_window_frames
                && stream->0.data.unacked.len() == 0 && !stream->0.data.resuming
            &&& exchange is Some && exchange->0.generation == Some(generation)
                && exchange->0.session == session
            &&& session is Some ==> kept is Some && kept->0.data.frame == frame
                && kept->0.data.created_at == now && kept->0.session == session
            &&& session is None ==> after.pending_requests == s.pending_requests
        }),
{
    let after = s.uploading(id, generation, protocol, session, frame, now);
    with_has(s.stream_credits, after.stream_credits.last());
    with_has(s.pending_http, after.pending_http.last());
    if session is Some {
        with_has(s.pending_requests, after.pending_requests.last());
    }
}

/// Whether an upload is given up with a status and a text.
pub open spec fn given_up(step: UploadStepModel, status: u16, message: Seq<char>) -> bool {
    step matches UploadStepModel::Over { reply, .. } && refused(reply, status, message)
}

/// A body that grows beyond what is agreed is refused with 413. One that cannot
/// be read is refused with 400 and the error, and one of another length than was
/// announced with 400.
pub proof fn wrong_bodies_are_refused(
    s: StateModel,
    u: UploadModel,
    data: Seq<u8>,
    message: Seq<char>,
    now: u64,
)
    requires
        u.stage == UploadStage::Sending,
        !u.finished,
    ensures
        u.received + data.len() > u.protocol.max_body_size ==> given_up(
            s.upload_next(u, UploadEventModel::Body(data), now).2,
            413,
            "request body exceeds limit"@,
        ),
        given_up(s.upload_next(u, UploadEventModel::BodyBroken(message), now).2, 400, message),
        u.pending.len() == 0 && u.content_length is Some && u.content_length->0 != u.received
            ==> given_up(
            s.upload_next(u, UploadEventModel::BodyEnded, now).2,
            400,
            "Request content length mismatch"@,
        ),
{
}

/// What was read is counted.
pub proof fn bodies_are_counted(s: StateModel, u: UploadModel, data: Seq<u8>, now: u64)
    requires
        u.stage == UploadStage::Sending,
        !u.finished,
        u.received + data.len() <= u.protocol.max_body_size,
    ensures
        s.upload_next(u, UploadEventModel::Body(data), now).1.received == u.received + data.len(),
{
}

/// An upload whose connection is lost, or that waits too long, is refused with
/// 502, unless it can be resumed.
pub proof fn lost_uploads_are_refused(s: StateModel, u: UploadModel, generation: u64, now: u64)
    requires
        u.stage == UploadStage::Sending,
        u.pending.len() > 0,
    ensures
        !u.resumable ==> given_up(
            s.upload_next(u, UploadEventModel::Unsent(generation), now).2,
            502,
            "Tunnel request stream disconnected"@,
        ),
        given_up(
            s.upload_next(u, UploadEventModel::TimedOut, now).2,
            502,
            "Tunnel request stream lost"@,
        ),
        entry(s.stream_credits, u.id) is None ==> given_up(
            s.upload_next(u, UploadEventModel::Changed, now).2,
            502,
            "Tunnel request stream lost"@,
        ),
{
}

/// The answer to an upload goes downstream as it came: its status, and its body
/// in pieces. What went wrong is told with 504 or 502.
pub proof fn uploads_are_answered(
    s: StateModel,
    u: UploadModel,
    method: Seq<char>,
    waited: WaitedModel,
    now: u64,
)
    ensures
        ({
            let reply = s.on_upload_waited(u, method, waited, now).2;
            &&& waited is TimedOut ==> refused(reply, 504, "Tunnel timeout"@)
            &&& waited is Dropped ==> refused(reply, 502, "Tunnel response stream closed"@)
            &&& waited matches WaitedModel::Answered {
                answer: AnswerModel::Failed { message },
            } ==> refused(reply, 502, message)
            &&& waited matches WaitedModel::Answered { answer: AnswerModel::Legacy { .. } }
                ==> refused(reply, 502, "Invalid legacy tunnel response"@)
            &&& waited matches WaitedModel::Answered {
                answer: AnswerModel::Streaming { generation, status, .. },
            } ==> (method != "HEAD"@ && status >= 200 && status != 204 && status != 304 ==> (
            reply matches ReplyModel::Stream { generation: g, status: sent, .. } && g == generation
                && sent == status)) && (method == "HEAD"@ || 100 <= status < 200 || status == 204
                || status == 304 ==> (reply matches ReplyModel::Whole { status: sent, body, .. }
                && sent == status && body.len() == 0))
        }),
{
}

/// The other end reads from a piece the bytes that were sent, under the name of
/// the stream, and where it can be resumed also their place in the body.
pub proof fn pieces_are_read(
    id: Seq<u8>,
    payload: Seq<u8>,
    offset: Option<u64>,
    max: nat,
)
    requires
        id.len() == 16,
        payload.len() <= max,
        payload.len() + 8 < 0x1_0000_0000,
        payload.len() + 8 <= usize::MAX,
    ensures
        ({
            let raw = encoded(piece_envelope(id_text(id), payload, offset), max);
            &&& raw is Ok
            &&& decoded(raw->Ok_0, max) matches Ok(e) && e.id == id_text(id) && e.payload == payload
                && e.kind == BinaryKind::HttpRequest && e.offset == offset && !e.end_of_body
        }),
{
    if offset is Some {
        crate::bytes::be_bytes_len(offset->0 as nat, 8);
    }
    envelope_round_trip(piece_envelope(id_text(id), payload, offset), id, max);
}

/// A piece that is sent of an upload that can be resumed is kept with its place
/// until it is known to have come; the next piece follows it.
pub proof fn sent_pieces_are_kept(s: StateModel, u: UploadModel, now: u64)
    requires
        u.stage == UploadStage::Sending,
        u.pending.len() > 0,
        u.resumable,
        u.offset + u.pending[0].len() <= u64::MAX,
        s.upload_next(u, UploadEventModel::Changed, now).2 is SendPiece,
    ensures
        ({
            let (after, v, step) = s.upload_next(u, UploadEventModel::Changed, now);
            let before = entry(s.stream_credits, u.id);
            let stream = entry(after.stream_credits, u.id);
            &&& before is Some && stream is Some
            &&& stream->0.data.unacked == before->0.data.unacked.push((u.offset, u.pending[0]))
            &&& stream->0.data.available == before->0.data.available - 1
            &&& v.offset == u.offset + u.pending[0].len()
            &&& v.pending == u.pending.drop_first()
            &&& Some(step->SendPiece_generation) == before->0.generation
        }),
{
    place_bound(s.stream_credits, u.id);
    let (after, v, step) = s.upload_next(u, UploadEventModel::Changed, now);
    place_is(after.stream_credits, u.id, place(s.stream_credits, u.id) as int);
}

/// A resumed upload sends the pieces again that have not come, in their order and
/// each at its place, and each for a credit.
pub proof fn resumed_uploads_send_again(s: StateModel, r: ResumeModel)
    requires
        r.next < r.pieces.len() <= usize::MAX,
        s.resuming(r).2 is SendPiece,
    ensures
        ({
            let (after, t, step) = s.resuming(r);
            let piece = r.pieces[r.next as int];
            let before = entry(s.stream_credits, r.id);
            let stream = entry(after.stream_credits, r.id);
            &&& before is Some && before->0.data.connected && before->0.data.available > 0
            &&& stream is Some && stream->0.data.available == before->0.data.available - 1
            &&& t.next == r.next + 1
            &&& t.pieces == r.pieces
            &&& encoded(
                EnvelopeModel {
                    id: r.id,
                    kind: BinaryKind::HttpRequest,
                    payload: piece.1,
                    end_of_body: false,
                    offset: Some(piece.0),
                },
                s.config.stream_chunk_bytes as nat,
            ) == Ok::<Seq<u8>, Seq<char>>(step->SendPiece_raw)
            &&& Some(step->SendPiece_generation) == before->0.generation
        }),
{
    place_bound(s.stream_credits, r.id);
    let (after, t, step) = s.resuming(r);
    place_is(after.stream_credits, r.id, place(s.stream_credits, r.id) as int);
}

/// Once all has been sent again, the end of the body is, where that was sent
/// before; and then the upload goes on as usual.
pub proof fn resumed_uploads_go_on(s: StateModel, r: ResumeModel, generation: u64)
    requires
        r.next == r.pieces.len(),
        entry(s.stream_credits, r.id) is Some,
        entry(s.stream_credits, r.id)->0.generation == Some(generation),
        entry(s.stream_credits, r.id)->0.data.connected,
    ensures
        ({
            let stream = entry(s.stream_credits, r.id)->0.data;
            let (after, t, step) = s.resuming(r);
            &&& stream.ended && !r.end_sent ==> t.end_sent && step == (ResumeStepModel::SendEnd {
                generation,
                frame: FrameModel::HttpReqEnd { id: r.id },
            })
            &&& !stream.ended || r.end_sent ==> step is Stop && entry(after.stream_credits, r.id)
                is Some && !entry(after.stream_credits, r.id)->0.data.resuming
        }),
{
    place_bound(s.stream_credits, r.id);
    let (after, t, step) = s.resuming(r);
    place_is(after.stream_credits, r.id, place(s.stream_credits, r.id) as int);
}

/// A resumption starts from the first piece that is not known to have come.
pub proof fn resumptions_start(id: Seq<char>, c: CreditsModel, i: int)
    requires
        0 <= i < resume_start(id, c).pieces.len(),
    ensures
        resume_start(id, c).next == 0,
        !resume_start(id, c).end_sent,
        resume_start(id, c).id == id,
        c.unacked.contains(resume_start(id, c).pieces[i]),
        ({
            let p = resume_start(id, c).pieces[i];
            p.0 + p.1.len() > c.ack_offset || c.ack_offset == u64::MAX
        }),
        super::lists::some_of(resume_start(id, c).pieces, c.unacked),
{
    let pred = |p: crate::tunnel::credits::PieceModel| crate::tunnel::credits::piece_end(p)
        > c.ack_offset;
    super::lists::filtered_items(c.unacked, pred);
    let pieces = resume_start(id, c).pieces;
    assert(pieces.contains(pieces[i]));
    assert(pred(pieces[i]));
}

/// A piece that could not be sent makes an upload wait for its resumption, where
/// it can be resumed.
pub proof fn unsent_pieces_wait(s: StateModel, u: UploadModel, generation: u64, now: u64)
    requires
        u.resumable,
        u.stage == UploadStage::Sending,
        u.pending.len() > 0,
        entry(s.stream_credits, u.id) is Some,
        entry(s.stream_credits, u.id)->0.generation == Some(generation),
        entry(s.stream_credits, u.id)->0.session is Some,
    ensures
        ({
            let (after, v, step) = s.upload_next(u, UploadEventModel::Unsent(generation), now);
            let stream = entry(after.stream_credits, u.id);
            &&& step is Wait
            &&& v == u
            &&& stream is Some && !stream->0.data.connected && stream->0.data.resuming
                && stream->0.data.unacked == entry(s.stream_credits, u.id)->0.data.unacked
        }),
{
    place_bound(s.stream_credits, u.id);
    let lost = s.upload_disconnected(u.id, generation);
    place_is(lost.stream_credits, u.id, place(s.stream_credits, u.id) as int);
}

/// A session belongs to a stream only where it was agreed to resume it.
pub proof fn sessions_are_agreed(protocol: NegotiatedProtocol, session: Option<Seq<char>>)
    ensures
        protocol.resumable ==> crate::tunnel::upload::stream_session(protocol, session) == session,
        !protocol.resumable ==> crate::tunnel::upload::stream_session(protocol, session) is None,
{
}

/// A wait that is over changes nothing for an upload that waits for its body, or
/// that was sent.
pub proof fn idle_waits_change_nothing(s: StateModel, u: UploadModel, now: u64)
    requires
        u.stage == UploadStage::Sending && u.pending.len() == 0 || u.stage == UploadStage::EndSent
            || u.stage == UploadStage::Sent,
    ensures
        s.upload_next(u, UploadEventModel::TimedOut, now) == s.upload_next(
            u,
            UploadEventModel::Changed,
            now,
        ),
        u.stage == UploadStage::Sending && !u.finished ==> s.upload_next(
            u,
            UploadEventModel::Changed,
            now,
        ) == (s, u, UploadStepModel::NeedBody),
{
}

/// An upload that waits too long for its end to be taken is refused with 502.
pub proof fn late_ends_are_refused(s: StateModel, u: UploadModel, now: u64)
    ensures
        u.stage == UploadStage::Ending ==> given_up(
            s.upload_next(u, UploadEventModel::TimedOut, now).2,
            502,
            "Tunnel request stream lost"@,
        ),
        u.stage == UploadStage::EndLost ==> given_up(
            s.upload_next(u, UploadEventModel::TimedOut, now).2,
            502,
            "Tunnel request stream disconnected"@,
        ),
{
}

} // verus!
