//! What holds of a request body on its way: what is sent of it, in which order,
//! and for how much credit.
use super::credits::CreditsModel;
use super::envelope::{encoded, id_reads_back, sequence_bytes, stream_id};
use super::frame::FrameModel;
use super::registry::{entry, place, place_bound, place_is, without_lacks, SlotModel};
use super::state::StateModel;
use super::upload::{
    chunks, chunks_join, joined, joined_parts, new_upload, piece_envelope,
    UploadEventModel, UploadModel, UploadStage, UploadStepModel,
};
use crate::bytes::be_bytes_len;
use vstd::prelude::*;

verus! {

// ───────────────────────── single steps ─────────────────────────

/// The bytes that an event adds to a body.
pub open spec fn body_of(u: UploadModel, event: UploadEventModel) -> Seq<u8> {
    match event {
        UploadEventModel::Body(data) => if u.reads() {
            data
        } else {
            Seq::empty()
        },
        _ => Seq::empty(),
    }
}

/// The pieces that wait once an event was taken in.
pub open spec fn waiting(u: UploadModel, event: UploadEventModel) -> Seq<Seq<u8>> {
    match event {
        UploadEventModel::Body(data) => if u.reads() {
            u.pending + chunks(data, u.protocol.max_stream_chunk as nat)
        } else {
            u.pending
        },
        _ => u.pending,
    }
}

/// The bytes of the piece that a step sends, or nothing.
pub open spec fn piece_of(
    s: StateModel,
    u: UploadModel,
    event: UploadEventModel,
    now: u64,
) -> Seq<u8> {
    if s.upload_next(u, event, now).2 is SendPiece {
        waiting(u, event)[0]
    } else {
        Seq::empty()
    }
}

/// The credit that a stream has left.
pub open spec fn credit_left(s: StateModel, id: Seq<char>) -> nat {
    match entry(s.stream_credits, id) {
        Some(slot) => slot.data.available as nat,
        None => 0,
    }
}

/// No piece is empty or longer than agreed, and the end of a body is not
/// reached before all of it was sent and it is as long as announced.
pub open spec fn upload_ok(u: UploadModel) -> bool {
    &&& u.protocol.max_stream_chunk > 0
    &&& forall|i: int|
        0 <= i < u.pending.len() ==> 0 < (#[trigger] u.pending[i]).len()
            <= u.protocol.max_stream_chunk
    &&& u.stage != UploadStage::Sending ==> u.pending.len() == 0 && u.finished && u.length_met()
}

proof fn with_credits_entry(s: StateModel, id: Seq<char>, c: CreditsModel)
    ensures
        match entry(s.stream_credits, id) {
            Some(slot) => entry(s.with_credits(id, c).stream_credits, id) == Some(
                SlotModel { data: c, ..slot },
            ),
            None => s.with_credits(id, c) == s,
        },
{
    place_bound(s.stream_credits, id);
    if place(s.stream_credits, id) < s.stream_credits.len() {
        let t = s.with_credits(id, c).stream_credits;
        place_is(t, id, place(s.stream_credits, id) as int);
    }
}

proof fn joined_both(a: Seq<Seq<u8>>, b: Seq<Seq<u8>>)
    ensures
        joined(a + b) == joined(a) + joined(b),
{
    joined_parts(a + b, a.len() as int);
    assert((a + b).take(a.len() as int) =~= a);
    assert((a + b).skip(a.len() as int) =~= b);
}

/// A piece is sent only where the stream has credit, and spends one; no other
/// step spends or makes any. The piece is the first that waits, sent to the
/// connection of the stream.
pub proof fn pieces_cost_credit(
    s: StateModel,
    u: UploadModel,
    event: UploadEventModel,
    now: u64,
)
    ensures
        ({
            let (next, after, step) = s.upload_next(u, event, now);
            match step {
                UploadStepModel::SendPiece { generation, raw } => {
                    &&& entry(s.stream_credits, u.id) is Some
                    &&& entry(s.stream_credits, u.id)->0.generation == Some(generation)
                    &&& credit_left(s, u.id) > 0
                    &&& credit_left(next, u.id) == credit_left(s, u.id) - 1
                    &&& waiting(u, event).len() > 0
                    &&& encoded(
                        piece_envelope(u.id, waiting(u, event)[0], u.piece_offset()),
                        u.protocol.max_stream_chunk as nat,
                    ) == Ok::<Seq<u8>, Seq<char>>(raw)
                },
                UploadStepModel::Over { .. } => true,
                _ => credit_left(next, u.id) <= credit_left(s, u.id),
            }
        }),
{
    let lost = match event {
        UploadEventModel::Unsent(generation) => s.upload_disconnected(u.id, generation),
        _ => s,
    };
    if let Some(slot) = entry(s.stream_credits, u.id) {
        with_credits_entry(s, u.id, slot.data.disconnected(slot.session is Some));
    }
    assert(credit_left(lost, u.id) == credit_left(s, u.id));
    if let Some(slot) = entry(lost.stream_credits, u.id) {
        let spent = CreditsModel { available: (slot.data.available - 1) as usize, ..slot.data };
        with_credits_entry(lost, u.id, spent);
        with_credits_entry(lost, u.id, spent.recorded((u.offset, waiting(u, event)[0])));
        with_credits_entry(lost, u.id, CreditsModel { ended: true, ..slot.data });
    }
    without_lacks(lost.stream_credits, u.id);
}

/// A step neither loses nor repeats nor reorders bytes: what waited and what
/// came is what is sent and what waits.
pub proof fn steps_keep_the_body(
    s: StateModel,
    u: UploadModel,
    event: UploadEventModel,
    now: u64,
)
    requires
        upload_ok(u),
        !(s.upload_next(u, event, now).2 is Over),
    ensures
        ({
            let after = s.upload_next(u, event, now).1;
            let piece = piece_of(s, u, event, now);
            &&& upload_ok(after)
            &&& joined(u.pending) + body_of(u, event) == piece + joined(after.pending)
            &&& after.received == u.received + body_of(u, event).len()
            &&& s.upload_next(u, event, now).2 is SendPiece ==> 0 < piece.len()
                <= u.protocol.max_stream_chunk
            &&& u.offset + piece.len() <= u64::MAX ==> after.offset == u.offset + piece.len()
            &&& after.id == u.id && after.protocol == u.protocol && after.resumable == u.resumable
                && after.content_length == u.content_length
        }),
{
    let after = s.upload_next(u, event, now).1;
    let all = waiting(u, event);
    match event {
        UploadEventModel::Body(data) => {
            let more = chunks(data, u.protocol.max_stream_chunk as nat);
            chunks_join(data, u.protocol.max_stream_chunk as nat);
            joined_both(u.pending, more);
            assert forall|i: int| 0 <= i < all.len() implies 0 < (#[trigger] all[i]).len()
                <= u.protocol.max_stream_chunk by {
                if u.reads() && i >= u.pending.len() {
                    assert(all[i] == more[i - u.pending.len()]);
                } else {
                    assert(all[i] == u.pending[i]);
                }
            }
        },
        _ => {},
    }
    assert(joined(all) =~= joined(u.pending) + body_of(u, event));
    if s.upload_next(u, event, now).2 is SendPiece {
        assert(after.pending == all.drop_first());
        assert(joined(all) == all[0] + joined(all.drop_first()));
        assert forall|i: int| 0 <= i < after.pending.len() implies 0 < (
        #[trigger] after.pending[i]).len() <= u.protocol.max_stream_chunk by {
            assert(after.pending[i] == all[i + 1]);
        }
    } else {
        assert(after.pending == all);
        assert(joined(after.pending) =~= Seq::<u8>::empty() + joined(after.pending));
    }
}

/// The end of a body is sent only where nothing waits, nothing more will come,
/// and the body is as long as announced; after it no piece is sent, and no
/// second end.
pub proof fn the_end_comes_last(
    s: StateModel,
    u: UploadModel,
    event: UploadEventModel,
    now: u64,
)
    requires
        upload_ok(u),
    ensures
        ({
            let (_, after, step) = s.upload_next(u, event, now);
            &&& step is SendEnd ==> {
                &&& step->SendEnd_frame == FrameModel::HttpReqEnd { id: u.id }
                &&& after.pending.len() == 0
                &&& after.finished
                &&& after.length_met()
                &&& after.stage == UploadStage::EndSent
                &&& u.stage == UploadStage::Sending || u.stage == UploadStage::Ending
            }
            &&& step is SendPiece ==> u.stage == UploadStage::Sending
            &&& past_end(u.stage) ==> past_end(after.stage)
        }),
{
}

/// Whether the end of a body was handed over.
pub open spec fn past_end(stage: UploadStage) -> bool {
    stage == UploadStage::EndSent || stage == UploadStage::EndLost || stage == UploadStage::Sent
}

// ───────────────────────── whole runs ─────────────────────────

/// What a step starts from: the state of the tunnel, which others change
/// between the steps, and an event.
pub struct UploadInput {
    pub state: StateModel,
    pub event: UploadEventModel,
    pub now: u64,
}

/// A body after a run of steps.
pub open spec fn upload_after(u: UploadModel, inputs: Seq<UploadInput>) -> UploadModel
    decreases inputs.len(),
{
    if inputs.len() == 0 {
        u
    } else {
        let i = inputs.last();
        i.state.upload_next(upload_after(u, inputs.drop_last()), i.event, i.now).1
    }
}

/// The step that the `k`-th input leads to.
pub open spec fn upload_output(u: UploadModel, inputs: Seq<UploadInput>, k: int) -> UploadStepModel {
    inputs[k].state.upload_next(
        upload_after(u, inputs.take(k)),
        inputs[k].event,
        inputs[k].now,
    ).2
}

/// The bytes that a run has sent, one piece after the other.
pub open spec fn sent_so_far(u: UploadModel, inputs: Seq<UploadInput>) -> Seq<u8>
    decreases inputs.len(),
{
    if inputs.len() == 0 {
        Seq::empty()
    } else {
        let i = inputs.last();
        sent_so_far(u, inputs.drop_last()) + piece_of(
            i.state,
            upload_after(u, inputs.drop_last()),
            i.event,
            i.now,
        )
    }
}

/// The bytes that a run has read.
pub open spec fn body_so_far(u: UploadModel, inputs: Seq<UploadInput>) -> Seq<u8>
    decreases inputs.len(),
{
    if inputs.len() == 0 {
        Seq::empty()
    } else {
        let i = inputs.last();
        body_so_far(u, inputs.drop_last()) + body_of(
            upload_after(u, inputs.drop_last()),
            i.event,
        )
    }
}

/// Whether a run of steps gave nothing up.
pub open spec fn never_over(u: UploadModel, inputs: Seq<UploadInput>) -> bool {
    forall|k: int| 0 <= k < inputs.len() ==> !(#[trigger] upload_output(u, inputs, k) is Over)
}

proof fn shorter_run(u: UploadModel, inputs: Seq<UploadInput>)
    requires
        inputs.len() > 0,
        never_over(u, inputs),
    ensures
        never_over(u, inputs.drop_last()),
        inputs.take(inputs.len() - 1) == inputs.drop_last(),
        !(upload_output(u, inputs, inputs.len() - 1) is Over),
{
    let t = inputs.drop_last();
    assert(inputs.take(inputs.len() - 1) =~= t);
    assert forall|k: int| 0 <= k < t.len() implies !(#[trigger] upload_output(u, t, k) is Over) by {
        assert(t.take(k) =~= inputs.take(k));
        assert(upload_output(u, t, k) == upload_output(u, inputs, k));
    }
}

/// What a body has sent so far, with what waits, is what was read of it so far,
/// whatever happens to the tunnel between the steps.
pub proof fn sent_and_waiting_is_the_body(u: UploadModel, inputs: Seq<UploadInput>)
    requires
        upload_ok(u),
        u.pending.len() == 0,
        u.received == 0,
        u.offset == 0,
        never_over(u, inputs),
    ensures
        ({
            let after = upload_after(u, inputs);
            &&& upload_ok(after)
            &&& sent_so_far(u, inputs) + joined(after.pending) == body_so_far(u, inputs)
            &&& after.received == body_so_far(u, inputs).len()
            &&& after.offset == sent_so_far(u, inputs).len()
            &&& after.id == u.id && after.protocol == u.protocol && after.content_length
                == u.content_length
        }),
    decreases inputs.len(),
{
    if inputs.len() == 0 {
        assert(sent_so_far(u, inputs) + joined(u.pending) =~= body_so_far(u, inputs));
    } else {
        let t = inputs.drop_last();
        let i = inputs.last();
        shorter_run(u, inputs);
        sent_and_waiting_is_the_body(u, t);
        let before = upload_after(u, t);
        let after = upload_after(u, inputs);
        steps_keep_the_body(i.state, before, i.event, i.now);
        let piece = piece_of(i.state, before, i.event, i.now);
        let more = body_of(before, i.event);
        let sent = sent_so_far(u, t);
        assert(sent + joined(before.pending) + more =~= sent + (joined(before.pending) + more));
        assert(sent + piece + joined(after.pending) =~= sent + (piece + joined(after.pending)));
        assert(after.received == body_so_far(u, inputs).len());
        assert((sent + piece + joined(after.pending)).len() == after.received);
        assert(sent.len() + piece.len() <= usize::MAX);
    }
}

proof fn past_end_stays(u: UploadModel, inputs: Seq<UploadInput>, k: int, j: int)
    requires
        upload_ok(upload_after(u, inputs.take(k))),
        past_end(upload_after(u, inputs.take(k)).stage),
        0 <= k <= j <= inputs.len(),
    ensures
        past_end(upload_after(u, inputs.take(j)).stage),
    decreases j - k,
{
    if k < j {
        past_end_stays(u, inputs, k, j - 1);
        let i = inputs[j - 1];
        assert(inputs.take(j).drop_last() =~= inputs.take(j - 1));
        assert(inputs.take(j).last() == i);
        let before = upload_after(u, inputs.take(j - 1));
        stage_stays(i.state, before, i.event, i.now);
    }
}

proof fn stage_stays(s: StateModel, u: UploadModel, event: UploadEventModel, now: u64)
    requires
        past_end(u.stage),
    ensures
        past_end(s.upload_next(u, event, now).1.stage),
        !(s.upload_next(u, event, now).2 is SendPiece),
        !(s.upload_next(u, event, now).2 is SendEnd),
{
}

/// A new body is sent whole and in order: when its end is handed over, the
/// pieces that went before it, none empty or longer than agreed, join to all
/// that was read, which is as long as announced; and nothing of it follows its
/// end.
pub proof fn uploads_send_the_body(
    id: Seq<char>,
    generation: u64,
    protocol: super::config::NegotiatedProtocol,
    resumable: bool,
    content_length: Option<u64>,
    inputs: Seq<UploadInput>,
    k: int,
)
    requires
        protocol.max_stream_chunk > 0,
        0 <= k < inputs.len(),
        upload_output(
            new_upload(id, generation, protocol, resumable, content_length),
            inputs,
            k,
        ) is SendEnd,
        never_over(
            new_upload(id, generation, protocol, resumable, content_length),
            inputs.take(k),
        ),
    ensures
        ({
            let u = new_upload(id, generation, protocol, resumable, content_length);
            let body = body_so_far(u, inputs.take(k + 1));
            &&& upload_output(u, inputs, k)->SendEnd_frame == FrameModel::HttpReqEnd { id }
            &&& sent_so_far(u, inputs.take(k)) == body
            &&& content_length is Some ==> content_length->0 == body.len()
            &&& forall|j: int|
                0 <= j < k && #[trigger] upload_output(u, inputs, j) is SendPiece ==> 0 < piece_of(
                    inputs[j].state,
                    upload_after(u, inputs.take(j)),
                    inputs[j].event,
                    inputs[j].now,
                ).len() <= protocol.max_stream_chunk
            &&& forall|j: int|
                k < j < inputs.len() ==> !(#[trigger] upload_output(u, inputs, j) is SendPiece)
                    && !(upload_output(u, inputs, j) is SendEnd)
        }),
{
    let u = new_upload(id, generation, protocol, resumable, content_length);
    let run = inputs.take(k);
    sent_and_waiting_is_the_body(u, run);
    let before = upload_after(u, run);
    let i = inputs[k];
    the_end_comes_last(i.state, before, i.event, i.now);
    steps_keep_the_body(i.state, before, i.event, i.now);
    let after = i.state.upload_next(before, i.event, i.now).1;
    assert(inputs.take(k + 1).drop_last() =~= run);
    assert(inputs.take(k + 1).last() == i);
    assert(upload_after(u, inputs.take(k + 1)) == after);
    assert(joined(after.pending) =~= Seq::<u8>::empty());
    let more = body_of(before, i.event);
    assert(joined(before.pending) + more =~= Seq::<u8>::empty());
    assert(joined(before.pending).len() + more.len() == 0);
    assert(joined(before.pending) =~= Seq::<u8>::empty());
    assert(sent_so_far(u, run) + joined(before.pending) =~= sent_so_far(u, run));
    assert(body_so_far(u, inputs.take(k + 1)) =~= body_so_far(u, run) + more);
    assert(body_so_far(u, inputs.take(k + 1)) =~= sent_so_far(u, run));
    assert(content_length is Some ==> content_length->0 == after.received);
    assert forall|j: int|
        0 <= j < k && #[trigger] upload_output(u, inputs, j) is SendPiece implies 0 < piece_of(
        inputs[j].state,
        upload_after(u, inputs.take(j)),
        inputs[j].event,
        inputs[j].now,
    ).len() <= protocol.max_stream_chunk by {
        let shorter = inputs.take(j);
        assert(forall|m: int| 0 <= m < j ==> shorter.take(m) =~= run.take(m));
        assert forall|m: int| 0 <= m < shorter.len() implies !(#[trigger] upload_output(
            u,
            shorter,
            m,
        ) is Over) by {
            assert(shorter.take(m) =~= run.take(m));
            assert(upload_output(u, shorter, m) == upload_output(u, run, m));
        }
        sent_and_waiting_is_the_body(u, shorter);
        steps_keep_the_body(
            inputs[j].state,
            upload_after(u, shorter),
            inputs[j].event,
            inputs[j].now,
        );
    }
    assert forall|j: int| k < j < inputs.len() implies !(#[trigger] upload_output(
        u,
        inputs,
        j,
    ) is SendPiece) && !(upload_output(u, inputs, j) is SendEnd) by {
        past_end_stays(u, inputs, k + 1, j);
        stage_stays(
            inputs[j].state,
            upload_after(u, inputs.take(j)),
            inputs[j].event,
            inputs[j].now,
        );
    }
}

// ───────────────────────── credit ─────────────────────────

/// How many pieces a run has sent.
pub open spec fn pieces_sent(u: UploadModel, inputs: Seq<UploadInput>) -> nat
    decreases inputs.len(),
{
    if inputs.len() == 0 {
        0
    } else {
        let i = inputs.last();
        let before = upload_after(u, inputs.drop_last());
        pieces_sent(u, inputs.drop_last()) + (if i.state.upload_next(before, i.event, i.now).2
            is SendPiece {
            1nat
        } else {
            0
        })
    }
}

/// The sum of numbers.
pub open spec fn total(grants: Seq<nat>) -> nat
    decreases grants.len(),
{
    if grants.len() == 0 {
        0
    } else {
        total(grants.drop_last()) + grants.last()
    }
}

/// The credit that a run leaves its stream with.
pub open spec fn left_after(u: UploadModel, inputs: Seq<UploadInput>) -> nat {
    if inputs.len() == 0 {
        0
    } else {
        let i = inputs.last();
        credit_left(
            i.state.upload_next(upload_after(u, inputs.drop_last()), i.event, i.now).0,
            u.id,
        )
    }
}

/// Whether a stream that starts without credit gets at most `grants[k]` credits
/// between the steps before and at `k`.
pub open spec fn granted_at_most(
    u: UploadModel,
    inputs: Seq<UploadInput>,
    grants: Seq<nat>,
) -> bool {
    &&& grants.len() == inputs.len()
    &&& forall|k: int|
        0 <= k < inputs.len() ==> credit_left((#[trigger] inputs[k]).state, u.id) <= grants[k]
            + left_after(u, inputs.take(k))
}

/// A body never sends more pieces than credits were granted for it.
pub proof fn pieces_stay_within_credit(
    u: UploadModel,
    inputs: Seq<UploadInput>,
    grants: Seq<nat>,
)
    requires
        granted_at_most(u, inputs, grants),
        never_over(u, inputs),
    ensures
        pieces_sent(u, inputs) <= total(grants),
{
    spent_and_left(u, inputs, grants);
}

proof fn names_stay(s: StateModel, u: UploadModel, event: UploadEventModel, now: u64)
    ensures
        s.upload_next(u, event, now).1.id == u.id,
{
}

/// What one step spends and leaves.
proof fn step_spends(u: UploadModel, inputs: Seq<UploadInput>)
    requires
        inputs.len() > 0,
        upload_after(u, inputs.drop_last()).id == u.id,
        !(upload_output(u, inputs, inputs.len() - 1) is Over),
    ensures
        upload_after(u, inputs).id == u.id,
        pieces_sent(u, inputs) + left_after(u, inputs) <= pieces_sent(u, inputs.drop_last())
            + credit_left(inputs.last().state, u.id),
{
    let t = inputs.drop_last();
    let i = inputs.last();
    assert(inputs.take(inputs.len() - 1) =~= t);
    names_stay(i.state, upload_after(u, t), i.event, i.now);
    pieces_cost_credit(i.state, upload_after(u, t), i.event, i.now);
}

proof fn spent_and_left(u: UploadModel, inputs: Seq<UploadInput>, grants: Seq<nat>)
    requires
        granted_at_most(u, inputs, grants),
        never_over(u, inputs),
    ensures
        upload_after(u, inputs).id == u.id,
        pieces_sent(u, inputs) + left_after(u, inputs) <= total(grants),
    decreases inputs.len(),
{
    if inputs.len() > 0 {
        let t = inputs.drop_last();
        let g = grants.drop_last();
        let n = inputs.len() - 1;
        shorter_run(u, inputs);
        assert forall|k: int| 0 <= k < t.len() implies credit_left(
            (#[trigger] t[k]).state,
            u.id,
        ) <= g[k] + left_after(u, t.take(k)) by {
            assert(t[k] == inputs[k]);
            assert(t.take(k) =~= inputs.take(k));
        }
        spent_and_left(u, t, g);
        assert(inputs[n] == inputs.last());
        assert(credit_left(inputs[n].state, u.id) <= grants[n] + left_after(u, t));
        step_spends(u, inputs);
    }
}

/// A window that the peer opens adds at most the credits that it names.
pub proof fn windows_grant_credit(
    s: StateModel,
    id: Seq<char>,
    credits: usize,
    ack: Option<u64>,
    generation: u64,
)
    ensures
        credit_left(s.on_window(id, credits, ack, generation).0, id) <= credit_left(s, id)
            + credits,
{
    if let Some(slot) = entry(s.stream_credits, id) {
        with_credits_entry(s, id, slot.data.granted(credits, ack));
    }
}

// ───────────────────────── progress ─────────────────────────

/// Whether the stream of a body is in order on a connection.
pub open spec fn in_order(s: StateModel, id: Seq<char>, generation: u64) -> bool {
    match entry(s.stream_credits, id) {
        Some(slot) => slot.data.connected && !slot.data.resuming && slot.generation == Some(
            generation,
        ),
        None => false,
    }
}

/// Where its stream is in order and has credit, a body sends the first piece
/// that waits.
pub proof fn credit_lets_pieces_go(
    s: StateModel,
    u: UploadModel,
    number: u64,
    generation: u64,
    now: u64,
)
    requires
        upload_ok(u),
        u.id == stream_id(number),
        u.protocol.max_stream_chunk + 8 <= usize::MAX,
        u.stage == UploadStage::Sending,
        u.pending.len() > 0,
        in_order(s, u.id, generation),
        credit_left(s, u.id) > 0,
    ensures
        ({
            let (_, after, step) = s.upload_next(u, UploadEventModel::Changed, now);
            &&& step is SendPiece
            &&& step->SendPiece_generation == generation
            &&& piece_of(s, u, UploadEventModel::Changed, now) == u.pending[0]
            &&& after.pending == u.pending.drop_first()
        }),
{
    be_bytes_len(number as nat, 8);
    assert(sequence_bytes(number).len() == 16);
    id_reads_back(sequence_bytes(number));
}

/// Where its stream is in order, a body that was read to its end and is as long
/// as announced sends its end once nothing waits.
pub proof fn finished_bodies_end(s: StateModel, u: UploadModel, generation: u64, now: u64)
    requires
        u.stage == UploadStage::Sending,
        u.pending.len() == 0,
        u.length_met(),
        in_order(s, u.id, generation),
    ensures
        s.upload_next(u, UploadEventModel::BodyEnded, now).2 == (UploadStepModel::SendEnd {
            generation,
            frame: FrameModel::HttpReqEnd { id: u.id },
        }),
{
    if let Some(slot) = entry(s.stream_credits, u.id) {
        with_credits_entry(s, u.id, CreditsModel { ended: true, ..slot.data });
    }
}

} // verus!
