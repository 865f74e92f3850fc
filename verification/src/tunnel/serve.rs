//! What the two ports of the tunnel decide about the bytes that they read.
use super::config::CONTROL_WS_MESSAGE_BYTES;
use super::dispatch::Step;
use super::envelope::{decoded, BinaryEnvelope};
use super::frame::MAX_HTTP_HEADER_BYTES;
use super::state::{acts, acts_empty, acts_push, Action, State, StateModel};
use crate::bytes::{copy_range, find_subslice, first_occurrence, lossy, lossy_string, occurs};
use crate::http::request::{has_token, lines, lists_token, text_lines};
use crate::http::server::blank_line;
use crate::text::{lower, same_ignoring_case, split_once, split_pair, views};
use vstd::prelude::*;

verus! {

broadcast use {acts_push, acts_empty};

/// Whether a line asks for the upgrade to a WebSocket.
pub open spec fn asks_upgrade(line: Seq<char>) -> bool {
    match split_pair(line, ':') {
        Some((name, value)) => lower(name) == lower("upgrade"@) && lists_token(value, "websocket"@),
        None => false,
    }
}

/// Whether a head asks for the upgrade to a WebSocket, in any line but the
/// first.
pub open spec fn head_asks_upgrade(head: Seq<char>) -> bool {
    exists|i: int| 1 <= i < text_lines(head).len() && asks_upgrade(#[trigger] text_lines(head)[i])
}

fn head_upgrades(head: &str) -> (r: bool)
    ensures
        r == head_asks_upgrade(head@),
{
    let all = lines(head);
    let ghost seen = text_lines(head@);
    assert(views(all@) == seen);
    let mut i: usize = 1;
    while i < all.len()
        invariant
            1 <= i,
            views(all@) == seen,
            seen == text_lines(head@),
            forall|j: int| 1 <= j < i && j < seen.len() ==> !asks_upgrade(#[trigger] seen[j]),
        decreases all@.len() - i,
    {
        assert(views(all@)[i as int] == all@[i as int]@);
        if let Some((name, value)) = split_once(all[i].as_str(), ':') {
            if same_ignoring_case(name.as_str(), "upgrade") && has_token(
                value.as_str(),
                "websocket",
            ) {
                assert(asks_upgrade(seen[i as int]));
                return true;
            }
        }
        i = i + 1;
    }
    assert(views(all@).len() == all@.len());
    false
}

/// What was found out about a request that has not been consumed yet.
#[derive(Debug, Clone, Copy, PartialEq, Eq, Structural)]
pub enum Peek {
    /// Nothing will come.
    Closed,
    /// The head is there; whether it asks for a WebSocket.
    Request(bool),
    /// The head needs a buffer of this size.
    Grow(usize),
    /// The rest of the head has not come yet.
    Wait,
    TooLarge,
}

/// What is decided once `seen` was peeked into a buffer of `room` bytes.
pub open spec fn peeked(seen: Seq<u8>, room: usize, r: Peek) -> bool {
    if seen.len() == 0 {
        r == Peek::Closed
    } else if exists|n: int| first_occurrence(seen, blank_line(), n) {
        exists|n: int|
            #![trigger first_occurrence(seen, blank_line(), n)]
            first_occurrence(seen, blank_line(), n) && r == Peek::Request(
                head_asks_upgrade(lossy(seen.take(n + 4))),
            )
    } else if seen.len() < room {
        r == Peek::Wait
    } else if room >= MAX_HTTP_HEADER_BYTES {
        r == Peek::TooLarge
    } else {
        r == Peek::Grow(
            if room * 2 < MAX_HTTP_HEADER_BYTES {
                (room * 2) as usize
            } else {
                MAX_HTTP_HEADER_BYTES
            },
        )
    }
}

/// Decides whether a request asks for a WebSocket. A head that came in pieces
/// is decided once it is whole.
pub fn request_is_websocket_upgrade(seen: &[u8], room: usize) -> (r: Peek)
    ensures
        peeked(seen@, room, r),
{
    if seen.len() == 0 {
        return Peek::Closed;
    }
    let end: Vec<u8> = vec![0x0d, 0x0a, 0x0d, 0x0a];
    assert(end@ =~= blank_line());
    if let Some(at) = find_subslice(seen, end.as_slice()) {
        let total: usize = seen.len();
        assert(at + 4 <= total);
        let head = copy_range(seen, 0, at + 4);
        assert(head@ =~= seen@.take(at + 4));
        let text = lossy_string(head.as_slice());
        let found = head_upgrades(text.as_str());
        assert(first_occurrence(seen@, blank_line(), at as int));
        return Peek::Request(found);
    }
    assert(forall|n: int| first_occurrence(seen@, blank_line(), n) ==> occurs(
        seen@,
        blank_line(),
        n,
    ));
    if seen.len() < room {
        return Peek::Wait;
    }
    if room >= MAX_HTTP_HEADER_BYTES {
        return Peek::TooLarge;
    }
    if room * 2 < MAX_HTTP_HEADER_BYTES {
        Peek::Grow(room * 2)
    } else {
        Peek::Grow(MAX_HTTP_HEADER_BYTES)
    }
}

/// Whether the text of a control frame may be sent.
pub fn control_message(raw: &str) -> (r: bool)
    ensures
        r == (vstd::utf8::encode_utf8(raw@).len() <= CONTROL_WS_MESSAGE_BYTES),
{
    raw.as_bytes().len() <= CONTROL_WS_MESSAGE_BYTES
}

impl StateModel {
    /// The largest payload that an envelope of the active connection may have.
    pub open spec fn envelope_limit(self) -> usize {
        match self.protocol() {
            Some((_, p)) => p.max_stream_chunk,
            None => self.config.stream_chunk_bytes,
        }
    }

    /// What a binary message of a connection does.
    pub open spec fn on_binary(self, raw: Seq<u8>, generation: u64, now: u64) -> Result<
        Step,
        Seq<char>,
    > {
        match decoded(raw, self.envelope_limit() as nat) {
            Ok(e) => self.on_envelope(e, generation, now),
            Err(m) => Err(m),
        }
    }

    /// What the end of the time for negotiating does.
    pub open spec fn on_silence(self, generation: u64, now: u64) -> Step {
        if self.may_fall_back(generation) {
            let s = self.fallen_back(generation);
            (s.cleaned(now), s.cleaning_notices(now) + s.cleaned(now).resent(generation, None))
        } else {
            (self, Seq::empty())
        }
    }
}

impl State {
    /// Takes a binary message of a connection, and says whether it is the last
    /// of a body. An error ends the connection.
    pub fn binary_from_client(&mut self, raw: &[u8], generation: u64, now: u64) -> (r: Result<
        (Vec<Action>, bool),
        String,
    >)
        requires
            old(self)@.envelope_limit() + 8 <= usize::MAX,
        ensures
            match r {
                Ok((actions, last)) => old(self)@.on_binary(raw@, generation, now) == Ok::<
                    Step,
                    Seq<char>,
                >((final(self)@, acts(actions@))) && last == decoded(
                    raw@,
                    old(self)@.envelope_limit() as nat,
                )->Ok_0.end_of_body,
                Err(m) => old(self)@.on_binary(raw@, generation, now) == Err::<Step, Seq<char>>(
                    m@,
                ) && final(self)@ == old(self)@,
            },
    {
        let limit: usize = match self.active_protocol() {
            Some((_, p)) => p.max_stream_chunk,
            None => self.config.stream_chunk_bytes,
        };
        match BinaryEnvelope::decode(raw, limit) {
            Ok(envelope) => {
                let last = envelope.end_of_body;
                match self.dispatch_binary_from_client(envelope, generation, now) {
                    Ok(actions) => Ok((actions, last)),
                    Err(e) => Err(e),
                }
            },
            Err(e) => Err(e),
        }
    }

    /// Ends the time for negotiating of a connection: one that said nothing
    /// gets single-frame exchanges, and the requests that wait.
    pub fn negotiation_over(&mut self, generation: u64, now: u64) -> (r: Vec<Action>)
        ensures
            (final(self)@, acts(r@)) == old(self)@.on_silence(generation, now),
    {
        let mut out: Vec<Action> = Vec::new();
        if self.select_legacy_if_unnegotiated(generation) {
            self.resend_pending_requests(generation, &None, now, &mut out);
            assert(acts(out@) =~= old(self)@.on_silence(generation, now).1);
        }
        out
    }
}

/// A head is judged only once it is whole: while more can come, nothing is
/// decided.
pub proof fn unfinished_heads_wait(seen: Seq<u8>, room: usize, r: Peek)
    requires
        peeked(seen, room, r),
        seen.len() > 0,
        forall|n: int| !occurs(seen, blank_line(), n),
    ensures
        !(r is Request),
{
    assert(forall|n: int| first_occurrence(seen, blank_line(), n) ==> occurs(
        seen,
        blank_line(),
        n,
    ));
}

} // verus!
