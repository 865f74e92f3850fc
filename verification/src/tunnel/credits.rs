//! Sender-side flow control of one request body: frame credits granted by the
//! peer, and the bytes kept until the peer has acknowledged them.
use crate::bytes::copy_all;
use super::config::{greatest, least};
use super::registry::{filter_empty, filter_extends};
use vstd::prelude::*;

verus! {

/// A piece of a body that was sent: where it starts, and its bytes.
pub type Piece = (u64, Vec<u8>);

/// The model of a [`Piece`].
pub type PieceModel = (u64, Seq<u8>);

/// The models of a sequence of pieces.
pub open spec fn piece_models(items: Seq<Piece>) -> Seq<PieceModel> {
    Seq::new(items.len(), |i: int| (items[i].0, items[i].1@))
}

/// The flow control of one stream. Its connection and session are those of the
/// entry that holds it.
pub struct StreamCredits {
    pub connected: bool,
    pub available: usize,
    pub window: usize,
    pub ack_offset: u64,
    pub unacked: Vec<Piece>,
    pub ended: bool,
    pub resuming: bool,
}

/// The model of [`StreamCredits`].
pub struct CreditsModel {
    pub connected: bool,
    pub available: usize,
    pub window: usize,
    pub ack_offset: u64,
    pub unacked: Seq<PieceModel>,
    pub ended: bool,
    pub resuming: bool,
}

impl View for StreamCredits {
    type V = CreditsModel;

    open spec fn view(&self) -> CreditsModel {
        CreditsModel {
            connected: self.connected,
            available: self.available,
            window: self.window,
            ack_offset: self.ack_offset,
            unacked: piece_models(self.unacked@),
            ended: self.ended,
            resuming: self.resuming,
        }
    }
}

/// Where a piece ends, as far as a `u64` can tell.
pub open spec fn piece_end(p: PieceModel) -> int {
    least(p.0 + p.1.len(), u64::MAX as int)
}

/// The pieces that end after `ack`.
pub open spec fn beyond(pieces: Seq<PieceModel>, ack: u64) -> Seq<PieceModel> {
    pieces.filter(|p: PieceModel| piece_end(p) > ack)
}

impl CreditsModel {
    /// A new stream: connected, with no credit.
    pub open spec fn fresh(window: usize) -> CreditsModel {
        CreditsModel {
            connected: true,
            available: 0,
            window,
            ack_offset: 0,
            unacked: Seq::empty(),
            ended: false,
            resuming: false,
        }
    }

    /// After its connection was lost.
    pub open spec fn disconnected(self, resumable: bool) -> CreditsModel {
        CreditsModel { connected: false, resuming: resumable, ..self }
    }

    /// After its session was taken over by a new connection.
    pub open spec fn reconnected(self) -> CreditsModel {
        CreditsModel { connected: true, resuming: true, available: 0, ..self }
    }

    /// After the peer granted credits: never more than the window in all, and
    /// what it acknowledged is forgotten.
    pub open spec fn granted(self, credits: usize, ack: Option<u64>) -> CreditsModel {
        let acked = match ack {
            Some(n) => if n > self.ack_offset {
                CreditsModel { ack_offset: n, unacked: beyond(self.unacked, n), ..self }
            } else {
                self
            },
            None => self,
        };
        CreditsModel {
            available: (self.available + least(
                credits as int,
                greatest(self.window - self.available, 0),
            )) as usize,
            ..acked
        }
    }

    /// After a piece was sent that may have to be sent again.
    pub open spec fn recorded(self, p: PieceModel) -> CreditsModel {
        CreditsModel { unacked: self.unacked.push(p), ..self }
    }

    /// The pieces that a new connection has to send again.
    pub open spec fn outstanding(self) -> Seq<PieceModel> {
        beyond(self.unacked, self.ack_offset)
    }

    /// The credit never exceeds the window, and nothing acknowledged is kept.
    pub open spec fn wf(self) -> bool {
        &&& self.available <= self.window
        &&& self.outstanding() == self.unacked
    }
}

/// What a sender that wants a credit is told.
#[derive(Debug, Clone, Copy, PartialEq, Eq, Structural)]
pub enum Credit {
    /// The stream is over.
    Refused,
    /// Not now: ask again when the stream changes.
    Wait,
    /// One frame may be sent.
    Granted,
}

/// What a sender that wants a credit is told.
pub open spec fn credit(c: CreditsModel, resumable: bool, during_resume: bool) -> Credit {
    if !during_resume && c.resuming {
        Credit::Wait
    } else if !c.connected {
        if resumable {
            Credit::Wait
        } else {
            Credit::Refused
        }
    } else if c.available > 0 {
        Credit::Granted
    } else {
        Credit::Wait
    }
}

/// What a sender that waits for its stream to be in order is told.
pub open spec fn readiness(c: CreditsModel, resumable: bool) -> Credit {
    if c.connected && !c.resuming {
        Credit::Granted
    } else if resumable {
        Credit::Wait
    } else {
        Credit::Refused
    }
}

/// What a sender that waits for a connection is told.
pub open spec fn connection(c: CreditsModel, resumable: bool) -> Credit {
    if c.connected {
        Credit::Granted
    } else if resumable {
        Credit::Wait
    } else {
        Credit::Refused
    }
}

fn end_of(offset: u64, len: usize) -> (r: u64)
    ensures
        r == least(offset + len, u64::MAX as int),
{
    if len as u64 <= u64::MAX - offset {
        offset + len as u64
    } else {
        u64::MAX
    }
}

fn keep_beyond(pieces: &mut Vec<Piece>, ack: u64)
    ensures
        piece_models(final(pieces)@) == beyond(piece_models(old(pieces)@), ack),
{
    let ghost s = piece_models(pieces@);
    let ghost pred = |p: PieceModel| piece_end(p) > ack;
    let mut i: usize = 0;
    let ghost mut n: int = 0;
    proof {
        filter_empty(pred);
        assert(s.take(0) =~= Seq::<PieceModel>::empty());
        assert(s =~= s.take(0).filter(pred) + s.skip(0));
    }
    while i < pieces.len()
        invariant
            pred == (|p: PieceModel| piece_end(p) > ack),
            0 <= n <= s.len(),
            i == s.take(n).filter(pred).len(),
            piece_models(pieces@) == s.take(n).filter(pred) + s.skip(n),
        decreases s.len() - n,
    {
        let ghost before = piece_models(pieces@);
        proof {
            assert(before[i as int] == s[n]);
            filter_extends(s, n, pred);
        }
        let end: u64 = end_of(pieces[i].0, pieces[i].1.len());
        if end > ack {
            i = i + 1;
        } else {
            let _ = pieces.remove(i);
            assert(piece_models(pieces@) =~= before.remove(i as int));
        }
        assert(piece_models(pieces@) =~= s.take(n + 1).filter(pred) + s.skip(n + 1));
        proof {
            n = n + 1;
        }
    }
    proof {
        assert(s.take(n) =~= s);
        assert(piece_models(pieces@) =~= s.filter(pred));
    }
}

impl StreamCredits {
    /// A stream without credit.
    pub fn new(window: usize) -> (r: StreamCredits)
        ensures
            r@ == CreditsModel::fresh(window),
    {
        let r = StreamCredits {
            connected: true,
            available: 0,
            window,
            ack_offset: 0,
            unacked: Vec::new(),
            ended: false,
            resuming: false,
        };
        assert(r@.unacked =~= Seq::<PieceModel>::empty());
        r
    }

    /// Marks the connection as lost.
    pub fn disconnect(&mut self, resumable: bool)
        ensures
            final(self)@ == old(self)@.disconnected(resumable),
    {
        self.connected = false;
        self.resuming = resumable;
    }

    /// Moves the stream to a new connection.
    pub fn rebind(&mut self)
        ensures
            final(self)@ == old(self)@.reconnected(),
    {
        self.connected = true;
        self.resuming = true;
        self.available = 0;
    }

    /// Takes a grant of the peer. Returns whether the stream now has to resume.
    pub fn grant(&mut self, credits: usize, ack: Option<u64>) -> (r: bool)
        ensures
            final(self)@ == old(self)@.granted(credits, ack),
            r == (old(self)@.resuming && ack is Some),
    {
        if let Some(n) = ack {
            if n > self.ack_offset {
                self.ack_offset = n;
                keep_beyond(&mut self.unacked, n);
            }
        }
        let room: usize = if self.available <= self.window {
            self.window - self.available
        } else {
            0
        };
        let grant: usize = if credits <= room {
            credits
        } else {
            room
        };
        self.available = self.available + grant;
        self.resuming && ack.is_some()
    }

    /// Whether a sender that wants a credit has to wait for it.
    pub fn waits(&self, resumable: bool) -> (r: bool)
        ensures
            r == (credit(self@, resumable, false) == Credit::Wait),
    {
        self.resuming || (!self.connected && resumable) || (self.connected && self.available == 0)
    }

    /// Takes one credit, where there is one to take.
    pub fn acquire(&mut self, resumable: bool, during_resume: bool) -> (r: Credit)
        ensures
            r == credit(old(self)@, resumable, during_resume),
            final(self)@ == (if r == Credit::Granted {
                CreditsModel { available: (old(self)@.available - 1) as usize, ..old(self)@ }
            } else {
                old(self)@
            }),
    {
        if !during_resume && self.resuming {
            return Credit::Wait;
        }
        if !self.connected {
            return if resumable {
                Credit::Wait
            } else {
                Credit::Refused
            };
        }
        if self.available > 0 {
            self.available = self.available - 1;
            Credit::Granted
        } else {
            Credit::Wait
        }
    }

    /// Keeps a piece until it is acknowledged.
    pub fn record(&mut self, offset: u64, payload: Vec<u8>)
        ensures
            final(self)@ == old(self)@.recorded((offset, payload@)),
    {
        let ghost before = piece_models(self.unacked@);
        self.unacked.push((offset, payload));
        assert(piece_models(self.unacked@) =~= before.push((offset, payload@)));
    }

    /// The pieces that have to be sent again.
    pub fn unacked(&self) -> (r: Vec<Piece>)
        ensures
            piece_models(r@) == self@.outstanding(),
    {
        let ghost s = piece_models(self.unacked@);
        let ghost pred = |p: PieceModel| piece_end(p) > self.ack_offset;
        let mut out: Vec<Piece> = Vec::new();
        proof {
            filter_empty(pred);
            assert(s.take(0) =~= Seq::<PieceModel>::empty());
            assert(piece_models(out@) =~= s.take(0).filter(pred));
        }
        for i in 0..self.unacked.len()
            invariant
                s == piece_models(self.unacked@),
                pred == (|p: PieceModel| piece_end(p) > self.ack_offset),
                piece_models(out@) == s.take(i as int).filter(pred),
        {
            proof {
                filter_extends(s, i as int, pred);
            }
            let end: u64 = end_of(self.unacked[i].0, self.unacked[i].1.len());
            if end > self.ack_offset {
                let ghost before = piece_models(out@);
                let copy = copy_all(self.unacked[i].1.as_slice());
                out.push((self.unacked[i].0, copy));
                assert(piece_models(out@) =~= before.push(s[i as int]));
            }
        }
        assert(s.take(s.len() as int) =~= s);
        out
    }

    /// Marks a resume as complete.
    pub fn finish_resume(&mut self)
        ensures
            final(self)@ == (CreditsModel { resuming: false, ..old(self)@ }),
    {
        self.resuming = false;
    }
}

// ───────────────────────── laws ─────────────────────────

proof fn filter_twice(s: Seq<PieceModel>, ack: u64)
    ensures
        beyond(beyond(s, ack), ack) == beyond(s, ack),
    decreases s.len(),
{
    reveal(Seq::filter);
    if s.len() > 0 {
        filter_twice(s.drop_last(), ack);
        let t = beyond(s.drop_last(), ack);
        if piece_end(s.last()) > ack {
            assert(t.push(s.last()).drop_last() =~= t);
        }
    }
}

/// Every operation keeps the credit within the window, and keeps nothing that
/// was acknowledged; a piece is only recorded beyond what was acknowledged.
pub proof fn credits_stay_within_window(c: CreditsModel, n: usize, ack: Option<u64>, p: PieceModel)
    requires
        c.wf(),
        piece_end(p) > c.ack_offset,
    ensures
        c.granted(n, ack).wf(),
        c.granted(n, ack).available <= c.window,
        c.disconnected(true).wf(),
        c.disconnected(false).wf(),
        c.reconnected().wf(),
        c.recorded(p).wf(),
{
    if let Some(m) = ack {
        if m > c.ack_offset {
            filter_twice(c.unacked, m);
        }
    }
    reveal(Seq::filter);
    assert(c.unacked.push(p).drop_last() =~= c.unacked);
}

/// An acknowledgement never moves back.
pub proof fn acknowledgement_grows(c: CreditsModel, n: usize, ack: Option<u64>)
    ensures
        c.granted(n, ack).ack_offset >= c.ack_offset,
        ack matches Some(m) ==> c.granted(n, ack).ack_offset >= m,
{
}

/// A lost connection and a resume lose no piece that was not acknowledged.
pub proof fn resume_keeps_pieces(c: CreditsModel)
    ensures
        c.disconnected(true).reconnected().outstanding() == c.outstanding(),
        credit(c.disconnected(true), true, false) == Credit::Wait,
        c.reconnected().available == 0,
{
}

} // verus!
