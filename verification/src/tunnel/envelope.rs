//! Stream identifiers and the binary envelope that carries body bytes.
//!
//! Layout: magic `YD`, version, kind, identifier length, 16 identifier bytes,
//! flags, payload length (four bytes, big-endian), an offset of eight bytes
//! where the flags say so, and the payload.
use crate::bytes::{
    all_hex, be_bytes, be_bytes_len, be_reads_back, be_value, capacities, copy_range, hex_bytes,
    hex_char, hex_chars, hex_numeral, hex_numeral_chars, hex_reads_back, hex_text, parse_hex,
    push_be, read_be,
};
use crate::numbers::{after, drawn, drawn_is, following};
use crate::text::{chars_of, decimal, join, join4, string_of, to_decimal};
use vstd::prelude::*;

verus! {

/// The length of the header.
pub const BINARY_HEADER_BYTES: usize = 26;

// ───────────────────────── identifiers ─────────────────────────

/// `s` without its dashes.
pub open spec fn compact(s: Seq<char>) -> Seq<char> {
    s.filter(|c: char| c != '-')
}

/// The sixteen bytes of an identifier: 32 hexadecimal digits, dashes anywhere.
pub open spec fn id_bytes(s: Seq<char>) -> Option<Seq<u8>> {
    if compact(s).len() == 32 && all_hex(compact(s)) {
        Some(hex_bytes(compact(s)))
    } else {
        None
    }
}

/// Hexadecimal digits with dashes after the 8th, 12th, 16th and 20th.
pub open spec fn dashed(h: Seq<char>) -> Seq<char> {
    h.subrange(0, 8).push('-') + h.subrange(8, 12).push('-') + h.subrange(12, 16).push('-')
        + h.subrange(16, 20).push('-') + h.subrange(20, 32)
}

/// The canonical text of sixteen identifier bytes.
pub open spec fn id_text(b: Seq<u8>) -> Seq<char> {
    dashed(hex_text(b))
}

/// What is said of an identifier that is none.
pub open spec fn bad_id() -> Seq<char> {
    "binary envelope id must be a UUID"@
}

proof fn filter_keeps(s: Seq<char>)
    requires
        forall|i: int| 0 <= i < s.len() ==> s[i] != '-',
    ensures
        compact(s) == s,
    decreases s.len(),
{
    reveal(Seq::filter);
    if s.len() > 0 {
        filter_keeps(s.drop_last());
        assert(s.drop_last().push(s.last()) =~= s);
    } else {
        assert(compact(s) =~= s);
    }
}

proof fn compact_piece(h: Seq<char>, rest: Seq<char>)
    requires
        forall|i: int| 0 <= i < h.len() ==> h[i] != '-',
    ensures
        compact(h.push('-') + rest) == h + compact(rest),
{
    let p = |c: char| c != '-';
    Seq::filter_distributes_over_add(h.push('-'), rest, p);
    filter_keeps(h);
    reveal(Seq::filter);
    assert(h.push('-').drop_last() =~= h);
}

/// The canonical text of identifier bytes reads back as those bytes.
pub proof fn id_reads_back(b: Seq<u8>)
    requires
        b.len() == 16,
    ensures
        id_bytes(id_text(b)) == Some(b),
{
    let h = hex_text(b);
    assert forall|i: int| 0 <= i < h.len() implies h[i] != '-' by {
        assert(0 <= i / 2 < b.len());
        assert(h[i] == hex_char((b[i / 2] / 16) as nat) || h[i] == hex_char(
            (b[i / 2] % 16) as nat,
        ));
    }
    let p4 = h.subrange(20, 32);
    let p3 = h.subrange(16, 20).push('-') + p4;
    let p2 = h.subrange(12, 16).push('-') + p3;
    let p1 = h.subrange(8, 12).push('-') + p2;
    let p0 = h.subrange(0, 8).push('-') + p1;
    assert(p0 =~= id_text(b));
    filter_keeps(p4);
    compact_piece(h.subrange(16, 20), p4);
    compact_piece(h.subrange(12, 16), p3);
    compact_piece(h.subrange(8, 12), p2);
    compact_piece(h.subrange(0, 8), p1);
    assert(compact(p0) =~= h);
    hex_reads_back(b);
}

/// The bytes of an identifier.
pub fn uuid_bytes_from_id(id: &str) -> (r: Result<Vec<u8>, String>)
    ensures
        match r {
            Ok(b) => id_bytes(id@) == Some(b@) && b@.len() == 16,
            Err(e) => id_bytes(id@) is None && e@ == bad_id(),
        },
{
    let chars = chars_of(id);
    let mut kept: Vec<char> = Vec::new();
    proof {
        reveal(Seq::filter);
        assert(compact(id@.take(0)) =~= Seq::<char>::empty());
    }
    for i in 0..chars.len()
        invariant
            chars@ == id@,
            kept@ == compact(id@.take(i as int)),
    {
        proof {
            reveal(Seq::filter);
            assert(id@.take(i as int + 1).drop_last() =~= id@.take(i as int));
        }
        if chars[i] != '-' {
            kept.push(chars[i]);
        }
    }
    assert(id@.take(id@.len() as int) =~= id@);
    if kept.len() == 32 {
        if let Some(b) = parse_hex(&kept) {
            return Ok(b);
        }
    }
    Err("binary envelope id must be a UUID".to_owned())
}

/// The canonical text of sixteen identifier bytes.
pub fn id_from_uuid_bytes(b: &[u8]) -> (r: String)
    requires
        b@.len() == 16,
    ensures
        r@ == id_text(b@),
{
    let h = hex_chars(b);
    let mut out: Vec<char> = Vec::new();
    for i in 0..32usize
        invariant
            h@ == hex_text(b@),
            h@.len() == 32,
            out@ == dashed(h@).take(
                (i + (if i > 8 { 1int } else { 0 }) + (if i > 12 { 1int } else { 0 }) + (if i > 16 {
                    1int
                } else {
                    0
                }) + (if i > 20 { 1int } else { 0 })) as int,
            ),
    {
        let ghost d = dashed(h@);
        let ghost before = out@;
        if i == 8 || i == 12 || i == 16 || i == 20 {
            out.push('-');
            assert(out@ =~= d.take(before.len() as int + 1));
        }
        let ghost mid = out@;
        out.push(h[i]);
        assert(d[mid.len() as int] == h@[i as int]);
        assert(out@ =~= d.take(mid.len() as int + 1));
    }
    assert(dashed(h@).take(36) =~= dashed(h@));
    string_of(out.as_slice())
}

/// The identifier bytes of the `sequence`-th stream of a process: `YRRT`, a
/// version 4 mark, and the number under a variant mark.
pub open spec fn sequence_bytes(sequence: u64) -> Seq<u8> {
    let n = be_bytes(sequence as nat, 8);
    seq![0x59u8, 0x52, 0x52, 0x54, 0, 0, 0x40, 0] + seq![(n[0] % 64 + 128) as u8] + n.skip(1)
}

/// The identifier of the `sequence`-th stream of a process.
pub fn make_id(sequence: u64) -> (r: String)
    ensures
        r@ == id_text(sequence_bytes(sequence)),
{
    let mut number: Vec<u8> = Vec::new();
    push_be(&mut number, sequence, 8);
    proof {
        be_bytes_len(sequence as nat, 8);
        assert(number@ =~= be_bytes(sequence as nat, 8));
    }
    let mut b: Vec<u8> = vec![0x59, 0x52, 0x52, 0x54, 0, 0, 0x40, 0];
    b.push(number[0] % 64 + 128);
    let mut rest = copy_range(number.as_slice(), 1, 8);
    b.append(&mut rest);
    assert(b@ =~= sequence_bytes(sequence));
    id_from_uuid_bytes(b.as_slice())
}

/// The identifier of the stream with a number.
pub open spec fn stream_id(sequence: u64) -> Seq<char> {
    id_text(sequence_bytes(sequence))
}

/// The numbers that the streams of a process are identified by. All tunnels of
/// a process draw from one sequence.
#[derive(Debug, PartialEq, Eq)]
pub struct Sequence {
    pub next: u64,
}

impl Sequence {
    /// The sequence of a process that has opened no stream.
    pub fn new() -> (r: Sequence)
        ensures
            r.next == 1,
    {
        Sequence { next: 1 }
    }

    /// Makes the identifier of a new stream.
    pub fn fresh_id(&mut self) -> (r: String)
        ensures
            r@ == stream_id(old(self).next),
            final(self).next == after(old(self).next),
    {
        let id = make_id(self.next);
        self.next = following(self.next);
        id
    }
}

/// Two streams with numbers below 2^62 never share an identifier.
pub proof fn ids_are_unique(a: u64, b: u64)
    requires
        a < 0x4000_0000_0000_0000,
        b < 0x4000_0000_0000_0000,
        id_text(sequence_bytes(a)) == id_text(sequence_bytes(b)),
    ensures
        a == b,
{
    be_bytes_len(a as nat, 8);
    be_bytes_len(b as nat, 8);
    capacities();
    be_reads_back(a as nat, 8);
    be_reads_back(b as nat, 8);
    let x = sequence_bytes(a);
    let y = sequence_bytes(b);
    id_reads_back(x);
    id_reads_back(y);
    assert(x == y);
    let m = be_bytes(a as nat, 8);
    let n = be_bytes(b as nat, 8);
    top_byte(a);
    top_byte(b);
    assert(x[8] == m[0] % 64 + 128);
    assert(y[8] == n[0] % 64 + 128);
    assert(m[0] == n[0]);
    assert forall|i: int| 0 <= i < 8 implies m[i] == n[i] by {
        if i > 0 {
            assert(x[8 + i] == m.skip(1)[i - 1]);
            assert(y[8 + i] == n.skip(1)[i - 1]);
        }
    }
    assert(m =~= n);
}

/// Streams that draw their numbers from one sequence never share an
/// identifier, whichever tunnels they belong to.
pub proof fn drawn_ids_differ(first: u64, i: nat, j: nat)
    requires
        i < j,
        first + j < 0x4000_0000_0000_0000,
    ensures
        stream_id(drawn(first, i)) != stream_id(drawn(first, j)),
{
    drawn_is(first, i);
    drawn_is(first, j);
    if stream_id(drawn(first, i)) == stream_id(drawn(first, j)) {
        ids_are_unique(drawn(first, i), drawn(first, j));
    }
}

proof fn top_byte(a: u64)
    requires
        a < 0x4000_0000_0000_0000,
    ensures
        be_bytes(a as nat, 8)[0] < 64,
{
    reveal_with_fuel(be_bytes, 9);
}

// ───────────────────────── envelope ─────────────────────────

/// What the payload of an envelope belongs to.
#[derive(Debug, Clone, Copy, PartialEq, Eq, Structural)]
pub enum BinaryKind {
    HttpRequest,
    HttpResponse,
    WebSocket,
}

impl BinaryKind {
    /// The byte that stands for the kind.
    pub open spec fn code(self) -> u8 {
        match self {
            BinaryKind::HttpRequest => 1,
            BinaryKind::HttpResponse => 2,
            BinaryKind::WebSocket => 3,
        }
    }

    /// The byte that stands for the kind.
    pub fn byte(self) -> (r: u8)
        ensures
            r == self.code(),
    {
        match self {
            BinaryKind::HttpRequest => 1,
            BinaryKind::HttpResponse => 2,
            BinaryKind::WebSocket => 3,
        }
    }

    /// The kind that a byte stands for.
    pub open spec fn of_code(b: u8) -> Option<BinaryKind> {
        if b == 1 {
            Some(BinaryKind::HttpRequest)
        } else if b == 2 {
            Some(BinaryKind::HttpResponse)
        } else if b == 3 {
            Some(BinaryKind::WebSocket)
        } else {
            None
        }
    }

    /// The kind that a byte stands for.
    pub fn try_from(value: u8) -> (r: Result<BinaryKind, String>)
        ensures
            match r {
                Ok(k) => BinaryKind::of_code(value) == Some(k),
                Err(e) => BinaryKind::of_code(value) is None && e@
                    == "unknown binary envelope kind: "@ + decimal(value as nat),
            },
    {
        match value {
            1 => Ok(BinaryKind::HttpRequest),
            2 => Ok(BinaryKind::HttpResponse),
            3 => Ok(BinaryKind::WebSocket),
            _ => {
                let n = to_decimal(value as u64);
                Err(join("unknown binary envelope kind: ", n.as_str()))
            },
        }
    }
}

/// One piece of a body or of a WebSocket message.
#[derive(Debug, PartialEq, Eq)]
pub struct BinaryEnvelope {
    pub id: String,
    pub kind: BinaryKind,
    pub payload: Vec<u8>,
    pub end_of_body: bool,
    pub offset: Option<u64>,
}

/// The model of a [`BinaryEnvelope`].
#[verifier::ext_equal]
pub struct EnvelopeModel {
    pub id: Seq<char>,
    pub kind: BinaryKind,
    pub payload: Seq<u8>,
    pub end_of_body: bool,
    pub offset: Option<u64>,
}

impl View for BinaryEnvelope {
    type V = EnvelopeModel;

    open spec fn view(&self) -> EnvelopeModel {
        EnvelopeModel {
            id: self.id@,
            kind: self.kind,
            payload: self.payload@,
            end_of_body: self.end_of_body,
            offset: self.offset,
        }
    }
}

/// The flag byte: 1 for the end of a body, 2 for an offset.
pub open spec fn flag_byte(end_of_body: bool, offset: Option<u64>) -> u8 {
    let end: u8 = if end_of_body {
        1
    } else {
        0
    };
    let at: u8 = if offset is Some {
        2
    } else {
        0
    };
    (end + at) as u8
}

/// What follows the header: the offset, if there is one, then the payload.
pub open spec fn wire_payload(e: EnvelopeModel) -> Seq<u8> {
    match e.offset {
        Some(n) => be_bytes(n as nat, 8) + e.payload,
        None => e.payload,
    }
}

/// The 26 header bytes.
pub open spec fn header_bytes(e: EnvelopeModel, id: Seq<u8>) -> Seq<u8> {
    seq![0x59u8, 0x44, 1, e.kind.code(), 16] + id + seq![flag_byte(e.end_of_body, e.offset)]
        + be_bytes(wire_payload(e).len(), 4)
}

/// What is said of a payload that is too long.
pub open spec fn over_limit(len: nat, limit: nat) -> Seq<char> {
    "binary payload exceeds negotiated chunk limit: "@ + decimal(len) + " > "@ + decimal(limit)
}

/// The bytes of an envelope, or why it cannot be written.
pub open spec fn encoded(e: EnvelopeModel, max_payload: nat) -> Result<Seq<u8>, Seq<char>> {
    if e.payload.len() > max_payload {
        Err(over_limit(e.payload.len(), max_payload))
    } else {
        match id_bytes(e.id) {
            None => Err(bad_id()),
            Some(id) => if e.offset is Some && e.payload.len() + 8 > usize::MAX {
                Err("binary payload size overflow"@)
            } else {
                Ok(header_bytes(e, id) + wire_payload(e))
            },
        }
    }
}

/// The envelope that bytes hold, or why they hold none.
pub open spec fn decoded(raw: Seq<u8>, max_payload: nat) -> Result<EnvelopeModel, Seq<char>> {
    if raw.len() < 26 {
        Err("binary envelope is shorter than its header"@)
    } else if raw[0] != 0x59 || raw[1] != 0x44 {
        Err("invalid binary envelope magic"@)
    } else if raw[2] != 1 {
        Err("unsupported binary envelope version: "@ + decimal(raw[2] as nat))
    } else if BinaryKind::of_code(raw[3]) is None {
        Err("unknown binary envelope kind: "@ + decimal(raw[3] as nat))
    } else if raw[4] != 16 {
        Err("invalid binary envelope UUID length: "@ + decimal(raw[4] as nat))
    } else if raw[21] > 3 {
        Err("unknown binary envelope flags: 0x"@ + hex_numeral(raw[21] as nat))
    } else {
        let with_offset = raw[21] >= 2;
        let len = be_value(raw.subrange(22, 26));
        let limit = if with_offset {
            max_payload + 8
        } else {
            max_payload
        };
        let body = raw.skip(26);
        if len > limit {
            Err(over_limit(len, limit))
        } else if body.len() != len {
            Err("binary payload length mismatch: "@ + decimal(body.len()) + " != "@ + decimal(len))
        } else if with_offset && body.len() < 8 {
            Err("offset binary envelope payload is too short"@)
        } else {
            Ok(
                EnvelopeModel {
                    id: id_text(raw.subrange(5, 21)),
                    kind: BinaryKind::of_code(raw[3])->0,
                    payload: if with_offset {
                        body.skip(8)
                    } else {
                        body
                    },
                    end_of_body: raw[21] == 1 || raw[21] == 3,
                    offset: if with_offset {
                        Some(be_value(body.take(8)) as u64)
                    } else {
                        None
                    },
                },
            )
        }
    }
}

impl BinaryEnvelope {
    /// Writes the envelope, whose payload may hold up to `max_payload` bytes.
    pub fn encode(&self, max_payload: usize) -> (r: Result<Vec<u8>, String>)
        ensures
            match r {
                Ok(raw) => encoded(self@, max_payload as nat) == Ok::<Seq<u8>, Seq<char>>(raw@),
                Err(e) => encoded(self@, max_payload as nat) == Err::<Seq<u8>, Seq<char>>(e@),
            },
    {
        if self.payload.len() > max_payload {
            let a = to_decimal(self.payload.len() as u64);
            let b = to_decimal(max_payload as u64);
            return Err(
                join4(
                    "binary payload exceeds negotiated chunk limit: ",
                    a.as_str(),
                    " > ",
                    b.as_str(),
                ),
            );
        }
        let mut id = match uuid_bytes_from_id(self.id.as_str()) {
            Ok(b) => b,
            Err(e) => {
                return Err(e);
            },
        };
        let ghost raw_id = id@;
        if self.offset.is_some() && self.payload.len() > usize::MAX - 8 {
            return Err("binary payload size overflow".to_owned());
        }
        let wire_len: usize = if self.offset.is_some() {
            self.payload.len() + 8
        } else {
            self.payload.len()
        };
        let end: u8 = if self.end_of_body {
            1
        } else {
            0
        };
        let at: u8 = if self.offset.is_some() {
            2
        } else {
            0
        };
        let mut raw: Vec<u8> = vec![0x59, 0x44, 1, self.kind.byte(), 16];
        raw.append(&mut id);
        raw.push(end + at);
        proof {
            if let Some(n) = self.offset {
                be_bytes_len(n as nat, 8);
            }
        }
        push_be(&mut raw, wire_len as u64, 4);
        assert(raw@ =~= header_bytes(self@, raw_id));
        if let Some(n) = self.offset {
            push_be(&mut raw, n, 8);
        }
        let mut payload = copy_range(self.payload.as_slice(), 0, self.payload.len());
        assert(payload@ =~= self.payload@);
        raw.append(&mut payload);
        assert(raw@ =~= header_bytes(self@, raw_id) + wire_payload(self@));
        Ok(raw)
    }

    /// Reads an envelope whose payload may hold up to `max_payload` bytes.
    pub fn decode(raw: &[u8], max_payload: usize) -> (r: Result<BinaryEnvelope, String>)
        requires
            max_payload + 8 <= usize::MAX,
        ensures
            match r {
                Ok(e) => decoded(raw@, max_payload as nat) == Ok::<EnvelopeModel, Seq<char>>(e@),
                Err(m) => decoded(raw@, max_payload as nat) == Err::<EnvelopeModel, Seq<char>>(m@),
            },
    {
        if raw.len() < BINARY_HEADER_BYTES {
            return Err("binary envelope is shorter than its header".to_owned());
        }
        if raw[0] != 0x59 || raw[1] != 0x44 {
            return Err("invalid binary envelope magic".to_owned());
        }
        if raw[2] != 1 {
            let n = to_decimal(raw[2] as u64);
            return Err(join("unsupported binary envelope version: ", n.as_str()));
        }
        let kind = match BinaryKind::try_from(raw[3]) {
            Ok(k) => k,
            Err(e) => {
                return Err(e);
            },
        };
        if raw[4] != 16 {
            let n = to_decimal(raw[4] as u64);
            return Err(join("invalid binary envelope UUID length: ", n.as_str()));
        }
        let id = id_from_uuid_bytes(vstd::slice::slice_subrange(raw, 5, 21));
        let flags: u8 = raw[21];
        if flags > 3 {
            let n = string_of(hex_numeral_chars(flags as u64).as_slice());
            return Err(join("unknown binary envelope flags: 0x", n.as_str()));
        }
        let len: u64 = read_be(raw, 22, 26);
        let with_offset = flags >= 2;
        let limit: usize = if with_offset {
            max_payload + 8
        } else {
            max_payload
        };
        let body_len: usize = raw.len() - BINARY_HEADER_BYTES;
        let ghost body = raw@.skip(26);
        if len > limit as u64 {
            let a = to_decimal(len);
            let b = to_decimal(limit as u64);
            return Err(
                join4(
                    "binary payload exceeds negotiated chunk limit: ",
                    a.as_str(),
                    " > ",
                    b.as_str(),
                ),
            );
        }
        if body_len as u64 != len {
            let a = to_decimal(body_len as u64);
            let b = to_decimal(len);
            return Err(
                join4("binary payload length mismatch: ", a.as_str(), " != ", b.as_str()),
            );
        }
        if with_offset && body_len < 8 {
            return Err("offset binary envelope payload is too short".to_owned());
        }
        let offset: Option<u64> = if with_offset {
            assert(raw@.subrange(26, 34) =~= body.take(8));
            Some(read_be(raw, 26, 34))
        } else {
            None
        };
        let start: usize = if with_offset {
            34
        } else {
            26
        };
        let payload = copy_range(raw, start, raw.len());
        assert(with_offset ==> payload@ =~= body.skip(8));
        assert(!with_offset ==> payload@ =~= body);
        let envelope = BinaryEnvelope {
            id,
            kind,
            payload,
            end_of_body: flags == 1 || flags == 3,
            offset,
        };
        Ok(envelope)
    }
}

/// An envelope with a canonical identifier, written and read under the same
/// limit, comes back unchanged.
pub proof fn envelope_round_trip(e: EnvelopeModel, id: Seq<u8>, max_payload: nat)
    requires
        id.len() == 16,
        e.id == id_text(id),
        wire_payload(e).len() < 0x1_0000_0000,
        wire_payload(e).len() <= usize::MAX,
        e.payload.len() <= max_payload,
    ensures
        encoded(e, max_payload) is Ok,
        decoded(encoded(e, max_payload)->Ok_0, max_payload) == Ok::<EnvelopeModel, Seq<char>>(e),
{
    id_reads_back(id);
    capacities();
    let body = wire_payload(e);
    be_reads_back(body.len(), 4);
    if let Some(n) = e.offset {
        be_bytes_len(n as nat, 8);
        be_reads_back(n as nat, 8);
        assert(body.take(8) =~= be_bytes(n as nat, 8));
        assert(body.skip(8) =~= e.payload);
    }
    let raw = header_bytes(e, id) + body;
    assert(raw.skip(26) =~= body);
    assert(raw.subrange(5, 21) =~= id);
    assert(raw.subrange(22, 26) =~= be_bytes(body.len(), 4));
    assert(raw[21] == flag_byte(e.end_of_body, e.offset));
    let back = decoded(raw, max_payload)->Ok_0;
    assert(back =~= e);
}

/// What is read never holds more payload than the limit admits.
pub proof fn decoded_within_limit(raw: Seq<u8>, max_payload: nat)
    requires
        decoded(raw, max_payload) is Ok,
    ensures
        decoded(raw, max_payload)->Ok_0.payload.len() <= max_payload,
{
}

} // verus!
