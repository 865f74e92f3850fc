//! Reading the body of an HTTP request: of an announced length, or in chunks.
use crate::bytes::{
    copy_range, find_subslice, hex_digit, hex_digit_value, hex_numeral, lossy, lossy_string,
    occurs,
};
use crate::text::{chars_of, split_once, split_pair, trim, trim_end, trim_start, trimmed};
use vstd::prelude::*;
use vstd::utf8::{
    encode_utf8, encode_utf8_decode_utf8, encode_utf8_valid_utf8, is_ascii_chars,
    is_ascii_chars_encode_utf8,
};

verus! {

/// How the body of a request is delimited.
#[derive(Debug, Clone, Copy, PartialEq, Eq, Structural)]
pub enum RequestBody {
    ContentLength(usize),
    Chunked,
}

impl RequestBody {
    /// The text for the log.
    pub fn label(self) -> (r: &'static str)
        ensures
            r@ == (match self {
                RequestBody::ContentLength(_) => "content-length"@,
                RequestBody::Chunked => "chunked"@,
            }),
    {
        match self {
            RequestBody::ContentLength(_) => "content-length",
            RequestBody::Chunked => "chunked",
        }
    }

    /// The length, where it is announced.
    pub fn expected_len(self) -> (r: Option<usize>)
        ensures
            r == (match self {
                RequestBody::ContentLength(n) => Some(n),
                RequestBody::Chunked => None,
            }),
    {
        match self {
            RequestBody::ContentLength(n) => Some(n),
            RequestBody::Chunked => None,
        }
    }
}

// ───────────────────────── announced length ─────────────────────────

/// A body of an announced length: what is still to come.
#[derive(Debug)]
pub struct ContentCopy {
    pub remaining: usize,
}

impl ContentCopy {
    /// How many of the next `available` bytes belong to the body.
    pub fn take(&mut self, available: usize) -> (r: usize)
        ensures
            r == (if available <= old(self).remaining {
                available
            } else {
                old(self).remaining
            }),
            final(self).remaining == old(self).remaining - r,
    {
        let n: usize = if available <= self.remaining {
            available
        } else {
            self.remaining
        };
        self.remaining = self.remaining - n;
        n
    }

    /// Whether the body has ended, or ends too soon where nothing more comes.
    pub fn finish(&self) -> (r: Result<(), String>)
        ensures
            match r {
                Ok(()) => self.remaining == 0,
                Err(e) => self.remaining != 0 && e@ == "short body"@,
            },
    {
        if self.remaining != 0 {
            Err("short body".to_owned())
        } else {
            Ok(())
        }
    }
}

// ───────────────────────── chunks ─────────────────────────

/// Whether a text has hexadecimal digits only.
pub open spec fn all_hex_digits(s: Seq<char>) -> bool {
    forall|i: int| 0 <= i < s.len() ==> hex_digit(#[trigger] s[i]) is Some
}

/// The number that a row of hexadecimal digits writes.
pub open spec fn hex_value(s: Seq<char>) -> nat
    decreases s.len(),
{
    if s.len() == 0 {
        0
    } else {
        hex_value(s.drop_last()) * 16 + hex_digit(s.last())->0
    }
}

/// A hexadecimal numeral that fits a `usize`, after a plus sign at most.
pub open spec fn hex_size(s: Seq<char>) -> Option<nat> {
    let body = if s.len() > 0 && s[0] == '+' {
        s.drop_first()
    } else {
        s
    };
    if body.len() > 0 && all_hex_digits(body) && hex_value(body) <= usize::MAX {
        Some(hex_value(body))
    } else {
        None
    }
}

/// What a line announces as the size, before any extension.
pub open spec fn size_token(line: Seq<char>) -> Seq<char> {
    let t = trimmed(line);
    match split_pair(t, ';') {
        Some((size, _)) => size,
        None => t,
    }
}

/// The size that a line announces.
pub open spec fn chunk_size(line: Seq<char>) -> Option<nat> {
    hex_size(size_token(line))
}

proof fn hex_value_grows(s: Seq<char>, i: int)
    requires
        0 <= i <= s.len(),
    ensures
        hex_value(s.take(i)) <= hex_value(s),
    decreases s.len(),
{
    if i == s.len() {
        assert(s.take(i) =~= s);
    } else {
        hex_value_grows(s.drop_last(), i);
        assert(s.drop_last().take(i) =~= s.take(i));
    }
}

/// Reads a hexadecimal numeral.
pub fn parse_hex_size(token: &str) -> (r: Option<usize>)
    ensures
        match r {
            Some(n) => hex_size(token@) == Some(n as nat),
            None => hex_size(token@) is None,
        },
{
    let chars = chars_of(token);
    let from: usize = if chars.len() > 0 && chars[0] == '+' {
        1
    } else {
        0
    };
    let ghost body = if token@.len() > 0 && token@[0] == '+' {
        token@.drop_first()
    } else {
        token@
    };
    assert(body =~= chars@.skip(from as int));
    if from == chars.len() {
        return None;
    }
    let mut n: usize = 0;
    let mut i: usize = from;
    assert(hex_value(body.take(0)) == 0);
    while i < chars.len()
        invariant
            from <= i <= chars@.len(),
            from < chars@.len(),
            body == chars@.skip(from as int),
            hex_size(token@) == (if body.len() > 0 && all_hex_digits(body) && hex_value(body)
                <= usize::MAX {
                Some(hex_value(body))
            } else {
                None
            }),
            forall|j: int| 0 <= j < i - from ==> hex_digit(#[trigger] body[j]) is Some,
            n == hex_value(body.take(i - from)),
        decreases chars@.len() - i,
    {
        assert(body[i - from] == chars@[i as int]);
        let ghost longer = body.take(i - from + 1);
        proof {
            assert(longer.drop_last() =~= body.take(i - from));
            assert(longer.last() == chars@[i as int]);
            hex_value_grows(body, i - from + 1);
        }
        match hex_digit_value(chars[i]) {
            None => {
                return None;
            },
            Some(d) => {
                if n > usize::MAX / 16 || n * 16 > usize::MAX - d as usize {
                    return None;
                }
                n = n * 16 + d as usize;
            },
        }
        i = i + 1;
    }
    assert(body.take(i - from) =~= body);
    Some(n)
}

/// Where a body in chunks has been read up to.
#[derive(Debug, Clone, Copy, PartialEq, Eq, Structural)]
pub enum Stage {
    /// Before the size of a chunk.
    Size,
    /// Before the bytes of a chunk.
    Data(usize),
    /// Before the line end after a chunk.
    Terminator,
    /// Before a trailer.
    Trailer,
    Done,
}

/// What one step of reading gives.
#[derive(Debug, PartialEq, Eq)]
pub enum ChunkStep {
    /// More bytes are needed.
    More,
    /// Something was read that is not part of the body.
    Advanced,
    /// Bytes of the body.
    Data(Vec<u8>),
    /// The body has ended.
    Done,
}

/// Why a body in chunks cannot be read.
#[derive(Debug, PartialEq, Eq)]
pub enum ChunkError {
    /// What is announced as the size of a chunk is no number.
    Size(String),
    /// A chunk is not followed by a line end.
    Terminator,
}

/// The model of a [`ChunkError`].
pub enum ChunkErrorModel {
    Size(Seq<char>),
    Terminator,
}

impl View for ChunkError {
    type V = ChunkErrorModel;

    open spec fn view(&self) -> ChunkErrorModel {
        match self {
            ChunkError::Size(token) => ChunkErrorModel::Size(token@),
            ChunkError::Terminator => ChunkErrorModel::Terminator,
        }
    }
}

/// The model of a [`ChunkStep`].
pub enum ChunkStepModel {
    More,
    Advanced,
    Data(Seq<u8>),
    Done,
}

impl View for ChunkStep {
    type V = ChunkStepModel;

    open spec fn view(&self) -> ChunkStepModel {
        match self {
            ChunkStep::More => ChunkStepModel::More,
            ChunkStep::Advanced => ChunkStepModel::Advanced,
            ChunkStep::Data(b) => ChunkStepModel::Data(b@),
            ChunkStep::Done => ChunkStepModel::Done,
        }
    }
}

/// The end of a line.
pub open spec fn crlf() -> Seq<u8> {
    seq![0x0du8, 0x0au8]
}

/// Where the first line end at `from` or later stands.
pub open spec fn line_end(b: Seq<u8>, from: int) -> Option<int>
    decreases b.len() - from,
{
    if from < 0 || from + 2 > b.len() {
        None
    } else if b[from] == 0x0d && b[from + 1] == 0x0a {
        Some(from)
    } else {
        line_end(b, from + 1)
    }
}

proof fn line_end_is(b: Seq<u8>, from: int, at: int)
    requires
        0 <= from <= at,
        at + 2 <= b.len(),
        b[at] == 0x0d && b[at + 1] == 0x0a,
        forall|j: int| from <= j < at ==> !(#[trigger] b[j] == 0x0d && b[j + 1] == 0x0a),
    ensures
        line_end(b, from) == Some(at),
    decreases at - from,
{
    if from < at {
        assert(!(b[from] == 0x0d && b[from + 1] == 0x0a));
        line_end_is(b, from + 1, at);
    }
}

proof fn no_line_end(b: Seq<u8>, from: int)
    requires
        0 <= from,
        forall|j: int| from <= j < b.len() - 1 ==> !(#[trigger] b[j] == 0x0d && b[j + 1] == 0x0a),
    ensures
        line_end(b, from) is None,
    decreases b.len() - from,
{
    if from + 2 <= b.len() {
        assert(!(b[from] == 0x0d && b[from + 1] == 0x0a));
        no_line_end(b, from + 1);
    }
}

proof fn crlf_occurs(b: Seq<u8>, j: int)
    requires
        0 <= j,
        j + 2 <= b.len(),
    ensures
        occurs(b, crlf(), j) <==> b[j] == 0x0d && b[j + 1] == 0x0a,
{
    let t = b.subrange(j, j + 2);
    assert(t[0] == b[j] && t[1] == b[j + 1]);
    if b[j] == 0x0d && b[j + 1] == 0x0a {
        assert(t =~= crlf());
    }
}

/// Bytes not read yet, and where reading stands.
pub struct ReaderModel {
    pub pending: Seq<u8>,
    pub stage: Stage,
}

/// One step of reading: what it leaves, and what it gives.
pub open spec fn read_step(m: ReaderModel) -> (ReaderModel, Result<ChunkStepModel, ChunkErrorModel>) {
    match m.stage {
        Stage::Size => match line_end(m.pending, 0) {
            None => (m, Ok(ChunkStepModel::More)),
            Some(at) => {
                let rest = m.pending.skip(at + 2);
                let line = lossy(m.pending.take(at));
                match chunk_size(line) {
                    None => (
                        ReaderModel { pending: rest, stage: Stage::Size },
                        Err(ChunkErrorModel::Size(size_token(line))),
                    ),
                    Some(n) => (
                        ReaderModel {
                            pending: rest,
                            stage: if n == 0 {
                                Stage::Trailer
                            } else {
                                Stage::Data(n as usize)
                            },
                        },
                        Ok(ChunkStepModel::Advanced),
                    ),
                }
            },
        },
        Stage::Data(n) => if m.pending.len() < n {
            (m, Ok(ChunkStepModel::More))
        } else {
            (
                ReaderModel { pending: m.pending.skip(n as int), stage: Stage::Terminator },
                Ok(ChunkStepModel::Data(m.pending.take(n as int))),
            )
        },
        Stage::Terminator => if m.pending.len() < 2 {
            (m, Ok(ChunkStepModel::More))
        } else if m.pending[0] == 0x0d && m.pending[1] == 0x0a {
            (
                ReaderModel { pending: m.pending.skip(2), stage: Stage::Size },
                Ok(ChunkStepModel::Advanced),
            )
        } else {
            (m, Err(ChunkErrorModel::Terminator))
        },
        Stage::Trailer => match line_end(m.pending, 0) {
            None => (m, Ok(ChunkStepModel::More)),
            Some(at) => (
                ReaderModel {
                    pending: m.pending.skip(at + 2),
                    stage: if trimmed(lossy(m.pending.take(at))).len() == 0 {
                        Stage::Done
                    } else {
                        Stage::Trailer
                    },
                },
                Ok(ChunkStepModel::Advanced),
            ),
        },
        Stage::Done => (m, Ok(ChunkStepModel::Done)),
    }
}

/// Reads a body in chunks as its bytes come in.
#[derive(Debug)]
pub struct ChunkedReader {
    pub pending: Vec<u8>,
    pub stage: Stage,
}

impl View for ChunkedReader {
    type V = ReaderModel;

    open spec fn view(&self) -> ReaderModel {
        ReaderModel { pending: self.pending@, stage: self.stage }
    }
}

impl ChunkedReader {
    /// A reader that has the first bytes already.
    pub fn new(initial: Vec<u8>) -> (r: ChunkedReader)
        ensures
            r@ == (ReaderModel { pending: initial@, stage: Stage::Size }),
    {
        ChunkedReader { pending: initial, stage: Stage::Size }
    }

    /// Takes more bytes.
    pub fn read_more(&mut self, more: &[u8])
        ensures
            final(self)@ == (ReaderModel {
                pending: old(self)@.pending + more@,
                ..old(self)@
            }),
    {
        let mut added = crate::bytes::copy_all(more);
        self.pending.append(&mut added);
    }

    fn take_line(&mut self) -> (r: Option<String>)
        ensures
            final(self).stage == old(self).stage,
            match r {
                None => final(self).pending@ == old(self).pending@ && line_end(
                    old(self).pending@,
                    0,
                ) is None,
                Some(s) => line_end(old(self).pending@, 0) matches Some(at) && s@ == lossy(
                    old(self).pending@.take(at),
                ) && final(self).pending@ == old(self).pending@.skip(at + 2),
            },
    {
        let end: Vec<u8> = vec![0x0d, 0x0a];
        assert(end@ =~= crlf());
        let ghost b = self.pending@;
        match find_subslice(self.pending.as_slice(), end.as_slice()) {
            None => {
                proof {
                    assert forall|j: int| 0 <= j < b.len() - 1 implies !(#[trigger] b[j] == 0x0d && b[j
                        + 1] == 0x0a) by {
                        crlf_occurs(b, j);
                    }
                    no_line_end(b, 0);
                }
                None
            },
            Some(at) => {
                proof {
                    crlf_occurs(b, at as int);
                    assert forall|j: int| 0 <= j < at implies !(#[trigger] b[j] == 0x0d && b[j + 1]
                        == 0x0a) by {
                        crlf_occurs(b, j);
                        assert(!occurs(b, crlf(), j));
                    }
                    line_end_is(b, 0, at as int);
                }
                let total: usize = self.pending.len();
                assert(at + 2 <= total);
                let line = copy_range(self.pending.as_slice(), 0, at);
                assert(line@ =~= self.pending@.take(at as int));
                let rest = copy_range(self.pending.as_slice(), at + 2, total);
                assert(rest@ =~= self.pending@.skip(at + 2));
                self.pending = rest;
                Some(lossy_string(line.as_slice()))
            },
        }
    }

    /// Reads one step further.
    pub fn step(&mut self) -> (r: Result<ChunkStep, ChunkError>)
        ensures
            (final(self)@, step_view(r)) == read_step(old(self)@),
    {
        match self.stage {
            Stage::Size => match self.take_line() {
                None => Ok(ChunkStep::More),
                Some(line) => {
                    let t = trim(line.as_str());
                    let token = match split_once(t.as_str(), ';') {
                        Some((s, _)) => s,
                        None => t,
                    };
                    match parse_hex_size(token.as_str()) {
                        None => Err(ChunkError::Size(token)),
                        Some(n) => {
                            self.stage = if n == 0 {
                                Stage::Trailer
                            } else {
                                Stage::Data(n)
                            };
                            Ok(ChunkStep::Advanced)
                        },
                    }
                },
            },
            Stage::Data(n) => {
                if self.pending.len() < n {
                    return Ok(ChunkStep::More);
                }
                let data = copy_range(self.pending.as_slice(), 0, n);
                assert(data@ =~= self.pending@.take(n as int));
                let rest = copy_range(self.pending.as_slice(), n, self.pending.len());
                assert(rest@ =~= self.pending@.skip(n as int));
                self.pending = rest;
                self.stage = Stage::Terminator;
                Ok(ChunkStep::Data(data))
            },
            Stage::Terminator => {
                if self.pending.len() < 2 {
                    return Ok(ChunkStep::More);
                }
                if self.pending[0] == 0x0d && self.pending[1] == 0x0a {
                    let rest = copy_range(self.pending.as_slice(), 2, self.pending.len());
                    assert(rest@ =~= self.pending@.skip(2));
                    self.pending = rest;
                    self.stage = Stage::Size;
                    Ok(ChunkStep::Advanced)
                } else {
                    Err(ChunkError::Terminator)
                }
            },
            Stage::Trailer => match self.take_line() {
                None => Ok(ChunkStep::More),
                Some(line) => {
                    let t = trim(line.as_str());
                    self.stage = if t.as_str().is_empty() {
                        Stage::Done
                    } else {
                        Stage::Trailer
                    };
                    Ok(ChunkStep::Advanced)
                },
            },
            Stage::Done => Ok(ChunkStep::Done),
        }
    }

    /// What is said where the bytes end before the body does.
    pub fn eof_error(&self) -> (r: String)
        ensures
            r@ == (if self.stage is Data || self.stage is Terminator {
                "unexpected EOF while reading chunk body"@
            } else {
                "unexpected EOF while reading chunk line"@
            }),
    {
        match self.stage {
            Stage::Data(_) => "unexpected EOF while reading chunk body".to_owned(),
            Stage::Terminator => "unexpected EOF while reading chunk body".to_owned(),
            _ => "unexpected EOF while reading chunk line".to_owned(),
        }
    }
}

// ───────────────────────── laws ─────────────────────────

/// The view of what a step gives.
pub open spec fn step_view(r: Result<ChunkStep, ChunkError>) -> Result<ChunkStepModel, ChunkErrorModel> {
    match r {
        Ok(s) => Ok(s@),
        Err(e) => Err(e@),
    }
}

/// The bytes of a chunk: its size in hexadecimal, a line end, its data, and a
/// line end.
pub open spec fn chunk_bytes(data: Seq<u8>) -> Seq<u8> {
    encode_utf8(hex_numeral(data.len())) + crlf() + data + crlf()
}

proof fn numeral_facts(n: nat)
    ensures
        hex_numeral(n).len() > 0,
        all_hex_digits(hex_numeral(n)),
        hex_value(hex_numeral(n)) == n,
        forall|i: int|
            0 <= i < hex_numeral(n).len() ==> {
                let c = #[trigger] hex_numeral(n)[i];
                48 <= c as u32 <= 57 || 97 <= c as u32 <= 102
            },
    decreases n,
{
    let s = hex_numeral(n);
    if n < 16 {
        assert(s.drop_last() =~= Seq::empty());
        assert(hex_value(s.drop_last()) == 0);
    } else {
        numeral_facts(n / 16);
        assert(s.drop_last() =~= hex_numeral(n / 16));
        assert forall|i: int| 0 <= i < s.len() implies {
            let c = #[trigger] s[i];
            48 <= c as u32 <= 57 || 97 <= c as u32 <= 102
        } by {
            if i < s.len() - 1 {
                assert(s[i] == hex_numeral(n / 16)[i]);
            }
        }
        assert forall|i: int| 0 <= i < s.len() implies hex_digit(#[trigger] s[i]) is Some by {}
    }
}

proof fn no_semicolon(s: Seq<char>)
    requires
        forall|i: int| 0 <= i < s.len() ==> s[i] != ';',
    ensures
        split_pair(s, ';') is None,
{
    crate::text::lemma_first_index(s, ';', s.len() as int);
}

/// The line that announces a chunk reads back as the chunk's size.
proof fn size_line_reads_back(n: nat)
    requires
        n <= usize::MAX,
    ensures
        lossy(encode_utf8(hex_numeral(n))) == hex_numeral(n),
        chunk_size(hex_numeral(n)) == Some(n),
        forall|i: int|
            0 <= i < encode_utf8(hex_numeral(n)).len() ==> #[trigger] encode_utf8(
                hex_numeral(n),
            )[i] != 0x0d,
        encode_utf8(hex_numeral(n)).len() > 0,
{
    let s = hex_numeral(n);
    numeral_facts(n);
    encode_utf8_valid_utf8(s);
    encode_utf8_decode_utf8(s);
    assert forall|i: int| 0 <= i < s.len() implies 0 <= #[trigger] s[i] as nat <= 127 by {}
    assert(is_ascii_chars(s));
    is_ascii_chars_encode_utf8(s);
    assert(trim_start(s) == s);
    assert(trim_end(s) == s);
    assert forall|i: int| 0 <= i < s.len() implies s[i] != ';' by {
        let c = s[i];
    }
    no_semicolon(s);
    assert(s[0] != '+');
}

/// Reading the bytes of a chunk gives its data, and leaves what follows.
pub proof fn chunks_read_back(data: Seq<u8>, rest: Seq<u8>)
    requires
        0 < data.len() <= usize::MAX,
    ensures
        ({
            let a = read_step(
                ReaderModel { pending: chunk_bytes(data) + rest, stage: Stage::Size },
            );
            let b = read_step(a.0);
            let c = read_step(b.0);
            &&& a.1 == Ok::<ChunkStepModel, ChunkErrorModel>(ChunkStepModel::Advanced)
            &&& b.1 == Ok::<ChunkStepModel, ChunkErrorModel>(ChunkStepModel::Data(data))
            &&& c.1 == Ok::<ChunkStepModel, ChunkErrorModel>(ChunkStepModel::Advanced)
            &&& c.0 == (ReaderModel { pending: rest, stage: Stage::Size })
        }),
{
    let h = encode_utf8(hex_numeral(data.len()));
    size_line_reads_back(data.len());
    let p = chunk_bytes(data) + rest;
    let at = h.len() as int;
    assert(p[at] == 0x0d && p[at + 1] == 0x0a);
    assert forall|j: int| 0 <= j < at implies !(#[trigger] p[j] == 0x0d && p[j + 1] == 0x0a) by {
        assert(p[j] == h[j]);
    }
    line_end_is(p, 0, at);
    assert(p.take(at) =~= h);
    let after = data + crlf() + rest;
    assert(p.skip(at + 2) =~= after);
    assert(after.take(data.len() as int) =~= data);
    let last = crlf() + rest;
    assert(after.skip(data.len() as int) =~= last);
    assert(last[0] == 0x0d && last[1] == 0x0a);
    assert(last.skip(2) =~= rest);
}

// ───────────────────────── statistics ─────────────────────────

/// What was copied, in how many steps, and how long they took, in
/// milliseconds.
#[derive(Debug, Clone, Copy, PartialEq, Eq)]
pub struct CopyStats {
    pub bytes: usize,
    pub reads: usize,
    pub writes: usize,
    pub read_ms: u64,
    pub write_ms: u64,
    pub first_byte_ms: Option<u64>,
}

impl Default for CopyStats {
    fn default() -> (r: CopyStats)
        ensures
            r == (CopyStats {
                bytes: 0,
                reads: 0,
                writes: 0,
                read_ms: 0,
                write_ms: 0,
                first_byte_ms: None,
            }),
    {
        CopyStats {
            bytes: 0,
            reads: 0,
            writes: 0,
            read_ms: 0,
            write_ms: 0,
            first_byte_ms: None,
        }
    }
}

impl CopyStats {
    /// There is room for one more step of so many bytes and milliseconds.
    pub open spec fn has_room(self, bytes: usize, ms: u64) -> bool {
        &&& self.bytes + bytes <= usize::MAX
        &&& self.reads < usize::MAX
        &&& self.writes < usize::MAX
        &&& self.read_ms + ms <= u64::MAX
        &&& self.write_ms + ms <= u64::MAX
    }

    /// Counts bytes that came with the head of the request.
    pub fn record_initial_write(&mut self, bytes: usize, write_ms: u64)
        requires
            old(self).has_room(bytes, write_ms),
        ensures
            *final(self) == (if bytes == 0 {
                *old(self)
            } else {
                CopyStats {
                    bytes: (old(self).bytes + bytes) as usize,
                    writes: (old(self).writes + 1) as usize,
                    write_ms: (old(self).write_ms + write_ms) as u64,
                    first_byte_ms: if old(self).first_byte_ms is Some {
                        old(self).first_byte_ms
                    } else {
                        Some(0)
                    },
                    ..*old(self)
                }
            }),
    {
        if bytes == 0 {
            return;
        }
        self.bytes = self.bytes + bytes;
        self.writes = self.writes + 1;
        self.write_ms = self.write_ms + write_ms;
        if self.first_byte_ms.is_none() {
            self.first_byte_ms = Some(0);
        }
    }

    /// Counts a read.
    pub fn record_read(&mut self, bytes: usize, read_ms: u64, elapsed_ms: u64)
        requires
            old(self).has_room(bytes, read_ms),
        ensures
            *final(self) == (if bytes == 0 {
                *old(self)
            } else {
                CopyStats {
                    reads: (old(self).reads + 1) as usize,
                    read_ms: (old(self).read_ms + read_ms) as u64,
                    first_byte_ms: if old(self).first_byte_ms is Some {
                        old(self).first_byte_ms
                    } else {
                        Some(elapsed_ms)
                    },
                    ..*old(self)
                }
            }),
    {
        if bytes == 0 {
            return;
        }
        self.reads = self.reads + 1;
        self.read_ms = self.read_ms + read_ms;
        if self.first_byte_ms.is_none() {
            self.first_byte_ms = Some(elapsed_ms);
        }
    }

    /// Counts a write.
    pub fn record_write(&mut self, bytes: usize, write_ms: u64)
        requires
            old(self).has_room(bytes, write_ms),
        ensures
            *final(self) == (if bytes == 0 {
                *old(self)
            } else {
                CopyStats {
                    bytes: (old(self).bytes + bytes) as usize,
                    writes: (old(self).writes + 1) as usize,
                    write_ms: (old(self).write_ms + write_ms) as u64,
                    ..*old(self)
                }
            }),
    {
        if bytes == 0 {
            return;
        }
        self.bytes = self.bytes + bytes;
        self.writes = self.writes + 1;
        self.write_ms = self.write_ms + write_ms;
    }
}

} // verus!
