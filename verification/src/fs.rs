//! Replies of the file operations. The operation itself happens outside; what
//! came of it is an argument.
use crate::bash::{error_reply, error_value};
use crate::bytes::{hex_digit, hex_digit_value, hex_text, lossy, lossy_string, to_hex};
use crate::codec::{
    dict, kw_bool, kw_i64, kw_str, map_value, named_bool, named_int, named_models, named_text,
    Kwargs,
};
use crate::text::{digit, join, opt_str_view, same, split, split_all, string_of, views};
use crate::value::{array_view, models, Datum, Model};
use vstd::prelude::*;
use vstd::utf8::encode_utf8;

verus! {

// ───────────────────────── arguments ─────────────────────────

/// A string argument, or nothing.
pub open spec fn text_or_empty(kw: Map<Seq<char>, Model>, key: Seq<char>) -> Seq<char> {
    match named_text(kw, key) {
        Some(s) => s,
        None => Seq::empty(),
    }
}

/// Reads a string argument.
pub fn kw_text(kw: &Kwargs, key: &str) -> (r: String)
    ensures
        r@ == text_or_empty(kw@, key@),
{
    match kw_str(kw, key) {
        Some(s) => s,
        None => String::new(),
    }
}

/// A boolean argument, or false.
pub open spec fn flag(kw: Map<Seq<char>, Model>, key: Seq<char>) -> bool {
    named_bool(kw, key) == Some(true)
}

/// Reads a boolean argument.
pub fn kw_flag(kw: &Kwargs, key: &str) -> (r: bool)
    ensures
        r == flag(kw@, key@),
{
    match kw_bool(kw, key) {
        Some(b) => b,
        None => false,
    }
}

/// An offset: never negative.
pub open spec fn offset_of(kw: Map<Seq<char>, Model>) -> u64 {
    match named_int(kw, "offset"@) {
        Some(n) => if n > 0 {
            n as u64
        } else {
            0
        },
        None => 0,
    }
}

/// Reads an offset.
pub fn kw_offset(kw: &Kwargs) -> (r: u64)
    ensures
        r == offset_of(kw@),
{
    match kw_i64(kw, "offset") {
        Some(n) => {
            if n > 0 {
                n as u64
            } else {
                0
            }
        },
        None => 0,
    }
}

/// How much a chunk may hold: 64 KiB, or as asked for, between 1 byte and
/// 4 MiB.
pub open spec fn limit_of(kw: Map<Seq<char>, Model>) -> usize {
    match named_int(kw, "limit"@) {
        Some(n) => if n < 1 {
            1
        } else if n > 4194304 {
            4194304
        } else {
            n as usize
        },
        None => 65536,
    }
}

/// Reads how much a chunk may hold.
pub fn kw_limit(kw: &Kwargs) -> (r: usize)
    ensures
        r == limit_of(kw@),
{
    match kw_i64(kw, "limit") {
        Some(n) => {
            if n < 1 {
                1
            } else if n > 4194304 {
                4194304
            } else {
                n as usize
            }
        },
        None => 65536,
    }
}

// ───────────────────────── hexadecimal data ─────────────────────────

/// The byte that two characters write in hexadecimal. A plus sign may stand
/// for the first digit.
pub open spec fn pair_value(a: u8, b: u8) -> Option<u8> {
    match (hex_digit(a as char), hex_digit(b as char)) {
        (Some(x), Some(y)) => Some((x * 16 + y) as u8),
        (None, Some(y)) => if a == 0x2b {
            Some(y as u8)
        } else {
            None
        },
        _ => None,
    }
}

/// Reads two characters as a byte in hexadecimal.
pub fn read_pair(a: u8, b: u8) -> (r: Option<u8>)
    ensures
        r == pair_value(a, b),
{
    match (hex_digit_value(a as char), hex_digit_value(b as char)) {
        (Some(x), Some(y)) => Some(x * 16 + y),
        (None, Some(y)) => {
            if a == 0x2b {
                Some(y)
            } else {
                None
            }
        },
        _ => None,
    }
}

/// The bytes of the first `n` pairs, or `None` where one of them is no pair of
/// digits.
pub open spec fn pair_bytes(s: Seq<u8>, n: nat) -> Option<Seq<u8>>
    decreases n,
{
    if n == 0 {
        Some(Seq::empty())
    } else {
        match (pair_bytes(s, (n - 1) as nat), pair_value(s[2 * n - 2], s[2 * n - 1])) {
            (Some(before), Some(b)) => Some(before.push(b)),
            _ => None,
        }
    }
}

/// The bytes of the first `n` pairs that are digits; other pairs are skipped.
pub open spec fn loose_bytes(s: Seq<u8>, n: nat) -> Seq<u8>
    decreases n,
{
    if n == 0 {
        Seq::empty()
    } else {
        let before = loose_bytes(s, (n - 1) as nat);
        match pair_value(s[2 * n - 2], s[2 * n - 1]) {
            Some(b) => before.push(b),
            None => before,
        }
    }
}

/// The bytes that a text holds in hexadecimal, or what is wrong with it.
pub open spec fn hex_data(data: Seq<char>) -> Result<Seq<u8>, Seq<char>> {
    let s = encode_utf8(data);
    if s.len() % 2 != 0 {
        Err("hex data length must be even"@)
    } else {
        match pair_bytes(s, s.len() / 2) {
            Some(b) => Ok(b),
            None => Err("invalid hex data: invalid digit found in string"@),
        }
    }
}

proof fn pair_bytes_stays_none(s: Seq<u8>, n: nat, m: nat)
    requires
        n <= m,
        pair_bytes(s, n) is None,
    ensures
        pair_bytes(s, m) is None,
    decreases m,
{
    if n < m {
        pair_bytes_stays_none(s, n, (m - 1) as nat);
    }
}

/// Reads bytes from hexadecimal.
pub fn decode_hex(data: &str) -> (r: Result<Vec<u8>, String>)
    ensures
        match r {
            Ok(b) => hex_data(data@) == Ok::<Seq<u8>, Seq<char>>(b@),
            Err(e) => hex_data(data@) == Err::<Seq<u8>, Seq<char>>(e@),
        },
{
    let s = data.as_bytes();
    if s.len() % 2 != 0 {
        return Err("hex data length must be even".to_owned());
    }
    let half: usize = s.len() / 2;
    let mut out: Vec<u8> = Vec::new();
    assert(out@ =~= Seq::empty());
    for i in 0..half
        invariant
            s@ == encode_utf8(data@),
            s.len() % 2 == 0,
            half == s.len() / 2,
            pair_bytes(s@, i as nat) == Some(out@),
    {
        match read_pair(s[2 * i], s[2 * i + 1]) {
            Some(b) => {
                out.push(b);
            },
            None => {
                proof {
                    pair_bytes_stays_none(s@, (i + 1) as nat, half as nat);
                }
                return Err("invalid hex data: invalid digit found in string".to_owned());
            },
        }
    }
    Ok(out)
}

/// Writes bytes in hexadecimal.
pub fn encode_hex(bytes: &[u8]) -> (r: String)
    ensures
        r@ == hex_text(bytes@),
{
    to_hex(bytes)
}

/// The bytes that a file is written with: the text itself, or what its pairs
/// of digits stand for.
pub open spec fn written_bytes(kw: Map<Seq<char>, Model>) -> Seq<u8> {
    let s = encode_utf8(text_or_empty(kw, "data"@));
    if flag(kw, "binary"@) {
        loose_bytes(s, s.len() / 2)
    } else {
        s
    }
}

/// Reads the bytes that a file is to be written with.
pub fn fs_write_bytes(kw: &Kwargs) -> (r: Vec<u8>)
    ensures
        r@ == written_bytes(kw@),
{
    let data = kw_text(kw, "data");
    let s = data.as_str().as_bytes();
    if !kw_flag(kw, "binary") {
        return crate::bytes::copy_all(s);
    }
    let half: usize = s.len() / 2;
    let mut out: Vec<u8> = Vec::new();
    assert(out@ =~= Seq::empty());
    for i in 0..half
        invariant
            s@ == encode_utf8(data@),
            half == s.len() / 2,
            out@ == loose_bytes(s@, i as nat),
    {
        if let Some(b) = read_pair(s[2 * i], s[2 * i + 1]) {
            out.push(b);
        }
    }
    out
}

/// Data written in hexadecimal reads back.
pub proof fn hex_data_reads_back(b: Seq<u8>)
    ensures
        hex_data(hex_text(b)) == Ok::<Seq<u8>, Seq<char>>(b),
{
    let t = hex_text(b);
    assert forall|i: int| 0 <= i < t.len() implies 0 <= #[trigger] t[i] as nat <= 127 by {
        assert(0 <= i / 2 < b.len());
    }
    assert(vstd::utf8::is_ascii_chars(t));
    vstd::utf8::is_ascii_chars_encode_utf8(t);
    let s = encode_utf8(t);
    assert(s.len() == 2 * b.len());
    hex_pairs(b, s, b.len());
    assert(b.take(b.len() as int) =~= b);
}

proof fn hex_pairs(b: Seq<u8>, s: Seq<u8>, n: nat)
    requires
        n <= b.len(),
        s.len() == 2 * b.len(),
        forall|i: int| 0 <= i < s.len() ==> #[trigger] s[i] == hex_text(b)[i] as u8,
    ensures
        pair_bytes(s, n) == Some(b.take(n as int)),
    decreases n,
{
    if n > 0 {
        hex_pairs(b, s, (n - 1) as nat);
        let i = n - 1;
        assert((2 * i) % 2 == 0 && (2 * i) / 2 == i);
        assert((2 * i + 1) % 2 == 1 && (2 * i + 1) / 2 == i);
        assert(s[2 * i] == hex_text(b)[2 * i] as u8);
        assert(s[2 * i + 1] == hex_text(b)[2 * i + 1] as u8);
        let h = b[i] / 16;
        let l = b[i] % 16;
        nibble(h);
        nibble(l);
        assert(pair_value(s[2 * i], s[2 * i + 1]) == Some(b[i]));
        assert(b.take(n as int) =~= b.take(n - 1).push(b[i]));
    } else {
        assert(b.take(0) =~= Seq::empty());
    }
}

proof fn nibble(d: u8)
    requires
        d < 16,
    ensures
        hex_digit((crate::bytes::hex_char(d as nat) as u8) as char) == Some(d as nat),
{
}

// ───────────────────────── entries ─────────────────────────

/// What an entry of a directory is.
#[derive(Debug, Clone, Copy, PartialEq, Eq, Structural)]
pub enum EntryKind {
    Dir,
    Symlink,
    File,
}

/// What the file system knows of an entry. The time of its last change is in
/// seconds since 1970, as the bit pattern of a floating-point number.
#[derive(Debug, Clone, Copy, PartialEq, Eq)]
pub struct EntryFacts {
    pub kind: EntryKind,
    pub size: u64,
    pub mode: u32,
    pub modified: u64,
}

/// The shortest octal numeral of `n`.
pub open spec fn octal(n: nat) -> Seq<char>
    decreases n,
{
    if n < 8 {
        seq![digit(n)]
    } else {
        octal(n / 8).push(digit(n % 8))
    }
}

fn octal_chars(n: u32) -> (r: Vec<char>)
    ensures
        r@ == octal(n as nat),
    decreases n,
{
    if n < 8 {
        let mut out: Vec<char> = Vec::new();
        out.push((48 + n) as u8 as char);
        assert(out@ =~= octal(n as nat));
        out
    } else {
        let mut out = octal_chars(n / 8);
        out.push((48 + n % 8) as u8 as char);
        out
    }
}

/// The last part of the first `n` parts that is neither empty nor a dot, unless
/// it is two dots.
pub open spec fn last_name(parts: Seq<Seq<char>>, n: nat) -> Seq<char>
    decreases n,
{
    if n == 0 {
        Seq::empty()
    } else {
        let part = parts[n - 1];
        if part.len() == 0 || part == "."@ {
            last_name(parts, (n - 1) as nat)
        } else if part == ".."@ {
            Seq::empty()
        } else {
            part
        }
    }
}

/// The name that a path ends in, or nothing.
pub open spec fn name_of(path: Seq<char>) -> Seq<char> {
    let parts = split_all(path, '/');
    last_name(parts, parts.len())
}

/// The name that a path ends in.
pub fn file_name(path: &str) -> (r: String)
    ensures
        r@ == name_of(path@),
{
    let parts = split(path, '/');
    let ghost all = split_all(path@, '/');
    let mut n: usize = parts.len();
    assert(views(parts@).len() == parts@.len());
    while n > 0
        invariant
            n <= parts@.len(),
            views(parts@) == all,
            all == split_all(path@, '/'),
            last_name(all, all.len()) == last_name(all, n as nat),
        decreases n,
    {
        assert(views(parts@)[n - 1] == parts@[n - 1]@);
        let part = parts[n - 1].as_str();
        if part.is_empty() || same(part, ".") {
            n = n - 1;
        } else if same(part, "..") {
            return String::new();
        } else {
            return parts[n - 1].clone();
        }
    }
    String::new()
}

/// The fields of an entry. One that the file system knows nothing of counts as
/// an empty file.
pub open spec fn entry_model(path: Seq<char>, facts: Option<EntryFacts>) -> Seq<
    (Seq<char>, Model),
> {
    let kind = match facts {
        Some(f) => match f.kind {
            EntryKind::Dir => "dir"@,
            EntryKind::Symlink => "symlink"@,
            EntryKind::File => "file"@,
        },
        None => "file"@,
    };
    let size = match facts {
        Some(f) => f.size as i64 as int,
        None => 0,
    };
    let permissions = match facts {
        Some(f) => octal((f.mode % 512) as nat),
        None => "0"@,
    };
    let modified = match facts {
        Some(f) => f.modified,
        None => 0,
    };
    seq![
        ("name"@, Model::Text(name_of(path))),
        ("path"@, Model::Text(path)),
        ("type"@, Model::Text(kind)),
        ("size"@, Model::Integer(size)),
        ("permissions"@, Model::Text(permissions)),
        ("modified_time"@, Model::Float64(modified)),
    ]
}

/// Makes the fields of an entry.
fn entry_fields(path: &str, facts: Option<EntryFacts>) -> (r: Vec<(&'static str, Datum)>)
    ensures
        named_models(r@) == entry_model(path@, facts),
{
    let (kind, size, permissions, modified) = match facts {
        Some(f) => {
            let kind = match f.kind {
                EntryKind::Dir => "dir",
                EntryKind::Symlink => "symlink",
                EntryKind::File => "file",
            };
            let text = string_of(octal_chars(f.mode % 512).as_slice());
            (kind, f.size as i64, text, f.modified)
        },
        None => ("file", 0i64, "0".to_owned(), 0u64),
    };
    let name = file_name(path);
    let mut out: Vec<(&'static str, Datum)> = Vec::new();
    out.push(("name", Datum::Text(name)));
    out.push(("path", Datum::text(path)));
    out.push(("type", Datum::text(kind)));
    out.push(("size", Datum::integer(size)));
    out.push(("permissions", Datum::Text(permissions)));
    out.push(("modified_time", Datum::Float64(modified)));
    assert(named_models(out@) =~= entry_model(path@, facts));
    out
}

/// The model of an optional error.
pub open spec fn error_model(error: Option<Seq<char>>) -> Model {
    match error {
        Some(e) => Model::Text(e),
        None => Model::Nil,
    }
}

/// Makes a field for an error.
pub fn error_datum(error: Option<&str>) -> (r: Datum)
    ensures
        r@ == error_model(opt_str_view(error)),
{
    match error {
        Some(e) => Datum::text(e),
        None => Datum::Nil,
    }
}

/// An entry with a field for an error, which is none.
pub open spec fn entry_reply(path: Seq<char>, facts: Option<EntryFacts>) -> Model {
    dict(entry_model(path, facts).push(("error"@, Model::Nil)))
}

fn entry_value(path: &str, facts: Option<EntryFacts>) -> (r: Datum)
    ensures
        r@ == entry_reply(path@, facts),
{
    let mut fields = entry_fields(path, facts);
    let ghost before = named_models(fields@);
    fields.push(("error", Datum::Nil));
    assert(named_models(fields@) =~= before.push(("error"@, Model::Nil)));
    map_value(fields)
}

// ───────────────────────── replies ─────────────────────────

/// The view of what came of an operation on bytes.
pub open spec fn bytes_outcome(r: Result<Vec<u8>, String>) -> Result<Seq<u8>, Seq<char>> {
    match r {
        Ok(b) => Ok(b@),
        Err(e) => Err(e@),
    }
}

/// The content of a file as text: in hexadecimal, or as far as it is UTF-8.
pub open spec fn content_text(bytes: Seq<u8>, binary: bool) -> Seq<char> {
    if binary {
        hex_text(bytes)
    } else {
        lossy(bytes)
    }
}

/// The reply to a read.
pub open spec fn read_reply(kw: Map<Seq<char>, Model>, outcome: Result<Seq<u8>, Seq<char>>) -> Model {
    match outcome {
        Ok(bytes) => dict(
            seq![
                ("data"@, Model::Text(content_text(bytes, flag(kw, "binary"@)))),
                ("error"@, Model::Nil),
            ],
        ),
        Err(e) => dict(seq![("data"@, Model::Nil), ("error"@, Model::Text(e))]),
    }
}

/// Replies to a read.
pub fn fs_read(kw: &Kwargs, outcome: Result<Vec<u8>, String>) -> (r: Datum)
    ensures
        r@ == read_reply(kw@, bytes_outcome(outcome)),
{
    let (data, error) = match outcome {
        Ok(bytes) => {
            let text = if kw_flag(kw, "binary") {
                to_hex(bytes.as_slice())
            } else {
                lossy_string(bytes.as_slice())
            };
            (Datum::Text(text), Datum::Nil)
        },
        Err(e) => (Datum::Nil, Datum::Text(e)),
    };
    let mut pairs: Vec<(&str, Datum)> = Vec::new();
    pairs.push(("data", data));
    pairs.push(("error", error));
    assert(named_models(pairs@) =~= seq![("data"@, data@), ("error"@, error@)]);
    map_value(pairs)
}

/// The reply to a write: what the file is now, or what went wrong.
pub open spec fn write_reply(
    kw: Map<Seq<char>, Model>,
    facts: Option<EntryFacts>,
    error: Option<Seq<char>>,
) -> Model {
    let path = text_or_empty(kw, "path"@);
    match error {
        None => dict(entry_model(path, facts).take(4).push(("error"@, Model::Nil))),
        Some(e) => dict(
            seq![
                ("path"@, Model::Text(path)),
                ("name"@, Model::Text(""@)),
                ("type"@, Model::Text(""@)),
                ("size"@, Model::Integer(0)),
                ("error"@, Model::Text(e)),
            ],
        ),
    }
}

/// Replies to a write.
pub fn fs_write(kw: &Kwargs, facts: Option<EntryFacts>, error: Option<&str>) -> (r: Datum)
    ensures
        r@ == write_reply(kw@, facts, opt_str_view(error)),
{
    let path = kw_text(kw, "path");
    match error {
        None => {
            let mut fields = entry_fields(path.as_str(), facts);
            let ghost all = named_models(fields@);
            fields.truncate(4);
            assert(named_models(fields@) =~= all.take(4));
            let ghost kept = fields@;
            fields.push(("error", Datum::Nil));
            assert(fields@ == kept.push(("error", Datum::Nil)));
            assert(named_models(fields@) =~= named_models(kept).push(("error"@, Model::Nil)));
            map_value(fields)
        },
        Some(e) => {
            let mut pairs: Vec<(&str, Datum)> = Vec::new();
            pairs.push(("path", Datum::Text(path)));
            pairs.push(("name", Datum::text("")));
            pairs.push(("type", Datum::text("")));
            pairs.push(("size", Datum::integer(0)));
            pairs.push(("error", Datum::text(e)));
            assert(named_models(pairs@) =~= seq![
                ("path"@, Model::Text(path@)),
                ("name"@, Model::Text(""@)),
                ("type"@, Model::Text(""@)),
                ("size"@, Model::Integer(0)),
                ("error"@, Model::Text(e@)),
            ]);
            map_value(pairs)
        },
    }
}

/// The reply to the write of a chunk.
pub open spec fn chunk_written(
    kw: Map<Seq<char>, Model>,
    written: nat,
    error: Option<Seq<char>>,
) -> Model {
    dict(
        seq![
            ("path"@, Model::Text(text_or_empty(kw, "path"@))),
            ("offset"@, Model::Integer(offset_of(kw) as int)),
            ("bytes_written"@, Model::Integer(written as int)),
            ("error"@, error_model(error)),
        ],
    )
}

fn chunk_written_value(kw: &Kwargs, written: u64, error: Option<&str>) -> (r: Datum)
    requires
        written <= i64::MAX,
    ensures
        r@ == chunk_written(kw@, written as nat, opt_str_view(error)),
{
    let path = kw_text(kw, "path");
    let offset: u64 = kw_offset(kw);
    let e = error_datum(error);
    let mut pairs: Vec<(&str, Datum)> = Vec::new();
    pairs.push(("path", Datum::Text(path)));
    pairs.push(("offset", Datum::integer(offset as i64)));
    pairs.push(("bytes_written", Datum::integer(written as i64)));
    pairs.push(("error", e));
    assert(named_models(pairs@) =~= seq![
        ("path"@, Model::Text(path@)),
        ("offset"@, Model::Integer(offset as int)),
        ("bytes_written"@, Model::Integer(written as int)),
        ("error"@, e@),
    ]);
    map_value(pairs)
}

/// A chunk to be written.
#[derive(Debug, PartialEq, Eq)]
pub struct ChunkWrite {
    pub path: String,
    pub offset: u64,
    pub bytes: Vec<u8>,
    /// The first chunk starts the file anew.
    pub truncate: bool,
}

/// Plans the write of a chunk, or replies where its data is not hexadecimal.
pub fn plan_write_chunk(kw: &Kwargs) -> (r: Result<ChunkWrite, Datum>)
    ensures
        match hex_data(text_or_empty(kw@, "data"@)) {
            Ok(bytes) => r matches Ok(w) && w.path@ == text_or_empty(kw@, "path"@) && w.offset
                == offset_of(kw@) && w.bytes@ == bytes && w.truncate == (w.offset == 0),
            Err(e) => r matches Err(reply) && reply@ == chunk_written(kw@, 0, Some(e)),
        },
{
    let data = kw_text(kw, "data");
    let offset: u64 = kw_offset(kw);
    match decode_hex(data.as_str()) {
        Ok(bytes) => Ok(
            ChunkWrite { path: kw_text(kw, "path"), offset, bytes, truncate: offset == 0 },
        ),
        Err(e) => Err(chunk_written_value(kw, 0, Some(e.as_str()))),
    }
}

/// Replies to the write of a chunk.
pub fn fs_write_chunk(kw: &Kwargs, written: &ChunkWrite, error: Option<&str>) -> (r: Datum)
    requires
        written.bytes@.len() <= i64::MAX,
    ensures
        r@ == (match opt_str_view(error) {
            None => chunk_written(kw@, written.bytes@.len(), None),
            Some(e) => chunk_written(kw@, 0, Some(e)),
        }),
{
    match error {
        None => chunk_written_value(kw, written.bytes.len() as u64, None),
        Some(e) => chunk_written_value(kw, 0, Some(e)),
    }
}

/// Whether a chunk reaches the end of its file.
pub open spec fn reaches_end(offset: u64, read: nat, size: u64) -> bool {
    offset + read >= size
}

/// The reply to the read of a chunk: its bytes in hexadecimal, and whether it
/// reaches the end.
pub open spec fn chunk_read(
    kw: Map<Seq<char>, Model>,
    bytes: Seq<u8>,
    eof: bool,
    error: Option<Seq<char>>,
) -> Model {
    dict(
        seq![
            ("path"@, Model::Text(text_or_empty(kw, "path"@))),
            ("offset"@, Model::Integer(offset_of(kw) as int)),
            ("data"@, Model::Text(hex_text(bytes))),
            ("bytes_read"@, Model::Integer(bytes.len() as int)),
            ("eof"@, Model::Boolean(eof)),
            ("error"@, error_model(error)),
        ],
    )
}

/// Replies to the read of a chunk from a file of `size` bytes.
pub fn fs_read_chunk(kw: &Kwargs, outcome: Result<Vec<u8>, String>, size: u64) -> (r: Datum)
    requires
        outcome matches Ok(bytes) ==> bytes@.len() <= limit_of(kw@),
    ensures
        r@ == (match bytes_outcome(outcome) {
            Ok(bytes) => chunk_read(
                kw@,
                bytes,
                reaches_end(offset_of(kw@), bytes.len(), size),
                None,
            ),
            Err(e) => chunk_read(kw@, Seq::empty(), true, Some(e)),
        }),
{
    let path = kw_text(kw, "path");
    let offset: u64 = kw_offset(kw);
    let (bytes, eof, error) = match outcome {
        Ok(bytes) => {
            let n: u64 = bytes.len() as u64;
            let eof = n > u64::MAX - offset || offset + n >= size;
            (bytes, eof, Datum::Nil)
        },
        Err(e) => {
            let none: Vec<u8> = Vec::new();
            assert(none@ =~= Seq::empty());
            (none, true, Datum::Text(e))
        },
    };
    let data = to_hex(bytes.as_slice());
    let mut pairs: Vec<(&str, Datum)> = Vec::new();
    pairs.push(("path", Datum::Text(path)));
    pairs.push(("offset", Datum::integer(offset as i64)));
    pairs.push(("data", Datum::Text(data)));
    pairs.push(("bytes_read", Datum::integer(bytes.len() as i64)));
    pairs.push(("eof", Datum::Boolean(eof)));
    pairs.push(("error", error));
    assert(named_models(pairs@) =~= seq![
        ("path"@, Model::Text(path@)),
        ("offset"@, Model::Integer(offset as int)),
        ("data"@, Model::Text(data@)),
        ("bytes_read"@, Model::Integer(bytes@.len() as int)),
        ("eof"@, Model::Boolean(eof)),
        ("error"@, error@),
    ]);
    map_value(pairs)
}

/// The reply to a listing.
pub open spec fn list_reply(
    entries: Seq<(Seq<char>, Option<EntryFacts>)>,
    error: Option<Seq<char>>,
) -> Model {
    dict(
        seq![
            (
                "entries"@,
                Model::Array(
                    Seq::new(
                        entries.len(),
                        |i: int| dict(entry_model(entries[i].0, entries[i].1)),
                    ),
                ),
            ),
            ("error"@, error_model(error)),
        ],
    )
}

/// The model of the entries of a directory.
pub open spec fn listed(entries: Seq<(String, Option<EntryFacts>)>) -> Seq<
    (Seq<char>, Option<EntryFacts>),
> {
    Seq::new(entries.len(), |i: int| (entries[i].0@, entries[i].1))
}

/// Replies to a listing. A listing that failed has no entries.
pub fn fs_list(entries: &Vec<(String, Option<EntryFacts>)>, error: Option<&str>) -> (r: Datum)
    ensures
        r@ == list_reply(listed(entries@), opt_str_view(error)),
{
    let ghost all = Seq::new(
        entries@.len(),
        |i: int| dict(entry_model(entries@[i].0@, entries@[i].1)),
    );
    let mut items: Vec<Datum> = Vec::new();
    assert(models(items@) =~= all.take(0));
    for i in 0..entries.len()
        invariant
            all == Seq::new(
                entries@.len(),
                |i: int| dict(entry_model(entries@[i].0@, entries@[i].1)),
            ),
            models(items@) == all.take(i as int),
    {
        let ghost before = items@;
        let item = map_value(entry_fields(entries[i].0.as_str(), entries[i].1));
        items.push(item);
        assert(models(items@) =~= models(before).push(item@));
        assert(models(items@) =~= all.take(i as int + 1));
    }
    assert(all.take(all.len() as int) =~= all);
    let list = Datum::Array(items);
    proof {
        array_view(list);
    }
    let e = error_datum(error);
    let mut pairs: Vec<(&str, Datum)> = Vec::new();
    pairs.push(("entries", list));
    pairs.push(("error", e));
    proof {
        assert(named_models(pairs@) =~= seq![("entries"@, list@), ("error"@, e@)]);
        assert(all =~= Seq::new(
            listed(entries@).len(),
            |i: int| dict(entry_model(listed(entries@)[i].0, listed(entries@)[i].1)),
        ));
    }
    map_value(pairs)
}

/// Replies whether a path exists.
pub fn fs_exists(exists: bool) -> (r: Datum)
    ensures
        r@ == dict(seq![("exists"@, Model::Boolean(exists))]),
{
    let mut pairs: Vec<(&str, Datum)> = Vec::new();
    pairs.push(("exists", Datum::Boolean(exists)));
    assert(named_models(pairs@) =~= seq![("exists"@, Model::Boolean(exists))]);
    map_value(pairs)
}

/// Replies to a removal.
pub fn fs_remove(error: Option<&str>) -> (r: Datum)
    ensures
        r@ == error_reply(opt_str_view(error)),
{
    error_value(error)
}

/// Replies to a renaming.
pub fn fs_rename(kw: &Kwargs, facts: Option<EntryFacts>, error: Option<&str>) -> (r: Datum)
    ensures
        r@ == (match opt_str_view(error) {
            None => entry_reply(text_or_empty(kw@, "new_path"@), facts),
            Some(e) => error_reply(Some(e)),
        }),
{
    match error {
        None => {
            let path = kw_text(kw, "new_path");
            entry_value(path.as_str(), facts)
        },
        Some(e) => error_value(Some(e)),
    }
}

/// Replies to the making of a directory, which may have existed before.
pub fn fs_make_dir(existed: bool, error: Option<&str>) -> (r: Datum)
    ensures
        r@ == dict(
            seq![
                ("created"@, Model::Boolean(error is None && !existed)),
                ("error"@, error_model(opt_str_view(error))),
            ],
        ),
{
    let e = error_datum(error);
    let created = error.is_none() && !existed;
    let mut pairs: Vec<(&str, Datum)> = Vec::new();
    pairs.push(("created", Datum::Boolean(created)));
    pairs.push(("error", e));
    assert(named_models(pairs@) =~= seq![
        ("created"@, Model::Boolean(created)),
        ("error"@, e@),
    ]);
    map_value(pairs)
}

/// Replies what an entry is, where it exists.
pub fn fs_get_info(kw: &Kwargs, exists: bool, facts: Option<EntryFacts>) -> (r: Datum)
    ensures
        r@ == (if exists {
            entry_reply(text_or_empty(kw@, "path"@), facts)
        } else {
            error_reply(Some("path not found: "@ + text_or_empty(kw@, "path"@)))
        }),
{
    let path = kw_text(kw, "path");
    if !exists {
        let message = join("path not found: ", path.as_str());
        return error_value(Some(message.as_str()));
    }
    entry_value(path.as_str(), facts)
}

} // verus!
