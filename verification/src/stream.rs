//! Streams of files and of directories, which travel as tar archives.

use crate::codec::{dict, kw_str, map_value, named, named_models, named_text, Kwargs};
use crate::fs::{error_datum, error_model, kw_limit, kw_text, limit_of, text_or_empty};
use crate::text::{decimal, join, opt_str_view, same, to_decimal};
use crate::tunnel::registry::{entry, with, without, Registry, Slot, SlotModel};
use crate::value::{Datum, Model};
use vstd::prelude::*;
use vstd::utf8::encode_utf8;

verus! {

/// What a stream carries, and in which direction.
#[derive(Debug, Clone, Copy, PartialEq, Eq, Structural)]
pub enum StreamKind {
    FileRead,
    FileWrite,
    TarRead,
    TarWrite,
}

impl StreamKind {
    /// Whether a stream is written to.
    pub open spec fn writes(self) -> bool {
        self == StreamKind::FileWrite || self == StreamKind::TarWrite
    }

    /// Whether a stream takes data.
    pub fn is_writable(self) -> (r: bool)
        ensures
            r == self.writes(),
    {
        match self {
            StreamKind::FileWrite => true,
            StreamKind::TarWrite => true,
            _ => false,
        }
    }
}

/// An open stream.
pub struct StreamEntry {
    pub kind: StreamKind,
    pub path: String,
    /// Bytes written so far.
    pub offset: u64,
}

/// The model of a [`StreamEntry`].
pub struct StreamModel {
    pub kind: StreamKind,
    pub path: Seq<char>,
    pub offset: u64,
}

impl View for StreamEntry {
    type V = StreamModel;

    open spec fn view(&self) -> StreamModel {
        StreamModel { kind: self.kind, path: self.path@, offset: self.offset }
    }
}

/// The open streams, and the number of the next one.
pub struct Streams {
    pub table: Registry<StreamEntry>,
    pub next: u64,
}

/// The model of [`Streams`].
pub struct StreamsModel {
    pub table: Seq<SlotModel<StreamModel>>,
    pub next: u64,
}

impl View for Streams {
    type V = StreamsModel;

    open spec fn view(&self) -> StreamsModel {
        StreamsModel { table: self.table@, next: self.next }
    }
}

// ───────────────────────── opening ─────────────────────────

/// A stream to be opened.
#[derive(Debug, PartialEq, Eq)]
pub struct OpenSpec {
    pub kind: StreamKind,
    pub stream_type: String,
    pub mode: String,
    pub path: String,
}

/// What a call asks to open: a type, a mode, and a path.
pub struct OpenModel {
    pub stream_type: Seq<char>,
    pub mode: Seq<char>,
    pub path: Seq<char>,
}

/// A text, or another in its place.
pub open spec fn text_or(s: Option<Seq<char>>, default: Seq<char>) -> Seq<char> {
    match s {
        Some(t) => t,
        None => default,
    }
}

/// What a call asks to open: a file, to be read, where it does not say.
pub open spec fn asked(kw: Map<Seq<char>, Model>) -> OpenModel {
    OpenModel {
        stream_type: text_or(named_text(kw, "type"@), "file"@),
        mode: text_or(named_text(kw, "mode"@), "read"@),
        path: text_or_empty(kw, "path"@),
    }
}

/// Whether a mode reads.
pub open spec fn reads(mode: Seq<char>) -> bool {
    mode == "read"@ || mode == "download"@
}

/// Whether a mode writes.
pub open spec fn writes(mode: Seq<char>) -> bool {
    mode == "write"@ || mode == "upload"@
}

/// The kind of stream that is asked for, or why there is none.
pub open spec fn kind_of(a: OpenModel) -> Result<StreamKind, Seq<char>> {
    if a.path.len() == 0 {
        Err("path is required"@)
    } else if !reads(a.mode) && !writes(a.mode) {
        Err("mode must be read or write"@)
    } else if a.stream_type == "file"@ {
        Ok(
            if reads(a.mode) {
                StreamKind::FileRead
            } else {
                StreamKind::FileWrite
            },
        )
    } else if a.stream_type == "tar"@ {
        Ok(
            if reads(a.mode) {
                StreamKind::TarRead
            } else {
                StreamKind::TarWrite
            },
        )
    } else {
        Err("type must be file or tar"@)
    }
}

/// The reply to an opening.
pub open spec fn open_reply(id: Seq<char>, a: OpenModel, error: Option<Seq<char>>) -> Model {
    dict(
        seq![
            ("stream_id"@, Model::Text(id)),
            ("type"@, Model::Text(a.stream_type)),
            ("mode"@, Model::Text(a.mode)),
            ("path"@, Model::Text(a.path)),
            ("error"@, error_model(error)),
        ],
    )
}

fn open_value(id: &str, stream_type: &str, mode: &str, path: &str, error: Option<&str>) -> (r: Datum)
    ensures
        r@ == open_reply(
            id@,
            OpenModel { stream_type: stream_type@, mode: mode@, path: path@ },
            opt_str_view(error),
        ),
{
    let mut out: Vec<(&str, Datum)> = Vec::new();
    out.push(("stream_id", Datum::text(id)));
    out.push(("type", Datum::text(stream_type)));
    out.push(("mode", Datum::text(mode)));
    out.push(("path", Datum::text(path)));
    out.push(("error", error_datum(error)));
    assert(named_models(out@) =~= seq![
        ("stream_id"@, Model::Text(id@)),
        ("type"@, Model::Text(stream_type@)),
        ("mode"@, Model::Text(mode@)),
        ("path"@, Model::Text(path@)),
        ("error"@, error_model(opt_str_view(error))),
    ]);
    map_value(out)
}

/// Plans the opening of a stream, or replies why there is none.
pub fn plan_open(kw: &Kwargs) -> (r: Result<OpenSpec, Datum>)
    ensures
        match kind_of(asked(kw@)) {
            Ok(kind) => r matches Ok(spec) && spec.kind == kind && asked(kw@) == (OpenModel {
                stream_type: spec.stream_type@,
                mode: spec.mode@,
                path: spec.path@,
            }),
            Err(e) => r matches Err(reply) && reply@ == open_reply(
                Seq::empty(),
                asked(kw@),
                Some(e),
            ),
        },
{
    let stream_type = match kw_str(kw, "type") {
        Some(s) => s,
        None => "file".to_owned(),
    };
    let mode = match kw_str(kw, "mode") {
        Some(s) => s,
        None => "read".to_owned(),
    };
    let path = kw_text(kw, "path");
    let none = String::new();
    assert(none@ =~= Seq::empty());
    if path.as_str().is_empty() {
        return Err(
            open_value(
                none.as_str(),
                stream_type.as_str(),
                mode.as_str(),
                path.as_str(),
                Some("path is required"),
            ),
        );
    }
    let is_read = same(mode.as_str(), "read") || same(mode.as_str(), "download");
    let is_write = same(mode.as_str(), "write") || same(mode.as_str(), "upload");
    if !is_read && !is_write {
        return Err(
            open_value(
                none.as_str(),
                stream_type.as_str(),
                mode.as_str(),
                path.as_str(),
                Some("mode must be read or write"),
            ),
        );
    }
    let kind = if same(stream_type.as_str(), "file") {
        if is_read {
            StreamKind::FileRead
        } else {
            StreamKind::FileWrite
        }
    } else if same(stream_type.as_str(), "tar") {
        if is_read {
            StreamKind::TarRead
        } else {
            StreamKind::TarWrite
        }
    } else {
        return Err(
            open_value(
                none.as_str(),
                stream_type.as_str(),
                mode.as_str(),
                path.as_str(),
                Some("type must be file or tar"),
            ),
        );
    };
    Ok(OpenSpec { kind, stream_type, mode, path })
}

/// The name of the `n`-th stream.
pub open spec fn stream_name(n: u64) -> Seq<char> {
    "rrt-stream-"@ + decimal(n as nat)
}

impl StreamsModel {
    /// After a stream was opened.
    pub open spec fn opened(self, kind: StreamKind, path: Seq<char>) -> StreamsModel {
        StreamsModel {
            table: with(
                self.table,
                SlotModel {
                    id: stream_name(self.next),
                    generation: None,
                    session: None,
                    data: StreamModel { kind, path, offset: 0 },
                },
            ),
            next: if self.next < u64::MAX {
                (self.next + 1) as u64
            } else {
                0
            },
        }
    }

    /// After so many bytes were written to a stream.
    pub open spec fn written(self, id: Seq<char>, count: u64) -> StreamsModel {
        match entry(self.table, id) {
            None => self,
            Some(slot) => StreamsModel {
                table: self.table.update(
                    crate::tunnel::registry::place(self.table, id) as int,
                    SlotModel {
                        data: StreamModel {
                            offset: advanced(slot.data.offset, count),
                            ..slot.data
                        },
                        ..slot
                    },
                ),
                ..self
            },
        }
    }
}

/// An offset after `count` more bytes, modulo 2^64.
pub open spec fn advanced(offset: u64, count: u64) -> u64 {
    if offset + count <= u64::MAX {
        (offset + count) as u64
    } else {
        (offset + count - 0x1_0000_0000_0000_0000) as u64
    }
}

fn advance(offset: u64, count: u64) -> (r: u64)
    ensures
        r == advanced(offset, count),
{
    if count <= u64::MAX - offset {
        offset + count
    } else {
        count - (u64::MAX - offset) - 1
    }
}

// ───────────────────────── sending ─────────────────────────

/// The bytes that a name stands for: binary data, or a string.
pub open spec fn named_bytes(kw: Map<Seq<char>, Model>, key: Seq<char>) -> Option<Seq<u8>> {
    match named(kw, key) {
        Some(Model::Binary(b)) => Some(b),
        Some(Model::Text(s)) => Some(encode_utf8(s)),
        _ => None,
    }
}

fn kw_bytes(kw: &Kwargs, key: &str) -> (r: Option<Vec<u8>>)
    ensures
        match r {
            Some(b) => named_bytes(kw@, key@) == Some(b@),
            None => named_bytes(kw@, key@) is None,
        },
{
    match kw.get(key) {
        Some(Datum::Binary(b)) => Some(crate::bytes::copy_all(b.as_slice())),
        Some(Datum::Text(s)) => Some(crate::bytes::copy_all(s.as_str().as_bytes())),
        _ => None,
    }
}

/// The reply to a send.
pub open spec fn send_reply(
    id: Seq<char>,
    written: int,
    offset: u64,
    error: Option<Seq<char>>,
) -> Model {
    dict(
        seq![
            ("stream_id"@, Model::Text(id)),
            ("bytes_written"@, Model::Integer(written)),
            ("offset"@, Model::Integer(offset as i64 as int)),
            ("error"@, error_model(error)),
        ],
    )
}

fn send_value(id: &str, written: i64, offset: u64, error: Option<&str>) -> (r: Datum)
    ensures
        r@ == send_reply(id@, written as int, offset, opt_str_view(error)),
{
    let mut out: Vec<(&str, Datum)> = Vec::new();
    out.push(("stream_id", Datum::text(id)));
    out.push(("bytes_written", Datum::integer(written)));
    out.push(("offset", Datum::integer(offset as i64)));
    out.push(("error", error_datum(error)));
    assert(named_models(out@) =~= seq![
        ("stream_id"@, Model::Text(id@)),
        ("bytes_written"@, Model::Integer(written as int)),
        ("offset"@, Model::Integer(offset as i64 as int)),
        ("error"@, error_model(opt_str_view(error))),
    ]);
    map_value(out)
}

/// Why data cannot be sent on a stream, if it cannot.
pub open spec fn send_error(s: StreamsModel, kw: Map<Seq<char>, Model>) -> Option<Seq<char>> {
    if named_bytes(kw, "data"@) is None {
        Some("data is required"@)
    } else {
        match entry(s.table, text_or_empty(kw, "stream_id"@)) {
            None => Some("unknown stream_id"@),
            Some(slot) => if slot.data.kind.writes() {
                None
            } else {
                Some("stream is not writable"@)
            },
        }
    }
}

/// The reply to a receive.
pub open spec fn recv_reply(
    id: Seq<char>,
    data: Seq<u8>,
    eof: bool,
    error: Option<Seq<char>>,
) -> Model {
    dict(
        seq![
            ("stream_id"@, Model::Text(id)),
            ("data"@, Model::Binary(data)),
            ("bytes_read"@, Model::Integer(data.len() as int)),
            ("eof"@, Model::Boolean(eof)),
            ("error"@, error_model(error)),
        ],
    )
}

fn recv_value(id: &str, data: Vec<u8>, eof: bool, error: Option<&str>) -> (r: Datum)
    requires
        data@.len() <= i64::MAX,
    ensures
        r@ == recv_reply(id@, data@, eof, opt_str_view(error)),
{
    let n: i64 = data.len() as i64;
    let mut out: Vec<(&str, Datum)> = Vec::new();
    out.push(("stream_id", Datum::text(id)));
    out.push(("data", Datum::Binary(data)));
    out.push(("bytes_read", Datum::integer(n)));
    out.push(("eof", Datum::Boolean(eof)));
    out.push(("error", error_datum(error)));
    assert(named_models(out@) =~= seq![
        ("stream_id"@, Model::Text(id@)),
        ("data"@, Model::Binary(data@)),
        ("bytes_read"@, Model::Integer(n as int)),
        ("eof"@, Model::Boolean(eof)),
        ("error"@, error_model(opt_str_view(error))),
    ]);
    map_value(out)
}

/// Why nothing can be received on a stream, if nothing can.
pub open spec fn recv_error(s: StreamsModel, id: Seq<char>) -> Option<Seq<char>> {
    match entry(s.table, id) {
        None => Some("unknown stream_id"@),
        Some(slot) => if slot.data.kind.writes() {
            Some("stream is not readable"@)
        } else {
            None
        },
    }
}

/// The reply to a close.
pub open spec fn close_reply(id: Seq<char>, path: Seq<char>, error: Option<Seq<char>>) -> Model {
    dict(
        seq![
            ("stream_id"@, Model::Text(id)),
            ("path"@, Model::Text(path)),
            ("error"@, error_model(error)),
        ],
    )
}

/// The reply to the close of a stream that is not open.
pub open spec fn not_open_reply(id: Seq<char>) -> Model {
    dict(
        seq![
            ("stream_id"@, Model::Text(id)),
            ("error"@, Model::Text("unknown stream_id"@)),
        ],
    )
}

impl Streams {
    /// No streams.
    pub fn new() -> (r: Streams)
        ensures
            r@ == (StreamsModel { table: Seq::empty(), next: 1 }),
    {
        Streams { table: Registry::new(), next: 1 }
    }

    /// Follows the opening of a stream, or its failure.
    pub fn sandbox_stream_open(&mut self, spec: &OpenSpec, failure: Option<&str>) -> (r: Datum)
        ensures
            ({
                let a = OpenModel {
                    stream_type: spec.stream_type@,
                    mode: spec.mode@,
                    path: spec.path@,
                };
                match opt_str_view(failure) {
                    Some(e) => r@ == open_reply(Seq::empty(), a, Some(e)) && final(self)@ == old(
                        self)@,
                    None => r@ == open_reply(stream_name(old(self)@.next), a, None)
                        && final(self)@ == old(self)@.opened(spec.kind, spec.path@),
                }
            }),
    {
        match failure {
            Some(e) => {
                let none = String::new();
                assert(none@ =~= Seq::empty());
                open_value(
                    none.as_str(),
                    spec.stream_type.as_str(),
                    spec.mode.as_str(),
                    spec.path.as_str(),
                    Some(e),
                )
            },
            None => {
                let n = to_decimal(self.next);
                let id = join("rrt-stream-", n.as_str());
                self.next = if self.next < u64::MAX {
                    self.next + 1
                } else {
                    0
                };
                self.table.insert(
                    Slot {
                        id: id.clone(),
                        generation: None,
                        session: None,
                        data: StreamEntry { kind: spec.kind, path: spec.path.clone(), offset: 0 },
                    },
                );
                open_value(
                    id.as_str(),
                    spec.stream_type.as_str(),
                    spec.mode.as_str(),
                    spec.path.as_str(),
                    None,
                )
            },
        }
    }

    /// Plans a send: the stream, and the bytes to write; or replies why there
    /// is none.
    pub fn plan_send(&self, kw: &Kwargs) -> (r: Result<(String, Vec<u8>), Datum>)
        ensures
            ({
                let id = text_or_empty(kw@, "stream_id"@);
                match send_error(self@, kw@) {
                    Some(e) => r matches Err(reply) && reply@ == send_reply(id, 0, 0, Some(e)),
                    None => r matches Ok((sid, data)) && sid@ == id && named_bytes(
                        kw@,
                        "data"@,
                    ) == Some(data@),
                }
            }),
    {
        let id = kw_text(kw, "stream_id");
        let data = match kw_bytes(kw, "data") {
            Some(b) => b,
            None => {
                return Err(send_value(id.as_str(), 0, 0, Some("data is required")));
            },
        };
        match self.table.get(id.as_str()) {
            None => Err(send_value(id.as_str(), 0, 0, Some("unknown stream_id"))),
            Some(slot) => {
                if slot.data.kind.is_writable() {
                    Ok((id, data))
                } else {
                    Err(send_value(id.as_str(), 0, 0, Some("stream is not writable")))
                }
            },
        }
    }

    /// Follows a write of `count` bytes to a stream, or its failure.
    pub fn sandbox_stream_send(&mut self, id: &str, count: usize, failure: Option<&str>) -> (r:
        Datum)
        requires
            entry(old(self)@.table, id@) is Some,
            count <= i64::MAX,
        ensures
            ({
                let offset = entry(old(self)@.table, id@)->0.data.offset;
                match opt_str_view(failure) {
                    Some(e) => r@ == send_reply(id@, 0, offset, Some(e)) && final(self)@ == old(
                        self)@,
                    None => r@ == send_reply(
                        id@,
                        count as int,
                        advanced(offset, count as u64),
                        None,
                    ) && final(self)@ == old(self)@.written(id@, count as u64),
                }
            }),
    {
        match self.table.position(id) {
            None => send_value(id, 0, 0, failure),
            Some(i) => {
                let offset: u64 = self.table.slots[i].data.offset;
                match failure {
                    Some(e) => send_value(id, 0, offset, Some(e)),
                    None => {
                        let ghost before = self.table@;
                        let next: u64 = advance(offset, count as u64);
                        self.table.slots[i].data.offset = next;
                        assert(self.table@ =~= before.update(
                            i as int,
                            SlotModel {
                                data: StreamModel { offset: next, ..before[i as int].data },
                                ..before[i as int]
                            },
                        ));
                        send_value(id, count as i64, next, None)
                    },
                }
            },
        }
    }

    /// Plans a receive: the stream, and how much to read; or replies why there
    /// is none.
    pub fn plan_recv(&self, kw: &Kwargs) -> (r: Result<(String, usize), Datum>)
        ensures
            ({
                let id = text_or_empty(kw@, "stream_id"@);
                match recv_error(self@, id) {
                    Some(e) => r matches Err(reply) && reply@ == recv_reply(
                        id,
                        Seq::empty(),
                        true,
                        Some(e),
                    ),
                    None => r matches Ok((sid, limit)) && sid@ == id && limit == limit_of(kw@),
                }
            }),
    {
        let id = kw_text(kw, "stream_id");
        let none: Vec<u8> = Vec::new();
        assert(none@ =~= Seq::empty());
        match self.table.get(id.as_str()) {
            None => Err(recv_value(id.as_str(), none, true, Some("unknown stream_id"))),
            Some(slot) => {
                if slot.data.kind.is_writable() {
                    Err(recv_value(id.as_str(), none, true, Some("stream is not readable")))
                } else {
                    Ok((id, kw_limit(kw)))
                }
            },
        }
    }

    /// Closes a stream. Says what it was, or replies that it is not open.
    pub fn plan_close(&mut self, kw: &Kwargs) -> (r: Result<(String, StreamEntry), Datum>)
        ensures
            ({
                let id = text_or_empty(kw@, "stream_id"@);
                &&& final(self)@ == (StreamsModel {
                    table: without(old(self)@.table, id),
                    ..old(self)@
                })
                &&& match entry(old(self)@.table, id) {
                    Some(slot) => r matches Ok((sid, e)) && sid@ == id && e@ == slot.data,
                    None => r matches Err(reply) && reply@ == not_open_reply(id),
                }
            }),
    {
        let id = kw_text(kw, "stream_id");
        match self.table.remove(id.as_str()) {
            Some(slot) => Ok((id, slot.data)),
            None => {
                let mut out: Vec<(&str, Datum)> = Vec::new();
                out.push(("stream_id", Datum::text(id.as_str())));
                out.push(("error", Datum::text("unknown stream_id")));
                assert(named_models(out@) =~= seq![
                    ("stream_id"@, Model::Text(id@)),
                    ("error"@, Model::Text("unknown stream_id"@)),
                ]);
                Err(map_value(out))
            },
        }
    }
}

/// Replies to a receive: nothing more is the end.
pub fn sandbox_stream_recv(id: &str, outcome: Result<Vec<u8>, String>) -> (r: Datum)
    requires
        outcome matches Ok(data) ==> data@.len() <= i64::MAX,
    ensures
        r@ == (match outcome {
            Ok(data) => recv_reply(id@, data@, data@.len() == 0, None),
            Err(e) => recv_reply(id@, Seq::empty(), true, Some(e@)),
        }),
{
    match outcome {
        Ok(data) => {
            let eof = data.len() == 0;
            recv_value(id, data, eof, None)
        },
        Err(e) => {
            let none: Vec<u8> = Vec::new();
            assert(none@ =~= Seq::empty());
            recv_value(id, none, true, Some(e.as_str()))
        },
    }
}

/// How the archiver behind a stream ended.
#[derive(Debug, PartialEq, Eq)]
pub enum TarEnd {
    Success,
    /// It failed; the text says how it ended.
    Failed(String),
    /// Its end could not be found out.
    Unknown(String),
}

/// What is wrong with a stream that was closed, if anything is: only unpacking
/// is checked.
pub open spec fn close_error(kind: StreamKind, end: TarEnd) -> Option<Seq<char>> {
    if kind != StreamKind::TarWrite {
        None
    } else {
        match end {
            TarEnd::Success => None,
            TarEnd::Failed(s) => Some("tar extract failed: "@ + s@),
            TarEnd::Unknown(e) => Some(e@),
        }
    }
}

/// Replies to a close.
pub fn sandbox_stream_close(id: &str, entry: &StreamEntry, end: &TarEnd) -> (r: Datum)
    ensures
        r@ == close_reply(id@, entry.path@, close_error(entry.kind, *end)),
{
    let error: Option<String> = if entry.kind != StreamKind::TarWrite {
        None
    } else {
        match end {
            TarEnd::Success => None,
            TarEnd::Failed(s) => Some(join("tar extract failed: ", s.as_str())),
            TarEnd::Unknown(e) => Some(e.clone()),
        }
    };
    let e = match &error {
        Some(s) => error_datum(Some(s.as_str())),
        None => error_datum(None),
    };
    let mut out: Vec<(&str, Datum)> = Vec::new();
    out.push(("stream_id", Datum::text(id)));
    out.push(("path", Datum::text(entry.path.as_str())));
    out.push(("error", e));
    assert(named_models(out@) =~= seq![
        ("stream_id"@, Model::Text(id@)),
        ("path"@, Model::Text(entry.path@)),
        ("error"@, error_model(close_error(entry.kind, *end))),
    ]);
    map_value(out)
}

/// A stream that was opened takes part in sends and receives until it is
/// closed, and in neither afterwards.
pub proof fn streams_live_until_closed(s: StreamsModel, kind: StreamKind, path: Seq<char>)
    ensures
        ({
            let id = stream_name(s.next);
            let open = s.opened(kind, path);
            let closed = StreamsModel { table: without(open.table, id), ..open };
            &&& recv_error(open, id) is None <==> !kind.writes()
            &&& entry(open.table, id) is Some
            &&& recv_error(closed, id) == Some("unknown stream_id"@)
        }),
{
    let id = stream_name(s.next);
    let open = s.opened(kind, path);
    crate::tunnel::registry::with_has(
        s.table,
        SlotModel {
            id,
            generation: None,
            session: None,
            data: StreamModel { kind, path, offset: 0 },
        },
    );
    crate::tunnel::registry::without_lacks(open.table, id);
}

/// No two streams have the same name.
pub proof fn stream_names_differ(a: u64, b: u64)
    requires
        stream_name(a) == stream_name(b),
    ensures
        a == b,
{
    let prefix = "rrt-stream-"@;
    assert(stream_name(a).skip(prefix.len() as int) =~= decimal(a as nat));
    assert(stream_name(b).skip(prefix.len() as int) =~= decimal(b as nat));
    crate::text::decimal_reads_back(a as nat);
    crate::text::decimal_reads_back(b as nat);
}

} // verus!
