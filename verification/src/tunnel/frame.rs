//! Control frames, header lists, and the limits that two sides agree on.
use crate::text::{opt_copy, opt_view};
use vstd::prelude::*;
use vstd::utf8::encode_utf8;

verus! {

/// The most bytes of headers.
pub const MAX_HTTP_HEADER_BYTES: usize = 65536;

/// The most headers.
pub const MAX_HTTP_HEADERS: usize = 200;

/// Header names and values, in order.
pub type HeaderList = Vec<(String, String)>;

/// The model of a header list.
pub type Pairs = Seq<(Seq<char>, Seq<char>)>;

/// The views of a list of string pairs.
pub open spec fn pairs(items: Seq<(String, String)>) -> Pairs {
    Seq::new(items.len(), |i: int| (items[i].0@, items[i].1@))
}

/// A copy of a list of string pairs.
pub fn copy_pairs(items: &Vec<(String, String)>) -> (r: Vec<(String, String)>)
    ensures
        pairs(r@) == pairs(items@),
{
    let mut out: Vec<(String, String)> = Vec::new();
    for i in 0..items.len()
        invariant
            pairs(out@) == pairs(items@).take(i as int),
    {
        let ghost before = out@;
        out.push((items[i].0.clone(), items[i].1.clone()));
        assert(pairs(out@) =~= pairs(before).push((items@[i as int].0@, items@[i as int].1@)));
        assert(pairs(out@) =~= pairs(items@).take(i as int + 1));
    }
    assert(pairs(items@).take(items@.len() as int) =~= pairs(items@));
    out
}

/// The bytes that the first `n` pairs hold in all.
pub open spec fn pair_bytes(items: Pairs, n: nat) -> nat
    decreases n,
{
    if n == 0 {
        0
    } else {
        pair_bytes(items, (n - 1) as nat) + encode_utf8(items[n - 1].0).len() + encode_utf8(
            items[n - 1].1,
        ).len()
    }
}

proof fn pair_bytes_grows(items: Pairs, a: nat, b: nat)
    requires
        a <= b,
    ensures
        pair_bytes(items, a) <= pair_bytes(items, b),
    decreases b,
{
    if a < b {
        pair_bytes_grows(items, a, (b - 1) as nat);
    }
}

/// At most 200 headers, which hold at most 64 KiB in all.
pub open spec fn header_limits(items: Pairs) -> bool {
    items.len() <= 200 && pair_bytes(items, items.len()) <= 65536
}

/// Whether a header list may pass the tunnel.
pub fn headers_within_limits(headers: &HeaderList) -> (r: bool)
    ensures
        r == header_limits(pairs(headers@)),
{
    if headers.len() > MAX_HTTP_HEADERS {
        return false;
    }
    let mut total: usize = 0;
    for i in 0..headers.len()
        invariant
            total == pair_bytes(pairs(headers@), i as nat),
            total <= MAX_HTTP_HEADER_BYTES,
    {
        let a: usize = headers[i].0.as_str().as_bytes().len();
        let b: usize = headers[i].1.as_str().as_bytes().len();
        proof {
            pair_bytes_grows(pairs(headers@), (i + 1) as nat, headers@.len());
            assert(pairs(headers@)[i as int] == (headers@[i as int].0@, headers@[i as int].1@));
        }
        if a > MAX_HTTP_HEADER_BYTES - total || b > MAX_HTTP_HEADER_BYTES - total - a {
            return false;
        }
        total = total + a + b;
    }
    true
}

/// A control frame. The number that a ping carries is kept as its bit pattern.
#[derive(Debug, PartialEq, Eq)]
pub enum Frame {
    Hello {
        protocol_version: u8,
        max_stream_chunk: usize,
        max_inflight: usize,
        stream_window_frames: usize,
        max_body_size: usize,
        max_ws_message_size: usize,
        resume: bool,
        session_id: Option<String>,
    },
    HttpReq { id: String, method: String, path: String, headers: HeaderList, body: String },
    HttpResp { id: String, status: u16, headers: HeaderList, body: String },
    HttpReqBegin {
        id: String,
        method: String,
        path: String,
        headers: HeaderList,
        content_length: Option<u64>,
    },
    HttpReqEnd { id: String },
    HttpRespBegin { id: String, status: u16, headers: HeaderList, content_length: Option<u64> },
    HttpRespEnd { id: String },
    Window { id: String, credits: usize, ack_offset: Option<u64>, complete: bool },
    WsConnect { id: String, path: String, headers: HeaderList },
    WsConnected { id: String },
    WsMessage { id: String, data: String, binary: bool },
    WsClose { id: String, code: u16, reason: String },
    Error { id: String, message: String },
    Ping { id: String, timestamp: u64 },
    Pong { id: String, timestamp: u64 },
}

/// The model of a [`Frame`].
pub enum FrameModel {
    Hello {
        protocol_version: u8,
        max_stream_chunk: usize,
        max_inflight: usize,
        stream_window_frames: usize,
        max_body_size: usize,
        max_ws_message_size: usize,
        resume: bool,
        session_id: Option<Seq<char>>,
    },
    HttpReq { id: Seq<char>, method: Seq<char>, path: Seq<char>, headers: Pairs, body: Seq<char> },
    HttpResp { id: Seq<char>, status: u16, headers: Pairs, body: Seq<char> },
    HttpReqBegin {
        id: Seq<char>,
        method: Seq<char>,
        path: Seq<char>,
        headers: Pairs,
        content_length: Option<u64>,
    },
    HttpReqEnd { id: Seq<char> },
    HttpRespBegin { id: Seq<char>, status: u16, headers: Pairs, content_length: Option<u64> },
    HttpRespEnd { id: Seq<char> },
    Window { id: Seq<char>, credits: usize, ack_offset: Option<u64>, complete: bool },
    WsConnect { id: Seq<char>, path: Seq<char>, headers: Pairs },
    WsConnected { id: Seq<char> },
    WsMessage { id: Seq<char>, data: Seq<char>, binary: bool },
    WsClose { id: Seq<char>, code: u16, reason: Seq<char> },
    Error { id: Seq<char>, message: Seq<char> },
    Ping { id: Seq<char>, timestamp: u64 },
    Pong { id: Seq<char>, timestamp: u64 },
}

impl View for Frame {
    type V = FrameModel;

    open spec fn view(&self) -> FrameModel {
        match *self {
            Frame::Hello {
                protocol_version,
                max_stream_chunk,
                max_inflight,
                stream_window_frames,
                max_body_size,
                max_ws_message_size,
                resume,
                session_id,
            } => FrameModel::Hello {
                protocol_version,
                max_stream_chunk,
                max_inflight,
                stream_window_frames,
                max_body_size,
                max_ws_message_size,
                resume,
                session_id: opt_view(session_id),
            },
            Frame::HttpReq { id, method, path, headers, body } => FrameModel::HttpReq {
                id: id@,
                method: method@,
                path: path@,
                headers: pairs(headers@),
                body: body@,
            },
            Frame::HttpResp { id, status, headers, body } => FrameModel::HttpResp {
                id: id@,
                status,
                headers: pairs(headers@),
                body: body@,
            },
            Frame::HttpReqBegin { id, method, path, headers, content_length } =>
                FrameModel::HttpReqBegin {
                id: id@,
                method: method@,
                path: path@,
                headers: pairs(headers@),
                content_length,
            },
            Frame::HttpReqEnd { id } => FrameModel::HttpReqEnd { id: id@ },
            Frame::HttpRespBegin { id, status, headers, content_length } =>
                FrameModel::HttpRespBegin {
                id: id@,
                status,
                headers: pairs(headers@),
                content_length,
            },
            Frame::HttpRespEnd { id } => FrameModel::HttpRespEnd { id: id@ },
            Frame::Window { id, credits, ack_offset, complete } => FrameModel::Window {
                id: id@,
                credits,
                ack_offset,
                complete,
            },
            Frame::WsConnect { id, path, headers } => FrameModel::WsConnect {
                id: id@,
                path: path@,
                headers: pairs(headers@),
            },
            Frame::WsConnected { id } => FrameModel::WsConnected { id: id@ },
            Frame::WsMessage { id, data, binary } => FrameModel::WsMessage {
                id: id@,
                data: data@,
                binary,
            },
            Frame::WsClose { id, code, reason } => FrameModel::WsClose {
                id: id@,
                code,
                reason: reason@,
            },
            Frame::Error { id, message } => FrameModel::Error { id: id@, message: message@ },
            Frame::Ping { id, timestamp } => FrameModel::Ping { id: id@, timestamp },
            Frame::Pong { id, timestamp } => FrameModel::Pong { id: id@, timestamp },
        }
    }
}

impl Frame {
    /// A copy of the frame.
    pub fn duplicate(&self) -> (r: Frame)
        ensures
            r@ == self@,
    {
        match self {
            Frame::Hello {
                protocol_version,
                max_stream_chunk,
                max_inflight,
                stream_window_frames,
                max_body_size,
                max_ws_message_size,
                resume,
                session_id,
            } => Frame::Hello {
                protocol_version: *protocol_version,
                max_stream_chunk: *max_stream_chunk,
                max_inflight: *max_inflight,
                stream_window_frames: *stream_window_frames,
                max_body_size: *max_body_size,
                max_ws_message_size: *max_ws_message_size,
                resume: *resume,
                session_id: opt_copy(session_id),
            },
            Frame::HttpReq { id, method, path, headers, body } => Frame::HttpReq {
                id: id.clone(),
                method: method.clone(),
                path: path.clone(),
                headers: copy_pairs(headers),
                body: body.clone(),
            },
            Frame::HttpResp { id, status, headers, body } => Frame::HttpResp {
                id: id.clone(),
                status: *status,
                headers: copy_pairs(headers),
                body: body.clone(),
            },
            Frame::HttpReqBegin { id, method, path, headers, content_length } =>
                Frame::HttpReqBegin {
                id: id.clone(),
                method: method.clone(),
                path: path.clone(),
                headers: copy_pairs(headers),
                content_length: *content_length,
            },
            Frame::HttpReqEnd { id } => Frame::HttpReqEnd { id: id.clone() },
            Frame::HttpRespBegin { id, status, headers, content_length } =>
                Frame::HttpRespBegin {
                id: id.clone(),
                status: *status,
                headers: copy_pairs(headers),
                content_length: *content_length,
            },
            Frame::HttpRespEnd { id } => Frame::HttpRespEnd { id: id.clone() },
            Frame::Window { id, credits, ack_offset, complete } => Frame::Window {
                id: id.clone(),
                credits: *credits,
                ack_offset: *ack_offset,
                complete: *complete,
            },
            Frame::WsConnect { id, path, headers } => Frame::WsConnect {
                id: id.clone(),
                path: path.clone(),
                headers: copy_pairs(headers),
            },
            Frame::WsConnected { id } => Frame::WsConnected { id: id.clone() },
            Frame::WsMessage { id, data, binary } => Frame::WsMessage {
                id: id.clone(),
                data: data.clone(),
                binary: *binary,
            },
            Frame::WsClose { id, code, reason } => Frame::WsClose {
                id: id.clone(),
                code: *code,
                reason: reason.clone(),
            },
            Frame::Error { id, message } => Frame::Error {
                id: id.clone(),
                message: message.clone(),
            },
            Frame::Ping { id, timestamp } => Frame::Ping { id: id.clone(), timestamp: *timestamp },
            Frame::Pong { id, timestamp } => Frame::Pong { id: id.clone(), timestamp: *timestamp },
        }
    }
}

} // verus!
