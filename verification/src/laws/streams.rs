//! Laws of streams of files and archives.
use super::fields::{fields2, fields3, fields4, fields5, says, size};
use crate::fs::{error_model, text_or_empty};
use crate::stream::{
    advanced, asked, close_error, close_reply, kind_of, named_bytes, not_open_reply, open_reply,
    recv_error, recv_reply, send_error, send_reply, stream_name, OpenModel, StreamKind, StreamModel,
    StreamsModel, TarEnd,
};
use crate::tunnel::registry::{entry, place, place_bound, place_is, with_has, SlotModel};
use crate::value::Model;
use vstd::prelude::*;
use vstd::utf8::encode_utf8;

verus! {

/// A stream is of a file where nothing else is asked for, and it is read.
pub proof fn streams_are_asked_for(kw: Map<Seq<char>, Model>, s: Seq<char>)
    ensures
        !kw.contains_key("type"@) ==> asked(kw).stream_type == "file"@,
        kw.contains_key("type"@) && kw["type"@] == Model::Text(s) ==> asked(kw).stream_type == s,
        !kw.contains_key("mode"@) ==> asked(kw).mode == "read"@,
        kw.contains_key("mode"@) && kw["mode"@] == Model::Text(s) ==> asked(kw).mode == s,
        kw.contains_key("path"@) && kw["path"@] == Model::Text(s) ==> asked(kw).path == s,
{
}

/// A stream is of a file or an archive, and read or written; it needs a path.
pub proof fn streams_have_their_kind(path: Seq<char>, kind: Seq<char>, mode: Seq<char>)
    ensures
        path.len() == 0 ==> kind_of(OpenModel { stream_type: kind, mode, path }) is Err,
        path.len() > 0 ==> {
            &&& kind_of(OpenModel { stream_type: "file"@, mode: "read"@, path }) == Ok::<
                StreamKind,
                Seq<char>,
            >(StreamKind::FileRead)
            &&& kind_of(OpenModel { stream_type: "file"@, mode: "download"@, path }) == Ok::<
                StreamKind,
                Seq<char>,
            >(StreamKind::FileRead)
            &&& kind_of(OpenModel { stream_type: "file"@, mode: "write"@, path }) == Ok::<
                StreamKind,
                Seq<char>,
            >(StreamKind::FileWrite)
            &&& kind_of(OpenModel { stream_type: "file"@, mode: "upload"@, path }) == Ok::<
                StreamKind,
                Seq<char>,
            >(StreamKind::FileWrite)
            &&& kind_of(OpenModel { stream_type: "tar"@, mode: "read"@, path }) == Ok::<
                StreamKind,
                Seq<char>,
            >(StreamKind::TarRead)
            &&& kind_of(OpenModel { stream_type: "tar"@, mode: "download"@, path }) == Ok::<
                StreamKind,
                Seq<char>,
            >(StreamKind::TarRead)
            &&& kind_of(OpenModel { stream_type: "tar"@, mode: "write"@, path }) == Ok::<
                StreamKind,
                Seq<char>,
            >(StreamKind::TarWrite)
            &&& kind_of(OpenModel { stream_type: "tar"@, mode: "upload"@, path }) == Ok::<
                StreamKind,
                Seq<char>,
            >(StreamKind::TarWrite)
        },
        kind != "file"@ && kind != "tar"@ ==> kind_of(OpenModel { stream_type: kind, mode, path })
            is Err,
        mode != "read"@ && mode != "download"@ && mode != "write"@ && mode != "upload"@ ==> kind_of(
            OpenModel { stream_type: kind, mode, path },
        ) is Err,
{
    reveal_strlit("read");
    reveal_strlit("download");
    reveal_strlit("write");
    reveal_strlit("upload");
    assert("read"@.len() == 4);
    assert("download"@.len() == 8);
    assert("write"@.len() == 5);
    assert("upload"@.len() == 6);
    reveal_strlit("file");
    reveal_strlit("tar");
    assert("file"@.len() == 4);
    assert("tar"@.len() == 3);
}

/// The reply to an opening has the name of the stream, what was asked for, and an
/// error where it is not open.
pub proof fn openings_are_replied(id: Seq<char>, a: OpenModel, error: Option<Seq<char>>)
    ensures
        ({
            let reply = open_reply(id, a, error);
            &&& size(reply) == 5
            &&& says(reply, "stream_id"@, Model::Text(id))
            &&& says(reply, "type"@, Model::Text(a.stream_type))
            &&& says(reply, "mode"@, Model::Text(a.mode))
            &&& says(reply, "path"@, Model::Text(a.path))
            &&& error is None ==> says(reply, "error"@, Model::Nil)
            &&& error is Some ==> says(reply, "error"@, Model::Text(error->0))
        }),
{
    reveal_strlit("stream_id");
    reveal_strlit("type");
    reveal_strlit("mode");
    reveal_strlit("path");
    reveal_strlit("error");
    assert("stream_id"@.len() == 9);
    assert("type"@[0] == 't');
    assert("type"@.len() == 4);
    assert("mode"@[0] == 'm');
    assert("mode"@.len() == 4);
    assert("path"@[0] == 'p');
    assert("path"@.len() == 4);
    assert("error"@.len() == 5);
    fields5(
        "stream_id"@,
        Model::Text(id),
        "type"@,
        Model::Text(a.stream_type),
        "mode"@,
        Model::Text(a.mode),
        "path"@,
        Model::Text(a.path),
        "error"@,
        error_model(error),
    );
}

/// The reply to bytes that were sent has their number and where the stream
/// stands after them.
pub proof fn sends_are_replied(id: Seq<char>, written: int, offset: u64, error: Option<Seq<char>>)
    requires
        offset <= i64::MAX,
    ensures
        ({
            let reply = send_reply(id, written, offset, error);
            &&& size(reply) == 4
            &&& says(reply, "stream_id"@, Model::Text(id))
            &&& says(reply, "bytes_written"@, Model::Integer(written))
            &&& says(reply, "offset"@, Model::Integer(offset as int))
            &&& error is None ==> says(reply, "error"@, Model::Nil)
            &&& error is Some ==> says(reply, "error"@, Model::Text(error->0))
        }),
{
    reveal_strlit("stream_id");
    reveal_strlit("bytes_written");
    reveal_strlit("offset");
    reveal_strlit("error");
    assert("stream_id"@.len() == 9);
    assert("bytes_written"@.len() == 13);
    assert("offset"@.len() == 6);
    assert("error"@.len() == 5);
    fields4(
        "stream_id"@,
        Model::Text(id),
        "bytes_written"@,
        Model::Integer(written),
        "offset"@,
        Model::Integer(offset as i64 as int),
        "error"@,
        error_model(error),
    );
}

/// The reply to a receive has the bytes, their number, and whether the stream is
/// over.
pub proof fn receives_are_replied(
    id: Seq<char>,
    data: Seq<u8>,
    eof: bool,
    error: Option<Seq<char>>,
)
    ensures
        ({
            let reply = recv_reply(id, data, eof, error);
            &&& size(reply) == 5
            &&& says(reply, "stream_id"@, Model::Text(id))
            &&& says(reply, "data"@, Model::Binary(data))
            &&& says(reply, "bytes_read"@, Model::Integer(data.len() as int))
            &&& says(reply, "eof"@, Model::Boolean(eof))
            &&& error is None ==> says(reply, "error"@, Model::Nil)
            &&& error is Some ==> says(reply, "error"@, Model::Text(error->0))
        }),
{
    reveal_strlit("stream_id");
    reveal_strlit("data");
    reveal_strlit("bytes_read");
    reveal_strlit("eof");
    reveal_strlit("error");
    assert("stream_id"@.len() == 9);
    assert("data"@.len() == 4);
    assert("bytes_read"@.len() == 10);
    assert("eof"@.len() == 3);
    assert("error"@.len() == 5);
    fields5(
        "stream_id"@,
        Model::Text(id),
        "data"@,
        Model::Binary(data),
        "bytes_read"@,
        Model::Integer(data.len() as int),
        "eof"@,
        Model::Boolean(eof),
        "error"@,
        error_model(error),
    );
}

/// The reply to a closing has the name and the path of the stream, and an error
/// where an archive was not unpacked. One that is not open is told so.
pub proof fn closings_are_replied(id: Seq<char>, path: Seq<char>, error: Option<Seq<char>>)
    ensures
        ({
            let reply = close_reply(id, path, error);
            &&& size(reply) == 3
            &&& says(reply, "stream_id"@, Model::Text(id))
            &&& says(reply, "path"@, Model::Text(path))
            &&& error is None ==> says(reply, "error"@, Model::Nil)
            &&& error is Some ==> says(reply, "error"@, Model::Text(error->0))
        }),
        size(not_open_reply(id)) == 2,
        says(not_open_reply(id), "stream_id"@, Model::Text(id)),
        says(not_open_reply(id), "error"@, Model::Text("unknown stream_id"@)),
{
    reveal_strlit("stream_id");
    reveal_strlit("path");
    reveal_strlit("error");
    assert("stream_id"@.len() == 9);
    assert("path"@.len() == 4);
    assert("error"@.len() == 5);
    fields3(
        "stream_id"@,
        Model::Text(id),
        "path"@,
        Model::Text(path),
        "error"@,
        error_model(error),
    );
    fields2(
        "stream_id"@,
        Model::Text(id),
        "error"@,
        Model::Text("unknown stream_id"@),
    );
}

/// Only an archive that is unpacked can fail when it is closed, and it does
/// where the archiver failed.
pub proof fn archives_may_fail(kind: StreamKind, end: TarEnd)
    ensures
        kind != StreamKind::TarWrite ==> close_error(kind, end) is None,
        kind == StreamKind::TarWrite ==> (close_error(kind, end) is None) == (end is Success),
        kind == StreamKind::TarWrite ==> (end matches TarEnd::Failed(s) ==> close_error(kind, end)
            == Some("tar extract failed: "@ + s@)),
{
}

/// A stream that has just been opened stands at its beginning, has its kind and
/// its path, and a name of its own.
pub proof fn streams_begin(s: StreamsModel, kind: StreamKind, path: Seq<char>)
    ensures
        ({
            let slot = entry(s.opened(kind, path).table, stream_name(s.next));
            &&& slot is Some && slot->0.data.kind == kind && slot->0.data.path == path
                && slot->0.data.offset == 0
            &&& s.next < u64::MAX ==> s.opened(kind, path).next == s.next + 1
        }),
{
    with_has(
        s.table,
        SlotModel {
            id: stream_name(s.next),
            generation: None,
            session: None,
            data: StreamModel { kind, path, offset: 0 },
        },
    );
}

/// Bytes that were sent take the stream forward by as many; its kind and its
/// path stay.
pub proof fn streams_advance(s: StreamsModel, id: Seq<char>, count: u64)
    requires
        entry(s.table, id) is Some,
        entry(s.table, id)->0.data.offset + count <= u64::MAX,
    ensures
        ({
            let before = entry(s.table, id)->0.data;
            let after = entry(s.written(id, count).table, id);
            &&& after is Some && after->0.data.offset == before.offset + count
                && after->0.data.kind == before.kind && after->0.data.path == before.path
            &&& advanced(before.offset, count) == before.offset + count
        }),
{
    place_bound(s.table, id);
    place_is(s.written(id, count).table, id, place(s.table, id) as int);
}

/// Bytes can be sent to a stream that is open and written, where there are some;
/// and received from one that is open and read.
pub proof fn streams_are_used(s: StreamsModel, kw: Map<Seq<char>, Model>, b: Seq<u8>, t: Seq<char>)
    ensures
        ({
            let slot = entry(s.table, text_or_empty(kw, "stream_id"@));
            let written = slot is Some && (slot->0.data.kind == StreamKind::FileWrite
                || slot->0.data.kind == StreamKind::TarWrite);
            let read = slot is Some && (slot->0.data.kind == StreamKind::FileRead
                || slot->0.data.kind == StreamKind::TarRead);
            let data = kw.contains_key("data"@) && (kw["data"@] is Binary || kw["data"@] is Text);
            &&& (send_error(s, kw) is None) == (written && data)
            &&& (recv_error(s, text_or_empty(kw, "stream_id"@)) is None) == read
            &&& kw.contains_key("data"@) && kw["data"@] == Model::Binary(b) ==> named_bytes(
                kw,
                "data"@,
            ) == Some(b)
            &&& kw.contains_key("data"@) && kw["data"@] == Model::Text(t) ==> named_bytes(
                kw,
                "data"@,
            ) == Some(encode_utf8(t))
        }),
{
}

} // verus!
