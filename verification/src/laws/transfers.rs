//! Laws of the HTTP server: routes, responses, uploads and downloads.

use crate::dispatch::Performed;
use crate::fs::name_of;
use crate::http::request::{asked_range, head_range, header, header_token, announced};
use crate::http::body::RequestBody;
use crate::http::server::{
    binary_head, body_mode, given, invoke_answer, length_line, member_or_empty, missing_path,
    offset_mismatch, query_number, range_line, reason, response_text, route_of, settled,
    size_mismatch, slice_of, stored, unsupported, Route,
};
use crate::json::{json_of, json_text, member, JsonModel};
use crate::json_text::{json_fields, json_object, json_string};
use crate::text::decimal;
use vstd::prelude::*;
use vstd::utf8::encode_utf8;

verus! {

// ───────────────────────── downloads ─────────────────────────

/// A download without a `Range` header, or with one that asks for no range of
/// the file, is the whole file with the status 200: from byte 0, as long as the
/// file.
pub proof fn whole_files_are_sent(head: Seq<char>, total: u64)
    requires
        header(head, "range"@) is None || asked_range(header(head, "range"@)->0, total) is None,
    ensures
        slice_of(head, total).status == 200,
        slice_of(head, total).start == 0,
        slice_of(head, total).length == total,
        slice_of(head, total).range is None,
{
}

/// A download of a range has the status 206, starts where the range starts, and
/// is as long as the range.
pub proof fn ranges_are_sent(head: Seq<char>, total: u64, start: u64, end: u64)
    requires
        header(head, "range"@) is Some,
        asked_range(header(head, "range"@)->0, total) == Some((start, end)),
    ensures
        slice_of(head, total).status == 206,
        slice_of(head, total).start == start,
        slice_of(head, total).length == end - start + 1,
        slice_of(head, total).range == Some((start, end, total)),
        slice_of(head, total).start + slice_of(head, total).length <= total,
{
    crate::http::request::ranges_lie_within(head, total);
}

/// Ranges that follow each other give the file in full: the range up to a byte
/// and the range from the next one on are as long as the whole.
pub proof fn ranges_add_up(a: Seq<char>, b: Seq<char>, whole: Seq<char>, total: u64, at: u64)
    requires
        0 < at < total,
        head_range(a, total) == Some((0u64, (at - 1) as u64)),
        head_range(b, total) == Some((at, (total - 1) as u64)),
        head_range(whole, total) is None,
    ensures
        slice_of(a, total).start == 0,
        slice_of(b, total).start == slice_of(a, total).start + slice_of(a, total).length,
        slice_of(a, total).length + slice_of(b, total).length == slice_of(whole, total).length,
{
}

/// The head of a download says its status, its type, its length where it is
/// known, and its range where it is one.
pub proof fn download_heads_tell(
    status: u16,
    kind: Seq<char>,
    length: u64,
    start: u64,
    end: u64,
    total: u64,
)
    ensures
        length_line(Some(length)) == "Content-Length: "@ + decimal(length as nat) + "\r\n"@,
        length_line(None).len() == 0,
        range_line(Some((start, end, total))) == "Content-Range: bytes "@ + decimal(start as nat)
            + "-"@ + decimal(end as nat) + "/"@ + decimal(total as nat) + "\r\n"@,
        range_line(None).len() == 0,
        binary_head(200, kind, None, None) == "HTTP/1.1 "@ + decimal(200) + " "@ + "OK"@
            + "\r\nContent-Type: "@ + kind + "\r\n"@ + "Connection: close\r\n\r\n"@,
        binary_head(206, kind, Some(length), Some((start, end, total))) == "HTTP/1.1 "@ + decimal(
            206,
        ) + " "@ + "Partial Content"@ + "\r\nContent-Type: "@ + kind + "\r\n"@ + length_line(
            Some(length),
        ) + range_line(Some((start, end, total))) + "Connection: close\r\n\r\n"@,
        binary_head(200, kind, Some(length), None) == "HTTP/1.1 "@ + decimal(200) + " "@ + "OK"@
            + "\r\nContent-Type: "@ + kind + "\r\n"@ + length_line(Some(length))
            + "Connection: close\r\n\r\n"@,
{
    assert(binary_head(200, kind, None, None) =~= "HTTP/1.1 "@ + decimal(200) + " "@ + "OK"@
        + "\r\nContent-Type: "@ + kind + "\r\n"@ + "Connection: close\r\n\r\n"@);
    assert(binary_head(200, kind, Some(length), None) =~= "HTTP/1.1 "@ + decimal(200) + " "@ + "OK"@
        + "\r\nContent-Type: "@ + kind + "\r\n"@ + length_line(Some(length))
        + "Connection: close\r\n\r\n"@);
}

// ───────────────────────── routes ─────────────────────────

/// Without a token, and with the right one, a request goes by its method and
/// path, of which all that are not named are not found.
pub proof fn requests_are_routed(
    method: Seq<char>,
    path: Seq<char>,
    token: Option<Seq<char>>,
    auth: Option<Seq<char>>,
)
    requires
        token is None || auth == token,
    ensures
        ({
            let route = route_of(method, path, token, auth);
            let get = method == "GET"@;
            let post = method == "POST"@;
            &&& (route == Route::Health) == (get && path == "/healthz"@)
            &&& (route == Route::UploadStatus) == (get && path == "/upload/status"@)
            &&& (route == Route::Download) == (get && path == "/download"@)
            &&& (route == Route::UploadCommit) == (post && path == "/upload/commit"@)
            &&& (route == Route::Upload) == (post && path == "/upload"@)
            &&& (route == Route::Invoke) == (post && path == "/invoke"@)
            &&& route != Route::Unauthorized
        }),
{
    reveal_strlit("GET");
    reveal_strlit("POST");
    reveal_strlit("/healthz");
    reveal_strlit("/upload/status");
    reveal_strlit("/upload/commit");
    reveal_strlit("/upload");
    reveal_strlit("/download");
    reveal_strlit("/invoke");
    assert("GET"@.len() == 3 && "POST"@.len() == 4);
    assert("/healthz"@.len() == 8 && "/upload/status"@.len() == 14 && "/upload/commit"@.len() == 14
        && "/upload"@.len() == 7 && "/download"@.len() == 9 && "/invoke"@.len() == 7);
    assert("/upload/status"@[8] == 's' && "/upload/commit"@[8] == 'c');
    assert("/upload"@[1] == 'u' && "/invoke"@[1] == 'i');
}

/// With a token, whoever does not present it learns nothing but that the server
/// is well.
pub proof fn strangers_are_turned_away(
    method: Seq<char>,
    path: Seq<char>,
    token: Seq<char>,
    auth: Option<Seq<char>>,
)
    requires
        auth != Some(token),
    ensures
        method == "GET"@ && path == "/healthz"@ ==> route_of(method, path, Some(token), auth)
            == Route::Health,
        !(method == "GET"@ && path == "/healthz"@) ==> route_of(method, path, Some(token), auth)
            == Route::Unauthorized,
{
}

/// A health check is answered with 200, a stranger with 401, and a path that
/// there is not with 404; all else has to be carried out.
pub proof fn routes_are_answered(route: Route)
    ensures
        route == Route::Health ==> settled(route) is Some && settled(route)->0.status == 200,
        route == Route::Unauthorized ==> settled(route) is Some && settled(route)->0.status == 401,
        route == Route::NotFound ==> settled(route) is Some && settled(route)->0.status == 404,
        settled(route) is Some ==> route == Route::Health || route == Route::Unauthorized || route
            == Route::NotFound,
{
}

/// A body comes in chunks where its head says so, and else it is as long as its
/// head says.
pub proof fn bodies_come_as_announced(head: Seq<char>)
    ensures
        header_token(head, "transfer-encoding"@, "chunked"@) ==> body_mode(head)
            == RequestBody::Chunked,
        !header_token(head, "transfer-encoding"@, "chunked"@) ==> body_mode(head)
            == RequestBody::ContentLength(announced(head) as usize),
{
}

// ───────────────────────── responses ─────────────────────────

/// A response says its status with the reason, the length of its body in bytes,
/// and the body.
pub proof fn responses_are_written(status: u16, body: Seq<char>)
    ensures
        response_text(status, body) == "HTTP/1.1 "@ + decimal(status as nat) + " "@ + reason(status)
            + "\r\nContent-Type: application/json\r\nContent-Length: "@ + decimal(
            encode_utf8(body).len(),
        ) + "\r\nConnection: close\r\n\r\n"@ + body,
        response_text(status, body).skip(response_text(status, body).len() - body.len()) == body,
        reason(200) == "OK"@,
        reason(400) == "Bad Request"@,
        reason(401) == "Unauthorized"@,
        reason(404) == "Not Found"@,
        reason(409) == "Conflict"@,
        reason(500) == "Internal Server Error"@,
{
    let all = response_text(status, body);
    assert(all.skip(all.len() - body.len()) =~= body);
}

/// An action that was carried out is answered with 200 and its result as JSON;
/// one that there is not with 400, and one that broke off with 500, each with
/// its error.
pub proof fn invokes_are_answered(outcome: Performed)
    ensures
        match outcome {
            Performed::Done(v) => invoke_answer(outcome).status == 200 && invoke_answer(
                outcome,
            ).body == json_text(json_of(v@)),
            Performed::Unsupported(action) => invoke_answer(outcome).status == 400
                && invoke_answer(outcome).body == "{\"error\":"@ + json_string(
                "unsupported action: "@ + action@,
            ) + "}"@,
            Performed::Broken(error) => invoke_answer(outcome).status == 500 && invoke_answer(
                outcome,
            ).body == "{\"error\":"@ + json_string("dispatch failed: "@ + error@) + "}"@,
        },
{
}

/// The action of a request is its member of that name.
pub proof fn members_are_read(v: JsonModel, name: Seq<char>, s: Seq<char>)
    ensures
        member(v, name) == Some(JsonModel::Text(s)) ==> member_or_empty(v, name) == s,
        member(v, name) is None ==> member_or_empty(v, name).len() == 0,
{
}

/// An object with one more field has that field after a comma.
pub proof fn objects_have_their_fields(
    fields: Seq<(Seq<char>, Seq<char>)>,
    name: Seq<char>,
    value: Seq<char>,
)
    ensures
        json_object(seq![(name, value)]) == "{"@ + (json_string(name) + ":"@ + value) + "}"@,
        fields.len() > 0 ==> json_fields(fields.push((name, value)), fields.len() + 1)
            == json_fields(fields, fields.len()) + ","@ + (json_string(name) + ":"@ + value),
{
    let more = fields.push((name, value));
    same_fields(fields, more, fields.len());
}

proof fn same_fields(
    a: Seq<(Seq<char>, Seq<char>)>,
    b: Seq<(Seq<char>, Seq<char>)>,
    n: nat,
)
    requires
        n <= a.len(),
        n <= b.len(),
        forall|i: int| 0 <= i < n ==> a[i] == b[i],
    ensures
        json_fields(a, n) == json_fields(b, n),
    decreases n,
{
    if n > 1 {
        same_fields(a, b, (n - 1) as nat);
    }
}

/// A field of an object, as it is written.
pub open spec fn written_field(name: Seq<char>, value: Seq<char>) -> Seq<char> {
    json_string(name) + ":"@ + value
}

// ───────────────────────── uploads ─────────────────────────

/// A file that was stored is answered with 200: how many bytes were written, its
/// name, its path, its size and its kind, each under its own name.
pub proof fn stored_files_are_answered(path: Seq<char>, kind: Seq<char>, size: u64, written: usize)
    ensures
        stored(path, kind, size, written).status == 200,
        stored(path, kind, size, written).body == "{"@ + (written_field(
            "bytes_written"@,
            decimal(written as nat),
        ) + ","@ + written_field("error"@, "null"@) + ","@ + written_field(
            "name"@,
            json_string(name_of(path)),
        ) + ","@ + written_field("path"@, json_string(path)) + ","@ + written_field(
            "size"@,
            decimal(size as nat),
        ) + ","@ + written_field("type"@, json_string(kind))) + "}"@,
{
    reveal_with_fuel(json_fields, 8);
}

/// A part that does not start where the upload stands is refused with 409, which
/// tells where it has to start.
pub proof fn misplaced_parts_are_refused(path: Seq<char>, upload_id: Seq<char>, current: u64)
    ensures
        offset_mismatch(path, upload_id, current).status == 409,
        offset_mismatch(path, upload_id, current).body == "{"@ + (written_field(
            "error"@,
            json_string("offset mismatch"@),
        ) + ","@ + written_field("expected_offset"@, decimal(current as nat)) + ","@
            + written_field("offset"@, decimal(current as nat)) + ","@ + written_field(
            "path"@,
            json_string(path),
        ) + ","@ + written_field("uploadId"@, json_string(upload_id))) + "}"@,
{
    reveal_with_fuel(json_fields, 7);
}

/// An upload of another size than was announced is refused with 409, which tells
/// both sizes.
pub proof fn incomplete_uploads_are_refused(
    path: Seq<char>,
    upload_id: Seq<char>,
    size: u64,
    total: u64,
)
    ensures
        size_mismatch(path, upload_id, size, total).status == 409,
        size_mismatch(path, upload_id, size, total).body == "{"@ + (written_field(
            "error"@,
            json_string("size mismatch"@),
        ) + ","@ + written_field("expected_size"@, decimal(total as nat)) + ","@ + written_field(
            "offset"@,
            decimal(size as nat),
        ) + ","@ + written_field("path"@, json_string(path)) + ","@ + written_field(
            "uploadId"@,
            json_string(upload_id),
        )) + "}"@,
{
    reveal_with_fuel(json_fields, 7);
}

/// A transfer without a path is refused with 400.
pub proof fn pathless_transfers_are_refused()
    ensures
        missing_path().status == 400,
{
}

/// A parameter counts as given where it has a value that is not empty; a number
/// where that is a numeral.
pub proof fn parameters_are_given(target: Seq<char>, name: Seq<char>, value: Seq<char>, n: nat)
    requires
        n <= u64::MAX,
    ensures
        crate::http::request::query_text(target, name) == Some(value) ==> given(target, name) == (
        if value.len() > 0 {
            Some(value)
        } else {
            None
        }),
        crate::http::request::query_text(target, name) is None ==> given(target, name) is None
            && query_number(target, name) is None,
        crate::http::request::query_text(target, name) == Some(decimal(n)) ==> query_number(
            target,
            name,
        ) == Some(n),
{
    crate::text::decimal_reads_back(n);
    super::texts::unsigned_numerals_are_digits(decimal(n), u64::MAX as nat);
}

} // verus!
