//! Routing of requests, and the responses to them.
use super::body::RequestBody;
use super::request::{
    announced, decoded_param, head_range, header, header_has_token, header_token, parse_content_length,
    parse_header, parse_range_header, parse_request_line, query_text, request_id_from,
    request_number, request_path, request_words, target_path, transfer_type, upload_type,
};
use crate::bytes::{find_subslice, first_occurrence, occurs};
use crate::codec::{serialized, Kwargs};
use crate::dedup::{age, requests_run_once, CacheModel, Once, REQUEST_DEDUP_TTL};
use crate::dispatch::{Ctx, Performed};
use crate::fs::{file_name, name_of};
use crate::json::{
    json_args_to_kwargs, json_kwargs, json_of, json_problem, json_text, json_value, member,
    member_text, read_json, write_json, JsonModel,
};
use crate::json_text::{
    bool_text, err_json, error_object, field_models, json_bool, json_object, json_quote,
    json_string, write_object,
};
use crate::messages::{CallRequest, ErrorCodes};
use crate::text::{
    decimal, join, join3, join4, opt_str_view, opt_view, parse_unsigned, same, to_decimal,
    unsigned_numeral,
};
use vstd::prelude::*;
use vstd::utf8::encode_utf8;

verus! {

// ───────────────────────── heads ─────────────────────────

/// The most that a head may hold before its end is found.
pub const MAX_HEAD_BYTES: usize = 1048576;

/// How far the head of a request was read.
#[derive(Debug, Clone, Copy, PartialEq, Eq, Structural)]
pub enum HeadProgress {
    /// The head ends here.
    Complete(usize),
    More,
    TooLarge,
}

/// The end of a head.
pub open spec fn blank_line() -> Seq<u8> {
    seq![0x0du8, 0x0au8, 0x0du8, 0x0au8]
}

/// Looks for the end of a head: the first blank line.
pub fn read_head(buf: &[u8]) -> (r: HeadProgress)
    ensures
        match r {
            HeadProgress::Complete(n) => first_occurrence(buf@, blank_line(), n - 4),
            HeadProgress::More => (forall|j: int| !occurs(buf@, blank_line(), j)) && buf@.len()
                <= MAX_HEAD_BYTES,
            HeadProgress::TooLarge => (forall|j: int| !occurs(buf@, blank_line(), j)) && buf@.len()
                > MAX_HEAD_BYTES,
        },
{
    let end: Vec<u8> = vec![0x0d, 0x0a, 0x0d, 0x0a];
    assert(end@ =~= blank_line());
    match find_subslice(buf, end.as_slice()) {
        Some(at) => {
            let total: usize = buf.len();
            assert(at + 4 <= total);
            HeadProgress::Complete(at + 4)
        },
        None => {
            if buf.len() > MAX_HEAD_BYTES {
                HeadProgress::TooLarge
            } else {
                HeadProgress::More
            }
        },
    }
}

// ───────────────────────── routing ─────────────────────────

/// What a request asks for.
#[derive(Debug, Clone, Copy, PartialEq, Eq, Structural)]
pub enum Route {
    Health,
    Unauthorized,
    UploadStatus,
    UploadCommit,
    Upload,
    Download,
    Invoke,
    NotFound,
}

/// The route of a request. Everything but the health check needs the token,
/// where there is one.
pub open spec fn route_of(
    method: Seq<char>,
    path: Seq<char>,
    token: Option<Seq<char>>,
    auth: Option<Seq<char>>,
) -> Route {
    let get = method == "GET"@;
    let post = method == "POST"@;
    if get && path == "/healthz"@ {
        Route::Health
    } else if token is Some && auth != token {
        Route::Unauthorized
    } else if get && path == "/upload/status"@ {
        Route::UploadStatus
    } else if post && path == "/upload/commit"@ {
        Route::UploadCommit
    } else if post && path == "/upload"@ {
        Route::Upload
    } else if get && path == "/download"@ {
        Route::Download
    } else if post && path == "/invoke"@ {
        Route::Invoke
    } else {
        Route::NotFound
    }
}

/// A request whose head was read.
#[derive(Debug, PartialEq, Eq)]
pub struct Request {
    pub route: Route,
    /// The target as it was written.
    pub target: String,
    pub body: RequestBody,
    pub content_length: usize,
    pub trace_id: String,
}

/// How the body of a request is delimited.
pub open spec fn body_mode(head: Seq<char>) -> RequestBody {
    if header_token(head, "transfer-encoding"@, "chunked"@) {
        RequestBody::Chunked
    } else {
        RequestBody::ContentLength(announced(head) as usize)
    }
}

/// Reads the head of a request, and routes the request.
pub fn handle_conn(head: &str, token: Option<&str>) -> (r: Request)
    ensures
        ({
            let (method, target) = request_words(head@);
            &&& r.target@ == target
            &&& r.route == route_of(
                method,
                target_path(target),
                opt_str_view(token),
                header(head@, "x-auth"@),
            )
            &&& r.body == body_mode(head@)
            &&& r.content_length == announced(head@)
            &&& r.trace_id@ == (match header(head@, "x-trace-id"@) {
                Some(t) => t,
                None => Seq::empty(),
            })
        }),
{
    let (method, target) = parse_request_line(head);
    let content_length: usize = parse_content_length(head);
    let body = if header_has_token(head, "transfer-encoding", "chunked") {
        RequestBody::Chunked
    } else {
        RequestBody::ContentLength(content_length)
    };
    let auth = parse_header(head, "x-auth");
    let trace_id = match parse_header(head, "x-trace-id") {
        Some(t) => t,
        None => {
            let none = String::new();
            assert(none@ =~= Seq::empty());
            none
        },
    };
    let path = request_path(target.as_str());
    let get = same(method.as_str(), "GET");
    let post = same(method.as_str(), "POST");
    let p = path.as_str();
    let denied = match token {
        Some(expected) => match &auth {
            Some(a) => !same(a.as_str(), expected),
            None => true,
        },
        None => false,
    };
    let route = if get && same(p, "/healthz") {
        Route::Health
    } else if denied {
        Route::Unauthorized
    } else if get && same(p, "/upload/status") {
        Route::UploadStatus
    } else if post && same(p, "/upload/commit") {
        Route::UploadCommit
    } else if post && same(p, "/upload") {
        Route::Upload
    } else if get && same(p, "/download") {
        Route::Download
    } else if post && same(p, "/invoke") {
        Route::Invoke
    } else {
        Route::NotFound
    };
    Request { route, target, body, content_length, trace_id }
}

/// With a token, nothing but the health check is reached without it.
pub proof fn token_guards_everything(
    method: Seq<char>,
    path: Seq<char>,
    token: Seq<char>,
    auth: Option<Seq<char>>,
)
    requires
        auth != Some(token),
    ensures
        route_of(method, path, Some(token), auth) == Route::Unauthorized || route_of(
            method,
            path,
            Some(token),
            auth,
        ) == Route::Health,
{
}

// ───────────────────────── response texts ─────────────────────────

/// A response: a status, and a JSON text.
#[derive(Debug, PartialEq, Eq)]
pub struct CachedResponse {
    pub status: u16,
    pub body: String,
}

/// The model of a [`CachedResponse`].
pub struct ResponseModel {
    pub status: u16,
    pub body: Seq<char>,
}

impl View for CachedResponse {
    type V = ResponseModel;

    open spec fn view(&self) -> ResponseModel {
        ResponseModel { status: self.status, body: self.body@ }
    }
}

/// A response by its parts.
pub open spec fn response(status: u16, body: Seq<char>) -> ResponseModel {
    ResponseModel { status, body }
}

fn respond(status: u16, body: String) -> (r: CachedResponse)
    ensures
        r@ == response(status, body@),
{
    CachedResponse { status, body }
}

impl CachedResponse {
    /// The same response once more.
    pub fn duplicate(&self) -> (r: CachedResponse)
        ensures
            r@ == self@,
    {
        respond(self.status, self.body.as_str().to_owned())
    }
}

/// The response to a head that is too large.
pub fn head_too_large() -> (r: CachedResponse)
    ensures
        r@ == response(431, "{\"error\":\"headers too large\"}"@),
{
    respond(431, "{\"error\":\"headers too large\"}".to_owned())
}

/// The response of a route that needs nothing but the head, where it is one.
pub open spec fn settled(route: Route) -> Option<ResponseModel> {
    match route {
        Route::Health => Some(response(200, "{\"status\":\"ok\"}"@)),
        Route::Unauthorized => Some(response(401, "{\"error\":\"unauthorized\"}"@)),
        Route::NotFound => Some(response(404, "{\"error\":\"not found\"}"@)),
        _ => None,
    }
}

/// Responds to a request that needs nothing but its head.
pub fn settled_response(route: Route) -> (r: Option<CachedResponse>)
    ensures
        match r {
            Some(e) => settled(route) == Some(e@),
            None => settled(route) is None,
        },
{
    match route {
        Route::Health => Some(respond(200, "{\"status\":\"ok\"}".to_owned())),
        Route::Unauthorized => Some(respond(401, "{\"error\":\"unauthorized\"}".to_owned())),
        Route::NotFound => Some(respond(404, "{\"error\":\"not found\"}".to_owned())),
        _ => None,
    }
}

/// The words behind a status of a JSON response.
pub open spec fn reason(status: u16) -> Seq<char> {
    if status == 200 {
        "OK"@
    } else if status == 400 {
        "Bad Request"@
    } else if status == 401 {
        "Unauthorized"@
    } else if status == 404 {
        "Not Found"@
    } else if status == 409 {
        "Conflict"@
    } else if status == 431 {
        "Request Header Fields Too Large"@
    } else if status == 500 {
        "Internal Server Error"@
    } else {
        "Error"@
    }
}

/// The text of a JSON response.
pub open spec fn response_text(status: u16, body: Seq<char>) -> Seq<char> {
    "HTTP/1.1 "@ + decimal(status as nat) + " "@ + reason(status)
        + "\r\nContent-Type: application/json\r\nContent-Length: "@ + decimal(
        encode_utf8(body).len(),
    ) + "\r\nConnection: close\r\n\r\n"@ + body
}

/// Writes a JSON response.
pub fn write_resp(status: u16, body: &str) -> (r: String)
    ensures
        r@ == response_text(status, body@),
{
    let words = match status {
        200 => "OK",
        400 => "Bad Request",
        401 => "Unauthorized",
        404 => "Not Found",
        409 => "Conflict",
        431 => "Request Header Fields Too Large",
        500 => "Internal Server Error",
        _ => "Error",
    };
    let code = to_decimal(status as u64);
    let length = to_decimal(body.as_bytes().len() as u64);
    let head = join4("HTTP/1.1 ", code.as_str(), " ", words);
    let head = join3(
        head.as_str(),
        "\r\nContent-Type: application/json\r\nContent-Length: ",
        length.as_str(),
    );
    join3(head.as_str(), "\r\nConnection: close\r\n\r\n", body)
}

/// The words behind a status of a binary response.
pub open spec fn binary_reason(status: u16) -> Seq<char> {
    if status == 200 {
        "OK"@
    } else if status == 206 {
        "Partial Content"@
    } else if status == 404 {
        "Not Found"@
    } else {
        "Error"@
    }
}

/// A header line for a length, where it is known.
pub open spec fn length_line(length: Option<u64>) -> Seq<char> {
    match length {
        Some(n) => "Content-Length: "@ + decimal(n as nat) + "\r\n"@,
        None => Seq::empty(),
    }
}

/// A header line for a range, where there is one.
pub open spec fn range_line(range: Option<(u64, u64, u64)>) -> Seq<char> {
    match range {
        Some((start, end, total)) => "Content-Range: bytes "@ + decimal(start as nat) + "-"@
            + decimal(end as nat) + "/"@ + decimal(total as nat) + "\r\n"@,
        None => Seq::empty(),
    }
}

/// The head of a binary response.
pub open spec fn binary_head(
    status: u16,
    content_type: Seq<char>,
    length: Option<u64>,
    range: Option<(u64, u64, u64)>,
) -> Seq<char> {
    "HTTP/1.1 "@ + decimal(status as nat) + " "@ + binary_reason(status) + "\r\nContent-Type: "@
        + content_type + "\r\n"@ + length_line(length) + range_line(range)
        + "Connection: close\r\n\r\n"@
}

/// Writes the head of a binary response.
pub fn write_binary_headers_with_range(
    status: u16,
    content_type: &str,
    content_len: Option<u64>,
    content_range: Option<(u64, u64, u64)>,
) -> (r: String)
    ensures
        r@ == binary_head(status, content_type@, content_len, content_range),
{
    let words = match status {
        200 => "OK",
        206 => "Partial Content",
        404 => "Not Found",
        _ => "Error",
    };
    let length = match content_len {
        Some(n) => {
            let text = to_decimal(n);
            join3("Content-Length: ", text.as_str(), "\r\n")
        },
        None => {
            let none = String::new();
            assert(none@ =~= Seq::empty());
            none
        },
    };
    let range = match content_range {
        Some((start, end, total)) => {
            let a = to_decimal(start);
            let b = to_decimal(end);
            let c = to_decimal(total);
            let head = join4("Content-Range: bytes ", a.as_str(), "-", b.as_str());
            join4(head.as_str(), "/", c.as_str(), "\r\n")
        },
        None => {
            let none = String::new();
            assert(none@ =~= Seq::empty());
            none
        },
    };
    let code = to_decimal(status as u64);
    let head = join4("HTTP/1.1 ", code.as_str(), " ", words);
    let head = join4(head.as_str(), "\r\nContent-Type: ", content_type, "\r\n");
    join4(head.as_str(), length.as_str(), range.as_str(), "Connection: close\r\n\r\n")
}

// ───────────────────────── invoking ─────────────────────────

/// A request to carry out an action.
pub struct Invoke {
    pub action: String,
    pub kw: Kwargs,
    /// The number that it is carried out under once, where it has one.
    pub request_id: Option<String>,
}

/// The text of an entry, or nothing.
pub open spec fn member_or_empty(v: JsonModel, name: Seq<char>) -> Seq<char> {
    match member_text(v, name) {
        Some(s) => s,
        None => Seq::empty(),
    }
}

/// Reads a request to carry out an action, whose body is JSON text.
pub fn plan_invoke(head: &str, body: &[u8]) -> (r: Result<Invoke, CachedResponse>)
    ensures
        match json_value(body@) {
            None => r matches Err(e) && e@ == response(
                400,
                error_object("bad json: "@ + json_problem(body@)),
            ),
            Some(v) => r matches Ok(i) && i.action@ == member_or_empty(v, "action"@) && i.kw@
                == json_kwargs(member(v, "args"@)) && opt_view(i.request_id) == request_number(
                head@,
                member_text(v, "requestId"@),
            ),
        },
{
    match read_json(body) {
        Err(e) => {
            let message = join("bad json: ", e.as_str());
            Err(respond(400, err_json(message.as_str())))
        },
        Ok(v) => {
            let action = match v.get_text("action") {
                Some(s) => s.to_owned(),
                None => {
                    let none = String::new();
                    assert(none@ =~= Seq::empty());
                    none
                },
            };
            let kw = json_args_to_kwargs(v.get("args"));
            let request_id = request_id_from(head, v.get_text("requestId"));
            Ok(Invoke { action, kw, request_id })
        },
    }
}

/// The response to an action that there is not.
pub open spec fn unsupported(action: Seq<char>) -> ResponseModel {
    response(400, error_object("unsupported action: "@ + action))
}

/// The response to an action that was carried out, or could not be.
pub open spec fn invoke_answer(outcome: Performed) -> ResponseModel {
    match outcome {
        Performed::Done(result) => response(200, json_text(json_of(result@))),
        Performed::Unsupported(action) => unsupported(action@),
        Performed::Broken(error) => response(500, error_object("dispatch failed: "@ + error@)),
    }
}

/// Responds to an action that was carried out, or could not be, now or for an
/// earlier request of the same number.
pub fn execute_invoke(outcome: &Performed) -> (r: CachedResponse)
    ensures
        r@ == invoke_answer(*outcome),
{
    match outcome {
        Performed::Done(result) => respond(200, write_json(result)),
        Performed::Unsupported(action) => {
            let message = join("unsupported action: ", action.as_str());
            respond(400, err_json(message.as_str()))
        },
        Performed::Broken(error) => invoke_failed(error.as_str()),
    }
}

/// A retry that comes over HTTP within half an hour, or over the message
/// stream, gets what came of the first request of its number, whichever of the
/// two that came over, and carries nothing out: both are led to one slot, and
/// answer from it.
pub proof fn retries_cross_transports(
    c: CacheModel<Performed>,
    slot: u64,
    created: u64,
    first: Performed,
    head: Seq<char>,
    in_body: Option<Seq<char>>,
    call: CallRequest,
    ctx: Ctx,
    codes: ErrorCodes,
    later: u64,
)
    requires
        c.wf(),
        call.request_id@.len() > 0,
        c.leads(call.request_id@, slot, created, Some(first)),
        age(created, later) <= REQUEST_DEDUP_TTL,
        request_number(head, in_body) == Some(call.request_id@),
    ensures
        ({
            let (over_http, http_does) = c.once(request_number(head, in_body), later);
            let (over_stream, stream_does) = c.once(Some(call.request_id@), later);
            &&& http_does == Once::Follow(slot)
            &&& stream_does == Once::Follow(slot)
            &&& over_http.response_of(slot) == Some(first)
            &&& over_stream.response_of(slot) == Some(first)
            &&& first matches Performed::Done(v) ==> invoke_answer(first) == response(
                200,
                json_text(json_of(v@)),
            ) && ctx.performed(call, first, codes) == ctx.result(
                call,
                0,
                "ok"@,
                serialized(v@),
            )
        }),
{
    requests_run_once(c, call.request_id@, slot, created, Some(first), later);
}

/// Responds that an action broke off.
pub fn invoke_failed(error: &str) -> (r: CachedResponse)
    ensures
        r@ == response(500, error_object("dispatch failed: "@ + error@)),
{
    let message = join("dispatch failed: ", error);
    respond(500, err_json(message.as_str()))
}

/// Responds that waiting for another request of the same number failed.
pub fn wait_failed(error: &str) -> (r: CachedResponse)
    ensures
        r@ == response(500, error_object("requestId wait failed: "@ + error@)),
{
    let message = join("requestId wait failed: ", error);
    respond(500, err_json(message.as_str()))
}

// ───────────────────────── uploads ─────────────────────────

/// A value of the query that is not empty.
pub open spec fn given(target: Seq<char>, name: Seq<char>) -> Option<Seq<char>> {
    match query_text(target, name) {
        Some(v) => if v.len() > 0 {
            Some(v)
        } else {
            None
        },
        None => None,
    }
}

fn given_param(target: &str, name: &str) -> (r: Option<String>)
    ensures
        opt_view(r) == given(target@, name@),
{
    match decoded_param(target, name) {
        Some(v) => {
            if v.as_str().is_empty() {
                None
            } else {
                Some(v)
            }
        },
        None => None,
    }
}

/// A number of the query.
pub open spec fn query_number(target: Seq<char>, name: Seq<char>) -> Option<nat> {
    match query_text(target, name) {
        Some(v) => unsigned_numeral(v, u64::MAX as nat),
        None => None,
    }
}

fn number_param(target: &str, name: &str) -> (r: Option<u64>)
    ensures
        match r {
            Some(n) => query_number(target@, name@) == Some(n as nat),
            None => query_number(target@, name@) is None,
        },
{
    match decoded_param(target, name) {
        Some(v) => parse_unsigned(v.as_str(), u64::MAX),
        None => None,
    }
}

/// The response to a request without a path.
pub open spec fn missing_path() -> ResponseModel {
    response(400, "{\"error\":\"missing path\"}"@)
}

fn missing_path_response() -> (r: CachedResponse)
    ensures
        r@ == missing_path(),
{
    respond(400, "{\"error\":\"missing path\"}".to_owned())
}

/// What an upload is stored as.
#[derive(Debug, PartialEq, Eq)]
pub enum UploadPlan {
    /// An archive, to be unpacked into a directory.
    Tar { path: String },
    /// A whole file.
    File { path: String },
    /// A part of a file, which starts at an offset.
    Part { path: String, upload_id: String, offset: u64 },
}

/// Plans an upload, or responds why there is none.
pub fn handle_upload(target: &str) -> (r: Result<UploadPlan, CachedResponse>)
    ensures
        match given(target@, "path"@) {
            None => r matches Err(e) && e@ == missing_path(),
            Some(p) => {
                let kind = transfer_type(target@);
                if kind == "tar"@ {
                    r matches Ok(UploadPlan::Tar { path }) && path@ == p
                } else if kind == "file"@ || kind == ""@ {
                    match query_text(target@, "uploadId"@) {
                        None => r matches Ok(UploadPlan::File { path }) && path@ == p,
                        Some(id) => r matches Ok(UploadPlan::Part { path, upload_id, offset })
                            && path@ == p && upload_id@ == id && offset == (match query_number(
                            target@,
                            "offset"@,
                        ) {
                            Some(n) => n,
                            None => 0,
                        }),
                    }
                } else {
                    r matches Err(e) && e@ == response(
                        400,
                        error_object("unsupported upload type: "@ + kind),
                    )
                }
            },
        },
{
    let path = match given_param(target, "path") {
        Some(p) => p,
        None => {
            return Err(missing_path_response());
        },
    };
    let kind = upload_type(target);
    if same(kind.as_str(), "tar") {
        return Ok(UploadPlan::Tar { path });
    }
    if same(kind.as_str(), "file") || same(kind.as_str(), "") {
        return match decoded_param(target, "uploadId") {
            None => Ok(UploadPlan::File { path }),
            Some(upload_id) => {
                let offset: u64 = match number_param(target, "offset") {
                    Some(n) => n,
                    None => 0,
                };
                Ok(UploadPlan::Part { path, upload_id, offset })
            },
        };
    }
    let message = join("unsupported upload type: ", kind.as_str());
    Err(respond(400, err_json(message.as_str())))
}

/// The response to an upload that was stored whole.
pub open spec fn stored(path: Seq<char>, kind: Seq<char>, size: u64, written: usize) -> ResponseModel {
    response(
        200,
        json_object(
            seq![
                ("bytes_written"@, decimal(written as nat)),
                ("error"@, "null"@),
                ("name"@, json_string(name_of(path))),
                ("path"@, json_string(path)),
                ("size"@, decimal(size as nat)),
                ("type"@, json_string(kind)),
            ],
        ),
    )
}

fn stored_response(path: &str, kind: &str, size: u64, written: usize) -> (r: CachedResponse)
    ensures
        r@ == stored(path@, kind@, size, written),
{
    let name = file_name(path);
    let mut out: Vec<(&str, String)> = Vec::new();
    out.push(("bytes_written", to_decimal(written as u64)));
    out.push(("error", "null".to_owned()));
    out.push(("name", json_quote(name.as_str())));
    out.push(("path", json_quote(path)));
    out.push(("size", to_decimal(size)));
    out.push(("type", json_quote(kind)));
    assert(field_models(out@) =~= seq![
        ("bytes_written"@, decimal(written as nat)),
        ("error"@, "null"@),
        ("name"@, json_string(name_of(path@))),
        ("path"@, json_string(path@)),
        ("size"@, decimal(size as nat)),
        ("type"@, json_string(kind@)),
    ]);
    respond(200, write_object(&out))
}

/// Responds to a file that was stored. `size` is what the file system says of
/// it.
pub fn handle_file_upload(path: &str, size: Option<u64>, written: usize) -> (r: CachedResponse)
    ensures
        r@ == stored(
            path@,
            "file"@,
            match size {
                Some(n) => n,
                None => written as u64,
            },
            written,
        ),
{
    let n: u64 = match size {
        Some(n) => n,
        None => written as u64,
    };
    stored_response(path, "file", n, written)
}

/// Responds to an archive that was, or could not be, unpacked.
pub fn handle_tar_upload(path: &str, written: usize, unpacked: bool) -> (r: CachedResponse)
    ensures
        r@ == (if unpacked {
            stored(path@, "dir"@, written as u64, written)
        } else {
            response(400, error_object("tar extract failed"@))
        }),
{
    if !unpacked {
        return respond(400, err_json("tar extract failed"));
    }
    stored_response(path, "dir", written as u64, written)
}

/// The response to a part that does not start where the file ends so far.
pub open spec fn offset_mismatch(path: Seq<char>, upload_id: Seq<char>, current: u64) -> ResponseModel {
    response(
        409,
        json_object(
            seq![
                ("error"@, json_string("offset mismatch"@)),
                ("expected_offset"@, decimal(current as nat)),
                ("offset"@, decimal(current as nat)),
                ("path"@, json_string(path)),
                ("uploadId"@, json_string(upload_id)),
            ],
        ),
    )
}

/// Refuses a part that does not start where the file ends so far.
pub fn check_part_offset(path: &str, upload_id: &str, offset: u64, current: u64) -> (r: Option<
    CachedResponse,
>)
    ensures
        match r {
            None => offset == current,
            Some(e) => offset != current && e@ == offset_mismatch(path@, upload_id@, current),
        },
{
    if offset == current {
        return None;
    }
    let mut out: Vec<(&str, String)> = Vec::new();
    out.push(("error", json_quote("offset mismatch")));
    out.push(("expected_offset", to_decimal(current)));
    out.push(("offset", to_decimal(current)));
    out.push(("path", json_quote(path)));
    out.push(("uploadId", json_quote(upload_id)));
    assert(field_models(out@) =~= seq![
        ("error"@, json_string("offset mismatch"@)),
        ("expected_offset"@, decimal(current as nat)),
        ("offset"@, decimal(current as nat)),
        ("path"@, json_string(path@)),
        ("uploadId"@, json_string(upload_id@)),
    ]);
    Some(respond(409, write_object(&out)))
}

/// Responds to a part that was stored behind `current` bytes.
pub fn handle_file_upload_chunk(path: &str, upload_id: &str, current: u64, written: usize) -> (r:
    CachedResponse)
    requires
        current + written <= u64::MAX,
    ensures
        r@ == response(
            200,
            json_object(
                seq![
                    ("bytes_written"@, decimal(written as nat)),
                    ("committed"@, "false"@),
                    ("error"@, "null"@),
                    ("offset"@, decimal((current + written) as nat)),
                    ("path"@, json_string(path@)),
                    ("type"@, json_string("file"@)),
                    ("uploadId"@, json_string(upload_id@)),
                ],
            ),
        ),
{
    let mut out: Vec<(&str, String)> = Vec::new();
    out.push(("bytes_written", to_decimal(written as u64)));
    out.push(("committed", "false".to_owned()));
    out.push(("error", "null".to_owned()));
    out.push(("offset", to_decimal(current + written as u64)));
    out.push(("path", json_quote(path)));
    out.push(("type", json_quote("file")));
    out.push(("uploadId", json_quote(upload_id)));
    assert(field_models(out@) =~= seq![
        ("bytes_written"@, decimal(written as nat)),
        ("committed"@, "false"@),
        ("error"@, "null"@),
        ("offset"@, decimal((current + written) as nat)),
        ("path"@, json_string(path@)),
        ("type"@, json_string("file"@)),
        ("uploadId"@, json_string(upload_id@)),
    ]);
    respond(200, write_object(&out))
}

/// An upload in parts.
#[derive(Debug, PartialEq, Eq)]
pub struct PartialUpload {
    pub path: String,
    pub upload_id: String,
}

/// The upload in parts that a request is about, or the response where it names
/// none.
pub fn plan_partial(target: &str) -> (r: Result<PartialUpload, CachedResponse>)
    ensures
        match (given(target@, "path"@), given(target@, "uploadId"@)) {
            (None, _) => r matches Err(e) && e@ == missing_path(),
            (Some(_), None) => r matches Err(e) && e@ == response(
                400,
                "{\"error\":\"missing uploadId\"}"@,
            ),
            (Some(p), Some(id)) => r matches Ok(u) && u.path@ == p && u.upload_id@ == id,
        },
{
    let path = match given_param(target, "path") {
        Some(p) => p,
        None => {
            return Err(missing_path_response());
        },
    };
    match given_param(target, "uploadId") {
        Some(upload_id) => Ok(PartialUpload { path, upload_id }),
        None => Err(respond(400, "{\"error\":\"missing uploadId\"}".to_owned())),
    }
}

/// Responds how much of an upload in parts is there.
pub fn handle_upload_status(upload: &PartialUpload, offset: u64) -> (r: CachedResponse)
    ensures
        r@ == response(
            200,
            json_object(
                seq![
                    ("error"@, "null"@),
                    ("exists"@, bool_text(offset > 0)),
                    ("offset"@, decimal(offset as nat)),
                    ("path"@, json_string(upload.path@)),
                    ("uploadId"@, json_string(upload.upload_id@)),
                ],
            ),
        ),
{
    let mut out: Vec<(&str, String)> = Vec::new();
    out.push(("error", "null".to_owned()));
    out.push(("exists", json_bool(offset > 0)));
    out.push(("offset", to_decimal(offset)));
    out.push(("path", json_quote(upload.path.as_str())));
    out.push(("uploadId", json_quote(upload.upload_id.as_str())));
    assert(field_models(out@) =~= seq![
        ("error"@, "null"@),
        ("exists"@, bool_text(offset > 0)),
        ("offset"@, decimal(offset as nat)),
        ("path"@, json_string(upload.path@)),
        ("uploadId"@, json_string(upload.upload_id@)),
    ]);
    respond(200, write_object(&out))
}

/// The response to an upload in parts that is not as long as announced.
pub open spec fn size_mismatch(path: Seq<char>, upload_id: Seq<char>, size: u64, total: u64) -> ResponseModel {
    response(
        409,
        json_object(
            seq![
                ("error"@, json_string("size mismatch"@)),
                ("expected_size"@, decimal(total as nat)),
                ("offset"@, decimal(size as nat)),
                ("path"@, json_string(path)),
                ("uploadId"@, json_string(upload_id)),
            ],
        ),
    )
}

/// Refuses to complete an upload in parts of which there is nothing, or which
/// is not as long as announced. `size` is what is there.
pub fn check_commit(target: &str, upload: &PartialUpload, size: Option<u64>) -> (r: Option<
    CachedResponse,
>)
    ensures
        match size {
            None => r matches Some(e) && e@ == response(
                404,
                error_object("upload part not found"@),
            ),
            Some(n) => match query_number(target@, "totalSize"@) {
                Some(total) => if total != n {
                    r matches Some(e) && e@ == size_mismatch(
                        upload.path@,
                        upload.upload_id@,
                        n,
                        total as u64,
                    )
                } else {
                    r is None
                },
                None => r is None,
            },
        },
{
    let n: u64 = match size {
        Some(n) => n,
        None => {
            return Some(respond(404, err_json("upload part not found")));
        },
    };
    if let Some(total) = number_param(target, "totalSize") {
        if total != n {
            let mut out: Vec<(&str, String)> = Vec::new();
            out.push(("error", json_quote("size mismatch")));
            out.push(("expected_size", to_decimal(total)));
            out.push(("offset", to_decimal(n)));
            out.push(("path", json_quote(upload.path.as_str())));
            out.push(("uploadId", json_quote(upload.upload_id.as_str())));
            assert(field_models(out@) =~= seq![
                ("error"@, json_string("size mismatch"@)),
                ("expected_size"@, decimal(total as nat)),
                ("offset"@, decimal(n as nat)),
                ("path"@, json_string(upload.path@)),
                ("uploadId"@, json_string(upload.upload_id@)),
            ]);
            return Some(respond(409, write_object(&out)));
        }
    }
    None
}

/// Responds to an upload in parts that was completed.
pub fn handle_upload_commit(upload: &PartialUpload, size: u64) -> (r: CachedResponse)
    ensures
        r@ == response(
            200,
            json_object(
                seq![
                    ("bytes_written"@, decimal(size as nat)),
                    ("committed"@, "true"@),
                    ("error"@, "null"@),
                    ("name"@, json_string(name_of(upload.path@))),
                    ("path"@, json_string(upload.path@)),
                    ("size"@, decimal(size as nat)),
                    ("type"@, json_string("file"@)),
                    ("uploadId"@, json_string(upload.upload_id@)),
                ],
            ),
        ),
{
    let name = file_name(upload.path.as_str());
    let mut out: Vec<(&str, String)> = Vec::new();
    out.push(("bytes_written", to_decimal(size)));
    out.push(("committed", "true".to_owned()));
    out.push(("error", "null".to_owned()));
    out.push(("name", json_quote(name.as_str())));
    out.push(("path", json_quote(upload.path.as_str())));
    out.push(("size", to_decimal(size)));
    out.push(("type", json_quote("file")));
    out.push(("uploadId", json_quote(upload.upload_id.as_str())));
    assert(field_models(out@) =~= seq![
        ("bytes_written"@, decimal(size as nat)),
        ("committed"@, "true"@),
        ("error"@, "null"@),
        ("name"@, json_string(name_of(upload.path@))),
        ("path"@, json_string(upload.path@)),
        ("size"@, decimal(size as nat)),
        ("type"@, json_string("file"@)),
        ("uploadId"@, json_string(upload.upload_id@)),
    ]);
    respond(200, write_object(&out))
}

// ───────────────────────── downloads ─────────────────────────

/// What is downloaded.
#[derive(Debug, PartialEq, Eq)]
pub enum DownloadPlan {
    /// A directory, as an archive.
    Tar { path: String },
    File { path: String },
}

/// Plans a download, or responds why there is none.
pub fn handle_download(target: &str) -> (r: Result<DownloadPlan, CachedResponse>)
    ensures
        match given(target@, "path"@) {
            None => r matches Err(e) && e@ == missing_path(),
            Some(p) => {
                let kind = transfer_type(target@);
                if kind == "tar"@ {
                    r matches Ok(DownloadPlan::Tar { path }) && path@ == p
                } else if kind == "file"@ || kind == ""@ {
                    r matches Ok(DownloadPlan::File { path }) && path@ == p
                } else {
                    r matches Err(e) && e@ == response(
                        400,
                        error_object("unsupported download type: "@ + kind),
                    )
                }
            },
        },
{
    let path = match given_param(target, "path") {
        Some(p) => p,
        None => {
            return Err(missing_path_response());
        },
    };
    let kind = upload_type(target);
    if same(kind.as_str(), "tar") {
        return Ok(DownloadPlan::Tar { path });
    }
    if same(kind.as_str(), "file") || same(kind.as_str(), "") {
        return Ok(DownloadPlan::File { path });
    }
    let message = join("unsupported download type: ", kind.as_str());
    Err(respond(400, err_json(message.as_str())))
}

/// Which bytes of a file are sent.
#[derive(Debug, Clone, Copy, PartialEq, Eq)]
pub struct FileSlice {
    pub status: u16,
    pub start: u64,
    pub length: u64,
    pub range: Option<(u64, u64, u64)>,
}

/// The bytes of a file of `total` bytes that a head asks for: a range, or all.
pub open spec fn slice_of(head: Seq<char>, total: u64) -> FileSlice {
    match head_range(head, total) {
        Some((start, end)) => FileSlice {
            status: 206,
            start,
            length: (end - start + 1) as u64,
            range: Some((start, end, total)),
        },
        None => FileSlice { status: 200, start: 0, length: total, range: None },
    }
}

/// Finds the bytes of a file that a head asks for.
pub fn handle_file_download(head: &str, total: u64) -> (r: FileSlice)
    ensures
        r == slice_of(head@, total),
        r.start + r.length <= total,
        head_range(head@, total) is None ==> r.status == 200 && r.start == 0 && r.length == total
            && r.range is None,
        head_range(head@, total) matches Some((start, end)) ==> r.status == 206 && r.start == start
            && r.length == end - start + 1 && r.range == Some((start, end, total)),
{
    proof {
        super::request::ranges_lie_within(head@, total);
    }
    match parse_range_header(head, total) {
        Some((start, end)) => FileSlice {
            status: 206,
            start,
            length: end - start + 1,
            range: Some((start, end, total)),
        },
        None => FileSlice { status: 200, start: 0, length: total, range: None },
    }
}

/// Writes the head of the response with bytes of a file.
pub fn file_head(slice: &FileSlice) -> (r: String)
    ensures
        r@ == binary_head(
            slice.status,
            "application/octet-stream"@,
            Some(slice.length),
            slice.range,
        ),
{
    write_binary_headers_with_range(
        slice.status,
        "application/octet-stream",
        Some(slice.length),
        slice.range,
    )
}

/// Writes the head of the response with an archive.
pub fn tar_head() -> (r: String)
    ensures
        r@ == binary_head(200, "application/x-tar"@, None, None),
{
    write_binary_headers_with_range(200, "application/x-tar", None, None)
}

/// Responds that there is no such file or directory.
pub fn not_found(directory: bool) -> (r: CachedResponse)
    ensures
        r@ == response(
            404,
            error_object(
                if directory {
                    "directory not found"@
                } else {
                    "file not found"@
                },
            ),
        ),
{
    if directory {
        respond(404, err_json("directory not found"))
    } else {
        respond(404, err_json("file not found"))
    }
}

} // verus!
