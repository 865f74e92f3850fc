use rrt_daemon::http::body::{
    ChunkError, ChunkStep, ChunkedReader, ContentCopy, CopyStats, RequestBody,
};
use rrt_daemon::http::request::{
    has_token, header_has_token, hex_val, lines, parse_content_length, parse_header,
    parse_range_header, parse_request_line, percent_decode, query_param, request_id_from,
    request_path, upload_part_path, upload_type,
};
use rrt_daemon::http::server::{
    check_commit, check_part_offset, execute_invoke, file_head, handle_conn, handle_download,
    handle_file_download, handle_file_upload, handle_file_upload_chunk, handle_tar_upload,
    handle_upload, handle_upload_commit, handle_upload_status, head_too_large, invoke_failed,
    not_found, plan_invoke, plan_partial, read_head, settled_response, tar_head,
    wait_failed, write_resp, CachedResponse, DownloadPlan, HeadProgress, PartialUpload, Route,
    UploadPlan,
};
use rrt_daemon::dispatch::Performed;
use rrt_daemon::value::Datum;

// ───────────────────────── requests ─────────────────────────

#[test]
fn parses_binary_stream_request_targets() {
    let raw = "/upload?path=%2Ftmp%2Fdir%2Fblob.bin&ignored=1";
    assert_eq!(request_path(raw), "/upload");
    assert_eq!(
        query_param(raw, "path").and_then(|p| percent_decode(&p)),
        Some("/tmp/dir/blob.bin".to_string())
    );
    assert_eq!(upload_type(raw), "file");

    let raw = "/download?path=%2Ftmp%2Fdir&type=tar";
    assert_eq!(request_path(raw), "/download");
    assert_eq!(upload_type(raw), "tar");
}

#[test]
fn upload_part_path_is_stable_and_sanitized() {
    let got = upload_part_path("/tmp/blob.bin", "abc/123");
    assert_eq!(got, "/tmp/.blob.bin.yr-upload.abc-123.part");
}

#[test]
fn upload_parts_of_a_bare_name_stay_beside_it() {
    assert_eq!(upload_part_path("blob", "1"), ".blob.yr-upload.1.part");
}

#[test]
fn parses_http_range_header() {
    let head = "GET /download HTTP/1.1\r\nRange: bytes=5-9\r\n\r\n";
    assert_eq!(parse_range_header(head, 20), Some((5, 9)));
    let head = "GET /download HTTP/1.1\r\nRange: bytes=5-\r\n\r\n";
    assert_eq!(parse_range_header(head, 20), Some((5, 19)));
}

#[test]
fn ranges_outside_the_file_are_ignored() {
    let ask = |value: &str, total| {
        parse_range_header(&format!("GET / HTTP/1.1\r\nRange: {value}\r\n\r\n"), total)
    };
    assert_eq!(ask("bytes=20-", 20), None);
    assert_eq!(ask("bytes=9-5", 20), None);
    assert_eq!(ask("bytes=5-50", 20), Some((5, 19)));
    assert_eq!(ask("lines=1-2", 20), None);
    assert_eq!(ask("bytes=0-0", 0), None);
}

#[test]
fn request_lines_are_two_words() {
    assert_eq!(
        parse_request_line("POST  /invoke HTTP/1.1\r\nA: b\r\n"),
        ("POST".to_string(), "/invoke".to_string())
    );
    assert_eq!(parse_request_line(""), (String::new(), String::new()));
}

#[test]
fn headers_are_found_in_any_case() {
    let head = "GET / HTTP/1.1\r\nContent-length: 12\r\nX-Auth:  tok \r\nTransfer-Encoding: gzip, Chunked\r\n\r\n";
    assert_eq!(parse_header(head, "x-auth"), Some("tok".to_string()));
    assert_eq!(parse_header(head, "x-none"), None);
    assert_eq!(parse_content_length(head), 12);
    assert!(header_has_token(head, "transfer-encoding", "chunked"));
    assert!(!header_has_token(head, "transfer-encoding", "deflate"));
    assert!(has_token("a, B ,c", "b"));
}

#[test]
fn percent_signs_stand_before_two_digits() {
    assert_eq!(percent_decode("a%20b+c"), Some("a b c".to_string()));
    assert_eq!(percent_decode("%4"), Some("%4".to_string()));
    assert_eq!(percent_decode("%zz"), None);
    assert_eq!(percent_decode("%ff"), None);
    assert_eq!(hex_val(b'F'), Some(15));
    assert_eq!(hex_val(b'g'), None);
}

#[test]
fn lines_end_with_line_feeds() {
    assert_eq!(lines("a\r\nb\nc"), ["a", "b", "c"]);
    assert_eq!(lines("a\r\n"), ["a"]);
    assert!(lines("").is_empty());
}

#[test]
fn request_numbers_come_from_the_head_or_the_body() {
    let both = "POST /invoke HTTP/1.1\r\nX-Request-Id: second\r\nX-YR-Request-Id: first\r\n\r\n";
    assert_eq!(request_id_from(both, Some("third")), Some("first".to_string()));
    let one = "POST /invoke HTTP/1.1\r\nX-Request-Id: second\r\n\r\n";
    assert_eq!(request_id_from(one, Some("third")), Some("second".to_string()));
    let none = "POST /invoke HTTP/1.1\r\n\r\n";
    assert_eq!(request_id_from(none, Some(" third ")), Some("third".to_string()));
    assert_eq!(request_id_from(none, None), None);
    assert_eq!(request_id_from(none, Some(" ")), None);
    assert_eq!(request_id_from(none, Some(&"x".repeat(129))), None);
}

// ───────────────────────── bodies ─────────────────────────

fn chunks(bytes: &[u8]) -> Result<Vec<u8>, String> {
    let mut reader = ChunkedReader::new(bytes.to_vec());
    let mut out = Vec::new();
    loop {
        match reader.step() {
            Ok(ChunkStep::Data(data)) => out.extend(data),
            Ok(ChunkStep::Advanced) => {}
            Ok(ChunkStep::Done) => return Ok(out),
            Ok(ChunkStep::More) => return Err(reader.eof_error()),
            Err(ChunkError::Size(token)) => return Err(format!("size {token}")),
            Err(ChunkError::Terminator) => return Err("terminator".to_string()),
        }
    }
}

#[test]
fn bodies_in_chunks_are_put_together() {
    assert_eq!(
        chunks(b"5;name=x\r\nhello\r\n1\r\n!\r\n0\r\nTrailer: x\r\n\r\n"),
        Ok(b"hello!".to_vec())
    );
}

#[test]
fn broken_chunks_are_refused() {
    assert_eq!(chunks(b" x ;name=y\r\n"), Err("size x ".to_string()));
    assert_eq!(chunks(b"1\r\nab\r\n"), Err("terminator".to_string()));
    assert_eq!(
        chunks(b"5\r\nhel"),
        Err("unexpected EOF while reading chunk body".to_string())
    );
    assert_eq!(
        chunks(b"5"),
        Err("unexpected EOF while reading chunk line".to_string())
    );
}

#[test]
fn chunks_may_come_byte_by_byte() {
    let mut reader = ChunkedReader::new(Vec::new());
    let mut out = Vec::new();
    for b in b"3\r\nabc\r\n0\r\n\r\n" {
        loop {
            match reader.step().unwrap() {
                ChunkStep::Data(data) => out.extend(data),
                ChunkStep::Advanced => {}
                ChunkStep::More => break,
                ChunkStep::Done => panic!("too early"),
            }
        }
        reader.read_more(&[*b]);
    }
    assert_eq!(out, b"abc");
}

#[test]
fn bodies_of_a_length_end_there() {
    let mut copy = ContentCopy { remaining: 5 };
    assert_eq!(copy.take(3), 3);
    assert_eq!(copy.finish(), Err("short body".to_string()));
    assert_eq!(copy.take(9), 2);
    assert_eq!(copy.finish(), Ok(()));
    assert_eq!(RequestBody::Chunked.label(), "chunked");
    assert_eq!(RequestBody::ContentLength(4).expected_len(), Some(4));
}

#[test]
fn copies_are_counted() {
    let mut stats = CopyStats::default();
    stats.record_initial_write(3, 1);
    stats.record_read(2, 4, 9);
    stats.record_write(2, 1);
    assert_eq!(stats.bytes, 5);
    assert_eq!((stats.reads, stats.writes), (1, 2));
    assert_eq!(stats.first_byte_ms, Some(0));
}

// ───────────────────────── routing ─────────────────────────

#[test]
fn heads_end_with_a_blank_line() {
    assert_eq!(read_head(b"GET / HTTP/1.1\r\n\r\nbody"), HeadProgress::Complete(18));
    assert_eq!(read_head(b"GET / HTTP/1.1\r\n"), HeadProgress::More);
    assert_eq!(read_head(&vec![b'x'; (1 << 20) + 1]), HeadProgress::TooLarge);
    assert_eq!(head_too_large().status, 431);
}

fn route(method: &str, target: &str, auth: Option<&str>) -> Route {
    let auth = match auth {
        Some(token) => format!("X-Auth: {token}\r\n"),
        None => String::new(),
    };
    let head = format!("{method} {target} HTTP/1.1\r\n{auth}\r\n");
    handle_conn(&head, Some("tok")).route
}

#[test]
fn everything_but_the_health_check_needs_the_token() {
    assert_eq!(route("GET", "/healthz", None), Route::Health);
    assert_eq!(route("POST", "/invoke", None), Route::Unauthorized);
    assert_eq!(route("POST", "/invoke", Some("other")), Route::Unauthorized);
    assert_eq!(route("POST", "/invoke", Some("tok")), Route::Invoke);
}

#[test]
fn routes_are_a_method_and_a_path() {
    let ok = Some("tok");
    assert_eq!(route("GET", "/upload/status?path=x", ok), Route::UploadStatus);
    assert_eq!(route("POST", "/upload/commit", ok), Route::UploadCommit);
    assert_eq!(route("POST", "/upload?path=x", ok), Route::Upload);
    assert_eq!(route("GET", "/download?path=x", ok), Route::Download);
    assert_eq!(route("GET", "/invoke", ok), Route::NotFound);
    assert_eq!(route("GET", "/", ok), Route::NotFound);
}

#[test]
fn requests_carry_body_mode_and_trace() {
    let request = handle_conn(
        "POST /upload?path=x HTTP/1.1\r\nContent-Length: 7\r\nX-Trace-Id: t\r\n\r\n",
        None,
    );
    assert_eq!(request.body, RequestBody::ContentLength(7));
    assert_eq!(request.trace_id, "t");
    assert_eq!(request.target, "/upload?path=x");
    let chunked = handle_conn("POST /upload HTTP/1.1\r\nTransfer-Encoding: chunked\r\n\r\n", None);
    assert_eq!(chunked.body, RequestBody::Chunked);
}

#[test]
fn some_routes_are_answered_at_once() {
    assert_eq!(
        settled_response(Route::Health),
        Some(CachedResponse {
            status: 200,
            body: "{\"status\":\"ok\"}".to_string()
        })
    );
    assert_eq!(settled_response(Route::Unauthorized).unwrap().status, 401);
    assert_eq!(settled_response(Route::NotFound).unwrap().status, 404);
    assert_eq!(settled_response(Route::Invoke), None);
}

#[test]
fn responses_are_written_with_their_length() {
    assert_eq!(
        write_resp(409, "{\"a\":\"é\"}"),
        "HTTP/1.1 409 Conflict\r\nContent-Type: application/json\r\nContent-Length: 10\r\nConnection: close\r\n\r\n{\"a\":\"é\"}"
    );
    assert!(write_resp(418, "").starts_with("HTTP/1.1 418 Error\r\n"));
}

// ───────────────────────── actions ─────────────────────────

#[test]
fn invocations_are_read_from_json() {
    let body = br#"{"action":"process.exec","args":{"cmd":"ls","n":2},"requestId":"r1"}"#;
    let invoke = plan_invoke("POST /invoke HTTP/1.1\r\n\r\n", body).map_err(|e| e.body).unwrap_or_else(|e| panic!("{e}"));
    assert_eq!(invoke.action, "process.exec");
    assert_eq!(invoke.kw.get("cmd").and_then(|v| v.as_str()), Some("ls"));
    assert_eq!(invoke.kw.get("n").and_then(|v| v.as_i64()), Some(2));
    assert_eq!(invoke.request_id, Some("r1".to_string()));
}

#[test]
fn invocations_that_are_no_json_are_refused() {
    let refused = match plan_invoke("POST /invoke HTTP/1.1\r\n\r\n", b"{") {
        Ok(_) => panic!("accepted"),
        Err(e) => e,
    };
    assert_eq!(refused.status, 400);
    assert!(refused.body.starts_with("{\"error\":\"bad json: "), "{}", refused.body);
}

#[test]
fn invocations_are_answered_in_json() {
    assert_eq!(
        execute_invoke(&Performed::Unsupported("none".to_string())),
        CachedResponse {
            status: 400,
            body: "{\"error\":\"unsupported action: none\"}".to_string()
        }
    );
    assert_eq!(execute_invoke(&Performed::Broken("x".to_string())), invoke_failed("x"));
    let result = Datum::Dict(vec![
        (Datum::text("b"), Datum::integer(-1)),
        (Datum::text("a"), Datum::Array(vec![Datum::Nil, Datum::Boolean(true)])),
    ]);
    let response = execute_invoke(&Performed::Done(result));
    assert_eq!(response.status, 200);
    assert_eq!(response.body, "{\"a\":[null,true],\"b\":-1}");
    assert_eq!(invoke_failed("x").body, "{\"error\":\"dispatch failed: x\"}");
    assert_eq!(wait_failed("x").body, "{\"error\":\"requestId wait failed: x\"}");
    assert_eq!(wait_failed("x").duplicate(), wait_failed("x"));
}

// ───────────────────────── uploads ─────────────────────────

#[test]
fn uploads_are_files_parts_or_archives() {
    assert_eq!(
        handle_upload("/upload?path=%2Fa"),
        Ok(UploadPlan::File {
            path: "/a".to_string()
        })
    );
    assert_eq!(
        handle_upload("/upload?path=%2Fa&uploadId=u&offset=5"),
        Ok(UploadPlan::Part {
            path: "/a".to_string(),
            upload_id: "u".to_string(),
            offset: 5
        })
    );
    assert_eq!(
        handle_upload("/upload?path=%2Fa&type=tar&uploadId=u"),
        Ok(UploadPlan::Tar {
            path: "/a".to_string()
        })
    );
    assert_eq!(
        handle_upload("/upload?path=%2Fa&type=zip").unwrap_err().body,
        "{\"error\":\"unsupported upload type: zip\"}"
    );
    assert_eq!(
        handle_upload("/upload?path=").unwrap_err().body,
        "{\"error\":\"missing path\"}"
    );
}

#[test]
fn stored_files_are_described() {
    assert_eq!(
        handle_file_upload("/tmp/a", None, 3).body,
        "{\"bytes_written\":3,\"error\":null,\"name\":\"a\",\"path\":\"/tmp/a\",\"size\":3,\"type\":\"file\"}"
    );
    assert_eq!(
        handle_tar_upload("/tmp/d", 9, true).body,
        "{\"bytes_written\":9,\"error\":null,\"name\":\"d\",\"path\":\"/tmp/d\",\"size\":9,\"type\":\"dir\"}"
    );
    assert_eq!(
        handle_tar_upload("/tmp/d", 9, false),
        CachedResponse {
            status: 400,
            body: "{\"error\":\"tar extract failed\"}".to_string()
        }
    );
}

#[test]
fn parts_follow_one_another() {
    assert_eq!(check_part_offset("/a", "u", 4, 4), None);
    let refused = check_part_offset("/a", "u", 3, 4).unwrap();
    assert_eq!(refused.status, 409);
    assert_eq!(
        refused.body,
        "{\"error\":\"offset mismatch\",\"expected_offset\":4,\"offset\":4,\"path\":\"/a\",\"uploadId\":\"u\"}"
    );
    assert_eq!(
        handle_file_upload_chunk("/a", "u", 4, 2).body,
        "{\"bytes_written\":2,\"committed\":false,\"error\":null,\"offset\":6,\"path\":\"/a\",\"type\":\"file\",\"uploadId\":\"u\"}"
    );
}

#[test]
fn uploads_in_parts_are_completed() {
    let target = "/upload/commit?path=%2Fa&uploadId=u&totalSize=6";
    let upload = plan_partial(target).unwrap();
    assert_eq!(
        upload,
        PartialUpload {
            path: "/a".to_string(),
            upload_id: "u".to_string()
        }
    );
    assert_eq!(
        handle_upload_status(&upload, 6).body,
        "{\"error\":null,\"exists\":true,\"offset\":6,\"path\":\"/a\",\"uploadId\":\"u\"}"
    );
    assert_eq!(check_commit(target, &upload, Some(6)), None);
    assert_eq!(check_commit(target, &upload, None).unwrap().status, 404);
    assert_eq!(
        check_commit(target, &upload, Some(5)).unwrap().body,
        "{\"error\":\"size mismatch\",\"expected_size\":6,\"offset\":5,\"path\":\"/a\",\"uploadId\":\"u\"}"
    );
    assert_eq!(
        handle_upload_commit(&upload, 6).body,
        "{\"bytes_written\":6,\"committed\":true,\"error\":null,\"name\":\"a\",\"path\":\"/a\",\"size\":6,\"type\":\"file\",\"uploadId\":\"u\"}"
    );
    assert_eq!(
        plan_partial("/upload/status?path=%2Fa").unwrap_err().body,
        "{\"error\":\"missing uploadId\"}"
    );
}

// ───────────────────────── downloads ─────────────────────────

#[test]
fn downloads_are_files_or_archives() {
    assert_eq!(
        handle_download("/download?path=%2Fa"),
        Ok(DownloadPlan::File {
            path: "/a".to_string()
        })
    );
    assert_eq!(
        handle_download("/download?path=%2Fa&type=tar"),
        Ok(DownloadPlan::Tar {
            path: "/a".to_string()
        })
    );
    assert_eq!(
        handle_download("/download?path=%2Fa&type=zip").unwrap_err().status,
        400
    );
    assert_eq!(not_found(false).body, "{\"error\":\"file not found\"}");
    assert_eq!(not_found(true).body, "{\"error\":\"directory not found\"}");
}

#[test]
fn downloads_send_the_range_that_was_asked_for() {
    let slice = handle_file_download("GET / HTTP/1.1\r\nRange: bytes=2-4\r\n\r\n", 10);
    assert_eq!((slice.status, slice.start, slice.length), (206, 2, 3));
    assert_eq!(
        file_head(&slice),
        "HTTP/1.1 206 Partial Content\r\nContent-Type: application/octet-stream\r\nContent-Length: 3\r\nContent-Range: bytes 2-4/10\r\nConnection: close\r\n\r\n"
    );
    let whole = handle_file_download("GET / HTTP/1.1\r\n\r\n", 0);
    assert_eq!((whole.status, whole.start, whole.length), (200, 0, 0));
    assert_eq!(
        tar_head(),
        "HTTP/1.1 200 OK\r\nContent-Type: application/x-tar\r\nConnection: close\r\n\r\n"
    );
}
