//! Which headers pass the tunnel, and what a response says of its length.
use super::frame::{pairs, HeaderList, Pairs};
use super::registry::{filter_empty, filter_extends};
use crate::text::{
    decimal, lower, parse_unsigned, same, split, split_all, to_decimal, to_lower, trim, trimmed,
    unsigned_numeral, views,
};
use vstd::prelude::*;

verus! {

/// The names that never pass a connection, in lower case.
pub open spec fn hop_by_hop(name: Seq<char>) -> bool {
    ||| name == "connection"@
    ||| name == "keep-alive"@
    ||| name == "proxy-authenticate"@
    ||| name == "proxy-authorization"@
    ||| name == "proxy-connection"@
    ||| name == "te"@
    ||| name == "trailer"@
    ||| name == "transfer-encoding"@
    ||| name == "upgrade"@
}

/// Whether a header never passes a connection.
pub fn is_fixed_hop_by_hop(name: &str) -> (r: bool)
    ensures
        r == hop_by_hop(lower(name@)),
{
    let n = to_lower(name);
    let s = n.as_str();
    same(s, "connection") || same(s, "keep-alive") || same(s, "proxy-authenticate") || same(
        s,
        "proxy-authorization",
    ) || same(s, "proxy-connection") || same(s, "te") || same(s, "trailer") || same(
        s,
        "transfer-encoding",
    ) || same(s, "upgrade")
}

/// A token of a `Connection` value: trimmed and in lower case.
pub open spec fn token_text(part: Seq<char>) -> Seq<char> {
    lower(trimmed(part))
}

/// `token` is one of the non-empty tokens of a value.
pub open spec fn token_in(value: Seq<char>, token: Seq<char>) -> bool {
    token.len() > 0 && exists|k: int|
        0 <= k < split_all(value, ',').len() && token_text(#[trigger] split_all(value, ',')[k])
            == token
}

/// `token` is named by one of the `Connection` headers.
pub open spec fn named_by_connection(headers: Pairs, token: Seq<char>) -> bool {
    exists|i: int|
        0 <= i < headers.len() && lower((#[trigger] headers[i]).0) == "connection"@ && token_in(
            headers[i].1,
            token,
        )
}

/// The tokens of one value.
fn tokens_of(value: &str, out: &mut Vec<String>)
    ensures
        forall|t: Seq<char>| #[trigger]
            views(final(out)@).contains(t) <==> views(old(out)@).contains(t) || token_in(value@, t),
{
    let parts = split(value, ',');
    let ghost all = split_all(value@, ',');
    let ghost start = views(out@);
    for i in 0..parts.len()
        invariant
            views(parts@) == all,
            all == split_all(value@, ','),
            start == views(old(out)@),
            forall|t: Seq<char>| #[trigger]
                views(out@).contains(t) <==> start.contains(t) || (t.len() > 0 && exists|k: int|
                    0 <= k < i && token_text(#[trigger] all[k]) == t),
    {
        let ghost before = out@;
        let part = trim(parts[i].as_str());
        let token = to_lower(part.as_str());
        assert(views(parts@)[i as int] == parts@[i as int]@);
        assert(token@ == token_text(all[i as int]));
        proof {
            if token@.len() == 0 {
                assert(token@ =~= Seq::empty());
            }
        }
        if !token.as_str().is_empty() {
            proof {
                crate::text::views_push(before, token);
                assert forall|t: Seq<char>| #[trigger]
                    views(before.push(token)).contains(t) <==> start.contains(t) || (t.len() > 0
                        && exists|k: int| 0 <= k < i + 1 && token_text(#[trigger] all[k]) == t) by {
                    push_contains(views(before), token@, t);
                    if token@ == t {
                        assert(token_text(all[i as int]) == t);
                    }
                    if exists|k: int| 0 <= k < i + 1 && token_text(#[trigger] all[k]) == t {
                        let k = choose|k: int| 0 <= k < i + 1 && token_text(#[trigger] all[k]) == t;
                        if k < i {
                            assert(0 <= k < i && token_text(all[k]) == t);
                        }
                    }
                }
            }
            out.push(token);
        }
    }
    assert(views(parts@).len() == parts@.len());
}

proof fn push_contains(s: Seq<Seq<char>>, x: Seq<char>, t: Seq<char>)
    ensures
        s.push(x).contains(t) <==> s.contains(t) || x == t,
{
    if s.contains(t) {
        let k = choose|k: int| 0 <= k < s.len() && s[k] == t;
        assert(s.push(x)[k] == t);
    }
    if x == t {
        assert(s.push(x)[s.len() as int] == t);
    }
    if s.push(x).contains(t) && x != t {
        let k = choose|k: int| 0 <= k < s.push(x).len() && s.push(x)[k] == t;
        assert(s[k] == t);
    }
}

/// The names that the `Connection` headers list.
pub fn connection_tokens(headers: &HeaderList) -> (r: Vec<String>)
    ensures
        forall|t: Seq<char>| #[trigger]
            views(r@).contains(t) <==> named_by_connection(pairs(headers@), t),
{
    let ghost h = pairs(headers@);
    let mut out: Vec<String> = Vec::new();
    for i in 0..headers.len()
        invariant
            h == pairs(headers@),
            forall|t: Seq<char>| #[trigger]
                views(out@).contains(t) <==> exists|k: int|
                    0 <= k < i && lower((#[trigger] h[k]).0) == "connection"@ && token_in(
                        h[k].1,
                        t,
                    ),
    {
        assert(h[i as int] == (headers@[i as int].0@, headers@[i as int].1@));
        let ghost before = views(out@);
        let name = to_lower(headers[i].0.as_str());
        if same(name.as_str(), "connection") {
            tokens_of(headers[i].1.as_str(), &mut out);
        }
        proof {
            assert forall|t: Seq<char>| #[trigger]
                views(out@).contains(t) <==> exists|k: int|
                    0 <= k < i + 1 && lower((#[trigger] h[k]).0) == "connection"@ && token_in(
                        h[k].1,
                        t,
                    ) by {
                assert(views(out@).contains(t) <==> before.contains(t) || (lower(h[i as int].0)
                    == "connection"@ && token_in(h[i as int].1, t)));
                if before.contains(t) {
                    let k = choose|k: int|
                        0 <= k < i && lower((#[trigger] h[k]).0) == "connection"@ && token_in(
                            h[k].1,
                            t,
                        );
                    assert(0 <= k < i + 1 && lower(h[k].0) == "connection"@);
                }
                if exists|k: int|
                    0 <= k < i + 1 && lower((#[trigger] h[k]).0) == "connection"@ && token_in(
                        h[k].1,
                        t,
                    ) {
                    let k = choose|k: int|
                        0 <= k < i + 1 && lower((#[trigger] h[k]).0) == "connection"@ && token_in(
                            h[k].1,
                            t,
                        );
                    if k < i {
                        assert(0 <= k < i && lower(h[k].0) == "connection"@);
                        assert(before.contains(t));
                    }
                }
            }
        }
    }
    out
}

fn contains_text(items: &Vec<String>, t: &str) -> (r: bool)
    ensures
        r == views(items@).contains(t@),
{
    for i in 0..items.len()
        invariant
            forall|j: int| 0 <= j < i ==> views(items@)[j] != t@,
    {
        if same(items[i].as_str(), t) {
            assert(views(items@)[i as int] == t@);
            return true;
        }
    }
    false
}

/// Whether a header is about the connection, not about the message.
pub open spec fn about_connection(headers: Pairs, name: Seq<char>) -> bool {
    hop_by_hop(lower(name)) || named_by_connection(headers, lower(name))
}

/// Whether a request header goes to the upstream.
pub open spec fn request_keeps(headers: Pairs) -> spec_fn((Seq<char>, Seq<char>)) -> bool {
    |h: (Seq<char>, Seq<char>)|
        !about_connection(headers, h.0) && lower(h.0) != "host"@ && lower(h.0) != "content-length"@
            && lower(h.0) != "expect"@
}

/// Whether a response header goes downstream as it is.
pub open spec fn response_keeps(headers: Pairs) -> spec_fn((Seq<char>, Seq<char>)) -> bool {
    |h: (Seq<char>, Seq<char>)|
        !about_connection(headers, h.0) && lower(h.0) != "content-length"@
}

fn keep_headers(headers: HeaderList, request: bool) -> (r: HeaderList)
    ensures
        pairs(r@) == pairs(headers@).filter(
            if request {
                request_keeps(pairs(headers@))
            } else {
                response_keeps(pairs(headers@))
            },
        ),
{
    let ghost h = pairs(headers@);
    let ghost pred = if request {
        request_keeps(h)
    } else {
        response_keeps(h)
    };
    let dynamic = connection_tokens(&headers);
    let mut out: HeaderList = Vec::new();
    let ghost source = headers@;
    proof {
        filter_empty(pred);
        assert(h.take(0) =~= Seq::empty());
        assert(pairs(out@) =~= Seq::empty());
    }
    for header in it: headers
        invariant
            it.seq() == source,
            h == pairs(source),
            pred == (if request {
                request_keeps(h)
            } else {
                response_keeps(h)
            }),
            forall|t: Seq<char>| #[trigger]
                views(dynamic@).contains(t) <==> named_by_connection(h, t),
            pairs(out@) == h.take(it.index() as int).filter(pred),
    {
        proof {
            filter_extends(h, it.index() as int, pred);
            assert(h[it.index() as int] == (header.0@, header.1@));
        }
        let name = to_lower(header.0.as_str());
        let n = name.as_str();
        let fixed = is_fixed_hop_by_hop(header.0.as_str());
        let listed = contains_text(&dynamic, n);
        let drop_it = fixed || listed || same(n, "content-length") || (request && (same(n, "host")
            || same(n, "expect")));
        if !drop_it {
            let ghost before = out@;
            out.push(header);
            assert(pairs(out@) =~= pairs(before).push(h[it.index() as int]));
        }
    }
    assert(h.take(h.len() as int) =~= h);
    out
}

/// The headers of a request that go to the upstream.
pub fn request_headers_for_frame(headers: HeaderList) -> (r: HeaderList)
    ensures
        pairs(r@) == pairs(headers@).filter(request_keeps(pairs(headers@))),
{
    keep_headers(headers, true)
}

/// The first `Content-Length` from the `from`-th header on that is a numeral.
pub open spec fn announced_length(headers: Pairs, from: int, max: nat) -> Option<nat>
    decreases headers.len() - from,
{
    if from < 0 || from >= headers.len() {
        None
    } else if lower(headers[from].0) == "content-length"@ && unsigned_numeral(
        headers[from].1,
        max,
    ) is Some {
        unsigned_numeral(headers[from].1, max)
    } else {
        announced_length(headers, from + 1, max)
    }
}

fn find_length(headers: &HeaderList, max: u64) -> (r: Option<u64>)
    ensures
        match r {
            Some(n) => announced_length(pairs(headers@), 0, max as nat) == Some(n as nat),
            None => announced_length(pairs(headers@), 0, max as nat) is None,
        },
{
    let ghost h = pairs(headers@);
    for i in 0..headers.len()
        invariant
            h == pairs(headers@),
            announced_length(h, 0, max as nat) == announced_length(h, i as int, max as nat),
    {
        assert(h[i as int] == (headers@[i as int].0@, headers@[i as int].1@));
        let name = to_lower(headers[i].0.as_str());
        if same(name.as_str(), "content-length") {
            if let Some(n) = parse_unsigned(headers[i].1.as_str(), max) {
                return Some(n);
            }
        }
    }
    None
}

/// Whether a status says that no body follows: 1xx, 204 and 304.
pub open spec fn bodiless_status(status: u16) -> bool {
    100 <= status < 200 || status == 204 || status == 304
}

/// Whether a response to `method` with `status` has no body.
pub open spec fn bodiless(method: Seq<char>, status: u16) -> bool {
    method == "HEAD"@ || bodiless_status(status)
}

/// Whether a response has no body, whatever its headers say.
pub fn suppresses_body(method: &str, status: u16) -> (r: bool)
    ensures
        r == bodiless(method@, status),
{
    same(method, "HEAD") || (100 <= status && status < 200) || status == 204 || status == 304
}

/// A `content-length` header for a known length.
pub open spec fn length_header(length: Option<nat>) -> Pairs {
    match length {
        Some(n) => seq![("content-length"@, decimal(n))],
        None => Seq::empty(),
    }
}

fn push_length(out: &mut HeaderList, length: u64)
    ensures
        pairs(final(out)@) == pairs(old(out)@) + length_header(Some(length as nat)),
{
    let ghost before = pairs(out@);
    let text = to_decimal(length);
    out.push(("content-length".to_owned(), text));
    assert(pairs(out@) =~= before + length_header(Some(length as nat)));
}

/// The length that a whole response announces downstream: of its
/// representation for HEAD, of its body where it has one.
pub open spec fn whole_length(headers: Pairs, method: Seq<char>, status: u16, body_len: nat) -> Option<
    nat,
> {
    if method == "HEAD"@ {
        announced_length(headers, 0, usize::MAX as nat)
    } else if bodiless_status(status) {
        None
    } else {
        Some(body_len)
    }
}

/// The headers of a whole response.
pub fn response_headers_for_downstream(
    headers: HeaderList,
    method: &str,
    status: u16,
    body_len: usize,
) -> (r: HeaderList)
    ensures
        pairs(r@) == pairs(headers@).filter(response_keeps(pairs(headers@))) + length_header(
            whole_length(pairs(headers@), method@, status, body_len as nat),
        ),
{
    let ghost h = pairs(headers@);
    let length = find_length(&headers, usize::MAX as u64);
    let mut out = keep_headers(headers, false);
    if same(method, "HEAD") {
        if let Some(n) = length {
            push_length(&mut out, n);
        } else {
            assert(pairs(out@) + length_header(None) =~= pairs(out@));
        }
    } else if !suppresses_body(method, status) {
        push_length(&mut out, body_len as u64);
    } else {
        assert(pairs(out@) + length_header(None) =~= pairs(out@));
    }
    out
}

/// The length that a streamed response announces downstream.
pub open spec fn stream_length(
    headers: Pairs,
    method: Seq<char>,
    status: u16,
    content_length: Option<u64>,
) -> Option<nat> {
    if method == "HEAD"@ {
        match content_length {
            Some(n) => Some(n as nat),
            None => announced_length(headers, 0, u64::MAX as nat),
        }
    } else if bodiless_status(status) {
        None
    } else {
        match content_length {
            Some(n) => Some(n as nat),
            None => None,
        }
    }
}

/// The headers of a streamed response.
pub fn response_headers_for_stream(
    headers: HeaderList,
    method: &str,
    status: u16,
    content_length: Option<u64>,
) -> (r: HeaderList)
    ensures
        pairs(r@) == pairs(headers@).filter(response_keeps(pairs(headers@))) + length_header(
            stream_length(pairs(headers@), method@, status, content_length),
        ),
{
    let ghost h = pairs(headers@);
    let length = match content_length {
        Some(n) => Some(n),
        None => find_length(&headers, u64::MAX),
    };
    let mut out = keep_headers(headers, false);
    let announced = if same(method, "HEAD") {
        length
    } else if suppresses_body(method, status) {
        None
    } else {
        content_length
    };
    if let Some(n) = announced {
        push_length(&mut out, n);
    } else {
        assert(pairs(out@) + length_header(None) =~= pairs(out@));
    }
    out
}

/// No header about a connection passes in either direction, and no length of
/// an upstream passes downstream as a header of its own.
pub proof fn connection_headers_never_pass(headers: Pairs)
    ensures
        forall|i: int|
            0 <= i < headers.filter(request_keeps(headers)).len() ==> !about_connection(
                headers,
                (#[trigger] headers.filter(request_keeps(headers))[i]).0,
            ),
        forall|i: int|
            0 <= i < headers.filter(response_keeps(headers)).len() ==> !about_connection(
                headers,
                (#[trigger] headers.filter(response_keeps(headers))[i]).0,
            ) && lower(headers.filter(response_keeps(headers))[i].0) != "content-length"@,
{
    broadcast use vstd::seq_lib::group_filter_ensures;

    assert forall|i: int| 0 <= i < headers.filter(request_keeps(headers)).len() implies
        !about_connection(headers, (#[trigger] headers.filter(request_keeps(headers))[i]).0) by {
        assert(request_keeps(headers)(headers.filter(request_keeps(headers))[i]));
    }
    assert forall|i: int| 0 <= i < headers.filter(response_keeps(headers)).len() implies
        !about_connection(headers, (#[trigger] headers.filter(response_keeps(headers))[i]).0)
        && lower(headers.filter(response_keeps(headers))[i].0) != "content-length"@ by {
        assert(response_keeps(headers)(headers.filter(response_keeps(headers))[i]));
    }
}

} // verus!
