//! Reading the head of an HTTP request.
use crate::bytes::{hex_digit, hex_digit_value, utf8_string};
use crate::fs::name_of;
use crate::text::{
    begins, chars_of, is_space, is_white, join, join3, lower, opt_view, parse_unsigned, same,
    same_ignoring_case, slice, split, split_all, split_once, split_pair, starts_with, string_of,
    trim, trimmed, unsigned_numeral, views, views_push,
};
use vstd::prelude::*;
use vstd::utf8::{decode_utf8, encode_utf8, valid_utf8};

verus! {

// ───────────────────────── lines ─────────────────────────

/// `s` without a carriage return at its end.
pub open spec fn without_return(s: Seq<char>) -> Seq<char> {
    if s.len() > 0 && s.last() == '\r' {
        s.drop_last()
    } else {
        s
    }
}

/// The lines of a text: each ends with a line feed, before which a carriage
/// return may stand. What follows the last line feed is a line where it is not
/// empty.
pub open spec fn text_lines(s: Seq<char>) -> Seq<Seq<char>> {
    let parts = split_all(s, '\n');
    let ended = Seq::new((parts.len() - 1) as nat, |i: int| without_return(parts[i]));
    if parts.last().len() == 0 {
        ended
    } else {
        ended.push(parts.last())
    }
}

proof fn split_nonempty(s: Seq<char>, c: char)
    ensures
        split_all(s, c).len() >= 1,
{
}

/// The lines of a text.
pub fn lines(s: &str) -> (r: Vec<String>)
    ensures
        views(r@) == text_lines(s@),
{
    let parts = split(s, '\n');
    let ghost all = split_all(s@, '\n');
    proof {
        split_nonempty(s@, '\n');
        assert(views(parts@).len() == parts@.len());
    }
    let count: usize = parts.len();
    let ghost ended = Seq::new((all.len() - 1) as nat, |i: int| without_return(all[i]));
    let mut out: Vec<String> = Vec::new();
    assert(views(out@) =~= ended.take(0));
    for i in 0..count - 1
        invariant
            count == parts@.len(),
            count >= 1,
            views(parts@) == all,
            ended == Seq::new((all.len() - 1) as nat, |i: int| without_return(all[i])),
            views(out@) == ended.take(i as int),
    {
        let ghost before = out@;
        assert(views(parts@)[i as int] == parts@[i as int]@);
        let chars = chars_of(parts[i].as_str());
        let line = if chars.len() > 0 && chars[chars.len() - 1] == '\r' {
            slice(&chars, 0, chars.len() - 1)
        } else {
            parts[i].clone()
        };
        proof {
            assert(line@ =~= without_return(all[i as int]));
            views_push(before, line);
        }
        out.push(line);
        assert(views(out@) =~= ended.take(i as int + 1));
    }
    proof {
        assert(ended.take(ended.len() as int) =~= ended);
        assert(views(parts@)[count - 1] == parts@[count - 1]@);
    }
    if !parts[count - 1].as_str().is_empty() {
        let last = parts[count - 1].clone();
        proof {
            views_push(out@, last);
        }
        out.push(last);
    }
    assert(views(out@) =~= text_lines(s@));
    out
}

// ───────────────────────── words ─────────────────────────

/// How many characters come before the first white space.
pub open spec fn word_len(s: Seq<char>) -> nat
    decreases s.len(),
{
    if s.len() == 0 || is_space(s[0]) {
        0
    } else {
        1 + word_len(s.drop_first())
    }
}

/// The first word, and what follows it.
pub open spec fn next_word(s: Seq<char>) -> (Seq<char>, Seq<char>) {
    let t = crate::text::trim_start(s);
    (t.take(word_len(t) as int), t.skip(word_len(t) as int))
}

/// Finds the next word from a position on: where it begins and ends.
pub fn take_word(chars: &Vec<char>, from: usize) -> (r: (usize, usize))
    requires
        from <= chars@.len(),
    ensures
        from <= r.0 <= r.1 <= chars@.len(),
        ({
            let w = next_word(chars@.skip(from as int));
            chars@.subrange(r.0 as int, r.1 as int) == w.0 && chars@.skip(r.1 as int) == w.1
        }),
{
    let ghost s = chars@.skip(from as int);
    let mut a: usize = from;
    while a < chars.len() && is_white(chars[a])
        invariant
            from <= a <= chars@.len(),
            crate::text::trim_start(s) == crate::text::trim_start(chars@.skip(a as int)),
        decreases chars@.len() - a,
    {
        assert(chars@.skip(a as int).drop_first() =~= chars@.skip(a as int + 1));
        a = a + 1;
    }
    let ghost t = chars@.skip(a as int);
    assert(crate::text::trim_start(s) == t);
    let mut b: usize = a;
    while b < chars.len() && !is_white(chars[b])
        invariant
            a <= b <= chars@.len(),
            t == chars@.skip(a as int),
            word_len(t) == (b - a) + word_len(chars@.skip(b as int)),
        decreases chars@.len() - b,
    {
        assert(chars@.skip(b as int).drop_first() =~= chars@.skip(b as int + 1));
        b = b + 1;
    }
    proof {
        assert(word_len(t) == b - a);
        assert(chars@.subrange(a as int, b as int) =~= t.take(b - a));
        assert(chars@.skip(b as int) =~= t.skip(b - a));
    }
    (a, b)
}

/// The first line of a head, or nothing.
pub open spec fn first_line(head: Seq<char>) -> Seq<char> {
    if text_lines(head).len() > 0 {
        text_lines(head)[0]
    } else {
        Seq::empty()
    }
}

/// The method and the target of a request: the first two words.
pub open spec fn request_words(head: Seq<char>) -> (Seq<char>, Seq<char>) {
    let (method, rest) = next_word(first_line(head));
    (method, next_word(rest).0)
}

/// Reads the method and the target of a request.
pub fn parse_request_line(head: &str) -> (r: (String, String))
    ensures
        (r.0@, r.1@) == request_words(head@),
{
    let all = lines(head);
    let line = if all.len() > 0 {
        assert(views(all@)[0] == all@[0]@);
        all[0].clone()
    } else {
        let none = String::new();
        assert(none@ =~= Seq::empty());
        none
    };
    assert(views(all@).len() == all@.len());
    let chars = chars_of(line.as_str());
    assert(chars@.skip(0) =~= chars@);
    let (a, b) = take_word(&chars, 0);
    let (c, d) = take_word(&chars, b);
    (slice(&chars, a, b), slice(&chars, c, d))
}

// ───────────────────────── headers ─────────────────────────

/// The value of a header line of a given name.
pub open spec fn line_value(line: Seq<char>, name: Seq<char>) -> Option<Seq<char>> {
    match split_pair(line, ':') {
        Some((k, v)) => if lower(trimmed(k)) == lower(name) {
            Some(trimmed(v))
        } else {
            None
        },
        None => None,
    }
}

/// The value of the first header of a name, from the `from`-th line on.
pub open spec fn header_from(all: Seq<Seq<char>>, name: Seq<char>, from: int) -> Option<Seq<char>>
    decreases all.len() - from,
{
    if from < 0 || from >= all.len() {
        None
    } else {
        match line_value(all[from], name) {
            Some(v) => Some(v),
            None => header_from(all, name, from + 1),
        }
    }
}

/// The value of the first header of a name.
pub open spec fn header(head: Seq<char>, name: Seq<char>) -> Option<Seq<char>> {
    header_from(text_lines(head), name, 1)
}

/// Reads the first header of a name.
pub fn parse_header(head: &str, name: &str) -> (r: Option<String>)
    ensures
        opt_view(r) == header(head@, name@),
{
    let all = lines(head);
    let ghost texts = text_lines(head@);
    assert(views(all@).len() == all@.len());
    let mut i: usize = 1;
    while i < all.len()
        invariant
            views(all@) == texts,
            texts == text_lines(head@),
            1 <= i,
            header_from(texts, name@, 1) == header_from(texts, name@, i as int),
        decreases all@.len() - i,
    {
        assert(views(all@)[i as int] == all@[i as int]@);
        if let Some((k, v)) = split_once(all[i].as_str(), ':') {
            let key = trim(k.as_str());
            if same_ignoring_case(key.as_str(), name) {
                return Some(trim(v.as_str()));
            }
        }
        i = i + 1;
    }
    None
}

/// The announced length of a body, or zero.
pub open spec fn announced(head: Seq<char>) -> nat {
    match header(head, "content-length"@) {
        Some(v) => match unsigned_numeral(trimmed(v), usize::MAX as nat) {
            Some(n) => n,
            None => 0,
        },
        None => 0,
    }
}

/// Reads the announced length of a body.
pub fn parse_content_length(head: &str) -> (r: usize)
    ensures
        r == announced(head@),
{
    match parse_header(head, "content-length") {
        Some(v) => {
            let t = trim(v.as_str());
            match parse_unsigned(t.as_str(), usize::MAX as u64) {
                Some(n) => n as usize,
                None => 0,
            }
        },
        None => 0,
    }
}

/// Some part of a list of values, between commas, is `token`, in any case.
pub open spec fn lists_token(value: Seq<char>, token: Seq<char>) -> bool {
    exists|i: int|
        0 <= i < split_all(value, ',').len() && lower(trimmed(#[trigger] split_all(value, ',')[i]))
            == lower(token)
}

/// Whether a list of values holds a token.
pub fn has_token(value: &str, token: &str) -> (r: bool)
    ensures
        r == lists_token(value@, token@),
{
    let parts = split(value, ',');
    let ghost all = split_all(value@, ',');
    for i in 0..parts.len()
        invariant
            views(parts@) == all,
            all == split_all(value@, ','),
            forall|j: int| 0 <= j < i ==> lower(trimmed(#[trigger] all[j])) != lower(token@),
    {
        assert(views(parts@)[i as int] == parts@[i as int]@);
        let part = trim(parts[i].as_str());
        if same_ignoring_case(part.as_str(), token) {
            assert(lower(trimmed(all[i as int])) == lower(token@));
            return true;
        }
    }
    assert(views(parts@).len() == parts@.len());
    false
}

/// A header lists a token.
pub open spec fn header_token(head: Seq<char>, name: Seq<char>, token: Seq<char>) -> bool {
    match header(head, name) {
        Some(v) => lists_token(v, token),
        None => false,
    }
}

/// Whether a header lists a token.
pub fn header_has_token(head: &str, name: &str, token: &str) -> (r: bool)
    ensures
        r == header_token(head@, name@, token@),
{
    match parse_header(head, name) {
        Some(v) => has_token(v.as_str(), token),
        None => false,
    }
}

/// The number that a request is known by: of one of two headers, or of its
/// body. It has to be between 1 and 128 bytes long.
pub open spec fn request_number(head: Seq<char>, in_body: Option<Seq<char>>) -> Option<Seq<char>> {
    let raw = match header(head, "x-yr-request-id"@) {
        Some(v) => Some(v),
        None => match header(head, "x-request-id"@) {
            Some(v) => Some(v),
            None => in_body,
        },
    };
    match raw {
        Some(v) => if trimmed(v).len() > 0 && encode_utf8(trimmed(v)).len() <= 128 {
            Some(trimmed(v))
        } else {
            None
        },
        None => None,
    }
}

/// Reads the number that a request is known by.
pub fn request_id_from(head: &str, in_body: Option<&str>) -> (r: Option<String>)
    ensures
        opt_view(r) == request_number(head@, crate::text::opt_str_view(in_body)),
{
    let raw: Option<String> = match parse_header(head, "x-yr-request-id") {
        Some(v) => Some(v),
        None => match parse_header(head, "x-request-id") {
            Some(v) => Some(v),
            None => match in_body {
                Some(s) => Some(s.to_owned()),
                None => None,
            },
        },
    };
    match raw {
        Some(v) => {
            let t = trim(v.as_str());
            let n: usize = t.as_str().as_bytes().len();
            if !t.as_str().is_empty() && n <= 128 {
                Some(t)
            } else {
                None
            }
        },
        None => None,
    }
}

// ───────────────────────── targets ─────────────────────────

/// The path of a target.
pub open spec fn target_path(target: Seq<char>) -> Seq<char> {
    match split_pair(target, '?') {
        Some((p, _)) => p,
        None => target,
    }
}

/// The path of a target.
pub fn request_path(path: &str) -> (r: String)
    ensures
        r@ == target_path(path@),
{
    match split_once(path, '?') {
        Some((p, _)) => p,
        None => path.to_owned(),
    }
}

/// The value of a name in one pair of a query: what follows its first equals
/// sign, or nothing.
pub open spec fn pair_named(pair: Seq<char>, name: Seq<char>) -> Option<Seq<char>> {
    match split_pair(pair, '=') {
        Some((k, v)) => if k == name {
            Some(v)
        } else {
            None
        },
        None => if pair == name {
            Some(Seq::empty())
        } else {
            None
        },
    }
}

/// The value of the first pair of a name, from the `from`-th on.
pub open spec fn query_from(all: Seq<Seq<char>>, name: Seq<char>, from: int) -> Option<Seq<char>>
    decreases all.len() - from,
{
    if from < 0 || from >= all.len() {
        None
    } else {
        match pair_named(all[from], name) {
            Some(v) => Some(v),
            None => query_from(all, name, from + 1),
        }
    }
}

/// The value of a name in the query of a target, as it is written there.
pub open spec fn query_value(target: Seq<char>, name: Seq<char>) -> Option<Seq<char>> {
    match split_pair(target, '?') {
        Some((_, query)) => query_from(split_all(query, '&'), name, 0),
        None => None,
    }
}

/// Reads the value of a name in the query of a target.
pub fn query_param(raw_path: &str, name: &str) -> (r: Option<String>)
    ensures
        opt_view(r) == query_value(raw_path@, name@),
{
    let query = match split_once(raw_path, '?') {
        Some((_, q)) => q,
        None => {
            return None;
        },
    };
    let parts = split(query.as_str(), '&');
    let ghost all = split_all(query@, '&');
    assert(views(parts@).len() == parts@.len());
    for i in 0..parts.len()
        invariant
            views(parts@) == all,
            query_from(all, name@, 0) == query_from(all, name@, i as int),
            query_value(raw_path@, name@) == query_from(all, name@, 0),
    {
        assert(views(parts@)[i as int] == parts@[i as int]@);
        match split_once(parts[i].as_str(), '=') {
            Some((k, v)) => {
                if same(k.as_str(), name) {
                    return Some(v);
                }
            },
            None => {
                if same(parts[i].as_str(), name) {
                    let none = String::new();
                    assert(none@ =~= Seq::empty());
                    return Some(none);
                }
            },
        }
    }
    None
}

/// The bytes that a percent-encoded text stands for, from `i` on. A percent
/// sign takes part only where two characters follow; a plus sign stands for a
/// space.
pub open spec fn percent_bytes(s: Seq<u8>, i: int) -> Option<Seq<u8>>
    decreases s.len() - i,
{
    if i < 0 || i >= s.len() {
        Some(Seq::empty())
    } else if s[i] == 0x25 && i + 2 < s.len() {
        match (hex_digit(s[i + 1] as char), hex_digit(s[i + 2] as char)) {
            (Some(h), Some(l)) => match percent_bytes(s, i + 3) {
                Some(rest) => Some(seq![(h * 16 + l) as u8] + rest),
                None => None,
            },
            _ => None,
        }
    } else {
        match percent_bytes(s, i + 1) {
            Some(rest) => Some(
                seq![
                    if s[i] == 0x2b {
                        0x20u8
                    } else {
                        s[i]
                    },
                ] + rest,
            ),
            None => None,
        }
    }
}

/// The text that a percent-encoded text stands for.
pub open spec fn percent_text(input: Seq<char>) -> Option<Seq<char>> {
    match percent_bytes(encode_utf8(input), 0) {
        Some(b) => if valid_utf8(b) {
            Some(decode_utf8(b))
        } else {
            None
        },
        None => None,
    }
}

/// The value of a hexadecimal digit.
pub fn hex_val(b: u8) -> (r: Option<u8>)
    ensures
        match r {
            Some(d) => hex_digit(b as char) == Some(d as nat) && d < 16,
            None => hex_digit(b as char) is None,
        },
{
    hex_digit_value(b as char)
}

/// Decodes a percent-encoded text.
pub fn percent_decode(input: &str) -> (r: Option<String>)
    ensures
        opt_view(r) == percent_text(input@),
{
    let s = input.as_bytes();
    let mut out: Vec<u8> = Vec::new();
    let mut i: usize = 0;
    let ghost whole = percent_bytes(s@, 0);
    proof {
        if let Some(w) = whole {
            assert(out@ + w =~= w);
        }
    }
    while i < s.len()
        invariant
            s@ == encode_utf8(input@),
            i <= s.len(),
            whole == percent_bytes(s@, 0),
            match percent_bytes(s@, i as int) {
                Some(rest) => whole == Some(out@ + rest),
                None => whole is None,
            },
        decreases s@.len() - i,
    {
        let ghost before = out@;
        if s[i] == 0x25 && s.len() - i > 2 {
            match (hex_val(s[i + 1]), hex_val(s[i + 2])) {
                (Some(h), Some(l)) => {
                    let b: u8 = h * 16 + l;
                    out.push(b);
                    proof {
                        if let Some(rest) = percent_bytes(s@, i + 3) {
                            assert(out@ + rest =~= before + (seq![b] + rest));
                        }
                    }
                    i = i + 3;
                },
                _ => {
                    return None;
                },
            }
        } else {
            let b: u8 = if s[i] == 0x2b {
                0x20
            } else {
                s[i]
            };
            out.push(b);
            proof {
                if let Some(rest) = percent_bytes(s@, i + 1) {
                    assert(out@ + rest =~= before + (seq![b] + rest));
                }
            }
            i = i + 1;
        }
    }
    proof {
        assert(percent_bytes(s@, i as int) == Some(Seq::<u8>::empty()));
        assert(out@ + Seq::<u8>::empty() =~= out@);
    }
    utf8_string(out)
}

/// A decoded value of the query of a target.
pub open spec fn query_text(target: Seq<char>, name: Seq<char>) -> Option<Seq<char>> {
    match query_value(target, name) {
        Some(v) => percent_text(v),
        None => None,
    }
}

/// Reads and decodes a value of the query of a target.
pub fn decoded_param(raw_path: &str, name: &str) -> (r: Option<String>)
    ensures
        opt_view(r) == query_text(raw_path@, name@),
{
    match query_param(raw_path, name) {
        Some(v) => percent_decode(v.as_str()),
        None => None,
    }
}

/// What is transferred: a file, unless the query says otherwise.
pub open spec fn transfer_type(target: Seq<char>) -> Seq<char> {
    match query_text(target, "type"@) {
        Some(t) => t,
        None => "file"@,
    }
}

/// Reads what is transferred.
pub fn upload_type(raw_path: &str) -> (r: String)
    ensures
        r@ == transfer_type(raw_path@),
{
    match decoded_param(raw_path, "type") {
        Some(t) => t,
        None => "file".to_owned(),
    }
}

// ───────────────────────── parts of an upload ─────────────────────────

/// The directory of a path, as `std::path::Path::parent` finds it, or nothing.
pub uninterp spec fn path_parent(path: Seq<char>) -> Seq<char>;

/// `std::path::Path::parent`, as a text that is empty where there is none.
#[verifier::external_body]
fn parent_of(path: &str) -> (r: String)
    ensures
        r@ == path_parent(path@),
{
    std::path::Path::new(path).parent().and_then(|p| p.to_str()).unwrap_or("").to_owned()
}

/// Whether a character may stand in the name of a part.
pub open spec fn plain_char(c: char) -> bool {
    ||| '0' <= c && c <= '9'
    ||| 'a' <= c && c <= 'z'
    ||| 'A' <= c && c <= 'Z'
    ||| c == '-'
    ||| c == '_'
}

/// An identifier with a dash for every character that may not stand in a name.
pub open spec fn safe_id(id: Seq<char>) -> Seq<char> {
    Seq::new(
        id.len(),
        |i: int|
            if plain_char(id[i]) {
                id[i]
            } else {
                '-'
            },
    )
}

/// The name of the part of an upload, beside the file that it is for.
pub open spec fn part_name(path: Seq<char>, upload_id: Seq<char>) -> Seq<char> {
    let name = if name_of(path).len() > 0 {
        name_of(path)
    } else {
        "upload"@
    };
    "."@ + name + ".yr-upload."@ + safe_id(upload_id) + ".part"@
}

/// A name in a directory.
pub open spec fn in_directory(directory: Seq<char>, name: Seq<char>) -> Seq<char> {
    if directory.len() == 0 {
        name
    } else if directory.last() == '/' {
        directory + name
    } else {
        directory + "/"@ + name
    }
}

fn sanitized(id: &str) -> (r: String)
    ensures
        r@ == safe_id(id@),
{
    let chars = chars_of(id);
    let mut out: Vec<char> = Vec::new();
    for i in 0..chars.len()
        invariant
            chars@ == id@,
            out@ == safe_id(id@).take(i as int),
    {
        let c = chars[i];
        let plain = ('0' <= c && c <= '9') || ('a' <= c && c <= 'z') || ('A' <= c && c <= 'Z') || c
            == '-' || c == '_';
        out.push(
            if plain {
                c
            } else {
                '-'
            },
        );
        assert(out@ =~= safe_id(id@).take(i as int + 1));
    }
    assert(safe_id(id@).take(id@.len() as int) =~= safe_id(id@));
    string_of(out.as_slice())
}

/// The name of the part of an upload in a directory.
pub fn part_in(directory: &str, path: &str, upload_id: &str) -> (r: String)
    ensures
        r@ == in_directory(directory@, part_name(path@, upload_id@)),
{
    let found = crate::fs::file_name(path);
    let name = if found.as_str().is_empty() {
        "upload".to_owned()
    } else {
        found
    };
    let id = sanitized(upload_id);
    let head = join3(".", name.as_str(), ".yr-upload.");
    let file = join3(head.as_str(), id.as_str(), ".part");
    let d = chars_of(directory);
    if d.len() == 0 {
        file
    } else if d[d.len() - 1] == '/' {
        join(directory, file.as_str())
    } else {
        join3(directory, "/", file.as_str())
    }
}

/// The file that the parts of an upload are gathered in.
pub fn upload_part_path(path: &str, upload_id: &str) -> (r: String)
    ensures
        r@ == in_directory(path_parent(path@), part_name(path@, upload_id@)),
{
    let directory = parent_of(path);
    part_in(directory.as_str(), path, upload_id)
}

/// No identifier can lead out of the directory of an upload.
pub proof fn safe_ids_have_no_slash(id: Seq<char>)
    ensures
        !safe_id(id).contains('/'),
        !safe_id(id).contains('.'),
{
}

// ───────────────────────── ranges ─────────────────────────

/// The first and the last byte that a `Range` value asks for, of `total`.
pub open spec fn asked_range(value: Seq<char>, total: u64) -> Option<(u64, u64)> {
    let prefix = "bytes="@;
    if !begins(value, prefix) {
        None
    } else {
        match split_pair(value.skip(prefix.len() as int), '-') {
            None => None,
            Some((a, b)) => if a.len() == 0 || total == 0 {
                None
            } else {
                match unsigned_numeral(a, u64::MAX as nat) {
                    None => None,
                    Some(start) => if start >= total {
                        None
                    } else if b.len() == 0 {
                        Some((start as u64, (total - 1) as u64))
                    } else {
                        match unsigned_numeral(b, u64::MAX as nat) {
                            None => None,
                            Some(e) => {
                                let end = if e < total - 1 {
                                    e as int
                                } else {
                                    total - 1
                                };
                                if end < start {
                                    None
                                } else {
                                    Some((start as u64, end as u64))
                                }
                            },
                        }
                    },
                }
            },
        }
    }
}

/// The range that a head asks for.
pub open spec fn head_range(head: Seq<char>, total: u64) -> Option<(u64, u64)> {
    match header(head, "range"@) {
        Some(v) => asked_range(v, total),
        None => None,
    }
}

/// Reads the range that a head asks for.
pub fn parse_range_header(head: &str, total: u64) -> (r: Option<(u64, u64)>)
    ensures
        r == head_range(head@, total),
{
    let value = match parse_header(head, "range") {
        Some(v) => v,
        None => {
            return None;
        },
    };
    if !starts_with(value.as_str(), "bytes=") {
        return None;
    }
    let chars = chars_of(value.as_str());
    let prefix = chars_of("bytes=");
    let spec_text = slice(&chars, prefix.len(), chars.len());
    assert(spec_text@ =~= value@.skip("bytes="@.len() as int));
    let (a, b) = match split_once(spec_text.as_str(), '-') {
        Some(pair) => pair,
        None => {
            return None;
        },
    };
    if a.as_str().is_empty() || total == 0 {
        return None;
    }
    let start: u64 = match parse_unsigned(a.as_str(), u64::MAX) {
        Some(n) => n,
        None => {
            return None;
        },
    };
    if start >= total {
        return None;
    }
    if b.as_str().is_empty() {
        return Some((start, total - 1));
    }
    let e: u64 = match parse_unsigned(b.as_str(), u64::MAX) {
        Some(n) => n,
        None => {
            return None;
        },
    };
    let end: u64 = if e < total - 1 {
        e
    } else {
        total - 1
    };
    if end < start {
        return None;
    }
    Some((start, end))
}

/// A range lies within the file.
pub proof fn ranges_lie_within(head: Seq<char>, total: u64)
    ensures
        head_range(head, total) matches Some((start, end)) ==> start <= end < total,
{
}

} // verus!
