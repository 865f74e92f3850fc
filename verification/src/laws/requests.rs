//! Laws of HTTP requests: their heads, targets and ranges.
use super::texts::unsigned_numerals_are_digits;
use crate::bytes::hex_digit;
use crate::http::request::{
    announced, asked_range, first_line, head_range, header, header_from, header_token, in_directory,
    line_value, lists_token, next_word, pair_named, part_name, percent_bytes, percent_text,
    query_from, query_text, query_value, request_number, request_words, safe_id, target_path,
    text_lines, transfer_type, word_len,
};
use crate::text::{
    begins, decimal, decimal_reads_back, first_index, is_digit, is_space, lemma_first_index, lower,
    split_all, split_pair, trim_start, trimmed,
};
use vstd::prelude::*;
use vstd::utf8::encode_utf8;

verus! {

// ───────────────────────── lines ─────────────────────────

proof fn split_first(a: Seq<char>, c: char, b: Seq<char>)
    requires
        !a.contains(c),
    ensures
        split_pair(a.push(c) + b, c) == Some((a, b)),
        split_all(a.push(c) + b, c) == seq![a] + split_all(b, c),
{
    let s = a.push(c) + b;
    let n = a.len() as int;
    assert forall|j: int| 0 <= j < n implies s[j] != c by {
        assert(s[j] == a[j]);
        assert(a.contains(a[j]));
    }
    assert(s[n] == c);
    lemma_first_index(s, c, n);
    assert(s.take(n) =~= a);
    assert(s.skip(n + 1) =~= b);
}

proof fn split_none(a: Seq<char>, c: char)
    requires
        !a.contains(c),
    ensures
        split_pair(a, c) is None,
        split_all(a, c) == seq![a],
{
    assert forall|j: int| 0 <= j < a.len() implies a[j] != c by {
        assert(a.contains(a[j]));
    }
    lemma_first_index(a, c, a.len() as int);
}

/// The first line of a text ends at its first line feed, and a carriage return
/// before that is not part of it. The others follow.
pub proof fn lines_follow_each_other(line: Seq<char>, rest: Seq<char>)
    requires
        !line.contains('\n'),
    ensures
        text_lines(line.push('\r').push('\n') + rest) == seq![line] + text_lines(rest),
        line.len() == 0 || line.last() != '\r' ==> text_lines(line.push('\n') + rest) == seq![line]
            + text_lines(rest),
{
    let ended = line.push('\r');
    assert forall|j: int| 0 <= j < ended.len() implies ended[j] != '\n' by {
        if j < line.len() {
            assert(line.contains(line[j]));
        }
    }
    super::texts::split_parts_join(rest, '\n');
    split_first(ended, '\n', rest);
    split_first(line, '\n', rest);
    let parts = split_all(rest, '\n');
    let with_return = split_all(ended.push('\n') + rest, '\n');
    assert(with_return =~= seq![ended] + parts);
    assert(with_return.last() == parts.last());
    assert(ended.drop_last() =~= line);
    assert(text_lines(ended.push('\n') + rest) =~= seq![line] + text_lines(rest));
    let bare = split_all(line.push('\n') + rest, '\n');
    assert(bare =~= seq![line] + parts);
    assert(bare.last() == parts.last());
    if line.len() == 0 || line.last() != '\r' {
        assert(text_lines(line.push('\n') + rest) =~= seq![line] + text_lines(rest));
    }
}

/// An empty text has no lines.
pub proof fn nothing_has_no_lines()
    ensures
        text_lines(Seq::empty()).len() == 0,
{
    split_none(Seq::empty(), '\n');
}

/// Whether a text is one word.
pub open spec fn is_word(s: Seq<char>) -> bool {
    s.len() > 0 && forall|i: int| 0 <= i < s.len() ==> !is_space(#[trigger] s[i])
}

proof fn word_taken(word: Seq<char>, rest: Seq<char>)
    requires
        is_word(word),
        rest.len() == 0 || is_space(rest[0]),
    ensures
        next_word(word + rest) == (word, rest),
{
    let s = word + rest;
    assert(s[0] == word[0]);
    assert(trim_start(s) == s);
    word_length(word, rest);
    assert(s.take(word.len() as int) =~= word);
    assert(s.skip(word.len() as int) =~= rest);
}

proof fn word_length(word: Seq<char>, rest: Seq<char>)
    requires
        forall|i: int| 0 <= i < word.len() ==> !is_space(#[trigger] word[i]),
        rest.len() == 0 || is_space(rest[0]),
    ensures
        word_len(word + rest) == word.len(),
    decreases word.len(),
{
    let s = word + rest;
    if word.len() > 0 {
        assert(s[0] == word[0]);
        assert(s.drop_first() =~= word.drop_first() + rest);
        assert forall|i: int| 0 <= i < word.drop_first().len() implies !is_space(
            #[trigger] word.drop_first()[i],
        ) by {
            assert(word.drop_first()[i] == word[i + 1]);
        }
        word_length(word.drop_first(), rest);
    } else {
        assert(s =~= rest);
    }
}

/// The method and the target of a request are the first two words of its first
/// line.
pub proof fn request_lines_are_read(
    method: Seq<char>,
    target: Seq<char>,
    version: Seq<char>,
    rest: Seq<char>,
)
    requires
        is_word(method),
        is_word(target),
        !version.contains('\n'),
    ensures
        request_words(
            (method.push(' ') + target.push(' ') + version).push('\r').push('\n') + rest,
        ) == (method, target),
{
    let line = method.push(' ') + target.push(' ') + version;
    assert forall|i: int| 0 <= i < line.len() implies line[i] != '\n' by {
        if i < method.len() {
            assert(!is_space(method[i]));
        } else if i > method.len() && i < method.len() + 1 + target.len() {
            assert(!is_space(target[i - method.len() - 1]));
        } else if i > method.len() + 1 + target.len() {
            assert(version.contains(version[i - method.len() - 2 - target.len()]));
        }
    }
    lines_follow_each_other(line, rest);
    let head = line.push('\r').push('\n') + rest;
    assert(first_line(head) == line);
    let after = seq![' '] + target.push(' ') + version;
    assert(line =~= method + after);
    word_taken(method, after);
    let tail = seq![' '] + version;
    assert(after.drop_first() =~= target + tail);
    assert(trim_start(after) == trim_start(after.drop_first()));
    word_taken(target, tail);
    assert(trim_start(target + tail) == target + tail) by {
        assert((target + tail)[0] == target[0]);
    }
    assert(next_word(after).0 == target);
}

// ───────────────────────── headers ─────────────────────────

/// Whether a line is a header of a name, in letters of any case: the name stands
/// before its first colon.
pub open spec fn is_header(line: Seq<char>, name: Seq<char>) -> bool {
    exists|k: int|
        0 <= k < line.len() && line[k] == ':' && !line.take(k).contains(':') && lower(
            trimmed(#[trigger] line.take(k)),
        ) == lower(name)
}

proof fn header_lines(line: Seq<char>, name: Seq<char>)
    ensures
        is_header(line, name) == (line_value(line, name) is Some),
        forall|k: int|
            0 <= k < line.len() && line[k] == ':' && !(#[trigger] line.take(k)).contains(':')
                && is_header(line, name) ==> line_value(line, name) == Some(
                trimmed(line.skip(k + 1)),
            ),
{
    super::texts::split_pairs_join(line, ':');
    crate::text::lemma_first_index_bound(line, ':');
    let i = first_index(line, ':') as int;
    assert forall|k: int|
        0 <= k < line.len() && line[k] == ':' && !(#[trigger] line.take(k)).contains(':') implies k
        == i by {
        if i < k {
            assert(line.take(k)[i] == ':');
        }
    }
    if i < line.len() {
        assert(!line.take(i).contains(':'));
    }
}

/// A header has the value of the first line of its name, without white space
/// around it. The first line of a head is no header.
pub proof fn headers_are_found(head: Seq<char>, name: Seq<char>, i: int, k: int)
    requires
        1 <= i < text_lines(head).len(),
        0 <= k < text_lines(head)[i].len(),
        text_lines(head)[i][k] == ':',
        !text_lines(head)[i].take(k).contains(':'),
        lower(trimmed(text_lines(head)[i].take(k))) == lower(name),
        forall|j: int| 1 <= j < i ==> !is_header(#[trigger] text_lines(head)[j], name),
    ensures
        header(head, name) == Some(trimmed(text_lines(head)[i].skip(k + 1))),
{
    header_lines(text_lines(head)[i], name);
    header_scan(text_lines(head), name, 1, i);
}

proof fn header_scan(all: Seq<Seq<char>>, name: Seq<char>, from: int, i: int)
    requires
        0 <= from <= i <= all.len(),
        i < all.len() ==> is_header(all[i], name),
        forall|j: int| from <= j < i ==> !is_header(#[trigger] all[j], name),
    ensures
        i < all.len() ==> header_from(all, name, from) == line_value(all[i], name),
        i == all.len() ==> header_from(all, name, from) is None,
    decreases i - from,
{
    if from < all.len() {
        header_lines(all[from], name);
    }
    if from < i {
        header_scan(all, name, from + 1, i);
    }
}

/// A header that no line has is not there.
pub proof fn absent_headers_are_absent(head: Seq<char>, name: Seq<char>)
    requires
        forall|j: int| 1 <= j < text_lines(head).len() ==> !is_header(
            #[trigger] text_lines(head)[j],
            name,
        ),
    ensures
        header(head, name) is None,
{
    if text_lines(head).len() >= 1 {
        header_scan(text_lines(head), name, 1, text_lines(head).len() as int);
    }
}

/// The announced length is the number of the header `Content-Length`, and zero
/// without one.
pub proof fn lengths_are_announced(head: Seq<char>, n: nat)
    requires
        n <= usize::MAX,
    ensures
        header(head, "content-length"@) == Some(decimal(n)) ==> announced(head) == n,
        header(head, "content-length"@) is None ==> announced(head) == 0,
{
    numerals_are_trimmed(n);
    decimal_reads_back(n);
    unsigned_numerals_are_digits(decimal(n), usize::MAX as nat);
}

proof fn numerals_are_trimmed(n: nat)
    ensures
        trimmed(decimal(n)) == decimal(n),
{
    decimal_reads_back(n);
    let s = decimal(n);
    assert(is_digit(s[0]));
    assert(is_digit(s[s.len() - 1]));
    assert(trim_start(s) == s);
}

/// A body comes in chunks where its header lists that, among others or alone.
pub proof fn tokens_are_listed(head: Seq<char>, name: Seq<char>, token: Seq<char>, value: Seq<char>, i: int)
    requires
        header(head, name) == Some(value),
        0 <= i < split_all(value, ',').len(),
    ensures
        lower(trimmed(split_all(value, ',')[i])) == lower(token) ==> header_token(head, name, token),
        (forall|j: int|
            0 <= j < split_all(value, ',').len() ==> lower(
                trimmed(#[trigger] split_all(value, ',')[j]),
            ) != lower(token)) ==> !header_token(head, name, token),
{
    assert(lower(trimmed(split_all(value, ',')[i])) == lower(token) ==> lists_token(value, token));
}

/// A header that is not there lists nothing.
pub proof fn absent_headers_list_nothing(head: Seq<char>, name: Seq<char>, token: Seq<char>)
    requires
        header(head, name) is None,
    ensures
        !header_token(head, name, token),
{
}

/// The number of a request is that of the header `X-YR-Request-Id`, else that of
/// the header `X-Request-Id`, else that of its body; without white space around
/// it, and only where it has 1 to 128 bytes.
pub proof fn request_numbers_are_found(head: Seq<char>, in_body: Option<Seq<char>>, id: Seq<char>)
    requires
        ({
            let first = header(head, "x-yr-request-id"@);
            let second = header(head, "x-request-id"@);
            first == Some(id) || first is None && second == Some(id) || first is None && second
                is None && in_body == Some(id)
        }),
    ensures
        request_number(head, in_body) == (if trimmed(id).len() == 0 || encode_utf8(
            trimmed(id),
        ).len() > 128 {
            None
        } else {
            Some(trimmed(id))
        }),
{
}

/// A request without a number has none.
pub proof fn requests_may_have_no_number(head: Seq<char>)
    requires
        header(head, "x-yr-request-id"@) is None,
        header(head, "x-request-id"@) is None,
    ensures
        request_number(head, None) is None,
{
}

// ───────────────────────── targets ─────────────────────────

/// The path of a target is what stands before its first question mark.
pub proof fn paths_end_at_the_query(path: Seq<char>, query: Seq<char>)
    requires
        !path.contains('?'),
    ensures
        target_path(path) == path,
        target_path(path.push('?') + query) == path,
{
    split_none(path, '?');
    split_first(path, '?', query);
}

/// A parameter has the value that stands after its name and an equals sign, up
/// to the next ampersand, where it comes first under that name.
pub proof fn parameters_are_found(
    path: Seq<char>,
    name: Seq<char>,
    value: Seq<char>,
    more: Seq<char>,
)
    requires
        !path.contains('?'),
        !name.contains('='),
        !name.contains('&'),
        !value.contains('&'),
    ensures
        query_value(path.push('?') + name.push('=') + value, name) == Some(value),
        query_value(path.push('?') + (name.push('=') + value).push('&') + more, name) == Some(
            value,
        ),
{
    let pair = name.push('=') + value;
    assert forall|j: int| 0 <= j < pair.len() implies pair[j] != '&' by {
        if j < name.len() {
            assert(name.contains(name[j]));
        } else if j > name.len() {
            assert(value.contains(value[j - name.len() - 1]));
        }
    }
    split_first(name, '=', value);
    split_first(path, '?', pair);
    assert(path.push('?') + name.push('=') + value =~= path.push('?') + pair);
    split_none(pair, '&');
    let longer = pair.push('&') + more;
    split_first(path, '?', longer);
    assert(path.push('?') + pair.push('&') + more =~= path.push('?') + longer);
    split_first(pair, '&', more);
    assert(split_all(longer, '&')[0] == pair);
}

/// A parameter is looked for in the pairs one after the other.
pub proof fn other_parameters_are_passed(
    path: Seq<char>,
    pair: Seq<char>,
    more: Seq<char>,
    name: Seq<char>,
)
    requires
        !path.contains('?'),
        !pair.contains('&'),
        pair_named(pair, name) is None,
    ensures
        query_value(path.push('?') + pair.push('&') + more, name) == query_value(
            path.push('?') + more,
            name,
        ),
        query_value(path.push('?') + pair, name) is None,
        query_value(path, name) is None,
{
    split_none(path, '?');
    split_first(path, '?', pair);
    split_none(pair, '&');
    let longer = pair.push('&') + more;
    split_first(path, '?', longer);
    split_first(path, '?', more);
    assert(path.push('?') + pair.push('&') + more =~= path.push('?') + longer);
    split_first(pair, '&', more);
    query_shift(split_all(longer, '&'), name, 0);
    assert(split_all(longer, '&').drop_first() =~= split_all(more, '&'));
    assert(query_from(seq![pair], name, 1) is None);
}

proof fn query_shift(all: Seq<Seq<char>>, name: Seq<char>, from: int)
    requires
        all.len() > 0,
        0 <= from,
    ensures
        query_from(all, name, from + 1) == query_from(all.drop_first(), name, from),
    decreases all.len() - from,
{
    if from + 1 < all.len() {
        query_shift(all, name, from + 1);
        assert(all.drop_first()[from] == all[from + 1]);
    }
}

/// A pair of another name is not the parameter.
pub proof fn pairs_of_other_names(key: Seq<char>, value: Seq<char>, name: Seq<char>)
    requires
        !key.contains('='),
        key != name,
    ensures
        pair_named(key.push('=') + value, name) is None,
        pair_named(key, name) is None,
{
    split_first(key, '=', value);
    split_none(key, '=');
}

/// An upload or download is of a file, where its target does not say otherwise.
pub proof fn transfers_are_of_files(target: Seq<char>)
    ensures
        query_value(target, "type"@) is None ==> transfer_type(target) == "file"@,
{
}

proof fn percent_shift(s: Seq<u8>, i: int)
    requires
        0 <= i <= s.len(),
    ensures
        percent_bytes(s, i) == percent_bytes(s.skip(i), 0),
    decreases s.len() - i,
{
    let t = s.skip(i);
    if i < s.len() {
        assert(t[0] == s[i]);
        if s[i] == 0x25 && i + 2 < s.len() {
            assert(t[1] == s[i + 1] && t[2] == s[i + 2]);
            percent_shift(s, i + 3);
            percent_shift(t, 3);
            assert(t.skip(3) =~= s.skip(i + 3));
        } else {
            percent_shift(s, i + 1);
            percent_shift(t, 1);
            assert(t.skip(1) =~= s.skip(i + 1));
        }
    }
}

/// A percent sign and two hexadecimal digits are one byte.
pub proof fn escapes_are_bytes(high: u8, low: u8, rest: Seq<u8>)
    requires
        hex_digit(high as char) is Some,
        hex_digit(low as char) is Some,
        percent_bytes(rest, 0) is Some,
    ensures
        percent_bytes(seq![0x25u8, high, low] + rest, 0) == Some(
            seq![(hex_digit(high as char)->0 * 16 + hex_digit(low as char)->0) as u8]
                + percent_bytes(rest, 0)->0,
        ),
{
    let s = seq![0x25u8, high, low] + rest;
    percent_shift(s, 3);
    assert(s.skip(3) =~= rest);
    assert(s[0] == 0x25 && s[1] == high && s[2] == low);
}

/// A plus sign is a space, and any other byte but a percent sign is itself.
pub proof fn plain_bytes_are_themselves(b: u8, rest: Seq<u8>)
    requires
        b != 0x25,
        percent_bytes(rest, 0) is Some,
    ensures
        b == 0x2b ==> percent_bytes(seq![b] + rest, 0) == Some(
            seq![0x20u8] + percent_bytes(rest, 0)->0,
        ),
        b != 0x2b ==> percent_bytes(seq![b] + rest, 0) == Some(
            seq![b] + percent_bytes(rest, 0)->0,
        ),
{
    let s = seq![b] + rest;
    percent_shift(s, 1);
    assert(s.skip(1) =~= rest);
    assert(s[0] == b);
}

/// An escape with something else than two hexadecimal digits cannot be read.
pub proof fn broken_escapes_are_refused(high: u8, low: u8, rest: Seq<u8>)
    requires
        hex_digit(high as char) is None || hex_digit(low as char) is None,
    ensures
        percent_bytes(seq![0x25u8, high, low] + rest, 0) is None,
{
    let s = seq![0x25u8, high, low] + rest;
    assert(s[0] == 0x25 && s[1] == high && s[2] == low);
}

/// Hexadecimal digits have the values from 0 to 15, in letters of either case.
pub proof fn hexadecimal_digits_count(c: char)
    ensures
        48 <= c as u32 <= 57 ==> hex_digit(c) == Some((c as u32 - 48) as nat),
        97 <= c as u32 <= 102 ==> hex_digit(c) == Some((c as u32 - 97 + 10) as nat),
        65 <= c as u32 <= 70 ==> hex_digit(c) == Some((c as u32 - 65 + 10) as nat),
        !(48 <= c as u32 <= 57) && !(97 <= c as u32 <= 102) && !(65 <= c as u32 <= 70)
            ==> hex_digit(c) is None,
{
}

// ───────────────────────── parts ─────────────────────────

/// The identifier of an upload keeps its letters, digits, hyphens and
/// underscores in the name of its part; all else becomes a hyphen.
pub proof fn identifiers_are_kept(id: Seq<char>, i: int)
    requires
        0 <= i < id.len(),
    ensures
        safe_id(id).len() == id.len(),
        ({
            let c = id[i];
            let plain = '0' <= c && c <= '9' || 'A' <= c && c <= 'Z' || 'a' <= c && c <= 'z' || c
                == '-' || c == '_';
            &&& plain ==> safe_id(id)[i] == id[i]
            &&& !plain ==> safe_id(id)[i] == '-'
        }),
{
}

/// A part lies beside its file, under a hidden name with the name of the file
/// and the identifier of the upload.
pub proof fn parts_lie_beside_their_file(directory: Seq<char>, path: Seq<char>, id: Seq<char>)
    ensures
        crate::fs::name_of(path).len() > 0 ==> part_name(path, id) == "."@ + crate::fs::name_of(path)
            + ".yr-upload."@ + safe_id(id) + ".part"@,
        crate::fs::name_of(path).len() == 0 ==> part_name(path, id) == "."@ + "upload"@
            + ".yr-upload."@ + safe_id(id) + ".part"@,
        directory.len() == 0 ==> in_directory(directory, path) == path,
        directory.len() > 0 && directory.last() == '/' ==> in_directory(directory, path)
            == directory + path,
        directory.len() > 0 && directory.last() != '/' ==> in_directory(directory, path)
            == directory.push('/') + path,
{
    reveal_strlit("/");
    assert(directory + "/"@ =~= directory.push('/'));
}

// ───────────────────────── ranges ─────────────────────────

proof fn range_parts(first: Seq<char>, last: Seq<char>)
    requires
        !first.contains('-'),
    ensures
        begins("bytes="@ + first.push('-') + last, "bytes="@),
        split_pair(("bytes="@ + first.push('-') + last).skip("bytes="@.len() as int), '-') == Some(
            (first, last),
        ),
{
    let prefix = "bytes="@;
    let value = prefix + first.push('-') + last;
    assert(value.take(prefix.len() as int) =~= prefix);
    assert(value.skip(prefix.len() as int) =~= first.push('-') + last);
    split_first(first, '-', last);
}

proof fn numerals_have_no_hyphen(n: nat)
    ensures
        !decimal(n).contains('-'),
        decimal(n).len() > 0,
{
    decimal_reads_back(n);
    assert forall|i: int| 0 <= i < decimal(n).len() implies decimal(n)[i] != '-' by {
        assert(is_digit(decimal(n)[i]));
    }
}

/// A range from one byte to another is what lies of it in the file, and none
/// where it starts behind the file or ends before it starts.
pub proof fn ranges_are_asked_for(start: u64, end: u64, total: u64)
    ensures
        ({
            let value = "bytes="@ + decimal(start as nat).push('-') + decimal(end as nat);
            &&& start < total && start <= end < total ==> asked_range(value, total) == Some(
                (start, end),
            )
            &&& start < total && total <= end ==> asked_range(value, total) == Some(
                (start, (total - 1) as u64),
            )
            &&& total <= start ==> asked_range(value, total) is None
            &&& end < start ==> asked_range(value, total) is None
        }),
{
    numerals_have_no_hyphen(start as nat);
    numerals_have_no_hyphen(end as nat);
    range_parts(decimal(start as nat), decimal(end as nat));
    decimal_reads_back(start as nat);
    decimal_reads_back(end as nat);
    unsigned_numerals_are_digits(decimal(start as nat), u64::MAX as nat);
    unsigned_numerals_are_digits(decimal(end as nat), u64::MAX as nat);
}

/// A range without an end goes to the end of the file.
pub proof fn open_ranges_are_asked_for(start: u64, total: u64)
    ensures
        ({
            let value = "bytes="@ + decimal(start as nat).push('-') + Seq::<char>::empty();
            &&& start < total ==> asked_range(value, total) == Some((start, (total - 1) as u64))
            &&& total <= start ==> asked_range(value, total) is None
        }),
{
    numerals_have_no_hyphen(start as nat);
    range_parts(decimal(start as nat), Seq::empty());
    decimal_reads_back(start as nat);
    unsigned_numerals_are_digits(decimal(start as nat), u64::MAX as nat);
}

/// A header that does not begin with `bytes=`, and a range that names no first
/// byte, ask for no range.
pub proof fn other_ranges_are_not_taken(value: Seq<char>, last: Seq<char>, total: u64)
    ensures
        !begins(value, "bytes="@) ==> asked_range(value, total) is None,
        asked_range("bytes="@ + Seq::<char>::empty().push('-') + last, total) is None,
{
    range_parts(Seq::empty(), last);
}

/// The range of a head is that of its header `Range`.
pub proof fn heads_ask_for_ranges(head: Seq<char>, total: u64, value: Seq<char>)
    ensures
        header(head, "range"@) is None ==> head_range(head, total) is None,
        header(head, "range"@) == Some(value) ==> head_range(head, total) == asked_range(
            value,
            total,
        ),
{
}

proof fn plain_bytes_stay(s: Seq<u8>)
    requires
        forall|i: int| 0 <= i < s.len() ==> #[trigger] s[i] != 0x25 && s[i] != 0x2b,
    ensures
        percent_bytes(s, 0) == Some(s),
    decreases s.len(),
{
    if s.len() > 0 {
        let rest = s.drop_first();
        assert forall|i: int| 0 <= i < rest.len() implies #[trigger] rest[i] != 0x25 && rest[i]
            != 0x2b by {
            assert(rest[i] == s[i + 1]);
        }
        plain_bytes_stay(rest);
        plain_bytes_are_themselves(s[0], rest);
        assert(seq![s[0]] + rest =~= s);
    } else {
        assert(s =~= Seq::<u8>::empty());
    }
}

/// A text without percent and plus signs is itself.
pub proof fn plain_texts_are_themselves(t: Seq<char>)
    requires
        forall|i: int|
            0 <= i < encode_utf8(t).len() ==> #[trigger] encode_utf8(t)[i] != 0x25 && encode_utf8(
                t,
            )[i] != 0x2b,
    ensures
        percent_text(t) == Some(t),
{
    plain_bytes_stay(encode_utf8(t));
    vstd::utf8::encode_utf8_valid_utf8(t);
    vstd::utf8::encode_utf8_decode_utf8(t);
}

/// Escaped bytes are text where they are UTF-8, and else they cannot be read.
pub proof fn escaped_texts_are_read(t: Seq<char>, b: Seq<u8>)
    requires
        percent_bytes(encode_utf8(t), 0) == Some(b),
    ensures
        vstd::utf8::valid_utf8(b) ==> percent_text(t) == Some(vstd::utf8::decode_utf8(b)),
        !vstd::utf8::valid_utf8(b) ==> percent_text(t) is None,
{
}

/// A percent sign that ends a text, or that one character follows, is itself.
pub proof fn last_percent_signs_are_themselves(b: u8)
    requires
        b != 0x25,
        b != 0x2b,
    ensures
        percent_bytes(seq![0x25u8], 0) == Some(seq![0x25u8]),
        percent_bytes(seq![0x25u8, b], 0) == Some(seq![0x25u8, b]),
{
    reveal_with_fuel(percent_bytes, 4);
    assert(seq![0x25u8] + Seq::<u8>::empty() =~= seq![0x25u8]);
    assert(seq![b] + Seq::<u8>::empty() =~= seq![b]);
    assert(seq![0x25u8] + seq![b] =~= seq![0x25u8, b]);
}

/// What follows the last line feed is a line as it is, where it is not empty.
pub proof fn last_lines_need_no_end(line: Seq<char>)
    requires
        !line.contains('\n'),
        line.len() > 0,
    ensures
        text_lines(line) == seq![line],
{
    split_none(line, '\n');
    assert(text_lines(line) =~= seq![line]);
}

/// A parameter is told with its escapes read; what a transfer is of is the
/// parameter `type`.
pub proof fn parameters_are_decoded(target: Seq<char>, name: Seq<char>, value: Seq<char>)
    ensures
        query_value(target, name) == Some(value) ==> query_text(target, name) == percent_text(
            value,
        ),
        query_value(target, name) is None ==> query_text(target, name) is None,
        query_text(target, "type"@) == Some(value) ==> transfer_type(target) == value,
        query_text(target, "type"@) is None ==> transfer_type(target) == "file"@,
{
}

} // verus!
