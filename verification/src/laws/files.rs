//! Laws of files and directories.
use super::fields::{fields2, fields4, fields5, fields6, fields7, says, size};
use crate::bytes::{hex_digit, hex_text, lossy};
use crate::fs::{
    chunk_read, chunk_written, content_text, entry_model, entry_reply, error_model, flag, hex_data,
    last_name, limit_of, list_reply, loose_bytes, name_of, octal, offset_of, pair_bytes, pair_value,
    reaches_end, read_reply, text_or_empty, write_reply, written_bytes, EntryFacts, EntryKind,
};
use crate::text::{digit, first_index, lemma_first_index_bound, split_all};
use crate::value::Model;
use vstd::prelude::*;
use vstd::utf8::encode_utf8;

verus! {

// ───────────────────────── arguments ─────────────────────────

/// A string argument is read as it is; a flag is set only by `true`.
pub proof fn arguments_are_read(kw: Map<Seq<char>, Model>, key: Seq<char>, s: Seq<char>, b: bool)
    ensures
        kw.contains_key(key) && kw[key] == Model::Text(s) ==> text_or_empty(kw, key) == s,
        !kw.contains_key(key) ==> text_or_empty(kw, key).len() == 0 && !flag(kw, key),
        kw.contains_key(key) && kw[key] == Model::Boolean(b) ==> flag(kw, key) == b,
{
}

/// The offset of a chunk is the argument, and zero where that is negative or
/// missing.
pub proof fn offsets_are_read(kw: Map<Seq<char>, Model>, n: int)
    requires
        i64::MIN <= n <= i64::MAX,
    ensures
        kw.contains_key("offset"@) && kw["offset"@] == Model::Integer(n) && n >= 0 ==> offset_of(kw)
            == n,
        kw.contains_key("offset"@) && kw["offset"@] == Model::Integer(n) && n < 0 ==> offset_of(kw)
            == 0,
        !kw.contains_key("offset"@) ==> offset_of(kw) == 0,
{
}

/// A chunk has at most as many bytes as asked for, and between 1 byte and 4 MiB;
/// 64 KiB where nothing is asked for.
pub proof fn limits_are_read(kw: Map<Seq<char>, Model>, n: int)
    requires
        i64::MIN <= n <= i64::MAX,
    ensures
        kw.contains_key("limit"@) && kw["limit"@] == Model::Integer(n) && 1 <= n <= 4 * 1024 * 1024
            ==> limit_of(kw) == n,
        kw.contains_key("limit"@) && kw["limit"@] == Model::Integer(n) && n < 1 ==> limit_of(kw)
            == 1,
        kw.contains_key("limit"@) && kw["limit"@] == Model::Integer(n) && n > 4 * 1024 * 1024
            ==> limit_of(kw) == 4 * 1024 * 1024,
        !kw.contains_key("limit"@) ==> limit_of(kw) == 64 * 1024,
{
}

// ───────────────────────── contents ─────────────────────────

/// Text that is written goes to the file as its UTF-8 bytes. Binary data goes
/// there as the bytes of its hexadecimal digits.
pub proof fn contents_are_written(kw: Map<Seq<char>, Model>, s: Seq<char>, b: Seq<u8>)
    requires
        kw.contains_key("data"@),
    ensures
        kw["data"@] == Model::Text(s) && !flag(kw, "binary"@) ==> written_bytes(kw) == encode_utf8(
            s,
        ),
        kw["data"@] == Model::Text(hex_text(b)) && flag(kw, "binary"@) ==> written_bytes(kw) == b,
{
    crate::fs::hex_data_reads_back(b);
    let t = encode_utf8(hex_text(b));
    loose_is_strict(t, t.len() / 2);
}

proof fn loose_is_strict(s: Seq<u8>, n: nat)
    requires
        pair_bytes(s, n) is Some,
    ensures
        pair_bytes(s, n) == Some(loose_bytes(s, n)),
    decreases n,
{
    if n > 0 {
        loose_is_strict(s, (n - 1) as nat);
    }
}

/// Two hexadecimal digits are one byte, the higher one first.
pub proof fn digit_pairs_are_bytes(a: u8, b: u8)
    ensures
        hex_digit(a as char) is Some && hex_digit(b as char) is Some ==> pair_value(a, b) == Some(
            (hex_digit(a as char)->0 * 16 + hex_digit(b as char)->0) as u8,
        ),
        hex_digit(b as char) is None ==> pair_value(a, b) is None,
        hex_digit(a as char) is None && a != 0x2b ==> pair_value(a, b) is None,
{
}

/// An odd number of digits is refused.
pub proof fn odd_digits_are_refused(data: Seq<char>)
    requires
        encode_utf8(data).len() % 2 == 1,
    ensures
        hex_data(data) is Err,
{
}

/// What was read is replied as text, or as hexadecimal digits where binary data
/// is asked for, of which each byte has two. An error is replied in its place.
pub proof fn reads_are_replied(kw: Map<Seq<char>, Model>, bytes: Seq<u8>, e: Seq<char>)
    ensures
        ({
            let reply = read_reply(kw, Ok(bytes));
            &&& size(reply) == 2
            &&& says(reply, "error"@, Model::Nil)
            &&& !flag(kw, "binary"@) ==> says(reply, "data"@, Model::Text(lossy(bytes)))
            &&& flag(kw, "binary"@) ==> says(reply, "data"@, Model::Text(hex_text(bytes)))
        }),
        ({
            let reply = read_reply(kw, Err(e));
            &&& size(reply) == 2
            &&& says(reply, "data"@, Model::Nil)
            &&& says(reply, "error"@, Model::Text(e))
        }),
{
    reveal_strlit("data");
    reveal_strlit("error");
    assert("data"@.len() == 4);
    assert("error"@.len() == 5);
    fields2(
        "data"@,
        Model::Text(content_text(bytes, flag(kw, "binary"@))),
        "error"@,
        Model::Nil,
    );
    fields2(
        "data"@,
        Model::Nil,
        "error"@,
        Model::Text(e),
    );
}

/// A chunk that was read is replied with its place, its bytes in hexadecimal
/// digits, their number, and whether the file ends there.
pub proof fn chunks_are_replied(
    kw: Map<Seq<char>, Model>,
    bytes: Seq<u8>,
    eof: bool,
    error: Option<Seq<char>>,
)
    ensures
        ({
            let reply = chunk_read(kw, bytes, eof, error);
            &&& size(reply) == 6
            &&& says(reply, "path"@, Model::Text(text_or_empty(kw, "path"@)))
            &&& says(reply, "offset"@, Model::Integer(offset_of(kw) as int))
            &&& says(reply, "data"@, Model::Text(hex_text(bytes)))
            &&& says(reply, "bytes_read"@, Model::Integer(bytes.len() as int))
            &&& says(reply, "eof"@, Model::Boolean(eof))
            &&& error is None ==> says(reply, "error"@, Model::Nil)
            &&& error is Some ==> says(reply, "error"@, Model::Text(error->0))
        }),
{
    reveal_strlit("path");
    reveal_strlit("offset");
    reveal_strlit("data");
    reveal_strlit("bytes_read");
    reveal_strlit("eof");
    reveal_strlit("error");
    assert("path"@[0] == 'p');
    assert("path"@.len() == 4);
    assert("offset"@.len() == 6);
    assert("data"@[0] == 'd');
    assert("data"@.len() == 4);
    assert("bytes_read"@.len() == 10);
    assert("eof"@.len() == 3);
    assert("error"@.len() == 5);
    fields6(
        "path"@,
        Model::Text(text_or_empty(kw, "path"@)),
        "offset"@,
        Model::Integer(offset_of(kw) as int),
        "data"@,
        Model::Text(hex_text(bytes)),
        "bytes_read"@,
        Model::Integer(bytes.len() as int),
        "eof"@,
        Model::Boolean(eof),
        "error"@,
        error_model(error),
    );
}

/// A file ends with a chunk that reaches its size.
pub proof fn files_end_at_their_size(offset: u64, read: nat, size: u64)
    ensures
        offset + read < size ==> !reaches_end(offset, read, size),
        offset + read >= size ==> reaches_end(offset, read, size),
{
}

/// A chunk that was written is replied with its place and the number of its
/// bytes, or with the error.
pub proof fn written_chunks_are_replied(
    kw: Map<Seq<char>, Model>,
    written: nat,
    error: Option<Seq<char>>,
)
    ensures
        ({
            let reply = chunk_written(kw, written, error);
            &&& size(reply) == 4
            &&& says(reply, "path"@, Model::Text(text_or_empty(kw, "path"@)))
            &&& says(reply, "offset"@, Model::Integer(offset_of(kw) as int))
            &&& says(reply, "bytes_written"@, Model::Integer(written as int))
            &&& error is None ==> says(reply, "error"@, Model::Nil)
            &&& error is Some ==> says(reply, "error"@, Model::Text(error->0))
        }),
{
    reveal_strlit("path");
    reveal_strlit("offset");
    reveal_strlit("bytes_written");
    reveal_strlit("error");
    assert("path"@.len() == 4);
    assert("offset"@.len() == 6);
    assert("bytes_written"@.len() == 13);
    assert("error"@.len() == 5);
    fields4(
        "path"@,
        Model::Text(text_or_empty(kw, "path"@)),
        "offset"@,
        Model::Integer(offset_of(kw) as int),
        "bytes_written"@,
        Model::Integer(written as int),
        "error"@,
        error_model(error),
    );
}

// ───────────────────────── entries ─────────────────────────

/// An entry is told by its name, path, kind, size, permissions and time.
pub proof fn entries_are_replied(path: Seq<char>, facts: EntryFacts)
    ensures
        ({
            let reply = entry_reply(path, Some(facts));
            &&& size(reply) == 7
            &&& says(reply, "name"@, Model::Text(name_of(path)))
            &&& says(reply, "path"@, Model::Text(path))
            &&& facts.kind == EntryKind::Dir ==> says(reply, "type"@, Model::Text("dir"@))
            &&& facts.kind == EntryKind::Symlink ==> says(reply, "type"@, Model::Text("symlink"@))
            &&& facts.kind == EntryKind::File ==> says(reply, "type"@, Model::Text("file"@))
            &&& facts.size <= i64::MAX ==> says(reply, "size"@, Model::Integer(facts.size as int))
            &&& says(reply, "permissions"@, Model::Text(octal((facts.mode % 512) as nat)))
            &&& says(reply, "modified_time"@, Model::Float64(facts.modified))
            &&& says(reply, "error"@, Model::Nil)
        }),
{
    reveal_strlit("name");
    reveal_strlit("path");
    reveal_strlit("type");
    reveal_strlit("size");
    reveal_strlit("permissions");
    reveal_strlit("modified_time");
    reveal_strlit("error");
    assert("name"@[0] == 'n');
    assert("name"@.len() == 4);
    assert("path"@[0] == 'p');
    assert("path"@.len() == 4);
    assert("type"@[0] == 't');
    assert("type"@.len() == 4);
    assert("size"@[0] == 's');
    assert("size"@.len() == 4);
    assert("permissions"@.len() == 11);
    assert("modified_time"@.len() == 13);
    assert("error"@.len() == 5);
    let kind = match facts.kind {
        EntryKind::Dir => "dir"@,
        EntryKind::Symlink => "symlink"@,
        EntryKind::File => "file"@,
    };
    fields7(
        "name"@,
        Model::Text(name_of(path)),
        "path"@,
        Model::Text(path),
        "type"@,
        Model::Text(kind),
        "size"@,
        Model::Integer(facts.size as i64 as int),
        "permissions"@,
        Model::Text(octal((facts.mode % 512) as nat)),
        "modified_time"@,
        Model::Float64(facts.modified),
        "error"@,
        Model::Nil,
    );
    assert(entry_model(path, Some(facts)).push(("error"@, Model::Nil)) =~= seq![
        ("name"@, Model::Text(name_of(path))),
        ("path"@, Model::Text(path)),
        ("type"@, Model::Text(kind)),
        ("size"@, Model::Integer(facts.size as i64 as int)),
        ("permissions"@, Model::Text(octal((facts.mode % 512) as nat))),
        ("modified_time"@, Model::Float64(facts.modified)),
        ("error"@, Model::Nil),
    ]);
}

/// A directory is told by its entries, in their order, each by its name, path,
/// kind, size, permissions and time.
pub proof fn directories_are_replied(
    entries: Seq<(Seq<char>, Option<EntryFacts>)>,
    error: Option<Seq<char>>,
    i: int,
)
    requires
        0 <= i < entries.len(),
        entries[i].1 is Some,
    ensures
        exists|list: Seq<Model>|
            list.len() == entries.len() && #[trigger] says(
                list_reply(entries, error),
                "entries"@,
                Model::Array(list),
            ) && size(list[i]) == 6 && says(list[i], "name"@, Model::Text(name_of(entries[i].0)))
                && says(list[i], "path"@, Model::Text(entries[i].0)) && (entries[i].1->0.size
                <= i64::MAX ==> says(
                list[i],
                "size"@,
                Model::Integer(entries[i].1->0.size as int),
            )) && says(
                list[i],
                "permissions"@,
                Model::Text(octal((entries[i].1->0.mode % 512) as nat)),
            ) && says(list[i], "modified_time"@, Model::Float64(entries[i].1->0.modified)),
        error is None ==> says(list_reply(entries, error), "error"@, Model::Nil),
        error is Some ==> says(list_reply(entries, error), "error"@, Model::Text(error->0)),
{
    reveal_strlit("name");
    reveal_strlit("path");
    reveal_strlit("type");
    reveal_strlit("size");
    reveal_strlit("permissions");
    reveal_strlit("modified_time");
    reveal_strlit("entries");
    reveal_strlit("error");
    assert("name"@[0] == 'n');
    assert("name"@.len() == 4);
    assert("path"@[0] == 'p');
    assert("path"@.len() == 4);
    assert("type"@[0] == 't');
    assert("type"@.len() == 4);
    assert("size"@[0] == 's');
    assert("size"@.len() == 4);
    assert("permissions"@.len() == 11);
    assert("modified_time"@.len() == 13);
    assert("entries"@.len() == 7);
    assert("error"@.len() == 5);
    let path = entries[i].0;
    let facts = entries[i].1->0;
    let kind = match facts.kind {
        EntryKind::Dir => "dir"@,
        EntryKind::Symlink => "symlink"@,
        EntryKind::File => "file"@,
    };
    fields6(
        "name"@,
        Model::Text(name_of(path)),
        "path"@,
        Model::Text(path),
        "type"@,
        Model::Text(kind),
        "size"@,
        Model::Integer(facts.size as i64 as int),
        "permissions"@,
        Model::Text(octal((facts.mode % 512) as nat)),
        "modified_time"@,
        Model::Float64(facts.modified),
    );
    let list = Seq::new(
        entries.len(),
        |i: int| crate::codec::dict(entry_model(entries[i].0, entries[i].1)),
    );
    fields2(
        "entries"@,
        Model::Array(list),
        "error"@,
        error_model(error),
    );
    assert(says(list_reply(entries, error), "entries"@, Model::Array(list)));
}

/// A file that was written is told by its name, path, kind and size; where that
/// failed, by its path and the error.
pub proof fn writes_are_replied(kw: Map<Seq<char>, Model>, facts: EntryFacts, e: Seq<char>)
    ensures
        ({
            let path = text_or_empty(kw, "path"@);
            let reply = write_reply(kw, Some(facts), None);
            let failed = write_reply(kw, Some(facts), Some(e));
            &&& size(reply) == 5
            &&& says(reply, "name"@, Model::Text(name_of(path)))
            &&& says(reply, "path"@, Model::Text(path))
            &&& facts.kind == EntryKind::File ==> says(reply, "type"@, Model::Text("file"@))
            &&& facts.size <= i64::MAX ==> says(reply, "size"@, Model::Integer(facts.size as int))
            &&& says(reply, "error"@, Model::Nil)
            &&& size(failed) == 5
            &&& says(failed, "path"@, Model::Text(path))
            &&& says(failed, "size"@, Model::Integer(0))
            &&& says(failed, "error"@, Model::Text(e))
        }),
{
    reveal_strlit("name");
    reveal_strlit("path");
    reveal_strlit("type");
    reveal_strlit("size");
    reveal_strlit("error");
    assert("name"@[0] == 'n');
    assert("name"@.len() == 4);
    assert("path"@[0] == 'p');
    assert("path"@.len() == 4);
    assert("type"@[0] == 't');
    assert("type"@.len() == 4);
    assert("size"@[0] == 's');
    assert("size"@.len() == 4);
    assert("error"@.len() == 5);
    let path = text_or_empty(kw, "path"@);
    let kind = match facts.kind {
        EntryKind::Dir => "dir"@,
        EntryKind::Symlink => "symlink"@,
        EntryKind::File => "file"@,
    };
    fields5(
        "name"@,
        Model::Text(name_of(path)),
        "path"@,
        Model::Text(path),
        "type"@,
        Model::Text(kind),
        "size"@,
        Model::Integer(facts.size as i64 as int),
        "error"@,
        Model::Nil,
    );
    fields5(
        "path"@,
        Model::Text(path),
        "name"@,
        Model::Text(""@),
        "type"@,
        Model::Text(""@),
        "size"@,
        Model::Integer(0),
        "error"@,
        Model::Text(e),
    );
    assert(entry_model(path, Some(facts)).take(4).push(("error"@, Model::Nil)) =~= seq![
        ("name"@, Model::Text(name_of(path))),
        ("path"@, Model::Text(path)),
        ("type"@, Model::Text(kind)),
        ("size"@, Model::Integer(facts.size as i64 as int)),
        ("error"@, Model::Nil),
    ]);
}

/// The number that octal digits write.
pub open spec fn octal_value(s: Seq<char>) -> nat
    decreases s.len(),
{
    if s.len() == 0 {
        0
    } else {
        octal_value(s.drop_last()) * 8 + (s.last() as u32 - 48) as nat
    }
}

/// Permissions are written in octal digits.
pub proof fn permissions_are_octal(n: nat)
    ensures
        octal(n).len() > 0,
        octal_value(octal(n)) == n,
        forall|i: int| 0 <= i < octal(n).len() ==> '0' <= #[trigger] octal(n)[i] && octal(n)[i]
            <= '7',
    decreases n,
{
    if n < 8 {
        assert(seq![digit(n)].drop_last() =~= Seq::<char>::empty());
        assert(octal_value(Seq::<char>::empty()) == 0);
    } else {
        permissions_are_octal(n / 8);
        assert(octal(n).drop_last() =~= octal(n / 8));
        assert forall|i: int| 0 <= i < octal(n).len() implies '0' <= #[trigger] octal(n)[i]
            && octal(n)[i] <= '7' by {
            if i < octal(n / 8).len() {
                assert(octal(n)[i] == octal(n / 8)[i]);
            }
        }
    }
}

// ───────────────────────── names ─────────────────────────

/// The parts of a text that is put together at a character are the parts of
/// both.
pub proof fn parts_add_up(a: Seq<char>, c: char, b: Seq<char>)
    ensures
        split_all(a.push(c) + b, c) == split_all(a, c) + split_all(b, c),
    decreases a.len(),
{
    lemma_first_index_bound(a, c);
    let i = first_index(a, c) as int;
    let s = a.push(c) + b;
    let n = if i < a.len() {
        i
    } else {
        a.len() as int
    };
    assert forall|j: int| 0 <= j < n implies s[j] != c by {
        assert(s[j] == a[j]);
    }
    crate::text::lemma_first_index(s, c, n);
    if i < a.len() {
        parts_add_up(a.skip(i + 1), c, b);
        assert(s.skip(i + 1) =~= a.skip(i + 1).push(c) + b);
        assert(s.take(i) =~= a.take(i));
        assert(split_all(s, c) =~= split_all(a, c) + split_all(b, c));
    } else {
        assert(s.take(n) =~= a);
        assert(s.skip(n + 1) =~= b);
    }
}

/// The name of a file is what its path ends in, after the last slash.
pub proof fn files_are_named_by_their_end(directory: Seq<char>, name: Seq<char>)
    requires
        name.len() > 0,
        !name.contains('/'),
        name != "."@,
        name != ".."@,
    ensures
        name_of(directory.push('/') + name) == name,
        name_of(name) == name,
        name_of(directory.push('/')) == name_of(directory),
{
    parts_add_up(directory, '/', name);
    parts_add_up(directory, '/', Seq::empty());
    assert forall|j: int| 0 <= j < name.len() implies name[j] != '/' by {
        assert(name.contains(name[j]));
    }
    crate::text::lemma_first_index(name, '/', name.len() as int);
    assert(split_all(name, '/') == seq![name]);
    let all = split_all(directory.push('/') + name, '/');
    assert(all.last() == name);
    let none = Seq::<char>::empty();
    crate::text::lemma_first_index(none, '/', 0);
    assert(directory.push('/') + none =~= directory.push('/'));
    let parts = split_all(directory, '/');
    let more = split_all(directory.push('/'), '/');
    assert(more =~= parts.push(none));
    same_last_name(parts, more, parts.len());
}

proof fn same_last_name(a: Seq<Seq<char>>, b: Seq<Seq<char>>, n: nat)
    requires
        n <= a.len(),
        n <= b.len(),
        forall|i: int| 0 <= i < n ==> a[i] == b[i],
    ensures
        last_name(a, n) == last_name(b, n),
    decreases n,
{
    if n > 0 {
        same_last_name(a, b, (n - 1) as nat);
    }
}

/// Hexadecimal data is read pair by pair, where all pairs are digits; else it is
/// refused.
pub proof fn hexadecimal_data_is_read(s: Seq<u8>, n: nat)
    requires
        2 * n <= s.len(),
    ensures
        (pair_bytes(s, n) is Some) == (forall|i: int|
            0 <= i < n ==> pair_value(#[trigger] s[2 * i], s[2 * i + 1]) is Some),
        pair_bytes(s, n) is Some ==> pair_bytes(s, n)->0.len() == n && forall|i: int|
            0 <= i < n ==> Some(#[trigger] pair_bytes(s, n)->0[i]) == pair_value(
                s[2 * i],
                s[2 * i + 1],
            ),
    decreases n,
{
    if n > 0 {
        let m = (n - 1) as nat;
        hexadecimal_data_is_read(s, m);
        let last = 2 * m as int;
        assert(s[last] == s[2 * n - 2]);
        if pair_bytes(s, n) is None {
            if pair_bytes(s, m) is Some {
                assert(pair_value(s[last], s[last + 1]) is None);
            } else {
                let i = choose|i: int|
                    0 <= i < m && pair_value(#[trigger] s[2 * i], s[2 * i + 1]) is None;
                assert(0 <= i < n && pair_value(s[2 * i], s[2 * i + 1]) is None);
            }
        } else {
            assert forall|i: int| 0 <= i < n implies pair_value(#[trigger] s[2 * i], s[2 * i + 1])
                is Some by {
                if i < m {
                    assert(pair_value(s[2 * i], s[2 * i + 1]) is Some);
                }
            }
        }
    }
}

/// Binary data that is written passes over pairs that are no digits.
pub proof fn broken_pairs_are_passed_over(s: Seq<u8>, n: nat)
    ensures
        pair_value(s[2 * n as int], s[2 * n as int + 1]) is Some ==> loose_bytes(s, n + 1) == loose_bytes(
            s,
            n,
        ).push(pair_value(s[2 * n as int], s[2 * n as int + 1])->0),
        pair_value(s[2 * n as int], s[2 * n as int + 1]) is None ==> loose_bytes(s, n + 1) == loose_bytes(
            s,
            n,
        ),
        loose_bytes(s, 0).len() == 0,
{
}

/// Data is refused where a pair is no digits, and else it is what was read.
pub proof fn data_is_refused_or_read(data: Seq<char>)
    requires
        encode_utf8(data).len() % 2 == 0,
    ensures
        pair_bytes(encode_utf8(data), encode_utf8(data).len() / 2) is None ==> hex_data(data)
            is Err,
        pair_bytes(encode_utf8(data), encode_utf8(data).len() / 2) is Some ==> hex_data(data)
            == Ok::<Seq<u8>, Seq<char>>(
            pair_bytes(encode_utf8(data), encode_utf8(data).len() / 2)->0,
        ),
{
}

} // verus!
