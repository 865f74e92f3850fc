//! Laws of values, of their numbers, and of chunked bodies.
use crate::bytes::{be_bytes, be_value, hex_text, lossy};
use crate::http::body::{
    chunk_size, hex_size, line_end, read_step, size_token, ChunkErrorModel, ChunkStepModel,
    ReaderModel, Stage,
};
use crate::json::{entry_kwargs, json_kwargs, json_of, member, packed, JsonModel};
use crate::text::{lemma_first_index, split_pair, trimmed};
use crate::value::{leading_int, model_bool, model_int, model_text, wire, Model};
use vstd::prelude::*;

verus! {

// ───────────────────────── numbers ─────────────────────────

/// A number in bytes has the highest byte first: a byte more is 256 times the
/// number and the byte.
pub proof fn bytes_count_by_256(s: Seq<u8>, b: u8)
    ensures
        be_value(s.push(b)) == be_value(s) * 256 + b,
        be_value(Seq::<u8>::empty()) == 0,
{
    assert(s.push(b).drop_last() =~= s);
}

/// The bytes of a number end in its lowest byte, before which stand the bytes of
/// the rest.
pub proof fn numbers_end_in_their_lowest_byte(n: nat, width: nat)
    requires
        width > 0,
    ensures
        be_bytes(n, width).last() == n % 256,
        be_bytes(n, width).drop_last() == be_bytes(n / 256, (width - 1) as nat),
        be_bytes(n, 0).len() == 0,
{
    assert(be_bytes(n, width).drop_last() =~= be_bytes(n / 256, (width - 1) as nat));
}

/// An integer that MessagePack bytes begin with: of seven bits, or of one, two
/// or four bytes after one that tells so.
pub proof fn leading_integers_are_read(a: u8, b: u8, c: u8, d: u8, rest: Seq<u8>)
    ensures
        a < 128 ==> leading_int(seq![a] + rest) == Some(a as u64),
        leading_int(seq![0xccu8, a] + rest) == Some(a as u64),
        leading_int(seq![0xcdu8, a, b] + rest) == Some((a * 256 + b) as u64),
        leading_int(seq![0xceu8, a, b, c, d] + rest) == Some(
            (a * 0x100_0000 + b * 0x1_0000 + c * 256 + d) as u64,
        ),
        a < 128 ==> leading_int(seq![0xd0u8, a] + rest) == Some(a as u64),
        a < 128 ==> leading_int(seq![0xd1u8, a, b] + rest) == Some((a * 256 + b) as u64),
        a >= 128 ==> leading_int(seq![0xd0u8, a] + rest) is None,
        a >= 0xe0 ==> leading_int(seq![a] + rest) is None,
        leading_int(Seq::empty()) is None,
{
    let none = Seq::<u8>::empty();
    assert(be_value(none) == 0);
    bytes_count_by_256(none, a);
    bytes_count_by_256(none.push(a), b);
    bytes_count_by_256(none.push(a).push(b), c);
    bytes_count_by_256(none.push(a).push(b).push(c), d);
    assert((seq![0xccu8, a] + rest).subrange(1, 2) =~= none.push(a));
    assert((seq![0xcdu8, a, b] + rest).subrange(1, 3) =~= none.push(a).push(b));
    assert((seq![0xceu8, a, b, c, d] + rest).subrange(1, 5) =~= none.push(a).push(b).push(c).push(
        d,
    ));
    assert((seq![0xd0u8, a] + rest).subrange(1, 2) =~= none.push(a));
    assert((seq![0xd1u8, a, b] + rest).subrange(1, 3) =~= none.push(a).push(b));
}

/// A value is read as a text, an integer of 64 bits or a truth value only where it
/// is one.
pub proof fn values_are_what_they_are(m: Model)
    ensures
        (model_text(m) is Some) == (m is Text),
        m is Text ==> model_text(m) == Some(m->Text_0),
        (model_bool(m) is Some) == (m is Boolean),
        m is Boolean ==> model_bool(m) == Some(m->Boolean_0),
        (model_int(m) is Some) == (m is Integer && i64::MIN <= m->Integer_0 <= i64::MAX),
        model_int(m) is Some ==> model_int(m)->0 == m->Integer_0,
{
}

/// What is sent of a value is the value; text that is no text is sent as bytes.
pub proof fn values_are_sent(b: Seq<u8>, s: Seq<char>, n: int, items: Seq<Model>, i: int)
    requires
        0 <= i < items.len(),
    ensures
        wire(Model::RawText(b)) == Model::Binary(b),
        wire(Model::Binary(b)) == Model::Binary(b),
        wire(Model::Text(s)) == Model::Text(s),
        wire(Model::Integer(n)) == Model::Integer(n),
        wire(Model::Nil) == Model::Nil,
        wire(Model::Array(items)) is Array,
        wire(Model::Array(items))->Array_0.len() == items.len(),
        wire(Model::Array(items))->Array_0[i] == wire(items[i]),
{
}

// ───────────────────────── JSON ─────────────────────────

/// JSON values become values of the same kind, and lists and objects become lists
/// and dictionaries of the same items in the same order.
pub proof fn json_becomes_values(
    s: Seq<char>,
    n: int,
    b: bool,
    bits: u64,
    items: Seq<JsonModel>,
    entries: Seq<(Seq<char>, JsonModel)>,
    i: int,
)
    ensures
        packed(JsonModel::Null) == Model::Nil,
        packed(JsonModel::Bool(b)) == Model::Boolean(b),
        packed(JsonModel::Integer(n)) == Model::Integer(n),
        packed(JsonModel::Float(bits)) == Model::Float64(bits),
        packed(JsonModel::Text(s)) == Model::Text(s),
        packed(JsonModel::Array(items)) is Array && packed(JsonModel::Array(items))->Array_0.len()
            == items.len(),
        0 <= i < items.len() ==> packed(JsonModel::Array(items))->Array_0[i] == packed(items[i]),
        packed(JsonModel::Object(entries)) is Dict && packed(
            JsonModel::Object(entries),
        )->Dict_0.len() == entries.len(),
        0 <= i < entries.len() ==> packed(JsonModel::Object(entries))->Dict_0[i] == (
            Model::Text(entries[i].0),
            packed(entries[i].1),
        ),
{
}

/// Values become JSON of the same kind. Bytes become hexadecimal digits; text
/// that is no text, and what JSON does not know, become nothing.
pub proof fn values_become_json(
    s: Seq<char>,
    n: int,
    b: bool,
    bytes: Seq<u8>,
    tag: i8,
    items: Seq<Model>,
    i: int,
)
    ensures
        json_of(Model::Nil) == JsonModel::Null,
        json_of(Model::Boolean(b)) == JsonModel::Bool(b),
        json_of(Model::Integer(n)) == JsonModel::Integer(n),
        json_of(Model::Text(s)) == JsonModel::Text(s),
        json_of(Model::Binary(bytes)) == JsonModel::Text(hex_text(bytes)),
        json_of(Model::RawText(bytes)) == JsonModel::Text(Seq::<char>::empty()),
        json_of(Model::Ext(tag, bytes)) == JsonModel::Null,
        json_of(Model::Array(items)) is Array && json_of(Model::Array(items))->Array_0.len()
            == items.len(),
        0 <= i < items.len() ==> json_of(Model::Array(items))->Array_0[i] == json_of(items[i]),
{
}

/// A dictionary becomes an object that has under each text what the dictionary
/// has there last.
pub proof fn dictionaries_become_objects(items: Seq<(Model, Model)>, i: int, key: Seq<char>)
    requires
        0 <= i < items.len(),
        items[i].0 == Model::Text(key),
        forall|j: int| 0 <= j < items.len() ==> (#[trigger] items[j]).0 is Text,
        forall|j: int| i < j < items.len() ==> (#[trigger] items[j]).0 != Model::Text(key),
    ensures
        member(json_of(Model::Dict(items)), key) == Some(json_of(items[i].1)),
{
    let entries = crate::json::json_entries(items);
    reveal_with_fuel(json_of, 2);
    reveal_with_fuel(crate::json::json_entries, 2);
    assert(json_of(Model::Dict(items)) == JsonModel::Object(crate::json::map_entries(entries)));
    crate::json::objects_hold_the_last_value(entries, key);
    assert forall|j: int| 0 <= j < entries.len() implies #[trigger] entries[j] == (
        items[j].0->Text_0,
        json_of(items[j].1),
    ) by {
        assert(items[j].0 is Text);
    }
    last_entry(entries, key, i, entries.len());
}

proof fn last_entry(entries: Seq<(Seq<char>, JsonModel)>, key: Seq<char>, i: int, n: nat)
    requires
        0 <= i < n <= entries.len(),
        entries[i].0 == key,
        forall|j: int| i < j < n ==> (#[trigger] entries[j]).0 != key,
    ensures
        crate::json::entry_named(entries, key, n) == Some(entries[i].1),
    decreases n,
{
    if i < n - 1 {
        assert(entries[n - 1].0 != key);
        last_entry(entries, key, i, (n - 1) as nat);
    }
}

/// The arguments of a request are the members of an object, each under its name;
/// where a name comes twice the last counts.
pub proof fn members_are_arguments(
    items: Seq<(Seq<char>, JsonModel)>,
    i: int,
    key: Seq<char>,
    n: nat,
)
    requires
        0 <= i < n <= items.len(),
        items[i].0 == key,
        forall|j: int| i < j < n ==> (#[trigger] items[j]).0 != key,
    ensures
        entry_kwargs(items, n).contains_key(key),
        entry_kwargs(items, n)[key] == packed(items[i].1),
        json_kwargs(Some(JsonModel::Object(items))) == entry_kwargs(items, items.len()),
        json_kwargs(None) == Map::<Seq<char>, Model>::empty(),
    decreases n,
{
    if i < n - 1 {
        assert(items[n - 1].0 != key);
        members_are_arguments(items, i, key, (n - 1) as nat);
    }
}

// ───────────────────────── chunked bodies ─────────────────────────

/// The size of a chunk may be followed by a semicolon and anything more.
pub proof fn extensions_are_passed_over(size: Seq<char>, more: Seq<char>)
    requires
        !size.contains(';'),
        trimmed(size) == size,
        trimmed(size.push(';') + more) == size.push(';') + more,
    ensures
        chunk_size(size.push(';') + more) == hex_size(size),
        chunk_size(size) == hex_size(size),
        size_token(size.push(';') + more) == size,
{
    let s = size.push(';') + more;
    assert forall|j: int| 0 <= j < size.len() implies s[j] != ';' && size[j] != ';' by {
        assert(s[j] == size[j]);
        assert(size.contains(size[j]));
    }
    lemma_first_index(s, ';', size.len() as int);
    lemma_first_index(size, ';', size.len() as int);
    assert(s.take(size.len() as int) =~= size);
}

/// A chunk of no bytes is the last; an empty line after it ends the body, and
/// what follows is left alone.
pub proof fn empty_chunks_end_the_body(rest: Seq<u8>)
    ensures
        ({
            let start = ReaderModel {
                pending: seq![0x30u8, 0x0d, 0x0a, 0x0d, 0x0a] + rest,
                stage: Stage::Size,
            };
            let a = read_step(start);
            let b = read_step(a.0);
            let c = read_step(b.0);
            &&& a.1 == Ok::<ChunkStepModel, ChunkErrorModel>(ChunkStepModel::Advanced)
            &&& b.1 == Ok::<ChunkStepModel, ChunkErrorModel>(ChunkStepModel::Advanced)
            &&& b.0 == (ReaderModel { pending: rest, stage: Stage::Done })
            &&& c == (b.0, Ok::<ChunkStepModel, ChunkErrorModel>(ChunkStepModel::Done))
        }),
{
    let bytes = seq![0x30u8, 0x0d, 0x0a, 0x0d, 0x0a] + rest;
    assert(bytes[0] == 0x30 && bytes[1] == 0x0d && bytes[2] == 0x0a && bytes[3] == 0x0d && bytes[4]
        == 0x0a);
    reveal_with_fuel(line_end, 3);
    assert(line_end(bytes, 0) == Some(1int));
    assert(bytes.take(1) =~= seq![0x30u8]);
    let zero = seq!['0'];
    let line = seq![0x30u8];
    assert(vstd::utf8::is_ascii_chars(zero));
    vstd::utf8::is_ascii_chars_encode_utf8(zero);
    assert(vstd::utf8::encode_utf8(zero) =~= line);
    vstd::utf8::encode_utf8_valid_utf8(zero);
    vstd::utf8::encode_utf8_decode_utf8(zero);
    assert(lossy(line) == zero);
    assert(crate::text::trim_start(zero) == zero);
    assert(crate::text::trim_end(zero) == zero);
    lemma_first_index(zero, ';', 1);
    assert(split_pair(zero, ';') is None);
    assert(zero.drop_last() =~= Seq::<char>::empty());
    reveal_with_fuel(crate::http::body::hex_value, 2);
    assert(hex_size(zero) == Some(0nat));
    let more = bytes.skip(3);
    assert(more =~= seq![0x0du8, 0x0a] + rest);
    assert(more[0] == 0x0d && more[1] == 0x0a);
    assert(line_end(more, 0) == Some(0int));
    assert(more.take(0) =~= Seq::<u8>::empty());
    let nothing = Seq::<char>::empty();
    assert(vstd::utf8::encode_utf8(nothing) =~= Seq::<u8>::empty());
    vstd::utf8::encode_utf8_valid_utf8(nothing);
    vstd::utf8::encode_utf8_decode_utf8(nothing);
    assert(lossy(Seq::<u8>::empty()) == nothing);
    assert(more.skip(2) =~= rest);
}

/// A chunk that no line end follows is an error, and so is a size that is no
/// number; until enough has come the reader waits.
pub proof fn broken_chunks_are_refused(pending: Seq<u8>, n: usize)
    ensures
        pending.len() >= 2 && !(pending[0] == 0x0d && pending[1] == 0x0a) ==> read_step(
            ReaderModel { pending, stage: Stage::Terminator },
        ).1 is Err,
        pending.len() < 2 ==> read_step(ReaderModel { pending, stage: Stage::Terminator }).1 == Ok::<
            ChunkStepModel,
            ChunkErrorModel,
        >(ChunkStepModel::More),
        pending.len() < n ==> read_step(ReaderModel { pending, stage: Stage::Data(n) }).1 == Ok::<
            ChunkStepModel,
            ChunkErrorModel,
        >(ChunkStepModel::More),
        pending.len() >= n ==> read_step(ReaderModel { pending, stage: Stage::Data(n) }).1 == Ok::<
            ChunkStepModel,
            ChunkErrorModel,
        >(ChunkStepModel::Data(pending.take(n as int))),
        line_end(pending, 0) is Some && chunk_size(lossy(pending.take(line_end(pending, 0)->0)))
            is None ==> read_step(ReaderModel { pending, stage: Stage::Size }).1 is Err,
        line_end(pending, 0) is None ==> read_step(ReaderModel { pending, stage: Stage::Size }).1
            == Ok::<ChunkStepModel, ChunkErrorModel>(ChunkStepModel::More),
{
}

/// A line ends at the first carriage return that a line feed follows.
pub proof fn lines_end_at_the_first_pair(b: Seq<u8>, from: int)
    requires
        0 <= from,
    ensures
        match line_end(b, from) {
            Some(i) => from <= i && i + 2 <= b.len() && b[i] == 13 && b[i + 1] == 10 && forall|
                j: int,
            |
                from <= j < i ==> !(#[trigger] b[j] == 13 && b[j + 1] == 10),
            None => forall|j: int|
                from <= j < b.len() - 1 ==> !(#[trigger] b[j] == 13 && b[j + 1] == 10),
        },
    decreases b.len() - from,
{
    if from + 2 <= b.len() && !(b[from] == 13 && b[from + 1] == 10) {
        lines_end_at_the_first_pair(b, from + 1);
    }
}

} // verus!
