//! The envelope of serialized values, and the keyword arguments of a call.
//!
//! A value travels as `[8 bytes metadata][8 bytes size][MessagePack]`; a zero
//! header stands for a value of any language, and a few transports wrap values
//! in headers of their own.

use crate::text::same;
use crate::value::{
    dict_view, leading_int, model_text, msgpack_bytes, msgpack_value, opt_model, pair_models, plain,
    read_unsigned, read_value, wire, write_value, Datum, Model,
};
use vstd::prelude::*;

verus! {

// ───────────────────────── envelope ─────────────────────────

/// The number that bytes write, least significant first.
pub open spec fn le_value(s: Seq<u8>) -> nat
    decreases s.len(),
{
    if s.len() == 0 {
        0
    } else {
        s[0] as nat + 256 * le_value(s.drop_first())
    }
}

proof fn le_value_bound(s: Seq<u8>)
    ensures
        le_value(s) < crate::bytes::capacity(s.len()),
    decreases s.len(),
{
    if s.len() > 0 {
        le_value_bound(s.drop_first());
    }
}

/// Reads eight bytes, least significant first.
fn read_le(b: &[u8], from: usize) -> (r: u64)
    requires
        from + 8 <= b@.len(),
    ensures
        r == le_value(b@.subrange(from as int, from + 8)),
{
    let ghost s = b@.subrange(from as int, from + 8);
    let mut n: u64 = 0;
    let mut i: usize = 8;
    assert(s.skip(8) =~= Seq::empty());
    while i > 0
        invariant
            i <= 8,
            from + 8 <= b.len(),
            s == b@.subrange(from as int, from + 8),
            n == le_value(s.skip(i as int)),
        decreases i,
    {
        let ghost t = s.skip(i as int - 1);
        proof {
            assert(t.drop_first() =~= s.skip(i as int));
            assert(t[0] == b@[from + i - 1]);
            le_value_bound(t);
            crate::bytes::capacities();
            capacity_up_to(t.len());
        }
        n = b[from + i - 1] as u64 + 256 * n;
        i = i - 1;
    }
    assert(s.skip(0) =~= s);
    n
}

proof fn capacity_up_to(n: nat)
    requires
        n <= 8,
    ensures
        crate::bytes::capacity(n) <= 0x1_0000_0000_0000_0000,
{
    reveal_with_fuel(crate::bytes::capacity, 9);
}

/// The value in the `size` bytes from `from` on, where there are so many and
/// `size` is not zero.
pub open spec fn sized_value(buf: Seq<u8>, from: int, size: int) -> Option<Model> {
    if 0 < size && from + size <= buf.len() {
        msgpack_value(buf.subrange(from, from + size))
    } else {
        None
    }
}

/// A value behind a header of 24 bytes and a little-endian size.
pub open spec fn wrapped_value(buf: Seq<u8>) -> Option<Model> {
    if buf.len() >= 32 {
        sized_value(buf, 32, le_value(buf.subrange(24, 32)) as u64 as usize as int)
    } else {
        None
    }
}

/// A value behind a header of 8 bytes and a size in MessagePack.
pub open spec fn headed_value(buf: Seq<u8>) -> Option<Model> {
    match leading_int(buf.subrange(8, 16)) {
        Some(size) => sized_value(buf, 16, size as usize as int),
        None => None,
    }
}

/// The value behind 16 bytes of header, or a bare one.
pub open spec fn bare_value(buf: Seq<u8>) -> Option<Model> {
    match msgpack_value(buf.skip(16)) {
        Some(m) => Some(m),
        None => msgpack_value(buf),
    }
}

/// The value of a serialized buffer: the first of the known forms that it has.
/// Binary data in the last form is a serialized buffer again.
pub open spec fn deserialized(buf: Seq<u8>) -> Option<Model>
    decreases buf.len(), 1int,
{
    if buf.len() < 16 {
        None
    } else if wrapped_value(buf) is Some {
        wrapped_value(buf)
    } else if headed_value(buf) is Some {
        headed_value(buf)
    } else {
        match bare_value(buf) {
            Some(m) => unwrapped(m, buf.len()),
            None => None,
        }
    }
}

/// What a value stands for that was found in a buffer of `bound` bytes.
pub open spec fn unwrapped(m: Model, bound: nat) -> Option<Model>
    decreases bound, 0int,
{
    match m {
        Model::Binary(inner) => if inner.len() < bound {
            match deserialized(inner) {
                Some(v) => Some(v),
                None => match msgpack_value(inner) {
                    Some(v) => unwrapped(v, inner.len()),
                    None => None,
                },
            }
        } else {
            None
        },
        _ => Some(m),
    }
}

fn read_sized(buf: &[u8], from: usize, size: usize) -> (r: Option<Datum>)
    requires
        from <= buf@.len(),
    ensures
        opt_model(r) == sized_value(buf@, from as int, size as int),
{
    if size == 0 || size > buf.len() - from {
        return None;
    }
    read_value(vstd::slice::slice_subrange(buf, from, from + size))
}

/// Reads a serialized value.
pub fn yr_deserialize(buf: &[u8]) -> (r: Option<Datum>)
    ensures
        opt_model(r) == deserialized(buf@),
    decreases buf@.len(), 1int,
{
    if buf.len() < 16 {
        return None;
    }
    if buf.len() >= 32 {
        let size: usize = read_le(buf, 24) as usize;
        if let Some(v) = read_sized(buf, 32, size) {
            return Some(v);
        }
    }
    if let Some(size) = read_unsigned(vstd::slice::slice_subrange(buf, 8, 16)) {
        if let Some(v) = read_sized(buf, 16, size as usize) {
            return Some(v);
        }
    }
    let tail = vstd::slice::slice_subrange(buf, 16, buf.len());
    assert(tail@ =~= buf@.skip(16));
    match read_value(tail) {
        Some(v) => unwrap_msgpack_binary(v, Ghost(buf@.len())),
        None => match read_value(buf) {
            Some(v) => unwrap_msgpack_binary(v, Ghost(buf@.len())),
            None => None,
        },
    }
}

fn unwrap_msgpack_binary(value: Datum, Ghost(bound): Ghost<nat>) -> (r: Option<Datum>)
    requires
        value matches Datum::Binary(inner) ==> inner@.len() < bound,
    ensures
        opt_model(r) == unwrapped(value@, bound),
    decreases bound, 0int,
{
    match value {
        Datum::Binary(inner) => match yr_deserialize(inner.as_slice()) {
            Some(v) => Some(v),
            None => match read_value(inner.as_slice()) {
                Some(v) => unwrap_msgpack_binary(v, Ghost(inner@.len())),
                None => None,
            },
        },
        other => Some(other),
    }
}

/// A serialized value: a zero header, then MessagePack.
pub open spec fn serialized(m: Model) -> Seq<u8> {
    Seq::new(16, |i: int| 0u8) + msgpack_bytes(wire(m))
}

/// Serializes a value. It reads back as it was, unless its bytes look like
/// those of a value behind a longer header; binary data comes back as what it
/// holds.
pub fn yr_serialize_value(v: &Datum) -> (r: Vec<u8>)
    ensures
        r@ == serialized(v@),
        plain(v@, 500) && !(v@ is Binary) && wrapped_value(r@) is None ==> deserialized(r@) == Some(
            v@,
        ),
{
    let mut buf: Vec<u8> = vec![0; 16];
    let mut mp = write_value(v);
    let ghost bytes = mp@;
    buf.append(&mut mp);
    proof {
        assert(buf@ =~= serialized(v@));
        assert(buf@.skip(16) =~= bytes);
        assert(buf@.subrange(8, 16)[0] == 0);
        assert(headed_value(buf@) is None);
    }
    buf
}

// ───────────────────────── keyword arguments ─────────────────────────

/// Keyword arguments; a later one takes the place of an earlier one of the
/// same name.
pub struct Kwargs {
    pub entries: Vec<(String, Datum)>,
}

/// What a list of named values maps each name to.
pub open spec fn last_values(s: Seq<(String, Datum)>) -> Map<Seq<char>, Model>
    decreases s.len(),
{
    if s.len() == 0 {
        Map::empty()
    } else {
        last_values(s.drop_last()).insert(s.last().0@, s.last().1@)
    }
}

impl View for Kwargs {
    type V = Map<Seq<char>, Model>;

    open spec fn view(&self) -> Map<Seq<char>, Model> {
        last_values(self.entries@)
    }
}

proof fn last_values_at(s: Seq<(String, Datum)>, i: int, key: Seq<char>)
    requires
        -1 <= i < s.len(),
        i >= 0 ==> s[i].0@ == key,
        forall|j: int| i < j < s.len() ==> s[j].0@ != key,
    ensures
        i >= 0 ==> last_values(s).contains_key(key) && last_values(s)[key] == s[i].1@,
        i < 0 ==> !last_values(s).contains_key(key),
    decreases s.len(),
{
    if s.len() > 0 && i < s.len() - 1 {
        last_values_at(s.drop_last(), i, key);
    }
}

/// The value of a name.
pub open spec fn named(kw: Map<Seq<char>, Model>, key: Seq<char>) -> Option<Model> {
    if kw.contains_key(key) {
        Some(kw[key])
    } else {
        None
    }
}

impl Kwargs {
    /// No arguments.
    pub fn new() -> (r: Kwargs)
        ensures
            r@ == Map::<Seq<char>, Model>::empty(),
    {
        Kwargs { entries: Vec::new() }
    }

    /// Names a value.
    pub fn insert(&mut self, key: String, value: Datum)
        ensures
            final(self)@ == old(self)@.insert(key@, value@),
    {
        let ghost before = self.entries@;
        self.entries.push((key, value));
        assert(self.entries@.drop_last() =~= before);
    }

    /// Whether there are no arguments.
    pub fn is_empty(&self) -> (r: bool)
        ensures
            r == (self@ == Map::<Seq<char>, Model>::empty()),
    {
        if self.entries.len() == 0 {
            return true;
        }
        proof {
            let key = self.entries@.last().0@;
            assert(self@.contains_key(key));
        }
        false
    }

    /// The value of a name.
    pub fn get(&self, key: &str) -> (r: Option<&Datum>)
        ensures
            match r {
                Some(v) => named(self@, key@) == Some(v@),
                None => named(self@, key@) is None,
            },
    {
        let mut i: usize = self.entries.len();
        while i > 0
            invariant
                i <= self.entries@.len(),
                forall|j: int| i <= j < self.entries@.len() ==> self.entries@[j].0@ != key@,
            decreases i,
        {
            i = i - 1;
            if same(self.entries[i].0.as_str(), key) {
                proof {
                    last_values_at(self.entries@, i as int, key@);
                }
                return Some(&self.entries[i].1);
            }
        }
        proof {
            last_values_at(self.entries@, -1, key@);
        }
        None
    }
}

/// A positional argument of a call, serialized.
#[derive(Debug, PartialEq, Eq)]
pub struct Arg {
    pub value: Vec<u8>,
}

/// The named values of a dictionary: its entries whose key is a string.
pub open spec fn string_entries(items: Seq<(Model, Model)>) -> Map<Seq<char>, Model>
    decreases items.len(),
{
    if items.len() == 0 {
        Map::empty()
    } else {
        let before = string_entries(items.drop_last());
        match items.last().0 {
            Model::Text(key) => before.insert(key, items.last().1),
            _ => before,
        }
    }
}

/// The named values of alternating keys and values from `start` up to `end`;
/// pairs that are not a string and a value are left out.
pub open spec fn alternating(args: Seq<Arg>, start: int, end: int) -> Map<Seq<char>, Model>
    decreases end - start,
{
    if end < start + 2 {
        Map::empty()
    } else {
        let before = alternating(args, start, end - 2);
        match (deserialized(args[end - 2].value@), deserialized(args[end - 1].value@)) {
            (Some(Model::Text(key)), Some(v)) => before.insert(key, v),
            _ => before,
        }
    }
}

/// The number of arguments from `start` on that come in pairs.
pub open spec fn paired_end(n: int, start: int) -> int {
    start + (n - start) / 2 * 2
}

/// The named values from `start` on: those of one dictionary, or of keys and
/// values in turn.
pub open spec fn kwargs_from(args: Seq<Arg>, start: int) -> Option<Map<Seq<char>, Model>> {
    if start >= args.len() {
        None
    } else {
        let listed = match deserialized(args[start].value@) {
            Some(Model::Dict(items)) => string_entries(items),
            _ => Map::empty(),
        };
        if listed != Map::<Seq<char>, Model>::empty() {
            Some(listed)
        } else {
            let m = alternating(args, start, paired_end(args.len() as int, start));
            if m != Map::<Seq<char>, Model>::empty() {
                Some(m)
            } else {
                None
            }
        }
    }
}

/// The keyword arguments of a call. The first argument is metadata, unless
/// nothing follows from the others.
pub open spec fn kwargs_of(args: Seq<Arg>) -> Map<Seq<char>, Model> {
    match kwargs_from(args, 1) {
        Some(m) => m,
        None => match kwargs_from(args, 0) {
            Some(m) => m,
            None => Map::empty(),
        },
    }
}

/// The named values of a dictionary.
pub fn dict_entries(items: Vec<(Datum, Datum)>) -> (r: Kwargs)
    ensures
        r@ == string_entries(pair_models(items@)),
{
    let ghost source = items@;
    let ghost all = pair_models(source);
    let mut m = Kwargs::new();
    assert(all.take(0) =~= Seq::empty());
    for item in it: items
        invariant
            it.seq() == source,
            all == pair_models(source),
            m@ == string_entries(all.take(it.index() as int)),
    {
        proof {
            let n = it.index() as int;
            assert(all.take(n + 1).drop_last() =~= all.take(n));
            assert(all.take(n + 1).last() == (item.0@, item.1@));
        }
        let (k, v) = item;
        if let Datum::Text(key) = k {
            m.insert(key, v);
        }
    }
    assert(all.take(all.len() as int) =~= all);
    m
}

fn parse_kwargs_from(args: &Vec<Arg>, start: usize) -> (r: Option<Kwargs>)
    ensures
        match r {
            Some(kw) => kwargs_from(args@, start as int) == Some(kw@),
            None => kwargs_from(args@, start as int) is None,
        },
{
    if start >= args.len() {
        return None;
    }
    if let Some(v) = yr_deserialize(args[start].value.as_slice()) {
        if let Datum::Dict(items) = v {
            proof {
                dict_view(v);
            }
            let m = dict_entries(items);
            if !m.is_empty() {
                return Some(m);
            }
        }
    }
    let mut m = Kwargs::new();
    let mut i: usize = start;
    assert(alternating(args@, start as int, start as int) == Map::<Seq<char>, Model>::empty());
    while i < args.len() && args.len() - i >= 2
        invariant
            start <= i <= args@.len(),
            (i - start) % 2 == 0,
            m@ == alternating(args@, start as int, i as int),
        decreases args@.len() - i,
    {
        let key = yr_deserialize(args[i].value.as_slice());
        let val = yr_deserialize(args[i + 1].value.as_slice());
        if let (Some(k), Some(v)) = (key, val) {
            if let Datum::Text(name) = k {
                m.insert(name, v);
            }
        }
        i = i + 2;
    }
    assert(i == paired_end(args@.len() as int, start as int));
    if m.is_empty() {
        None
    } else {
        Some(m)
    }
}

/// Reads the keyword arguments of a call.
pub fn parse_kwargs(args: &Vec<Arg>) -> (r: Kwargs)
    ensures
        r@ == kwargs_of(args@),
{
    match parse_kwargs_from(args, 1) {
        Some(m) => m,
        None => match parse_kwargs_from(args, 0) {
            Some(m) => m,
            None => Kwargs::new(),
        },
    }
}

/// The string that a name stands for.
pub open spec fn named_text(kw: Map<Seq<char>, Model>, key: Seq<char>) -> Option<Seq<char>> {
    match named(kw, key) {
        Some(m) => model_text(m),
        None => None,
    }
}

/// Reads a string argument.
pub fn kw_str(kw: &Kwargs, key: &str) -> (r: Option<String>)
    ensures
        crate::text::opt_view(r) == named_text(kw@, key@),
{
    match kw.get(key) {
        Some(v) => match v.as_str() {
            Some(s) => Some(s.to_owned()),
            None => None,
        },
        None => None,
    }
}

/// The integer that a name stands for.
pub open spec fn named_int(kw: Map<Seq<char>, Model>, key: Seq<char>) -> Option<i64> {
    match named(kw, key) {
        Some(m) => crate::value::model_int(m),
        None => None,
    }
}

/// Reads an integer argument.
pub fn kw_i64(kw: &Kwargs, key: &str) -> (r: Option<i64>)
    ensures
        r == named_int(kw@, key@),
{
    match kw.get(key) {
        Some(v) => v.as_i64(),
        None => None,
    }
}

/// The truth value that a name stands for.
pub open spec fn named_bool(kw: Map<Seq<char>, Model>, key: Seq<char>) -> Option<bool> {
    match named(kw, key) {
        Some(m) => crate::value::model_bool(m),
        None => None,
    }
}

/// Reads a boolean argument.
pub fn kw_bool(kw: &Kwargs, key: &str) -> (r: Option<bool>)
    ensures
        r == named_bool(kw@, key@),
{
    match kw.get(key) {
        Some(v) => v.as_bool(),
        None => None,
    }
}

/// A dictionary with string keys.
pub open spec fn dict(pairs: Seq<(Seq<char>, Model)>) -> Model {
    Model::Dict(Seq::new(pairs.len(), |i: int| (Model::Text(pairs[i].0), pairs[i].1)))
}

/// The model of a list of named values.
pub open spec fn named_models(pairs: Seq<(&str, Datum)>) -> Seq<(Seq<char>, Model)> {
    Seq::new(pairs.len(), |i: int| (pairs[i].0@, pairs[i].1@))
}

/// Makes a dictionary with string keys.
pub fn map_value(pairs: Vec<(&str, Datum)>) -> (r: Datum)
    ensures
        r@ == dict(named_models(pairs@)),
{
    let ghost source = pairs@;
    let ghost all = dict(named_models(source))->Dict_0;
    let mut out: Vec<(Datum, Datum)> = Vec::new();
    assert(pair_models(out@) =~= all.take(0));
    for pair in it: pairs
        invariant
            it.seq() == source,
            all == dict(named_models(source))->Dict_0,
            pair_models(out@) == all.take(it.index() as int),
    {
        let ghost before = out@;
        let (key, value) = pair;
        out.push((Datum::text(key), value));
        assert(pair_models(out@) =~= pair_models(before).push((Model::Text(key@), value@)));
        assert(pair_models(out@) =~= all.take(it.index() as int + 1));
    }
    assert(all.take(all.len() as int) =~= all);
    proof {
        dict_view(Datum::Dict(out));
    }
    Datum::Dict(out)
}

} // verus!
