//! MessagePack values: the library's own tree of plain values, its model, and
//! the conversion from and to the `rmpv` tree.
use crate::bytes::be_value;
use rmp::decode::RmpRead;
use vstd::prelude::*;

verus! {

/// A MessagePack value. Floats are kept as their IEEE 754 bit patterns, and a
/// string whose bytes are not UTF-8 as those bytes.
#[derive(Debug, PartialEq)]
pub enum Datum {
    Nil,
    Boolean(bool),
    Unsigned(u64),
    Signed(i64),
    Float32(u32),
    Float64(u64),
    Text(String),
    RawText(Vec<u8>),
    Binary(Vec<u8>),
    Array(Vec<Datum>),
    Dict(Vec<(Datum, Datum)>),
    Ext(i8, Vec<u8>),
}

/// What a [`Datum`] stands for. Both integer forms mean their number.
pub enum Model {
    Nil,
    Boolean(bool),
    Integer(int),
    Float32(u32),
    Float64(u64),
    Text(Seq<char>),
    RawText(Seq<u8>),
    Binary(Seq<u8>),
    Array(Seq<Model>),
    Dict(Seq<(Model, Model)>),
    Ext(i8, Seq<u8>),
}

/// The models of a sequence of values.
pub open spec fn models(items: Seq<Datum>) -> Seq<Model> {
    Seq::new(items.len(), |i: int| items[i]@)
}

/// The models of a sequence of pairs of values.
pub open spec fn pair_models(items: Seq<(Datum, Datum)>) -> Seq<(Model, Model)> {
    Seq::new(items.len(), |i: int| (items[i].0@, items[i].1@))
}

impl View for Datum {
    type V = Model;

    open spec fn view(&self) -> Model
        decreases self,
    {
        match self {
            Datum::Nil => Model::Nil,
            Datum::Boolean(b) => Model::Boolean(*b),
            Datum::Unsigned(n) => Model::Integer(*n as int),
            Datum::Signed(n) => Model::Integer(*n as int),
            Datum::Float32(b) => Model::Float32(*b),
            Datum::Float64(b) => Model::Float64(*b),
            Datum::Text(s) => Model::Text(s@),
            Datum::RawText(b) => Model::RawText(b@),
            Datum::Binary(b) => Model::Binary(b@),
            Datum::Array(items) => Model::Array(
                Seq::new(
                    items@.len(),
                    |i: int|
                        if 0 <= i < items@.len() {
                            items@[i].view()
                        } else {
                            Model::Nil
                        },
                ),
            ),
            Datum::Dict(items) => Model::Dict(
                Seq::new(
                    items@.len(),
                    |i: int|
                        if 0 <= i < items@.len() {
                            (items@[i].0.view(), items@[i].1.view())
                        } else {
                            (Model::Nil, Model::Nil)
                        },
                ),
            ),
            Datum::Ext(tag, b) => Model::Ext(*tag, b@),
        }
    }
}

/// The view of an array.
pub broadcast proof fn array_view(v: Datum)
    requires
        v is Array,
    ensures
        #[trigger] v@ == Model::Array(models(v->Array_0@)),
{
    reveal_with_fuel(<Datum as View>::view, 2);
    assert(v@->Array_0 =~= models(v->Array_0@));
}

/// The view of a dictionary.
pub broadcast proof fn dict_view(v: Datum)
    requires
        v is Dict,
    ensures
        #[trigger] v@ == Model::Dict(pair_models(v->Dict_0@)),
{
    reveal_with_fuel(<Datum as View>::view, 2);
    assert(v@->Dict_0 =~= pair_models(v->Dict_0@));
}

/// One level of an `rmpv` tree.
pub enum Node {
    Nil,
    Boolean(bool),
    Integer(Option<u64>, Option<i64>),
    Float32(u32),
    Float64(u64),
    Text(Option<String>, Vec<u8>),
    Binary(Vec<u8>),
    Array(Vec<rmpv::Value>),
    Dict(Vec<(rmpv::Value, rmpv::Value)>),
    Ext(i8, Vec<u8>),
}

/// A tree of `rmpv`.
#[verifier::external_type_specification]
#[verifier::external_body]
pub struct ExRmpvTree(rmpv::Value);

/// What an `rmpv` tree holds.
pub uninterp spec fn content(v: rmpv::Value) -> Model;

/// What a list of trees holds.
pub open spec fn contents(items: Seq<rmpv::Value>) -> Seq<Model> {
    Seq::new(items.len(), |i: int| content(items[i]))
}

/// What a list of pairs of trees holds.
pub open spec fn pair_contents(items: Seq<(rmpv::Value, rmpv::Value)>) -> Seq<(Model, Model)> {
    Seq::new(items.len(), |i: int| (content(items[i].0), content(items[i].1)))
}

/// The model of a tree whose first level is `n`.
pub open spec fn node_model(n: Node) -> Model {
    match n {
        Node::Nil => Model::Nil,
        Node::Boolean(b) => Model::Boolean(b),
        Node::Integer(u, s) => Model::Integer(
            if u is Some {
                u->0 as int
            } else {
                s->0 as int
            },
        ),
        Node::Float32(b) => Model::Float32(b),
        Node::Float64(b) => Model::Float64(b),
        Node::Text(s, b) => if s is Some {
            Model::Text(s->0@)
        } else {
            Model::RawText(b@)
        },
        Node::Binary(b) => Model::Binary(b@),
        Node::Array(items) => Model::Array(contents(items@)),
        Node::Dict(items) => Model::Dict(pair_contents(items@)),
        Node::Ext(tag, b) => Model::Ext(tag, b@),
    }
}

/// Takes an `rmpv::Value` apart by one level. An integer comes as what
/// `Integer::as_u64` and `Integer::as_i64` give, of which one is always
/// present; a string as what `Utf8String::as_str` gives, with its bytes.
#[verifier::external_body]
fn open_node(v: rmpv::Value) -> (n: Node)
    ensures
        node_model(n) == content(v),
        n matches Node::Integer(u, s) ==> u is Some || s is Some,
{
    match v {
        rmpv::Value::Nil => Node::Nil,
        rmpv::Value::Boolean(b) => Node::Boolean(b),
        rmpv::Value::Integer(i) => Node::Integer(i.as_u64(), i.as_i64()),
        rmpv::Value::F32(x) => Node::Float32(x.to_bits()),
        rmpv::Value::F64(x) => Node::Float64(x.to_bits()),
        rmpv::Value::String(s) => Node::Text(s.as_str().map(String::from), s.into_bytes()),
        rmpv::Value::Binary(b) => Node::Binary(b),
        rmpv::Value::Array(items) => Node::Array(items),
        rmpv::Value::Map(items) => Node::Dict(items),
        rmpv::Value::Ext(tag, b) => Node::Ext(tag, b),
    }
}

/// The library's form of an `rmpv` tree.
fn from_rmpv(v: rmpv::Value) -> (r: Datum)
    ensures
        r@ == content(v),
    decreases content(v),
{
    let ghost whole = content(v);
    match open_node(v) {
        Node::Nil => Datum::Nil,
        Node::Boolean(b) => Datum::Boolean(b),
        Node::Integer(Some(n), _) => Datum::Unsigned(n),
        Node::Integer(None, Some(n)) => Datum::Signed(n),
        Node::Integer(None, None) => Datum::Nil,
        Node::Float32(b) => Datum::Float32(b),
        Node::Float64(b) => Datum::Float64(b),
        Node::Text(Some(s), _) => Datum::Text(s),
        Node::Text(None, b) => Datum::RawText(b),
        Node::Binary(b) => Datum::Binary(b),
        Node::Array(items) => {
            let ghost all = items@;
            let mut out: Vec<Datum> = Vec::new();
            for item in it: items
                invariant
                    it.seq() == all,
                    whole == content(v),
                    whole == Model::Array(contents(all)),
                    models(out@) == contents(all).take(it.index() as int),
            {
                proof {
                    assert(content(item) == contents(all)[it.index() as int]);
                    assert(decreases_to!(whole => whole->Array_0));
                    assert(decreases_to!(contents(all) => contents(all)[it.index() as int]));
                }
                let ghost before = out@;
                let next = from_rmpv(item);
                out.push(next);
                assert(models(out@) =~= models(before).push(next@));
                assert(models(out@) =~= contents(all).take(it.index() as int + 1));
            }
            proof {
                assert(contents(all).take(all.len() as int) =~= contents(all));
                array_view(Datum::Array(out));
            }
            Datum::Array(out)
        },
        Node::Dict(items) => {
            let ghost all = items@;
            let mut out: Vec<(Datum, Datum)> = Vec::new();
            for item in it: items
                invariant
                    it.seq() == all,
                    whole == content(v),
                    whole == Model::Dict(pair_contents(all)),
                    pair_models(out@) == pair_contents(all).take(it.index() as int),
            {
                proof {
                    let pair = pair_contents(all)[it.index() as int];
                    assert((content(item.0), content(item.1)) == pair);
                    assert(decreases_to!(whole => whole->Dict_0));
                    assert(decreases_to!(pair_contents(all) => pair));
                    assert(decreases_to!(pair => pair.0));
                    assert(decreases_to!(pair => pair.1));
                }
                let ghost before = out@;
                let (left, right) = item;
                let key = from_rmpv(left);
                let val = from_rmpv(right);
                out.push((key, val));
                assert(pair_models(out@) =~= pair_models(before).push((key@, val@)));
                assert(pair_models(out@) =~= pair_contents(all).take(it.index() as int + 1));
            }
            proof {
                assert(pair_contents(all).take(all.len() as int) =~= pair_contents(all));
                dict_view(Datum::Dict(out));
            }
            Datum::Dict(out)
        },
        Node::Ext(tag, b) => Datum::Ext(tag, b),
    }
}

// ───────────────────────── building ─────────────────────────

/// One level of a tree to be built.
pub enum Parts {
    Nil,
    Boolean(bool),
    Unsigned(u64),
    Signed(i64),
    Text(String),
    Binary(Vec<u8>),
    Array(Vec<rmpv::Value>),
    Dict(Vec<(rmpv::Value, rmpv::Value)>),
    Ext(i8, Vec<u8>),
}

/// The model of a tree whose first level is `p`.
pub open spec fn parts_model(p: Parts) -> Model {
    match p {
        Parts::Nil => Model::Nil,
        Parts::Boolean(b) => Model::Boolean(b),
        Parts::Unsigned(n) => Model::Integer(n as int),
        Parts::Signed(n) => Model::Integer(n as int),
        Parts::Text(s) => Model::Text(s@),
        Parts::Binary(b) => Model::Binary(b@),
        Parts::Array(items) => Model::Array(contents(items@)),
        Parts::Dict(items) => Model::Dict(pair_contents(items@)),
        Parts::Ext(tag, b) => Model::Ext(tag, b@),
    }
}

/// Makes an `rmpv::Value::F32` of a bit pattern, which `rmp`'s
/// `RmpRead::read_data_f32` reads from its big-endian bytes.
#[verifier::external_body]
fn close_float32(bits: u32) -> (v: rmpv::Value)
    ensures
        content(v) == Model::Float32(bits),
{
    rmpv::Value::F32((&bits.to_be_bytes()[..]).read_data_f32().unwrap())
}

/// Makes an `rmpv::Value::F64` of a bit pattern, which `rmp`'s
/// `RmpRead::read_data_f64` reads from its big-endian bytes.
#[verifier::external_body]
fn close_float64(bits: u64) -> (v: rmpv::Value)
    ensures
        content(v) == Model::Float64(bits),
{
    rmpv::Value::F64((&bits.to_be_bytes()[..]).read_data_f64().unwrap())
}

/// Makes an `rmpv::Value` of one level: a variant of it, or for an integer and
/// a string `Value::from`.
#[verifier::external_body]
fn close_node(p: Parts) -> (v: rmpv::Value)
    ensures
        content(v) == parts_model(p),
{
    match p {
        Parts::Nil => rmpv::Value::Nil,
        Parts::Boolean(b) => rmpv::Value::Boolean(b),
        Parts::Unsigned(n) => rmpv::Value::from(n),
        Parts::Signed(n) => rmpv::Value::from(n),
        Parts::Text(s) => rmpv::Value::from(s),
        Parts::Binary(b) => rmpv::Value::Binary(b),
        Parts::Array(items) => rmpv::Value::Array(items),
        Parts::Dict(items) => rmpv::Value::Map(items),
        Parts::Ext(tag, b) => rmpv::Value::Ext(tag, b),
    }
}

/// What a value is written as: a string whose bytes are not UTF-8 goes out as
/// binary data.
pub open spec fn wire(m: Model) -> Model
    decreases m,
{
    match m {
        Model::RawText(b) => Model::Binary(b),
        Model::Array(items) => Model::Array(
            Seq::new(
                items.len(),
                |i: int|
                    if 0 <= i < items.len() {
                        wire(items[i])
                    } else {
                        Model::Nil
                    },
            ),
        ),
        Model::Dict(items) => Model::Dict(
            Seq::new(
                items.len(),
                |i: int|
                    if 0 <= i < items.len() {
                        (wire(items[i].0), wire(items[i].1))
                    } else {
                        (Model::Nil, Model::Nil)
                    },
            ),
        ),
        _ => m,
    }
}

/// The `rmpv` tree that a value is written as.
pub(crate) fn to_rmpv(v: &Datum) -> (r: rmpv::Value)
    ensures
        content(r) == wire(v@),
    decreases v,
{
    match v {
        Datum::Nil => close_node(Parts::Nil),
        Datum::Boolean(b) => close_node(Parts::Boolean(*b)),
        Datum::Unsigned(n) => close_node(Parts::Unsigned(*n)),
        Datum::Signed(n) => close_node(Parts::Signed(*n)),
        Datum::Float32(b) => close_float32(*b),
        Datum::Float64(b) => close_float64(*b),
        Datum::Text(s) => close_node(Parts::Text(s.clone())),
        Datum::RawText(b) => close_node(Parts::Binary(crate::bytes::copy_all(b.as_slice()))),
        Datum::Binary(b) => close_node(Parts::Binary(crate::bytes::copy_all(b.as_slice()))),
        Datum::Ext(tag, b) => close_node(Parts::Ext(*tag, crate::bytes::copy_all(b.as_slice()))),
        Datum::Array(items) => {
            let mut out: Vec<rmpv::Value> = Vec::new();
            for i in 0..items.len()
                invariant
                    *v == Datum::Array(*items),
                    out@.len() == i,
                    forall|j: int| 0 <= j < i ==> content(#[trigger] out@[j]) == wire(items@[j]@),
            {
                assert(decreases_to!(v => v->Array_0));
                    assert(decreases_to!(v->Array_0 => items[i as int]));
                out.push(to_rmpv(&items[i]));
            }
            proof {
                array_view(*v);
                assert(contents(out@) =~= wire(v@)->Array_0) by {
                    reveal_with_fuel(wire, 2);
                    assert forall|j: int| 0 <= j < out@.len() implies contents(out@)[j] == wire(
                        v@,
                    )->Array_0[j] by {
                        assert(content(out@[j]) == wire(items@[j]@));
                    }
                }
            }
            close_node(Parts::Array(out))
        },
        Datum::Dict(items) => {
            let mut out: Vec<(rmpv::Value, rmpv::Value)> = Vec::new();
            for i in 0..items.len()
                invariant
                    *v == Datum::Dict(*items),
                    out@.len() == i,
                    forall|j: int|
                        0 <= j < i ==> content((#[trigger] out@[j]).0) == wire(items@[j].0@)
                            && content(out@[j].1) == wire(items@[j].1@),
            {
                assert(decreases_to!(v => v->Dict_0));
                    assert(decreases_to!(v->Dict_0 => items[i as int]));
                    assert(decreases_to!(items[i as int] => items[i as int].0));
                assert(decreases_to!(items[i as int] => items[i as int].1));
                let key = to_rmpv(&items[i].0);
                let val = to_rmpv(&items[i].1);
                out.push((key, val));
            }
            proof {
                dict_view(*v);
                assert(pair_contents(out@) =~= wire(v@)->Dict_0) by {
                    reveal_with_fuel(wire, 2);
                    assert forall|j: int| 0 <= j < out@.len() implies pair_contents(out@)[j]
                        == wire(v@)->Dict_0[j] by {
                        assert(content(out@[j].0) == wire(items@[j].0@));
                    }
                }
            }
            close_node(Parts::Dict(out))
        },
    }
}

// ───────────────────────── bytes ─────────────────────────

/// The value at the beginning of MessagePack bytes.
pub uninterp spec fn msgpack_value(b: Seq<u8>) -> Option<Model>;

/// The MessagePack bytes of a value.
pub uninterp spec fn msgpack_bytes(m: Model) -> Seq<u8>;

/// The number in the `width` bytes after the first, if they are there.
pub open spec fn number_after(b: Seq<u8>, width: int) -> Option<u64> {
    if b.len() > width {
        Some(be_value(b.subrange(1, width + 1)) as u64)
    } else {
        None
    }
}

/// The unsigned integer at the beginning of MessagePack bytes. A first byte
/// below 128 is the integer itself. Others say how many bytes follow, and
/// whether they have a sign, which has to be positive.
pub open spec fn leading_int(b: Seq<u8>) -> Option<u64> {
    if b.len() == 0 {
        None
    } else if b[0] < 128 {
        Some(b[0] as u64)
    } else if 0xcc <= b[0] <= 0xcf {
        number_after(b, integer_width(b[0] - 0xcc))
    } else if 0xd0 <= b[0] <= 0xd3 && b.len() > 1 && b[1] < 128 {
        number_after(b, integer_width(b[0] - 0xd0))
    } else {
        None
    }
}

/// The number of bytes of an integer: 2 to the power of `size`.
pub open spec fn integer_width(size: int) -> int {
    if size == 0 {
        1
    } else if size == 1 {
        2
    } else if size == 2 {
        4
    } else {
        8
    }
}

/// A value whose nesting and sizes MessagePack and its reader take: containers
/// nested at most `depth` deep, lengths of 32 bits, integers of 64 bits.
pub open spec fn plain(m: Model, depth: nat) -> bool
    decreases m,
{
    match m {
        Model::Integer(n) => i64::MIN <= n <= u64::MAX,
        Model::Text(s) => vstd::utf8::encode_utf8(s).len() < 0x1_0000_0000,
        Model::RawText(_) => false,
        Model::Binary(b) => b.len() < 0x1_0000_0000,
        Model::Ext(_, b) => b.len() < 0x1_0000_0000,
        Model::Array(items) => depth > 0 && items.len() < 0x1_0000_0000 && forall|i: int|
            0 <= i < items.len() ==> plain(#[trigger] items[i], (depth - 1) as nat),
        Model::Dict(items) => depth > 0 && items.len() < 0x1_0000_0000 && forall|i: int|
            0 <= i < items.len() ==> plain((#[trigger] items[i]).0, (depth - 1) as nat) && plain(
                items[i].1,
                (depth - 1) as nat,
            ),
        _ => true,
    }
}

/// `rmpv::decode::read_value` on a slice: the value that the bytes begin with.
/// Binary data that they begin with is shorter than they are.
#[verifier::external_body]
fn read_tree(b: &[u8]) -> (r: Option<rmpv::Value>)
    ensures
        match r {
            Some(v) => msgpack_value(b@) == Some(content(v)) && (content(v) matches Model::Binary(
                inner,
            ) ==> inner.len() < b@.len()),
            None => msgpack_value(b@) is None,
        },
{
    rmpv::decode::read_value(&mut &b[..]).ok()
}

/// `rmpv::encode::write_value` into a `Vec`, which does not fail. A value
/// whose nesting and sizes the reader takes is read back as it was.
#[verifier::external_body]
fn write_tree(v: &rmpv::Value) -> (r: Vec<u8>)
    ensures
        r@ == msgpack_bytes(content(*v)),
        plain(content(*v), 500) ==> msgpack_value(r@) == Some(content(*v)),
{
    let mut out = Vec::new();
    let _ = rmpv::encode::write_value(&mut out, v);
    out
}

/// `rmp::decode::read_int` for `u64` on a slice: the integer that the bytes
/// begin with, in any of its widths, if they begin with one that is not
/// negative and are long enough for it.
#[verifier::external_body]
pub(crate) fn read_unsigned(b: &[u8]) -> (r: Option<u64>)
    ensures
        r == leading_int(b@),
{
    rmp::decode::read_int::<u64, _>(&mut &b[..]).ok()
}

/// The model of an optional value.
pub open spec fn opt_model(v: Option<Datum>) -> Option<Model> {
    match v {
        Some(d) => Some(d@),
        None => None,
    }
}

/// Reads the value that MessagePack bytes begin with.
pub fn read_value(b: &[u8]) -> (r: Option<Datum>)
    ensures
        opt_model(r) == msgpack_value(b@),
        r matches Some(Datum::Binary(inner)) ==> inner@.len() < b@.len(),
{
    match read_tree(b) {
        Some(v) => Some(from_rmpv(v)),
        None => None,
    }
}

proof fn plain_is_wire(m: Model, depth: nat)
    requires
        plain(m, depth),
    ensures
        wire(m) == m,
    decreases m,
{
    match m {
        Model::Array(items) => {
            assert forall|i: int| 0 <= i < items.len() implies wire(#[trigger] items[i])
                == items[i] by {
                plain_is_wire(items[i], (depth - 1) as nat);
            }
            assert(wire(m)->Array_0 =~= items);
        },
        Model::Dict(items) => {
            assert forall|i: int| 0 <= i < items.len() implies wire((#[trigger] items[i]).0)
                == items[i].0 && wire(items[i].1) == items[i].1 by {
                plain_is_wire(items[i].0, (depth - 1) as nat);
                plain_is_wire(items[i].1, (depth - 1) as nat);
            }
            assert(wire(m)->Dict_0 =~= items);
        },
        _ => {},
    }
}

/// Writes a value in MessagePack.
pub fn write_value(v: &Datum) -> (r: Vec<u8>)
    ensures
        r@ == msgpack_bytes(wire(v@)),
        plain(v@, 500) ==> msgpack_value(r@) == Some(v@),
{
    proof {
        if plain(v@, 500) {
            plain_is_wire(v@, 500);
        }
    }
    write_tree(&to_rmpv(v))
}

/// What `rmpv` shows of a value.
pub uninterp spec fn display_text(m: Model) -> Seq<char>;

/// `std::fmt::Display` for `rmpv::Value`.
#[verifier::external_body]
fn show_tree(v: &rmpv::Value) -> (r: String)
    ensures
        r@ == display_text(content(*v)),
{
    v.to_string()
}

/// What is shown of a value.
pub fn display(v: &Datum) -> (r: String)
    ensures
        r@ == display_text(wire(v@)),
{
    show_tree(&to_rmpv(v))
}

// ───────────────────────── access ─────────────────────────

/// The text of a string value.
pub open spec fn model_text(m: Model) -> Option<Seq<char>> {
    match m {
        Model::Text(s) => Some(s),
        _ => None,
    }
}

/// The number of an integer value that fits an `i64`.
pub open spec fn model_int(m: Model) -> Option<i64> {
    match m {
        Model::Integer(n) => if i64::MIN <= n <= i64::MAX {
            Some(n as i64)
        } else {
            None
        },
        _ => None,
    }
}

/// The truth of a boolean value.
pub open spec fn model_bool(m: Model) -> Option<bool> {
    match m {
        Model::Boolean(b) => Some(b),
        _ => None,
    }
}

impl Datum {
    /// A string value.
    pub fn text(s: &str) -> (r: Datum)
        ensures
            r@ == Model::Text(s@),
    {
        Datum::Text(s.to_owned())
    }

    /// An integer value.
    pub fn integer(n: i64) -> (r: Datum)
        ensures
            r@ == Model::Integer(n as int),
    {
        Datum::Signed(n)
    }

    /// The text, where the value is one.
    pub fn as_str(&self) -> (r: Option<&str>)
        ensures
            match r {
                Some(s) => model_text(self@) == Some(s@),
                None => model_text(self@) is None,
            },
    {
        match self {
            Datum::Text(s) => Some(s.as_str()),
            _ => None,
        }
    }

    /// The integer, where the value is one that fits.
    pub fn as_i64(&self) -> (r: Option<i64>)
        ensures
            r == model_int(self@),
    {
        match self {
            Datum::Signed(n) => Some(*n),
            Datum::Unsigned(n) => {
                if *n <= 0x7fff_ffff_ffff_ffff {
                    Some(*n as i64)
                } else {
                    None
                }
            },
            _ => None,
        }
    }

    /// The truth value, where the value is one.
    pub fn as_bool(&self) -> (r: Option<bool>)
        ensures
            r == model_bool(self@),
    {
        match self {
            Datum::Boolean(b) => Some(*b),
            _ => None,
        }
    }

    /// A copy of the value.
    pub fn duplicate(&self) -> (r: Datum)
        ensures
            r@ == self@,
        decreases self,
    {
        match self {
            Datum::Nil => Datum::Nil,
            Datum::Boolean(b) => Datum::Boolean(*b),
            Datum::Unsigned(n) => Datum::Unsigned(*n),
            Datum::Signed(n) => Datum::Signed(*n),
            Datum::Float32(b) => Datum::Float32(*b),
            Datum::Float64(b) => Datum::Float64(*b),
            Datum::Text(s) => Datum::Text(s.clone()),
            Datum::RawText(b) => Datum::RawText(crate::bytes::copy_all(b.as_slice())),
            Datum::Binary(b) => Datum::Binary(crate::bytes::copy_all(b.as_slice())),
            Datum::Ext(tag, b) => Datum::Ext(*tag, crate::bytes::copy_all(b.as_slice())),
            Datum::Array(items) => {
                let mut out: Vec<Datum> = Vec::new();
                for i in 0..items.len()
                    invariant
                        *self == Datum::Array(*items),
                        out@.len() == i,
                        forall|j: int| 0 <= j < i ==> (#[trigger] out@[j])@ == items@[j]@,
                {
                    assert(decreases_to!(self => self->Array_0));
                    assert(decreases_to!(self->Array_0 => items[i as int]));
                    out.push(items[i].duplicate());
                }
                proof {
                    array_view(*self);
                    array_view(Datum::Array(out));
                    assert(models(out@) =~= models(items@));
                }
                Datum::Array(out)
            },
            Datum::Dict(items) => {
                let mut out: Vec<(Datum, Datum)> = Vec::new();
                for i in 0..items.len()
                    invariant
                        *self == Datum::Dict(*items),
                        out@.len() == i,
                        forall|j: int|
                            0 <= j < i ==> (#[trigger] out@[j]).0@ == items@[j].0@ && out@[j].1@
                                == items@[j].1@,
                {
                    assert(decreases_to!(self => self->Dict_0));
                    assert(decreases_to!(self->Dict_0 => items[i as int]));
                    assert(decreases_to!(items[i as int] => items[i as int].0));
                    assert(decreases_to!(items[i as int] => items[i as int].1));
                    let key = items[i].0.duplicate();
                    let val = items[i].1.duplicate();
                    out.push((key, val));
                }
                proof {
                    dict_view(*self);
                    dict_view(Datum::Dict(out));
                    assert(pair_models(out@) =~= pair_models(items@));
                }
                Datum::Dict(out)
            },
        }
    }
}

} // verus!
