//! JSON values: the library's own tree of plain values, and the conversion
//! between JSON and MessagePack.
use crate::bytes::{hex_text, to_hex};
use crate::codec::Kwargs;
use crate::text::same;
use crate::value::{
    array_view, dict_view, display, display_text, models, pair_models, wire, Datum, Model,
};
use rmp::decode::RmpRead;
use vstd::prelude::*;
use vstd::utf8::{encode_utf8, encode_utf8_decode_utf8};

verus! {

/// A JSON value. A number that is no integer is kept as the bit pattern of a
/// floating-point number.
#[derive(Debug, PartialEq)]
pub enum Json {
    Null,
    Bool(bool),
    Signed(i64),
    Unsigned(u64),
    Float(u64),
    Text(String),
    Array(Vec<Json>),
    Object(Vec<(String, Json)>),
}

/// What a [`Json`] stands for. The entries of an object are in the order of the
/// map that holds them.
pub enum JsonModel {
    Null,
    Bool(bool),
    Integer(int),
    Float(u64),
    Text(Seq<char>),
    Array(Seq<JsonModel>),
    Object(Seq<(Seq<char>, JsonModel)>),
}

/// The models of a sequence of values.
pub open spec fn json_models(items: Seq<Json>) -> Seq<JsonModel> {
    Seq::new(items.len(), |i: int| items[i]@)
}

/// The models of a sequence of named values.
pub open spec fn entry_models(items: Seq<(String, Json)>) -> Seq<(Seq<char>, JsonModel)> {
    Seq::new(items.len(), |i: int| (items[i].0@, items[i].1@))
}

impl View for Json {
    type V = JsonModel;

    open spec fn view(&self) -> JsonModel
        decreases self,
    {
        match self {
            Json::Null => JsonModel::Null,
            Json::Bool(b) => JsonModel::Bool(*b),
            Json::Signed(n) => JsonModel::Integer(*n as int),
            Json::Unsigned(n) => JsonModel::Integer(*n as int),
            Json::Float(b) => JsonModel::Float(*b),
            Json::Text(s) => JsonModel::Text(s@),
            Json::Array(items) => JsonModel::Array(
                Seq::new(
                    items@.len(),
                    |i: int|
                        if 0 <= i < items@.len() {
                            items@[i].view()
                        } else {
                            JsonModel::Null
                        },
                ),
            ),
            Json::Object(items) => JsonModel::Object(
                Seq::new(
                    items@.len(),
                    |i: int|
                        if 0 <= i < items@.len() {
                            (items@[i].0@, items@[i].1.view())
                        } else {
                            (Seq::empty(), JsonModel::Null)
                        },
                ),
            ),
        }
    }
}

proof fn json_array_view(v: Json)
    requires
        v is Array,
    ensures
        v@ == JsonModel::Array(json_models(v->Array_0@)),
{
    reveal_with_fuel(<Json as View>::view, 2);
    assert(v@->Array_0 =~= json_models(v->Array_0@));
}

proof fn json_object_view(v: Json)
    requires
        v is Object,
    ensures
        v@ == JsonModel::Object(entry_models(v->Object_0@)),
{
    reveal_with_fuel(<Json as View>::view, 2);
    assert(v@->Object_0 =~= entry_models(v->Object_0@));
}

// ───────────────────────── reading ─────────────────────────

/// A tree of `serde_json`.
#[verifier::external_type_specification]
#[verifier::external_body]
pub struct ExJsonTree(serde_json::Value);

/// The map of a `serde_json` tree.
#[verifier::external_type_specification]
#[verifier::external_body]
#[verifier::reject_recursive_types(K)]
#[verifier::reject_recursive_types(V)]
pub struct ExJsonMap<K, V>(serde_json::Map<K, V>);

/// What a `serde_json` tree holds.
pub uninterp spec fn json_content(v: serde_json::Value) -> JsonModel;

/// The entries of a `serde_json` map, in its order.
pub uninterp spec fn map_content(m: serde_json::Map<String, serde_json::Value>) -> Seq<
    (Seq<char>, JsonModel),
>;

/// What a list of trees holds.
pub open spec fn json_contents(items: Seq<serde_json::Value>) -> Seq<JsonModel> {
    Seq::new(items.len(), |i: int| json_content(items[i]))
}

/// What a list of entries holds.
pub open spec fn entry_contents(items: Seq<(String, serde_json::Value)>) -> Seq<
    (Seq<char>, JsonModel),
> {
    Seq::new(items.len(), |i: int| (items[i].0@, json_content(items[i].1)))
}

/// One level of a `serde_json` tree.
pub enum JsonNode {
    Null,
    Bool(bool),
    Number(Option<i64>, Option<u64>, Option<u64>),
    Text(String),
    Array(Vec<serde_json::Value>),
    Object(Vec<(String, serde_json::Value)>),
}

/// The model of a tree whose first level is `n`.
pub open spec fn json_node_model(n: JsonNode) -> JsonModel {
    match n {
        JsonNode::Null => JsonModel::Null,
        JsonNode::Bool(b) => JsonModel::Bool(b),
        JsonNode::Number(i, u, f) => if i is Some {
            JsonModel::Integer(i->0 as int)
        } else if u is Some {
            JsonModel::Integer(u->0 as int)
        } else {
            JsonModel::Float(f->0)
        },
        JsonNode::Text(s) => JsonModel::Text(s@),
        JsonNode::Array(items) => JsonModel::Array(json_contents(items@)),
        JsonNode::Object(items) => JsonModel::Object(entry_contents(items@)),
    }
}

/// Takes a `serde_json::Value` apart by one level. A number comes as what
/// `Number::as_i64`, `as_u64` and `as_f64` give, of which one is always
/// present; an object as its entries in the order of its map.
#[verifier::external_body]
fn open_json(v: serde_json::Value) -> (n: JsonNode)
    ensures
        json_node_model(n) == json_content(v),
        n matches JsonNode::Number(i, u, f) ==> i is Some || u is Some || f is Some,
{
    match v {
        serde_json::Value::Null => JsonNode::Null,
        serde_json::Value::Bool(b) => JsonNode::Bool(b),
        serde_json::Value::Number(n) => {
            JsonNode::Number(n.as_i64(), n.as_u64(), n.as_f64().map(|x| x.to_bits()))
        },
        serde_json::Value::String(s) => JsonNode::Text(s),
        serde_json::Value::Array(items) => JsonNode::Array(items),
        serde_json::Value::Object(items) => JsonNode::Object(items.into_iter().collect()),
    }
}

/// The library's form of a `serde_json` tree.
fn from_json_tree(v: serde_json::Value) -> (r: Json)
    ensures
        r@ == json_content(v),
    decreases json_content(v),
{
    let ghost whole = json_content(v);
    match open_json(v) {
        JsonNode::Null => Json::Null,
        JsonNode::Bool(b) => Json::Bool(b),
        JsonNode::Number(Some(n), _, _) => Json::Signed(n),
        JsonNode::Number(None, Some(n), _) => Json::Unsigned(n),
        JsonNode::Number(None, None, Some(b)) => Json::Float(b),
        JsonNode::Number(None, None, None) => Json::Null,
        JsonNode::Text(s) => Json::Text(s),
        JsonNode::Array(items) => {
            let ghost all = items@;
            let mut out: Vec<Json> = Vec::new();
            for item in it: items
                invariant
                    it.seq() == all,
                    whole == json_content(v),
                    whole == JsonModel::Array(json_contents(all)),
                    json_models(out@) == json_contents(all).take(it.index() as int),
            {
                proof {
                    assert(json_content(item) == json_contents(all)[it.index() as int]);
                    assert(decreases_to!(whole => whole->Array_0));
                    assert(decreases_to!(json_contents(all) => json_contents(all)[it.index() as int]));
                }
                let ghost before = out@;
                let next = from_json_tree(item);
                out.push(next);
                assert(json_models(out@) =~= json_models(before).push(next@));
                assert(json_models(out@) =~= json_contents(all).take(it.index() as int + 1));
            }
            proof {
                assert(json_contents(all).take(all.len() as int) =~= json_contents(all));
                json_array_view(Json::Array(out));
            }
            Json::Array(out)
        },
        JsonNode::Object(items) => {
            let ghost all = items@;
            let mut out: Vec<(String, Json)> = Vec::new();
            for item in it: items
                invariant
                    it.seq() == all,
                    whole == json_content(v),
                    whole == JsonModel::Object(entry_contents(all)),
                    entry_models(out@) == entry_contents(all).take(it.index() as int),
            {
                proof {
                    let pair = entry_contents(all)[it.index() as int];
                    assert((item.0@, json_content(item.1)) == pair);
                    assert(decreases_to!(whole => whole->Object_0));
                    assert(decreases_to!(entry_contents(all) => pair));
                    assert(decreases_to!(pair => pair.1));
                }
                let ghost before = out@;
                let (key, inner) = item;
                let next = from_json_tree(inner);
                out.push((key, next));
                assert(entry_models(out@) =~= entry_models(before).push((key@, next@)));
                assert(entry_models(out@) =~= entry_contents(all).take(it.index() as int + 1));
            }
            proof {
                assert(entry_contents(all).take(all.len() as int) =~= entry_contents(all));
                json_object_view(Json::Object(out));
            }
            Json::Object(out)
        },
    }
}

/// The value that JSON text holds.
pub uninterp spec fn json_value(b: Seq<u8>) -> Option<JsonModel>;

/// What is said of text that is no JSON.
pub uninterp spec fn json_problem(b: Seq<u8>) -> Seq<char>;

/// `serde_json::from_slice` into a `serde_json::Value`: the value, or the text
/// of the error.
#[verifier::external_body]
fn parse_tree(b: &[u8]) -> (r: Result<serde_json::Value, String>)
    ensures
        match r {
            Ok(v) => json_value(b@) == Some(json_content(v)),
            Err(e) => json_value(b@) is None && e@ == json_problem(b@),
        },
{
    serde_json::from_slice(b).map_err(|e| e.to_string())
}

/// Reads JSON text.
pub fn read_json(b: &[u8]) -> (r: Result<Json, String>)
    ensures
        match r {
            Ok(v) => json_value(b@) == Some(v@),
            Err(e) => json_value(b@) is None && e@ == json_problem(b@),
        },
{
    match parse_tree(b) {
        Ok(v) => Ok(from_json_tree(v)),
        Err(e) => Err(e),
    }
}

// ───────────────────────── access ─────────────────────────

/// The value of the last entry of a name among the first `n`.
pub open spec fn entry_named(items: Seq<(Seq<char>, JsonModel)>, name: Seq<char>, n: nat) -> Option<
    JsonModel,
>
    decreases n,
{
    if n == 0 {
        None
    } else if items[n - 1].0 == name {
        Some(items[n - 1].1)
    } else {
        entry_named(items, name, (n - 1) as nat)
    }
}

/// An entry of an object.
pub open spec fn member(v: JsonModel, name: Seq<char>) -> Option<JsonModel> {
    match v {
        JsonModel::Object(items) => entry_named(items, name, items.len()),
        _ => None,
    }
}

/// The text of an entry that is a string.
pub open spec fn member_text(v: JsonModel, name: Seq<char>) -> Option<Seq<char>> {
    match member(v, name) {
        Some(JsonModel::Text(s)) => Some(s),
        _ => None,
    }
}

impl Json {
    /// An entry of an object.
    pub fn get(&self, name: &str) -> (r: Option<&Json>)
        ensures
            match r {
                Some(v) => member(self@, name@) == Some(v@),
                None => member(self@, name@) is None,
            },
    {
        match self {
            Json::Object(items) => {
                proof {
                    json_object_view(*self);
                }
                let ghost all = entry_models(items@);
                let mut n: usize = items.len();
                while n > 0
                    invariant
                        n <= items@.len(),
                        all == entry_models(items@),
                        self@ == JsonModel::Object(all),
                        entry_named(all, name@, all.len()) == entry_named(all, name@, n as nat),
                    decreases n,
                {
                    if same(items[n - 1].0.as_str(), name) {
                        return Some(&items[n - 1].1);
                    }
                    n = n - 1;
                }
                None
            },
            _ => None,
        }
    }

    /// The text of an entry that is a string.
    pub fn get_text(&self, name: &str) -> (r: Option<&str>)
        ensures
            crate::text::opt_str_view(r) == member_text(self@, name@),
    {
        match self.get(name) {
            Some(Json::Text(s)) => Some(s.as_str()),
            _ => None,
        }
    }
}

// ───────────────────────── to MessagePack ─────────────────────────

/// A JSON value as a MessagePack value.
pub open spec fn packed(j: JsonModel) -> Model
    decreases j,
{
    match j {
        JsonModel::Null => Model::Nil,
        JsonModel::Bool(b) => Model::Boolean(b),
        JsonModel::Integer(n) => Model::Integer(n),
        JsonModel::Float(b) => Model::Float64(b),
        JsonModel::Text(s) => Model::Text(s),
        JsonModel::Array(items) => Model::Array(
            Seq::new(
                items.len(),
                |i: int|
                    if 0 <= i < items.len() {
                        packed(items[i])
                    } else {
                        Model::Nil
                    },
            ),
        ),
        JsonModel::Object(items) => Model::Dict(
            Seq::new(
                items.len(),
                |i: int|
                    if 0 <= i < items.len() {
                        (Model::Text(items[i].0), packed(items[i].1))
                    } else {
                        (Model::Nil, Model::Nil)
                    },
            ),
        ),
    }
}

/// Makes a MessagePack value of a JSON value.
pub fn json_to_rmpv(j: &Json) -> (r: Datum)
    ensures
        r@ == packed(j@),
    decreases j,
{
    match j {
        Json::Null => Datum::Nil,
        Json::Bool(b) => Datum::Boolean(*b),
        Json::Signed(n) => Datum::Signed(*n),
        Json::Unsigned(n) => Datum::Unsigned(*n),
        Json::Float(b) => Datum::Float64(*b),
        Json::Text(s) => Datum::Text(s.clone()),
        Json::Array(items) => {
            let mut out: Vec<Datum> = Vec::new();
            for i in 0..items.len()
                invariant
                    *j == Json::Array(*items),
                    out@.len() == i,
                    forall|k: int| 0 <= k < i ==> (#[trigger] out@[k])@ == packed(items@[k]@),
            {
                assert(decreases_to!(j => j->Array_0));
                assert(decreases_to!(j->Array_0 => items[i as int]));
                out.push(json_to_rmpv(&items[i]));
            }
            let r = Datum::Array(out);
            proof {
                json_array_view(*j);
                array_view(r);
                reveal_with_fuel(packed, 2);
                assert(models(out@) =~= packed(j@)->Array_0);
            }
            r
        },
        Json::Object(items) => {
            let mut out: Vec<(Datum, Datum)> = Vec::new();
            for i in 0..items.len()
                invariant
                    *j == Json::Object(*items),
                    out@.len() == i,
                    forall|k: int|
                        0 <= k < i ==> (#[trigger] out@[k]).0@ == Model::Text(items@[k].0@)
                            && out@[k].1@ == packed(items@[k].1@),
            {
                assert(decreases_to!(j => j->Object_0));
                assert(decreases_to!(j->Object_0 => items[i as int]));
                assert(decreases_to!(items[i as int] => items[i as int].1));
                let key = Datum::Text(items[i].0.clone());
                let val = json_to_rmpv(&items[i].1);
                out.push((key, val));
            }
            let r = Datum::Dict(out);
            proof {
                json_object_view(*j);
                dict_view(r);
                reveal_with_fuel(packed, 2);
                assert(pair_models(out@) =~= packed(j@)->Dict_0);
            }
            r
        },
    }
}

/// The first `n` entries of an object as keyword arguments.
pub open spec fn entry_kwargs(items: Seq<(Seq<char>, JsonModel)>, n: nat) -> Map<Seq<char>, Model>
    decreases n,
{
    if n == 0 {
        Map::empty()
    } else {
        entry_kwargs(items, (n - 1) as nat).insert(items[n - 1].0, packed(items[n - 1].1))
    }
}

/// The keyword arguments of a JSON value: the entries of an object.
pub open spec fn json_kwargs(args: Option<JsonModel>) -> Map<Seq<char>, Model> {
    match args {
        Some(JsonModel::Object(items)) => entry_kwargs(items, items.len()),
        _ => Map::empty(),
    }
}

/// Reads keyword arguments from a JSON value.
pub fn json_args_to_kwargs(args: Option<&Json>) -> (r: Kwargs)
    ensures
        r@ == json_kwargs(
            match args {
                Some(v) => Some(v@),
                None => None,
            },
        ),
{
    let mut out = Kwargs::new();
    if let Some(j) = args {
        if let Json::Object(items) = j {
            proof {
                json_object_view(*j);
            }
            let ghost all = entry_models(items@);
            for i in 0..items.len()
                invariant
                    all == entry_models(items@),
                    out@ == entry_kwargs(all, i as nat),
            {
                let v = json_to_rmpv(&items[i].1);
                out.insert(items[i].0.clone(), v);
            }
        }
    }
    out
}

// ───────────────────────── to JSON ─────────────────────────

/// What `serde_json` makes of a 32-bit floating-point number, by its bit
/// pattern.
pub uninterp spec fn json_float32(bits: u32) -> JsonModel;

/// What `serde_json` makes of a 64-bit floating-point number, by its bit
/// pattern.
pub uninterp spec fn json_float64(bits: u64) -> JsonModel;

/// Whether bytes come before others: at the first difference they have the
/// lower byte, or they end.
pub open spec fn bytes_before(a: Seq<u8>, b: Seq<u8>) -> bool
    decreases a.len(),
{
    b.len() > 0 && (a.len() == 0 || a[0] < b[0] || a[0] == b[0] && bytes_before(
        a.drop_first(),
        b.drop_first(),
    ))
}

/// Whether a name comes before another: by their UTF-8 bytes.
pub open spec fn name_before(a: Seq<char>, b: Seq<char>) -> bool {
    bytes_before(encode_utf8(a), encode_utf8(b))
}

/// Entries in the order of their names, with one more at its place. It replaces
/// the one of its name.
pub open spec fn placed(
    entries: Seq<(Seq<char>, JsonModel)>,
    name: Seq<char>,
    v: JsonModel,
) -> Seq<(Seq<char>, JsonModel)>
    decreases entries.len(),
{
    if entries.len() == 0 || name_before(name, entries[0].0) {
        seq![(name, v)] + entries
    } else if entries[0].0 == name {
        seq![(name, v)] + entries.drop_first()
    } else {
        seq![entries[0]] + placed(entries.drop_first(), name, v)
    }
}

/// The entries of the object that a list of entries makes.
pub open spec fn map_entries(items: Seq<(Seq<char>, JsonModel)>) -> Seq<(Seq<char>, JsonModel)>
    decreases items.len(),
{
    if items.len() == 0 {
        Seq::empty()
    } else {
        placed(map_entries(items.drop_last()), items.last().0, items.last().1)
    }
}

/// One level of a JSON tree to be built.
pub enum JsonParts {
    Null,
    Bool(bool),
    Signed(i64),
    Unsigned(u64),
    Text(String),
    Array(Vec<serde_json::Value>),
}

/// The model of a tree whose first level is `p`.
pub open spec fn json_parts_model(p: JsonParts) -> JsonModel {
    match p {
        JsonParts::Null => JsonModel::Null,
        JsonParts::Bool(b) => JsonModel::Bool(b),
        JsonParts::Signed(n) => JsonModel::Integer(n as int),
        JsonParts::Unsigned(n) => JsonModel::Integer(n as int),
        JsonParts::Text(s) => JsonModel::Text(s@),
        JsonParts::Array(items) => JsonModel::Array(json_contents(items@)),
    }
}

/// Makes a `serde_json::Value` of one level: a variant of it, or for an integer
/// `Value::from`.
#[verifier::external_body]
fn close_json(p: JsonParts) -> (v: serde_json::Value)
    ensures
        json_content(v) == json_parts_model(p),
{
    match p {
        JsonParts::Null => serde_json::Value::Null,
        JsonParts::Bool(b) => serde_json::Value::Bool(b),
        JsonParts::Signed(n) => serde_json::Value::from(n),
        JsonParts::Unsigned(n) => serde_json::Value::from(n),
        JsonParts::Text(s) => serde_json::Value::String(s),
        JsonParts::Array(items) => serde_json::Value::Array(items),
    }
}

/// `serde_json::Value::from` of a 32-bit floating-point number, which is read
/// from the big-endian bytes of its bit pattern, as `rmp` reads it.
#[verifier::external_body]
fn tree_of_float32(bits: u32) -> (v: serde_json::Value)
    ensures
        json_content(v) == json_float32(bits),
{
    serde_json::Value::from((&bits.to_be_bytes()[..]).read_data_f32().unwrap())
}

/// `serde_json::Value::from` of a 64-bit floating-point number, which is read
/// from the big-endian bytes of its bit pattern, as `rmp` reads it.
#[verifier::external_body]
fn tree_of_float64(bits: u64) -> (v: serde_json::Value)
    ensures
        json_content(v) == json_float64(bits),
{
    serde_json::Value::from((&bits.to_be_bytes()[..]).read_data_f64().unwrap())
}

/// `serde_json::Map::new`: a map without entries.
#[verifier::external_body]
fn new_map() -> (m: serde_json::Map<String, serde_json::Value>)
    ensures
        map_content(m) == Seq::<(Seq<char>, JsonModel)>::empty(),
{
    serde_json::Map::new()
}

/// `serde_json::Map::insert`: the map keeps its entries in the order of the
/// bytes of their names, and one value for each name, the last.
#[verifier::external_body]
fn put_entry(m: &mut serde_json::Map<String, serde_json::Value>, name: String, v: serde_json::Value)
    ensures
        map_content(*final(m)) == placed(map_content(*old(m)), name@, json_content(v)),
{
    let _ = m.insert(name, v);
}

/// The variant `Object` of a `serde_json::Value`, which holds the entries of its
/// map.
#[verifier::external_body]
fn tree_of_map(m: serde_json::Map<String, serde_json::Value>) -> (v: serde_json::Value)
    ensures
        json_content(v) == JsonModel::Object(map_content(m)),
{
    serde_json::Value::Object(m)
}

/// The name that a key has in a JSON object: its text, or what is shown of it.
pub open spec fn key_text(m: Model) -> Seq<char> {
    match m {
        Model::Text(s) => s,
        _ => display_text(wire(m)),
    }
}

/// A MessagePack value as JSON. Binary data is written in hexadecimal;
/// extensions, and integers beyond 64 bits, have no JSON form.
pub open spec fn json_of(m: Model) -> JsonModel
    decreases m,
{
    match m {
        Model::Nil => JsonModel::Null,
        Model::Boolean(b) => JsonModel::Bool(b),
        Model::Integer(n) => JsonModel::Integer(n),
        Model::Float32(b) => json_float32(b),
        Model::Float64(b) => json_float64(b),
        Model::Text(s) => JsonModel::Text(s),
        Model::RawText(_) => JsonModel::Text(Seq::empty()),
        Model::Binary(b) => JsonModel::Text(hex_text(b)),
        Model::Array(items) => JsonModel::Array(
            Seq::new(
                items.len(),
                |i: int|
                    if 0 <= i < items.len() {
                        json_of(items[i])
                    } else {
                        JsonModel::Null
                    },
            ),
        ),
        Model::Dict(items) => JsonModel::Object(map_entries(json_entries(items))),
        Model::Ext(_, _) => JsonModel::Null,
    }
}

/// The entries of a dictionary as JSON.
pub open spec fn json_entries(items: Seq<(Model, Model)>) -> Seq<(Seq<char>, JsonModel)>
    decreases items,
{
    Seq::new(
        items.len(),
        |i: int|
            if 0 <= i < items.len() {
                (key_text(items[i].0), json_of(items[i].1))
            } else {
                (Seq::empty(), JsonModel::Null)
            },
    )
}

/// The `serde_json` tree of a MessagePack value.
fn rmpv_to_json(v: &Datum) -> (r: serde_json::Value)
    ensures
        json_content(r) == json_of(v@),
    decreases v,
{
    match v {
        Datum::Nil => close_json(JsonParts::Null),
        Datum::Boolean(b) => close_json(JsonParts::Bool(*b)),
        Datum::Signed(n) => close_json(JsonParts::Signed(*n)),
        Datum::Unsigned(n) => close_json(JsonParts::Unsigned(*n)),
        Datum::Float32(b) => tree_of_float32(*b),
        Datum::Float64(b) => tree_of_float64(*b),
        Datum::Text(s) => close_json(JsonParts::Text(s.clone())),
        Datum::RawText(_) => {
            let none = String::new();
            assert(none@ =~= Seq::empty());
            close_json(JsonParts::Text(none))
        },
        Datum::Binary(b) => close_json(JsonParts::Text(to_hex(b.as_slice()))),
        Datum::Ext(_, _) => close_json(JsonParts::Null),
        Datum::Array(items) => {
            let mut out: Vec<serde_json::Value> = Vec::new();
            for i in 0..items.len()
                invariant
                    *v == Datum::Array(*items),
                    out@.len() == i,
                    forall|k: int|
                        0 <= k < i ==> json_content(#[trigger] out@[k]) == json_of(items@[k]@),
            {
                assert(decreases_to!(v => v->Array_0));
                assert(decreases_to!(v->Array_0 => items[i as int]));
                out.push(rmpv_to_json(&items[i]));
            }
            proof {
                array_view(*v);
                reveal_with_fuel(json_of, 2);
                assert(json_contents(out@) =~= json_of(v@)->Array_0);
            }
            close_json(JsonParts::Array(out))
        },
        Datum::Dict(items) => {
            let mut out = new_map();
            let ghost all = json_entries(v@->Dict_0);
            proof {
                dict_view(*v);
                reveal_with_fuel(json_of, 2);
                reveal_with_fuel(json_entries, 2);
                assert(all.take(0) =~= Seq::empty());
            }
            for i in 0..items.len()
                invariant
                    *v == Datum::Dict(*items),
                    all.len() == items@.len(),
                    forall|k: int|
                        0 <= k < all.len() ==> #[trigger] all[k] == (
                            key_text(items@[k].0@),
                            json_of(items@[k].1@),
                        ),
                    map_content(out) == map_entries(all.take(i as int)),
            {
                assert(decreases_to!(v => v->Dict_0));
                assert(decreases_to!(v->Dict_0 => items[i as int]));
                assert(decreases_to!(items[i as int] => items[i as int].1));
                let key = match &items[i].0 {
                    Datum::Text(s) => s.clone(),
                    other => display(other),
                };
                let val = rmpv_to_json(&items[i].1);
                put_entry(&mut out, key, val);
                assert(all.take(i as int + 1).drop_last() =~= all.take(i as int));
                assert(all.take(i as int + 1).last() == all[i as int]);
            }
            assert(all.take(all.len() as int) =~= all);
            tree_of_map(out)
        },
    }
}

/// The text of a JSON value.
pub uninterp spec fn json_text(v: JsonModel) -> Seq<char>;

/// `serde_json::to_string` of a `serde_json::Value`, which does not fail.
#[verifier::external_body]
fn print_tree(v: &serde_json::Value) -> (r: String)
    ensures
        r@ == json_text(json_content(*v)),
{
    serde_json::to_string(v).unwrap_or_default()
}

/// Writes a MessagePack value as JSON text.
pub fn write_json(v: &Datum) -> (r: String)
    ensures
        r@ == json_text(json_of(v@)),
{
    print_tree(&rmpv_to_json(v))
}

// ───────────────────────── laws ─────────────────────────

/// Of two different byte strings one comes before the other.
proof fn bytes_are_ordered(a: Seq<u8>, b: Seq<u8>)
    ensures
        a == b || bytes_before(a, b) || bytes_before(b, a),
        !(bytes_before(a, b) && bytes_before(b, a)),
        a == b ==> !bytes_before(a, b),
    decreases a.len(),
{
    if a.len() == 0 || b.len() == 0 {
        assert(a.len() == b.len() ==> a =~= b);
    } else {
        bytes_are_ordered(a.drop_first(), b.drop_first());
        if a[0] == b[0] && a.drop_first() == b.drop_first() {
            assert(a =~= seq![a[0]] + a.drop_first());
            assert(b =~= seq![b[0]] + b.drop_first());
        }
    }
}

proof fn bytes_before_is_transitive(a: Seq<u8>, b: Seq<u8>, c: Seq<u8>)
    requires
        bytes_before(a, b),
        bytes_before(b, c),
    ensures
        bytes_before(a, c),
    decreases a.len(),
{
    if a.len() > 0 && a[0] == b[0] && b[0] == c[0] {
        bytes_before_is_transitive(a.drop_first(), b.drop_first(), c.drop_first());
    }
}

/// Of two different names one comes before the other.
proof fn names_are_ordered(a: Seq<char>, b: Seq<char>)
    ensures
        a == b || name_before(a, b) || name_before(b, a),
        a == b ==> !name_before(a, b),
{
    bytes_are_ordered(encode_utf8(a), encode_utf8(b));
    encode_utf8_decode_utf8(a);
    encode_utf8_decode_utf8(b);
}

/// Whether entries stand in the order of their names, each name once.
pub open spec fn in_order(entries: Seq<(Seq<char>, JsonModel)>) -> bool {
    forall|i: int, j: int|
        0 <= i < j < entries.len() ==> #[trigger] name_before(entries[i].0, entries[j].0)
}

proof fn placed_names(entries: Seq<(Seq<char>, JsonModel)>, name: Seq<char>, v: JsonModel, i: int)
    requires
        0 <= i < placed(entries, name, v).len(),
    ensures
        placed(entries, name, v)[i].0 == name || exists|k: int|
            0 <= k < entries.len() && (#[trigger] entries[k]).0 == placed(entries, name, v)[i].0,
    decreases entries.len(),
{
    let all = placed(entries, name, v);
    if entries.len() == 0 || name_before(name, entries[0].0) {
        assert(i > 0 ==> all[i] == entries[i - 1]);
    } else if entries[0].0 == name {
        assert(i > 0 ==> all[i] == entries[i]);
    } else if i > 0 {
        let rest = entries.drop_first();
        placed_names(rest, name, v, i - 1);
        assert(all[i] == placed(rest, name, v)[i - 1]);
        if all[i].0 != name {
            let k = choose|k: int| 0 <= k < rest.len() && (#[trigger] rest[k]).0 == all[i].0;
            assert(entries[k + 1] == rest[k]);
        }
    } else {
        assert(all[0] == entries[0]);
    }
}

proof fn placed_keeps_order(entries: Seq<(Seq<char>, JsonModel)>, name: Seq<char>, v: JsonModel)
    requires
        in_order(entries),
    ensures
        in_order(placed(entries, name, v)),
    decreases entries.len(),
{
    let all = placed(entries, name, v);
    if entries.len() == 0 {
    } else if name_before(name, entries[0].0) {
        assert forall|i: int, j: int| 0 <= i < j < all.len() implies #[trigger] name_before(
            all[i].0,
            all[j].0,
        ) by {
            assert(all[j] == entries[j - 1]);
            if i > 0 {
                assert(all[i] == entries[i - 1]);
                assert(name_before(entries[i - 1].0, entries[j - 1].0));
            } else if j > 1 {
                assert(name_before(entries[0].0, entries[j - 1].0));
                bytes_before_is_transitive(
                    encode_utf8(name),
                    encode_utf8(entries[0].0),
                    encode_utf8(entries[j - 1].0),
                );
            }
        }
    } else if entries[0].0 == name {
        assert forall|i: int, j: int| 0 <= i < j < all.len() implies #[trigger] name_before(
            all[i].0,
            all[j].0,
        ) by {
            assert(all[j] == entries[j]);
            assert(all[i].0 == entries[i].0);
            assert(name_before(entries[i].0, entries[j].0));
        }
    } else {
        let rest = entries.drop_first();
        assert forall|i: int, j: int| 0 <= i < j < rest.len() implies #[trigger] name_before(
            rest[i].0,
            rest[j].0,
        ) by {
            assert(name_before(entries[i + 1].0, entries[j + 1].0));
        }
        placed_keeps_order(rest, name, v);
        let tail = placed(rest, name, v);
        assert forall|i: int, j: int| 0 <= i < j < all.len() implies #[trigger] name_before(
            all[i].0,
            all[j].0,
        ) by {
            assert(all[j] == tail[j - 1]);
            if i > 0 {
                assert(all[i] == tail[i - 1]);
                assert(name_before(tail[i - 1].0, tail[j - 1].0));
            } else {
                placed_names(rest, name, v, j - 1);
                names_are_ordered(entries[0].0, name);
                if tail[j - 1].0 != name {
                    let k = choose|k: int|
                        0 <= k < rest.len() && (#[trigger] rest[k]).0 == tail[j - 1].0;
                    assert(name_before(entries[0].0, entries[k + 1].0));
                }
            }
        }
    }
}

/// The entry that a list with one more at its head has under a name.
proof fn entry_named_shifts(
    head: (Seq<char>, JsonModel),
    rest: Seq<(Seq<char>, JsonModel)>,
    name: Seq<char>,
    n: nat,
)
    requires
        n <= rest.len(),
    ensures
        entry_named(seq![head] + rest, name, n + 1) == (match entry_named(rest, name, n) {
            Some(v) => Some(v),
            None => if head.0 == name {
                Some(head.1)
            } else {
                None
            },
        }),
    decreases n,
{
    let all = seq![head] + rest;
    if n > 0 {
        entry_named_shifts(head, rest, name, (n - 1) as nat);
        assert(all[n as int] == rest[n - 1]);
    } else {
        assert(entry_named(all, name, 0) is None);
    }
}

proof fn absent_names_have_no_entry(entries: Seq<(Seq<char>, JsonModel)>, name: Seq<char>, n: nat)
    requires
        n <= entries.len(),
        forall|i: int| 0 <= i < n ==> (#[trigger] entries[i]).0 != name,
    ensures
        entry_named(entries, name, n) is None,
    decreases n,
{
    if n > 0 {
        absent_names_have_no_entry(entries, name, (n - 1) as nat);
    }
}

proof fn placed_is_found(
    entries: Seq<(Seq<char>, JsonModel)>,
    name: Seq<char>,
    v: JsonModel,
    other: Seq<char>,
)
    requires
        in_order(entries),
    ensures
        entry_named(placed(entries, name, v), other, placed(entries, name, v).len()) == (if other
            == name {
            Some(v)
        } else {
            entry_named(entries, other, entries.len())
        }),
    decreases entries.len(),
{
    let all = placed(entries, name, v);
    if entries.len() == 0 || name_before(name, entries[0].0) {
        entry_named_shifts((name, v), entries, other, entries.len());
        assert forall|i: int| 0 <= i < entries.len() implies (#[trigger] entries[i]).0 != name by {
            if i > 0 {
                assert(name_before(entries[0].0, entries[i].0));
                bytes_before_is_transitive(
                    encode_utf8(name),
                    encode_utf8(entries[0].0),
                    encode_utf8(entries[i].0),
                );
            }
            names_are_ordered(name, entries[i].0);
        }
        absent_names_have_no_entry(entries, name, entries.len());
    } else {
        let rest = entries.drop_first();
        assert(entries =~= seq![entries[0]] + rest);
        entry_named_shifts(entries[0], rest, other, rest.len());
        if entries[0].0 == name {
            entry_named_shifts((name, v), rest, other, rest.len());
            assert forall|i: int| 0 <= i < rest.len() implies (#[trigger] rest[i]).0 != name by {
                assert(name_before(entries[0].0, entries[i + 1].0));
                names_are_ordered(name, rest[i].0);
            }
            absent_names_have_no_entry(rest, name, rest.len());
        } else {
            assert forall|i: int, j: int| 0 <= i < j < rest.len() implies #[trigger] name_before(
                rest[i].0,
                rest[j].0,
            ) by {
                assert(name_before(entries[i + 1].0, entries[j + 1].0));
            }
            placed_is_found(rest, name, v, other);
            let tail = placed(rest, name, v);
            entry_named_shifts(entries[0], tail, other, tail.len());
        }
    }
}

/// The names of an object stand in order, and each occurs once.
pub proof fn objects_are_in_order(items: Seq<(Seq<char>, JsonModel)>)
    ensures
        in_order(map_entries(items)),
    decreases items.len(),
{
    if items.len() > 0 {
        objects_are_in_order(items.drop_last());
        placed_keeps_order(
            map_entries(items.drop_last()),
            items.last().0,
            items.last().1,
        );
    }
}

/// An object has under each name what was last put there.
pub proof fn objects_hold_the_last_value(items: Seq<(Seq<char>, JsonModel)>, name: Seq<char>)
    ensures
        member(JsonModel::Object(map_entries(items)), name) == entry_named(
            items,
            name,
            items.len(),
        ),
    decreases items.len(),
{
    if items.len() > 0 {
        let shorter = items.drop_last();
        objects_are_in_order(shorter);
        objects_hold_the_last_value(shorter, name);
        placed_is_found(map_entries(shorter), items.last().0, items.last().1, name);
        entry_named_agrees(items, shorter, name, shorter.len());
    }
}

proof fn entry_named_agrees(
    a: Seq<(Seq<char>, JsonModel)>,
    b: Seq<(Seq<char>, JsonModel)>,
    name: Seq<char>,
    n: nat,
)
    requires
        n <= a.len(),
        n <= b.len(),
        forall|i: int| 0 <= i < n ==> a[i] == b[i],
    ensures
        entry_named(a, name, n) == entry_named(b, name, n),
    decreases n,
{
    if n > 0 {
        entry_named_agrees(a, b, name, (n - 1) as nat);
    }
}

/// Whether a JSON value has no floating-point numbers, and all its objects have
/// their names in order.
pub open spec fn tidy(j: JsonModel) -> bool
    decreases j,
{
    match j {
        JsonModel::Float(_) => false,
        JsonModel::Array(items) => forall|i: int|
            0 <= i < items.len() ==> tidy(#[trigger] items[i]),
        JsonModel::Object(items) => in_order(items) && forall|i: int|
            0 <= i < items.len() ==> tidy((#[trigger] items[i]).1),
        _ => true,
    }
}

proof fn placed_last(entries: Seq<(Seq<char>, JsonModel)>, name: Seq<char>, v: JsonModel)
    requires
        forall|i: int| 0 <= i < entries.len() ==> name_before((#[trigger] entries[i]).0, name),
    ensures
        placed(entries, name, v) == entries.push((name, v)),
    decreases entries.len(),
{
    if entries.len() > 0 {
        assert(name_before(entries[0].0, name));
        bytes_are_ordered(encode_utf8(entries[0].0), encode_utf8(name));
        let rest = entries.drop_first();
        assert forall|i: int| 0 <= i < rest.len() implies name_before((#[trigger] rest[i]).0, name) by {
            assert(rest[i] == entries[i + 1]);
        }
        placed_last(rest, name, v);
        assert(seq![entries[0]] + rest.push((name, v)) =~= entries.push((name, v)));
    } else {
        assert(seq![(name, v)] + entries =~= entries.push((name, v)));
    }
}

/// Entries that are in order make an object as they are.
pub proof fn ordered_entries_stay(items: Seq<(Seq<char>, JsonModel)>)
    requires
        in_order(items),
    ensures
        map_entries(items) == items,
    decreases items.len(),
{
    if items.len() > 0 {
        let shorter = items.drop_last();
        assert forall|i: int, j: int| 0 <= i < j < shorter.len() implies #[trigger] name_before(
            shorter[i].0,
            shorter[j].0,
        ) by {
            assert(name_before(items[i].0, items[j].0));
        }
        ordered_entries_stay(shorter);
        assert forall|i: int| 0 <= i < shorter.len() implies name_before(
            (#[trigger] shorter[i]).0,
            items.last().0,
        ) by {
            assert(name_before(items[i].0, items[items.len() - 1].0));
        }
        placed_last(shorter, items.last().0, items.last().1);
        assert(shorter.push(items.last()) =~= items);
    } else {
        assert(map_entries(items) =~= items);
    }
}

/// JSON that becomes a value and JSON again is what it was.
pub proof fn json_comes_back(j: JsonModel)
    requires
        tidy(j),
    ensures
        json_of(packed(j)) == j,
    decreases j,
{
    match j {
        JsonModel::Array(items) => {
            let list = packed(j)->Array_0;
            assert forall|i: int| 0 <= i < items.len() implies json_of(#[trigger] list[i])
                == items[i] by {
                assert(tidy(items[i]));
                json_comes_back(items[i]);
            }
            assert(json_of(packed(j))->Array_0 =~= items);
        },
        JsonModel::Object(items) => {
            let list = packed(j)->Dict_0;
            assert forall|i: int| 0 <= i < items.len() implies json_of((#[trigger] list[i]).1)
                == items[i].1 by {
                assert(tidy(items[i].1));
                assert(decreases_to!(j => items));
                assert(decreases_to!(items => items[i]));
                assert(decreases_to!(items[i] => items[i].1));
                json_comes_back(items[i].1);
            }
            reveal_with_fuel(json_of, 2);
            reveal_with_fuel(json_entries, 2);
            assert(json_entries(list) =~= items);
            ordered_entries_stay(items);
        },
        _ => {},
    }
}

} // verus!
