//! Pieces of JSON text.

use vstd::prelude::*;

verus! {

/// A string as `serde_json` writes it: in double quotes, with escapes.
pub uninterp spec fn json_string(s: Seq<char>) -> Seq<char>;

/// `serde_json::to_string` of a string, which does not fail.
#[verifier::external_body]
pub(crate) fn json_quote(s: &str) -> (r: String)
    ensures
        r@ == json_string(s@),
{
    serde_json::to_string(s).unwrap()
}

/// A JSON object of an error.
pub open spec fn error_object(message: Seq<char>) -> Seq<char> {
    "{\"error\":"@ + json_string(message) + "}"@
}

/// Writes a JSON object of an error.
pub fn err_json(message: &str) -> (r: String)
    ensures
        r@ == error_object(message@),
{
    let quoted = json_quote(message);
    crate::text::join3("{\"error\":", quoted.as_str(), "}")
}

/// A field of a JSON object: its name in quotes, a colon, and its value.
pub open spec fn json_field(name: Seq<char>, value: Seq<char>) -> Seq<char> {
    json_string(name) + ":"@ + value
}

/// The first `n` fields, with commas between them.
pub open spec fn json_fields(fields: Seq<(Seq<char>, Seq<char>)>, n: nat) -> Seq<char>
    decreases n,
{
    if n == 0 {
        Seq::empty()
    } else if n == 1 {
        json_field(fields[0].0, fields[0].1)
    } else {
        json_fields(fields, (n - 1) as nat) + ","@ + json_field(
            fields[n - 1].0,
            fields[n - 1].1,
        )
    }
}

/// A JSON object with the given fields, in order.
pub open spec fn json_object(fields: Seq<(Seq<char>, Seq<char>)>) -> Seq<char> {
    "{"@ + json_fields(fields, fields.len()) + "}"@
}

/// The model of a list of fields whose values are written already.
pub open spec fn field_models(fields: Seq<(&str, String)>) -> Seq<(Seq<char>, Seq<char>)> {
    Seq::new(fields.len(), |i: int| (fields[i].0@, fields[i].1@))
}

/// Writes a JSON object.
pub fn write_object(fields: &Vec<(&str, String)>) -> (r: String)
    ensures
        r@ == json_object(field_models(fields@)),
{
    let ghost all = field_models(fields@);
    let mut text = String::new();
    assert(text@ =~= json_fields(all, 0));
    for i in 0..fields.len()
        invariant
            all == field_models(fields@),
            text@ == json_fields(all, i as nat),
    {
        let name = json_quote(fields[i].0);
        let field = crate::text::join3(name.as_str(), ":", fields[i].1.as_str());
        assert(field@ == json_field(all[i as int].0, all[i as int].1));
        text = if i == 0 {
            field
        } else {
            crate::text::join3(text.as_str(), ",", field.as_str())
        };
    }
    crate::text::join3("{", text.as_str(), "}")
}

/// Writes a boolean.
pub fn json_bool(b: bool) -> (r: String)
    ensures
        r@ == bool_text(b),
{
    if b {
        "true".to_owned()
    } else {
        "false".to_owned()
    }
}

/// A boolean in JSON.
pub open spec fn bool_text(b: bool) -> Seq<char> {
    if b {
        "true"@
    } else {
        "false"@
    }
}

} // verus!
