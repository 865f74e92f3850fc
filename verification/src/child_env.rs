//! The environment of child processes: without what is reserved for the
//! runtime.
use crate::text::{begins, join3, starts_with};
use crate::tunnel::registry::{filter_empty, filter_extends};
use vstd::prelude::*;

verus! {

/// A variable, as bytes.
pub type Variable = (Vec<u8>, Vec<u8>);

/// The model of a list of variables.
pub open spec fn variable_models(items: Seq<Variable>) -> Seq<(Seq<u8>, Seq<u8>)> {
    Seq::new(items.len(), |i: int| (items[i].0@, items[i].1@))
}

/// Whether a name is reserved for the runtime: it begins with `YR_`.
pub open spec fn reserved(key: Seq<u8>) -> bool {
    key.len() >= 3 && key[0] == 0x59 && key[1] == 0x52 && key[2] == 0x5f
}

/// Whether a variable is reserved for the runtime.
pub fn is_reserved(key: &[u8]) -> (r: bool)
    ensures
        r == reserved(key@),
{
    key.len() >= 3 && key[0] == 0x59 && key[1] == 0x52 && key[2] == 0x5f
}

/// Which variables a child process gets.
pub open spec fn inherited() -> spec_fn((Seq<u8>, Seq<u8>)) -> bool {
    |v: (Seq<u8>, Seq<u8>)| !reserved(v.0)
}

/// The variables that are not reserved, in order.
pub fn filtered(environment: Vec<Variable>) -> (r: Vec<Variable>)
    ensures
        variable_models(r@) == variable_models(environment@).filter(inherited()),
{
    let ghost source = environment@;
    let ghost all = variable_models(source);
    let ghost pred = inherited();
    let mut out: Vec<Variable> = Vec::new();
    proof {
        filter_empty(pred);
        assert(all.take(0) =~= Seq::empty());
        assert(variable_models(out@) =~= Seq::empty());
    }
    for v in it: environment
        invariant
            it.seq() == source,
            all == variable_models(source),
            pred == inherited(),
            variable_models(out@) == all.take(it.index() as int).filter(pred),
    {
        proof {
            filter_extends(all, it.index() as int, pred);
            assert(all[it.index() as int] == (v.0@, v.1@));
        }
        if !is_reserved(v.0.as_slice()) {
            let ghost before = out@;
            out.push(v);
            assert(variable_models(out@) =~= variable_models(before).push(all[it.index() as int]));
        }
    }
    assert(all.take(all.len() as int) =~= all);
    out
}

/// No reserved variable reaches a child process, and every other one does.
pub proof fn reserved_never_inherited(all: Seq<(Seq<u8>, Seq<u8>)>, v: (Seq<u8>, Seq<u8>))
    requires
        all.contains(v),
    ensures
        all.filter(inherited()).contains(v) <==> !reserved(v.0),
{
    broadcast use vstd::seq_lib::group_filter_ensures;

    let f = all.filter(inherited());
    if f.contains(v) {
        let i = choose|i: int| 0 <= i < f.len() && f[i] == v;
        assert(inherited()(f[i]));
    }
    if !reserved(v.0) {
        let i = choose|i: int| 0 <= i < all.len() && all[i] == v;
        assert(inherited()(all[i]));
        assert(f.contains(all[i]));
    }
}

/// What is said of a reserved name.
pub open spec fn reserved_message(key: Seq<char>) -> Seq<char> {
    "environment variable "@ + key + " uses the reserved YR_ prefix"@
}

/// Refuses a reserved name for a variable of a user.
pub fn validate_override(key: &str) -> (r: Result<(), String>)
    ensures
        match r {
            Ok(()) => !begins(key@, "YR_"@),
            Err(e) => begins(key@, "YR_"@) && e@ == reserved_message(key@),
        },
{
    if starts_with(key, "YR_") {
        Err(join3("environment variable ", key, " uses the reserved YR_ prefix"))
    } else {
        Ok(())
    }
}

} // verus!
