//! Dictionaries, by their keys.
use crate::codec::dict;
use crate::value::Model;
use vstd::prelude::*;

verus! {

/// Whether a value is a dictionary that has a key once, with a value.
pub open spec fn says(m: Model, key: Seq<char>, v: Model) -> bool {
    m matches Model::Dict(items) && exists|i: int|
        0 <= i < items.len() && #[trigger] items[i] == (Model::Text(key), v) && forall|j: int|
            0 <= j < items.len() && j != i ==> (#[trigger] items[j]).0 != Model::Text(key)
}

/// The number of entries of a dictionary.
pub open spec fn size(m: Model) -> nat {
    match m {
        Model::Dict(items) => items.len(),
        _ => 0,
    }
}

/// Whether a value is a dictionary without a key.
pub open spec fn lacks(m: Model, key: Seq<char>) -> bool {
    m matches Model::Dict(items) && forall|j: int|
        0 <= j < items.len() ==> (#[trigger] items[j]).0 != Model::Text(key)
}

/// A dictionary has the entries that it was made of.
pub proof fn says_entry(pairs: Seq<(Seq<char>, Model)>, i: int)
    requires
        0 <= i < pairs.len(),
        forall|j: int| 0 <= j < pairs.len() && j != i ==> (#[trigger] pairs[j]).0 != pairs[i].0,
    ensures
        says(dict(pairs), pairs[i].0, pairs[i].1),
        size(dict(pairs)) == pairs.len(),
{
    let items = dict(pairs)->Dict_0;
    assert(items[i] == (Model::Text(pairs[i].0), pairs[i].1));
    assert forall|j: int| 0 <= j < items.len() && j != i implies (#[trigger] items[j]).0
        != Model::Text(pairs[i].0) by {
        assert(items[j].0 == Model::Text(pairs[j].0));
        assert(pairs[j].0 != pairs[i].0);
    }
}

/// A dictionary of one entry says each of them.
pub proof fn fields1(
    k0: Seq<char>,
    v0: Model,
)
    ensures
        size(dict(seq![(k0, v0)])) == 1,
        says(dict(seq![(k0, v0)]), k0, v0),
{
    let all = seq![(k0, v0)];
    assert(all[0] == (k0, v0));
    says_entry(all, 0);
}

/// A dictionary of two entries says each of them.
pub proof fn fields2(
    k0: Seq<char>,
    v0: Model,
    k1: Seq<char>,
    v1: Model,
)
    requires
        k0 != k1,
    ensures
        size(dict(seq![(k0, v0), (k1, v1)])) == 2,
        says(dict(seq![(k0, v0), (k1, v1)]), k0, v0),
        says(dict(seq![(k0, v0), (k1, v1)]), k1, v1),
{
    let all = seq![(k0, v0), (k1, v1)];
    assert(all[0] == (k0, v0));
    assert(all[1] == (k1, v1));
    says_entry(all, 0);
    says_entry(all, 1);
}

/// A dictionary of three entries says each of them.
pub proof fn fields3(
    k0: Seq<char>,
    v0: Model,
    k1: Seq<char>,
    v1: Model,
    k2: Seq<char>,
    v2: Model,
)
    requires
        k0 != k1,
        k0 != k2,
        k1 != k2,
    ensures
        size(dict(seq![(k0, v0), (k1, v1), (k2, v2)])) == 3,
        says(dict(seq![(k0, v0), (k1, v1), (k2, v2)]), k0, v0),
        says(dict(seq![(k0, v0), (k1, v1), (k2, v2)]), k1, v1),
        says(dict(seq![(k0, v0), (k1, v1), (k2, v2)]), k2, v2),
{
    let all = seq![(k0, v0), (k1, v1), (k2, v2)];
    assert(all[0] == (k0, v0));
    assert(all[1] == (k1, v1));
    assert(all[2] == (k2, v2));
    says_entry(all, 0);
    says_entry(all, 1);
    says_entry(all, 2);
}

/// A dictionary of four entries says each of them.
pub proof fn fields4(
    k0: Seq<char>,
    v0: Model,
    k1: Seq<char>,
    v1: Model,
    k2: Seq<char>,
    v2: Model,
    k3: Seq<char>,
    v3: Model,
)
    requires
        k0 != k1,
        k0 != k2,
        k0 != k3,
        k1 != k2,
        k1 != k3,
        k2 != k3,
    ensures
        size(dict(seq![(k0, v0), (k1, v1), (k2, v2), (k3, v3)])) == 4,
        says(dict(seq![(k0, v0), (k1, v1), (k2, v2), (k3, v3)]), k0, v0),
        says(dict(seq![(k0, v0), (k1, v1), (k2, v2), (k3, v3)]), k1, v1),
        says(dict(seq![(k0, v0), (k1, v1), (k2, v2), (k3, v3)]), k2, v2),
        says(dict(seq![(k0, v0), (k1, v1), (k2, v2), (k3, v3)]), k3, v3),
{
    let all = seq![(k0, v0), (k1, v1), (k2, v2), (k3, v3)];
    assert(all[0] == (k0, v0));
    assert(all[1] == (k1, v1));
    assert(all[2] == (k2, v2));
    assert(all[3] == (k3, v3));
    says_entry(all, 0);
    says_entry(all, 1);
    says_entry(all, 2);
    says_entry(all, 3);
}

/// A dictionary of five entries says each of them.
pub proof fn fields5(
    k0: Seq<char>,
    v0: Model,
    k1: Seq<char>,
    v1: Model,
    k2: Seq<char>,
    v2: Model,
    k3: Seq<char>,
    v3: Model,
    k4: Seq<char>,
    v4: Model,
)
    requires
        k0 != k1,
        k0 != k2,
        k0 != k3,
        k0 != k4,
        k1 != k2,
        k1 != k3,
        k1 != k4,
        k2 != k3,
        k2 != k4,
        k3 != k4,
    ensures
        size(dict(seq![(k0, v0), (k1, v1), (k2, v2), (k3, v3), (k4, v4)])) == 5,
        says(dict(seq![(k0, v0), (k1, v1), (k2, v2), (k3, v3), (k4, v4)]), k0, v0),
        says(dict(seq![(k0, v0), (k1, v1), (k2, v2), (k3, v3), (k4, v4)]), k1, v1),
        says(dict(seq![(k0, v0), (k1, v1), (k2, v2), (k3, v3), (k4, v4)]), k2, v2),
        says(dict(seq![(k0, v0), (k1, v1), (k2, v2), (k3, v3), (k4, v4)]), k3, v3),
        says(dict(seq![(k0, v0), (k1, v1), (k2, v2), (k3, v3), (k4, v4)]), k4, v4),
{
    let all = seq![(k0, v0), (k1, v1), (k2, v2), (k3, v3), (k4, v4)];
    assert(all[0] == (k0, v0));
    assert(all[1] == (k1, v1));
    assert(all[2] == (k2, v2));
    assert(all[3] == (k3, v3));
    assert(all[4] == (k4, v4));
    says_entry(all, 0);
    says_entry(all, 1);
    says_entry(all, 2);
    says_entry(all, 3);
    says_entry(all, 4);
}

/// A dictionary of six entries says each of them.
pub proof fn fields6(
    k0: Seq<char>,
    v0: Model,
    k1: Seq<char>,
    v1: Model,
    k2: Seq<char>,
    v2: Model,
    k3: Seq<char>,
    v3: Model,
    k4: Seq<char>,
    v4: Model,
    k5: Seq<char>,
    v5: Model,
)
    requires
        k0 != k1,
        k0 != k2,
        k0 != k3,
        k0 != k4,
        k0 != k5,
        k1 != k2,
        k1 != k3,
        k1 != k4,
        k1 != k5,
        k2 != k3,
        k2 != k4,
        k2 != k5,
        k3 != k4,
        k3 != k5,
        k4 != k5,
    ensures
        size(dict(seq![(k0, v0), (k1, v1), (k2, v2), (k3, v3), (k4, v4), (k5, v5)])) == 6,
        says(dict(seq![(k0, v0), (k1, v1), (k2, v2), (k3, v3), (k4, v4), (k5, v5)]), k0, v0),
        says(dict(seq![(k0, v0), (k1, v1), (k2, v2), (k3, v3), (k4, v4), (k5, v5)]), k1, v1),
        says(dict(seq![(k0, v0), (k1, v1), (k2, v2), (k3, v3), (k4, v4), (k5, v5)]), k2, v2),
        says(dict(seq![(k0, v0), (k1, v1), (k2, v2), (k3, v3), (k4, v4), (k5, v5)]), k3, v3),
        says(dict(seq![(k0, v0), (k1, v1), (k2, v2), (k3, v3), (k4, v4), (k5, v5)]), k4, v4),
        says(dict(seq![(k0, v0), (k1, v1), (k2, v2), (k3, v3), (k4, v4), (k5, v5)]), k5, v5),
{
    let all = seq![(k0, v0), (k1, v1), (k2, v2), (k3, v3), (k4, v4), (k5, v5)];
    assert(all[0] == (k0, v0));
    assert(all[1] == (k1, v1));
    assert(all[2] == (k2, v2));
    assert(all[3] == (k3, v3));
    assert(all[4] == (k4, v4));
    assert(all[5] == (k5, v5));
    says_entry(all, 0);
    says_entry(all, 1);
    says_entry(all, 2);
    says_entry(all, 3);
    says_entry(all, 4);
    says_entry(all, 5);
}

/// A dictionary of seven entries says each of them.
pub proof fn fields7(
    k0: Seq<char>,
    v0: Model,
    k1: Seq<char>,
    v1: Model,
    k2: Seq<char>,
    v2: Model,
    k3: Seq<char>,
    v3: Model,
    k4: Seq<char>,
    v4: Model,
    k5: Seq<char>,
    v5: Model,
    k6: Seq<char>,
    v6: Model,
)
    requires
        k0 != k1,
        k0 != k2,
        k0 != k3,
        k0 != k4,
        k0 != k5,
        k0 != k6,
        k1 != k2,
        k1 != k3,
        k1 != k4,
        k1 != k5,
        k1 != k6,
        k2 != k3,
        k2 != k4,
        k2 != k5,
        k2 != k6,
        k3 != k4,
        k3 != k5,
        k3 != k6,
        k4 != k5,
        k4 != k6,
        k5 != k6,
    ensures
        size(dict(seq![(k0, v0), (k1, v1), (k2, v2), (k3, v3), (k4, v4), (k5, v5), (k6, v6)])) == 7,
        says(dict(seq![(k0, v0), (k1, v1), (k2, v2), (k3, v3), (k4, v4), (k5, v5), (k6, v6)]), k0, v0),
        says(dict(seq![(k0, v0), (k1, v1), (k2, v2), (k3, v3), (k4, v4), (k5, v5), (k6, v6)]), k1, v1),
        says(dict(seq![(k0, v0), (k1, v1), (k2, v2), (k3, v3), (k4, v4), (k5, v5), (k6, v6)]), k2, v2),
        says(dict(seq![(k0, v0), (k1, v1), (k2, v2), (k3, v3), (k4, v4), (k5, v5), (k6, v6)]), k3, v3),
        says(dict(seq![(k0, v0), (k1, v1), (k2, v2), (k3, v3), (k4, v4), (k5, v5), (k6, v6)]), k4, v4),
        says(dict(seq![(k0, v0), (k1, v1), (k2, v2), (k3, v3), (k4, v4), (k5, v5), (k6, v6)]), k5, v5),
        says(dict(seq![(k0, v0), (k1, v1), (k2, v2), (k3, v3), (k4, v4), (k5, v5), (k6, v6)]), k6, v6),
{
    let all = seq![(k0, v0), (k1, v1), (k2, v2), (k3, v3), (k4, v4), (k5, v5), (k6, v6)];
    assert(all[0] == (k0, v0));
    assert(all[1] == (k1, v1));
    assert(all[2] == (k2, v2));
    assert(all[3] == (k3, v3));
    assert(all[4] == (k4, v4));
    assert(all[5] == (k5, v5));
    assert(all[6] == (k6, v6));
    says_entry(all, 0);
    says_entry(all, 1);
    says_entry(all, 2);
    says_entry(all, 3);
    says_entry(all, 4);
    says_entry(all, 5);
    says_entry(all, 6);
}

/// A dictionary says one thing of a key.
pub proof fn says_one_thing(m: Model, key: Seq<char>, a: Model, b: Model)
    requires
        says(m, key, a),
        says(m, key, b),
    ensures
        a == b,
{
}

} // verus!
