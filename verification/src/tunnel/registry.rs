//! Tables of live exchanges, keyed by identifier, in the order in which the
//! entries were added.
use crate::text::{opt_same, opt_view, same};
use vstd::prelude::*;

verus! {

/// One entry: the connection generation and the resumable session that it
/// belongs to, where there are such, and its data.
pub struct Slot<V> {
    pub id: String,
    pub generation: Option<u64>,
    pub session: Option<String>,
    pub data: V,
}

/// The model of a [`Slot`].
pub struct SlotModel<M> {
    pub id: Seq<char>,
    pub generation: Option<u64>,
    pub session: Option<Seq<char>>,
    pub data: M,
}

impl<V: View> View for Slot<V> {
    type V = SlotModel<V::V>;

    open spec fn view(&self) -> SlotModel<V::V> {
        SlotModel {
            id: self.id@,
            generation: self.generation,
            session: opt_view(self.session),
            data: self.data@,
        }
    }
}

/// A table of entries.
pub struct Registry<V> {
    pub slots: Vec<Slot<V>>,
}

impl<V: View> View for Registry<V> {
    type V = Seq<SlotModel<V::V>>;

    open spec fn view(&self) -> Seq<SlotModel<V::V>> {
        Seq::new(self.slots@.len(), |i: int| self.slots@[i]@)
    }
}

// ───────────────────────── model ─────────────────────────

/// Where the entry `id` stands, or the number of entries.
pub open spec fn place<M>(s: Seq<SlotModel<M>>, id: Seq<char>) -> nat
    decreases s.len(),
{
    if s.len() == 0 || s[0].id == id {
        0
    } else {
        1 + place(s.drop_first(), id)
    }
}

/// The entry `id`, if there is one.
pub open spec fn entry<M>(s: Seq<SlotModel<M>>, id: Seq<char>) -> Option<SlotModel<M>> {
    if place(s, id) < s.len() {
        Some(s[place(s, id) as int])
    } else {
        None
    }
}

/// The table without the entry `id`.
pub open spec fn without<M>(s: Seq<SlotModel<M>>, id: Seq<char>) -> Seq<SlotModel<M>> {
    s.filter(|e: SlotModel<M>| e.id != id)
}

/// The table with `e` in place of any entry of its name.
pub open spec fn with<M>(s: Seq<SlotModel<M>>, e: SlotModel<M>) -> Seq<SlotModel<M>> {
    without(s, e.id).push(e)
}

/// Which entries an operation concerns.
pub enum Pick<'a> {
    /// Those that belong to a connection and cannot outlive it.
    BoundTo(u64),
    /// Those that belong to a connection.
    Generation(u64),
    /// Those of a resumable session.
    Session(&'a str),
}

/// The model of a [`Pick`].
pub enum PickModel {
    BoundTo(u64),
    Generation(u64),
    Session(Seq<char>),
}

impl<'a> View for Pick<'a> {
    type V = PickModel;

    open spec fn view(&self) -> PickModel {
        match self {
            Pick::BoundTo(g) => PickModel::BoundTo(*g),
            Pick::Generation(g) => PickModel::Generation(*g),
            Pick::Session(s) => PickModel::Session(s@),
        }
    }
}

/// Whether an entry is among those that `p` names.
pub open spec fn picked<M>(p: PickModel) -> spec_fn(SlotModel<M>) -> bool {
    |e: SlotModel<M>|
        match p {
            PickModel::BoundTo(g) => e.generation == Some(g) && e.session is None,
            PickModel::Generation(g) => e.generation == Some(g),
            PickModel::Session(s) => e.session == Some(s),
        }
}

/// The entries that `pred` leaves out.
pub open spec fn others<M>(s: Seq<SlotModel<M>>, pred: spec_fn(SlotModel<M>) -> bool) -> Seq<
    SlotModel<M>,
> {
    s.filter(|e: SlotModel<M>| !pred(e))
}

/// The table after the entries of a session moved to a connection.
pub open spec fn rebound<M>(
    s: Seq<SlotModel<M>>,
    session: Seq<char>,
    generation: u64,
) -> Seq<SlotModel<M>> {
    Seq::new(
        s.len(),
        |i: int|
            if s[i].session == Some(session) {
                SlotModel { generation: Some(generation), ..s[i] }
            } else {
                s[i]
            },
    )
}

/// The models of a sequence of entries.
pub open spec fn slot_models<V: View>(slots: Seq<Slot<V>>) -> Seq<SlotModel<V::V>> {
    Seq::new(slots.len(), |i: int| slots[i]@)
}

/// No two entries share a name.
pub open spec fn distinct<M>(s: Seq<SlotModel<M>>) -> bool {
    forall|i: int, j: int| 0 <= i < j < s.len() ==> s[i].id != s[j].id
}

/// An entry stands where it was found.
pub proof fn place_is<M>(s: Seq<SlotModel<M>>, id: Seq<char>, i: int)
    requires
        0 <= i <= s.len(),
        forall|j: int| 0 <= j < i ==> s[j].id != id,
        i < s.len() ==> s[i].id == id,
    ensures
        place(s, id) == i,
    decreases s.len(),
{
    if i > 0 {
        place_is(s.drop_first(), id, i - 1);
    }
}

/// A place lies in the table, or behind it where there is none.
pub proof fn place_bound<M>(s: Seq<SlotModel<M>>, id: Seq<char>)
    ensures
        place(s, id) <= s.len(),
        place(s, id) < s.len() ==> s[place(s, id) as int].id == id,
        forall|j: int| 0 <= j < place(s, id) ==> s[j].id != id,
    decreases s.len(),
{
    if s.len() > 0 && s[0].id != id {
        let t = s.drop_first();
        place_bound(t, id);
        assert forall|j: int| 0 <= j < place(s, id) implies s[j].id != id by {
            if j > 0 {
                assert(s[j] == t[j - 1]);
            }
        }
    }
}

/// Filtering one more.
pub proof fn filter_extends<A>(s: Seq<A>, n: int, pred: spec_fn(A) -> bool)
    requires
        0 <= n < s.len(),
    ensures
        s.take(n + 1).filter(pred) == (if pred(s[n]) {
            s.take(n).filter(pred).push(s[n])
        } else {
            s.take(n).filter(pred)
        }),
{
    reveal(Seq::filter);
    assert(s.take(n + 1).drop_last() =~= s.take(n));
}

/// Filtering nothing.
pub proof fn filter_empty<A>(pred: spec_fn(A) -> bool)
    ensures
        Seq::<A>::empty().filter(pred) == Seq::<A>::empty(),
{
    reveal(Seq::filter);
}

/// An entry that was removed is gone.
pub proof fn without_lacks<M>(s: Seq<SlotModel<M>>, id: Seq<char>)
    ensures
        entry(without(s, id), id) is None,
{
    let t = without(s, id);
    let pred = |e: SlotModel<M>| e.id != id;
    broadcast use vstd::seq_lib::group_filter_ensures;

    place_bound(t, id);
    if place(t, id) < t.len() {
        assert(pred(t[place(t, id) as int]));
    }
}

/// An entry that was added is found.
pub proof fn with_has<M>(s: Seq<SlotModel<M>>, e: SlotModel<M>)
    ensures
        entry(with(s, e), e.id) == Some(e),
{
    let t = without(s, e.id);
    without_lacks(s, e.id);
    place_bound(t, e.id);
    assert forall|j: int| 0 <= j < t.len() implies t.push(e)[j].id != e.id by {
        assert(place(t, e.id) == t.len());
        assert(t.push(e)[j] == t[j]);
    }
    place_is(t.push(e), e.id, t.len() as int);
}

proof fn filter_distinct<M>(s: Seq<SlotModel<M>>, pred: spec_fn(SlotModel<M>) -> bool)
    requires
        distinct(s),
    ensures
        distinct(s.filter(pred)),
        forall|i: int|
            0 <= i < s.filter(pred).len() ==> exists|j: int|
                0 <= j < s.len() && s[j] == #[trigger] s.filter(pred)[i],
    decreases s.len(),
{
    reveal(Seq::filter);
    if s.len() > 0 {
        let t = s.drop_last();
        filter_distinct(t, pred);
        let f = t.filter(pred);
        assert forall|i: int| 0 <= i < s.filter(pred).len() implies exists|j: int|
            0 <= j < s.len() && s[j] == #[trigger] s.filter(pred)[i] by {
            if i < f.len() {
                let j = choose|j: int| 0 <= j < t.len() && t[j] == f[i];
                assert(s[j] == s.filter(pred)[i]);
            } else {
                assert(s[s.len() - 1] == s.filter(pred)[i]);
            }
        }
        assert forall|i: int, j: int| 0 <= i < j < s.filter(pred).len() implies s.filter(
            pred,
        )[i].id != s.filter(pred)[j].id by {
            if j == f.len() {
                let k = choose|k: int| 0 <= k < t.len() && t[k] == f[i];
                assert(s[k] == f[i]);
            }
        }
    }
}

/// Adding and removing entries keeps names distinct.
pub proof fn changes_keep_distinct<M>(
    s: Seq<SlotModel<M>>,
    e: SlotModel<M>,
    pred: spec_fn(SlotModel<M>) -> bool,
)
    requires
        distinct(s),
    ensures
        distinct(with(s, e)),
        distinct(without(s, e.id)),
        distinct(s.filter(pred)),
{
    let p = |x: SlotModel<M>| x.id != e.id;
    filter_distinct(s, pred);
    filter_distinct(s, p);
    let t = without(s, e.id);

    broadcast use vstd::seq_lib::group_filter_ensures;

    assert forall|i: int| 0 <= i < t.len() implies t[i].id != e.id by {
        assert(p(t[i]));
    }
}

// ───────────────────────── operations ─────────────────────────

impl<V: View> Registry<V> {
    /// No entries.
    pub fn new() -> (r: Registry<V>)
        ensures
            r@ == Seq::<SlotModel<V::V>>::empty(),
    {
        let r = Registry { slots: Vec::new() };
        assert(r@ =~= Seq::<SlotModel<V::V>>::empty());
        r
    }

    /// Where the entry `id` stands.
    pub fn position(&self, id: &str) -> (r: Option<usize>)
        ensures
            match r {
                Some(i) => i == place(self@, id@) && i < self@.len() && i < self.slots@.len(),
                None => entry(self@, id@) is None,
            },
    {
        for i in 0..self.slots.len()
            invariant
                forall|j: int| 0 <= j < i ==> self@[j].id != id@,
        {
            if same(self.slots[i].id.as_str(), id) {
                proof {
                    place_is(self@, id@, i as int);
                }
                return Some(i);
            }
        }
        proof {
            place_is(self@, id@, self@.len() as int);
        }
        None
    }

    /// The entry `id`.
    pub fn get(&self, id: &str) -> (r: Option<&Slot<V>>)
        ensures
            match r {
                Some(slot) => entry(self@, id@) == Some(slot@) && slot@.id == id@,
                None => entry(self@, id@) is None,
            },
    {
        match self.position(id) {
            Some(i) => {
                proof {
                    place_bound(self@, id@);
                }
                Some(&self.slots[i])
            },
            None => None,
        }
    }

    /// Takes the entry `id` out.
    pub fn remove(&mut self, id: &str) -> (r: Option<Slot<V>>)
        ensures
            final(self)@ == without(old(self)@, id@),
            match r {
                Some(slot) => entry(old(self)@, id@) == Some(slot@) && slot@.id == id@,
                None => entry(old(self)@, id@) is None,
            },
    {
        let ghost s = self@;
        let ghost pred = |e: SlotModel<V::V>| e.id != id@;
        let mut found: Option<Slot<V>> = None;
        let mut i: usize = 0;
        let ghost mut n: int = 0;
        proof {
            filter_empty(pred);
            assert(s.take(0) =~= Seq::<SlotModel<V::V>>::empty());
            assert(self@ =~= s.take(0).filter(pred) + s.skip(0));
        }
        while i < self.slots.len()
            invariant
                pred == (|e: SlotModel<V::V>| e.id != id@),
                0 <= n <= s.len(),
                i == s.take(n).filter(pred).len(),
                self@ == s.take(n).filter(pred) + s.skip(n),
                match found {
                    Some(slot) => place(s, id@) < n && s[place(s, id@) as int] == slot@ && slot@.id
                        == id@,
                    None => forall|j: int| 0 <= j < n ==> s[j].id != id@,
                },
            decreases s.len() - n,
        {
            proof {
                assert(self@[i as int] == s[n]);
                filter_extends(s, n, pred);
            }
            if same(self.slots[i].id.as_str(), id) {
                let ghost before = self@;
                let slot = self.slots.remove(i);
                assert(self@ =~= before.remove(i as int));
                assert(self@ =~= s.take(n + 1).filter(pred) + s.skip(n + 1));
                if found.is_none() {
                    proof {
                        place_is(s, id@, n);
                    }
                    found = Some(slot);
                }
            } else {
                i = i + 1;
                assert(self@ =~= s.take(n + 1).filter(pred) + s.skip(n + 1));
            }
            proof {
                n = n + 1;
            }
        }
        proof {
            assert(n == s.len());
            assert(s.take(n) =~= s);
            assert(self@ =~= s.filter(pred));
            if found is None {
                place_is(s, id@, s.len() as int);
            }
        }
        found
    }

    /// Adds an entry, in place of any of its name.
    pub fn insert(&mut self, slot: Slot<V>)
        ensures
            final(self)@ == with(old(self)@, slot@),
    {
        let _ = self.remove(slot.id.as_str());
        let ghost before = self@;
        self.slots.push(slot);
        assert(self@ =~= before.push(slot@));
    }

    /// Whether the `i`-th entry is picked.
    pub fn is_picked(&self, i: usize, pick: &Pick) -> (r: bool)
        requires
            i < self.slots@.len(),
        ensures
            r == picked::<V::V>(pick@)(self@[i as int]),
    {
        match pick {
            Pick::BoundTo(g) => self.slots[i].generation == Some(*g)
                && self.slots[i].session.is_none(),
            Pick::Generation(g) => self.slots[i].generation == Some(*g),
            Pick::Session(s) => opt_same(&self.slots[i].session, s),
        }
    }

    /// Takes out the picked entries.
    pub fn take(&mut self, pick: &Pick) -> (r: Vec<Slot<V>>)
        ensures
            final(self)@ == others(old(self)@, picked(pick@)),
            slot_models(r@) == old(self)@.filter(picked(pick@)),
    {
        let ghost s = self@;
        let ghost pred = picked::<V::V>(pick@);
        let ghost rest = |e: SlotModel<V::V>| !pred(e);
        let mut taken: Vec<Slot<V>> = Vec::new();
        let mut i: usize = 0;
        let ghost mut n: int = 0;
        proof {
            filter_empty(pred);
            filter_empty(rest);
            assert(s.take(0) =~= Seq::<SlotModel<V::V>>::empty());
            assert(self@ =~= s.take(0).filter(rest) + s.skip(0));
            assert(slot_models(taken@) =~= s.take(0).filter(pred));
        }
        while i < self.slots.len()
            invariant
                pred == picked::<V::V>(pick@),
                rest == (|e: SlotModel<V::V>| !pred(e)),
                0 <= n <= s.len(),
                i == s.take(n).filter(rest).len(),
                self@ == s.take(n).filter(rest) + s.skip(n),
                slot_models(taken@) == s.take(n).filter(pred),
            decreases s.len() - n,
        {
            proof {
                assert(self@[i as int] == s[n]);
                filter_extends(s, n, pred);
                filter_extends(s, n, rest);
            }
            if self.is_picked(i, pick) {
                let ghost before = self@;
                let ghost sofar = taken@;
                let slot = self.slots.remove(i);
                assert(self@ =~= before.remove(i as int));
                assert(self@ =~= s.take(n + 1).filter(rest) + s.skip(n + 1));
                taken.push(slot);
                assert(slot_models(taken@) =~= slot_models(sofar).push(slot@));
            } else {
                i = i + 1;
                assert(self@ =~= s.take(n + 1).filter(rest) + s.skip(n + 1));
            }
            proof {
                n = n + 1;
            }
        }
        proof {
            assert(n == s.len());
            assert(s.take(n) =~= s);
            assert(self@ =~= s.filter(rest));
        }
        taken
    }

    /// Moves the entries of a session to a connection.
    pub fn rebind(&mut self, session: &str, generation: u64)
        ensures
            final(self)@ == rebound(old(self)@, session@, generation),
    {
        let ghost s = self@;
        let count: usize = self.slots.len();
        for i in 0..count
            invariant
                count == s.len(),
                self@.len() == s.len(),
                self.slots@.len() == s.len(),
                forall|j: int| 0 <= j < i ==> self@[j] == rebound(s, session@, generation)[j],
                forall|j: int| i <= j < s.len() ==> self@[j] == s[j],
        {
            let ghost before = self@;
            if opt_same(&self.slots[i].session, session) {
                self.slots[i].generation = Some(generation);
            }
            proof {
                let ghost target = rebound(s, session@, generation);
                assert(before[i as int] == s[i as int]);
                assert(self@ =~= before.update(i as int, target[i as int]));
                assert forall|j: int| 0 <= j < i + 1 implies self@[j] == target[j] by {}
            }
        }
        assert(self@ =~= rebound(s, session@, generation));
    }
}

proof fn entry_pushed<M>(s: Seq<SlotModel<M>>, e: SlotModel<M>, id: Seq<char>)
    ensures
        entry(s.push(e), id) == (if entry(s, id) is Some {
            entry(s, id)
        } else if e.id == id {
            Some(e)
        } else {
            None
        }),
{
    place_bound(s, id);
    let t = s.push(e);
    let n = place(s, id) as int;
    if n < s.len() {
        place_is(t, id, n);
    } else if e.id == id {
        place_is(t, id, s.len() as int);
    } else {
        place_is(t, id, t.len() as int);
    }
}

/// What is found under a name is there, under that name; and what is there is
/// found.
pub proof fn entries_are_found<M>(s: Seq<SlotModel<M>>, id: Seq<char>)
    ensures
        entry(s, id) is Some ==> entry(s, id)->0.id == id && s.contains(entry(s, id)->0),
        entry(s, id) is None ==> forall|i: int| 0 <= i < s.len() ==> (#[trigger] s[i]).id != id,
{
    place_bound(s, id);
}

/// Adding or removing an entry leaves those of other names as they are.
pub proof fn other_entries_stay<M>(s: Seq<SlotModel<M>>, e: SlotModel<M>, other: Seq<char>)
    requires
        other != e.id,
    ensures
        entry(without(s, e.id), other) == entry(s, other),
        entry(with(s, e), other) == entry(s, other),
    decreases s.len(),
{
    let t = without(s, e.id);
    entry_pushed(t, e, other);
    reveal(Seq::filter);
    if s.len() > 0 {
        let shorter = s.drop_last();
        other_entries_stay(shorter, e, other);
        assert(s =~= shorter.push(s.last()));
        entry_pushed(shorter, s.last(), other);
        entry_pushed(without(shorter, e.id), s.last(), other);
    } else {
        place_bound(t, other);
    }
}

} // verus!
