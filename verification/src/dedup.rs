//! Requests that are carried out at most once. A request that comes again
//! under the same number gets the response of the first.
use crate::text::same;
use crate::tunnel::registry::{filter_empty, filter_extends};
use vstd::prelude::*;

verus! {

/// How long a request is known by its number, in nanoseconds: half an hour.
pub const REQUEST_DEDUP_TTL: u64 = 1_800_000_000_000;

/// A request that was taken on, and its response once there is one.
pub struct DedupSlot<R> {
    pub slot: u64,
    pub id: String,
    pub created: u64,
    /// Whether the request is still known by its number.
    pub named: bool,
    /// How many requests wait for the response.
    pub followers: u64,
    pub response: Option<R>,
}

/// The model of a [`DedupSlot`].
pub struct SlotModel<R> {
    pub slot: u64,
    pub id: Seq<char>,
    pub created: u64,
    pub named: bool,
    pub followers: u64,
    pub response: Option<R>,
}

impl<R> View for DedupSlot<R> {
    type V = SlotModel<R>;

    open spec fn view(&self) -> SlotModel<R> {
        SlotModel {
            slot: self.slot,
            id: self.id@,
            created: self.created,
            named: self.named,
            followers: self.followers,
            response: self.response,
        }
    }
}

/// The requests that are remembered.
pub struct DedupCache<R> {
    pub slots: Vec<DedupSlot<R>>,
    pub next: u64,
}

/// The model of a [`DedupCache`].
pub struct CacheModel<R> {
    pub slots: Seq<SlotModel<R>>,
    pub next: u64,
}

impl<R> View for DedupCache<R> {
    type V = CacheModel<R>;

    open spec fn view(&self) -> CacheModel<R> {
        CacheModel {
            slots: Seq::new(self.slots@.len(), |i: int| self.slots@[i]@),
            next: self.next,
        }
    }
}

/// How long ago something was, where the clock does not run backwards.
pub open spec fn age(created: u64, now: u64) -> int {
    if now >= created {
        now - created
    } else {
        0
    }
}

/// One more, as far as a `u64` can tell.
pub open spec fn one_more(n: u64) -> u64 {
    if n < u64::MAX {
        (n + 1) as u64
    } else {
        n
    }
}

/// One less, down to zero.
pub open spec fn one_less(n: u64) -> u64 {
    if n > 0 {
        (n - 1) as u64
    } else {
        n
    }
}

impl<R> SlotModel<R> {
    /// At `now`: a request that is too old is no longer known by its number.
    pub open spec fn aged(self, now: u64) -> SlotModel<R> {
        SlotModel { named: self.named && age(self.created, now) <= REQUEST_DEDUP_TTL, ..self }
    }

    /// Whether anyone may still ask for it: it is known by its number, or has no
    /// response yet, or someone waits for the response.
    pub open spec fn needed(self) -> bool {
        self.named || self.response is None || self.followers > 0
    }
}

/// Slots that anyone may still ask for.
pub open spec fn needed<R>() -> spec_fn(SlotModel<R>) -> bool {
    |s: SlotModel<R>| s.needed()
}

/// All slots at `now`.
pub open spec fn all_aged<R>(s: Seq<SlotModel<R>>, now: u64) -> Seq<SlotModel<R>> {
    Seq::new(s.len(), |i: int| s[i].aged(now))
}

/// The place of a request among those known by their number, or the number of
/// slots.
pub open spec fn place_of<R>(s: Seq<SlotModel<R>>, id: Seq<char>) -> nat
    decreases s.len(),
{
    if s.len() == 0 || (s[0].named && s[0].id == id) {
        0
    } else {
        1 + place_of(s.drop_first(), id)
    }
}

/// The place of a slot, or the number of slots.
pub open spec fn slot_place<R>(s: Seq<SlotModel<R>>, slot: u64) -> nat
    decreases s.len(),
{
    if s.len() == 0 || s[0].slot == slot {
        0
    } else {
        1 + slot_place(s.drop_first(), slot)
    }
}

/// What to do about a request.
#[derive(Debug, Clone, Copy, PartialEq, Eq, Structural)]
pub enum Once {
    /// Carry it out, and keep nothing: it has no number.
    Run,
    /// Carry it out, and give the response for the slot.
    Own(u64),
    /// Wait for the response of the slot.
    Follow(u64),
}

impl<R> CacheModel<R> {
    /// At `now`: what is too old is no longer known by its number, and what
    /// nobody may ask for any more is gone.
    pub open spec fn aged(self, now: u64) -> CacheModel<R> {
        CacheModel { slots: all_aged(self.slots, now).filter(needed()), ..self }
    }

    /// With a slot replaced.
    pub open spec fn with_slot(self, i: int, s: SlotModel<R>) -> CacheModel<R> {
        CacheModel { slots: self.slots.update(i, s), ..self }
    }

    /// After a request came: the slot of the first with its number, which has
    /// one more follower, or a new slot.
    pub open spec fn reserved(self, id: Seq<char>, now: u64) -> (CacheModel<R>, u64, bool) {
        let c = self.aged(now);
        let i = place_of(c.slots, id) as int;
        if i < c.slots.len() {
            (
                c.with_slot(
                    i,
                    SlotModel { followers: one_more(c.slots[i].followers), ..c.slots[i] },
                ),
                c.slots[i].slot,
                false,
            )
        } else {
            (
                CacheModel {
                    slots: c.slots.push(
                        SlotModel {
                            slot: c.next,
                            id,
                            created: now,
                            named: true,
                            followers: 0,
                            response: None,
                        },
                    ),
                    next: if c.next < u64::MAX {
                        (c.next + 1) as u64
                    } else {
                        0
                    },
                },
                c.next,
                true,
            )
        }
    }

    /// After a request came that may have no number.
    pub open spec fn once(self, id: Option<Seq<char>>, now: u64) -> (CacheModel<R>, Once) {
        if id is Some && id->0.len() > 0 {
            let (c, slot, owner) = self.reserved(id->0, now);
            if owner {
                (c, Once::Own(slot))
            } else {
                (c, Once::Follow(slot))
            }
        } else {
            (self, Once::Run)
        }
    }

    /// After a response was given for a slot.
    pub open spec fn completed(self, slot: u64, response: R) -> CacheModel<R> {
        let i = slot_place(self.slots, slot) as int;
        if i < self.slots.len() {
            self.with_slot(i, SlotModel { response: Some(response), ..self.slots[i] })
        } else {
            self
        }
    }

    /// The response of a slot, once there is one.
    pub open spec fn response_of(self, slot: u64) -> Option<R> {
        let i = slot_place(self.slots, slot) as int;
        if i < self.slots.len() {
            self.slots[i].response
        } else {
            None
        }
    }

    /// After a follower asked for the response of a slot: once there is one, it
    /// waits no more.
    pub open spec fn collected(self, slot: u64) -> CacheModel<R> {
        let i = slot_place(self.slots, slot) as int;
        if self.response_of(slot) is Some {
            self.with_slot(
                i,
                SlotModel { followers: one_less(self.slots[i].followers), ..self.slots[i] },
            )
        } else {
            self
        }
    }
}

proof fn slot_place_is<R>(s: Seq<SlotModel<R>>, slot: u64, i: int)
    requires
        0 <= i <= s.len(),
        forall|j: int| 0 <= j < i ==> s[j].slot != slot,
        i < s.len() ==> s[i].slot == slot,
    ensures
        slot_place(s, slot) == i,
    decreases s.len(),
{
    if i > 0 {
        slot_place_is(s.drop_first(), slot, i - 1);
    }
}

proof fn place_is<R>(s: Seq<SlotModel<R>>, id: Seq<char>, i: int)
    requires
        0 <= i <= s.len(),
        forall|j: int| 0 <= j < i ==> !((#[trigger] s[j]).named && s[j].id == id),
        i < s.len() ==> s[i].named && s[i].id == id,
    ensures
        place_of(s, id) == i,
    decreases s.len(),
{
    if i > 0 {
        let t = s.drop_first();
        assert(!(s[0].named && s[0].id == id));
        assert forall|j: int| 0 <= j < i - 1 implies !((#[trigger] t[j]).named && t[j].id == id) by {
            assert(t[j] == s[j + 1]);
        }
        place_is(t, id, i - 1);
    }
}

fn elapsed(created: u64, now: u64) -> (r: u64)
    ensures
        r == age(created, now),
{
    if now >= created {
        now - created
    } else {
        0
    }
}

impl<R> DedupCache<R> {
    /// No requests.
    pub fn new() -> (r: DedupCache<R>)
        ensures
            r@ == (CacheModel { slots: Seq::<SlotModel<R>>::empty(), next: 1 }),
    {
        let r = DedupCache { slots: Vec::new(), next: 1 };
        assert(r@.slots =~= Seq::<SlotModel<R>>::empty());
        r
    }

    /// Forgets the numbers that are too old, and what nobody may ask for any
    /// more.
    pub fn cleanup_dedup_cache(&mut self, now: u64)
        ensures
            final(self)@ == old(self)@.aged(now),
    {
        let ghost s = all_aged(self@.slots, now);
        let ghost pred = needed::<R>();
        let count: usize = self.slots.len();
        for k in 0..count
            invariant
                count == self.slots@.len(),
                count == old(self).slots@.len(),
                s == all_aged(old(self)@.slots, now),
                self.next == old(self).next,
                forall|j: int| 0 <= j < k ==> (#[trigger] self@.slots[j]) == s[j],
                forall|j: int|
                    k <= j < count ==> (#[trigger] self@.slots[j]) == old(self)@.slots[j],
        {
            let ghost before = self@.slots;
            assert(self@.slots[k as int] == old(self)@.slots[k as int]);
            if elapsed(self.slots[k].created, now) > REQUEST_DEDUP_TTL {
                self.slots[k].named = false;
            }
            assert(self@.slots =~= before.update(k as int, s[k as int]));
        }
        assert(self@.slots =~= s);
        let mut i: usize = 0;
        let ghost mut n: int = 0;
        proof {
            filter_empty(pred);
            assert(s.take(0) =~= Seq::<SlotModel<R>>::empty());
            assert(self@.slots =~= s.take(0).filter(pred) + s.skip(0));
        }
        while i < self.slots.len()
            invariant
                pred == needed::<R>(),
                0 <= n <= s.len(),
                i == s.take(n).filter(pred).len(),
                self@.slots == s.take(n).filter(pred) + s.skip(n),
                self.next == old(self).next,
            decreases s.len() - n,
        {
            let ghost before = self@.slots;
            proof {
                assert(before[i as int] == s[n]);
                filter_extends(s, n, pred);
            }
            if self.slots[i].named || self.slots[i].response.is_none() || self.slots[i].followers
                > 0 {
                i = i + 1;
            } else {
                let _ = self.slots.remove(i);
                assert(self@.slots =~= before.remove(i as int));
            }
            assert(self@.slots =~= s.take(n + 1).filter(pred) + s.skip(n + 1));
            proof {
                n = n + 1;
            }
        }
        proof {
            assert(self@.slots.len() == self.slots@.len());
            assert(n == s.len());
            assert(s.take(n) =~= s);
            assert(self@.slots =~= s.filter(pred));
        }
    }

    /// Takes a request on, unless it was taken on before; then it follows the
    /// first. Returns its slot, and whether it was taken on now.
    pub fn reserve_request_id(&mut self, request_id: &str, now: u64) -> (r: (u64, bool))
        ensures
            (final(self)@, r.0, r.1) == old(self)@.reserved(request_id@, now),
    {
        self.cleanup_dedup_cache(now);
        let ghost s = self@.slots;
        let count: usize = self.slots.len();
        for i in 0..count
            invariant
                count == self.slots@.len(),
                s == self@.slots,
                self@ == old(self)@.aged(now),
                forall|j: int|
                    0 <= j < i ==> !((#[trigger] s[j]).named && s[j].id == request_id@),
        {
            assert(s[i as int] == self.slots@[i as int]@);
            if self.slots[i].named && same(self.slots[i].id.as_str(), request_id) {
                proof {
                    place_is(s, request_id@, i as int);
                }
                if self.slots[i].followers < u64::MAX {
                    self.slots[i].followers = self.slots[i].followers + 1;
                }
                assert(self@.slots =~= s.update(
                    i as int,
                    SlotModel { followers: one_more(s[i as int].followers), ..s[i as int] },
                ));
                return (self.slots[i].slot, false);
            }
        }
        proof {
            place_is(s, request_id@, s.len() as int);
        }
        let slot: u64 = self.next;
        self.next = if slot < u64::MAX {
            slot + 1
        } else {
            0
        };
        self.slots.push(
            DedupSlot {
                slot,
                id: request_id.to_owned(),
                created: now,
                named: true,
                followers: 0,
                response: None,
            },
        );
        assert(self@.slots =~= s.push(
            SlotModel {
                slot,
                id: request_id@,
                created: now,
                named: true,
                followers: 0,
                response: None,
            },
        ));
        (slot, true)
    }

    /// Decides what to do about a request, which may have no number.
    pub fn once(&mut self, request_id: Option<&str>, now: u64) -> (r: Once)
        ensures
            (final(self)@, r) == old(self)@.once(crate::text::opt_str_view(request_id), now),
    {
        match request_id {
            None => Once::Run,
            Some(id) => {
                if id.is_empty() {
                    return Once::Run;
                }
                let (slot, owner) = self.reserve_request_id(id, now);
                if owner {
                    Once::Own(slot)
                } else {
                    Once::Follow(slot)
                }
            },
        }
    }

    fn position(&self, slot: u64) -> (r: Option<usize>)
        ensures
            match r {
                Some(i) => i == slot_place(self@.slots, slot) && i < self@.slots.len() && i
                    < self.slots@.len(),
                None => slot_place(self@.slots, slot) == self@.slots.len(),
            },
    {
        for i in 0..self.slots.len()
            invariant
                forall|j: int| 0 <= j < i ==> self@.slots[j].slot != slot,
        {
            if self.slots[i].slot == slot {
                proof {
                    slot_place_is(self@.slots, slot, i as int);
                }
                return Some(i);
            }
        }
        proof {
            slot_place_is(self@.slots, slot, self@.slots.len() as int);
        }
        None
    }

    /// The response of a slot for a follower, once there is one. With it the
    /// follower waits no more.
    pub fn wait_dedup_response(&mut self, slot: u64) -> (r: Option<&R>)
        ensures
            final(self)@ == old(self)@.collected(slot),
            match r {
                Some(response) => old(self)@.response_of(slot) == Some(*response),
                None => old(self)@.response_of(slot) is None,
            },
    {
        let i = match self.position(slot) {
            Some(i) => i,
            None => {
                return None;
            },
        };
        if self.slots[i].response.is_none() {
            return None;
        }
        let ghost before = self@.slots;
        if self.slots[i].followers > 0 {
            self.slots[i].followers = self.slots[i].followers - 1;
        }
        assert(self@.slots =~= before.update(
            i as int,
            SlotModel { followers: one_less(before[i as int].followers), ..before[i as int] },
        ));
        match &self.slots[i].response {
            Some(response) => Some(response),
            None => None,
        }
    }

    /// Gives the response for a slot.
    pub fn complete_dedup_response(&mut self, slot: u64, response: R)
        ensures
            final(self)@ == old(self)@.completed(slot, response),
    {
        if let Some(i) = self.position(slot) {
            let ghost before = self@.slots;
            self.slots[i].response = Some(response);
            assert(self@.slots =~= before.update(
                i as int,
                SlotModel { response: Some(response), ..before[i as int] },
            ));
        }
    }
}

// ───────────────────────── invariant ─────────────────────────

impl<R> CacheModel<R> {
    /// Slots have numbers of their own, all below the next, and no two requests
    /// are known by the same number.
    pub open spec fn wf(self) -> bool {
        distinct(self.slots) && below(self.slots, self.next)
    }

    /// Whether a request number leads to a slot, which was taken on at `created`
    /// and has this response, if it has one.
    pub open spec fn leads(
        self,
        id: Seq<char>,
        slot: u64,
        created: u64,
        response: Option<R>,
    ) -> bool {
        let i = slot_place(self.slots, slot) as int;
        &&& i < self.slots.len()
        &&& self.slots[i].named
        &&& self.slots[i].id == id
        &&& self.slots[i].created == created
        &&& self.slots[i].response == response
    }

    /// Whether a slot is there with this response, if it has one, and at least
    /// `n` requests wait for it.
    pub open spec fn holds(self, slot: u64, response: Option<R>, n: int) -> bool {
        let i = slot_place(self.slots, slot) as int;
        &&& i < self.slots.len()
        &&& self.slots[i].response == response
        &&& self.slots[i].followers >= n
    }
}

/// No two slots have one number, and no two requests are known by one.
pub open spec fn distinct<R>(s: Seq<SlotModel<R>>) -> bool {
    forall|i: int, j: int|
        #![trigger s[i], s[j]]
        0 <= i < j < s.len() ==> s[i].slot != s[j].slot && !(s[i].named && s[j].named && s[i].id
            == s[j].id)
}

/// All slots have numbers below another.
pub open spec fn below<R>(s: Seq<SlotModel<R>>, next: u64) -> bool {
    forall|i: int| 0 <= i < s.len() ==> (#[trigger] s[i]).slot < next
}

/// Something that happens to the requests that are remembered.
pub enum CacheOp<R> {
    /// A request comes, with a number or without.
    Came { id: Option<Seq<char>>, now: u64 },
    /// A response is given for a slot.
    Completed { slot: u64, response: R },
    /// A follower asks for the response of a slot.
    Asked { slot: u64 },
    /// What is too old is forgotten.
    Aged { now: u64 },
}

impl<R> CacheModel<R> {
    /// After an operation.
    pub open spec fn apply(self, op: CacheOp<R>) -> CacheModel<R> {
        match op {
            CacheOp::Came { id, now } => self.once(id, now).0,
            CacheOp::Completed { slot, response } => self.completed(slot, response),
            CacheOp::Asked { slot } => self.collected(slot),
            CacheOp::Aged { now } => self.aged(now),
        }
    }

    /// After operations, one after the other.
    pub open spec fn run(self, ops: Seq<CacheOp<R>>) -> CacheModel<R>
        decreases ops.len(),
    {
        if ops.len() == 0 {
            self
        } else {
            self.run(ops.drop_last()).apply(ops.last())
        }
    }
}

/// Whether an operation gives no response for a slot.
pub open spec fn leaves_open<R>(op: CacheOp<R>, slot: u64) -> bool {
    op matches CacheOp::Completed { slot: other, .. } ==> other != slot
}

/// Whether an operation comes within half an hour of a time.
pub open spec fn in_time<R>(op: CacheOp<R>, created: u64) -> bool {
    match op {
        CacheOp::Came { now, .. } => age(created, now) <= REQUEST_DEDUP_TTL,
        CacheOp::Aged { now } => age(created, now) <= REQUEST_DEDUP_TTL,
        _ => true,
    }
}

// ───────────────────────── laws ─────────────────────────

proof fn slot_place_bound<R>(s: Seq<SlotModel<R>>, slot: u64)
    ensures
        slot_place(s, slot) <= s.len(),
        forall|j: int| 0 <= j < slot_place(s, slot) ==> (#[trigger] s[j]).slot != slot,
        slot_place(s, slot) < s.len() ==> s[slot_place(s, slot) as int].slot == slot,
    decreases s.len(),
{
    if s.len() > 0 && s[0].slot != slot {
        let t = s.drop_first();
        slot_place_bound(t, slot);
        assert forall|j: int| 0 <= j < slot_place(s, slot) implies (#[trigger] s[j]).slot
            != slot by {
            if j > 0 {
                assert(s[j] == t[j - 1]);
            }
        }
    }
}

proof fn place_bound<R>(s: Seq<SlotModel<R>>, id: Seq<char>)
    ensures
        place_of(s, id) <= s.len(),
        forall|j: int| 0 <= j < place_of(s, id) ==> !((#[trigger] s[j]).named && s[j].id == id),
        place_of(s, id) < s.len() ==> s[place_of(s, id) as int].named && s[place_of(
            s,
            id,
        ) as int].id == id,
    decreases s.len(),
{
    if s.len() > 0 && !(s[0].named && s[0].id == id) {
        let t = s.drop_first();
        place_bound(t, id);
        assert forall|j: int| 0 <= j < place_of(s, id) implies !((#[trigger] s[j]).named && s[j].id
            == id) by {
            if j > 0 {
                assert(s[j] == t[j - 1]);
            }
        }
    }
}

/// Where slots are distinct, a slot stands where its number and its request's
/// number lead.
proof fn found<R>(s: Seq<SlotModel<R>>, i: int)
    requires
        distinct(s),
        0 <= i < s.len(),
    ensures
        slot_place(s, s[i].slot) == i,
        s[i].named ==> place_of(s, s[i].id) == i,
{
    slot_place_is(s, s[i].slot, i);
    if s[i].named {
        place_is(s, s[i].id, i);
    }
}

/// Filtering keeps slots distinct, and keeps those that are needed.
proof fn filtered_distinct<R>(s: Seq<SlotModel<R>>, next: u64)
    requires
        distinct(s),
        below(s, next),
    ensures
        distinct(s.filter(needed())),
        below(s.filter(needed()), next),
        forall|i: int|
            0 <= i < s.filter(needed()).len() ==> s.contains(#[trigger] s.filter(needed())[i]),
        forall|i: int|
            0 <= i < s.len() && (#[trigger] s[i]).needed() ==> s.filter(needed()).contains(s[i]),
    decreases s.len(),
{
    let pred = needed::<R>();
    let f = s.filter(pred);
    if s.len() == 0 {
        filter_empty(pred);
        assert(s =~= Seq::empty());
    } else {
        let t = s.drop_last();
        let last = s.last();
        assert(distinct(t)) by {
            assert forall|i: int, j: int|
                #![trigger t[i], t[j]]
                0 <= i < j < t.len() implies t[i].slot != t[j].slot && !(t[i].named && t[j].named
                && t[i].id == t[j].id) by {
                assert(t[i] == s[i] && t[j] == s[j]);
            }
        }
        assert(below(t, next)) by {
            assert forall|i: int| 0 <= i < t.len() implies (#[trigger] t[i]).slot < next by {
                assert(t[i] == s[i]);
            }
        }
        filtered_distinct(t, next);
        let g = t.filter(pred);
        filter_extends(s, s.len() - 1, pred);
        assert(s.take(s.len() - 1) =~= t);
        assert(s.take(s.len() as int) =~= s);
        assert(f == (if pred(last) {
            g.push(last)
        } else {
            g
        }));
        assert forall|i: int| 0 <= i < g.len() implies s.contains(#[trigger] g[i]) && g[i].slot
            != last.slot && g[i].slot < next && !(g[i].named && last.named && g[i].id
            == last.id) by {
            let k = choose|k: int| 0 <= k < t.len() && t[k] == g[i];
            assert(s[k] == g[i]);
            assert(s[s.len() - 1] == last);
        }
        assert(s[s.len() - 1].slot < next);
        assert forall|i: int, j: int|
            #![trigger f[i], f[j]]
            0 <= i < j < f.len() implies f[i].slot != f[j].slot && !(f[i].named && f[j].named
            && f[i].id == f[j].id) by {
            assert(f[i] == g[i]);
            if j < g.len() {
                assert(f[j] == g[j]);
            }
        }
        assert forall|i: int| 0 <= i < f.len() implies s.contains(#[trigger] f[i]) by {
            if i < g.len() {
                assert(f[i] == g[i]);
            } else {
                assert(s[s.len() - 1] == f[i]);
            }
        }
        assert forall|i: int| 0 <= i < f.len() implies (#[trigger] f[i]).slot < next by {
            if i < g.len() {
                assert(f[i] == g[i]);
            }
        }
        assert forall|i: int| 0 <= i < s.len() && (#[trigger] s[i]).needed() implies f.contains(
            s[i],
        ) by {
            if i < t.len() {
                assert(t[i] == s[i]);
                let k = choose|k: int| 0 <= k < g.len() && g[k] == s[i];
                assert(f[k] == s[i]);
            } else {
                assert(f[f.len() - 1] == last);
            }
        }
    }
}

/// Ageing keeps slots distinct, and keeps a slot that is needed.
proof fn aged_keeps<R>(c: CacheModel<R>, now: u64, slot: u64)
    requires
        c.wf(),
    ensures
        c.aged(now).wf(),
        ({
            let i = slot_place(c.slots, slot) as int;
            let j = slot_place(c.aged(now).slots, slot) as int;
            i < c.slots.len() && c.slots[i].aged(now).needed() ==> j < c.aged(now).slots.len()
                && c.aged(now).slots[j] == c.slots[i].aged(now)
        }),
{
    let a = all_aged(c.slots, now);
    assert forall|i: int, j: int|
        #![trigger a[i], a[j]]
        0 <= i < j < a.len() implies a[i].slot != a[j].slot && !(a[i].named && a[j].named && a[i].id
        == a[j].id) by {
        assert(c.slots[i].slot != c.slots[j].slot);
    }
    assert forall|i: int| 0 <= i < a.len() implies (#[trigger] a[i]).slot < c.next by {
        assert(c.slots[i].slot < c.next);
    }
    filtered_distinct(a, c.next);
    slot_place_bound(c.slots, slot);
    let i = slot_place(c.slots, slot) as int;
    if i < c.slots.len() && c.slots[i].aged(now).needed() {
        assert(a[i].needed());
        let f = a.filter(needed());
        let k = choose|k: int| 0 <= k < f.len() && f[k] == a[i];
        found(f, k);
    }
}

/// Replacing a slot by one of the same number and request, which is not known
/// by its number where it was not, keeps slots distinct and the others as they
/// were.
proof fn replaced_keeps<R>(c: CacheModel<R>, i: int, e: SlotModel<R>, slot: u64)
    requires
        c.wf(),
        0 <= i < c.slots.len(),
        e.slot == c.slots[i].slot,
        e.id == c.slots[i].id,
        e.named ==> c.slots[i].named,
    ensures
        c.with_slot(i, e).wf(),
        slot_place(c.with_slot(i, e).slots, slot) == slot_place(c.slots, slot),
        slot_place(c.slots, slot) <= c.slots.len(),
{
    let t = c.with_slot(i, e).slots;
    assert forall|a: int, b: int|
        #![trigger t[a], t[b]]
        0 <= a < b < t.len() implies t[a].slot != t[b].slot && !(t[a].named && t[b].named && t[a].id
        == t[b].id) by {
        assert(c.slots[a].slot != c.slots[b].slot && !(c.slots[a].named && c.slots[b].named
            && c.slots[a].id == c.slots[b].id));
    }
    assert forall|a: int| 0 <= a < t.len() implies (#[trigger] t[a]).slot < c.next by {
        assert(c.slots[a].slot < c.next);
    }
    slot_place_bound(c.slots, slot);
    let p = slot_place(c.slots, slot) as int;
    assert forall|j: int| 0 <= j < p implies (#[trigger] t[j]).slot != slot by {
        assert(c.slots[j].slot != slot);
    }
    slot_place_is(t, slot, p);
}

/// Taking a new request on keeps slots distinct and the others as they were.
proof fn pushed_keeps<R>(c: CacheModel<R>, e: SlotModel<R>, slot: u64)
    requires
        c.wf(),
        e.slot == c.next,
        c.next < u64::MAX,
        place_of(c.slots, e.id) >= c.slots.len(),
    ensures
        ({
            let d = CacheModel { slots: c.slots.push(e), next: (c.next + 1) as u64 };
            &&& d.wf()
            &&& slot_place(c.slots, slot) < c.slots.len() ==> slot_place(d.slots, slot)
                == slot_place(c.slots, slot)
            &&& slot_place(d.slots, c.next) == c.slots.len()
        }),
{
    let t = c.slots.push(e);
    place_bound(c.slots, e.id);
    assert forall|a: int, b: int|
        #![trigger t[a], t[b]]
        0 <= a < b < t.len() implies t[a].slot != t[b].slot && !(t[a].named && t[b].named && t[a].id
        == t[b].id) by {
        assert(t[a] == c.slots[a]);
        if b < c.slots.len() {
            assert(t[b] == c.slots[b]);
        } else {
            assert(c.slots[a].slot < c.next);
        }
    }
    assert forall|a: int| 0 <= a < t.len() implies (#[trigger] t[a]).slot < c.next + 1 by {
        if a < c.slots.len() {
            assert(t[a] == c.slots[a]);
        }
    }
    slot_place_bound(c.slots, slot);
    let p = slot_place(c.slots, slot) as int;
    if p < c.slots.len() {
        assert forall|j: int| 0 <= j < p implies (#[trigger] t[j]).slot != slot by {
            assert(t[j] == c.slots[j]);
        }
        slot_place_is(t, slot, p);
    }
    assert forall|j: int| 0 <= j < c.slots.len() implies (#[trigger] t[j]).slot != c.next by {
        assert(t[j] == c.slots[j]);
    }
    slot_place_is(t, c.next, c.slots.len() as int);
}

/// What a request that comes does to the slot of another: nothing, but that it
/// ages, and gets one more follower where it is the one.
proof fn came_keeps<R>(c: CacheModel<R>, id: Seq<char>, now: u64, slot: u64)
    requires
        c.wf(),
        c.next < u64::MAX,
    ensures
        c.reserved(id, now).0.wf(),
        ({
            let d = c.reserved(id, now).0;
            let i = slot_place(c.slots, slot) as int;
            let j = slot_place(d.slots, slot) as int;
            let e = c.slots[i].aged(now);
            i < c.slots.len() && e.needed() ==> j < d.slots.len() && (d.slots[j] == e || d.slots[j]
                == SlotModel { followers: one_more(e.followers), ..e })
        }),
{
    aged_keeps(c, now, slot);
    let a = c.aged(now);
    place_bound(a.slots, id);
    let p = place_of(a.slots, id) as int;
    if p < a.slots.len() {
        replaced_keeps(
            a,
            p,
            SlotModel { followers: one_more(a.slots[p].followers), ..a.slots[p] },
            slot,
        );
    } else {
        pushed_keeps(
            a,
            SlotModel {
                slot: a.next,
                id,
                created: now,
                named: true,
                followers: 0,
                response: None,
            },
            slot,
        );
    }
}

/// Every operation keeps slot numbers and known request numbers distinct.
pub proof fn operations_keep_distinct<R>(c: CacheModel<R>, op: CacheOp<R>)
    requires
        c.wf(),
        c.next < u64::MAX,
    ensures
        c.apply(op).wf(),
        c.next <= c.apply(op).next <= c.next + 1,
{
    match op {
        CacheOp::Came { id, now } => {
            if id is Some {
                came_keeps(c, id->0, now, 0);
            }
        },
        CacheOp::Completed { slot, response } => {
            slot_place_bound(c.slots, slot);
            let i = slot_place(c.slots, slot) as int;
            if i < c.slots.len() {
                replaced_keeps(
                    c,
                    i,
                    SlotModel { response: Some(response), ..c.slots[i] },
                    slot,
                );
            }
        },
        CacheOp::Asked { slot } => {
            slot_place_bound(c.slots, slot);
            let i = slot_place(c.slots, slot) as int;
            if i < c.slots.len() {
                replaced_keeps(
                    c,
                    i,
                    SlotModel { followers: one_less(c.slots[i].followers), ..c.slots[i] },
                    slot,
                );
            }
        },
        CacheOp::Aged { now } => aged_keeps(c, now, 0),
    }
}

/// Within half an hour, whatever else happens, a request number leads to the
/// same slot with the same response.
pub proof fn operations_keep_responses<R>(
    c: CacheModel<R>,
    op: CacheOp<R>,
    id: Seq<char>,
    slot: u64,
    created: u64,
    response: Option<R>,
)
    requires
        c.wf(),
        c.next < u64::MAX,
        c.leads(id, slot, created, response),
        in_time(op, created),
        leaves_open(op, slot),
    ensures
        c.apply(op).leads(id, slot, created, response),
{
    slot_place_bound(c.slots, slot);
    match op {
        CacheOp::Came { id: other, now } => {
            if other is Some {
                came_keeps(c, other->0, now, slot);
            }
        },
        CacheOp::Completed { slot: other, response: r } => {
            slot_place_bound(c.slots, other);
            let i = slot_place(c.slots, other) as int;
            if i < c.slots.len() {
                replaced_keeps(c, i, SlotModel { response: Some(r), ..c.slots[i] }, slot);
            }
        },
        CacheOp::Asked { slot: other } => {
            slot_place_bound(c.slots, other);
            let i = slot_place(c.slots, other) as int;
            if i < c.slots.len() {
                replaced_keeps(
                    c,
                    i,
                    SlotModel { followers: one_less(c.slots[i].followers), ..c.slots[i] },
                    slot,
                );
            }
        },
        CacheOp::Aged { now } => aged_keeps(c, now, slot),
    }
}

/// A request that is taken on leads to its slot, which has no response; and
/// once a response was given, to that response.
pub proof fn new_requests_lead_to_their_slot<R>(
    c: CacheModel<R>,
    id: Seq<char>,
    now: u64,
    slot: u64,
    response: R,
)
    requires
        c.wf(),
        c.next < u64::MAX,
    ensures
        c.once(Some(id), now).1 == Once::Own(slot) ==> slot == c.next && c.once(
            Some(id),
            now,
        ).0.leads(id, slot, now, None),
        forall|created: u64|
            c.leads(id, slot, created, None) ==> #[trigger] c.completed(slot, response).leads(
                id,
                slot,
                created,
                Some(response),
            ),
{
    aged_keeps(c, now, slot);
    let a = c.aged(now);
    place_bound(a.slots, id);
    if place_of(a.slots, id) >= a.slots.len() {
        pushed_keeps(
            a,
            SlotModel {
                slot: a.next,
                id,
                created: now,
                named: true,
                followers: 0,
                response: None,
            },
            slot,
        );
    }
    slot_place_bound(c.slots, slot);
    let i = slot_place(c.slots, slot) as int;
    if i < c.slots.len() {
        replaced_keeps(c, i, SlotModel { response: Some(response), ..c.slots[i] }, slot);
    }
}

/// Within half an hour of being taken on, a request that comes again is not
/// carried out: it follows the slot of the first, and gets its response.
pub proof fn requests_run_once<R>(
    c: CacheModel<R>,
    id: Seq<char>,
    slot: u64,
    created: u64,
    response: Option<R>,
    later: u64,
)
    requires
        c.wf(),
        id.len() > 0,
        c.leads(id, slot, created, response),
        age(created, later) <= REQUEST_DEDUP_TTL,
    ensures
        c.once(Some(id), later).1 == Once::Follow(slot),
        c.once(Some(id), later).0.response_of(slot) == response,
{
    aged_keeps(c, later, slot);
    let a = c.aged(later);
    slot_place_bound(c.slots, slot);
    let j = slot_place(a.slots, slot) as int;
    slot_place_bound(a.slots, slot);
    found(a.slots, j);
    replaced_keeps(
        a,
        j,
        SlotModel { followers: one_more(a.slots[j].followers), ..a.slots[j] },
        slot,
    );
}

/// Requests without a number, or with an empty one, are carried out each time.
pub proof fn unnumbered_requests_run<R>(c: CacheModel<R>, id: Option<Seq<char>>, now: u64)
    requires
        id is Some ==> id->0.len() == 0,
    ensures
        c.once(id, now) == (c, Once::Run),
{
}

proof fn run_keeps<R>(
    c: CacheModel<R>,
    ops: Seq<CacheOp<R>>,
    id: Seq<char>,
    slot: u64,
    created: u64,
    response: Option<R>,
)
    requires
        c.wf(),
        c.next + ops.len() < u64::MAX,
        c.leads(id, slot, created, response),
        forall|i: int|
            0 <= i < ops.len() ==> in_time(#[trigger] ops[i], created) && leaves_open(ops[i], slot),
    ensures
        c.run(ops).wf(),
        c.next <= c.run(ops).next <= c.next + ops.len(),
        c.run(ops).leads(id, slot, created, response),
    decreases ops.len(),
{
    if ops.len() > 0 {
        let t = ops.drop_last();
        assert forall|i: int| 0 <= i < t.len() implies in_time(#[trigger] t[i], created)
            && leaves_open(t[i], slot) by {
            assert(t[i] == ops[i]);
        }
        run_keeps(c, t, id, slot, created, response);
        let op = ops[ops.len() - 1];
        operations_keep_distinct(c.run(t), op);
        operations_keep_responses(c.run(t), op, id, slot, created, response);
    }
}

/// A request that comes again within half an hour gets the first response,
/// whatever requests came, were answered and were asked for before and after
/// that response was given.
pub proof fn retries_get_the_first_response<R>(
    c: CacheModel<R>,
    id: Seq<char>,
    created: u64,
    slot: u64,
    before: Seq<CacheOp<R>>,
    response: R,
    after: Seq<CacheOp<R>>,
    later: u64,
)
    requires
        c.wf(),
        id.len() > 0,
        c.next + before.len() + after.len() + 1 < u64::MAX,
        c.once(Some(id), created).1 == Once::Own(slot),
        forall|i: int|
            0 <= i < before.len() ==> in_time(#[trigger] before[i], created) && leaves_open(
                before[i],
                slot,
            ),
        forall|i: int|
            0 <= i < after.len() ==> in_time(#[trigger] after[i], created) && leaves_open(
                after[i],
                slot,
            ),
        age(created, later) <= REQUEST_DEDUP_TTL,
    ensures
        ({
            let answered = c.once(Some(id), created).0.run(before).completed(slot, response);
            let (now, what) = answered.run(after).once(Some(id), later);
            what == Once::Follow(slot) && now.response_of(slot) == Some(response)
        }),
{
    let owned = c.once(Some(id), created).0;
    new_requests_lead_to_their_slot(c, id, created, slot, response);
    operations_keep_distinct(c, CacheOp::Came { id: Some(id), now: created });
    run_keeps(owned, before, id, slot, created, None);
    let ready = owned.run(before);
    new_requests_lead_to_their_slot(ready, id, created, slot, response);
    operations_keep_distinct(ready, CacheOp::Completed { slot, response });
    let answered = ready.completed(slot, response);
    assert(answered.leads(id, slot, created, Some(response)));
    run_keeps(answered, after, id, slot, created, Some(response));
    requests_run_once(answered.run(after), id, slot, created, Some(response), later);
}

/// However long an action takes, those who follow its request get the response:
/// a slot without a response stays until one was given, and one with a response
/// stays until the last of its followers has asked for it.
pub proof fn late_followers_get_the_response<R>(
    c: CacheModel<R>,
    op: CacheOp<R>,
    slot: u64,
    response: Option<R>,
    n: int,
)
    requires
        c.wf(),
        c.next < u64::MAX,
        c.holds(slot, response, n),
        response is None || n > 0,
    ensures
        match op {
            CacheOp::Completed { slot: other, response: given } => c.apply(op).holds(
                slot,
                if other == slot {
                    Some(given)
                } else {
                    response
                },
                n,
            ),
            CacheOp::Asked { slot: other } => c.apply(op).holds(
                slot,
                response,
                if other == slot && response is Some {
                    n - 1
                } else {
                    n
                },
            ),
            _ => c.apply(op).holds(slot, response, n),
        },
        c.apply(op).response_of(slot) == (match op {
            CacheOp::Completed { slot: other, response: given } => if other == slot {
                Some(given)
            } else {
                response
            },
            _ => response,
        }),
{
    slot_place_bound(c.slots, slot);
    match op {
        CacheOp::Came { id: other, now } => {
            if other is Some {
                came_keeps(c, other->0, now, slot);
            }
        },
        CacheOp::Completed { slot: other, response: r } => {
            slot_place_bound(c.slots, other);
            let i = slot_place(c.slots, other) as int;
            if i < c.slots.len() {
                replaced_keeps(c, i, SlotModel { response: Some(r), ..c.slots[i] }, slot);
            }
        },
        CacheOp::Asked { slot: other } => {
            slot_place_bound(c.slots, other);
            let i = slot_place(c.slots, other) as int;
            if i < c.slots.len() {
                replaced_keeps(
                    c,
                    i,
                    SlotModel { followers: one_less(c.slots[i].followers), ..c.slots[i] },
                    slot,
                );
            }
        },
        CacheOp::Aged { now } => aged_keeps(c, now, slot),
    }
}

/// A request whose number is not known, or was taken on more than 30 minutes
/// ago, is carried out, under a slot of its own.
pub proof fn unknown_requests_run<R>(c: CacheModel<R>, id: Seq<char>, now: u64)
    requires
        id.len() > 0,
        forall|i: int|
            0 <= i < c.slots.len() && (#[trigger] c.slots[i]).named && c.slots[i].id == id ==> now
                > c.slots[i].created && now - c.slots[i].created > 30 * 60 * 1_000_000_000,
    ensures
        c.once(Some(id), now).1 == Once::Own(c.next),
{
    let a = c.aged(now);
    let old = all_aged(c.slots, now);
    place_bound(a.slots, id);
    crate::laws::lists::filtered_items(old, needed());
    let i = place_of(a.slots, id) as int;
    if i < a.slots.len() {
        assert(a.slots.contains(a.slots[i]));
        assert(old.contains(a.slots[i]));
        let j = old.index_of(a.slots[i]);
        assert(old[j] == c.slots[j].aged(now));
        assert(c.slots[j].named);
    }
}

/// A request whose number was taken on at most 30 minutes ago is not carried out.
pub proof fn known_requests_do_not_run<R>(c: CacheModel<R>, i: int, now: u64)
    requires
        0 <= i < c.slots.len(),
        c.slots[i].named,
        c.slots[i].id.len() > 0,
        now <= c.slots[i].created || now - c.slots[i].created <= 30 * 60 * 1_000_000_000,
    ensures
        c.once(Some(c.slots[i].id), now).1 is Follow,
{
    let id = c.slots[i].id;
    let a = c.aged(now);
    let old = all_aged(c.slots, now);
    place_bound(a.slots, id);
    crate::laws::lists::filtered_items(old, needed());
    assert(old[i] == c.slots[i].aged(now));
    assert(old.contains(old[i]));
    assert(a.slots.contains(old[i]));
    let k = a.slots.index_of(old[i]);
    assert(a.slots[k].named && a.slots[k].id == id);
}

/// A slot is kept while its request is known, has no response, or has followers
/// who have not asked for it; after that it is gone.
pub proof fn slots_are_given_up<R>(c: CacheModel<R>, s: SlotModel<R>, now: u64)
    requires
        c.aged(now).slots.contains(s),
    ensures
        s.response is None || s.followers > 0 || s.named && (now <= s.created || now - s.created
            <= 30 * 60 * 1_000_000_000),
{
    let old = all_aged(c.slots, now);
    crate::laws::lists::filtered_items(old, needed());
    assert(old.contains(s));
    let j = old.index_of(s);
    assert(old[j] == c.slots[j].aged(now));
    assert(needed::<R>()(s));
}

} // verus!
