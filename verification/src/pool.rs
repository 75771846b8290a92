//! The variable pool: the store of every value that a scope binds a name
//! to.
//!
//! A pooled value is reached by an opaque identifier. Storing a value that
//! is structurally equal to a pooled one gives the identifier of that one
//! and counts one more reference to it; only a value that the pool does
//! not hold yet gets a new identifier, so that no two identifiers hold
//! equal values. A value leaves the pool when its last reference is given
//! up.
//!
//! The values lie in slots that are numbered in the order in which they
//! were taken; a two-way map pairs each identifier with its slot.

use vstd::prelude::*;
use vstd::set_lib::{lemma_int_range, lemma_len_subset, lemma_map_size, lemma_subset_equality, set_int_range};
use bimap::BiHashMap;
use crate::object::{PyObject, PyObjectView};

verus! {

/// The two-way hash map of the `bimap` crate, as an opaque type.
#[verifier::external_type_specification]
#[verifier::external_body]
#[verifier::reject_recursive_types(L)]
#[verifier::reject_recursive_types(R)]
#[verifier::reject_recursive_types(LS)]
#[verifier::reject_recursive_types(RS)]
pub struct ExBiHashMap<L, R, LS, RS>(BiHashMap<L, R, LS, RS>);

/// The pairs that a two-way map holds, as a map from the left value of
/// each pair to its right value.
pub uninterp spec fn pool_pairs(m: BiHashMap<u128, u64>) -> Map<u128, u64>;

/// The pairs of `before` without those whose left value is `left` or
/// whose right value is `right`, and with the pair of `left` and `right`.
pub open spec fn pairs_inserted(before: Map<u128, u64>, left: u128, right: u64) -> Map<u128, u64> {
    Map::new(
        |l: u128| l == left || (before.dom().contains(l) && before[l] != right),
        |l: u128|
            if l == left {
                right
            } else {
                before[l]
            },
    )
}

/// The map that holds no pair.
pub open spec fn no_pairs() -> Map<u128, u64> {
    Map::empty()
}

/// An empty two-way map.
///
/// Trusted: this is `BiHashMap::new`, which makes a map that holds no
/// pair.
#[verifier::external_body]
fn bimap_new() -> (m: BiHashMap<u128, u64>)
    ensures
        pool_pairs(m) == no_pairs(),
{
    BiHashMap::new()
}

/// The right value that is paired with `left`.
///
/// Trusted: this is `BiHashMap::get_by_left`, which gives the right value
/// of the pair whose left value is `left`, and `None` where no pair has
/// that left value.
#[verifier::external_body]
fn bimap_get_by_left(m: &BiHashMap<u128, u64>, left: u128) -> (r: Option<u64>)
    ensures
        match r {
            Some(right) => pool_pairs(*m).dom().contains(left) && pool_pairs(*m)[left] == right,
            None => !pool_pairs(*m).dom().contains(left),
        },
{
    m.get_by_left(&left).copied()
}

/// The left value that is paired with `right`.
///
/// Trusted: this is `BiHashMap::get_by_right`, which gives the left value
/// of the pair whose right value is `right`, and `None` where no pair has
/// that right value.
#[verifier::external_body]
fn bimap_get_by_right(m: &BiHashMap<u128, u64>, right: u64) -> (r: Option<u128>)
    ensures
        match r {
            Some(l) => pool_pairs(*m).dom().contains(l) && pool_pairs(*m)[l] == right,
            None => forall|l: u128| pool_pairs(*m).dom().contains(l) ==> pool_pairs(*m)[l] != right,
        },
{
    m.get_by_right(&right).copied()
}

/// Pairs `left` with `right`.
///
/// Trusted: this is `BiHashMap::insert`, which first removes the pair
/// that has the left value `left` and the pair that has the right value
/// `right`, where there are such, and then adds the pair of the two.
#[verifier::external_body]
fn bimap_insert(m: &mut BiHashMap<u128, u64>, left: u128, right: u64)
    ensures
        pool_pairs(*final(m)) == pairs_inserted(pool_pairs(*old(m)), left, right),
{
    m.insert(left, right);
}

/// Removes the pair whose left value is `left`.
///
/// Trusted: this is `BiHashMap::remove_by_left`, which removes the pair
/// whose left value is `left` and gives its right value, and changes
/// nothing and gives `None` where no pair has that left value.
#[verifier::external_body]
fn bimap_remove_by_left(m: &mut BiHashMap<u128, u64>, left: u128) -> (r: Option<u64>)
    ensures
        pool_pairs(*final(m)) == pool_pairs(*old(m)).remove(left),
        match r {
            Some(right) => pool_pairs(*old(m)).dom().contains(left) && pool_pairs(*old(m))[left]
                == right,
            None => !pool_pairs(*old(m)).dom().contains(left),
        },
{
    m.remove_by_left(&left).map(|pair| pair.1)
}

/// A number drawn at random.
///
/// Trusted: this is `Uuid::new_v4` of the `uuid` crate, read as a number
/// of 128 bits. Nothing is claimed of the number.
#[verifier::external_body]
pub(crate) fn new_uuid() -> (id: u128)
{
    uuid::Uuid::new_v4().as_u128()
}

/// What the pool holds under one identifier: a value, and the number of
/// references to it.
pub struct PoolEntry {
    pub value: PyObjectView,
    pub count: nat,
}

/// The variable pool.
pub struct VariablePool {
    /// The identifier of each pooled value, paired with the number of its
    /// slot.
    pub bi_hash_map: BiHashMap<u128, u64>,
    /// The slots: each holds a value, or is vacant.
    pub slots: Vec<Option<PyObject>>,
    /// The number of references to the value of each slot.
    pub count_map: Vec<u64>,
}

/// The first slot at or after `i` that holds a value structurally equal
/// to `v`.
pub open spec fn first_slot(slots: Seq<Option<PyObject>>, v: PyObjectView, i: int) -> Option<int>
    decreases slots.len() - i,
{
    if i < 0 || i >= slots.len() {
        None
    } else if slots[i] is Some && slots[i].unwrap()@ == v {
        Some(i)
    } else {
        first_slot(slots, v, i + 1)
    }
}

/// Whether no two slots hold structurally equal values.
pub open spec fn distinct_slots(slots: Seq<Option<PyObject>>) -> bool {
    forall|j: int, k: int|
        0 <= j < slots.len() && 0 <= k < slots.len() && (#[trigger] slots[j]) is Some && (
        #[trigger] slots[k]) is Some && slots[j].unwrap()@ == slots[k].unwrap()@ ==> j == k
}

/// What the first slot of a value is.
pub proof fn lemma_first_slot(slots: Seq<Option<PyObject>>, v: PyObjectView, i: int)
    requires
        0 <= i,
    ensures
        match first_slot(slots, v, i) {
            Some(k) => i <= k < slots.len() && slots[k] is Some && slots[k].unwrap()@ == v
                && (forall|j: int| i <= j < k ==> !(slots[j] is Some && slots[j].unwrap()@ == v)),
            None => forall|j: int|
                i <= j < slots.len() ==> !(slots[j] is Some && slots[j].unwrap()@ == v),
        },
    decreases slots.len() - i,
{
    if i < slots.len() && !(slots[i] is Some && slots[i].unwrap()@ == v) {
        lemma_first_slot(slots, v, i + 1);
    }
}

/// One more reference, counted in 64 bits: the count stays at the largest
/// number once it has reached it.
pub open spec fn one_more(count: nat) -> nat {
    if count < u64::MAX {
        count + 1
    } else {
        count
    }
}

impl VariablePool {
    /// The pairs of identifiers and slots.
    #[verifier::inline]
    pub open spec fn pairs(&self) -> Map<u128, u64> {
        pool_pairs(self.bi_hash_map)
    }

    /// The pool is well formed: every identifier is paired with a slot of
    /// its own, which holds a value that is referred to at least once;
    /// every slot that holds a value is paired with an identifier; no two
    /// slots hold structurally equal values; and there are no more
    /// identifiers than slots.
    pub open spec fn wf(&self) -> bool {
        &&& self.slots@.len() == self.count_map@.len()
        &&& self.pairs().dom().finite()
        &&& self.pairs().dom().len() <= self.slots@.len()
        &&& forall|id: u128| #[trigger]
            self.pairs().dom().contains(id) ==> self.pairs()[id] < self.slots@.len()
                && self.slots@[self.pairs()[id] as int] is Some && self.count_map@[self.pairs()[id] as int]
                >= 1
        &&& forall|a: u128, b: u128|
            self.pairs().dom().contains(a) && self.pairs().dom().contains(b) && #[trigger] self.pairs()[a]
                == #[trigger] self.pairs()[b] ==> a == b
        &&& forall|k: int|
            0 <= k < self.slots@.len() && #[trigger] self.slots@[k] is Some ==> self.slot_owner(
                k,
            ) is Some
        &&& distinct_slots(self.slots@)
    }

    /// The identifier that is paired with the slot `k`.
    pub open spec fn slot_owner(&self, k: int) -> Option<u128> {
        if exists|id: u128| self.pairs().dom().contains(id) && self.pairs()[id] == k {
            Some(choose|id: u128| self.pairs().dom().contains(id) && self.pairs()[id] == k)
        } else {
            None
        }
    }

    /// The identifier under which the pool holds a value structurally
    /// equal to `v`: that of the slot with such a value.
    pub open spec fn holder(&self, v: PyObjectView) -> Option<u128> {
        match first_slot(self.slots@, v, 0) {
            Some(k) => self.slot_owner(k),
            None => None,
        }
    }

    /// Whether the pool holds a value structurally equal to `v` under an
    /// identifier other than `id`.
    pub open spec fn held_elsewhere(&self, id: u128, v: PyObjectView) -> bool {
        self.holder(v) is Some && self.holder(v) != Some(id)
    }
}

impl View for VariablePool {
    type V = Map<u128, PoolEntry>;

    /// What the pool holds: under each identifier, a value and the number
    /// of references to it.
    open spec fn view(&self) -> Map<u128, PoolEntry> {
        Map::new(
            |id: u128| self.pairs().dom().contains(id),
            |id: u128|
                PoolEntry {
                    value: self.slots@[self.pairs()[id] as int].unwrap()@,
                    count: self.count_map@[self.pairs()[id] as int] as nat,
                },
        )
    }
}

/// What storing the value `v` does to a pool: `id` is the identifier that
/// the value has afterwards. Where the pool held an equal value, `id` is
/// the identifier of that value, and one more reference is counted; else
/// `id` is new to the pool, and the value is held under it with one
/// reference. Nothing else changes, and only a new value takes a slot.
pub open spec fn stores(pre: VariablePool, v: PyObjectView, post: VariablePool, id: u128) -> bool {
    &&& post.wf()
    &&& post.holder(v) == Some(id)
    &&& match pre.holder(v) {
        Some(h) => id == h && pre@.dom().contains(h) && pre@[h].value == v && post@ == pre@.insert(
            h,
            PoolEntry { value: v, count: one_more(pre@[h].count) },
        ) && post.slots@ == pre.slots@,
        None => !pre@.dom().contains(id) && (forall|k: u128|
            pre@.dom().contains(k) ==> pre@[k].value != v) && post@ == pre@.insert(
            id,
            PoolEntry { value: v, count: 1 },
        ),
    }
}

/// What giving up one reference to `id` does to what a pool holds: the
/// value stays, with one reference fewer, while others are left; it
/// leaves the pool with its last reference. An identifier that the pool
/// does not hold changes nothing.
pub open spec fn released(pre: Map<u128, PoolEntry>, id: u128) -> Map<u128, PoolEntry> {
    if !pre.dom().contains(id) {
        pre
    } else if pre[id].count > 1 {
        pre.insert(id, PoolEntry { value: pre[id].value, count: (pre[id].count - 1) as nat })
    } else {
        pre.remove(id)
    }
}

/// A finite set of identifiers that holds each of the first `t` numbers
/// and has no more than `t` members does not hold the number `t`.
proof fn lemma_first_ids(dom: Set<u128>, t: nat)
    requires
        dom.finite(),
        dom.len() <= t,
        t < 0x1_0000_0000_0000_0000,
        forall|id: u128| id < t ==> dom.contains(id),
    ensures
        !dom.contains(t as u128),
{
    let range = set_int_range(0, t as int);
    let f = |j: int| j as u128;
    let first = Set::new(|id: u128| id < t);
    lemma_int_range(0, t as int);
    assert(range.map(f) =~= first) by {
        assert forall|id: u128| first.contains(id) implies range.map(f).contains(id) by {
            assert(range.contains(id as int));
            assert(f(id as int) == id);
        }
    }
    assert(vstd::relations::injective_on(f, range));
    lemma_map_size(range, first, f);
    assert(first.subset_of(dom));
    lemma_len_subset(first, dom);
    lemma_subset_equality(first, dom);
    assert(!first.contains(t as u128));
}

/// A slot is found in a longer list of slots where it was found before;
/// a value that no slot held is found in the new slot if that holds it.
proof fn lemma_first_slot_push(
    slots: Seq<Option<PyObject>>,
    slot: Option<PyObject>,
    v: PyObjectView,
    i: int,
)
    requires
        0 <= i <= slots.len(),
    ensures
        first_slot(slots.push(slot), v, i) == (match first_slot(slots, v, i) {
            Some(k) => Some(k),
            None => if slot is Some && slot.unwrap()@ == v {
                Some(slots.len() as int)
            } else {
                None
            },
        }),
    decreases slots.len() - i,
{
    let longer = slots.push(slot);
    if i < slots.len() {
        assert(longer[i] == slots[i]);
        if !(slots[i] is Some && slots[i].unwrap()@ == v) {
            lemma_first_slot_push(slots, slot, v, i + 1);
        }
    } else {
        assert(longer[i] == slot);
        assert(first_slot(longer, v, i + 1) is None);
    }
}

impl Default for VariablePool {
    /// The pool that holds nothing.
    fn default() -> (r: Self)
        ensures
            r.wf(),
            r@ == Map::<u128, PoolEntry>::empty(),
    {
        let r = VariablePool {
            bi_hash_map: bimap_new(),
            slots: Vec::new(),
            count_map: Vec::new(),
        };
        assert(r@ =~= Map::<u128, PoolEntry>::empty());
        r
    }
}

impl VariablePool {
    /// The only identifier paired with a slot is its owner.
    proof fn lemma_owner(&self, id: u128)
        requires
            self.wf(),
            self.pairs().dom().contains(id),
        ensures
            self.slot_owner(self.pairs()[id] as int) == Some(id),
    {
        let k = self.pairs()[id] as int;
        let other = choose|x: u128| self.pairs().dom().contains(x) && self.pairs()[x] == k;
        assert(self.pairs()[other] == self.pairs()[id]);
    }

    /// The slot of the value held under `id`.
    fn slot_of(&self, id: u128) -> (r: Option<usize>)
        requires
            self.wf(),
        ensures
            match r {
                Some(k) => self.pairs().dom().contains(id) && self.pairs()[id] == k && k
                    < self.slots@.len() && self.slots@[k as int] is Some && self.count_map@[k as int]
                    >= 1 && self.slot_owner(k as int) == Some(id),
                None => !self.pairs().dom().contains(id),
            },
    {
        match bimap_get_by_left(&self.bi_hash_map, id) {
            Some(k) => {
                assert(self.pairs().dom().contains(id));
                assert(self.pairs()[id] < self.slots@.len());
                assert(self.slots@[self.pairs()[id] as int] is Some);
                assert(self.count_map@[self.pairs()[id] as int] >= 1);
                proof {
                    self.lemma_owner(id);
                }
                let n = self.slots.len();
                assert(k < n);
                Some(k as usize)
            },
            None => None,
        }
    }

    /// An identifier that the pool does not hold: one drawn at random, or,
    /// should the pool hold that one, the least number that it does not
    /// hold.
    fn fresh_id(&self) -> (id: u128)
        requires
            self.wf(),
        ensures
            !self.pairs().dom().contains(id),
    {
        let candidate = new_uuid();
        if self.slot_of(candidate).is_none() {
            return candidate;
        }
        let mut t: usize = 0;
        while t < self.slots.len() && self.slot_of(t as u128).is_some()
            invariant
                t <= self.slots.len(),
                self.wf(),
                forall|id: u128| id < t ==> self.pairs().dom().contains(id),
            decreases self.slots.len() - t,
        {
            t += 1;
        }
        proof {
            if t == self.slots.len() {
                lemma_first_ids(self.pairs().dom(), t as nat);
            }
        }
        t as u128
    }

    /// Puts `value`, which no slot holds, into a new slot, with one
    /// reference, under the identifier `id`, which the pool does not hold.
    fn insert_new(&mut self, id: u128, value: PyObject)
        requires
            old(self).wf(),
            !old(self).pairs().dom().contains(id),
            first_slot(old(self).slots@, value@, 0) is None,
        ensures
            final(self).wf(),
            final(self)@ == old(self)@.insert(id, PoolEntry { value: value@, count: 1 }),
            final(self).slots@ == old(self).slots@.push(Some(value)),
            final(self).pairs() == old(self).pairs().insert(id, old(self).slots@.len() as u64),
            final(self).holder(value@) == Some(id),
    {
        let ghost pre = *self;
        let index = self.slots.len();
        proof {
            lemma_first_slot(pre.slots@, value@, 0);
        }
        self.slots.push(Some(value));
        self.count_map.push(1);
        bimap_insert(&mut self.bi_hash_map, id, index as u64);
        proof {
            assert(distinct_slots(self.slots@)) by {
                assert forall|j: int, k: int|
                    0 <= j < self.slots@.len() && 0 <= k < self.slots@.len() && (
                    #[trigger] self.slots@[j]) is Some && (#[trigger] self.slots@[k]) is Some
                        && self.slots@[j].unwrap()@ == self.slots@[k].unwrap()@ implies j == k by {
                    if j < index {
                        assert(self.slots@[j] == pre.slots@[j]);
                    }
                    if k < index {
                        assert(self.slots@[k] == pre.slots@[k]);
                    }
                }
            }
            assert(self.pairs() =~= pre.pairs().insert(id, index as u64)) by {
                assert forall|l: u128| pre.pairs().dom().contains(l) implies pre.pairs()[l]
                    != index as u64 by {}
            }
            assert forall|k: int|
                0 <= k < self.slots@.len() && #[trigger] self.slots@[k] is Some implies self.slot_owner(
                k,
            ) is Some by {
                if k < index {
                    assert(pre.slots@[k] is Some);
                    let owner = pre.slot_owner(k).unwrap();
                    assert(self.pairs().dom().contains(owner) && self.pairs()[owner] == k);
                } else {
                    assert(self.pairs().dom().contains(id) && self.pairs()[id] == k);
                }
            }
            assert(self@ =~= pre@.insert(id, PoolEntry { value: value@, count: 1 }));
            lemma_first_slot_push(pre.slots@, self.slots@[index as int], value@, 0);
            assert(self.slots@ == pre.slots@.push(self.slots@[index as int]));
            self.lemma_owner(id);
        }
    }

    /// The slot that holds a value structurally equal to `value`.
    fn slot_holding(&self, value: &PyObject) -> (r: Option<usize>)
        ensures
            match r {
                Some(k) => first_slot(self.slots@, value@, 0) == Some(k as int) && k
                    < self.slots@.len(),
                None => first_slot(self.slots@, value@, 0) is None,
            },
    {
        let mut k: usize = 0;
        while k < self.slots.len()
            invariant
                k <= self.slots.len(),
                first_slot(self.slots@, value@, 0) == first_slot(self.slots@, value@, k as int),
            decreases self.slots.len() - k,
        {
            let found = match &self.slots[k] {
                Some(held) => held.same(value),
                None => false,
            };
            if found {
                return Some(k);
            }
            k += 1;
        }
        None
    }

    /// Counts one more reference to the value `v`, which the slot `k`
    /// holds, and gives the identifier of the value.
    fn count_up(&mut self, k: usize, Ghost(v): Ghost<PyObjectView>) -> (id: u128)
        requires
            old(self).wf(),
            first_slot(old(self).slots@, v, 0) == Some(k as int),
        ensures
            stores(*old(self), v, *final(self), id),
            final(self).slots == old(self).slots,
    {
        let ghost pre = *self;
        proof {
            lemma_first_slot(pre.slots@, v, 0);
        }
        assert(pre.slots@[k as int] is Some);
        assert(pre.slot_owner(k as int) is Some);
        let ghost witness = pre.slot_owner(k as int).unwrap();
        assert(pre.pairs().dom().contains(witness) && pre.pairs()[witness] == k);
        let owner = bimap_get_by_right(&self.bi_hash_map, k as u64);
        let id = owner.unwrap();
        assert(pre.pairs().dom().contains(id) && pre.pairs()[id] == k);
        let count = self.count_map[k];
        if count < u64::MAX {
            self.count_map.set(k, count + 1);
        }
        proof {
            pre.lemma_owner(id);
            assert(self.pairs() == pre.pairs());
            assert forall|j: int|
                0 <= j < self.slots@.len() && #[trigger] self.slots@[j] is Some implies self.slot_owner(
                j,
            ) is Some by {
                assert(pre.slots@[j] is Some);
                let owner = pre.slot_owner(j).unwrap();
                assert(self.pairs().dom().contains(owner) && self.pairs()[owner] == j);
            }
            assert(self.wf());
            self.lemma_owner(id);
            assert(pre.holder(v) == Some(id));
            assert(self.slots@ == pre.slots@);
            assert(self.holder(v) == Some(id));
            assert(pre@.dom().contains(id));
            assert(pre@[id].value == v);
            assert(self@ =~= pre@.insert(
                id,
                PoolEntry { value: v, count: one_more(pre@[id].count) },
            ));
        }
        id
    }

    /// Stores `value` and gives its identifier, as [`stores`] says: that of
    /// the equal value that the pool holds already, to which one more
    /// reference is then counted, or a new one.
    pub fn store_new_value(&mut self, value: PyObject) -> (id: u128)
        requires
            old(self).wf(),
        ensures
            stores(*old(self), value@, *final(self), id),
    {
        let ghost pre = *self;
        let ghost v = value@;
        match self.slot_holding(&value) {
            Some(k) => self.count_up(k, Ghost(v)),
            None => {
                let id = self.fresh_id();
                proof {
                    lemma_first_slot(pre.slots@, v, 0);
                }
                self.insert_new(id, value);
                id
            },
        }
    }

    /// The value that the pool holds under `uuid`.
    pub fn get_value(&self, uuid: u128) -> (r: Option<PyObject>)
        requires
            self.wf(),
        ensures
            match r {
                Some(o) => self@.dom().contains(uuid) && o@ == self@[uuid].value,
                None => !self@.dom().contains(uuid),
            },
    {
        match self.slot_of(uuid) {
            Some(k) => match &self.slots[k] {
                Some(o) => Some(o.clone()),
                None => None,
            },
            None => None,
        }
    }

    /// Puts `value` under `uuid`, and gives the identifier under which
    /// the pool then holds it. Where `keep` holds and the pool held the
    /// identifier, the count of references stays; else it is one.
    ///
    /// Where the pool holds an equal value under another identifier, the
    /// value is stored as [`stores`] says instead: one more reference is
    /// counted to it there, and what `uuid` holds stays.
    fn put(&mut self, uuid: u128, value: PyObject, keep: bool) -> (id: u128)
        requires
            old(self).wf(),
        ensures
            final(self).wf(),
            if old(self).held_elsewhere(uuid, value@) {
                stores(*old(self), value@, *final(self), id)
            } else {
                id == uuid && final(self)@ == old(self)@.insert(
                    uuid,
                    PoolEntry {
                        value: value@,
                        count: if keep && old(self)@.dom().contains(uuid) {
                            old(self)@[uuid].count
                        } else {
                            1
                        },
                    },
                )
            },
    {
        let ghost pre = *self;
        let ghost v = value@;
        let held = self.slot_holding(&value);
        let own = self.slot_of(uuid);
        proof {
            lemma_first_slot(pre.slots@, v, 0);
        }
        let elsewhere = match held {
            Some(h) => match own {
                Some(k) => k != h,
                None => true,
            },
            None => false,
        };
        if elsewhere {
            let h = held.unwrap();
            assert(pre.slot_owner(h as int) is Some);
            let ghost owner = pre.slot_owner(h as int).unwrap();
            assert(pre.pairs().dom().contains(owner) && pre.pairs()[owner] == h);
            assert(owner != uuid);
            return self.count_up(h, Ghost(v));
        }
        match own {
            Some(k) => {
                assert(!pre.held_elsewhere(uuid, v));
                self.slots.set(k, Some(value));
                if !keep {
                    self.count_map.set(k, 1);
                }
                proof {
                    assert forall|j: int|
                        0 <= j < self.slots@.len() && #[trigger] self.slots@[j] is Some implies self.slot_owner(
                        j,
                    ) is Some by {
                        if j == k {
                            assert(self.pairs().dom().contains(uuid) && self.pairs()[uuid] == j);
                        } else {
                            assert(pre.slots@[j] is Some);
                            let owner = pre.slot_owner(j).unwrap();
                            assert(self.pairs().dom().contains(owner) && self.pairs()[owner] == j);
                        }
                    }
                    assert(distinct_slots(self.slots@)) by {
                        assert forall|i: int, j: int|
                            0 <= i < self.slots@.len() && 0 <= j < self.slots@.len() && (
                            #[trigger] self.slots@[i]) is Some && (#[trigger] self.slots@[j])
                                is Some && self.slots@[i].unwrap()@
                                == self.slots@[j].unwrap()@ implies i == j by {
                            if i != k {
                                assert(self.slots@[i] == pre.slots@[i]);
                            }
                            if j != k {
                                assert(self.slots@[j] == pre.slots@[j]);
                            }
                        }
                    }
                    assert(self@ =~= pre@.insert(
                        uuid,
                        PoolEntry { value: v, count: if keep {
                            pre@[uuid].count
                        } else {
                            1
                        } },
                    ));
                }
            },
            None => {
                self.insert_new(uuid, value);
            },
        }
        uuid
    }

    /// Puts `value` in the place of the value that the pool holds under
    /// `uuid`, and leaves the count of references; holds `value` under
    /// `uuid` with one reference where the pool did not hold the
    /// identifier. Gives the identifier under which the pool then holds
    /// the value, which is `uuid`.
    ///
    /// No two identifiers hold equal values: where the pool holds an equal
    /// value under another identifier, the value is stored as [`stores`]
    /// says instead, which gives that identifier, and what `uuid` holds
    /// stays.
    pub fn update_value(&mut self, uuid: u128, value: PyObject) -> (id: u128)
        requires
            old(self).wf(),
        ensures
            final(self).wf(),
            if old(self).held_elsewhere(uuid, value@) {
                stores(*old(self), value@, *final(self), id)
            } else {
                id == uuid && final(self)@ == old(self)@.insert(
                    uuid,
                    PoolEntry {
                        value: value@,
                        count: if old(self)@.dom().contains(uuid) {
                            old(self)@[uuid].count
                        } else {
                            1
                        },
                    },
                )
            },
    {
        self.put(uuid, value, true)
    }

    /// Holds `value` under `key` with one reference, in the place of
    /// whatever the pool held under that identifier, and gives the
    /// identifier under which the pool then holds the value, which is
    /// `key`.
    ///
    /// No two identifiers hold equal values: where the pool holds an equal
    /// value under another identifier, the value is stored as [`stores`]
    /// says instead, which gives that identifier, and what `key` holds
    /// stays.
    pub fn insert(&mut self, key: u128, value: PyObject) -> (id: u128)
        requires
            old(self).wf(),
        ensures
            final(self).wf(),
            if old(self).held_elsewhere(key, value@) {
                stores(*old(self), value@, *final(self), id)
            } else {
                id == key && final(self)@ == old(self)@.insert(
                    key,
                    PoolEntry { value: value@, count: 1 },
                )
            },
    {
        self.put(key, value, false)
    }

    /// Removes what the pool holds under `uuid`, however many references
    /// there are to it.
    pub fn delete(&mut self, uuid: u128)
        requires
            old(self).wf(),
        ensures
            final(self).wf(),
            final(self)@ == old(self)@.remove(uuid),
    {
        let ghost pre = *self;
        match self.slot_of(uuid) {
            Some(k) => {
                bimap_remove_by_left(&mut self.bi_hash_map, uuid);
                self.slots.set(k, None);
                proof {
                    assert forall|j: int|
                        0 <= j < self.slots@.len() && #[trigger] self.slots@[j] is Some implies self.slot_owner(
                        j,
                    ) is Some by {
                        assert(pre.slots@[j] is Some);
                        let owner = pre.slot_owner(j).unwrap();
                        assert(pre.pairs()[owner] == j);
                        assert(owner != uuid);
                        assert(self.pairs().dom().contains(owner) && self.pairs()[owner] == j);
                    }
                    assert(self@ =~= pre@.remove(uuid));
                }
            },
            None => {
                assert(self@ =~= pre@.remove(uuid));
            },
        }
    }

    /// Gives up one reference to the value held under `uuid`, as
    /// [`released`] says: the value leaves the pool only with its last
    /// reference.
    pub fn del_variable(&mut self, uuid: u128)
        requires
            old(self).wf(),
        ensures
            final(self).wf(),
            final(self)@ == released(old(self)@, uuid),
    {
        let ghost pre = *self;
        match self.slot_of(uuid) {
            None => {},
            Some(k) => {
                let count = self.count_map[k];
                if count > 1 {
                    self.count_map.set(k, count - 1);
                    proof {
                        assert forall|j: int|
                            0 <= j < self.slots@.len() && #[trigger] self.slots@[j] is Some implies self.slot_owner(
                            j,
                        ) is Some by {
                            assert(pre.slots@[j] is Some);
                            let owner = pre.slot_owner(j).unwrap();
                            assert(self.pairs().dom().contains(owner) && self.pairs()[owner] == j);
                        }
                        assert(self@ =~= released(pre@, uuid));
                    }
                } else {
                    self.delete(uuid);
                }
            },
        }
    }
}

/// Storing the same value twice gives the same identifier both times, and
/// the second time only counts one more reference.
pub proof fn lemma_store_twice(
    before: VariablePool,
    v: PyObjectView,
    between: VariablePool,
    id1: u128,
    after: VariablePool,
    id2: u128,
)
    requires
        stores(before, v, between, id1),
        stores(between, v, after, id2),
    ensures
        id1 == id2,
        after@.dom() == between@.dom(),
        after@[id2].value == v,
        after@[id2].count == one_more(between@[id1].count),
{
    assert(after@.dom() =~= between@.dom());
}

/// Storing two values that are not structurally equal gives two
/// identifiers.
pub proof fn lemma_store_distinct(
    before: VariablePool,
    v1: PyObjectView,
    between: VariablePool,
    id1: u128,
    v2: PyObjectView,
    after: VariablePool,
    id2: u128,
)
    requires
        stores(before, v1, between, id1),
        stores(between, v2, after, id2),
        v1 != v2,
    ensures
        id1 != id2,
        after@.dom().contains(id1),
        after@[id1].value == v1,
        after@[id2].value == v2,
{
    assert(between@.dom().contains(id1) && between@[id1].value == v1);
}

/// Whether no two identifiers hold equal values.
pub open spec fn distinct_values(pool: Map<u128, PoolEntry>) -> bool {
    forall|a: u128, b: u128|
        pool.dom().contains(a) && pool.dom().contains(b) && (#[trigger] pool[a]).value == (
        #[trigger] pool[b]).value ==> a == b
}

/// In a pool that is well formed, no two identifiers hold equal values.
pub proof fn lemma_values_distinct(pool: VariablePool)
    requires
        pool.wf(),
    ensures
        distinct_values(pool@),
{
    assert forall|a: u128, b: u128|
        pool@.dom().contains(a) && pool@.dom().contains(b) && (#[trigger] pool@[a]).value == (
        #[trigger] pool@[b]).value implies a == b by {
        let j = pool.pairs()[a] as int;
        let k = pool.pairs()[b] as int;
        assert(pool.slots@[j] is Some && pool.slots@[k] is Some);
        assert(j == k);
    }
}

/// Storing a value equal to one that the pool holds under `i` gives `i`
/// and counts one more reference to it; the pool holds the same
/// identifiers, and every other value and count is as it was.
pub proof fn lemma_store_held(
    before: VariablePool,
    v: PyObjectView,
    i: u128,
    after: VariablePool,
    id: u128,
)
    requires
        before.wf(),
        before@.dom().contains(i),
        before@[i].value == v,
        stores(before, v, after, id),
    ensures
        id == i,
        after@.dom() == before@.dom(),
        after@[i].value == v,
        after@[i].count == one_more(before@[i].count),
        before@[i].count < u64::MAX ==> after@[i].count == before@[i].count + 1,
        forall|k: u128| before@.dom().contains(k) && k != i ==> after@[k] == before@[k],
        after.slots@ == before.slots@,
{
    lemma_values_distinct(before);
    lemma_first_slot(before.slots@, v, 0);
    let h = before.holder(v).unwrap();
    assert(before@.dom().contains(h) && before@[h].value == v);
    assert(before@[h].value == before@[i].value);
    assert(after@.dom() =~= before@.dom());
}

/// Giving up a reference to a value to which there are others leaves the
/// value in the pool.
pub proof fn lemma_release_keeps_referenced(pre: Map<u128, PoolEntry>, id: u128)
    requires
        pre.dom().contains(id),
        pre[id].count > 1,
    ensures
        released(pre, id).dom() == pre.dom(),
        released(pre, id)[id].value == pre[id].value,
        released(pre, id)[id].count == pre[id].count - 1,
{
    assert(released(pre, id).dom() =~= pre.dom());
}

} // verus!
