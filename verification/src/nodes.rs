//! Node identifiers, node counts and maps indexed by node.

use vstd::prelude::*;

verus! {

/// A round of the protocol.
pub type Round = u16;

/// An identifier of a consensus session.
pub type SessionId = u64;

/// A digest of data: eight bytes, held as a little-endian integer.
pub type Digest = u64;

/// The index of a node (committee member).
#[derive(Clone, Copy, Debug, PartialEq, Eq, Structural, Hash)]
pub struct NodeIndex(pub usize);

/// A number of nodes.
#[derive(Clone, Copy, Debug, PartialEq, Eq, Structural, Hash)]
pub struct NodeCount(pub usize);

/// A map from node indices to optional values, with one slot per node.
pub struct NodeMap<T> {
    slots: Vec<Option<T>>,
}

/// The map with `n` slots, all empty.
pub open spec fn empty_map<T>(n: nat) -> Seq<Option<T>> {
    Seq::new(n, |i: int| None::<T>)
}

/// The values present in `m`, in increasing order of slot.
pub open spec fn present_values<T>(m: Seq<Option<T>>) -> Seq<T>
    decreases m.len(),
{
    if m.len() == 0 {
        Seq::empty()
    } else {
        let rest = present_values(m.drop_last());
        match m.last() {
            Some(v) => rest.push(v),
            None => rest,
        }
    }
}

/// The number of occupied slots of `m`.
pub open spec fn count_present<T>(m: Seq<Option<T>>) -> nat {
    present_values(m).len()
}

/// For each slot of `m`, whether it is occupied.
pub open spec fn occupancy<T>(m: Seq<Option<T>>) -> Seq<bool> {
    m.map_values(|x: Option<T>| x is Some)
}

/// An empty map has no values.
pub proof fn lemma_empty_map_no_values<T>(n: nat)
    ensures
        present_values(empty_map::<T>(n)) == Seq::<T>::empty(),
    decreases n,
{
    if n > 0 {
        assert(empty_map::<T>(n).drop_last() =~= empty_map::<T>((n - 1) as nat));
        lemma_empty_map_no_values::<T>((n - 1) as nat);
    }
}

/// Filling an empty slot adds exactly one value; filling an occupied slot
/// with a new value keeps the count.
pub proof fn lemma_update_count<T>(m: Seq<Option<T>>, i: int, v: T)
    requires
        0 <= i < m.len(),
    ensures
        m[i] is None ==> count_present(m.update(i, Some(v))) == count_present(m) + 1,
        m[i] is Some ==> count_present(m.update(i, Some(v))) == count_present(m),
    decreases m.len(),
{
    let u = m.update(i, Some(v));
    if i == m.len() - 1 {
        assert(u.drop_last() =~= m.drop_last());
    } else {
        assert(u.drop_last() =~= m.drop_last().update(i, Some(v)));
        lemma_update_count(m.drop_last(), i, v);
    }
}

/// The values of a prefix followed by one more slot.
pub proof fn lemma_present_values_push<T>(m: Seq<Option<T>>, x: Option<T>)
    ensures
        present_values(m.push(x)) == (match x {
            Some(v) => present_values(m).push(v),
            None => present_values(m),
        }),
{
    assert(m.push(x).drop_last() =~= m);
}

/// A map has at most as many values as slots.
pub proof fn lemma_count_bounded<T>(m: Seq<Option<T>>)
    ensures
        count_present(m) <= m.len(),
    decreases m.len(),
{
    if m.len() > 0 {
        lemma_count_bounded(m.drop_last());
    }
}

/// Every value held in a slot is among the present values.
pub proof fn lemma_present_value_listed<T>(m: Seq<Option<T>>, i: int)
    requires
        0 <= i < m.len(),
        m[i] is Some,
    ensures
        present_values(m).contains(m[i]->0),
    decreases m.len(),
{
    if i == m.len() - 1 {
        assert(present_values(m).last() == m[i]->0);
    } else {
        lemma_present_value_listed(m.drop_last(), i);
        let w = choose|k: int| 0 <= k < present_values(m.drop_last()).len()
            && present_values(m.drop_last())[k] == m[i]->0;
        assert(present_values(m)[w] == m[i]->0);
    }
}

/// Filling a slot never lowers the number of values.
pub proof fn lemma_fill_keeps_count<T>(m: Seq<Option<T>>, i: int, v: T)
    requires
        0 <= i < m.len(),
    ensures
        count_present(m.update(i, Some(v))) >= count_present(m),
{
    lemma_update_count(m, i, v);
}

/// The number of values is the number of occupied slots.
pub proof fn lemma_count_is_occupied_slots<T>(m: Seq<Option<T>>)
    ensures
        count_present(m) == m.filter(|x: Option<T>| x is Some).len(),
    decreases m.len(),
{
    reveal_with_fuel(Seq::filter, 1);
    if m.len() > 0 {
        lemma_count_is_occupied_slots(m.drop_last());
    }
}

/// `idx` lists the occupied slots of `m` in increasing order, and `vs[j]`
/// is the value in slot `idx[j]`.
pub open spec fn slot_listing<T>(m: Seq<Option<T>>, vs: Seq<T>, idx: Seq<int>) -> bool {
    &&& idx.len() == vs.len()
    &&& forall|j: int| 0 <= j < idx.len() ==> 0 <= #[trigger] idx[j] < m.len() && m[idx[j]] == Some(vs[j])
    &&& forall|j1: int, j2: int| 0 <= j1 < j2 < idx.len() ==> #[trigger] idx[j1] < #[trigger] idx[j2]
    &&& forall|k: int| 0 <= k < m.len() && (#[trigger] m[k]) is Some ==> exists|j: int| 0 <= j < idx.len() && idx[j] == k
}

/// `vs` holds the values of the occupied slots of `m`, one per slot, in
/// increasing order of slot.
pub open spec fn listed_in_slot_order<T>(m: Seq<Option<T>>, vs: Seq<T>) -> bool {
    exists|idx: Seq<int>| slot_listing(m, vs, idx)
}

/// The present values are those of the occupied slots, in slot order; the
/// result lists the slots.
pub proof fn lemma_present_values_slot_order<T>(m: Seq<Option<T>>) -> (idx: Seq<int>)
    ensures
        slot_listing(m, present_values(m), idx),
    decreases m.len(),
{
    if m.len() == 0 {
        Seq::empty()
    } else {
        let d = m.drop_last();
        let prev = lemma_present_values_slot_order(d);
        let last = m.len() - 1;
        assert forall|k: int| 0 <= k < last && (#[trigger] m[k]) is Some implies exists|j: int|
            0 <= j < prev.len() && prev[j] == k by {
            assert(d[k] == m[k]);
        }
        match m.last() {
            Some(v) => {
                let idx = prev.push(last);
                assert forall|k: int| 0 <= k < m.len() && (#[trigger] m[k]) is Some implies exists|j: int|
                    0 <= j < idx.len() && idx[j] == k by {
                    if k == last {
                        assert(idx[idx.len() - 1] == k);
                    } else {
                        let j = choose|j: int| 0 <= j < prev.len() && prev[j] == k;
                        assert(idx[j] == k);
                    }
                }
                assert forall|j: int| 0 <= j < idx.len() implies 0 <= #[trigger] idx[j] < m.len()
                    && m[idx[j]] == Some(present_values(m)[j]) by {
                    if j < prev.len() {
                        assert(d[prev[j]] == m[prev[j]]);
                    }
                }
                idx
            },
            None => {
                assert forall|k: int| 0 <= k < m.len() && (#[trigger] m[k]) is Some implies exists|j: int|
                    0 <= j < prev.len() && prev[j] == k by {
                    let j = choose|j: int| 0 <= j < prev.len() && prev[j] == k;
                }
                assert forall|j: int| 0 <= j < prev.len() implies 0 <= #[trigger] prev[j] < m.len()
                    && m[prev[j]] == Some(present_values(m)[j]) by {
                    assert(d[prev[j]] == m[prev[j]]);
                }
                prev
            },
        }
    }
}

impl<T> View for NodeMap<T> {
    type V = Seq<Option<T>>;

    closed spec fn view(&self) -> Seq<Option<T>> {
        self.slots@
    }
}

impl<T: Copy> NodeMap<T> {
    /// A map with `n` empty slots.
    pub fn with_size(n: NodeCount) -> (m: NodeMap<T>)
        ensures
            m@ == empty_map::<T>(n.0 as nat),
    {
        let mut slots: Vec<Option<T>> = Vec::new();
        let mut i: usize = 0;
        while i < n.0
            invariant
                i <= n.0,
                slots@ == empty_map::<T>(i as nat),
            decreases n.0 - i,
        {
            slots.push(None);
            i = i + 1;
            assert(slots@ =~= empty_map::<T>(i as nat));
        }
        NodeMap { slots }
    }

    /// The number of slots.
    pub fn size(&self) -> (n: NodeCount)
        ensures
            n.0 == self@.len(),
    {
        NodeCount(self.slots.len())
    }

    /// The value held for node `i`, if any.
    pub fn get(&self, i: NodeIndex) -> (v: Option<T>)
        requires
            i.0 < self@.len(),
        ensures
            v == self@[i.0 as int],
    {
        self.slots[i.0]
    }

    /// Stores `v` for node `i`.
    pub fn insert(&mut self, i: NodeIndex, v: T)
        requires
            i.0 < old(self)@.len(),
        ensures
            final(self)@ == old(self)@.update(i.0 as int, Some(v)),
    {
        self.slots.set(i.0, Some(v));
    }

    /// The present values, in increasing order of node index.
    pub fn values(&self) -> (vs: Vec<T>)
        ensures
            vs@ == present_values(self@),
    {
        let mut vs: Vec<T> = Vec::new();
        let mut i: usize = 0;
        while i < self.slots.len()
            invariant
                i <= self.slots@.len(),
                vs@ == present_values(self.slots@.subrange(0, i as int)),
            decreases self.slots@.len() - i,
        {
            proof {
                lemma_present_values_push(self.slots@.subrange(0, i as int), self.slots@[i as int]);
                assert(self.slots@.subrange(0, i as int).push(self.slots@[i as int])
                    =~= self.slots@.subrange(0, i + 1));
            }
            match self.slots[i] {
                Some(v) => vs.push(v),
                None => {},
            }
            i = i + 1;
        }
        assert(self.slots@.subrange(0, self.slots@.len() as int) =~= self.slots@);
        vs
    }

    /// For each node, whether its slot is occupied.
    pub fn to_subset(&self) -> (mask: Vec<bool>)
        ensures
            mask@ == occupancy(self@),
    {
        let mut mask: Vec<bool> = Vec::new();
        let mut i: usize = 0;
        while i < self.slots.len()
            invariant
                i <= self.slots@.len(),
                mask@ == occupancy(self.slots@.subrange(0, i as int)),
            decreases self.slots@.len() - i,
        {
            mask.push(self.slots[i].is_some());
            i = i + 1;
            assert(mask@ =~= occupancy(self.slots@.subrange(0, i as int)));
        }
        assert(self.slots@.subrange(0, self.slots@.len() as int) =~= self.slots@);
        mask
    }

    /// The slots, as a vector.
    pub fn to_vec(&self) -> (v: Vec<Option<T>>)
        ensures
            v@ == self@,
    {
        let mut v: Vec<Option<T>> = Vec::new();
        let mut i: usize = 0;
        while i < self.slots.len()
            invariant
                i <= self.slots@.len(),
                v@ == self.slots@.subrange(0, i as int),
            decreases self.slots@.len() - i,
        {
            v.push(self.slots[i]);
            i = i + 1;
            assert(v@ =~= self.slots@.subrange(0, i as int));
        }
        v
    }
}

} // verus!
