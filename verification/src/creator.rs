//! The creator of new units: it collects the units of each round and decides
//! when this node may create its unit of the next round.

use vstd::prelude::*;
use std::marker::PhantomData;
use crate::nodes::{
    count_present, empty_map, lemma_count_bounded, lemma_empty_map_no_values, lemma_fill_keeps_count,
    lemma_count_is_occupied_slots, lemma_present_value_listed, lemma_present_values_slot_order,
    lemma_update_count, listed_in_slot_order, slot_listing,
    occupancy, present_values, Digest, NodeCount, NodeIndex, NodeMap, Round,
};
use crate::units::{
    combine_hashes, scale_node_map_encoding, ControlHash, Hasher, PreUnit, PreUnitView, Unit,
};

verus! {

/// The state of a creator: the node it creates for, the committee size, and
/// for each round so far the digest of the first unit seen from each node.
pub struct CreatorView {
    pub node_id: nat,
    pub n_members: nat,
    pub candidates: Seq<Seq<Option<Digest>>>,
}

impl CreatorView {
    /// Rounds `0..=current_round` are known, and every round has one slot per node.
    pub open spec fn valid(self) -> bool {
        &&& 1 <= self.candidates.len() <= Round::MAX
        &&& forall|r: int|
            0 <= r < self.candidates.len() ==> #[trigger] self.candidates[r].len() == self.n_members
    }

    /// The highest round for which units are known.
    pub open spec fn current_round(self) -> int {
        self.candidates.len() - 1
    }

    /// The number of parents a new unit needs: floor(2N/3) + 1.
    pub open spec fn threshold(self) -> nat {
        (2 * self.n_members) / 3 + 1
    }

    /// The round before `round` is known and holds at least the threshold of units.
    pub open spec fn enough_parents(self, round: Round) -> bool {
        &&& round > 0
        &&& round - 1 < self.candidates.len()
        &&& count_present(self.candidates[round - 1]) >= self.threshold()
    }

    /// A unit of `round` can be created: at round 0 always; later, when the
    /// previous round holds at least floor(2N/3) + 1 units, this node's own among them.
    pub open spec fn can_create(self, round: Round) -> bool {
        round == 0 || {
            &&& self.enough_parents(round)
            &&& self.node_id < self.n_members
            &&& self.candidates[round - 1][self.node_id as int] is Some
        }
    }

    /// The parent map of a unit of `round`.
    pub open spec fn parents(self, round: Round) -> Seq<Option<Digest>> {
        if round == 0 {
            empty_map(self.n_members)
        } else {
            self.candidates[round - 1]
        }
    }

    /// The rounds after making room for `round`, new rounds being empty.
    pub open spec fn extended(self, round: Round) -> Seq<Seq<Option<Digest>>> {
        if round < self.candidates.len() {
            self.candidates
        } else {
            Seq::new(
                (round + 1) as nat,
                |r: int|
                    if r < self.candidates.len() {
                        self.candidates[r]
                    } else {
                        empty_map(self.n_members)
                    },
            )
        }
    }

    /// The state after a unit of `round` by `creator` with digest `hash` is
    /// added: the first unit of each node in each round is kept.
    pub open spec fn add_unit(self, round: Round, creator: nat, hash: Digest) -> CreatorView {
        let c = self.extended(round);
        if c[round as int][creator as int] is None {
            CreatorView {
                candidates: c.update(round as int, c[round as int].update(creator as int, Some(hash))),
                ..self
            }
        } else {
            CreatorView { candidates: c, ..self }
        }
    }
}

/// The state of a fresh creator for node `node_id` in a committee of `n_members`.
pub open spec fn initial_view(node_id: NodeIndex, n_members: NodeCount) -> CreatorView {
    CreatorView {
        node_id: node_id.0 as nat,
        n_members: n_members.0 as nat,
        candidates: seq![empty_map(n_members.0 as nat)],
    }
}

/// What a creator in state `v` creates at `round`: `None` where it cannot;
/// otherwise its unit (by this node, at `round`, marking the occupied slots
/// of the parent map and carrying the hash `H` gives of the parent map's
/// encoding) with the digests of its parents in node order.
pub open spec fn created_unit<H: Hasher>(v: CreatorView, round: Round) -> Option<
    (PreUnitView, Seq<Digest>),
> {
    if v.can_create(round) {
        let parents = v.parents(round);
        Some(
            (
                PreUnitView {
                    creator: v.node_id as usize,
                    round,
                    parents_mask: occupancy(parents),
                    combined_hash: H::spec_hash(scale_node_map_encoding(parents)),
                },
                present_values(parents),
            ),
        )
    } else {
        None
    }
}

/// Creates units for one node and keeps track of the units it has seen.
pub struct Creator<H: Hasher> {
    node_id: NodeIndex,
    n_members: NodeCount,
    candidates_by_round: Vec<NodeMap<Digest>>,
    n_candidates_by_round: Vec<NodeCount>,
    hasher: PhantomData<H>,
}

impl<H: Hasher> View for Creator<H> {
    type V = CreatorView;

    closed spec fn view(&self) -> CreatorView {
        CreatorView {
            node_id: self.node_id.0 as nat,
            n_members: self.n_members.0 as nat,
            candidates: self.candidates_by_round@.map_values(|m: NodeMap<Digest>| m@),
        }
    }
}

impl<H: Hasher> Creator<H> {
    /// The creator's fields agree: one counter per round, each counting the
    /// units held for that round.
    pub closed spec fn wf(&self) -> bool {
        &&& self@.valid()
        &&& self.n_candidates_by_round@.len() == self.candidates_by_round@.len()
        &&& forall|r: int|
            0 <= r < self.candidates_by_round@.len() ==> #[trigger] self.n_candidates_by_round@[r].0
                == count_present(self.candidates_by_round@[r]@)
    }

    /// A well-formed creator has a valid state.
    pub proof fn lemma_wf_valid(&self)
        requires
            self.wf(),
        ensures
            self@.valid(),
            self@.node_id <= usize::MAX,
    {
    }

    pub fn new(node_id: NodeIndex, n_members: NodeCount) -> (c: Self)
        ensures
            c.wf(),
            c@ == initial_view(node_id, n_members),
    {
        let first: NodeMap<Digest> = NodeMap::with_size(n_members);
        let c = Creator {
            node_id,
            n_members,
            candidates_by_round: vec![first],
            n_candidates_by_round: vec![NodeCount(0)],
            hasher: PhantomData,
        };
        proof {
            lemma_empty_map_no_values::<Digest>(n_members.0 as nat);
            assert(c@.candidates =~= seq![empty_map::<Digest>(n_members.0 as nat)]);
        }
        c
    }

    /// The highest round for which units are known.
    pub fn current_round(&self) -> (r: Round)
        requires
            self.wf(),
        ensures
            r == self@.current_round(),
    {
        (self.n_candidates_by_round.len() - 1) as Round
    }

    /// Makes room for units of `round`: every round up to it gets an empty map.
    fn init_round(&mut self, round: Round)
        requires
            old(self).wf(),
            round < Round::MAX,
        ensures
            final(self).wf(),
            final(self)@.candidates == old(self)@.extended(round),
            final(self)@.node_id == old(self)@.node_id,
            final(self)@.n_members == old(self)@.n_members,
    {
        if round > self.current_round() {
            let new_size: usize = round as usize + 1;
            let ghost old_c = self@.candidates;
            while self.candidates_by_round.len() < new_size
                invariant
                    self.n_candidates_by_round@.len() == self.candidates_by_round@.len(),
                    old_c.len() <= self.candidates_by_round@.len() <= new_size,
                    new_size == round + 1,
                    round < Round::MAX,
                    self.node_id == old(self).node_id,
                    self.n_members == old(self).n_members,
                    old_c == old(self)@.candidates,
                    old(self)@.valid(),
                    forall|r: int|
                        0 <= r < self.candidates_by_round@.len() ==> #[trigger] self@.candidates[r]
                            == (if r < old_c.len() {
                            old_c[r]
                        } else {
                            empty_map(self.n_members.0 as nat)
                        }),
                    forall|r: int|
                        0 <= r < self.candidates_by_round@.len()
                            ==> #[trigger] self.n_candidates_by_round@[r].0 == count_present(
                            self.candidates_by_round@[r]@,
                        ),
                decreases new_size - self.candidates_by_round@.len(),
            {
                let m: NodeMap<Digest> = NodeMap::with_size(self.n_members);
                proof {
                    lemma_empty_map_no_values::<Digest>(self.n_members.0 as nat);
                }
                let ghost prev = self.candidates_by_round@;
                let ghost prev_view = self@.candidates;
                self.candidates_by_round.push(m);
                self.n_candidates_by_round.push(NodeCount(0));
                proof {
                    assert forall|r: int| 0 <= r < self.candidates_by_round@.len() implies
                        #[trigger] self@.candidates[r] == (if r < old_c.len() {
                            old_c[r]
                        } else {
                            empty_map(self.n_members.0 as nat)
                        }) by {
                        if r < prev.len() {
                            assert(self.candidates_by_round@[r] == prev[r]);
                            assert(prev_view[r] == prev[r]@);
                        } else {
                            assert(self.candidates_by_round@[r]@ == empty_map::<Digest>(
                                self.n_members.0 as nat,
                            ));
                        }
                    }
                }
            }
            assert(self@.candidates =~= old(self)@.extended(round));
        }
    }

    /// Whether this node may create its unit of `round`.
    fn can_create(&self, round: Round) -> (b: bool)
        requires
            self.wf(),
            self@.enough_parents(round) ==> self@.node_id < self@.n_members,
        ensures
            b == self@.can_create(round),
    {
        if round == 0 {
            return true;
        }
        let prev_round: usize = (round - 1) as usize;
        let n = self.n_members.0;
        assert(n / 3 * 2 + (n % 3) * 2 / 3 == (2 * n) / 3) by (nonlinear_arith);
        assert(n / 3 * 2 + (n % 3) * 2 / 3 <= n) by (nonlinear_arith);
        let threshold = NodeCount(n / 3 * 2 + (n % 3) * 2 / 3 + 1);
        self.n_candidates_by_round.len() > prev_round
            && self.n_candidates_by_round[prev_round].0 >= threshold.0
            && self.candidates_by_round[prev_round].get(self.node_id).is_some()
    }

    /// Returns `None` if a unit cannot be created.
    /// To create a new unit, we need to have at least floor(2*N/3) + 1 parents
    /// available in previous round. Additionally, our unit from previous round
    /// must be available. The unit comes with the digests of its parents.
    pub fn create_unit(&self, round: Round) -> (res: Option<(PreUnit, Vec<Digest>)>)
        requires
            self.wf(),
            self@.enough_parents(round) ==> self@.node_id < self@.n_members,
            self@.can_create(round) ==> self@.n_members <= u32::MAX,
        ensures
            match res {
                None => created_unit::<H>(self@, round) is None,
                Some((pu, parent_hashes)) => created_unit::<H>(self@, round) == Some(
                    (pu@, parent_hashes@),
                ),
            },
    {
        if !self.can_create(round) {
            return None;
        }
        let empty: NodeMap<Digest>;
        let parents: &NodeMap<Digest> = if round == 0 {
            empty = NodeMap::with_size(self.n_members);
            &empty
        } else {
            &self.candidates_by_round[(round - 1) as usize]
        };
        let slots = parents.to_vec();
        let control_hash = ControlHash {
            parents_mask: parents.to_subset(),
            combined_hash: combine_hashes::<H>(&slots),
        };
        let parent_hashes = parents.values();
        let new_preunit = PreUnit::new(self.node_id, round, control_hash);
        proof {
            let expected = created_unit::<H>(self@, round)->0;
            assert(new_preunit@ =~= expected.0);
            assert(parent_hashes@ =~= expected.1);
        }
        Some((new_preunit, parent_hashes))
    }

    /// Records `unit` as a candidate parent, unless a unit of the same
    /// creator and round is already recorded.
    pub fn add_unit(&mut self, unit: &Unit)
        requires
            old(self).wf(),
            unit.spec_pre_unit().round < Round::MAX,
            unit.spec_pre_unit().creator < old(self)@.n_members,
        ensures
            final(self).wf(),
            final(self)@ == old(self)@.add_unit(
                unit.spec_pre_unit().round,
                unit.spec_pre_unit().creator as nat,
                unit.spec_hash(),
            ),
    {
        let round = unit.round();
        let pid = unit.creator();
        let hash = unit.hash();
        self.init_round(round);
        let r = round as usize;
        assert(self@.candidates[r as int] == self.candidates_by_round@[r as int]@);
        if self.candidates_by_round[r].get(pid).is_none() {
            let ghost before = self.candidates_by_round@[r as int]@;
            proof {
                lemma_update_count(before, pid.0 as int, hash);
                lemma_count_bounded(before.update(pid.0 as int, Some(hash)));
            }
            self.candidates_by_round[r].insert(pid, hash);
            let count = self.n_candidates_by_round[r].0;
            self.n_candidates_by_round.set(r, NodeCount(count + 1));
        }
        proof {
            let v = old(self)@.add_unit(round, pid.0 as nat, hash);
            assert(self@.candidates =~= v.candidates);
        }
    }
}

/// Adding a unit keeps the state valid.
pub proof fn lemma_add_unit_keeps_validity(v: CreatorView, round: Round, creator: nat, hash: Digest)
    requires
        v.valid(),
        round < Round::MAX,
        creator < v.n_members,
    ensures
        v.add_unit(round, creator, hash).valid(),
{
    let c = v.extended(round);
    assert(forall|r: int| 0 <= r < c.len() ==> #[trigger] c[r].len() == v.n_members);
}

/// After adding a unit of round `round`, the current round is the larger of
/// the former current round and `round`.
pub proof fn lemma_add_unit_current_round(v: CreatorView, round: Round, creator: nat, hash: Digest)
    requires
        v.valid(),
        round < Round::MAX,
        creator < v.n_members,
    ensures
        v.add_unit(round, creator, hash).current_round() == if round > v.current_round() {
            round as int
        } else {
            v.current_round()
        },
{
}

/// After adding a unit, its slot is filled, and it holds the digest that
/// came first: the new one only where the slot was empty. No other slot changes.
pub proof fn lemma_add_unit_fills_slot(v: CreatorView, round: Round, creator: nat, hash: Digest)
    requires
        v.valid(),
        round < Round::MAX,
        creator < v.n_members,
    ensures
        ({
            let w = v.add_unit(round, creator, hash);
            let before = v.extended(round)[round as int][creator as int];
            &&& w.candidates[round as int][creator as int] == (match before {
                Some(h) => Some(h),
                None => Some(hash),
            })
            &&& forall|r: int, i: int|
                0 <= r < v.candidates.len() && 0 <= i < v.n_members && (r != round || i != creator)
                    ==> #[trigger] w.candidates[r][i] == v.candidates[r][i]
            &&& forall|r: int, i: int|
                v.candidates.len() <= r <= round && 0 <= i < v.n_members && (r != round || i != creator)
                    ==> #[trigger] w.candidates[r][i] is None
        }),
{
}

/// Adding a unit whose creator already has a unit in that round changes
/// nothing: the first unit of each creator in each round is the one kept.
pub proof fn lemma_add_unit_first_wins(
    v: CreatorView,
    round: Round,
    creator: nat,
    first: Digest,
    second: Digest,
)
    requires
        v.valid(),
        round < Round::MAX,
        creator < v.n_members,
    ensures
        v.add_unit(round, creator, first).add_unit(round, creator, second) == v.add_unit(
            round,
            creator,
            first,
        ),
{
    let w = v.add_unit(round, creator, first);
    lemma_add_unit_keeps_validity(v, round, creator, first);
    assert(w.extended(round) == w.candidates);
}

/// Adding units never takes away the ability to create a unit.
pub proof fn lemma_add_unit_keeps_can_create(
    v: CreatorView,
    round: Round,
    creator: nat,
    hash: Digest,
    target: Round,
)
    requires
        v.valid(),
        round < Round::MAX,
        creator < v.n_members,
        v.can_create(target),
    ensures
        v.add_unit(round, creator, hash).can_create(target),
{
    if target > 0 {
        let c = v.extended(round);
        let p = target - 1;
        assert(c[p] == v.candidates[p]);
        if c[round as int][creator as int] is None && round == p {
            lemma_fill_keeps_count(c[p], creator as int, hash);
        }
    }
}

/// A unit created past round 0 has at least floor(2N/3) + 1 parents, and
/// this node's own unit of the previous round is among them.
pub proof fn lemma_created_unit_parents(v: CreatorView, round: Round)
    requires
        v.valid(),
        round > 0,
        v.can_create(round),
    ensures
        present_values(v.parents(round)).len() >= v.threshold(),
        present_values(v.parents(round)).contains(v.candidates[round - 1][v.node_id as int]->0),
{
    lemma_present_value_listed(v.candidates[round - 1], v.node_id as int);
}

/// A fresh creator is at round 0; its unit of round 0 is its own, with no
/// parents and the hash of the empty parent map; no later unit can be created.
pub proof fn lemma_fresh_creator<H: Hasher>(node_id: NodeIndex, n_members: NodeCount)
    ensures
        initial_view(node_id, n_members).valid(),
        initial_view(node_id, n_members).current_round() == 0,
        created_unit::<H>(initial_view(node_id, n_members), 0) == Some(
            (
                PreUnitView {
                    creator: node_id.0,
                    round: 0,
                    parents_mask: occupancy(empty_map::<Digest>(n_members.0 as nat)),
                    combined_hash: H::spec_hash(
                        scale_node_map_encoding(empty_map(n_members.0 as nat)),
                    ),
                },
                Seq::<Digest>::empty(),
            ),
        ),
        forall|r: Round| r >= 1 ==> #[trigger] created_unit::<H>(initial_view(node_id, n_members), r) is None,
{
    lemma_empty_map_no_values::<Digest>(n_members.0 as nat);
}

/// The slots after adding a unit: the rounds are those known before and
/// the new unit's round, the slots of new rounds start empty, and only the
/// unit's own slot can change, filled with its digest if it was empty.
pub proof fn lemma_add_unit_entries(v: CreatorView, round: Round, creator: nat, hash: Digest)
    requires
        v.valid(),
        round < Round::MAX,
        creator < v.n_members,
    ensures
        ({
            let w = v.add_unit(round, creator, hash);
            &&& w.node_id == v.node_id
            &&& w.n_members == v.n_members
            &&& w.candidates.len() == if round < v.candidates.len() {
                v.candidates.len() as int
            } else {
                round + 1
            }
            &&& forall|q: int, i: int|
                0 <= q < w.candidates.len() && 0 <= i < v.n_members ==> #[trigger] w.candidates[q][i]
                    == slot_after(v, round, creator, hash, q, i)
        }),
{
    let c = v.extended(round);
    assert forall|q: int| 0 <= q < c.len() implies #[trigger] c[q].len() == v.n_members by {}
}

/// The slot `(q, i)` of `v`, or empty where round `q` is not yet known.
pub open spec fn slot_before(v: CreatorView, q: int, i: int) -> Option<Digest> {
    if q < v.candidates.len() {
        v.candidates[q][i]
    } else {
        None
    }
}

/// The slot `(q, i)` after adding a unit of `round` by `creator` with `hash`.
pub open spec fn slot_after(v: CreatorView, round: Round, creator: nat, hash: Digest, q: int, i: int) -> Option<
    Digest,
> {
    if q == round && i == creator && slot_before(v, q, i) is None {
        Some(hash)
    } else {
        slot_before(v, q, i)
    }
}

/// Units of different creators or rounds can be added in either order.
pub proof fn lemma_add_unit_commutes(
    v: CreatorView,
    round1: Round,
    creator1: nat,
    hash1: Digest,
    round2: Round,
    creator2: nat,
    hash2: Digest,
)
    requires
        v.valid(),
        round1 < Round::MAX,
        creator1 < v.n_members,
        round2 < Round::MAX,
        creator2 < v.n_members,
        round1 != round2 || creator1 != creator2,
    ensures
        v.add_unit(round1, creator1, hash1).add_unit(round2, creator2, hash2) == v.add_unit(
            round2,
            creator2,
            hash2,
        ).add_unit(round1, creator1, hash1),
{
    let a = v.add_unit(round1, creator1, hash1);
    let b = v.add_unit(round2, creator2, hash2);
    lemma_add_unit_keeps_validity(v, round1, creator1, hash1);
    lemma_add_unit_keeps_validity(v, round2, creator2, hash2);
    lemma_add_unit_entries(v, round1, creator1, hash1);
    lemma_add_unit_entries(v, round2, creator2, hash2);
    lemma_add_unit_entries(a, round2, creator2, hash2);
    lemma_add_unit_entries(b, round1, creator1, hash1);
    let ab = a.add_unit(round2, creator2, hash2);
    let ba = b.add_unit(round1, creator1, hash1);
    assert(ab.candidates.len() == ba.candidates.len());
    assert forall|q: int| 0 <= q < ab.candidates.len() implies ab.candidates[q] =~= ba.candidates[q] by {
        lemma_add_unit_keeps_validity(a, round2, creator2, hash2);
        lemma_add_unit_keeps_validity(b, round1, creator1, hash1);
        assert(ab.candidates[q].len() == v.n_members);
        assert(ba.candidates[q].len() == v.n_members);
        assert forall|i: int| 0 <= i < v.n_members implies ab.candidates[q][i] == ba.candidates[q][i] by {
            assert(ab.candidates[q][i] == slot_after(a, round2, creator2, hash2, q, i));
            assert(ba.candidates[q][i] == slot_after(b, round1, creator1, hash1, q, i));
            if q < a.candidates.len() {
                assert(a.candidates[q][i] == slot_after(v, round1, creator1, hash1, q, i));
            }
            if q < b.candidates.len() {
                assert(b.candidates[q][i] == slot_after(v, round2, creator2, hash2, q, i));
            }
        }
    }
    assert(ab.candidates =~= ba.candidates);
}

/// Adding a unit of `round` changes what can be created only at round
/// `round + 1`, the round whose parents it may become.
pub proof fn lemma_add_unit_changes_only_next_round<H: Hasher>(
    v: CreatorView,
    round: Round,
    creator: nat,
    hash: Digest,
    target: Round,
)
    requires
        v.valid(),
        round < Round::MAX,
        creator < v.n_members,
        target != round + 1,
    ensures
        created_unit::<H>(v.add_unit(round, creator, hash), target) == created_unit::<H>(v, target),
{
    let w = v.add_unit(round, creator, hash);
    lemma_add_unit_entries(v, round, creator, hash);
    lemma_add_unit_keeps_validity(v, round, creator, hash);
    if target > 0 {
        let p = target - 1;
        if p < v.candidates.len() {
            assert(w.candidates[p] =~= v.candidates[p]) by {
                assert forall|i: int| 0 <= i < v.n_members implies w.candidates[p][i] == v.candidates[p][i] by {
                    assert(w.candidates[p][i] == slot_after(v, round, creator, hash, p, i));
                }
            }
        } else if p < w.candidates.len() {
            assert(w.candidates[p] =~= empty_map::<Digest>(v.n_members)) by {
                assert forall|i: int| 0 <= i < v.n_members implies w.candidates[p][i] == empty_map::<Digest>(v.n_members)[i] by {
                    assert(w.candidates[p][i] == slot_after(v, round, creator, hash, p, i));
                }
            }
            lemma_empty_map_no_values::<Digest>(v.n_members);
        }
    }
}

/// Making room for a round (empty rounds up to it) changes nothing that
/// can be created.
pub proof fn lemma_extended_keeps_created<H: Hasher>(v: CreatorView, round: Round, target: Round)
    requires
        v.valid(),
        round < Round::MAX,
    ensures
        created_unit::<H>(CreatorView { candidates: v.extended(round), ..v }, target) == created_unit::<H>(v, target),
        (CreatorView { candidates: v.extended(round), ..v }).current_round() == if round > v.current_round() {
            round as int
        } else {
            v.current_round()
        },
{
    let w = CreatorView { candidates: v.extended(round), ..v };
    if target > 0 && round >= v.candidates.len() {
        let p = target - 1;
        if v.candidates.len() <= p < w.candidates.len() {
            lemma_empty_map_no_values::<Digest>(v.n_members);
        }
    }
}

/// What a created unit holds. A unit of round `r` is built on the parent
/// map `m`: the map of round `r - 1` (no parents at round 0). The unit is
/// this node's, of round `r`; its parents mask marks exactly the occupied
/// slots of `m`; its combined hash is the user's hash of the SCALE encoding
/// of `m`; its parent digests are the values of `m`, one per occupied slot,
/// in increasing order of node.
pub proof fn lemma_created_unit_contents<H: Hasher>(v: CreatorView, r: Round)
    requires
        v.valid(),
        v.node_id <= usize::MAX,
    ensures
        ({
            let m = if r == 0 {
                Seq::new(v.n_members, |i: int| None::<Digest>)
            } else {
                v.candidates[r - 1]
            };
            created_unit::<H>(v, r) matches Some((pu, hs)) ==> {
                &&& pu.creator == v.node_id
                &&& pu.round == r
                &&& pu.parents_mask.len() == m.len() == v.n_members
                &&& forall|k: int| 0 <= k < m.len() ==> #[trigger] pu.parents_mask[k] == (m[k] is Some)
                &&& pu.combined_hash == H::spec_hash(scale_node_map_encoding(m))
                &&& listed_in_slot_order(m, hs)
            }
        }),
{
    if v.can_create(r) {
        let m = v.parents(r);
        assert(r == 0 ==> m =~= Seq::new(v.n_members, |i: int| None::<Digest>));
        let idx = lemma_present_values_slot_order(m);
        assert(slot_listing(m, present_values(m), idx));
    }
}

/// When a unit can be created: at round 0 always; at a later round `r`
/// exactly when round `r - 1` is known, at least (2 * N) / 3 + 1 of its
/// slots are occupied, and this node's own slot among them.
pub proof fn lemma_when_unit_created<H: Hasher>(v: CreatorView, r: Round)
    requires
        v.valid(),
    ensures
        created_unit::<H>(v, r) is Some <==> (r == 0 || {
            &&& r - 1 < v.candidates.len()
            &&& v.candidates[r - 1].filter(|x: Option<Digest>| x is Some).len() >= (2 * v.n_members)
                / 3 + 1
            &&& v.node_id < v.n_members
            &&& v.candidates[r - 1][v.node_id as int] is Some
        }),
{
    if r > 0 && r - 1 < v.candidates.len() {
        lemma_count_is_occupied_slots(v.candidates[r - 1]);
    }
}

} // verus!
