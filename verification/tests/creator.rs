use stance_consensus::creator::Creator as GenericCreator;
use stance_consensus::nodes::{NodeCount, NodeIndex, Round, SessionId};
use stance_consensus::units::{Fnv64, encode_parents, encode_unit, Hasher, PreUnit, UncheckedSignedUnit, Unit};
use std::collections::HashSet;

type Creator = GenericCreator<Fnv64>;

fn creator_set(n_members: NodeCount) -> Vec<Creator> {
    (0..n_members.0)
        .map(|i| Creator::new(NodeIndex(i), n_members))
        .collect()
}

fn create_units<'a, I: Iterator<Item = &'a Creator>>(
    creators: I,
    round: Round,
) -> Vec<(PreUnit, Vec<u64>)> {
    creators
        .map(|c| c.create_unit(round).expect("Creation should succeed."))
        .collect()
}

fn preunit_to_unit(preunit: PreUnit, session_id: SessionId) -> Unit {
    let full = UncheckedSignedUnit::new(preunit.clone(), vec![0], session_id, vec![]);
    let hash = Fnv64::hash(&encode_unit(&full));
    Unit::new(preunit, hash)
}

fn add_units(creator: &mut Creator, units: &[Unit]) {
    for unit in units {
        creator.add_unit(unit);
    }
}

#[test]
fn creates_initial_unit() {
    let n_members = NodeCount(7);
    let round = 0;
    let creator = Creator::new(NodeIndex(0), n_members);
    assert_eq!(creator.current_round(), round);
    let (preunit, parent_hashes) = creator
        .create_unit(round)
        .expect("Creation should succeed.");
    assert_eq!(preunit.round(), round);
    assert_eq!(parent_hashes.len(), 0);
}

#[test]
fn creates_unit_with_all_parents() {
    let n_members = NodeCount(7);
    let mut creators = creator_set(n_members);
    let new_units = create_units(creators.iter(), 0);
    let new_units: Vec<_> = new_units
        .into_iter()
        .map(|(pu, _)| preunit_to_unit(pu, 0))
        .collect();
    let expected_hashes: Vec<_> = new_units.iter().map(|u| u.hash()).collect();
    let creator = &mut creators[0];
    add_units(creator, &new_units);
    let round = 1;
    assert_eq!(creator.current_round(), 0);
    let (preunit, parent_hashes) = creator
        .create_unit(round)
        .expect("Creation should succeed.");
    assert_eq!(preunit.round(), round);
    assert_eq!(parent_hashes, expected_hashes);
}

fn create_unit_with_minimal_parents(n_members: NodeCount) {
    let n_parents = (n_members.0 * 2) / 3 + 1;
    let mut creators = creator_set(n_members);
    let new_units = create_units(creators.iter().take(n_parents), 0);
    let new_units: Vec<_> = new_units
        .into_iter()
        .map(|(pu, _)| preunit_to_unit(pu, 0))
        .collect();
    let expected_hashes: Vec<_> = new_units.iter().map(|u| u.hash()).collect();
    let creator = &mut creators[0];
    add_units(creator, &new_units);
    let round = 1;
    assert_eq!(creator.current_round(), 0);
    let (preunit, parent_hashes) = creator
        .create_unit(round)
        .expect("Creation should succeed.");
    assert_eq!(preunit.round(), round);
    assert_eq!(parent_hashes, expected_hashes);
}

#[test]
fn creates_unit_with_minimal_parents_4() {
    create_unit_with_minimal_parents(NodeCount(4));
}

#[test]
fn creates_unit_with_minimal_parents_5() {
    create_unit_with_minimal_parents(NodeCount(5));
}

#[test]
fn creates_unit_with_minimal_parents_6() {
    create_unit_with_minimal_parents(NodeCount(6));
}

#[test]
fn creates_unit_with_minimal_parents_7() {
    create_unit_with_minimal_parents(NodeCount(7));
}

fn dont_create_unit_below_parents_threshold(n_members: NodeCount) {
    let n_parents = (n_members.0 * 2) / 3;
    let mut creators = creator_set(n_members);
    let new_units = create_units(creators.iter().take(n_parents), 0);
    let new_units: Vec<_> = new_units
        .into_iter()
        .map(|(pu, _)| preunit_to_unit(pu, 0))
        .collect();
    let creator = &mut creators[0];
    add_units(creator, &new_units);
    let round = 1;
    assert_eq!(creator.current_round(), 0);
    assert!(creator.create_unit(round).is_none())
}

#[test]
fn cannot_create_unit_below_parents_threshold_4() {
    dont_create_unit_below_parents_threshold(NodeCount(4));
}

#[test]
fn cannot_create_unit_below_parents_threshold_5() {
    dont_create_unit_below_parents_threshold(NodeCount(5));
}

#[test]
fn cannot_create_unit_below_parents_threshold_6() {
    dont_create_unit_below_parents_threshold(NodeCount(6));
}

#[test]
fn cannot_create_unit_below_parents_threshold_7() {
    dont_create_unit_below_parents_threshold(NodeCount(7));
}

#[test]
fn creates_two_units_when_possible() {
    let n_members = NodeCount(7);
    let mut creators = creator_set(n_members);
    let mut expected_hashes_per_round = Vec::new();
    for round in 0..2 {
        let new_units = create_units(creators.iter().skip(1), round);
        let new_units: Vec<_> = new_units
            .into_iter()
            .map(|(pu, _)| preunit_to_unit(pu, 0))
            .collect();
        let expected_hashes: HashSet<_> = new_units.iter().map(|u| u.hash()).collect();
        for creator in creators.iter_mut() {
            add_units(creator, &new_units);
        }
        expected_hashes_per_round.push(expected_hashes);
    }
    let creator = &mut creators[0];
    assert_eq!(creator.current_round(), 1);
    for round in 0..3 {
        let (preunit, parent_hashes) = creator
            .create_unit(round)
            .expect("Creation should succeed.");
        assert_eq!(preunit.round(), round);
        let parent_hashes: HashSet<_> = parent_hashes.into_iter().collect();
        if round != 0 {
            assert_eq!(
                parent_hashes,
                expected_hashes_per_round[(round - 1) as usize]
            );
        }
        let unit = preunit_to_unit(preunit, 0);
        creator.add_unit(&unit);
        if round < 2 {
            expected_hashes_per_round[round as usize].insert(unit.hash());
        }
    }
}

#[test]
fn cannot_create_unit_without_predecessor() {
    let n_members = NodeCount(7);
    let mut creators = creator_set(n_members);
    let new_units = create_units(creators.iter().skip(1), 0);
    let new_units: Vec<_> = new_units
        .into_iter()
        .map(|(pu, _)| preunit_to_unit(pu, 0))
        .collect();
    let creator = &mut creators[0];
    add_units(creator, &new_units);
    let round = 1;
    assert!(creator.create_unit(round).is_none());
}

// Tests of the library's own.

#[test]
fn second_unit_of_same_creator_and_round_is_ignored() {
    let n_members = NodeCount(4);
    let mut creators = creator_set(n_members);
    let units: Vec<_> = create_units(creators.iter(), 0)
        .into_iter()
        .map(|(pu, _)| preunit_to_unit(pu, 0))
        .collect();
    let duplicate = preunit_to_unit(units[1].pre_unit().clone(), 1);
    assert_ne!(duplicate.hash(), units[1].hash());
    let creator = &mut creators[0];
    add_units(creator, &units);
    creator.add_unit(&duplicate);
    let (_, parent_hashes) = creator.create_unit(1).expect("Creation should succeed.");
    let expected: Vec<_> = units.iter().map(|u| u.hash()).collect();
    assert_eq!(parent_hashes, expected);
}

#[test]
fn adding_later_round_extends_current_round() {
    let n_members = NodeCount(4);
    let mut creator = Creator::new(NodeIndex(0), n_members);
    let other = Creator::new(NodeIndex(2), n_members);
    let (pu, _) = other.create_unit(0).expect("Creation should succeed.");
    let pu = PreUnit::new(pu.creator(), 5, pu.control_hash().clone());
    creator.add_unit(&Unit::new(pu, 77));
    assert_eq!(creator.current_round(), 5);
    // rounds in between are known but empty: nothing can be built on them
    assert!(creator.create_unit(3).is_none());
    assert!(creator.create_unit(6).is_none());
    assert!(creator.create_unit(7).is_none());
}

#[test]
fn created_unit_marks_its_parents() {
    let n_members = NodeCount(4);
    let mut creators = creator_set(n_members);
    let units: Vec<_> = create_units(creators.iter().take(3), 0)
        .into_iter()
        .map(|(pu, _)| preunit_to_unit(pu, 0))
        .collect();
    let creator = &mut creators[0];
    add_units(creator, &units);
    let (preunit, _) = creator.create_unit(1).expect("Creation should succeed.");
    assert_eq!(preunit.creator(), NodeIndex(0));
    assert_eq!(preunit.control_hash().parents_mask, vec![true, true, true, false]);
    let (initial, _) = creator.create_unit(0).expect("Creation should succeed.");
    assert_eq!(initial.control_hash().parents_mask, vec![false, false, false, false]);
}

#[test]
fn threshold_for_one_member() {
    let creator = Creator::new(NodeIndex(0), NodeCount(1));
    let (pu, _) = creator.create_unit(0).expect("Creation should succeed.");
    let mut creator = creator;
    assert!(creator.create_unit(1).is_none());
    creator.add_unit(&preunit_to_unit(pu, 0));
    let (pu1, parents) = creator.create_unit(1).expect("Creation should succeed.");
    assert_eq!(pu1.round(), 1);
    assert_eq!(parents.len(), 1);
}

#[test]
fn parent_map_encoding_is_scale() {
    let bytes = encode_parents(&vec![Some(0x0102030405060708u64), None]);
    assert_eq!(bytes, vec![8, 1, 8, 7, 6, 5, 4, 3, 2, 1, 0]);
    assert_eq!(encode_parents(&vec![]), vec![0]);
}

#[test]
fn combined_hash_is_hash_of_parent_encoding() {
    let creator = Creator::new(NodeIndex(1), NodeCount(3));
    let (pu, _) = creator.create_unit(0).expect("Creation should succeed.");
    let expected = Fnv64::hash(&encode_parents(&vec![None, None, None]));
    assert_eq!(pu.control_hash().combined_hash, expected);
}

#[test]
fn fnv64_digests() {
    assert_eq!(Fnv64::hash(&[]), 0xcbf29ce484222325);
    assert_eq!(Fnv64::hash(b"a"), 0xaf63dc4c8601ec8c);
    assert_eq!(Fnv64::hash(b"foobar"), 0x85944171f73967e8);
}
