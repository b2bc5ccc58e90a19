use stance_consensus::backup::{decode_units, encode_backup, load_backup, LoaderError, UnitLoader, UnitSaver};
use stance_consensus::creator::Creator as GenericCreator;
use stance_consensus::loading::{loading_step, LoadingAction, LoadingEvent, LoadingState};
use stance_consensus::nodes::{NodeCount, NodeIndex, Round, SessionId};
use stance_consensus::units::{Fnv64, decode_unit, encode_unit, ControlHash, Hasher, PreUnit, UncheckedSignedUnit, Unit};

type Creator = GenericCreator<Fnv64>;

const SESSION_ID: SessionId = 43;
const NODE_ID: NodeIndex = NodeIndex(0);
const N_MEMBERS: NodeCount = NodeCount(4);

struct TestUnit {
    creator: NodeIndex,
    session_id: SessionId,
    round: Round,
    ammount: usize,
    corrupted: bool,
}

impl TestUnit {
    fn new_correct(round: Round) -> TestUnit {
        TestUnit {
            creator: NODE_ID,
            session_id: SESSION_ID,
            round,
            ammount: 1,
            corrupted: false,
        }
    }
}

fn signed(creators: &[Creator], creator: NodeIndex, round: Round, session_id: SessionId) -> UncheckedSignedUnit {
    let (pu, _) = creators[creator.0]
        .create_unit(round)
        .expect("Creation should succeed.");
    UncheckedSignedUnit::new(pu, vec![round as u8, 7], session_id, vec![creator.0 as u8; 4])
}

/// Builds the bytes of a backup of the given units and the units themselves.
fn prepare(units: Vec<TestUnit>) -> (Vec<u8>, Vec<UncheckedSignedUnit>) {
    let mut encoded_data = Vec::new();
    let mut data = Vec::new();
    let mut creators: Vec<Creator> = (0..N_MEMBERS.0)
        .map(|i| Creator::new(NodeIndex(i), N_MEMBERS))
        .collect();
    for unit in units {
        let TestUnit { round, creator, session_id, ammount, corrupted } = unit;
        let all: Vec<UncheckedSignedUnit> = (0..N_MEMBERS.0)
            .map(|i| signed(&creators, NodeIndex(i), round, session_id))
            .collect();
        let unit = all[creator.0].clone();
        for _ in 0..ammount {
            let backup = encode_unit(&unit);
            if corrupted {
                encoded_data.extend_from_slice(&backup[..backup.len() - 1]);
            } else {
                encoded_data.extend_from_slice(&backup);
            }
        }
        data.push(unit);
        let new_units: Vec<Unit> = all
            .iter()
            .map(|u| Unit::new(u.pre_unit().clone(), Fnv64::hash(&encode_unit(u))))
            .collect();
        for c in creators.iter_mut() {
            for u in &new_units {
                c.add_unit(u);
            }
        }
    }
    (encoded_data, data)
}

/// Runs the loading mechanism on a backup: returns the starting round sent
/// and the units handed on, if any.
fn run(bytes: &[u8], collection: Option<Round>) -> (Option<Round>, Option<Vec<UncheckedSignedUnit>>) {
    let mut sent_units = None;
    let loaded = load_backup(bytes, NODE_ID, SESSION_ID);
    let event = match &loaded {
        Ok(units) => LoadingEvent::BackupLoaded { n_units: units.len() },
        Err(_) => LoadingEvent::BackupFailed,
    };
    let mut state = LoadingState::Loading;
    let mut event = Some(event);
    let mut loaded = loaded.ok();
    while let Some(e) = event.take() {
        let (next, action) = loading_step(state, e);
        state = next;
        match action {
            LoadingAction::SendUnits => {
                sent_units = loaded.take();
                event = Some(LoadingEvent::UnitsSent);
            }
            LoadingAction::AwaitCollection => {
                event = Some(match collection {
                    Some(r) => LoadingEvent::CollectionRound(r),
                    None => LoadingEvent::CollectionFailed,
                });
            }
            LoadingAction::SendStartingRound(r) => return (r, sent_units),
            LoadingAction::Ignore => panic!("unexpected event"),
        }
    }
    unreachable!()
}

#[test]
fn nothing_loaded_nothing_collected() {
    let (bytes, data) = prepare(Vec::new());
    let (starting_round, loaded) = run(&bytes, Some(0));
    assert_eq!(starting_round, Some(0));
    assert_eq!(loaded, Some(data));
}

#[test]
fn something_loaded_nothing_collected() {
    let (bytes, data) = prepare((0..5).map(TestUnit::new_correct).collect());
    let (starting_round, loaded) = run(&bytes, Some(0));
    assert_eq!(starting_round, Some(5));
    assert_eq!(loaded, Some(data));
}

#[test]
fn something_loaded_something_collected() {
    let (bytes, data) = prepare((0..5).map(TestUnit::new_correct).collect());
    let (starting_round, loaded) = run(&bytes, Some(5));
    assert_eq!(starting_round, Some(5));
    assert_eq!(loaded, Some(data));
}

#[test]
fn nothing_loaded_something_collected() {
    let (bytes, data) = prepare(Vec::new());
    let (starting_round, loaded) = run(&bytes, Some(1));
    assert_eq!(starting_round, None);
    assert_eq!(loaded, Some(data));
}

#[test]
fn loaded_smaller_then_collected() {
    let (bytes, data) = prepare((0..3).map(TestUnit::new_correct).collect());
    let (starting_round, loaded) = run(&bytes, Some(4));
    assert_eq!(starting_round, None);
    assert_eq!(loaded, Some(data));
}

#[test]
fn nothing_collected() {
    let (bytes, data) = prepare((0..3).map(TestUnit::new_correct).collect());
    let (starting_round, loaded) = run(&bytes, None);
    assert_eq!(starting_round, None);
    assert_eq!(loaded, Some(data));
}

#[test]
fn corrupted_backup_codec() {
    let mut units: Vec<_> = (0..5).map(TestUnit::new_correct).collect();
    units[2] = TestUnit {
        creator: NODE_ID,
        session_id: SESSION_ID,
        round: 2,
        ammount: 1,
        corrupted: true,
    };
    let (bytes, _) = prepare(units);
    let (starting_round, loaded) = run(&bytes, Some(0));
    assert_eq!(starting_round, None);
    assert!(loaded.is_none());
}

#[test]
fn corrupted_backup_missing() {
    let mut units: Vec<_> = (0..5).map(TestUnit::new_correct).collect();
    units[2] = TestUnit {
        creator: NODE_ID,
        session_id: SESSION_ID,
        round: 2,
        ammount: 0,
        corrupted: true,
    };
    let (bytes, _) = prepare(units);
    let (starting_round, loaded) = run(&bytes, Some(0));
    assert_eq!(starting_round, None);
    assert!(loaded.is_none());
}

#[test]
fn corrupted_backup_duplicate() {
    let mut units: Vec<_> = (0..5).map(TestUnit::new_correct).collect();
    units[2] = TestUnit {
        creator: NODE_ID,
        session_id: SESSION_ID,
        round: 2,
        ammount: 2,
        corrupted: true,
    };
    let (bytes, _) = prepare(units);
    let (starting_round, loaded) = run(&bytes, Some(0));
    assert_eq!(starting_round, None);
    assert!(loaded.is_none());
}

#[test]
fn corrupted_backup_wrong_creator() {
    let mut units: Vec<_> = (0..5).map(TestUnit::new_correct).collect();
    units
        .iter_mut()
        .for_each(|u| u.creator = NodeIndex(NODE_ID.0 + 1));
    let (bytes, _) = prepare(units);
    let (starting_round, loaded) = run(&bytes, Some(0));
    assert_eq!(starting_round, None);
    assert!(loaded.is_none());
}

#[test]
fn corrupted_backup_wrong_session() {
    let mut units: Vec<_> = (0..5).map(TestUnit::new_correct).collect();
    units.iter_mut().for_each(|u| u.session_id += 1);
    let (bytes, _) = prepare(units);
    let (starting_round, loaded) = run(&bytes, Some(0));
    assert_eq!(starting_round, None);
    assert!(loaded.is_none());
}

// Tests of the library's own.

#[test]
fn backup_written_unit_by_unit_loads_back() {
    let (_, data) = prepare((0..4).map(TestUnit::new_correct).collect());
    let bytes = encode_backup(&data);
    let mut by_one = Vec::new();
    for u in &data {
        by_one.extend_from_slice(&encode_unit(u));
    }
    assert_eq!(bytes, by_one);
    let decoded = decode_units(&bytes).expect("decodes");
    assert_eq!(decoded, data);
    let loaded = load_backup(&bytes, NODE_ID, SESSION_ID).expect("loads");
    assert_eq!(loaded, data);
}

#[test]
fn decode_unit_returns_rest() {
    let (_, data) = prepare((0..2).map(TestUnit::new_correct).collect());
    let first = encode_unit(&data[0]);
    let second = encode_unit(&data[1]);
    let mut bytes = first.clone();
    bytes.extend_from_slice(&second);
    let (u, rest) = decode_unit(&bytes).expect("decodes");
    assert_eq!(u, data[0]);
    assert_eq!(rest, &second[..]);
    assert!(decode_unit(&first[..first.len() - 1]).is_err());
    assert!(decode_unit(&[]).is_err());
}

#[test]
fn empty_backup_loads_nothing() {
    assert_eq!(load_backup(&[], NODE_ID, SESSION_ID).expect("loads").len(), 0);
}

#[test]
fn missing_round_is_reported() {
    let (_, data) = prepare((0..4).map(TestUnit::new_correct).collect());
    let with_gap = vec![data[0].clone(), data[1].clone(), data[3].clone()];
    let bytes = encode_backup(&with_gap);
    match load_backup(&bytes, NODE_ID, SESSION_ID) {
        Err(LoaderError::RoundMissmatch(expected, got)) => {
            assert_eq!(expected, 2);
            assert_eq!(got, 3);
        }
        _ => panic!("expected a round mismatch"),
    }
}

#[test]
fn wrong_creator_is_reported() {
    let units: Vec<_> = (0..2)
        .map(|r| TestUnit { creator: NodeIndex(3), ..TestUnit::new_correct(r) })
        .collect();
    let (bytes, _) = prepare(units);
    match load_backup(&bytes, NODE_ID, SESSION_ID) {
        Err(LoaderError::WrongCreator(round, expected, got)) => {
            assert_eq!(round, 0);
            assert_eq!(expected, NODE_ID);
            assert_eq!(got, NodeIndex(3));
        }
        _ => panic!("expected a wrong creator"),
    }
}

#[test]
fn wrong_session_is_reported() {
    let units: Vec<_> = (0..3)
        .map(|r| TestUnit { session_id: if r == 1 { 9 } else { SESSION_ID }, ..TestUnit::new_correct(r) })
        .collect();
    let (bytes, _) = prepare(units);
    match load_backup(&bytes, NODE_ID, SESSION_ID) {
        Err(LoaderError::WrongSession(round, expected, got)) => {
            assert_eq!(round, 1);
            assert_eq!(expected, SESSION_ID);
            assert_eq!(got, 9);
        }
        _ => panic!("expected a wrong session"),
    }
}

#[test]
fn truncated_backup_is_a_codec_error() {
    let (mut bytes, _) = prepare((0..2).map(TestUnit::new_correct).collect());
    bytes.pop();
    assert!(matches!(load_backup(&bytes, NODE_ID, SESSION_ID), Err(LoaderError::Codec(_))));
    assert!(decode_units(&bytes).is_err());
}

#[test]
fn saver_and_loader_hold_their_ends() {
    let mut saver = UnitSaver::new(Vec::<u8>::new());
    saver.writer_mut().push(1);
    assert_eq!(saver.writer_mut().len(), 1);
    let loader = UnitLoader::new(vec![5u8]);
    assert_eq!(loader.into_reader(), vec![5u8]);
}

#[test]
fn unit_encoding_is_scale_of_its_fields() {
    let pu = PreUnit::new(
        NodeIndex(2),
        0x0304,
        ControlHash { parents_mask: vec![true, false], combined_hash: 9 },
    );
    let u = UncheckedSignedUnit::new(pu, vec![0xaa], 0x11, vec![0xbb, 0xcc]);
    let bytes = encode_unit(&u);
    let mut expected = vec![2, 0, 0, 0, 0, 0, 0, 0, 0x04, 0x03, 8, 1, 0, 9, 0, 0, 0, 0, 0, 0, 0];
    expected.extend_from_slice(&[4, 0xaa, 0x11, 0, 0, 0, 0, 0, 0, 0, 8, 0xbb, 0xcc]);
    assert_eq!(bytes, expected);
}
