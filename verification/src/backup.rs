//! Unit backup: the bytes of a backup, reading units back from them, and the
//! checks a loaded backup must pass.

use vstd::prelude::*;
use crate::nodes::{NodeIndex, Round, SessionId};
use crate::units::{
    decode_unit, encodable, encode_unit, lemma_record_roundtrip, record_of, scale_unit_decoding,
    scale_unit_encoding, unit_of_record, SignedUnitView, UncheckedSignedUnit,
};

verus! {

#[verifier::external_type_specification]
#[verifier::external_body]
pub struct ExIoError(std::io::Error);

/// Backup load error. Could be either caused by io error from Reader, or by decoding.
#[derive(Debug)]
pub enum LoaderError {
    IO(std::io::Error),
    Codec(parity_scale_codec::Error),
    RoundMissmatch(Round, Round),
    WrongCreator(Round, NodeIndex, NodeIndex),
    WrongSession(Round, SessionId, SessionId),
}

impl From<std::io::Error> for LoaderError {
    fn from(err: std::io::Error) -> (e: Self) {
        LoaderError::IO(err)
    }
}

impl vstd::std_specs::convert::FromSpecImpl<std::io::Error> for LoaderError {
    open spec fn obeys_from_spec() -> bool {
        true
    }

    open spec fn from_spec(v: std::io::Error) -> Self {
        LoaderError::IO(v)
    }
}

impl From<parity_scale_codec::Error> for LoaderError {
    fn from(err: parity_scale_codec::Error) -> (e: Self) {
        LoaderError::Codec(err)
    }
}

impl vstd::std_specs::convert::FromSpecImpl<parity_scale_codec::Error> for LoaderError {
    open spec fn obeys_from_spec() -> bool {
        true
    }

    open spec fn from_spec(v: parity_scale_codec::Error) -> Self {
        LoaderError::Codec(v)
    }
}

/// Abstraction over Unit backup saving mechanism: a sink of bytes.
pub struct UnitSaver<W> {
    inner: W,
}

impl<W> UnitSaver<W> {
    pub closed spec fn writer(&self) -> W {
        self.inner
    }

    pub fn new(write: W) -> (s: Self)
        ensures
            s.writer() == write,
    {
        UnitSaver { inner: write }
    }

    /// The sink that saved units go to.
    pub fn writer_mut(&mut self) -> (w: &mut W)
        ensures
            *w == old(self).writer(),
            final(self).writer() == *final(w),
    {
        &mut self.inner
    }
}

/// Abstraction over Unit backup loading mechanism: a source of bytes.
pub struct UnitLoader<R> {
    inner: R,
}

impl<R> UnitLoader<R> {
    pub closed spec fn reader(&self) -> R {
        self.inner
    }

    pub fn new(read: R) -> (l: Self)
        ensures
            l.reader() == read,
    {
        UnitLoader { inner: read }
    }

    /// The source that units are loaded from.
    pub fn into_reader(self) -> (r: R)
        ensures
            r == self.reader(),
    {
        self.inner
    }
}

/// The abstract contents of a vector of units.
pub open spec fn views(units: Seq<UncheckedSignedUnit>) -> Seq<SignedUnitView> {
    units.map_values(|u: UncheckedSignedUnit| u@)
}

/// The units that a backup holds: the units read one after another until
/// no byte is left, or `None` where some unit cannot be read.
pub open spec fn decode_all(b: Seq<u8>) -> Option<Seq<SignedUnitView>>
    decreases b.len(),
{
    if b.len() == 0 {
        Some(Seq::empty())
    } else {
        match scale_unit_decoding(b) {
            Some((r, rest)) => if rest.len() < b.len() {
                match decode_all(rest) {
                    Some(us) => Some(seq![unit_of_record(r)] + us),
                    None => None,
                }
            } else {
                None
            },
            None => None,
        }
    }
}

/// `units` followed by the units of `tail`, where `tail` holds some.
pub open spec fn prepend(units: Seq<SignedUnitView>, tail: Option<Seq<SignedUnitView>>) -> Option<
    Seq<SignedUnitView>,
> {
    match tail {
        Some(us) => Some(units + us),
        None => None,
    }
}

/// The round expected of the unit at position `i` of a backup: positions
/// count rounds from 0, wrapping around after `Round::MAX`.
pub open spec fn expected_round(i: int) -> Round {
    (i % 0x1_0000) as Round
}

/// What is wrong with the unit at position `i` of a backup of node `index`
/// in session `session_id`, checked in this order: its round, its creator,
/// its session.
pub open spec fn unit_fault(u: SignedUnitView, i: int, index: NodeIndex, session_id: SessionId) -> Option<
    LoaderError,
> {
    let round = u.pre_unit.round;
    if round != expected_round(i) {
        Some(LoaderError::RoundMissmatch(expected_round(i), round))
    } else if u.pre_unit.creator != index.0 {
        Some(LoaderError::WrongCreator(round, index, NodeIndex(u.pre_unit.creator)))
    } else if u.session_id != session_id {
        Some(LoaderError::WrongSession(round, session_id, u.session_id))
    } else {
        None
    }
}

/// The fault of the first faulty unit at position `i` or later.
pub open spec fn first_fault(
    units: Seq<SignedUnitView>,
    i: int,
    index: NodeIndex,
    session_id: SessionId,
) -> Option<LoaderError>
    decreases units.len() - i,
{
    if i < 0 || i >= units.len() {
        None
    } else {
        match unit_fault(units[i], i, index, session_id) {
            Some(e) => Some(e),
            None => first_fault(units, i + 1, index, session_id),
        }
    }
}

/// Reads all units from the bytes of a backup.
pub fn decode_units(bytes: &[u8]) -> (res: Result<Vec<UncheckedSignedUnit>, parity_scale_codec::Error>)
    ensures
        match res {
            Ok(units) => decode_all(bytes@) == Some(views(units@)),
            Err(_) => decode_all(bytes@) is None,
        },
{
    let mut input: &[u8] = bytes;
    let mut result: Vec<UncheckedSignedUnit> = Vec::new();
    while input.len() > 0
        invariant
            decode_all(bytes@) == prepend(views(result@), decode_all(input@)),
        decreases input@.len(),
    {
        match decode_unit(input) {
            Ok((u, rest)) => {
                proof {
                    assert(views(result@.push(u)) =~= views(result@) + seq![u@]);
                    match decode_all(rest@) {
                        Some(us) => {
                            assert(views(result@) + (seq![u@] + us) =~= views(result@.push(u))
                                + us);
                        },
                        None => {},
                    }
                }
                result.push(u);
                input = rest;
            },
            Err(e) => {
                return Err(e);
            },
        }
    }
    assert(views(result@) + Seq::<SignedUnitView>::empty() =~= views(result@));
    Ok(result)
}

/// Loads the units of a backup of node `index` in session `session_id` from
/// its bytes. The backup must hold the node's own units of rounds 0, 1, 2, ...
/// of the session, in this order; the first unit that does not is reported.
pub fn load_backup(bytes: &[u8], index: NodeIndex, session_id: SessionId) -> (res: Result<
    Vec<UncheckedSignedUnit>,
    LoaderError,
>)
    ensures
        match decode_all(bytes@) {
            None => res matches Err(LoaderError::Codec(_)),
            Some(us) => match first_fault(us, 0, index, session_id) {
                Some(e) => res == Err::<Vec<UncheckedSignedUnit>, LoaderError>(e),
                None => res matches Ok(v) && views(v@) == us,
            },
        },
{
    let units = match decode_units(bytes) {
        Ok(units) => units,
        Err(e) => {
            return Err(LoaderError::from(e));
        },
    };
    let ghost us = views(units@);
    let mut i: usize = 0;
    let mut expected: Round = 0;
    while i < units.len()
        invariant
            us == views(units@),
            decode_all(bytes@) == Some(us),
            i <= units@.len(),
            expected == expected_round(i as int),
            first_fault(us, 0, index, session_id) == first_fault(us, i as int, index, session_id),
        decreases units@.len() - i,
    {
        let u = &units[i];
        let round = u.round();
        assert(us[i as int] == u@);
        if round != expected {
            return Err(LoaderError::RoundMissmatch(expected, round));
        }
        if u.creator().0 != index.0 {
            return Err(LoaderError::WrongCreator(round, index, u.creator()));
        }
        if u.session_id() != session_id {
            return Err(LoaderError::WrongSession(round, session_id, u.session_id()));
        }
        i = i + 1;
        expected = if expected == Round::MAX {
            0
        } else {
            expected + 1
        };
    }
    Ok(units)
}

/// The bytes of a backup holding `units`: their encodings one after another.
pub open spec fn backup_bytes(units: Seq<SignedUnitView>) -> Seq<u8>
    decreases units.len(),
{
    if units.len() == 0 {
        Seq::empty()
    } else {
        backup_bytes(units.drop_last()) + scale_unit_encoding(record_of(units.last()))
    }
}

/// The bytes of a backup holding `units`, one after another: what saving
/// them one by one writes.
pub fn encode_backup(units: &Vec<UncheckedSignedUnit>) -> (bytes: Vec<u8>)
    requires
        forall|i: int| 0 <= i < units@.len() ==> encodable(#[trigger] units@[i]@),
    ensures
        bytes@ == backup_bytes(views(units@)),
        decode_all(bytes@) == Some(views(units@)),
{
    let mut bytes: Vec<u8> = Vec::new();
    let mut i: usize = 0;
    while i < units.len()
        invariant
            i <= units@.len(),
            forall|j: int| 0 <= j < units@.len() ==> encodable(#[trigger] units@[j]@),
            bytes@ == backup_bytes(views(units@.take(i as int))),
            forall|rest: Seq<u8>|
                #[trigger] decode_all(bytes@ + rest) == prepend(
                    views(units@.take(i as int)),
                    decode_all(rest),
                ),
        decreases units@.len() - i,
    {
        let mut e = encode_unit(&units[i]);
        let ghost old_bytes = bytes@;
        let ghost enc = e@;
        let ghost u = units@[i as int]@;
        bytes.append(&mut e);
        proof {
            lemma_record_roundtrip(u);
            assert(views(units@.take(i + 1)).drop_last() =~= views(units@.take(i as int)));
            assert(views(units@.take(i + 1)).last() == u);
            assert forall|rest: Seq<u8>| #[trigger]
                decode_all(bytes@ + rest) == prepend(views(units@.take(i + 1)), decode_all(rest)) by {
                assert(bytes@ + rest =~= old_bytes + (enc + rest));
                assert(scale_unit_decoding(enc + rest) == Some((record_of(u), rest)));
                assert(decode_all(enc + rest) == prepend(seq![u], decode_all(rest)));
                assert(views(units@.take(i + 1)) =~= views(units@.take(i as int)) + seq![u]);
                match decode_all(rest) {
                    Some(us) => {
                        assert(views(units@.take(i as int)) + (seq![u] + us) =~= views(
                            units@.take(i + 1),
                        ) + us);
                    },
                    None => {},
                }
            }
        }
        i = i + 1;
    }
    assert(bytes@ + Seq::<u8>::empty() =~= bytes@);
    assert(units@.take(units@.len() as int) =~= units@);
    assert(views(units@) + Seq::<SignedUnitView>::empty() =~= views(units@));
    bytes
}

/// A backup whose units are the node's own, of rounds 0, 1, 2, ... of the
/// session, has no fault; and a backup without fault is such a backup.
pub proof fn lemma_no_fault_iff_consistent(
    units: Seq<SignedUnitView>,
    index: NodeIndex,
    session_id: SessionId,
)
    ensures
        first_fault(units, 0, index, session_id) is None <==> forall|i: int|
            0 <= i < units.len() ==> {
                &&& (#[trigger] units[i]).pre_unit.round == expected_round(i)
                &&& units[i].pre_unit.creator == index.0
                &&& units[i].session_id == session_id
            },
{
    lemma_first_fault_from(units, 0, index, session_id);
}

proof fn lemma_first_fault_from(units: Seq<SignedUnitView>, k: int, index: NodeIndex, session_id: SessionId)
    requires
        0 <= k <= units.len(),
    ensures
        first_fault(units, k, index, session_id) is None <==> forall|i: int|
            k <= i < units.len() ==> unit_fault(#[trigger] units[i], i, index, session_id) is None,
    decreases units.len() - k,
{
    if k < units.len() {
        lemma_first_fault_from(units, k + 1, index, session_id);
    }
}

/// The unit at position `i` of a backup is expected to be of round `i`, for
/// every position a round can number.
pub proof fn lemma_expected_round_is_position(i: int)
    requires
        0 <= i <= Round::MAX,
    ensures
        expected_round(i) == i,
{
}

/// A backup of the node's own units of rounds 0, 1, ..., k - 1 of the
/// session, in this order, has no fault, so it loads as those units.
pub proof fn lemma_consecutive_backup_has_no_fault(
    units: Seq<SignedUnitView>,
    index: NodeIndex,
    session_id: SessionId,
)
    requires
        units.len() <= Round::MAX + 1,
        forall|i: int|
            0 <= i < units.len() ==> {
                &&& (#[trigger] units[i]).pre_unit.round == i
                &&& units[i].pre_unit.creator == index.0
                &&& units[i].session_id == session_id
            },
    ensures
        first_fault(units, 0, index, session_id) is None,
{
    lemma_no_fault_iff_consistent(units, index, session_id);
    assert forall|i: int| 0 <= i < units.len() implies (#[trigger] units[i]).pre_unit.round
        == expected_round(i) by {
        lemma_expected_round_is_position(i);
    }
}

/// The fault reported for a backup whose units before position `i` are the
/// node's own units of rounds 0, 1, ..., i - 1 of the session: a unit of the
/// wrong round is reported first (expected round `i`, found round), then one
/// of another creator (its round, this node, its creator), then one of
/// another session (its round, this session, its session).
pub proof fn lemma_first_fault_at(
    units: Seq<SignedUnitView>,
    index: NodeIndex,
    session_id: SessionId,
    i: int,
)
    requires
        0 <= i < units.len(),
        i <= Round::MAX,
        forall|j: int|
            0 <= j < i ==> {
                &&& (#[trigger] units[j]).pre_unit.round == j
                &&& units[j].pre_unit.creator == index.0
                &&& units[j].session_id == session_id
            },
    ensures
        ({
            let u = units[i];
            let round = u.pre_unit.round;
            first_fault(units, 0, index, session_id) == if round != i {
                Some(LoaderError::RoundMissmatch(i as Round, round))
            } else if u.pre_unit.creator != index.0 {
                Some(LoaderError::WrongCreator(round, index, NodeIndex(u.pre_unit.creator)))
            } else if u.session_id != session_id {
                Some(LoaderError::WrongSession(round, session_id, u.session_id))
            } else {
                first_fault(units, i + 1, index, session_id)
            }
        }),
{
    lemma_first_fault_skips(units, index, session_id, 0, i);
    lemma_expected_round_is_position(i);
}

proof fn lemma_first_fault_skips(
    units: Seq<SignedUnitView>,
    index: NodeIndex,
    session_id: SessionId,
    k: int,
    i: int,
)
    requires
        0 <= k <= i < units.len(),
        i <= Round::MAX,
        forall|j: int|
            0 <= j < i ==> {
                &&& (#[trigger] units[j]).pre_unit.round == j
                &&& units[j].pre_unit.creator == index.0
                &&& units[j].session_id == session_id
            },
    ensures
        first_fault(units, k, index, session_id) == first_fault(units, i, index, session_id),
    decreases i - k,
{
    if k < i {
        lemma_expected_round_is_position(k);
        assert(units[k].pre_unit.round == k);
        lemma_first_fault_skips(units, index, session_id, k + 1, i);
    }
}

} // verus!
