//! Units: the vertices of the consensus DAG, and their byte encoding.

use vstd::prelude::*;
use parity_scale_codec::{Decode, Encode};
use crate::nodes::{Digest, NodeIndex, Round, SessionId};

verus! {

#[verifier::external_type_specification]
#[verifier::external_body]
pub struct ExCodecError(parity_scale_codec::Error);

/// A hash function over byte strings, supplied by the user of the library:
/// its digest is a function of the bytes alone.
pub trait Hasher {
    /// The digest of `s`.
    spec fn spec_hash(s: Seq<u8>) -> Digest;

    fn hash(s: &[u8]) -> (h: Digest)
        ensures
            h == Self::spec_hash(s@),
    ;
}

/// The FNV-1a offset basis for 64-bit digests.
pub const FNV_OFFSET: u64 = 0xcbf2_9ce4_8422_2325u64;

/// The FNV prime for 64-bit digests.
pub const FNV_PRIME: u64 = 0x0000_0100_0000_01b3u64;

/// The 64-bit FNV-1a digest of `s`: starting from the offset basis, each
/// byte in turn is xored in and the state multiplied by the prime, modulo 2^64.
pub open spec fn fnv1a(s: Seq<u8>) -> u64
    decreases s.len(),
{
    if s.len() == 0 {
        FNV_OFFSET
    } else {
        (fnv1a(s.drop_last()) ^ (s.last() as u64)).wrapping_mul(FNV_PRIME)
    }
}

/// The 64-bit FNV-1a hash function.
pub struct Fnv64;

impl Hasher for Fnv64 {
    open spec fn spec_hash(s: Seq<u8>) -> Digest {
        fnv1a(s)
    }

    fn hash(s: &[u8]) -> (h: Digest) {
        let mut h: u64 = FNV_OFFSET;
        let mut i: usize = 0;
        while i < s.len()
            invariant
                i <= s@.len(),
                h == fnv1a(s@.subrange(0, i as int)),
            decreases s@.len() - i,
        {
            assert(s@.subrange(0, i + 1).drop_last() =~= s@.subrange(0, i as int));
            h = (h ^ (s[i] as u64)).wrapping_mul(FNV_PRIME);
            i = i + 1;
        }
        assert(s@.subrange(0, s@.len() as int) =~= s@);
        h
    }
}

/// What a unit says of its parents: which nodes' units of the previous round
/// it builds on, and a hash of the whole parent map.
#[derive(Clone, Debug, PartialEq, Eq)]
pub struct ControlHash {
    pub parents_mask: Vec<bool>,
    pub combined_hash: Digest,
}

/// The abstract content of a unit as created, before data and signature.
#[verifier::ext_equal]
pub struct PreUnitView {
    pub creator: usize,
    pub round: Round,
    pub parents_mask: Seq<bool>,
    pub combined_hash: Digest,
}

/// A unit as created, before data and signature are attached.
#[derive(Clone, Debug, PartialEq, Eq)]
pub struct PreUnit {
    creator: NodeIndex,
    round: Round,
    control_hash: ControlHash,
}

impl View for PreUnit {
    type V = PreUnitView;

    closed spec fn view(&self) -> PreUnitView {
        PreUnitView {
            creator: self.creator.0,
            round: self.round,
            parents_mask: self.control_hash.parents_mask@,
            combined_hash: self.control_hash.combined_hash,
        }
    }
}

impl PreUnit {
    pub fn new(creator: NodeIndex, round: Round, control_hash: ControlHash) -> (pu: PreUnit)
        ensures
            pu@ == (PreUnitView {
                creator: creator.0,
                round,
                parents_mask: control_hash.parents_mask@,
                combined_hash: control_hash.combined_hash,
            }),
    {
        PreUnit { creator, round, control_hash }
    }

    pub fn creator(&self) -> (c: NodeIndex)
        ensures
            c.0 == self@.creator,
    {
        self.creator
    }

    pub fn round(&self) -> (r: Round)
        ensures
            r == self@.round,
    {
        self.round
    }

    pub fn control_hash(&self) -> (ch: &ControlHash)
        ensures
            ch.parents_mask@ == self@.parents_mask,
            ch.combined_hash == self@.combined_hash,
    {
        &self.control_hash
    }
}

/// A unit known to the node: its pre-unit and the unit's own hash.
#[derive(Clone, Debug, PartialEq, Eq)]
pub struct Unit {
    pre_unit: PreUnit,
    hash: Digest,
}

impl Unit {
    pub fn new(pre_unit: PreUnit, hash: Digest) -> (u: Unit)
        ensures
            u.spec_pre_unit() == pre_unit@,
            u.spec_hash() == hash,
    {
        Unit { pre_unit, hash }
    }

    pub closed spec fn spec_pre_unit(&self) -> PreUnitView {
        self.pre_unit@
    }

    pub closed spec fn spec_hash(&self) -> Digest {
        self.hash
    }

    pub fn round(&self) -> (r: Round)
        ensures
            r == self.spec_pre_unit().round,
    {
        self.pre_unit.round
    }

    pub fn creator(&self) -> (c: NodeIndex)
        ensures
            c.0 == self.spec_pre_unit().creator,
    {
        self.pre_unit.creator
    }

    pub fn hash(&self) -> (h: Digest)
        ensures
            h == self.spec_hash(),
    {
        self.hash
    }

    pub fn pre_unit(&self) -> (pu: &PreUnit)
        ensures
            pu@ == self.spec_pre_unit(),
    {
        &self.pre_unit
    }
}

/// The abstract content of a signed unit as it is kept in a backup.
#[verifier::ext_equal]
pub struct SignedUnitView {
    pub pre_unit: PreUnitView,
    pub data: Seq<u8>,
    pub session_id: SessionId,
    pub signature: Seq<u8>,
}

/// A unit with its data, session and signature, as received or created,
/// whose signature has not been checked.
#[derive(Clone, Debug, PartialEq, Eq)]
pub struct UncheckedSignedUnit {
    pre_unit: PreUnit,
    data: Vec<u8>,
    session_id: SessionId,
    signature: Vec<u8>,
}

impl View for UncheckedSignedUnit {
    type V = SignedUnitView;

    closed spec fn view(&self) -> SignedUnitView {
        SignedUnitView {
            pre_unit: self.pre_unit@,
            data: self.data@,
            session_id: self.session_id,
            signature: self.signature@,
        }
    }
}

impl UncheckedSignedUnit {
    pub fn new(pre_unit: PreUnit, data: Vec<u8>, session_id: SessionId, signature: Vec<u8>) -> (u:
        UncheckedSignedUnit)
        ensures
            u@ == (SignedUnitView {
                pre_unit: pre_unit@,
                data: data@,
                session_id,
                signature: signature@,
            }),
    {
        UncheckedSignedUnit { pre_unit, data, session_id, signature }
    }

    pub fn pre_unit(&self) -> (pu: &PreUnit)
        ensures
            pu@ == self@.pre_unit,
    {
        &self.pre_unit
    }

    pub fn round(&self) -> (r: Round)
        ensures
            r == self@.pre_unit.round,
    {
        self.pre_unit.round
    }

    pub fn creator(&self) -> (c: NodeIndex)
        ensures
            c.0 == self@.pre_unit.creator,
    {
        self.pre_unit.creator
    }

    pub fn session_id(&self) -> (s: SessionId)
        ensures
            s == self@.session_id,
    {
        self.session_id
    }

    pub fn data(&self) -> (d: &Vec<u8>)
        ensures
            d@ == self@.data,
    {
        &self.data
    }

    pub fn signature(&self) -> (s: &Vec<u8>)
        ensures
            s@ == self@.signature,
    {
        &self.signature
    }
}

/// The fields of a signed unit in the order in which a backup holds them:
/// creator, round, parents mask, combined hash, data, session, signature.
pub type UnitRecord = (u64, u16, Seq<bool>, u64, Seq<u8>, u64, Seq<u8>);

/// The record of a signed unit.
pub open spec fn record_of(u: SignedUnitView) -> UnitRecord {
    (
        u.pre_unit.creator as u64,
        u.pre_unit.round,
        u.pre_unit.parents_mask,
        u.pre_unit.combined_hash,
        u.data,
        u.session_id,
        u.signature,
    )
}

/// The signed unit that a record describes.
pub open spec fn unit_of_record(r: UnitRecord) -> SignedUnitView {
    SignedUnitView {
        pre_unit: PreUnitView {
            creator: r.0 as usize,
            round: r.1,
            parents_mask: r.2,
            combined_hash: r.3,
        },
        data: r.4,
        session_id: r.5,
        signature: r.6,
    }
}

/// Whether every sequence in a unit can be given a SCALE length prefix.
pub open spec fn encodable(u: SignedUnitView) -> bool {
    &&& u.pre_unit.parents_mask.len() <= u32::MAX
    &&& u.data.len() <= u32::MAX
    &&& u.signature.len() <= u32::MAX
}

/// The SCALE encoding of a unit record.
pub uninterp spec fn scale_unit_encoding(r: UnitRecord) -> Seq<u8>;

/// The SCALE decoding of a unit record from the front of `b`: the record and
/// the bytes that follow it, or `None` where `b` does not start with one.
pub uninterp spec fn scale_unit_decoding(b: Seq<u8>) -> Option<(UnitRecord, Seq<u8>)>;

/// The SCALE encoding of a map from nodes to optional digests.
pub uninterp spec fn scale_node_map_encoding(m: Seq<Option<u64>>) -> Seq<u8>;

/// Calls `Encode::encode` of `parity_scale_codec` on the tuple of the
/// record's fields. Claims: the result is the SCALE encoding of the record,
/// and decoding the result followed by any bytes gives back the record and
/// those bytes (the encodings of integers, booleans and vectors that the
/// crate writes are read back by its decoders, field by field, consuming
/// exactly what was written), and it is not empty (it starts with the
/// eight bytes of the creator). The crate panics on a vector longer than
/// `u32::MAX`, which `requires` leaves out.
#[verifier::external_body]
fn scale_encode_record(
    creator: u64,
    round: u16,
    parents_mask: &Vec<bool>,
    combined_hash: u64,
    data: &Vec<u8>,
    session_id: u64,
    signature: &Vec<u8>,
) -> (bytes: Vec<u8>)
    requires
        parents_mask.len() <= u32::MAX,
        data.len() <= u32::MAX,
        signature.len() <= u32::MAX,
    ensures
        bytes@ == scale_unit_encoding(
            (creator, round, parents_mask@, combined_hash, data@, session_id, signature@),
        ),
        bytes@.len() > 0,
        forall|rest: Seq<u8>|
            #[trigger] scale_unit_decoding(bytes@ + rest) == Some(
                (
                    (creator, round, parents_mask@, combined_hash, data@, session_id, signature@),
                    rest,
                ),
            ),
{
    (creator, round, parents_mask, combined_hash, data, session_id, signature).encode()
}

/// Calls `Decode::decode` of `parity_scale_codec` on the tuple type of a
/// unit record, reading from the front of `input`. Claims: it succeeds
/// exactly where the named decoding is defined, and then returns that
/// record and the bytes after it, which are fewer than `input` (a record
/// starts with an eight-byte integer).
#[verifier::external_body]
fn scale_decode_record(input: &[u8]) -> (res: Result<
    ((u64, u16, Vec<bool>, u64, Vec<u8>, u64, Vec<u8>), &[u8]),
    parity_scale_codec::Error,
>)
    ensures
        match res {
            Ok((r, rest)) => {
                &&& scale_unit_decoding(input@) == Some(
                    ((r.0, r.1, r.2@, r.3, r.4@, r.5, r.6@), rest@),
                )
                &&& rest@.len() < input@.len()
            },
            Err(_) => scale_unit_decoding(input@) is None,
        },
{
    let mut rest = input;
    match <(u64, u16, Vec<bool>, u64, Vec<u8>, u64, Vec<u8>)>::decode(&mut rest) {
        Ok(r) => Ok((r, rest)),
        Err(e) => Err(e),
    }
}

/// Calls `Encode::encode` of `parity_scale_codec` on a vector of optional
/// digests. Claims: the result is its SCALE encoding. The crate panics on a
/// vector longer than `u32::MAX`, which `requires` leaves out.
#[verifier::external_body]
fn scale_encode_node_map(m: &Vec<Option<u64>>) -> (bytes: Vec<u8>)
    requires
        m.len() <= u32::MAX,
    ensures
        bytes@ == scale_node_map_encoding(m@),
{
    m.encode()
}

/// The bytes of a unit as a backup holds them.
pub fn encode_unit(unit: &UncheckedSignedUnit) -> (bytes: Vec<u8>)
    requires
        encodable(unit@),
    ensures
        bytes@ == scale_unit_encoding(record_of(unit@)),
        bytes@.len() > 0,
        forall|rest: Seq<u8>|
            #[trigger] scale_unit_decoding(bytes@ + rest) == Some((record_of(unit@), rest)),
{
    let pu = &unit.pre_unit;
    scale_encode_record(
        pu.creator.0 as u64,
        pu.round,
        &pu.control_hash.parents_mask,
        pu.control_hash.combined_hash,
        &unit.data,
        unit.session_id,
        &unit.signature,
    )
}

/// Reads one unit from the front of `input`; returns it with the bytes
/// that follow it.
pub fn decode_unit(input: &[u8]) -> (res: Result<(UncheckedSignedUnit, &[u8]), parity_scale_codec::Error>)
    ensures
        match res {
            Ok((u, rest)) => {
                &&& scale_unit_decoding(input@) matches Some((r, tail))
                &&& u@ == unit_of_record(r)
                &&& rest@ == tail
                &&& rest@.len() < input@.len()
            },
            Err(_) => scale_unit_decoding(input@) is None,
        },
{
    match scale_decode_record(input) {
        Ok((r, rest)) => {
            let (creator, round, parents_mask, combined_hash, data, session_id, signature) = r;
            let pre_unit = PreUnit {
                creator: NodeIndex(creator as usize),
                round,
                control_hash: ControlHash { parents_mask, combined_hash },
            };
            let u = UncheckedSignedUnit { pre_unit, data, session_id, signature };
            Ok((u, rest))
        },
        Err(e) => Err(e),
    }
}

/// The bytes of a parent map that its combined hash is taken of.
pub fn encode_parents(parents: &Vec<Option<Digest>>) -> (bytes: Vec<u8>)
    requires
        parents.len() <= u32::MAX,
    ensures
        bytes@ == scale_node_map_encoding(parents@),
{
    scale_encode_node_map(parents)
}

/// The combined hash of a parent map: the user's hash of its encoding.
pub fn combine_hashes<H: Hasher>(parents: &Vec<Option<Digest>>) -> (h: Digest)
    requires
        parents.len() <= u32::MAX,
    ensures
        h == H::spec_hash(scale_node_map_encoding(parents@)),
{
    let bytes = encode_parents(parents);
    H::hash(bytes.as_slice())
}

/// A record read back from a unit's encoding describes that unit.
pub proof fn lemma_record_roundtrip(u: SignedUnitView)
    ensures
        unit_of_record(record_of(u)) == u,
{
    assert(unit_of_record(record_of(u)) =~= u);
}

} // verus!
