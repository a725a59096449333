//! The boundary to the header-validation library (`bitcoin_spv`).
//!
//! Everything cryptographic lives behind the trusted items of this module:
//! the double-SHA-256 header digest, per-array proof-of-work and linkage
//! validation, the retarget computation, the difficulty quotient, and SPV
//! proof validation. Each trusted contract states only what the library's
//! source shows; the digest itself is left as an uninterpreted function of
//! the header bytes.

use crate::error::RelayError;
use crate::header::chunk;
use crate::header::header_difficulty;
use crate::header::header_prev_hash;
use crate::header::header_target;
use crate::header::le_nat;
use crate::header::num_chunks;
use crate::header::pow256;
use crate::header::spec_clamped_elapsed;
use crate::header::spec_retarget;
use crate::header::target_representable;
use bitcoin_spv::types::SPVError;
use vstd::prelude::*;

verus! {

/// The double-SHA-256 digest of an 80-byte header, as a function of the
/// bytes alone. Nothing in this crate states what the digest of any given
/// header is; the hash is computed only by the header-validation library.
pub uninterp spec fn digest_of(h: Seq<u8>) -> Seq<u8>;

/// The all-zero 32-byte digest, which never counts as valid work.
pub open spec fn zero_digest() -> Seq<u8> {
    Seq::new(32, |i: int| 0u8)
}

/// Every header of a packed array carries the target of the first one.
pub open spec fn targets_uniform(b: Seq<u8>) -> bool {
    forall|i: int|
        0 <= i < num_chunks(b) ==> header_target(#[trigger] chunk(b, i)) == header_target(
            chunk(b, 0),
        )
}

/// Every header of a packed array names the digest of its predecessor.
pub open spec fn links_ok(b: Seq<u8>) -> bool {
    forall|i: int|
        1 <= i < num_chunks(b) ==> header_prev_hash(#[trigger] chunk(b, i)) == digest_of(
            chunk(b, i - 1),
        )
}

/// Every header of a packed array meets the first header's target.
pub open spec fn work_ok(b: Seq<u8>) -> bool {
    forall|i: int|
        0 <= i < num_chunks(b) ==> digest_of(#[trigger] chunk(b, i)) != zero_digest() && le_nat(
            digest_of(chunk(b, i)),
        ) < header_target(chunk(b, 0))
}

/// What the header-validation library accepts of a packed header array when
/// asked for constant difficulty: uniform targets, parent linkage, and
/// proof of work throughout.
pub open spec fn chain_valid(b: Seq<u8>) -> bool {
    &&& targets_uniform(b)
    &&& links_ok(b)
    &&& work_ok(b)
}

/// Relies on `RawHeader::digest`: the double-SHA-256 of the 80 header
/// bytes, a function of those bytes alone.
#[verifier::external_body]
pub(crate) fn header_digest(h: &[u8]) -> (d: [u8; 32])
    requires
        h@.len() == 80,
    ensures
        d@ == digest_of(h@),
{
    let raw = bitcoin_spv::types::RawHeader::new(&h).unwrap();
    *raw.digest().as_ref()
}

/// Relies on `HeaderArray::new` and `HeaderArray::valid_difficulty`: the
/// array parses when its length is a multiple of 80, and validates when
/// every header carries the first header's target, names its predecessor's
/// digest, and proves work against that target. The representability
/// precondition keeps the library's 256-bit target expansion from
/// overflowing.
#[verifier::external_body]
pub(crate) fn validate_chain(b: &[u8]) -> (r: Result<(), RelayError>)
    requires
        b@.len() % 80 == 0,
        b@.len() > 0,
        forall|i: int| 0 <= i < num_chunks(b@) ==> target_representable(#[trigger] chunk(b@, i)),
    ensures
        r is Ok <==> chain_valid(b@),
        r is Err ==> (r->Err_0 == RelayError::UnexpectedDifficultyChange || r->Err_0
            == RelayError::InvalidChain || r->Err_0 == RelayError::InsufficientWork),
        r->Err_0 == RelayError::UnexpectedDifficultyChange ==> !targets_uniform(b@),
        r->Err_0 == RelayError::InvalidChain ==> !links_ok(b@),
        r->Err_0 == RelayError::InsufficientWork ==> !work_ok(b@),
{
    let headers = match bitcoin_spv::types::HeaderArray::new(b) {
        Ok(h) => h,
        Err(_) => return Err(RelayError::WrongLengthHeader),
    };
    match headers.valid_difficulty(true) {
        Ok(_) => Ok(()),
        Err(SPVError::UnexpectedDifficultyChange) => Err(
            RelayError::UnexpectedDifficultyChange,
        ),
        Err(SPVError::InvalidChain) => Err(RelayError::InvalidChain),
        Err(_) => Err(RelayError::InsufficientWork),
    }
}

/// Relies on `RawHeader::target` and `btcspv::retarget_algorithm`: the
/// retarget scales the old target by the elapsed time clamped to within a
/// factor of four of the two-week period, rounding down. The bound keeps
/// the library's 256-bit multiplication from overflowing.
#[verifier::external_body]
pub(crate) fn retarget(h: &[u8], t0: u32, t1: u32) -> (r: Vec<u8>)
    requires
        h@.len() == 80,
        target_representable(h@),
        t0 <= t1,
        header_target(h@) * spec_clamped_elapsed(t0 as nat, t1 as nat) < pow256(32),
    ensures
        r@.len() == 32,
        le_nat(r@) == spec_retarget(header_target(h@), t0 as nat, t1 as nat),
{
    let raw = bitcoin_spv::types::RawHeader::new(&h).unwrap();
    let new_target = bitcoin_spv::btcspv::retarget_algorithm(&raw.target(), t0, t1);
    let mut out = [0u8; 32];
    new_target.to_little_endian(&mut out);
    out.to_vec()
}

/// Relies on `RawHeader::difficulty`: the difficulty-one target divided by
/// the header's expanded target, rounding down.
#[verifier::external_body]
pub(crate) fn difficulty(h: &[u8]) -> (r: Vec<u8>)
    requires
        h@.len() == 80,
        target_representable(h@),
        header_target(h@) >= 1,
    ensures
        r@.len() == 32,
        le_nat(r@) == header_difficulty(h@),
{
    let raw = bitcoin_spv::types::RawHeader::new(&h).unwrap();
    let mut out = [0u8; 32];
    raw.difficulty().to_little_endian(&mut out);
    out.to_vec()
}

/// A parsed confirming header, as plain values.
pub struct BitcoinHeader {
    /// The claimed double-SHA-256 digest of `raw`, little-endian.
    pub hash: [u8; 32],
    /// The 80 raw header bytes.
    pub raw: Vec<u8>,
    /// The claimed height of the header.
    pub height: u32,
    /// The claimed digest of the parent header.
    pub prevhash: [u8; 32],
    /// The claimed transaction merkle root.
    pub merkle_root: [u8; 32],
}

/// An SPV inclusion proof for a confirmed transaction, as plain values.
pub struct SPVProof {
    /// The 4-byte little-endian version number.
    pub version: Vec<u8>,
    /// The length-prefixed transaction input vector.
    pub vin: Vec<u8>,
    /// The length-prefixed transaction output vector.
    pub vout: Vec<u8>,
    /// The 4-byte little-endian locktime.
    pub locktime: Vec<u8>,
    /// The transaction id.
    pub tx_id: [u8; 32],
    /// The transaction's index in the block.
    pub index: u32,
    /// The confirming header.
    pub confirming_header: BitcoinHeader,
    /// The intermediate digests of the merkle proof.
    pub intermediate_nodes: Vec<u8>,
}

/// The declaration of the header-validation library's error type, so that
/// trusted items may return it.
#[verifier::external_type_specification]
#[verifier::external_body]
pub struct ExSpvError(SPVError);

/// The byte width of a compact integer's data, from its flag byte.
pub open spec fn compact_data_width(flag: u8) -> nat {
    if flag == 0xfd {
        2
    } else if flag == 0xfe {
        4
    } else if flag == 0xff {
        8
    } else {
        0
    }
}

/// The value of the compact integer starting at `pos`.
pub open spec fn compact_int_value(b: Seq<u8>, pos: int) -> nat
    recommends
        0 <= pos < b.len(),
        pos + 1 + compact_data_width(b[pos]) <= b.len(),
{
    if compact_data_width(b[pos]) == 0 {
        b[pos] as nat
    } else {
        le_nat(b.subrange(pos + 1, pos + 1 + compact_data_width(b[pos])))
    }
}

/// The canonical serialized width of a compact integer of value `v`. The
/// library skips fields by this width of the parsed value, not by the
/// width actually read.
pub open spec fn compact_serialized_width(v: nat) -> nat {
    if v <= 0xfc {
        1
    } else if v <= 0xffff {
        3
    } else if v <= 0xffffffff {
        5
    } else {
        9
    }
}

/// The largest script-length field the proof wrapper admits: far above
/// any real script, yet small enough that the library's `usize` length
/// arithmetic cannot overflow while skipping the field.
pub open spec fn script_length_limit() -> nat {
    0x2000000
}

/// Every scriptsig length field that the library's input walk reads is
/// within [`script_length_limit`]. Positions where the walk stops with an
/// error need no bound.
pub open spec fn input_scan_bounded(b: Seq<u8>, offset: int, remaining: nat) -> bool
    decreases remaining,
{
    remaining == 0 || offset >= b.len() || offset + 37 > b.len() || {
        let p = offset + 36;
        let w = compact_data_width(b[p]);
        p + 1 + w > b.len() || {
            let v = compact_int_value(b, p);
            &&& v <= script_length_limit()
            &&& input_scan_bounded(
                b,
                offset + 40 + compact_serialized_width(v) + v,
                (remaining - 1) as nat,
            )
        }
    }
}

/// Every scriptpubkey length field that the library's output walk reads
/// is within [`script_length_limit`].
pub open spec fn output_scan_bounded(b: Seq<u8>, offset: int, remaining: nat) -> bool
    decreases remaining,
{
    remaining == 0 || offset >= b.len() || offset + 9 > b.len() || {
        let p = offset + 8;
        let w = compact_data_width(b[p]);
        p + 1 + w > b.len() || {
            let v = compact_int_value(b, p);
            &&& v <= script_length_limit()
            &&& output_scan_bounded(
                b,
                offset + 8 + compact_serialized_width(v) + v,
                (remaining - 1) as nat,
            )
        }
    }
}

/// A transaction input vector whose length fields the library's walk can
/// skip without its `usize` arithmetic overflowing.
pub open spec fn vin_lengths_bounded(b: Seq<u8>) -> bool
    recommends
        b.len() >= 1,
{
    1 + compact_data_width(b[0]) > b.len() || {
        let n = compact_int_value(b, 0);
        input_scan_bounded(b, compact_serialized_width(n) as int, n)
    }
}

/// A transaction output vector whose length fields the library's walk can
/// skip without its `usize` arithmetic overflowing.
pub open spec fn vout_lengths_bounded(b: Seq<u8>) -> bool
    recommends
        b.len() >= 1,
{
    1 + compact_data_width(b[0]) > b.len() || {
        let n = compact_int_value(b, 0);
        output_scan_bounded(b, compact_serialized_width(n) as int, n)
    }
}

/// Whether the header-validation library accepts an SPV proof with these
/// fields: the transaction encoding, the transaction id, the confirming
/// header's internal consistency, and the merkle inclusion proof. The
/// outcome is a function of these fields alone (the claimed height takes
/// no part in it); nothing in this crate states what it is on given
/// values.
pub uninterp spec fn spv_proof_accepted(
    version: Seq<u8>,
    vin: Seq<u8>,
    vout: Seq<u8>,
    locktime: Seq<u8>,
    tx_id: Seq<u8>,
    index: u32,
    hash: Seq<u8>,
    raw: Seq<u8>,
    prevhash: Seq<u8>,
    merkle_root: Seq<u8>,
    intermediate_nodes: Seq<u8>,
) -> bool;

/// [`spv_proof_accepted`] applied to a proof's fields.
pub open spec fn spec_proof_ok(p: &SPVProof) -> bool {
    spv_proof_accepted(
        p.version@,
        p.vin@,
        p.vout@,
        p.locktime@,
        p.tx_id@,
        p.index,
        p.confirming_header.hash@,
        p.confirming_header.raw@,
        p.confirming_header.prevhash@,
        p.confirming_header.merkle_root@,
        p.intermediate_nodes@,
    )
}

/// Relies on `SPVProof::validate`: it checks the transaction encoding, the
/// transaction id, the confirming header's internal consistency, and the
/// merkle inclusion proof, deciding acceptance from the fields alone. On
/// success the claimed header hash is the digest of the raw header bytes.
/// The preconditions keep the library's panics out: the fixed-size copies
/// of `version` and `locktime`, the unchecked first-byte reads of the
/// transaction vectors, and the `usize` arithmetic with which its walks
/// skip script-length fields, which overflows under a crafted
/// near-maximal length field when overflow checks are on.
#[verifier::external_body]
pub(crate) fn spv_proof_validate(p: &SPVProof) -> (r: Result<(), SPVError>)
    requires
        p.version@.len() == 4,
        p.locktime@.len() == 4,
        p.confirming_header.raw@.len() == 80,
        p.vin@.len() >= 1,
        p.vout@.len() >= 1,
        p.vin@.len() <= 0x40000000,
        p.vout@.len() <= 0x40000000,
        vin_lengths_bounded(p.vin@),
        vout_lengths_bounded(p.vout@),
    ensures
        r is Ok <==> spv_proof_accepted(
            p.version@,
            p.vin@,
            p.vout@,
            p.locktime@,
            p.tx_id@,
            p.index,
            p.confirming_header.hash@,
            p.confirming_header.raw@,
            p.confirming_header.prevhash@,
            p.confirming_header.merkle_root@,
            p.intermediate_nodes@,
        ),
        r is Ok ==> p.confirming_header.hash@ == digest_of(p.confirming_header.raw@),
{
    let c = &p.confirming_header;
    let confirming_header = bitcoin_spv::std_types::BitcoinHeader {
        hash: c.hash.into(), raw: bitcoin_spv::types::RawHeader::new(&c.raw).unwrap(),
        height: c.height, prevhash: c.prevhash.into(), merkle_root: c.merkle_root.into(),
    };
    let proof = bitcoin_spv::std_types::SPVProof {
        version: p.version.clone(), vin: p.vin.clone(), vout: p.vout.clone(),
        locktime: p.locktime.clone(), tx_id: p.tx_id.into(), index: p.index,
        confirming_header, intermediate_nodes: p.intermediate_nodes.clone(),
    };
    proof.validate()
}

/// Relies on the variant correspondence between the library's error type
/// and [`RelayError`]: each proof-validation failure maps to the relay
/// error of the same name.
#[verifier::external_body]
pub(crate) fn spv_error_to_relay(e: SPVError) -> (r: RelayError)
    ensures
        r == RelayError::InvalidVin || r == RelayError::InvalidVout || r
            == RelayError::WrongTxID || r == RelayError::WrongDigest || r
            == RelayError::WrongMerkleRoot || r == RelayError::WrongPrevHash || r
            == RelayError::BadMerkleProof || r == RelayError::UnknownError,
{
    match e {
        SPVError::InvalidVin => RelayError::InvalidVin,
        SPVError::InvalidVout => RelayError::InvalidVout,
        SPVError::WrongTxID => RelayError::WrongTxID,
        SPVError::WrongDigest => RelayError::WrongDigest,
        SPVError::WrongMerkleRoot => RelayError::WrongMerkleRoot,
        SPVError::WrongPrevHash => RelayError::WrongPrevHash,
        SPVError::BadMerkleProof => RelayError::BadMerkleProof,
        _ => RelayError::UnknownError,
    }
}

} // verus!
