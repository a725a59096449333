//! Error types for the relay core and for the host binding around it.

use vstd::prelude::*;

verus! {

/// Errors that may be returned by the relay core.
///
/// The first block of variants is produced by the relay's own rules; the
/// remaining ones mirror the failures of the header-validation library.
#[derive(Clone, Copy, Debug, PartialEq, Eq, Structural)]
pub enum RelayError {
    /// A difficulty change mismatch occured while adding headers
    IncorrectDifficultyChange,
    /// Failed to update to new heaviest header because new digest is not heavier
    NotHeavier,
    /// Failed to update to new heaviest header because a later ancestor was found
    NotLatestAncestor,
    /// Confirming header of an SPV Proof is not confirmed by the chain tip
    NotInBestChain,
    /// Confirming header of an SPV Proof is too deep to read
    TooDeep,
    /// A difficulty change was submitted whose anchor does not end an epoch
    WrongEnd,
    /// Overran a checked read on a slice
    ReadOverrun,
    /// Attempted to parse a CompactInt without enough bytes
    BadCompactInt,
    /// Called `extract_op_return_data` on an output without an op_return.
    MalformattedOpReturnOutput,
    /// `extract_hash` identified a SH output prefix without a SH postfix.
    MalformattedP2SHOutput,
    /// `extract_hash` identified a PKH output prefix without a PKH postfix.
    MalformattedP2PKHOutput,
    /// `extract_hash` identified a Witness output with a bad length tag.
    MalformattedWitnessOutput,
    /// `extract_hash` could not identify the output type.
    MalformattedOutput,
    /// Header not exactly 80 bytes.
    WrongLengthHeader,
    /// Header chain changed difficulties unexpectedly
    UnexpectedDifficultyChange,
    /// Header does not meet its own difficulty target.
    InsufficientWork,
    /// Header in chain does not correctly reference parent header.
    InvalidChain,
    /// A claimed digest does not match the digest of the raw header.
    WrongDigest,
    /// The `merkle_root` field does not match the root found in the raw header.
    WrongMerkleRoot,
    /// The `prevhash` field does not match the parent hash in the raw header.
    WrongPrevHash,
    /// A `vin` (transaction input vector) is malformatted.
    InvalidVin,
    /// A `vout` (transaction output vector) is malformatted.
    InvalidVout,
    /// The `tx_id` field is not the digest of the transaction fields.
    WrongTxID,
    /// The `intermediate_nodes` are not a valid merkle proof.
    BadMerkleProof,
    /// TxOut's reported length does not match passed-in byte slice's length
    OutputLengthMismatch,
    /// Any other error
    UnknownError,
}

/// Errors that may be returned by the host binding.
///
/// These extend [`RelayError`] with the host's own state-management failures.
#[derive(Clone, Copy, Debug, PartialEq, Eq, Structural)]
pub enum SolanaRelayError {
    /// Relay is not yet init
    NotYetInit,
    /// Relay is already init
    AlreadyInit,
    /// State account has insufficient space to update the state
    InsufficientStateSpace,
    /// A difficulty change mismatch occured while adding headers
    IncorrectDifficultyChange,
    /// Failed to update to new heaviest header because new digest is not heavier
    NotHeavier,
    /// Failed to update to new heaviest header because a later ancestor was found
    NotLatestAncestor,
    /// Confirming header of an SPV Proof is not confirmed by the chain tip
    NotInBestChain,
    /// Confirming header of an SPV Proof is too deep to read
    TooDeep,
    /// A difficulty change was submitted whose anchor does not end an epoch
    WrongEnd,
    /// Overran a checked read on a slice
    ReadOverrun,
    /// Attempted to parse a CompactInt without enough bytes
    BadCompactInt,
    /// Called `extract_op_return_data` on an output without an op_return.
    MalformattedOpReturnOutput,
    /// `extract_hash` identified a SH output prefix without a SH postfix.
    MalformattedP2SHOutput,
    /// `extract_hash` identified a PKH output prefix without a PKH postfix.
    MalformattedP2PKHOutput,
    /// `extract_hash` identified a Witness output with a bad length tag.
    MalformattedWitnessOutput,
    /// `extract_hash` could not identify the output type.
    MalformattedOutput,
    /// Header not exactly 80 bytes.
    WrongLengthHeader,
    /// Header chain changed difficulties unexpectedly
    UnexpectedDifficultyChange,
    /// Header does not meet its own difficulty target.
    InsufficientWork,
    /// Header in chain does not correctly reference parent header.
    InvalidChain,
    /// A claimed digest does not match the digest of the raw header.
    WrongDigest,
    /// The `merkle_root` field does not match the root found in the raw header.
    WrongMerkleRoot,
    /// The `prevhash` field does not match the parent hash in the raw header.
    WrongPrevHash,
    /// A `vin` (transaction input vector) is malformatted.
    InvalidVin,
    /// A `vout` (transaction output vector) is malformatted.
    InvalidVout,
    /// The `tx_id` field is not the digest of the transaction fields.
    WrongTxID,
    /// The `intermediate_nodes` are not a valid merkle proof.
    BadMerkleProof,
    /// TxOut's reported length does not match passed-in byte slice's length
    OutputLengthMismatch,
    /// Any other error
    UnknownError,
}

/// The mapping from core errors to host-binding errors, as a specification.
pub open spec fn spec_relay_to_solana_error(e: RelayError) -> SolanaRelayError {
    match e {
        RelayError::IncorrectDifficultyChange => SolanaRelayError::IncorrectDifficultyChange,
        RelayError::NotHeavier => SolanaRelayError::NotHeavier,
        RelayError::NotLatestAncestor => SolanaRelayError::NotLatestAncestor,
        RelayError::NotInBestChain => SolanaRelayError::NotInBestChain,
        RelayError::TooDeep => SolanaRelayError::TooDeep,
        RelayError::WrongEnd => SolanaRelayError::WrongEnd,
        RelayError::ReadOverrun => SolanaRelayError::ReadOverrun,
        RelayError::BadCompactInt => SolanaRelayError::BadCompactInt,
        RelayError::MalformattedOpReturnOutput => SolanaRelayError::MalformattedOpReturnOutput,
        RelayError::MalformattedP2SHOutput => SolanaRelayError::MalformattedP2SHOutput,
        RelayError::MalformattedP2PKHOutput => SolanaRelayError::MalformattedP2PKHOutput,
        RelayError::MalformattedWitnessOutput => SolanaRelayError::MalformattedWitnessOutput,
        RelayError::MalformattedOutput => SolanaRelayError::MalformattedOutput,
        RelayError::WrongLengthHeader => SolanaRelayError::WrongLengthHeader,
        RelayError::UnexpectedDifficultyChange => SolanaRelayError::UnexpectedDifficultyChange,
        RelayError::InsufficientWork => SolanaRelayError::InsufficientWork,
        RelayError::InvalidChain => SolanaRelayError::InvalidChain,
        RelayError::WrongDigest => SolanaRelayError::WrongDigest,
        RelayError::WrongMerkleRoot => SolanaRelayError::WrongMerkleRoot,
        RelayError::WrongPrevHash => SolanaRelayError::WrongPrevHash,
        RelayError::InvalidVin => SolanaRelayError::InvalidVin,
        RelayError::InvalidVout => SolanaRelayError::InvalidVout,
        RelayError::WrongTxID => SolanaRelayError::WrongTxID,
        RelayError::BadMerkleProof => SolanaRelayError::BadMerkleProof,
        RelayError::OutputLengthMismatch => SolanaRelayError::OutputLengthMismatch,
        RelayError::UnknownError => SolanaRelayError::UnknownError,
    }
}

impl From<RelayError> for SolanaRelayError {
    fn from(e: RelayError) -> (r: SolanaRelayError) {
        match e {
            RelayError::IncorrectDifficultyChange => SolanaRelayError::IncorrectDifficultyChange,
            RelayError::NotHeavier => SolanaRelayError::NotHeavier,
            RelayError::NotLatestAncestor => SolanaRelayError::NotLatestAncestor,
            RelayError::NotInBestChain => SolanaRelayError::NotInBestChain,
            RelayError::TooDeep => SolanaRelayError::TooDeep,
            RelayError::WrongEnd => SolanaRelayError::WrongEnd,
            RelayError::ReadOverrun => SolanaRelayError::ReadOverrun,
            RelayError::BadCompactInt => SolanaRelayError::BadCompactInt,
            RelayError::MalformattedOpReturnOutput => {
                SolanaRelayError::MalformattedOpReturnOutput
            },
            RelayError::MalformattedP2SHOutput => SolanaRelayError::MalformattedP2SHOutput,
            RelayError::MalformattedP2PKHOutput => SolanaRelayError::MalformattedP2PKHOutput,
            RelayError::MalformattedWitnessOutput => SolanaRelayError::MalformattedWitnessOutput,
            RelayError::MalformattedOutput => SolanaRelayError::MalformattedOutput,
            RelayError::WrongLengthHeader => SolanaRelayError::WrongLengthHeader,
            RelayError::UnexpectedDifficultyChange => {
                SolanaRelayError::UnexpectedDifficultyChange
            },
            RelayError::InsufficientWork => SolanaRelayError::InsufficientWork,
            RelayError::InvalidChain => SolanaRelayError::InvalidChain,
            RelayError::WrongDigest => SolanaRelayError::WrongDigest,
            RelayError::WrongMerkleRoot => SolanaRelayError::WrongMerkleRoot,
            RelayError::WrongPrevHash => SolanaRelayError::WrongPrevHash,
            RelayError::InvalidVin => SolanaRelayError::InvalidVin,
            RelayError::InvalidVout => SolanaRelayError::InvalidVout,
            RelayError::WrongTxID => SolanaRelayError::WrongTxID,
            RelayError::BadMerkleProof => SolanaRelayError::BadMerkleProof,
            RelayError::OutputLengthMismatch => SolanaRelayError::OutputLengthMismatch,
            RelayError::UnknownError => SolanaRelayError::UnknownError,
        }
    }
}

impl vstd::std_specs::convert::FromSpecImpl<RelayError> for SolanaRelayError {
    open spec fn obeys_from_spec() -> bool {
        true
    }

    open spec fn from_spec(e: RelayError) -> SolanaRelayError {
        spec_relay_to_solana_error(e)
    }
}

} // verus!
