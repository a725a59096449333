//! A Bitcoin SPV relay core.
//!
//! The relay keeps a bounded store of recent Bitcoin block-header metadata and
//! lets callers extend the known chain, validate difficulty retargets, promote
//! a heavier chain tip, and check confirmation proofs against the current tip.

pub mod error;
pub mod fake_vec;
pub mod header;
pub mod relay;
pub mod spv;
pub mod state;

pub use error::RelayError;
pub use error::SolanaRelayError;
pub use fake_vec::FakeVec;
pub use relay::HeaderInfo;
pub use relay::RawWithInfo;
pub use relay::Relay;
pub use spv::BitcoinHeader;
pub use spv::SPVProof;
pub use state::RelayInstruction;
pub use state::State;
