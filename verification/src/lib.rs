//! Consensus-processing core of a federated mint.
//!
//! The crate holds the deterministic part of epoch processing: admission of
//! client requests into the pending pool, the conflict filter over an agreed
//! epoch outcome, the per-item decisions of the executor, the finalization of
//! threshold signatures, and the model of the item store that these act on.
//! Cryptography, the wallet and durable storage are collaborators: their
//! answers enter as plain values, and every function here is a function of
//! its arguments.

pub mod cli;
pub mod config;
pub mod consensus;
pub mod epoch;
pub mod execute;
pub mod filter;
pub mod finalize;
pub mod item;
pub mod laws;
pub mod store;
pub mod tally;
pub mod validate;

pub use cli::{CliError, CliErrorKind, ModuleSelector, ModuleSelectorError};
pub use config::ServerConfig;
pub use consensus::FediMintConsensus;
pub use execute::{ItemResponse, RecordOp};
pub use filter::{filter_conflicts, Contribution};
pub use item::{
    BlindToken, ClientRequest, Coin, ConsensusItem, ConsensusOutcome, PartialSigResponse, PeerId,
    PegInProof, PegInRequest, PegOutRequest, ReissuanceRequest, TransactionId,
    WalletConsensusItem,
};
pub use store::{BatchItem, DbBatch, DbKey, Entry, ItemStore};
pub use validate::{ClientRequestError, InvalidAmountTierError, MintError, RequestChecks};
