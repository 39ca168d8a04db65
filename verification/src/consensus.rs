//! The consensus engine of one node: its configuration and its store.

use crate::config::{threshold_of, ServerConfig};
use crate::store::{ItemStore, StoreView};
use vstd::prelude::*;

verus! {

/// The consensus-processing core of one node.
///
/// It admits client requests, executes the outcome of each epoch and
/// finalizes signatures. What the mint, the wallet and the signature check
/// answer is handed to it; it decides what is written.
#[derive(Debug)]
pub struct FediMintConsensus {
    /// The configuration of this node.
    pub cfg: ServerConfig,
    /// The store into which all state is persisted.
    pub db: ItemStore,
}

impl FediMintConsensus {
    /// An engine with an empty store.
    pub fn new(cfg: ServerConfig) -> (engine: Self)
        ensures
            engine.cfg == cfg,
            engine.db@ == StoreView::empty(),
    {
        FediMintConsensus { cfg, db: ItemStore::new() }
    }

    /// The signing threshold of the federation: a request is finalized once
    /// more peers than this have contributed a share.
    pub fn tbs_threshold(&self) -> (t: usize)
        ensures
            t == threshold_of(self.cfg.peers@.len()),
    {
        self.cfg.tbs_threshold()
    }
}

} // verus!
