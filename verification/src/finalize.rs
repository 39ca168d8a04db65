//! The signature finalizer: from the shares of a request to its complete
//! signature.
//!
//! A request is ready once it is not finalized and more peers than the
//! threshold have a share stored for it. The mint combines the shares of a
//! ready request; where it succeeds, the request is finalized: its pending
//! items and its shares leave the store and the signature enters it.

use crate::config::threshold_of;
use crate::consensus::FediMintConsensus;
use crate::execute::{bytes_option_view, extend_batch};
use crate::item::{
    bytes_clone, bytes_eq, lemma_bytes_deep_view, lemma_deep_view_push, ConsensusItemView,
    PartialSigResponse, PeerId, TransactionId,
};
use crate::store::{BatchItem, BatchItemView, DbBatch, DbKey, DbKeyView, Entry, StoreView};
use vstd::prelude::*;

verus! {

/// The shares of one request, each with its peer.
pub type ShareGroup = (TransactionId, Vec<(PeerId, PartialSigResponse)>);

/// The value of a [`ShareGroup`].
pub type ShareGroupView = (Seq<u8>, Seq<(u16, Seq<u8>)>);

/// What the mint made of the shares of one request: the request, and the
/// complete signature where the shares combined.
pub type Combined = (TransactionId, Option<Vec<u8>>);

/// The value of a [`Combined`].
pub type CombinedView = (Seq<u8>, Option<Seq<u8>>);

/// The values of a list of combination results.
pub open spec fn combined_view(combined: Seq<Combined>) -> Seq<CombinedView> {
    combined.map_values(|c: Combined| (c.0@, bytes_option_view(c.1)))
}

/// The list without repetitions: each identifier where it first occurs.
pub open spec fn distinct(ids: Seq<Seq<u8>>) -> Seq<Seq<u8>>
    decreases ids.len(),
{
    if ids.len() == 0 {
        Seq::empty()
    } else {
        let before = distinct(ids.drop_last());
        if before.contains(ids.last()) {
            before
        } else {
            before.push(ids.last())
        }
    }
}

/// Whether the request can be finalized: it is not finalized, and more
/// peers than the threshold have a share stored for it.
pub open spec fn ready(store: StoreView, threshold: nat, id: Seq<u8>) -> bool {
    !store.is_finalized(id) && store.shares_of(id).len() > threshold
}

/// The ready ones among the requests of a list, each with its shares.
pub open spec fn ready_among(store: StoreView, threshold: nat, ids: Seq<Seq<u8>>) -> Seq<
    ShareGroupView,
>
    decreases ids.len(),
{
    if ids.len() == 0 {
        Seq::empty()
    } else {
        let before = ready_among(store, threshold, ids.drop_last());
        if ready(store, threshold, ids.last()) {
            before.push((ids.last(), store.shares_of(ids.last())))
        } else {
            before
        }
    }
}

/// The requests that can be finalized, each once and with its shares, in the
/// order in which the store holds their first share.
pub open spec fn finalization_candidates(store: StoreView, threshold: nat) -> Seq<ShareGroupView> {
    ready_among(store, threshold, distinct(store.share_requests()))
}

/// The removal of items from the pending pool.
pub open spec fn delete_pending_ops(items: Seq<ConsensusItemView>) -> Seq<BatchItemView> {
    items.map_values(|item: ConsensusItemView| BatchItemView::Delete(DbKeyView::Pending(item)))
}

/// The removal of the shares of a request.
pub open spec fn delete_share_ops(id: Seq<u8>, shares: Seq<(u16, Seq<u8>)>) -> Seq<BatchItemView> {
    shares.map_values(
        |share: (u16, Seq<u8>)| BatchItemView::Delete(DbKeyView::PartialSignature(id, share.0)),
    )
}

/// What the finalization of one request writes. It writes only if the shares
/// combined and the request is ready: then the pending items of the request
/// and all its shares are removed, and the complete signature is stored.
pub open spec fn finalize_ops(
    store: StoreView,
    threshold: nat,
    id: Seq<u8>,
    signature: Option<Seq<u8>>,
) -> Seq<BatchItemView> {
    if signature is Some && ready(store, threshold, id) {
        delete_pending_ops(store.pending_for(id)) + delete_share_ops(id, store.shares_of(id))
            + seq![BatchItemView::InsertNew((DbKeyView::FinalizedSignature(id), signature->0))]
    } else {
        Seq::empty()
    }
}

/// What the finalization of the first `n` requests of a list writes. Each
/// is decided against the store as it was before the finalization began.
pub open spec fn finalization_ops(
    store: StoreView,
    threshold: nat,
    combined: Seq<CombinedView>,
    n: nat,
) -> Seq<BatchItemView>
    decreases n,
{
    if n == 0 {
        Seq::empty()
    } else {
        finalization_ops(store, threshold, combined, (n - 1) as nat) + finalize_ops(
            store,
            threshold,
            combined[n - 1].0,
            combined[n - 1].1,
        )
    }
}

/// Whether the list holds the identifier.
fn holds(ids: &Vec<TransactionId>, id: &TransactionId) -> (r: bool)
    ensures
        r == ids.deep_view().contains(id@),
{
    broadcast use lemma_bytes_deep_view;

    let mut i: usize = 0;
    while i < ids.len()
        invariant
            i <= ids.len(),
            forall|j: int| 0 <= j < i ==> ids.deep_view()[j] != id@,
        decreases ids.len() - i,
    {
        proof {
            lemma_bytes_deep_view(ids[i as int]);
            assert(ids.deep_view()[i as int] == ids[i as int]@);
        }
        if bytes_eq(&ids[i], id) {
            return true;
        }
        i += 1;
    }
    false
}

/// The list without repetitions: each identifier where it first occurs.
pub fn dedup_ids(ids: &Vec<TransactionId>) -> (unique: Vec<TransactionId>)
    ensures
        unique.deep_view() == distinct(ids.deep_view()),
{
    broadcast use lemma_bytes_deep_view;

    let mut unique: Vec<TransactionId> = Vec::new();
    let mut i: usize = 0;
    while i < ids.len()
        invariant
            i <= ids.len(),
            unique.deep_view() == distinct(ids.deep_view().take(i as int)),
        decreases ids.len() - i,
    {
        proof {
            assert(ids.deep_view().take(i + 1).drop_last() == ids.deep_view().take(i as int));
            lemma_bytes_deep_view(ids[i as int]);
            assert(ids.deep_view()[i as int] == ids[i as int]@);
        }
        if !holds(&unique, &ids[i]) {
            let ghost shorter = unique;
            unique.push(bytes_clone(&ids[i]));
            proof {
                lemma_deep_view_push(shorter, unique, unique@.last());
            }
        }
        i += 1;
    }
    proof {
        assert(ids.deep_view().take(i as int) == ids.deep_view());
    }
    unique
}

impl FediMintConsensus {
    /// Whether the request can be finalized.
    pub fn is_ready(&self, id: &TransactionId) -> (r: bool)
        ensures
            r == ready(self.db@, threshold_of(self.cfg.peers@.len()), id@),
    {
        !self.db.is_finalized(id) && self.db.shares_of(id).len() > self.cfg.tbs_threshold()
    }

    /// The requests that can be finalized, each with its shares: what the
    /// mint is asked to combine.
    pub fn finalization_candidates(&self) -> (groups: Vec<ShareGroup>)
        ensures
            groups.deep_view() == finalization_candidates(
                self.db@,
                threshold_of(self.cfg.peers@.len()),
            ),
    {
        broadcast use lemma_bytes_deep_view;

        let ids = dedup_ids(&self.db.share_requests());
        let ghost threshold = threshold_of(self.cfg.peers@.len());
        let mut groups: Vec<ShareGroup> = Vec::new();
        let mut i: usize = 0;
        while i < ids.len()
            invariant
                i <= ids.len(),
                threshold == threshold_of(self.cfg.peers@.len()),
                groups.deep_view() == ready_among(
                    self.db@,
                    threshold,
                    ids.deep_view().take(i as int),
                ),
            decreases ids.len() - i,
        {
            proof {
                assert(ids.deep_view().take(i + 1).drop_last() == ids.deep_view().take(i as int));
                lemma_bytes_deep_view(ids[i as int]);
            assert(ids.deep_view()[i as int] == ids[i as int]@);
            }
            if self.is_ready(&ids[i]) {
                let ghost shorter = groups;
                groups.push((bytes_clone(&ids[i]), self.db.shares_of(&ids[i])));
                proof {
                    lemma_deep_view_push(shorter, groups, groups@.last());
                }
            }
            i += 1;
        }
        proof {
            assert(ids.deep_view().take(i as int) == ids.deep_view());
        }
        groups
    }

    /// Decides what the finalization of one request writes, given the
    /// complete signature where the mint could combine the shares. The
    /// result depends on the request, the signature and the store alone.
    pub fn finalize_request(&self, id: &TransactionId, signature: &Option<Vec<u8>>) -> (batch:
        DbBatch)
        ensures
            batch.deep_view() == finalize_ops(
                self.db@,
                threshold_of(self.cfg.peers@.len()),
                id@,
                bytes_option_view(*signature),
            ),
    {
        let mut batch: DbBatch = Vec::new();
        let complete = match signature {
            Some(s) => s,
            None => {
                return batch;
            },
        };
        if !self.is_ready(id) {
            return batch;
        }
        let pending = self.db.pending_for(id);
        let mut i: usize = 0;
        while i < pending.len()
            invariant
                i <= pending.len(),
                batch.deep_view() == delete_pending_ops(pending.deep_view().take(i as int)),
            decreases pending.len() - i,
        {
            let ghost shorter = batch;
            batch.push(BatchItem::Delete(DbKey::Pending(pending[i].clone())));
            proof {
                lemma_deep_view_push(shorter, batch, batch@.last());
                assert(batch.deep_view() =~= delete_pending_ops(
                    pending.deep_view().take(i + 1),
                ));
            }
            i += 1;
        }
        proof {
            assert(pending.deep_view().take(i as int) == pending.deep_view());
        }
        let shares = self.db.shares_of(id);
        let ghost head = batch.deep_view();
        let mut j: usize = 0;
        while j < shares.len()
            invariant
                j <= shares.len(),
                batch.deep_view() == head + delete_share_ops(
                    id@,
                    shares.deep_view().take(j as int),
                ),
            decreases shares.len() - j,
        {
            let ghost shorter = batch;
            batch.push(BatchItem::Delete(DbKey::PartialSignature(bytes_clone(id), shares[j].0)));
            proof {
                lemma_deep_view_push(shorter, batch, batch@.last());
                assert(batch.deep_view() =~= head + delete_share_ops(
                    id@,
                    shares.deep_view().take(j + 1),
                ));
            }
            j += 1;
        }
        proof {
            assert(shares.deep_view().take(j as int) == shares.deep_view());
        }
        let ghost shorter = batch;
        let key = DbKey::FinalizedSignature(bytes_clone(id));
        batch.push(BatchItem::InsertNew(Entry { key, value: bytes_clone(complete) }));
        proof {
            lemma_deep_view_push(shorter, batch, batch@.last());
            assert(batch.deep_view() =~= finalize_ops(
                self.db@,
                threshold_of(self.cfg.peers@.len()),
                id@,
                bytes_option_view(*signature),
            ));
        }
        batch
    }

    /// Finalizes signatures. `combined` holds what the mint made of the
    /// shares of each request it was asked to combine. Every request of the
    /// list that is ready and whose shares combined is finalized; the others
    /// are left as they are, to be tried again when more shares have come.
    /// All writes form one batch, which is applied to the store and returned.
    pub fn finalize_signatures(&mut self, combined: &Vec<Combined>) -> (batch: DbBatch)
        ensures
            batch.deep_view() == finalization_ops(
                old(self).db@,
                threshold_of(old(self).cfg.peers@.len()),
                combined_view(combined@),
                combined@.len(),
            ),
            final(self).db@ == old(self).db@.apply_batch(batch.deep_view()),
            final(self).cfg == old(self).cfg,
    {
        let mut batch: DbBatch = Vec::new();
        assert(batch.deep_view() =~= Seq::empty());
        let mut i: usize = 0;
        while i < combined.len()
            invariant
                i <= combined.len(),
                *self == *old(self),
                batch.deep_view() == finalization_ops(
                    self.db@,
                    threshold_of(self.cfg.peers@.len()),
                    combined_view(combined@),
                    i as nat,
                ),
            decreases combined.len() - i,
        {
            let fragment = self.finalize_request(&combined[i].0, &combined[i].1);
            extend_batch(&mut batch, fragment);
            i += 1;
        }
        self.db.apply_batch(&batch);
        batch
    }
}

} // verus!
