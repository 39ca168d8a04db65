//! The course of an epoch: admission to the pending pool, the proposal of
//! this node, and the execution of an agreed outcome in one batch.

use crate::consensus::FediMintConsensus;
use crate::execute::{
    bytes_option_view, extend_batch, item_ops, record_batch, record_ops, ItemResponse,
    ItemResponseView, RecordOp, RecordOpView,
};
use crate::filter::{filter_conflicts, flatten, flattened, survivors, ContributionView};
use crate::item::{
    bytes_clone, lemma_bytes_deep_view, lemma_deep_view_push, ClientRequest, ClientRequestView,
    ConsensusItem, ConsensusItemView, ConsensusOutcome, PeerId, WalletConsensusItem,
};
use crate::store::{
    BatchItem, BatchItemView, DbBatch, DbKey, DbKeyView, Entry, EntryView, StoreView,
};
use crate::validate::{result_is, validate_request, verdict, ClientRequestError, RequestChecks};
use vstd::prelude::*;

verus! {

/// The entry that holds an item in the pending pool.
pub open spec fn pending_entry(item: ConsensusItemView) -> EntryView {
    (DbKeyView::Pending(item), Seq::empty())
}

/// The store with the request in its pending pool.
pub open spec fn admitted(store: StoreView, request: ClientRequestView) -> StoreView {
    store.insert_new(pending_entry(ConsensusItemView::ClientRequest(request)))
}

/// The wallet item of a contribution with its peer, if it is one.
pub open spec fn wallet_item_of(c: ContributionView) -> Option<(u16, Seq<u8>)> {
    match c.1 {
        ConsensusItemView::Wallet(w) => Some((c.0, w)),
        _ => None,
    }
}

/// The wallet items of an outcome, each with its peer, in the order of the
/// outcome. They go to the wallet as they are, unfiltered.
pub open spec fn wallet_items(contributions: Seq<(u16, Seq<ConsensusItemView>)>) -> Seq<
    (u16, Seq<u8>),
> {
    flattened(contributions).filter_map(|c: ContributionView| wallet_item_of(c))
}

/// What the wallet's part of an epoch writes: the wallet's own writes, and
/// the item that it wants proposed, as a pending item.
pub open spec fn wallet_ops(records: Seq<RecordOpView>, item: Option<Seq<u8>>) -> Seq<
    BatchItemView,
> {
    record_ops(records) + match item {
        Some(w) => seq![BatchItemView::InsertNew(pending_entry(ConsensusItemView::Wallet(w)))],
        None => Seq::empty(),
    }
}

/// The answers for the item at a place. Where the list of answers ends
/// before the place, the answers are missing.
pub open spec fn response_at(responses: Seq<ItemResponseView>, i: int) -> ItemResponseView {
    if 0 <= i < responses.len() {
        responses[i]
    } else {
        ItemResponseView::Nothing
    }
}

/// What the first `n` of the surviving items write, one after the other.
/// Each is executed against the store as it was when the epoch began.
pub open spec fn execution_ops(
    own: u16,
    fee: u64,
    store: StoreView,
    kept: Seq<ContributionView>,
    responses: Seq<ItemResponseView>,
    n: nat,
) -> Seq<BatchItemView>
    decreases n,
{
    if n == 0 {
        Seq::empty()
    } else {
        execution_ops(own, fee, store, kept, responses, (n - 1) as nat) + item_ops(
            own,
            fee,
            store,
            kept[n - 1].0,
            kept[n - 1].1,
            response_at(responses, n - 1),
        )
    }
}

/// The batch of an epoch: the wallet's part, then what the survivors of the
/// conflict filter write.
pub open spec fn epoch_ops(
    own: u16,
    fee: u64,
    store: StoreView,
    contributions: Seq<(u16, Seq<ConsensusItemView>)>,
    wallet_records: Seq<RecordOpView>,
    wallet_item: Option<Seq<u8>>,
    responses: Seq<ItemResponseView>,
) -> Seq<BatchItemView> {
    wallet_ops(wallet_records, wallet_item) + execution_ops(
        own,
        fee,
        store,
        survivors(contributions),
        responses,
        survivors(contributions).len(),
    )
}

/// The fragments of a batch, one after the other.
pub open spec fn merged(fragments: Seq<Seq<BatchItemView>>) -> Seq<BatchItemView>
    decreases fragments.len(),
{
    if fragments.len() == 0 {
        Seq::empty()
    } else {
        merged(fragments.drop_last()) + fragments.last()
    }
}

/// Joins the fragments of a batch in their order.
pub fn merge_fragments(fragments: Vec<DbBatch>) -> (batch: DbBatch)
    ensures
        batch.deep_view() == merged(fragments.deep_view()),
{
    let mut batch: DbBatch = Vec::new();
    let mut i: usize = 0;
    while i < fragments.len()
        invariant
            i <= fragments.len(),
            batch.deep_view() == merged(fragments.deep_view().take(i as int)),
        decreases fragments.len() - i,
    {
        proof {
            assert(fragments.deep_view().take(i + 1).drop_last() == fragments.deep_view().take(
                i as int,
            ));
        }
        extend_batch(&mut batch, fragments[i].clone());
        i += 1;
    }
    proof {
        assert(fragments.deep_view().take(i as int) == fragments.deep_view());
    }
    batch
}

/// The wallet items of an outcome, each with its peer.
pub fn wallet_contributions(outcome: &ConsensusOutcome) -> (items: Vec<
    (PeerId, WalletConsensusItem),
>)
    ensures
        items.deep_view() == wallet_items(outcome@.contributions),
{
    let flat = flatten(outcome);
    let ghost all = flat.deep_view();
    let mut items: Vec<(PeerId, WalletConsensusItem)> = Vec::new();
    let mut i: usize = 0;
    while i < flat.len()
        invariant
            i <= flat.len(),
            all == flat.deep_view(),
            items.deep_view() == all.take(i as int).filter_map(
                |c: ContributionView| wallet_item_of(c),
            ),
        decreases flat.len() - i,
    {
        proof {
            assert(all.take(i + 1).drop_last() == all.take(i as int));
            assert(all[i as int] == (flat[i as int].0, flat[i as int].1@));
        }
        match &flat[i].1 {
            ConsensusItem::Wallet(w) => {
                let ghost shorter = items;
                items.push((flat[i].0, bytes_clone(w)));
                proof {
                    broadcast use lemma_bytes_deep_view;

                    lemma_deep_view_push(shorter, items, items@.last());
                    let before = all.take(i as int).filter_map(
                        |c: ContributionView| wallet_item_of(c),
                    );
                    assert(before.push((flat[i as int].0, w@)) =~= before + seq![
                        (flat[i as int].0, w@),
                    ]);
                }
            },
            _ => {},
        }
        i += 1;
    }
    proof {
        assert(all.take(i as int) == all);
    }
    items
}

impl FediMintConsensus {
    /// The request validator. Admits the request to the pending pool if it
    /// passes the checks, and says why not otherwise. A request that is
    /// pending already stays as it is: submitting twice is submitting once.
    pub fn submit_client_request(&mut self, cr: ClientRequest, checks: RequestChecks) -> (r: Result<
        (),
        ClientRequestError,
    >)
        ensures
            result_is(r, verdict(cr@, checks@, old(self).cfg.tiers@)),
            r is Ok ==> final(self).db@ == admitted(old(self).db@, cr@),
            r is Err ==> final(self).db@ == old(self).db@,
            final(self).cfg == old(self).cfg,
    {
        match validate_request(&cr, checks, &self.cfg) {
            Ok(()) => {
                let key = DbKey::Pending(ConsensusItem::ClientRequest(cr));
                self.db.apply(BatchItem::InsertNew(Entry { key, value: Vec::new() }));
                Ok(())
            },
            Err(e) => Err(e),
        }
    }

    /// The proposal builder: every pending item, then the wallet's item for
    /// the coming epoch.
    pub fn get_consensus_proposal(&self, wallet_consensus: WalletConsensusItem) -> (proposal: Vec<
        ConsensusItem,
    >)
        ensures
            proposal.deep_view() == self.db@.pending_items().push(
                ConsensusItemView::Wallet(wallet_consensus@),
            ),
    {
        let mut proposal = self.db.pending_items();
        let ghost shorter = proposal;
        proposal.push(ConsensusItem::Wallet(wallet_consensus));
        proof {
            lemma_deep_view_push(shorter, proposal, proposal@.last());
        }
        proposal
    }

    /// Executes the outcome of an epoch. The conflict filter picks the items
    /// that survive; `responses` holds the collaborators' answers for them,
    /// in the order of [`filter_conflicts`]; `wallet_records` and
    /// `wallet_item` are what the wallet made of the epoch's wallet items.
    /// All writes form one batch, which is applied to the store and returned.
    pub fn process_consensus_outcome(
        &mut self,
        outcome: &ConsensusOutcome,
        wallet_records: &Vec<RecordOp>,
        wallet_item: &Option<WalletConsensusItem>,
        responses: &Vec<ItemResponse>,
    ) -> (batch: DbBatch)
        ensures
            batch.deep_view() == epoch_ops(
                old(self).cfg.identity,
                old(self).cfg.per_utxo_fee,
                old(self).db@,
                outcome@.contributions,
                wallet_records.deep_view(),
                bytes_option_view(*wallet_item),
                responses.deep_view(),
            ),
            final(self).db@ == old(self).db@.apply_batch(batch.deep_view()),
            final(self).cfg == old(self).cfg,
    {
        let kept = filter_conflicts(outcome);
        let mut batch = record_batch(wallet_records);
        match wallet_item {
            Some(w) => {
                let ghost shorter = batch;
                batch.push(
                    BatchItem::InsertNew(
                        Entry {
                            key: DbKey::Pending(ConsensusItem::Wallet(bytes_clone(w))),
                            value: Vec::new(),
                        },
                    ),
                );
                proof {
                    lemma_deep_view_push(shorter, batch, batch@.last());
                }
            },
            None => {},
        }
        let ghost head = wallet_ops(wallet_records.deep_view(), bytes_option_view(*wallet_item));
        assert(batch.deep_view() =~= head);
        let nothing = ItemResponse::Nothing;
        let mut i: usize = 0;
        while i < kept.len()
            invariant
                i <= kept.len(),
                nothing@ == ItemResponseView::Nothing,
                *self == *old(self),
                batch.deep_view() == head + execution_ops(
                    self.cfg.identity,
                    self.cfg.per_utxo_fee,
                    self.db@,
                    kept.deep_view(),
                    responses.deep_view(),
                    i as nat,
                ),
            decreases kept.len() - i,
        {
            let response = if i < responses.len() {
                &responses[i]
            } else {
                &nothing
            };
            let fragment = self.process_item(kept[i].0, &kept[i].1, response);
            proof {
                assert(kept.deep_view()[i as int] == (kept[i as int].0, kept[i as int].1@));
                assert(response@ == response_at(responses.deep_view(), i as int));
            }
            extend_batch(&mut batch, fragment);
            i += 1;
        }
        self.db.apply_batch(&batch);
        batch
    }
}

} // verus!
