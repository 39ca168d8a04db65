//! What holds of the engine as a whole, beyond the contract of each
//! function.

use crate::epoch::{
    admitted, epoch_ops, execution_ops, merged, pending_entry, response_at, wallet_ops,
};
use crate::execute::{item_ops, ItemResponseView, RecordOpView};
use crate::filter::{survivors, ContributionView};
use crate::finalize::{
    delete_pending_ops, delete_share_ops, finalization_candidates, finalization_ops, finalize_ops,
    ready, ready_among, CombinedView,
};
use crate::item::{ClientRequestView, ConsensusItemView};
use crate::store::{BatchItemView, DbKeyView, EntryView, StoreView};
use vstd::prelude::*;

verus! {

/// The schedule does not matter. However the fragments of the surviving
/// items were computed, one by one or all at once, if each is what its item
/// writes, then joined in the order of the survivors they are the batch that
/// executing the items one after the other gives.
pub proof fn lemma_schedule_independent(
    own: u16,
    fee: u64,
    store: StoreView,
    kept: Seq<ContributionView>,
    responses: Seq<ItemResponseView>,
    fragments: Seq<Seq<BatchItemView>>,
)
    requires
        fragments.len() == kept.len(),
        forall|i: int|
            0 <= i < kept.len() ==> #[trigger] fragments[i] == item_ops(
                own,
                fee,
                store,
                kept[i].0,
                kept[i].1,
                response_at(responses, i),
            ),
    ensures
        merged(fragments) == execution_ops(own, fee, store, kept, responses, kept.len()),
{
    lemma_merged_prefix(own, fee, store, kept, responses, fragments, kept.len());
    assert(fragments.take(kept.len() as int) == fragments);
}

/// The first `n` fragments, joined, are what the first `n` items write.
proof fn lemma_merged_prefix(
    own: u16,
    fee: u64,
    store: StoreView,
    kept: Seq<ContributionView>,
    responses: Seq<ItemResponseView>,
    fragments: Seq<Seq<BatchItemView>>,
    n: nat,
)
    requires
        n <= kept.len(),
        fragments.len() == kept.len(),
        forall|i: int|
            0 <= i < kept.len() ==> #[trigger] fragments[i] == item_ops(
                own,
                fee,
                store,
                kept[i].0,
                kept[i].1,
                response_at(responses, i),
            ),
    ensures
        merged(fragments.take(n as int)) == execution_ops(own, fee, store, kept, responses, n),
    decreases n,
{
    if n > 0 {
        lemma_merged_prefix(own, fee, store, kept, responses, fragments, (n - 1) as nat);
        assert(fragments.take(n as int).drop_last() == fragments.take(n - 1));
        assert(fragments.take(n as int).last() == fragments[n - 1]);
    }
}

/// Processing is deterministic: two executions of one outcome, from one
/// store and with the same answers, write the same batch and leave the same
/// store, whatever order each computed its fragments in.
pub proof fn lemma_epoch_deterministic(
    own: u16,
    fee: u64,
    store: StoreView,
    contributions: Seq<(u16, Seq<ConsensusItemView>)>,
    wallet_records: Seq<RecordOpView>,
    wallet_item: Option<Seq<u8>>,
    responses: Seq<ItemResponseView>,
    first: Seq<Seq<BatchItemView>>,
    second: Seq<Seq<BatchItemView>>,
)
    requires
        first.len() == survivors(contributions).len(),
        second.len() == survivors(contributions).len(),
        forall|i: int|
            0 <= i < survivors(contributions).len() ==> #[trigger] first[i] == item_ops(
                own,
                fee,
                store,
                survivors(contributions)[i].0,
                survivors(contributions)[i].1,
                response_at(responses, i),
            ),
        forall|i: int|
            0 <= i < survivors(contributions).len() ==> #[trigger] second[i] == item_ops(
                own,
                fee,
                store,
                survivors(contributions)[i].0,
                survivors(contributions)[i].1,
                response_at(responses, i),
            ),
    ensures
        wallet_ops(wallet_records, wallet_item) + merged(first) == wallet_ops(
            wallet_records,
            wallet_item,
        ) + merged(second),
        wallet_ops(wallet_records, wallet_item) + merged(first) == epoch_ops(
            own,
            fee,
            store,
            contributions,
            wallet_records,
            wallet_item,
            responses,
        ),
        store.apply_batch(wallet_ops(wallet_records, wallet_item) + merged(first))
            == store.apply_batch(wallet_ops(wallet_records, wallet_item) + merged(second)),
{
    lemma_schedule_independent(own, fee, store, survivors(contributions), responses, first);
    lemma_schedule_independent(own, fee, store, survivors(contributions), responses, second);
}

/// Submission is idempotent. Admitting a request a second time changes
/// nothing; the request then has an entry in the pending pool, and one only;
/// and if nothing was pending for its identifier before, the request is all
/// that is pending for it afterwards.
pub proof fn lemma_submission_idempotent(store: StoreView, request: ClientRequestView)
    requires
        store.wf(),
    ensures
        admitted(admitted(store, request), request) == admitted(store, request),
        admitted(store, request).wf(),
        admitted(store, request).contains_key(
            DbKeyView::Pending(ConsensusItemView::ClientRequest(request)),
        ),
        store.pending_for(request.id()).len() == 0 ==> admitted(store, request).pending_for(
            request.id(),
        ) == seq![ConsensusItemView::ClientRequest(request)],
{
    let item = ConsensusItemView::ClientRequest(request);
    let entry = pending_entry(item);
    let once = admitted(store, request);
    store.lemma_apply_wf(BatchItemView::InsertNew(entry));
    if !store.contains_key(entry.0) {
        assert(once.entries[store.entries.len() as int].0 == entry.0);
    }
    if store.pending_for(request.id()).len() == 0 {
        if store.contains_key(entry.0) {
            StoreView::lemma_selected_contained(
                store.entries,
                |e: EntryView| StoreView::pending_of_request(e, request.id()),
                store.index_of(entry.0),
            );
        }
        assert(once.entries.drop_last() == store.entries);
        assert(once.pending_for(request.id()) =~= seq![item]);
    }
}

/// A finalized request takes no further share: a share for it that comes
/// with an epoch writes nothing, whoever sent it. Only the item itself
/// leaves the pending pool.
pub proof fn lemma_finalized_takes_no_share(
    own: u16,
    fee: u64,
    store: StoreView,
    peer: u16,
    id: Seq<u8>,
    share: Seq<u8>,
    response: ItemResponseView,
)
    requires
        store.is_finalized(id),
    ensures
        item_ops(
            own,
            fee,
            store,
            peer,
            ConsensusItemView::PartiallySignedRequest(id, share),
            response,
        ) == seq![
            BatchItemView::Delete(
                DbKeyView::Pending(ConsensusItemView::PartiallySignedRequest(id, share)),
            ),
        ],
{
    let item = ConsensusItemView::PartiallySignedRequest(id, share);
    assert(item_ops(own, fee, store, peer, item, response) =~= seq![
        BatchItemView::Delete(DbKeyView::Pending(item)),
    ]);
}

/// A finalized request is never combined again: it is no candidate for
/// finalization, and finalizing it writes nothing.
pub proof fn lemma_finalized_is_no_candidate(
    store: StoreView,
    threshold: nat,
    id: Seq<u8>,
    signature: Option<Seq<u8>>,
)
    requires
        store.is_finalized(id),
    ensures
        forall|i: int|
            0 <= i < finalization_candidates(store, threshold).len() ==> (
            #[trigger] finalization_candidates(store, threshold)[i]).0 != id,
        finalize_ops(store, threshold, id, signature) == Seq::<BatchItemView>::empty(),
{
    lemma_ready_among_are_ready(
        store,
        threshold,
        crate::finalize::distinct(store.share_requests()),
    );
}

/// Every request among the ready ones of a list is ready.
proof fn lemma_ready_among_are_ready(store: StoreView, threshold: nat, ids: Seq<Seq<u8>>)
    ensures
        forall|i: int|
            0 <= i < ready_among(store, threshold, ids).len() ==> ready(
                store,
                threshold,
                (#[trigger] ready_among(store, threshold, ids)[i]).0,
            ),
    decreases ids.len(),
{
    if ids.len() > 0 {
        lemma_ready_among_are_ready(store, threshold, ids.drop_last());
        let before = ready_among(store, threshold, ids.drop_last());
        let all = ready_among(store, threshold, ids);
        assert forall|i: int| 0 <= i < all.len() implies ready(
            store,
            threshold,
            (#[trigger] all[i]).0,
        ) by {
            if i < before.len() {
                assert(all[i] == before[i]);
            }
        }
    }
}

/// Whether every change of the batch is a removal.
pub open spec fn only_deletes(batch: Seq<BatchItemView>) -> bool {
    forall|i: int| 0 <= i < batch.len() ==> #[trigger] batch[i] is Delete
}

/// A batch of removals removes its keys from a store with unique keys, and
/// leaves every other key with its value.
pub proof fn lemma_deletes_effect(store: StoreView, batch: Seq<BatchItemView>)
    requires
        store.wf(),
        only_deletes(batch),
    ensures
        store.apply_batch(batch).wf(),
        forall|key: DbKeyView|
            #[trigger] store.apply_batch(batch).contains_key(key) == (store.contains_key(key)
                && spares(batch, key)),
        forall|key: DbKeyView|
            spares(batch, key) ==> #[trigger] store.apply_batch(batch).get(key) == store.get(key),
    decreases batch.len(),
{
    store.lemma_apply_batch_wf(batch);
    if batch.len() > 0 {
        let rest = batch.drop_last();
        let before = store.apply_batch(rest);
        lemma_deletes_effect(store, rest);
        assert(batch.last() == batch[batch.len() - 1]);
        let gone = batch.last()->Delete_0;
        assert forall|key: DbKeyView|
            #[trigger] store.apply_batch(batch).contains_key(key) == (store.contains_key(key)
                && spares(batch, key)) by {
            before.lemma_delete_effect(gone, key);
            if spares(batch, key) {
                assert forall|i: int| 0 <= i < rest.len() implies #[trigger] rest[i]
                    != BatchItemView::Delete(key) by {
                    assert(rest[i] == batch[i]);
                }
            } else {
                let i = choose|i: int|
                    0 <= i < batch.len() && batch[i] == BatchItemView::Delete(key);
                if i < rest.len() {
                    assert(rest[i] == batch[i]);
                }
            }
        }
        assert forall|key: DbKeyView| spares(batch, key) implies #[trigger] store.apply_batch(
            batch,
        ).get(key) == store.get(key) by {
            before.lemma_delete_effect(gone, key);
            assert forall|i: int| 0 <= i < rest.len() implies #[trigger] rest[i]
                != BatchItemView::Delete(key) by {
                assert(rest[i] == batch[i]);
            }
        }
    }
}

/// Whether the key belongs to the request: its pending items, its shares or
/// its complete signature.
pub open spec fn concerns(key: DbKeyView, id: Seq<u8>) -> bool {
    match key {
        DbKeyView::Pending(item) => item.request_id() == Some(id),
        DbKeyView::PartialSignature(request, _) => request == id,
        DbKeyView::FinalizedSignature(request) => request == id,
        DbKeyView::Collaborator(_) => false,
    }
}

/// What finalization does. Finalizing a ready request with a complete
/// signature stores the signature, removes every share of the request and
/// everything that was pending for it, and leaves all that belongs to other
/// requests as it was.
pub proof fn lemma_finalization_effect(
    store: StoreView,
    threshold: nat,
    id: Seq<u8>,
    signature: Seq<u8>,
)
    requires
        store.wf(),
        ready(store, threshold, id),
    ensures
        ({
            let after = store.apply_batch(finalize_ops(store, threshold, id, Some(signature)));
            &&& after.wf()
            &&& after.is_finalized(id)
            &&& after.get(DbKeyView::FinalizedSignature(id)) == Some(signature)
            &&& after.shares_of(id) == Seq::<(u16, Seq<u8>)>::empty()
            &&& after.pending_for(id) == Seq::<ConsensusItemView>::empty()
            &&& forall|key: DbKeyView|
                !concerns(key, id) ==> #[trigger] after.contains_key(key) == store.contains_key(key)
                    && after.get(key) == store.get(key)
        }),
{
    let pending = store.pending_for(id);
    let shares = store.shares_of(id);
    let deletes = delete_pending_ops(pending) + delete_share_ops(id, shares);
    let final_key = DbKeyView::FinalizedSignature(id);
    let entry = (final_key, signature);
    let batch = finalize_ops(store, threshold, id, Some(signature));
    let cleared = store.apply_batch(deletes);
    let after = store.apply_batch(batch);
    assert(batch =~= deletes.push(BatchItemView::InsertNew(entry)));
    assert(batch.drop_last() =~= deletes);
    assert(after == cleared.insert_new(entry));
    lemma_deletes_effect(store, deletes);
    cleared.lemma_apply_wf(BatchItemView::InsertNew(entry));
    cleared.lemma_insert_new_effect(entry, final_key);
    let pick_pending = |e: EntryView| StoreView::pending_of_request(e, id);
    let pick_share = |e: EntryView| StoreView::share_of_request(e, id);

    assert forall|i: int| 0 <= i < after.entries.len() implies pick_share(
        #[trigger] after.entries[i],
    ) is None by {
        let key = after.entries[i].0;
        if pick_share(after.entries[i]) is Some {
            let peer = key->PartialSignature_1;
            assert(after.contains_key(key));
            cleared.lemma_insert_new_effect(entry, key);
            assert(store.contains_key(key) && spares(deletes, key));
            let j = store.index_of(key);
            StoreView::lemma_selected_contained(store.entries, pick_share, j);
            let found = pick_share(store.entries[j])->0;
            let m = choose|m: int| 0 <= m < shares.len() && shares[m] == found;
            assert(deletes[pending.len() + m] == BatchItemView::Delete(key));
        }
    }
    StoreView::lemma_nothing_selected(after.entries, pick_share);

    assert forall|i: int| 0 <= i < after.entries.len() implies pick_pending(
        #[trigger] after.entries[i],
    ) is None by {
        let key = after.entries[i].0;
        if pick_pending(after.entries[i]) is Some {
            assert(after.contains_key(key));
            cleared.lemma_insert_new_effect(entry, key);
            assert(store.contains_key(key) && spares(deletes, key));
            let j = store.index_of(key);
            StoreView::lemma_selected_contained(store.entries, pick_pending, j);
            let found = pick_pending(store.entries[j])->0;
            let m = choose|m: int| 0 <= m < pending.len() && pending[m] == found;
            assert(deletes[m] == BatchItemView::Delete(key));
        }
    }
    StoreView::lemma_nothing_selected(after.entries, pick_pending);

    assert forall|key: DbKeyView| !concerns(key, id) implies #[trigger] after.contains_key(key)
        == store.contains_key(key) && after.get(key) == store.get(key) by {
        cleared.lemma_insert_new_effect(entry, key);
        assert forall|i: int| 0 <= i < deletes.len() implies #[trigger] deletes[i]
            != BatchItemView::Delete(key) by {
            if deletes[i] == BatchItemView::Delete(key) {
                if i < pending.len() {
                    assert(pending.contains(pending[i]));
                    store.entries.lemma_filter_map_contains(pick_pending, pending[i]);
                }
            }
        }
        if !store.contains_key(key) {
            assert(!cleared.contains_key(key));
            assert(!after.contains_key(key));
        }
    }
}

/// Whether no change of the batch removes the key.
pub open spec fn spares(batch: Seq<BatchItemView>, key: DbKeyView) -> bool {
    forall|i: int| 0 <= i < batch.len() ==> #[trigger] batch[i] != BatchItemView::Delete(key)
}

/// A key that no change of a batch removes is still there after the batch.
pub proof fn lemma_spared_key_stays(store: StoreView, batch: Seq<BatchItemView>, key: DbKeyView)
    requires
        store.contains_key(key),
        spares(batch, key),
    ensures
        store.apply_batch(batch).contains_key(key),
    decreases batch.len(),
{
    if batch.len() > 0 {
        lemma_spared_key_stays(store, batch.drop_last(), key);
        let before = store.apply_batch(batch.drop_last());
        let after = before.apply(batch.last());
        let at = before.index_of(key);
        assert(batch.last() == batch[batch.len() - 1]);
        match batch.last() {
            BatchItemView::InsertNew(e) => {
                assert(after.entries[at].0 == key);
            },
            BatchItemView::Insert(e) => {
                if before.contains_key(e.0) {
                    let there = before.index_of(e.0);
                    assert(after.entries[at].0 == key);
                } else {
                    assert(after.entries[at].0 == key);
                }
            },
            BatchItemView::Delete(k) => {
                if before.contains_key(k) {
                    let gone = before.index_of(k);
                    if at < gone {
                        assert(after.entries[at].0 == key);
                    } else {
                        assert(after.entries[at - 1].0 == key);
                    }
                }
            },
        }
    }
}

/// What the execution of an epoch writes removes no finalized signature.
pub proof fn lemma_execution_spares_finalized(
    own: u16,
    fee: u64,
    store: StoreView,
    kept: Seq<ContributionView>,
    responses: Seq<ItemResponseView>,
    n: nat,
    id: Seq<u8>,
)
    ensures
        spares(
            execution_ops(own, fee, store, kept, responses, n),
            DbKeyView::FinalizedSignature(id),
        ),
    decreases n,
{
    if n > 0 {
        lemma_execution_spares_finalized(own, fee, store, kept, responses, (n - 1) as nat, id);
    }
}

/// What the finalization of requests writes removes no finalized signature.
pub proof fn lemma_finalization_spares_finalized(
    store: StoreView,
    threshold: nat,
    combined: Seq<CombinedView>,
    n: nat,
    id: Seq<u8>,
)
    ensures
        spares(
            finalization_ops(store, threshold, combined, n),
            DbKeyView::FinalizedSignature(id),
        ),
    decreases n,
{
    if n > 0 {
        lemma_finalization_spares_finalized(store, threshold, combined, (n - 1) as nat, id);
    }
}

/// Finalization is for good: a request that is finalized is finalized after
/// the execution of any epoch and after any finalization.
pub proof fn lemma_finalized_stays(
    own: u16,
    fee: u64,
    store: StoreView,
    contributions: Seq<(u16, Seq<ConsensusItemView>)>,
    wallet_records: Seq<RecordOpView>,
    wallet_item: Option<Seq<u8>>,
    responses: Seq<ItemResponseView>,
    threshold: nat,
    combined: Seq<CombinedView>,
    id: Seq<u8>,
)
    requires
        store.is_finalized(id),
    ensures
        store.apply_batch(
            epoch_ops(own, fee, store, contributions, wallet_records, wallet_item, responses),
        ).is_finalized(id),
        store.apply_batch(
            finalization_ops(store, threshold, combined, combined.len()),
        ).is_finalized(id),
{
    let key = DbKeyView::FinalizedSignature(id);
    let kept = survivors(contributions);
    lemma_execution_spares_finalized(own, fee, store, kept, responses, kept.len(), id);
    lemma_spared_key_stays(
        store,
        epoch_ops(own, fee, store, contributions, wallet_records, wallet_item, responses),
        key,
    );
    lemma_finalization_spares_finalized(store, threshold, combined, combined.len(), id);
    lemma_spared_key_stays(
        store,
        finalization_ops(store, threshold, combined, combined.len()),
        key,
    );
}

} // verus!
