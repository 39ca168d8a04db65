//! The item executor: what each surviving item of an epoch writes.
//!
//! The mint and the wallet do the cryptographic and on-chain work. Their
//! answers come in as an [`ItemResponse`] per item; the writes that follow
//! from an item and its answers are decided here. An item that fails any of
//! its checks writes nothing but its own removal from the pending pool.

use crate::consensus::FediMintConsensus;
use crate::item::{
    bytes_clone, lemma_deep_view_append, lemma_deep_view_push, BlindToken, ClientRequest,
    ClientRequestView, Coin, ConsensusItem, ConsensusItemView, PartialSigResponse, PeerId,
    PegInRequest, PegInRequestView, PegOutRequest, PegOutRequestView, ReissuanceRequest,
    ReissuanceRequestView, TransactionId,
};
use crate::store::{BatchItem, BatchItemView, DbBatch, DbKey, DbKeyView, Entry, StoreView};
use vstd::prelude::*;

verus! {

/// A write of the mint or the wallet to its own records: the value to store
/// under a key, or none to remove the key.
#[derive(Debug)]
pub struct RecordOp {
    pub key: Vec<u8>,
    pub value: Option<Vec<u8>>,
}

/// The value of a [`RecordOp`].
pub type RecordOpView = (Seq<u8>, Option<Seq<u8>>);

impl View for RecordOp {
    type V = RecordOpView;

    open spec fn view(&self) -> RecordOpView {
        (
            self.key@,
            match self.value {
                Some(v) => Some(v@),
                None => None,
            },
        )
    }
}

impl DeepView for RecordOp {
    type V = RecordOpView;

    open spec fn deep_view(&self) -> RecordOpView {
        self@
    }
}

/// The change to the store that a record write is.
pub open spec fn record_op(r: RecordOpView) -> BatchItemView {
    match r.1 {
        Some(v) => BatchItemView::Insert((DbKeyView::Collaborator(r.0), v)),
        None => BatchItemView::Delete(DbKeyView::Collaborator(r.0)),
    }
}

/// The changes to the store that a list of record writes is.
pub open spec fn record_ops(records: Seq<RecordOpView>) -> Seq<BatchItemView> {
    records.map_values(|r: RecordOpView| record_op(r))
}

impl RecordOp {
    /// The change to the store that this write is.
    pub fn to_batch_item(&self) -> (op: BatchItem)
        ensures
            op@ == record_op(self@),
    {
        match &self.value {
            Some(v) => BatchItem::Insert(
                Entry { key: DbKey::Collaborator(bytes_clone(&self.key)), value: bytes_clone(v) },
            ),
            None => BatchItem::Delete(DbKey::Collaborator(bytes_clone(&self.key))),
        }
    }
}

/// The changes to the store that a list of record writes is.
pub fn record_batch(records: &Vec<RecordOp>) -> (batch: DbBatch)
    ensures
        batch.deep_view() == record_ops(records.deep_view()),
{
    let mut batch: DbBatch = Vec::new();
    let mut i: usize = 0;
    while i < records.len()
        invariant
            i <= records.len(),
            batch.deep_view() == record_ops(records.deep_view().take(i as int)),
        decreases records.len() - i,
    {
        let ghost shorter = batch;
        batch.push(records[i].to_batch_item());
        proof {
            lemma_deep_view_push(shorter, batch, batch@.last());
            assert(batch.deep_view() =~= record_ops(records.deep_view().take(i + 1)));
        }
        i += 1;
    }
    proof {
        assert(records.deep_view().take(i as int) == records.deep_view());
    }
    batch
}

/// The total value of a list of coins or tokens, in milli-satoshi.
pub open spec fn total(tokens: Seq<(u64, Seq<u8>)>) -> nat
    decreases tokens.len(),
{
    if tokens.len() == 0 {
        0
    } else {
        total(tokens.drop_last()) + tokens.last().0 as nat
    }
}

/// A list is worth at least as much as each of its prefixes.
pub proof fn lemma_total_prefix(tokens: Seq<(u64, Seq<u8>)>, n: int)
    requires
        0 <= n <= tokens.len(),
    ensures
        total(tokens.take(n)) <= total(tokens),
    decreases tokens.len(),
{
    if n == tokens.len() {
        assert(tokens.take(n) == tokens);
    } else {
        lemma_total_prefix(tokens.drop_last(), n);
        assert(tokens.drop_last().take(n) == tokens.take(n));
    }
}

/// The total value of a list of coins, unless it is beyond `u64`.
pub fn coins_amount(coins: &Vec<Coin>) -> (r: Option<u64>)
    ensures
        match r {
            Some(t) => t == total(coins.deep_view()),
            None => total(coins.deep_view()) > u64::MAX,
        },
{
    let ghost all = coins.deep_view();
    let mut sum: u64 = 0;
    let mut i: usize = 0;
    while i < coins.len()
        invariant
            i <= coins.len(),
            all == coins.deep_view(),
            sum == total(all.take(i as int)),
        decreases coins.len() - i,
    {
        proof {
            assert(all.take(i + 1).drop_last() == all.take(i as int));
            lemma_total_prefix(all, i + 1);
        }
        match sum.checked_add(coins[i].tier) {
            Some(s) => {
                sum = s;
            },
            None => {
                return None;
            },
        }
        i += 1;
    }
    proof {
        assert(all.take(i as int) == all);
    }
    Some(sum)
}

/// The total value of a list of tokens, unless it is beyond `u64`.
pub fn tokens_amount(tokens: &Vec<BlindToken>) -> (r: Option<u64>)
    ensures
        match r {
            Some(t) => t == total(tokens.deep_view()),
            None => total(tokens.deep_view()) > u64::MAX,
        },
{
    let ghost all = tokens.deep_view();
    let mut sum: u64 = 0;
    let mut i: usize = 0;
    while i < tokens.len()
        invariant
            i <= tokens.len(),
            all == tokens.deep_view(),
            sum == total(all.take(i as int)),
        decreases tokens.len() - i,
    {
        proof {
            assert(all.take(i + 1).drop_last() == all.take(i as int));
            lemma_total_prefix(all, i + 1);
        }
        match sum.checked_add(tokens[i].tier) {
            Some(s) => {
                sum = s;
            },
            None => {
                return None;
            },
        }
        i += 1;
    }
    proof {
        assert(all.take(i as int) == all);
    }
    Some(sum)
}

/// What the collaborators answer for one surviving item.
#[derive(Debug)]
pub enum ItemResponse {
    /// For a peg-in.
    PegIn {
        /// The value of the deposit in milli-satoshi and the wallet's writes
        /// that claim it, where the wallet accepts the proof.
        claim: Option<(u64, Vec<RecordOp>)>,
        /// Whether the request's signature verifies against the key of the
        /// deposit.
        signature_valid: bool,
        /// The mint's share over the requested tokens, where it signs them.
        signed: Option<PartialSigResponse>,
    },
    /// For a reissuance: the mint's share over the requested tokens and its
    /// writes that mark the coins spent, where it accepts the coins.
    Reissuance { reissued: Option<(PartialSigResponse, Vec<RecordOp>)> },
    /// For a peg-out.
    PegOut {
        /// Whether the request's signature verifies against the keys of its
        /// coins.
        signature_valid: bool,
        /// The mint's writes that mark the coins spent, where it accepts
        /// them.
        spent: Option<Vec<RecordOp>>,
        /// The wallet's writes that queue the payout, where it accepts it.
        queued: Option<Vec<RecordOp>>,
    },
    /// For an item that needs no collaborator, and for an item whose answers
    /// are missing.
    Nothing,
}

/// The value of an [`ItemResponse`].
pub ghost enum ItemResponseView {
    PegIn {
        claim: Option<(u64, Seq<RecordOpView>)>,
        signature_valid: bool,
        signed: Option<Seq<u8>>,
    },
    Reissuance { reissued: Option<(Seq<u8>, Seq<RecordOpView>)> },
    PegOut {
        signature_valid: bool,
        spent: Option<Seq<RecordOpView>>,
        queued: Option<Seq<RecordOpView>>,
    },
    Nothing,
}

/// The value of an optional byte string.
pub open spec fn bytes_option_view(o: Option<Vec<u8>>) -> Option<Seq<u8>> {
    match o {
        Some(v) => Some(v@),
        None => None,
    }
}

/// The value of an optional list of record writes.
pub open spec fn records_option_view(o: Option<Vec<RecordOp>>) -> Option<Seq<RecordOpView>> {
    match o {
        Some(v) => Some(v.deep_view()),
        None => None,
    }
}

/// The value of a claim.
pub open spec fn claim_view(o: Option<(u64, Vec<RecordOp>)>) -> Option<(u64, Seq<RecordOpView>)> {
    match o {
        Some(c) => Some((c.0, c.1.deep_view())),
        None => None,
    }
}

/// The value of what a reissuance yields.
pub open spec fn reissued_view(o: Option<(PartialSigResponse, Vec<RecordOp>)>) -> Option<
    (Seq<u8>, Seq<RecordOpView>),
> {
    match o {
        Some(c) => Some((c.0@, c.1.deep_view())),
        None => None,
    }
}

impl View for ItemResponse {
    type V = ItemResponseView;

    open spec fn view(&self) -> ItemResponseView {
        match self {
            ItemResponse::PegIn { claim, signature_valid, signed } => ItemResponseView::PegIn {
                claim: claim_view(*claim),
                signature_valid: *signature_valid,
                signed: bytes_option_view(*signed),
            },
            ItemResponse::Reissuance { reissued } => ItemResponseView::Reissuance {
                reissued: reissued_view(*reissued),
            },
            ItemResponse::PegOut { signature_valid, spent, queued } => ItemResponseView::PegOut {
                signature_valid: *signature_valid,
                spent: records_option_view(*spent),
                queued: records_option_view(*queued),
            },
            ItemResponse::Nothing => ItemResponseView::Nothing,
        }
    }
}

impl DeepView for ItemResponse {
    type V = ItemResponseView;

    open spec fn deep_view(&self) -> ItemResponseView {
        self@
    }
}

/// What a node writes once it holds its own share for a request: the share
/// as a pending item, to be proposed to the peers, and the share itself under
/// the node's own name.
pub open spec fn own_share_ops(own: u16, id: Seq<u8>, share: Seq<u8>) -> Seq<BatchItemView> {
    seq![
        BatchItemView::InsertNew(
            (
                DbKeyView::Pending(ConsensusItemView::PartiallySignedRequest(id, share)),
                Seq::empty(),
            ),
        ),
        BatchItemView::InsertNew((DbKeyView::PartialSignature(id, own), share)),
    ]
}

/// What a peg-in writes. It writes only if the wallet accepts the proof, the
/// signature is valid, the requested tokens are worth exactly the deposit,
/// and the mint signs: then the wallet's claim and the node's share.
pub open spec fn peg_in_ops(
    own: u16,
    request: PegInRequestView,
    claim: Option<(u64, Seq<RecordOpView>)>,
    signature_valid: bool,
    signed: Option<Seq<u8>>,
) -> Seq<BatchItemView> {
    match (claim, signed) {
        (Some((amount, records)), Some(share)) => {
            if signature_valid && amount as nat == total(request.blind_tokens) {
                record_ops(records) + own_share_ops(own, request.id, share)
            } else {
                Seq::empty()
            }
        },
        _ => Seq::empty(),
    }
}

/// What a reissuance writes. It writes only if the mint accepts the coins:
/// then the mint's spend marks and the node's share.
pub open spec fn reissuance_ops(
    own: u16,
    request: ReissuanceRequestView,
    reissued: Option<(Seq<u8>, Seq<RecordOpView>)>,
) -> Seq<BatchItemView> {
    match reissued {
        Some((share, records)) => record_ops(records) + own_share_ops(own, request.id, share),
        None => Seq::empty(),
    }
}

/// The on-chain value of a payout in satoshi: the whole satoshi that the
/// coins are worth, less the fee. There is none where the coins are worth
/// less than the fee, or more than `u64` holds in milli-satoshi.
pub open spec fn payout(coins: Seq<(u64, Seq<u8>)>, fee: u64) -> Option<u64> {
    let worth = total(coins);
    if worth <= u64::MAX && worth / 1000 >= fee {
        Some((worth / 1000 - fee) as u64)
    } else {
        None
    }
}

/// What a peg-out writes. It writes only if the signature is valid, there is
/// a payout, the mint accepts the coins and the wallet queues the payout:
/// then the mint's spend marks and the wallet's queue entry, both or neither.
pub open spec fn peg_out_ops(
    fee: u64,
    request: PegOutRequestView,
    signature_valid: bool,
    spent: Option<Seq<RecordOpView>>,
    queued: Option<Seq<RecordOpView>>,
) -> Seq<BatchItemView> {
    if signature_valid && payout(request.coins, fee) is Some && spent is Some && queued is Some {
        record_ops(spent->0) + record_ops(queued->0)
    } else {
        Seq::empty()
    }
}

/// What a share of a peer writes: the share under the peer's name, unless
/// the peer is this node or the request is finalized.
pub open spec fn partial_signature_ops(
    own: u16,
    finalized: bool,
    peer: u16,
    id: Seq<u8>,
    share: Seq<u8>,
) -> Seq<BatchItemView> {
    if peer == own || finalized {
        Seq::empty()
    } else {
        seq![BatchItemView::InsertNew((DbKeyView::PartialSignature(id, peer), share))]
    }
}

/// What a client request writes, given the collaborators' answers. Answers
/// for another kind of request count as missing, and the request writes
/// nothing.
pub open spec fn client_request_ops(
    own: u16,
    fee: u64,
    request: ClientRequestView,
    response: ItemResponseView,
) -> Seq<BatchItemView> {
    match (request, response) {
        (
            ClientRequestView::PegIn(r),
            ItemResponseView::PegIn { claim, signature_valid, signed },
        ) => peg_in_ops(own, r, claim, signature_valid, signed),
        (ClientRequestView::Reissuance(r), ItemResponseView::Reissuance { reissued }) => {
            reissuance_ops(own, r, reissued)
        },
        (
            ClientRequestView::PegOut(r),
            ItemResponseView::PegOut { signature_valid, spent, queued },
        ) => peg_out_ops(fee, r, signature_valid, spent, queued),
        _ => Seq::empty(),
    }
}

/// What the execution of one surviving item writes: the item leaves the
/// pending pool, and then what its kind writes. Wallet items write nothing
/// here.
pub open spec fn item_ops(
    own: u16,
    fee: u64,
    store: StoreView,
    peer: u16,
    item: ConsensusItemView,
    response: ItemResponseView,
) -> Seq<BatchItemView> {
    seq![BatchItemView::Delete(DbKeyView::Pending(item))] + match item {
        ConsensusItemView::ClientRequest(r) => client_request_ops(own, fee, r, response),
        ConsensusItemView::PartiallySignedRequest(id, share) => partial_signature_ops(
            own,
            store.is_finalized(id),
            peer,
            id,
            share,
        ),
        ConsensusItemView::Wallet(_) => Seq::empty(),
    }
}

/// Appends a batch to a batch.
pub fn extend_batch(batch: &mut DbBatch, more: DbBatch)
    ensures
        final(batch).deep_view() == old(batch).deep_view() + more.deep_view(),
{
    let ghost before = *batch;
    let mut more = more;
    let ghost tail = more;
    batch.append(&mut more);
    proof {
        lemma_deep_view_append(before, *batch, tail);
    }
}

impl FediMintConsensus {
    /// The writes for a share that this node holds for a request.
    fn own_share_batch(&self, id: &TransactionId, share: &PartialSigResponse) -> (batch: DbBatch)
        ensures
            batch.deep_view() == own_share_ops(self.cfg.identity, id@, share@),
    {
        let mut batch: DbBatch = Vec::new();
        let ghost b0 = batch;
        batch.push(
            BatchItem::InsertNew(
                Entry {
                    key: DbKey::Pending(
                        ConsensusItem::PartiallySignedRequest(bytes_clone(id), bytes_clone(share)),
                    ),
                    value: Vec::new(),
                },
            ),
        );
        let ghost b1 = batch;
        batch.push(
            BatchItem::InsertNew(
                Entry {
                    key: DbKey::PartialSignature(bytes_clone(id), self.cfg.identity),
                    value: bytes_clone(share),
                },
            ),
        );
        proof {
            lemma_deep_view_push(b0, b1, b1@.last());
            lemma_deep_view_push(b1, batch, batch@.last());
            assert(batch.deep_view() =~= own_share_ops(self.cfg.identity, id@, share@));
        }
        batch
    }

    /// Decides what a peg-in writes, given the wallet's claim on the
    /// deposit, the verdict on the signature and the mint's share.
    pub fn process_peg_in_request(
        &self,
        peg_in: &PegInRequest,
        claim: &Option<(u64, Vec<RecordOp>)>,
        signature_valid: bool,
        signed: &Option<PartialSigResponse>,
    ) -> (batch: DbBatch)
        ensures
            batch.deep_view() == peg_in_ops(
                self.cfg.identity,
                peg_in@,
                claim_view(*claim),
                signature_valid,
                bytes_option_view(*signed),
            ),
    {
        let (amount, records) = match claim {
            Some(c) => (c.0, &c.1),
            None => {
                return Vec::new();
            },
        };
        if !signature_valid {
            return Vec::new();
        }
        match tokens_amount(&peg_in.blind_tokens) {
            Some(requested) => {
                if requested != amount {
                    return Vec::new();
                }
            },
            None => {
                return Vec::new();
            },
        }
        let share = match signed {
            Some(share) => share,
            None => {
                return Vec::new();
            },
        };
        let mut batch = record_batch(records);
        extend_batch(&mut batch, self.own_share_batch(&peg_in.id, share));
        batch
    }

    /// Decides what a reissuance writes, given what the mint made of it.
    pub fn process_reissuance_request(
        &self,
        reissuance: &ReissuanceRequest,
        reissued: &Option<(PartialSigResponse, Vec<RecordOp>)>,
    ) -> (batch: DbBatch)
        ensures
            batch.deep_view() == reissuance_ops(
                self.cfg.identity,
                reissuance@,
                reissued_view(*reissued),
            ),
    {
        match reissued {
            Some(r) => {
                let mut batch = record_batch(&r.1);
                extend_batch(&mut batch, self.own_share_batch(&reissuance.id, &r.0));
                batch
            },
            None => Vec::new(),
        }
    }

    /// The on-chain value of a peg-out in satoshi, which the wallet is asked
    /// to pay out.
    pub fn peg_out_amount(&self, peg_out: &PegOutRequest) -> (r: Option<u64>)
        ensures
            r == payout(peg_out@.coins, self.cfg.per_utxo_fee),
    {
        match coins_amount(&peg_out.coins) {
            Some(worth) => (worth / 1000).checked_sub(self.cfg.per_utxo_fee),
            None => None,
        }
    }

    /// Decides what a peg-out writes, given the verdict on the signature,
    /// the mint's spend marks and the wallet's queue entry.
    pub fn process_peg_out_request(
        &self,
        peg_out: &PegOutRequest,
        signature_valid: bool,
        spent: &Option<Vec<RecordOp>>,
        queued: &Option<Vec<RecordOp>>,
    ) -> (batch: DbBatch)
        ensures
            batch.deep_view() == peg_out_ops(
                self.cfg.per_utxo_fee,
                peg_out@,
                signature_valid,
                records_option_view(*spent),
                records_option_view(*queued),
            ),
    {
        if !signature_valid || self.peg_out_amount(peg_out).is_none() {
            return Vec::new();
        }
        match (spent, queued) {
            (Some(marks), Some(entry)) => {
                let mut batch = record_batch(marks);
                extend_batch(&mut batch, record_batch(entry));
                batch
            },
            _ => Vec::new(),
        }
    }

    /// Decides what a client request writes, given the collaborators'
    /// answers.
    pub fn process_client_request(
        &self,
        request: &ClientRequest,
        response: &ItemResponse,
    ) -> (batch: DbBatch)
        ensures
            batch.deep_view() == client_request_ops(
                self.cfg.identity,
                self.cfg.per_utxo_fee,
                request@,
                response@,
            ),
    {
        match (request, response) {
            (ClientRequest::PegIn(r), ItemResponse::PegIn { claim, signature_valid, signed }) => {
                self.process_peg_in_request(r, claim, *signature_valid, signed)
            },
            (ClientRequest::Reissuance(r), ItemResponse::Reissuance { reissued }) => {
                self.process_reissuance_request(r, reissued)
            },
            (
                ClientRequest::PegOut(r),
                ItemResponse::PegOut { signature_valid, spent, queued },
            ) => self.process_peg_out_request(r, *signature_valid, spent, queued),
            _ => Vec::new(),
        }
    }

    /// Decides what a share of a peer writes.
    pub fn process_partial_signature(
        &self,
        peer: PeerId,
        req_id: &TransactionId,
        partial_sig: &PartialSigResponse,
    ) -> (batch: DbBatch)
        ensures
            batch.deep_view() == partial_signature_ops(
                self.cfg.identity,
                self.db@.is_finalized(req_id@),
                peer,
                req_id@,
                partial_sig@,
            ),
    {
        let mut batch: DbBatch = Vec::new();
        if peer != self.cfg.identity && !self.db.is_finalized(req_id) {
            let ghost b0 = batch;
            batch.push(
                BatchItem::InsertNew(
                    Entry {
                        key: DbKey::PartialSignature(bytes_clone(req_id), peer),
                        value: bytes_clone(partial_sig),
                    },
                ),
            );
            proof {
                lemma_deep_view_push(b0, batch, batch@.last());
            }
        }
        proof {
            assert(batch.deep_view() =~= partial_signature_ops(
                self.cfg.identity,
                self.db@.is_finalized(req_id@),
                peer,
                req_id@,
                partial_sig@,
            ));
        }
        batch
    }

    /// Decides what the execution of one surviving item writes. The result
    /// depends on the item, its answers and the store at the start of the
    /// epoch alone, so items can be processed in any order, or at once.
    pub fn process_item(
        &self,
        peer: PeerId,
        item: &ConsensusItem,
        response: &ItemResponse,
    ) -> (batch: DbBatch)
        ensures
            batch.deep_view() == item_ops(
                self.cfg.identity,
                self.cfg.per_utxo_fee,
                self.db@,
                peer,
                item@,
                response@,
            ),
    {
        let mut batch: DbBatch = Vec::new();
        let ghost b0 = batch;
        batch.push(BatchItem::Delete(DbKey::Pending(item.clone())));
        proof {
            lemma_deep_view_push(b0, batch, batch@.last());
            assert(batch.deep_view() =~= seq![BatchItemView::Delete(DbKeyView::Pending(item@))]);
        }
        let rest = match item {
            ConsensusItem::ClientRequest(r) => self.process_client_request(r, response),
            ConsensusItem::PartiallySignedRequest(id, share) => self.process_partial_signature(
                peer,
                id,
                share,
            ),
            ConsensusItem::Wallet(_) => Vec::new(),
        };
        extend_batch(&mut batch, rest);
        batch
    }
}

} // verus!
