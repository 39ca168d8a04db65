use minimint::epoch::{merge_fragments, wallet_contributions};
use minimint::execute::{coins_amount, tokens_amount};
use minimint::{
    filter_conflicts, BatchItem, BlindToken, ClientRequest, ClientRequestError, Coin,
    ConsensusItem, ConsensusOutcome, DbKey, Entry, FediMintConsensus, ItemResponse, MintError,
    PegInProof, PegInRequest, PegOutRequest, RecordOp, ReissuanceRequest, RequestChecks,
    ServerConfig,
};

fn config(identity: u16, peers: u16) -> ServerConfig {
    ServerConfig {
        identity,
        peers: (0..peers).collect(),
        tiers: vec![1000, 10_000, 100_000, 1_000_000],
        per_utxo_fee: 1000,
    }
}

fn coin(tier: u64, token: u8) -> Coin {
    Coin { tier, token: vec![token, token] }
}

fn token(tier: u64, message: u8) -> BlindToken {
    BlindToken { tier, message: vec![message] }
}

fn peg_in_request(id: u8, tiers: Vec<u64>) -> PegInRequest {
    PegInRequest {
        id: vec![id],
        proof: PegInProof { txid: vec![id; 4], vout: 0, witness: vec![1, 2, 3] },
        blind_tokens: tiers.into_iter().map(|t| token(t, id)).collect(),
        sig: vec![0xcc, id],
    }
}

fn reissuance_request(id: u8, coins: Vec<Coin>, tiers: Vec<u64>) -> ReissuanceRequest {
    ReissuanceRequest {
        id: vec![id],
        coins,
        blind_tokens: tiers.into_iter().map(|t| token(t, id)).collect(),
        sig: vec![0xaa, id],
    }
}

fn peg_out_request(id: u8, coins: Vec<Coin>) -> PegOutRequest {
    PegOutRequest { id: vec![id], coins, address: vec![0xbc, 0x1f], sig: vec![0xbb, id] }
}

fn passing() -> RequestChecks {
    RequestChecks { signature_valid: true, peg_in_amount: Some(1000), mint_denial: None }
}

fn pending(item: ConsensusItem) -> DbKey {
    DbKey::Pending(item)
}

fn put(key: u8, value: u8) -> RecordOp {
    RecordOp { key: vec![key], value: Some(vec![value]) }
}

fn insert_new(key: DbKey, value: Vec<u8>) -> BatchItem {
    BatchItem::InsertNew(Entry { key, value })
}

fn collaborator(key: u8, value: u8) -> BatchItem {
    BatchItem::Insert(Entry { key: DbKey::Collaborator(vec![key]), value: vec![value] })
}

#[test]
fn valid_requests_are_admitted() {
    let mut engine = FediMintConsensus::new(config(0, 4));
    let reissue = ClientRequest::Reissuance(reissuance_request(1, vec![coin(1000, 1)], vec![1000]));
    let deposit = ClientRequest::PegIn(peg_in_request(2, vec![1000]));
    let payout = ClientRequest::PegOut(peg_out_request(3, vec![coin(10_000, 3)]));
    assert_eq!(engine.submit_client_request(reissue.clone(), passing()), Ok(()));
    assert_eq!(engine.submit_client_request(deposit.clone(), passing()), Ok(()));
    assert_eq!(engine.submit_client_request(payout.clone(), passing()), Ok(()));
    assert_eq!(
        engine.db.pending_items(),
        vec![
            ConsensusItem::ClientRequest(reissue),
            ConsensusItem::ClientRequest(deposit),
            ConsensusItem::ClientRequest(payout),
        ]
    );
}

#[test]
fn submitting_twice_leaves_one_entry() {
    let mut engine = FediMintConsensus::new(config(0, 4));
    let request = ClientRequest::Reissuance(reissuance_request(1, vec![coin(1000, 1)], vec![1000]));
    assert_eq!(engine.submit_client_request(request.clone(), passing()), Ok(()));
    assert_eq!(engine.submit_client_request(request.clone(), passing()), Ok(()));
    assert_eq!(engine.db.len(), 1);
    assert_eq!(engine.db.pending_for(&vec![1]), vec![ConsensusItem::ClientRequest(request)]);
}

#[test]
fn bad_signature_rejects_a_spend() {
    let mut engine = FediMintConsensus::new(config(0, 4));
    let mut checks = passing();
    checks.signature_valid = false;
    checks.mint_denial = Some(MintError { reason: "spent".to_string() });
    let request = ClientRequest::Reissuance(reissuance_request(1, vec![coin(7, 1)], vec![1000]));
    assert_eq!(
        engine.submit_client_request(request, checks),
        Err(ClientRequestError::InvalidTransactionSignature)
    );
    let mut checks = passing();
    checks.signature_valid = false;
    let request = ClientRequest::PegOut(peg_out_request(2, vec![coin(1000, 1)]));
    assert_eq!(
        engine.submit_client_request(request, checks),
        Err(ClientRequestError::InvalidTransactionSignature)
    );
    assert_eq!(engine.db.len(), 0);
}

#[test]
fn unknown_tier_rejects_a_request() {
    let mut engine = FediMintConsensus::new(config(0, 4));
    let spend = ClientRequest::Reissuance(reissuance_request(
        1,
        vec![coin(1000, 1), coin(7, 2), coin(9, 3)],
        vec![5],
    ));
    assert_eq!(
        engine.submit_client_request(spend, passing()),
        Err(ClientRequestError::InvalidAmountTier(7))
    );
    let asks = ClientRequest::Reissuance(reissuance_request(2, vec![coin(1000, 1)], vec![1000, 5]));
    let mut checks = passing();
    checks.mint_denial = Some(MintError { reason: "spent".to_string() });
    assert_eq!(
        engine.submit_client_request(asks, checks),
        Err(ClientRequestError::InvalidAmountTier(5))
    );
    let payout = ClientRequest::PegOut(peg_out_request(3, vec![coin(2000, 1)]));
    assert_eq!(
        engine.submit_client_request(payout, passing()),
        Err(ClientRequestError::InvalidAmountTier(2000))
    );
    let deposit = ClientRequest::PegIn(peg_in_request(4, vec![1000, 3]));
    assert_eq!(
        engine.submit_client_request(deposit, passing()),
        Err(ClientRequestError::InvalidAmountTier(3))
    );
    assert_eq!(engine.db.len(), 0);
}

#[test]
fn mint_denial_rejects_a_reissuance_only() {
    let mut engine = FediMintConsensus::new(config(0, 4));
    let denial = MintError { reason: "coin already spent".to_string() };
    let mut checks = passing();
    checks.mint_denial = Some(denial.clone());
    let request = ClientRequest::Reissuance(reissuance_request(1, vec![coin(1000, 1)], vec![1000]));
    assert_eq!(
        engine.submit_client_request(request, checks),
        Err(ClientRequestError::DeniedByMint(denial.clone()))
    );
    assert_eq!(engine.db.len(), 0);
    let mut checks = passing();
    checks.mint_denial = Some(denial);
    let payout = ClientRequest::PegOut(peg_out_request(2, vec![coin(1000, 1)]));
    assert_eq!(engine.submit_client_request(payout, checks), Ok(()));
    assert_eq!(engine.db.len(), 1);
}

#[test]
fn invalid_peg_in_is_rejected() {
    let mut engine = FediMintConsensus::new(config(0, 4));
    let mut checks = passing();
    checks.peg_in_amount = None;
    let request = ClientRequest::PegIn(peg_in_request(1, vec![1000]));
    assert_eq!(
        engine.submit_client_request(request.clone(), checks),
        Err(ClientRequestError::InvalidPegIn)
    );
    let mut checks = passing();
    checks.signature_valid = false;
    assert_eq!(
        engine.submit_client_request(request, checks),
        Err(ClientRequestError::InvalidPegIn)
    );
    let mut checks = passing();
    checks.peg_in_amount = None;
    let bad_tier = ClientRequest::PegIn(peg_in_request(2, vec![3]));
    assert_eq!(engine.submit_client_request(bad_tier, checks), Err(ClientRequestError::InvalidPegIn));
    assert_eq!(engine.db.len(), 0);
}

#[test]
fn errors_convert_from_their_causes() {
    let denial = MintError { reason: "no".to_string() };
    assert_eq!(
        ClientRequestError::from(denial.clone()),
        ClientRequestError::DeniedByMint(denial)
    );
    assert_eq!(
        ClientRequestError::from(minimint::InvalidAmountTierError(12)),
        ClientRequestError::InvalidAmountTier(12)
    );
}

#[test]
fn proposal_is_the_pending_pool_and_the_wallet_item() {
    let mut engine = FediMintConsensus::new(config(0, 4));
    assert_eq!(engine.get_consensus_proposal(vec![9]), vec![ConsensusItem::Wallet(vec![9])]);
    let request = ClientRequest::PegOut(peg_out_request(2, vec![coin(1000, 1)]));
    assert_eq!(engine.submit_client_request(request.clone(), passing()), Ok(()));
    engine.db.apply(insert_new(DbKey::PartialSignature(vec![5], 1), vec![1]));
    engine.db.apply(insert_new(pending(ConsensusItem::PartiallySignedRequest(vec![5], vec![6])), vec![]));
    assert_eq!(
        engine.get_consensus_proposal(vec![9, 9]),
        vec![
            ConsensusItem::ClientRequest(request),
            ConsensusItem::PartiallySignedRequest(vec![5], vec![6]),
            ConsensusItem::Wallet(vec![9, 9]),
        ]
    );
    assert_eq!(engine.db.len(), 3);
}

#[test]
fn amounts_add_up_or_overflow() {
    assert_eq!(coins_amount(&vec![]), Some(0));
    assert_eq!(coins_amount(&vec![coin(1000, 1), coin(10_000, 2), coin(1000, 3)]), Some(12_000));
    assert_eq!(coins_amount(&vec![coin(u64::MAX, 1)]), Some(u64::MAX));
    assert_eq!(coins_amount(&vec![coin(u64::MAX, 1), coin(1, 2)]), None);
    assert_eq!(tokens_amount(&vec![token(5, 1), token(6, 2)]), Some(11));
    assert_eq!(tokens_amount(&vec![token(u64::MAX - 1, 1), token(1, 2), token(1, 3)]), None);
}

#[test]
fn payout_is_whole_satoshi_less_the_fee() {
    let engine = FediMintConsensus::new(config(0, 4));
    let worth = |tiers: Vec<u64>| {
        peg_out_request(1, tiers.into_iter().enumerate().map(|(i, t)| coin(t, i as u8)).collect())
    };
    assert_eq!(engine.peg_out_amount(&worth(vec![5_000_000])), Some(4000));
    assert_eq!(engine.peg_out_amount(&worth(vec![1_000_000, 999])), Some(0));
    assert_eq!(engine.peg_out_amount(&worth(vec![1_000_000, 1_000_999])), Some(1000));
    assert_eq!(engine.peg_out_amount(&worth(vec![999_999])), None);
    assert_eq!(engine.peg_out_amount(&worth(vec![])), None);
    assert_eq!(engine.peg_out_amount(&worth(vec![u64::MAX, 1])), None);
    assert_eq!(engine.peg_out_amount(&worth(vec![u64::MAX])), Some(u64::MAX / 1000 - 1000));
}

#[test]
fn executed_peg_in_stores_the_share_of_this_node() {
    let mut engine = FediMintConsensus::new(config(2, 4));
    let request = peg_in_request(1, vec![1000]);
    let item = ConsensusItem::ClientRequest(ClientRequest::PegIn(request.clone()));
    assert_eq!(
        engine.submit_client_request(ClientRequest::PegIn(request), passing()),
        Ok(())
    );
    let outcome = ConsensusOutcome { epoch: 1, contributions: vec![(0, vec![item.clone()])] };
    let responses = vec![ItemResponse::PegIn {
        claim: Some((1000, vec![put(0x50, 1)])),
        signature_valid: true,
        signed: Some(vec![0x51, 0x67]),
    }];
    let batch = engine.process_consensus_outcome(&outcome, &vec![], &None, &responses);
    assert_eq!(
        batch,
        vec![
            BatchItem::Delete(pending(item.clone())),
            collaborator(0x50, 1),
            insert_new(
                pending(ConsensusItem::PartiallySignedRequest(vec![1], vec![0x51, 0x67])),
                vec![]
            ),
            insert_new(DbKey::PartialSignature(vec![1], 2), vec![0x51, 0x67]),
        ]
    );
    assert_eq!(engine.db.shares_of(&vec![1]), vec![(2, vec![0x51, 0x67])]);
    assert_eq!(
        engine.db.pending_items(),
        vec![ConsensusItem::PartiallySignedRequest(vec![1], vec![0x51, 0x67])]
    );
    assert_eq!(engine.db.get_value(&DbKey::Collaborator(vec![0x50])), Some(vec![1]));
    assert!(!engine.db.contains_key(&pending(item)));
}

#[test]
fn peg_in_that_fails_a_check_writes_nothing() {
    let engine = FediMintConsensus::new(config(2, 4));
    let request = peg_in_request(1, vec![1000, 10_000]);
    let claim = Some((11_000, vec![put(1, 1)]));
    let signed = Some(vec![5]);
    assert_eq!(engine.process_peg_in_request(&request, &claim, true, &signed).len(), 3);
    assert!(engine.process_peg_in_request(&request, &None, true, &signed).is_empty());
    assert!(engine.process_peg_in_request(&request, &claim, false, &signed).is_empty());
    assert!(engine.process_peg_in_request(&request, &claim, true, &None).is_empty());
    let less = Some((10_999, vec![put(1, 1)]));
    assert!(engine.process_peg_in_request(&request, &less, true, &signed).is_empty());
    let more = Some((11_001, vec![put(1, 1)]));
    assert!(engine.process_peg_in_request(&request, &more, true, &signed).is_empty());
    let huge = peg_in_request(1, vec![u64::MAX, 2]);
    let wrapped = Some((1, vec![]));
    assert!(engine.process_peg_in_request(&huge, &wrapped, true, &signed).is_empty());
}

#[test]
fn reissuance_writes_spend_marks_and_share() {
    let engine = FediMintConsensus::new(config(3, 4));
    let request = reissuance_request(4, vec![coin(1000, 1)], vec![1000]);
    let accepted = Some((vec![7, 7], vec![put(1, 0), RecordOp { key: vec![2], value: None }]));
    assert_eq!(
        engine.process_reissuance_request(&request, &accepted),
        vec![
            collaborator(1, 0),
            BatchItem::Delete(DbKey::Collaborator(vec![2])),
            insert_new(pending(ConsensusItem::PartiallySignedRequest(vec![4], vec![7, 7])), vec![]),
            insert_new(DbKey::PartialSignature(vec![4], 3), vec![7, 7]),
        ]
    );
    assert!(engine.process_reissuance_request(&request, &None).is_empty());
}

#[test]
fn peg_out_with_failed_payout_commits_nothing() {
    let mut engine = FediMintConsensus::new(config(0, 4));
    let request = peg_out_request(1, vec![coin(1_000_000, 1), coin(1_000_000, 2)]);
    let item = ConsensusItem::ClientRequest(ClientRequest::PegOut(request.clone()));
    assert_eq!(engine.submit_client_request(ClientRequest::PegOut(request), passing()), Ok(()));
    let outcome = ConsensusOutcome { epoch: 1, contributions: vec![(1, vec![item.clone()])] };
    let responses = vec![ItemResponse::PegOut {
        signature_valid: true,
        spent: Some(vec![put(0x10, 1), put(0x11, 1)]),
        queued: None,
    }];
    let batch = engine.process_consensus_outcome(&outcome, &vec![], &None, &responses);
    assert_eq!(batch, vec![BatchItem::Delete(pending(item))]);
    assert_eq!(engine.db.len(), 0);
    assert!(!engine.db.contains_key(&DbKey::Collaborator(vec![0x10])));
    assert!(!engine.db.contains_key(&DbKey::Collaborator(vec![0x11])));
}

#[test]
fn peg_out_writes_both_parts_or_neither() {
    let engine = FediMintConsensus::new(config(0, 4));
    let request = peg_out_request(1, vec![coin(1_000_000, 1)]);
    let spent = Some(vec![put(0x10, 1)]);
    let queued = Some(vec![put(0x20, 2)]);
    assert_eq!(
        engine.process_peg_out_request(&request, true, &spent, &queued),
        vec![collaborator(0x10, 1), collaborator(0x20, 2)]
    );
    assert!(engine.process_peg_out_request(&request, true, &None, &queued).is_empty());
    assert!(engine.process_peg_out_request(&request, true, &spent, &None).is_empty());
    assert!(engine.process_peg_out_request(&request, false, &spent, &queued).is_empty());
    let poor = peg_out_request(2, vec![coin(1000, 1)]);
    assert!(engine.process_peg_out_request(&poor, true, &spent, &queued).is_empty());
}

#[test]
fn answers_of_another_kind_count_as_missing() {
    let engine = FediMintConsensus::new(config(0, 4));
    let request = ClientRequest::Reissuance(reissuance_request(4, vec![coin(1000, 1)], vec![1000]));
    let wrong = ItemResponse::PegOut {
        signature_valid: true,
        spent: Some(vec![put(1, 1)]),
        queued: Some(vec![put(2, 2)]),
    };
    assert!(engine.process_client_request(&request, &wrong).is_empty());
    assert!(engine.process_client_request(&request, &ItemResponse::Nothing).is_empty());
    let item = ConsensusItem::ClientRequest(request);
    assert_eq!(
        engine.process_item(1, &item, &ItemResponse::Nothing),
        vec![BatchItem::Delete(pending(item.clone()))]
    );
}

#[test]
fn share_of_a_peer_is_stored_under_its_name() {
    let mut engine = FediMintConsensus::new(config(0, 4));
    let item = ConsensusItem::PartiallySignedRequest(vec![1], vec![0x33]);
    let outcome = ConsensusOutcome { epoch: 1, contributions: vec![(2, vec![item.clone()])] };
    let batch = engine.process_consensus_outcome(&outcome, &vec![], &None, &vec![]);
    assert_eq!(
        batch,
        vec![
            BatchItem::Delete(pending(item)),
            insert_new(DbKey::PartialSignature(vec![1], 2), vec![0x33]),
        ]
    );
    assert_eq!(engine.db.shares_of(&vec![1]), vec![(2, vec![0x33])]);
}

#[test]
fn own_share_is_ignored_and_leaves_the_pool() {
    let mut engine = FediMintConsensus::new(config(2, 4));
    let item = ConsensusItem::PartiallySignedRequest(vec![1], vec![0x33]);
    engine.db.apply(insert_new(pending(item.clone()), vec![]));
    engine.db.apply(insert_new(DbKey::PartialSignature(vec![1], 2), vec![0x33]));
    let outcome = ConsensusOutcome { epoch: 1, contributions: vec![(2, vec![item.clone()])] };
    let batch = engine.process_consensus_outcome(&outcome, &vec![], &None, &vec![]);
    assert_eq!(batch, vec![BatchItem::Delete(pending(item))]);
    assert!(engine.db.pending_items().is_empty());
    assert_eq!(engine.db.shares_of(&vec![1]), vec![(2, vec![0x33])]);
}

#[test]
fn share_for_a_finalized_request_is_dropped() {
    let mut engine = FediMintConsensus::new(config(0, 4));
    engine.db.apply(insert_new(DbKey::FinalizedSignature(vec![1]), vec![0xff]));
    assert!(engine.process_partial_signature(2, &vec![1], &vec![0x33]).is_empty());
    assert_eq!(engine.process_partial_signature(2, &vec![2], &vec![0x33]).len(), 1);
    let item = ConsensusItem::PartiallySignedRequest(vec![1], vec![0x33]);
    let outcome = ConsensusOutcome { epoch: 1, contributions: vec![(2, vec![item])] };
    engine.process_consensus_outcome(&outcome, &vec![], &None, &vec![]);
    assert!(engine.db.shares_of(&vec![1]).is_empty());
    assert!(engine.db.is_finalized(&vec![1]));
}

#[test]
fn second_share_of_a_peer_does_not_replace_the_first() {
    let mut engine = FediMintConsensus::new(config(0, 4));
    let first = ConsensusItem::PartiallySignedRequest(vec![1], vec![0x01]);
    let second = ConsensusItem::PartiallySignedRequest(vec![1], vec![0x02]);
    let outcome = ConsensusOutcome { epoch: 1, contributions: vec![(2, vec![first, second])] };
    engine.process_consensus_outcome(&outcome, &vec![], &None, &vec![]);
    assert_eq!(engine.db.shares_of(&vec![1]), vec![(2, vec![0x01])]);
}

#[test]
fn wallet_part_comes_first_in_the_batch() {
    let mut engine = FediMintConsensus::new(config(0, 4));
    let item = ConsensusItem::Wallet(vec![4]);
    let outcome = ConsensusOutcome { epoch: 1, contributions: vec![(1, vec![item.clone()])] };
    let batch =
        engine.process_consensus_outcome(&outcome, &vec![put(0x60, 6)], &Some(vec![0x61]), &vec![]);
    assert_eq!(
        batch,
        vec![
            collaborator(0x60, 6),
            insert_new(pending(ConsensusItem::Wallet(vec![0x61])), vec![]),
            BatchItem::Delete(pending(item)),
        ]
    );
    assert_eq!(engine.db.pending_items(), vec![ConsensusItem::Wallet(vec![0x61])]);
}

#[test]
fn wallet_items_go_to_the_wallet_unfiltered() {
    let outcome = ConsensusOutcome {
        epoch: 1,
        contributions: vec![
            (0, vec![ConsensusItem::Wallet(vec![1]), ConsensusItem::PartiallySignedRequest(vec![1], vec![1])]),
            (1, vec![ConsensusItem::Wallet(vec![1]), ConsensusItem::Wallet(vec![2])]),
        ],
    };
    assert_eq!(wallet_contributions(&outcome), vec![(0, vec![1]), (1, vec![1]), (1, vec![2])]);
}

#[test]
fn conflicting_requests_are_not_executed() {
    let mut engine = FediMintConsensus::new(config(0, 4));
    let x = coin(1000, 1);
    let a = ConsensusItem::ClientRequest(ClientRequest::Reissuance(reissuance_request(
        1,
        vec![x.clone()],
        vec![1000],
    )));
    let b = ConsensusItem::ClientRequest(ClientRequest::PegOut(peg_out_request(2, vec![x])));
    let outcome = ConsensusOutcome { epoch: 1, contributions: vec![(1, vec![a]), (2, vec![b])] };
    let responses = vec![
        ItemResponse::Reissuance { reissued: Some((vec![1], vec![put(1, 1)])) },
        ItemResponse::PegOut {
            signature_valid: true,
            spent: Some(vec![put(1, 1)]),
            queued: Some(vec![put(2, 2)]),
        },
    ];
    let batch = engine.process_consensus_outcome(&outcome, &vec![], &None, &responses);
    assert!(batch.is_empty());
    assert_eq!(engine.db.len(), 0);
}

#[test]
fn processing_twice_gives_the_same_batch() {
    let a = ConsensusItem::ClientRequest(ClientRequest::Reissuance(reissuance_request(
        1,
        vec![coin(1000, 1)],
        vec![1000],
    )));
    let b = ConsensusItem::ClientRequest(ClientRequest::PegIn(peg_in_request(2, vec![1000])));
    let s = ConsensusItem::PartiallySignedRequest(vec![9], vec![1]);
    let outcome = ConsensusOutcome {
        epoch: 3,
        contributions: vec![(1, vec![a, s.clone()]), (2, vec![s, b])],
    };
    let responses = vec![
        ItemResponse::Reissuance { reissued: Some((vec![1], vec![put(1, 1)])) },
        ItemResponse::Nothing,
        ItemResponse::PegIn { claim: Some((1000, vec![put(3, 3)])), signature_valid: true, signed: Some(vec![2]) },
    ];
    let mut first = FediMintConsensus::new(config(0, 4));
    let mut second = FediMintConsensus::new(config(0, 4));
    let one = first.process_consensus_outcome(&outcome, &vec![], &None, &responses);
    let two = second.process_consensus_outcome(&outcome, &vec![], &None, &responses);
    assert_eq!(one, two);
    assert_eq!(one.len(), 10);
    assert_eq!(first.db.len(), second.db.len());
    for i in 0..first.db.len() {
        assert_eq!(first.db.entry(i), second.db.entry(i));
    }

    let engine = FediMintConsensus::new(config(0, 4));
    let kept = filter_conflicts(&outcome);
    assert_eq!(kept.len(), 3);
    let mut fragments = vec![Vec::new(), Vec::new(), Vec::new()];
    for i in [2usize, 0, 1] {
        fragments[i] = engine.process_item(kept[i].0, &kept[i].1, &responses[i]);
    }
    assert_eq!(merge_fragments(fragments), one);
}
