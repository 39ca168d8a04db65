use minimint::{
    filter_conflicts, BlindToken, ClientRequest, Coin, ConsensusItem, ConsensusOutcome,
    PegInProof, PegInRequest, PegOutRequest, ReissuanceRequest,
};

fn coin(tier: u64, token: u8) -> Coin {
    Coin { tier, token: vec![token, token, token] }
}

fn token(tier: u64, message: u8) -> BlindToken {
    BlindToken { tier, message: vec![message] }
}

fn reissuance(id: u8, coins: Vec<Coin>) -> ConsensusItem {
    ConsensusItem::ClientRequest(ClientRequest::Reissuance(ReissuanceRequest {
        id: vec![id],
        coins,
        blind_tokens: vec![token(1000, id)],
        sig: vec![0xaa, id],
    }))
}

fn peg_out(id: u8, coins: Vec<Coin>) -> ConsensusItem {
    ConsensusItem::ClientRequest(ClientRequest::PegOut(PegOutRequest {
        id: vec![id],
        coins,
        address: vec![0xbc, 0x1f],
        sig: vec![0xbb, id],
    }))
}

fn peg_in(id: u8, txid: u8, vout: u32) -> ConsensusItem {
    ConsensusItem::ClientRequest(ClientRequest::PegIn(PegInRequest {
        id: vec![id],
        proof: PegInProof { txid: vec![txid; 4], vout, witness: vec![id, 9] },
        blind_tokens: vec![token(1000, id)],
        sig: vec![0xcc, id],
    }))
}

fn share(id: u8, sig: u8) -> ConsensusItem {
    ConsensusItem::PartiallySignedRequest(vec![id], vec![sig])
}

fn outcome(contributions: Vec<(u16, Vec<ConsensusItem>)>) -> ConsensusOutcome {
    ConsensusOutcome { epoch: 7, contributions }
}

fn spends(item: &ConsensusItem, wanted: &Coin) -> bool {
    match item {
        ConsensusItem::ClientRequest(ClientRequest::Reissuance(r)) => r.coins.contains(wanted),
        ConsensusItem::ClientRequest(ClientRequest::PegOut(r)) => r.coins.contains(wanted),
        _ => false,
    }
}

#[test]
fn conflicting_reissuances_are_both_dropped() {
    let x = coin(1000, 1);
    let a = reissuance(1, vec![x.clone()]);
    let b = reissuance(2, vec![x.clone()]);
    let kept = filter_conflicts(&outcome(vec![(0, vec![a]), (1, vec![b])]));
    assert_eq!(kept.iter().filter(|(_, item)| spends(item, &x)).count(), 0);
    assert!(kept.is_empty());
}

#[test]
fn conflict_drops_only_the_requests_that_share_the_coin() {
    let x = coin(1000, 1);
    let y = coin(2000, 2);
    let z = coin(1000, 3);
    let a = reissuance(1, vec![x.clone(), y.clone()]);
    let b = peg_out(2, vec![x.clone()]);
    let c = reissuance(3, vec![z.clone()]);
    let kept = filter_conflicts(&outcome(vec![(0, vec![a, c.clone()]), (2, vec![b])]));
    assert_eq!(kept, vec![(0, c)]);
}

#[test]
fn unconflicted_items_survive_in_order() {
    let a = reissuance(1, vec![coin(1000, 1)]);
    let b = peg_out(2, vec![coin(1000, 2), coin(2000, 2)]);
    let c = peg_in(3, 7, 0);
    let s = share(9, 5);
    let w = ConsensusItem::Wallet(vec![1, 2, 3]);
    let kept = filter_conflicts(&outcome(vec![
        (1, vec![a.clone(), s.clone()]),
        (3, vec![w.clone(), b.clone(), c.clone()]),
    ]));
    assert_eq!(kept, vec![(1, a), (1, s), (3, w), (3, b), (3, c)]);
}

#[test]
fn same_token_in_two_tiers_is_two_coins() {
    let a = reissuance(1, vec![coin(1000, 1)]);
    let b = reissuance(2, vec![coin(2000, 1)]);
    let kept = filter_conflicts(&outcome(vec![(0, vec![a.clone()]), (1, vec![b.clone()])]));
    assert_eq!(kept, vec![(0, a), (1, b)]);
}

#[test]
fn coin_named_twice_by_one_request_drops_it() {
    let x = coin(1000, 1);
    let a = reissuance(1, vec![x.clone(), x.clone()]);
    let b = reissuance(2, vec![coin(1000, 2)]);
    let kept = filter_conflicts(&outcome(vec![(0, vec![a, b.clone()])]));
    assert_eq!(kept, vec![(0, b)]);
}

#[test]
fn spend_contributed_by_two_peers_counts_twice() {
    let a = reissuance(1, vec![coin(1000, 1)]);
    let kept = filter_conflicts(&outcome(vec![(0, vec![a.clone()]), (1, vec![a])]));
    assert!(kept.is_empty());
}

#[test]
fn shares_and_wallet_items_are_deduplicated_not_filtered() {
    let s = share(4, 1);
    let t = share(4, 2);
    let w = ConsensusItem::Wallet(vec![8]);
    let kept = filter_conflicts(&outcome(vec![
        (0, vec![s.clone(), w.clone()]),
        (1, vec![s.clone(), t.clone(), w.clone()]),
        (2, vec![t.clone()]),
    ]));
    assert_eq!(kept, vec![(0, s), (0, w), (1, t)]);
}

#[test]
fn deposit_claimed_by_two_peg_ins_drops_both() {
    let a = peg_in(1, 7, 0);
    let b = peg_in(2, 7, 0);
    let c = peg_in(3, 7, 1);
    let kept = filter_conflicts(&outcome(vec![(0, vec![a, c.clone()]), (1, vec![b])]));
    assert_eq!(kept, vec![(0, c)]);
}

#[test]
fn deposit_and_coin_with_equal_key_do_not_conflict() {
    let a = reissuance(1, vec![Coin { tier: 0, token: vec![7, 7, 7, 7] }]);
    let b = peg_in(2, 7, 0);
    let kept = filter_conflicts(&outcome(vec![(0, vec![a.clone(), b.clone()])]));
    assert_eq!(kept, vec![(0, a), (0, b)]);
}

#[test]
fn empty_outcome_keeps_nothing() {
    assert!(filter_conflicts(&outcome(vec![])).is_empty());
    assert!(filter_conflicts(&outcome(vec![(0, vec![]), (1, vec![])])).is_empty());
}

#[test]
fn no_coin_is_spent_twice_among_survivors() {
    let coins: Vec<Coin> = (0..6u8).map(|i| coin(1000, i)).collect();
    let items = vec![
        (0u16, vec![
            reissuance(1, vec![coins[0].clone(), coins[1].clone()]),
            peg_out(2, vec![coins[2].clone()]),
        ]),
        (1u16, vec![
            reissuance(3, vec![coins[1].clone(), coins[3].clone()]),
            peg_out(4, vec![coins[4].clone()]),
        ]),
        (2u16, vec![peg_out(5, vec![coins[5].clone(), coins[2].clone()])]),
    ];
    let kept = filter_conflicts(&outcome(items));
    for c in &coins {
        assert!(kept.iter().filter(|(_, item)| spends(item, c)).count() <= 1);
    }
    assert_eq!(kept, vec![(1, peg_out(4, vec![coins[4].clone()]))]);
}

#[test]
fn filtering_twice_gives_the_same_survivors() {
    let o = outcome(vec![
        (0, vec![reissuance(1, vec![coin(1000, 1)]), share(1, 1)]),
        (1, vec![peg_in(2, 1, 1), share(1, 1)]),
    ]);
    assert_eq!(filter_conflicts(&o), filter_conflicts(&o));
}
