//! The conflict filter: from the agreed proposals of one epoch to the items
//! that are executed.
//!
//! Every honest peer has to keep the same items, so what is kept depends on
//! the content of the outcome alone. An item is kept where it first occurs,
//! and only if each coin it spends and each deposit it claims is named once
//! in the whole outcome, duplicates included.

use crate::item::{
    bytes_clone, lemma_bytes_deep_view, lemma_deep_view_append, lemma_deep_view_push,
    ClientRequest, Coin, ConsensusItem, ConsensusItemView, ConsensusOutcome, PeerId,
};
use crate::tally::{tally, tally_contents, tally_count, Key, KeyView};
use counter::Counter;
use vstd::prelude::*;
use vstd::seq_lib::{lemma_multiset_commutative, to_multiset_contains};

verus! {

/// An item with the peer that contributed it.
pub type Contribution = (PeerId, ConsensusItem);

/// The value of a [`Contribution`].
pub type ContributionView = (u16, ConsensusItemView);

/// The items of one peer, each paired with the peer.
pub open spec fn tagged(peer: u16, items: Seq<ConsensusItemView>) -> Seq<ContributionView> {
    items.map_values(|item: ConsensusItemView| (peer, item))
}

/// All items of an outcome in one list: peer after peer, each peer's items in
/// the order it gave them.
pub open spec fn flattened(contributions: Seq<(u16, Seq<ConsensusItemView>)>) -> Seq<
    ContributionView,
>
    decreases contributions.len(),
{
    if contributions.len() == 0 {
        Seq::empty()
    } else {
        flattened(contributions.drop_last()) + tagged(
            contributions.last().0,
            contributions.last().1,
        )
    }
}

/// The two kinds of thing that only one request of an epoch may use.
#[derive(Clone, Copy, Debug)]
pub enum Resource {
    /// A coin, spent by a reissuance or a peg-out.
    Coin,
    /// An on-chain deposit, claimed by a peg-in.
    Deposit,
}

/// The keys of one kind that an item uses, each as often as the item names it.
pub open spec fn item_keys(item: ConsensusItemView, kind: Resource) -> Seq<KeyView> {
    match kind {
        Resource::Coin => item.spent_coins(),
        Resource::Deposit => item.claimed_deposits(),
    }
}

/// The keys of one kind that the items of a list use, duplicates of items and
/// of keys included.
pub open spec fn all_keys(flat: Seq<ContributionView>, kind: Resource) -> Seq<KeyView>
    decreases flat.len(),
{
    if flat.len() == 0 {
        Seq::empty()
    } else {
        all_keys(flat.drop_last(), kind) + item_keys(flat.last().1, kind)
    }
}

/// How often a key of one kind is named in a list of items.
pub open spec fn occurrences(flat: Seq<ContributionView>, kind: Resource, key: KeyView) -> nat {
    all_keys(flat, kind).to_multiset().count(key)
}

/// Whether every key of one kind that the item uses is named exactly once in
/// the list.
pub open spec fn exclusive(
    flat: Seq<ContributionView>,
    item: ConsensusItemView,
    kind: Resource,
) -> bool {
    forall|k: int|
        0 <= k < item_keys(item, kind).len() ==> occurrences(
            flat,
            kind,
            #[trigger] item_keys(item, kind)[k],
        ) == 1
}

/// Whether the item conflicts with nothing in the list: exclusive in its
/// coins and in its deposits. Signature shares and wallet items use neither
/// and never conflict.
pub open spec fn unconflicted(flat: Seq<ContributionView>, item: ConsensusItemView) -> bool {
    exclusive(flat, item, Resource::Coin) && exclusive(flat, item, Resource::Deposit)
}

/// Whether no earlier entry of the list holds the same item as entry `i`.
pub open spec fn first_occurrence(flat: Seq<ContributionView>, i: int) -> bool {
    forall|j: int| 0 <= j < i ==> (#[trigger] flat[j]).1 != flat[i].1
}

/// Whether entry `i` of the list is kept.
pub open spec fn kept(flat: Seq<ContributionView>, i: int) -> bool {
    unconflicted(flat, flat[i].1) && first_occurrence(flat, i)
}

/// The kept ones among the first `n` entries of the list, in order.
pub open spec fn survivors_upto(flat: Seq<ContributionView>, n: nat) -> Seq<ContributionView>
    decreases n,
{
    if n == 0 {
        Seq::empty()
    } else {
        let before = survivors_upto(flat, (n - 1) as nat);
        if kept(flat, n - 1) {
            before.push(flat[n - 1])
        } else {
            before
        }
    }
}

/// The items of an outcome that are executed, each with the first peer that
/// contributed it.
pub open spec fn survivors(contributions: Seq<(u16, Seq<ConsensusItemView>)>) -> Seq<
    ContributionView,
> {
    let flat = flattened(contributions);
    survivors_upto(flat, flat.len())
}

/// Whether no key of the kind is used by two entries of the list.
pub open spec fn used_once(list: Seq<ContributionView>, kind: Resource) -> bool {
    forall|i: int, j: int, key: KeyView|
        0 <= i < list.len() && 0 <= j < list.len() && #[trigger] item_keys(
            list[i].1,
            kind,
        ).contains(key) && #[trigger] item_keys(list[j].1, kind).contains(key) ==> i == j
}

/// Whether no two entries of the list hold the same item.
pub open spec fn deduplicated(list: Seq<ContributionView>) -> bool {
    forall|i: int, j: int|
        0 <= i < j < list.len() ==> (#[trigger] list[i]).1 != (#[trigger] list[j]).1
}

/// All items of an outcome in one list, each with its peer.
pub fn flatten(outcome: &ConsensusOutcome) -> (flat: Vec<Contribution>)
    ensures
        flat.deep_view() == flattened(outcome@.contributions),
{
    let mut flat: Vec<Contribution> = Vec::new();
    let ghost contributions = outcome@.contributions;
    let mut p: usize = 0;
    while p < outcome.contributions.len()
        invariant
            p <= outcome.contributions.len(),
            contributions == outcome.contributions.deep_view(),
            flat.deep_view() == flattened(contributions.take(p as int)),
        decreases outcome.contributions.len() - p,
    {
        let peer = outcome.contributions[p].0;
        let items = &outcome.contributions[p].1;
        let ghost before = flat.deep_view();
        let mut i: usize = 0;
        while i < items.len()
            invariant
                i <= items.len(),
                flat.deep_view() == before + tagged(peer, items.deep_view().take(i as int)),
            decreases items.len() - i,
        {
            let ghost shorter = flat;
            flat.push((peer, items[i].clone()));
            proof {
                lemma_deep_view_push(shorter, flat, flat@.last());
                let grown = items.deep_view().take(i + 1);
                assert(grown.drop_last() == items.deep_view().take(i as int));
                assert(tagged(peer, grown) =~= tagged(peer, grown.drop_last()).push(
                    (peer, items[i as int]@),
                ));
                assert(flat.deep_view() =~= before + tagged(peer, grown));
            }
            i += 1;
        }
        proof {
            let grown = contributions.take(p + 1);
            assert(grown.drop_last() == contributions.take(p as int));
            assert(items.deep_view().take(items.len() as int) == items.deep_view());
        }
        p += 1;
    }
    proof {
        assert(contributions.take(p as int) == contributions);
    }
    flat
}

/// The content keys of a list of coins.
pub fn coin_keys(coins: &Vec<Coin>) -> (keys: Vec<Key>)
    ensures
        keys.deep_view() == coins.deep_view(),
{
    let mut keys: Vec<Key> = Vec::new();
    let mut i: usize = 0;
    while i < coins.len()
        invariant
            i <= coins.len(),
            keys.deep_view() == coins.deep_view().take(i as int),
        decreases coins.len() - i,
    {
        let ghost shorter = keys;
        keys.push((coins[i].tier, bytes_clone(&coins[i].token)));
        proof {
            broadcast use lemma_bytes_deep_view;

            lemma_deep_view_push(shorter, keys, keys@.last());
            assert(keys.deep_view() =~= coins.deep_view().take(i + 1));
        }
        i += 1;
    }
    proof {
        assert(coins.deep_view().take(i as int) == coins.deep_view());
    }
    keys
}

/// The keys of one kind that an item uses.
pub fn keys_of(item: &ConsensusItem, kind: Resource) -> (keys: Vec<Key>)
    ensures
        keys.deep_view() == item_keys(item@, kind),
{
    let keys = match (item, kind) {
        (ConsensusItem::ClientRequest(ClientRequest::Reissuance(r)), Resource::Coin) => coin_keys(
            &r.coins,
        ),
        (ConsensusItem::ClientRequest(ClientRequest::PegOut(r)), Resource::Coin) => coin_keys(
            &r.coins,
        ),
        (ConsensusItem::ClientRequest(ClientRequest::PegIn(r)), Resource::Deposit) => {
            let mut one: Vec<Key> = Vec::new();
            one.push(r.proof.identity());
            one
        },
        _ => Vec::new(),
    };
    proof {
        assert(keys.deep_view() =~= item_keys(item@, kind));
    }
    keys
}

/// The keys of one kind that the items of a list use.
pub fn gather_keys(flat: &Vec<Contribution>, kind: Resource) -> (keys: Vec<Key>)
    ensures
        keys.deep_view() == all_keys(flat.deep_view(), kind),
{
    let mut keys: Vec<Key> = Vec::new();
    let mut i: usize = 0;
    while i < flat.len()
        invariant
            i <= flat.len(),
            keys.deep_view() == all_keys(flat.deep_view().take(i as int), kind),
        decreases flat.len() - i,
    {
        let mut more = keys_of(&flat[i].1, kind);
        let ghost shorter = keys;
        let ghost tail = more;
        keys.append(&mut more);
        proof {
            lemma_deep_view_append(shorter, keys, tail);
            let grown = flat.deep_view().take(i + 1);
            assert(grown.drop_last() == flat.deep_view().take(i as int));
            assert(grown.last().1 == flat[i as int].1@);
        }
        i += 1;
    }
    proof {
        assert(flat.deep_view().take(i as int) == flat.deep_view());
    }
    keys
}

/// Whether every key of one kind that the item uses was counted exactly once.
fn is_exclusive(
    item: &ConsensusItem,
    kind: Resource,
    counts: &Counter<Key>,
    Ghost(flat): Ghost<Seq<ContributionView>>,
) -> (r: bool)
    requires
        tally_contents(*counts) == all_keys(flat, kind).to_multiset(),
    ensures
        r == exclusive(flat, item@, kind),
{
    let keys = keys_of(item, kind);
    let mut k: usize = 0;
    while k < keys.len()
        invariant
            k <= keys.len(),
            keys.deep_view() == item_keys(item@, kind),
            tally_contents(*counts) == all_keys(flat, kind).to_multiset(),
            forall|m: int|
                0 <= m < k ==> occurrences(flat, kind, #[trigger] item_keys(item@, kind)[m]) == 1,
        decreases keys.len() - k,
    {
        let n = tally_count(counts, &keys[k]);
        proof {
            assert(keys.deep_view()[k as int] == keys[k as int].deep_view());
        }
        if n != 1 {
            return false;
        }
        k += 1;
    }
    true
}

/// Whether no earlier entry of the list holds the same item as entry `i`.
fn is_first_occurrence(flat: &Vec<Contribution>, i: usize) -> (r: bool)
    requires
        i < flat.len(),
    ensures
        r == first_occurrence(flat.deep_view(), i as int),
{
    let mut j: usize = 0;
    while j < i
        invariant
            j <= i < flat.len(),
            forall|m: int|
                0 <= m < j ==> (#[trigger] flat.deep_view()[m]).1 != flat.deep_view()[i as int].1,
        decreases i - j,
    {
        if flat[j].1 == flat[i].1 {
            proof {
                assert(flat.deep_view()[j as int].1 == flat.deep_view()[i as int].1);
            }
            return false;
        }
        j += 1;
    }
    true
}

/// The positions in the list of the kept ones among its first `n` entries.
pub open spec fn kept_positions(flat: Seq<ContributionView>, n: nat) -> Seq<int>
    decreases n,
{
    if n == 0 {
        Seq::empty()
    } else {
        let before = kept_positions(flat, (n - 1) as nat);
        if kept(flat, n - 1) {
            before.push(n - 1)
        } else {
            before
        }
    }
}

/// Each survivor is a kept entry of the list, and survivors stand in the
/// order of their entries.
pub proof fn lemma_survivor_positions(flat: Seq<ContributionView>, n: nat)
    requires
        n <= flat.len(),
    ensures
        survivors_upto(flat, n).len() == kept_positions(flat, n).len(),
        forall|i: int|
            0 <= i < survivors_upto(flat, n).len() ==> {
                let p = #[trigger] kept_positions(flat, n)[i];
                0 <= p < n && kept(flat, p) && survivors_upto(flat, n)[i] == flat[p]
            },
        forall|i: int, j: int|
            0 <= i < j < survivors_upto(flat, n).len() ==> kept_positions(flat, n)[i]
                < kept_positions(flat, n)[j],
    decreases n,
{
    if n > 0 {
        lemma_survivor_positions(flat, (n - 1) as nat);
    }
}

/// A key that an entry of the list uses occurs in the list.
pub proof fn lemma_used_key_occurs(
    flat: Seq<ContributionView>,
    kind: Resource,
    p: int,
    key: KeyView,
)
    requires
        0 <= p < flat.len(),
        item_keys(flat[p].1, kind).contains(key),
    ensures
        occurrences(flat, kind, key) >= 1,
    decreases flat.len(),
{
    broadcast use to_multiset_contains;

    lemma_multiset_commutative(all_keys(flat.drop_last(), kind), item_keys(flat.last().1, kind));
    if p < flat.len() - 1 {
        lemma_used_key_occurs(flat.drop_last(), kind, p, key);
    }
}

/// A key that two entries of the list use occurs at least twice in the list.
pub proof fn lemma_shared_key_occurs_twice(
    flat: Seq<ContributionView>,
    kind: Resource,
    p: int,
    q: int,
    key: KeyView,
)
    requires
        0 <= p < q < flat.len(),
        item_keys(flat[p].1, kind).contains(key),
        item_keys(flat[q].1, kind).contains(key),
    ensures
        occurrences(flat, kind, key) >= 2,
    decreases flat.len(),
{
    broadcast use to_multiset_contains;

    lemma_multiset_commutative(all_keys(flat.drop_last(), kind), item_keys(flat.last().1, kind));
    if q < flat.len() - 1 {
        lemma_shared_key_occurs_twice(flat.drop_last(), kind, p, q, key);
    } else {
        lemma_used_key_occurs(flat.drop_last(), kind, p, key);
    }
}

/// Among the survivors of a list no key is used by two entries: a coin is
/// spent by at most one of them, a deposit claimed by at most one.
pub proof fn lemma_survivors_used_once(flat: Seq<ContributionView>, kind: Resource)
    ensures
        used_once(survivors_upto(flat, flat.len()), kind),
{
    let list = survivors_upto(flat, flat.len());
    let positions = kept_positions(flat, flat.len());
    lemma_survivor_positions(flat, flat.len());
    assert forall|i: int, j: int, key: KeyView|
        0 <= i < list.len() && 0 <= j < list.len() && #[trigger] item_keys(
            list[i].1,
            kind,
        ).contains(key) && #[trigger] item_keys(list[j].1, kind).contains(key) implies i
        == j by {
        if i != j {
            let p = positions[i];
            let q = positions[j];
            if i < j {
                lemma_shared_key_occurs_twice(flat, kind, p, q, key);
            } else {
                lemma_shared_key_occurs_twice(flat, kind, q, p, key);
            }
            let k = choose|k: int|
                0 <= k < item_keys(flat[p].1, kind).len() && item_keys(flat[p].1, kind)[k] == key;
            assert(occurrences(flat, kind, item_keys(flat[p].1, kind)[k]) == 1);
        }
    }
}

/// No item is among the survivors twice.
pub proof fn lemma_survivors_deduplicated(flat: Seq<ContributionView>)
    ensures
        deduplicated(survivors_upto(flat, flat.len())),
{
    let list = survivors_upto(flat, flat.len());
    let positions = kept_positions(flat, flat.len());
    lemma_survivor_positions(flat, flat.len());
    assert forall|i: int, j: int| 0 <= i < j < list.len() implies (#[trigger] list[i]).1 != (
    #[trigger] list[j]).1 by {
        let p = positions[i];
        let q = positions[j];
        assert(flat[p].1 != flat[q].1);
    }
}

/// Every survivor is an entry of the list, and conflicts with nothing in it.
pub proof fn lemma_survivors_are_unconflicted(flat: Seq<ContributionView>)
    ensures
        forall|i: int|
            0 <= i < survivors_upto(flat, flat.len()).len() ==> flat.contains(
                #[trigger] survivors_upto(flat, flat.len())[i],
            ) && unconflicted(flat, survivors_upto(flat, flat.len())[i].1),
{
    let list = survivors_upto(flat, flat.len());
    let positions = kept_positions(flat, flat.len());
    lemma_survivor_positions(flat, flat.len());
    assert forall|i: int| 0 <= i < list.len() implies flat.contains(#[trigger] list[i])
        && unconflicted(flat, list[i].1) by {
        let p = positions[i];
        assert(flat[p] == list[i]);
    }
}

/// A kept entry among the first `n` is a survivor among the first `n`.
proof fn lemma_kept_entry_survives(flat: Seq<ContributionView>, n: nat, q: int)
    requires
        0 <= q < n <= flat.len(),
        kept(flat, q),
    ensures
        survivors_upto(flat, n).contains(flat[q]),
    decreases n,
{
    let list = survivors_upto(flat, n);
    if q == n - 1 {
        assert(list[list.len() - 1] == flat[q]);
    } else {
        lemma_kept_entry_survives(flat, (n - 1) as nat, q);
        let before = survivors_upto(flat, (n - 1) as nat);
        let i = choose|i: int| 0 <= i < before.len() && before[i] == flat[q];
        assert(list[i] == flat[q]);
    }
}

/// Every item of the list occurs first somewhere at or before each of its
/// places.
proof fn lemma_first_occurrence_exists(flat: Seq<ContributionView>, p: int)
    requires
        0 <= p < flat.len(),
    ensures
        exists|q: int| 0 <= q <= p && flat[q].1 == flat[p].1 && first_occurrence(flat, q),
    decreases p,
{
    if !first_occurrence(flat, p) {
        let j = choose|j: int| 0 <= j < p && (#[trigger] flat[j]).1 == flat[p].1;
        lemma_first_occurrence_exists(flat, j);
        let q = choose|q: int| 0 <= q <= j && flat[q].1 == flat[j].1 && first_occurrence(flat, q);
        assert(0 <= q <= p && flat[q].1 == flat[p].1 && first_occurrence(flat, q));
    }
}

/// Nothing is dropped without a conflict: an item of the list that conflicts
/// with nothing is among the survivors. In particular every signature share
/// and every wallet item of the list is.
pub proof fn lemma_unconflicted_survive(flat: Seq<ContributionView>, p: int)
    requires
        0 <= p < flat.len(),
        unconflicted(flat, flat[p].1),
    ensures
        exists|i: int|
            0 <= i < survivors_upto(flat, flat.len()).len() && (#[trigger] survivors_upto(
                flat,
                flat.len(),
            )[i]).1 == flat[p].1,
{
    let list = survivors_upto(flat, flat.len());
    lemma_first_occurrence_exists(flat, p);
    let q = choose|q: int| 0 <= q <= p && flat[q].1 == flat[p].1 && first_occurrence(flat, q);
    lemma_kept_entry_survives(flat, flat.len(), q);
    let i = choose|i: int| 0 <= i < list.len() && list[i] == flat[q];
    assert(list[i].1 == flat[p].1);
}

/// The conflict filter. Of the items of an outcome it keeps those that
/// conflict with nothing, each once, with the first peer that contributed it
/// and in the order of the outcome. An item conflicts when a coin it spends
/// or a deposit it claims is named more than once in the outcome, be it by
/// another item, by a copy of the same item or twice by the item itself; all
/// items that name such a coin or deposit are dropped. Signature shares and
/// wallet items are only deduplicated.
///
/// Among the kept items no coin is spent twice and no deposit claimed twice.
pub fn filter_conflicts(outcome: &ConsensusOutcome) -> (kept_items: Vec<Contribution>)
    ensures
        kept_items.deep_view() == survivors(outcome@.contributions),
        used_once(kept_items.deep_view(), Resource::Coin),
        used_once(kept_items.deep_view(), Resource::Deposit),
        deduplicated(kept_items.deep_view()),
{
    let flat = flatten(outcome);
    let spent = tally(gather_keys(&flat, Resource::Coin));
    let claimed = tally(gather_keys(&flat, Resource::Deposit));
    let ghost all = flat.deep_view();
    let mut kept_items: Vec<Contribution> = Vec::new();
    let mut i: usize = 0;
    while i < flat.len()
        invariant
            i <= flat.len(),
            all == flat.deep_view(),
            tally_contents(spent) == all_keys(all, Resource::Coin).to_multiset(),
            tally_contents(claimed) == all_keys(
                all,
                Resource::Deposit,
            ).to_multiset(),
            kept_items.deep_view() == survivors_upto(all, i as nat),
        decreases flat.len() - i,
    {
        let item = &flat[i].1;
        proof {
            assert(all[i as int] == (flat[i as int].0, flat[i as int].1@));
        }
        if is_exclusive(item, Resource::Coin, &spent, Ghost(all)) && is_exclusive(
            item,
            Resource::Deposit,
            &claimed,
            Ghost(all),
        ) && is_first_occurrence(&flat, i) {
            let ghost shorter = kept_items;
            kept_items.push((flat[i].0, item.clone()));
            proof {
                lemma_deep_view_push(shorter, kept_items, kept_items@.last());
            }
        }
        i += 1;
    }
    proof {
        lemma_survivors_used_once(all, Resource::Coin);
        lemma_survivors_used_once(all, Resource::Deposit);
        lemma_survivors_deduplicated(all);
    }
    kept_items
}

} // verus!
