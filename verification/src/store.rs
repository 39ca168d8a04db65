//! The item store: one keyed space that holds the pending pool, the
//! signature shares, the finalized signatures and the records of the mint and
//! the wallet. It changes by batches only.
//!
//! A batch is applied entry by entry and cannot fail: inserting under a key
//! that is taken keeps the entry that is there (the first write wins), and
//! deleting a key that is absent does nothing. So two shares of one peer for
//! one request never stand side by side, whatever peers propose.

use crate::item::{
    bytes_clone, bytes_eq, lemma_bytes_deep_view, lemma_deep_view_push, ConsensusItem,
    ConsensusItemView, PeerId, TransactionId,
};
use vstd::prelude::*;
use vstd::std_specs::cmp::PartialEqSpecImpl;

verus! {

/// A key of the store.
#[derive(Debug)]
pub enum DbKey {
    /// An item of the pending pool: proposed by this node until it is
    /// executed or its request is finalized. The item is the key.
    Pending(ConsensusItem),
    /// The signature share of one peer for one request.
    PartialSignature(TransactionId, PeerId),
    /// The complete signature of a request.
    FinalizedSignature(TransactionId),
    /// A record of the mint or of the wallet, under a key of their choosing.
    Collaborator(Vec<u8>),
}

/// The value of a [`DbKey`].
pub ghost enum DbKeyView {
    Pending(ConsensusItemView),
    PartialSignature(Seq<u8>, u16),
    FinalizedSignature(Seq<u8>),
    Collaborator(Seq<u8>),
}

impl View for DbKey {
    type V = DbKeyView;

    open spec fn view(&self) -> DbKeyView {
        match self {
            DbKey::Pending(item) => DbKeyView::Pending(item@),
            DbKey::PartialSignature(id, peer) => DbKeyView::PartialSignature(id@, *peer),
            DbKey::FinalizedSignature(id) => DbKeyView::FinalizedSignature(id@),
            DbKey::Collaborator(key) => DbKeyView::Collaborator(key@),
        }
    }
}

impl DeepView for DbKey {
    type V = DbKeyView;

    open spec fn deep_view(&self) -> DbKeyView {
        self@
    }
}

impl PartialEq for DbKey {
    fn eq(&self, other: &Self) -> (r: bool) {
        match (self, other) {
            (DbKey::Pending(a), DbKey::Pending(b)) => *a == *b,
            (DbKey::PartialSignature(a, p), DbKey::PartialSignature(b, q)) => *p == *q
                && bytes_eq(a, b),
            (DbKey::FinalizedSignature(a), DbKey::FinalizedSignature(b)) => bytes_eq(a, b),
            (DbKey::Collaborator(a), DbKey::Collaborator(b)) => bytes_eq(a, b),
            _ => false,
        }
    }
}

impl PartialEqSpecImpl for DbKey {
    open spec fn obeys_eq_spec() -> bool {
        true
    }

    open spec fn eq_spec(&self, other: &Self) -> bool {
        self@ == other@
    }
}

impl Eq for DbKey {

}

impl Clone for DbKey {
    fn clone(&self) -> (r: Self)
        ensures
            r@ == self@,
    {
        match self {
            DbKey::Pending(item) => DbKey::Pending(item.clone()),
            DbKey::PartialSignature(id, peer) => DbKey::PartialSignature(bytes_clone(id), *peer),
            DbKey::FinalizedSignature(id) => DbKey::FinalizedSignature(bytes_clone(id)),
            DbKey::Collaborator(key) => DbKey::Collaborator(bytes_clone(key)),
        }
    }
}

/// A key with its value.
#[derive(Debug)]
pub struct Entry {
    pub key: DbKey,
    pub value: Vec<u8>,
}

/// The value of an [`Entry`].
pub type EntryView = (DbKeyView, Seq<u8>);

impl View for Entry {
    type V = EntryView;

    open spec fn view(&self) -> EntryView {
        (self.key@, self.value@)
    }
}

impl DeepView for Entry {
    type V = EntryView;

    open spec fn deep_view(&self) -> EntryView {
        self@
    }
}

impl PartialEq for Entry {
    fn eq(&self, other: &Self) -> (r: bool) {
        self.key == other.key && bytes_eq(&self.value, &other.value)
    }
}

impl PartialEqSpecImpl for Entry {
    open spec fn obeys_eq_spec() -> bool {
        true
    }

    open spec fn eq_spec(&self, other: &Self) -> bool {
        self@ == other@
    }
}

impl Eq for Entry {

}

impl Clone for Entry {
    fn clone(&self) -> (r: Self)
        ensures
            r@ == self@,
    {
        Entry { key: self.key.clone(), value: bytes_clone(&self.value) }
    }
}

/// One change to the store.
#[derive(Debug)]
pub enum BatchItem {
    /// Adds the entry unless its key is taken.
    InsertNew(Entry),
    /// Sets the value of the key, whether it is taken or not.
    Insert(Entry),
    /// Removes the entry of the key, if there is one.
    Delete(DbKey),
}

/// The value of a [`BatchItem`].
pub ghost enum BatchItemView {
    InsertNew(EntryView),
    Insert(EntryView),
    Delete(DbKeyView),
}

impl View for BatchItem {
    type V = BatchItemView;

    open spec fn view(&self) -> BatchItemView {
        match self {
            BatchItem::InsertNew(e) => BatchItemView::InsertNew(e@),
            BatchItem::Insert(e) => BatchItemView::Insert(e@),
            BatchItem::Delete(k) => BatchItemView::Delete(k@),
        }
    }
}

impl DeepView for BatchItem {
    type V = BatchItemView;

    open spec fn deep_view(&self) -> BatchItemView {
        self@
    }
}

impl PartialEq for BatchItem {
    fn eq(&self, other: &Self) -> (r: bool) {
        match (self, other) {
            (BatchItem::InsertNew(a), BatchItem::InsertNew(b)) => *a == *b,
            (BatchItem::Insert(a), BatchItem::Insert(b)) => *a == *b,
            (BatchItem::Delete(a), BatchItem::Delete(b)) => *a == *b,
            _ => false,
        }
    }
}

impl PartialEqSpecImpl for BatchItem {
    open spec fn obeys_eq_spec() -> bool {
        true
    }

    open spec fn eq_spec(&self, other: &Self) -> bool {
        self@ == other@
    }
}

impl Eq for BatchItem {

}

impl Clone for BatchItem {
    fn clone(&self) -> (r: Self)
        ensures
            r@ == self@,
    {
        match self {
            BatchItem::InsertNew(e) => BatchItem::InsertNew(e.clone()),
            BatchItem::Insert(e) => BatchItem::Insert(e.clone()),
            BatchItem::Delete(k) => BatchItem::Delete(k.clone()),
        }
    }
}

/// Changes that are applied together, in order.
pub type DbBatch = Vec<BatchItem>;

/// The value of the store: its entries in the order in which their keys were
/// first written.
pub ghost struct StoreView {
    pub entries: Seq<EntryView>,
}

impl StoreView {
    /// The empty store.
    pub open spec fn empty() -> StoreView {
        StoreView { entries: Seq::empty() }
    }

    /// No key has two entries.
    pub open spec fn wf(self) -> bool {
        forall|i: int, j: int|
            0 <= i < j < self.entries.len() ==> (#[trigger] self.entries[i]).0 != (
            #[trigger] self.entries[j]).0
    }

    /// Whether the key has an entry.
    pub open spec fn contains_key(self, key: DbKeyView) -> bool {
        exists|i: int| 0 <= i < self.entries.len() && (#[trigger] self.entries[i]).0 == key
    }

    /// The place of the key's entry.
    pub open spec fn index_of(self, key: DbKeyView) -> int {
        choose|i: int| 0 <= i < self.entries.len() && (#[trigger] self.entries[i]).0 == key
    }

    /// The value under the key.
    pub open spec fn get(self, key: DbKeyView) -> Option<Seq<u8>> {
        if self.contains_key(key) {
            Some(self.entries[self.index_of(key)].1)
        } else {
            None
        }
    }

    /// The store with the entry added, unless its key is taken.
    pub open spec fn insert_new(self, entry: EntryView) -> StoreView {
        if self.contains_key(entry.0) {
            self
        } else {
            StoreView { entries: self.entries.push(entry) }
        }
    }

    /// The store with the key set to the value of the entry.
    pub open spec fn insert(self, entry: EntryView) -> StoreView {
        if self.contains_key(entry.0) {
            StoreView { entries: self.entries.update(self.index_of(entry.0), entry) }
        } else {
            StoreView { entries: self.entries.push(entry) }
        }
    }

    /// The store without the entry of the key.
    pub open spec fn delete(self, key: DbKeyView) -> StoreView {
        if self.contains_key(key) {
            StoreView { entries: self.entries.remove(self.index_of(key)) }
        } else {
            self
        }
    }

    /// The store after one change.
    pub open spec fn apply(self, op: BatchItemView) -> StoreView {
        match op {
            BatchItemView::InsertNew(e) => self.insert_new(e),
            BatchItemView::Insert(e) => self.insert(e),
            BatchItemView::Delete(k) => self.delete(k),
        }
    }

    /// The store after the changes of a batch, applied in order.
    pub open spec fn apply_batch(self, batch: Seq<BatchItemView>) -> StoreView
        decreases batch.len(),
    {
        if batch.len() == 0 {
            self
        } else {
            self.apply_batch(batch.drop_last()).apply(batch.last())
        }
    }

    /// The pending item that an entry holds, if it holds one.
    pub open spec fn pending_of(entry: EntryView) -> Option<ConsensusItemView> {
        match entry.0 {
            DbKeyView::Pending(item) => Some(item),
            _ => None,
        }
    }

    /// The pending item that an entry holds for the request, if it holds one.
    pub open spec fn pending_of_request(entry: EntryView, id: Seq<u8>) -> Option<
        ConsensusItemView,
    > {
        match entry.0 {
            DbKeyView::Pending(item) => if item.request_id() == Some(id) {
                Some(item)
            } else {
                None
            },
            _ => None,
        }
    }

    /// The share that an entry holds for the request, with its peer, if it
    /// holds one.
    pub open spec fn share_of_request(entry: EntryView, id: Seq<u8>) -> Option<(u16, Seq<u8>)> {
        match entry.0 {
            DbKeyView::PartialSignature(request, peer) => if request == id {
                Some((peer, entry.1))
            } else {
                None
            },
            _ => None,
        }
    }

    /// The request whose share an entry holds, if it holds one.
    pub open spec fn share_request_of(entry: EntryView) -> Option<Seq<u8>> {
        match entry.0 {
            DbKeyView::PartialSignature(request, _) => Some(request),
            _ => None,
        }
    }

    /// The pending pool, in the order of the store.
    pub open spec fn pending_items(self) -> Seq<ConsensusItemView> {
        self.entries.filter_map(|e: EntryView| Self::pending_of(e))
    }

    /// The pending items that belong to the request: the request itself and
    /// this node's share for it, as far as they are pending.
    pub open spec fn pending_for(self, id: Seq<u8>) -> Seq<ConsensusItemView> {
        self.entries.filter_map(|e: EntryView| Self::pending_of_request(e, id))
    }

    /// The shares stored for the request, each with its peer.
    pub open spec fn shares_of(self, id: Seq<u8>) -> Seq<(u16, Seq<u8>)> {
        self.entries.filter_map(|e: EntryView| Self::share_of_request(e, id))
    }

    /// The request of every stored share, in the order of the store.
    pub open spec fn share_requests(self) -> Seq<Seq<u8>> {
        self.entries.filter_map(|e: EntryView| Self::share_request_of(e))
    }

    /// Whether the request has its complete signature.
    pub open spec fn is_finalized(self, id: Seq<u8>) -> bool {
        self.contains_key(DbKeyView::FinalizedSignature(id))
    }

    /// The first `n` entries of the store.
    pub open spec fn prefix(self, n: int) -> StoreView {
        StoreView { entries: self.entries.take(n) }
    }

    /// Under unique keys the entry of a key stands where `index_of` says.
    pub proof fn lemma_index_of(self, key: DbKeyView, i: int)
        requires
            self.wf(),
            0 <= i < self.entries.len(),
            self.entries[i].0 == key,
        ensures
            self.contains_key(key),
            self.index_of(key) == i,
    {
        let j = self.index_of(key);
        if j < i {
            assert(self.entries[j].0 != self.entries[i].0);
        } else if i < j {
            assert(self.entries[i].0 != self.entries[j].0);
        }
    }

    /// A change keeps the keys unique.
    pub proof fn lemma_apply_wf(self, op: BatchItemView)
        requires
            self.wf(),
        ensures
            self.apply(op).wf(),
    {
        let after = self.apply(op);
        match op {
            BatchItemView::InsertNew(e) => {},
            BatchItemView::Insert(e) => {},
            BatchItemView::Delete(k) => {
                if self.contains_key(k) {
                    let at = self.index_of(k);
                    assert forall|i: int, j: int| 0 <= i < j < after.entries.len() implies (
                    #[trigger] after.entries[i]).0 != (#[trigger] after.entries[j]).0 by {
                        let a = if i < at { i } else { i + 1 };
                        let b = if j < at { j } else { j + 1 };
                        assert(self.entries[a].0 != self.entries[b].0);
                    }
                }
            },
        }
    }

    /// What deleting a key does to the keys and values of a store with
    /// unique keys: the key is gone, and every other key is as it was.
    pub proof fn lemma_delete_effect(self, gone: DbKeyView, key: DbKeyView)
        requires
            self.wf(),
        ensures
            self.delete(gone).contains_key(key) == (self.contains_key(key) && key != gone),
            key != gone ==> self.delete(gone).get(key) == self.get(key),
    {
        let after = self.delete(gone);
        self.lemma_apply_wf(BatchItemView::Delete(gone));
        if self.contains_key(gone) {
            let at = self.index_of(gone);
            if after.contains_key(key) {
                let m = after.index_of(key);
                let from = if m < at { m } else { m + 1 };
                assert(self.entries[from].0 == key);
                if key == gone {
                    self.lemma_index_of(gone, from);
                }
            }
            if self.contains_key(key) && key != gone {
                let j = self.index_of(key);
                let to = if j < at { j } else { j - 1 };
                assert(after.entries[to].0 == key);
                after.lemma_index_of(key, to);
            }
        }
    }

    /// What adding an entry does to the keys and values of a store with
    /// unique keys: a key that was there keeps its value, and the new key
    /// has the new value.
    pub proof fn lemma_insert_new_effect(self, entry: EntryView, key: DbKeyView)
        requires
            self.wf(),
        ensures
            self.insert_new(entry).contains_key(key) == (self.contains_key(key) || key == entry.0),
            self.contains_key(key) ==> self.insert_new(entry).get(key) == self.get(key),
            !self.contains_key(entry.0) ==> self.insert_new(entry).get(entry.0) == Some(entry.1),
    {
        let after = self.insert_new(entry);
        self.lemma_apply_wf(BatchItemView::InsertNew(entry));
        if !self.contains_key(entry.0) {
            let end = self.entries.len() as int;
            assert(after.entries[end].0 == entry.0);
            after.lemma_index_of(entry.0, end);
            if after.contains_key(key) && key != entry.0 {
                let m = after.index_of(key);
                assert(self.entries[m].0 == key);
            }
            if self.contains_key(key) {
                let j = self.index_of(key);
                assert(after.entries[j].0 == key);
                after.lemma_index_of(key, j);
            }
        }
    }

    /// A selection that picks no entry is empty.
    pub proof fn lemma_nothing_selected<B>(
        entries: Seq<EntryView>,
        f: spec_fn(EntryView) -> Option<B>,
    )
        requires
            forall|i: int| 0 <= i < entries.len() ==> f(#[trigger] entries[i]) is None,
        ensures
            entries.filter_map(f) == Seq::<B>::empty(),
        decreases entries.len(),
    {
        if entries.len() > 0 {
            Self::lemma_nothing_selected(entries.drop_last(), f);
        }
    }

    /// What a selection picks from an entry is among what it selects.
    pub proof fn lemma_selected_contained<B>(
        entries: Seq<EntryView>,
        f: spec_fn(EntryView) -> Option<B>,
        i: int,
    )
        requires
            0 <= i < entries.len(),
            f(entries[i]) is Some,
        ensures
            entries.filter_map(f).contains(f(entries[i])->0),
        decreases entries.len(),
    {
        let all = entries.filter_map(f);
        if i < entries.len() - 1 {
            Self::lemma_selected_contained(entries.drop_last(), f, i);
            let before = entries.drop_last().filter_map(f);
            let at = choose|m: int| 0 <= m < before.len() && before[m] == f(entries[i])->0;
            assert(all[at] == f(entries[i])->0);
        } else {
            assert(all[all.len() - 1] == f(entries[i])->0);
        }
    }

    /// A batch keeps the keys unique.
    pub proof fn lemma_apply_batch_wf(self, batch: Seq<BatchItemView>)
        requires
            self.wf(),
        ensures
            self.apply_batch(batch).wf(),
        decreases batch.len(),
    {
        if batch.len() > 0 {
            self.lemma_apply_batch_wf(batch.drop_last());
            self.apply_batch(batch.drop_last()).lemma_apply_wf(batch.last());
        }
    }
}

/// The store.
#[derive(Debug)]
pub struct ItemStore {
    entries: Vec<Entry>,
}

impl View for ItemStore {
    type V = StoreView;

    closed spec fn view(&self) -> StoreView {
        StoreView { entries: self.entries.deep_view() }
    }
}

impl ItemStore {
    #[verifier::type_invariant]
    spec fn unique_keys(self) -> bool {
        self@.wf()
    }

    /// An empty store.
    pub fn new() -> (s: Self)
        ensures
            s@ == StoreView::empty(),
    {
        let s = ItemStore { entries: Vec::new() };
        assert(s@.entries =~= Seq::empty());
        s
    }

    /// The number of entries.
    pub fn len(&self) -> (n: usize)
        ensures
            n == self@.entries.len(),
    {
        self.entries.len()
    }

    /// The entry at a place, or none past the end.
    pub fn entry(&self, i: usize) -> (e: Option<&Entry>)
        ensures
            i < self@.entries.len() ==> e is Some && e->0@ == self@.entries[i as int],
            i >= self@.entries.len() ==> e is None,
    {
        if i < self.entries.len() {
            Some(&self.entries[i])
        } else {
            None
        }
    }

    /// The place of the key's entry, if it has one.
    fn position(&self, key: &DbKey) -> (r: Option<usize>)
        ensures
            match r {
                Some(i) => self@.contains_key(key@) && i == self@.index_of(key@),
                None => !self@.contains_key(key@),
            },
    {
        let mut i: usize = 0;
        while i < self.entries.len()
            invariant
                i <= self.entries.len(),
                forall|j: int| 0 <= j < i ==> (#[trigger] self@.entries[j]).0 != key@,
            decreases self.entries.len() - i,
        {
            if self.entries[i].key == *key {
                proof {
                    use_type_invariant(self);
                    self@.lemma_index_of(key@, i as int);
                }
                return Some(i);
            }
            i += 1;
        }
        None
    }

    /// Whether the key has an entry.
    pub fn contains_key(&self, key: &DbKey) -> (r: bool)
        ensures
            r == self@.contains_key(key@),
    {
        self.position(key).is_some()
    }

    /// The value under the key.
    pub fn get_value(&self, key: &DbKey) -> (r: Option<Vec<u8>>)
        ensures
            match r {
                Some(v) => self@.get(key@) == Some(v@),
                None => self@.get(key@) is None,
            },
    {
        match self.position(key) {
            Some(i) => Some(bytes_clone(&self.entries[i].value)),
            None => None,
        }
    }

    /// Applies one change.
    pub fn apply(&mut self, op: BatchItem)
        ensures
            final(self)@ == old(self)@.apply(op@),
            final(self)@.wf(),
    {
        proof {
            use_type_invariant(&*self);
            self@.lemma_apply_wf(op@);
        }
        let at = match &op {
            BatchItem::InsertNew(e) => self.position(&e.key),
            BatchItem::Insert(e) => self.position(&e.key),
            BatchItem::Delete(k) => self.position(k),
        };
        let mut entries: Vec<Entry> = Vec::new();
        core::mem::swap(&mut self.entries, &mut entries);
        let ghost before = entries;
        match op {
            BatchItem::InsertNew(e) => {
                if at.is_none() {
                    entries.push(e);
                    proof {
                        lemma_deep_view_push(before, entries, e);
                    }
                }
            },
            BatchItem::Insert(e) => {
                match at {
                    Some(i) => {
                        entries[i] = e;
                        assert(entries.deep_view() =~= before.deep_view().update(i as int, e@));
                    },
                    None => {
                        entries.push(e);
                        proof {
                            lemma_deep_view_push(before, entries, e);
                        }
                    },
                }
            },
            BatchItem::Delete(k) => {
                match at {
                    Some(i) => {
                        entries.remove(i);
                        assert(entries.deep_view() =~= before.deep_view().remove(i as int));
                    },
                    None => {},
                }
            },
        }
        self.entries = entries;
    }

    /// Applies the changes of a batch, in order.
    pub fn apply_batch(&mut self, batch: &Vec<BatchItem>)
        ensures
            final(self)@ == old(self)@.apply_batch(batch.deep_view()),
            final(self)@.wf(),
    {
        proof {
            use_type_invariant(&*self);
        }
        let mut i: usize = 0;
        while i < batch.len()
            invariant
                i <= batch.len(),
                self@.wf(),
                self@ == old(self)@.apply_batch(batch.deep_view().take(i as int)),
            decreases batch.len() - i,
        {
            proof {
                let grown = batch.deep_view().take(i + 1);
                assert(grown.drop_last() == batch.deep_view().take(i as int));
                assert(grown.last() == batch[i as int]@);
            }
            self.apply(batch[i].clone());
            i += 1;
        }
        proof {
            assert(batch.deep_view().take(i as int) == batch.deep_view());
        }
    }

    /// The pending pool, in the order of the store.
    pub fn pending_items(&self) -> (items: Vec<ConsensusItem>)
        ensures
            items.deep_view() == self@.pending_items(),
    {
        let mut items: Vec<ConsensusItem> = Vec::new();
        let mut i: usize = 0;
        while i < self.entries.len()
            invariant
                i <= self.entries.len(),
                items.deep_view() == self@.prefix(i as int).pending_items(),
            decreases self.entries.len() - i,
        {
            proof {
                assert(self@.prefix(i + 1).entries.drop_last() == self@.prefix(i as int).entries);
            }
            match &self.entries[i].key {
                DbKey::Pending(item) => {
                    let ghost shorter = items;
                    items.push(item.clone());
                    proof {
                        lemma_deep_view_push(shorter, items, items@.last());
                        assert(self@.prefix(i as int).pending_items().push(item@)
                            =~= self@.prefix(i as int).pending_items() + seq![item@]);
                    }
                },
                _ => {},
            }
            i += 1;
        }
        proof {
            assert(self@.prefix(i as int).entries == self@.entries);
        }
        items
    }

    /// The pending items that belong to the request.
    pub fn pending_for(&self, id: &TransactionId) -> (items: Vec<ConsensusItem>)
        ensures
            items.deep_view() == self@.pending_for(id@),
    {
        let mut items: Vec<ConsensusItem> = Vec::new();
        let mut i: usize = 0;
        while i < self.entries.len()
            invariant
                i <= self.entries.len(),
                items.deep_view() == self@.prefix(i as int).pending_for(id@),
            decreases self.entries.len() - i,
        {
            proof {
                assert(self@.prefix(i + 1).entries.drop_last() == self@.prefix(i as int).entries);
            }
            match &self.entries[i].key {
                DbKey::Pending(item) => {
                    let belongs = match item {
                        ConsensusItem::ClientRequest(r) => bytes_eq(r.id(), id),
                        ConsensusItem::PartiallySignedRequest(request, _) => bytes_eq(request, id),
                        ConsensusItem::Wallet(_) => false,
                    };
                    if belongs {
                        let ghost shorter = items;
                        items.push(item.clone());
                        proof {
                            lemma_deep_view_push(shorter, items, items@.last());
                            assert(self@.prefix(i as int).pending_for(id@).push(item@)
                                =~= self@.prefix(i as int).pending_for(id@) + seq![item@]);
                        }
                    }
                },
                _ => {},
            }
            i += 1;
        }
        proof {
            assert(self@.prefix(i as int).entries == self@.entries);
        }
        items
    }

    /// The shares stored for the request, each with its peer.
    pub fn shares_of(&self, id: &TransactionId) -> (shares: Vec<(PeerId, Vec<u8>)>)
        ensures
            shares.deep_view() == self@.shares_of(id@),
    {
        let mut shares: Vec<(PeerId, Vec<u8>)> = Vec::new();
        let mut i: usize = 0;
        while i < self.entries.len()
            invariant
                i <= self.entries.len(),
                shares.deep_view() == self@.prefix(i as int).shares_of(id@),
            decreases self.entries.len() - i,
        {
            proof {
                assert(self@.prefix(i + 1).entries.drop_last() == self@.prefix(i as int).entries);
            }
            match &self.entries[i].key {
                DbKey::PartialSignature(request, peer) => {
                    if bytes_eq(request, id) {
                        let ghost shorter = shares;
                        shares.push((*peer, bytes_clone(&self.entries[i].value)));
                        proof {
                            broadcast use lemma_bytes_deep_view;

                            lemma_deep_view_push(shorter, shares, shares@.last());
                            let share = (*peer, self.entries[i as int].value@);
                            assert(self@.prefix(i as int).shares_of(id@).push(share)
                                =~= self@.prefix(i as int).shares_of(id@) + seq![share]);
                        }
                    }
                },
                _ => {},
            }
            i += 1;
        }
        proof {
            assert(self@.prefix(i as int).entries == self@.entries);
        }
        shares
    }

    /// The request of every stored share, in the order of the store.
    pub fn share_requests(&self) -> (ids: Vec<TransactionId>)
        ensures
            ids.deep_view() == self@.share_requests(),
    {
        let mut ids: Vec<TransactionId> = Vec::new();
        let mut i: usize = 0;
        while i < self.entries.len()
            invariant
                i <= self.entries.len(),
                ids.deep_view() == self@.prefix(i as int).share_requests(),
            decreases self.entries.len() - i,
        {
            proof {
                assert(self@.prefix(i + 1).entries.drop_last() == self@.prefix(i as int).entries);
            }
            match &self.entries[i].key {
                DbKey::PartialSignature(request, _) => {
                    let ghost shorter = ids;
                    ids.push(bytes_clone(request));
                    proof {
                        broadcast use lemma_bytes_deep_view;

                        lemma_deep_view_push(shorter, ids, ids@.last());
                        assert(self@.prefix(i as int).share_requests().push(request@)
                            =~= self@.prefix(i as int).share_requests() + seq![request@]);
                    }
                },
                _ => {},
            }
            i += 1;
        }
        proof {
            assert(self@.prefix(i as int).entries == self@.entries);
        }
        ids
    }

    /// Whether the request has its complete signature.
    pub fn is_finalized(&self, id: &TransactionId) -> (r: bool)
        ensures
            r == self@.is_finalized(id@),
    {
        self.contains_key(&DbKey::FinalizedSignature(bytes_clone(id)))
    }
}

} // verus!
