//! The data model: coins, requests and consensus items, each with its
//! mathematical value.
//!
//! Cryptographic payloads (tokens, signatures, proofs) are opaque byte
//! strings here. Equality is equality of content throughout: `==` on any
//! type of this module holds exactly when the two values are equal.

use vstd::laws_eq::obeys_deep_eq;
use vstd::prelude::*;
use vstd::std_specs::cmp::PartialEqSpecImpl;
use vstd::std_specs::vec::lemma_vec_obeys_deep_eq;

verus! {

/// The index of a federation member.
pub type PeerId = u16;

/// The content-derived identifier of a request: the digest of its body.
pub type TransactionId = Vec<u8>;

/// One peer's threshold-signature contribution to a request.
pub type PartialSigResponse = Vec<u8>;

/// A per-epoch payload of the wallet protocol, opaque to this crate.
pub type WalletConsensusItem = Vec<u8>;

/// The deep value of a byte string is its value.
pub broadcast proof fn lemma_bytes_deep_view(v: Vec<u8>)
    ensures
        #[trigger] v.deep_view() == v@,
{
    assert(v.deep_view() =~= v@);
}

/// Pushing onto a vector pushes the value onto its value.
pub proof fn lemma_deep_view_push<T: DeepView>(before: Vec<T>, after: Vec<T>, last: T)
    requires
        after@ == before@.push(last),
    ensures
        after.deep_view() == before.deep_view().push(last.deep_view()),
{
    assert(after.deep_view() =~= before.deep_view().push(last.deep_view()));
}

/// Appending to a vector appends the values.
pub proof fn lemma_deep_view_append<T: DeepView>(before: Vec<T>, after: Vec<T>, tail: Vec<T>)
    requires
        after@ == before@ + tail@,
    ensures
        after.deep_view() == before.deep_view() + tail.deep_view(),
{
    assert(after.deep_view() =~= before.deep_view() + tail.deep_view());
}

/// Whether two byte strings hold the same bytes.
pub fn bytes_eq(a: &Vec<u8>, b: &Vec<u8>) -> (r: bool)
    ensures
        r == (a@ == b@),
{
    let r = *a == *b;
    proof {
        if r {
            assert(a@ =~= b@);
        }
    }
    r
}

/// A copy of a byte string.
pub fn bytes_clone(a: &Vec<u8>) -> (r: Vec<u8>)
    ensures
        r@ == a@,
{
    let r = a.clone();
    assert(r@ =~= a@);
    r
}

/// A blind-signed token of one denomination tier. Its content is its
/// identity: two coins are the same coin when tier and token agree.
#[derive(Debug)]
pub struct Coin {
    /// Denomination tier, in milli-satoshi.
    pub tier: u64,
    /// The serialized token.
    pub token: Vec<u8>,
}

impl View for Coin {
    type V = (u64, Seq<u8>);

    open spec fn view(&self) -> (u64, Seq<u8>) {
        (self.tier, self.token@)
    }
}

impl DeepView for Coin {
    type V = (u64, Seq<u8>);

    open spec fn deep_view(&self) -> (u64, Seq<u8>) {
        self@
    }
}

impl PartialEq for Coin {
    fn eq(&self, other: &Self) -> (r: bool) {
        self.tier == other.tier && bytes_eq(&self.token, &other.token)
    }
}

impl PartialEqSpecImpl for Coin {
    open spec fn obeys_eq_spec() -> bool {
        true
    }

    open spec fn eq_spec(&self, other: &Self) -> bool {
        self@ == other@
    }
}

impl Eq for Coin {

}

impl Clone for Coin {
    fn clone(&self) -> (r: Self)
        ensures
            r@ == self@,
    {
        Coin { tier: self.tier, token: bytes_clone(&self.token) }
    }
}

/// A blinded message of one denomination tier, to be signed by the mint.
#[derive(Debug)]
pub struct BlindToken {
    /// Denomination tier, in milli-satoshi.
    pub tier: u64,
    /// The blinded message.
    pub message: Vec<u8>,
}

impl View for BlindToken {
    type V = (u64, Seq<u8>);

    open spec fn view(&self) -> (u64, Seq<u8>) {
        (self.tier, self.message@)
    }
}

impl DeepView for BlindToken {
    type V = (u64, Seq<u8>);

    open spec fn deep_view(&self) -> (u64, Seq<u8>) {
        self@
    }
}

impl PartialEq for BlindToken {
    fn eq(&self, other: &Self) -> (r: bool) {
        self.tier == other.tier && bytes_eq(&self.message, &other.message)
    }
}

impl PartialEqSpecImpl for BlindToken {
    open spec fn obeys_eq_spec() -> bool {
        true
    }

    open spec fn eq_spec(&self, other: &Self) -> bool {
        self@ == other@
    }
}

impl Eq for BlindToken {

}

impl Clone for BlindToken {
    fn clone(&self) -> (r: Self)
        ensures
            r@ == self@,
    {
        BlindToken { tier: self.tier, message: bytes_clone(&self.message) }
    }
}

/// Whether two lists of coins are equal, coin by coin.
pub fn coins_eq(a: &Vec<Coin>, b: &Vec<Coin>) -> (r: bool)
    ensures
        r == (a.deep_view() == b.deep_view()),
{
    proof {
        broadcast use lemma_vec_obeys_deep_eq;

        assert(obeys_deep_eq::<Coin>()) by {
            reveal(obeys_deep_eq);
        }
        assert(obeys_deep_eq::<Vec<Coin>>());
        reveal(obeys_deep_eq);
    }
    *a == *b
}

/// A copy of a list of coins.
pub fn coins_clone(a: &Vec<Coin>) -> (r: Vec<Coin>)
    ensures
        r.deep_view() == a.deep_view(),
{
    let r = a.clone();
    assert(r.deep_view() =~= a.deep_view());
    r
}

/// Whether two lists of blind tokens are equal, token by token.
pub fn blind_tokens_eq(a: &Vec<BlindToken>, b: &Vec<BlindToken>) -> (r: bool)
    ensures
        r == (a.deep_view() == b.deep_view()),
{
    proof {
        broadcast use lemma_vec_obeys_deep_eq;

        assert(obeys_deep_eq::<BlindToken>()) by {
            reveal(obeys_deep_eq);
        }
        assert(obeys_deep_eq::<Vec<BlindToken>>());
        reveal(obeys_deep_eq);
    }
    *a == *b
}

/// A copy of a list of blind tokens.
pub fn blind_tokens_clone(a: &Vec<BlindToken>) -> (r: Vec<BlindToken>)
    ensures
        r.deep_view() == a.deep_view(),
{
    let r = a.clone();
    assert(r.deep_view() =~= a.deep_view());
    r
}

/// Evidence of an on-chain deposit. The deposit it points at, transaction and
/// output index, is its identity: one deposit backs one issuance.
#[derive(Debug)]
pub struct PegInProof {
    /// Id of the deposit transaction.
    pub txid: Vec<u8>,
    /// Index of the deposit output in that transaction.
    pub vout: u32,
    /// The inclusion proof and the transaction, as the wallet reads them.
    pub witness: Vec<u8>,
}

/// The value of a [`PegInProof`].
pub ghost struct PegInProofView {
    pub txid: Seq<u8>,
    pub vout: u32,
    pub witness: Seq<u8>,
}

impl PegInProofView {
    /// The identity of the deposit that the proof points at.
    pub open spec fn identity(self) -> (u64, Seq<u8>) {
        (self.vout as u64, self.txid)
    }
}

impl View for PegInProof {
    type V = PegInProofView;

    open spec fn view(&self) -> PegInProofView {
        PegInProofView { txid: self.txid@, vout: self.vout, witness: self.witness@ }
    }
}

impl DeepView for PegInProof {
    type V = PegInProofView;

    open spec fn deep_view(&self) -> PegInProofView {
        self@
    }
}

impl PartialEq for PegInProof {
    fn eq(&self, other: &Self) -> (r: bool) {
        self.vout == other.vout && bytes_eq(&self.txid, &other.txid) && bytes_eq(
            &self.witness,
            &other.witness,
        )
    }
}

impl PartialEqSpecImpl for PegInProof {
    open spec fn obeys_eq_spec() -> bool {
        true
    }

    open spec fn eq_spec(&self, other: &Self) -> bool {
        self@ == other@
    }
}

impl Eq for PegInProof {

}

impl Clone for PegInProof {
    fn clone(&self) -> (r: Self)
        ensures
            r@ == self@,
    {
        PegInProof {
            txid: bytes_clone(&self.txid),
            vout: self.vout,
            witness: bytes_clone(&self.witness),
        }
    }
}

impl PegInProof {
    /// The identity of the deposit that the proof points at, as a content key.
    pub fn identity(&self) -> (k: (u64, Vec<u8>))
        ensures
            k.deep_view() == self@.identity(),
    {
        broadcast use lemma_bytes_deep_view;

        (self.vout as u64, bytes_clone(&self.txid))
    }
}

/// A claim on a deposit: new tokens of the deposited value.
#[derive(Debug)]
pub struct PegInRequest {
    pub id: TransactionId,
    pub proof: PegInProof,
    pub blind_tokens: Vec<BlindToken>,
    pub sig: Vec<u8>,
}

/// The value of a [`PegInRequest`].
pub ghost struct PegInRequestView {
    pub id: Seq<u8>,
    pub proof: PegInProofView,
    pub blind_tokens: Seq<(u64, Seq<u8>)>,
    pub sig: Seq<u8>,
}

impl View for PegInRequest {
    type V = PegInRequestView;

    open spec fn view(&self) -> PegInRequestView {
        PegInRequestView {
            id: self.id@,
            proof: self.proof@,
            blind_tokens: self.blind_tokens.deep_view(),
            sig: self.sig@,
        }
    }
}

impl DeepView for PegInRequest {
    type V = PegInRequestView;

    open spec fn deep_view(&self) -> PegInRequestView {
        self@
    }
}

impl PartialEq for PegInRequest {
    fn eq(&self, other: &Self) -> (r: bool) {
        bytes_eq(&self.id, &other.id) && self.proof == other.proof && blind_tokens_eq(
            &self.blind_tokens,
            &other.blind_tokens,
        ) && bytes_eq(&self.sig, &other.sig)
    }
}

impl PartialEqSpecImpl for PegInRequest {
    open spec fn obeys_eq_spec() -> bool {
        true
    }

    open spec fn eq_spec(&self, other: &Self) -> bool {
        self@ == other@
    }
}

impl Eq for PegInRequest {

}

impl Clone for PegInRequest {
    fn clone(&self) -> (r: Self)
        ensures
            r@ == self@,
    {
        PegInRequest {
            id: bytes_clone(&self.id),
            proof: self.proof.clone(),
            blind_tokens: blind_tokens_clone(&self.blind_tokens),
            sig: bytes_clone(&self.sig),
        }
    }
}

/// An exchange of coins for new tokens of the same total value.
#[derive(Debug)]
pub struct ReissuanceRequest {
    pub id: TransactionId,
    pub coins: Vec<Coin>,
    pub blind_tokens: Vec<BlindToken>,
    pub sig: Vec<u8>,
}

/// The value of a [`ReissuanceRequest`].
pub ghost struct ReissuanceRequestView {
    pub id: Seq<u8>,
    pub coins: Seq<(u64, Seq<u8>)>,
    pub blind_tokens: Seq<(u64, Seq<u8>)>,
    pub sig: Seq<u8>,
}

impl View for ReissuanceRequest {
    type V = ReissuanceRequestView;

    open spec fn view(&self) -> ReissuanceRequestView {
        ReissuanceRequestView {
            id: self.id@,
            coins: self.coins.deep_view(),
            blind_tokens: self.blind_tokens.deep_view(),
            sig: self.sig@,
        }
    }
}

impl DeepView for ReissuanceRequest {
    type V = ReissuanceRequestView;

    open spec fn deep_view(&self) -> ReissuanceRequestView {
        self@
    }
}

impl PartialEq for ReissuanceRequest {
    fn eq(&self, other: &Self) -> (r: bool) {
        bytes_eq(&self.id, &other.id) && coins_eq(&self.coins, &other.coins) && blind_tokens_eq(
            &self.blind_tokens,
            &other.blind_tokens,
        ) && bytes_eq(&self.sig, &other.sig)
    }
}

impl PartialEqSpecImpl for ReissuanceRequest {
    open spec fn obeys_eq_spec() -> bool {
        true
    }

    open spec fn eq_spec(&self, other: &Self) -> bool {
        self@ == other@
    }
}

impl Eq for ReissuanceRequest {

}

impl Clone for ReissuanceRequest {
    fn clone(&self) -> (r: Self)
        ensures
            r@ == self@,
    {
        ReissuanceRequest {
            id: bytes_clone(&self.id),
            coins: coins_clone(&self.coins),
            blind_tokens: blind_tokens_clone(&self.blind_tokens),
            sig: bytes_clone(&self.sig),
        }
    }
}

/// A redemption of coins for an on-chain payout.
#[derive(Debug)]
pub struct PegOutRequest {
    pub id: TransactionId,
    pub coins: Vec<Coin>,
    /// The destination address, in its serialized form.
    pub address: Vec<u8>,
    pub sig: Vec<u8>,
}

/// The value of a [`PegOutRequest`].
pub ghost struct PegOutRequestView {
    pub id: Seq<u8>,
    pub coins: Seq<(u64, Seq<u8>)>,
    pub address: Seq<u8>,
    pub sig: Seq<u8>,
}

impl View for PegOutRequest {
    type V = PegOutRequestView;

    open spec fn view(&self) -> PegOutRequestView {
        PegOutRequestView {
            id: self.id@,
            coins: self.coins.deep_view(),
            address: self.address@,
            sig: self.sig@,
        }
    }
}

impl DeepView for PegOutRequest {
    type V = PegOutRequestView;

    open spec fn deep_view(&self) -> PegOutRequestView {
        self@
    }
}

impl PartialEq for PegOutRequest {
    fn eq(&self, other: &Self) -> (r: bool) {
        bytes_eq(&self.id, &other.id) && coins_eq(&self.coins, &other.coins) && bytes_eq(
            &self.address,
            &other.address,
        ) && bytes_eq(&self.sig, &other.sig)
    }
}

impl PartialEqSpecImpl for PegOutRequest {
    open spec fn obeys_eq_spec() -> bool {
        true
    }

    open spec fn eq_spec(&self, other: &Self) -> bool {
        self@ == other@
    }
}

impl Eq for PegOutRequest {

}

impl Clone for PegOutRequest {
    fn clone(&self) -> (r: Self)
        ensures
            r@ == self@,
    {
        PegOutRequest {
            id: bytes_clone(&self.id),
            coins: coins_clone(&self.coins),
            address: bytes_clone(&self.address),
            sig: bytes_clone(&self.sig),
        }
    }
}

/// A request of a client.
#[derive(Debug)]
pub enum ClientRequest {
    PegIn(PegInRequest),
    Reissuance(ReissuanceRequest),
    PegOut(PegOutRequest),
}

/// The value of a [`ClientRequest`].
pub ghost enum ClientRequestView {
    PegIn(PegInRequestView),
    Reissuance(ReissuanceRequestView),
    PegOut(PegOutRequestView),
}

impl ClientRequestView {
    /// The identifier of the request.
    pub open spec fn id(self) -> Seq<u8> {
        match self {
            ClientRequestView::PegIn(r) => r.id,
            ClientRequestView::Reissuance(r) => r.id,
            ClientRequestView::PegOut(r) => r.id,
        }
    }

    /// The coins that the request spends, in its own order, each as often as
    /// the request names it.
    pub open spec fn spent_coins(self) -> Seq<(u64, Seq<u8>)> {
        match self {
            ClientRequestView::PegIn(_) => Seq::empty(),
            ClientRequestView::Reissuance(r) => r.coins,
            ClientRequestView::PegOut(r) => r.coins,
        }
    }

    /// The deposits that the request claims: the identity of its proof for a
    /// peg-in, none otherwise.
    pub open spec fn claimed_deposits(self) -> Seq<(u64, Seq<u8>)> {
        match self {
            ClientRequestView::PegIn(r) => seq![r.proof.identity()],
            ClientRequestView::Reissuance(_) => Seq::empty(),
            ClientRequestView::PegOut(_) => Seq::empty(),
        }
    }
}

impl View for ClientRequest {
    type V = ClientRequestView;

    open spec fn view(&self) -> ClientRequestView {
        match self {
            ClientRequest::PegIn(r) => ClientRequestView::PegIn(r@),
            ClientRequest::Reissuance(r) => ClientRequestView::Reissuance(r@),
            ClientRequest::PegOut(r) => ClientRequestView::PegOut(r@),
        }
    }
}

impl DeepView for ClientRequest {
    type V = ClientRequestView;

    open spec fn deep_view(&self) -> ClientRequestView {
        self@
    }
}

impl PartialEq for ClientRequest {
    fn eq(&self, other: &Self) -> (r: bool) {
        match (self, other) {
            (ClientRequest::PegIn(a), ClientRequest::PegIn(b)) => *a == *b,
            (ClientRequest::Reissuance(a), ClientRequest::Reissuance(b)) => *a == *b,
            (ClientRequest::PegOut(a), ClientRequest::PegOut(b)) => *a == *b,
            _ => false,
        }
    }
}

impl PartialEqSpecImpl for ClientRequest {
    open spec fn obeys_eq_spec() -> bool {
        true
    }

    open spec fn eq_spec(&self, other: &Self) -> bool {
        self@ == other@
    }
}

impl Eq for ClientRequest {

}

impl Clone for ClientRequest {
    fn clone(&self) -> (r: Self)
        ensures
            r@ == self@,
    {
        match self {
            ClientRequest::PegIn(a) => ClientRequest::PegIn(a.clone()),
            ClientRequest::Reissuance(a) => ClientRequest::Reissuance(a.clone()),
            ClientRequest::PegOut(a) => ClientRequest::PegOut(a.clone()),
        }
    }
}

impl ClientRequest {
    /// The identifier of the request.
    pub fn id(&self) -> (id: &TransactionId)
        ensures
            id@ == self@.id(),
    {
        match self {
            ClientRequest::PegIn(r) => &r.id,
            ClientRequest::Reissuance(r) => &r.id,
            ClientRequest::PegOut(r) => &r.id,
        }
    }
}

/// What peers propose and agree on, epoch by epoch.
#[derive(Debug)]
pub enum ConsensusItem {
    /// A request of a client, awaiting execution.
    ClientRequest(ClientRequest),
    /// One peer's signature share for the request of the given id.
    PartiallySignedRequest(TransactionId, PartialSigResponse),
    /// A payload of the wallet protocol.
    Wallet(WalletConsensusItem),
}

/// The value of a [`ConsensusItem`].
pub ghost enum ConsensusItemView {
    ClientRequest(ClientRequestView),
    PartiallySignedRequest(Seq<u8>, Seq<u8>),
    Wallet(Seq<u8>),
}

impl ConsensusItemView {
    /// The request that the item belongs to: the request itself or the one
    /// that a share signs. A wallet item belongs to none.
    pub open spec fn request_id(self) -> Option<Seq<u8>> {
        match self {
            ConsensusItemView::ClientRequest(r) => Some(r.id()),
            ConsensusItemView::PartiallySignedRequest(id, _) => Some(id),
            ConsensusItemView::Wallet(_) => None,
        }
    }

    /// The coins that the item spends.
    pub open spec fn spent_coins(self) -> Seq<(u64, Seq<u8>)> {
        match self {
            ConsensusItemView::ClientRequest(r) => r.spent_coins(),
            _ => Seq::empty(),
        }
    }

    /// The deposits that the item claims.
    pub open spec fn claimed_deposits(self) -> Seq<(u64, Seq<u8>)> {
        match self {
            ConsensusItemView::ClientRequest(r) => r.claimed_deposits(),
            _ => Seq::empty(),
        }
    }
}

impl View for ConsensusItem {
    type V = ConsensusItemView;

    open spec fn view(&self) -> ConsensusItemView {
        match self {
            ConsensusItem::ClientRequest(r) => ConsensusItemView::ClientRequest(r@),
            ConsensusItem::PartiallySignedRequest(id, share) => {
                ConsensusItemView::PartiallySignedRequest(id@, share@)
            },
            ConsensusItem::Wallet(w) => ConsensusItemView::Wallet(w@),
        }
    }
}

impl DeepView for ConsensusItem {
    type V = ConsensusItemView;

    open spec fn deep_view(&self) -> ConsensusItemView {
        self@
    }
}

impl PartialEq for ConsensusItem {
    fn eq(&self, other: &Self) -> (r: bool) {
        match (self, other) {
            (ConsensusItem::ClientRequest(a), ConsensusItem::ClientRequest(b)) => *a == *b,
            (
                ConsensusItem::PartiallySignedRequest(a, s),
                ConsensusItem::PartiallySignedRequest(b, t),
            ) => bytes_eq(a, b) && bytes_eq(s, t),
            (ConsensusItem::Wallet(a), ConsensusItem::Wallet(b)) => bytes_eq(a, b),
            _ => false,
        }
    }
}

impl PartialEqSpecImpl for ConsensusItem {
    open spec fn obeys_eq_spec() -> bool {
        true
    }

    open spec fn eq_spec(&self, other: &Self) -> bool {
        self@ == other@
    }
}

impl Eq for ConsensusItem {

}

impl Clone for ConsensusItem {
    fn clone(&self) -> (r: Self)
        ensures
            r@ == self@,
    {
        match self {
            ConsensusItem::ClientRequest(a) => ConsensusItem::ClientRequest(a.clone()),
            ConsensusItem::PartiallySignedRequest(id, share) => {
                ConsensusItem::PartiallySignedRequest(bytes_clone(id), bytes_clone(share))
            },
            ConsensusItem::Wallet(w) => ConsensusItem::Wallet(bytes_clone(w)),
        }
    }
}

/// The agreed result of one epoch: what each contributing peer proposed.
#[derive(Debug)]
pub struct ConsensusOutcome {
    pub epoch: u64,
    /// The proposals, one entry per contributing peer in ascending order of
    /// peer, each with the items in the order the peer gave them.
    pub contributions: Vec<(PeerId, Vec<ConsensusItem>)>,
}

/// The value of a [`ConsensusOutcome`].
pub ghost struct ConsensusOutcomeView {
    pub epoch: u64,
    pub contributions: Seq<(u16, Seq<ConsensusItemView>)>,
}

impl View for ConsensusOutcome {
    type V = ConsensusOutcomeView;

    open spec fn view(&self) -> ConsensusOutcomeView {
        ConsensusOutcomeView {
            epoch: self.epoch,
            contributions: self.contributions.deep_view(),
        }
    }
}

} // verus!
