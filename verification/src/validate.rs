//! The request validator: what a request has to pass before it enters the
//! pending pool.
//!
//! Signatures, deposit proofs and the mint's view of the coins are checked by
//! collaborators. Their verdicts come in as [`RequestChecks`]; the order of
//! the checks, the tier rule and the error that a request is turned away with
//! are decided here.

use crate::config::ServerConfig;
use crate::item::{BlindToken, ClientRequest, ClientRequestView, Coin};
use vstd::prelude::*;
use vstd::std_specs::convert::FromSpecImpl;

verus! {

/// Why the mint refuses something.
#[derive(Debug, Clone, PartialEq, Eq)]
pub struct MintError {
    pub reason: String,
}

/// A tier that the federation does not issue.
#[derive(Debug, Clone, Copy, PartialEq, Eq)]
pub struct InvalidAmountTierError(pub u64);

/// Why a request was not admitted.
#[derive(Debug, Clone, PartialEq, Eq)]
pub enum ClientRequestError {
    /// The request was not authorized with a valid signature.
    InvalidTransactionSignature,
    /// The mint denied the request.
    DeniedByMint(MintError),
    /// The deposit proof or the signature of a peg-in does not verify.
    InvalidPegIn,
    /// The request uses a tier that the federation does not issue.
    InvalidAmountTier(u64),
}

/// The value of a [`ClientRequestError`].
pub ghost enum ClientRequestErrorView {
    InvalidTransactionSignature,
    DeniedByMint(Seq<char>),
    InvalidPegIn,
    InvalidAmountTier(u64),
}

impl View for ClientRequestError {
    type V = ClientRequestErrorView;

    open spec fn view(&self) -> ClientRequestErrorView {
        match self {
            ClientRequestError::InvalidTransactionSignature => {
                ClientRequestErrorView::InvalidTransactionSignature
            },
            ClientRequestError::DeniedByMint(e) => ClientRequestErrorView::DeniedByMint(e.reason@),
            ClientRequestError::InvalidPegIn => ClientRequestErrorView::InvalidPegIn,
            ClientRequestError::InvalidAmountTier(t) => ClientRequestErrorView::InvalidAmountTier(
                *t,
            ),
        }
    }
}

impl From<MintError> for ClientRequestError {
    fn from(e: MintError) -> (r: Self) {
        ClientRequestError::DeniedByMint(e)
    }
}

impl FromSpecImpl<MintError> for ClientRequestError {
    open spec fn obeys_from_spec() -> bool {
        true
    }

    open spec fn from_spec(e: MintError) -> Self {
        ClientRequestError::DeniedByMint(e)
    }
}

impl From<InvalidAmountTierError> for ClientRequestError {
    fn from(e: InvalidAmountTierError) -> (r: Self) {
        ClientRequestError::InvalidAmountTier(e.0)
    }
}

impl FromSpecImpl<InvalidAmountTierError> for ClientRequestError {
    open spec fn obeys_from_spec() -> bool {
        true
    }

    open spec fn from_spec(e: InvalidAmountTierError) -> Self {
        ClientRequestError::InvalidAmountTier(e.0)
    }
}

/// The collaborators' verdicts on one request.
#[derive(Debug)]
pub struct RequestChecks {
    /// Whether the request's signature verifies against the keys that its
    /// coins, or its deposit proof, imply.
    pub signature_valid: bool,
    /// The value of the deposit in milli-satoshi, where the wallet accepts
    /// the proof of a peg-in. Not read for other requests.
    pub peg_in_amount: Option<u64>,
    /// The reason, where the mint refuses the coins of a reissuance. Not read
    /// for other requests.
    pub mint_denial: Option<MintError>,
}

/// The value of [`RequestChecks`].
pub ghost struct RequestChecksView {
    pub signature_valid: bool,
    pub peg_in_amount: Option<u64>,
    pub mint_denial: Option<Seq<char>>,
}

impl View for RequestChecks {
    type V = RequestChecksView;

    open spec fn view(&self) -> RequestChecksView {
        RequestChecksView {
            signature_valid: self.signature_valid,
            peg_in_amount: self.peg_in_amount,
            mint_denial: match self.mint_denial {
                Some(e) => Some(e.reason@),
                None => None,
            },
        }
    }
}

/// The first tier in the list of tokens that is not among the issued tiers.
pub open spec fn first_unknown_tier(tokens: Seq<(u64, Seq<u8>)>, issued: Seq<u64>) -> Option<u64>
    decreases tokens.len(),
{
    if tokens.len() == 0 {
        None
    } else if !issued.contains(tokens.first().0) {
        Some(tokens.first().0)
    } else {
        first_unknown_tier(tokens.drop_first(), issued)
    }
}

/// The verdict on a request, given what the collaborators found.
///
/// A spend is checked for its signature, then for the tiers of its coins and
/// of the tokens it asks for, then, a reissuance, against the mint. A peg-in
/// is checked for its signature and its deposit proof, then for the tiers of
/// the tokens it asks for.
pub open spec fn verdict(
    request: ClientRequestView,
    checks: RequestChecksView,
    issued: Seq<u64>,
) -> Result<(), ClientRequestErrorView> {
    match request {
        ClientRequestView::Reissuance(r) => {
            if !checks.signature_valid {
                Err(ClientRequestErrorView::InvalidTransactionSignature)
            } else if first_unknown_tier(r.coins, issued) is Some {
                Err(
                    ClientRequestErrorView::InvalidAmountTier(
                        first_unknown_tier(r.coins, issued)->0,
                    ),
                )
            } else if first_unknown_tier(r.blind_tokens, issued) is Some {
                Err(
                    ClientRequestErrorView::InvalidAmountTier(
                        first_unknown_tier(r.blind_tokens, issued)->0,
                    ),
                )
            } else if checks.mint_denial is Some {
                Err(ClientRequestErrorView::DeniedByMint(checks.mint_denial->0))
            } else {
                Ok(())
            }
        },
        ClientRequestView::PegIn(r) => {
            if !checks.signature_valid || checks.peg_in_amount is None {
                Err(ClientRequestErrorView::InvalidPegIn)
            } else if first_unknown_tier(r.blind_tokens, issued) is Some {
                Err(
                    ClientRequestErrorView::InvalidAmountTier(
                        first_unknown_tier(r.blind_tokens, issued)->0,
                    ),
                )
            } else {
                Ok(())
            }
        },
        ClientRequestView::PegOut(r) => {
            if !checks.signature_valid {
                Err(ClientRequestErrorView::InvalidTransactionSignature)
            } else if first_unknown_tier(r.coins, issued) is Some {
                Err(
                    ClientRequestErrorView::InvalidAmountTier(
                        first_unknown_tier(r.coins, issued)->0,
                    ),
                )
            } else {
                Ok(())
            }
        },
    }
}

/// Whether a result of the validator has the given value.
pub open spec fn result_is(
    r: Result<(), ClientRequestError>,
    v: Result<(), ClientRequestErrorView>,
) -> bool {
    match r {
        Ok(()) => v is Ok,
        Err(e) => v == Err::<(), ClientRequestErrorView>(e@),
    }
}

/// Checks that every coin is of an issued tier, and names the first tier
/// that is not.
pub fn check_coin_tiers(coins: &Vec<Coin>, cfg: &ServerConfig) -> (r: Result<
    (),
    InvalidAmountTierError,
>)
    ensures
        match r {
            Ok(()) => first_unknown_tier(coins.deep_view(), cfg.tiers@) is None,
            Err(e) => first_unknown_tier(coins.deep_view(), cfg.tiers@) == Some(e.0),
        },
{
    let ghost all = coins.deep_view();
    let mut i: usize = 0;
    proof {
        assert(all.skip(0) == all);
    }
    while i < coins.len()
        invariant
            i <= coins.len(),
            all == coins.deep_view(),
            first_unknown_tier(all, cfg.tiers@) == first_unknown_tier(
                all.skip(i as int),
                cfg.tiers@,
            ),
        decreases coins.len() - i,
    {
        proof {
            assert(all.skip(i as int).drop_first() == all.skip(i + 1));
            assert(all.skip(i as int).first() == coins[i as int]@);
        }
        if !cfg.issues(coins[i].tier) {
            return Err(InvalidAmountTierError(coins[i].tier));
        }
        i += 1;
    }
    Ok(())
}

/// Checks that every token is of an issued tier, and names the first tier
/// that is not.
pub fn check_token_tiers(tokens: &Vec<BlindToken>, cfg: &ServerConfig) -> (r: Result<
    (),
    InvalidAmountTierError,
>)
    ensures
        match r {
            Ok(()) => first_unknown_tier(tokens.deep_view(), cfg.tiers@) is None,
            Err(e) => first_unknown_tier(tokens.deep_view(), cfg.tiers@) == Some(e.0),
        },
{
    let ghost all = tokens.deep_view();
    let mut i: usize = 0;
    proof {
        assert(all.skip(0) == all);
    }
    while i < tokens.len()
        invariant
            i <= tokens.len(),
            all == tokens.deep_view(),
            first_unknown_tier(all, cfg.tiers@) == first_unknown_tier(
                all.skip(i as int),
                cfg.tiers@,
            ),
        decreases tokens.len() - i,
    {
        proof {
            assert(all.skip(i as int).drop_first() == all.skip(i + 1));
            assert(all.skip(i as int).first() == tokens[i as int]@);
        }
        if !cfg.issues(tokens[i].tier) {
            return Err(InvalidAmountTierError(tokens[i].tier));
        }
        i += 1;
    }
    Ok(())
}

/// The validator's decision on a request: admitted, or the reason why not.
pub fn validate_request(request: &ClientRequest, checks: RequestChecks, cfg: &ServerConfig) -> (r:
    Result<(), ClientRequestError>)
    ensures
        result_is(r, verdict(request@, checks@, cfg.tiers@)),
{
    match request {
        ClientRequest::Reissuance(reissuance) => {
            if !checks.signature_valid {
                return Err(ClientRequestError::InvalidTransactionSignature);
            }
            if let Err(e) = check_coin_tiers(&reissuance.coins, cfg) {
                return Err(ClientRequestError::from(e));
            }
            if let Err(e) = check_token_tiers(&reissuance.blind_tokens, cfg) {
                return Err(ClientRequestError::from(e));
            }
            match checks.mint_denial {
                Some(e) => Err(ClientRequestError::from(e)),
                None => Ok(()),
            }
        },
        ClientRequest::PegIn(peg_in) => {
            if !checks.signature_valid || checks.peg_in_amount.is_none() {
                return Err(ClientRequestError::InvalidPegIn);
            }
            if let Err(e) = check_token_tiers(&peg_in.blind_tokens, cfg) {
                return Err(ClientRequestError::from(e));
            }
            Ok(())
        },
        ClientRequest::PegOut(peg_out) => {
            if !checks.signature_valid {
                return Err(ClientRequestError::InvalidTransactionSignature);
            }
            if let Err(e) = check_coin_tiers(&peg_out.coins, cfg) {
                return Err(ClientRequestError::from(e));
            }
            Ok(())
        },
    }
}

} // verus!
