//! What a node is configured with.

use crate::item::PeerId;
use vstd::prelude::*;

verus! {

/// The configuration of one member of the federation.
#[derive(Debug)]
pub struct ServerConfig {
    /// This node.
    pub identity: PeerId,
    /// The members of the federation, this node included.
    pub peers: Vec<PeerId>,
    /// The denomination tiers that the federation issues, in milli-satoshi.
    pub tiers: Vec<u64>,
    /// The on-chain fee that a payout bears per output, in satoshi.
    pub per_utxo_fee: u64,
}

/// The number of faulty members that a federation of `n` tolerates: the
/// greatest number below a third of `n`.
pub open spec fn faulty_bound(n: nat) -> nat {
    if n == 0 {
        0
    } else {
        ((n - 1) / 3) as nat
    }
}

/// The signing threshold of a federation of `n` members: more shares than
/// this are needed to complete a signature.
pub open spec fn threshold_of(n: nat) -> nat {
    if n == 0 {
        0
    } else {
        (n - faulty_bound(n) - 1) as nat
    }
}

/// Calls `hbbft::util::max_faulty`, which asserts that `n` is positive and
/// returns `(n - 1) / 3`. Trusted: that result, for a positive `n`.
#[verifier::external_body]
fn max_faulty(n: usize) -> (f: usize)
    requires
        n > 0,
    ensures
        f == faulty_bound(n as nat),
{
    hbbft::util::max_faulty(n)
}

impl ServerConfig {
    /// The number of faulty members that the federation tolerates.
    pub fn max_faulty(&self) -> (f: usize)
        ensures
            f == faulty_bound(self.peers@.len()),
    {
        if self.peers.len() == 0 {
            0
        } else {
            max_faulty(self.peers.len())
        }
    }

    /// The signing threshold: a request is finalized once more peers than
    /// this have contributed a share. A federation without members has
    /// threshold zero.
    pub fn tbs_threshold(&self) -> (t: usize)
        ensures
            t == threshold_of(self.peers@.len()),
    {
        let n = self.peers.len();
        if n == 0 {
            0
        } else {
            n - self.max_faulty() - 1
        }
    }

    /// Whether the federation issues the tier.
    pub fn issues(&self, tier: u64) -> (r: bool)
        ensures
            r == self.tiers@.contains(tier),
    {
        let mut i: usize = 0;
        while i < self.tiers.len()
            invariant
                i <= self.tiers.len(),
                forall|j: int| 0 <= j < i ==> self.tiers@[j] != tier,
            decreases self.tiers.len() - i,
        {
            if self.tiers[i] == tier {
                return true;
            }
            i += 1;
        }
        false
    }
}

} // verus!
