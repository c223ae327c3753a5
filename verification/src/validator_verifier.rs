//! The validator verifier: voting powers, the Byzantine quorum threshold,
//! and the signature check for incoming votes.
//!
//! Cryptographic primitives are collaborators of this core, not part of it:
//! a validator's key and a vote's signature are carried as plain words, and
//! a signature is accepted exactly when it matches the registered key of
//! the claimed voter.

use vstd::prelude::*;
use crate::interval::ceil_div;

verus! {

/// One validator's consensus identity.
#[derive(Clone, Copy, PartialEq, Eq, Structural, Debug)]
pub struct ValidatorConsensusInfo {
    /// The validator's address (voter id).
    pub address: u64,
    /// The validator's voting power.
    pub voting_power: u64,
    /// The key against which this validator's signatures are checked.
    pub public_key: u64,
}

/// No two entries share an address.
pub open spec fn distinct_addresses(infos: Seq<ValidatorConsensusInfo>) -> bool {
    forall|i: int, j: int|
        0 <= i < j < infos.len() ==> infos[i].address != infos[j].address
}

/// The entry for `address`, if any: the first match from the front.
pub open spec fn spec_find(infos: Seq<ValidatorConsensusInfo>, address: u64) -> Option<
    ValidatorConsensusInfo,
>
    decreases infos.len(),
{
    if infos.len() == 0 {
        None
    } else if infos[0].address == address {
        Some(infos[0])
    } else {
        spec_find(infos.drop_first(), address)
    }
}

/// Sum of all entries' voting powers.
pub open spec fn spec_total_power(infos: Seq<ValidatorConsensusInfo>) -> int
    decreases infos.len(),
{
    if infos.len() == 0 {
        0
    } else {
        infos[0].voting_power + spec_total_power(infos.drop_first())
    }
}

/// The Byzantine quorum threshold for a total power: `ceil(2 * total / 3)`.
pub open spec fn spec_quorum(total: int) -> int {
    ceil_div(2 * total, 3)
}

/// Supplies voter lookup, the total voting power and the quorum check.
pub struct ValidatorVerifier {
    /// The validator set; addresses are distinct.
    pub validator_infos: Vec<ValidatorConsensusInfo>,
    /// Cached sum of all voting powers.
    pub total_power: u64,
}

impl ValidatorVerifier {
    /// Distinct addresses, and the cached total matches the entries.
    pub open spec fn wf(&self) -> bool {
        &&& distinct_addresses(self.validator_infos@)
        &&& self.total_power == spec_total_power(self.validator_infos@)
    }

    /// The entry registered for `address`.
    pub open spec fn spec_info_of(&self, address: u64) -> Option<ValidatorConsensusInfo> {
        spec_find(self.validator_infos@, address)
    }

    /// The voting power of `address`; zero when unknown.
    pub open spec fn spec_power_of(&self, address: u64) -> int {
        match self.spec_info_of(address) {
            Some(info) => info.voting_power as int,
            None => 0,
        }
    }

    /// The quorum threshold of this validator set.
    pub open spec fn spec_quorum_power(&self) -> int {
        spec_quorum(self.total_power as int)
    }

    /// A signature by `address` over anything is accepted exactly when it
    /// matches the registered key of a known voter.
    pub open spec fn spec_signature_ok(&self, address: u64, signature: u64) -> bool {
        match self.spec_info_of(address) {
            Some(info) => signature == info.public_key,
            None => false,
        }
    }

    /// Builds a verifier from a validator set. Rejected with `None`: a set
    /// with two entries for one address, and a set whose total voting power
    /// does not fit a 64-bit word.
    pub fn new(validator_infos: Vec<ValidatorConsensusInfo>) -> (r: Option<ValidatorVerifier>)
        ensures
            r is Some <==> distinct_addresses(validator_infos@) && spec_total_power(
                validator_infos@,
            ) <= u64::MAX,
            r is Some ==> {
                &&& r->Some_0.wf()
                &&& r->Some_0.validator_infos@ == validator_infos@
            },
    {
        let n = validator_infos.len();
        let mut i: usize = 0;
        while i < n
            invariant
                n == validator_infos.len(),
                i <= n,
                forall|a: int, b: int|
                    0 <= a < b < validator_infos@.len() && a < i ==> validator_infos@[a].address
                        != validator_infos@[b].address,
            decreases n - i,
        {
            let mut j: usize = i + 1;
            while j < n
                invariant
                    n == validator_infos.len(),
                    i < j || j == i + 1,
                    i < n,
                    j <= n,
                    forall|b: int|
                        i < b < j ==> validator_infos@[i as int].address
                            != validator_infos@[b].address,
                decreases n - j,
            {
                if validator_infos[i].address == validator_infos[j].address {
                    return None;
                }
                j = j + 1;
            }
            i = i + 1;
        }
        let total = sum_powers(&validator_infos);
        if total > u64::MAX as u128 {
            return None;
        }
        Some(ValidatorVerifier { validator_infos, total_power: total as u64 })
    }

    /// The entry registered for `address`, by linear search.
    pub fn get_info(&self, address: u64) -> (r: Option<ValidatorConsensusInfo>)
        ensures
            r == self.spec_info_of(address),
    {
        let n = self.validator_infos.len();
        let mut i: usize = 0;
        proof {
            assert(self.validator_infos@.skip(0) =~= self.validator_infos@);
        }
        while i < n
            invariant
                n == self.validator_infos.len(),
                i <= n,
                spec_find(self.validator_infos@, address) == spec_find(
                    self.validator_infos@.skip(i as int),
                    address,
                ),
            decreases n - i,
        {
            let info = self.validator_infos[i];
            proof {
                lemma_find_step(self.validator_infos@, i as int, address);
            }
            if info.address == address {
                return Some(info);
            }
            i = i + 1;
        }
        proof {
            assert(self.validator_infos@.skip(n as int).len() == 0);
        }
        None
    }

    /// The voting power registered for `address`, `None` for an unknown voter.
    pub fn voting_power(&self, address: u64) -> (r: Option<u64>)
        ensures
            match r {
                Some(p) => self.spec_info_of(address) is Some && p == self.spec_info_of(
                    address,
                )->Some_0.voting_power,
                None => self.spec_info_of(address) is None,
            },
    {
        match self.get_info(address) {
            Some(info) => Some(info.voting_power),
            None => None,
        }
    }

    /// The total voting power of the set.
    pub fn total_voting_power(&self) -> (r: u64)
        ensures
            r == self.total_power,
    {
        self.total_power
    }

    /// The quorum threshold `ceil(2 * total / 3)`.
    pub fn quorum_voting_power(&self) -> (r: u64)
        requires
            self.wf(),
        ensures
            r == self.spec_quorum_power(),
            r <= self.total_power,
    {
        let t = self.total_power as u128;
        let q = (2 * t + 2) / 3;
        proof {
            assert((2 * t + 2) / 3 <= t) by (nonlinear_arith)
                requires
                    t >= 0,
            ;
        }
        q as u64
    }

    /// Whether an accumulated voting power meets the quorum threshold.
    pub fn check_voting_power(&self, accumulated: u128) -> (r: bool)
        requires
            self.wf(),
        ensures
            r <==> accumulated >= self.spec_quorum_power(),
    {
        accumulated >= self.quorum_voting_power() as u128
    }

    /// Whether `signature` is a valid signature by `address`.
    pub fn verify_signature(&self, address: u64, signature: u64) -> (r: bool)
        ensures
            r <==> self.spec_signature_ok(address, signature),
    {
        match self.get_info(address) {
            Some(info) => signature == info.public_key,
            None => false,
        }
    }
}

/// Sum of the entries' voting powers, exact in a 128-bit word.
fn sum_powers(infos: &Vec<ValidatorConsensusInfo>) -> (r: u128)
    ensures
        r == spec_total_power(infos@),
{
    let n = infos.len();
    let mut sum: u128 = 0;
    let mut i: usize = 0;
    proof {
        lemma_total_power_bound(infos@.skip(0));
        assert(infos@.skip(0) =~= infos@);
    }
    while i < n
        invariant
            n == infos.len(),
            i <= n,
            sum + spec_total_power(infos@.skip(i as int)) == spec_total_power(infos@),
            sum <= i * (u64::MAX as int),
        decreases n - i,
    {
        proof {
            assert(infos@.skip(i as int).len() > 0);
            assert(infos@.skip(i as int)[0] == infos@[i as int]);
            assert(infos@.skip(i as int).drop_first() =~= infos@.skip(i as int + 1));
            assert(i * (u64::MAX as int) + u64::MAX <= (i + 1) * (u64::MAX as int))
                by (nonlinear_arith)
            ;
            assert((i + 1) * (u64::MAX as int) <= u128::MAX) by (nonlinear_arith)
                requires
                    0 <= i + 1 <= usize::MAX,
            ;
        }
        sum = sum + infos[i].voting_power as u128;
        i = i + 1;
    }
    proof {
        assert(infos@.skip(n as int).len() == 0);
    }
    sum
}

/// A voting-power sum is bounded by the number of entries times `u64::MAX`.
proof fn lemma_total_power_bound(infos: Seq<ValidatorConsensusInfo>)
    ensures
        0 <= spec_total_power(infos) <= infos.len() * (u64::MAX as int),
    decreases infos.len(),
{
    if infos.len() == 0 {
    } else {
        lemma_total_power_bound(infos.drop_first());
        assert((infos.len() - 1) * (u64::MAX as int) + u64::MAX == infos.len() * (u64::MAX as int))
            by (nonlinear_arith)
            requires
                infos.len() >= 1,
        ;
    }
}

/// One step of the linear search: looking in `skip(i)` equals looking in
/// `skip(i + 1)` unless entry `i` is the match.
proof fn lemma_find_step(infos: Seq<ValidatorConsensusInfo>, i: int, address: u64)
    requires
        0 <= i < infos.len(),
    ensures
        infos[i].address == address ==> spec_find(infos.skip(i), address) == Some(infos[i]),
        infos[i].address != address ==> spec_find(infos.skip(i), address) == spec_find(
            infos.skip(i + 1),
            address,
        ),
{
    assert(infos.skip(i).len() > 0);
    assert(infos.skip(i)[0] == infos[i]);
    assert(infos.skip(i).drop_first() =~= infos.skip(i + 1));
}

} // verus!
