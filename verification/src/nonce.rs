//! The nonces that the solver threads of a round try.

use vstd::arithmetic::div_mod::lemma_fundamental_div_mod;
use vstd::arithmetic::mul::{lemma_mul_is_commutative, lemma_mul_is_distributive_add_other_way};
use vstd::prelude::*;

verus! {

/// Calls `rand::RngCore::fill_bytes` on the generator of the thread. Nothing is claimed of the
/// bytes: they are random.
#[verifier::external_body]
fn random_nonce() -> [u8; 32] {
    let mut nonce = [0u8; 32];
    rand::RngCore::fill_bytes(&mut rand::thread_rng(), &mut nonce);
    nonce
}

/// What one solver thread may still try in a round.
#[derive(Debug)]
pub struct NonceBudget {
    pub limit: u64,
    pub used: u64,
}

impl NonceBudget {
    /// No more nonces are used than the limit allows.
    pub open spec fn wf(&self) -> bool {
        self.used <= self.limit
    }

    /// A budget of `limit` nonces.
    pub fn new(limit: u64) -> (r: Self)
        ensures
            r.wf(),
            r.limit == limit,
            r.used == 0,
    {
        NonceBudget { limit, used: 0 }
    }

    /// Whether another nonce may be tried: no thread has found a solution, and the limit is not
    /// reached.
    pub open spec fn may_try(&self, found: bool) -> bool {
        !found && self.used < self.limit
    }

    /// Takes one nonce off the budget, if another may be tried.
    pub fn take_one(&mut self, found: bool) -> (r: bool)
        requires
            old(self).wf(),
        ensures
            r == old(self).may_try(found),
            r == (!found && old(self).used < old(self).limit),
            final(self).wf(),
            final(self).limit == old(self).limit,
            final(self).used == old(self).used + (if r {
                1int
            } else {
                0int
            }),
    {
        if found || self.used >= self.limit {
            return false;
        }
        self.used = self.used + 1;
        true
    }

    /// The next nonce to try, a random one; nothing when the search is over.
    pub fn next_nonce(&mut self, found: bool) -> (r: Option<[u8; 32]>)
        requires
            old(self).wf(),
        ensures
            r is Some <==> old(self).may_try(found),
            r is Some <==> (!found && old(self).used < old(self).limit),
            final(self).wf(),
            final(self).limit == old(self).limit,
            final(self).used == old(self).used + (if r is Some {
                1int
            } else {
                0int
            }),
    {
        if self.take_one(found) {
            Some(random_nonce())
        } else {
            None
        }
    }
}

/// The nonces that a number of threads have used together.
pub open spec fn nonces_used(budgets: Seq<NonceBudget>) -> nat
    decreases budgets.len(),
{
    if budgets.len() == 0 {
        0
    } else {
        nonces_used(budgets.drop_last()) + budgets.last().used as nat
    }
}

/// However the threads proceed, together they never try more nonces in a round than are set.
pub proof fn round_stays_within_its_nonces(budgets: Seq<NonceBudget>, max_nonces_per_round: u64)
    requires
        budgets.len() > 0,
        forall|i: int|
            0 <= i < budgets.len() ==> (#[trigger] budgets[i]).wf() && budgets[i].limit
                == max_nonces_per_round as int / budgets.len() as int,
    ensures
        nonces_used(budgets) <= max_nonces_per_round,
{
    let threads = budgets.len() as int;
    let share = max_nonces_per_round as int / threads;
    lemma_shares(budgets, share);
    lemma_fundamental_div_mod(max_nonces_per_round as int, threads);
    lemma_mul_is_commutative(threads, share);
}

/// Threads that each keep to a share use no more than their shares together.
proof fn lemma_shares(budgets: Seq<NonceBudget>, share: int)
    requires
        forall|i: int|
            0 <= i < budgets.len() ==> (#[trigger] budgets[i]).wf() && budgets[i].limit == share,
    ensures
        nonces_used(budgets) <= budgets.len() * share,
    decreases budgets.len(),
{
    if budgets.len() > 0 {
        let front = budgets.drop_last();
        assert forall|i: int| 0 <= i < front.len() implies (#[trigger] front[i]).wf()
            && front[i].limit == share by {
            assert(front[i] == budgets[i]);
        }
        lemma_shares(front, share);
        assert(budgets[budgets.len() - 1] == budgets.last());
        lemma_mul_is_distributive_add_other_way(share, front.len() as int, 1);
    }
}

/// A solution that a solver has found.
#[derive(Debug)]
pub struct Candidate {
    pub nonce: [u8; 32],
    pub soln_indices: Vec<u8>,
}

/// Keeps a candidate whose hash is under the target, and only then.
pub fn keep_candidate(candidate: Option<Candidate>, under_target: bool) -> (r: Option<Candidate>)
    ensures
        r == (if under_target {
            candidate
        } else {
            None
        }),
{
    if under_target {
        candidate
    } else {
        None
    }
}

/// A thread may go on exactly as long as nothing is found and its limit is not reached; a thread
/// whose limit is reached, or that learns of a solution, tries no more.
pub proof fn budget_is_spent_to_the_end(budget: NonceBudget)
    requires
        budget.wf(),
    ensures
        !budget.may_try(true),
        budget.may_try(false) <==> budget.used != budget.limit,
{
}

} // verus!
