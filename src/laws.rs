use vstd::prelude::*;

use crate::state::{
    is_terminal, reputation_down, volume_of, reputation_up, AgentChainError, AgentChainState,
    TransactionType, FAILURE_PENALTY, MAX_REPUTATION,
};

verus! {

/// Reputation after `n` successful services in a row, starting from `r`.
pub open spec fn reputation_after_successes(r: u64, n: nat) -> u64
    decreases n,
{
    if n == 0 {
        r
    } else {
        reputation_up(reputation_after_successes(r, (n - 1) as nat))
    }
}

/// Reputation after `n` failed services in a row, starting from `r`.
pub open spec fn reputation_after_failures(r: u64, n: nat) -> u64
    decreases n,
{
    if n == 0 {
        r
    } else {
        reputation_down(reputation_after_failures(r, (n - 1) as nat))
    }
}

/// A run of successes raises reputation one step at a time and stops at
/// the cap: from `r`, `n` successes give `min(r + n, MAX_REPUTATION)`.
pub proof fn lemma_successes_clamp(r: u64, n: nat)
    requires
        r <= MAX_REPUTATION,
    ensures
        reputation_after_successes(r, n) == if r + n <= MAX_REPUTATION {
            r + n
        } else {
            MAX_REPUTATION as int
        },
        reputation_after_successes(r, n) <= MAX_REPUTATION,
    decreases n,
{
    if n > 0 {
        lemma_successes_clamp(r, (n - 1) as nat);
    }
}

/// A run of failures lowers reputation by the penalty each time and stops
/// at zero: from `r`, `n` failures give `max(r - FAILURE_PENALTY * n, 0)`.
pub proof fn lemma_failures_clamp(r: u64, n: nat)
    requires
        r <= MAX_REPUTATION,
    ensures
        reputation_after_failures(r, n) == if r >= FAILURE_PENALTY * n {
            r - FAILURE_PENALTY * n
        } else {
            0
        },
        reputation_after_failures(r, n) <= MAX_REPUTATION,
    decreases n,
{
    if n > 0 {
        lemma_failures_clamp(r, (n - 1) as nat);
        assert(FAILURE_PENALTY * n == FAILURE_PENALTY * (n - 1) + FAILURE_PENALTY) by (nonlinear_arith);
    }
}

/// A transfer between two agents keeps the sum of their balances, and
/// between distinct agents debits the sender by exactly `amount` and
/// credits the recipient by exactly `amount`.
pub proof fn lemma_transfer_conserves(
    before: AgentChainState,
    after: AgentChainState,
    from: Seq<char>,
    to: Seq<char>,
    amount: u128,
    transaction_type: TransactionType,
    now: u64,
)
    requires
        before.wf(),
        after.wf(),
        before.transfer_allowed(from, to, amount),
        before.transferred(&after, from, to, amount, transaction_type, now),
    ensures
        after.has_agent(from),
        after.has_agent(to),
        before.agent(from).balance + before.agent(to).balance == after.agent(from).balance
            + after.agent(to).balance,
        from != to ==> after.agent(from).balance == before.agent(from).balance - amount,
        from != to ==> after.agent(to).balance == before.agent(to).balance + amount,
        after.total_volume == before.total_volume + amount,
{
    let fi = before.agent_index(from);
    let ti = before.agent_index(to);
    assert(before.agents@[fi].id@ == from);
    assert(before.agents@[ti].id@ == to);
    assert(after.agents@[fi].id == before.agents@[fi].id);
    assert(after.agents@[ti].id == before.agents@[ti].id);
    after.lemma_agent_index(fi);
    after.lemma_agent_index(ti);
    if from != to {
        assert(fi != ti);
    }
}

/// In every well-formed ledger the counters agree with the records: the
/// agent count is the number of agents, the transaction count the number
/// of ledger entries, and the volume the sum of their amounts. Every
/// mutating operation keeps the ledger well formed and never lowers a
/// counter (`counters_grow` in its postcondition).
pub proof fn lemma_counters_match(s: AgentChainState)
    requires
        s.wf(),
    ensures
        s.total_agents == s.agents@.len(),
        s.total_transactions == s.transactions@.len(),
        s.total_volume == volume_of(s.transactions@),
{
}

/// Once a completion of request `id` has gone through, the request is
/// settled: no later completion of it, with either outcome, is allowed, and
/// the only error one reports is that the request is already completed.
pub proof fn lemma_completion_settles(
    before: AgentChainState,
    after: AgentChainState,
    id: u64,
    success: bool,
    now: u64,
    again: bool,
    e: AgentChainError,
)
    requires
        before.wf(),
        before.completion_allowed(id, success),
        before.completed(&after, id, success, now),
    ensures
        is_terminal(after.request(id).status),
        !after.completion_allowed(id, again),
        after.completion_error(id, again, e) <==> e == AgentChainError::RequestAlreadyCompleted(id),
{
}

} // verus!
