use vstd::prelude::*;

use crate::state::{
    Agent, AgentChainState, AgentStrategy, MarketListing, ServiceRequest, ServiceStatus,
};

verus! {

/// The name of a strategy's kind.
pub open spec fn strategy_name(s: AgentStrategy) -> Seq<char> {
    match s {
        AgentStrategy::Trading { .. } => "Trading"@,
        AgentStrategy::Oracle { .. } => "Oracle"@,
        AgentStrategy::Governance { .. } => "Governance"@,
        AgentStrategy::MarketMaker { .. } => "MarketMaker"@,
    }
}

/// Ids of the agents for which `keep` holds, in table order.
pub open spec fn agent_ids_where(agents: Seq<Agent>, keep: spec_fn(Agent) -> bool) -> Seq<Seq<char>>
    decreases agents.len(),
{
    if agents.len() == 0 {
        Seq::empty()
    } else {
        let rest = agent_ids_where(agents.drop_last(), keep);
        if keep(agents.last()) {
            rest.push(agents.last().id@)
        } else {
            rest
        }
    }
}

/// Ids of the Pending requests, in table order.
pub open spec fn pending_ids(requests: Seq<ServiceRequest>) -> Seq<u64>
    decreases requests.len(),
{
    if requests.len() == 0 {
        Seq::empty()
    } else {
        let rest = pending_ids(requests.drop_last());
        if requests.last().status == ServiceStatus::Pending {
            rest.push(requests.last().id)
        } else {
            rest
        }
    }
}

pub open spec fn count_active(agents: Seq<Agent>) -> int
    decreases agents.len(),
{
    if agents.len() == 0 {
        0
    } else {
        count_active(agents.drop_last()) + if agents.last().is_active {
            1int
        } else {
            0
        }
    }
}

pub open spec fn sum_reputation(agents: Seq<Agent>) -> int
    decreases agents.len(),
{
    if agents.len() == 0 {
        0
    } else {
        sum_reputation(agents.drop_last()) + agents.last().reputation
    }
}

proof fn lemma_sums_bounded(agents: Seq<Agent>)
    ensures
        0 <= count_active(agents) <= agents.len(),
        0 <= sum_reputation(agents) <= agents.len() * u64::MAX,
    decreases agents.len(),
{
    if agents.len() > 0 {
        lemma_sums_bounded(agents.drop_last());
    }
}

/// Aggregate figures of the marketplace. The average reputation is
/// `total_reputation / total_agents`.
#[derive(Debug, Clone, Copy, PartialEq, Eq)]
pub struct MarketplaceStats {
    pub total_agents: u64,
    pub active_agents: u64,
    pub total_transactions: u64,
    pub total_volume: u128,
    pub total_reputation: u128,
}

/// Read-only queries over the ledger.
pub struct QueryRoot;

pub fn strategy_type(s: &AgentStrategy) -> (r: &'static str)
    ensures
        r@ == strategy_name(*s),
{
    match s {
        AgentStrategy::Trading { .. } => "Trading",
        AgentStrategy::Oracle { .. } => "Oracle",
        AgentStrategy::Governance { .. } => "Governance",
        AgentStrategy::MarketMaker { .. } => "MarketMaker",
    }
}

fn str_eq(a: &str, b: &String) -> (r: bool)
    ensures
        r == (a@ == b@),
{
    let a = a.to_owned();
    a == *b
}

impl QueryRoot {
    /// The agent with id `agent_id`, if any.
    pub fn agent<'a>(&self, state: &'a AgentChainState, agent_id: &String) -> (r: Option<&'a Agent>)
        requires
            state.wf(),
        ensures
            match r {
                Some(a) => state.has_agent(agent_id@) && *a == state.agent(agent_id@),
                None => !state.has_agent(agent_id@),
            },
    {
        match state.find_agent(agent_id) {
            Some(i) => Some(&state.agents[i]),
            None => None,
        }
    }

    /// Every agent, in table order.
    pub fn agents<'a>(&self, state: &'a AgentChainState) -> (r: &'a [Agent])
        ensures
            r@ == state.agents@,
    {
        state.agents.as_slice()
    }

    /// The request with id `request_id`, if any.
    pub fn service_request<'a>(&self, state: &'a AgentChainState, request_id: u64) -> (r: Option<
        &'a ServiceRequest,
    >)
        ensures
            match r {
                Some(q) => state.has_request(request_id) && *q == state.request(request_id),
                None => !state.has_request(request_id),
            },
    {
        if request_id as u128 >= state.service_requests.len() as u128 {
            None
        } else {
            Some(&state.service_requests[request_id as usize])
        }
    }

    /// Every market listing.
    pub fn market_listings<'a>(&self, state: &'a AgentChainState) -> (r: &'a [MarketListing])
        ensures
            r@ == state.market_listings@,
    {
        state.market_listings.as_slice()
    }

    /// Ids of the active agents.
    pub fn active_agents(&self, state: &AgentChainState) -> (r: Vec<String>)
        ensures
            r@.map_values(|x: String| x@) == agent_ids_where(state.agents@, |a: Agent| a.is_active),
    {
        let ghost keep = |a: Agent| a.is_active;
        let mut out: Vec<String> = Vec::new();
        let mut i: usize = 0;
        while i < state.agents.len()
            invariant
                i <= state.agents@.len(),
                keep == (|a: Agent| a.is_active),
                out@.map_values(|x: String| x@) == agent_ids_where(state.agents@.take(i as int), keep),
            decreases state.agents@.len() - i,
        {
            proof {
                assert(state.agents@.take(i + 1).drop_last() =~= state.agents@.take(i as int));
            }
            if state.agents[i].is_active {
                out.push(state.agents[i].id.clone());
                proof {
                    assert(out@.map_values(|x: String| x@) =~= agent_ids_where(
                        state.agents@.take(i as int),
                        keep,
                    ).push(state.agents@[i as int].id@));
                }
            }
            i = i + 1;
        }
        proof {
            assert(state.agents@.take(i as int) =~= state.agents@);
        }
        out
    }

    /// Ids of the agents whose strategy is of kind `kind`.
    pub fn agents_by_strategy(&self, state: &AgentChainState, kind: &String) -> (r: Vec<String>)
        ensures
            r@.map_values(|x: String| x@) == agent_ids_where(
                state.agents@,
                |a: Agent| strategy_name(a.strategy) == kind@,
            ),
    {
        let ghost keep = |a: Agent| strategy_name(a.strategy) == kind@;
        let mut out: Vec<String> = Vec::new();
        let mut i: usize = 0;
        while i < state.agents.len()
            invariant
                i <= state.agents@.len(),
                keep == (|a: Agent| strategy_name(a.strategy) == kind@),
                out@.map_values(|x: String| x@) == agent_ids_where(state.agents@.take(i as int), keep),
            decreases state.agents@.len() - i,
        {
            proof {
                assert(state.agents@.take(i + 1).drop_last() =~= state.agents@.take(i as int));
            }
            if str_eq(strategy_type(&state.agents[i].strategy), kind) {
                out.push(state.agents[i].id.clone());
                proof {
                    assert(out@.map_values(|x: String| x@) =~= agent_ids_where(
                        state.agents@.take(i as int),
                        keep,
                    ).push(state.agents@[i as int].id@));
                }
            }
            i = i + 1;
        }
        proof {
            assert(state.agents@.take(i as int) =~= state.agents@);
        }
        out
    }

    /// Ids of the requests still Pending.
    pub fn pending_requests(&self, state: &AgentChainState) -> (r: Vec<u64>)
        ensures
            r@ == pending_ids(state.service_requests@),
    {
        let mut out: Vec<u64> = Vec::new();
        let mut i: usize = 0;
        while i < state.service_requests.len()
            invariant
                i <= state.service_requests@.len(),
                out@ == pending_ids(state.service_requests@.take(i as int)),
            decreases state.service_requests@.len() - i,
        {
            proof {
                assert(state.service_requests@.take(i + 1).drop_last() =~= state.service_requests@.take(
                    i as int,
                ));
            }
            if state.service_requests[i].status == ServiceStatus::Pending {
                out.push(state.service_requests[i].id);
            }
            i = i + 1;
        }
        proof {
            assert(state.service_requests@.take(i as int) =~= state.service_requests@);
        }
        out
    }

    /// Positions of the first ledger entries: `limit` of them (100 when
    /// none is given, all of them when it is negative).
    pub fn transactions(&self, state: &AgentChainState, limit: Option<i32>) -> (r: Vec<usize>)
        ensures
            r@.len() == match limit {
                None => if state.transactions@.len() < 100 {
                    state.transactions@.len() as int
                } else {
                    100
                },
                Some(n) => if n < 0 || state.transactions@.len() < n {
                    state.transactions@.len() as int
                } else {
                    n as int
                },
            },
            forall|k: int| 0 <= k < r@.len() ==> r@[k] == k,
    {
        let n = state.transactions.len();
        let bound: usize = match limit {
            None => if n < 100 {
                n
            } else {
                100
            },
            Some(l) => if l < 0 || (n as u128) < (l as u128) {
                n
            } else {
                l as usize
            },
        };
        let mut out: Vec<usize> = Vec::new();
        let mut i: usize = 0;
        while i < bound
            invariant
                i <= bound,
                out@.len() == i,
                forall|k: int| 0 <= k < i ==> out@[k] == k,
            decreases bound - i,
        {
            out.push(i);
            i = i + 1;
        }
        out
    }

    /// Aggregate counters, the number of active agents and the sum of all
    /// reputations.
    pub fn marketplace_stats(&self, state: &AgentChainState) -> (r: MarketplaceStats)
        ensures
            r.total_agents == state.total_agents,
            r.total_transactions == state.total_transactions,
            r.total_volume == state.total_volume,
            r.active_agents == count_active(state.agents@),
            r.total_reputation == sum_reputation(state.agents@),
    {
        let mut active: u64 = 0;
        let mut reputation: u128 = 0;
        let mut i: usize = 0;
        while i < state.agents.len()
            invariant
                i <= state.agents@.len(),
                active == count_active(state.agents@.take(i as int)),
                reputation == sum_reputation(state.agents@.take(i as int)),
            decreases state.agents@.len() - i,
        {
            proof {
                assert(state.agents@.take(i + 1).drop_last() =~= state.agents@.take(i as int));
                lemma_sums_bounded(state.agents@.take(i as int));
                assert(i * u64::MAX <= u64::MAX * u64::MAX) by (nonlinear_arith)
                    requires i <= u64::MAX;
            }
            if state.agents[i].is_active {
                active = active + 1;
            }
            reputation = reputation + state.agents[i].reputation as u128;
            i = i + 1;
        }
        proof {
            assert(state.agents@.take(i as int) =~= state.agents@);
        }
        MarketplaceStats {
            total_agents: state.total_agents,
            active_agents: active,
            total_transactions: state.total_transactions,
            total_volume: state.total_volume,
            total_reputation: reputation,
        }
    }
}

} // verus!
