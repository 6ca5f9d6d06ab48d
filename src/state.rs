use vstd::prelude::*;

verus! {

/// Highest reputation an agent can hold.
pub const MAX_REPUTATION: u64 = 1000;

/// Reputation of a freshly created agent.
pub const INITIAL_REPUTATION: u64 = 100;

/// Reputation lost by a provider for each failed service.
pub const FAILURE_PENALTY: u64 = 5;

/// Failures reported by the accounting engine.
#[derive(Debug, Clone)]
pub enum AgentChainError {
    AgentNotFound(String),
    AgentAlreadyExists(String),
    InsufficientBalance { required: u128, available: u128 },
    Unauthorized,
    InvalidStrategy,
    RequestNotFound(u64),
    RequestAlreadyCompleted(u64),
    RequestNotPending(u64),
    ArithmeticOverflow,
}

/// Descriptive strategy metadata attached to an agent.
#[derive(Debug, Clone)]
pub enum AgentStrategy {
    Trading { risk_level: u8, min_profit: u128 },
    Oracle { data_sources: Vec<String>, update_frequency: u64 },
    Governance { voting_power: u128, delegation_enabled: bool },
    MarketMaker { spread_bps: u16, liquidity_depth: u128 },
}

/// An account: identity, balance, reputation and service history.
#[derive(Debug, Clone)]
pub struct Agent {
    pub id: String,
    pub owner: String,
    pub name: String,
    pub description: String,
    pub strategy: AgentStrategy,
    pub balance: u128,
    pub reputation: u64,
    pub services_completed: u64,
    pub services_failed: u64,
    pub created_at: u64,
    pub last_active: u64,
    pub is_active: bool,
}

/// Where a service request stands. Completed and Failed are final.
#[derive(Debug, Clone, Copy, PartialEq, Eq, Structural)]
pub enum ServiceStatus {
    Pending,
    Accepted,
    InProgress,
    Completed,
    Failed,
    Disputed,
}

/// A service one agent asked of another, paid on successful completion.
#[derive(Debug, Clone)]
pub struct ServiceRequest {
    pub id: u64,
    pub requester_agent: String,
    pub provider_agent: String,
    pub service_type: String,
    pub parameters: String,
    pub payment: u128,
    pub status: ServiceStatus,
    pub created_at: u64,
    pub completed_at: Option<u64>,
}

#[derive(Debug, Clone, Copy, PartialEq, Eq, Structural)]
pub enum TransactionType {
    ServicePayment,
    Transfer,
    Reward,
    Penalty,
}

/// An append-only ledger entry; its id is its position in the ledger.
#[derive(Debug, Clone)]
pub struct Transaction {
    pub id: u64,
    pub from_agent: String,
    pub to_agent: String,
    pub amount: u128,
    pub transaction_type: TransactionType,
    pub timestamp: u64,
}

/// An advertised offering, keyed by agent and service type. The success
/// rate is kept in hundredths of a percent (0 to 10000).
#[derive(Debug, Clone)]
pub struct MarketListing {
    pub agent_id: String,
    pub service_type: String,
    pub price: u128,
    pub capacity: u32,
    pub average_completion_time: u64,
    pub success_rate_bps: u16,
}

pub open spec fn is_terminal(s: ServiceStatus) -> bool {
    s == ServiceStatus::Completed || s == ServiceStatus::Failed
}

/// Sum of the amounts of a sequence of ledger entries.
pub open spec fn volume_of(txs: Seq<Transaction>) -> int
    decreases txs.len(),
{
    if txs.len() == 0 {
        0
    } else {
        volume_of(txs.drop_last()) + txs.last().amount
    }
}

/// Reputation after one successful service: one more, capped.
pub open spec fn reputation_up(r: u64) -> u64 {
    if r < MAX_REPUTATION { (r + 1) as u64 } else { MAX_REPUTATION }
}

/// Reputation after one failed service: the penalty, floored at zero.
pub open spec fn reputation_down(r: u64) -> u64 {
    if r >= FAILURE_PENALTY { (r - FAILURE_PENALTY) as u64 } else { 0 }
}

/// Agent ids are unique and every reputation lies in [0, MAX_REPUTATION].
pub open spec fn agents_wf(agents: Seq<Agent>) -> bool {
    &&& forall|i: int, j: int|
        0 <= i < j < agents.len() ==> #[trigger] agents[i].id@ != #[trigger] agents[j].id@
    &&& forall|i: int| 0 <= i < agents.len() ==> #[trigger] agents[i].reputation <= MAX_REPUTATION
}

/// Each request sits at the position given by its id, and carries a
/// completion time exactly when its status is terminal.
pub open spec fn requests_wf(requests: Seq<ServiceRequest>) -> bool {
    forall|i: int|
        0 <= i < requests.len() ==> (#[trigger] requests[i]).id == i && (requests[i].completed_at is Some
            <==> is_terminal(requests[i].status))
}

/// No two listings share an (agent, service type) key.
pub open spec fn listings_wf(listings: Seq<MarketListing>) -> bool {
    forall|i: int, j: int|
        0 <= i < j < listings.len() ==> !(#[trigger] listings[i].agent_id@ == #[trigger] listings[j].agent_id@
            && listings[i].service_type@ == listings[j].service_type@)
}

pub proof fn lemma_agents_update(agents: Seq<Agent>, i: int, a: Agent)
    requires
        agents_wf(agents),
        0 <= i < agents.len(),
        a.id == agents[i].id,
        a.reputation <= MAX_REPUTATION,
    ensures
        agents_wf(agents.update(i, a)),
{
    let post = agents.update(i, a);
    assert forall|k: int, j: int| 0 <= k < j < post.len() implies #[trigger] post[k].id@
        != #[trigger] post[j].id@ by {
        assert(post[k].id == agents[k].id);
        assert(post[j].id == agents[j].id);
    }
    assert forall|k: int| 0 <= k < post.len() implies #[trigger] post[k].reputation
        <= MAX_REPUTATION by {
        if k != i {
            assert(post[k] == agents[k]);
        }
    }
}

pub proof fn lemma_requests_update(requests: Seq<ServiceRequest>, i: int, r: ServiceRequest)
    requires
        requests_wf(requests),
        0 <= i < requests.len(),
        r.id == i,
        r.completed_at is Some <==> is_terminal(r.status),
    ensures
        requests_wf(requests.update(i, r)),
{
    let post = requests.update(i, r);
    assert forall|k: int| 0 <= k < post.len() implies (#[trigger] post[k]).id == k && (
    post[k].completed_at is Some <==> is_terminal(post[k].status)) by {
        if k != i {
            assert(post[k] == requests[k]);
        }
    }
}

pub proof fn lemma_listings_update(listings: Seq<MarketListing>, i: int, l: MarketListing)
    requires
        listings_wf(listings),
        0 <= i < listings.len(),
        l.agent_id@ == listings[i].agent_id@,
        l.service_type@ == listings[i].service_type@,
    ensures
        listings_wf(listings.update(i, l)),
{
    let post = listings.update(i, l);
    assert forall|a: int, b: int| 0 <= a < b < post.len() implies !(
    #[trigger] post[a].agent_id@ == #[trigger] post[b].agent_id@ && post[a].service_type@
        == post[b].service_type@) by {
        assert(post[a].agent_id@ == listings[a].agent_id@ && post[a].service_type@
            == listings[a].service_type@);
        assert(post[b].agent_id@ == listings[b].agent_id@ && post[b].service_type@
            == listings[b].service_type@);
        assert(!(listings[a].agent_id@ == listings[b].agent_id@ && listings[a].service_type@
            == listings[b].service_type@));
    }
}

/// `e` reports that no agent has id `id`.
pub open spec fn missing_agent(e: AgentChainError, id: Seq<char>) -> bool {
    match e {
        AgentChainError::AgentNotFound(x) => x@ == id,
        _ => false,
    }
}

/// The in-memory ledger: id-keyed tables and the aggregate counters.
pub struct AgentChainState {
    pub agents: Vec<Agent>,
    pub service_requests: Vec<ServiceRequest>,
    pub transactions: Vec<Transaction>,
    pub market_listings: Vec<MarketListing>,
    pub total_agents: u64,
    pub total_transactions: u64,
    pub total_volume: u128,
}

impl AgentChainState {
    pub open spec fn wf(&self) -> bool {
        &&& agents_wf(self.agents@)
        &&& requests_wf(self.service_requests@)
        &&& forall|i: int|
            0 <= i < self.transactions@.len() ==> (#[trigger] self.transactions@[i]).id == i
        &&& listings_wf(self.market_listings@)
        &&& self.total_agents == self.agents@.len()
        &&& self.total_transactions == self.transactions@.len()
        &&& self.total_volume == volume_of(self.transactions@)
    }

    /// An empty ledger.
    pub fn new() -> (r: Self)
        ensures
            r.wf(),
            r.agents@.len() == 0,
            r.service_requests@.len() == 0,
            r.transactions@.len() == 0,
            r.market_listings@.len() == 0,
    {
        AgentChainState {
            agents: Vec::new(),
            service_requests: Vec::new(),
            transactions: Vec::new(),
            market_listings: Vec::new(),
            total_agents: 0,
            total_transactions: 0,
            total_volume: 0,
        }
    }

    pub open spec fn has_agent(&self, id: Seq<char>) -> bool {
        exists|i: int| 0 <= i < self.agents@.len() && #[trigger] self.agents@[i].id@ == id
    }

    pub open spec fn agent_index(&self, id: Seq<char>) -> int {
        choose|i: int| 0 <= i < self.agents@.len() && #[trigger] self.agents@[i].id@ == id
    }

    /// The agent stored under `id` (meaningful when `has_agent(id)`).
    pub open spec fn agent(&self, id: Seq<char>) -> Agent {
        self.agents@[self.agent_index(id)]
    }

    pub open spec fn has_request(&self, id: u64) -> bool {
        id < self.service_requests@.len()
    }

    pub open spec fn request(&self, id: u64) -> ServiceRequest {
        self.service_requests@[id as int]
    }

    pub open spec fn counters_grow(&self, post: &Self) -> bool {
        &&& self.total_agents <= post.total_agents
        &&& self.total_transactions <= post.total_transactions
        &&& self.total_volume <= post.total_volume
    }

    pub proof fn lemma_agent_index(&self, i: int)
        requires
            self.wf(),
            0 <= i < self.agents@.len(),
        ensures
            self.has_agent(self.agents@[i].id@),
            self.agent_index(self.agents@[i].id@) == i,
    {
        let id = self.agents@[i].id@;
        assert(0 <= i < self.agents@.len() && self.agents@[i].id@ == id);
        let j = self.agent_index(id);
        if j != i {
            if j < i {
                assert(self.agents@[j].id@ != self.agents@[i].id@);
            } else {
                assert(self.agents@[i].id@ != self.agents@[j].id@);
            }
        }
    }

    /// Position of the agent whose id is `id`, if any.
    pub fn find_agent(&self, id: &String) -> (r: Option<usize>)
        requires
            self.wf(),
        ensures
            match r {
                Some(i) => i < self.agents@.len() && self.agents@[i as int].id@ == id@
                    && self.has_agent(id@) && self.agent_index(id@) == i,
                None => !self.has_agent(id@),
            },
    {
        let mut i: usize = 0;
        while i < self.agents.len()
            invariant
                self.wf(),
                i <= self.agents@.len(),
                forall|k: int| 0 <= k < i ==> #[trigger] self.agents@[k].id@ != id@,
            decreases self.agents@.len() - i,
        {
            if self.agents[i].id == *id {
                proof {
                    self.lemma_agent_index(i as int);
                }
                return Some(i);
            }
            i = i + 1;
        }
        None
    }
    /// The transfer would push a balance, the volume or the ledger count
    /// past what its integer type holds.
    pub open spec fn transfer_overflows(&self, from: Seq<char>, to: Seq<char>, amount: u128) -> bool {
        ||| (from != to && self.agent(to).balance + amount > u128::MAX)
        ||| self.total_volume + amount > u128::MAX
        ||| self.total_transactions == u64::MAX
    }

    pub open spec fn transfer_allowed(&self, from: Seq<char>, to: Seq<char>, amount: u128) -> bool {
        &&& self.has_agent(from)
        &&& self.has_agent(to)
        &&& amount <= self.agent(from).balance
        &&& !self.transfer_overflows(from, to, amount)
    }

    /// The error a refused transfer reports: a missing sender first, then a
    /// missing recipient, then a short balance, then an overflow.
    pub open spec fn transfer_error(
        &self,
        from: Seq<char>,
        to: Seq<char>,
        amount: u128,
        e: AgentChainError,
    ) -> bool {
        if !self.has_agent(from) {
            match e {
                AgentChainError::AgentNotFound(x) => x@ == from,
                _ => false,
            }
        } else if !self.has_agent(to) {
            match e {
                AgentChainError::AgentNotFound(x) => x@ == to,
                _ => false,
            }
        } else if self.agent(from).balance < amount {
            e == (AgentChainError::InsufficientBalance {
                required: amount,
                available: self.agent(from).balance,
            })
        } else {
            e == AgentChainError::ArithmeticOverflow
        }
    }

    /// The agent table after `amount` moves from `from` to `to`.
    pub open spec fn agents_after_transfer(
        &self,
        from: Seq<char>,
        to: Seq<char>,
        amount: u128,
    ) -> Seq<Agent> {
        let fi = self.agent_index(from);
        let ti = self.agent_index(to);
        let debited = self.agents@.update(
            fi,
            (Agent { balance: (self.agents@[fi].balance - amount) as u128, ..self.agents@[fi] }),
        );
        debited.update(
            ti,
            (Agent { balance: (debited[ti].balance + amount) as u128, ..debited[ti] }),
        )
    }

    /// `post` holds one more ledger entry, for `amount` from `from` to `to`,
    /// and the counters count it; the agent count is unchanged.
    pub open spec fn recorded(
        &self,
        post: &Self,
        from: Seq<char>,
        to: Seq<char>,
        amount: u128,
        transaction_type: TransactionType,
        now: u64,
    ) -> bool {
        let n = self.transactions@.len();
        &&& post.transactions@.len() == n + 1
        &&& post.transactions@.take(n as int) == self.transactions@
        &&& post.transactions@[n as int].id == n
        &&& post.transactions@[n as int].from_agent@ == from
        &&& post.transactions@[n as int].to_agent@ == to
        &&& post.transactions@[n as int].amount == amount
        &&& post.transactions@[n as int].transaction_type == transaction_type
        &&& post.transactions@[n as int].timestamp == now
        &&& post.total_agents == self.total_agents
        &&& post.total_transactions == self.total_transactions + 1
        &&& post.total_volume == self.total_volume + amount
    }

    /// `post` is `self` after a transfer that was carried out at time `now`.
    pub open spec fn transferred(
        &self,
        post: &Self,
        from: Seq<char>,
        to: Seq<char>,
        amount: u128,
        transaction_type: TransactionType,
        now: u64,
    ) -> bool {
        &&& post.agents@ == self.agents_after_transfer(from, to, amount)
        &&& self.recorded(post, from, to, amount, transaction_type, now)
        &&& post.service_requests@ == self.service_requests@
        &&& post.market_listings@ == self.market_listings@
    }

    /// Checks a transfer without changing anything; on success gives the
    /// positions of the two agents.
    fn check_transfer(&self, from: &String, to: &String, amount: u128) -> (r: Result<
        (usize, usize),
        AgentChainError,
    >)
        requires
            self.wf(),
        ensures
            match r {
                Ok((fi, ti)) => self.transfer_allowed(from@, to@, amount) && fi
                    == self.agent_index(from@) && ti == self.agent_index(to@)
                    && fi < self.agents@.len() && ti < self.agents@.len(),
                Err(e) => !self.transfer_allowed(from@, to@, amount) && self.transfer_error(
                    from@,
                    to@,
                    amount,
                    e,
                ),
            },
    {
        let fi = match self.find_agent(from) {
            Some(i) => i,
            None => {
                return Err(AgentChainError::AgentNotFound(from.clone()));
            },
        };
        let ti = match self.find_agent(to) {
            Some(i) => i,
            None => {
                return Err(AgentChainError::AgentNotFound(to.clone()));
            },
        };
        let available = self.agents[fi].balance;
        if available < amount {
            return Err(AgentChainError::InsufficientBalance { required: amount, available });
        }
        if fi != ti && self.agents[ti].balance > u128::MAX - amount {
            return Err(AgentChainError::ArithmeticOverflow);
        }
        if self.total_volume > u128::MAX - amount || self.total_transactions == u64::MAX {
            return Err(AgentChainError::ArithmeticOverflow);
        }
        proof {
            if from@ == to@ {
                assert(fi == ti);
            } else {
                assert(fi != ti);
            }
        }
        Ok((fi, ti))
    }

    /// Carries out a transfer that `check_transfer` accepted.
    fn apply_transfer(
        &mut self,
        fi: usize,
        ti: usize,
        from: &String,
        to: &String,
        amount: u128,
        transaction_type: TransactionType,
        now: u64,
    ) -> (r: u64)
        requires
            old(self).wf(),
            old(self).transfer_allowed(from@, to@, amount),
            fi == old(self).agent_index(from@),
            ti == old(self).agent_index(to@),
        ensures
            final(self).wf(),
            old(self).transferred(final(self), from@, to@, amount, transaction_type, now),
            r == old(self).transactions@.len(),
    {
        let ghost pre = *self;
        proof {
            assert(0 <= fi < self.agents@.len() && self.agents@[fi as int].id@ == from@);
            assert(0 <= ti < self.agents@.len() && self.agents@[ti as int].id@ == to@);
        }
        let fb = self.agents[fi].balance;
        self.agents[fi].balance = fb - amount;
        let tb = self.agents[ti].balance;
        self.agents[ti].balance = tb + amount;
        let id = self.total_transactions;
        self.transactions.push(
            Transaction {
                id,
                from_agent: from.clone(),
                to_agent: to.clone(),
                amount,
                transaction_type,
                timestamp: now,
            },
        );
        self.total_transactions = id + 1;
        self.total_volume = self.total_volume + amount;
        proof {
            assert(self.agents@ =~= pre.agents_after_transfer(from@, to@, amount));
            assert(self.transactions@.take(pre.transactions@.len() as int) =~= pre.transactions@);
            assert(self.transactions@.drop_last() =~= pre.transactions@);
            let fi = fi as int;
            let ti = ti as int;
            let debited = pre.agents@.update(
                fi,
                (Agent { balance: (pre.agents@[fi].balance - amount) as u128, ..pre.agents@[fi] }),
            );
            lemma_agents_update(pre.agents@, fi, debited[fi]);
            lemma_agents_update(debited, ti, self.agents@[ti]);
        }
        id
    }

    /// Moves `amount` tokens from one agent to another and records the
    /// ledger entry; on any failure nothing changes.
    pub fn transfer_tokens(
        &mut self,
        from_agent_id: &String,
        to_agent_id: &String,
        amount: u128,
        transaction_type: TransactionType,
        now: u64,
    ) -> (r: Result<u64, AgentChainError>)
        requires
            old(self).wf(),
        ensures
            final(self).wf(),
            old(self).counters_grow(final(self)),
            match r {
                Ok(id) => old(self).transfer_allowed(from_agent_id@, to_agent_id@, amount)
                    && id == old(self).transactions@.len() && old(self).transferred(
                    final(self),
                    from_agent_id@,
                    to_agent_id@,
                    amount,
                    transaction_type,
                    now,
                ),
                Err(e) => !old(self).transfer_allowed(from_agent_id@, to_agent_id@, amount)
                    && old(self).transfer_error(from_agent_id@, to_agent_id@, amount, e)
                    && *final(self) == *old(self),
            },
    {
        match self.check_transfer(from_agent_id, to_agent_id, amount) {
            Ok((fi, ti)) => Ok(
                self.apply_transfer(fi, ti, from_agent_id, to_agent_id, amount, transaction_type, now),
            ),
            Err(e) => Err(e),
        }
    }

    pub open spec fn creation_allowed(&self, id: Seq<char>) -> bool {
        !self.has_agent(id) && self.total_agents < u64::MAX
    }

    /// The error a refused creation reports: a taken id, else a full count.
    pub open spec fn creation_error(&self, id: Seq<char>, e: AgentChainError) -> bool {
        if self.has_agent(id) {
            match e {
                AgentChainError::AgentAlreadyExists(x) => x@ == id,
                _ => false,
            }
        } else {
            e == AgentChainError::ArithmeticOverflow
        }
    }

    /// `post` is `self` with one new agent at the end of the table: the
    /// given fields, starting reputation, no services, active since `now`.
    pub open spec fn agent_created(
        &self,
        post: &Self,
        id: Seq<char>,
        owner: Seq<char>,
        name: Seq<char>,
        description: Seq<char>,
        strategy: AgentStrategy,
        balance: u128,
        now: u64,
    ) -> bool {
        let n = self.agents@.len();
        let a = post.agents@[n as int];
        &&& post.agents@.len() == n + 1
        &&& post.agents@.take(n as int) == self.agents@
        &&& a.id@ == id
        &&& a.owner@ == owner
        &&& a.name@ == name
        &&& a.description@ == description
        &&& a.strategy == strategy
        &&& a.balance == balance
        &&& a.reputation == INITIAL_REPUTATION
        &&& a.services_completed == 0
        &&& a.services_failed == 0
        &&& a.created_at == now
        &&& a.last_active == now
        &&& a.is_active
        &&& post.total_agents == self.total_agents + 1
        &&& post.service_requests@ == self.service_requests@
        &&& post.transactions@ == self.transactions@
        &&& post.market_listings@ == self.market_listings@
        &&& post.total_transactions == self.total_transactions
        &&& post.total_volume == self.total_volume
    }

    /// `post` is `self` with one new Pending request at the end of the
    /// request table, its id its position.
    pub open spec fn request_opened(
        &self,
        post: &Self,
        requester: Seq<char>,
        provider: Seq<char>,
        service_type: Seq<char>,
        parameters: Seq<char>,
        payment: u128,
        now: u64,
    ) -> bool {
        let n = self.service_requests@.len();
        let q = post.service_requests@[n as int];
        &&& post.service_requests@.len() == n + 1
        &&& post.service_requests@.take(n as int) == self.service_requests@
        &&& q.id == n
        &&& q.requester_agent@ == requester
        &&& q.provider_agent@ == provider
        &&& q.service_type@ == service_type
        &&& q.parameters@ == parameters
        &&& q.payment == payment
        &&& q.status == ServiceStatus::Pending
        &&& q.created_at == now
        &&& q.completed_at is None
        &&& post.agents@ == self.agents@
        &&& post.transactions@ == self.transactions@
        &&& post.market_listings@ == self.market_listings@
        &&& post.total_agents == self.total_agents
        &&& post.total_transactions == self.total_transactions
        &&& post.total_volume == self.total_volume
    }

    /// `post` is `self` with request `id` moved to Accepted.
    pub open spec fn accepted(&self, post: &Self, id: u64) -> bool {
        &&& post.service_requests@ == self.service_requests@.update(
            id as int,
            (ServiceRequest { status: ServiceStatus::Accepted, ..self.request(id) }),
        )
        &&& post.agents@ == self.agents@
        &&& post.transactions@ == self.transactions@
        &&& post.market_listings@ == self.market_listings@
        &&& post.total_agents == self.total_agents
        &&& post.total_transactions == self.total_transactions
        &&& post.total_volume == self.total_volume
    }

    /// `post` is `self` with agent `id` last active at `now`.
    pub open spec fn touched(&self, post: &Self, id: Seq<char>, now: u64) -> bool {
        &&& self.others_unchanged(post)
        &&& post.agents@ == self.agents@.update(
            self.agent_index(id),
            (Agent { last_active: now, ..self.agent(id) }),
        )
    }

    /// Agent `id` exists and belongs to `caller`.
    pub open spec fn owned_by(&self, id: Seq<char>, caller: Seq<char>) -> bool {
        self.has_agent(id) && self.agent(id).owner@ == caller
    }

    /// The error a refused change to agent `id` reports: a missing agent,
    /// else a caller who is not its owner.
    pub open spec fn ownership_error(&self, id: Seq<char>, e: AgentChainError) -> bool {
        if !self.has_agent(id) {
            missing_agent(e, id)
        } else {
            e == AgentChainError::Unauthorized
        }
    }

    /// `post` is `self` with the strategy of agent `id` replaced, last
    /// active at `now`.
    pub open spec fn strategy_replaced(
        &self,
        post: &Self,
        id: Seq<char>,
        strategy: AgentStrategy,
        now: u64,
    ) -> bool {
        &&& self.others_unchanged(post)
        &&& post.agents@ == self.agents@.update(
            self.agent_index(id),
            (Agent { strategy, last_active: now, ..self.agent(id) }),
        )
    }

    /// `post` is `self` with agent `id` marked inactive.
    pub open spec fn deactivated(&self, post: &Self, id: Seq<char>) -> bool {
        &&& self.others_unchanged(post)
        &&& post.agents@ == self.agents@.update(
            self.agent_index(id),
            (Agent { is_active: false, ..self.agent(id) }),
        )
    }

    /// Looks an agent up by id.
    pub fn get_agent(&self, agent_id: &String) -> (r: Result<&Agent, AgentChainError>)
        requires
            self.wf(),
        ensures
            match r {
                Ok(a) => self.has_agent(agent_id@) && *a == self.agent(agent_id@),
                Err(AgentChainError::AgentNotFound(x)) => !self.has_agent(agent_id@) && x@
                    == agent_id@,
                Err(_) => false,
            },
    {
        match self.find_agent(agent_id) {
            Some(i) => Ok(&self.agents[i]),
            None => Err(AgentChainError::AgentNotFound(agent_id.clone())),
        }
    }

    /// Registers a new agent with the starting reputation, zero service
    /// counters, active, created and last active at `now`.
    pub fn create_agent(
        &mut self,
        id: String,
        owner: String,
        name: String,
        description: String,
        strategy: AgentStrategy,
        initial_balance: u128,
        now: u64,
    ) -> (r: Result<(), AgentChainError>)
        requires
            old(self).wf(),
        ensures
            final(self).wf(),
            old(self).counters_grow(final(self)),
            match r {
                Ok(()) => old(self).creation_allowed(id@) && old(self).agent_created(
                    final(self),
                    id@,
                    owner@,
                    name@,
                    description@,
                    strategy,
                    initial_balance,
                    now,
                ),
                Err(e) => !old(self).creation_allowed(id@) && old(self).creation_error(id@, e)
                    && *final(self) == *old(self),
            },
    {
        if let Some(_) = self.find_agent(&id) {
            return Err(AgentChainError::AgentAlreadyExists(id));
        }
        if self.total_agents == u64::MAX {
            return Err(AgentChainError::ArithmeticOverflow);
        }
        let ghost pre = self.agents@;
        self.agents.push(
            Agent {
                id,
                owner,
                name,
                description,
                strategy,
                balance: initial_balance,
                reputation: INITIAL_REPUTATION,
                services_completed: 0,
                services_failed: 0,
                created_at: now,
                last_active: now,
                is_active: true,
            },
        );
        self.total_agents = self.total_agents + 1;
        proof {
            let post = self.agents@;
            assert(post.take(pre.len() as int) =~= pre);
            assert forall|i: int, j: int| 0 <= i < j < post.len() implies #[trigger] post[i].id@
                != #[trigger] post[j].id@ by {
                if j == pre.len() {
                    assert(pre[i].id@ != post[j].id@);
                }
            }
            assert forall|i: int| 0 <= i < post.len() implies #[trigger] post[i].reputation
                <= MAX_REPUTATION by {
                if i < pre.len() {
                    assert(post[i] == pre[i]);
                }
            }
        }
        Ok(())
    }

    /// Opens a pending request; its id is the number of requests before it.
    pub fn create_service_request(
        &mut self,
        requester_agent: String,
        provider_agent: String,
        service_type: String,
        parameters: String,
        payment: u128,
        now: u64,
    ) -> (r: u64)
        requires
            old(self).wf(),
            old(self).service_requests@.len() < u64::MAX,
        ensures
            final(self).wf(),
            old(self).counters_grow(final(self)),
            r == old(self).service_requests@.len(),
            old(self).request_opened(
                final(self),
                requester_agent@,
                provider_agent@,
                service_type@,
                parameters@,
                payment,
                now,
            ),
    {
        let id = self.service_requests.len() as u64;
        self.service_requests.push(
            ServiceRequest {
                id,
                requester_agent,
                provider_agent,
                service_type,
                parameters,
                payment,
                status: ServiceStatus::Pending,
                created_at: now,
                completed_at: None,
            },
        );
        proof {
            let post = self.service_requests@;
            assert(post.take(post.len() - 1) =~= old(self).service_requests@);
            assert forall|i: int| 0 <= i < post.len() implies (#[trigger] post[i]).id == i && (
            post[i].completed_at is Some <==> is_terminal(post[i].status)) by {
                if i < post.len() - 1 {
                    assert(post[i] == old(self).service_requests@[i]);
                }
            }
        }
        id
    }

    /// Moves a pending request to Accepted.
    pub fn accept_service(&mut self, request_id: u64) -> (r: Result<(), AgentChainError>)
        requires
            old(self).wf(),
        ensures
            final(self).wf(),
            old(self).counters_grow(final(self)),
            match r {
                Ok(()) => old(self).has_request(request_id) && old(self).request(request_id).status
                    == ServiceStatus::Pending && old(self).accepted(final(self), request_id),
                Err(e) => *final(self) == *old(self) && if !old(self).has_request(request_id) {
                    e == AgentChainError::RequestNotFound(request_id)
                } else {
                    old(self).request(request_id).status != ServiceStatus::Pending && e
                        == AgentChainError::RequestNotPending(request_id)
                },
            },
    {
        if request_id as u128 >= self.service_requests.len() as u128 {
            return Err(AgentChainError::RequestNotFound(request_id));
        }
        let idx = request_id as usize;
        if self.service_requests[idx].status != ServiceStatus::Pending {
            return Err(AgentChainError::RequestNotPending(request_id));
        }
        self.service_requests[idx].status = ServiceStatus::Accepted;
        proof {
            lemma_requests_update(
                old(self).service_requests@,
                idx as int,
                self.service_requests@[idx as int],
            );
        }
        Ok(())
    }

    /// A completion of request `id` with this outcome goes through.
    pub open spec fn completion_allowed(&self, id: u64, success: bool) -> bool {
        let req = self.request(id);
        let provider = req.provider_agent@;
        &&& self.has_request(id)
        &&& !is_terminal(req.status)
        &&& if success {
            &&& self.transfer_allowed(req.requester_agent@, provider, req.payment)
            &&& self.agent(provider).services_completed < u64::MAX
        } else {
            &&& self.has_agent(provider)
            &&& self.agent(provider).services_failed < u64::MAX
        }
    }

    /// The error a refused completion reports.
    pub open spec fn completion_error(&self, id: u64, success: bool, e: AgentChainError) -> bool {
        let req = self.request(id);
        let provider = req.provider_agent@;
        if !self.has_request(id) {
            e == AgentChainError::RequestNotFound(id)
        } else if is_terminal(req.status) {
            e == AgentChainError::RequestAlreadyCompleted(id)
        } else if success {
            if !self.transfer_allowed(req.requester_agent@, provider, req.payment) {
                self.transfer_error(req.requester_agent@, provider, req.payment, e)
            } else {
                e == AgentChainError::ArithmeticOverflow
            }
        } else if !self.has_agent(provider) {
            match e {
                AgentChainError::AgentNotFound(x) => x@ == provider,
                _ => false,
            }
        } else {
            e == AgentChainError::ArithmeticOverflow
        }
    }

    /// `post` is `self` after request `id` completed with this outcome at `now`.
    pub open spec fn completed(&self, post: &Self, id: u64, success: bool, now: u64) -> bool {
        let req = self.request(id);
        let requester = req.requester_agent@;
        let provider = req.provider_agent@;
        let pi = self.agent_index(provider);
        &&& post.market_listings@ == self.market_listings@
        &&& post.service_requests@ == self.service_requests@.update(
            id as int,
            (ServiceRequest {
                status: if success {
                    ServiceStatus::Completed
                } else {
                    ServiceStatus::Failed
                },
                completed_at: Some(now),
                ..req
            }),
        )
        &&& if success {
            let paid = self.agents_after_transfer(requester, provider, req.payment);
            &&& post.agents@ == paid.update(
                pi,
                (Agent {
                    services_completed: (paid[pi].services_completed + 1) as u64,
                    reputation: reputation_up(paid[pi].reputation),
                    ..paid[pi]
                }),
            )
            &&& self.recorded(
                post,
                requester,
                provider,
                req.payment,
                TransactionType::ServicePayment,
                now,
            )
        } else {
            &&& post.agents@ == self.agents@.update(
                pi,
                (Agent {
                    services_failed: (self.agents@[pi].services_failed + 1) as u64,
                    reputation: reputation_down(self.agents@[pi].reputation),
                    ..self.agents@[pi]
                }),
            )
            &&& post.transactions@ == self.transactions@
            &&& post.total_agents == self.total_agents
            &&& post.total_transactions == self.total_transactions
            &&& post.total_volume == self.total_volume
        }
    }

    /// Settles request `request_id`. On success the requester pays the
    /// provider, whose completed count and reputation go up; on failure the
    /// provider's failed count goes up and its reputation down. A request
    /// already Completed or Failed is refused, so a repeated delivery has no
    /// effect. On any failure nothing changes.
    pub fn complete_service(&mut self, request_id: u64, success: bool, now: u64) -> (r: Result<
        (),
        AgentChainError,
    >)
        requires
            old(self).wf(),
        ensures
            final(self).wf(),
            old(self).counters_grow(final(self)),
            match r {
                Ok(()) => old(self).completion_allowed(request_id, success) && old(
                    self,
                ).completed(final(self), request_id, success, now),
                Err(e) => !old(self).completion_allowed(request_id, success) && old(
                    self,
                ).completion_error(request_id, success, e) && *final(self) == *old(self),
            },
    {
        if request_id as u128 >= self.service_requests.len() as u128 {
            return Err(AgentChainError::RequestNotFound(request_id));
        }
        let idx = request_id as usize;
        let status = self.service_requests[idx].status;
        if status == ServiceStatus::Completed || status == ServiceStatus::Failed {
            return Err(AgentChainError::RequestAlreadyCompleted(request_id));
        }
        let requester = self.service_requests[idx].requester_agent.clone();
        let provider = self.service_requests[idx].provider_agent.clone();
        let payment = self.service_requests[idx].payment;
        let ghost pre = *self;
        if success {
            let (fi, pi) = match self.check_transfer(&requester, &provider, payment) {
                Ok(p) => p,
                Err(e) => {
                    return Err(e);
                },
            };
            if self.agents[pi].services_completed == u64::MAX {
                return Err(AgentChainError::ArithmeticOverflow);
            }
            self.apply_transfer(fi, pi, &requester, &provider, payment, TransactionType::ServicePayment, now);
            let ghost paid = self.agents@;
            let rep = self.agents[pi].reputation;
            self.agents[pi].reputation = if rep < MAX_REPUTATION {
                rep + 1
            } else {
                MAX_REPUTATION
            };
            let done = self.agents[pi].services_completed;
            self.agents[pi].services_completed = done + 1;
            self.service_requests[idx].status = ServiceStatus::Completed;
            proof {
                assert(self.agents@ =~= paid.update(
                    pi as int,
                    (Agent {
                        services_completed: (paid[pi as int].services_completed + 1) as u64,
                        reputation: reputation_up(paid[pi as int].reputation),
                        ..paid[pi as int]
                    }),
                ));
                lemma_agents_update(paid, pi as int, self.agents@[pi as int]);
            }
        } else {
            let pi = match self.find_agent(&provider) {
                Some(i) => i,
                None => {
                    return Err(AgentChainError::AgentNotFound(provider));
                },
            };
            if self.agents[pi].services_failed == u64::MAX {
                return Err(AgentChainError::ArithmeticOverflow);
            }
            let rep = self.agents[pi].reputation;
            self.agents[pi].reputation = if rep >= FAILURE_PENALTY {
                rep - FAILURE_PENALTY
            } else {
                0
            };
            let failed = self.agents[pi].services_failed;
            self.agents[pi].services_failed = failed + 1;
            self.service_requests[idx].status = ServiceStatus::Failed;
            proof {
                assert(self.agents@ =~= pre.agents@.update(
                    pi as int,
                    (Agent {
                        services_failed: (pre.agents@[pi as int].services_failed + 1) as u64,
                        reputation: reputation_down(pre.agents@[pi as int].reputation),
                        ..pre.agents@[pi as int]
                    }),
                ));
                lemma_agents_update(pre.agents@, pi as int, self.agents@[pi as int]);
            }
        }
        self.service_requests[idx].completed_at = Some(now);
        proof {
            lemma_requests_update(pre.service_requests@, idx as int, self.service_requests@[idx as int]);
            assert(self.service_requests@ =~= pre.service_requests@.update(
                idx as int,
                (ServiceRequest {
                    status: if success {
                        ServiceStatus::Completed
                    } else {
                        ServiceStatus::Failed
                    },
                    completed_at: Some(now),
                    ..pre.service_requests@[idx as int]
                }),
            ));
        }
        Ok(())
    }

    /// Everything but the agent table is as in `self`.
    pub open spec fn others_unchanged(&self, post: &Self) -> bool {
        &&& post.service_requests@ == self.service_requests@
        &&& post.transactions@ == self.transactions@
        &&& post.market_listings@ == self.market_listings@
        &&& post.total_agents == self.total_agents
        &&& post.total_transactions == self.total_transactions
        &&& post.total_volume == self.total_volume
    }

    /// Records that agent `agent_id` was active at `now`.
    pub fn touch_agent(&mut self, agent_id: &String, now: u64) -> (r: Result<(), AgentChainError>)
        requires
            old(self).wf(),
        ensures
            final(self).wf(),
            old(self).counters_grow(final(self)),
            match r {
                Ok(()) => old(self).has_agent(agent_id@) && old(self).touched(
                    final(self),
                    agent_id@,
                    now,
                ),
                Err(e) => !old(self).has_agent(agent_id@) && missing_agent(e, agent_id@)
                    && *final(self) == *old(self),
            },
    {
        let i = match self.find_agent(agent_id) {
            Some(i) => i,
            None => {
                return Err(AgentChainError::AgentNotFound(agent_id.clone()));
            },
        };
        self.agents[i].last_active = now;
        proof {
            lemma_agents_update(old(self).agents@, i as int, self.agents@[i as int]);
        }
        Ok(())
    }

    /// Replaces the strategy of agent `agent_id`, which only its owner may do.
    pub fn update_strategy(
        &mut self,
        caller: &String,
        agent_id: &String,
        new_strategy: AgentStrategy,
        now: u64,
    ) -> (r: Result<(), AgentChainError>)
        requires
            old(self).wf(),
        ensures
            final(self).wf(),
            old(self).counters_grow(final(self)),
            match r {
                Ok(()) => old(self).owned_by(agent_id@, caller@) && old(self).strategy_replaced(
                    final(self),
                    agent_id@,
                    new_strategy,
                    now,
                ),
                Err(e) => !old(self).owned_by(agent_id@, caller@) && old(self).ownership_error(
                    agent_id@,
                    e,
                ) && *final(self) == *old(self),
            },
    {
        let i = match self.find_agent(agent_id) {
            Some(i) => i,
            None => {
                return Err(AgentChainError::AgentNotFound(agent_id.clone()));
            },
        };
        if self.agents[i].owner != *caller {
            return Err(AgentChainError::Unauthorized);
        }
        self.agents[i].strategy = new_strategy;
        self.agents[i].last_active = now;
        proof {
            assert(self.agents@ =~= old(self).agents@.update(
                i as int,
                (Agent {
                    strategy: new_strategy,
                    last_active: now,
                    ..old(self).agents@[i as int]
                }),
            ));
            lemma_agents_update(old(self).agents@, i as int, self.agents@[i as int]);
        }
        Ok(())
    }

    /// Marks agent `agent_id` inactive, which only its owner may do.
    pub fn deactivate_agent(&mut self, caller: &String, agent_id: &String) -> (r: Result<
        (),
        AgentChainError,
    >)
        requires
            old(self).wf(),
        ensures
            final(self).wf(),
            old(self).counters_grow(final(self)),
            match r {
                Ok(()) => old(self).owned_by(agent_id@, caller@) && old(self).deactivated(
                    final(self),
                    agent_id@,
                ),
                Err(e) => !old(self).owned_by(agent_id@, caller@) && old(self).ownership_error(
                    agent_id@,
                    e,
                ) && *final(self) == *old(self),
            },
    {
        let i = match self.find_agent(agent_id) {
            Some(i) => i,
            None => {
                return Err(AgentChainError::AgentNotFound(agent_id.clone()));
            },
        };
        if self.agents[i].owner != *caller {
            return Err(AgentChainError::Unauthorized);
        }
        self.agents[i].is_active = false;
        proof {
            lemma_agents_update(old(self).agents@, i as int, self.agents@[i as int]);
        }
        Ok(())
    }

    pub open spec fn has_listing(&self, agent_id: Seq<char>, service_type: Seq<char>) -> bool {
        exists|i: int|
            0 <= i < self.market_listings@.len() && #[trigger] self.market_listings@[i].agent_id@
                == agent_id && self.market_listings@[i].service_type@ == service_type
    }

    pub open spec fn listing_index(&self, agent_id: Seq<char>, service_type: Seq<char>) -> int {
        choose|i: int|
            0 <= i < self.market_listings@.len() && #[trigger] self.market_listings@[i].agent_id@
                == agent_id && self.market_listings@[i].service_type@ == service_type
    }

    /// Stores `listing` under its (agent, service type) key, replacing any
    /// listing already there.
    pub fn update_market_listing(&mut self, listing: MarketListing)
        requires
            old(self).wf(),
        ensures
            final(self).wf(),
            old(self).counters_grow(final(self)),
            final(self).market_listings@ == if old(self).has_listing(
                listing.agent_id@,
                listing.service_type@,
            ) {
                old(self).market_listings@.update(
                    old(self).listing_index(listing.agent_id@, listing.service_type@),
                    listing,
                )
            } else {
                old(self).market_listings@.push(listing)
            },
            final(self).agents@ == old(self).agents@,
            final(self).service_requests@ == old(self).service_requests@,
            final(self).transactions@ == old(self).transactions@,
            final(self).total_agents == old(self).total_agents,
            final(self).total_transactions == old(self).total_transactions,
            final(self).total_volume == old(self).total_volume,
    {
        let ghost pre = self.market_listings@;
        let mut i: usize = 0;
        while i < self.market_listings.len()
            invariant
                old(self).wf(),
                *self == *old(self),
                self.market_listings@ == pre,
                i <= pre.len(),
                forall|k: int|
                    0 <= k < i ==> !(#[trigger] pre[k].agent_id@ == listing.agent_id@
                        && pre[k].service_type@ == listing.service_type@),
            decreases pre.len() - i,
        {
            if self.market_listings[i].agent_id == listing.agent_id
                && self.market_listings[i].service_type == listing.service_type {
                proof {
                    let j = old(self).listing_index(listing.agent_id@, listing.service_type@);
                    assert(0 <= i < old(self).market_listings@.len()
                        && old(self).market_listings@[i as int].agent_id@ == listing.agent_id@
                        && old(self).market_listings@[i as int].service_type@
                        == listing.service_type@);
                    assert(old(self).has_listing(listing.agent_id@, listing.service_type@));
                    assert(listings_wf(pre));
                    if j < i {
                        assert(!(pre[j].agent_id@ == pre[i as int].agent_id@
                            && pre[j].service_type@ == pre[i as int].service_type@));
                    } else if j > i {
                        assert(!(pre[i as int].agent_id@ == pre[j].agent_id@
                            && pre[i as int].service_type@ == pre[j].service_type@));
                    }
                }
                self.market_listings.set(i, listing);
                proof {
                    lemma_listings_update(pre, i as int, listing);
                }
                return;
            }
            i = i + 1;
        }
        self.market_listings.push(listing);
        proof {
            let post = self.market_listings@;
            assert forall|a: int, b: int| 0 <= a < b < post.len() implies !(
            #[trigger] post[a].agent_id@ == #[trigger] post[b].agent_id@ && post[a].service_type@
                == post[b].service_type@) by {
                if b == pre.len() {
                    assert(post[a] == pre[a]);
                }
            }
        }
    }
}

} // verus!
