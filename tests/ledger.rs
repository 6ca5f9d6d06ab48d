use agentchain::state::{
    AgentChainError, AgentChainState, AgentStrategy, MarketListing, ServiceStatus,
    TransactionType,
};

fn s(x: &str) -> String {
    x.to_string()
}

fn empty() -> AgentChainState {
    AgentChainState::new()
}

fn trading() -> AgentStrategy {
    AgentStrategy::Trading { risk_level: 3, min_profit: 10 }
}

fn with_two(a_balance: u128, b_balance: u128) -> AgentChainState {
    let mut st = empty();
    st.create_agent(s("A"), s("alice"), s("Alpha"), s("buyer"), trading(), a_balance, 10)
        .unwrap();
    st.create_agent(s("B"), s("bob"), s("Beta"), s("seller"), trading(), b_balance, 10)
        .unwrap();
    st
}

fn balance(st: &AgentChainState, id: &str) -> u128 {
    st.get_agent(&s(id)).unwrap().balance
}

#[test]
fn create_agent_sets_defaults() {
    let st = with_two(1000, 0);
    let a = st.get_agent(&s("A")).unwrap();
    assert_eq!(a.reputation, 100);
    assert_eq!(a.services_completed, 0);
    assert_eq!(a.services_failed, 0);
    assert_eq!(a.created_at, 10);
    assert_eq!(a.last_active, 10);
    assert!(a.is_active);
    assert_eq!(a.balance, 1000);
    assert_eq!(st.total_agents, 2);
}

#[test]
fn create_agent_rejects_reused_id() {
    let mut st = with_two(1000, 0);
    let r = st.create_agent(s("A"), s("eve"), s("x"), s("y"), trading(), 5, 11);
    assert!(matches!(r, Err(AgentChainError::AgentAlreadyExists(ref id)) if id == "A"));
    assert_eq!(st.total_agents, 2);
    assert_eq!(balance(&st, "A"), 1000);
}

#[test]
fn get_agent_missing() {
    let st = with_two(1, 1);
    assert!(matches!(st.get_agent(&s("Z")), Err(AgentChainError::AgentNotFound(ref id)) if id == "Z"));
}

#[test]
fn transfer_conserves_balances() {
    let mut st = with_two(1000, 50);
    let tx = st.transfer_tokens(&s("A"), &s("B"), 300, TransactionType::Transfer, 20).unwrap();
    assert_eq!(tx, 0);
    assert_eq!(balance(&st, "A"), 700);
    assert_eq!(balance(&st, "B"), 350);
    assert_eq!(balance(&st, "A") + balance(&st, "B"), 1050);
    assert_eq!(st.total_transactions, 1);
    assert_eq!(st.total_volume, 300);
    let t = &st.transactions[0];
    assert_eq!(t.from_agent, "A");
    assert_eq!(t.to_agent, "B");
    assert_eq!(t.amount, 300);
    assert_eq!(t.timestamp, 20);
}

#[test]
fn transfer_insufficient_balance_changes_nothing() {
    let mut st = with_two(100, 7);
    let r = st.transfer_tokens(&s("A"), &s("B"), 101, TransactionType::Transfer, 20);
    assert!(matches!(
        r,
        Err(AgentChainError::InsufficientBalance { required: 101, available: 100 })
    ));
    assert_eq!(balance(&st, "A"), 100);
    assert_eq!(balance(&st, "B"), 7);
    assert_eq!(st.total_transactions, 0);
    assert_eq!(st.total_volume, 0);
}

#[test]
fn transfer_to_missing_agent_fails() {
    let mut st = with_two(500, 0);
    let r = st.transfer_tokens(&s("A"), &s("nobody"), 10, TransactionType::Transfer, 20);
    assert!(matches!(r, Err(AgentChainError::AgentNotFound(ref id)) if id == "nobody"));
    assert_eq!(balance(&st, "A"), 500);
    assert!(st.transactions.is_empty());
}

#[test]
fn self_transfer_records_but_nets_zero() {
    let mut st = with_two(500, 0);
    st.transfer_tokens(&s("A"), &s("A"), 200, TransactionType::Transfer, 20).unwrap();
    assert_eq!(balance(&st, "A"), 500);
    assert_eq!(st.total_transactions, 1);
    assert_eq!(st.total_volume, 200);
}

#[test]
fn transfer_overflowing_recipient_fails() {
    let mut st = with_two(10, u128::MAX);
    let r = st.transfer_tokens(&s("A"), &s("B"), 1, TransactionType::Transfer, 20);
    assert!(matches!(r, Err(AgentChainError::ArithmeticOverflow)));
    assert_eq!(balance(&st, "A"), 10);
}

#[test]
fn successful_service_pays_and_rewards() {
    let mut st = with_two(1000, 0);
    let id = st.create_service_request(s("A"), s("B"), s("analysis"), s("{}"), 200, 30);
    st.accept_service(id).unwrap();
    assert_eq!(st.service_requests[id as usize].status, ServiceStatus::Accepted);
    st.complete_service(id, true, 40).unwrap();
    assert_eq!(balance(&st, "A"), 800);
    assert_eq!(balance(&st, "B"), 200);
    let b = st.get_agent(&s("B")).unwrap();
    assert_eq!(b.services_completed, 1);
    assert_eq!(b.reputation, 101);
    assert_eq!(st.service_requests[id as usize].status, ServiceStatus::Completed);
    assert_eq!(st.service_requests[id as usize].completed_at, Some(40));
    assert_eq!(st.total_transactions, 1);
    assert_eq!(st.total_volume, 200);
    assert_eq!(st.transactions[0].transaction_type, TransactionType::ServicePayment);
}

#[test]
fn failed_service_penalises_provider() {
    let mut st = with_two(1000, 0);
    let id = st.create_service_request(s("A"), s("B"), s("analysis"), s("{}"), 200, 30);
    st.accept_service(id).unwrap();
    st.complete_service(id, false, 40).unwrap();
    assert_eq!(balance(&st, "A"), 1000);
    assert_eq!(balance(&st, "B"), 0);
    let b = st.get_agent(&s("B")).unwrap();
    assert_eq!(b.services_failed, 1);
    assert_eq!(b.reputation, 95);
    assert_eq!(st.service_requests[id as usize].status, ServiceStatus::Failed);
    assert_eq!(st.service_requests[id as usize].completed_at, Some(40));
    assert!(st.transactions.is_empty());
    assert_eq!(st.total_transactions, 0);
}

#[test]
fn duplicate_completion_is_refused() {
    let mut st = with_two(1000, 0);
    let id = st.create_service_request(s("A"), s("B"), s("t"), s("p"), 200, 30);
    st.complete_service(id, true, 40).unwrap();
    let r = st.complete_service(id, true, 41);
    assert!(matches!(r, Err(AgentChainError::RequestAlreadyCompleted(x)) if x == id));
    assert_eq!(balance(&st, "A"), 800);
    assert_eq!(balance(&st, "B"), 200);
    let b = st.get_agent(&s("B")).unwrap();
    assert_eq!(b.reputation, 101);
    assert_eq!(b.services_completed, 1);
    assert_eq!(st.total_transactions, 1);
    assert_eq!(st.service_requests[id as usize].completed_at, Some(40));
}

#[test]
fn underfunded_completion_keeps_request_open() {
    let mut st = with_two(100, 0);
    let id = st.create_service_request(s("A"), s("B"), s("t"), s("p"), 200, 30);
    let r = st.complete_service(id, true, 40);
    assert!(matches!(
        r,
        Err(AgentChainError::InsufficientBalance { required: 200, available: 100 })
    ));
    assert_eq!(st.service_requests[id as usize].status, ServiceStatus::Pending);
    assert_eq!(st.service_requests[id as usize].completed_at, None);
    assert_eq!(st.get_agent(&s("B")).unwrap().reputation, 100);
}

#[test]
fn completion_of_unknown_request() {
    let mut st = with_two(100, 0);
    assert!(matches!(st.complete_service(7, true, 1), Err(AgentChainError::RequestNotFound(7))));
    assert!(matches!(st.accept_service(7), Err(AgentChainError::RequestNotFound(7))));
}

#[test]
fn accept_requires_pending() {
    let mut st = with_two(100, 0);
    let id = st.create_service_request(s("A"), s("B"), s("t"), s("p"), 0, 30);
    st.accept_service(id).unwrap();
    assert!(matches!(st.accept_service(id), Err(AgentChainError::RequestNotPending(x)) if x == id));
}

#[test]
fn request_ids_count_up() {
    let mut st = with_two(100, 0);
    let a = st.create_service_request(s("A"), s("B"), s("t"), s("p"), 0, 30);
    let b = st.create_service_request(s("B"), s("A"), s("u"), s("q"), 5, 31);
    assert_eq!((a, b), (0, 1));
    assert_eq!(st.service_requests[1].status, ServiceStatus::Pending);
    assert_eq!(st.service_requests[1].payment, 5);
}

#[test]
fn reputation_clamps_at_upper_bound() {
    let mut st = with_two(0, 0);
    for i in 0..1001u64 {
        let id = st.create_service_request(s("A"), s("B"), s("t"), s("p"), 0, i);
        st.complete_service(id, true, i).unwrap();
    }
    let b = st.get_agent(&s("B")).unwrap();
    assert_eq!(b.reputation, 1000);
    assert_eq!(b.services_completed, 1001);
}

#[test]
fn reputation_clamps_at_zero() {
    let mut st = with_two(0, 0);
    for i in 0..201u64 {
        let id = st.create_service_request(s("A"), s("B"), s("t"), s("p"), 0, i);
        st.complete_service(id, false, i).unwrap();
    }
    let b = st.get_agent(&s("B")).unwrap();
    assert_eq!(b.reputation, 0);
    assert_eq!(b.services_failed, 201);
}

#[test]
fn counters_match_records() {
    let mut st = with_two(1000, 1000);
    st.transfer_tokens(&s("A"), &s("B"), 10, TransactionType::Transfer, 1).unwrap();
    st.transfer_tokens(&s("B"), &s("A"), 25, TransactionType::Reward, 2).unwrap();
    let _ = st.transfer_tokens(&s("B"), &s("A"), 5000, TransactionType::Transfer, 3);
    assert_eq!(st.total_agents as usize, st.agents.len());
    assert_eq!(st.total_transactions as usize, st.transactions.len());
    let sum: u128 = st.transactions.iter().map(|t| t.amount).sum();
    assert_eq!(st.total_volume, sum);
    assert_eq!(sum, 35);
}

#[test]
fn strategy_update_requires_owner() {
    let mut st = with_two(0, 0);
    let g = AgentStrategy::Governance { voting_power: 9, delegation_enabled: true };
    let r = st.update_strategy(&s("mallory"), &s("A"), g.clone(), 50);
    assert!(matches!(r, Err(AgentChainError::Unauthorized)));
    st.update_strategy(&s("alice"), &s("A"), g, 50).unwrap();
    let a = st.get_agent(&s("A")).unwrap();
    assert!(matches!(a.strategy, AgentStrategy::Governance { voting_power: 9, .. }));
    assert_eq!(a.last_active, 50);
}

#[test]
fn deactivation_requires_owner() {
    let mut st = with_two(0, 0);
    assert!(matches!(st.deactivate_agent(&s("alice"), &s("B")), Err(AgentChainError::Unauthorized)));
    assert!(matches!(
        st.deactivate_agent(&s("bob"), &s("C")),
        Err(AgentChainError::AgentNotFound(ref id)) if id == "C"
    ));
    st.deactivate_agent(&s("bob"), &s("B")).unwrap();
    assert!(!st.get_agent(&s("B")).unwrap().is_active);
    assert_eq!(st.agents.len(), 2);
}

#[test]
fn touch_updates_last_active() {
    let mut st = with_two(0, 0);
    st.touch_agent(&s("B"), 99).unwrap();
    assert_eq!(st.get_agent(&s("B")).unwrap().last_active, 99);
    assert!(st.touch_agent(&s("Q"), 99).is_err());
}

fn listing(agent: &str, kind: &str, price: u128) -> MarketListing {
    MarketListing {
        agent_id: s(agent),
        service_type: s(kind),
        price,
        capacity: 4,
        average_completion_time: 60,
        success_rate_bps: 9550,
    }
}

#[test]
fn market_listing_upserts_by_key() {
    let mut st = with_two(0, 0);
    st.update_market_listing(listing("A", "oracle", 10));
    st.update_market_listing(listing("A", "trade", 20));
    st.update_market_listing(listing("A", "oracle", 30));
    assert_eq!(st.market_listings.len(), 2);
    assert_eq!(st.market_listings[0].price, 30);
    assert_eq!(st.market_listings[1].price, 20);
}
