use agentchain::contract::{AgentChainContract, ExecutionContext, Message, Operation};
use agentchain::state::{AgentChainError, AgentStrategy, ServiceStatus};
use agentchain::text::decimal_string;

fn s(x: &str) -> String {
    x.to_string()
}

fn contract() -> AgentChainContract {
    AgentChainContract::new()
}

fn signed(who: &str, micros: u64) -> ExecutionContext {
    ExecutionContext { signer: Some(s(who)), chain_id: s("chain1"), now_micros: micros }
}

fn oracle() -> AgentStrategy {
    AgentStrategy::Oracle { data_sources: vec![s("feed")], update_frequency: 60 }
}

fn add_agent(c: &mut AgentChainContract, id: &str, owner: &str, balance: u128) {
    c.state
        .create_agent(s(id), s(owner), s("n"), s("d"), oracle(), balance, 0)
        .unwrap();
}

#[test]
fn decimal_rendering() {
    assert_eq!(decimal_string(0), "0");
    assert_eq!(decimal_string(7), "7");
    assert_eq!(decimal_string(1203), "1203");
    assert_eq!(decimal_string(u128::MAX), u128::MAX.to_string());
}

#[test]
fn create_agent_operation_derives_id() {
    let mut c = contract();
    let op = Operation::CreateAgent {
        name: s("Alpha"),
        description: s("d"),
        strategy: oracle(),
        initial_balance: 42,
    };
    let out = c.execute_operation(&signed("alice", 3_500_000), op).unwrap();
    assert_eq!(out.response, "Agent created: agent_alice_3500000");
    assert!(out.outgoing.is_none());
    let a = c.state.get_agent(&s("agent_alice_3500000")).unwrap();
    assert_eq!(a.owner, "alice");
    assert_eq!(a.balance, 42);
    assert_eq!(a.created_at, 3);
}

#[test]
fn unsigned_operation_is_refused() {
    let mut c = contract();
    let ctx = ExecutionContext { signer: None, chain_id: s("c"), now_micros: 0 };
    let op = Operation::TransferTokens { to_agent: s("x"), amount: 1 };
    assert!(matches!(c.execute_operation(&ctx, op), Err(AgentChainError::Unauthorized)));
    assert_eq!(c.state.total_agents, 0);
}

#[test]
fn transfer_operation_acts_as_signer() {
    let mut c = contract();
    add_agent(&mut c, "agent_alice", "alice", 100);
    add_agent(&mut c, "agent_bob", "bob", 0);
    let op = Operation::TransferTokens { to_agent: s("agent_bob"), amount: 40 };
    let out = c.execute_operation(&signed("alice", 9_000_000), op).unwrap();
    assert_eq!(out.response, "Transferred 40 tokens to agent_bob");
    assert_eq!(c.state.get_agent(&s("agent_alice")).unwrap().balance, 60);
    assert_eq!(c.state.get_agent(&s("agent_bob")).unwrap().balance, 40);
    assert_eq!(c.state.transactions[0].timestamp, 9);
}

#[test]
fn transfer_operation_to_missing_agent() {
    let mut c = contract();
    add_agent(&mut c, "agent_alice", "alice", 100);
    let op = Operation::TransferTokens { to_agent: s("agent_ghost"), amount: 40 };
    let r = c.execute_operation(&signed("alice", 0), op);
    assert!(matches!(r, Err(AgentChainError::AgentNotFound(ref id)) if id == "agent_ghost"));
    assert_eq!(c.state.get_agent(&s("agent_alice")).unwrap().balance, 100);
}

#[test]
fn service_flow_through_operations() {
    let mut c = contract();
    add_agent(&mut c, "agent_alice", "alice", 1000);
    add_agent(&mut c, "agent_bob", "bob", 0);
    let op = Operation::RequestService {
        provider_agent: s("agent_bob"),
        service_type: s("forecast"),
        parameters: s("{}"),
        payment: 200,
    };
    let out = c.execute_operation(&signed("alice", 1_000_000), op).unwrap();
    assert_eq!(out.response, "Service request created: 0");
    match out.outgoing {
        Some(Message::ServiceRequest { request_id, requester_chain, provider_agent, payment, .. }) => {
            assert_eq!(request_id, 0);
            assert_eq!(requester_chain, "chain1");
            assert_eq!(provider_agent, "agent_bob");
            assert_eq!(payment, 200);
        }
        _ => panic!("expected an outgoing service request"),
    }
    let wrong = c.execute_operation(&signed("alice", 2_000_000), Operation::AcceptService { request_id: 0 });
    assert!(matches!(wrong, Err(AgentChainError::Unauthorized)));
    let out = c
        .execute_operation(&signed("bob", 2_000_000), Operation::AcceptService { request_id: 0 })
        .unwrap();
    assert_eq!(out.response, "Service request accepted: 0");
    let out = c
        .execute_operation(
            &signed("bob", 3_000_000),
            Operation::CompleteService { request_id: 0, success: true },
        )
        .unwrap();
    assert_eq!(out.response, "Service 0 marked as completed");
    assert_eq!(c.state.get_agent(&s("agent_alice")).unwrap().balance, 800);
    assert_eq!(c.state.get_agent(&s("agent_bob")).unwrap().balance, 200);
    assert_eq!(c.state.service_requests[0].status, ServiceStatus::Completed);
}

#[test]
fn service_response_message_completes() {
    let mut c = contract();
    add_agent(&mut c, "A", "alice", 1000);
    add_agent(&mut c, "B", "bob", 0);
    let id = c.state.create_service_request(s("A"), s("B"), s("t"), s("p"), 10, 0);
    let msg = Message::ServiceResponse { request_id: id, success: false, data: s("") };
    c.execute_message(5_000_000, msg.clone()).unwrap();
    assert_eq!(c.state.service_requests[0].status, ServiceStatus::Failed);
    assert_eq!(c.state.service_requests[0].completed_at, Some(5));
    assert!(matches!(
        c.execute_message(6_000_000, msg),
        Err(AgentChainError::RequestAlreadyCompleted(0))
    ));
    assert_eq!(c.state.get_agent(&s("B")).unwrap().reputation, 95);
}

#[test]
fn token_transfer_and_request_messages() {
    let mut c = contract();
    add_agent(&mut c, "A", "alice", 50);
    add_agent(&mut c, "B", "bob", 0);
    let t = Message::TokenTransfer { from_agent: s("A"), to_agent: s("B"), amount: 20 };
    c.execute_message(1_000_000, t).unwrap();
    assert_eq!(c.state.get_agent(&s("B")).unwrap().balance, 20);
    let q = Message::ServiceRequest {
        request_id: 4,
        requester_chain: s("other"),
        provider_agent: s("B"),
        service_type: s("t"),
        payment: 1,
    };
    c.execute_message(77_000_000, q).unwrap();
    assert_eq!(c.state.get_agent(&s("B")).unwrap().last_active, 77);
    assert!(c.state.service_requests.is_empty());
}

#[test]
fn strategy_and_deactivation_operations() {
    let mut c = contract();
    add_agent(&mut c, "A", "alice", 0);
    let op = Operation::UpdateStrategy {
        agent_id: s("A"),
        new_strategy: AgentStrategy::MarketMaker { spread_bps: 30, liquidity_depth: 5 },
    };
    assert!(matches!(c.execute_operation(&signed("bob", 0), op.clone()), Err(AgentChainError::Unauthorized)));
    let out = c.execute_operation(&signed("alice", 8_000_000), op).unwrap();
    assert_eq!(out.response, "Strategy updated for agent: A");
    assert_eq!(c.state.get_agent(&s("A")).unwrap().last_active, 8);
    let out = c
        .execute_operation(&signed("alice", 0), Operation::DeactivateAgent { agent_id: s("A") })
        .unwrap();
    assert_eq!(out.response, "Agent deactivated: A");
    assert!(!c.state.get_agent(&s("A")).unwrap().is_active);
}
