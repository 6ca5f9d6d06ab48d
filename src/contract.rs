use vstd::prelude::*;
use vstd::string::StringExecFns;

use crate::state::{AgentChainError, AgentChainState, AgentStrategy, TransactionType};
use crate::text::{decimal, decimal_string, joined};

verus! {

/// Operations that a signed caller submits.
#[derive(Debug, Clone)]
pub enum Operation {
    CreateAgent {
        name: String,
        description: String,
        strategy: AgentStrategy,
        initial_balance: u128,
    },
    TransferTokens { to_agent: String, amount: u128 },
    RequestService {
        provider_agent: String,
        service_type: String,
        parameters: String,
        payment: u128,
    },
    AcceptService { request_id: u64 },
    CompleteService { request_id: u64, success: bool },
    UpdateStrategy { agent_id: String, new_strategy: AgentStrategy },
    DeactivateAgent { agent_id: String },
}

/// Messages exchanged between ledgers; `requester_chain` names the chain
/// that sent the request.
#[derive(Debug, Clone)]
pub enum Message {
    ServiceRequest {
        request_id: u64,
        requester_chain: String,
        provider_agent: String,
        service_type: String,
        payment: u128,
    },
    ServiceResponse { request_id: u64, success: bool, data: String },
    TokenTransfer { from_agent: String, to_agent: String, amount: u128 },
}

/// What the runtime tells one execution: who signed it, on which chain it
/// runs, and the time in microseconds.
#[derive(Debug, Clone)]
pub struct ExecutionContext {
    pub signer: Option<String>,
    pub chain_id: String,
    pub now_micros: u64,
}

/// The confirmation of an operation, and the message it sends, if any.
#[derive(Debug, Clone)]
pub struct OperationOutcome {
    pub response: String,
    pub outgoing: Option<Message>,
}

/// Routes operations and messages to the ledger.
pub struct AgentChainContract {
    pub state: AgentChainState,
}

/// The agent a signer acts as.
pub open spec fn acting_agent_id(owner: Seq<char>) -> Seq<char> {
    "agent_"@ + owner
}

/// The id given to an agent that `owner` creates at `micros`.
pub open spec fn fresh_agent_id(owner: Seq<char>, micros: u64) -> Seq<char> {
    "agent_"@ + owner + "_"@ + decimal(micros as nat)
}

pub open spec fn seconds(micros: u64) -> u64 {
    micros / 1_000_000
}

/// What operation `op`, signed by `owner`, does to `pre` and returns.
pub open spec fn signed_operation_executed(
    pre: AgentChainState,
    post: AgentChainState,
    owner: Seq<char>,
    ctx: ExecutionContext,
    op: Operation,
    r: Result<OperationOutcome, AgentChainError>,
) -> bool {
    let now = seconds(ctx.now_micros);
    let me = acting_agent_id(owner);
    match op {
        Operation::CreateAgent { name, description, strategy, initial_balance } => {
            let id = fresh_agent_id(owner, ctx.now_micros);
            match r {
                Ok(out) => pre.creation_allowed(id) && pre.agent_created(
                    &post,
                    id,
                    owner,
                    name@,
                    description@,
                    strategy,
                    initial_balance,
                    now,
                ) && out.response@ == "Agent created: "@ + id && out.outgoing is None,
                Err(e) => !pre.creation_allowed(id) && pre.creation_error(id, e),
            }
        },
        Operation::TransferTokens { to_agent, amount } => match r {
            Ok(out) => pre.transfer_allowed(me, to_agent@, amount) && pre.transferred(
                &post,
                me,
                to_agent@,
                amount,
                TransactionType::Transfer,
                now,
            ) && out.response@ == "Transferred "@ + decimal(amount as nat) + " tokens to "@
                + to_agent@ && out.outgoing is None,
            Err(e) => !pre.transfer_allowed(me, to_agent@, amount) && pre.transfer_error(
                me,
                to_agent@,
                amount,
                e,
            ),
        },
        Operation::RequestService { provider_agent, service_type, parameters, payment } => {
            let n = pre.service_requests@.len();
            match r {
                Ok(out) => n < u64::MAX && pre.request_opened(
                    &post,
                    me,
                    provider_agent@,
                    service_type@,
                    parameters@,
                    payment,
                    now,
                ) && out.response@ == "Service request created: "@ + decimal(n) && match out.outgoing {
                    Some(
                        Message::ServiceRequest {
                            request_id,
                            requester_chain,
                            provider_agent: p,
                            service_type: t,
                            payment: m,
                        },
                    ) => request_id == n && requester_chain@ == ctx.chain_id@ && p@
                        == provider_agent@ && t@ == service_type@ && m == payment,
                    _ => false,
                },
                Err(e) => n >= u64::MAX && e == AgentChainError::ArithmeticOverflow,
            }
        },
        Operation::AcceptService { request_id } => match r {
            Ok(out) => pre.has_request(request_id) && pre.request(request_id).provider_agent@ == me
                && pre.request(request_id).status == crate::state::ServiceStatus::Pending
                && pre.accepted(&post, request_id) && out.response@ == "Service request accepted: "@
                + decimal(request_id as nat) && out.outgoing is None,
            Err(e) => if !pre.has_request(request_id) {
                e == AgentChainError::RequestNotFound(request_id)
            } else if pre.request(request_id).provider_agent@ != me {
                e == AgentChainError::Unauthorized
            } else {
                pre.request(request_id).status != crate::state::ServiceStatus::Pending && e
                    == AgentChainError::RequestNotPending(request_id)
            },
        },
        Operation::CompleteService { request_id, success } => completion_executed(
            pre,
            post,
            now,
            request_id,
            success,
            r,
        ),
        Operation::UpdateStrategy { agent_id, new_strategy } => match r {
            Ok(out) => pre.owned_by(agent_id@, owner) && pre.strategy_replaced(
                &post,
                agent_id@,
                new_strategy,
                now,
            ) && out.response@ == "Strategy updated for agent: "@ + agent_id@ && out.outgoing is None,
            Err(e) => !pre.owned_by(agent_id@, owner) && pre.ownership_error(agent_id@, e),
        },
        Operation::DeactivateAgent { agent_id } => match r {
            Ok(out) => pre.owned_by(agent_id@, owner) && pre.deactivated(&post, agent_id@)
                && out.response@ == "Agent deactivated: "@ + agent_id@ && out.outgoing is None,
            Err(e) => !pre.owned_by(agent_id@, owner) && pre.ownership_error(agent_id@, e),
        },
    }
}

/// What completing request `id` with this outcome does and returns.
pub open spec fn completion_executed(
    pre: AgentChainState,
    post: AgentChainState,
    now: u64,
    id: u64,
    success: bool,
    r: Result<OperationOutcome, AgentChainError>,
) -> bool {
    match r {
        Ok(out) => pre.completion_allowed(id, success) && pre.completed(&post, id, success, now)
            && out.response@ == "Service "@ + decimal(id as nat) + " marked as "@ + if success {
            "completed"@
        } else {
            "failed"@
        } && out.outgoing is None,
        Err(e) => !pre.completion_allowed(id, success) && pre.completion_error(id, success, e),
    }
}

/// What operation `op` does to `pre` and returns. Completion needs no
/// signer; every other operation without one is refused as Unauthorized.
pub open spec fn operation_executed(
    pre: AgentChainState,
    post: AgentChainState,
    ctx: ExecutionContext,
    op: Operation,
    r: Result<OperationOutcome, AgentChainError>,
) -> bool {
    match op {
        Operation::CompleteService { request_id, success } => completion_executed(
            pre,
            post,
            seconds(ctx.now_micros),
            request_id,
            success,
            r,
        ),
        _ => match ctx.signer {
            None => r == Err::<OperationOutcome, AgentChainError>(AgentChainError::Unauthorized),
            Some(owner) => signed_operation_executed(pre, post, owner@, ctx, op, r),
        },
    }
}

/// What message `msg`, delivered at `micros`, does to `pre` and returns.
pub open spec fn message_executed(
    pre: AgentChainState,
    post: AgentChainState,
    micros: u64,
    msg: Message,
    r: Result<(), AgentChainError>,
) -> bool {
    let now = seconds(micros);
    match msg {
        Message::ServiceRequest { provider_agent, .. } => match r {
            Ok(()) => pre.has_agent(provider_agent@) && pre.touched(&post, provider_agent@, now),
            Err(e) => !pre.has_agent(provider_agent@) && crate::state::missing_agent(
                e,
                provider_agent@,
            ),
        },
        Message::ServiceResponse { request_id, success, .. } => match r {
            Ok(()) => pre.completion_allowed(request_id, success) && pre.completed(
                &post,
                request_id,
                success,
                now,
            ),
            Err(e) => !pre.completion_allowed(request_id, success) && pre.completion_error(
                request_id,
                success,
                e,
            ),
        },
        Message::TokenTransfer { from_agent, to_agent, amount } => match r {
            Ok(()) => pre.transfer_allowed(from_agent@, to_agent@, amount) && pre.transferred(
                &post,
                from_agent@,
                to_agent@,
                amount,
                TransactionType::Transfer,
                now,
            ),
            Err(e) => !pre.transfer_allowed(from_agent@, to_agent@, amount) && pre.transfer_error(
                from_agent@,
                to_agent@,
                amount,
                e,
            ),
        },
    }
}

fn reply(text: String) -> (r: Result<OperationOutcome, AgentChainError>)
    ensures
        r matches Ok(out) && out.response == text && out.outgoing is None,
{
    Ok(OperationOutcome { response: text, outgoing: None })
}

fn new_agent_id(owner: &String, micros: u64) -> (r: String)
    ensures
        r@ == fresh_agent_id(owner@, micros),
{
    let mut id = joined("agent_", owner.as_str());
    id.append("_");
    let digits = decimal_string(micros as u128);
    id.append(digits.as_str());
    id
}

fn agent_id_of(owner: &String) -> (r: String)
    ensures
        r@ == acting_agent_id(owner@),
{
    joined("agent_", owner.as_str())
}

impl AgentChainContract {
    /// A contract over an empty ledger.
    pub fn new() -> (r: Self)
        ensures
            r.state.wf(),
            r.state.agents@.len() == 0,
    {
        AgentChainContract { state: AgentChainState::new() }
    }

    /// Runs one operation. Every failure leaves the state as it was.
    pub fn execute_operation(&mut self, ctx: &ExecutionContext, operation: Operation) -> (r: Result<
        OperationOutcome,
        AgentChainError,
    >)
        requires
            old(self).state.wf(),
        ensures
            final(self).state.wf(),
            old(self).state.counters_grow(&final(self).state),
            r is Err ==> final(self).state == old(self).state,
            operation_executed(old(self).state, final(self).state, *ctx, operation, r),
    {
        let now = ctx.now_micros / 1_000_000;
        if let Operation::CompleteService { request_id, success } = operation {
            return self.complete(request_id, success, now);
        }
        let owner = match &ctx.signer {
            Some(o) => o,
            None => {
                return Err(AgentChainError::Unauthorized);
            },
        };
        match operation {
            Operation::CreateAgent { name, description, strategy, initial_balance } => {
                let id = new_agent_id(owner, ctx.now_micros);
                let text = joined("Agent created: ", id.as_str());
                match self.state.create_agent(
                    id,
                    owner.clone(),
                    name,
                    description,
                    strategy,
                    initial_balance,
                    now,
                ) {
                    Ok(()) => reply(text),
                    Err(e) => Err(e),
                }
            },
            Operation::TransferTokens { to_agent, amount } => {
                let from = agent_id_of(owner);
                match self.state.transfer_tokens(
                    &from,
                    &to_agent,
                    amount,
                    TransactionType::Transfer,
                    now,
                ) {
                    Ok(_) => {
                        let mut text = joined("Transferred ", decimal_string(amount).as_str());
                        text.append(" tokens to ");
                        text.append(to_agent.as_str());
                        reply(text)
                    },
                    Err(e) => Err(e),
                }
            },
            Operation::RequestService { provider_agent, service_type, parameters, payment } => {
                if self.state.service_requests.len() as u128 >= u64::MAX as u128 {
                    return Err(AgentChainError::ArithmeticOverflow);
                }
                let message_provider = provider_agent.clone();
                let message_service = service_type.clone();
                let id = self.state.create_service_request(
                    agent_id_of(owner),
                    provider_agent,
                    service_type,
                    parameters,
                    payment,
                    now,
                );
                let text = joined("Service request created: ", decimal_string(id as u128).as_str());
                Ok(
                    OperationOutcome {
                        response: text,
                        outgoing: Some(
                            Message::ServiceRequest {
                                request_id: id,
                                requester_chain: ctx.chain_id.clone(),
                                provider_agent: message_provider,
                                service_type: message_service,
                                payment,
                            },
                        ),
                    },
                )
            },
            Operation::AcceptService { request_id } => {
                if request_id as u128 >= self.state.service_requests.len() as u128 {
                    return Err(AgentChainError::RequestNotFound(request_id));
                }
                let me = agent_id_of(owner);
                if self.state.service_requests[request_id as usize].provider_agent != me {
                    return Err(AgentChainError::Unauthorized);
                }
                match self.state.accept_service(request_id) {
                    Ok(()) => reply(
                        joined(
                            "Service request accepted: ",
                            decimal_string(request_id as u128).as_str(),
                        ),
                    ),
                    Err(e) => Err(e),
                }
            },
            Operation::CompleteService { request_id, success } => self.complete(
                request_id,
                success,
                now,
            ),
            Operation::UpdateStrategy { agent_id, new_strategy } => {
                match self.state.update_strategy(owner, &agent_id, new_strategy, now) {
                    Ok(()) => reply(joined("Strategy updated for agent: ", agent_id.as_str())),
                    Err(e) => Err(e),
                }
            },
            Operation::DeactivateAgent { agent_id } => {
                match self.state.deactivate_agent(owner, &agent_id) {
                    Ok(()) => reply(joined("Agent deactivated: ", agent_id.as_str())),
                    Err(e) => Err(e),
                }
            },
        }
    }

    fn complete(&mut self, request_id: u64, success: bool, now: u64) -> (r: Result<
        OperationOutcome,
        AgentChainError,
    >)
        requires
            old(self).state.wf(),
        ensures
            final(self).state.wf(),
            old(self).state.counters_grow(&final(self).state),
            r is Err ==> final(self).state == old(self).state,
            completion_executed(old(self).state, final(self).state, now, request_id, success, r),
    {
        match self.state.complete_service(request_id, success, now) {
            Ok(()) => {
                let mut text = joined("Service ", decimal_string(request_id as u128).as_str());
                text.append(" marked as ");
                text.append(if success { "completed" } else { "failed" });
                reply(text)
            },
            Err(e) => Err(e),
        }
    }

    /// Applies one message from another ledger. Every failure leaves the
    /// state as it was.
    pub fn execute_message(&mut self, now_micros: u64, message: Message) -> (r: Result<
        (),
        AgentChainError,
    >)
        requires
            old(self).state.wf(),
        ensures
            final(self).state.wf(),
            old(self).state.counters_grow(&final(self).state),
            r is Err ==> final(self).state == old(self).state,
            message_executed(old(self).state, final(self).state, now_micros, message, r),
    {
        let now = now_micros / 1_000_000;
        match message {
            Message::ServiceRequest { provider_agent, .. } => self.state.touch_agent(
                &provider_agent,
                now,
            ),
            Message::ServiceResponse { request_id, success, .. } => self.state.complete_service(
                request_id,
                success,
                now,
            ),
            Message::TokenTransfer { from_agent, to_agent, amount } => {
                match self.state.transfer_tokens(
                    &from_agent,
                    &to_agent,
                    amount,
                    TransactionType::Transfer,
                    now,
                ) {
                    Ok(_) => Ok(()),
                    Err(e) => Err(e),
                }
            },
        }
    }
}

} // verus!
