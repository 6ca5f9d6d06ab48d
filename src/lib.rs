//! A marketplace ledger for autonomous agents: accounts with token
//! balances and reputation, atomic transfers, and the lifecycle of service
//! requests between agents, with every operation proved to keep the
//! ledger's invariant.

pub mod contract;
pub mod laws;
pub mod service;
pub mod state;
pub mod text;
