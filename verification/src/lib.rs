//! Rule-driven terminal automation: configuration compilation, rule
//! matching, timeout tracking, key encoding, and the bookkeeping around the
//! agents that drive terminals.
pub mod agent;
pub mod cli;
pub mod config;
pub mod external;
pub mod ht_client;
pub mod ht_process;
pub mod manager;
pub mod monitor;
pub mod pattern;
pub mod queue;
pub mod retry;
pub mod rule;
pub mod rule_engine;
pub mod text;
pub mod workflow;
