//! Verified core of the sovereign bridge contracts: validator registration,
//! configuration rules, fee accounting, deposit checks and chain-factory
//! bookkeeping, each written over plain values with its contract.
pub mod bytes;
pub mod errors;
pub mod types;
pub mod store;
pub mod token;
pub mod config;
pub mod chain_config;
pub mod common_utils;
pub mod hash;
pub mod fee;
pub mod cross_chain;
pub mod chain_factory;
pub mod bridge;
pub mod bls;
pub mod interactor;
pub mod logs;
pub mod test_setup;
pub mod state;
pub mod validator_rules;
pub mod token_issue;
pub mod account_storage;
