//! Pure routing rules: identities, budgets, grants, state machines and receipts.

pub mod application;
pub mod assembly;
pub mod catalog;
pub mod coordinator;
pub mod discard;
pub mod dsh;
pub mod grant;
pub mod handoff;
pub mod health;
pub mod invocation;
pub mod journal;
pub mod json;
pub mod ledger;
pub mod messages;
pub mod operational;
pub mod order;
pub mod policy;
pub mod policy_migration;
pub mod receipt;
pub mod research;
pub mod route;
pub mod routing_receipt;
pub mod run_model;
pub mod run_state;
pub mod runtime;
pub mod seal;
pub mod selector;
pub mod state;
pub mod stores;
pub mod text;
pub mod util;
