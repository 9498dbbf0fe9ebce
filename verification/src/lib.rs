//! A minimal deterministic state-transition runtime: independent state
//! modules ("pallets") composed behind a dispatch layer, each mutating its
//! own slice of state in response to typed calls attributed to an account.
//!
//! The crate provides an account-balance ledger with checked-arithmetic
//! transfer semantics, a content-claim registry with ownership-gated
//! mutation, and per-module call enums routed through `dispatch`.

pub mod balances;
pub mod proof_of_existence;
pub mod runtime;
pub mod store;
pub mod support;
