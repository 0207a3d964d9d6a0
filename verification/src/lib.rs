//! Management of short-lived, isolated development workspaces built on
//! git worktrees: collision-free branch-name generation, link provisioning,
//! lifecycle hooks, a persisted registry of environments, and a saga-style
//! create/remove orchestrator with compensating rollback.

use vstd::prelude::*;

verus! {

/// Result alias used throughout the library.
pub type TwinResult<T> = Result<T, crate::errors::TwinError>;

} // verus!

pub mod branchgen;
pub mod clock;
pub mod codec;
pub mod config;
pub mod errors;
pub mod hooks;
pub mod links;
pub mod lock;
pub mod output;
pub mod registry;
pub mod saga;
pub mod shell;
pub mod text;
pub mod types;
pub mod worktree;
