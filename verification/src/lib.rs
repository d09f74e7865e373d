//! A zero-trust runtime for software agents.
//!
//! Three pieces: a deny-by-default [`policy`] engine, a [`runtime`] mediator that routes
//! high-risk tools through a human approval callback, and an Ed25519-signed, hash-chained
//! [`audit`] log whose `verify_chain` shows whether the trail was tampered with.
//!
//! What holds of every call stands in [`laws`], what an audit entry holds in [`log_laws`], and why
//! a change to the log does not go unnoticed in [`tamper`]. The modules [`crypto`] and [`clock`] are where the outside world
//! comes in.

pub mod audit;
pub mod canonical;
pub mod clock;
pub mod crypto;
pub mod glob;
pub mod hex;
pub mod laws;
pub mod log_laws;
pub mod policy;
pub mod runtime;
pub mod table;
pub mod tamper;
pub mod text;

pub use audit::{AuditEntry, AuditLog, EntropyError};
pub use policy::{ArgValue, Decision, Policy, ToolCall, ToolPolicy};
pub use runtime::{AgentGuard, Approval, ToolBlockedError};
pub use table::NameTable;
