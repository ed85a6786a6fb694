//! What SQL an agent may run: the authorizer's decisions, and the structural
//! guards for what the authorizer cannot see.
pub mod bodies;
pub mod decision;
pub mod getter;
pub mod guard;
pub mod prepare;
pub mod words;

pub use decision::{
    authorize, decide_kind, trusted, ActionKind, Authorization, MutationFlag, MutationSignal,
    TrustScope,
};
pub use getter::is_approved_getter;
pub use guard::{check_maintenance, check_stored_body, PolicyError};
pub use prepare::{CursorStep, PrepareEvent, PrepareScan, PrepareStep, TailCursor};
