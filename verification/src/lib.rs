//! Coordination primitives in the Jini/JavaSpaces tradition: leases,
//! attribute-based service discovery, durable events, a reactive tuple space
//! and a two-phase-commit transaction coordinator, with the decision logic of
//! each service verified.
use vstd::prelude::*;

pub mod auth;
pub mod bootstrap;
pub mod env;
pub mod error;
pub mod event;
pub mod lease;
pub mod matcher;
pub mod observability;
pub mod proxy;
pub mod registry;
pub mod space;
pub mod strmap;
pub mod text;
pub mod txn;

verus! {

} // verus!
