//! A directed, weighted graph of chain identifiers with an admin-gated
//! mutation entry point and a bounded greedy route walk.

mod channel;
mod identity;
pub mod laws;
mod pathfinder;
pub mod route;

pub use channel::Channel;
pub use identity::Identity;
pub use pathfinder::{Pathfinder, RouteError};
pub use route::{Graph, MAX_HOPS};
