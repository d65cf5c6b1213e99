use vstd::prelude::*;

verus! {

/// A directed connection between two chains, with the fee it costs to use
/// it (in the smallest unit of the native asset).
///
/// The `active` flag is carried for callers; no operation of the graph
/// reads it.
#[derive(Clone, Copy, Debug, PartialEq, Eq, Structural)]
pub struct Channel {
    pub from_chain: u32,
    pub to_chain: u32,
    pub cost_estimate: u128,
    pub active: bool,
}

} // verus!
