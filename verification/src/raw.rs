//! Raw actors: timers, continuations, offloads and the ready-work selection.

use vstd::prelude::*;

pub mod context;
pub mod definition;
pub mod disposal;
pub mod fairness;
pub mod latch;
pub mod laws;
pub mod ledger;
pub mod offload;
pub mod priority;
pub mod resources;
pub mod schedule;
pub mod select;
pub mod timers;

verus! {

} // verus!
