//! Structured supervision and actor mailboxes as verified state machines.
//!
//! Every value here is plain data: locks, wakers, threads and clocks belong to
//! the embedding runtime, which feeds events in and carries effects out.

use vstd::prelude::*;

pub mod exit;
pub mod identity;
pub mod mailbox;
pub mod monitor;
pub mod observe;
pub mod outline;
pub mod plan;
pub mod policy;
pub mod poll;
pub mod raw;
pub mod table;
pub mod time;

verus! {

} // verus!
