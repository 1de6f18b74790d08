//! Live process-membership filter for an Android log stream: a cache of the
//! process identifiers that belong to a set of watched packages, refreshed
//! lazily from a device query and consulted once per log record.
use vstd::prelude::*;

pub mod filter;
pub mod pids;

verus! {

} // verus!
