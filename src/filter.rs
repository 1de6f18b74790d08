//! The process-membership filter: a time-bounded cache of the identifiers of
//! the processes that run a watched package, consulted once per log record.
//!
//! Refreshing the cache needs a query of the device, which the filter does
//! not make itself. A decision either settles a record at once or asks the
//! caller for a refresh; the caller runs the query and hands its outcome to
//! `apply_refresh`, which records it and settles the record.
use crate::pids::{parse_pid, parse_u32_spec};
use std::collections::HashSet;
use vstd::prelude::*;

verus! {

broadcast use vstd::std_specs::hash::group_hash_axioms;

/// How long a refreshed cache stays fresh: two seconds, in nanoseconds.
pub const TTL_NANOS: u64 = 2000000000;

/// What the filter makes of one log record.
#[derive(PartialEq, Eq, Structural, Clone, Copy, Debug)]
pub enum Decision {
    /// Settled: the record is skipped when the value is true.
    Answer(bool),
    /// The cache is stale. Query the identifiers of the watched packages,
    /// then settle the record, whose identifier this is, with `apply_refresh`.
    Refresh(u32),
}

/// The abstract state of a filter.
pub struct FilterState {
    /// The watched packages, fixed at construction.
    pub packages: Seq<String>,
    /// The identifiers believed to belong to a watched package.
    pub valid_pids: Set<u32>,
    /// When the cache was last refreshed, on the caller's monotonic clock in
    /// nanoseconds; `None` before the first successful refresh.
    pub last_update: Option<u64>,
}

/// The state of a newly made filter: nothing cached, never refreshed.
pub open spec fn initial_state(packages: Seq<String>) -> FilterState {
    FilterState { packages, valid_pids: Set::empty(), last_update: None }
}

/// Whether a cache last refreshed at `last_update` is stale at time `now`:
/// never refreshed, or refreshed more than one TTL ago. A clock reading
/// earlier than the refresh counts as no time elapsed.
pub open spec fn is_stale(last_update: Option<u64>, now: u64) -> bool {
    match last_update {
        None => true,
        Some(t) => now > t && now - t > TTL_NANOS,
    }
}

/// The decision on a record whose PID field is `pid_text`, at time `now`.
pub open spec fn decision_of(st: FilterState, pid_text: Seq<char>, now: u64) -> Decision {
    if st.packages.len() == 0 {
        Decision::Answer(false)
    } else {
        match parse_u32_spec(pid_text) {
            None => Decision::Answer(false),
            Some(pid) => if is_stale(st.last_update, now) {
                Decision::Refresh(pid)
            } else {
                Decision::Answer(!st.valid_pids.contains(pid))
            },
        }
    }
}

/// The state after a refresh at time `now` whose query gave `outcome`
/// (`None` when the query failed): a new set replaces the old one wholesale
/// and restarts the TTL; a failure changes nothing.
pub open spec fn refreshed(st: FilterState, now: u64, outcome: Option<Set<u32>>) -> FilterState {
    match outcome {
        Some(pids) => FilterState { valid_pids: pids, last_update: Some(now), ..st },
        None => st,
    }
}

/// The view of an optional query result.
pub open spec fn outcome_view(outcome: Option<HashSet<u32>>) -> Option<Set<u32>> {
    match outcome {
        Some(h) => Some(h@),
        None => None,
    }
}

/// A cache of the processes that run one of a fixed list of packages.
pub struct ProcessFilter {
    packages: Vec<String>,
    valid_pids: HashSet<u32>,
    last_update: Option<u64>,
}

impl View for ProcessFilter {
    type V = FilterState;

    closed spec fn view(&self) -> FilterState {
        FilterState {
            packages: self.packages@,
            valid_pids: self.valid_pids@,
            last_update: self.last_update,
        }
    }
}

impl ProcessFilter {
    /// A filter that watches `packages`. It starts stale, so the first
    /// record with an identifier asks for a refresh.
    pub fn new(packages: Vec<String>) -> (r: Self)
        ensures
            r@ == initial_state(packages@),
    {
        ProcessFilter { packages, valid_pids: HashSet::new(), last_update: None }
    }

    /// The watched packages, for the query that a refresh needs.
    pub fn packages(&self) -> (r: &Vec<String>)
        ensures
            r@ == self@.packages,
    {
        &self.packages
    }

    /// Decides on a record whose PID field is `pid_str`, at time `now`
    /// (nanoseconds on a monotonic clock). With no package watched, or a
    /// field that is no `u32`, the record is kept and no query is asked for.
    pub fn should_skip_process(&self, pid_str: &str, now: u64) -> (r: Decision)
        ensures
            r == decision_of(self@, pid_str@, now),
            self@.packages.len() == 0 ==> r == Decision::Answer(false),
            parse_u32_spec(pid_str@) is None ==> r == Decision::Answer(false),
    {
        if self.packages.len() == 0 {
            return Decision::Answer(false);
        }
        let pid = match parse_pid(pid_str) {
            Some(p) => p,
            None => return Decision::Answer(false),
        };
        let stale = match self.last_update {
            None => true,
            Some(t) => now > t && now - t > TTL_NANOS,
        };
        if stale {
            Decision::Refresh(pid)
        } else {
            Decision::Answer(!self.valid_pids.contains(&pid))
        }
    }

    /// Records the outcome of a refresh made at time `now` (`None` when the
    /// query failed, which keeps the old cache), then decides on the record
    /// whose identifier is `pid`: skipped when `pid` is not cached.
    pub fn apply_refresh(&mut self, pid: u32, now: u64, outcome: Option<HashSet<u32>>) -> (r: bool)
        ensures
            final(self)@ == refreshed(old(self)@, now, outcome_view(outcome)),
            r == !final(self)@.valid_pids.contains(pid),
    {
        if let Some(pids) = outcome {
            self.valid_pids = pids;
            self.last_update = Some(now);
        }
        !self.valid_pids.contains(&pid)
    }
}

/// A new filter that watches at least one package asks for a refresh on the
/// first record that carries an identifier, whatever the time: one query.
pub proof fn law_first_use_refreshes(packages: Seq<String>, pid_text: Seq<char>, now: u64)
    requires
        packages.len() > 0,
        parse_u32_spec(pid_text) is Some,
    ensures
        decision_of(initial_state(packages), pid_text, now) == Decision::Refresh(
            parse_u32_spec(pid_text)->0,
        ),
{
}

/// Within one TTL of a successful refresh no record asks for another: each
/// is settled against the new set.
pub proof fn law_fresh_within_ttl(
    st: FilterState,
    t: u64,
    pids: Set<u32>,
    pid_text: Seq<char>,
    now: u64,
)
    requires
        t <= now,
        now - t <= TTL_NANOS,
    ensures
        decision_of(refreshed(st, t, Some(pids)), pid_text, now) is Answer,
        st.packages.len() > 0 && parse_u32_spec(pid_text) is Some ==> decision_of(
            refreshed(st, t, Some(pids)),
            pid_text,
            now,
        ) == Decision::Answer(!pids.contains(parse_u32_spec(pid_text)->0)),
{
}

/// Once a TTL has passed since the last successful refresh, the next record
/// with an identifier asks for exactly one new refresh.
pub proof fn law_refresh_after_ttl(
    st: FilterState,
    t: u64,
    pids: Set<u32>,
    pid_text: Seq<char>,
    now: u64,
)
    requires
        st.packages.len() > 0,
        parse_u32_spec(pid_text) is Some,
        now > t,
        now - t > TTL_NANOS,
    ensures
        decision_of(refreshed(st, t, Some(pids)), pid_text, now) == Decision::Refresh(
            parse_u32_spec(pid_text)->0,
        ),
{
}

/// A failed refresh leaves the cached set and the time of the last refresh
/// as they were; `apply_refresh` then settles the record against that old
/// set.
pub proof fn law_failed_refresh_keeps_cache(st: FilterState, now: u64)
    ensures
        refreshed(st, now, None) == st,
{
}

} // verus!
