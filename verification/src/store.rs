//! The configuration store: the active routing snapshot, replaced as a
//! whole on a successful reload, together with the debounce logic that
//! coalesces bursts of file-change events into one reload attempt.
//!
//! A reload that fails — unreadable or malformed configuration — leaves the
//! active snapshot untouched; only a subsequent successful load replaces
//! it. A connection captures the snapshot in effect when it is accepted and
//! keeps routing by it, whatever the store publishes afterwards.

use vstd::prelude::*;

use crate::routing::{ListenAddr, RoutingTable};

verus! {

/// Why a configuration load failed. The store keeps the previous snapshot
/// in either case.
#[derive(Debug, Clone, Copy, PartialEq, Eq, Structural)]
pub enum ConfigError {
    /// The configuration source could not be read.
    Unreadable,
    /// The configuration was read but did not parse as a routing table.
    Malformed,
}

/// The store of the active routing snapshot. It starts unloaded; a
/// successful load publishes a snapshot; a failed reload changes nothing.
#[derive(Debug)]
pub struct ConfigStore {
    current: Option<RoutingTable>,
}

impl ConfigStore {
    /// The active snapshot, when one has been published.
    pub closed spec fn spec_current(&self) -> Option<RoutingTable> {
        self.current
    }

    /// A snapshot has been published.
    pub open spec fn is_loaded(&self) -> bool {
        self.spec_current() is Some
    }

    /// An unloaded store: nothing has been published yet.
    pub fn new() -> (r: Self)
        ensures
            r.spec_current() is None,
    {
        ConfigStore { current: None }
    }

    /// Publishes `table` as the active snapshot. Connections that already
    /// captured a snapshot are unaffected: they hold their own copy.
    pub fn publish(&mut self, table: RoutingTable)
        ensures
            final(self).spec_current() == Some(table),
    {
        self.current = Some(table);
    }

    /// Applies the outcome of one reload attempt: a successfully loaded
    /// table replaces the snapshot; a failure leaves the store exactly as
    /// it was. Returns whether the snapshot was replaced.
    pub fn apply_reload(&mut self, loaded: Result<RoutingTable, ConfigError>) -> (swapped: bool)
        ensures
            swapped == (loaded is Ok),
            loaded matches Ok(t) ==> final(self).spec_current() == Some(t),
            loaded is Err ==> *final(self) == *old(self),
    {
        match loaded {
            Ok(table) => {
                self.current = Some(table);
                true
            },
            Err(_) => false,
        }
    }

    /// A copy of the active snapshot for a freshly accepted connection,
    /// or nothing while the store is unloaded.
    pub fn snapshot(&self) -> (r: Option<RoutingTable>)
        ensures
            r is Some <==> self.spec_current() is Some,
            r matches Some(t) ==> {
                let cur = self.spec_current().unwrap();
                t.rules@ == cur.rules@ && t.fallback == cur.fallback && t.listen == cur.listen
            },
    {
        match &self.current {
            Some(table) => Some(table.clone()),
            None => None,
        }
    }
}

/// The per-connection state captured at accept time.
#[derive(Debug)]
pub struct ConnectionContext {
    /// The routing snapshot in effect when the connection was accepted;
    /// owned by this connection, never replaced.
    pub snapshot: RoutingTable,
}

/// Reload isolation: a connection routes with the snapshot it captured at
/// accept time, which is its own copy. The routing decision is a function
/// of that copy's rules and fallback alone, so no later publication to any
/// store — there is no store parameter to this statement — can change it.
pub proof fn lemma_reload_isolation(ctx: ConnectionContext, t0: RoutingTable, h: Seq<char>)
    requires
        ctx.snapshot.rules@ == t0.rules@,
        ctx.snapshot.fallback == t0.fallback,
    ensures
        ctx.snapshot.spec_route(h) == t0.spec_route(h),
{
}

/// Whether publishing a snapshot with `next` as its listen address forces
/// the listener to rebind its socket: only a changed address does. Ongoing
/// connections are never torn down for it; only acceptance pauses.
pub fn needs_rebind(current: &ListenAddr, next: &ListenAddr) -> (r: bool)
    ensures
        r == !(current.host@ == next.host@ && current.port == next.port),
{
    !(current.host == next.host && current.port == next.port)
}

/// Debounce over a monotone clock: each noted change pushes one deadline
/// out by the quiet period, and a reload becomes due only once the clock
/// passes the deadline, so a burst of edits collapses into one attempt.
#[derive(Debug)]
pub struct Debouncer {
    /// How long the source must stay quiet before a reload is attempted.
    pub quiet: u64,
    /// When the pending reload becomes due, if a change is pending.
    pub deadline: Option<u64>,
}

impl Debouncer {
    /// A debouncer with the given quiet period and no pending change.
    pub fn new(quiet: u64) -> (r: Self)
        ensures
            r.quiet == quiet,
            r.deadline is None,
    {
        Debouncer { quiet, deadline: None }
    }

    /// Notes one file-change event at time `now`: the deadline moves to
    /// the end of a fresh quiet period, coalescing with any change already
    /// pending.
    pub fn note_change(&mut self, now: u64)
        ensures
            final(self).quiet == old(self).quiet,
            final(self).deadline == Some(
                if now + old(self).quiet <= u64::MAX {
                    (now + old(self).quiet) as u64
                } else {
                    u64::MAX
                },
            ),
    {
        let deadline = if now <= u64::MAX - self.quiet {
            now + self.quiet
        } else {
            u64::MAX
        };
        self.deadline = Some(deadline);
    }

    /// Whether a pending reload has become due by time `now`.
    pub fn due(&self, now: u64) -> (r: bool)
        ensures
            r == match self.deadline {
                Some(d) => now >= d,
                None => false,
            },
    {
        match self.deadline {
            Some(d) => now >= d,
            None => false,
        }
    }

    /// Consumes the pending change if it is due at `now`: when it is, the
    /// deadline clears — the burst it coalesced triggers exactly one
    /// reload attempt — and the caller should reload now.
    pub fn take_due(&mut self, now: u64) -> (r: bool)
        ensures
            final(self).quiet == old(self).quiet,
            r == match old(self).deadline {
                Some(d) => now >= d,
                None => false,
            },
            r ==> final(self).deadline is None,
            !r ==> final(self).deadline == old(self).deadline,
    {
        match self.deadline {
            Some(d) => {
                if now >= d {
                    self.deadline = None;
                    true
                } else {
                    false
                }
            },
            None => false,
        }
    }
}

} // verus!
