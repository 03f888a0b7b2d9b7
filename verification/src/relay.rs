//! Byte accounting for the transparent relay phase.
//!
//! Once the handshake has been replayed to the backend, the proxy copies
//! bytes both ways until either side reaches end-of-stream or an I/O error
//! occurs. The copying itself is transport work; what is modelled here is
//! the state it threads through: the two byte counters reported on
//! termination and the cause of the end. Each transport step — a chunk
//! forwarded, an end-of-stream, a failure — is applied as one event.

use vstd::prelude::*;

verus! {

/// What ended a relay.
#[derive(Debug, Clone, Copy, PartialEq, Eq, Structural)]
pub enum RelayEnd {
    /// The client reached end-of-stream.
    ClientEof,
    /// The backend reached end-of-stream.
    BackendEof,
    /// An I/O error on either stream.
    Failed,
}

/// One observed transport step of a live relay.
#[derive(Debug, Clone, Copy, PartialEq, Eq, Structural)]
pub enum RelayEvent {
    /// A chunk of payload was forwarded from the client to the backend.
    ClientBytes { count: u64 },
    /// A chunk of payload was forwarded from the backend to the client.
    BackendBytes { count: u64 },
    /// The client closed its sending side.
    ClientEof,
    /// The backend closed its sending side.
    BackendEof,
    /// Reading or writing failed on either stream.
    Failed,
}

/// The accounting state of one relay: bytes moved each way so far, and the
/// cause of the end once one was observed. Counters survive the end, so a
/// failed relay still reports everything moved up to the failure.
#[derive(Debug, Clone, Copy, PartialEq, Eq, Structural)]
pub struct RelayState {
    /// Bytes forwarded from the client to the backend.
    pub client_to_backend: u64,
    /// Bytes forwarded from the backend to the client.
    pub backend_to_client: u64,
    /// Why the relay ended, once it has.
    pub end: Option<RelayEnd>,
}

/// How one event transforms the accounting state: chunks add to their
/// direction's counter, and the first terminating event fixes the cause of
/// the end.
pub open spec fn spec_step(s: RelayState, ev: RelayEvent) -> RelayState {
    match ev {
        RelayEvent::ClientBytes { count } => RelayState {
            client_to_backend: (s.client_to_backend + count) as u64,
            ..s
        },
        RelayEvent::BackendBytes { count } => RelayState {
            backend_to_client: (s.backend_to_client + count) as u64,
            ..s
        },
        RelayEvent::ClientEof => RelayState {
            end: if s.end is None {
                Some(RelayEnd::ClientEof)
            } else {
                s.end
            },
            ..s
        },
        RelayEvent::BackendEof => RelayState {
            end: if s.end is None {
                Some(RelayEnd::BackendEof)
            } else {
                s.end
            },
            ..s
        },
        RelayEvent::Failed => RelayState {
            end: if s.end is None {
                Some(RelayEnd::Failed)
            } else {
                s.end
            },
            ..s
        },
    }
}

/// The state after applying a whole script of events in order.
pub open spec fn spec_run(s: RelayState, evs: Seq<RelayEvent>) -> RelayState
    decreases evs.len(),
{
    if evs.len() == 0 {
        s
    } else {
        spec_run(spec_step(s, evs[0]), evs.skip(1))
    }
}

/// The total payload a script sends from the client side.
pub open spec fn client_sum(evs: Seq<RelayEvent>) -> int
    decreases evs.len(),
{
    if evs.len() == 0 {
        0
    } else {
        (match evs[0] {
            RelayEvent::ClientBytes { count } => count as int,
            _ => 0,
        }) + client_sum(evs.skip(1))
    }
}

/// The total payload a script sends from the backend side.
pub open spec fn backend_sum(evs: Seq<RelayEvent>) -> int
    decreases evs.len(),
{
    if evs.len() == 0 {
        0
    } else {
        (match evs[0] {
            RelayEvent::BackendBytes { count } => count as int,
            _ => 0,
        }) + backend_sum(evs.skip(1))
    }
}

impl RelayState {
    /// The relay is still copying: no end has been observed.
    pub open spec fn active(&self) -> bool {
        self.end is None
    }

    /// The accounting state a relay starts in.
    pub open spec fn spec_init() -> RelayState {
        RelayState { client_to_backend: 0, backend_to_client: 0, end: None }
    }

    /// A relay that has moved nothing and is still copying.
    pub fn new() -> (r: Self)
        ensures
            r.client_to_backend == 0,
            r.backend_to_client == 0,
            r.active(),
    {
        RelayState { client_to_backend: 0, backend_to_client: 0, end: None }
    }

    /// Applies one observed transport step to a live relay.
    pub fn step(&mut self, ev: RelayEvent)
        requires
            old(self).active(),
            ev matches RelayEvent::ClientBytes { count } ==> old(self).client_to_backend + count
                <= u64::MAX,
            ev matches RelayEvent::BackendBytes { count } ==> old(self).backend_to_client + count
                <= u64::MAX,
        ensures
            *final(self) == spec_step(*old(self), ev),
    {
        match ev {
            RelayEvent::ClientBytes { count } => {
                self.client_to_backend = self.client_to_backend + count;
            },
            RelayEvent::BackendBytes { count } => {
                self.backend_to_client = self.backend_to_client + count;
            },
            RelayEvent::ClientEof => {
                self.end = Some(RelayEnd::ClientEof);
            },
            RelayEvent::BackendEof => {
                self.end = Some(RelayEnd::BackendEof);
            },
            RelayEvent::Failed => {
                self.end = Some(RelayEnd::Failed);
            },
        }
    }
}

/// Relay byte accounting: over any exchange script whose events all occur
/// while the relay is still copying, the final counters equal exactly the
/// payload totals each side sent.
pub proof fn lemma_relay_byte_accounting(evs: Seq<RelayEvent>)
    requires
        forall|i: int|
            0 <= i < evs.len() ==> spec_run(RelayState::spec_init(), evs.take(i)).active(),
        client_sum(evs) <= u64::MAX,
        backend_sum(evs) <= u64::MAX,
    ensures
        spec_run(RelayState::spec_init(), evs).client_to_backend == client_sum(evs),
        spec_run(RelayState::spec_init(), evs).backend_to_client == backend_sum(evs),
{
    lemma_run_accounting(RelayState::spec_init(), evs);
}

/// Sums are non-negative: a script never removes bytes from a counter.
proof fn lemma_sums_nonneg(evs: Seq<RelayEvent>)
    ensures
        client_sum(evs) >= 0,
        backend_sum(evs) >= 0,
    decreases evs.len(),
{
    if evs.len() > 0 {
        lemma_sums_nonneg(evs.skip(1));
    }
}

proof fn lemma_run_accounting(s: RelayState, evs: Seq<RelayEvent>)
    requires
        forall|i: int| 0 <= i < evs.len() ==> #[trigger] spec_run(s, evs.take(i)).active(),
        s.client_to_backend + client_sum(evs) <= u64::MAX,
        s.backend_to_client + backend_sum(evs) <= u64::MAX,
    ensures
        spec_run(s, evs).client_to_backend == s.client_to_backend + client_sum(evs),
        spec_run(s, evs).backend_to_client == s.backend_to_client + backend_sum(evs),
    decreases evs.len(),
{
    lemma_sums_nonneg(evs);
    if evs.len() > 0 {
        let s1 = spec_step(s, evs[0]);
        let rest = evs.skip(1);
        lemma_sums_nonneg(rest);
        assert(evs.take(0) =~= Seq::<RelayEvent>::empty());
        assert(spec_run(s, evs.take(0)) == s);
        assert forall|i: int| 0 <= i < rest.len() implies #[trigger] spec_run(
            s1,
            rest.take(i),
        ).active() by {
            assert(spec_run(s, evs.take(i + 1)).active());
            assert(evs.take(i + 1).skip(1) =~= rest.take(i));
            assert(spec_run(s, evs.take(i + 1)) == spec_run(s1, rest.take(i)));
        }
        lemma_run_accounting(s1, rest);
    }
}

} // verus!
