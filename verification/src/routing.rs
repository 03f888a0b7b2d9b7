//! Hostname routing: an immutable snapshot of rules and the lookup over it.
//!
//! A routing table is an ordered list of rules, each pairing an exact
//! hostname matcher with a backend location, plus an optional fallback rule
//! used when nothing matches. Matching is exact, case-sensitive, and in
//! declaration order: the first matching rule wins. A table is never
//! mutated after it is built; a configuration reload builds a new one.

use vstd::prelude::*;

use crate::handshake::{parse_handshake, spec_handshake_err, HandshakeInfo, ParseError};
use crate::packet::RawPacket;

verus! {

use crate::handshake::{handshake_ok, spec_hostname};

/// The port backends and the listener use when none is configured.
pub fn default_port() -> (r: u16)
    ensures
        r == 25565,
{
    25565
}

/// One routing table entry: an exact hostname matcher and the backend the
/// matched connections go to.
#[derive(Debug)]
pub struct Rule {
    /// The hostname this rule matches, exactly and case-sensitively.
    pub matcher: String,
    /// The backend host: a literal address or a name to resolve.
    pub host: String,
    /// The backend port.
    pub port: u16,
}

impl Clone for Rule {
    fn clone(&self) -> (r: Self)
        ensures
            r == *self,
    {
        Rule { matcher: self.matcher.clone(), host: self.host.clone(), port: self.port }
    }
}

/// The address the proxy itself listens on.
#[derive(Debug)]
pub struct ListenAddr {
    /// The local host or interface, as text; empty means all interfaces.
    pub host: String,
    /// The local port.
    pub port: u16,
}

impl Clone for ListenAddr {
    fn clone(&self) -> (r: Self)
        ensures
            r == *self,
    {
        ListenAddr { host: self.host.clone(), port: self.port }
    }
}

/// The index of the first rule at or after `i` whose matcher equals `h`,
/// or `rules.len()` when none from `i` on matches.
pub open spec fn first_match_from(rules: Seq<Rule>, h: Seq<char>, i: int) -> int
    decreases rules.len() - i,
{
    if i < 0 || i >= rules.len() {
        rules.len() as int
    } else if rules[i].matcher@ == h {
        i
    } else {
        first_match_from(rules, h, i + 1)
    }
}

/// The index of the first rule matching `h`, or `rules.len()`.
pub open spec fn first_match(rules: Seq<Rule>, h: Seq<char>) -> int {
    first_match_from(rules, h, 0)
}

/// An immutable snapshot of the routing configuration: the ordered rules,
/// the optional fallback, and the listen address.
#[derive(Debug)]
pub struct RoutingTable {
    /// The rules, in declaration order; the first match wins.
    pub rules: Vec<Rule>,
    /// Used when no rule matches; absent it, unmatched connections close.
    pub fallback: Option<Rule>,
    /// Where the proxy listens while this snapshot is active.
    pub listen: ListenAddr,
}

impl Clone for RoutingTable {
    fn clone(&self) -> (r: Self)
        ensures
            r.rules@ == self.rules@,
            r.fallback == self.fallback,
            r.listen == self.listen,
    {
        let mut rules: Vec<Rule> = Vec::new();
        let mut i: usize = 0;
        while i < self.rules.len()
            invariant
                i <= self.rules@.len(),
                rules@ == self.rules@.take(i as int),
            decreases self.rules@.len() - i,
        {
            rules.push(self.rules[i].clone());
            proof {
                assert(rules@ =~= self.rules@.take(i + 1));
            }
            i = i + 1;
        }
        proof {
            assert(rules@ =~= self.rules@);
        }
        let fallback = match &self.fallback {
            Some(rule) => Some(rule.clone()),
            None => None,
        };
        RoutingTable { rules, fallback, listen: self.listen.clone() }
    }
}

impl RoutingTable {
    /// The rule a hostname routes to: the first rule whose matcher equals
    /// it, else the fallback, else nothing.
    pub open spec fn spec_route(&self, h: Seq<char>) -> Option<Rule> {
        if first_match(self.rules@, h) < self.rules@.len() {
            Some(self.rules@[first_match(self.rules@, h)])
        } else {
            self.fallback
        }
    }

    /// Looks `hostname` up: rules are tried in declaration order and the
    /// first exact match wins; with no match the fallback, when present,
    /// is used; otherwise there is no route and the caller must close the
    /// connection without contacting any backend.
    pub fn match_hostname(&self, hostname: &String) -> (r: Option<&Rule>)
        ensures
            r is Some <==> self.spec_route(hostname@) is Some,
            r matches Some(rule) ==> *rule == self.spec_route(hostname@).unwrap(),
    {
        let mut i: usize = 0;
        while i < self.rules.len()
            invariant
                i <= self.rules@.len(),
                first_match(self.rules@, hostname@) == first_match_from(
                    self.rules@,
                    hostname@,
                    i as int,
                ),
            decreases self.rules@.len() - i,
        {
            if self.rules[i].matcher == *hostname {
                return Some(&self.rules[i]);
            }
            i = i + 1;
        }
        self.fallback.as_ref()
    }
}

/// What a freshly accepted connection's first packet leads to.
#[derive(Debug)]
pub enum RouteOutcome {
    /// The handshake parsed and a rule (or the fallback) matched: connect
    /// to the rule's backend and relay.
    Route { info: HandshakeInfo, rule: Rule },
    /// The handshake parsed but no rule matched and no fallback exists:
    /// close the connection without contacting any backend.
    NoMatch { info: HandshakeInfo },
    /// The handshake did not parse: close the connection.
    Malformed { error: ParseError },
}

/// The routing decision for one connection, made entirely from its first
/// packet and the snapshot in effect when it was accepted: parse the
/// handshake, then look the extracted hostname up.
pub fn decide_route(packet: &RawPacket, table: &RoutingTable) -> (r: RouteOutcome)
    ensures
        match r {
            RouteOutcome::Route { info, rule } => handshake_ok(packet@) && info.hostname@
                == spec_hostname(packet@) && table.spec_route(spec_hostname(packet@)) is Some
                && rule == table.spec_route(spec_hostname(packet@)).unwrap(),
            RouteOutcome::NoMatch { info } => handshake_ok(packet@) && info.hostname@
                == spec_hostname(packet@) && table.spec_route(spec_hostname(packet@)) is None,
            RouteOutcome::Malformed { error } => !handshake_ok(packet@) && error
                == spec_handshake_err(packet@),
        },
{
    let info = match parse_handshake(packet) {
        Ok(info) => info,
        Err(error) => {
            return RouteOutcome::Malformed { error };
        },
    };
    match table.match_hostname(&info.hostname) {
        Some(rule) => {
            let rule = rule.clone();
            RouteOutcome::Route { info, rule }
        },
        None => RouteOutcome::NoMatch { info },
    }
}

} // verus!
