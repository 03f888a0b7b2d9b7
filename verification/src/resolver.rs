//! Backend address selection.
//!
//! Turning a rule's backend host into connectable addresses is name
//! resolution, transport work done outside this library; what is decided
//! here is which of the returned addresses the proxy uses — always the
//! first, as there is no load distribution across records — and how the
//! two failure modes are told apart.

use vstd::prelude::*;

verus! {

/// A resolved network address, as plain data: a 32-bit IPv4 address or a
/// 128-bit IPv6 address.
#[derive(Debug, Clone, Copy, PartialEq, Eq, Structural)]
pub enum IpAddress {
    V4(u32),
    V6(u128),
}

/// Where a matched connection is dialled: one resolved address and the
/// rule's backend port.
#[derive(Debug, Clone, Copy, PartialEq, Eq, Structural)]
pub struct BackendAddr {
    /// The resolved address.
    pub ip: IpAddress,
    /// The backend port.
    pub port: u16,
}

/// Why a matched connection still reached no backend. Either way only this
/// one connection closes; the process and other connections are unaffected.
#[derive(Debug, Clone, Copy, PartialEq, Eq, Structural)]
pub enum BackendError {
    /// The resolver failed or returned no records for the backend host.
    ResolutionFailed,
    /// An address was resolved but the transport connection to it failed.
    ConnectFailed,
}

/// Picks the backend address from a resolver's answer: the first returned
/// address, paired with the rule's port; no answer means resolution failed.
pub fn first_address(addrs: &Vec<IpAddress>, port: u16) -> (r: Result<BackendAddr, BackendError>)
    ensures
        r is Ok <==> addrs@.len() > 0,
        r matches Ok(a) ==> a.ip == addrs@[0] && a.port == port,
        r matches Err(e) ==> e == BackendError::ResolutionFailed,
{
    if addrs.len() > 0 {
        Ok(BackendAddr { ip: addrs[0], port })
    } else {
        Err(BackendError::ResolutionFailed)
    }
}

} // verus!
