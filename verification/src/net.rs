//! Network addresses.
use vstd::prelude::*;

verus! {

/// The address of a host: the 32 or 128 bits of it, most significant first.
#[derive(Debug, Clone, Copy, PartialEq, Eq, Structural)]
pub enum IpAddr {
    V4(u32),
    V6(u128),
}

/// A host and a port on it.
#[derive(Debug, Clone, Copy, PartialEq, Eq, Structural)]
pub struct SocketAddr {
    pub ip: IpAddr,
    pub port: u16,
}

} // verus!
