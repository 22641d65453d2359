//! Listening addresses.

use vstd::prelude::*;

verus! {

/// An IP address: the four bytes of version 4, or the number of version 6.
#[derive(Clone, Copy, Debug, PartialEq, Eq, Structural)]
pub enum Ip {
    V4(u8, u8, u8, u8),
    V6(u128),
}

/// An address to listen on. The flow label and the scope are those of version 6, and zero
/// otherwise.
#[derive(Clone, Copy, Debug, PartialEq, Eq, Structural)]
pub struct Address {
    pub ip: Ip,
    pub port: u16,
    pub flow: u32,
    pub scope: u32,
}

/// An address of this machine that others cannot reach.
pub open spec fn loopback(ip: Ip) -> bool {
    match ip {
        Ip::V4(a, _, _, _) => a == 127,
        Ip::V6(n) => n == 1,
    }
}

/// The address that stands for all of a machine's addresses.
pub open spec fn unspecified(ip: Ip) -> bool {
    match ip {
        Ip::V4(a, b, c, d) => a == 0 && b == 0 && c == 0 && d == 0,
        Ip::V6(n) => n == 0,
    }
}

/// An address without a flow label and a scope.
pub open spec fn plain_address(ip: Ip, port: u16) -> Address {
    Address { ip, port, flow: 0, scope: 0 }
}

/// The address under which a machine reaches what listens on another of its addresses.
pub open spec fn reached_locally(address: Address) -> Address {
    if unspecified(address.ip) {
        plain_address(
            match address.ip {
                Ip::V4(_, _, _, _) => Ip::V4(127, 0, 0, 1),
                Ip::V6(_) => Ip::V6(1),
            },
            address.port,
        )
    } else {
        address
    }
}

impl Address {
    /// An address without a flow label and a scope.
    pub fn new(ip: Ip, port: u16) -> (r: Address)
        ensures
            r == plain_address(ip, port),
    {
        Address { ip, port, flow: 0, scope: 0 }
    }

    pub fn is_loopback(&self) -> (r: bool)
        ensures
            r == loopback(self.ip),
    {
        match self.ip {
            Ip::V4(a, _, _, _) => a == 127,
            Ip::V6(n) => n == 1,
        }
    }

    pub fn is_unspecified(&self) -> (r: bool)
        ensures
            r == unspecified(self.ip),
    {
        match self.ip {
            Ip::V4(a, b, c, d) => a == 0 && b == 0 && c == 0 && d == 0,
            Ip::V6(n) => n == 0,
        }
    }

    /// The address under which this machine reaches what listens here.
    pub fn local(&self) -> (r: Address)
        ensures
            r == reached_locally(*self),
    {
        if self.is_unspecified() {
            let ip = match self.ip {
                Ip::V4(_, _, _, _) => Ip::V4(127, 0, 0, 1),
                Ip::V6(_) => Ip::V6(1),
            };
            Address::new(ip, self.port)
        } else {
            *self
        }
    }
}

} // verus!
