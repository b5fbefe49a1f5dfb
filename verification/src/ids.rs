//! Names for what a driver holds on behalf of the library: transactions,
//! dialogs, connections, bridges. And addresses.

use vstd::prelude::*;

verus! {

/// A browser's signalling connection.
#[derive(Clone, Copy, Debug, PartialEq, Eq, Structural)]
pub struct WsId(pub u64);

/// The table in which a browser's answers are awaited.
#[derive(Clone, Copy, Debug, PartialEq, Eq, Structural)]
pub struct PendingId(pub u64);

/// The media side of a browser's connection.
#[derive(Clone, Copy, Debug, PartialEq, Eq, Structural)]
pub struct MediaId(pub u64);

/// A server transaction.
#[derive(Clone, Copy, Debug, PartialEq, Eq, Structural)]
pub struct TxId(pub u64);

/// A way to wake the task that handles an INVITE.
#[derive(Clone, Copy, Debug, PartialEq, Eq, Structural)]
pub struct NotifyId(pub u64);

/// A dialog.
#[derive(Clone, Copy, Debug, PartialEq, Eq, Structural)]
pub struct DialogId(pub u64);

/// A call that has a media bridge.
#[derive(Clone, Copy, Debug, PartialEq, Eq, Structural)]
pub struct CallId(pub u64);

/// An INVITE to the carrier.
#[derive(Clone, Copy, Debug, PartialEq, Eq, Structural)]
pub struct PlanId(pub u64);

/// A way to answer a request of an extension.
#[derive(Clone, Copy, Debug, PartialEq, Eq, Structural)]
pub struct ResponderId(pub u64);

/// A UDP socket.
#[derive(Clone, Copy, Debug, PartialEq, Eq, Structural)]
pub struct SocketId(pub u64);

/// An IP address, as a number.
#[derive(Clone, Copy, Debug, PartialEq, Eq, Structural)]
pub enum IpAddr {
    V4(u32),
    V6(u128),
}

/// An IP address and a port.
#[derive(Clone, Copy, Debug, PartialEq, Eq, Structural)]
pub struct SocketAddr {
    pub ip: IpAddr,
    pub port: u16,
}

/// `127.0.0.1`
pub const LOOPBACK: u32 = 0x7f00_0001;

impl IpAddr {
    /// Whether this is `0.0.0.0` or `::`.
    pub open spec fn unspecified(self) -> bool {
        self == IpAddr::V4(0) || self == IpAddr::V6(0)
    }

    /// Whether this is `0.0.0.0` or `::`.
    pub fn is_unspecified(&self) -> (r: bool)
        ensures
            r == self.unspecified(),
    {
        match self {
            IpAddr::V4(n) => *n == 0,
            IpAddr::V6(n) => *n == 0,
        }
    }
}

/// An address is that of all interfaces exactly where all of its bits are zero; the
/// loopback address is 127.0.0.1.
pub proof fn law_unspecified_address_is_zero(v4: u32, v6: u128)
    ensures
        IpAddr::V4(v4).unspecified() <==> v4 == 0,
        IpAddr::V6(v6).unspecified() <==> v6 == 0,
        LOOPBACK as int == 127 * 16_777_216 + 1,
        !IpAddr::V4(LOOPBACK).unspecified(),
{
}

} // verus!
