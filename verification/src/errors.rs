use vstd::prelude::*;

verus! {

/// The failure kinds of the relay engine. Every kind but `ConnectionError`
/// is fatal to the single task that raised it; `ConnectionError` (the bus
/// being unreachable) happens before any task starts and is fatal to the
/// whole process.
#[derive(Clone, Copy, Debug, PartialEq, Eq, Structural)]
pub enum RelayError {
    /// Invalid or missing addressing data, detected at task start.
    ConfigurationError,
    /// A destination string that does not parse as `ip:port`.
    AddressParseError,
    /// An interface name that is unknown or has no IPv4 address.
    InterfaceNotFoundError,
    /// Binding the UDP socket failed.
    BindError,
    /// OS-level multicast group membership failed.
    MulticastJoinError,
    /// Connecting the sending socket to its peer failed.
    ConnectError,
    /// The bus rejected the subscription.
    SubscribeError,
    /// Publishing a payload to the bus failed.
    PublishError,
    /// Writing a payload to the connected socket failed.
    SendError,
    /// Receiving a datagram from the socket failed.
    ReceiveError,
    /// The bus could not be reached at startup.
    ConnectionError,
}

impl RelayError {
    /// A short human-readable description of the failure kind.
    pub fn describe(&self) -> (r: &'static str)
        ensures
            r@.len() > 0,
    {
        proof {
            reveal_strlit("invalid or missing addressing configuration");
            reveal_strlit("malformed ip:port address");
            reveal_strlit("interface unknown or without an IPv4 address");
            reveal_strlit("binding the UDP socket failed");
            reveal_strlit("joining the multicast group failed");
            reveal_strlit("connecting the socket to its peer failed");
            reveal_strlit("subscribing to the bus subject failed");
            reveal_strlit("publishing to the bus failed");
            reveal_strlit("sending on the socket failed");
            reveal_strlit("receiving from the socket failed");
            reveal_strlit("the bus could not be reached");
        }
        match self {
            RelayError::ConfigurationError => "invalid or missing addressing configuration",
            RelayError::AddressParseError => "malformed ip:port address",
            RelayError::InterfaceNotFoundError => "interface unknown or without an IPv4 address",
            RelayError::BindError => "binding the UDP socket failed",
            RelayError::MulticastJoinError => "joining the multicast group failed",
            RelayError::ConnectError => "connecting the socket to its peer failed",
            RelayError::SubscribeError => "subscribing to the bus subject failed",
            RelayError::PublishError => "publishing to the bus failed",
            RelayError::SendError => "sending on the socket failed",
            RelayError::ReceiveError => "receiving from the socket failed",
            RelayError::ConnectionError => "the bus could not be reached",
        }
    }
}

} // verus!
