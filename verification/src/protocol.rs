//! Constants of the wire format.

use vstd::prelude::*;

verus! {

/// The only protocol version that is accepted.
pub const VERSION: u8 = 0;

/// The acknowledgment sent to the client once a destination is confirmed.
pub const RESPONSE: [u8; 2] = [0, 0];

/// The network type byte of a TCP request.
pub const NETWORK_TYPE_TCP: u8 = 1;

/// The network type byte of a UDP request.
pub const NETWORK_TYPE_UDP: u8 = 2;

/// The address type byte before an IPv4 address of 4 bytes.
pub const ADDRESS_TYPE_IPV4: u8 = 1;

/// The address type byte before a domain name with its length.
pub const ADDRESS_TYPE_DOMAIN: u8 = 2;

/// The address type byte before an IPv6 address of 16 bytes.
pub const ADDRESS_TYPE_IPV6: u8 = 3;

/// Length of the credential field of the handshake, in bytes.
pub const CREDENTIAL_LEN: usize = 16;

/// The only destination port that a UDP tunnel may ask for.
pub const DNS_PORT: u16 = 53;

/// How many resolver calls one tunnel may cause.
pub const QUERY_QUOTA: u8 = 10;

/// The kind of connection that a handshake asks for.
#[derive(Clone, Copy, Debug, PartialEq, Eq, Structural)]
pub enum NetworkType {
    Tcp,
    Udp,
}

impl NetworkType {
    /// The network type that a byte of the wire format stands for.
    pub open spec fn of_byte(byte: u8) -> Option<NetworkType> {
        if byte == NETWORK_TYPE_TCP {
            Some(NetworkType::Tcp)
        } else if byte == NETWORK_TYPE_UDP {
            Some(NetworkType::Udp)
        } else {
            None
        }
    }

    /// The byte that stands for this network type on the wire.
    pub open spec fn byte(self) -> u8 {
        match self {
            NetworkType::Tcp => NETWORK_TYPE_TCP,
            NetworkType::Udp => NETWORK_TYPE_UDP,
        }
    }

    /// Decodes the network type field.
    pub fn from_byte(byte: u8) -> (r: Option<NetworkType>)
        ensures
            r == Self::of_byte(byte),
    {
        if byte == NETWORK_TYPE_TCP {
            Some(NetworkType::Tcp)
        } else if byte == NETWORK_TYPE_UDP {
            Some(NetworkType::Udp)
        } else {
            None
        }
    }
}

} // verus!
