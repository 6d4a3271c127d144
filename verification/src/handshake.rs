//! The handshake header: its layout on the wire and its decoder.
//!
//! | field          | bytes                                             |
//! |----------------|---------------------------------------------------|
//! | version        | 1, must be [`VERSION`]                            |
//! | credential     | 16                                                |
//! | padding length | 1                                                 |
//! | padding        | as many as the padding length says; not looked at |
//! | network type   | 1: 1 for TCP, 2 for UDP                           |
//! | port           | 2, most significant byte first                    |
//! | address type   | 1: 1 for IPv4, 2 for a domain name, 3 for IPv6    |
//! | address        | 4; or 1 for a length and so many of UTF-8; or 16  |
//!
//! [`parse_header`] says what any run of bytes decodes to, and how many of
//! them the decoder takes. [`read_handshake`] is the decoder.

use crate::address::{bracketed_ipv6_string, bracketed_ipv6_text, ipv4_string, ipv4_text};
use crate::error::ProtocolError;
use crate::ext::{
    be_bytes, be_value, lemma_be_bytes_value, lemma_pow256_values, ReadError, StreamExt,
};
use crate::protocol::{
    NetworkType, ADDRESS_TYPE_DOMAIN, ADDRESS_TYPE_IPV4, ADDRESS_TYPE_IPV6, CREDENTIAL_LEN, VERSION,
};
use vstd::prelude::*;
use vstd::utf8::{
    decode_utf8, encode_utf8, encode_utf8_decode_utf8, encode_utf8_valid_utf8, valid_utf8,
};

verus! {

/// The connection that a client asks for.
#[derive(Debug, PartialEq, Eq)]
pub struct ConnectRequest {
    pub network_type: NetworkType,
    pub port: u16,
    /// A domain name, a dotted IPv4 address, or an IPv6 address in brackets.
    pub target_address: String,
}

/// A [`ConnectRequest`], as contracts see it.
pub struct RequestView {
    pub network_type: NetworkType,
    pub port: u16,
    pub target_address: Seq<char>,
}

impl View for ConnectRequest {
    type V = RequestView;

    open spec fn view(&self) -> RequestView {
        RequestView {
            network_type: self.network_type,
            port: self.port,
            target_address: self.target_address@,
        }
    }
}

/// What the bytes of a handshake come to.
#[derive(Debug, PartialEq, Eq)]
pub enum Handshake {
    /// A whole, valid header.
    Request(ConnectRequest),
    /// A field broke a rule of the format.
    Rejected(ProtocolError),
    /// The bytes end before the header does.
    Truncated,
}

/// A [`Handshake`], as contracts see it.
pub enum Outcome {
    Request(RequestView),
    Rejected(ProtocolError),
    Truncated,
}

impl View for Handshake {
    type V = Outcome;

    open spec fn view(&self) -> Outcome {
        match *self {
            Handshake::Request(request) => Outcome::Request(request@),
            Handshake::Rejected(e) => Outcome::Rejected(e),
            Handshake::Truncated => Outcome::Truncated,
        }
    }
}

/// What bytes decode to, and how many of them the decoder takes.
pub struct Parsed {
    pub outcome: Outcome,
    /// The length of the fields that were read whole, a field that broke a
    /// rule included.
    pub consumed: int,
}

/// The bytes end inside the field that starts at `consumed`.
pub open spec fn truncated(consumed: int) -> Parsed {
    Parsed { outcome: Outcome::Truncated, consumed }
}

/// The field that ends at `consumed` broke a rule.
pub open spec fn rejected(e: ProtocolError, consumed: int) -> Parsed {
    Parsed { outcome: Outcome::Rejected(e), consumed }
}

/// A whole header of `consumed` bytes.
pub open spec fn accepted(
    network_type: NetworkType,
    port: u16,
    target_address: Seq<char>,
    consumed: int,
) -> Parsed {
    Parsed {
        outcome: Outcome::Request(RequestView { network_type, port, target_address }),
        consumed,
    }
}

/// Decodes the address that starts at index `at`, after an address type
/// byte `kind`.
pub open spec fn parse_address(
    b: Seq<u8>,
    at: int,
    kind: u8,
    network_type: NetworkType,
    port: u16,
) -> Parsed {
    if kind == ADDRESS_TYPE_DOMAIN {
        if b.len() < at + 1 {
            truncated(at)
        } else if b.len() < at + 1 + b[at] {
            truncated(at + 1)
        } else {
            let end = at + 1 + b[at];
            let name = b.subrange(at + 1, end);
            if valid_utf8(name) {
                accepted(network_type, port, decode_utf8(name), end)
            } else {
                rejected(ProtocolError::InvalidEncoding, end)
            }
        }
    } else if kind == ADDRESS_TYPE_IPV4 {
        if b.len() < at + 4 {
            truncated(at)
        } else {
            accepted(
                network_type,
                port,
                ipv4_text(be_value(b.subrange(at, at + 4)) as u32),
                at + 4,
            )
        }
    } else if kind == ADDRESS_TYPE_IPV6 {
        if b.len() < at + 16 {
            truncated(at)
        } else {
            accepted(
                network_type,
                port,
                bracketed_ipv6_text(be_value(b.subrange(at, at + 16)) as u128),
                at + 16,
            )
        }
    } else {
        rejected(ProtocolError::InvalidAddressType, at)
    }
}

/// Decodes network type, port and address, from index `at` on.
pub open spec fn parse_target(b: Seq<u8>, at: int) -> Parsed {
    if b.len() < at + 1 {
        truncated(at)
    } else if NetworkType::of_byte(b[at]) is None {
        rejected(ProtocolError::UnsupportedNetwork, at + 1)
    } else if b.len() < at + 3 {
        truncated(at + 1)
    } else if b.len() < at + 4 {
        truncated(at + 3)
    } else {
        parse_address(
            b,
            at + 4,
            b[at + 3],
            NetworkType::of_byte(b[at])->0,
            be_value(b.subrange(at + 1, at + 3)) as u16,
        )
    }
}

/// Decodes a header from the front of `b`, for a relay configured with
/// `credential`. The fields are taken in order, and the first that breaks a
/// rule decides.
pub open spec fn parse_header(b: Seq<u8>, credential: Seq<u8>) -> Parsed {
    if b.len() < 1 {
        truncated(0)
    } else if b[0] != VERSION {
        rejected(ProtocolError::InvalidVersion, 1)
    } else if b.len() < 17 {
        truncated(1)
    } else if b.subrange(1, 17) != credential {
        rejected(ProtocolError::Unauthorized, 17)
    } else if b.len() < 18 {
        truncated(17)
    } else if b.len() < 18 + b[17] {
        truncated(18)
    } else {
        parse_target(b, 18 + b[17])
    }
}

/// One byte spells its own value.
pub proof fn lemma_be_value_one(bytes: Seq<u8>)
    requires
        bytes.len() == 1,
    ensures
        be_value(bytes) == bytes[0],
{
    reveal_with_fuel(be_value, 2);
}

/// Reading `n` bytes at offset `at` of `all`.
proof fn lemma_field(all: Seq<u8>, at: int, n: int)
    requires
        0 <= at,
        0 <= n,
        at + n <= all.len(),
    ensures
        all.skip(at).len() == all.len() - at,
        all.skip(at).take(n) == all.subrange(at, at + n),
        all.skip(at).skip(n) == all.skip(at + n),
        n == 1 ==> be_value(all.subrange(at, at + n)) == all[at],
{
    assert(all.skip(at).take(n) =~= all.subrange(at, at + n));
    assert(all.skip(at).skip(n) =~= all.skip(at + n));
    if n == 1 {
        lemma_be_value_one(all.subrange(at, at + n));
    }
}

/// Whether two runs of bytes are the same.
pub fn same_bytes(a: &[u8], b: &[u8]) -> (same: bool)
    ensures
        same == (a@ == b@),
{
    if a.len() != b.len() {
        return false;
    }
    let mut i: usize = 0;
    while i < a.len()
        invariant
            i <= a@.len(),
            a@.len() == b@.len(),
            a@.take(i as int) == b@.take(i as int),
        decreases a@.len() - i,
    {
        if a[i] != b[i] {
            assert(a@[i as int] != b@[i as int]);
            return false;
        }
        assert(a@.take(i + 1) =~= a@.take(i as int).push(a@[i as int]));
        assert(b@.take(i + 1) =~= b@.take(i as int).push(b@[i as int]));
        i = i + 1;
    }
    assert(a@ =~= a@.take(a@.len() as int));
    assert(b@ =~= b@.take(b@.len() as int));
    true
}

/// Reads the address field that follows an address type byte `kind`.
fn read_address<S: StreamExt>(
    stream: &mut S,
    kind: u8,
    network_type: NetworkType,
    port: u16,
    Ghost(all): Ghost<Seq<u8>>,
    Ghost(at): Ghost<int>,
) -> (h: Handshake)
    requires
        0 <= at <= all.len(),
        old(stream).unread() == all.skip(at),
    ensures
        final(stream).ended() == old(stream).ended(),
        h@ == parse_address(all, at, kind, network_type, port).outcome,
        0 <= parse_address(all, at, kind, network_type, port).consumed <= all.len(),
        final(stream).unread() == all.skip(
            parse_address(all, at, kind, network_type, port).consumed,
        ),
{
    proof {
        lemma_field(all, at, 0);
    }
    if kind == ADDRESS_TYPE_DOMAIN {
        let length = match stream.read_u8() {
            Ok(length) => length,
            Err(_) => {
                return Handshake::Truncated;
            },
        };
        proof {
            lemma_field(all, at, 1);
            lemma_field(all, at + 1, 0);
        }
        match stream.read_string(length as usize) {
            Ok(target_address) => {
                proof {
                    lemma_field(all, at + 1, length as int);
                }
                Handshake::Request(ConnectRequest { network_type, port, target_address })
            },
            Err(ReadError::InvalidUtf8) => {
                proof {
                    lemma_field(all, at + 1, length as int);
                }
                Handshake::Rejected(ProtocolError::InvalidEncoding)
            },
            Err(_) => Handshake::Truncated,
        }
    } else if kind == ADDRESS_TYPE_IPV4 {
        match stream.read_u32() {
            Ok(v) => {
                proof {
                    lemma_field(all, at, 4);
                }
                Handshake::Request(
                    ConnectRequest { network_type, port, target_address: ipv4_string(v) },
                )
            },
            Err(_) => Handshake::Truncated,
        }
    } else if kind == ADDRESS_TYPE_IPV6 {
        match stream.read_u128() {
            Ok(v) => {
                proof {
                    lemma_field(all, at, 16);
                }
                Handshake::Request(
                    ConnectRequest { network_type, port, target_address: bracketed_ipv6_string(v) },
                )
            },
            Err(_) => Handshake::Truncated,
        }
    } else {
        Handshake::Rejected(ProtocolError::InvalidAddressType)
    }
}

/// Decodes a handshake header from the front of `stream`, for a relay
/// configured with `credential`.
///
/// The fields are read in order and the first that breaks a rule decides.
/// The stream loses the fields that were read whole, the failing one
/// included, and nothing behind them.
pub fn read_handshake<S: StreamExt>(stream: &mut S, credential: &[u8]) -> (h: Handshake)
    ensures
        final(stream).ended() == old(stream).ended(),
        h@ == parse_header(old(stream).unread(), credential@).outcome,
        0 <= parse_header(old(stream).unread(), credential@).consumed <= old(stream).unread().len(),
        final(stream).unread() == old(stream).unread().skip(
            parse_header(old(stream).unread(), credential@).consumed,
        ),
{
    let ghost all = stream.unread();
    proof {
        lemma_field(all, 0, 0);
    }
    let version = match stream.read_u8() {
        Ok(version) => version,
        Err(_) => {
            return Handshake::Truncated;
        },
    };
    proof {
        lemma_field(all, 0, 1);
        lemma_field(all, 1, 0);
    }
    if version != VERSION {
        return Handshake::Rejected(ProtocolError::InvalidVersion);
    }
    let received = match stream.read_bytes(CREDENTIAL_LEN) {
        Ok(received) => received,
        Err(_) => {
            return Handshake::Truncated;
        },
    };
    proof {
        lemma_field(all, 1, 16);
        lemma_field(all, 17, 0);
    }
    if !same_bytes(received.as_slice(), credential) {
        return Handshake::Rejected(ProtocolError::Unauthorized);
    }
    let padding = match stream.read_u8() {
        Ok(padding) => padding,
        Err(_) => {
            return Handshake::Truncated;
        },
    };
    proof {
        lemma_field(all, 17, 1);
        lemma_field(all, 18, 0);
    }
    match stream.read_bytes(padding as usize) {
        Ok(_) => {},
        Err(_) => {
            return Handshake::Truncated;
        },
    }
    let ghost at: int = 18 + padding;
    proof {
        lemma_field(all, 18, padding as int);
        lemma_field(all, at, 0);
    }
    let network = match stream.read_u8() {
        Ok(network) => network,
        Err(_) => {
            return Handshake::Truncated;
        },
    };
    proof {
        lemma_field(all, at, 1);
        lemma_field(all, at + 1, 0);
    }
    let network_type = match NetworkType::from_byte(network) {
        Some(network_type) => network_type,
        None => {
            return Handshake::Rejected(ProtocolError::UnsupportedNetwork);
        },
    };
    let port = match stream.read_u16() {
        Ok(port) => port,
        Err(_) => {
            return Handshake::Truncated;
        },
    };
    proof {
        lemma_field(all, at + 1, 2);
        lemma_field(all, at + 3, 0);
    }
    let kind = match stream.read_u8() {
        Ok(kind) => kind,
        Err(_) => {
            return Handshake::Truncated;
        },
    };
    proof {
        lemma_field(all, at + 3, 1);
    }
    read_address(stream, kind, network_type, port, Ghost(all), Ghost(at + 4))
}

/// An address as a client puts it into a header.
pub enum WireAddress {
    Ipv4(u32),
    Domain(Seq<char>),
    Ipv6(u128),
}

impl WireAddress {
    /// Whether the address fits its field: a name has at most 255 bytes.
    pub open spec fn fits(self) -> bool {
        match self {
            WireAddress::Domain(name) => encode_utf8(name).len() <= 255,
            _ => true,
        }
    }

    /// The address type byte and the address field.
    pub open spec fn bytes(self) -> Seq<u8> {
        match self {
            WireAddress::Ipv4(v) => seq![ADDRESS_TYPE_IPV4] + be_bytes(v as nat, 4),
            WireAddress::Domain(name) => seq![ADDRESS_TYPE_DOMAIN, encode_utf8(name).len() as u8]
                + encode_utf8(name),
            WireAddress::Ipv6(v) => seq![ADDRESS_TYPE_IPV6] + be_bytes(v as nat, 16),
        }
    }

    /// The address as the text that a connection is opened to.
    pub open spec fn text(self) -> Seq<char> {
        match self {
            WireAddress::Ipv4(v) => ipv4_text(v),
            WireAddress::Domain(name) => name,
            WireAddress::Ipv6(v) => bracketed_ipv6_text(v),
        }
    }
}

/// The header up to and including the port.
pub open spec fn preamble(
    credential: Seq<u8>,
    padding: Seq<u8>,
    network_type: NetworkType,
    port: u16,
) -> Seq<u8> {
    seq![VERSION] + credential + seq![padding.len() as u8] + padding + seq![network_type.byte()]
        + be_bytes(port as nat, 2)
}

/// A whole header.
pub open spec fn header_bytes(
    credential: Seq<u8>,
    padding: Seq<u8>,
    network_type: NetworkType,
    port: u16,
    address: WireAddress,
) -> Seq<u8> {
    preamble(credential, padding, network_type, port) + address.bytes()
}

/// The decoder gets through a preamble that carries the configured
/// credential, and goes on with the address type byte behind it.
pub proof fn lemma_preamble_parses(
    credential: Seq<u8>,
    padding: Seq<u8>,
    network_type: NetworkType,
    port: u16,
    tail: Seq<u8>,
)
    requires
        credential.len() == 16,
        padding.len() <= 255,
    ensures
        preamble(credential, padding, network_type, port).len() == 21 + padding.len(),
        parse_header(preamble(credential, padding, network_type, port) + tail, credential) == if tail.len()
            == 0 {
            truncated(21 + padding.len() as int)
        } else {
            parse_address(
                preamble(credential, padding, network_type, port) + tail,
                22 + padding.len() as int,
                tail[0],
                network_type,
                port,
            )
        },
{
    let p = padding.len() as int;
    let head = preamble(credential, padding, network_type, port);
    let b = head + tail;
    lemma_pow256_values();
    lemma_be_bytes_value(port as nat, 2);
    let port_bytes = be_bytes(port as nat, 2);
    assert(head.len() == 21 + p);
    assert(b[0] == VERSION);
    assert(b.subrange(1, 17) =~= credential);
    assert(b[17] == padding.len() as u8);
    assert(b[18 + p] == network_type.byte());
    assert(NetworkType::of_byte(network_type.byte()) == Some(network_type));
    assert(b.subrange(19 + p, 21 + p) =~= port_bytes);
    if tail.len() > 0 {
        assert(b[21 + p] == tail[0]);
    }
}

/// Decoding recovers what was encoded: a header that carries the configured
/// credential decodes to its network type, its port and the text of its
/// address, whatever follows it, and the decoder takes the header and no
/// byte more.
pub proof fn decode_recovers_encoded(
    credential: Seq<u8>,
    padding: Seq<u8>,
    network_type: NetworkType,
    port: u16,
    address: WireAddress,
    rest: Seq<u8>,
)
    requires
        credential.len() == 16,
        padding.len() <= 255,
        address.fits(),
    ensures
        parse_header(
            header_bytes(credential, padding, network_type, port, address) + rest,
            credential,
        ) == accepted(
            network_type,
            port,
            address.text(),
            header_bytes(credential, padding, network_type, port, address).len() as int,
        ),
{
    let head = preamble(credential, padding, network_type, port);
    let tail = address.bytes() + rest;
    let b = head + tail;
    let at = 22 + padding.len() as int;
    assert(header_bytes(credential, padding, network_type, port, address) + rest =~= b);
    lemma_preamble_parses(credential, padding, network_type, port, tail);
    lemma_pow256_values();
    match address {
        WireAddress::Ipv4(v) => {
            lemma_be_bytes_value(v as nat, 4);
            assert(b.subrange(at, at + 4) =~= be_bytes(v as nat, 4));
        },
        WireAddress::Domain(name) => {
            let raw = encode_utf8(name);
            assert(b[at] == raw.len() as u8);
            assert(b.subrange(at + 1, at + 1 + raw.len() as int) =~= raw);
            encode_utf8_valid_utf8(name);
            encode_utf8_decode_utf8(name);
        },
        WireAddress::Ipv6(v) => {
            lemma_be_bytes_value(v as nat, 16);
            assert(b.subrange(at, at + 16) =~= be_bytes(v as nat, 16));
        },
    }
}

/// A header with any version but the supported one is refused as
/// `InvalidVersion`, whatever else it holds.
pub proof fn other_version_is_invalid(bytes: Seq<u8>, credential: Seq<u8>)
    requires
        bytes.len() >= 1,
        bytes[0] != VERSION,
    ensures
        parse_header(bytes, credential) == rejected(ProtocolError::InvalidVersion, 1),
{
}

/// A header whose credential differs from the configured one, be it in a
/// single byte, is refused as `Unauthorized`.
pub proof fn other_credential_is_unauthorized(
    sent: Seq<u8>,
    configured: Seq<u8>,
    padding: Seq<u8>,
    network_type: NetworkType,
    port: u16,
    address: WireAddress,
    rest: Seq<u8>,
)
    requires
        sent.len() == 16,
        sent != configured,
    ensures
        parse_header(header_bytes(sent, padding, network_type, port, address) + rest, configured)
            == rejected(ProtocolError::Unauthorized, 17),
{
    let b = header_bytes(sent, padding, network_type, port, address) + rest;
    assert(b[0] == VERSION);
    assert(b.subrange(1, 17) =~= sent);
}

/// An address type byte that stands for no address type is refused as
/// `InvalidAddressType`; the decoder stops right behind that byte, whatever
/// follows it.
pub proof fn unknown_address_type_is_refused(
    credential: Seq<u8>,
    padding: Seq<u8>,
    network_type: NetworkType,
    port: u16,
    kind: u8,
    rest: Seq<u8>,
)
    requires
        credential.len() == 16,
        padding.len() <= 255,
        kind != ADDRESS_TYPE_IPV4,
        kind != ADDRESS_TYPE_DOMAIN,
        kind != ADDRESS_TYPE_IPV6,
    ensures
        parse_header(
            preamble(credential, padding, network_type, port) + seq![kind] + rest,
            credential,
        ) == rejected(
            ProtocolError::InvalidAddressType,
            preamble(credential, padding, network_type, port).len() as int + 1,
        ),
{
    let head = preamble(credential, padding, network_type, port);
    let tail = seq![kind] + rest;
    assert(head + seq![kind] + rest =~= head + tail);
    lemma_preamble_parses(credential, padding, network_type, port, tail);
}

} // verus!
