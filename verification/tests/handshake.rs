use ws_tunnel::error::ProtocolError;
use ws_tunnel::ext::{SliceReader, StreamExt};
use ws_tunnel::handshake::{read_handshake, same_bytes, ConnectRequest, Handshake};
use ws_tunnel::protocol::{
    NetworkType, ADDRESS_TYPE_DOMAIN, ADDRESS_TYPE_IPV4, ADDRESS_TYPE_IPV6, NETWORK_TYPE_TCP,
    NETWORK_TYPE_UDP, RESPONSE, VERSION,
};
use ws_tunnel::websocket::WebSocketStream;

const CREDENTIAL: [u8; 16] = [
    0xd3, 0x42, 0xd1, 0x1e, 0xd4, 0x24, 0x4a, 0x83, 0x9e, 0xf5, 0x8d, 0x2a, 0x11, 0x07, 0x60, 0x99,
];

fn header(credential: &[u8], padding: &[u8], network: u8, port: u16, address: &[u8]) -> Vec<u8> {
    let mut bytes = vec![VERSION];
    bytes.extend_from_slice(credential);
    bytes.push(padding.len() as u8);
    bytes.extend_from_slice(padding);
    bytes.push(network);
    bytes.extend_from_slice(&port.to_be_bytes());
    bytes.extend_from_slice(address);
    bytes
}

fn domain(name: &str) -> Vec<u8> {
    let mut bytes = vec![ADDRESS_TYPE_DOMAIN, name.len() as u8];
    bytes.extend_from_slice(name.as_bytes());
    bytes
}

/// Decodes `bytes` as all there is, and says how many bytes were taken.
fn decode(bytes: &[u8]) -> (Handshake, usize) {
    let mut reader = SliceReader::new(bytes, true);
    let handshake = read_handshake(&mut reader, &CREDENTIAL);
    (handshake, bytes.len() - reader.remaining())
}

fn request(network_type: NetworkType, port: u16, target_address: &str) -> Handshake {
    Handshake::Request(ConnectRequest {
        network_type,
        port,
        target_address: String::from(target_address),
    })
}

#[test]
fn constants_of_the_wire_format() {
    assert_eq!(VERSION, 0);
    assert_eq!(RESPONSE, [0, 0]);
    assert_eq!((NETWORK_TYPE_TCP, NETWORK_TYPE_UDP), (1, 2));
    assert_eq!((ADDRESS_TYPE_IPV4, ADDRESS_TYPE_DOMAIN, ADDRESS_TYPE_IPV6), (1, 2, 3));
    assert_eq!(NetworkType::from_byte(1), Some(NetworkType::Tcp));
    assert_eq!(NetworkType::from_byte(2), Some(NetworkType::Udp));
    assert_eq!(NetworkType::from_byte(0), None);
    assert_eq!(NetworkType::from_byte(3), None);
}

#[test]
fn end_to_end_header_with_a_domain() {
    let mut bytes = vec![0x00];
    bytes.extend_from_slice(&CREDENTIAL);
    bytes.extend_from_slice(&[0x00, 0x01, 0x00, 0x50, 0x02, 0x07]);
    bytes.extend_from_slice(b"example");
    let header_len = bytes.len();
    bytes.extend_from_slice(b"GET / HTTP/1.1\r\n");
    let (handshake, taken) = decode(&bytes);
    assert_eq!(handshake, request(NetworkType::Tcp, 80, "example"));
    assert_eq!(taken, header_len);
}

#[test]
fn header_with_an_ipv4_address() {
    let bytes = header(&CREDENTIAL, &[], NETWORK_TYPE_TCP, 443, &[ADDRESS_TYPE_IPV4, 192, 168, 1, 100]);
    let (handshake, taken) = decode(&bytes);
    assert_eq!(handshake, request(NetworkType::Tcp, 443, "192.168.1.100"));
    assert_eq!(taken, bytes.len());
}

#[test]
fn header_with_an_ipv6_address() {
    let mut address = vec![ADDRESS_TYPE_IPV6];
    address.extend_from_slice(&[0x20, 0x01, 0x0d, 0xb8, 0, 0, 0, 0, 0, 0, 0, 0, 0, 0, 0, 1]);
    let mut bytes = header(&CREDENTIAL, &[], NETWORK_TYPE_UDP, 53, &address);
    let header_len = bytes.len();
    bytes.extend_from_slice(&[1, 2, 3]);
    let (handshake, taken) = decode(&bytes);
    assert_eq!(handshake, request(NetworkType::Udp, 53, "[2001:db8::1]"));
    assert_eq!(taken, header_len);
}

#[test]
fn padding_is_skipped() {
    let padding = [0xaau8; 255];
    let bytes = header(&CREDENTIAL, &padding, NETWORK_TYPE_TCP, 8080, &domain("a.example.org"));
    let (handshake, taken) = decode(&bytes);
    assert_eq!(handshake, request(NetworkType::Tcp, 8080, "a.example.org"));
    assert_eq!(taken, bytes.len());
}

#[test]
fn port_zero_is_taken_as_it_is() {
    let bytes = header(&CREDENTIAL, &[], NETWORK_TYPE_TCP, 0, &domain("x"));
    assert_eq!(decode(&bytes).0, request(NetworkType::Tcp, 0, "x"));
}

#[test]
fn an_empty_domain_is_decoded() {
    let bytes = header(&CREDENTIAL, &[], NETWORK_TYPE_TCP, 1, &domain(""));
    assert_eq!(decode(&bytes), (request(NetworkType::Tcp, 1, ""), bytes.len()));
}

#[test]
fn a_domain_of_several_bytes_a_character() {
    let bytes = header(&CREDENTIAL, &[], NETWORK_TYPE_TCP, 1, &domain("bücher.example"));
    assert_eq!(decode(&bytes).0, request(NetworkType::Tcp, 1, "bücher.example"));
}

#[test]
fn any_other_version_is_invalid() {
    for version in 1..=255u8 {
        let mut bytes = header(&CREDENTIAL, &[], NETWORK_TYPE_TCP, 80, &domain("example"));
        bytes[0] = version;
        assert_eq!(decode(&bytes), (Handshake::Rejected(ProtocolError::InvalidVersion), 1));
    }
    // the version decides before anything else is there
    assert_eq!(decode(&[7]), (Handshake::Rejected(ProtocolError::InvalidVersion), 1));
}

#[test]
fn a_credential_that_differs_in_one_byte_is_unauthorized() {
    for i in 0..16 {
        for bit in 0..8 {
            let mut credential = CREDENTIAL;
            credential[i] ^= 1 << bit;
            let bytes = header(&credential, &[], NETWORK_TYPE_TCP, 80, &domain("example"));
            assert_eq!(decode(&bytes), (Handshake::Rejected(ProtocolError::Unauthorized), 17));
        }
    }
}

#[test]
fn a_relay_with_a_credential_of_another_length_accepts_nobody() {
    let bytes = header(&CREDENTIAL, &[], NETWORK_TYPE_TCP, 80, &domain("example"));
    let mut reader = SliceReader::new(&bytes, true);
    assert_eq!(
        read_handshake(&mut reader, &CREDENTIAL[..15]),
        Handshake::Rejected(ProtocolError::Unauthorized)
    );
}

#[test]
fn an_unknown_network_type_is_unsupported() {
    for network in [0u8, 3, 4, 0x7f, 0xff] {
        let bytes = header(&CREDENTIAL, &[9, 9], network, 80, &domain("example"));
        assert_eq!(decode(&bytes), (Handshake::Rejected(ProtocolError::UnsupportedNetwork), 21));
    }
}

#[test]
fn an_unknown_address_type_is_refused_and_nothing_behind_it_is_taken() {
    for kind in [0u8, 4, 5, 0x80, 0xff] {
        let mut bytes = header(&CREDENTIAL, &[], NETWORK_TYPE_TCP, 80, &[kind]);
        let stop = bytes.len();
        bytes.extend_from_slice(&[1, 2, 3, 4, 5, 6, 7, 8]);
        assert_eq!(decode(&bytes), (Handshake::Rejected(ProtocolError::InvalidAddressType), stop));
        assert_eq!(
            decode(&bytes[..stop]),
            (Handshake::Rejected(ProtocolError::InvalidAddressType), stop)
        );
    }
}

#[test]
fn a_domain_that_is_not_utf8_is_an_invalid_encoding() {
    let bytes = header(
        &CREDENTIAL,
        &[],
        NETWORK_TYPE_TCP,
        80,
        &[ADDRESS_TYPE_DOMAIN, 3, b'a', 0xff, b'b'],
    );
    assert_eq!(decode(&bytes), (Handshake::Rejected(ProtocolError::InvalidEncoding), bytes.len()));
}

#[test]
fn every_proper_prefix_of_a_header_is_truncated() {
    let mut address = vec![ADDRESS_TYPE_IPV6];
    address.extend_from_slice(&[0xfe, 0x80, 0, 0, 0, 0, 0, 0, 0, 0, 0, 0, 0, 0, 0, 2]);
    let headers = [
        header(&CREDENTIAL, &[1, 2, 3], NETWORK_TYPE_TCP, 80, &domain("example")),
        header(&CREDENTIAL, &[], NETWORK_TYPE_UDP, 53, &[ADDRESS_TYPE_IPV4, 1, 1, 1, 1]),
        header(&CREDENTIAL, &[0; 7], NETWORK_TYPE_TCP, 22, &address),
    ];
    for bytes in headers {
        for len in 0..bytes.len() {
            let (handshake, taken) = decode(&bytes[..len]);
            assert_eq!(handshake, Handshake::Truncated);
            assert!(taken <= len);
        }
        assert!(matches!(decode(&bytes), (Handshake::Request(_), _)));
    }
}

#[test]
fn a_header_is_decoded_straight_from_a_stream() {
    let mut bytes = header(&CREDENTIAL, &[], NETWORK_TYPE_TCP, 80, &domain("example"));
    bytes.extend_from_slice(b"payload");
    let mut stream = WebSocketStream::new(Some(bytes));
    assert_eq!(read_handshake(&mut stream, &CREDENTIAL), request(NetworkType::Tcp, 80, "example"));
    assert_eq!(stream.pending(), b"payload");
    assert_eq!(stream.read_bytes(7), Ok(b"payload".to_vec()));
}

#[test]
fn same_bytes_compares_length_and_content() {
    assert!(same_bytes(&[], &[]));
    assert!(same_bytes(&[1, 2, 3], &[1, 2, 3]));
    assert!(!same_bytes(&[1, 2, 3], &[1, 2, 4]));
    assert!(!same_bytes(&[1, 2, 3], &[1, 2]));
    assert!(!same_bytes(&[], &[0]));
}

#[test]
fn many_headers_decode_to_what_was_encoded() {
    let mut seed: u64 = 0x2545_f491_4f6c_dd1d;
    let mut next = move || {
        seed ^= seed << 13;
        seed ^= seed >> 7;
        seed ^= seed << 17;
        seed
    };
    for round in 0..600 {
        let padding: Vec<u8> = (0..next() % 256).map(|_| next() as u8).collect();
        let (network, network_type) = if next() % 2 == 0 {
            (NETWORK_TYPE_TCP, NetworkType::Tcp)
        } else {
            (NETWORK_TYPE_UDP, NetworkType::Udp)
        };
        let port = next() as u16;
        let (address, text) = match round % 3 {
            0 => {
                let v = next() as u32;
                let mut field = vec![ADDRESS_TYPE_IPV4];
                field.extend_from_slice(&v.to_be_bytes());
                (field, ws_tunnel::address::ipv4_string(v))
            }
            1 => {
                let name: String =
                    (0..next() % 64).map(|_| char::from(b'a' + (next() % 26) as u8)).collect();
                (domain(&name), name)
            }
            _ => {
                let v = (next() as u128) << 64 | next() as u128;
                let mut field = vec![ADDRESS_TYPE_IPV6];
                field.extend_from_slice(&v.to_be_bytes());
                (field, ws_tunnel::address::bracketed_ipv6_string(v))
            }
        };
        let mut bytes = header(&CREDENTIAL, &padding, network, port, &address);
        let header_len = bytes.len();
        bytes.extend((0..next() % 32).map(|_| next() as u8));
        assert_eq!(decode(&bytes), (request(network_type, port, &text), header_len));
    }
}
