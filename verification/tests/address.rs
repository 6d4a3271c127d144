use ws_tunnel::address::{bracketed_ipv6_string, ipv4_string, push_ipv4, push_ipv6, split_groups};
use ws_tunnel::text::{push_decimal, push_hex};

fn ipv6_string(v: u128) -> String {
    let mut out = String::new();
    push_ipv6(&mut out, v);
    out
}

/// The same text, made in another way: one pass over the groups that
/// remembers the first longest run of zeros.
fn expected_ipv6(v: u128) -> String {
    let g: Vec<u16> = (0..8).map(|i| (v >> (112 - 16 * i)) as u16).collect();
    if g[..5].iter().all(|x| *x == 0) && g[5] == 0xffff {
        return format!("::ffff:{}.{}.{}.{}", g[6] >> 8, g[6] & 0xff, g[7] >> 8, g[7] & 0xff);
    }
    let (mut best_start, mut best_len, mut start, mut len) = (0, 0, 0, 0);
    for i in 0..8 {
        if g[i] == 0 {
            if len == 0 {
                start = i;
            }
            len += 1;
            if len > best_len {
                best_start = start;
                best_len = len;
            }
        } else {
            len = 0;
        }
    }
    let join = |part: &[u16]| {
        part.iter().map(|x| format!("{:x}", x)).collect::<Vec<String>>().join(":")
    };
    if best_len > 1 {
        format!("{}::{}", join(&g[..best_start]), join(&g[best_start + best_len..]))
    } else {
        join(&g)
    }
}

fn from_groups(g: [u16; 8]) -> u128 {
    let mut v: u128 = 0;
    for x in g {
        v = (v << 16) | x as u128;
    }
    v
}

#[test]
fn decimal_has_no_leading_zeros() {
    for n in 0..=255u8 {
        let mut out = String::from("x");
        push_decimal(&mut out, n);
        assert_eq!(out, format!("x{}", n));
    }
}

#[test]
fn hexadecimal_has_no_leading_zeros() {
    for n in [0u16, 1, 9, 10, 15, 16, 0xff, 0x100, 0xabc, 0xfff, 0x1000, 0xdb8, 0xffff] {
        let mut out = String::new();
        push_hex(&mut out, n);
        assert_eq!(out, format!("{:x}", n));
    }
}

#[test]
fn ipv4_is_dotted_decimal() {
    assert_eq!(ipv4_string(0x7f00_0001), "127.0.0.1");
    assert_eq!(ipv4_string(0), "0.0.0.0");
    assert_eq!(ipv4_string(u32::MAX), "255.255.255.255");
    assert_eq!(ipv4_string(0xc0a8_0164), "192.168.1.100");
    assert_eq!(ipv4_string(0x0102_0304), "1.2.3.4");
}

#[test]
fn ipv4_agrees_with_its_bytes() {
    let mut v: u32 = 1;
    for _ in 0..2000 {
        v = v.wrapping_mul(1_664_525).wrapping_add(1_013_904_223);
        let b = v.to_be_bytes();
        assert_eq!(ipv4_string(v), format!("{}.{}.{}.{}", b[0], b[1], b[2], b[3]));
    }
}

#[test]
fn ipv6_groups_are_split_in_order() {
    assert_eq!(
        split_groups(0x2001_0db8_0000_0000_0000_ff00_0042_8329),
        vec![0x2001, 0x0db8, 0, 0, 0, 0xff00, 0x0042, 0x8329]
    );
}

#[test]
fn an_address_is_appended_to_what_is_there() {
    let mut out = String::from("to ");
    push_ipv4(&mut out, 0x0a00_0001);
    out.push(' ');
    push_ipv6(&mut out, 0xabcd);
    assert_eq!(out, "to 10.0.0.1 ::abcd");
}

#[test]
fn ipv6_text_in_known_cases() {
    assert_eq!(ipv6_string(0), "::");
    assert_eq!(ipv6_string(1), "::1");
    assert_eq!(ipv6_string(from_groups([0x2001, 0xdb8, 0, 0, 0, 0, 0, 1])), "2001:db8::1");
    assert_eq!(ipv6_string(from_groups([0xfe80, 0, 0, 0, 0, 0, 0, 0])), "fe80::");
    assert_eq!(ipv6_string(from_groups([1, 2, 3, 4, 5, 6, 7, 8])), "1:2:3:4:5:6:7:8");
    // a single zero group is written out
    assert_eq!(ipv6_string(from_groups([1, 2, 3, 0, 5, 6, 7, 8])), "1:2:3:0:5:6:7:8");
    // of two runs of the same length the first is shortened
    assert_eq!(ipv6_string(from_groups([1, 0, 0, 2, 0, 0, 3, 4])), "1::2:0:0:3:4");
    // the longer run is shortened, wherever it stands
    assert_eq!(ipv6_string(from_groups([1, 0, 0, 2, 0, 0, 0, 3])), "1:0:0:2::3");
    assert_eq!(ipv6_string(from_groups([0, 0, 1, 0, 0, 0, 0, 0])), "0:0:1::");
    // an address that maps an IPv4 address
    assert_eq!(ipv6_string(0xffff_c000_0201), "::ffff:192.0.2.1");
    assert_eq!(ipv6_string(0xffff_0000_0000), "::ffff:0.0.0.0");
    // an address that only looks like one
    assert_eq!(ipv6_string(0xc000_0201), "::c000:201");
    assert_eq!(ipv6_string(0x1_ffff_c000_0201), "::1:ffff:c000:201");
    assert_eq!(ipv6_string(u128::MAX), "ffff:ffff:ffff:ffff:ffff:ffff:ffff:ffff");
}

#[test]
fn ipv6_is_put_in_brackets() {
    assert_eq!(bracketed_ipv6_string(1), "[::1]");
    assert_eq!(
        bracketed_ipv6_string(from_groups([0x2001, 0xdb8, 0, 0, 0, 0, 0, 1])),
        "[2001:db8::1]"
    );
}

#[test]
fn ipv6_agrees_with_a_one_pass_writer() {
    // every pattern of zero and non-zero groups
    for mask in 0..256u32 {
        let mut g = [0u16; 8];
        for i in 0..8 {
            if mask & (1 << i) != 0 {
                g[i] = 0x100 + i as u16;
            }
        }
        let v = from_groups(g);
        assert_eq!(ipv6_string(v), expected_ipv6(v));
    }
    let mut v: u128 = 7;
    for _ in 0..2000 {
        v = v.wrapping_mul(6_364_136_223_846_793_005).wrapping_add(1_442_695_040_888_963_407);
        let w = v ^ (v << 64);
        assert_eq!(ipv6_string(w), expected_ipv6(w));
        let mapped = 0xffff_0000_0000u128 | (w & 0xffff_ffff);
        assert_eq!(ipv6_string(mapped), expected_ipv6(mapped));
    }
}
