//! IP addresses written as text that a connection can be opened to.
//!
//! An IPv4 address is written as four decimal numbers with dots between
//! them. An IPv6 address is written as eight groups of hexadecimal digits
//! with colons between them, in lower case and without leading zeros; the
//! first longest run of two or more zero groups is written as `::`; an
//! address that maps an IPv4 address is written as `::ffff:` and the IPv4
//! address.

use crate::text::{decimal_text, hex_text, push_decimal, push_hex};
use vstd::prelude::*;

verus! {

/// The four bytes of an IPv4 address, the first of them first.
pub open spec fn octets(v: u32) -> Seq<u8> {
    seq![
        (v / 0x100_0000) as u8,
        (v / 0x1_0000 % 0x100) as u8,
        (v / 0x100 % 0x100) as u8,
        (v % 0x100) as u8,
    ]
}

/// An IPv4 address in dotted decimal.
pub open spec fn ipv4_text(v: u32) -> Seq<char> {
    let o = octets(v);
    decimal_text(o[0] as nat) + seq!['.'] + decimal_text(o[1] as nat) + seq!['.'] + decimal_text(
        o[2] as nat,
    ) + seq!['.'] + decimal_text(o[3] as nat)
}

/// The eight 16-bit groups of an IPv6 address, the first of them first.
pub open spec fn groups(v: u128) -> Seq<u16> {
    seq![
        (v / 0x1_0000_0000_0000_0000_0000_0000_0000) as u16,
        (v / 0x1_0000_0000_0000_0000_0000_0000 % 0x1_0000) as u16,
        (v / 0x1_0000_0000_0000_0000_0000 % 0x1_0000) as u16,
        (v / 0x1_0000_0000_0000_0000 % 0x1_0000) as u16,
        (v / 0x1_0000_0000_0000 % 0x1_0000) as u16,
        (v / 0x1_0000_0000 % 0x1_0000) as u16,
        (v / 0x1_0000 % 0x1_0000) as u16,
        (v % 0x1_0000) as u16,
    ]
}

/// How many groups from index `i` on are zero without a gap.
pub open spec fn zero_run(g: Seq<u16>, i: int) -> nat
    decreases g.len() - i,
{
    if 0 <= i < g.len() && g[i] == 0 {
        1 + zero_run(g, i + 1)
    } else {
        0
    }
}

/// Among the indices below `upto`, the first at which the longest run of
/// zero groups starts.
pub open spec fn longest_run_start(g: Seq<u16>, upto: int) -> int
    decreases upto,
{
    if upto <= 0 {
        0
    } else {
        let best = longest_run_start(g, upto - 1);
        if zero_run(g, upto - 1) > zero_run(g, best) {
            upto - 1
        } else {
            best
        }
    }
}

/// Groups in hexadecimal with colons between them.
pub open spec fn groups_text(g: Seq<u16>) -> Seq<char>
    decreases g.len(),
{
    if g.len() == 0 {
        Seq::<char>::empty()
    } else if g.len() == 1 {
        hex_text(g[0] as nat)
    } else {
        groups_text(g.drop_last()) + seq![':'] + hex_text(g.last() as nat)
    }
}

/// Whether an IPv6 address maps an IPv4 address.
pub open spec fn maps_ipv4(v: u128) -> bool {
    v / 0x1_0000_0000 == 0xffff
}

/// An IPv6 address as text, without brackets.
pub open spec fn ipv6_text(v: u128) -> Seq<char> {
    let g = groups(v);
    let start = longest_run_start(g, 8);
    let len = zero_run(g, start) as int;
    if maps_ipv4(v) {
        seq![':', ':', 'f', 'f', 'f', 'f', ':'] + ipv4_text((v % 0x1_0000_0000) as u32)
    } else if len >= 2 {
        groups_text(g.take(start)) + seq![':', ':'] + groups_text(g.skip(start + len))
    } else {
        groups_text(g)
    }
}

/// An IPv6 address as text between brackets, so that a port can follow it.
pub open spec fn bracketed_ipv6_text(v: u128) -> Seq<char> {
    seq!['['] + ipv6_text(v) + seq![']']
}

/// Appends an IPv4 address in dotted decimal.
pub fn push_ipv4(out: &mut String, v: u32)
    ensures
        final(out)@ == old(out)@ + ipv4_text(v),
{
    let ghost before = out@;
    push_decimal(out, (v / 0x100_0000) as u8);
    out.push('.');
    push_decimal(out, (v / 0x1_0000 % 0x100) as u8);
    out.push('.');
    push_decimal(out, (v / 0x100 % 0x100) as u8);
    out.push('.');
    push_decimal(out, (v % 0x100) as u8);
    assert(out@ =~= before + ipv4_text(v));
}

/// An IPv4 address in dotted decimal.
pub fn ipv4_string(v: u32) -> (text: String)
    ensures
        text@ == ipv4_text(v),
{
    let mut out = String::new();
    push_ipv4(&mut out, v);
    assert(out@ =~= ipv4_text(v));
    out
}

/// The eight groups of an IPv6 address.
pub fn split_groups(v: u128) -> (g: Vec<u16>)
    ensures
        g@ == groups(v),
{
    let g = vec![
        (v / 0x1_0000_0000_0000_0000_0000_0000_0000) as u16,
        (v / 0x1_0000_0000_0000_0000_0000_0000 % 0x1_0000) as u16,
        (v / 0x1_0000_0000_0000_0000_0000 % 0x1_0000) as u16,
        (v / 0x1_0000_0000_0000_0000 % 0x1_0000) as u16,
        (v / 0x1_0000_0000_0000 % 0x1_0000) as u16,
        (v / 0x1_0000_0000 % 0x1_0000) as u16,
        (v / 0x1_0000 % 0x1_0000) as u16,
        (v % 0x1_0000) as u16,
    ];
    assert(g@ =~= groups(v));
    g
}

/// How many groups from index `i` on are zero without a gap.
pub(crate) fn count_zero_run(g: &[u16], i: usize) -> (n: usize)
    requires
        i <= g@.len(),
    ensures
        n == zero_run(g@, i as int),
        i + n <= g@.len(),
{
    let mut j: usize = i;
    while j < g.len() && g[j] == 0
        invariant
            i <= j <= g@.len(),
            zero_run(g@, i as int) == (j - i) + zero_run(g@, j as int),
        decreases g@.len() - j,
    {
        j = j + 1;
    }
    j - i
}

/// Appends the groups from index `from` up to `to`, with colons between
/// them.
pub(crate) fn push_groups(out: &mut String, g: &[u16], from: usize, to: usize)
    requires
        from <= to <= g@.len(),
    ensures
        final(out)@ == old(out)@ + groups_text(g@.subrange(from as int, to as int)),
{
    let ghost before = out@;
    let mut i: usize = from;
    assert(g@.subrange(from as int, from as int) =~= Seq::<u16>::empty());
    assert(out@ =~= before + groups_text(g@.subrange(from as int, i as int)));
    while i < to
        invariant
            from <= i <= to <= g@.len(),
            out@ == before + groups_text(g@.subrange(from as int, i as int)),
        decreases to - i,
    {
        let ghost sofar = g@.subrange(from as int, i as int);
        let ghost next = g@.subrange(from as int, i + 1);
        proof {
            assert(next.drop_last() =~= sofar);
            assert(next.last() == g@[i as int]);
        }
        if i > from {
            out.push(':');
        }
        push_hex(out, g[i]);
        assert(out@ =~= before + groups_text(next));
        i = i + 1;
    }
}

/// An IPv6 address as text, without brackets.
pub fn push_ipv6(out: &mut String, v: u128)
    ensures
        final(out)@ == old(out)@ + ipv6_text(v),
{
    let ghost before = out@;
    if v / 0x1_0000_0000 == 0xffff {
        out.push(':');
        out.push(':');
        out.push('f');
        out.push('f');
        out.push('f');
        out.push('f');
        out.push(':');
        push_ipv4(out, (v % 0x1_0000_0000) as u32);
        assert(out@ =~= before + ipv6_text(v));
        return ;
    }
    let g = split_groups(v);
    let mut start: usize = 0;
    let mut len: usize = count_zero_run(g.as_slice(), 0);
    let mut i: usize = 1;
    proof {
        reveal_with_fuel(longest_run_start, 2);
    }
    while i < 8
        invariant
            1 <= i <= 8,
            g@.len() == 8,
            start < i,
            start == longest_run_start(g@, i as int),
            len == zero_run(g@, start as int),
            start + len <= 8,
        decreases 8 - i,
    {
        let n = count_zero_run(g.as_slice(), i);
        if n > len {
            start = i;
            len = n;
        }
        i = i + 1;
    }
    if len >= 2 {
        push_groups(out, g.as_slice(), 0, start);
        out.push(':');
        out.push(':');
        push_groups(out, g.as_slice(), start + len, 8);
        proof {
            assert(g@.subrange(0, start as int) =~= g@.take(start as int));
            assert(g@.subrange(start + len, 8) =~= g@.skip(start + len));
            assert(out@ =~= before + ipv6_text(v));
        }
    } else {
        push_groups(out, g.as_slice(), 0, 8);
        proof {
            assert(g@.subrange(0, 8) =~= g@);
            assert(out@ =~= before + ipv6_text(v));
        }
    }
}

/// An IPv6 address as text between brackets.
pub fn bracketed_ipv6_string(v: u128) -> (text: String)
    ensures
        text@ == bracketed_ipv6_text(v),
{
    let mut out = String::new();
    out.push('[');
    push_ipv6(&mut out, v);
    out.push(']');
    assert(out@ =~= bracketed_ipv6_text(v));
    out
}

} // verus!
