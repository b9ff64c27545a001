//! Text forms of hardware and network addresses.

use vstd::prelude::*;
use crate::text::{dec, hex, hex_digit, hex_padded, push_char, push_dec, push_hex, push_hex_padded};

verus! {

/// `aa:bb:cc:dd:ee:ff`: six bytes as two lower-case hex digits each.
pub open spec fn mac_text(m: Seq<u8>) -> Seq<char> {
    hex_padded(m[0] as nat, 2) + seq![':'] + hex_padded(m[1] as nat, 2) + seq![':'] + hex_padded(
        m[2] as nat,
        2,
    ) + seq![':'] + hex_padded(m[3] as nat, 2) + seq![':'] + hex_padded(m[4] as nat, 2) + seq![
        ':',
    ] + hex_padded(m[5] as nat, 2)
}

/// Dotted-decimal form of an IPv4 address held as a big-endian `u32`.
pub open spec fn ipv4_text(ip: u32) -> Seq<char> {
    dec((ip / 16777216) as nat) + seq!['.'] + dec(((ip / 65536) % 256) as nat) + seq!['.'] + dec(
        ((ip / 256) % 256) as nat,
    ) + seq!['.'] + dec((ip % 256) as nat)
}

/// The eight 16-bit groups of an IPv6 address.
pub open spec fn ipv6_groups(a: Seq<u8>) -> Seq<u16> {
    Seq::new(8, |i: int| (a[2 * i] * 256 + a[2 * i + 1]) as u16)
}

/// How many zero groups follow one another from position `i` on.
pub open spec fn zero_run(g: Seq<u16>, i: int) -> nat
    decreases g.len() - i,
{
    if 0 <= i < g.len() && g[i] == 0 {
        1 + zero_run(g, i + 1)
    } else {
        0
    }
}

/// Scans positions `i..` for a longer run of zero groups than the best
/// `(start, length)` found so far; on a tie the earlier run stays.
pub open spec fn longest_zero_run_from(g: Seq<u16>, i: int, start: int, len: nat) -> (int, nat)
    decreases g.len() - i,
{
    if i < 0 || i >= g.len() {
        (start, len)
    } else if zero_run(g, i) > len {
        longest_zero_run_from(g, i + 1, i, zero_run(g, i))
    } else {
        longest_zero_run_from(g, i + 1, start, len)
    }
}

/// The leftmost longest run of zero groups, as `(start, length)`.
pub open spec fn longest_zero_run(g: Seq<u16>) -> (int, nat) {
    longest_zero_run_from(g, 0, 0, 0)
}

/// Groups `a..b` in lower-case hex without leading zeros, separated by `:`.
pub open spec fn join_groups(g: Seq<u16>, a: int, b: int) -> Seq<char>
    decreases b - a,
{
    if b <= a {
        seq![]
    } else if b == a + 1 {
        hex(g[a] as nat)
    } else {
        join_groups(g, a, b - 1) + seq![':'] + hex(g[b - 1] as nat)
    }
}

/// The text form of an IPv6 address (RFC 5952): groups in lower-case hex
/// without leading zeros, and the leftmost longest run of two or more zero
/// groups replaced by `::`.
pub open spec fn ipv6_text(a: Seq<u8>) -> Seq<char> {
    let g = ipv6_groups(a);
    let (s, l) = longest_zero_run(g);
    if l >= 2 {
        join_groups(g, 0, s) + seq![':', ':'] + join_groups(g, s + l, 8)
    } else {
        join_groups(g, 0, 8)
    }
}

/// Appends `aa:bb:cc:dd:ee:ff`.
pub fn push_mac(out: &mut String, m: &[u8; 6])
    ensures
        final(out)@ == old(out)@ + mac_text(m@),
{
    push_hex_padded(out, m[0] as u64, 2);
    push_char(out, ':');
    push_hex_padded(out, m[1] as u64, 2);
    push_char(out, ':');
    push_hex_padded(out, m[2] as u64, 2);
    push_char(out, ':');
    push_hex_padded(out, m[3] as u64, 2);
    push_char(out, ':');
    push_hex_padded(out, m[4] as u64, 2);
    push_char(out, ':');
    push_hex_padded(out, m[5] as u64, 2);
    assert(out@ =~= old(out)@ + mac_text(m@));
}

/// Appends the dotted-decimal form of `ip`.
pub fn push_ipv4(out: &mut String, ip: u32)
    ensures
        final(out)@ == old(out)@ + ipv4_text(ip),
{
    push_dec(out, (ip / 16777216) as u64);
    push_char(out, '.');
    push_dec(out, ((ip / 65536) % 256) as u64);
    push_char(out, '.');
    push_dec(out, ((ip / 256) % 256) as u64);
    push_char(out, '.');
    push_dec(out, (ip % 256) as u64);
    assert(out@ =~= old(out)@ + ipv4_text(ip));
}

fn groups_of(a: &[u8; 16]) -> (g: Vec<u16>)
    ensures
        g@ == ipv6_groups(a@),
{
    let mut g: Vec<u16> = Vec::new();
    let mut i: usize = 0;
    while i < 8
        invariant
            i <= 8,
            a@.len() == 16,
            g@.len() == i,
            forall|k: int| 0 <= k < i ==> g@[k] == ipv6_groups(a@)[k],
        decreases 8 - i,
    {
        g.push((a[2 * i] as u16) * 256 + a[2 * i + 1] as u16);
        i = i + 1;
    }
    assert(g@ =~= ipv6_groups(a@));
    g
}

fn zero_run_at(g: &Vec<u16>, i: usize) -> (r: usize)
    requires
        i <= g@.len(),
    ensures
        r == zero_run(g@, i as int),
        i + r <= g@.len(),
    decreases g@.len() - i,
{
    if i < g.len() && g[i] == 0 {
        1 + zero_run_at(g, i + 1)
    } else {
        0
    }
}

fn longest_run(g: &Vec<u16>) -> (r: (usize, usize))
    ensures
        r.0 as int == longest_zero_run(g@).0,
        r.1 as nat == longest_zero_run(g@).1,
        r.0 + r.1 <= g@.len(),
{
    let mut start: usize = 0;
    let mut len: usize = 0;
    let mut i: usize = 0;
    while i < g.len()
        invariant
            i <= g@.len(),
            start + len <= g@.len(),
            longest_zero_run_from(g@, i as int, start as int, len as nat) == longest_zero_run(g@),
        decreases g@.len() - i,
    {
        let run = zero_run_at(g, i);
        if run > len {
            start = i;
            len = run;
        }
        i = i + 1;
    }
    (start, len)
}

fn push_groups(out: &mut String, g: &Vec<u16>, a: usize, b: usize)
    requires
        a <= b <= g@.len(),
    ensures
        final(out)@ == old(out)@ + join_groups(g@, a as int, b as int),
{
    let mut k: usize = a;
    while k < b
        invariant
            a <= k <= b <= g@.len(),
            out@ == old(out)@ + join_groups(g@, a as int, k as int),
        decreases b - k,
    {
        if k > a {
            push_char(out, ':');
        }
        push_hex(out, g[k] as u64);
        assert(out@ =~= old(out)@ + join_groups(g@, a as int, k + 1));
        k = k + 1;
    }
}

/// Appends the RFC 5952 text form of an IPv6 address.
pub fn push_ipv6(out: &mut String, a: &[u8; 16])
    ensures
        final(out)@ == old(out)@ + ipv6_text(a@),
{
    let g = groups_of(a);
    let (s, l) = longest_run(&g);
    if l >= 2 {
        push_groups(out, &g, 0, s);
        push_char(out, ':');
        push_char(out, ':');
        push_groups(out, &g, s + l, 8);
        assert(out@ =~= old(out)@ + ipv6_text(a@));
    } else {
        push_groups(out, &g, 0, 8);
    }
}

proof fn lemma_scan_keeps_leftmost_longest(g: Seq<u16>, i: int, start: int, len: nat)
    requires
        0 <= i <= g.len(),
        forall|j: int| 0 <= j < i ==> zero_run(g, j) <= len,
        len > 0 ==> 0 <= start < i && zero_run(g, start) == len,
        len > 0 ==> forall|j: int| 0 <= j < start ==> zero_run(g, j) < len,
    ensures
        ({
            let (s, l) = longest_zero_run_from(g, i, start, len);
            &&& forall|j: int| 0 <= j < g.len() ==> zero_run(g, j) <= l
            &&& l > 0 ==> 0 <= s < g.len() && zero_run(g, s) == l
            &&& l > 0 ==> forall|j: int| 0 <= j < s ==> zero_run(g, j) < l
            &&& l == 0 ==> s == start
        }),
    decreases g.len() - i,
{
    if i < g.len() {
        if zero_run(g, i) > len {
            lemma_scan_keeps_leftmost_longest(g, i + 1, i, zero_run(g, i));
        } else {
            lemma_scan_keeps_leftmost_longest(g, i + 1, start, len);
        }
    }
}

/// The run of zero groups that the text form of an IPv6 address replaces by
/// `::` is the longest one, and of the longest ones the leftmost: no run is
/// longer, and every run that starts before it is shorter.
pub proof fn law_compressed_run_is_leftmost_longest(a: Seq<u8>)
    requires
        a.len() == 16,
    ensures
        ({
            let g = ipv6_groups(a);
            let (s, l) = longest_zero_run(g);
            &&& forall|j: int| 0 <= j < 8 ==> zero_run(g, j) <= l
            &&& l > 0 ==> 0 <= s < 8 && zero_run(g, s) == l
            &&& l > 0 ==> forall|j: int| 0 <= j < s ==> zero_run(g, j) < l
            &&& l == 0 ==> forall|j: int| 0 <= j < 8 ==> g[j] != 0
        }),
{
    let g = ipv6_groups(a);
    lemma_scan_keeps_leftmost_longest(g, 0, 0, 0);
    let (s, l) = longest_zero_run(g);
    if l == 0 {
        assert forall|j: int| 0 <= j < 8 implies g[j] != 0 by {
            if g[j] == 0 {
                assert(zero_run(g, j) >= 1);
            }
        }
    }
}

/// Each byte of a MAC address shows as two lower-case hex digits (high
/// nibble first) at positions `3i` and `3i + 1`, with a `:` after every byte
/// but the last: 17 characters in all.
pub proof fn law_mac_text_positions(m: Seq<u8>)
    requires
        m.len() == 6,
    ensures
        mac_text(m).len() == 17,
        forall|i: int|
            0 <= i < 6 ==> mac_text(m)[3 * i] == hex_digit((#[trigger] m[i] / 16) as nat)
                && mac_text(m)[3 * i + 1] == hex_digit((m[i] % 16) as nat),
        forall|i: int| 0 <= i < 5 ==> #[trigger] mac_text(m)[3 * i + 2] == ':',
{
    assert forall|k: int| 0 <= k < 6 implies hex_padded(m[k] as nat, 2) == seq![
        hex_digit((m[k] / 16) as nat),
        hex_digit((m[k] % 16) as nat),
    ] by {
        let n = m[k] as nat;
        assert(hex_padded((n / 16 / 16) as nat, 0) == Seq::<char>::empty());
        assert((n / 16) % 16 == n / 16);
        assert(hex_padded(n / 16, 1) == hex_padded((n / 16 / 16) as nat, 0).push(hex_digit((n / 16) % 16)));
        assert(hex_padded(n, 2) == hex_padded(n / 16, 1).push(hex_digit(n % 16)));
        assert(hex_padded(n, 2) =~= seq![hex_digit(n / 16), hex_digit(n % 16)]);
    }
    let t = mac_text(m);
    assert forall|i: int| 0 <= i < 6 implies t[3 * i] == hex_digit((#[trigger] m[i] / 16) as nat)
        && t[3 * i + 1] == hex_digit((m[i] % 16) as nat) by {
        assert(hex_padded(m[i] as nat, 2) == seq![
            hex_digit((m[i] / 16) as nat),
            hex_digit((m[i] % 16) as nat),
        ]);
    }
}

/// The dotted-decimal text of an address made of four bytes `a.b.c.d`
/// (most significant first) is the decimal numerals of those bytes,
/// separated by dots.
pub proof fn law_ipv4_text_octets(a: u8, b: u8, c: u8, d: u8)
    ensures
        ipv4_text((((a as int * 256 + b as int) * 256 + c as int) * 256 + d as int) as u32) == dec(
            a as nat,
        ) + seq!['.'] + dec(b as nat) + seq!['.'] + dec(c as nat) + seq!['.'] + dec(d as nat),
{
    let ip = (((a as int * 256 + b as int) * 256 + c as int) * 256 + d as int) as u32;
    assert(ip as int == ((a as int * 256 + b as int) * 256 + c as int) * 256 + d as int);
    assert(ip / 16777216 == a as int) by (nonlinear_arith)
        requires
            ip as int == ((a as int * 256 + b as int) * 256 + c as int) * 256 + d as int,
            a < 256,
            b < 256,
            c < 256,
            d < 256,
    ;
    assert((ip / 65536) % 256 == b as int) by (nonlinear_arith)
        requires
            ip as int == ((a as int * 256 + b as int) * 256 + c as int) * 256 + d as int,
            a < 256,
            b < 256,
            c < 256,
            d < 256,
    ;
    assert((ip / 256) % 256 == c as int) by (nonlinear_arith)
        requires
            ip as int == ((a as int * 256 + b as int) * 256 + c as int) * 256 + d as int,
            a < 256,
            b < 256,
            c < 256,
            d < 256,
    ;
    assert(ip % 256 == d as int) by (nonlinear_arith)
        requires
            ip as int == ((a as int * 256 + b as int) * 256 + c as int) * 256 + d as int,
            a < 256,
            b < 256,
            c < 256,
            d < 256,
    ;
}

} // verus!
