//! Addresses as plain integers, and their textual forms.
use vstd::prelude::*;
use vstd::string::StringExecFns;
use vstd::arithmetic::div_mod::{
    lemma_div_denominator,
    lemma_fundamental_div_mod_converse,
    lemma_mod_breakdown,
    lemma_mod_mod,
    lemma_mod_pos_bound,
};
use crate::text::{decimal, hex_digit, hex_pair, push_decimal, push_hex_pair, push_nibbles_reversed};

verus! {

/// An IP address: IPv4 as its 32-bit value, IPv6 as its 128-bit value
/// (most significant byte first on the wire).
#[derive(Clone, Copy, Debug, PartialEq, Eq, Structural)]
pub enum IpAddress {
    V4(u32),
    V6(u128),
}

/// A link-layer (MAC) address, its six octets in transmission order.
#[derive(Clone, Copy, Debug, PartialEq, Eq, Structural)]
pub struct MacAddress(pub u8, pub u8, pub u8, pub u8, pub u8, pub u8);

/// Reverse-zone labels of the `n` least significant octets of `v`, least
/// significant first, each in decimal and followed by a dot.
pub open spec fn v4_labels(v: int, n: nat) -> Seq<char>
    decreases n,
{
    if n == 0 {
        Seq::empty()
    } else {
        decimal((v % 256) as u8) + seq!['.'] + v4_labels(v / 256, (n - 1) as nat)
    }
}

/// Reverse-zone labels of the `n` least significant octets of `v`: nibbles
/// from least to most significant, each a hex digit followed by a dot.
pub open spec fn v6_labels(v: int, n: nat) -> Seq<char>
    decreases n,
{
    if n == 0 {
        Seq::empty()
    } else {
        seq![hex_digit((v % 256) % 16), '.', hex_digit((v % 256) / 16), '.'] + v6_labels(
            v / 256,
            (n - 1) as nat,
        )
    }
}

/// The reverse-lookup domain name of an address: the four octets of an IPv4
/// address in reverse order under `in-addr.arpa`, the 32 nibbles of an IPv6
/// address in reverse order under `ip6.arpa`.
pub open spec fn arpa_name_of(ip: IpAddress) -> Seq<char> {
    match ip {
        IpAddress::V4(v) => v4_labels(v as int, 4) + "in-addr.arpa"@,
        IpAddress::V6(v) => v6_labels(v as int, 16) + "ip6.arpa"@,
    }
}

/// Dotted-decimal text of an IPv4 address.
pub open spec fn dotted(v: u32) -> Seq<char> {
    decimal((v / 0x1000000) as u8) + seq!['.'] + decimal(((v / 0x10000) % 0x100) as u8)
        + seq!['.'] + decimal(((v / 0x100) % 0x100) as u8) + seq!['.'] + decimal(
        (v % 0x100) as u8,
    )
}

/// Colon-separated lower-case hexadecimal text of a MAC address.
pub open spec fn mac_text(m: MacAddress) -> Seq<char> {
    hex_pair(m.0) + seq![':'] + hex_pair(m.1) + seq![':'] + hex_pair(m.2) + seq![':'] + hex_pair(
        m.3,
    ) + seq![':'] + hex_pair(m.4) + seq![':'] + hex_pair(m.5)
}

/// Builds the reverse-lookup domain name of `ip`.
pub fn arpa_name(ip: IpAddress) -> (r: String)
    ensures
        r@ == arpa_name_of(ip),
{
    let mut s = String::new();
    proof {
        reveal_strlit(".");
    }
    match ip {
        IpAddress::V4(x) => {
            let mut v: u32 = x;
            let mut i: usize = 0;
            while i < 4
                invariant
                    i <= 4,
                    s@ + v4_labels(v as int, (4 - i) as nat) == v4_labels(x as int, 4),
                decreases 4 - i,
            {
                let ghost s0 = s@;
                proof {
                    reveal_strlit(".");
                }
                push_decimal(&mut s, (v % 256) as u8);
                s.append(".");
                let ghost before = v;
                v = v / 256;
                proof {
                    assert(v4_labels(before as int, (4 - i) as nat) == decimal((before % 256) as u8)
                        + seq!['.'] + v4_labels(v as int, (4 - i - 1) as nat));
                    assert(s@ =~= s0 + (decimal((before % 256) as u8) + seq!['.']));
                    assert(s@ + v4_labels(v as int, (4 - i - 1) as nat) =~= s0 + v4_labels(
                        before as int,
                        (4 - i) as nat,
                    ));
                }
                i = i + 1;
            }
            s.append("in-addr.arpa");
            assert(s@ =~= arpa_name_of(ip));
        },
        IpAddress::V6(x) => {
            let mut v: u128 = x;
            let mut i: usize = 0;
            while i < 16
                invariant
                    i <= 16,
                    s@ + v6_labels(v as int, (16 - i) as nat) == v6_labels(x as int, 16),
                decreases 16 - i,
            {
                let ghost s0 = s@;
                proof {
                    reveal_strlit(".");
                }
                push_nibbles_reversed(&mut s, (v % 256) as u8);
                s.append(".");
                let ghost before = v;
                v = v / 256;
                proof {
                    assert(v6_labels(before as int, (16 - i) as nat) == seq![
                        hex_digit((before as int % 256) % 16),
                        '.',
                        hex_digit((before as int % 256) / 16),
                        '.',
                    ] + v6_labels(v as int, (16 - i - 1) as nat));
                    assert(s@ + v6_labels(v as int, (16 - i - 1) as nat) =~= s0 + v6_labels(
                        before as int,
                        (16 - i) as nat,
                    ));
                }
                i = i + 1;
            }
            s.append("ip6.arpa");
            assert(s@ =~= arpa_name_of(ip));
        },
    }
    s
}

/// Dotted-decimal text of an IPv4 address.
pub fn dotted_text(v: u32) -> (r: String)
    ensures
        r@ == dotted(v),
{
    let mut s = String::new();
    proof {
        reveal_strlit(".");
    }
    push_decimal(&mut s, (v / 0x1000000) as u8);
    s.append(".");
    push_decimal(&mut s, ((v / 0x10000) % 0x100) as u8);
    s.append(".");
    push_decimal(&mut s, ((v / 0x100) % 0x100) as u8);
    s.append(".");
    push_decimal(&mut s, (v % 0x100) as u8);
    assert(s@ =~= dotted(v));
    s
}

impl MacAddress {
    /// Colon-separated lower-case hexadecimal text, as `aa:bb:cc:dd:ee:ff`.
    pub fn text(&self) -> (r: String)
        ensures
            r@ == mac_text(*self),
    {
        let mut s = String::new();
        proof {
            reveal_strlit(":");
        }
        push_hex_pair(&mut s, self.0);
        s.append(":");
        push_hex_pair(&mut s, self.1);
        s.append(":");
        push_hex_pair(&mut s, self.2);
        s.append(":");
        push_hex_pair(&mut s, self.3);
        s.append(":");
        push_hex_pair(&mut s, self.4);
        s.append(":");
        push_hex_pair(&mut s, self.5);
        assert(s@ =~= mac_text(*self));
        s
    }
}

spec fn radix_bound(n: nat) -> int
    decreases n,
{
    if n == 0 {
        1
    } else {
        256 * radix_bound((n - 1) as nat)
    }
}

proof fn lemma_decimal_shape(b: u8)
    ensures
        1 <= decimal(b).len() <= 3,
        forall|i: int| 0 <= i < decimal(b).len() ==> decimal(b)[i] != '.',
{
}

proof fn lemma_hex_digit_injective(d1: int, d2: int)
    requires
        0 <= d1 < 16,
        0 <= d2 < 16,
        hex_digit(d1) == hex_digit(d2),
    ensures
        d1 == d2,
{
}

proof fn lemma_decimal_injective(a: u8, b: u8)
    requires
        decimal(a) == decimal(b),
    ensures
        a == b,
{
    let (x, y) = (a as int, b as int);
    assert(decimal(a).len() == decimal(b).len());
    assert(decimal(a).len() == if x < 10 { 1int } else if x < 100 { 2int } else { 3int });
    assert(decimal(b).len() == if y < 10 { 1int } else if y < 100 { 2int } else { 3int });
    assert(x == 100 * (x / 100) + 10 * ((x / 10) % 10) + x % 10);
    assert(y == 100 * (y / 100) + 10 * ((y / 10) % 10) + y % 10);
    if x < 10 {
        assert(decimal(a) == seq![hex_digit(x)]);
        assert(decimal(b) == seq![hex_digit(y)]);
        assert(decimal(a)[0] == hex_digit(x));
        assert(decimal(b)[0] == hex_digit(y));
        lemma_hex_digit_injective(x, y);
    } else if x < 100 {
        assert(decimal(a)[0] == decimal(b)[0]);
        assert(decimal(a)[1] == decimal(b)[1]);
        lemma_hex_digit_injective(x / 10, y / 10);
        lemma_hex_digit_injective(x % 10, y % 10);
    } else {
        assert(decimal(a)[0] == decimal(b)[0]);
        assert(decimal(a)[1] == decimal(b)[1]);
        assert(decimal(a)[2] == decimal(b)[2]);
        lemma_hex_digit_injective(x / 100, y / 100);
        lemma_hex_digit_injective((x / 10) % 10, (y / 10) % 10);
        lemma_hex_digit_injective(x % 10, y % 10);
    }
}

proof fn lemma_split_at_dot(p1: Seq<char>, r1: Seq<char>, p2: Seq<char>, r2: Seq<char>)
    requires
        forall|i: int| 0 <= i < p1.len() ==> p1[i] != '.',
        forall|i: int| 0 <= i < p2.len() ==> p2[i] != '.',
        p1 + seq!['.'] + r1 == p2 + seq!['.'] + r2,
    ensures
        p1 == p2,
        r1 == r2,
{
    let s = p1 + seq!['.'] + r1;
    let t = p2 + seq!['.'] + r2;
    if p1.len() < p2.len() {
        assert(s[p1.len() as int] == '.');
        assert(t[p1.len() as int] == p2[p1.len() as int]);
    } else if p2.len() < p1.len() {
        assert(t[p2.len() as int] == '.');
        assert(s[p2.len() as int] == p1[p2.len() as int]);
    }
    assert(p1 =~= s.subrange(0, p1.len() as int));
    assert(p2 =~= t.subrange(0, p2.len() as int));
    assert(r1 =~= s.subrange(p1.len() as int + 1, s.len() as int));
    assert(r2 =~= t.subrange(p2.len() as int + 1, t.len() as int));
}

proof fn lemma_v4_labels_injective(x: int, y: int, n: nat)
    requires
        0 <= x < radix_bound(n),
        0 <= y < radix_bound(n),
        v4_labels(x, n) == v4_labels(y, n),
    ensures
        x == y,
    decreases n,
{
    if n > 0 {
        let m = (n - 1) as nat;
        let (dx, dy) = (decimal((x % 256) as u8), decimal((y % 256) as u8));
        lemma_decimal_shape((x % 256) as u8);
        lemma_decimal_shape((y % 256) as u8);
        assert(v4_labels(x, n) == dx + seq!['.'] + v4_labels(x / 256, m));
        assert(v4_labels(y, n) == dy + seq!['.'] + v4_labels(y / 256, m));
        lemma_split_at_dot(dx, v4_labels(x / 256, m), dy, v4_labels(y / 256, m));
        lemma_decimal_injective((x % 256) as u8, (y % 256) as u8);
        assert(0 <= x / 256 < radix_bound(m));
        assert(0 <= y / 256 < radix_bound(m));
        lemma_v4_labels_injective(x / 256, y / 256, m);
    }
}

/// The reverse-zone name of an IPv4 address determines the address: two
/// different addresses never share a name.
proof fn lemma_arpa_name_v4_injective(x: u32, y: u32)
    requires
        arpa_name_of(IpAddress::V4(x)) == arpa_name_of(IpAddress::V4(y)),
    ensures
        x == y,
{
    let (lx, ly) = (v4_labels(x as int, 4), v4_labels(y as int, 4));
    let suffix = "in-addr.arpa"@;
    assert(arpa_name_of(IpAddress::V4(x)) == lx + suffix);
    assert(arpa_name_of(IpAddress::V4(y)) == ly + suffix);
    assert((lx + suffix).len() == (ly + suffix).len());
    assert(lx.len() == ly.len());
    assert(lx =~= (lx + suffix).subrange(0, lx.len() as int));
    assert(ly =~= (ly + suffix).subrange(0, ly.len() as int));
    assert(radix_bound(4) == 0x1_0000_0000) by {
        reveal_with_fuel(radix_bound, 5);
    }
    lemma_v4_labels_injective(x as int, y as int, 4);
}

proof fn lemma_v6_labels_len(x: int, n: nat)
    ensures
        v6_labels(x, n).len() == 4 * n,
    decreases n,
{
    if n > 0 {
        lemma_v6_labels_len(x / 256, (n - 1) as nat);
    }
}

proof fn lemma_v6_labels_injective(x: int, y: int, n: nat)
    requires
        0 <= x < radix_bound(n),
        0 <= y < radix_bound(n),
        v6_labels(x, n) == v6_labels(y, n),
    ensures
        x == y,
    decreases n,
{
    if n > 0 {
        let m = (n - 1) as nat;
        let (bx, by) = (x % 256, y % 256);
        let hx = seq![hex_digit(bx % 16), '.', hex_digit(bx / 16), '.'];
        let hy = seq![hex_digit(by % 16), '.', hex_digit(by / 16), '.'];
        let (s, t) = (v6_labels(x, n), v6_labels(y, n));
        assert(s == hx + v6_labels(x / 256, m));
        assert(t == hy + v6_labels(y / 256, m));
        assert(s[0] == hx[0] && t[0] == hy[0]);
        assert(s[2] == hx[2] && t[2] == hy[2]);
        lemma_hex_digit_injective(bx % 16, by % 16);
        lemma_hex_digit_injective(bx / 16, by / 16);
        assert(bx == 16 * (bx / 16) + bx % 16);
        assert(by == 16 * (by / 16) + by % 16);
        assert(v6_labels(x / 256, m) =~= s.subrange(4, s.len() as int));
        assert(v6_labels(y / 256, m) =~= t.subrange(4, t.len() as int));
        assert(0 <= x / 256 < radix_bound(m));
        assert(0 <= y / 256 < radix_bound(m));
        lemma_v6_labels_injective(x / 256, y / 256, m);
    }
}

proof fn lemma_radix_bound_16()
    ensures
        radix_bound(16) == 0x1_0000_0000_0000_0000_0000_0000_0000_0000,
{
    reveal_with_fuel(radix_bound, 17);
}

/// The reverse-zone name of an address determines the address: two
/// different addresses, of either family, never share a name.
pub proof fn lemma_arpa_name_injective(a: IpAddress, b: IpAddress)
    requires
        arpa_name_of(a) == arpa_name_of(b),
    ensures
        a == b,
{
    let (v4s, v6s) = ("in-addr.arpa"@, "ip6.arpa"@);
    reveal_strlit("in-addr.arpa");
    reveal_strlit("ip6.arpa");
    match (a, b) {
        (IpAddress::V4(x), IpAddress::V4(y)) => {
            lemma_arpa_name_v4_injective(x, y);
        },
        (IpAddress::V6(x), IpAddress::V6(y)) => {
            let (lx, ly) = (v6_labels(x as int, 16), v6_labels(y as int, 16));
            lemma_v6_labels_len(x as int, 16);
            lemma_v6_labels_len(y as int, 16);
            assert(arpa_name_of(a) == lx + v6s);
            assert(arpa_name_of(b) == ly + v6s);
            assert(lx =~= (lx + v6s).subrange(0, lx.len() as int));
            assert(ly =~= (ly + v6s).subrange(0, ly.len() as int));
            lemma_radix_bound_16();
            lemma_v6_labels_injective(x as int, y as int, 16);
        },
        (IpAddress::V4(x), IpAddress::V6(y)) => {
            lemma_tail_differs(v4_labels(x as int, 4), v6_labels(y as int, 16));
        },
        (IpAddress::V6(x), IpAddress::V4(y)) => {
            lemma_tail_differs(v4_labels(y as int, 4), v6_labels(x as int, 16));
        },
    }
}

proof fn lemma_tail_differs(l4: Seq<char>, l6: Seq<char>)
    ensures
        l4 + "in-addr.arpa"@ != l6 + "ip6.arpa"@,
{
    reveal_strlit("in-addr.arpa");
    reveal_strlit("ip6.arpa");
    let s = l4 + "in-addr.arpa"@;
    let t = l6 + "ip6.arpa"@;
    if s == t {
        assert(s[s.len() - 8] == 'd');
        assert(t[t.len() - 8] == 'i');
    }
}

/// Sixteen to the power `k`.
pub open spec fn pow16(k: nat) -> int
    decreases k,
{
    if k == 0 {
        1
    } else {
        16 * pow16((k - 1) as nat)
    }
}

/// The nibble of `v` with index `k`, counting from the least significant.
pub open spec fn nibble(v: int, k: nat) -> int {
    (v / pow16(k)) % 16
}

proof fn lemma_pow16_pos(k: nat)
    ensures
        pow16(k) > 0,
    decreases k,
{
    if k > 0 {
        lemma_pow16_pos((k - 1) as nat);
    }
}

proof fn lemma_v6_labels_nibbles(v: int, n: nat)
    requires
        v >= 0,
    ensures
        v6_labels(v, n).len() == 4 * n,
        forall|k: int|
            0 <= k < 2 * n ==> #[trigger] v6_labels(v, n)[2 * k] == hex_digit(nibble(v, k as nat))
                && v6_labels(v, n)[2 * k + 1] == '.',
    decreases n,
{
    if n > 0 {
        let m = (n - 1) as nat;
        let w = v / 256;
        lemma_mod_pos_bound(v, 256);
        assert(w >= 0);
        lemma_v6_labels_nibbles(w, m);
        let s = v6_labels(v, n);
        let head = seq![hex_digit((v % 256) % 16), '.', hex_digit((v % 256) / 16), '.'];
        assert(s == head + v6_labels(w, m));
        lemma_mod_mod(v, 16, 16);
        lemma_mod_breakdown(v, 16, 16);
        lemma_mod_pos_bound(v, 16);
        lemma_mod_pos_bound(v / 16, 16);
        lemma_fundamental_div_mod_converse(v % 256, 16, (v / 16) % 16, v % 16);
        assert(pow16(1) == 16) by {
            reveal_with_fuel(pow16, 2);
        }
        assert forall|k: int| 0 <= k < 2 * n implies #[trigger] s[2 * k] == hex_digit(nibble(v, k as nat)) && s[2
            * k + 1] == '.' by {
            if k == 0 {
                assert(nibble(v, 0) == v % 16);
                assert(s[0] == hex_digit((v % 256) % 16));
            } else if k == 1 {
                assert(nibble(v, 1) == (v / 16) % 16);
                assert(s[2] == hex_digit((v % 256) / 16));
            } else {
                let k2 = (k - 2) as nat;
                let kn = k as nat;
                                assert(s[2 * k] == v6_labels(w, m)[2 * k2 as int]);
                assert(s[2 * k + 1] == v6_labels(w, m)[2 * k2 as int + 1]);
                lemma_pow16_pos(k2);
                lemma_div_denominator(v, 256, pow16(k2));
                assert(pow16(kn) == 256 * pow16(k2)) by {
                    assert(pow16(kn) == 16 * pow16((kn - 1) as nat));
                    assert(pow16((kn - 1) as nat) == 16 * pow16(k2));
                }
                assert(nibble(w, k2) == nibble(v, kn));
            }
        }
    }
}

/// The reverse-zone name of an IPv6 address is its 32 nibbles as one-digit
/// labels, least significant first and zero nibbles kept, under `ip6.arpa`.
pub proof fn lemma_arpa_name_v6_nibbles(x: u128)
    ensures
        arpa_name_of(IpAddress::V6(x)).len() == 64 + "ip6.arpa"@.len(),
        forall|k: int|
            0 <= k < 32 ==> #[trigger] arpa_name_of(IpAddress::V6(x))[2 * k] == hex_digit(
                nibble(x as int, k as nat),
            ) && arpa_name_of(IpAddress::V6(x))[2 * k + 1] == '.',
        arpa_name_of(IpAddress::V6(x)).subrange(64, arpa_name_of(IpAddress::V6(x)).len() as int)
            == "ip6.arpa"@,
{
    lemma_v6_labels_nibbles(x as int, 16);
    let l = v6_labels(x as int, 16);
    let name = arpa_name_of(IpAddress::V6(x));
    assert(name == l + "ip6.arpa"@);
    assert forall|k: int| 0 <= k < 32 implies #[trigger] name[2 * k] == hex_digit(nibble(x as int, k as nat))
        && name[2 * k + 1] == '.' by {
        assert(name[2 * k] == l[2 * k]);
        assert(name[2 * k + 1] == l[2 * k + 1]);
    }
    assert(name.subrange(64, name.len() as int) =~= "ip6.arpa"@);
}

} // verus!
