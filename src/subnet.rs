//! Expansion of an address and netmask into every address of the network,
//! and the partition of an address list into bounded batches.
use vstd::prelude::*;
use vstd::arithmetic::power2::{
    pow2,
    lemma2_to64,
    lemma_pow2_adds,
    lemma_pow2_pos,
    lemma_pow2_strictly_increases,
    lemma_pow2_unfold,
};
use vstd::arithmetic::div_mod::{
    lemma_fundamental_div_mod,
    lemma_fundamental_div_mod_converse,
    lemma_mod_pos_bound,
    lemma_small_mod,
};
use crate::addr::IpAddress;

verus! {

/// How many addresses a probe batch holds at most.
pub const BATCH_SIZE: usize = 200;

#[verifier::external_type_specification]
#[verifier::external_body]
pub struct ExIpNetworkError(ipnetwork::IpNetworkError);

/// Why an address and netmask do not describe a network.
#[derive(Clone, Copy, Debug, PartialEq, Eq, Structural)]
pub enum SubnetError {
    /// The netmask's one bits are not contiguous from the top.
    InvalidMask,
    /// The address and the netmask belong to different families.
    FamilyMismatch,
}

/// Number of bits of an address of this family.
pub open spec fn width(ip: IpAddress) -> nat {
    match ip {
        IpAddress::V4(_) => 32,
        IpAddress::V6(_) => 128,
    }
}

/// The address as a number.
pub open spec fn value(ip: IpAddress) -> int {
    match ip {
        IpAddress::V4(a) => a as int,
        IpAddress::V6(a) => a as int,
    }
}

/// The address of the same family as `ip` with the number `v`.
pub open spec fn with_value(ip: IpAddress, v: int) -> IpAddress {
    match ip {
        IpAddress::V4(_) => IpAddress::V4(v as u32),
        IpAddress::V6(_) => IpAddress::V6(v as u128),
    }
}

pub open spec fn same_family(a: IpAddress, b: IpAddress) -> bool {
    (a is V4) == (b is V4)
}

/// The netmask of `bits` bits with the `p` most significant bits set.
pub open spec fn prefix_mask(bits: nat, p: nat) -> int {
    pow2(bits) - pow2((bits - p) as nat)
}

/// Number of addresses in a network of `bits`-bit addresses with prefix
/// length `p`.
pub open spec fn block_size(bits: nat, p: nat) -> int {
    pow2((bits - p) as nat) as int
}

/// First address number of the network of prefix length `p` holding `ip`.
pub open spec fn network_start(ip: IpAddress, p: nat) -> int {
    value(ip) - (value(ip) % block_size(width(ip), p))
}

/// Every address of the network of prefix length `p` holding `ip`, in
/// ascending order, first and last address included.
pub open spec fn host_range(ip: IpAddress, p: nat) -> Seq<IpAddress> {
    Seq::new(
        block_size(width(ip), p) as nat,
        |i: int| with_value(ip, network_start(ip, p) + i),
    )
}

/// Whether `mask` is the netmask of some prefix length.
pub open spec fn is_prefix_mask(bits: nat, mask: int) -> bool {
    exists|p: nat| p <= bits && mask == prefix_mask(bits, p)
}

/// The addresses a subnet expands to, or the error it gives.
pub open spec fn subnet_spec(ip: IpAddress, mask: IpAddress) -> Result<Seq<IpAddress>, SubnetError> {
    if !same_family(ip, mask) {
        Err(SubnetError::FamilyMismatch)
    } else if is_prefix_mask(width(mask), value(mask)) {
        Ok(
            host_range(
                ip,
                choose|p: nat| p <= width(mask) && value(mask) == prefix_mask(width(mask), p),
            ),
        )
    } else {
        Err(SubnetError::InvalidMask)
    }
}

/// Relies on ipnetwork::ipv4_mask_to_prefix: the prefix length of a netmask
/// whose one bits are contiguous from the top, an error for any other mask.
#[verifier::external_body]
fn mask_to_prefix(mask: u32) -> (r: Result<u8, ipnetwork::IpNetworkError>)
    ensures
        r matches Ok(p) ==> p <= 32 && mask == prefix_mask(32, p as nat),
        r is Err ==> forall|p: nat| p <= 32 ==> mask != #[trigger] prefix_mask(32, p),
{
    ipnetwork::ipv4_mask_to_prefix(mask.into())
}

/// Relies on ipnetwork::ipv6_mask_to_prefix: the prefix length of a netmask
/// whose one bits are contiguous from the top, an error for any other mask.
#[verifier::external_body]
fn mask6_to_prefix(mask: u128) -> (r: Result<u8, ipnetwork::IpNetworkError>)
    ensures
        r matches Ok(p) ==> p <= 128 && mask == prefix_mask(128, p as nat),
        r is Err ==> forall|p: nat| p <= 128 ==> mask != #[trigger] prefix_mask(128, p),
{
    ipnetwork::ipv6_mask_to_prefix(mask.into())
}

proof fn lemma_prefix_mask_unique(bits: nat, p: nat, q: nat)
    requires
        p <= bits,
        q <= bits,
        prefix_mask(bits, p) == prefix_mask(bits, q),
    ensures
        p == q,
{
    if p < q {
        lemma_pow2_strictly_increases((bits - q) as nat, (bits - p) as nat);
    } else if q < p {
        lemma_pow2_strictly_increases((bits - p) as nat, (bits - q) as nat);
    }
}

proof fn lemma_pow2_widths()
    ensures
        pow2(32) == 0x1_0000_0000,
        pow2(128) == 0x1_0000_0000_0000_0000_0000_0000_0000_0000,
{
    lemma2_to64();
    lemma_pow2_adds(64, 64);
}

proof fn lemma_pow2_fill(bits: nat, p: nat)
    requires
        p <= bits,
    ensures
        pow2((bits - p) as nat) * pow2(p) == pow2(bits),
        pow2(p) > 0,
        pow2((bits - p) as nat) > 0,
{
    lemma_pow2_adds(p, (bits - p) as nat);
    assert(p + (bits - p) as nat == bits);
    lemma_pow2_pos(p);
    lemma_pow2_pos((bits - p) as nat);
    assert(pow2((bits - p) as nat) * pow2(p) == pow2(p) * pow2((bits - p) as nat)) by (nonlinear_arith);
}

/// The network holding `a` ends within the address space.
proof fn lemma_block_fits(a: int, size: int, k: int)
    requires
        0 <= a < size * k,
        size > 0,
        k > 0,
    ensures
        a - a % size + size <= size * k,
        0 <= a % size < size,
        a % size <= a,
{
    lemma_fundamental_div_mod(a, size);
    lemma_mod_pos_bound(a, size);
    let q = a / size;
    assert(q >= 0) by (nonlinear_arith)
        requires
            a == size * q + a % size,
            a % size < size,
            a >= 0,
            size > 0,
    ;
    assert(size * q >= 0) by (nonlinear_arith)
        requires
            q >= 0,
            size > 0,
    ;
    assert(size * q <= a);
    assert(q < k) by (nonlinear_arith)
        requires
            size * q <= a,
            a < size * k,
            size > 0,
    ;
    assert(size * q + size <= size * k) by (nonlinear_arith)
        requires
            q < k,
            size > 0,
    ;
}

/// The network of `ip` lies within its family's address space.
proof fn lemma_range_fits(ip: IpAddress, p: nat)
    requires
        p <= width(ip),
    ensures
        0 <= network_start(ip, p),
        network_start(ip, p) + block_size(width(ip), p) <= pow2(width(ip)),
        block_size(width(ip), p) > 0,
{
    lemma_pow2_widths();
    lemma_pow2_fill(width(ip), p);
    lemma_block_fits(value(ip), block_size(width(ip), p), pow2(p) as int);
}

fn v4_hosts(a: u32, p: u8) -> (r: Vec<IpAddress>)
    requires
        p <= 32,
    ensures
        r@ == host_range(IpAddress::V4(a), p as nat),
{
    let ghost ip = IpAddress::V4(a);
    let host_bits: u64 = 32 - p as u64;
    let mut size: u64 = 1;
    let mut j: u64 = 0;
    proof {
        lemma_pow2_widths();
        lemma2_to64();
    }
    while j < host_bits
        invariant
            j <= host_bits <= 32,
            size == pow2(j as nat),
            pow2(32) == 0x1_0000_0000,
        decreases host_bits - j,
    {
        proof {
            lemma_pow2_unfold((j + 1) as nat);
            lemma_pow2_fill(32, (32 - j - 1) as nat);
            assert(pow2((j + 1) as nat) <= pow2(32)) by (nonlinear_arith)
                requires
                    pow2(32) == pow2((j + 1) as nat) * pow2((32 - j - 1) as nat),
                    pow2((32 - j - 1) as nat) > 0,
            ;
        }
        size = size * 2;
        j = j + 1;
    }
    proof {
        lemma_range_fits(ip, p as nat);
        lemma_pow2_fill(32, p as nat);
        lemma_block_fits(a as int, size as int, pow2(p as nat) as int);
    }
    let start: u64 = a as u64 - (a as u64 % size);
    let ghost hosts = host_range(ip, p as nat);
    let mut out: Vec<IpAddress> = Vec::new();
    let mut i: u64 = 0;
    while i < size
        invariant
            i <= size,
            size == block_size(32, p as nat),
            start == network_start(ip, p as nat),
            start + size <= 0x1_0000_0000,
            ip == IpAddress::V4(a),
            hosts == host_range(ip, p as nat),
            hosts.len() == size,
            out@ == hosts.subrange(0, i as int),
        decreases size - i,
    {
        out.push(IpAddress::V4((start + i) as u32));
        i = i + 1;
        assert(out@ =~= hosts.subrange(0, i as int));
    }
    assert(out@ =~= hosts);
    out
}

fn v6_hosts(a: u128, p: u8) -> (r: Vec<IpAddress>)
    requires
        p <= 128,
    ensures
        r@ == host_range(IpAddress::V6(a), p as nat),
{
    let ghost ip = IpAddress::V6(a);
    let host_bits: u32 = 128 - p as u32;
    let mut last: u128 = 0;
    let mut j: u32 = 0;
    proof {
        lemma_pow2_widths();
        lemma2_to64();
    }
    while j < host_bits
        invariant
            j <= host_bits <= 128,
            last + 1 == pow2(j as nat),
            pow2(128) == 0x1_0000_0000_0000_0000_0000_0000_0000_0000,
        decreases host_bits - j,
    {
        proof {
            lemma_pow2_unfold((j + 1) as nat);
            lemma_pow2_fill(128, (128 - j - 1) as nat);
            assert(pow2((j + 1) as nat) <= pow2(128)) by (nonlinear_arith)
                requires
                    pow2(128) == pow2((j + 1) as nat) * pow2((128 - j - 1) as nat),
                    pow2((128 - j - 1) as nat) > 0,
            ;
        }
        last = last * 2 + 1;
        j = j + 1;
    }
    proof {
        lemma_range_fits(ip, p as nat);
    }
    let ghost size = last + 1;
    assert(size == block_size(128, p as nat));
    let start: u128 = if last == 0xffff_ffff_ffff_ffff_ffff_ffff_ffff_ffff {
        proof {
            lemma_small_mod(a as nat, size as nat);
        }
        0
    } else {
        a - a % (last + 1)
    };
    assert(start == network_start(ip, p as nat));
    let ghost hosts = host_range(ip, p as nat);
    let mut out: Vec<IpAddress> = Vec::new();
    let mut i: u128 = 0;
    loop
        invariant_except_break
            i <= last,
            start + last + 1 <= 0x1_0000_0000_0000_0000_0000_0000_0000_0000,
            start == network_start(ip, p as nat),
            ip == IpAddress::V6(a),
            hosts == host_range(ip, p as nat),
            hosts.len() == last + 1,
            out@ == hosts.subrange(0, i as int),
        ensures
            out@ == hosts,
        decreases last - i,
    {
        out.push(IpAddress::V6(start + i));
        if i == last {
            assert(out@ =~= hosts);
            break;
        }
        i = i + 1;
        assert(out@ =~= hosts.subrange(0, i as int));
    }
    out
}

/// Expands an address and its netmask into every address of the network,
/// in ascending order.
pub fn subnet_hosts(ip: IpAddress, mask: IpAddress) -> (r: Result<Vec<IpAddress>, SubnetError>)
    ensures
        r matches Ok(v) ==> subnet_spec(ip, mask) == Ok::<Seq<IpAddress>, SubnetError>(v@),
        r matches Err(e) ==> subnet_spec(ip, mask) == Err::<Seq<IpAddress>, SubnetError>(e),
{
    match (ip, mask) {
        (IpAddress::V4(a), IpAddress::V4(m)) => match mask_to_prefix(m) {
            Ok(p) => {
                proof {
                    assert(is_prefix_mask(32, m as int));
                    let q = choose|q: nat| q <= 32 && m as int == prefix_mask(32, q);
                    lemma_prefix_mask_unique(32, p as nat, q);
                }
                Ok(v4_hosts(a, p))
            },
            Err(_) => Err(SubnetError::InvalidMask),
        },
        (IpAddress::V6(a), IpAddress::V6(m)) => match mask6_to_prefix(m) {
            Ok(p) => {
                proof {
                    assert(is_prefix_mask(128, m as int));
                    let q = choose|q: nat| q <= 128 && m as int == prefix_mask(128, q);
                    lemma_prefix_mask_unique(128, p as nat, q);
                }
                Ok(v6_hosts(a, p))
            },
            Err(_) => Err(SubnetError::InvalidMask),
        },
        _ => Err(SubnetError::FamilyMismatch),
    }
}

/// The batch with index `i` of `s` cut into runs of `size`.
pub open spec fn batch_of(s: Seq<IpAddress>, size: int, i: int) -> Seq<IpAddress> {
    let lo = i * size;
    let hi = if (i + 1) * size <= s.len() { (i + 1) * size } else { s.len() as int };
    s.subrange(lo, hi)
}

/// The concatenation of a sequence of batches.
pub open spec fn concat(parts: Seq<Seq<IpAddress>>) -> Seq<IpAddress>
    decreases parts.len(),
{
    if parts.len() == 0 {
        Seq::empty()
    } else {
        concat(parts.drop_last()) + parts.last()
    }
}

/// Cuts `addrs` into consecutive batches of `size` addresses; the last one
/// may be shorter.
pub fn batches(addrs: &Vec<IpAddress>, size: usize) -> (r: Vec<Vec<IpAddress>>)
    requires
        size > 0,
    ensures
        r@.len() * size >= addrs@.len(),
        r@.len() == 0 || (r@.len() - 1) * size < addrs@.len(),
        r@.len() == (addrs@.len() + size - 1) / (size as int),
        forall|i: int| 0 <= i < r@.len() ==> #[trigger] r@[i]@ == batch_of(addrs@, size as int, i),
{
    let n = addrs.len();
    let mut out: Vec<Vec<IpAddress>> = Vec::new();
    let mut start: usize = 0;
    assert(out@.len() * size == 0);
    while start < n
        invariant
            n == addrs@.len(),
            size > 0,
            start as int == if out@.len() * size <= n { out@.len() * size } else { n as int },
            start <= n,
            out@.len() == 0 || (out@.len() - 1) * size < n,
            forall|i: int| 0 <= i < out@.len() ==> #[trigger] out@[i]@ == batch_of(addrs@, size as int, i),
        decreases n - start,
    {
        let end: usize = if n - start <= size { n } else { start + size };
        let mut chunk: Vec<IpAddress> = Vec::new();
        let mut k: usize = start;
        while k < end
            invariant
                start <= k <= end <= n,
                n == addrs@.len(),
                chunk@ == addrs@.subrange(start as int, k as int),
            decreases end - k,
        {
            chunk.push(addrs[k]);
            k = k + 1;
            assert(chunk@ =~= addrs@.subrange(start as int, k as int));
        }
        let ghost idx = out@.len() as int;
        proof {
            assert((idx + 1) * size == idx * size + size) by (nonlinear_arith);
            assert(start as int == idx * size);
            assert(chunk@ == batch_of(addrs@, size as int, idx));
        }
        out.push(chunk);
        start = end;
        proof {
            assert(out@[idx]@ == batch_of(addrs@, size as int, idx));
        }
    }
    proof {
        lemma_batch_count(n as int, size as int, out@.len() as int);
    }
    out
}

/// A count `k` of batches of `s` that covers `n` items, the last batch not
/// empty, is the rounded-up quotient of `n` by `s`.
proof fn lemma_batch_count(n: int, s: int, k: int)
    requires
        n >= 0,
        s > 0,
        k >= 0,
        k * s >= n,
        k == 0 || (k - 1) * s < n,
    ensures
        k == (n + s - 1) / s,
{
    if k == 0 {
        assert(n == 0) by (nonlinear_arith)
            requires
                k == 0,
                k * s >= n,
                n >= 0,
        ;
    } else {
        assert((k - 1) * s == k * s - s) by (nonlinear_arith);
    }
    lemma_fundamental_div_mod_converse(n + s - 1, s, k, n + s - 1 - k * s);
}

/// Joining the batches back together, in order, gives the whole list.
pub proof fn lemma_batches_reassemble(addrs: Seq<IpAddress>, size: int, parts: Seq<Seq<IpAddress>>)
    requires
        size > 0,
        parts.len() * size >= addrs.len(),
        parts.len() == 0 || (parts.len() - 1) * size < addrs.len(),
        forall|i: int| 0 <= i < parts.len() ==> #[trigger] parts[i] == batch_of(addrs, size, i),
    ensures
        concat(parts) == addrs,
{
    lemma_concat_prefix(addrs, size, parts, parts.len() as int);
    assert(parts.subrange(0, parts.len() as int) =~= parts);
    if parts.len() == 0 {
        assert(addrs =~= Seq::<IpAddress>::empty());
    } else {
        assert(addrs.subrange(0, addrs.len() as int) =~= addrs);
    }
}

proof fn lemma_concat_prefix(addrs: Seq<IpAddress>, size: int, parts: Seq<Seq<IpAddress>>, k: int)
    requires
        size > 0,
        0 <= k <= parts.len(),
        parts.len() == 0 || (parts.len() - 1) * size < addrs.len(),
        forall|i: int| 0 <= i < parts.len() ==> #[trigger] parts[i] == batch_of(addrs, size, i),
    ensures
        concat(parts.subrange(0, k)) == addrs.subrange(
            0,
            if k * size <= addrs.len() { k * size } else { addrs.len() as int },
        ),
    decreases k,
{
    if k == 0 {
        assert(k * size == 0) by (nonlinear_arith)
            requires
                k == 0,
        ;
        assert(parts.subrange(0, 0) =~= Seq::<Seq<IpAddress>>::empty());
        assert(addrs.subrange(0, 0) =~= Seq::<IpAddress>::empty());
    } else {
        lemma_concat_prefix(addrs, size, parts, k - 1);
        let pre = parts.subrange(0, k);
        assert(pre.drop_last() =~= parts.subrange(0, k - 1));
        assert((k - 1) * size < addrs.len()) by (nonlinear_arith)
            requires
                k <= parts.len(),
                (parts.len() - 1) * size < addrs.len(),
                size > 0,
        ;
        assert(k * size == (k - 1) * size + size) by (nonlinear_arith);
        assert((k - 1) * size >= 0) by (nonlinear_arith)
            requires
                k >= 1,
                size > 0,
        ;
        assert(pre.last() == parts[k - 1]);
        assert(concat(pre) == concat(pre.drop_last()) + pre.last());
        assert(concat(pre) =~= addrs.subrange(
            0,
            if k * size <= addrs.len() { k * size } else { addrs.len() as int },
        ));
    }
}

/// Subnet enumeration lists every address of the network exactly once and
/// nothing else, in either family.
pub proof fn lemma_subnet_exact(ip: IpAddress, p: nat)
    requires
        p <= width(ip),
    ensures
        host_range(ip, p).no_duplicates(),
        forall|x: IpAddress|
            #![trigger host_range(ip, p).contains(x)]
            host_range(ip, p).contains(x) <==> same_family(x, ip) && network_start(ip, p) <= value(x)
                < network_start(ip, p) + block_size(width(ip), p),
{
    let size = block_size(width(ip), p);
    let start = network_start(ip, p);
    lemma_range_fits(ip, p);
    lemma_pow2_widths();
    let hs = host_range(ip, p);
    assert forall|i: int| 0 <= i < hs.len() implies same_family(#[trigger] hs[i], ip) && value(hs[i])
        == start + i by {}
    assert forall|i: int, j: int| 0 <= i < hs.len() && 0 <= j < hs.len() && i != j implies hs[i]
        != hs[j] by {
        assert(value(hs[i]) == start + i);
        assert(value(hs[j]) == start + j);
    }
    assert forall|x: IpAddress|
        #![trigger hs.contains(x)]
        hs.contains(x) <==> same_family(x, ip) && start <= value(x) < start + size by {
        if same_family(x, ip) && start <= value(x) < start + size {
            let i = value(x) - start;
            assert(hs[i] == with_value(ip, value(x)));
            assert(hs[i] == x);
        }
        if hs.contains(x) {
            let i = choose|i: int| 0 <= i < hs.len() && hs[i] == x;
            assert(value(hs[i]) == start + i);
        }
    }
}

/// Cutting a network's addresses, of either family, into batches of
/// `BATCH_SIZE` gives the rounded-up quotient of their number by
/// `BATCH_SIZE` batches, and the batches joined hold every address of the
/// network exactly once.
pub proof fn lemma_subnet_batches(ip: IpAddress, p: nat, parts: Seq<Seq<IpAddress>>)
    requires
        p <= width(ip),
        parts.len() * BATCH_SIZE >= host_range(ip, p).len(),
        parts.len() == 0 || (parts.len() - 1) * BATCH_SIZE < host_range(ip, p).len(),
        forall|i: int|
            0 <= i < parts.len() ==> #[trigger] parts[i] == batch_of(
                host_range(ip, p),
                BATCH_SIZE as int,
                i,
            ),
    ensures
        parts.len() == (block_size(width(ip), p) + BATCH_SIZE - 1) / (BATCH_SIZE as int),
        concat(parts).no_duplicates(),
        forall|x: IpAddress|
            #![trigger concat(parts).contains(x)]
            concat(parts).contains(x) <==> same_family(x, ip) && network_start(ip, p) <= value(x)
                < network_start(ip, p) + block_size(width(ip), p),
{
    lemma_range_fits(ip, p);
    lemma_batch_count(host_range(ip, p).len() as int, BATCH_SIZE as int, parts.len() as int);
    lemma_batches_reassemble(host_range(ip, p), BATCH_SIZE as int, parts);
    lemma_subnet_exact(ip, p);
}

} // verus!
