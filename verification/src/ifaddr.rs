//! Unique interface host-address allocators.
//!
//! Each generated address carries its own independently drawn mask length,
//! so the bit split between prefix and host differs per element.  Uniqueness
//! is guaranteed by fixing a distinct prefix, at a granularity covering the
//! requested count, for every address before the variable host portion is
//! chosen.  The host portion avoids the all-zero network value and the
//! all-ones broadcast value, except for the two-host point-to-point mask
//! lengths and for a mask that consumes the entire width.

use vstd::prelude::*;

verus! {

use crate::cycle::{nth_wrap, lemma_nth_wrap_bound, lemma_nth_wrap_distinct, lemma_nth_wrap_step};
use crate::driver::Driver;
use crate::ipv4::cidr4_text;
use crate::ipv4::cidr4_string;
use crate::ipv6::cidr6_text;
use crate::ipv6::cidr6_string;
use crate::power::{pow2_u64, pow2_u128, lemma_pow2_128};
use vstd::arithmetic::div_mod::{
    lemma_fundamental_div_mod_converse,
    lemma_mod_multiples_vanish,
    lemma_small_mod,
};
use vstd::arithmetic::mul::{lemma_mul_inequality, lemma_mul_is_associative};
use vstd::arithmetic::power2::{
    pow2,
    lemma_pow2_adds,
    lemma_pow2_pos,
    lemma_pow2_strictly_increases,
    lemma2_to64,
};

/// One generated host address: its value and its own mask length.
pub struct HostAddr4 {
    pub addr: u32,
    pub mask_len: u8,
}

/// One generated host address: its value and its own mask length.
pub struct HostAddr6 {
    pub addr: u128,
    pub mask_len: u8,
}

/// A legal v4 host address for prefix granularity `p`: the mask covers at
/// least the prefix bits, and below the two-host threshold the host portion
/// is neither the network nor the broadcast value.
pub open spec fn host4_valid(p: nat, h: HostAddr4) -> bool {
    &&& p <= h.mask_len <= 32
    &&& (h.mask_len < 31 ==> h.addr as nat % pow2((32 - h.mask_len) as nat) != 0)
    &&& (h.mask_len < 31 ==> h.addr as nat % pow2((32 - h.mask_len) as nat) != pow2(
        (32 - h.mask_len) as nat,
    ) - 1)
}

/// A legal v6 host address for prefix granularity `p`.
pub open spec fn host6_valid(p: nat, h: HostAddr6) -> bool {
    &&& p <= h.mask_len <= 128
    &&& (h.mask_len < 127 ==> h.addr as nat % pow2((128 - h.mask_len) as nat) != 0)
    &&& (h.mask_len < 127 ==> h.addr as nat % pow2((128 - h.mask_len) as nat) != pow2(
        (128 - h.mask_len) as nat,
    ) - 1)
}

/// What the v4 allocator promises: exactly `count` addresses at the smallest
/// covering prefix granularity `p`, each legal, pairwise distinct by value,
/// each rendered as its text with its own mask length.
pub open spec fn host4_output_ok(count: u16, p: nat, hs: Seq<HostAddr4>, out: Seq<String>) -> bool {
    &&& pow2(p) >= count
    &&& (p == 0 || pow2((p - 1) as nat) < count)
    &&& hs.len() == count as nat
    &&& out.len() == count as nat
    &&& (forall|i: int| 0 <= i < hs.len() ==> host4_valid(p, #[trigger] hs[i]))
    &&& (forall|i: int, j: int| 0 <= i < j < hs.len() ==> hs[i].addr != hs[j].addr)
    &&& (forall|i: int|
        0 <= i < hs.len() ==> (#[trigger] out[i])@ == cidr4_text(hs[i].addr, hs[i].mask_len))
}

/// The output is valid when some address sequence accounts for it.
pub open spec fn host4_output_valid(count: u16, out: Seq<String>) -> bool {
    exists|p: nat, hs: Seq<HostAddr4>| host4_output_ok(count, p, hs, out)
}

/// What the v6 allocator promises; the prefix granularity is at least one
/// bit, since the zero starting prefix is never drawn.
pub open spec fn host6_output_ok(count: u16, p: nat, hs: Seq<HostAddr6>, out: Seq<String>) -> bool {
    &&& pow2(p) >= count
    &&& 1 <= p
    &&& (p == 1 || pow2((p - 1) as nat) < count)
    &&& hs.len() == count as nat
    &&& out.len() == count as nat
    &&& (forall|i: int| 0 <= i < hs.len() ==> host6_valid(p, #[trigger] hs[i]))
    &&& (forall|i: int, j: int| 0 <= i < j < hs.len() ==> hs[i].addr != hs[j].addr)
    &&& (forall|i: int|
        0 <= i < hs.len() ==> (#[trigger] out[i])@ == cidr6_text(hs[i].addr, hs[i].mask_len))
}

/// The output is valid when some address sequence accounts for it.
pub open spec fn host6_output_valid(count: u16, out: Seq<String>) -> bool {
    exists|p: nat, hs: Seq<HostAddr6>| host6_output_ok(count, p, hs, out)
}

/// The smallest power-of-two exponent covering `count`.
fn prefix_bits(count: u16) -> (p: u32)
    ensures
        pow2(p as nat) >= count,
        p == 0 || pow2((p - 1) as nat) < count,
        p <= 16,
{
    proof {
        lemma2_to64();
    }
    let mut p: u32 = 0;
    let mut pow: u32 = 1;
    while pow < count as u32
        invariant
            pow == pow2(p as nat),
            p <= 16,
            p == 0 || pow2((p - 1) as nat) < count,
        decreases 17 - p,
    {
        proof {
            vstd::arithmetic::power2::lemma_pow2_unfold((p + 1) as nat);
            if p + 1 < 16 {
                lemma_pow2_strictly_increases((p + 1) as nat, 16);
            }
            lemma2_to64();
        }
        pow = pow * 2;
        p = p + 1;
    }
    p
}

/// The prefix and host portions of a combined address value: the prefix
/// occupies the high `p` bits, the host data lies below its own mask.
proof fn lemma_place_value(prefix: nat, data: nat, width: nat, p: nat, ml: nat)
    requires
        p <= ml <= width,
        data < pow2((width - ml) as nat),
    ensures
        (prefix * pow2((width - p) as nat) + data) as int % (pow2((width - ml) as nat) as int)
            == data,
        (prefix * pow2((width - p) as nat) + data) as int / (pow2((width - p) as nat) as int)
            == prefix,
{
    let m: int = pow2((width - ml) as nat) as int;
    let big: int = pow2((width - p) as nat) as int;
    lemma_pow2_pos((width - ml) as nat);
    lemma_pow2_pos((width - p) as nat);
    lemma_pow2_adds((width - ml) as nat, (ml - p) as nat);
    assert(big == m * pow2((ml - p) as nat));
    lemma_mul_is_associative(prefix as int, pow2((ml - p) as nat) as int, m);
    assert(prefix * big == (prefix * pow2((ml - p) as nat)) * m) by {
        vstd::arithmetic::mul::lemma_mul_is_commutative(
            pow2((ml - p) as nat) as int,
            m,
        );
        lemma_mul_is_associative(prefix as int, m, pow2((ml - p) as nat) as int);
    }
    vstd::arithmetic::mul::lemma_mul_is_commutative(
        (prefix * pow2((ml - p) as nat)) as int,
        m,
    );
    lemma_mod_multiples_vanish((prefix * pow2((ml - p) as nat)) as int, data as int, m);
    lemma_small_mod(data, m as nat);
    if ml > p {
        lemma_pow2_strictly_increases((width - ml) as nat, (width - p) as nat);
    }
    lemma_fundamental_div_mod_converse(
        prefix * big + data,
        big,
        prefix as int,
        data as int,
    );
}

/// Produces a requested number of pairwise-distinct IPv4 host addresses,
/// each with an independently chosen mask length.
pub struct UniqueV4InterfaceAddressGenerator {
    pub count: u16,
}

impl UniqueV4InterfaceAddressGenerator {
    pub fn new(count: u16) -> (r: Self)
        ensures
            r.count == count,
    {
        Self { count }
    }

    /// Emit the addresses: a distinct prefix is fixed per element before the
    /// variable-width host portion is drawn, which makes the values distinct
    /// whatever the mask lengths are.
    #[verifier::rlimit(60)]
    pub fn generate<D: Driver>(&self, d: &mut D) -> (r: Option<Vec<String>>)
        ensures
            self.count == 0 ==> r is Some,
            r matches Some(v) ==> host4_output_valid(self.count, v@),
    {
        proof {
            lemma2_to64();
        }
        if self.count == 0 {
            let out: Vec<String> = Vec::new();
            proof {
                let hs: Seq<HostAddr4> = Seq::empty();
                assert(host4_output_ok(self.count, 0, hs, out@));
            }
            return Some(out);
        }
        let p: u32 = prefix_bits(self.count);
        let smallest_mask: u32 = p;
        let prefix_mult: u64 = pow2_u64(32 - p);
        let largest_prefix: u32 = pow2_u64(p) as u32 - 1;
        proof {
            if p < 32 {
                lemma_pow2_strictly_increases(p as nat, 32);
            }
            lemma_pow2_pos(p as nat);
            lemma_pow2_pos((32 - p) as nat);
            lemma_pow2_adds(p as nat, (32 - p) as nat);
        }
        let mut prefix: u32 = d.gen_u32(0, largest_prefix)?;
        let ghost s0: nat = prefix as nat;
        let ghost mm: nat = pow2(p as nat);
        proof {
            crate::cycle::lemma_nth_wrap_first(s0, mm);
        }
        let mut out: Vec<String> = Vec::new();
        let ghost mut hs: Seq<HostAddr4> = Seq::empty();
        let mut k: u16 = 0;
        while k < self.count
            invariant
                self.count > 0,
                p <= 16,
                smallest_mask == p,
                mm == pow2(p as nat),
                mm >= self.count,
                p == 0 || pow2((p - 1) as nat) < self.count,
                prefix_mult == pow2((32 - p) as nat),
                largest_prefix as nat == mm - 1,
                mm <= 0x1_0000,
                k <= self.count,
                out@.len() == k as nat,
                hs.len() == k as nat,
                prefix as nat == nth_wrap(s0, mm, k as nat),
                forall|i: int| 0 <= i < hs.len() ==> host4_valid(p as nat, #[trigger] hs[i]),
                forall|i: int|
                    0 <= i < hs.len() ==> (#[trigger] hs[i]).addr as int / (pow2(
                        (32 - p) as nat,
                    ) as int) == nth_wrap(s0, mm, i as nat),
                forall|i: int|
                    0 <= i < hs.len() ==> (#[trigger] out@[i])@ == cidr4_text(
                        hs[i].addr,
                        hs[i].mask_len,
                    ),
            decreases self.count as int - k as int,
        {
            proof {
                lemma2_to64();
                lemma_pow2_pos((32 - p) as nat);
                lemma_nth_wrap_bound(s0, mm, k as nat);
            }
            let mask_len: u32 = d.gen_u32(smallest_mask, 32)?;
            let host_bits: u32 = 32 - mask_len;
            proof {
                lemma_pow2_pos(host_bits as nat);
                if host_bits > 0 {
                    lemma_pow2_strictly_increases(0, host_bits as nat);
                }
            }
            let host_span: u64 = pow2_u64(host_bits);
            let addr_mask: u32 = (host_span - 1) as u32;
            let smallest_addr: u32 = if host_bits == 0 || mask_len >= 31 {
                0
            } else {
                1
            };
            let largest_addr: u32 = if host_bits == 0 {
                0
            } else if mask_len >= 31 {
                addr_mask
            } else {
                addr_mask - 1
            };
            proof {
                if host_bits != 0 && mask_len < 31 {
                    lemma_pow2_strictly_increases(1, host_bits as nat);
                }
            }
            let addr_data: u32 = d.gen_u32(smallest_addr, largest_addr)?;
            proof {
                lemma_pow2_adds(p as nat, (32 - p) as nat);
                lemma_mul_inequality(prefix as int, mm as int - 1, prefix_mult as int);
                vstd::arithmetic::mul::lemma_mul_is_distributive_sub_other_way(
                    prefix_mult as int,
                    mm as int,
                    1,
                );
                assert((mm - 1) * prefix_mult == 0x1_0000_0000 - prefix_mult);
                if mask_len > p {
                    lemma_pow2_strictly_increases(host_bits as nat, (32 - p) as nat);
                }
            }
            let addr: u32 = ((prefix as u64) * prefix_mult + addr_data as u64) as u32;
            let ghost h = HostAddr4 { addr, mask_len: mask_len as u8 };
            proof {
                lemma_place_value(prefix as nat, addr_data as nat, 32, p as nat, mask_len as nat);
                assert(host4_valid(p as nat, h));
                assert(h.addr as int / (pow2((32 - p) as nat) as int) == nth_wrap(
                    s0,
                    mm,
                    k as nat,
                ));
            }
            let s = cidr4_string(addr, mask_len as u8);
            out.push(s);
            proof {
                hs = hs.push(h);
            }
            k = k + 1;
            prefix = prefix + 1;
            proof {
                lemma_nth_wrap_step(s0, mm, (k - 1) as nat);
            }
            if prefix > largest_prefix {
                prefix = 0;
            }
        }
        proof {
            assert forall|i: int, j: int| 0 <= i < j < hs.len() implies hs[i].addr != hs[j].addr by {
                lemma_nth_wrap_distinct(s0, mm, i as nat, j as nat);
            }
            assert(host4_output_ok(self.count, p as nat, hs, out@));
        }
        Some(out)
    }
}

/// Produces a requested number of pairwise-distinct IPv6 host addresses,
/// each with an independently chosen mask length.
pub struct UniqueV6InterfaceAddressGenerator {
    pub count: u16,
}

impl UniqueV6InterfaceAddressGenerator {
    pub fn new(count: u16) -> (r: Self)
        ensures
            r.count == count,
    {
        Self { count }
    }

    /// Emit the addresses: as for v4, a distinct prefix per element comes
    /// first; the starting prefix is never zero.
    #[verifier::rlimit(60)]
    pub fn generate<D: Driver>(&self, d: &mut D) -> (r: Option<Vec<String>>)
        ensures
            self.count == 0 ==> r is Some,
            r matches Some(v) ==> host6_output_valid(self.count, v@),
    {
        proof {
            lemma2_to64();
        }
        if self.count == 0 {
            let out: Vec<String> = Vec::new();
            proof {
                let hs: Seq<HostAddr6> = Seq::empty();
                assert(pow2(1) == 2);
                assert(host6_output_ok(self.count, 1, hs, out@));
            }
            return Some(out);
        }
        let p0: u32 = prefix_bits(self.count);
        let p: u32 = if p0 == 0 {
            1
        } else {
            p0
        };
        let smallest_mask: u32 = p;
        let prefix_mult: u128 = pow2_u128(128 - p);
        let largest_prefix: u128 = pow2_u128(p) - 1;
        proof {
            lemma_pow2_strictly_increases(0, p as nat);
            lemma_pow2_pos(p as nat);
            lemma_pow2_pos((128 - p) as nat);
            lemma_pow2_adds(p as nat, (128 - p) as nat);
        }
        let mut prefix: u128 = d.gen_u128(1, largest_prefix)?;
        let ghost s0: nat = prefix as nat;
        let ghost mm: nat = pow2(p as nat);
        proof {
            crate::cycle::lemma_nth_wrap_first(s0, mm);
        }
        let mut out: Vec<String> = Vec::new();
        let ghost mut hs: Seq<HostAddr6> = Seq::empty();
        let mut k: u16 = 0;
        while k < self.count
            invariant
                self.count > 0,
                1 <= p <= 16,
                smallest_mask == p,
                mm == pow2(p as nat),
                mm >= self.count,
                p == 1 || pow2((p - 1) as nat) < self.count,
                prefix_mult == pow2((128 - p) as nat),
                largest_prefix as nat == mm - 1,
                mm <= 0x1_0000,
                k <= self.count,
                out@.len() == k as nat,
                hs.len() == k as nat,
                prefix as nat == nth_wrap(s0, mm, k as nat),
                forall|i: int| 0 <= i < hs.len() ==> host6_valid(p as nat, #[trigger] hs[i]),
                forall|i: int|
                    0 <= i < hs.len() ==> (#[trigger] hs[i]).addr as int / (pow2(
                        (128 - p) as nat,
                    ) as int) == nth_wrap(s0, mm, i as nat),
                forall|i: int|
                    0 <= i < hs.len() ==> (#[trigger] out@[i])@ == cidr6_text(
                        hs[i].addr,
                        hs[i].mask_len,
                    ),
            decreases self.count as int - k as int,
        {
            proof {
                lemma2_to64();
                lemma_pow2_128();
                lemma_pow2_pos((128 - p) as nat);
                lemma_nth_wrap_bound(s0, mm, k as nat);
            }
            let mask_len: u32 = d.gen_u32(smallest_mask, 128)?;
            let host_bits: u32 = 128 - mask_len;
            proof {
                lemma_pow2_pos(host_bits as nat);
                if host_bits > 0 {
                    lemma_pow2_strictly_increases(0, host_bits as nat);
                }
            }
            let host_span: u128 = pow2_u128(host_bits);
            let addr_mask: u128 = host_span - 1;
            let smallest_addr: u128 = if host_bits == 0 || mask_len >= 127 {
                0
            } else {
                1
            };
            let largest_addr: u128 = if host_bits == 0 {
                0
            } else if mask_len >= 127 {
                addr_mask
            } else {
                addr_mask - 1
            };
            proof {
                if host_bits != 0 && mask_len < 127 {
                    lemma_pow2_strictly_increases(1, host_bits as nat);
                }
            }
            let addr_data: u128 = d.gen_u128(smallest_addr, largest_addr)?;
            proof {
                lemma_pow2_adds(p as nat, (128 - p) as nat);
                lemma_mul_inequality(prefix as int, mm as int - 1, prefix_mult as int);
                vstd::arithmetic::mul::lemma_mul_is_distributive_sub_other_way(
                    prefix_mult as int,
                    mm as int,
                    1,
                );
                assert((mm - 1) * prefix_mult == pow2(128) - prefix_mult);
                if mask_len > p {
                    lemma_pow2_strictly_increases(host_bits as nat, (128 - p) as nat);
                }
            }
            let addr: u128 = prefix * prefix_mult + addr_data;
            let ghost h = HostAddr6 { addr, mask_len: mask_len as u8 };
            proof {
                lemma_place_value(prefix as nat, addr_data as nat, 128, p as nat, mask_len as nat);
                assert(host6_valid(p as nat, h));
                assert(h.addr as int / (pow2((128 - p) as nat) as int) == nth_wrap(
                    s0,
                    mm,
                    k as nat,
                ));
            }
            let s = cidr6_string(addr, mask_len as u8);
            out.push(s);
            proof {
                hs = hs.push(h);
            }
            k = k + 1;
            prefix = prefix + 1;
            proof {
                lemma_nth_wrap_step(s0, mm, (k - 1) as nat);
            }
            if prefix > largest_prefix {
                prefix = 0;
            }
        }
        proof {
            assert forall|i: int, j: int| 0 <= i < j < hs.len() implies hs[i].addr != hs[j].addr by {
                lemma_nth_wrap_distinct(s0, mm, i as nat, j as nat);
            }
            assert(host6_output_ok(self.count, p as nat, hs, out@));
        }
        Some(out)
    }
}

} // verus!
