//! IPv6 address text and the unique IPv6 network-block allocator.
//!
//! An address is a `u128` split into eight 16-bit groups.  Its text follows
//! the canonical compressed form: lowercase hex groups without leading zeros,
//! the first longest run of two or more zero groups shortened to `::`, and an
//! IPv4-mapped address written with its dotted-decimal tail.  The allocator
//! mirrors the IPv4 one, parameterized only by the address width.

use vstd::prelude::*;

verus! {

use crate::cycle::{
    nth_wrap,
    lemma_nth_wrap_bound,
    lemma_nth_wrap_distinct,
    lemma_nth_wrap_first,
    lemma_nth_wrap_step,
};
use crate::driver::Driver;
use crate::ipv4::ipv4_text;
use crate::power::{pow2_u128, lemma_pow2_128};
use crate::text::{dec_text, hex_text, push_char, push_dec_u64, push_hex_u64};
use crate::ipv4::push_ipv4;
use vstd::arithmetic::div_mod::{
    lemma_fundamental_div_mod,
    lemma_mod_bound,
    lemma_multiply_divide_lt,
    lemma_small_mod,
    lemma_mod_self_0,
};
use vstd::arithmetic::mul::lemma_mul_inequality;
use vstd::arithmetic::power2::{pow2, lemma_pow2_adds, lemma_pow2_pos, lemma2_to64};

/// The i-th 16-bit group of an address, most significant first.
pub open spec fn seg6(a: u128, i: int) -> u16
    recommends
        0 <= i < 8,
{
    ((a as nat / pow2(((7 - i) * 16) as nat)) % 0x1_0000) as u16
}

/// An IPv4-mapped address: the first five groups zero, the sixth all ones.
pub open spec fn is_v4_mapped(a: u128) -> bool {
    seg6(a, 0) == 0 && seg6(a, 1) == 0 && seg6(a, 2) == 0 && seg6(a, 3) == 0 && seg6(a, 4) == 0
        && seg6(a, 5) == 0xffff
}

/// The number of consecutive zero groups starting at index `i`.
pub open spec fn zero_run_len(a: u128, i: int) -> int
    decreases 8 - i,
{
    if i < 0 || i >= 8 {
        0
    } else if seg6(a, i) != 0 {
        0
    } else {
        1 + zero_run_len(a, i + 1)
    }
}

/// The index of the longest zero run among `[i, 8)`, the earliest on ties.
pub open spec fn best_run_from(a: u128, i: int) -> int
    decreases 8 - i,
{
    if i >= 7 {
        7
    } else {
        let b = best_run_from(a, i + 1);
        if zero_run_len(a, i) >= zero_run_len(a, b) {
            i
        } else {
            b
        }
    }
}

/// The hex groups `[i, j)` joined with `:`.
pub open spec fn groups_text(a: u128, i: int, j: int) -> Seq<char>
    decreases j - i,
{
    if i >= j {
        Seq::empty()
    } else if i + 1 == j {
        hex_text(seg6(a, i) as nat)
    } else {
        hex_text(seg6(a, i) as nat) + seq![':'] + groups_text(a, i + 1, j)
    }
}

/// The canonical text of an IPv6 address.
pub open spec fn ipv6_text(a: u128) -> Seq<char> {
    if is_v4_mapped(a) {
        seq![':', ':', 'f', 'f', 'f', 'f', ':'] + ipv4_text((a as nat % 0x1_0000_0000) as u32)
    } else {
        let b = best_run_from(a, 0);
        let len = zero_run_len(a, b);
        if len > 1 {
            groups_text(a, 0, b) + seq![':', ':'] + groups_text(a, b + len, 8)
        } else {
            groups_text(a, 0, 8)
        }
    }
}

/// The text of an IPv6 CIDR block: the address, a slash, the prefix length.
pub open spec fn cidr6_text(a: u128, mask: u8) -> Seq<char> {
    ipv6_text(a) + seq!['/'] + dec_text(mask as nat)
}

/// The address with its host bits (the low `128 - mask` bits) cleared.
pub open spec fn mask6(a: u128, mask: u8) -> u128
    recommends
        mask <= 128,
{
    ((a as nat / pow2((128 - mask) as nat)) * pow2((128 - mask) as nat)) as u128
}

/// The eight groups of an address, most significant first.
fn segments(a: u128) -> (r: Vec<u16>)
    ensures
        r@.len() == 8,
        forall|i: int| 0 <= i < 8 ==> r@[i] == seg6(a, i),
{
    let mut r: Vec<u16> = Vec::new();
    let mut i: usize = 0;
    while i < 8
        invariant
            i <= 8,
            r@.len() == i as nat,
            forall|k: int| 0 <= k < i as nat ==> r@[k] == seg6(a, k),
        decreases 8 - i,
    {
        let e: u32 = (7 - i as u32) * 16;
        let divisor: u128 = pow2_u128(e);
        proof {
            lemma_pow2_pos(e as nat);
            lemma_mod_bound((a as int / divisor as int), 0x1_0000);
        }
        let g: u16 = ((a / divisor) % 0x1_0000) as u16;
        r.push(g);
        i = i + 1;
    }
    r
}

/// The number of consecutive zero groups starting at `i`, as executable code.
fn zero_run_len_at(segs: &Vec<u16>, a: Ghost<u128>, i: usize) -> (r: usize)
    requires
        segs@.len() == 8,
        forall|k: int| 0 <= k < 8 ==> segs@[k] == seg6(a@, k),
        i <= 8,
    ensures
        r == zero_run_len(a@, i as int),
        r + i <= 8,
    decreases 8 - i,
{
    if i >= 8 {
        0
    } else if segs[i] != 0 {
        0
    } else {
        1 + zero_run_len_at(segs, a, i + 1)
    }
}

/// Append the hex groups `[i, j)` joined with `:`.
fn push_groups(s: &mut String, segs: &Vec<u16>, a: Ghost<u128>, i: usize, j: usize)
    requires
        segs@.len() == 8,
        forall|k: int| 0 <= k < 8 ==> segs@[k] == seg6(a@, k),
        i <= j <= 8,
    ensures
        final(s)@ == old(s)@ + groups_text(a@, i as int, j as int),
    decreases j - i,
{
    if i >= j {
        assert(s@ =~= old(s)@ + groups_text(a@, i as int, j as int));
    } else if i + 1 == j {
        push_hex_u64(s, segs[i] as u64);
        assert(s@ =~= old(s)@ + groups_text(a@, i as int, j as int));
    } else {
        push_hex_u64(s, segs[i] as u64);
        push_char(s, ':');
        push_groups(s, segs, a, i + 1, j);
        assert(s@ =~= old(s)@ + groups_text(a@, i as int, j as int));
    }
}

/// Append the canonical text of an IPv6 address.
pub fn push_ipv6(s: &mut String, a: u128)
    ensures
        final(s)@ == old(s)@ + ipv6_text(a),
{
    let segs = segments(a);
    if segs[0] == 0 && segs[1] == 0 && segs[2] == 0 && segs[3] == 0 && segs[4] == 0 && segs[5]
        == 0xffff {
        push_char(s, ':');
        push_char(s, ':');
        push_char(s, 'f');
        push_char(s, 'f');
        push_char(s, 'f');
        push_char(s, 'f');
        push_char(s, ':');
        proof {
            lemma_mod_bound(a as int, 0x1_0000_0000);
        }
        let low: u32 = (a % 0x1_0000_0000) as u32;
        push_ipv4(s, low);
        assert(s@ =~= old(s)@ + ipv6_text(a));
    } else {
        // Find the first longest zero run, scanning right to left so that an
        // earlier run of equal length wins.
        let mut best: usize = 7;
        let mut i: usize = 7;
        while i > 0
            invariant
                segs@.len() == 8,
                forall|k: int| 0 <= k < 8 ==> segs@[k] == seg6(a, k),
                i <= 7,
                best <= 7,
                best == best_run_from(a, i as int),
            decreases i,
        {
            i = i - 1;
            let rl_i = zero_run_len_at(&segs, Ghost(a), i);
            let rl_b = zero_run_len_at(&segs, Ghost(a), best);
            if rl_i >= rl_b {
                best = i;
            }
        }
        let len = zero_run_len_at(&segs, Ghost(a), best);
        if len > 1 {
            push_groups(s, &segs, Ghost(a), 0, best);
            push_char(s, ':');
            push_char(s, ':');
            proof {
                assert(best + len <= 8) by {
                    lemma_zero_run_len_bound(a, best as int);
                }
            }
            push_groups(s, &segs, Ghost(a), best + len, 8);
            assert(s@ =~= old(s)@ + ipv6_text(a));
        } else {
            push_groups(s, &segs, Ghost(a), 0, 8);
            assert(s@ =~= old(s)@ + ipv6_text(a));
        }
    }
}

/// A zero run starting inside the groups ends by the last group.
proof fn lemma_zero_run_len_bound(a: u128, i: int)
    requires
        0 <= i <= 8,
    ensures
        0 <= zero_run_len(a, i) <= 8 - i,
    decreases 8 - i,
{
    if i < 8 {
        lemma_zero_run_len_bound(a, i + 1);
    }
}

/// The canonical text of an IPv6 address, as a fresh string.
pub fn ipv6_string(a: u128) -> (r: String)
    ensures
        r@ == ipv6_text(a),
{
    let mut s = String::new();
    push_ipv6(&mut s, a);
    assert(s@ =~= ipv6_text(a));
    s
}

/// The text of an IPv6 CIDR block, as a fresh string.
pub fn cidr6_string(a: u128, mask: u8) -> (r: String)
    ensures
        r@ == cidr6_text(a, mask),
{
    let mut s = String::new();
    push_ipv6(&mut s, a);
    push_char(&mut s, '/');
    push_dec_u64(&mut s, mask as u64);
    assert(s@ =~= cidr6_text(a, mask));
    s
}

/// Mask an address down to its prefix and format it as a CIDR block.
pub fn v6cdir_from_bytes(addr_bytes: u128, mask: u8) -> (r: String)
    requires
        mask <= 128,
    ensures
        r@ == cidr6_text(mask6(addr_bytes, mask), mask),
{
    if mask == 0 {
        proof {
            lemma_pow2_128();
            assert(addr_bytes as nat / pow2(128) == 0) by {
                lemma_multiply_divide_lt(addr_bytes as int, pow2(128) as int, 1);
            }
            assert(mask6(addr_bytes, 0) == 0);
        }
        return cidr6_string(0, 0);
    }
    let shift: u32 = 128 - mask as u32;
    let divisor: u128 = pow2_u128(shift);
    proof {
        lemma_pow2_pos(shift as nat);
        lemma_fundamental_div_mod(addr_bytes as int, divisor as int);
        lemma_mod_bound(addr_bytes as int, divisor as int);
    }
    let rem: u128 = addr_bytes % divisor;
    let masked: u128 = addr_bytes - rem;
    proof {
        vstd::arithmetic::mul::lemma_mul_is_commutative(
            divisor as int,
            addr_bytes as int / divisor as int,
        );
        assert(masked == mask6(addr_bytes, mask));
    }
    cidr6_string(masked, mask)
}

/// A random IPv6 address in canonical text form.
pub struct Ipv6AddrString(pub String);

impl Ipv6AddrString {
    /// Draw one non-zero address and format it.
    pub fn generate<D: Driver>(d: &mut D) -> (r: Option<Ipv6AddrString>)
        ensures
            r matches Some(x) ==> exists|a: u128| 1 <= a < u128::MAX && x.0@ == ipv6_text(a),
    {
        let a = d.gen_u128(1, u128::MAX - 1)?;
        let s = ipv6_string(a);
        Some(Ipv6AddrString(s))
    }
}

/// A random IPv6 CIDR block in text form, host bits cleared.
pub struct V6CidrString(pub String);

impl V6CidrString {
    /// Draw a prefix length and an address, mask it, and format it.
    pub fn generate<D: Driver>(d: &mut D) -> (r: Option<V6CidrString>)
        ensures
            r matches Some(x) ==> exists|a: u128, m: u8|
                m <= 128 && x.0@ == cidr6_text(mask6(a, m), m),
    {
        let mask = d.gen_u8(0, 128)?;
        let addr_bytes = d.gen_u128(0, u128::MAX)?;
        let s = v6cdir_from_bytes(addr_bytes, mask);
        Some(V6CidrString(s))
    }
}

/// How many blocks the allocator emits for a requested count and prefix
/// length: one for the default route, and otherwise the requested count
/// clamped to the number of representable non-zero prefix identities.
pub open spec fn cidr6_expected_len(count: u16, mask: u8) -> nat {
    if mask == 0 {
        if count > 0 {
            1
        } else {
            0
        }
    } else if pow2(mask as nat) - 1 < count {
        (pow2(mask as nat) - 1) as nat
    } else {
        count as nat
    }
}

/// A legal block identity: the zero prefix stands only for the default
/// route; every other identity is a non-zero value of the prefix bits.
pub open spec fn cidr6_valid_id(mask: u8, id: u128) -> bool {
    if mask == 0 {
        id == 0
    } else {
        1 <= id <= pow2(mask as nat) - 1
    }
}

/// The address of a block identity: the identity shifted into the high
/// `mask` bits.
pub open spec fn cidr6_id_addr(mask: u8, id: u128) -> u128
    recommends
        mask <= 128,
{
    ((id as nat) * pow2((128 - mask) as nat)) as u128
}

/// What the allocator promises of its output: as many blocks as are
/// representable, each a legal identity, pairwise distinct, each rendered
/// as the text of its masked address and prefix length.
pub open spec fn cidr6_output_ok(count: u16, mask: u8, ids: Seq<u128>, out: Seq<String>) -> bool {
    &&& ids.len() == cidr6_expected_len(count, mask)
    &&& out.len() == ids.len()
    &&& (forall|i: int| 0 <= i < ids.len() ==> cidr6_valid_id(mask, #[trigger] ids[i]))
    &&& (forall|i: int, j: int| 0 <= i < j < ids.len() ==> ids[i] != ids[j])
    &&& (forall|i: int|
        0 <= i < ids.len() ==> (#[trigger] out[i])@ == cidr6_text(cidr6_id_addr(mask, ids[i]), mask))
}

/// The output is valid when some identity sequence accounts for it.
pub open spec fn cidr6_output_valid(count: u16, mask: u8, out: Seq<String>) -> bool {
    exists|ids: Seq<u128>| cidr6_output_ok(count, mask, ids, out)
}

/// The identity emitted at step `i`, walking the cycle `[1, m]` from the
/// normalized starting candidate `1 + w0`.
pub open spec fn cidr6_nth_id(w0: nat, m: nat, i: int) -> u128
    recommends
        m > 0,
        0 <= i,
{
    (1 + nth_wrap(w0, m, i as nat)) as u128
}

/// Produces a requested number of syntactically distinct IPv6 CIDR blocks
/// of one fixed prefix length from a single random seed.
#[derive(Debug)]
pub struct UniqueV6CidrGenerator {
    pub count: u16,
    pub mask: u8,
}

impl UniqueV6CidrGenerator {
    pub fn new(count: u16, mask: u8) -> (r: Self)
        ensures
            r.count == count,
            r.mask == mask,
    {
        Self { count, mask }
    }

    /// Emit the blocks: one draw seeds the walk; candidates advance by one,
    /// skipping the reserved zero prefix identity, so distinctness holds by
    /// construction.
    pub fn generate<D: Driver>(&self, d: &mut D) -> (r: Option<Vec<String>>)
        requires
            self.mask <= 128,
        ensures
            self.mask == 0 && self.count > 0 ==> r is Some,
            r matches Some(v) ==> cidr6_output_valid(self.count, self.mask, v@),
    {
        proof {
            lemma2_to64();
            lemma_pow2_128();
        }
        if self.mask == 0 && self.count > 0 {
            // The only representable block is the default route; consume one
            // draw for parity with the general path.
            let _ = d.gen_u32(0, u32::MAX);
            let mut out: Vec<String> = Vec::new();
            out.push(cidr6_string(0, 0));
            proof {
                let ids: Seq<u128> = seq![0u128];
                assert(cidr6_id_addr(0, 0) == 0);
                assert(cidr6_output_ok(self.count, self.mask, ids, out@));
                assert(cidr6_output_valid(self.count, self.mask, out@));
            }
            return Some(out);
        }
        let mask_u32 = self.mask as u32;
        let shift: u32 = 128 - mask_u32;
        proof {
            if mask_u32 >= 1 {
                vstd::arithmetic::power2::lemma_pow2_strictly_increases(0, mask_u32 as nat);
            }
            if mask_u32 < 128 {
                vstd::arithmetic::power2::lemma_pow2_strictly_increases(mask_u32 as nat, 128);
            }
        }
        let m_u128: u128 = if self.mask == 128 {
            u128::MAX
        } else {
            pow2_u128(mask_u32) - 1
        };
        let max_to_generate: u16 = if m_u128 < self.count as u128 {
            m_u128 as u16
        } else {
            self.count
        };
        let seed = d.gen_u128(1, u128::MAX)?;
        let divisor: u128 = if self.mask == 0 {
            1
        } else {
            pow2_u128(shift)
        };
        proof {
            lemma_pow2_pos(shift as nat);
            lemma_pow2_adds(mask_u32 as nat, shift as nat);
            if self.mask >= 1 {
                lemma_multiply_divide_lt(seed as int, divisor as int, pow2(mask_u32 as nat) as int);
            }
        }
        let mut cand: u128 = if self.mask == 0 {
            0
        } else {
            seed / divisor
        };
        let ghost m: nat = m_u128 as nat;
        let ghost w0: nat = if cand == 0 {
            0
        } else {
            (cand - 1) as nat
        };
        let mut out: Vec<String> = Vec::new();
        let mut produced: u16 = 0;
        while produced < max_to_generate
            invariant
                self.mask <= 128,
                mask_u32 == self.mask as u32,
                shift == 128 - mask_u32,
                max_to_generate > 0 ==> divisor == pow2(shift as nat),
                m == pow2(self.mask as nat) - 1,
                m_u128 == m,
                max_to_generate as nat == cidr6_expected_len(self.count, self.mask),
                max_to_generate > 0 ==> (m > 0 && w0 < m),
                produced <= max_to_generate,
                out@.len() == produced as nat,
                forall|i: int|
                    0 <= i < produced as nat ==> (#[trigger] out@[i])@ == cidr6_text(
                        cidr6_id_addr(self.mask, cidr6_nth_id(w0, m, i)),
                        self.mask,
                    ),
                produced == 0 ==> ((cand == 0 && w0 == 0) || (cand as nat == w0 + 1 && cand as nat
                    <= m)),
                produced > 0 ==> cand as int == (cidr6_nth_id(w0, m, produced as int - 1) as int
                    + 1) % 0x1_0000_0000_0000_0000_0000_0000_0000_0000int,
            decreases max_to_generate as int - produced as int,
        {
            proof {
                lemma_pow2_128();
                lemma_pow2_pos(shift as nat);
                if self.mask < 128 {
                    vstd::arithmetic::power2::lemma_pow2_strictly_increases(
                        self.mask as nat,
                        128,
                    );
                }
                lemma_nth_wrap_bound(w0, m, produced as nat);
                if produced > 0 {
                    lemma_nth_wrap_bound(w0, m, (produced - 1) as nat);
                    lemma_nth_wrap_step(w0, m, (produced - 1) as nat);
                    // The unnormalized candidate is the previous identity
                    // plus one, possibly wrapped at the type width.
                    let prev: nat = cidr6_nth_id(w0, m, produced as int - 1) as nat;
                    if prev + 1 < 0x1_0000_0000_0000_0000_0000_0000_0000_0000int {
                        lemma_small_mod(prev + 1, (0x1_0000_0000_0000_0000_0000_0000_0000_0000int) as nat);
                    } else {
                        assert(prev + 1 == 0x1_0000_0000_0000_0000_0000_0000_0000_0000int);
                        lemma_mod_self_0(0x1_0000_0000_0000_0000_0000_0000_0000_0000int);
                    }
                    assert(cand as nat == if prev + 1 < 0x1_0000_0000_0000_0000_0000_0000_0000_0000int {
                        prev + 1
                    } else {
                        0nat
                    });
                } else {
                    lemma_nth_wrap_first(w0, m);
                }
                if self.mask < 128 {
                    if (cand as nat) < m + 1 {
                        lemma_small_mod(cand as nat, m + 1);
                    } else {
                        assert(cand as nat == m + 1);
                        lemma_mod_self_0((m + 1) as int);
                    }
                }
            }
            let on_reserved: bool = if self.mask == 128 {
                cand == 0
            } else {
                cand % (m_u128 + 1) == 0
            };
            if on_reserved {
                // The zero prefix identity is reserved: skip to the smallest
                // valid candidate.
                cand = 1;
            }
            proof {
                assert(cand as nat == 1 + nth_wrap(w0, m, produced as nat));
            }
            let ghost id = cidr6_nth_id(w0, m, produced as int);
            proof {
                lemma_pow2_adds(self.mask as nat, shift as nat);
                lemma_mul_inequality(cand as int, m as int, divisor as int);
                vstd::arithmetic::mul::lemma_mul_is_distributive_sub_other_way(
                    divisor as int,
                    pow2(self.mask as nat) as int,
                    1,
                );
                assert(m * divisor == pow2(128) - divisor);
            }
            let addr: u128 = cand * divisor;
            proof {
                assert(addr == cidr6_id_addr(self.mask, id));
            }
            let s = cidr6_string(addr, self.mask);
            out.push(s);
            produced = produced + 1;
            cand = cand.wrapping_add(1);
            proof {
                let prev: nat = cidr6_nth_id(w0, m, produced as int - 1) as nat;
                if prev + 1 < 0x1_0000_0000_0000_0000_0000_0000_0000_0000int {
                    lemma_small_mod(prev + 1, (0x1_0000_0000_0000_0000_0000_0000_0000_0000int) as nat);
                } else {
                    lemma_mod_self_0(0x1_0000_0000_0000_0000_0000_0000_0000_0000int);
                }
            }
        }
        proof {
            let ids = Seq::new(max_to_generate as nat, |i: int| cidr6_nth_id(w0, m, i));
            if max_to_generate > 0 {
                assert forall|i: int|
                    0 <= i < ids.len() implies cidr6_valid_id(self.mask, #[trigger] ids[i]) by {
                    lemma_nth_wrap_bound(w0, m, i as nat);
                }
                assert forall|i: int, j: int| 0 <= i < j < ids.len() implies ids[i] != ids[j] by {
                    lemma_nth_wrap_bound(w0, m, i as nat);
                    lemma_nth_wrap_bound(w0, m, j as nat);
                    lemma_nth_wrap_distinct(w0, m, i as nat, j as nat);
                }
            }
            assert(cidr6_output_ok(self.count, self.mask, ids, out@));
            assert(cidr6_output_valid(self.count, self.mask, out@));
        }
        Some(out)
    }
}

} // verus!
