//! IPv4 address text and the unique IPv4 network-block allocator.
//!
//! An address is a `u32`; its text is the dotted-decimal form, and a CIDR
//! block is written `address/prefix-length`.  The allocator turns one random
//! seed into a run of pairwise-distinct block identities.

use vstd::prelude::*;

verus! {

use crate::cycle::{
    nth_wrap,
    lemma_nth_wrap_bound,
    lemma_nth_wrap_distinct,
    lemma_nth_wrap_first,
    lemma_nth_wrap_step,
};
use crate::driver::Driver;
use crate::power::pow2_u64;
use crate::text::{dec_text, push_char, push_dec_u64};
use vstd::arithmetic::div_mod::{lemma_fundamental_div_mod, lemma_multiply_divide_lt};
use vstd::arithmetic::mul::lemma_mul_inequality;
use vstd::arithmetic::power2::{pow2, lemma_pow2_adds, lemma2_to64};

/// The dotted-decimal text of an IPv4 address.
pub open spec fn ipv4_text(a: u32) -> Seq<char> {
    dec_text((a / 0x100_0000) as nat) + seq!['.'] + dec_text(((a / 0x1_0000) % 256) as nat)
        + seq!['.'] + dec_text(((a / 256) % 256) as nat) + seq!['.'] + dec_text((a % 256) as nat)
}

/// The text of an IPv4 CIDR block: the address, a slash, the prefix length.
pub open spec fn cidr4_text(a: u32, mask: u8) -> Seq<char> {
    ipv4_text(a) + seq!['/'] + dec_text(mask as nat)
}

/// The address with its host bits (the low `32 - mask` bits) cleared.
pub open spec fn mask4(a: u32, mask: u8) -> u32
    recommends
        mask <= 32,
{
    ((a as nat / pow2((32 - mask) as nat)) * pow2((32 - mask) as nat)) as u32
}

/// Append the dotted-decimal text of an IPv4 address.
pub fn push_ipv4(s: &mut String, a: u32)
    ensures
        final(s)@ == old(s)@ + ipv4_text(a),
{
    push_dec_u64(s, (a / 0x100_0000) as u64);
    push_char(s, '.');
    push_dec_u64(s, ((a / 0x1_0000) % 256) as u64);
    push_char(s, '.');
    push_dec_u64(s, ((a / 256) % 256) as u64);
    push_char(s, '.');
    push_dec_u64(s, (a % 256) as u64);
    assert(s@ =~= old(s)@ + ipv4_text(a));
}

/// The dotted-decimal text of an IPv4 address, as a fresh string.
pub fn ipv4_string(a: u32) -> (r: String)
    ensures
        r@ == ipv4_text(a),
{
    let mut s = String::new();
    push_ipv4(&mut s, a);
    assert(s@ =~= ipv4_text(a));
    s
}

/// The text of an IPv4 CIDR block, as a fresh string.
pub fn cidr4_string(a: u32, mask: u8) -> (r: String)
    ensures
        r@ == cidr4_text(a, mask),
{
    let mut s = String::new();
    push_ipv4(&mut s, a);
    push_char(&mut s, '/');
    push_dec_u64(&mut s, mask as u64);
    assert(s@ =~= cidr4_text(a, mask));
    s
}

/// Mask an address down to its prefix and format it as a CIDR block.
pub fn v4cdir_from_bytes(addr_bytes: u32, mask: u8) -> (r: String)
    requires
        mask <= 32,
    ensures
        r@ == cidr4_text(mask4(addr_bytes, mask), mask),
{
    let shift: u32 = 32 - mask as u32;
    let divisor: u64 = pow2_u64(shift);
    proof {
        vstd::arithmetic::power2::lemma_pow2_pos(shift as nat);
        lemma_fundamental_div_mod(addr_bytes as int, divisor as int);
        vstd::arithmetic::div_mod::lemma_mod_bound(addr_bytes as int, divisor as int);
    }
    let rem: u64 = (addr_bytes as u64) % divisor;
    let masked: u32 = ((addr_bytes as u64) - rem) as u32;
    proof {
        vstd::arithmetic::mul::lemma_mul_is_commutative(
            divisor as int,
            addr_bytes as int / divisor as int,
        );
        assert(masked == mask4(addr_bytes, mask));
    }
    cidr4_string(masked, mask)
}

/// A random IPv4 address in dotted-decimal text form.
pub struct Ipv4AddrString(pub String);

impl Ipv4AddrString {
    /// Draw one address from the middle of the address space and format it.
    pub fn generate<D: Driver>(d: &mut D) -> (r: Option<Ipv4AddrString>)
        ensures
            r matches Some(x) ==> exists|a: u32|
                0x1000_0000 <= a < 0xffff_ffff && x.0@ == ipv4_text(a),
    {
        let a = d.gen_u32(0x1000_0000, 0xffff_fffe)?;
        let s = ipv4_string(a);
        Some(Ipv4AddrString(s))
    }
}

/// A random IPv4 CIDR block in text form, host bits cleared.
pub struct V4CidrString(pub String);

impl V4CidrString {
    /// Draw a prefix length and an address, mask it, and format it.
    pub fn generate<D: Driver>(d: &mut D) -> (r: Option<V4CidrString>)
        ensures
            r matches Some(x) ==> exists|a: u32, m: u8|
                m <= 32 && x.0@ == cidr4_text(mask4(a, m), m),
    {
        let mask = d.gen_u8(0, 32)?;
        let addr_bytes = d.gen_u32(0, u32::MAX)?;
        let s = v4cdir_from_bytes(addr_bytes, mask);
        Some(V4CidrString(s))
    }
}

/// How many blocks the allocator emits for a requested count and prefix
/// length: one for the default route, and otherwise the requested count
/// clamped to the number of representable non-zero prefix identities.
pub open spec fn cidr4_expected_len(count: u16, mask: u8) -> nat {
    if mask == 0 {
        if count > 0 {
            1
        } else {
            0
        }
    } else if pow2(mask as nat) - 1 < count {
        (pow2(mask as nat) - 1) as nat
    } else {
        count as nat
    }
}

/// A legal block identity: the zero prefix stands only for the default
/// route; every other identity is a non-zero value of the prefix bits.
pub open spec fn cidr4_valid_id(mask: u8, id: u32) -> bool {
    if mask == 0 {
        id == 0
    } else {
        1 <= id <= pow2(mask as nat) - 1
    }
}

/// The address of a block identity: the identity shifted into the high
/// `mask` bits.
pub open spec fn cidr4_id_addr(mask: u8, id: u32) -> u32
    recommends
        mask <= 32,
{
    ((id as nat) * pow2((32 - mask) as nat)) as u32
}

/// What the allocator promises of its output: as many blocks as are
/// representable, each a legal identity, pairwise distinct, each rendered
/// as the text of its masked address and prefix length.
pub open spec fn cidr4_output_ok(count: u16, mask: u8, ids: Seq<u32>, out: Seq<String>) -> bool {
    &&& ids.len() == cidr4_expected_len(count, mask)
    &&& out.len() == ids.len()
    &&& (forall|i: int| 0 <= i < ids.len() ==> cidr4_valid_id(mask, #[trigger] ids[i]))
    &&& (forall|i: int, j: int| 0 <= i < j < ids.len() ==> ids[i] != ids[j])
    &&& (forall|i: int|
        0 <= i < ids.len() ==> (#[trigger] out[i])@ == cidr4_text(cidr4_id_addr(mask, ids[i]), mask))
}

/// The output is valid when some identity sequence accounts for it.
pub open spec fn cidr4_output_valid(count: u16, mask: u8, out: Seq<String>) -> bool {
    exists|ids: Seq<u32>| cidr4_output_ok(count, mask, ids, out)
}

/// The identity emitted at step `i`, walking the cycle `[1, m]` from the
/// normalized starting candidate `1 + w0`.
pub open spec fn cidr4_nth_id(w0: nat, m: nat, i: int) -> u32
    recommends
        m > 0,
        0 <= i,
{
    (1 + nth_wrap(w0, m, i as nat)) as u32
}

/// Produces a requested number of syntactically distinct IPv4 CIDR blocks
/// of one fixed prefix length from a single random seed.
#[derive(Debug)]
pub struct UniqueV4CidrGenerator {
    pub count: u16,
    pub mask: u8,
}

impl UniqueV4CidrGenerator {
    pub fn new(count: u16, mask: u8) -> (r: Self)
        ensures
            r.count == count,
            r.mask == mask,
    {
        Self { count, mask }
    }

    /// Emit the blocks: one draw seeds the walk; candidates advance by one,
    /// skipping the reserved zero prefix identity, so distinctness holds by
    /// construction.
    pub fn generate<D: Driver>(&self, d: &mut D) -> (r: Option<Vec<String>>)
        requires
            self.mask <= 32,
        ensures
            self.mask == 0 && self.count > 0 ==> r is Some,
            r matches Some(v) ==> cidr4_output_valid(self.count, self.mask, v@),
    {
        proof {
            lemma2_to64();
        }
        if self.mask == 0 && self.count > 0 {
            // The only representable block is the default route; consume one
            // draw for parity with the general path.
            let _ = d.gen_u32(0, u32::MAX);
            let mut out: Vec<String> = Vec::new();
            out.push(cidr4_string(0, 0));
            proof {
                let ids: Seq<u32> = seq![0u32];
                assert(cidr4_id_addr(0, 0) == 0);
                assert(cidr4_output_ok(self.count, self.mask, ids, out@));
                assert(cidr4_output_valid(self.count, self.mask, out@));
            }
            return Some(out);
        }
        let mask_u32 = self.mask as u32;
        let shift: u32 = 32 - mask_u32;
        proof {
            if mask_u32 >= 1 {
                vstd::arithmetic::power2::lemma_pow2_strictly_increases(0, mask_u32 as nat);
            }
            if mask_u32 < 32 {
                vstd::arithmetic::power2::lemma_pow2_strictly_increases(mask_u32 as nat, 32);
            }
        }
        let m_u64: u64 = pow2_u64(mask_u32) - 1;
        let max_to_generate: u16 = if m_u64 < self.count as u64 {
            m_u64 as u16
        } else {
            self.count
        };
        let seed = d.gen_u32(0x1000_0000, u32::MAX)?;
        let divisor: u64 = pow2_u64(shift);
        proof {
            vstd::arithmetic::power2::lemma_pow2_pos(shift as nat);
            lemma_pow2_adds(mask_u32 as nat, shift as nat);
            lemma_multiply_divide_lt(seed as int, divisor as int, pow2(mask_u32 as nat) as int);
        }
        let mut cand: u32 = ((seed as u64) / divisor) as u32;
        let ghost m: nat = m_u64 as nat;
        let ghost w0: nat = if cand == 0 {
            0
        } else {
            (cand - 1) as nat
        };
        let mut out: Vec<String> = Vec::new();
        let mut produced: u16 = 0;
        while produced < max_to_generate
            invariant
                self.mask <= 32,
                mask_u32 == self.mask as u32,
                shift == 32 - mask_u32,
                divisor == pow2(shift as nat),
                m == pow2(self.mask as nat) - 1,
                m_u64 == m,
                m_u64 <= 0xffff_ffff,
                max_to_generate as nat == cidr4_expected_len(self.count, self.mask),
                max_to_generate > 0 ==> (m > 0 && w0 < m),
                produced <= max_to_generate,
                out@.len() == produced as nat,
                forall|i: int|
                    0 <= i < produced as nat ==> (#[trigger] out@[i])@ == cidr4_text(
                        cidr4_id_addr(self.mask, cidr4_nth_id(w0, m, i)),
                        self.mask,
                    ),
                produced == 0 ==> ((cand == 0 && w0 == 0) || (cand as nat == w0 + 1 && cand as nat
                    <= m)),
                produced > 0 ==> cand as nat == (cidr4_nth_id(w0, m, produced as int - 1) as nat
                    + 1) % 0x1_0000_0000,
            decreases max_to_generate as int - produced as int,
        {
            proof {
                lemma_nth_wrap_bound(w0, m, produced as nat);
                if produced > 0 {
                    lemma_nth_wrap_bound(w0, m, (produced - 1) as nat);
                    lemma_nth_wrap_step(w0, m, (produced - 1) as nat);
                    // The unnormalized candidate is the previous identity
                    // plus one, possibly wrapped at the type width.
                    let prev: nat = cidr4_nth_id(w0, m, produced as int - 1) as nat;
                    if prev + 1 < 0x1_0000_0000 {
                        vstd::arithmetic::div_mod::lemma_small_mod(prev + 1, 0x1_0000_0000);
                    } else {
                        assert(prev + 1 == 0x1_0000_0000);
                        vstd::arithmetic::div_mod::lemma_mod_self_0(0x1_0000_0000);
                    }
                    assert(cand as nat == if prev + 1 < 0x1_0000_0000 {
                        prev + 1
                    } else {
                        0nat
                    });
                } else {
                    lemma_nth_wrap_first(w0, m);
                }
                if (cand as nat) < m + 1 {
                    vstd::arithmetic::div_mod::lemma_small_mod(cand as nat, m + 1);
                } else {
                    assert(cand as nat == m + 1);
                    vstd::arithmetic::div_mod::lemma_mod_self_0((m + 1) as int);
                }
            }
            if ((cand as u64) % (m_u64 + 1)) == 0 {
                // The zero prefix identity is reserved: skip to the smallest
                // valid candidate.
                cand = 1;
            }
            proof {
                assert(cand as nat == 1 + nth_wrap(w0, m, produced as nat));
            }
            let ghost id = cidr4_nth_id(w0, m, produced as int);
            proof {
                lemma2_to64();
                lemma_pow2_adds(self.mask as nat, shift as nat);
                lemma_mul_inequality(cand as int, m as int, divisor as int);
                vstd::arithmetic::mul::lemma_mul_is_distributive_sub_other_way(
                    divisor as int,
                    pow2(self.mask as nat) as int,
                    1,
                );
                assert(m * divisor == 0x1_0000_0000 - divisor);
            }
            let addr: u32 = ((cand as u64) * divisor) as u32;
            proof {
                assert(addr == cidr4_id_addr(self.mask, id));
            }
            let s = cidr4_string(addr, self.mask);
            out.push(s);
            produced = produced + 1;
            cand = cand.wrapping_add(1);
            proof {
                let prev: nat = cidr4_nth_id(w0, m, produced as int - 1) as nat;
                if prev + 1 < 0x1_0000_0000 {
                    vstd::arithmetic::div_mod::lemma_small_mod(prev + 1, 0x1_0000_0000);
                } else {
                    vstd::arithmetic::div_mod::lemma_mod_self_0(0x1_0000_0000);
                }
            }
        }
        proof {
            let ids = Seq::new(max_to_generate as nat, |i: int| cidr4_nth_id(w0, m, i));
            if max_to_generate > 0 {
                assert forall|i: int|
                    0 <= i < ids.len() implies cidr4_valid_id(self.mask, #[trigger] ids[i]) by {
                    lemma_nth_wrap_bound(w0, m, i as nat);
                }
                assert forall|i: int, j: int| 0 <= i < j < ids.len() implies ids[i] != ids[j] by {
                    lemma_nth_wrap_bound(w0, m, i as nat);
                    lemma_nth_wrap_bound(w0, m, j as nat);
                    lemma_nth_wrap_distinct(w0, m, i as nat, j as nat);
                }
            }
            assert(cidr4_output_ok(self.count, self.mask, ids, out@));
            assert(cidr4_output_valid(self.count, self.mask, out@));
        }
        Some(out)
    }
}

} // verus!
