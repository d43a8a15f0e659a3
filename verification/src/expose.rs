//! Generators for exposure records: peered address lists, their AS rules,
//! and the optional NAT configuration.
//!
//! Both rule lists are built over one run of a unique-CIDR producer, so the
//! family of every rule matches and the underlying blocks are distinct.

use vstd::prelude::*;

verus! {

use crate::driver::Driver;
use crate::duration::Duration;
use crate::ipv4::{cidr4_text, cidr4_output_valid, UniqueV4CidrGenerator};
use crate::ipv6::{cidr6_text, cidr6_output_valid, UniqueV6CidrGenerator};

/// One address-rule of a peering: a block to include, or one to exclude.
#[derive(Clone, Debug)]
pub enum PeeringIpsRule {
    Cidr(String),
    Not(String),
}

/// One AS-rule of a peering: a block to include, or one to exclude.
#[derive(Clone, Debug)]
pub enum PeeringAsRule {
    Cidr(String),
    Not(String),
}

/// A peered address entry.
#[derive(Clone, Debug)]
pub struct PeeringIPs {
    pub rule: Option<PeeringIpsRule>,
}

/// A peered AS entry.
#[derive(Clone, Debug)]
pub struct PeeringAs {
    pub rule: Option<PeeringAsRule>,
}

/// Stateful NAT carries an idle timeout.
#[derive(Clone, Debug)]
pub struct PeeringStatefulNat {
    pub idle_timeout: Option<Duration>,
}

/// Stateless NAT carries nothing.
#[derive(Clone, Debug)]
pub struct PeeringStatelessNat {}

/// The NAT mode of an exposure.
#[derive(Clone, Debug)]
pub enum Nat {
    Stateful(PeeringStatefulNat),
    Stateless(PeeringStatelessNat),
}

/// An exposure: peered addresses, peered AS rules, and an optional NAT.
#[derive(Clone, Debug)]
pub struct Expose {
    pub ips: Vec<PeeringIPs>,
    pub as_rules: Vec<PeeringAs>,
    pub nat: Option<Nat>,
}

/// The text a peered address entry carries, whichever way its rule points.
pub open spec fn ips_rule_text(p: PeeringIPs) -> Seq<char> {
    match p.rule {
        Some(PeeringIpsRule::Cidr(c)) => c@,
        Some(PeeringIpsRule::Not(c)) => c@,
        None => Seq::empty(),
    }
}

/// The text a peered AS entry carries, whichever way its rule points.
pub open spec fn as_rule_text(p: PeeringAs) -> Seq<char> {
    match p.rule {
        Some(PeeringAsRule::Cidr(c)) => c@,
        Some(PeeringAsRule::Not(c)) => c@,
        None => Seq::empty(),
    }
}

/// A producer of a list of distinct CIDR block texts.
pub trait CidrProducer: Sized {
    /// Whether this producer's parameters are legal.
    spec fn producer_wf(&self) -> bool;

    /// What this producer promises of an emitted list.
    spec fn list_wf(&self, out: Seq<String>) -> bool;

    fn generate<D: Driver>(&self, d: &mut D) -> (r: Option<Vec<String>>)
        requires
            self.producer_wf(),
        ensures
            r matches Some(v) ==> self.list_wf(v@),
    ;
}

impl CidrProducer for UniqueV4CidrGenerator {
    open spec fn producer_wf(&self) -> bool {
        self.mask <= 32
    }

    open spec fn list_wf(&self, out: Seq<String>) -> bool {
        cidr4_output_valid(self.count, self.mask, out)
    }

    fn generate<D: Driver>(&self, d: &mut D) -> (r: Option<Vec<String>>) {
        UniqueV4CidrGenerator::generate(self, d)
    }
}

impl CidrProducer for UniqueV6CidrGenerator {
    open spec fn producer_wf(&self) -> bool {
        self.mask <= 128
    }

    open spec fn list_wf(&self, out: Seq<String>) -> bool {
        cidr6_output_valid(self.count, self.mask, out)
    }

    fn generate<D: Driver>(&self, d: &mut D) -> (r: Option<Vec<String>>) {
        UniqueV6CidrGenerator::generate(self, d)
    }
}

/// Each entry holds a rule, and the rule's text is the corresponding block.
pub open spec fn ips_match_cidrs(v: Seq<PeeringIPs>, cidrs: Seq<String>) -> bool {
    &&& v.len() == cidrs.len()
    &&& forall|i: int|
        0 <= i < v.len() ==> (#[trigger] v[i]).rule is Some && ips_rule_text(v[i]) == cidrs[i]@
}

/// Each entry holds a rule, and the rule's text is the corresponding block.
pub open spec fn as_match_cidrs(v: Seq<PeeringAs>, cidrs: Seq<String>) -> bool {
    &&& v.len() == cidrs.len()
    &&& forall|i: int|
        0 <= i < v.len() ==> (#[trigger] v[i]).rule is Some && as_rule_text(v[i]) == cidrs[i]@
}

/// The output came from one emitted block list of the producer.
pub open spec fn ips_output_valid<T: CidrProducer>(producer: T, v: Seq<PeeringIPs>) -> bool {
    exists|cidrs: Seq<String>| producer.list_wf(cidrs) && ips_match_cidrs(v, cidrs)
}

/// The output came from one emitted block list of the producer.
pub open spec fn as_output_valid<T: CidrProducer>(producer: T, v: Seq<PeeringAs>) -> bool {
    exists|cidrs: Seq<String>| producer.list_wf(cidrs) && as_match_cidrs(v, cidrs)
}

/// Wraps a unique-CIDR producer into a producer of peered AS entries: one
/// entry per block, each independently an inclusion or an exclusion.
pub struct UniquePeeringAs<T: CidrProducer> {
    pub cidr_producer: T,
}

impl<T: CidrProducer> UniquePeeringAs<T> {
    pub fn new(cidr_producer: T) -> (r: Self)
        ensures
            r.cidr_producer == cidr_producer,
    {
        Self { cidr_producer }
    }

    pub fn generate<D: Driver>(&self, d: &mut D) -> (r: Option<Vec<PeeringAs>>)
        requires
            self.cidr_producer.producer_wf(),
        ensures
            r matches Some(v) ==> as_output_valid(self.cidr_producer, v@),
    {
        let cidrs = self.cidr_producer.generate(d)?;
        let mut out: Vec<PeeringAs> = Vec::new();
        let mut i: usize = 0;
        while i < cidrs.len()
            invariant
                i <= cidrs@.len(),
                out@.len() == i as nat,
                forall|k: int|
                    0 <= k < out@.len() ==> (#[trigger] out@[k]).rule is Some && as_rule_text(
                        out@[k],
                    ) == cidrs@[k]@,
            decreases cidrs@.len() - i,
        {
            let use_not = d.gen_bool()?;
            let cidr = cidrs[i].clone();
            let rule = if use_not {
                PeeringAsRule::Not(cidr)
            } else {
                PeeringAsRule::Cidr(cidr)
            };
            out.push(PeeringAs { rule: Some(rule) });
            i = i + 1;
        }
        proof {
            assert(as_match_cidrs(out@, cidrs@));
            assert(as_output_valid(self.cidr_producer, out@));
        }
        Some(out)
    }
}

/// Wraps a unique-CIDR producer into a producer of peered address entries:
/// one entry per block, each independently an inclusion or an exclusion.
pub struct UniquePeeringIPs<T: CidrProducer> {
    pub cidr_producer: T,
}

impl<T: CidrProducer> UniquePeeringIPs<T> {
    pub fn new(cidr_producer: T) -> (r: Self)
        ensures
            r.cidr_producer == cidr_producer,
    {
        Self { cidr_producer }
    }

    pub fn generate<D: Driver>(&self, d: &mut D) -> (r: Option<Vec<PeeringIPs>>)
        requires
            self.cidr_producer.producer_wf(),
        ensures
            r matches Some(v) ==> ips_output_valid(self.cidr_producer, v@),
    {
        let cidrs = self.cidr_producer.generate(d)?;
        let mut out: Vec<PeeringIPs> = Vec::new();
        let mut i: usize = 0;
        while i < cidrs.len()
            invariant
                i <= cidrs@.len(),
                out@.len() == i as nat,
                forall|k: int|
                    0 <= k < out@.len() ==> (#[trigger] out@[k]).rule is Some && ips_rule_text(
                        out@[k],
                    ) == cidrs@[k]@,
            decreases cidrs@.len() - i,
        {
            let use_not = d.gen_bool()?;
            let cidr = cidrs[i].clone();
            let rule = if use_not {
                PeeringIpsRule::Not(cidr)
            } else {
                PeeringIpsRule::Cidr(cidr)
            };
            out.push(PeeringIPs { rule: Some(rule) });
            i = i + 1;
        }
        proof {
            assert(ips_match_cidrs(out@, cidrs@));
            assert(ips_output_valid(self.cidr_producer, out@));
        }
        Some(out)
    }
}

impl PeeringStatefulNat {
    /// A non-negative idle timeout with a normalized nanosecond part.
    pub fn generate<D: Driver>(d: &mut D) -> (r: Option<PeeringStatefulNat>)
        ensures
            r matches Some(s) ==> (s.idle_timeout matches Some(t) && t.seconds >= 0 && 0 <= t.nanos
                < 1_000_000_000),
    {
        let seconds = d.gen_i64(0, i64::MAX)?;
        let nanos = d.gen_i32(0, 999_999_999)?;
        Some(PeeringStatefulNat { idle_timeout: Some(Duration { seconds, nanos }) })
    }
}

impl PeeringStatelessNat {
    /// Stateless NAT draws nothing and always succeeds.
    pub fn generate<D: Driver>(_d: &mut D) -> (r: Option<PeeringStatelessNat>)
        ensures
            r is Some,
    {
        Some(PeeringStatelessNat {  })
    }
}

/// The NAT invariant: a stateful NAT always carries a normalized,
/// non-negative idle timeout.
pub open spec fn nat_wf(n: Nat) -> bool {
    match n {
        Nat::Stateful(s) => s.idle_timeout matches Some(t) && t.seconds >= 0 && 0 <= t.nanos
            < 1_000_000_000,
        Nat::Stateless(_) => true,
    }
}

impl Nat {
    /// An explicit coin flip between the stateful and the stateless mode.
    pub fn generate<D: Driver>(d: &mut D) -> (r: Option<Nat>)
        ensures
            r matches Some(n) ==> nat_wf(n),
    {
        let stateful = d.gen_bool()?;
        if stateful {
            let s = PeeringStatefulNat::generate(d)?;
            Some(Nat::Stateful(s))
        } else {
            let s = PeeringStatelessNat::generate(d)?;
            Some(Nat::Stateless(s))
        }
    }
}

/// A text that is some IPv4 CIDR block.
pub open spec fn is_cidr4_text(s: Seq<char>) -> bool {
    exists|a: u32, m: u8| m <= 32 && s == cidr4_text(a, m)
}

/// A text that is some IPv6 CIDR block.
pub open spec fn is_cidr6_text(s: Seq<char>) -> bool {
    exists|a: u128, m: u8| m <= 128 && s == cidr6_text(a, m)
}

/// The exposure came from one run of a unique-CIDR producer of one family:
/// the peered addresses are its emitted blocks (so their block identities
/// are pairwise distinct), and the AS rules, when present, are the blocks
/// of a second run of the same producer.
pub open spec fn expose_from_producer(e: Expose) -> bool {
    ||| exists|g: UniqueV4CidrGenerator|
        {
            &&& 8 <= g.mask <= 32
            &&& 1 <= g.count <= 10
            &&& ips_output_valid(g, e.ips@)
            &&& (e.as_rules@.len() >= 1 ==> as_output_valid(g, e.as_rules@))
        }
    ||| exists|g: UniqueV6CidrGenerator|
        {
            &&& 16 <= g.mask <= 128
            &&& 1 <= g.count <= 10
            &&& ips_output_valid(g, e.ips@)
            &&& (e.as_rules@.len() >= 1 ==> as_output_valid(g, e.as_rules@))
        }
}

/// The exposure invariant: at least one peered address, every entry ruled,
/// AS rules exactly when a NAT is present and then as many as there are
/// peered addresses, and one address family across both lists.
pub open spec fn expose_wf(e: Expose) -> bool {
    &&& 1 <= e.ips@.len() <= 10
    &&& e.as_rules@.len() <= 10
    &&& (forall|i: int| 0 <= i < e.ips@.len() ==> (#[trigger] e.ips@[i]).rule is Some)
    &&& (forall|i: int| 0 <= i < e.as_rules@.len() ==> (#[trigger] e.as_rules@[i]).rule is Some)
    &&& ((e.nat is Some) <==> e.as_rules@.len() >= 1)
    &&& (e.as_rules@.len() >= 1 ==> e.as_rules@.len() == e.ips@.len())
    &&& (e.nat matches Some(n) ==> nat_wf(n))
    &&& ((forall|i: int| 0 <= i < e.ips@.len() ==> is_cidr4_text(ips_rule_text(#[trigger] e.ips@[i])))
        && (forall|i: int|
        0 <= i < e.as_rules@.len() ==> is_cidr4_text(as_rule_text(#[trigger] e.as_rules@[i])))
        || (forall|i: int|
        0 <= i < e.ips@.len() ==> is_cidr6_text(ips_rule_text(#[trigger] e.ips@[i]))) && (
    forall|i: int|
        0 <= i < e.as_rules@.len() ==> is_cidr6_text(as_rule_text(#[trigger] e.as_rules@[i]))))
}

/// What one emitted v4 block list gives the address entries: a full-length
/// list of ruled entries, each carrying some IPv4 block text.
proof fn lemma_ips_from_v4(prod: UniqueV4CidrGenerator, v: Seq<PeeringIPs>)
    requires
        ips_output_valid(prod, v),
        8 <= prod.mask <= 32,
        1 <= prod.count <= 10,
    ensures
        v.len() == prod.count,
        forall|i: int| 0 <= i < v.len() ==> (#[trigger] v[i]).rule is Some,
        forall|i: int| 0 <= i < v.len() ==> is_cidr4_text(ips_rule_text(#[trigger] v[i])),
{
    let cidrs = choose|cidrs: Seq<String>| prod.list_wf(cidrs) && ips_match_cidrs(v, cidrs);
    let ids = choose|ids: Seq<u32>|
        crate::ipv4::cidr4_output_ok(prod.count, prod.mask, ids, cidrs);
    vstd::arithmetic::power2::lemma2_to64();
    if prod.mask > 8 {
        vstd::arithmetic::power2::lemma_pow2_strictly_increases(8, prod.mask as nat);
    }
    assert forall|i: int| 0 <= i < v.len() implies is_cidr4_text(
        ips_rule_text(#[trigger] v[i]),
    ) by {
        assert(ips_rule_text(v[i]) == cidrs[i]@);
        assert(cidrs[i]@ == cidr4_text(
            crate::ipv4::cidr4_id_addr(prod.mask, ids[i]),
            prod.mask,
        ));
    }
}

/// What one emitted v6 block list gives the address entries.
proof fn lemma_ips_from_v6(prod: UniqueV6CidrGenerator, v: Seq<PeeringIPs>)
    requires
        ips_output_valid(prod, v),
        16 <= prod.mask <= 128,
        1 <= prod.count <= 10,
    ensures
        v.len() == prod.count,
        forall|i: int| 0 <= i < v.len() ==> (#[trigger] v[i]).rule is Some,
        forall|i: int| 0 <= i < v.len() ==> is_cidr6_text(ips_rule_text(#[trigger] v[i])),
{
    let cidrs = choose|cidrs: Seq<String>| prod.list_wf(cidrs) && ips_match_cidrs(v, cidrs);
    let ids = choose|ids: Seq<u128>|
        crate::ipv6::cidr6_output_ok(prod.count, prod.mask, ids, cidrs);
    vstd::arithmetic::power2::lemma2_to64();
    if prod.mask > 16 {
        vstd::arithmetic::power2::lemma_pow2_strictly_increases(16, prod.mask as nat);
    }
    assert forall|i: int| 0 <= i < v.len() implies is_cidr6_text(
        ips_rule_text(#[trigger] v[i]),
    ) by {
        assert(ips_rule_text(v[i]) == cidrs[i]@);
        assert(cidrs[i]@ == cidr6_text(
            crate::ipv6::cidr6_id_addr(prod.mask, ids[i]),
            prod.mask,
        ));
    }
}

/// What one emitted v4 block list gives the AS entries.
proof fn lemma_as_from_v4(prod: UniqueV4CidrGenerator, v: Seq<PeeringAs>)
    requires
        as_output_valid(prod, v),
        8 <= prod.mask <= 32,
        1 <= prod.count <= 10,
    ensures
        v.len() == prod.count,
        forall|i: int| 0 <= i < v.len() ==> (#[trigger] v[i]).rule is Some,
        forall|i: int| 0 <= i < v.len() ==> is_cidr4_text(as_rule_text(#[trigger] v[i])),
{
    let cidrs = choose|cidrs: Seq<String>| prod.list_wf(cidrs) && as_match_cidrs(v, cidrs);
    let ids = choose|ids: Seq<u32>|
        crate::ipv4::cidr4_output_ok(prod.count, prod.mask, ids, cidrs);
    vstd::arithmetic::power2::lemma2_to64();
    if prod.mask > 8 {
        vstd::arithmetic::power2::lemma_pow2_strictly_increases(8, prod.mask as nat);
    }
    assert forall|i: int| 0 <= i < v.len() implies is_cidr4_text(
        as_rule_text(#[trigger] v[i]),
    ) by {
        assert(as_rule_text(v[i]) == cidrs[i]@);
        assert(cidrs[i]@ == cidr4_text(
            crate::ipv4::cidr4_id_addr(prod.mask, ids[i]),
            prod.mask,
        ));
    }
}

/// What one emitted v6 block list gives the AS entries.
proof fn lemma_as_from_v6(prod: UniqueV6CidrGenerator, v: Seq<PeeringAs>)
    requires
        as_output_valid(prod, v),
        16 <= prod.mask <= 128,
        1 <= prod.count <= 10,
    ensures
        v.len() == prod.count,
        forall|i: int| 0 <= i < v.len() ==> (#[trigger] v[i]).rule is Some,
        forall|i: int| 0 <= i < v.len() ==> is_cidr6_text(as_rule_text(#[trigger] v[i])),
{
    let cidrs = choose|cidrs: Seq<String>| prod.list_wf(cidrs) && as_match_cidrs(v, cidrs);
    let ids = choose|ids: Seq<u128>|
        crate::ipv6::cidr6_output_ok(prod.count, prod.mask, ids, cidrs);
    vstd::arithmetic::power2::lemma2_to64();
    if prod.mask > 16 {
        vstd::arithmetic::power2::lemma_pow2_strictly_increases(16, prod.mask as nat);
    }
    assert forall|i: int| 0 <= i < v.len() implies is_cidr6_text(
        as_rule_text(#[trigger] v[i]),
    ) by {
        assert(as_rule_text(v[i]) == cidrs[i]@);
        assert(cidrs[i]@ == cidr6_text(
            crate::ipv6::cidr6_id_addr(prod.mask, ids[i]),
            prod.mask,
        ));
    }
}

impl Expose {
    /// A full exposure: one family is chosen up front, the address list is
    /// always produced, and the AS list with its NAT is produced behind an
    /// explicit coin flip.  Both lists come from the same unique-CIDR
    /// producer, so their blocks are pairwise distinct.
    pub fn generate<D: Driver>(d: &mut D) -> (r: Option<Expose>)
        ensures
            r matches Some(e) ==> expose_wf(e) && expose_from_producer(e),
    {
        let v4 = d.gen_bool()?;
        let len = d.gen_u16(1, 10)?;
        let v4_mask = d.gen_u8(8, 32)?;
        let v6_mask = d.gen_u8(16, 128)?;
        let peering_ips: Vec<PeeringIPs> = if v4 {
            let producer = UniquePeeringIPs::new(UniqueV4CidrGenerator::new(len, v4_mask));
            let v = producer.generate(d)?;
            proof {
                lemma_ips_from_v4(producer.cidr_producer, v@);
                assert(ips_output_valid(UniqueV4CidrGenerator { count: len, mask: v4_mask }, v@));
            }
            v
        } else {
            let producer = UniquePeeringIPs::new(UniqueV6CidrGenerator::new(len, v6_mask));
            let v = producer.generate(d)?;
            proof {
                lemma_ips_from_v6(producer.cidr_producer, v@);
                assert(ips_output_valid(UniqueV6CidrGenerator { count: len, mask: v6_mask }, v@));
            }
            v
        };
        let has_as = d.gen_bool()?;
        let (as_rules, nat_cfg): (Vec<PeeringAs>, Option<Nat>) = if has_as {
            let n = Nat::generate(d)?;
            if v4 {
                let producer = UniquePeeringAs::new(UniqueV4CidrGenerator::new(len, v4_mask));
                let v = producer.generate(d)?;
                proof {
                    lemma_as_from_v4(producer.cidr_producer, v@);
                    assert(as_output_valid(
                        UniqueV4CidrGenerator { count: len, mask: v4_mask },
                        v@,
                    ));
                }
                (v, Some(n))
            } else {
                let producer = UniquePeeringAs::new(UniqueV6CidrGenerator::new(len, v6_mask));
                let v = producer.generate(d)?;
                proof {
                    lemma_as_from_v6(producer.cidr_producer, v@);
                    assert(as_output_valid(
                        UniqueV6CidrGenerator { count: len, mask: v6_mask },
                        v@,
                    ));
                }
                (v, Some(n))
            }
        } else {
            (Vec::new(), None)
        };
        let result = Expose { ips: peering_ips, as_rules, nat: nat_cfg };
        proof {
            if v4 {
                let g = UniqueV4CidrGenerator { count: len, mask: v4_mask };
                assert(ips_output_valid(g, result.ips@));
                if result.as_rules@.len() >= 1 {
                    assert(as_output_valid(g, result.as_rules@));
                }
            } else {
                let g = UniqueV6CidrGenerator { count: len, mask: v6_mask };
                assert(ips_output_valid(g, result.ips@));
                if result.as_rules@.len() >= 1 {
                    assert(as_output_valid(g, result.as_rules@));
                }
            }
            assert(expose_from_producer(result));
        }
        Some(result)
    }
}

} // verus!
