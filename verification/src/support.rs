//! Scalar and choice generators: fixed-alphabet strings, MAC address text,
//! interface and object names, and picking one of several precomputed values.

use vstd::prelude::*;

verus! {

use crate::driver::Driver;
use crate::ipv4::ipv4_text;
use crate::ipv6::ipv6_text;
use crate::ipv4::Ipv4AddrString;
use crate::ipv6::Ipv6AddrString;
use crate::ipv4::{cidr4_text, mask4, V4CidrString};
use crate::ipv6::{cidr6_text, mask6, V6CidrString};
use crate::text::{dec_text, hex_text2, push_char, push_dec_u64, push_hex2_u64};

/// The alphanumeric alphabet, digits first.
pub open spec fn alpha_numeric_alphabet() -> Seq<char> {
    "0123456789abcdefghijklmnopqrstuvwxyzABCDEFGHIJKLMNOPQRSTUVWXYZ"@
}

/// The alphanumeric alphabet, as executable text.
pub fn alpha_numeric_chars() -> (r: &'static str)
    ensures
        r@ == alpha_numeric_alphabet(),
        r@.len() == 62,
{
    let s = "0123456789abcdefghijklmnopqrstuvwxyzABCDEFGHIJKLMNOPQRSTUVWXYZ";
    proof {
        reveal_strlit("0123456789abcdefghijklmnopqrstuvwxyzABCDEFGHIJKLMNOPQRSTUVWXYZ");
    }
    s
}

/// A string drawn from a fixed alphabet: first a length within the given
/// inclusive bounds, then one independently drawn character per position.
pub fn gen_from_chars<D: Driver>(
    d: &mut D,
    chars: &str,
    min_len: usize,
    max_len: usize,
) -> (r: Option<String>)
    requires
        min_len <= max_len,
        chars@.len() >= 1,
    ensures
        r matches Some(s) ==> {
            &&& min_len <= s@.len() <= max_len
            &&& forall|i: int| 0 <= i < s@.len() ==> chars@.contains(#[trigger] s@[i])
        },
{
    let n = chars.unicode_len();
    let len = d.gen_usize(min_len, max_len)?;
    let mut s = String::new();
    let mut i: usize = 0;
    while i < len
        invariant
            i <= len,
            n == chars@.len(),
            n >= 1,
            s@.len() == i as nat,
            forall|k: int| 0 <= k < s@.len() ==> chars@.contains(#[trigger] s@[k]),
        decreases len - i,
    {
        let idx = d.gen_usize(0, n - 1)?;
        let c = chars.get_char(idx);
        proof {
            assert(chars@[idx as int] == c);
            assert(chars@.contains(c));
        }
        push_char(&mut s, c);
        i = i + 1;
    }
    Some(s)
}

/// The text of a unicast MAC address: six colon-separated two-digit hex
/// bytes, least significant byte first.
pub open spec fn mac_text(mac: u64) -> Seq<char> {
    hex_text2((mac % 256) as nat) + seq![':'] + hex_text2(((mac / 0x100) % 256) as nat)
        + seq![':'] + hex_text2(((mac / 0x1_0000) % 256) as nat) + seq![':'] + hex_text2(
        ((mac / 0x100_0000) % 256) as nat,
    ) + seq![':'] + hex_text2(((mac / 0x1_0000_0000) % 256) as nat) + seq![':'] + hex_text2(
        ((mac / 0x100_0000_0000) % 256) as nat,
    )
}

/// The colon-separated lowercase hex text of a 48-bit value.
#[verifier::rlimit(100)]
fn mac_string(mac: u64) -> (r: String)
    ensures
        r@ == mac_text(mac),
{
    let b0: u64 = mac % 256;
    let b1: u64 = (mac / 0x100) % 256;
    let b2: u64 = (mac / 0x1_0000) % 256;
    let b3: u64 = (mac / 0x100_0000) % 256;
    let b4: u64 = (mac / 0x1_0000_0000) % 256;
    let b5: u64 = (mac / 0x100_0000_0000) % 256;
    let mut s = String::new();
    push_hex2_u64(&mut s, b0);
    push_char(&mut s, ':');
    push_hex2_u64(&mut s, b1);
    push_char(&mut s, ':');
    push_hex2_u64(&mut s, b2);
    push_char(&mut s, ':');
    push_hex2_u64(&mut s, b3);
    push_char(&mut s, ':');
    push_hex2_u64(&mut s, b4);
    push_char(&mut s, ':');
    push_hex2_u64(&mut s, b5);
    proof {
        assert(s@ =~= mac_text(mac));
    }
    s
}

/// A random source MAC address in lowercase hex text.  Only lowercase is
/// generated so that addresses compare reliably as plain strings.
pub struct SourceMacAddrString(String);

impl SourceMacAddrString {
    /// The text itself.
    pub fn inner(&self) -> (r: &str)
        ensures
            r@ == self@,
    {
        self.0.as_str()
    }

    /// Draw a 48-bit value, clear the least significant bit for unicast, and
    /// format it.  The draw starts at two so that clearing the bit cannot
    /// yield the all-zero address.
    pub fn generate<D: Driver>(d: &mut D) -> (r: Option<SourceMacAddrString>)
        ensures
            r matches Some(x) ==> exists|mac: u64|
                2 <= mac < 0xffff_ffff_ffff && mac % 2 == 0 && x@ == mac_text(mac),
    {
        let raw = d.gen_u64(2, 0xffff_ffff_fffe)?;
        proof {
            vstd::arithmetic::div_mod::lemma_fundamental_div_mod(raw as int, 2);
            vstd::arithmetic::div_mod::lemma_mod_bound(raw as int, 2);
        }
        let mac = raw - raw % 2;
        proof {
            vstd::arithmetic::div_mod::lemma_mod_multiples_basic(raw as int / 2, 2);
        }
        let s = mac_string(mac);
        proof {
            assert(2 <= mac < 0xffff_ffff_ffff && mac % 2 == 0 && s@ == mac_text(mac));
        }
        Some(SourceMacAddrString(s))
    }
}

impl View for SourceMacAddrString {
    type V = Seq<char>;

    closed spec fn view(&self) -> Seq<char> {
        self.0@
    }
}

/// The characters allowed in an interface name.
pub open spec fn if_name_alphabet() -> Seq<char> {
    "ABCDEFGHIJKLMNOPQRSTUVWXYZabcdefghijklmnopqrstuvwxyz0123456789_"@
}

/// The characters allowed in an interface name, as executable text.
fn if_name_chars() -> (r: &'static str)
    ensures
        r@ == if_name_alphabet(),
        r@.len() == 63,
{
    let s = "ABCDEFGHIJKLMNOPQRSTUVWXYZabcdefghijklmnopqrstuvwxyz0123456789_";
    proof {
        reveal_strlit("ABCDEFGHIJKLMNOPQRSTUVWXYZabcdefghijklmnopqrstuvwxyz0123456789_");
    }
    s
}

/// A legal interface name: one to sixteen characters, each from the
/// interface-name alphabet.
pub open spec fn valid_if_name(s: Seq<char>) -> bool {
    &&& 1 <= s.len() <= 16
    &&& forall|i: int| 0 <= i < s.len() ==> if_name_alphabet().contains(#[trigger] s[i])
}

/// A random Linux interface name: one to sixteen characters from the
/// interface-name alphabet.
pub struct LinuxIfName(pub String);

impl LinuxIfName {
    pub fn generate<D: Driver>(d: &mut D) -> (r: Option<LinuxIfName>)
        ensures
            r matches Some(x) ==> valid_if_name(x.0@),
    {
        let s = gen_from_chars(d, if_name_chars(), 1, 16)?;
        Some(LinuxIfName(s))
    }
}

/// An interface name for slot `i`: a short stem from the interface-name
/// alphabet followed by the slot index in decimal.
pub open spec fn stem_indexed_name(name: Seq<char>, i: int) -> bool {
    exists|stem: Seq<char>|
        #![trigger stem.len()]
        {
            &&& 1 <= stem.len() <= 8
            &&& (forall|k: int| 0 <= k < stem.len() ==> if_name_alphabet().contains(#[trigger] stem[k]))
            &&& name == stem + dec_text(i as nat)
        }
}

/// Produces a requested number of interface names, each a short random stem
/// followed by the element's index in decimal.
pub struct LinuxIfNamesGenerator {
    pub count: u16,
}

impl LinuxIfNamesGenerator {
    pub fn generate<D: Driver>(&self, d: &mut D) -> (r: Option<Vec<String>>)
        ensures
            self.count == 0 ==> r is Some,
            r matches Some(v) ==> {
                &&& v@.len() == self.count as nat
                &&& forall|i: int|
                    0 <= i < v@.len() ==> stem_indexed_name((#[trigger] v@[i])@, i)
            },
    {
        let mut out: Vec<String> = Vec::new();
        let mut i: u16 = 0;
        while i < self.count
            invariant
                i <= self.count,
                out@.len() == i as nat,
                forall|k: int|
                    0 <= k < out@.len() ==> stem_indexed_name((#[trigger] out@[k])@, k),
            decreases self.count - i,
        {
            let mut name = gen_from_chars(d, if_name_chars(), 1, 8)?;
            let ghost stem = name@;
            push_dec_u64(&mut name, i as u64);
            proof {
                assert(1 <= stem.len() <= 8 && name@ == stem + dec_text(i as nat));
                assert(forall|k: int|
                    0 <= k < stem.len() ==> if_name_alphabet().contains(#[trigger] stem[k]));
                assert(stem_indexed_name(name@, i as int));
            }
            out.push(name);
            i = i + 1;
        }
        Some(out)
    }
}

/// The characters allowed at the ends of an object name.
pub open spec fn k8s_end_alphabet() -> Seq<char> {
    "abcdefghijklmnopqrstuvwxyz0123456789"@
}

/// The characters allowed at the ends of an object name, as executable text.
fn k8s_end_chars() -> (r: &'static str)
    ensures
        r@ == k8s_end_alphabet(),
        r@.len() == 36,
{
    let s = "abcdefghijklmnopqrstuvwxyz0123456789";
    proof {
        reveal_strlit("abcdefghijklmnopqrstuvwxyz0123456789");
    }
    s
}

/// The characters allowed in the middle of an object name.
pub open spec fn k8s_other_alphabet() -> Seq<char> {
    "abcdefghijklmnopqrstuvwxyz0123456789-"@
}

/// The characters allowed in the middle of an object name, as executable
/// text.
fn k8s_other_chars() -> (r: &'static str)
    ensures
        r@ == k8s_other_alphabet(),
        r@.len() == 37,
{
    let s = "abcdefghijklmnopqrstuvwxyz0123456789-";
    proof {
        reveal_strlit("abcdefghijklmnopqrstuvwxyz0123456789-");
    }
    s
}

/// A random object name: a leading character from the end alphabet
/// followed by up to sixty further characters from the middle alphabet, so
/// at most sixty-one characters in all.
pub struct K8sObjectNameString(pub String);

impl K8sObjectNameString {
    pub fn generate<D: Driver>(d: &mut D) -> (r: Option<K8sObjectNameString>)
        ensures
            r matches Some(x) ==> {
                &&& 1 <= x.0@.len() <= 61
                &&& k8s_end_alphabet().contains(x.0@[0])
                &&& forall|i: int|
                    1 <= i < x.0@.len() ==> k8s_other_alphabet().contains(#[trigger] x.0@[i])
            },
    {
        let len = d.gen_usize(2, 63)?;
        let first = gen_from_chars(d, k8s_end_chars(), 1, 1)?;
        let mid_max: usize = if len >= 3 {
            len - 3
        } else {
            0
        };
        let middle = gen_from_chars(d, k8s_other_chars(), 0, mid_max)?;
        let tail = gen_from_chars(d, k8s_end_chars(), 0, 0)?;
        let mut s = first;
        let middle_str: &str = middle.as_str();
        s.append(middle_str);
        let tail_str: &str = tail.as_str();
        s.append(tail_str);
        Some(K8sObjectNameString(s))
    }
}

/// A random IP address in text form, of either family.
pub struct IpAddrString(pub String);

impl IpAddrString {
    pub fn generate<D: Driver>(d: &mut D) -> (r: Option<IpAddrString>)
        ensures
            r matches Some(x) ==> (exists|a: u32| x.0@ == ipv4_text(a)) || (exists|a: u128|
                x.0@ == ipv6_text(a)),
    {
        let is_ipv4 = d.gen_bool()?;
        if is_ipv4 {
            let v = Ipv4AddrString::generate(d)?;
            Some(IpAddrString(v.0))
        } else {
            let v = Ipv6AddrString::generate(d)?;
            Some(IpAddrString(v.0))
        }
    }
}

/// A random CIDR block in text form, of either family.
pub struct CidrString(pub String);

impl CidrString {
    pub fn generate<D: Driver>(d: &mut D) -> (r: Option<CidrString>)
        ensures
            r matches Some(x) ==> (exists|a: u32, m: u8| m <= 32 && x.0@ == cidr4_text(
                mask4(a, m),
                m,
            )) || (exists|a: u128, m: u8| m <= 128 && x.0@ == cidr6_text(mask6(a, m), m)),
    {
        let is_ipv4 = d.gen_bool()?;
        if is_ipv4 {
            let v = V4CidrString::generate(d)?;
            Some(CidrString(v.0))
        } else {
            let v = V6CidrString::generate(d)?;
            Some(CidrString(v.0))
        }
    }
}

/// Pick one of several precomputed values, uniformly.
pub fn pick<T: Clone, D: Driver>(d: &mut D, choices: &[T]) -> (r: Option<T>)
    requires
        choices@.len() >= 1,
    ensures
        r matches Some(v) ==> exists|i: int|
            0 <= i < choices@.len() && cloned(#[trigger] choices@[i], v),
{
    let index = d.gen_usize(0, choices.len() - 1)?;
    let v = choices[index].clone();
    Some(v)
}

/// An explicit coin flip between a produced value and absence.
pub fn pick_optional<T, D: Driver>(d: &mut D, value: T) -> (r: Option<Option<T>>)
    ensures
        r matches Some(o) ==> (o == Some(value) || o is None),
{
    let keep = d.gen_usize(0, 1)?;
    if keep == 0 {
        Some(Some(value))
    } else {
        Some(None)
    }
}

} // verus!
