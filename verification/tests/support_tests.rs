//! The unique allocators, the exposure generator, and the textual forms.

use gateway_config::driver::{Driver, ReplayDriver, SeededDriver};
use gateway_config::expose::{Expose, Nat, PeeringAsRule, PeeringIpsRule};
use gateway_config::ifaddr::{UniqueV4InterfaceAddressGenerator, UniqueV6InterfaceAddressGenerator};
use gateway_config::ipv4::{UniqueV4CidrGenerator, cidr4_string, ipv4_string, v4cdir_from_bytes};
use gateway_config::ipv6::{UniqueV6CidrGenerator, ipv6_string, v6cdir_from_bytes};
use gateway_config::support::{
    CidrString, IpAddrString, K8sObjectNameString, LinuxIfName, LinuxIfNamesGenerator,
    SourceMacAddrString, gen_from_chars, pick,
};
use gateway_config::text::dec_u64_string;

/// Parses a dotted-decimal IPv4 address.
fn parse_ipv4(s: &str) -> Option<u32> {
    let mut octets: Vec<u32> = Vec::new();
    for part in s.split('.') {
        if part.is_empty() || part.len() > 3 || !part.bytes().all(|b| b.is_ascii_digit()) {
            return None;
        }
        if part.len() > 1 && part.starts_with('0') {
            return None;
        }
        let v: u32 = part.parse().ok()?;
        if v > 255 {
            return None;
        }
        octets.push(v);
    }
    if octets.len() != 4 {
        return None;
    }
    Some((octets[0] << 24) | (octets[1] << 16) | (octets[2] << 8) | octets[3])
}

/// Parses one 16-bit hex group.
fn parse_group(s: &str) -> Option<u32> {
    if s.is_empty() || s.len() > 4 || !s.bytes().all(|b| b.is_ascii_hexdigit()) {
        return None;
    }
    u32::from_str_radix(s, 16).ok()
}

/// Parses a canonical IPv6 address, with `::` compression and an optional
/// embedded dotted-decimal tail.
fn parse_ipv6(s: &str) -> Option<u128> {
    let (head, tail) = match s.find("::") {
        Some(pos) => (&s[..pos], Some(&s[pos + 2..])),
        None => (s, None),
    };
    if let Some(t) = tail {
        if t.contains("::") {
            return None;
        }
    }
    let mut front: Vec<u32> = Vec::new();
    let mut back: Vec<u32> = Vec::new();
    let mut fill = |txt: &str, out: &mut Vec<u32>| -> Option<()> {
        if txt.is_empty() {
            return Some(());
        }
        let parts: Vec<&str> = txt.split(':').collect();
        for (i, part) in parts.iter().enumerate() {
            if i == parts.len() - 1 && part.contains('.') {
                let v4 = parse_ipv4(part)?;
                out.push(v4 >> 16);
                out.push(v4 & 0xffff);
            } else {
                out.push(parse_group(part)?);
            }
        }
        Some(())
    };
    fill(head, &mut front)?;
    match tail {
        Some(t) => {
            fill(t, &mut back)?;
            if front.len() + back.len() > 7 {
                return None;
            }
        }
        None => {
            if front.len() != 8 {
                return None;
            }
        }
    }
    let mut groups: Vec<u32> = front;
    while groups.len() + back.len() < 8 {
        groups.push(0);
    }
    groups.extend(back);
    let mut value: u128 = 0;
    for g in groups {
        value = (value << 16) | u128::from(g);
    }
    Some(value)
}

/// Splits `address/mask` into its two parts.
fn split_cidr(s: &str) -> Option<(&str, u32)> {
    let pos = s.find('/')?;
    let mask: u32 = s[pos + 1..].parse().ok()?;
    Some((&s[..pos], mask))
}

#[test]
fn test_unique_v4_cidr_generator() {
    for mask in 0..=32u8 {
        let generator = UniqueV4CidrGenerator::new(10, mask);
        for seed in 0..1000u64 {
            let mut d = SeededDriver::new(seed);
            let cidrs = generator.generate(&mut d).unwrap();
            let mut seen: Vec<&String> = Vec::new();
            for cidr in &cidrs {
                assert!(!seen.contains(&cidr), "Duplicate CIDR found: {cidr}");
                seen.push(cidr);
            }
            assert!(
                !cidrs.is_empty(),
                "No CIDRs generated for mask={mask}, count=10"
            );
            assert!(cidrs.iter().all(|cidr| {
                let (ip, m) = split_cidr(cidr).unwrap();
                assert!(m <= 32);
                parse_ipv4(ip).is_some()
            }));
        }
    }
}

#[test]
fn test_unique_v6_cidr_generator() {
    for mask in 0..=128u8 {
        let generator = UniqueV6CidrGenerator::new(10, mask);
        for seed in 0..1000u64 {
            let mut d = SeededDriver::new(seed);
            let cidrs = generator.generate(&mut d).unwrap();
            let mut seen: Vec<&String> = Vec::new();
            assert!(
                !cidrs.is_empty(),
                "No CIDRs generated for mask={mask}, count=10"
            );
            for cidr in &cidrs {
                assert!(!seen.contains(&cidr), "Duplicate CIDR found: {cidr}");
                seen.push(cidr);
            }
            assert!(cidrs.iter().all(|cidr| {
                let (ip, m) = split_cidr(cidr).unwrap();
                assert!(m <= 128);
                parse_ipv6(ip).is_some()
            }));
        }
    }
}

#[test]
fn test_unique_v4_interface_address_generator() {
    for count in [0u16, 1, 10, 16, 100] {
        let generator = UniqueV4InterfaceAddressGenerator::new(count);
        for seed in 0..200u64 {
            let mut d = SeededDriver::new(seed);
            let addrs = generator.generate(&mut d).unwrap();
            let mut seen: Vec<u32> = Vec::new();
            assert!(
                addrs.len() == usize::from(count),
                "Expected {count} addresses, got {}, {addrs:?}",
                addrs.len(),
            );
            for addr in &addrs {
                let (ip_str, mask) = split_cidr(addr).unwrap();
                let ip = parse_ipv4(ip_str).unwrap();
                assert!(!seen.contains(&ip), "Duplicate address found: {addr}");
                seen.push(ip);
                if mask < 31 {
                    let addr_mask = if mask == 0 { u32::MAX } else { u32::MAX >> mask };
                    let addr_data = ip;
                    assert!(
                        (addr_data & addr_mask) != 0 || mask == 0,
                        "Address is network address: {addr}"
                    );
                    assert!(
                        (addr_data & addr_mask) != addr_mask,
                        "Address is broadcast address: {addr}"
                    );
                }
            }
        }
    }
}

#[test]
fn test_unique_v6_interface_address_generator() {
    for count in [0u16, 1, 10, 16, 100] {
        let generator = UniqueV6InterfaceAddressGenerator::new(count);
        for seed in 0..200u64 {
            let mut d = SeededDriver::new(seed);
            let addrs = generator.generate(&mut d).unwrap();
            let mut seen: Vec<u128> = Vec::new();
            assert!(
                addrs.len() == usize::from(count),
                "Expected {count} addresses, got {}, {addrs:?}",
                addrs.len(),
            );
            for addr in &addrs {
                let (ip_str, mask) = split_cidr(addr).unwrap();
                let ip = parse_ipv6(ip_str).unwrap();
                assert!(!seen.contains(&ip), "Duplicate address found: {addr}");
                seen.push(ip);
                assert!(mask <= 128, "Invalid mask: {mask}");
                if mask < 127 {
                    let addr_mask = if mask == 0 { u128::MAX } else { u128::MAX >> mask };
                    let addr_data = ip;
                    assert!(
                        (addr_data & addr_mask) != 0 || mask == 0,
                        "Address is network address: {addr}"
                    );
                    assert!(
                        (addr_data & addr_mask) != addr_mask,
                        "Address is broadcast address: {addr}"
                    );
                }
            }
        }
    }
}

/// The text a peered address entry carries.
fn get_peering_ip(p: &gateway_config::expose::PeeringIPs) -> Option<&String> {
    match p.rule.as_ref()? {
        PeeringIpsRule::Cidr(c) => Some(c),
        PeeringIpsRule::Not(c) => Some(c),
    }
}

/// The text a peered AS entry carries.
fn get_peering_as_ip(p: &gateway_config::expose::PeeringAs) -> Option<&String> {
    match p.rule.as_ref()? {
        PeeringAsRule::Cidr(c) => Some(c),
        PeeringAsRule::Not(c) => Some(c),
    }
}

/// Whether a parsed CIDR text is a v4 one.
fn parse_cidr(s: &str) -> Option<(bool, u128, u32)> {
    let (ip, mask) = split_cidr(s)?;
    if let Some(v4) = parse_ipv4(ip) {
        return Some((true, u128::from(v4), mask));
    }
    let v6 = parse_ipv6(ip)?;
    Some((false, v6, mask))
}

/// Whether every address in the list belongs to one family.
fn ip_type_same(kinds: &[bool]) -> bool {
    kinds.iter().all(|k| *k) || kinds.iter().all(|k| !*k)
}

#[test]
fn test_expose() {
    let mut more_than_one = false;
    for seed in 0..300u64 {
        let mut d = SeededDriver::new(seed);
        let expose = Expose::generate(&mut d).unwrap();
        assert!(!expose.ips.is_empty());
        if expose.ips.len() > 1 {
            more_than_one = true;
        }
        let ip_kinds: Vec<bool> = expose
            .ips
            .iter()
            .map(|ip| parse_cidr(get_peering_ip(ip).unwrap()).unwrap().0)
            .collect();
        assert!(ip_type_same(ip_kinds.as_slice()));
        let as_kinds: Vec<bool> = expose
            .as_rules
            .iter()
            .map(|a| parse_cidr(get_peering_as_ip(a).unwrap()).unwrap().0)
            .collect();
        assert!(ip_type_same(as_kinds.as_slice()));
        if !expose.as_rules.is_empty() {
            let Some(ref nat_cfg) = expose.nat else {
                panic!("nat is None");
            };
            match nat_cfg {
                Nat::Stateless(_s) => {}
                Nat::Stateful(s) => {
                    assert!(s.idle_timeout.is_some());
                }
            }
        }
    }
    assert!(more_than_one);
}

#[test]
fn test_decimal_text() {
    assert_eq!(dec_u64_string(0), "0");
    assert_eq!(dec_u64_string(7), "7");
    assert_eq!(dec_u64_string(1234), "1234");
    assert_eq!(dec_u64_string(u64::MAX), "18446744073709551615");
}

#[test]
fn test_ipv4_text() {
    assert_eq!(ipv4_string(0), "0.0.0.0");
    assert_eq!(ipv4_string(0xC0A8_0101), "192.168.1.1");
    assert_eq!(ipv4_string(u32::MAX), "255.255.255.255");
    assert_eq!(cidr4_string(0x0A00_0000, 8), "10.0.0.0/8");
    assert_eq!(v4cdir_from_bytes(0xC0A8_01FF, 24), "192.168.1.0/24");
    assert_eq!(v4cdir_from_bytes(0xC0A8_01FF, 0), "0.0.0.0/0");
    assert_eq!(v4cdir_from_bytes(0x0102_0304, 32), "1.2.3.4/32");
}

#[test]
fn test_ipv6_text() {
    assert_eq!(ipv6_string(0), "::");
    assert_eq!(ipv6_string(1), "::1");
    assert_eq!(
        ipv6_string(0x2001_0db8_0000_0000_0000_0000_0000_0001),
        "2001:db8::1"
    );
    // A single zero group is not compressed.
    assert_eq!(
        ipv6_string(0x0001_0000_0002_0003_0004_0005_0006_0007),
        "1:0:2:3:4:5:6:7"
    );
    // The first of two equally long zero runs is compressed.
    assert_eq!(
        ipv6_string(0x0001_0000_0000_0002_0000_0000_0003_0004),
        "1::2:0:0:3:4"
    );
    // An IPv4-mapped address keeps its dotted-decimal tail.
    assert_eq!(
        ipv6_string(0x0000_0000_0000_0000_0000_ffff_c000_0201),
        "::ffff:192.0.2.1"
    );
    assert_eq!(v6cdir_from_bytes(0x2001_0db8_ffff_ffff_0000_0000_0000_0000, 32), "2001:db8::/32");
    // Hex digits above nine stay lowercase and keep no leading zeros.
    assert_eq!(
        ipv6_string(0xabcd_0ef0_0000_0000_0000_0000_0000_cafe),
        "abcd:ef0::cafe"
    );
}

#[test]
fn test_replay_cidr_exact() {
    // A recorded word sequence gives an exactly predictable run of blocks:
    // the seed folds to the lowest draw, every later block is one step on.
    let generator = UniqueV4CidrGenerator::new(3, 24);
    let mut d = ReplayDriver::new(vec![0]);
    let cidrs = generator.generate(&mut d).unwrap();
    assert_eq!(cidrs, vec!["16.0.0.0/24", "16.0.1.0/24", "16.0.2.0/24"]);
}

#[test]
fn test_replay_exhaustion_propagates() {
    // An exhausted source yields no value, with no partial result.
    let mut d = ReplayDriver::new(vec![]);
    assert!(Expose::generate(&mut d).is_none());
    let mut d = ReplayDriver::new(vec![7]);
    assert!(Expose::generate(&mut d).is_none());
    let generator = UniqueV4CidrGenerator::new(3, 24);
    let mut d = ReplayDriver::new(vec![]);
    assert!(generator.generate(&mut d).is_none());
}

#[test]
fn test_gen_from_chars_exact() {
    // Length two, then the characters at folded indexes zero and one.
    let mut d = ReplayDriver::new(vec![0, 0, 1]);
    let s = gen_from_chars(&mut d, "ab", 2, 2).unwrap();
    assert_eq!(s, "ab");
}

#[test]
fn test_gen_from_chars_bounds() {
    for seed in 0..200u64 {
        let mut d = SeededDriver::new(seed);
        let s = gen_from_chars(&mut d, "xyz", 1, 5).unwrap();
        assert!((1..=5).contains(&s.len()));
        assert!(s.chars().all(|c| c == 'x' || c == 'y' || c == 'z'));
    }
}

#[test]
fn test_source_mac_addr() {
    for seed in 0..200u64 {
        let mut d = SeededDriver::new(seed);
        let mac = SourceMacAddrString::generate(&mut d).unwrap();
        let text = mac.inner();
        assert_eq!(text.len(), 17);
        let bytes: Vec<&str> = text.split(':').collect();
        assert_eq!(bytes.len(), 6);
        for b in &bytes {
            assert_eq!(b.len(), 2);
            assert!(b.bytes().all(|c| c.is_ascii_digit() || (b'a'..=b'f').contains(&c)));
        }
        // The first emitted byte is the least significant one; its low bit
        // is cleared for unicast.
        let first = u8::from_str_radix(bytes[0], 16).unwrap();
        assert_eq!(first % 2, 0);
    }
}

#[test]
fn test_linux_if_name() {
    for seed in 0..200u64 {
        let mut d = SeededDriver::new(seed);
        let name = LinuxIfName::generate(&mut d).unwrap();
        assert!((1..=16).contains(&name.0.len()));
        assert!(name.0.chars().all(|c| c.is_ascii_alphanumeric() || c == '_'));
    }
}

#[test]
fn test_linux_if_names_generator() {
    let generator = LinuxIfNamesGenerator { count: 7 };
    let mut d = SeededDriver::new(5);
    let names = generator.generate(&mut d).unwrap();
    assert_eq!(names.len(), 7);
    for (i, name) in names.iter().enumerate() {
        assert!(name.ends_with(&i.to_string()));
        assert!(name.len() >= 2);
    }
}

#[test]
fn test_k8s_object_name() {
    for seed in 0..200u64 {
        let mut d = SeededDriver::new(seed);
        let name = K8sObjectNameString::generate(&mut d).unwrap();
        assert!((1..=61).contains(&name.0.len()));
        let first = name.0.chars().next().unwrap();
        assert!(first.is_ascii_lowercase() || first.is_ascii_digit());
        assert!(name.0.chars().all(|c| c.is_ascii_lowercase() || c.is_ascii_digit() || c == '-'));
    }
}

#[test]
fn test_ip_addr_string() {
    for seed in 0..200u64 {
        let mut d = SeededDriver::new(seed);
        let a = IpAddrString::generate(&mut d).unwrap();
        assert!(parse_ipv4(&a.0).is_some() || parse_ipv6(&a.0).is_some());
    }
}

#[test]
fn test_cidr_string() {
    for seed in 0..200u64 {
        let mut d = SeededDriver::new(seed);
        let c = CidrString::generate(&mut d).unwrap();
        let (is_v4, _, mask) = parse_cidr(&c.0).unwrap();
        if is_v4 {
            assert!(mask <= 32);
        } else {
            assert!(mask <= 128);
        }
    }
}

#[test]
fn test_pick() {
    let choices = [10u32, 20, 30];
    let mut counts = [0u32; 3];
    for seed in 0..200u64 {
        let mut d = SeededDriver::new(seed);
        let v = pick(&mut d, &choices).unwrap();
        let idx = choices.iter().position(|c| *c == v).unwrap();
        counts[idx] += 1;
    }
    assert!(counts.iter().all(|c| *c > 0));
}

#[test]
fn test_driver_bounds() {
    for seed in 0..100u64 {
        let mut d = SeededDriver::new(seed);
        let v = d.gen_u32(17, 42).unwrap();
        assert!((17..=42).contains(&v));
        let w = d.gen_i64(-5, 5).unwrap();
        assert!((-5..=5).contains(&w));
        let x = d.gen_u128(0, u128::MAX).unwrap();
        let _ = x;
        let y = d.gen_u8(200, 200).unwrap();
        assert_eq!(y, 200);
    }
}
