//! Generators for the dataplane status records.
//!
//! Each generator draws its fields in a fixed declared order and composes
//! them; every structural invariant of the produced record is established at
//! construction, never checked after the fact.

use vstd::prelude::*;

verus! {

use crate::driver::Driver;
use crate::schema::{
    BgpMessageCounters,
    BgpMessages,
    BgpNeighborPrefixes,
    BgpNeighborSessionState,
    BgpNeighborStatus,
    BgpStatus,
    BgpVrfStatus,
    DataplaneStatusInfo,
    DataplaneStatusType,
    FrrAgentStatusType,
    FrrStatus,
    GetDataplaneStatusRequest,
    InterfaceAdminStatusType,
    InterfaceCounters,
    InterfaceOperStatusType,
    InterfaceRuntimeStatus,
    InterfaceStatus,
    ZebraStatusType,
    bgp_messages_wf,
    bgp_neighbor_prefixes_wf,
    bgp_neighbor_status_wf,
    bgp_status_wf,
    bgp_vrf_status_wf,
    dataplane_status_info_wf,
    frr_status_wf,
    interface_counters_wf,
    interface_runtime_status_wf,
    interface_status_wf,
    map_contains_key,
    map_insert,
};
use crate::schema::{
    GetDataplaneStatusResponse,
    VpcCounters,
    VpcInterfaceStatus,
    VpcPeeringCounters,
    VpcStatus,
    bgp_message_counters_wf,
    dotted_quad_text,
    lex_le_str,
    peer_group_text,
    local_mac_text,
    neighbor_key_text,
    response_wf,
    vpc_counters_wf,
    vpc_id_text,
    vpc_interface_status_wf,
    vpc_name_text,
    vpc_peering_counters_wf,
    vpc_status_wf,
    vrf_name_text,
};
use crate::support::{LinuxIfName, pick_optional};
use crate::text::{hex_text2, push_char, push_dec_u64, push_hex2_u64};

impl InterfaceOperStatusType {
    /// Select one of the four variants uniformly.
    pub fn generate<D: Driver>(d: &mut D) -> (r: Option<InterfaceOperStatusType>)
        ensures
            r matches Some(t) ==> 0 <= t.as_int() <= 3,
    {
        let index = d.gen_usize(0, 3)?;
        Some(
            match index {
                0 => InterfaceOperStatusType::InterfaceStatusUnknown,
                1 => InterfaceOperStatusType::InterfaceStatusOperUp,
                2 => InterfaceOperStatusType::InterfaceStatusOperDown,
                _ => InterfaceOperStatusType::InterfaceStatusError,
            },
        )
    }
}

impl InterfaceAdminStatusType {
    /// Select one of the three variants uniformly.
    pub fn generate<D: Driver>(d: &mut D) -> (r: Option<InterfaceAdminStatusType>)
        ensures
            r matches Some(t) ==> 0 <= t.as_int() <= 2,
    {
        let index = d.gen_usize(0, 2)?;
        Some(
            match index {
                0 => InterfaceAdminStatusType::InterfaceAdminStatusUnknown,
                1 => InterfaceAdminStatusType::InterfaceAdminStatusUp,
                _ => InterfaceAdminStatusType::InterfaceAdminStatusDown,
            },
        )
    }
}

impl ZebraStatusType {
    /// Select one of the two variants uniformly.
    pub fn generate<D: Driver>(d: &mut D) -> (r: Option<ZebraStatusType>)
        ensures
            r matches Some(t) ==> 0 <= t.as_int() <= 1,
    {
        let index = d.gen_usize(0, 1)?;
        Some(
            match index {
                0 => ZebraStatusType::ZebraStatusNotConnected,
                _ => ZebraStatusType::ZebraStatusConnected,
            },
        )
    }
}

impl FrrAgentStatusType {
    /// Select one of the two variants uniformly.
    pub fn generate<D: Driver>(d: &mut D) -> (r: Option<FrrAgentStatusType>)
        ensures
            r matches Some(t) ==> 0 <= t.as_int() <= 1,
    {
        let index = d.gen_usize(0, 1)?;
        Some(
            match index {
                0 => FrrAgentStatusType::FrrAgentStatusNotConnected,
                _ => FrrAgentStatusType::FrrAgentStatusConnected,
            },
        )
    }
}

impl DataplaneStatusType {
    /// Select one of the four variants uniformly.
    pub fn generate<D: Driver>(d: &mut D) -> (r: Option<DataplaneStatusType>)
        ensures
            r matches Some(t) ==> 0 <= t.as_int() <= 3,
    {
        let index = d.gen_usize(0, 3)?;
        Some(
            match index {
                0 => DataplaneStatusType::DataplaneStatusUnknown,
                1 => DataplaneStatusType::DataplaneStatusHealthy,
                2 => DataplaneStatusType::DataplaneStatusInit,
                _ => DataplaneStatusType::DataplaneStatusError,
            },
        )
    }
}

impl BgpNeighborSessionState {
    /// Select one of the six variants uniformly.
    pub fn generate<D: Driver>(d: &mut D) -> (r: Option<BgpNeighborSessionState>)
        ensures
            r matches Some(t) ==> 0 <= t.as_int() <= 5,
    {
        let index = d.gen_usize(0, 5)?;
        Some(
            match index {
                0 => BgpNeighborSessionState::BgpStateUnset,
                1 => BgpNeighborSessionState::BgpStateIdle,
                2 => BgpNeighborSessionState::BgpStateConnect,
                3 => BgpNeighborSessionState::BgpStateActive,
                4 => BgpNeighborSessionState::BgpStateOpen,
                _ => BgpNeighborSessionState::BgpStateEstablished,
            },
        )
    }
}

impl GetDataplaneStatusRequest {
    /// The request carries nothing, so generation draws nothing and always
    /// succeeds.
    pub fn generate<D: Driver>(_d: &mut D) -> (r: Option<GetDataplaneStatusRequest>)
        ensures
            r is Some,
    {
        Some(GetDataplaneStatusRequest {  })
    }
}

impl InterfaceStatus {
    /// A random name with random states.
    pub fn generate<D: Driver>(d: &mut D) -> (r: Option<InterfaceStatus>)
        ensures
            r matches Some(s) ==> interface_status_wf(s),
    {
        let name = LinuxIfName::generate(d)?;
        let oper = InterfaceOperStatusType::generate(d)?;
        let admin = InterfaceAdminStatusType::generate(d)?;
        Some(
            InterfaceStatus {
                ifname: name.0,
                oper_status: oper.to_i32(),
                admin_status: admin.to_i32(),
            },
        )
    }
}

impl FrrStatus {
    /// Restart counts follow a piecewise skewed distribution: a weight in
    /// `[0, 100]` selects a low, medium or high sub-range, and the count is
    /// then drawn uniformly from the selected sub-range.
    pub fn generate<D: Driver>(d: &mut D) -> (r: Option<FrrStatus>)
        ensures
            r matches Some(f) ==> frr_status_wf(f),
    {
        let restart_weight = d.gen_u8(0, 100)?;
        let restarts = if restart_weight <= 80 {
            d.gen_u32(0, 5)?
        } else if restart_weight <= 95 {
            d.gen_u32(6, 50)?
        } else {
            d.gen_u32(51, 1000)?
        };
        let zebra = ZebraStatusType::generate(d)?;
        let agent = FrrAgentStatusType::generate(d)?;
        let applied_config_gen = d.gen_i64(i64::MIN, i64::MAX)?;
        let applied_configs = d.gen_u32(0, u32::MAX)?;
        let failed_configs = d.gen_u32(0, u32::MAX)?;
        Some(
            FrrStatus {
                zebra_status: zebra.to_i32(),
                frr_agent_status: agent.to_i32(),
                applied_config_gen,
                restarts,
                applied_configs,
                failed_configs,
            },
        )
    }
}

impl DataplaneStatusInfo {
    /// A random health state.
    pub fn generate<D: Driver>(d: &mut D) -> (r: Option<DataplaneStatusInfo>)
        ensures
            r matches Some(x) ==> dataplane_status_info_wf(x),
    {
        let status = DataplaneStatusType::generate(d)?;
        Some(DataplaneStatusInfo { status: status.to_i32() })
    }
}

impl InterfaceCounters {
    /// Random counters, each within its own range.
    pub fn generate<D: Driver>(d: &mut D) -> (r: Option<InterfaceCounters>)
        ensures
            r matches Some(c) ==> interface_counters_wf(c),
    {
        let rx_bits = d.gen_u64(0, 10_000_000)?;
        let tx_bits = d.gen_u64(0, 10_000_000)?;
        let rx_errors = d.gen_u64(0, 10_000)?;
        let tx_errors = d.gen_u64(0, 10_000)?;
        let rx_bps = d.gen_u64(0, 5_000_000)?;
        let tx_bps = d.gen_u64(0, 5_000_000)?;
        Some(InterfaceCounters { tx_bits, tx_bps, tx_errors, rx_bits, rx_bps, rx_errors })
    }
}

impl InterfaceRuntimeStatus {
    /// Random runtime state; the counters are present or absent by an
    /// explicit coin flip.
    pub fn generate<D: Driver>(d: &mut D) -> (r: Option<InterfaceRuntimeStatus>)
        ensures
            r matches Some(x) ==> interface_runtime_status_wf(x),
    {
        let mtu = d.gen_u32(576, 9216)?;
        let produced = InterfaceCounters::generate(d);
        let counters = match pick_optional(d, produced)? {
            Some(picked) => picked,
            None => None,
        };
        let admin = InterfaceAdminStatusType::generate(d)?;
        let oper = InterfaceOperStatusType::generate(d)?;
        let b1 = d.gen_u8(0, 255)?;
        let b2 = d.gen_u8(0, 255)?;
        let b3 = d.gen_u8(0, 255)?;
        let b4 = d.gen_u8(0, 255)?;
        let b5 = d.gen_u8(0, 255)?;
        let mut mac = String::new();
        push_char(&mut mac, '0');
        push_char(&mut mac, '2');
        push_char(&mut mac, ':');
        push_hex2_u64(&mut mac, b1 as u64);
        push_char(&mut mac, ':');
        push_hex2_u64(&mut mac, b2 as u64);
        push_char(&mut mac, ':');
        push_hex2_u64(&mut mac, b3 as u64);
        push_char(&mut mac, ':');
        push_hex2_u64(&mut mac, b4 as u64);
        push_char(&mut mac, ':');
        push_hex2_u64(&mut mac, b5 as u64);
        proof {
            assert(mac@ =~= local_mac_text(b1, b2, b3, b4, b5));
            assert(mac@.len() == 17);
        }
        Some(
            InterfaceRuntimeStatus {
                admin_status: admin.to_i32(),
                oper_status: oper.to_i32(),
                mac,
                mtu,
                counters,
            },
        )
    }
}

impl BgpMessageCounters {
    /// Random per-kind message counts, each within its own range.
    pub fn generate<D: Driver>(d: &mut D) -> (r: Option<BgpMessageCounters>)
        ensures
            r matches Some(c) ==> bgp_message_counters_wf(c),
    {
        let capability = d.gen_u64(0, 10_000)?;
        let keepalive = d.gen_u64(0, 10_000)?;
        let notification = d.gen_u64(0, 1_000)?;
        let open = d.gen_u64(0, 5_000)?;
        let route_refresh = d.gen_u64(0, 5_000)?;
        let update = d.gen_u64(0, 50_000)?;
        Some(BgpMessageCounters { capability, keepalive, notification, open, route_refresh, update })
    }
}

impl BgpMessages {
    /// Counters for both directions, always present.
    pub fn generate<D: Driver>(d: &mut D) -> (r: Option<BgpMessages>)
        ensures
            r matches Some(m) ==> bgp_messages_wf(m),
    {
        let received = BgpMessageCounters::generate(d)?;
        let sent = BgpMessageCounters::generate(d)?;
        Some(BgpMessages { received: Some(received), sent: Some(sent) })
    }
}

impl BgpNeighborPrefixes {
    /// Random prefix counts; what survives policy is drawn within what
    /// arrived before policy.
    pub fn generate<D: Driver>(d: &mut D) -> (r: Option<BgpNeighborPrefixes>)
        ensures
            r matches Some(p) ==> bgp_neighbor_prefixes_wf(p),
    {
        let received_pre = d.gen_u32(0, 50_000)?;
        let received = d.gen_u32(0, received_pre)?;
        let sent = d.gen_u32(0, 50_000)?;
        Some(BgpNeighborPrefixes { received, received_pre_policy: received_pre, sent })
    }
}

impl BgpNeighborStatus {
    /// A fully populated neighbor record.
    pub fn generate<D: Driver>(d: &mut D) -> (r: Option<BgpNeighborStatus>)
        ensures
            r matches Some(n) ==> bgp_neighbor_status_wf(n),
    {
        let peer_port = d.gen_u32(1, 65535)?;
        let local_as = d.gen_u32(1, 65_534)?;
        let peer_as = d.gen_u32(1, 65_534)?;
        let enabled = d.gen_bool()?;
        let grp = d.gen_u32(0, 1000)?;
        let mut peer_group = String::new();
        push_char(&mut peer_group, 'g');
        push_char(&mut peer_group, 'r');
        push_char(&mut peer_group, 'p');
        push_dec_u64(&mut peer_group, grp as u64);
        proof {
            assert(peer_group@ =~= peer_group_text(grp));
        }
        let o1 = d.gen_u8(1, 254)?;
        let o2 = d.gen_u8(0, 255)?;
        let o3 = d.gen_u8(0, 255)?;
        let o4 = d.gen_u8(1, 254)?;
        let mut remote_router_id = String::new();
        push_dec_u64(&mut remote_router_id, o1 as u64);
        push_char(&mut remote_router_id, '.');
        push_dec_u64(&mut remote_router_id, o2 as u64);
        push_char(&mut remote_router_id, '.');
        push_dec_u64(&mut remote_router_id, o3 as u64);
        push_char(&mut remote_router_id, '.');
        push_dec_u64(&mut remote_router_id, o4 as u64);
        proof {
            assert(remote_router_id@ =~= dotted_quad_text(o1, o2, o3, o4));
        }
        let session_state = BgpNeighborSessionState::generate(d)?;
        let connections_dropped = d.gen_u64(0, 1000)?;
        let established_transitions = d.gen_u64(0, 1000)?;
        let last_reset_reason = String::from_str("test");
        let messages = BgpMessages::generate(d)?;
        let ipv4_unicast_prefixes = BgpNeighborPrefixes::generate(d)?;
        let ipv6_unicast_prefixes = BgpNeighborPrefixes::generate(d)?;
        let l2vpn_evpn_prefixes = BgpNeighborPrefixes::generate(d)?;
        Some(
            BgpNeighborStatus {
                enabled,
                local_as,
                peer_as,
                peer_port,
                peer_group,
                remote_router_id,
                session_state: session_state.to_i32(),
                connections_dropped,
                established_transitions,
                last_reset_reason,
                messages: Some(messages),
                ipv4_unicast_prefixes: Some(ipv4_unicast_prefixes),
                ipv6_unicast_prefixes: Some(ipv6_unicast_prefixes),
                l2vpn_evpn_prefixes: Some(l2vpn_evpn_prefixes),
            },
        )
    }
}

impl BgpVrfStatus {
    /// Up to four neighbors, keyed by a private-range address; a neighbor is
    /// generated only when its address is new.
    pub fn generate<D: Driver>(d: &mut D) -> (r: Option<BgpVrfStatus>)
        ensures
            r matches Some(v) ==> bgp_vrf_status_wf(v),
    {
        let n = d.gen_usize(0, 4)?;
        let mut neighbors: Vec<(String, BgpNeighborStatus)> = Vec::new();
        let mut k: usize = 0;
        while k < n
            invariant
                n <= 4,
                k <= n,
                neighbors@.len() <= k as nat,
                crate::schema::distinct_keys(neighbors@),
                forall|i: int|
                    0 <= i < neighbors@.len() ==> (#[trigger] neighbors@[i]).0@.len() >= 1
                        && (exists|x: u8, y: u8, z: u8|
                        1 <= z <= 254 && neighbors@[i].0@ == neighbor_key_text(x, y, z))
                        && bgp_neighbor_status_wf(neighbors@[i].1),
            decreases n - k,
        {
            let a = d.gen_u8(0, 255)?;
            let b = d.gen_u8(0, 255)?;
            let c = d.gen_u8(1, 254)?;
            let mut ip = String::new();
            push_char(&mut ip, '1');
            push_char(&mut ip, '0');
            push_char(&mut ip, '.');
            push_dec_u64(&mut ip, a as u64);
            push_char(&mut ip, '.');
            push_dec_u64(&mut ip, b as u64);
            push_char(&mut ip, '.');
            push_dec_u64(&mut ip, c as u64);
            proof {
                assert(ip@ =~= neighbor_key_text(a, b, c));
            }
            if !map_contains_key(&neighbors, &ip) {
                let nbr = BgpNeighborStatus::generate(d)?;
                map_insert(&mut neighbors, ip, nbr);
            }
            k = k + 1;
        }
        Some(BgpVrfStatus { neighbors })
    }
}

impl BgpStatus {
    /// Up to three VRFs: the first is the default VRF, the rest carry their
    /// index in their name.
    pub fn generate<D: Driver>(d: &mut D) -> (r: Option<BgpStatus>)
        ensures
            r matches Some(b) ==> bgp_status_wf(b),
    {
        let nvrfs = d.gen_usize(0, 3)?;
        let mut vrfs: Vec<(String, BgpVrfStatus)> = Vec::new();
        let mut i: usize = 0;
        while i < nvrfs
            invariant
                nvrfs <= 3,
                i <= nvrfs,
                vrfs@.len() <= i as nat,
                crate::schema::distinct_keys(vrfs@),
                i >= 1 ==> exists|j: int| 0 <= j < vrfs@.len() && (#[trigger] vrfs@[j]).0@
                    == "default"@,
                forall|k: int|
                    0 <= k < vrfs@.len() ==> (#[trigger] vrfs@[k]).0@.len() >= 1 && ((vrfs@[k].0@
                        == "default"@) || (exists|n: nat|
                        1 <= n <= 2 && vrfs@[k].0@ == vrf_name_text(n))) && bgp_vrf_status_wf(
                        vrfs@[k].1,
                    ),
            decreases nvrfs - i,
        {
            proof {
                reveal_strlit("default");
            }
            let name = if i == 0 {
                String::from_str("default")
            } else {
                let mut s = String::new();
                push_char(&mut s, 'v');
                push_char(&mut s, 'r');
                push_char(&mut s, 'f');
                push_dec_u64(&mut s, i as u64);
                proof {
                    assert(s@ =~= vrf_name_text(i as nat));
                    // The name starts with a different letter, so it can
                    // never displace the default VRF's entry.
                    assert(s@[0] != "default"@[0]);
                }
                s
            };
            let ghost name_view = name@;
            let ghost before = vrfs@;
            let v = BgpVrfStatus::generate(d)?;
            map_insert(&mut vrfs, name, v);
            proof {
                if i == 0 {
                    assert(vrfs@[vrfs@.len() - 1].0@ == "default"@);
                } else {
                    // The default entry inserted first survives, since the
                    // key inserted now differs from its key.
                    let j = choose|j: int| 0 <= j < before.len() && (#[trigger] before[j]).0@
                        == "default"@;
                    assert(before[j].0@ != name_view);
                    assert(exists|j2: int|
                        0 <= j2 < vrfs@.len() && vrfs@[j2] == (#[trigger] before[j]));
                }
            }
            i = i + 1;
        }
        Some(BgpStatus { vrfs })
    }
}

impl VpcInterfaceStatus {
    /// A random name with random states.
    pub fn generate<D: Driver>(d: &mut D) -> (r: Option<VpcInterfaceStatus>)
        ensures
            r matches Some(s) ==> vpc_interface_status_wf(s),
    {
        let name = LinuxIfName::generate(d)?;
        let admin = InterfaceAdminStatusType::generate(d)?;
        let oper = InterfaceOperStatusType::generate(d)?;
        Some(
            VpcInterfaceStatus {
                ifname: name.0,
                admin_status: admin.to_i32(),
                oper_status: oper.to_i32(),
            },
        )
    }
}

impl VpcStatus {
    /// A random VPC with up to four attached interfaces, keyed by each
    /// interface's own name.
    pub fn generate<D: Driver>(d: &mut D) -> (r: Option<VpcStatus>)
        ensures
            r matches Some(v) ==> vpc_status_wf(v),
    {
        let name_n = d.gen_u32(1, 128)?;
        let mut name = String::new();
        push_char(&mut name, 'v');
        push_char(&mut name, 'p');
        push_char(&mut name, 'c');
        push_char(&mut name, '-');
        push_dec_u64(&mut name, name_n as u64);
        proof {
            assert(name@ =~= vpc_name_text(name_n));
        }
        let id_n = d.gen_u32(1, 10_000)?;
        let mut id = String::new();
        push_char(&mut id, 'i');
        push_char(&mut id, 'd');
        push_char(&mut id, '-');
        push_dec_u64(&mut id, id_n as u64);
        proof {
            assert(id@ =~= vpc_id_text(id_n));
        }
        let vni = d.gen_u32(1, 16_777_215)?;
        let route_count = d.gen_u32(0, 50_000)?;
        let nifs = d.gen_usize(0, 4)?;
        let mut interfaces: Vec<(String, VpcInterfaceStatus)> = Vec::new();
        let mut k: usize = 0;
        while k < nifs
            invariant
                nifs <= 4,
                k <= nifs,
                interfaces@.len() <= k as nat,
                crate::schema::distinct_keys(interfaces@),
                forall|i: int|
                    0 <= i < interfaces@.len() ==> (#[trigger] interfaces@[i]).0@
                        == interfaces@[i].1.ifname@ && vpc_interface_status_wf(interfaces@[i].1),
            decreases nifs - k,
        {
            let s = VpcInterfaceStatus::generate(d)?;
            let key = s.ifname.clone();
            map_insert(&mut interfaces, key, s);
            k = k + 1;
        }
        Some(VpcStatus { id, name, vni, route_count, interfaces })
    }
}

impl VpcPeeringCounters {
    /// Counters between two random VPCs, named by the lexicographically
    /// ordered pair; bytes derive from packets by a fixed multiplier with
    /// saturation, and drops never exceed the total.
    pub fn generate<D: Driver>(d: &mut D) -> (r: Option<VpcPeeringCounters>)
        ensures
            r matches Some(c) ==> vpc_peering_counters_wf(c),
    {
        let an = d.gen_u32(1, 64)?;
        let mut a = String::new();
        push_char(&mut a, 'v');
        push_char(&mut a, 'p');
        push_char(&mut a, 'c');
        push_char(&mut a, '-');
        push_dec_u64(&mut a, an as u64);
        let bn = d.gen_u32(1, 64)?;
        let mut b = String::new();
        push_char(&mut b, 'v');
        push_char(&mut b, 'p');
        push_char(&mut b, 'c');
        push_char(&mut b, '-');
        push_dec_u64(&mut b, bn as u64);
        let (src_vpc, dst_vpc) = if lex_le_str(a.as_str(), b.as_str()) {
            (a, b)
        } else {
            proof {
                lemma_lex_total(a@, b@);
            }
            (b, a)
        };
        let packets = d.gen_u64(0, 10_000_000)?;
        let bytes = if packets > u64::MAX / 64 {
            u64::MAX
        } else {
            packets * 64
        };
        let drops = d.gen_u64(0, packets)?;
        let pps = d.gen_u64(0, 100_000)?;
        let bps = d.gen_u64(0, 5_000_000)?;
        let mut name = src_vpc.clone();
        push_char(&mut name, '-');
        push_char(&mut name, '-');
        let dst_str: &str = dst_vpc.as_str();
        name.append(dst_str);
        proof {
            assert(name@ =~= src_vpc@ + seq!['-', '-'] + dst_vpc@);
        }
        Some(VpcPeeringCounters { name, src_vpc, dst_vpc, packets, bytes, drops, pps, bps })
    }
}

/// Lexicographic order is total: two texts are always comparable.
proof fn lemma_lex_total(a: Seq<char>, b: Seq<char>)
    ensures
        !crate::schema::lex_le(a, b) ==> crate::schema::lex_le(b, a),
{
    lemma_lex_total_from(a, b, 0);
}

/// Totality of the positional comparison, from any position on.
proof fn lemma_lex_total_from(a: Seq<char>, b: Seq<char>, i: int)
    requires
        0 <= i,
    ensures
        !crate::schema::lex_le_from(a, b, i) ==> crate::schema::lex_le_from(b, a, i),
    decreases a.len() - i,
{
    if i < a.len() && i < b.len() && a[i] == b[i] {
        lemma_lex_total_from(a, b, i + 1);
    }
}

impl VpcCounters {
    /// Aggregate counters of one random VPC; bytes derive from packets by a
    /// fixed multiplier with saturation, and drops never exceed the total.
    pub fn generate<D: Driver>(d: &mut D) -> (r: Option<VpcCounters>)
        ensures
            r matches Some(c) ==> vpc_counters_wf(c),
    {
        let n = d.gen_u32(1, 128)?;
        let mut name = String::new();
        push_char(&mut name, 'v');
        push_char(&mut name, 'p');
        push_char(&mut name, 'c');
        push_char(&mut name, '-');
        push_dec_u64(&mut name, n as u64);
        proof {
            assert(name@ =~= vpc_name_text(n));
        }
        let packets = d.gen_u64(0, 100_000_000)?;
        let drops = d.gen_u64(0, packets)?;
        let bytes = if packets > u64::MAX / 64 {
            u64::MAX
        } else {
            packets * 64
        };
        Some(VpcCounters { name, packets, drops, bytes })
    }
}

/// Whether a list of names already holds a name.
fn names_contain(v: &Vec<String>, s: &String) -> (r: bool)
    ensures
        r == exists|i: int| 0 <= i < v@.len() && (#[trigger] v@[i])@ == s@,
{
    let mut i: usize = 0;
    while i < v.len()
        invariant
            i <= v@.len(),
            forall|k: int| 0 <= k < i as int ==> (#[trigger] v@[k])@ != s@,
        decreases v@.len() - i,
    {
        if v[i] == *s {
            return true;
        }
        i = i + 1;
    }
    false
}

impl GetDataplaneStatusResponse {
    /// A full snapshot.  Interface names are made unique by a bounded
    /// per-entry retry; optional sub-records are present or absent by
    /// explicit coin flips; every name-keyed map is keyed by its entries'
    /// own names.
    #[verifier::rlimit(60)]
    pub fn generate<D: Driver>(d: &mut D) -> (r: Option<GetDataplaneStatusResponse>)
        ensures
            r matches Some(x) ==> response_wf(x),
    {
        let ninterfaces = d.gen_usize(0, 8)?;
        let mut interface_statuses: Vec<InterfaceStatus> = Vec::new();
        let mut used_names: Vec<String> = Vec::new();
        let mut n: usize = 0;
        while n < ninterfaces
            invariant
                ninterfaces <= 8,
                n <= ninterfaces,
                interface_statuses@.len() == used_names@.len(),
                interface_statuses@.len() <= n as nat,
                forall|i: int|
                    0 <= i < interface_statuses@.len() ==> interface_status_wf(
                        #[trigger] interface_statuses@[i],
                    ),
                forall|i: int|
                    0 <= i < used_names@.len() ==> (#[trigger] used_names@[i])@
                        == interface_statuses@[i].ifname@,
                forall|i: int, j: int|
                    0 <= i < j < used_names@.len() ==> (#[trigger] used_names@[i])@ != (
                    #[trigger] used_names@[j])@,
            decreases ninterfaces - n,
        {
            let mut attempts: u32 = 0;
            let mut candidate: Option<InterfaceStatus> = None;
            let ghost names0 = used_names@;
            while attempts < 20 && candidate.is_none()
                invariant
                    used_names@ == names0,
                    candidate matches Some(c) ==> interface_status_wf(c) && !(exists|i: int|
                        0 <= i < used_names@.len() && (#[trigger] used_names@[i])@ == c.ifname@),
                decreases 20 - attempts,
            {
                let produced = InterfaceStatus::generate(d);
                match produced {
                    Some(interface) => {
                        if !names_contain(&used_names, &interface.ifname) {
                            candidate = Some(interface);
                        }
                    },
                    None => {},
                }
                attempts = attempts + 1;
            }
            match candidate {
                Some(interface) => {
                    used_names.push(interface.ifname.clone());
                    interface_statuses.push(interface);
                },
                None => {},
            }
            n = n + 1;
        }
        let frr_produced = FrrStatus::generate(d)?;
        let frr_status = pick_optional(d, frr_produced)?;
        let dp_produced = DataplaneStatusInfo::generate(d)?;
        let dataplane_status = pick_optional(d, dp_produced)?;
        // Runtime map: a subset of the used names plus possibly a few fresh
        // ones.
        let target = d.gen_usize(0, ninterfaces + 2)?;
        let mut pool: Vec<String> = Vec::new();
        let mut pi: usize = 0;
        while pi < used_names.len()
            invariant
                pi <= used_names@.len(),
                pool@.len() == pi as nat,
                forall|i: int|
                    0 <= i < used_names@.len() ==> (#[trigger] used_names@[i])@.len() >= 1,
                forall|i: int| 0 <= i < pool@.len() ==> (#[trigger] pool@[i])@.len() >= 1,
            decreases used_names@.len() - pi,
        {
            let nm = used_names[pi].clone();
            pool.push(nm);
            pi = pi + 1;
        }
        let extra = d.gen_usize(0, 2)?;
        let mut ei: usize = 0;
        while ei < extra
            invariant
                ei <= extra,
                forall|i: int| 0 <= i < pool@.len() ==> (#[trigger] pool@[i])@.len() >= 1,
            decreases extra - ei,
        {
            let ifn = d.gen_u32(0, 9999)?;
            let mut nm = String::new();
            push_char(&mut nm, 'i');
            push_char(&mut nm, 'f');
            push_dec_u64(&mut nm, ifn as u64);
            pool.push(nm);
            ei = ei + 1;
        }
        let take: usize = if target < pool.len() {
            target
        } else {
            pool.len()
        };
        let mut interface_runtime: Vec<(String, InterfaceRuntimeStatus)> = Vec::new();
        let mut ri: usize = 0;
        while ri < take
            invariant
                take <= target,
                target <= 10,
                take <= pool@.len(),
                ri <= take,
                interface_runtime@.len() <= ri as nat,
                forall|i: int| 0 <= i < pool@.len() ==> (#[trigger] pool@[i])@.len() >= 1,
                crate::schema::distinct_keys(interface_runtime@),
                forall|i: int|
                    0 <= i < interface_runtime@.len() ==> (#[trigger] interface_runtime@[i]).0@.len()
                        >= 1 && interface_runtime_status_wf(interface_runtime@[i].1),
            decreases take - ri,
        {
            let nm = pool[ri].clone();
            let rt = InterfaceRuntimeStatus::generate(d)?;
            map_insert(&mut interface_runtime, nm, rt);
            ri = ri + 1;
        }
        let bgp_produced = BgpStatus::generate(d)?;
        let bgp = pick_optional(d, bgp_produced)?;
        let nvpcs = d.gen_usize(0, 4)?;
        let mut vpcs: Vec<(String, VpcStatus)> = Vec::new();
        let mut vi: usize = 0;
        while vi < nvpcs
            invariant
                nvpcs <= 4,
                vi <= nvpcs,
                vpcs@.len() <= vi as nat,
                crate::schema::distinct_keys(vpcs@),
                forall|i: int|
                    0 <= i < vpcs@.len() ==> (#[trigger] vpcs@[i]).0@ == vpcs@[i].1.name@
                        && vpc_status_wf(vpcs@[i].1),
            decreases nvpcs - vi,
        {
            let v = VpcStatus::generate(d)?;
            let key = v.name.clone();
            map_insert(&mut vpcs, key, v);
            vi = vi + 1;
        }
        let npeers = d.gen_usize(0, 6)?;
        let mut vpc_peering_counters: Vec<(String, VpcPeeringCounters)> = Vec::new();
        let mut qi: usize = 0;
        while qi < npeers
            invariant
                npeers <= 6,
                qi <= npeers,
                vpc_peering_counters@.len() <= qi as nat,
                crate::schema::distinct_keys(vpc_peering_counters@),
                forall|i: int|
                    0 <= i < vpc_peering_counters@.len() ==> (#[trigger] vpc_peering_counters@[i]).0@
                        == vpc_peering_counters@[i].1.name@ && vpc_peering_counters_wf(
                        vpc_peering_counters@[i].1,
                    ),
            decreases npeers - qi,
        {
            let c = VpcPeeringCounters::generate(d)?;
            let key = c.name.clone();
            map_insert(&mut vpc_peering_counters, key, c);
            qi = qi + 1;
        }
        let nvc = d.gen_usize(0, 4)?;
        let mut vpc_counters: Vec<(String, VpcCounters)> = Vec::new();
        let mut ci: usize = 0;
        while ci < nvc
            invariant
                nvc <= 4,
                ci <= nvc,
                vpc_counters@.len() <= ci as nat,
                crate::schema::distinct_keys(vpc_counters@),
                forall|i: int|
                    0 <= i < vpc_counters@.len() ==> (#[trigger] vpc_counters@[i]).0@
                        == vpc_counters@[i].1.name@ && vpc_counters_wf(vpc_counters@[i].1),
            decreases nvc - ci,
        {
            let c = VpcCounters::generate(d)?;
            let key = c.name.clone();
            map_insert(&mut vpc_counters, key, c);
            ci = ci + 1;
        }
        proof {
            assert forall|i: int, j: int|
                0 <= i < j < interface_statuses@.len() implies (#[trigger] interface_statuses@[i]).ifname@
                != (#[trigger] interface_statuses@[j]).ifname@ by {
                assert(used_names@[i]@ == interface_statuses@[i].ifname@);
                assert(used_names@[j]@ == interface_statuses@[j].ifname@);
            }
        }
        Some(
            GetDataplaneStatusResponse {
                interface_statuses,
                frr_status,
                dataplane_status,
                interface_runtime,
                bgp,
                vpcs,
                vpc_peering_counters,
                vpc_counters,
            },
        )
    }
}

} // verus!
