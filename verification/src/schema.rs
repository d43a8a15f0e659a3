//! The domain schema records the generators populate.
//!
//! The wire schema itself is external: these are plain data-holding records
//! mirroring its fields.  Enum-valued fields carry the numeric wire value as
//! an `i32`; name-keyed maps are vectors of key/value pairs whose invariant
//! is pairwise-distinct keys.

use vstd::prelude::*;

verus! {

use crate::duration::Duration;
use crate::support::valid_if_name;
use crate::text::{dec_text, hex_text2};

/// Pairwise-distinct keys: the invariant of every name-keyed map.
pub open spec fn distinct_keys<V>(m: Seq<(String, V)>) -> bool {
    forall|i: int, j: int| 0 <= i < j < m.len() ==> (#[trigger] m[i]).0@ != (#[trigger] m[j]).0@
}

/// Lexicographic order on text, from position `i` on.
pub open spec fn lex_le_from(a: Seq<char>, b: Seq<char>, i: int) -> bool
    decreases a.len() - i,
{
    if i >= a.len() {
        true
    } else if i >= b.len() {
        false
    } else if a[i] == b[i] {
        lex_le_from(a, b, i + 1)
    } else {
        a[i] < b[i]
    }
}

/// Lexicographic order on text.
pub open spec fn lex_le(a: Seq<char>, b: Seq<char>) -> bool {
    lex_le_from(a, b, 0)
}

/// The text `vpc-<n>` naming a VPC.
pub open spec fn vpc_name_text(n: u32) -> Seq<char> {
    seq!['v', 'p', 'c', '-'] + dec_text(n as nat)
}

/// The text `vrf<k>` naming a non-default VRF.
pub open spec fn vrf_name_text(k: nat) -> Seq<char> {
    seq!['v', 'r', 'f'] + dec_text(k)
}

/// The dotted-decimal text of four octets.
pub open spec fn dotted_quad_text(o1: u8, o2: u8, o3: u8, o4: u8) -> Seq<char> {
    dec_text(o1 as nat) + seq!['.'] + dec_text(o2 as nat) + seq!['.'] + dec_text(o3 as nat)
        + seq!['.'] + dec_text(o4 as nat)
}

/// The text `id-<n>` identifying a VPC.
pub open spec fn vpc_id_text(n: u32) -> Seq<char> {
    seq!['i', 'd', '-'] + dec_text(n as nat)
}

/// The text `grp<n>` naming a peer group.
pub open spec fn peer_group_text(n: u32) -> Seq<char> {
    seq!['g', 'r', 'p'] + dec_text(n as nat)
}

/// The text `10.<x>.<y>.<z>` keying a BGP neighbor.
pub open spec fn neighbor_key_text(x: u8, y: u8, z: u8) -> Seq<char> {
    seq!['1', '0'] + seq!['.'] + dec_text(x as nat) + seq!['.'] + dec_text(y as nat) + seq!['.']
        + dec_text(z as nat)
}

/// The text of a locally administered MAC address: a fixed `02` byte
/// followed by five random bytes, colon separated.
pub open spec fn local_mac_text(b1: u8, b2: u8, b3: u8, b4: u8, b5: u8) -> Seq<char> {
    seq!['0', '2'] + seq![':'] + hex_text2(b1 as nat) + seq![':'] + hex_text2(b2 as nat)
        + seq![':'] + hex_text2(b3 as nat) + seq![':'] + hex_text2(b4 as nat) + seq![':']
        + hex_text2(b5 as nat)
}

/// The operational state of an interface.
#[derive(Clone, Copy, Debug, PartialEq, Eq, Structural)]
pub enum InterfaceOperStatusType {
    InterfaceStatusUnknown,
    InterfaceStatusOperUp,
    InterfaceStatusOperDown,
    InterfaceStatusError,
}

impl InterfaceOperStatusType {
    /// The numeric wire value of this variant.
    pub open spec fn as_int(&self) -> int {
        match self {
            InterfaceOperStatusType::InterfaceStatusUnknown => 0,
            InterfaceOperStatusType::InterfaceStatusOperUp => 1,
            InterfaceOperStatusType::InterfaceStatusOperDown => 2,
            InterfaceOperStatusType::InterfaceStatusError => 3,
        }
    }

    pub fn to_i32(&self) -> (r: i32)
        ensures
            r == self.as_int(),
    {
        match self {
            InterfaceOperStatusType::InterfaceStatusUnknown => 0,
            InterfaceOperStatusType::InterfaceStatusOperUp => 1,
            InterfaceOperStatusType::InterfaceStatusOperDown => 2,
            InterfaceOperStatusType::InterfaceStatusError => 3,
        }
    }
}

/// The administrative state of an interface.
#[derive(Clone, Copy, Debug, PartialEq, Eq, Structural)]
pub enum InterfaceAdminStatusType {
    InterfaceAdminStatusUnknown,
    InterfaceAdminStatusUp,
    InterfaceAdminStatusDown,
}

impl InterfaceAdminStatusType {
    /// The numeric wire value of this variant.
    pub open spec fn as_int(&self) -> int {
        match self {
            InterfaceAdminStatusType::InterfaceAdminStatusUnknown => 0,
            InterfaceAdminStatusType::InterfaceAdminStatusUp => 1,
            InterfaceAdminStatusType::InterfaceAdminStatusDown => 2,
        }
    }

    pub fn to_i32(&self) -> (r: i32)
        ensures
            r == self.as_int(),
    {
        match self {
            InterfaceAdminStatusType::InterfaceAdminStatusUnknown => 0,
            InterfaceAdminStatusType::InterfaceAdminStatusUp => 1,
            InterfaceAdminStatusType::InterfaceAdminStatusDown => 2,
        }
    }
}

/// The state of the routing daemon connection.
#[derive(Clone, Copy, Debug, PartialEq, Eq, Structural)]
pub enum ZebraStatusType {
    ZebraStatusNotConnected,
    ZebraStatusConnected,
}

impl ZebraStatusType {
    /// The numeric wire value of this variant.
    pub open spec fn as_int(&self) -> int {
        match self {
            ZebraStatusType::ZebraStatusNotConnected => 0,
            ZebraStatusType::ZebraStatusConnected => 1,
        }
    }

    pub fn to_i32(&self) -> (r: i32)
        ensures
            r == self.as_int(),
    {
        match self {
            ZebraStatusType::ZebraStatusNotConnected => 0,
            ZebraStatusType::ZebraStatusConnected => 1,
        }
    }
}

/// The state of the routing agent connection.
#[derive(Clone, Copy, Debug, PartialEq, Eq, Structural)]
pub enum FrrAgentStatusType {
    FrrAgentStatusNotConnected,
    FrrAgentStatusConnected,
}

impl FrrAgentStatusType {
    /// The numeric wire value of this variant.
    pub open spec fn as_int(&self) -> int {
        match self {
            FrrAgentStatusType::FrrAgentStatusNotConnected => 0,
            FrrAgentStatusType::FrrAgentStatusConnected => 1,
        }
    }

    pub fn to_i32(&self) -> (r: i32)
        ensures
            r == self.as_int(),
    {
        match self {
            FrrAgentStatusType::FrrAgentStatusNotConnected => 0,
            FrrAgentStatusType::FrrAgentStatusConnected => 1,
        }
    }
}

/// The overall health of the dataplane.
#[derive(Clone, Copy, Debug, PartialEq, Eq, Structural)]
pub enum DataplaneStatusType {
    DataplaneStatusUnknown,
    DataplaneStatusHealthy,
    DataplaneStatusInit,
    DataplaneStatusError,
}

impl DataplaneStatusType {
    /// The numeric wire value of this variant.
    pub open spec fn as_int(&self) -> int {
        match self {
            DataplaneStatusType::DataplaneStatusUnknown => 0,
            DataplaneStatusType::DataplaneStatusHealthy => 1,
            DataplaneStatusType::DataplaneStatusInit => 2,
            DataplaneStatusType::DataplaneStatusError => 3,
        }
    }

    pub fn to_i32(&self) -> (r: i32)
        ensures
            r == self.as_int(),
    {
        match self {
            DataplaneStatusType::DataplaneStatusUnknown => 0,
            DataplaneStatusType::DataplaneStatusHealthy => 1,
            DataplaneStatusType::DataplaneStatusInit => 2,
            DataplaneStatusType::DataplaneStatusError => 3,
        }
    }
}

/// The state of a BGP neighbor session.
#[derive(Clone, Copy, Debug, PartialEq, Eq, Structural)]
pub enum BgpNeighborSessionState {
    BgpStateUnset,
    BgpStateIdle,
    BgpStateConnect,
    BgpStateActive,
    BgpStateOpen,
    BgpStateEstablished,
}

impl BgpNeighborSessionState {
    /// The numeric wire value of this variant.
    pub open spec fn as_int(&self) -> int {
        match self {
            BgpNeighborSessionState::BgpStateUnset => 0,
            BgpNeighborSessionState::BgpStateIdle => 1,
            BgpNeighborSessionState::BgpStateConnect => 2,
            BgpNeighborSessionState::BgpStateActive => 3,
            BgpNeighborSessionState::BgpStateOpen => 4,
            BgpNeighborSessionState::BgpStateEstablished => 5,
        }
    }

    pub fn to_i32(&self) -> (r: i32)
        ensures
            r == self.as_int(),
    {
        match self {
            BgpNeighborSessionState::BgpStateUnset => 0,
            BgpNeighborSessionState::BgpStateIdle => 1,
            BgpNeighborSessionState::BgpStateConnect => 2,
            BgpNeighborSessionState::BgpStateActive => 3,
            BgpNeighborSessionState::BgpStateOpen => 4,
            BgpNeighborSessionState::BgpStateEstablished => 5,
        }
    }
}

/// A log severity.
#[derive(Clone, Copy, Debug, PartialEq, Eq, Structural)]
pub enum LogLevel {
    LogLevelUnspecified,
    LogLevelError,
    LogLevelWarning,
    LogLevelInfo,
    LogLevelDebug,
    LogLevelTrace,
}

impl LogLevel {
    /// The numeric wire value of this variant.
    pub open spec fn as_int(&self) -> int {
        match self {
            LogLevel::LogLevelUnspecified => 0,
            LogLevel::LogLevelError => 1,
            LogLevel::LogLevelWarning => 2,
            LogLevel::LogLevelInfo => 3,
            LogLevel::LogLevelDebug => 4,
            LogLevel::LogLevelTrace => 5,
        }
    }

    pub fn to_i32(&self) -> (r: i32)
        ensures
            r == self.as_int(),
    {
        match self {
            LogLevel::LogLevelUnspecified => 0,
            LogLevel::LogLevelError => 1,
            LogLevel::LogLevelWarning => 2,
            LogLevel::LogLevelInfo => 3,
            LogLevel::LogLevelDebug => 4,
            LogLevel::LogLevelTrace => 5,
        }
    }
}

/// The request for a dataplane status snapshot; it carries nothing.
#[derive(Clone, Debug)]
pub struct GetDataplaneStatusRequest {}

/// The administrative and operational state of one interface.
#[derive(Clone, Debug)]
pub struct InterfaceStatus {
    pub ifname: String,
    pub oper_status: i32,
    pub admin_status: i32,
}

/// The interface status invariant: a legal interface name and in-range
/// states.
pub open spec fn interface_status_wf(s: InterfaceStatus) -> bool {
    &&& valid_if_name(s.ifname@)
    &&& 0 <= s.oper_status <= 3
    &&& 0 <= s.admin_status <= 2
}

/// The state of the routing stack.
#[derive(Clone, Debug)]
pub struct FrrStatus {
    pub zebra_status: i32,
    pub frr_agent_status: i32,
    pub applied_config_gen: i64,
    pub restarts: u32,
    pub applied_configs: u32,
    pub failed_configs: u32,
}

/// The routing-stack status invariant: in-range states and a restart count
/// drawn from the skewed distribution's overall range.
pub open spec fn frr_status_wf(f: FrrStatus) -> bool {
    &&& 0 <= f.zebra_status <= 1
    &&& 0 <= f.frr_agent_status <= 1
    &&& f.restarts <= 1000
}

/// The overall dataplane health report.
#[derive(Clone, Debug)]
pub struct DataplaneStatusInfo {
    pub status: i32,
}

/// The dataplane health invariant: an in-range state.
pub open spec fn dataplane_status_info_wf(x: DataplaneStatusInfo) -> bool {
    0 <= x.status <= 3
}

/// Traffic counters of one interface.  Rates are whole bits per second.
#[derive(Clone, Debug)]
pub struct InterfaceCounters {
    pub tx_bits: u64,
    pub tx_bps: u64,
    pub tx_errors: u64,
    pub rx_bits: u64,
    pub rx_bps: u64,
    pub rx_errors: u64,
}

/// The counters invariant: every counter within its generation range.
pub open spec fn interface_counters_wf(c: InterfaceCounters) -> bool {
    &&& c.tx_bits <= 10_000_000
    &&& c.rx_bits <= 10_000_000
    &&& c.tx_errors <= 10_000
    &&& c.rx_errors <= 10_000
    &&& c.tx_bps <= 5_000_000
    &&& c.rx_bps <= 5_000_000
}

/// The runtime state of one interface.
#[derive(Clone, Debug)]
pub struct InterfaceRuntimeStatus {
    pub admin_status: i32,
    pub oper_status: i32,
    pub mac: String,
    pub mtu: u32,
    pub counters: Option<InterfaceCounters>,
}

/// The runtime-status invariant: in-range states, a plausible MTU, a MAC
/// written as a fixed `02` byte and five hex bytes, and well-formed
/// counters when present.
pub open spec fn interface_runtime_status_wf(x: InterfaceRuntimeStatus) -> bool {
    &&& 0 <= x.admin_status <= 2
    &&& 0 <= x.oper_status <= 3
    &&& 576 <= x.mtu <= 9216
    &&& x.mac@.len() == 17
    &&& (exists|b1: u8, b2: u8, b3: u8, b4: u8, b5: u8|
        x.mac@ == local_mac_text(b1, b2, b3, b4, b5))
    &&& (x.counters matches Some(c) ==> interface_counters_wf(c))
}

/// Counts of BGP messages by kind.
#[derive(Clone, Debug)]
pub struct BgpMessageCounters {
    pub capability: u64,
    pub keepalive: u64,
    pub notification: u64,
    pub open: u64,
    pub route_refresh: u64,
    pub update: u64,
}

/// Message counters received and sent.
#[derive(Clone, Debug)]
pub struct BgpMessages {
    pub received: Option<BgpMessageCounters>,
    pub sent: Option<BgpMessageCounters>,
}

/// The message-counter invariant: every count within its generation range.
pub open spec fn bgp_message_counters_wf(c: BgpMessageCounters) -> bool {
    &&& c.capability <= 10_000
    &&& c.keepalive <= 10_000
    &&& c.notification <= 1_000
    &&& c.open <= 5_000
    &&& c.route_refresh <= 5_000
    &&& c.update <= 50_000
}

/// The messages invariant: both directions present and well formed.
pub open spec fn bgp_messages_wf(m: BgpMessages) -> bool {
    &&& (m.received matches Some(c) && bgp_message_counters_wf(c))
    &&& (m.sent matches Some(c) && bgp_message_counters_wf(c))
}

/// Prefix counts of one address family for one neighbor.
#[derive(Clone, Debug)]
pub struct BgpNeighborPrefixes {
    pub received: u32,
    pub received_pre_policy: u32,
    pub sent: u32,
}

/// The prefixes invariant: what survives policy never exceeds what arrived
/// before policy.
pub open spec fn bgp_neighbor_prefixes_wf(p: BgpNeighborPrefixes) -> bool {
    &&& p.received <= p.received_pre_policy
    &&& p.received_pre_policy <= 50_000
    &&& p.sent <= 50_000
}

/// The state of one BGP neighbor.
#[derive(Clone, Debug)]
pub struct BgpNeighborStatus {
    pub enabled: bool,
    pub local_as: u32,
    pub peer_as: u32,
    pub peer_port: u32,
    pub peer_group: String,
    pub remote_router_id: String,
    pub session_state: i32,
    pub connections_dropped: u64,
    pub established_transitions: u64,
    pub last_reset_reason: String,
    pub messages: Option<BgpMessages>,
    pub ipv4_unicast_prefixes: Option<BgpNeighborPrefixes>,
    pub ipv6_unicast_prefixes: Option<BgpNeighborPrefixes>,
    pub l2vpn_evpn_prefixes: Option<BgpNeighborPrefixes>,
}

/// The neighbor invariant: in-range scalars, a peer group named `grp<n>`,
/// the fixed reset-reason text, a dotted-quad router id whose outer octets
/// avoid zero and broadcast, messages present, and one well-formed prefix
/// record per address family.
pub open spec fn bgp_neighbor_status_wf(n: BgpNeighborStatus) -> bool {
    &&& 1 <= n.peer_port <= 65535
    &&& 1 <= n.local_as <= 65_534
    &&& 1 <= n.peer_as <= 65_534
    &&& n.peer_group@.len() >= 1
    &&& (exists|g: u32| g <= 1000 && n.peer_group@ == peer_group_text(g))
    &&& n.last_reset_reason@ == "test"@
    &&& n.remote_router_id@.len() >= 1
    &&& (exists|o1: u8, o2: u8, o3: u8, o4: u8|
        1 <= o1 <= 254 && 1 <= o4 <= 254 && n.remote_router_id@ == dotted_quad_text(
            o1,
            o2,
            o3,
            o4,
        ))
    &&& 0 <= n.session_state <= 5
    &&& n.connections_dropped <= 1000
    &&& n.established_transitions <= 1000
    &&& (n.messages matches Some(m) && bgp_messages_wf(m))
    &&& (n.ipv4_unicast_prefixes matches Some(p) && bgp_neighbor_prefixes_wf(p))
    &&& (n.ipv6_unicast_prefixes matches Some(p) && bgp_neighbor_prefixes_wf(p))
    &&& (n.l2vpn_evpn_prefixes matches Some(p) && bgp_neighbor_prefixes_wf(p))
}

/// The neighbors of one VRF, keyed by neighbor address.
#[derive(Clone, Debug)]
pub struct BgpVrfStatus {
    pub neighbors: Vec<(String, BgpNeighborStatus)>,
}

/// The VRF invariant: few neighbors, distinct keys of the private-range
/// dotted-quad form, each neighbor well formed.
pub open spec fn bgp_vrf_status_wf(v: BgpVrfStatus) -> bool {
    &&& v.neighbors@.len() <= 4
    &&& distinct_keys(v.neighbors@)
    &&& forall|i: int|
        0 <= i < v.neighbors@.len() ==> (#[trigger] v.neighbors@[i]).0@.len() >= 1
            && (exists|x: u8, y: u8, z: u8|
            1 <= z <= 254 && v.neighbors@[i].0@ == neighbor_key_text(x, y, z))
            && bgp_neighbor_status_wf(v.neighbors@[i].1)
}

/// BGP state over all VRFs, keyed by VRF name.
#[derive(Clone, Debug)]
pub struct BgpStatus {
    pub vrfs: Vec<(String, BgpVrfStatus)>,
}

/// The BGP invariant: few VRFs with distinct names, the default VRF present
/// whenever any is, every other name carrying its index, each well formed.
pub open spec fn bgp_status_wf(b: BgpStatus) -> bool {
    &&& b.vrfs@.len() <= 3
    &&& distinct_keys(b.vrfs@)
    &&& (b.vrfs@.len() >= 1 ==> exists|i: int|
        0 <= i < b.vrfs@.len() && (#[trigger] b.vrfs@[i]).0@ == "default"@)
    &&& forall|i: int|
        0 <= i < b.vrfs@.len() ==> (#[trigger] b.vrfs@[i]).0@.len() >= 1 && ((b.vrfs@[i].0@
            == "default"@) || (exists|k: nat| 1 <= k <= 2 && b.vrfs@[i].0@ == vrf_name_text(k)))
            && bgp_vrf_status_wf(b.vrfs@[i].1)
}

/// The state of one interface attached to a VPC.
#[derive(Clone, Debug)]
pub struct VpcInterfaceStatus {
    pub ifname: String,
    pub admin_status: i32,
    pub oper_status: i32,
}

/// The VPC-interface invariant: a legal interface name and in-range states.
pub open spec fn vpc_interface_status_wf(s: VpcInterfaceStatus) -> bool {
    &&& valid_if_name(s.ifname@)
    &&& 0 <= s.admin_status <= 2
    &&& 0 <= s.oper_status <= 3
}

/// The state of one VPC.
#[derive(Clone, Debug)]
pub struct VpcStatus {
    pub id: String,
    pub name: String,
    pub vni: u32,
    pub route_count: u32,
    pub interfaces: Vec<(String, VpcInterfaceStatus)>,
}

/// The VPC invariant: an identifier `id-<n>` and a name `vpc-<n>`, a valid
/// VNI, and an interface map keyed by each entry's own interface name.
pub open spec fn vpc_status_wf(v: VpcStatus) -> bool {
    &&& v.id@.len() >= 1
    &&& (exists|n: u32| 1 <= n <= 10_000 && v.id@ == vpc_id_text(n))
    &&& v.name@.len() >= 1
    &&& (exists|n: u32| 1 <= n <= 128 && v.name@ == vpc_name_text(n))
    &&& 1 <= v.vni <= 16_777_215
    &&& v.route_count <= 50_000
    &&& v.interfaces@.len() <= 4
    &&& distinct_keys(v.interfaces@)
    &&& forall|i: int|
        0 <= i < v.interfaces@.len() ==> (#[trigger] v.interfaces@[i]).0@ == v.interfaces@[i].1.ifname@
            && vpc_interface_status_wf(v.interfaces@[i].1)
}

/// Traffic counters between a pair of VPCs.  Rates are whole units.
#[derive(Clone, Debug)]
pub struct VpcPeeringCounters {
    pub name: String,
    pub src_vpc: String,
    pub dst_vpc: String,
    pub packets: u64,
    pub bytes: u64,
    pub drops: u64,
    pub pps: u64,
    pub bps: u64,
}

/// The peering-counters invariant: the name is the ordered pair of VPC
/// names, drops stay within the total, and bytes derive from packets by a
/// fixed multiplier.
pub open spec fn vpc_peering_counters_wf(c: VpcPeeringCounters) -> bool {
    &&& c.src_vpc@.len() >= 1
    &&& c.dst_vpc@.len() >= 1
    &&& lex_le(c.src_vpc@, c.dst_vpc@)
    &&& c.name@ == c.src_vpc@ + seq!['-', '-'] + c.dst_vpc@
    &&& c.packets <= 10_000_000
    &&& c.drops <= c.packets
    &&& c.bytes == c.packets * 64
    &&& c.pps <= 100_000
    &&& c.bps <= 5_000_000
}

/// Aggregate traffic counters of one VPC.
#[derive(Clone, Debug)]
pub struct VpcCounters {
    pub name: String,
    pub packets: u64,
    pub drops: u64,
    pub bytes: u64,
}

/// The VPC-counters invariant: a name of the form `vpc-<n>`, drops within
/// the total, and bytes derived from packets by a fixed multiplier.
pub open spec fn vpc_counters_wf(c: VpcCounters) -> bool {
    &&& c.name@.len() >= 1
    &&& (exists|n: u32| 1 <= n <= 128 && c.name@ == vpc_name_text(n))
    &&& c.packets <= 100_000_000
    &&& c.drops <= c.packets
    &&& c.bytes == c.packets * 64
}

/// A full dataplane status snapshot.
#[derive(Clone, Debug)]
pub struct GetDataplaneStatusResponse {
    pub interface_statuses: Vec<InterfaceStatus>,
    pub frr_status: Option<FrrStatus>,
    pub dataplane_status: Option<DataplaneStatusInfo>,
    pub interface_runtime: Vec<(String, InterfaceRuntimeStatus)>,
    pub bgp: Option<BgpStatus>,
    pub vpcs: Vec<(String, VpcStatus)>,
    pub vpc_peering_counters: Vec<(String, VpcPeeringCounters)>,
    pub vpc_counters: Vec<(String, VpcCounters)>,
}

/// The snapshot invariant: every list small, every name-keyed map free of
/// duplicate keys and keyed by the entry's own name, every nested record
/// well formed.
pub open spec fn response_wf(r: GetDataplaneStatusResponse) -> bool {
    &&& r.interface_statuses@.len() <= 8
    &&& (forall|i: int, j: int|
        0 <= i < j < r.interface_statuses@.len() ==> (#[trigger] r.interface_statuses@[i]).ifname@
            != (#[trigger] r.interface_statuses@[j]).ifname@)
    &&& (forall|i: int|
        0 <= i < r.interface_statuses@.len() ==> interface_status_wf(
            #[trigger] r.interface_statuses@[i],
        ))
    &&& (r.frr_status matches Some(f) ==> frr_status_wf(f))
    &&& (r.dataplane_status matches Some(x) ==> dataplane_status_info_wf(x))
    &&& r.interface_runtime@.len() <= 10
    &&& distinct_keys(r.interface_runtime@)
    &&& (forall|i: int|
        0 <= i < r.interface_runtime@.len() ==> (#[trigger] r.interface_runtime@[i]).0@.len() >= 1
            && interface_runtime_status_wf(r.interface_runtime@[i].1))
    &&& (r.bgp matches Some(b) ==> bgp_status_wf(b))
    &&& r.vpcs@.len() <= 4
    &&& distinct_keys(r.vpcs@)
    &&& (forall|i: int|
        0 <= i < r.vpcs@.len() ==> (#[trigger] r.vpcs@[i]).0@ == r.vpcs@[i].1.name@ && vpc_status_wf(
            r.vpcs@[i].1,
        ))
    &&& r.vpc_peering_counters@.len() <= 6
    &&& distinct_keys(r.vpc_peering_counters@)
    &&& (forall|i: int|
        0 <= i < r.vpc_peering_counters@.len() ==> (#[trigger] r.vpc_peering_counters@[i]).0@
            == r.vpc_peering_counters@[i].1.name@ && vpc_peering_counters_wf(
            r.vpc_peering_counters@[i].1,
        ))
    &&& r.vpc_counters@.len() <= 4
    &&& distinct_keys(r.vpc_counters@)
    &&& (forall|i: int|
        0 <= i < r.vpc_counters@.len() ==> (#[trigger] r.vpc_counters@[i]).0@
            == r.vpc_counters@[i].1.name@ && vpc_counters_wf(r.vpc_counters@[i].1))
}

/// A gateway configuration, of which only the generation counter matters
/// here; the full record is external.
#[derive(Clone, Debug)]
pub struct GatewayConfig {
    pub generation: i64,
}

/// Whether a configuration is acceptable; this gateway accepts any.
pub fn validate_config(_config: &GatewayConfig) -> (r: bool)
    ensures
        r == true,
{
    true
}

/// Apply a configuration; this gateway applies any without effect.
pub fn apply_config(_config: &GatewayConfig) -> (r: Result<(), String>)
    ensures
        r is Ok,
{
    Ok(())
}

/// Whether a name-keyed map already holds a key.
pub fn map_contains_key<V>(m: &Vec<(String, V)>, key: &String) -> (r: bool)
    ensures
        r == exists|i: int| 0 <= i < m@.len() && (#[trigger] m@[i]).0@ == key@,
{
    let mut i: usize = 0;
    while i < m.len()
        invariant
            i <= m@.len(),
            forall|k: int| 0 <= k < i as int ==> (#[trigger] m@[k]).0@ != key@,
        decreases m@.len() - i,
    {
        if m[i].0 == *key {
            return true;
        }
        i = i + 1;
    }
    false
}

/// Insert into a name-keyed map, replacing the entry with the same key if
/// one exists.  Distinctness of keys is preserved; every entry of the
/// result is either the new pair or one of the old entries; the new pair is
/// present, and every old entry under a different key survives.
pub fn map_insert<V>(m: &mut Vec<(String, V)>, key: String, value: V)
    ensures
        distinct_keys(old(m)@) ==> distinct_keys(final(m)@),
        final(m)@.len() <= old(m)@.len() + 1,
        final(m)@.len() >= 1,
        final(m)@[final(m)@.len() - 1] == (key, value),
        forall|i: int|
            0 <= i < final(m)@.len() ==> (((#[trigger] final(m)@[i]).0@ == key@ && final(m)@[i].1
                == value) || (exists|j: int|
                0 <= j < old(m)@.len() && final(m)@[i] == (#[trigger] old(m)@[j]))),
        forall|j: int|
            0 <= j < old(m)@.len() && (#[trigger] old(m)@[j]).0@ != key@ ==> exists|i: int|
                0 <= i < final(m)@.len() && final(m)@[i] == old(m)@[j],
{
    let ghost m0 = m@;
    let mut i: usize = 0;
    let mut found: bool = false;
    let mut at: usize = 0;
    while i < m.len()
        invariant
            m@ == m0,
            i <= m@.len(),
            !found ==> forall|k: int| 0 <= k < i as int ==> (#[trigger] m@[k]).0@ != key@,
            found ==> (at < i as int && m@[at as int].0@ == key@),
        decreases m@.len() - i,
    {
        if !found && m[i].0 == key {
            found = true;
            at = i;
        }
        i = i + 1;
    }
    if found {
        let _ = m.remove(at);
        proof {
            assert(m@ == m0.remove(at as int));
            if distinct_keys(m0) {
                assert forall|k: int| 0 <= k < m@.len() implies (#[trigger] m@[k]).0@ != key@ by {
                    if k < at as int {
                        assert(m@[k] == m0[k]);
                    } else {
                        assert(m@[k] == m0[k + 1]);
                    }
                }
            }
        }
    }
    let ghost m1 = m@;
    m.push((key, value));
    proof {
        if distinct_keys(m0) {
            assert forall|i2: int, j2: int|
                0 <= i2 < j2 < m@.len() implies (#[trigger] m@[i2]).0@ != (#[trigger] m@[j2]).0@ by {
                if j2 < m@.len() - 1 {
                    if found {
                        let oi = if i2 < at as int { i2 } else { i2 + 1 };
                        let oj = if j2 < at as int { j2 } else { j2 + 1 };
                        assert(m@[i2] == m0[oi]);
                        assert(m@[j2] == m0[oj]);
                    }
                } else {
                    assert(m@[j2].0@ == m@[m@.len() - 1].0@);
                }
            }
        }
        assert forall|i2: int|
            0 <= i2 < m@.len() implies (((#[trigger] m@[i2]).0@ == m@[m@.len() - 1].0@ && m@[i2].1
            == m@[m@.len() - 1].1) || (exists|j2: int|
            0 <= j2 < m0.len() && m@[i2] == (#[trigger] m0[j2]))) by {
            if i2 < m@.len() - 1 {
                if found {
                    let oi = if i2 < at as int { i2 } else { i2 + 1 };
                    assert(m@[i2] == m0[oi]);
                } else {
                    assert(m@[i2] == m0[i2]);
                }
            }
        }
        assert forall|j2: int|
            0 <= j2 < m0.len() && (#[trigger] m0[j2]).0@ != m@[m@.len() - 1].0@ implies exists|
                i2: int,
            |
                0 <= i2 < m@.len() && m@[i2] == m0[j2] by {
            if found {
                // The removed index held the inserted key, so it is not this
                // entry; everything else kept its place or moved down one.
                if j2 < at as int {
                    assert(m@[j2] == m0[j2]);
                } else {
                    assert(j2 != at as int);
                    assert(m@[j2 - 1] == m0[j2]);
                }
            } else {
                assert(m@[j2] == m0[j2]);
            }
        }
    }
}

/// Compare two strings lexicographically.
pub fn lex_le_str(a: &str, b: &str) -> (r: bool)
    ensures
        r == lex_le(a@, b@),
{
    let alen = a.unicode_len();
    let blen = b.unicode_len();
    let mut i: usize = 0;
    loop
        invariant
            i <= alen,
            i <= blen,
            alen == a@.len(),
            blen == b@.len(),
            lex_le(a@, b@) == lex_le_from(a@, b@, i as int),
        decreases alen - i,
    {
        if i >= alen {
            return true;
        }
        if i >= blen {
            return false;
        }
        let ca = a.get_char(i);
        let cb = b.get_char(i);
        if ca != cb {
            return ca < cb;
        }
        i = i + 1;
    }
}

} // verus!
