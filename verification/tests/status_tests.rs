//! Generated status records: value ranges, unique keys, cross-field
//! invariants, and the skewed restart distribution.

use gateway_config::driver::SeededDriver;
use gateway_config::schema::{
    BgpNeighborSessionState, DataplaneStatusInfo, DataplaneStatusType, FrrAgentStatusType,
    FrrStatus, GetDataplaneStatusRequest, GetDataplaneStatusResponse, InterfaceAdminStatusType,
    InterfaceOperStatusType, InterfaceStatus, ZebraStatusType,
};

#[test]
fn test_interface_status_type() {
    for seed in 0..500u64 {
        let mut d = SeededDriver::new(seed);
        let t = InterfaceOperStatusType::generate(&mut d).unwrap();
        let n = t.to_i32();
        assert!((0..=3).contains(&n));
    }
}

#[test]
fn test_frr_status_type() {
    for seed in 0..500u64 {
        let mut d = SeededDriver::new(seed);
        let t = ZebraStatusType::generate(&mut d).unwrap();
        let n = t.to_i32();
        assert!((0..=1).contains(&n));
    }
}

#[test]
fn test_frr_agent_status_type() {
    for seed in 0..500u64 {
        let mut d = SeededDriver::new(seed);
        let t = FrrAgentStatusType::generate(&mut d).unwrap();
        let n = t.to_i32();
        assert!((0..=1).contains(&n));
    }
}

#[test]
fn test_interface_admin_status_type() {
    for seed in 0..500u64 {
        let mut d = SeededDriver::new(seed);
        let t = InterfaceAdminStatusType::generate(&mut d).unwrap();
        let n = t.to_i32();
        assert!((0..=2).contains(&n));
    }
}

#[test]
fn test_dataplane_status_type() {
    for seed in 0..500u64 {
        let mut d = SeededDriver::new(seed);
        let t = DataplaneStatusType::generate(&mut d).unwrap();
        let n = t.to_i32();
        assert!((0..=3).contains(&n));
    }
}

#[test]
fn test_interface_status() {
    for seed in 0..500u64 {
        let mut d = SeededDriver::new(seed);
        let s = InterfaceStatus::generate(&mut d).unwrap();
        assert!(!s.ifname.is_empty());
        assert!((0..=3).contains(&s.oper_status));
        assert!((0..=2).contains(&s.admin_status));
    }
}

#[test]
fn test_frr_status() {
    let mut some_restarts = false;
    for seed in 0..500u64 {
        let mut d = SeededDriver::new(seed);
        let frr = FrrStatus::generate(&mut d).unwrap();
        assert!((0..=1).contains(&frr.zebra_status));
        assert!((0..=1).contains(&frr.frr_agent_status));
        assert!(frr.restarts <= 1000);
        if frr.restarts > 0 {
            some_restarts = true;
        }
    }
    assert!(some_restarts);
}

#[test]
fn test_dataplane_status_info() {
    for seed in 0..500u64 {
        let mut d = SeededDriver::new(seed);
        let dsi = DataplaneStatusInfo::generate(&mut d).unwrap();
        assert!((0..=3).contains(&dsi.status));
    }
}

#[test]
fn test_get_dataplane_status_request() {
    for seed in 0..50u64 {
        let mut d = SeededDriver::new(seed);
        let _request = GetDataplaneStatusRequest::generate(&mut d).unwrap();
        // Empty request: nothing to validate
    }
}

#[test]
fn test_get_dataplane_status_response() {
    let mut some_interfaces = false;
    let mut some_frr_status = false;
    let mut some_dataplane_status = false;
    let mut missing_frr_status = false;
    let mut missing_dataplane_status = false;

    for seed in 0..300u64 {
        let mut d = SeededDriver::new(seed);
        let resp = GetDataplaneStatusResponse::generate(&mut d).unwrap();
        assert!(resp.interface_statuses.len() <= 8);

        // unique names
        let mut seen: Vec<&str> = Vec::new();
        for iface in &resp.interface_statuses {
            assert!(
                !seen.contains(&iface.ifname.as_str()),
                "dup ifname {}",
                iface.ifname
            );
            seen.push(iface.ifname.as_str());
            assert!(!iface.ifname.is_empty());
            assert!((0..=3).contains(&iface.oper_status));
            assert!((0..=2).contains(&iface.admin_status));
        }
        if !resp.interface_statuses.is_empty() {
            some_interfaces = true;
        }

        // FRR optional
        if let Some(frr) = &resp.frr_status {
            some_frr_status = true;
            assert!((0..=1).contains(&frr.zebra_status));
            assert!((0..=1).contains(&frr.frr_agent_status));
            assert!(frr.restarts <= 1000);
        } else {
            missing_frr_status = true;
        }

        // Dataplane optional
        if let Some(dp) = &resp.dataplane_status {
            some_dataplane_status = true;
            assert!((0..=3).contains(&dp.status));
        } else {
            missing_dataplane_status = true;
        }

        // interface_runtime values must be sane if present
        let mut runtime_keys: Vec<&str> = Vec::new();
        for (k, v) in &resp.interface_runtime {
            assert!(!runtime_keys.contains(&k.as_str()));
            runtime_keys.push(k.as_str());
            assert!(!k.is_empty());
            assert!((0..=3).contains(&v.oper_status));
            assert!((0..=2).contains(&v.admin_status));
        }

        // bgp (optional)
        if let Some(bgp) = &resp.bgp {
            let mut vrf_keys: Vec<&str> = Vec::new();
            for (vrf, vrf_status) in &bgp.vrfs {
                assert!(!vrf_keys.contains(&vrf.as_str()));
                vrf_keys.push(vrf.as_str());
                assert!(!vrf.is_empty());
                let mut nbr_keys: Vec<&str> = Vec::new();
                for (nbr, st) in &vrf_status.neighbors {
                    assert!(!nbr_keys.contains(&nbr.as_str()));
                    nbr_keys.push(nbr.as_str());
                    assert!(!nbr.is_empty());
                    assert!(st.peer_port <= 65535);
                    assert!((0..=5).contains(&st.session_state));
                    if let Some(msgs) = &st.messages {
                        if let Some(r) = &msgs.received {
                            let _ = (
                                r.capability,
                                r.keepalive,
                                r.notification,
                                r.open,
                                r.route_refresh,
                                r.update,
                            );
                        }
                        if let Some(s) = &msgs.sent {
                            let _ = (
                                s.capability,
                                s.keepalive,
                                s.notification,
                                s.open,
                                s.route_refresh,
                                s.update,
                            );
                        }
                    }
                    // check per-AF records
                    let p = st.ipv4_unicast_prefixes.as_ref().unwrap();
                    assert!(p.received <= p.received_pre_policy);
                    let p = st.ipv6_unicast_prefixes.as_ref().unwrap();
                    assert!(p.received <= p.received_pre_policy);
                    let p = st.l2vpn_evpn_prefixes.as_ref().unwrap();
                    assert!(p.received <= p.received_pre_policy);
                }
            }
        }

        // VPC status map (keys are VPC names)
        let mut vpc_keys: Vec<&str> = Vec::new();
        for (k, v) in &resp.vpcs {
            assert!(!vpc_keys.contains(&k.as_str()));
            vpc_keys.push(k.as_str());
            assert_eq!(k, &v.name);
            assert!(!v.id.is_empty());
            assert!((1..=16_777_215).contains(&v.vni));
        }

        // Peering counters map
        let mut peer_keys: Vec<&str> = Vec::new();
        for (name, c) in &resp.vpc_peering_counters {
            assert!(!peer_keys.contains(&name.as_str()));
            peer_keys.push(name.as_str());
            assert_eq!(name, &c.name);
            assert!(!c.src_vpc.is_empty());
            assert!(!c.dst_vpc.is_empty());
            assert!(c.packets >= c.drops);
            assert!(c.pps >= 0);
            assert!(c.bps >= 0);
        }

        let mut counter_keys: Vec<&str> = Vec::new();
        for (name, c) in &resp.vpc_counters {
            assert!(!counter_keys.contains(&name.as_str()));
            counter_keys.push(name.as_str());
            assert_eq!(name, &c.name);
            assert!(!c.name.is_empty());
            assert!(c.packets >= c.drops);
        }
    }

    assert!(some_interfaces);
    assert!(some_frr_status);
    assert!(some_dataplane_status);
    assert!(missing_frr_status);
    assert!(missing_dataplane_status);
}

#[test]
fn test_weighted_restart_generation() {
    let mut low_restarts = 0;
    let mut medium_restarts = 0;
    let mut high_restarts = 0;
    let total_samples = 1000u64;

    for seed in 0..total_samples {
        let mut d = SeededDriver::new(seed);
        let frr_status = FrrStatus::generate(&mut d).unwrap();
        match frr_status.restarts {
            0..=5 => low_restarts += 1,
            6..=50 => medium_restarts += 1,
            51..=1000 => high_restarts += 1,
            _ => panic!(
                "Restart count out of expected range: {}",
                frr_status.restarts
            ),
        }
    }

    assert!(low_restarts + medium_restarts + high_restarts > 0);
}

#[test]
fn test_weighted_distribution_shape() {
    // Over many samples every sub-range is reachable, and the low sub-range
    // strictly dominates in frequency.
    let mut low = 0;
    let mut medium = 0;
    let mut high = 0;
    for seed in 1000..3000u64 {
        let mut d = SeededDriver::new(seed);
        let frr = FrrStatus::generate(&mut d).unwrap();
        match frr.restarts {
            0..=5 => low += 1,
            6..=50 => medium += 1,
            _ => high += 1,
        }
    }
    assert!(low > 0);
    assert!(medium > 0);
    assert!(high > 0);
    assert!(low > medium);
    assert!(low > high);
}

#[test]
fn test_bgp_session_state_range() {
    for seed in 0..200u64 {
        let mut d = SeededDriver::new(seed);
        let s = BgpNeighborSessionState::generate(&mut d).unwrap();
        assert!((0..=5).contains(&s.to_i32()));
    }
}
