use kube_guardian::events::{
    kind_of, classify_kind, Direction, EventKind, Protocol, NetworkEventData, SyscallEventData,
};
use kube_guardian::model::{PodInfo, PodInspect, PodTraffic};
use kube_guardian::network::{process_network_event, TrafficCache, TrafficKey};
use kube_guardian::text::{ipv4_be_string, json_escape, json_string, json_string_array, u16_to_string, u64_to_string};

fn be_u32(a: u8, b: u8, c: u8, d: u8) -> u32 {
    // network order in memory, read little endian: first octet lowest
    (a as u32) | ((b as u32) << 8) | ((c as u32) << 16) | ((d as u32) << 24)
}

fn web_pod() -> PodInspect {
    PodInspect {
        status: PodInfo {
            pod_name: "web".to_string(),
            pod_namespace: Some("app".to_string()),
            pod_ip: "10.0.0.5".to_string(),
        },
        ..Default::default()
    }
}

#[test]
fn decimal_rendering() {
    assert_eq!(u64_to_string(0), "0");
    assert_eq!(u64_to_string(7), "7");
    assert_eq!(u64_to_string(80), "80");
    assert_eq!(u64_to_string(65535), "65535");
    assert_eq!(u64_to_string(12345678901), "12345678901");
    assert_eq!(u16_to_string(34567), "34567");
}

#[test]
fn ipv4_rendering() {
    assert_eq!(ipv4_be_string(be_u32(10, 0, 0, 5)), "10.0.0.5");
    assert_eq!(ipv4_be_string(be_u32(8, 8, 8, 8)), "8.8.8.8");
    assert_eq!(ipv4_be_string(be_u32(255, 255, 255, 255)), "255.255.255.255");
    assert_eq!(ipv4_be_string(0), "0.0.0.0");
}

#[test]
fn json_escaping() {
    assert_eq!(json_escape("plain"), "plain");
    assert_eq!(json_escape("a\"b"), "a\\\"b");
    assert_eq!(json_escape("a\\b"), "a\\\\b");
    assert_eq!(json_escape("a\nb\tc"), "a\\nb\\tc");
    assert_eq!(json_string("x\"y"), "\"x\\\"y\"");
    let arr = json_string_array(&vec!["read".to_string(), "write".to_string()]);
    assert_eq!(arr, "[\"read\",\"write\"]");
    let empty: Vec<String> = vec![];
    assert_eq!(json_string_array(&empty), "[]");
}

#[test]
fn traffic_record_json() {
    let r = PodTraffic {
        uuid: "u1".to_string(),
        pod_name: "web".to_string(),
        pod_namespace: Some("app".to_string()),
        pod_ip: "10.0.0.5".to_string(),
        pod_port: Some("0".to_string()),
        traffic_type: Some("EGRESS".to_string()),
        traffic_in_out_ip: Some("10.0.0.7".to_string()),
        traffic_in_out_port: Some("80".to_string()),
        ip_protocol: Some("TCP".to_string()),
        time_stamp: "2024-01-01T00:00:00".to_string(),
    };
    let expected = "{\"uuid\":\"u1\",\"pod_name\":\"web\",\"pod_namespace\":\"app\",\"pod_ip\":\"10.0.0.5\",\"pod_port\":\"0\",\"traffic_type\":\"EGRESS\",\"traffic_in_out_ip\":\"10.0.0.7\",\"traffic_in_out_port\":\"80\",\"ip_protocol\":\"TCP\",\"time_stamp\":\"2024-01-01T00:00:00\"}";
    assert_eq!(r.to_json(), expected);
}

#[test]
fn detail_and_batch_json() {
    let d = kube_guardian::model::PodDetail {
        pod_ip: "10.0.0.5".to_string(),
        pod_name: "web".to_string(),
        pod_namespace: None,
        pod_obj: Some("{\"kind\":\"Pod\"}".to_string()),
        time_stamp: "t0".to_string(),
    };
    assert_eq!(
        d.to_json(),
        "{\"pod_ip\":\"10.0.0.5\",\"pod_name\":\"web\",\"pod_namespace\":null,\"pod_obj\":{\"kind\":\"Pod\"},\"time_stamp\":\"t0\"}"
    );
    let b = kube_guardian::model::SyscallData {
        pod_name: "web".to_string(),
        pod_namespace: "".to_string(),
        syscalls: vec!["read".to_string(), "write".to_string()],
        arch: "x86_64".to_string(),
        time_stamp: "t0".to_string(),
    };
    assert_eq!(
        b.to_json(),
        "{\"pod_name\":\"web\",\"pod_namespace\":\"\",\"syscalls\":[\"read\",\"write\"],\"arch\":\"x86_64\",\"time_stamp\":\"t0\"}"
    );
}

#[test]
fn kind_codes_decode() {
    assert!(matches!(kind_of(1), Some(EventKind::TcpIngressAccepted)));
    assert!(matches!(kind_of(2), Some(EventKind::TcpEgressEstablished)));
    assert!(matches!(kind_of(3), Some(EventKind::UdpSend)));
    assert!(kind_of(0).is_none());
    assert!(kind_of(4).is_none());
    assert!(kind_of(65535).is_none());
}

#[test]
fn kind_classification_injective_on_the_three_codes() {
    // the (direction, protocol, port mapping) triples of the three kinds
    // are pairwise distinct
    let c1 = classify_kind(EventKind::TcpIngressAccepted, 34567, 80);
    let c2 = classify_kind(EventKind::TcpEgressEstablished, 34567, 80);
    let c3 = classify_kind(EventKind::UdpSend, 34567, 80);
    assert_eq!(c1, (Direction::Ingress, Protocol::Tcp, 34567, 0));
    assert_eq!(c2, (Direction::Egress, Protocol::Tcp, 0, 80));
    assert_eq!(c3, (Direction::Egress, Protocol::Udp, 0, 80));
    assert_ne!(c1, c2);
    assert_ne!(c2, c3);
    assert_ne!(c1, c3);
}

#[test]
fn network_event_from_bytes() {
    let mut b = vec![0u8; 28];
    b[0] = 42; // inum = 42
    b[8] = 10;
    b[11] = 9; // saddr octets 10.0.0.9 network order
    b[12] = 0x07;
    b[13] = 0x87; // sport = 0x8707 = 34567
    b[16] = 10;
    b[19] = 5; // daddr 10.0.0.5
    b[20] = 80; // dport = 80
    b[26] = 1; // kind = 1
    let ev = NetworkEventData::from_bytes(&b).unwrap();
    assert_eq!(ev.inum, 42);
    assert_eq!(ev.sport, 34567);
    assert_eq!(ev.dport, 80);
    assert_eq!(ev.kind, 1);
    assert_eq!(ipv4_be_string(ev.saddr), "10.0.0.9");
    assert_eq!(ipv4_be_string(ev.daddr), "10.0.0.5");
    assert!(NetworkEventData::from_bytes(&b[..27]).is_none());
}

#[test]
fn syscall_event_from_bytes() {
    let mut b = vec![0u8; 12];
    b[0] = 42;
    b[8] = 1;
    let ev = SyscallEventData::from_bytes(&b).unwrap();
    assert_eq!(ev.inum, 42);
    assert_eq!(ev.sysnbr, 1);
    assert!(SyscallEventData::from_bytes(&b[..11]).is_none());
}

#[test]
fn tcp_egress_deduplicated() {
    // registry knows inum 42; the same egress event twice emits once
    let mut cache = TrafficCache::new();
    let pod = web_pod();
    let ev = NetworkEventData {
        inum: 42,
        saddr: be_u32(10, 0, 0, 5),
        sport: 0,
        daddr: be_u32(10, 0, 0, 7),
        dport: 80,
        old_state: 0,
        new_state: 0,
        kind: 2,
    };
    let d = process_network_event(&mut cache, &ev, Some(&pod)).expect("first event emits");
    let r = &d.record;
    assert_eq!(r.pod_name, "web");
    assert_eq!(r.pod_ip, "10.0.0.5");
    assert_eq!(r.pod_port.as_deref(), Some("0"));
    assert_eq!(r.traffic_in_out_ip.as_deref(), Some("10.0.0.7"));
    assert_eq!(r.traffic_in_out_port.as_deref(), Some("80"));
    assert_eq!(r.traffic_type.as_deref(), Some("EGRESS"));
    assert_eq!(r.ip_protocol.as_deref(), Some("TCP"));
    assert_eq!(r.uuid.len(), 36);
    // the fingerprint is recorded only after the successful emission
    cache.record_emitted(d.key);
    assert!(process_network_event(&mut cache, &ev, Some(&pod)).is_none());
}

#[test]
fn tcp_ingress_accept_side_rule() {
    let mut cache = TrafficCache::new();
    let pod = web_pod();
    let ev = NetworkEventData {
        inum: 42,
        saddr: be_u32(10, 0, 0, 9),
        sport: 34567,
        daddr: be_u32(10, 0, 0, 5),
        dport: 80,
        old_state: 0,
        new_state: 0,
        kind: 1,
    };
    let d = process_network_event(&mut cache, &ev, Some(&pod)).expect("ingress event emits");
    let r = &d.record;
    assert_eq!(r.traffic_type.as_deref(), Some("INGRESS"));
    assert_eq!(r.pod_port.as_deref(), Some("34567"));
    assert_eq!(r.traffic_in_out_port.as_deref(), Some("0"));
    assert_eq!(r.traffic_in_out_ip.as_deref(), Some("10.0.0.5"));
    assert_eq!(r.ip_protocol.as_deref(), Some("TCP"));
}

#[test]
fn udp_egress_rule() {
    let mut cache = TrafficCache::new();
    let pod = web_pod();
    let ev = NetworkEventData {
        inum: 42,
        saddr: be_u32(10, 0, 0, 5),
        sport: 40000,
        daddr: be_u32(8, 8, 8, 8),
        dport: 53,
        old_state: 0,
        new_state: 0,
        kind: 3,
    };
    let d = process_network_event(&mut cache, &ev, Some(&pod)).expect("udp event emits");
    let r = &d.record;
    assert_eq!(r.traffic_type.as_deref(), Some("EGRESS"));
    assert_eq!(r.ip_protocol.as_deref(), Some("UDP"));
    assert_eq!(r.pod_port.as_deref(), Some("0"));
    assert_eq!(r.traffic_in_out_port.as_deref(), Some("53"));
    assert_eq!(r.traffic_in_out_ip.as_deref(), Some("8.8.8.8"));
}

#[test]
fn orphan_event_is_dropped() {
    // an event whose inum the registry does not know produces nothing
    let mut cache = TrafficCache::new();
    let ev = NetworkEventData {
        inum: 999,
        saddr: be_u32(10, 0, 0, 9),
        sport: 1,
        daddr: be_u32(10, 0, 0, 5),
        dport: 2,
        old_state: 0,
        new_state: 0,
        kind: 1,
    };
    assert!(process_network_event(&mut cache, &ev, None).is_none());
}

#[test]
fn unknown_kind_is_dropped() {
    let mut cache = TrafficCache::new();
    let pod = web_pod();
    let ev = NetworkEventData {
        inum: 42,
        saddr: 0,
        sport: 0,
        daddr: 0,
        dport: 0,
        old_state: 0,
        new_state: 0,
        kind: 9,
    };
    assert!(process_network_event(&mut cache, &ev, Some(&pod)).is_none());
}

#[test]
fn fingerprint_leaves_out_uuid_and_timestamp() {
    let r1 = PodTraffic {
        uuid: "a".to_string(),
        time_stamp: "t1".to_string(),
        pod_name: "web".to_string(),
        pod_ip: "10.0.0.5".to_string(),
        pod_port: Some("0".to_string()),
        traffic_type: Some("EGRESS".to_string()),
        traffic_in_out_ip: Some("10.0.0.7".to_string()),
        traffic_in_out_port: Some("80".to_string()),
        ip_protocol: Some("TCP".to_string()),
        pod_namespace: None,
    };
    let mut r2 = r1.clone();
    r2.uuid = "b".to_string();
    r2.time_stamp = "t2".to_string();
    assert_eq!(TrafficKey::of_record(&r1).encode(), TrafficKey::of_record(&r2).encode());
    let mut r3 = r1.clone();
    r3.traffic_in_out_port = Some("81".to_string());
    assert_ne!(TrafficKey::of_record(&r1).encode(), TrafficKey::of_record(&r3).encode());
}
