use kube_guardian::collector::{
    create_pod_syscalls, create_pod_traffic, join_strings, pod_ip, pod_syscalls_by_name,
    pod_traffic_by_name, svc_ip, upsert_pod_details, upsert_svc_details, PodDetail,
    PodInputSyscalls, PodSyscalls, PodTraffic, SvcDetail,
};
use kube_guardian::trace::{classify_syn_ack, Traffic, TrafficLog};
use kube_guardian::model::PodInfo;

fn traffic_row(uuid: &str, port: &str, peer_port: &str, proto: &str) -> PodTraffic {
    PodTraffic {
        uuid: uuid.to_string(),
        pod_name: Some("web".to_string()),
        pod_namespace: Some("app".to_string()),
        pod_ip: Some("10.0.0.5".to_string()),
        pod_port: Some(port.to_string()),
        ip_protocol: Some(proto.to_string()),
        traffic_type: Some("EGRESS".to_string()),
        traffic_in_out_ip: Some("10.0.0.7".to_string()),
        traffic_in_out_port: Some(peer_port.to_string()),
        time_stamp: "t0".to_string(),
    }
}

#[test]
fn traffic_rows_deduplicate_on_arrival() {
    let mut table: Vec<PodTraffic> = Vec::new();
    let w = traffic_row("u1", "0", "80", "TCP");
    create_pod_traffic(&mut table, w);
    assert_eq!(table.len(), 1);
    // a second record of the same flow, with a fresh id, stores nothing
    let w2 = traffic_row("u2", "0", "80", "TCP");
    create_pod_traffic(&mut table, w2);
    assert_eq!(table.len(), 1);
    assert_eq!(table[0].uuid, "u1");
    // a different flow stores a second row
    let w3 = traffic_row("u3", "0", "443", "TCP");
    create_pod_traffic(&mut table, w3);
    assert_eq!(table.len(), 2);
}

#[test]
fn udp_traffic_matches_on_peer_endpoint() {
    let mut table: Vec<PodTraffic> = Vec::new();
    create_pod_traffic(&mut table, traffic_row("u1", "0", "53", "UDP"));
    // same peer endpoint, different workload port: still the same flow
    // under the first match rule
    create_pod_traffic(&mut table, traffic_row("u2", "9", "53", "UDP"));
    assert_eq!(table.len(), 1);
}

#[test]
fn detail_upserts_replace_by_key() {
    let mut pods: Vec<PodDetail> = Vec::new();
    upsert_pod_details(&mut pods, PodDetail {
        pod_name: "web".to_string(),
        pod_ip: "10.0.0.5".to_string(),
        pod_namespace: Some("app".to_string()),
        pod_obj: None,
        time_stamp: "t0".to_string(),
    });
    upsert_pod_details(&mut pods, PodDetail {
        pod_name: "web".to_string(),
        pod_ip: "10.0.0.6".to_string(),
        pod_namespace: Some("app".to_string()),
        pod_obj: None,
        time_stamp: "t1".to_string(),
    });
    assert_eq!(pods.len(), 1);
    assert_eq!(pods[0].pod_ip, "10.0.0.6");
    assert_eq!(pod_ip(&pods, "10.0.0.6"), Some(0));
    assert_eq!(pod_ip(&pods, "10.0.0.5"), None);

    let mut svcs: Vec<SvcDetail> = Vec::new();
    upsert_svc_details(&mut svcs, SvcDetail {
        svc_ip: "10.96.0.10".to_string(),
        svc_name: Some("db".to_string()),
        svc_namespace: None,
        service_spec: None,
        time_stamp: "t0".to_string(),
    });
    upsert_svc_details(&mut svcs, SvcDetail {
        svc_ip: "10.96.0.10".to_string(),
        svc_name: Some("db2".to_string()),
        svc_namespace: None,
        service_spec: None,
        time_stamp: "t1".to_string(),
    });
    assert_eq!(svcs.len(), 1);
    assert_eq!(svcs[0].svc_name.as_deref(), Some("db2"));
    assert_eq!(svc_ip(&svcs, "10.96.0.10"), Some(0));
}

fn batch_record(name: &str, syscalls: Vec<&str>) -> PodInputSyscalls {
    PodInputSyscalls {
        pod_name: name.to_string(),
        pod_namespace: "".to_string(),
        syscalls: syscalls.into_iter().map(|s| s.to_string()).collect(),
        arch: "x86_64".to_string(),
        time_stamp: "t0".to_string(),
    }
}

#[test]
fn syscall_batches_are_idempotent() {
    let mut table: Vec<PodSyscalls> = Vec::new();
    let batch = vec![
        batch_record("web", vec!["read", "write"]),
        batch_record("db", vec!["open"]),
    ];
    create_pod_syscalls(&mut table, &batch);
    assert_eq!(table.len(), 2);
    let snapshot: Vec<(String, String)> = table
        .iter()
        .map(|r| (r.pod_name.clone(), r.syscalls.clone()))
        .collect();
    // receiving the same batch again yields the same collector state
    create_pod_syscalls(&mut table, &batch);
    let snapshot2: Vec<(String, String)> = table
        .iter()
        .map(|r| (r.pod_name.clone(), r.syscalls.clone()))
        .collect();
    assert_eq!(snapshot, snapshot2);
    assert_eq!(table.len(), 2);
}

#[test]
fn syscall_upsert_joins_and_updates() {
    let mut table: Vec<PodSyscalls> = Vec::new();
    create_pod_syscalls(&mut table, &vec![batch_record("web", vec!["read"])]);
    assert_eq!(table[0].syscalls, "read");
    create_pod_syscalls(&mut table, &vec![batch_record("web", vec!["read", "write"])]);
    assert_eq!(table.len(), 1);
    assert_eq!(table[0].syscalls, "read,write");
    assert_eq!(join_strings(&vec!["a".to_string(), "b".to_string(), "c".to_string()]), "a,b,c");
    assert_eq!(join_strings(&Vec::new()), "");
}

#[test]
fn traffic_and_syscall_rows_by_name() {
    let mut table: Vec<PodTraffic> = Vec::new();
    create_pod_traffic(&mut table, traffic_row("u1", "0", "80", "TCP"));
    create_pod_traffic(&mut table, traffic_row("u2", "0", "443", "TCP"));
    let hits = pod_traffic_by_name(&table, "web");
    assert_eq!(hits, vec![0, 1]);
    assert!(pod_traffic_by_name(&table, "db").is_empty());

    let mut rows: Vec<PodSyscalls> = Vec::new();
    create_pod_syscalls(&mut rows, &vec![batch_record("web", vec!["read"])]);
    assert_eq!(pod_syscalls_by_name(&rows, "web"), vec![0]);
    assert!(pod_syscalls_by_name(&rows, "db").is_empty());
}

#[test]
fn syn_ack_classification() {
    let c = classify_syn_ack(1, 0).unwrap();
    assert_eq!((c.0.as_str(), c.1), ("TCP", 0));
    let c = classify_syn_ack(1, 1).unwrap();
    assert_eq!((c.0.as_str(), c.1), ("TCP", 1));
    let c = classify_syn_ack(2, 2).unwrap();
    assert_eq!((c.0.as_str(), c.1), ("UDP", 0));
    assert!(classify_syn_ack(0, 0).is_none());
    assert!(classify_syn_ack(2, 1).is_none());
}

#[test]
fn directional_tuple_of_flow() {
    let ingress = Traffic {
        src_addr: "10.0.0.9".to_string(),
        dst_addr: "10.0.0.5".to_string(),
        src_port: 34567,
        dst_port: 80,
        traffic_type: 1,
        ip_protocol: "TCP".to_string(),
    };
    assert_eq!(
        ingress.define_traffic(),
        (
            "INGRESS".to_string(),
            "10.0.0.9".to_string(),
            34567,
            "10.0.0.5".to_string(),
            0
        )
    );
    let egress = Traffic { traffic_type: 0, ..ingress.clone() };
    assert_eq!(
        egress.define_traffic(),
        (
            "EGRESS".to_string(),
            "10.0.0.9".to_string(),
            0,
            "10.0.0.5".to_string(),
            80
        )
    );
}

#[test]
fn parse_message_builds_record_from_tuple() {
    let t = Traffic {
        src_addr: "10.0.0.5".to_string(),
        dst_addr: "10.0.0.7".to_string(),
        src_port: 40000,
        dst_port: 80,
        traffic_type: 0,
        ip_protocol: "TCP".to_string(),
    };
    let p = PodInfo {
        pod_name: "web".to_string(),
        pod_namespace: Some("app".to_string()),
        pod_ip: "10.0.0.5".to_string(),
    };
    let r = t.parse_message(&p, "u1".to_string(), "t0".to_string());
    assert_eq!(r.pod_name, "web");
    assert_eq!(r.pod_ip, "10.0.0.5");
    assert_eq!(r.pod_port.as_deref(), Some("0"));
    assert_eq!(r.traffic_in_out_ip.as_deref(), Some("10.0.0.7"));
    assert_eq!(r.traffic_in_out_port.as_deref(), Some("80"));
    assert_eq!(r.traffic_type.as_deref(), Some("EGRESS"));
    assert_eq!(r.ip_protocol.as_deref(), Some("TCP"));
}

#[test]
fn traffic_log_from_bytes() {
    let mut b = vec![0u8; 28];
    b[0] = 10;
    b[3] = 9; // saddr 10.0.0.9 network order
    b[4] = 10;
    b[7] = 5; // daddr 10.0.0.5
    b[8] = 0x40;
    b[9] = 0x9c; // sport 0x9c40 = 40000
    b[10] = 80; // dport 80
    b[12] = 1; // syn
    b[14] = 1; // ack
    b[16] = 42; // inum
    b[20] = 7; // if_index
    b[24] = 0xff;
    b[25] = 0xff;
    b[26] = 0xff;
    b[27] = 0xff; // traffic_type = -1
    let t = TrafficLog::from_bytes(&b).unwrap();
    assert_eq!(t.sport, 40000);
    assert_eq!(t.dport, 80);
    assert_eq!(t.syn, 1);
    assert_eq!(t.ack, 1);
    assert_eq!(t.inum, 42);
    assert_eq!(t.if_index, 7);
    assert_eq!(t.traffic_type, -1);
    assert!(TrafficLog::from_bytes(&b[..20]).is_none());
}
