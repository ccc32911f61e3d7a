use kube_guardian::container::{
    extract_container_id, find_namespace_inode, parse_cgroup_line, parse_proc_pid, parse_u32,
    trim_blanks,
};
use kube_guardian::model::{create_pod_info, Namespace, PodInfo, PodInspect};
use kube_guardian::registry::{register_workload, BoundedQueueModel, InumFilterState, WorkloadRegistry};
use kube_guardian::watch::{
    build_pod_detail, build_svc_detail, pod_unready, process_pod, should_process_pod, svc_unready,
    PodCondition, PodModel, SvcModel,
};

fn ready_pod(name: &str, ns: &str, ip: &str, ids: Vec<Option<String>>) -> PodModel {
    PodModel {
        name: name.to_string(),
        namespace: Some(ns.to_string()),
        conditions: Some(vec![PodCondition {
            type_: "Ready".to_string(),
            status: "True".to_string(),
            message: None,
        }]),
        container_statuses: Some(ids),
        pod_ip: Some(ip.to_string()),
        obj_json: None,
    }
}

#[test]
fn registry_insert_lookup() {
    let mut reg = WorkloadRegistry::new();
    assert!(reg.get(42).is_none());
    let pod = PodInspect {
        status: PodInfo {
            pod_name: "web".to_string(),
            pod_namespace: Some("app".to_string()),
            pod_ip: "10.0.0.5".to_string(),
        },
        inode_num: Some(42),
        ..Default::default()
    };
    reg.insert(42, pod.clone());
    assert_eq!(reg.len(), 1);
    assert_eq!(reg.get(42).unwrap().status.pod_name, "web");
    assert!(reg.get(999).is_none());
}

#[test]
fn reapplying_same_watch_event_is_a_noop() {
    let mut reg = WorkloadRegistry::new();
    let pod = PodInspect {
        status: PodInfo {
            pod_name: "web".to_string(),
            pod_namespace: Some("app".to_string()),
            pod_ip: "10.0.0.5".to_string(),
        },
        inode_num: Some(42),
        ..Default::default()
    };
    reg.insert(42, pod.clone());
    reg.insert(42, pod.clone());
    assert_eq!(reg.len(), 1);
    assert_eq!(reg.get(42).unwrap().status.pod_ip, "10.0.0.5");
}

#[test]
fn filter_state_keeps_registered_inums_across_watch_restart() {
    // register and publish; the poll loop drains to the kernel map; a
    // watcher restart does not touch the filter state
    let mut fs = InumFilterState::new();
    fs.publish(42);
    fs.publish(43);
    assert_eq!(fs.drain_one(), Some(42));
    assert_eq!(fs.drain_one(), Some(43));
    assert_eq!(fs.drain_one(), None);
    // simulated watcher restart: the state is untouched and the kernel
    // map still holds the prior inums
    assert!(fs.applied.contains(&42));
    assert!(fs.applied.contains(&43));
    assert!(fs.pending.is_empty());
}

#[test]
fn register_queues_inode_for_kernel_filter() {
    // the registered inode is queued before any event for it can be
    // admitted, and draining writes it to the kernel map
    let mut reg = WorkloadRegistry::new();
    let mut fs = InumFilterState::new();
    let pod = PodInspect { inode_num: Some(42), ..Default::default() };
    register_workload(&mut reg, &mut fs, 42, pod);
    assert!(reg.get(42).is_some());
    assert_eq!(fs.pending, vec![42]);
    assert_eq!(fs.drain_one(), Some(42));
    assert!(fs.applied.contains(&42));
}

#[test]
fn probe_channel_drops_without_blocking_when_full() {
    let mut q = BoundedQueueModel::new(2);
    assert!(q.offer());
    assert!(q.offer());
    assert!(!q.offer());
    assert!(!q.offer());
    assert_eq!(q.dropped, 2);
    assert_eq!(q.len, 2);
    q.take();
    assert!(q.offer());
    assert_eq!(q.dropped, 2);
}

#[test]
fn removed_workload_leaves_registry() {
    let mut reg = WorkloadRegistry::new();
    let pod = PodInspect { inode_num: Some(42), ..Default::default() };
    reg.insert(42, pod);
    assert_eq!(reg.len(), 1);
    let removed = reg.remove(42);
    assert!(removed.is_some());
    assert_eq!(reg.len(), 0);
    assert!(reg.get(42).is_none());
    assert!(reg.remove(42).is_none());
}

#[test]
fn pod_decision_applies_gates_in_order() {
    let excluded = vec!["kube-system".to_string(), "kube-guardian".to_string()];
    // a workload in the exclusion set is dropped outright: no detail to
    // post, no container ids to register
    let p = ready_pod("agent", "kube-guardian", "10.0.0.2", vec![Some("containerd://aa".to_string())]);
    assert!(process_pod(&p, &excluded, "t0".to_string()).is_none());
    // an unready workload is dropped too
    let mut unready = ready_pod("web", "app", "10.0.0.5", vec![]);
    unready.conditions = Some(vec![PodCondition {
        type_: "Ready".to_string(),
        status: "False".to_string(),
        message: None,
    }]);
    assert!(process_pod(&unready, &excluded, "t0".to_string()).is_none());
    // one without an address is dropped
    let mut no_ip = ready_pod("web", "app", "10.0.0.5", vec![]);
    no_ip.pod_ip = None;
    assert!(process_pod(&no_ip, &excluded, "t0".to_string()).is_none());
    // a ready, included workload yields its ids and its detail record
    let ok = ready_pod("web", "app", "10.0.0.5", vec![Some("containerd://aa".to_string()), None]);
    let d = process_pod(&ok, &excluded, "t0".to_string()).expect("processed");
    assert_eq!(d.container_ids, vec!["containerd://aa".to_string()]);
    assert_eq!(d.pod_ip, "10.0.0.5");
    assert_eq!(d.detail.pod_name, "web");
    assert_eq!(d.detail.pod_ip, "10.0.0.5");
    assert_eq!(d.detail.time_stamp, "t0");
}

#[test]
fn namespace_gate() {
    assert!(should_process_pod(&Some("app".to_string())));
    assert!(should_process_pod(&None));
    assert!(!should_process_pod(&Some("kube-system".to_string())));
    assert!(!should_process_pod(&Some("kube-guardian".to_string())));
}

#[test]
fn readiness_gate_collects_container_ids() {
    let p = ready_pod(
        "web",
        "app",
        "10.0.0.5",
        vec![Some("containerd://aa11".to_string()), None, Some("containerd://bb22".to_string())],
    );
    let ids = pod_unready(&p).expect("ready pod yields ids");
    assert_eq!(ids, vec!["containerd://aa11".to_string(), "containerd://bb22".to_string()]);
}

#[test]
fn readiness_gate_rejects_unready_pod() {
    let mut p = ready_pod("web", "app", "10.0.0.5", vec![]);
    p.conditions = Some(vec![PodCondition {
        type_: "Ready".to_string(),
        status: "False".to_string(),
        message: Some("containers not ready".to_string()),
    }]);
    assert!(pod_unready(&p).is_none());
    p.conditions = None;
    p.container_statuses = None;
    assert!(pod_unready(&p).is_none());
}

#[test]
fn service_gate_reports_reason() {
    let s = SvcModel {
        name: "db".to_string(),
        namespace: Some("app".to_string()),
        cluster_ip: Some("10.96.0.10".to_string()),
        conditions: Some(vec![PodCondition {
            type_: "Ready".to_string(),
            status: "False".to_string(),
            message: Some("endpoint missing".to_string()),
        }]),
        spec_json: None,
    };
    assert_eq!(svc_unready(&s).as_deref(), Some("Unready Service db: endpoint missing"));
    let ready = SvcModel { conditions: None, ..s };
    assert!(svc_unready(&ready).is_none());
}

#[test]
fn detail_records_from_models() {
    let p = ready_pod("web", "app", "10.0.0.5", vec![]);
    let d = build_pod_detail(&p, "t0".to_string()).expect("pod with address");
    assert_eq!(d.pod_ip, "10.0.0.5");
    assert_eq!(d.pod_name, "web");
    assert_eq!(d.pod_namespace.as_deref(), Some("app"));
    let mut no_ip = ready_pod("web", "app", "10.0.0.5", vec![]);
    no_ip.pod_ip = None;
    assert!(build_pod_detail(&no_ip, "t0".to_string()).is_none());

    let s = SvcModel {
        name: "db".to_string(),
        namespace: None,
        cluster_ip: Some("10.96.0.10".to_string()),
        conditions: None,
        spec_json: Some("{}".to_string()),
    };
    let sd = build_svc_detail(&s, "t0".to_string()).expect("svc with cluster ip");
    assert_eq!(sd.svc_ip, "10.96.0.10");
    assert_eq!(sd.service_spec.as_deref(), Some("{}"));
}

#[test]
fn pod_info_builder() {
    let info = create_pod_info("web".to_string(), Some("app".to_string()), "10.0.0.5".to_string());
    assert_eq!(info.pod_name, "web");
    assert_eq!(info.pod_namespace.as_deref(), Some("app"));
    assert_eq!(info.pod_ip, "10.0.0.5");
}

#[test]
fn container_id_extraction() {
    assert_eq!(
        extract_container_id("containerd://3f9a2b").as_deref(),
        Some("3f9a2b")
    );
    assert_eq!(extract_container_id("containerd://").as_deref(), Some(""));
    assert_eq!(extract_container_id("docker://3f9a2b"), None);
    assert_eq!(extract_container_id("3f9a2b"), None);
    // the id stops at the first character outside the id alphabet
    assert_eq!(extract_container_id("containerd://ab-cd").as_deref(), Some("ab"));
}

#[test]
fn number_parsing() {
    assert_eq!(parse_u32("0"), Some(0));
    assert_eq!(parse_u32("1234"), Some(1234));
    assert_eq!(parse_u32("4294967295"), Some(4294967295));
    assert_eq!(parse_u32("4294967296"), None);
    assert_eq!(parse_u32(""), None);
    assert_eq!(parse_u32("12a"), None);
}

#[test]
fn proc_path_pid() {
    assert_eq!(parse_proc_pid("/proc/1234/ns/net"), Some(1234));
    assert_eq!(parse_proc_pid("/proc/7"), Some(7));
    assert_eq!(parse_proc_pid("/proc//ns/net"), None);
    assert_eq!(parse_proc_pid("no-slashes"), None);
}

#[test]
fn cgroup_line_parsing() {
    assert_eq!(
        parse_cgroup_line("0::/kubepods/burstable/pod1\n").as_deref(),
        Some("/sys/fs/cgroup/kubepods/burstable/pod1")
    );
    assert_eq!(parse_cgroup_line("no separator"), None);
    assert_eq!(trim_blanks("  a b \n"), "a b");
    assert_eq!(trim_blanks("\t\n"), "");
}

#[test]
fn namespace_lookup() {
    let nss = vec![
        Namespace { nstype: Some("pid".to_string()), path: None },
        Namespace { nstype: Some("network".to_string()), path: Some("/proc/4321/ns/net".to_string()) },
    ];
    assert_eq!(kube_guardian::container::extract_namespace_pid(&nss), Some(4321));
    let entries = vec![
        ("net".to_string(), 111u64),
        ("pid_for_children".to_string(), 222u64),
    ];
    assert_eq!(find_namespace_inode(&entries, "pid_for_children"), Some(222));
    assert_eq!(find_namespace_inode(&entries, "uts"), None);
}
