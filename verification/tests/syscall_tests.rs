use kube_guardian::events::SyscallEventData;
use kube_guardian::model::{PodInfo, PodInspect};
use kube_guardian::syscall::{process_syscall_event, syscall_display_name, SyscallAccumulator};

fn pod(name: &str) -> PodInspect {
    PodInspect {
        status: PodInfo {
            pod_name: name.to_string(),
            pod_namespace: Some("app".to_string()),
            pod_ip: "10.0.0.5".to_string(),
        },
        ..Default::default()
    }
}

fn acc() -> SyscallAccumulator {
    SyscallAccumulator::new("x86_64".to_string())
}

#[test]
fn unresolved_name_falls_back_to_decimal() {
    // an unknown architecture resolves nothing: the decimal string passes
    // through and aggregation still proceeds
    assert_eq!(syscall_display_name(None, 1), "1");
    assert_eq!(syscall_display_name(None, 4094), "4094");
    assert_eq!(syscall_display_name(None, 2147483648), "2147483648");
}

#[test]
fn resolved_name_passes_through() {
    assert_eq!(syscall_display_name(Some("write".to_string()), 1), "write");
}

#[test]
fn syscall_aggregation_window() {
    // many repeats of one number and one of another within a flush
    // window produce a single batch with both names, order insensitive
    let mut a = acc();
    let p = pod("web");
    for _ in 0..1000 {
        process_syscall_event(
            &mut a,
            &SyscallEventData { inum: 42, sysnbr: 1 },
            Some(&p),
            Some("write".to_string()),
        );
    }
    process_syscall_event(
        &mut a,
        &SyscallEventData { inum: 42, sysnbr: 2 },
        Some(&p),
        Some("read".to_string()),
    );
    let batch = a.flush_batch(&"2024-01-01T00:00:00".to_string());
    assert_eq!(batch.len(), 1);
    let d = &batch[0];
    assert_eq!(d.pod_name, "web");
    assert_eq!(d.pod_namespace, "");
    assert_eq!(d.arch, "x86_64");
    assert_eq!(d.syscalls.len(), 2);
    assert!(d.syscalls.contains(&"write".to_string()));
    assert!(d.syscalls.contains(&"read".to_string()));
}

#[test]
fn flush_sends_full_set_and_only_changes() {
    let mut a = acc();
    let p = pod("web");
    let q = pod("db");
    process_syscall_event(&mut a, &SyscallEventData { inum: 42, sysnbr: 1 }, Some(&p), None);
    process_syscall_event(&mut a, &SyscallEventData { inum: 43, sysnbr: 1 }, Some(&q), None);
    let ts = "t0".to_string();
    let batch = a.flush_batch(&ts);
    assert_eq!(batch.len(), 2);
    a.mark_sent(&"web".to_string());
    a.mark_sent(&"db".to_string());
    // nothing changed: the next flush sends nothing
    assert_eq!(a.flush_batch(&ts).len(), 0);
    // one workload sees a new number: only that one is re-sent, with its
    // full current set
    process_syscall_event(&mut a, &SyscallEventData { inum: 42, sysnbr: 2 }, Some(&p), None);
    let batch2 = a.flush_batch(&ts);
    assert_eq!(batch2.len(), 1);
    assert_eq!(batch2[0].pod_name, "web");
    assert_eq!(batch2[0].syscalls.len(), 2);
}

#[test]
fn duplicate_syscall_not_accumulated_twice() {
    let mut a = acc();
    let p = pod("web");
    process_syscall_event(&mut a, &SyscallEventData { inum: 42, sysnbr: 7 }, Some(&p), None);
    process_syscall_event(&mut a, &SyscallEventData { inum: 42, sysnbr: 7 }, Some(&p), None);
    let batch = a.flush_batch(&"t".to_string());
    assert_eq!(batch.len(), 1);
    assert_eq!(batch[0].syscalls.len(), 1);
}

#[test]
fn orphan_syscall_event_changes_nothing() {
    let mut a = acc();
    process_syscall_event(&mut a, &SyscallEventData { inum: 999, sysnbr: 1 }, None, None);
    assert_eq!(a.flush_batch(&"t".to_string()).len(), 0);
}

#[test]
fn resolved_names_match_per_workload_attribution() {
    let mut a = acc();
    let p = pod("web");
    let q = pod("db");
    process_syscall_event(
        &mut a,
        &SyscallEventData { inum: 42, sysnbr: 1 },
        Some(&p),
        Some("write".to_string()),
    );
    process_syscall_event(
        &mut a,
        &SyscallEventData { inum: 43, sysnbr: 2 },
        Some(&q),
        Some("read".to_string()),
    );
    let batch = a.flush_batch(&"t".to_string());
    assert_eq!(batch.len(), 2);
    for d in &batch {
        assert_eq!(d.syscalls.len(), 1);
        if d.pod_name == "web" {
            assert_eq!(d.syscalls[0], "write");
        } else {
            assert_eq!(d.pod_name, "db");
            assert_eq!(d.syscalls[0], "read");
        }
    }
}

#[test]
fn transmitted_union_equals_observed_across_flushes() {
    // across all flushes, the union of the transmitted lists equals the
    // set of display names observed for the workload
    let mut a = acc();
    let p = pod("web");
    let ts = "t".to_string();
    process_syscall_event(
        &mut a,
        &SyscallEventData { inum: 42, sysnbr: 0 },
        Some(&p),
        Some("read".to_string()),
    );
    let batch1 = a.flush_batch(&ts);
    a.mark_sent(&"web".to_string());
    process_syscall_event(
        &mut a,
        &SyscallEventData { inum: 42, sysnbr: 1 },
        Some(&p),
        Some("write".to_string()),
    );
    process_syscall_event(
        &mut a,
        &SyscallEventData { inum: 42, sysnbr: 0 },
        Some(&p),
        Some("read".to_string()),
    );
    let batch2 = a.flush_batch(&ts);
    a.mark_sent(&"web".to_string());
    assert!(a.flush_batch(&ts).is_empty());
    let mut transmitted: Vec<String> = Vec::new();
    for d in batch1.iter().chain(batch2.iter()) {
        for n in &d.syscalls {
            if !transmitted.contains(n) {
                transmitted.push(n.clone());
            }
        }
    }
    transmitted.sort();
    assert_eq!(transmitted, vec!["read".to_string(), "write".to_string()]);
}
