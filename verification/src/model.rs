//! The data model: workload identity, the enrichment gathered from the
//! container runtime, and the records posted to the collector.

use vstd::prelude::*;
use crate::text::{jstr, jopt, append_json_string, append_json_opt, json_string_array_seq};
use crate::text::json_string_array;

verus! {

/// The logical identity of a workload: name, namespace and primary address.
#[derive(Debug, Default, Clone)]
pub struct PodInfo {
    pub pod_name: String,
    pub pod_namespace: Option<String>,
    pub pod_ip: String,
}

/// Object metadata as the container runtime reports it.
#[derive(Debug, Default, Clone)]
pub struct Metadata {
    pub name: String,
    pub namespace: String,
    pub uid: String,
}

/// The runtime-native container configuration.
#[derive(Debug, Default, Clone)]
pub struct Config {
    pub metadata: Metadata,
}

/// The runtime-native container information.
#[derive(Debug, Default, Clone)]
pub struct Info {
    pub config: Config,
}

/// One workload's record: its identity plus the kernel-side handles
/// resolved through the container runtime.
#[derive(Debug, Default, Clone)]
pub struct PodInspect {
    pub container_id: Option<String>,
    pub status: PodInfo,
    pub info: Info,
    pub if_index: Option<u32>,
    pub namespace_pid: Option<u32>,
    pub pid: Option<u32>,
    pub inode_num: Option<u64>,
    pub cgroup_path: Option<String>,
}

impl PodInspect {
    /// Records the runtime container id on the record.
    pub fn set_container_id(self, container_id: String) -> (r: Self)
        ensures
            r == (PodInspect { container_id: Some(container_id), ..self }),
    {
        PodInspect { container_id: Some(container_id), ..self }
    }
}

/// Builds the identity record for a workload from its plain fields.
pub fn create_pod_info(pod_name: String, pod_namespace: Option<String>, pod_ip: String) -> (r:
    PodInfo)
    ensures
        r.pod_name == pod_name,
        r.pod_namespace == pod_namespace,
        r.pod_ip == pod_ip,
{
    PodInfo { pod_name, pod_namespace, pod_ip }
}

/// A container spec's namespace list, as deserialized from the runtime.
#[derive(Debug, Clone)]
pub struct Namespace {
    pub nstype: Option<String>,
    pub path: Option<String>,
}

/// The `linux.namespaces` member of a container spec.
#[derive(Debug, Clone)]
pub struct Namespaces {
    pub namespaces: Vec<Namespace>,
}

/// The outer `linux` member of a container spec.
#[derive(Debug, Clone)]
pub struct Linux {
    pub linux: Namespaces,
}

/// One directional traffic observation, as posted to the collector.
#[derive(Debug, Default, Clone)]
pub struct PodTraffic {
    pub uuid: String,
    pub pod_name: String,
    pub pod_namespace: Option<String>,
    pub pod_ip: String,
    pub pod_port: Option<String>,
    pub traffic_type: Option<String>,
    pub traffic_in_out_ip: Option<String>,
    pub traffic_in_out_port: Option<String>,
    pub ip_protocol: Option<String>,
    pub time_stamp: String,
}

/// The JSON document for one traffic record, fields in declaration order.
pub open spec fn spec_pod_traffic_json(r: PodTraffic) -> Seq<char> {
    "{\"uuid\":"@ + jstr(r.uuid@) + ",\"pod_name\":"@ + jstr(r.pod_name@) + ",\"pod_namespace\":"@
        + jopt(r.pod_namespace) + ",\"pod_ip\":"@ + jstr(r.pod_ip@) + ",\"pod_port\":"@ + jopt(
        r.pod_port,
    ) + ",\"traffic_type\":"@ + jopt(r.traffic_type) + ",\"traffic_in_out_ip\":"@ + jopt(
        r.traffic_in_out_ip,
    ) + ",\"traffic_in_out_port\":"@ + jopt(r.traffic_in_out_port) + ",\"ip_protocol\":"@ + jopt(
        r.ip_protocol,
    ) + ",\"time_stamp\":"@ + jstr(r.time_stamp@) + "}"@
}

impl PodTraffic {
    /// Renders the record as the JSON document the collector takes.
    pub fn to_json(&self) -> (r: String)
        ensures
            r@ == spec_pod_traffic_json(*self),
    {
        let mut out = String::new();
        out.append("{\"uuid\":");
        append_json_string(&mut out, self.uuid.as_str());
        out.append(",\"pod_name\":");
        append_json_string(&mut out, self.pod_name.as_str());
        out.append(",\"pod_namespace\":");
        append_json_opt(&mut out, &self.pod_namespace);
        out.append(",\"pod_ip\":");
        append_json_string(&mut out, self.pod_ip.as_str());
        out.append(",\"pod_port\":");
        append_json_opt(&mut out, &self.pod_port);
        out.append(",\"traffic_type\":");
        append_json_opt(&mut out, &self.traffic_type);
        out.append(",\"traffic_in_out_ip\":");
        append_json_opt(&mut out, &self.traffic_in_out_ip);
        out.append(",\"traffic_in_out_port\":");
        append_json_opt(&mut out, &self.traffic_in_out_port);
        out.append(",\"ip_protocol\":");
        append_json_opt(&mut out, &self.ip_protocol);
        out.append(",\"time_stamp\":");
        append_json_string(&mut out, self.time_stamp.as_str());
        out.append("}");
        proof {
            assert(out@ =~= spec_pod_traffic_json(*self));
        }
        out
    }
}

/// A workload's identity and raw object, as posted to the collector.
#[derive(Debug, Default, Clone)]
pub struct PodDetail {
    pub pod_ip: String,
    pub pod_name: String,
    pub pod_namespace: Option<String>,
    pub pod_obj: Option<String>,
    pub time_stamp: String,
}

/// The JSON document for one workload detail record; `pod_obj` is a
/// fragment of already-rendered JSON taken verbatim.
pub open spec fn spec_pod_detail_json(r: PodDetail) -> Seq<char> {
    "{\"pod_ip\":"@ + jstr(r.pod_ip@) + ",\"pod_name\":"@ + jstr(r.pod_name@)
        + ",\"pod_namespace\":"@ + jopt(r.pod_namespace) + ",\"pod_obj\":"@ + (match r.pod_obj {
        Some(o) => o@,
        None => "null"@,
    }) + ",\"time_stamp\":"@ + jstr(r.time_stamp@) + "}"@
}

impl PodDetail {
    /// Renders the record as the JSON document the collector takes.
    pub fn to_json(&self) -> (r: String)
        ensures
            r@ == spec_pod_detail_json(*self),
    {
        let mut out = String::new();
        out.append("{\"pod_ip\":");
        append_json_string(&mut out, self.pod_ip.as_str());
        out.append(",\"pod_name\":");
        append_json_string(&mut out, self.pod_name.as_str());
        out.append(",\"pod_namespace\":");
        append_json_opt(&mut out, &self.pod_namespace);
        out.append(",\"pod_obj\":");
        match &self.pod_obj {
            Some(o) => out.append(o.as_str()),
            None => out.append("null"),
        }
        out.append(",\"time_stamp\":");
        append_json_string(&mut out, self.time_stamp.as_str());
        out.append("}");
        proof {
            assert(out@ =~= spec_pod_detail_json(*self));
        }
        out
    }
}

/// A service's identity and raw spec, as posted to the collector.
#[derive(Debug, Default, Clone)]
pub struct SvcDetail {
    pub svc_ip: String,
    pub svc_name: String,
    pub svc_namespace: Option<String>,
    pub service_spec: Option<String>,
    pub time_stamp: String,
}

/// The JSON document for one service detail record; `service_spec` is a
/// fragment of already-rendered JSON taken verbatim.
pub open spec fn spec_svc_detail_json(r: SvcDetail) -> Seq<char> {
    "{\"svc_ip\":"@ + jstr(r.svc_ip@) + ",\"svc_name\":"@ + jstr(r.svc_name@)
        + ",\"svc_namespace\":"@ + jopt(r.svc_namespace) + ",\"service_spec\":"@ + (match r
        .service_spec {
        Some(o) => o@,
        None => "null"@,
    }) + ",\"time_stamp\":"@ + jstr(r.time_stamp@) + "}"@
}

impl SvcDetail {
    /// Renders the record as the JSON document the collector takes.
    pub fn to_json(&self) -> (r: String)
        ensures
            r@ == spec_svc_detail_json(*self),
    {
        let mut out = String::new();
        out.append("{\"svc_ip\":");
        append_json_string(&mut out, self.svc_ip.as_str());
        out.append(",\"svc_name\":");
        append_json_string(&mut out, self.svc_name.as_str());
        out.append(",\"svc_namespace\":");
        append_json_opt(&mut out, &self.svc_namespace);
        out.append(",\"service_spec\":");
        match &self.service_spec {
            Some(o) => out.append(o.as_str()),
            None => out.append("null"),
        }
        out.append(",\"time_stamp\":");
        append_json_string(&mut out, self.time_stamp.as_str());
        out.append("}");
        proof {
            assert(out@ =~= spec_svc_detail_json(*self));
        }
        out
    }
}

/// One workload's syscall batch, as posted to the collector: the full
/// current set of distinct syscall names.
#[derive(Debug, Default, Clone)]
pub struct SyscallData {
    pub pod_name: String,
    pub pod_namespace: String,
    pub syscalls: Vec<String>,
    pub arch: String,
    pub time_stamp: String,
}

/// The JSON document for one syscall batch, fields in declaration order.
pub open spec fn spec_syscall_data_json(r: SyscallData) -> Seq<char> {
    "{\"pod_name\":"@ + jstr(r.pod_name@) + ",\"pod_namespace\":"@ + jstr(r.pod_namespace@)
        + ",\"syscalls\":"@ + json_string_array_seq(r.syscalls@.map_values(|s: String| s@))
        + ",\"arch\":"@ + jstr(r.arch@) + ",\"time_stamp\":"@ + jstr(r.time_stamp@) + "}"@
}

impl SyscallData {
    /// Renders the batch as the JSON document the collector takes.
    pub fn to_json(&self) -> (r: String)
        ensures
            r@ == spec_syscall_data_json(*self),
    {
        let mut out = String::new();
        out.append("{\"pod_name\":");
        append_json_string(&mut out, self.pod_name.as_str());
        out.append(",\"pod_namespace\":");
        append_json_string(&mut out, self.pod_namespace.as_str());
        out.append(",\"syscalls\":");
        let arr = json_string_array(&self.syscalls);
        out.append(arr.as_str());
        out.append(",\"arch\":");
        append_json_string(&mut out, self.arch.as_str());
        out.append(",\"time_stamp\":");
        append_json_string(&mut out, self.time_stamp.as_str());
        out.append("}");
        proof {
            assert(out@ =~= spec_syscall_data_json(*self));
        }
        out
    }
}

} // verus!
