//! The legacy cgroup-probe flow path: the raw traffic log record, the
//! syn/ack classification, and the directional tuple a record is
//! deduplicated by.
//!
//! This model stands for the older probe object that marked direction
//! with syn/ack flags and correlated by interface index.  The agent's
//! live pipeline classifies by the kind byte and correlates by the
//! PID-namespace inode (see `events` and `network`); nothing here feeds
//! it.  The directional rule kept here is the legacy one — an accepted
//! connection records the initiator's source port against the workload —
//! and is superseded by the kind-based port mapping.

use vstd::prelude::*;
use crate::events::le16;
use crate::events::le32;
use crate::model::{PodInfo, PodInspect, PodTraffic};
use crate::network::optv;
use crate::text::{ipv4_be_string, spec_decimal, spec_ipv4_be, u16_to_string};

verus! {

/// The capacity of the kernel-side filter maps.
pub const BPF_MAPS_CAPACITY: u32 = 128;

/// One observation from the cgroup probe's per-CPU ring: addresses in
/// network byte order, flag fields, the interface index and the raw
/// direction mark.
#[derive(Debug, Clone, Copy)]
pub struct TrafficLog {
    pub saddr: u32,
    pub daddr: u32,
    pub sport: u16,
    pub dport: u16,
    pub syn: u16,
    pub ack: u16,
    pub inum: u32,
    pub if_index: i32,
    pub traffic_type: i32,
}

/// The number of payload bytes a traffic log sample must hold.
pub const TRAFFIC_LOG_BYTES: usize = 28;

/// The signed reading of a 32-bit little-endian field.
pub open spec fn spec_as_i32(v: int) -> int {
    if v < 0x8000_0000 {
        v
    } else {
        v - 0x1_0000_0000
    }
}

fn as_i32(v: u32) -> (r: i32)
    ensures
        r == spec_as_i32(v as int),
{
    if v <= 0x7fff_ffff {
        v as i32
    } else {
        ((v as i64) - 0x1_0000_0000i64) as i32
    }
}

impl TrafficLog {
    /// Whether `t` is the record the bytes `b` lay out: a C-layout record
    /// of little-endian fields, the two signed fields read two's
    /// complement.
    pub open spec fn laid_out(t: TrafficLog, b: Seq<u8>) -> bool {
        &&& t.saddr == le32(b, 0)
        &&& t.daddr == le32(b, 4)
        &&& t.sport == le16(b, 8)
        &&& t.dport == le16(b, 10)
        &&& t.syn == le16(b, 12)
        &&& t.ack == le16(b, 14)
        &&& t.inum == le32(b, 16)
        &&& t.if_index == spec_as_i32(le32(b, 20))
        &&& t.traffic_type == spec_as_i32(le32(b, 24))
    }

    /// Decodes one ring sample; rejects one that is too short.
    pub fn from_bytes(b: &[u8]) -> (r: Option<TrafficLog>)
        ensures
            match r {
                Some(t) => b@.len() >= TRAFFIC_LOG_BYTES && Self::laid_out(t, b@),
                None => b@.len() < TRAFFIC_LOG_BYTES,
            },
    {
        if b.len() < TRAFFIC_LOG_BYTES {
            return None;
        }
        Some(
            TrafficLog {
                saddr: crate::events::read_u32_at(b, 0),
                daddr: crate::events::read_u32_at(b, 4),
                sport: crate::events::read_u16_at(b, 8),
                dport: crate::events::read_u16_at(b, 10),
                syn: crate::events::read_u16_at(b, 12),
                ack: crate::events::read_u16_at(b, 14),
                inum: crate::events::read_u32_at(b, 16),
                if_index: as_i32(crate::events::read_u32_at(b, 20)),
                traffic_type: as_i32(crate::events::read_u32_at(b, 24)),
            },
        )
    }
}

/// One flow observation being classified on the cgroup path.
#[derive(Debug, Default, Clone)]
pub struct Traffic {
    pub src_addr: String,
    pub dst_addr: String,
    pub src_port: u16,
    pub dst_port: u16,
    pub traffic_type: u32,
    pub ip_protocol: String,
}

/// What the syn/ack flag pair classifies to: the protocol label and the
/// direction mark (1 for ingress, 0 for egress), or nothing for a pair
/// the probe does not report.
pub open spec fn spec_syn_ack_class(syn: u16, ack: u16) -> Option<(Seq<char>, u32)> {
    if syn == 1 && ack == 0 {
        Some(("TCP"@, 0u32))
    } else if syn == 1 && ack == 1 {
        Some(("TCP"@, 1u32))
    } else if syn == 2 && ack == 2 {
        Some(("UDP"@, 0u32))
    } else {
        None
    }
}

/// Classifies the syn/ack flag pair of a traffic log: a connection
/// initiated by the workload, one accepted at the workload, or a UDP
/// send; any other pair is dropped.
pub fn classify_syn_ack(syn: u16, ack: u16) -> (r: Option<(String, u32)>)
    ensures
        match r {
            Some(c) => spec_syn_ack_class(syn, ack) matches Some(sc) && c.0@ == sc.0 && c.1
                == sc.1,
            None => spec_syn_ack_class(syn, ack) is None,
        },
{
    if syn == 1 && ack == 0 {
        Some((String::from_str("TCP"), 0))
    } else if syn == 1 && ack == 1 {
        Some((String::from_str("TCP"), 1))
    } else if syn == 2 && ack == 2 {
        Some((String::from_str("UDP"), 0))
    } else {
        None
    }
}

/// The directional tuple of a classified flow: an accepted connection
/// keeps the initiator's address and source port against the workload, an
/// initiated one keeps the peer's address and destination port.
pub open spec fn spec_define_traffic(t: Traffic) -> (Seq<char>, Seq<char>, u16, Seq<char>, u16) {
    if t.traffic_type == 1 {
        ("INGRESS"@, t.src_addr@, t.src_port, t.dst_addr@, 0u16)
    } else {
        ("EGRESS"@, t.src_addr@, 0u16, t.dst_addr@, t.dst_port)
    }
}

impl Traffic {
    /// The directional tuple this flow is recorded and deduplicated by.
    pub fn define_traffic(&self) -> (r: (String, String, u16, String, u16))
        ensures
            r.0@ == spec_define_traffic(*self).0,
            r.1@ == spec_define_traffic(*self).1,
            r.2 == spec_define_traffic(*self).2,
            r.3@ == spec_define_traffic(*self).3,
            r.4 == spec_define_traffic(*self).4,
    {
        if self.traffic_type == 1 {
            (
                String::from_str("INGRESS"),
                self.src_addr.clone(),
                self.src_port,
                self.dst_addr.clone(),
                0,
            )
        } else {
            (
                String::from_str("EGRESS"),
                self.src_addr.clone(),
                0,
                self.dst_addr.clone(),
                self.dst_port,
            )
        }
    }

    /// Builds the traffic record this flow posts, stamped with the given
    /// uuid and timestamp; the caller sends it and only then records the
    /// directional tuple in the dedup set.
    pub fn parse_message(&self, pod_data: &PodInfo, uuid: String, time_stamp: String) -> (r:
        PodTraffic)
        ensures
            r.uuid == uuid,
            r.pod_name == pod_data.pod_name,
            r.pod_namespace == pod_data.pod_namespace,
            r.pod_ip@ == spec_define_traffic(*self).1,
            crate::network::optv(r.pod_port) == spec_decimal(spec_define_traffic(*self).2 as int),
            crate::network::optv(r.traffic_in_out_ip) == spec_define_traffic(*self).3,
            crate::network::optv(r.traffic_in_out_port) == spec_decimal(
                spec_define_traffic(*self).4 as int,
            ),
            crate::network::optv(r.traffic_type) == spec_define_traffic(*self).0,
            crate::network::optv(r.ip_protocol) == self.ip_protocol@,
            r.time_stamp == time_stamp,
    {
        let (traffic_type, pod_ip, pod_port, in_out_ip, in_out_port) = self.define_traffic();
        PodTraffic {
            uuid,
            pod_name: pod_data.pod_name.clone(),
            pod_namespace: pod_data.pod_namespace.clone(),
            pod_ip,
            pod_port: Some(u16_to_string(pod_port)),
            traffic_type: Some(traffic_type),
            traffic_in_out_ip: Some(in_out_ip),
            traffic_in_out_port: Some(u16_to_string(in_out_port)),
            ip_protocol: Some(self.ip_protocol.clone()),
            time_stamp,
        }
    }
}


/// The directional tuple the cgroup path derives for a raw observation,
/// by its direction mark.
pub open spec fn spec_trace_tuple(data: TrafficLog, dir_mark: u32) -> (Seq<char>, Seq<char>, u16, Seq<
    char,
>, u16) {
    if dir_mark == 1 {
        ("INGRESS"@, spec_ipv4_be(data.saddr as int), data.sport, spec_ipv4_be(data.daddr as int),
        0u16)
    } else {
        ("EGRESS"@, spec_ipv4_be(data.saddr as int), 0u16, spec_ipv4_be(data.daddr as int),
        data.dport)
    }
}

/// Classifies one raw observation from the cgroup probe's ring: the
/// workload must be known, the source address must be the workload's own,
/// and the syn/ack pair must be one the probe reports.  A record and its
/// dedup tuple come back exactly then; the caller posts the record and
/// only on success adds the tuple to the traced set.
pub fn process_buffer(
    data: &TrafficLog,
    pod: Option<&PodInspect>,
    uuid: String,
    time_stamp: String,
) -> (r: Option<(PodTraffic, (String, String, u16, String, u16))>)
    ensures
        (r is Some <==> (pod matches Some(p) && spec_ipv4_be(data.saddr as int)
            == p.status.pod_ip@ && spec_syn_ack_class(data.syn, data.ack) is Some)),
        r matches Some(rd) ==> (pod matches Some(p) && spec_syn_ack_class(data.syn, data.ack)
            matches Some(sc) && {
            let tup = spec_trace_tuple(*data, sc.1);
            &&& rd.1.0@ == tup.0
            &&& rd.1.1@ == tup.1
            &&& rd.1.2 == tup.2
            &&& rd.1.3@ == tup.3
            &&& rd.1.4 == tup.4
            &&& rd.0.uuid == uuid
            &&& rd.0.pod_name == p.status.pod_name
            &&& rd.0.pod_namespace == p.status.pod_namespace
            &&& rd.0.pod_ip@ == tup.1
            &&& optv(rd.0.pod_port) == spec_decimal(tup.2 as int)
            &&& optv(rd.0.traffic_in_out_ip) == tup.3
            &&& optv(rd.0.traffic_in_out_port) == spec_decimal(tup.4 as int)
            &&& optv(rd.0.traffic_type) == tup.0
            &&& optv(rd.0.ip_protocol) == sc.0
            &&& rd.0.time_stamp == time_stamp
        }),
{
    let pod_data = match pod {
        Some(p) => p,
        None => {
            return None;
        },
    };
    let src = ipv4_be_string(data.saddr);
    if !(src == pod_data.status.pod_ip) {
        return None;
    }
    let class = match classify_syn_ack(data.syn, data.ack) {
        Some(c) => c,
        None => {
            return None;
        },
    };
    let t = Traffic {
        src_addr: src,
        dst_addr: ipv4_be_string(data.daddr),
        src_port: data.sport,
        dst_port: data.dport,
        traffic_type: class.1,
        ip_protocol: class.0,
    };
    let tuple = t.define_traffic();
    let record = t.parse_message(&pod_data.status, uuid, time_stamp);
    Some((record, tuple))
}

} // verus!
