//! The flow classifier: turns raw network events into directional traffic
//! records, deduplicated through a bounded fingerprint cache.

use vstd::prelude::*;
use std::collections::hash_map::RandomState;
use crate::events::{
    NetworkEventData, EventKind, Direction, Protocol, spec_kind_of, spec_kind_attrs,
    spec_port_map, kind_of, classify_kind,
};
use crate::ext::{
    new_uuid, now_timestamp, cache_new, cache_contains, cache_insert, cache_contents, cache_bound,
    push_char,
};
use crate::model::{PodInspect, PodTraffic};
use crate::text::{spec_decimal, spec_ipv4_be, u16_to_string, ipv4_be_string};

verus! {

/// The dedup key of a traffic record: workload name and address, workload
/// port, peer address and port, direction and protocol.
#[derive(Debug, Clone)]
pub struct TrafficKey {
    pub pod_name: String,
    pub pod_ip: String,
    pub pod_port: String,
    pub traffic_in_out_ip: String,
    pub traffic_in_out_port: String,
    pub traffic_type: String,
    pub ip_protocol: String,
}

/// The view of an optional field: its text, or empty when absent.
pub open spec fn optv(o: Option<String>) -> Seq<char> {
    match o {
        Some(s) => s@,
        None => Seq::empty(),
    }
}

/// The encoding of a fingerprint used as cache key: the seven fields
/// joined by a unit-separator character, which no field of a workload
/// identity or a rendered number contains.
pub open spec fn spec_fingerprint(k: TrafficKey) -> Seq<char> {
    k.pod_name@ + seq!['\u{1f}'] + k.pod_ip@ + seq!['\u{1f}'] + k.pod_port@ + seq!['\u{1f}']
        + k.traffic_in_out_ip@ + seq!['\u{1f}'] + k.traffic_in_out_port@ + seq!['\u{1f}']
        + k.traffic_type@ + seq!['\u{1f}'] + k.ip_protocol@
}

/// The encoded fingerprint a record carries: its seven identifying
/// fields, without the per-record uuid and timestamp.
pub open spec fn spec_record_fingerprint(r: PodTraffic) -> Seq<char> {
    r.pod_name@ + seq!['\u{1f}'] + r.pod_ip@ + seq!['\u{1f}'] + optv(r.pod_port) + seq!['\u{1f}']
        + optv(r.traffic_in_out_ip) + seq!['\u{1f}'] + optv(r.traffic_in_out_port)
        + seq!['\u{1f}'] + optv(r.traffic_type) + seq!['\u{1f}'] + optv(r.ip_protocol)
}

fn unwrap_or_empty(o: &Option<String>) -> (r: String)
    ensures
        r@ == optv(*o),
{
    match o {
        Some(s) => s.clone(),
        None => String::new(),
    }
}

impl TrafficKey {
    /// The fingerprint fields of a record, absent optional fields taken as
    /// empty.
    pub fn of_record(r: &PodTraffic) -> (k: TrafficKey)
        ensures
            spec_fingerprint(k) == spec_record_fingerprint(*r),
    {
        let k = TrafficKey {
            pod_name: r.pod_name.clone(),
            pod_ip: r.pod_ip.clone(),
            pod_port: unwrap_or_empty(&r.pod_port),
            traffic_in_out_ip: unwrap_or_empty(&r.traffic_in_out_ip),
            traffic_in_out_port: unwrap_or_empty(&r.traffic_in_out_port),
            traffic_type: unwrap_or_empty(&r.traffic_type),
            ip_protocol: unwrap_or_empty(&r.ip_protocol),
        };
        proof {
            assert(spec_fingerprint(k) =~= spec_record_fingerprint(*r));
        }
        k
    }

    /// Renders the encoded cache key.
    pub fn encode(&self) -> (s: String)
        ensures
            s@ == spec_fingerprint(*self),
    {
        let mut out = self.pod_name.clone();
        push_char(&mut out, '\u{1f}');
        out.append(self.pod_ip.as_str());
        push_char(&mut out, '\u{1f}');
        out.append(self.pod_port.as_str());
        push_char(&mut out, '\u{1f}');
        out.append(self.traffic_in_out_ip.as_str());
        push_char(&mut out, '\u{1f}');
        out.append(self.traffic_in_out_port.as_str());
        push_char(&mut out, '\u{1f}');
        out.append(self.traffic_type.as_str());
        push_char(&mut out, '\u{1f}');
        out.append(self.ip_protocol.as_str());
        proof {
            assert(out@ =~= spec_fingerprint(*self));
        }
        out
    }
}

/// The bounded fingerprint cache: a wrapper around the outside cache that
/// suppresses re-emission of a flow while its fingerprint is retained.
pub struct TrafficCache {
    cache: moka::sync::Cache<String, (), RandomState>,
}

/// The capacity of the fingerprint cache.
pub const TRAFFIC_CACHE_CAPACITY: u64 = 10000;

impl TrafficCache {
    /// The set of encoded fingerprints the cache currently holds.
    pub closed spec fn contents(&self) -> Set<Seq<char>> {
        cache_contents(self.cache)
    }

    /// The bound the cache was created with.
    pub closed spec fn bound(&self) -> int {
        cache_bound(self.cache)
    }

    /// A fresh cache with the configured bound, holding nothing.
    pub fn new() -> (c: TrafficCache)
        ensures
            c.contents() == Set::<Seq<char>>::empty(),
            c.bound() == TRAFFIC_CACHE_CAPACITY as int,
    {
        TrafficCache { cache: cache_new(TRAFFIC_CACHE_CAPACITY) }
    }

    /// Whether a fingerprint is currently retained.
    pub fn contains(&self, key: &String) -> (r: bool)
        ensures
            r == self.contents().contains(key@),
    {
        cache_contains(&self.cache, key)
    }

    /// Records an emitted fingerprint.  The cache retains no key that was
    /// neither there before nor just inserted; while it holds fewer
    /// fingerprints than its bound, the recorded one is retained, so the
    /// same flow cannot be emitted again until eviction room is needed.
    pub fn record_emitted(&mut self, key: String)
        ensures
            final(self).contents().subset_of(old(self).contents().insert(key@)),
            final(self).bound() == old(self).bound(),
            old(self).contents().finite() ==> final(self).contents().finite(),
            old(self).contents().finite() && old(self).contents().len() < old(self).bound()
                ==> final(self).contents().contains(key@),
    {
        let ghost pre = self.contents();
        let ghost k = key@;
        cache_insert(&mut self.cache, key);
        proof {
            if pre.finite() {
                vstd::set_lib::lemma_len_subset(self.contents(), pre.insert(k));
            }
        }
    }
}

/// A classified traffic observation: the record to post and its encoded
/// fingerprint.  The fingerprint is inserted into the cache only after
/// the record was successfully emitted.
pub struct TrafficDecision {
    pub record: PodTraffic,
    pub key: String,
}

/// The traffic type label of a direction.
pub open spec fn spec_direction_label(d: Direction) -> Seq<char> {
    match d {
        Direction::Ingress => "INGRESS"@,
        Direction::Egress => "EGRESS"@,
    }
}

/// The protocol label of a protocol.
pub open spec fn spec_protocol_label(p: Protocol) -> Seq<char> {
    match p {
        Protocol::Tcp => "TCP"@,
        Protocol::Udp => "UDP"@,
    }
}

/// What the record built for an event and workload must hold, given the
/// uuid and timestamp it was stamped with: the workload's identity, the
/// ports mapped by the event kind, the peer address in presentation form,
/// and the direction and protocol labels of the kind.
pub open spec fn spec_event_record(
    data: NetworkEventData,
    pod: PodInspect,
    uuid: String,
    time_stamp: String,
    k: EventKind,
    r: PodTraffic,
) -> bool {
    &&& r.uuid == uuid
    &&& r.pod_name == pod.status.pod_name
    &&& r.pod_namespace == pod.status.pod_namespace
    &&& r.pod_ip == pod.status.pod_ip
    &&& optv(r.pod_port) == spec_decimal(spec_port_map(k, data.sport, data.dport).0 as int)
    &&& r.pod_port is Some
    &&& optv(r.traffic_in_out_ip) == spec_ipv4_be(data.daddr as int)
    &&& r.traffic_in_out_ip is Some
    &&& optv(r.traffic_in_out_port) == spec_decimal(spec_port_map(k, data.sport, data.dport).1 as int)
    &&& r.traffic_in_out_port is Some
    &&& optv(r.traffic_type) == spec_direction_label(spec_kind_attrs(k).0)
    &&& r.traffic_type is Some
    &&& optv(r.ip_protocol) == spec_protocol_label(spec_kind_attrs(k).1)
    &&& r.ip_protocol is Some
    &&& r.time_stamp == time_stamp
}

/// The encoded fingerprint every record built for this event and workload
/// carries: it does not depend on the record's uuid or timestamp.
pub open spec fn spec_event_fingerprint(data: NetworkEventData, pod: PodInspect, k: EventKind) -> Seq<
    char,
> {
    pod.status.pod_name@ + seq!['\u{1f}'] + pod.status.pod_ip@ + seq!['\u{1f}'] + spec_decimal(
        spec_port_map(k, data.sport, data.dport).0 as int,
    ) + seq!['\u{1f}'] + spec_ipv4_be(data.daddr as int) + seq!['\u{1f}'] + spec_decimal(
        spec_port_map(k, data.sport, data.dport).1 as int,
    ) + seq!['\u{1f}'] + spec_direction_label(spec_kind_attrs(k).0) + seq!['\u{1f}']
        + spec_protocol_label(spec_kind_attrs(k).1)
}

/// Builds the traffic record for one event attributed to one workload.
/// Returns a record exactly when the event's kind is one of the three
/// defined codes.
pub fn classify_event(
    data: &NetworkEventData,
    pod_data: &PodInspect,
    uuid: String,
    time_stamp: String,
) -> (r: Option<PodTraffic>)
    ensures
        match r {
            Some(rec) => spec_kind_of(data.kind) matches Some(k) && spec_event_record(
                *data,
                *pod_data,
                uuid,
                time_stamp,
                k,
                rec,
            ),
            None => spec_kind_of(data.kind) is None,
        },
{
    let kind = match kind_of(data.kind) {
        Some(k) => k,
        None => {
            return None;
        },
    };
    let (direction, protocol, pod_port, peer_port) = classify_kind(kind, data.sport, data.dport);
    let traffic_type = match direction {
        Direction::Ingress => String::from_str("INGRESS"),
        Direction::Egress => String::from_str("EGRESS"),
    };
    let ip_protocol = match protocol {
        Protocol::Tcp => String::from_str("TCP"),
        Protocol::Udp => String::from_str("UDP"),
    };
    Some(
        PodTraffic {
            uuid,
            pod_name: pod_data.status.pod_name.clone(),
            pod_namespace: pod_data.status.pod_namespace.clone(),
            pod_ip: pod_data.status.pod_ip.clone(),
            pod_port: Some(u16_to_string(pod_port)),
            traffic_type: Some(traffic_type),
            traffic_in_out_ip: Some(ipv4_be_string(data.daddr)),
            traffic_in_out_port: Some(u16_to_string(peer_port)),
            ip_protocol: Some(ip_protocol),
            time_stamp,
        },
    )
}

/// Processes one network event: attributes it to a workload, classifies
/// it, and consults the fingerprint cache.  A record comes back exactly
/// when the workload is known, the kind is one of the three defined
/// codes, and the flow's fingerprint is not currently retained; an event
/// whose inode number the registry did not resolve produces nothing.  The
/// cache itself is not changed here: a fingerprint is recorded only after
/// the record was emitted, through `TrafficCache::record_emitted`.
pub fn process_network_event(
    cache: &mut TrafficCache,
    data: &NetworkEventData,
    pod: Option<&PodInspect>,
) -> (r: Option<TrafficDecision>)
    ensures
        final(cache).contents() == old(cache).contents(),
        (r is Some <==> (pod matches Some(p) && spec_kind_of(data.kind) matches Some(k) && !old(
            cache,
        ).contents().contains(spec_event_fingerprint(*data, *p, k)))),
        r matches Some(d) ==> (pod matches Some(p) && spec_kind_of(data.kind) matches Some(k) && {
            &&& d.key@ == spec_event_fingerprint(*data, *p, k)
            &&& d.key@ == spec_record_fingerprint(d.record)
            &&& !old(cache).contents().contains(d.key@)
            &&& (exists|uuid: String, ts: String|
                uuid@.len() == 36 && spec_event_record(*data, *p, uuid, ts, k, d.record))
        }),
{
    let pod_data = match pod {
        Some(p) => p,
        None => {
            return None;
        },
    };
    let uuid = new_uuid();
    let time_stamp = now_timestamp();
    let ghost guuid = uuid;
    let ghost gts = time_stamp;
    let record = match classify_event(data, pod_data, uuid, time_stamp) {
        Some(r) => r,
        None => {
            return None;
        },
    };
    let key = TrafficKey::of_record(&record).encode();
    proof {
        let k = spec_kind_of(data.kind)->Some_0;
        assert(key@ =~= spec_event_fingerprint(*data, *pod_data, k));
        assert(guuid@.len() == 36 && spec_event_record(*data, *pod_data, guuid, gts, k, record));
    }
    if cache.contains(&key) {
        return None;
    }
    Some(TrafficDecision { record, key })
}

} // verus!
