//! The collector's storage rules, modelled on in-memory tables: how a
//! traffic record is deduplicated on arrival, and how workload details,
//! service details and syscall batches are upserted.

use vstd::prelude::*;
use crate::watch::spec_join_comma;

verus! {

/// Whether two optional texts agree.
pub open spec fn opt_eqv(a: Option<String>, b: Option<String>) -> bool {
    match (a, b) {
        (Option::Some(x), Option::Some(y)) => x@ == y@,
        (Option::None, Option::None) => true,
        _ => false,
    }
}

fn opt_str_eq(a: &Option<String>, b: &Option<String>) -> (r: bool)
    ensures
        r == opt_eqv(*a, *b),
{
    match (a.as_ref(), b.as_ref()) {
        (Some(x), Some(y)) => *x == *y,
        (None, None) => true,
        _ => false,
    }
}

fn opt_clone(a: &Option<String>) -> (r: Option<String>)
    ensures
        opt_eqv(*a, r),
        r is Some <==> a is Some,
{
    match a.as_ref() {
        Some(x) => Some(x.clone()),
        None => None,
    }
}

/// One stored traffic row, keyed by its record id.
#[derive(Debug, Default, Clone)]
pub struct PodTraffic {
    pub uuid: String,
    pub pod_name: Option<String>,
    pub pod_namespace: Option<String>,
    pub pod_ip: Option<String>,
    pub pod_port: Option<String>,
    pub ip_protocol: Option<String>,
    pub traffic_type: Option<String>,
    pub traffic_in_out_ip: Option<String>,
    pub traffic_in_out_port: Option<String>,
    pub time_stamp: String,
}

/// One stored workload detail row, keyed by workload name.
#[derive(Debug, Default, Clone)]
pub struct PodDetail {
    pub pod_name: String,
    pub pod_ip: String,
    pub pod_namespace: Option<String>,
    pub pod_obj: Option<String>,
    pub time_stamp: String,
}

/// One stored service detail row, keyed by service address.
#[derive(Debug, Default, Clone)]
pub struct SvcDetail {
    pub svc_ip: String,
    pub svc_name: Option<String>,
    pub svc_namespace: Option<String>,
    pub service_spec: Option<String>,
    pub time_stamp: String,
}

/// One stored syscall row, keyed by workload name: the names joined into
/// one text.
#[derive(Debug, Default, Clone)]
pub struct PodSyscalls {
    pub pod_name: String,
    pub pod_namespace: String,
    pub syscalls: String,
    pub arch: String,
    pub time_stamp: String,
}

/// One incoming syscall batch record.
#[derive(Debug, Default, Clone)]
pub struct PodInputSyscalls {
    pub pod_name: String,
    pub pod_namespace: String,
    pub syscalls: Vec<String>,
    pub arch: String,
    pub time_stamp: String,
}

/// Whether a stored row matches an incoming TCP record on all five
/// identifying fields.
pub open spec fn spec_match_tcp(row: PodTraffic, w: PodTraffic) -> bool {
    &&& opt_eqv(row.pod_ip, w.pod_ip)
    &&& opt_eqv(row.pod_port, w.pod_port)
    &&& opt_eqv(row.traffic_type, w.traffic_type)
    &&& opt_eqv(row.traffic_in_out_ip, w.traffic_in_out_ip)
    &&& opt_eqv(row.traffic_in_out_port, w.traffic_in_out_port)
}

/// The first UDP match: address, direction and the peer endpoint.
pub open spec fn spec_match_udp1(row: PodTraffic, w: PodTraffic) -> bool {
    &&& opt_eqv(row.pod_ip, w.pod_ip)
    &&& opt_eqv(row.traffic_type, w.traffic_type)
    &&& opt_eqv(row.traffic_in_out_ip, w.traffic_in_out_ip)
    &&& opt_eqv(row.traffic_in_out_port, w.traffic_in_out_port)
}

/// The second UDP match: address, workload port, direction and the peer
/// address.
pub open spec fn spec_match_udp2(row: PodTraffic, w: PodTraffic) -> bool {
    &&& opt_eqv(row.pod_ip, w.pod_ip)
    &&& opt_eqv(row.pod_port, w.pod_port)
    &&& opt_eqv(row.traffic_type, w.traffic_type)
    &&& opt_eqv(row.traffic_in_out_ip, w.traffic_in_out_ip)
}

/// Whether the incoming record carries the UDP protocol mark.
pub open spec fn spec_is_udp(w: PodTraffic) -> bool {
    w.ip_protocol matches Some(p) && p@ == "UDP"@
}

/// Whether two traffic rows carry the same texts in every field.
pub open spec fn spec_traffic_row_eqv(a: PodTraffic, b: PodTraffic) -> bool {
    &&& a.uuid@ == b.uuid@
    &&& opt_eqv(a.pod_name, b.pod_name)
    &&& opt_eqv(a.pod_namespace, b.pod_namespace)
    &&& opt_eqv(a.pod_ip, b.pod_ip)
    &&& opt_eqv(a.pod_port, b.pod_port)
    &&& opt_eqv(a.ip_protocol, b.ip_protocol)
    &&& opt_eqv(a.traffic_type, b.traffic_type)
    &&& opt_eqv(a.traffic_in_out_ip, b.traffic_in_out_ip)
    &&& opt_eqv(a.traffic_in_out_port, b.traffic_in_out_port)
    &&& a.time_stamp@ == b.time_stamp@
}

/// Whether some stored row already covers the incoming record, under the
/// protocol's matching rule.
pub open spec fn spec_has_traffic_row(t: Seq<PodTraffic>, w: PodTraffic) -> bool {
    if spec_is_udp(w) {
        (exists|i: int| 0 <= i < t.len() && spec_match_udp1(#[trigger] t[i], w)) || (exists|i: int|
            0 <= i < t.len() && spec_match_udp2(#[trigger] t[i], w))
    } else {
        exists|i: int| 0 <= i < t.len() && spec_match_tcp(#[trigger] t[i], w)
    }
}

fn match_tcp(row: &PodTraffic, w: &PodTraffic) -> (r: bool)
    ensures
        r == spec_match_tcp(*row, *w),
{
    opt_str_eq(&row.pod_ip, &w.pod_ip) && opt_str_eq(&row.pod_port, &w.pod_port) && opt_str_eq(
        &row.traffic_type,
        &w.traffic_type,
    ) && opt_str_eq(&row.traffic_in_out_ip, &w.traffic_in_out_ip) && opt_str_eq(
        &row.traffic_in_out_port,
        &w.traffic_in_out_port,
    )
}

fn match_udp1(row: &PodTraffic, w: &PodTraffic) -> (r: bool)
    ensures
        r == spec_match_udp1(*row, *w),
{
    opt_str_eq(&row.pod_ip, &w.pod_ip) && opt_str_eq(&row.traffic_type, &w.traffic_type)
        && opt_str_eq(&row.traffic_in_out_ip, &w.traffic_in_out_ip) && opt_str_eq(
        &row.traffic_in_out_port,
        &w.traffic_in_out_port,
    )
}

fn match_udp2(row: &PodTraffic, w: &PodTraffic) -> (r: bool)
    ensures
        r == spec_match_udp2(*row, *w),
{
    opt_str_eq(&row.pod_ip, &w.pod_ip) && opt_str_eq(&row.pod_port, &w.pod_port) && opt_str_eq(
        &row.traffic_type,
        &w.traffic_type,
    ) && opt_str_eq(&row.traffic_in_out_ip, &w.traffic_in_out_ip)
}

fn clone_traffic_row(r: &PodTraffic) -> (c: PodTraffic)
    ensures
        c.uuid@ == r.uuid@,
        opt_eqv(c.pod_name, r.pod_name),
        opt_eqv(c.pod_namespace, r.pod_namespace),
        opt_eqv(c.pod_ip, r.pod_ip),
        opt_eqv(c.pod_port, r.pod_port),
        opt_eqv(c.ip_protocol, r.ip_protocol),
        opt_eqv(c.traffic_type, r.traffic_type),
        opt_eqv(c.traffic_in_out_ip, r.traffic_in_out_ip),
        opt_eqv(c.traffic_in_out_port, r.traffic_in_out_port),
        c.time_stamp@ == r.time_stamp@,
{
    PodTraffic {
        uuid: r.uuid.clone(),
        pod_name: opt_clone(&r.pod_name),
        pod_namespace: opt_clone(&r.pod_namespace),
        pod_ip: opt_clone(&r.pod_ip),
        pod_port: opt_clone(&r.pod_port),
        ip_protocol: opt_clone(&r.ip_protocol),
        traffic_type: opt_clone(&r.traffic_type),
        traffic_in_out_ip: opt_clone(&r.traffic_in_out_ip),
        traffic_in_out_port: opt_clone(&r.traffic_in_out_port),
        time_stamp: r.time_stamp.clone(),
    }
}

impl PodTraffic {
    /// Looks the incoming record up in the stored table under its
    /// protocol's matching rule: for UDP first by peer endpoint, then by
    /// workload port; for anything else by all five fields.  The first
    /// matching row comes back.
    pub fn get_row(&self, table: &Vec<PodTraffic>) -> (r: Option<PodTraffic>)
        ensures
            r is Some <==> spec_has_traffic_row(table@, *self),
            r matches Some(row) ==> exists|i: int|
                0 <= i < table@.len() && spec_traffic_row_eqv(row, #[trigger] table@[i]) && (if
                spec_is_udp(*self) {
                    spec_match_udp1(table@[i], *self) || spec_match_udp2(table@[i], *self)
                } else {
                    spec_match_tcp(table@[i], *self)
                }),
    {
        let udp = String::from_str("UDP");
        let is_udp = match self.ip_protocol.as_ref() {
            Some(p) => *p == udp,
            None => false,
        };
        if is_udp {
            let mut i: usize = 0;
            while i < table.len()
                invariant
                    i <= table@.len(),
                    spec_is_udp(*self),
                    forall|j: int| 0 <= j < i ==> !spec_match_udp1(#[trigger] table@[j], *self),
                decreases table@.len() - i,
            {
                if match_udp1(&table[i], self) {
                    return Some(clone_traffic_row(&table[i]));
                }
                i += 1;
            }
            let mut k: usize = 0;
            while k < table.len()
                invariant
                    k <= table@.len(),
                    spec_is_udp(*self),
                    forall|j: int| 0 <= j < k ==> !spec_match_udp2(#[trigger] table@[j], *self),
                decreases table@.len() - k,
            {
                if match_udp2(&table[k], self) {
                    return Some(clone_traffic_row(&table[k]));
                }
                k += 1;
            }
            None
        } else {
            let mut i: usize = 0;
            while i < table.len()
                invariant
                    i <= table@.len(),
                    !spec_is_udp(*self),
                    forall|j: int| 0 <= j < i ==> !spec_match_tcp(#[trigger] table@[j], *self),
                decreases table@.len() - i,
            {
                if match_tcp(&table[i], self) {
                    return Some(clone_traffic_row(&table[i]));
                }
                i += 1;
            }
            None
        }
    }
}

/// Stores an incoming traffic record unless a stored row already covers
/// it: the collector keeps at most one row per flow.
pub fn create_pod_traffic(table: &mut Vec<PodTraffic>, w: PodTraffic)
    ensures
        spec_has_traffic_row(old(table)@, w) ==> final(table)@ == old(table)@,
        !spec_has_traffic_row(old(table)@, w) ==> final(table)@ == old(table)@.push(w),
{
    let exists_row = w.get_row(table).is_some();
    if !exists_row {
        table.push(w);
    }
}

/// A record matches itself under its own protocol rule, so storing it
/// twice stores it once: the second application leaves the table exactly
/// as the first left it.
pub proof fn lemma_create_pod_traffic_idempotent(t: Seq<PodTraffic>, w: PodTraffic)
    ensures
        spec_has_traffic_row(spec_create_traffic(t, w), w),
        spec_create_traffic(spec_create_traffic(t, w), w) == spec_create_traffic(t, w),
{
    let t1 = spec_create_traffic(t, w);
    if spec_has_traffic_row(t, w) {
        assert(t1 == t);
    } else {
        assert(t1 == t.push(w));
        let i = t.len() as int;
        assert(t1[i] == w);
        if spec_is_udp(w) {
            assert(spec_match_udp1(t1[i], w));
        } else {
            assert(spec_match_tcp(t1[i], w));
        }
    }
}

/// The stored table an arriving traffic record leaves behind.
pub open spec fn spec_create_traffic(t: Seq<PodTraffic>, w: PodTraffic) -> Seq<PodTraffic> {
    if spec_has_traffic_row(t, w) {
        t
    } else {
        t.push(w)
    }
}

/// Upserts a workload detail row: the first row with the same workload
/// name is replaced, otherwise the record is appended.
pub fn upsert_pod_details(table: &mut Vec<PodDetail>, w: PodDetail)
    ensures
        match spec_first_by_name(old(table)@, w.pod_name@) {
            Some(i) => final(table)@ == old(table)@.update(i, w),
            None => final(table)@ == old(table)@.push(w),
        },
{
    let mut i: usize = 0;
    while i < table.len()
        invariant
            i <= table@.len(),
            table@ == old(table)@,
            forall|j: int| 0 <= j < i ==> (#[trigger] table@[j]).pod_name@ != w.pod_name@,
        decreases table@.len() - i,
    {
        if table[i].pod_name == w.pod_name {
            proof {
                lemma_first_by_name(table@, w.pod_name@, i as int);
            }
            table.set(i, w);
            return ;
        }
        i += 1;
    }
    proof {
        if spec_first_by_name(table@, w.pod_name@) is Some {
            lemma_first_by_name_sound(table@, w.pod_name@);
        }
    }
    table.push(w);
}

/// The index of the first workload detail row with this name.
pub open spec fn spec_first_by_name(t: Seq<PodDetail>, name: Seq<char>) -> Option<int> {
    if exists|i: int| 0 <= i < t.len() && (#[trigger] t[i]).pod_name@ == name {
        Some(
            choose|i: int|
                0 <= i < t.len() && (#[trigger] t[i]).pod_name@ == name && forall|j: int|
                    0 <= j < i ==> (#[trigger] t[j]).pod_name@ != name,
        )
    } else {
        None
    }
}

proof fn lemma_first_by_name(t: Seq<PodDetail>, name: Seq<char>, i: int)
    requires
        0 <= i < t.len(),
        t[i].pod_name@ == name,
        forall|j: int| 0 <= j < i ==> (#[trigger] t[j]).pod_name@ != name,
    ensures
        spec_first_by_name(t, name) == Some(i),
{
    assert(exists|k: int| 0 <= k < t.len() && (#[trigger] t[k]).pod_name@ == name);
    let c = choose|k: int|
        0 <= k < t.len() && (#[trigger] t[k]).pod_name@ == name && forall|j: int|
            0 <= j < k ==> (#[trigger] t[j]).pod_name@ != name;
    assert(0 <= c < t.len() && t[c].pod_name@ == name && forall|j: int|
        0 <= j < c ==> (#[trigger] t[j]).pod_name@ != name) by {
        lemma_first_witness(t, name, choose|k: int|
            0 <= k < t.len() && (#[trigger] t[k]).pod_name@ == name);
    }
    if c < i {
        assert(t[c].pod_name@ != name);
    }
    if i < c {
        assert(t[i].pod_name@ != name);
    }
}

proof fn lemma_first_witness(t: Seq<PodDetail>, name: Seq<char>, w: int)
    requires
        0 <= w < t.len(),
        t[w].pod_name@ == name,
    ensures
        exists|k: int|
            0 <= k < t.len() && (#[trigger] t[k]).pod_name@ == name && forall|j: int|
                0 <= j < k ==> (#[trigger] t[j]).pod_name@ != name,
    decreases w,
{
    if forall|j: int| 0 <= j < w ==> (#[trigger] t[j]).pod_name@ != name {
        assert(0 <= w < t.len() && t[w].pod_name@ == name && forall|j: int|
            0 <= j < w ==> (#[trigger] t[j]).pod_name@ != name);
    } else {
        let j = choose|j: int| 0 <= j < w && (#[trigger] t[j]).pod_name@ == name;
        lemma_first_witness(t, name, j);
    }
}

proof fn lemma_first_by_name_sound(t: Seq<PodDetail>, name: Seq<char>)
    requires
        spec_first_by_name(t, name) is Some,
    ensures
        ({
            let i = spec_first_by_name(t, name)->Some_0;
            0 <= i < t.len() && t[i].pod_name@ == name
        }),
{
    let w = choose|k: int| 0 <= k < t.len() && (#[trigger] t[k]).pod_name@ == name;
    lemma_first_witness(t, name, w);
}

/// Upserts a service detail row: the first row with the same address is
/// replaced, otherwise the record is appended.
pub fn upsert_svc_details(table: &mut Vec<SvcDetail>, w: SvcDetail)
    ensures
        (exists|i: int| 0 <= i < old(table)@.len() && (#[trigger] old(table)@[i]).svc_ip@
            == w.svc_ip@) ==> (exists|i: int|
            0 <= i < old(table)@.len() && (#[trigger] old(table)@[i]).svc_ip@ == w.svc_ip@
                && final(table)@ == old(table)@.update(i, w)),
        !(exists|i: int| 0 <= i < old(table)@.len() && (#[trigger] old(table)@[i]).svc_ip@
            == w.svc_ip@) ==> final(table)@ == old(table)@.push(w),
{
    let mut i: usize = 0;
    while i < table.len()
        invariant
            i <= table@.len(),
            table@ == old(table)@,
            forall|j: int| 0 <= j < i ==> (#[trigger] table@[j]).svc_ip@ != w.svc_ip@,
        decreases table@.len() - i,
    {
        if table[i].svc_ip == w.svc_ip {
            proof {
                assert(0 <= i < old(table)@.len() && old(table)@[i as int].svc_ip@ == w.svc_ip@);
            }
            table.set(i, w);
            return ;
        }
        i += 1;
    }
    table.push(w);
}

/// The first service row with this address.
pub fn svc_ip(table: &Vec<SvcDetail>, ip: &str) -> (r: Option<usize>)
    ensures
        match r {
            Some(i) => i < table@.len() && table@[i as int].svc_ip@ == ip@ && forall|j: int|
                0 <= j < i ==> (#[trigger] table@[j]).svc_ip@ != ip@,
            None => forall|j: int|
                0 <= j < table@.len() ==> (#[trigger] table@[j]).svc_ip@ != ip@,
        },
{
    let key = String::from_str(ip);
    let mut i: usize = 0;
    while i < table.len()
        invariant
            i <= table@.len(),
            key@ == ip@,
            forall|j: int| 0 <= j < i ==> (#[trigger] table@[j]).svc_ip@ != ip@,
        decreases table@.len() - i,
    {
        if table[i].svc_ip == key {
            return Some(i);
        }
        i += 1;
    }
    None
}

/// The first workload detail row with this address.
pub fn pod_ip(table: &Vec<PodDetail>, ip: &str) -> (r: Option<usize>)
    ensures
        match r {
            Some(i) => i < table@.len() && table@[i as int].pod_ip@ == ip@ && forall|j: int|
                0 <= j < i ==> (#[trigger] table@[j]).pod_ip@ != ip@,
            None => forall|j: int|
                0 <= j < table@.len() ==> (#[trigger] table@[j]).pod_ip@ != ip@,
        },
{
    let key = String::from_str(ip);
    let mut i: usize = 0;
    while i < table.len()
        invariant
            i <= table@.len(),
            key@ == ip@,
            forall|j: int| 0 <= j < i ==> (#[trigger] table@[j]).pod_ip@ != ip@,
        decreases table@.len() - i,
    {
        if table[i].pod_ip == key {
            return Some(i);
        }
        i += 1;
    }
    None
}

/// The indices of the traffic rows recorded for a workload name.
pub fn pod_traffic_by_name(table: &Vec<PodTraffic>, name: &str) -> (r: Vec<usize>)
    ensures
        forall|k: int|
            0 <= k < r@.len() ==> (#[trigger] r@[k]) < table@.len() && (table@[r@[k] as int]
                .pod_name matches Some(n) && n@ == name@),
        forall|j: int|
            0 <= j < table@.len() && ((#[trigger] table@[j]).pod_name matches Some(n) && n@
                == name@) ==> r@.contains(j as usize),
{
    let key = String::from_str(name);
    let mut out: Vec<usize> = Vec::new();
    let mut i: usize = 0;
    while i < table.len()
        invariant
            i <= table@.len(),
            key@ == name@,
            forall|k: int|
                0 <= k < out@.len() ==> (#[trigger] out@[k]) < i && (table@[out@[k] as int]
                    .pod_name matches Some(n) && n@ == name@),
            forall|j: int|
                0 <= j < i && ((#[trigger] table@[j]).pod_name matches Some(n) && n@ == name@)
                    ==> out@.contains(j as usize),
        decreases table@.len() - i,
    {
        let hit = match table[i].pod_name.as_ref() {
            Some(n) => *n == key,
            None => false,
        };
        if hit {
            let ghost out0 = out@;
            out.push(i);
            proof {
                assert(out@[out@.len() - 1] == i);
                assert forall|j: int|
                    0 <= j < i + 1 && ((#[trigger] table@[j]).pod_name matches Some(n) && n@
                        == name@) implies out@.contains(j as usize) by {
                    if j < i {
                        let k = choose|k: int| 0 <= k < out0.len() && out0[k] == j as usize;
                        assert(out@[k] == j as usize);
                    } else {
                        assert(out@[out@.len() - 1] == j as usize);
                    }
                }
            }
        } else {
            proof {
                assert forall|j: int|
                    0 <= j < i + 1 && ((#[trigger] table@[j]).pod_name matches Some(n) && n@
                        == name@) implies out@.contains(j as usize) by {
                    assert(j != i);
                }
            }
        }
        i += 1;
    }
    out
}

/// The indices of the syscall rows recorded for a workload name.
pub fn pod_syscalls_by_name(table: &Vec<PodSyscalls>, name: &str) -> (r: Vec<usize>)
    ensures
        forall|k: int|
            0 <= k < r@.len() ==> (#[trigger] r@[k]) < table@.len() && table@[r@[k] as int]
                .pod_name@ == name@,
        forall|j: int|
            0 <= j < table@.len() && (#[trigger] table@[j]).pod_name@ == name@ ==> r@.contains(
                j as usize,
            ),
{
    let key = String::from_str(name);
    let mut out: Vec<usize> = Vec::new();
    let mut i: usize = 0;
    while i < table.len()
        invariant
            i <= table@.len(),
            key@ == name@,
            forall|k: int|
                0 <= k < out@.len() ==> (#[trigger] out@[k]) < i && table@[out@[k] as int]
                    .pod_name@ == name@,
            forall|j: int|
                0 <= j < i && (#[trigger] table@[j]).pod_name@ == name@ ==> out@.contains(
                    j as usize,
                ),
        decreases table@.len() - i,
    {
        if table[i].pod_name == key {
            let ghost out0 = out@;
            out.push(i);
            proof {
                assert(out@[out@.len() - 1] == i);
                assert forall|j: int|
                    0 <= j < i + 1 && (#[trigger] table@[j]).pod_name@ == name@ implies out@
                    .contains(j as usize) by {
                    if j < i {
                        let k = choose|k: int| 0 <= k < out0.len() && out0[k] == j as usize;
                        assert(out@[k] == j as usize);
                    } else {
                        assert(out@[out@.len() - 1] == j as usize);
                    }
                }
            }
        } else {
            proof {
                assert forall|j: int|
                    0 <= j < i + 1 && (#[trigger] table@[j]).pod_name@ == name@ implies out@
                    .contains(j as usize) by {
                    assert(j != i);
                }
            }
        }
        i += 1;
    }
    out
}

/// The view of a stored syscall row: name, namespace, joined names,
/// architecture, timestamp.
pub open spec fn spec_syscall_row_view(r: PodSyscalls) -> (Seq<char>, Seq<char>, Seq<char>, Seq<
    char,
>, Seq<char>) {
    (r.pod_name@, r.pod_namespace@, r.syscalls@, r.arch@, r.time_stamp@)
}

/// The view of an incoming batch record: name, namespace, name list,
/// architecture, timestamp.
pub open spec fn spec_syscall_input_view(w: PodInputSyscalls) -> (Seq<char>, Seq<char>, Seq<
    Seq<char>,
>, Seq<char>, Seq<char>) {
    (w.pod_name@, w.pod_namespace@, w.syscalls@.map_values(|s: String| s@), w.arch@, w.time_stamp@)
}

/// Whether a stored row matches an incoming record on the lookup key:
/// workload name, namespace and architecture.
pub open spec fn spec_triple_match(
    r: (Seq<char>, Seq<char>, Seq<char>, Seq<char>, Seq<char>),
    w: (Seq<char>, Seq<char>, Seq<Seq<char>>, Seq<char>, Seq<char>),
) -> bool {
    r.0 == w.0 && r.1 == w.1 && r.3 == w.3
}

/// The table one incoming syscall record leaves behind: where a row
/// matches the lookup key, every row of that workload name takes the
/// joined list; otherwise a new row is appended.
pub open spec fn spec_upsert_syscalls(
    t: Seq<(Seq<char>, Seq<char>, Seq<char>, Seq<char>, Seq<char>)>,
    w: (Seq<char>, Seq<char>, Seq<Seq<char>>, Seq<char>, Seq<char>),
) -> Seq<(Seq<char>, Seq<char>, Seq<char>, Seq<char>, Seq<char>)> {
    let joined = spec_join_comma(w.2);
    if exists|i: int| 0 <= i < t.len() && spec_triple_match(#[trigger] t[i], w) {
        t.map_values(
            |r: (Seq<char>, Seq<char>, Seq<char>, Seq<char>, Seq<char>)|
                if r.0 == w.0 {
                    (r.0, r.1, joined, r.3, r.4)
                } else {
                    r
                },
        )
    } else {
        t.push((w.0, w.1, joined, w.3, w.4))
    }
}

/// Every row of this workload's name already matches the record's full
/// lookup key: the table's one-row-per-workload keying.
pub open spec fn spec_keyed_for(
    t: Seq<(Seq<char>, Seq<char>, Seq<char>, Seq<char>, Seq<char>)>,
    w: (Seq<char>, Seq<char>, Seq<Seq<char>>, Seq<char>, Seq<char>),
) -> bool {
    forall|i: int|
        0 <= i < t.len() && (#[trigger] t[i]).0 == w.0 ==> t[i].1 == w.1 && t[i].3 == w.3
}

/// Receiving the same syscall record twice yields the same collector
/// state: on a table keyed by workload name, the second upsert finds the
/// row the first one wrote and writes the same joined list again.
pub proof fn lemma_syscall_upsert_idempotent(
    t: Seq<(Seq<char>, Seq<char>, Seq<char>, Seq<char>, Seq<char>)>,
    w: (Seq<char>, Seq<char>, Seq<Seq<char>>, Seq<char>, Seq<char>),
)
    requires
        spec_keyed_for(t, w),
    ensures
        spec_upsert_syscalls(spec_upsert_syscalls(t, w), w) == spec_upsert_syscalls(t, w),
{
    let joined = spec_join_comma(w.2);
    let t1 = spec_upsert_syscalls(t, w);
    if exists|i: int| 0 <= i < t.len() && spec_triple_match(#[trigger] t[i], w) {
        let i = choose|i: int| 0 <= i < t.len() && spec_triple_match(#[trigger] t[i], w);
        assert(t1[i] == (t[i].0, t[i].1, joined, t[i].3, t[i].4));
        assert(spec_triple_match(t1[i], w));
        let t2 = spec_upsert_syscalls(t1, w);
        assert forall|j: int| 0 <= j < t1.len() implies (if t1[j].0 == w.0 {
            (t1[j].0, t1[j].1, joined, t1[j].3, t1[j].4)
        } else {
            t1[j]
        }) == t1[j] by {
            if t1[j].0 == w.0 {
                assert(t[j].0 == w.0);
                assert(t1[j] == (t[j].0, t[j].1, joined, t[j].3, t[j].4));
            }
        }
        assert(t2 =~= t1);
    } else {
        assert(t1 == t.push((w.0, w.1, joined, w.3, w.4)));
        assert(t1[t.len() as int] == (w.0, w.1, joined, w.3, w.4));
        assert(spec_triple_match(t1[t.len() as int], w));
        let t2 = spec_upsert_syscalls(t1, w);
        assert forall|j: int| 0 <= j < t1.len() implies (if t1[j].0 == w.0 {
            (t1[j].0, t1[j].1, joined, t1[j].3, t1[j].4)
        } else {
            t1[j]
        }) == t1[j] by {
            if t1[j].0 == w.0 {
                if j < t.len() {
                    assert(t[j].0 == w.0);
                    assert(spec_triple_match(t[j], w));
                } else {
                    assert(t1[j] == (w.0, w.1, joined, w.3, w.4));
                }
            }
        }
        assert(t2 =~= t1);
    }
}

impl PodInputSyscalls {
    /// Finds the first stored row matching this record's lookup key.
    pub fn get_row(&self, table: &Vec<PodSyscalls>) -> (r: Option<usize>)
        ensures
            match r {
                Some(i) => i < table@.len() && spec_triple_match(
                    spec_syscall_row_view(table@[i as int]),
                    spec_syscall_input_view(*self),
                ),
                None => forall|i: int|
                    0 <= i < table@.len() ==> !spec_triple_match(
                        spec_syscall_row_view(#[trigger] table@[i]),
                        spec_syscall_input_view(*self),
                    ),
            },
    {
        let mut i: usize = 0;
        while i < table.len()
            invariant
                i <= table@.len(),
                forall|j: int|
                    0 <= j < i ==> !spec_triple_match(
                        spec_syscall_row_view(#[trigger] table@[j]),
                        spec_syscall_input_view(*self),
                    ),
            decreases table@.len() - i,
        {
            if table[i].pod_name == self.pod_name && table[i].pod_namespace == self.pod_namespace
                && table[i].arch == self.arch {
                return Some(i);
            }
            i += 1;
        }
        None
    }
}

/// Joins a list of names with commas.
pub fn join_strings(v: &Vec<String>) -> (r: String)
    ensures
        r@ == spec_join_comma(v@.map_values(|s: String| s@)),
{
    let ghost views = v@.map_values(|s: String| s@);
    let mut out = String::new();
    let mut i: usize = 0;
    while i < v.len()
        invariant
            i <= v@.len(),
            views == v@.map_values(|s: String| s@),
            views.len() == v@.len(),
            out@ == spec_join_comma(views.take(i as int)),
        decreases v@.len() - i,
    {
        if i > 0 {
            out.append(",");
        }
        out.append(v[i].as_str());
        proof {
            let pre = views.take(i as int);
            let m1 = views.take(i + 1);
            assert(m1.drop_last() =~= pre);
            assert(m1.last() == views[i as int]);
            assert(views[i as int] == v@[i as int]@);
            if i > 0 {
                assert(out@ =~= spec_join_comma(m1));
            } else {
                assert(m1.len() == 1);
                assert(out@ =~= spec_join_comma(m1));
            }
        }
        i += 1;
    }
    proof {
        assert(views.take(views.len() as int) =~= views);
    }
    out
}

/// Stores a batch of syscall records, in order: each record updates the
/// rows of its workload name to its joined list where its lookup key is
/// present, and appends a fresh row where it is not.
pub fn create_pod_syscalls(table: &mut Vec<PodSyscalls>, batch: &Vec<PodInputSyscalls>)
    ensures
        final(table)@.map_values(|r: PodSyscalls| spec_syscall_row_view(r))
            == spec_apply_syscall_batch(
            old(table)@.map_values(|r: PodSyscalls| spec_syscall_row_view(r)),
            batch@.map_values(|w: PodInputSyscalls| spec_syscall_input_view(w)),
        ),
{
    let ghost bviews = batch@.map_values(|w: PodInputSyscalls| spec_syscall_input_view(w));
    let mut i: usize = 0;
    while i < batch.len()
        invariant
            i <= batch@.len(),
            bviews == batch@.map_values(|w: PodInputSyscalls| spec_syscall_input_view(w)),
            bviews.len() == batch@.len(),
            table@.map_values(|r: PodSyscalls| spec_syscall_row_view(r))
                == spec_apply_syscall_batch(
                old(table)@.map_values(|r: PodSyscalls| spec_syscall_row_view(r)),
                bviews.take(i as int),
            ),
        decreases batch@.len() - i,
    {
        let ghost tviews0 = table@.map_values(|r: PodSyscalls| spec_syscall_row_view(r));
        let w = &batch[i];
        let ghost wv = bviews[i as int];
        proof {
            assert(wv == spec_syscall_input_view(batch@[i as int]));
        }
        let joined = join_strings(&w.syscalls);
        let row_idx = w.get_row(table);
        let found = row_idx.is_some();
        if found {
            let mut k: usize = 0;
            while k < table.len()
                invariant
                    k <= table@.len(),
                    table@.len() == tviews0.len(),
                    wv.0 == batch@[i as int].pod_name@,
                    joined@ == spec_join_comma(wv.2),
                    i < batch@.len(),
                    forall|j: int|
                        0 <= j < k ==> spec_syscall_row_view(#[trigger] table@[j]) == (if (
                        tviews0[j]).0 == wv.0 {
                            (tviews0[j].0, tviews0[j].1, spec_join_comma(wv.2), tviews0[j].3,
                            tviews0[j].4)
                        } else {
                            tviews0[j]
                        }),
                    forall|j: int|
                        k <= j < table@.len() ==> spec_syscall_row_view(#[trigger] table@[j])
                            == tviews0[j],
                decreases table@.len() - k,
            {
                if table[k].pod_name == batch[i].pod_name {
                    let updated = PodSyscalls {
                        pod_name: table[k].pod_name.clone(),
                        pod_namespace: table[k].pod_namespace.clone(),
                        syscalls: joined.clone(),
                        arch: table[k].arch.clone(),
                        time_stamp: table[k].time_stamp.clone(),
                    };
                    let ghost ug = updated;
                    table.set(k, updated);
                    proof {
                        assert(spec_syscall_row_view(ug) == (tviews0[k as int].0,
                        tviews0[k as int].1, spec_join_comma(wv.2), tviews0[k as int].3,
                        tviews0[k as int].4));
                    }
                }
                k += 1;
            }
        } else {
            let fresh = PodSyscalls {
                pod_name: batch[i].pod_name.clone(),
                pod_namespace: batch[i].pod_namespace.clone(),
                syscalls: joined,
                arch: batch[i].arch.clone(),
                time_stamp: batch[i].time_stamp.clone(),
            };
            let ghost fg = fresh;
            table.push(fresh);
            proof {
                assert(spec_syscall_row_view(fg) == (wv.0, wv.1, spec_join_comma(wv.2), wv.3,
                wv.4));
            }
        }
        proof {
            let tviews1 = table@.map_values(|r: PodSyscalls| spec_syscall_row_view(r));
            if found {
                let j = row_idx->Some_0 as int;
                assert(spec_triple_match(tviews0[j], wv));
                assert(tviews1 =~= spec_upsert_syscalls(tviews0, wv));
            } else {
                assert(forall|j: int|
                    0 <= j < tviews0.len() ==> !spec_triple_match(#[trigger] tviews0[j], wv));
                assert(tviews1 =~= spec_upsert_syscalls(tviews0, wv));
            }
            lemma_apply_batch_push(
                old(table)@.map_values(|r: PodSyscalls| spec_syscall_row_view(r)),
                bviews.take(i as int),
                wv,
            );
            assert(bviews.take(i as int).push(wv) =~= bviews.take(i + 1));
        }
        i += 1;
    }
    proof {
        assert(bviews.take(bviews.len() as int) =~= bviews);
    }
}

/// The stored table a whole batch leaves behind, records applied in
/// order.
pub open spec fn spec_apply_syscall_batch(
    t: Seq<(Seq<char>, Seq<char>, Seq<char>, Seq<char>, Seq<char>)>,
    b: Seq<(Seq<char>, Seq<char>, Seq<Seq<char>>, Seq<char>, Seq<char>)>,
) -> Seq<(Seq<char>, Seq<char>, Seq<char>, Seq<char>, Seq<char>)>
    decreases b.len(),
{
    if b.len() == 0 {
        t
    } else {
        spec_apply_syscall_batch(spec_upsert_syscalls(t, b[0]), b.drop_first())
    }
}

proof fn lemma_apply_batch_push(
    t: Seq<(Seq<char>, Seq<char>, Seq<char>, Seq<char>, Seq<char>)>,
    b: Seq<(Seq<char>, Seq<char>, Seq<Seq<char>>, Seq<char>, Seq<char>)>,
    w: (Seq<char>, Seq<char>, Seq<Seq<char>>, Seq<char>, Seq<char>),
)
    ensures
        spec_apply_syscall_batch(t, b.push(w)) == spec_upsert_syscalls(
            spec_apply_syscall_batch(t, b),
            w,
        ),
    decreases b.len(),
{
    if b.len() == 0 {
        assert(b.push(w)[0] == w);
        assert(b.push(w).drop_first() =~= b);
        assert(spec_apply_syscall_batch(t, b.push(w)) == spec_apply_syscall_batch(
            spec_upsert_syscalls(t, w),
            b,
        ));
        assert(spec_apply_syscall_batch(spec_upsert_syscalls(t, w), b) == spec_upsert_syscalls(
            t,
            w,
        ));
        assert(spec_apply_syscall_batch(t, b) == t);
    } else {
        assert(b.push(w)[0] == b[0]);
        assert(b.push(w).drop_first() =~= b.drop_first().push(w));
        assert(spec_apply_syscall_batch(t, b.push(w)) == spec_apply_syscall_batch(
            spec_upsert_syscalls(t, b[0]),
            b.drop_first().push(w),
        ));
        lemma_apply_batch_push(spec_upsert_syscalls(t, b[0]), b.drop_first(), w);
        assert(spec_apply_syscall_batch(t, b) == spec_apply_syscall_batch(
            spec_upsert_syscalls(t, b[0]),
            b.drop_first(),
        ));
    }
}

proof fn lemma_upsert_frame(
    t: Seq<(Seq<char>, Seq<char>, Seq<char>, Seq<char>, Seq<char>)>,
    w: (Seq<char>, Seq<char>, Seq<Seq<char>>, Seq<char>, Seq<char>),
)
    ensures
        ({
            let u = spec_upsert_syscalls(t, w);
            &&& t.len() <= u.len() <= t.len() + 1
            &&& forall|j: int|
                0 <= j < t.len() ==> (#[trigger] u[j]).0 == t[j].0 && u[j].1 == t[j].1 && u[j].3
                    == t[j].3 && u[j].4 == t[j].4
            &&& forall|j: int| 0 <= j < t.len() && (#[trigger] t[j]).0 != w.0 ==> u[j] == t[j]
            &&& forall|j: int|
                t.len() <= j < u.len() ==> (#[trigger] u[j]) == (w.0, w.1, spec_join_comma(w.2),
                w.3, w.4)
        }),
{
    let u = spec_upsert_syscalls(t, w);
    if exists|i: int| 0 <= i < t.len() && spec_triple_match(#[trigger] t[i], w) {
        assert forall|j: int| 0 <= j < t.len() implies (#[trigger] u[j]).0 == t[j].0 && u[j].1
            == t[j].1 && u[j].3 == t[j].3 && u[j].4 == t[j].4 by {}
    }
}

proof fn lemma_upsert_keyed(
    t: Seq<(Seq<char>, Seq<char>, Seq<char>, Seq<char>, Seq<char>)>,
    w: (Seq<char>, Seq<char>, Seq<Seq<char>>, Seq<char>, Seq<char>),
)
    requires
        spec_keyed_for(t, w),
    ensures
        ({
            let u = spec_upsert_syscalls(t, w);
            &&& forall|j: int|
                0 <= j < u.len() && (#[trigger] u[j]).0 == w.0 ==> u[j].1 == w.1 && u[j].3 == w.3
                    && u[j].2 == spec_join_comma(w.2)
            &&& exists|j: int| 0 <= j < u.len() && spec_triple_match(#[trigger] u[j], w)
        }),
{
    let u = spec_upsert_syscalls(t, w);
    let joined = spec_join_comma(w.2);
    if exists|i: int| 0 <= i < t.len() && spec_triple_match(#[trigger] t[i], w) {
        let i = choose|i: int| 0 <= i < t.len() && spec_triple_match(#[trigger] t[i], w);
        assert(u[i] == (t[i].0, t[i].1, joined, t[i].3, t[i].4));
        assert(spec_triple_match(u[i], w));
        assert forall|j: int|
            0 <= j < u.len() && (#[trigger] u[j]).0 == w.0 implies u[j].1 == w.1 && u[j].3 == w.3
            && u[j].2 == joined by {
            assert(t[j].0 == w.0);
        }
    } else {
        assert(u == t.push((w.0, w.1, joined, w.3, w.4)));
        assert(u[t.len() as int] == (w.0, w.1, joined, w.3, w.4));
        assert(spec_triple_match(u[t.len() as int], w));
        assert forall|j: int|
            0 <= j < u.len() && (#[trigger] u[j]).0 == w.0 implies u[j].1 == w.1 && u[j].3 == w.3
            && u[j].2 == joined by {
            if j < t.len() {
                assert(t[j].0 == w.0);
                assert(spec_triple_match(t[j], w));
            }
        }
    }
}

proof fn lemma_batch_frame(
    t: Seq<(Seq<char>, Seq<char>, Seq<char>, Seq<char>, Seq<char>)>,
    b: Seq<(Seq<char>, Seq<char>, Seq<Seq<char>>, Seq<char>, Seq<char>)>,
    n: Seq<char>,
)
    requires
        forall|k: int| 0 <= k < b.len() ==> (#[trigger] b[k]).0 != n,
    ensures
        ({
            let y = spec_apply_syscall_batch(t, b);
            &&& t.len() <= y.len()
            &&& forall|j: int|
                0 <= j < t.len() ==> (#[trigger] y[j]).0 == t[j].0 && y[j].1 == t[j].1 && y[j].3
                    == t[j].3
            &&& forall|j: int| 0 <= j < t.len() && (#[trigger] t[j]).0 == n ==> y[j] == t[j]
            &&& forall|j: int| t.len() <= j < y.len() ==> (#[trigger] y[j]).0 != n
        }),
    decreases b.len(),
{
    if b.len() == 0 {
    } else {
        let x = b[0];
        let t1 = spec_upsert_syscalls(t, x);
        lemma_upsert_frame(t, x);
        assert(forall|k: int|
            0 <= k < b.drop_first().len() ==> (#[trigger] b.drop_first()[k]).0 != n);
        lemma_batch_frame(t1, b.drop_first(), n);
        let y = spec_apply_syscall_batch(t, b);
        assert(y == spec_apply_syscall_batch(t1, b.drop_first()));
        assert forall|j: int| 0 <= j < t.len() && (#[trigger] t[j]).0 == n implies y[j]
            == t[j] by {
            assert(t[j].0 != x.0);
            assert(t1[j] == t[j]);
            assert(t1[j].0 == n);
        }
        assert forall|j: int| t.len() <= j < y.len() implies (#[trigger] y[j]).0 != n by {
            if j < t1.len() {
                assert(t1[j] == (x.0, x.1, spec_join_comma(x.2), x.3, x.4));
                assert(y[j].0 == t1[j].0);
            }
        }
    }
}

/// Receiving the same whole batch twice yields the same collector state:
/// with one record per workload name in the batch and the table keyed by
/// workload name, the second application finds every row the first one
/// wrote and writes the same joined lists again.
pub proof fn lemma_syscall_batch_idempotent(
    t: Seq<(Seq<char>, Seq<char>, Seq<char>, Seq<char>, Seq<char>)>,
    b: Seq<(Seq<char>, Seq<char>, Seq<Seq<char>>, Seq<char>, Seq<char>)>,
)
    requires
        forall|i: int, j: int|
            0 <= i < t.len() && 0 <= j < t.len() && (#[trigger] t[i]).0 == (#[trigger] t[j]).0
                ==> t[i].1 == t[j].1 && t[i].3 == t[j].3,
        forall|k: int| 0 <= k < b.len() ==> spec_keyed_for(t, #[trigger] b[k]),
        forall|k1: int, k2: int|
            0 <= k1 < k2 < b.len() ==> (#[trigger] b[k1]).0 != (#[trigger] b[k2]).0,
    ensures
        spec_apply_syscall_batch(spec_apply_syscall_batch(t, b), b) == spec_apply_syscall_batch(
            t,
            b,
        ),
    decreases b.len(),
{
    if b.len() == 0 {
    } else {
        let x = b[0];
        let r = b.drop_first();
        let joined = spec_join_comma(x.2);
        let t1 = spec_upsert_syscalls(t, x);
        let y = spec_apply_syscall_batch(t1, r);
        assert(spec_apply_syscall_batch(t, b) == y);
        assert(spec_keyed_for(t, x));
        lemma_upsert_frame(t, x);
        lemma_upsert_keyed(t, x);
        // the induction hypothesis applies to the table after the first
        // record
        assert forall|i: int, j: int|
            0 <= i < t1.len() && 0 <= j < t1.len() && (#[trigger] t1[i]).0 == (#[trigger] t1[j]).0
            implies t1[i].1 == t1[j].1 && t1[i].3 == t1[j].3 by {
            if i < t.len() && j < t.len() {
                assert(t[i].0 == t[j].0);
            } else if i < t.len() {
                assert(t1[j].0 == x.0);
                assert(t[i].0 == x.0);
            } else if j < t.len() {
                assert(t1[i].0 == x.0);
                assert(t[j].0 == x.0);
            }
        }
        assert forall|k: int| 0 <= k < r.len() implies spec_keyed_for(t1, #[trigger] r[k]) by {
            assert(r[k] == b[k + 1]);
            assert(spec_keyed_for(t, b[k + 1]));
            assert forall|i: int|
                0 <= i < t1.len() && (#[trigger] t1[i]).0 == r[k].0 implies t1[i].1 == r[k].1
                && t1[i].3 == r[k].3 by {
                if i < t.len() {
                    assert(t[i].0 == r[k].0);
                } else {
                    assert(t1[i].0 == x.0);
                    assert(b[0].0 != b[k + 1].0);
                }
            }
        }
        assert(forall|k1: int, k2: int|
            0 <= k1 < k2 < r.len() ==> (#[trigger] r[k1]).0 != (#[trigger] r[k2]).0) by {
            assert forall|k1: int, k2: int| 0 <= k1 < k2 < r.len() implies (#[trigger] r[k1]).0
                != (#[trigger] r[k2]).0 by {
                assert(r[k1] == b[k1 + 1]);
                assert(r[k2] == b[k2 + 1]);
            }
        }
        lemma_syscall_batch_idempotent(t1, r);
        assert(spec_apply_syscall_batch(y, r) == y);
        // the first record's rows pass through the rest of the batch
        // untouched, so re-upserting it changes nothing
        assert(forall|k: int| 0 <= k < r.len() ==> (#[trigger] r[k]).0 != x.0) by {
            assert forall|k: int| 0 <= k < r.len() implies (#[trigger] r[k]).0 != x.0 by {
                assert(r[k] == b[k + 1]);
                assert(b[0].0 != b[k + 1].0);
            }
        }
        lemma_batch_frame(t1, r, x.0);
        let m = choose|j: int| 0 <= j < t1.len() && spec_triple_match(#[trigger] t1[j], x);
        assert(t1[m].0 == x.0);
        assert(y[m] == t1[m]);
        assert(spec_triple_match(y[m], x));
        let u2 = spec_upsert_syscalls(y, x);
        assert forall|j: int| 0 <= j < y.len() implies (if (#[trigger] y[j]).0 == x.0 {
            (y[j].0, y[j].1, joined, y[j].3, y[j].4)
        } else {
            y[j]
        }) == y[j] by {
            if y[j].0 == x.0 {
                assert(j < t1.len());
                assert(t1[j].0 == x.0);
                assert(y[j] == t1[j]);
                assert(t1[j].1 == x.1 && t1[j].3 == x.3 && t1[j].2 == joined);
            }
        }
        assert(u2 =~= y);
        assert(spec_apply_syscall_batch(y, b) == spec_apply_syscall_batch(u2, r));
        assert(spec_apply_syscall_batch(u2, r) == spec_apply_syscall_batch(y, r));
    }
}

/// The stored table a workload detail record leaves behind.
pub open spec fn spec_upsert_detail(t: Seq<PodDetail>, w: PodDetail) -> Seq<PodDetail> {
    match spec_first_by_name(t, w.pod_name@) {
        Some(i) => t.update(i, w),
        None => t.push(w),
    }
}

/// Re-posting the same workload detail stores it once: the second upsert
/// finds the row the first one wrote and writes it again unchanged, so at
/// most one row per workload identity reaches the table.
pub proof fn lemma_upsert_detail_idempotent(t: Seq<PodDetail>, w: PodDetail)
    ensures
        spec_upsert_detail(spec_upsert_detail(t, w), w) == spec_upsert_detail(t, w),
{
    let t1 = spec_upsert_detail(t, w);
    match spec_first_by_name(t, w.pod_name@) {
        Some(i) => {
            lemma_first_by_name_sound(t, w.pod_name@);
            assert(t1 == t.update(i, w));
            assert(t1[i].pod_name@ == w.pod_name@);
            assert forall|j: int| 0 <= j < i implies (#[trigger] t1[j]).pod_name@
                != w.pod_name@ by {
                lemma_first_is_least(t, w.pod_name@, i, j);
            }
            lemma_first_by_name(t1, w.pod_name@, i);
            assert(spec_upsert_detail(t1, w) == t1.update(i, w));
            assert(t1.update(i, w) =~= t1);
        },
        None => {
            lemma_no_name_no_first(t, w.pod_name@);
            assert(t1 == t.push(w));
            let i = t.len() as int;
            assert(t1[i].pod_name@ == w.pod_name@);
            assert forall|j: int| 0 <= j < i implies (#[trigger] t1[j]).pod_name@
                != w.pod_name@ by {
                assert(t1[j] == t[j]);
            }
            lemma_first_by_name(t1, w.pod_name@, i);
            assert(spec_upsert_detail(t1, w) == t1.update(i, w));
            assert(t1.update(i, w) =~= t1);
        },
    }
}

proof fn lemma_first_is_least(t: Seq<PodDetail>, name: Seq<char>, i: int, j: int)
    requires
        spec_first_by_name(t, name) == Some(i),
        0 <= i < t.len(),
        0 <= j < i,
    ensures
        t[j].pod_name@ != name,
{
    if t[j].pod_name@ == name {
        lemma_first_witness(t, name, j);
        let c = choose|k: int|
            0 <= k < t.len() && (#[trigger] t[k]).pod_name@ == name && forall|m: int|
                0 <= m < k ==> (#[trigger] t[m]).pod_name@ != name;
        if c < i {
            lemma_first_by_name(t, name, c);
        } else {
            assert(t[j].pod_name@ != name);
        }
    }
}

proof fn lemma_no_name_no_first(t: Seq<PodDetail>, name: Seq<char>)
    requires
        spec_first_by_name(t, name) is None,
    ensures
        forall|j: int| 0 <= j < t.len() ==> (#[trigger] t[j]).pod_name@ != name,
{
    assert forall|j: int| 0 <= j < t.len() implies (#[trigger] t[j]).pod_name@ != name by {
        if t[j].pod_name@ == name {
            assert(exists|k: int| 0 <= k < t.len() && (#[trigger] t[k]).pod_name@ == name);
        }
    }
}

} // verus!
