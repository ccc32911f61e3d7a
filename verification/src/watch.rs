//! The watcher-side rules: which workloads are processed, when a workload
//! or service counts as ready, and the detail records posted when one is.

use vstd::prelude::*;
use crate::model::{PodDetail, SvcDetail};


verus! {

/// One readiness condition of a watched object.
#[derive(Debug, Clone)]
pub struct PodCondition {
    pub type_: String,
    pub status: String,
    pub message: Option<String>,
}

/// The plain fields of a watched workload object that the gating rules
/// read: identity, readiness conditions, container ids, address, and the
/// raw object as rendered JSON.
#[derive(Debug, Clone)]
pub struct PodModel {
    pub name: String,
    pub namespace: Option<String>,
    pub conditions: Option<Vec<PodCondition>>,
    pub container_statuses: Option<Vec<Option<String>>>,
    pub pod_ip: Option<String>,
    pub obj_json: Option<String>,
}

/// The plain fields of a watched service object.
#[derive(Debug, Clone)]
pub struct SvcModel {
    pub name: String,
    pub namespace: Option<String>,
    pub cluster_ip: Option<String>,
    pub conditions: Option<Vec<PodCondition>>,
    pub spec_json: Option<String>,
}

/// Whether a condition reports readiness failed.
pub open spec fn spec_ready_false(c: PodCondition) -> bool {
    c.type_@ == "Ready"@ && c.status@ == "False"@
}

/// Whether any condition of the list reports readiness failed.
pub open spec fn spec_any_ready_false(cs: Option<Vec<PodCondition>>) -> bool {
    cs matches Some(v) && exists|i: int| 0 <= i < v@.len() && spec_ready_false(#[trigger] v@[i])
}

fn ready_false(c: &PodCondition) -> (r: bool)
    ensures
        r == spec_ready_false(*c),
{
    let ready = String::from_str("Ready");
    let f = String::from_str("False");
    c.type_ == ready && c.status == f
}

fn any_ready_false(cs: &Option<Vec<PodCondition>>) -> (r: bool)
    ensures
        r == spec_any_ready_false(*cs),
{
    if cs.is_none() {
        return false;
    }
    let v = cs.as_ref().unwrap();
    proof {
        assert(*cs is Some);
        assert(v == (*cs)->Some_0);
    }
    let mut i: usize = 0;
    while i < v.len()
        invariant
            *cs is Some,
            v == (*cs)->Some_0,
            i <= v@.len(),
            forall|j: int| 0 <= j < i ==> !spec_ready_false(#[trigger] v@[j]),
        decreases v@.len() - i,
    {
        if ready_false(&v[i]) {
            proof {
                assert(spec_ready_false(v@[i as int]));
                assert(spec_any_ready_false(*cs));
            }
            return true;
        }
        i += 1;
    }
    false
}

/// The container ids present among a list of container statuses, in
/// order.
pub open spec fn spec_present_ids(cs: Seq<Option<String>>) -> Seq<String>
    decreases cs.len(),
{
    if cs.len() == 0 {
        Seq::empty()
    } else {
        spec_present_ids(cs.drop_last()) + (match cs.last() {
            Some(id) => seq![id],
            None => Seq::<String>::empty(),
        })
    }
}

/// The readiness gate of the workload watcher: the container ids of a
/// workload whose readiness conditions all hold, nothing for one with a
/// failed readiness condition or no container statuses.
pub fn pod_unready(p: &PodModel) -> (r: Option<Vec<String>>)
    ensures
        match r {
            Some(ids) => !spec_any_ready_false(p.conditions) && (p.container_statuses matches Some(
                cs,
            ) && ids@ == spec_present_ids(cs@)),
            None => spec_any_ready_false(p.conditions) || p.container_statuses is None,
        },
{
    if any_ready_false(&p.conditions) {
        return None;
    }
    match &p.container_statuses {
        Some(cs) => {
            let mut ids: Vec<String> = Vec::new();
            let mut i: usize = 0;
            while i < cs.len()
                invariant
                    i <= cs@.len(),
                    ids@ == spec_present_ids(cs@.take(i as int)),
                decreases cs@.len() - i,
            {
                proof {
                    assert(cs@.take(i + 1).drop_last() =~= cs@.take(i as int));
                    assert(cs@.take(i + 1).last() == cs@[i as int]);
                }
                match &cs[i] {
                    Some(id) => {
                        ids.push(id.clone());
                        proof {
                            assert(ids@ =~= spec_present_ids(cs@.take(i + 1)));
                        }
                    },
                    None => {
                        proof {
                            assert(ids@ =~= spec_present_ids(cs@.take(i + 1)));
                        }
                    },
                }
                i += 1;
            }
            proof {
                assert(cs@.take(cs@.len() as int) =~= cs@);
            }
            Some(ids)
        },
        None => None,
    }
}

/// Whether a workload's namespace is outside the excluded set.
pub open spec fn spec_should_process(namespace: Option<String>) -> bool {
    !(namespace matches Some(ns) && (ns@ == "kube-system"@ || ns@ == "kube-guardian"@))
}

/// The namespace gate: workloads of the agent's own namespaces are not
/// observed.
pub fn should_process_pod(namespace: &Option<String>) -> (r: bool)
    ensures
        r == spec_should_process(*namespace),
{
    match namespace {
        Some(ns) => {
            let a = String::from_str("kube-system");
            let b = String::from_str("kube-guardian");
            !(*ns == a || *ns == b)
        },
        None => true,
    }
}

/// The comma-joined rendering of a list of texts.
pub open spec fn spec_join_comma(ms: Seq<Seq<char>>) -> Seq<char>
    decreases ms.len(),
{
    if ms.len() == 0 {
        Seq::empty()
    } else if ms.len() == 1 {
        ms[0]
    } else {
        spec_join_comma(ms.drop_last()) + ","@ + ms.last()
    }
}

/// The messages of the conditions that report readiness failed, in
/// order, an absent message reading as empty.
pub open spec fn spec_failed_messages(cs: Seq<PodCondition>) -> Seq<Seq<char>>
    decreases cs.len(),
{
    if cs.len() == 0 {
        Seq::empty()
    } else {
        spec_failed_messages(cs.drop_last()) + (if spec_ready_false(cs.last()) {
            seq![
                match cs.last().message {
                    Some(m) => m@,
                    None => Seq::<char>::empty(),
                },
            ]
        } else {
            Seq::<Seq<char>>::empty()
        })
    }
}

fn join_failed_messages(cs: &Vec<PodCondition>) -> (r: String)
    ensures
        r@ == spec_join_comma(spec_failed_messages(cs@)),
{
    let mut out = String::new();
    let mut count: usize = 0;
    let mut i: usize = 0;
    while i < cs.len()
        invariant
            i <= cs@.len(),
            count <= i,
            count == spec_failed_messages(cs@.take(i as int)).len(),
            out@ == spec_join_comma(spec_failed_messages(cs@.take(i as int))),
        decreases cs@.len() - i,
    {
        proof {
            assert(cs@.take(i + 1).drop_last() =~= cs@.take(i as int));
            assert(cs@.take(i + 1).last() == cs@[i as int]);
        }
        if ready_false(&cs[i]) {
            if count > 0 {
                out.append(",");
            }
            match &cs[i].message {
                Some(m) => out.append(m.as_str()),
                None => {},
            }
            proof {
                let ms0 = spec_failed_messages(cs@.take(i as int));
                let ms1 = spec_failed_messages(cs@.take(i + 1));
                let last = (match cs@[i as int].message {
                    Some(m) => m@,
                    None => Seq::<char>::empty(),
                });
                assert(ms1 == ms0 + seq![last]);
                if ms0.len() == 0 {
                    assert(ms1.len() == 1 && ms1[0] == last);
                    assert(out@ =~= spec_join_comma(ms1));
                } else {
                    assert(ms1.drop_last() =~= ms0);
                    assert(ms1.last() == last);
                    assert(out@ =~= spec_join_comma(ms1));
                }
            }
            count = count + 1;
        } else {
            proof {
                assert(spec_failed_messages(cs@.take(i + 1)) =~= spec_failed_messages(
                    cs@.take(i as int),
                ));
            }
        }
        i += 1;
    }
    proof {
        assert(cs@.take(cs@.len() as int) =~= cs@);
    }
    out
}

/// The readiness gate of the service watcher: the reason a service is not
/// ready, or nothing for a ready one.
pub fn svc_unready(s: &SvcModel) -> (r: Option<String>)
    ensures
        match r {
            Some(reason) => spec_any_ready_false(s.conditions) && (s.conditions matches Some(cs)
                && reason@ == "Unready Service "@ + s.name@ + ": "@ + spec_join_comma(
                spec_failed_messages(cs@),
            )),
            None => !spec_any_ready_false(s.conditions),
        },
{
    if !any_ready_false(&s.conditions) {
        return None;
    }
    match &s.conditions {
        Some(cs) => {
            let mut out = String::from_str("Unready Service ");
            out.append(s.name.as_str());
            out.append(": ");
            let joined = join_failed_messages(cs);
            out.append(joined.as_str());
            Some(out)
        },
        None => None,
    }
}

/// Builds the workload detail record posted on each applied event, for a
/// workload that has an address; one without an address yields nothing.
pub fn build_pod_detail(p: &PodModel, time_stamp: String) -> (r: Option<PodDetail>)
    ensures
        match r {
            Some(d) => p.pod_ip matches Some(ip) && d.pod_ip == ip && d.pod_name == p.name
                && d.pod_namespace == p.namespace && d.pod_obj == p.obj_json && d.time_stamp
                == time_stamp,
            None => p.pod_ip is None,
        },
{
    match &p.pod_ip {
        Some(ip) => Some(
            PodDetail {
                pod_ip: ip.clone(),
                pod_name: p.name.clone(),
                pod_namespace: p.namespace.clone(),
                pod_obj: p.obj_json.clone(),
                time_stamp,
            },
        ),
        None => None,
    }
}


/// Whether the workload's namespace stands in the operator's exclusion
/// set.
pub open spec fn spec_in_exclusions(excluded: Seq<String>, namespace: Option<String>) -> bool {
    namespace matches Some(ns) && exists|i: int|
        0 <= i < excluded.len() && (#[trigger] excluded[i])@ == ns@
}

fn in_exclusions(excluded: &Vec<String>, namespace: &Option<String>) -> (r: bool)
    ensures
        r == spec_in_exclusions(excluded@, *namespace),
{
    match namespace.as_ref() {
        Some(ns) => {
            let mut i: usize = 0;
            while i < excluded.len()
                invariant
                    i <= excluded@.len(),
                    *namespace is Some,
                    (*namespace)->Some_0@ == ns@,
                    forall|j: int| 0 <= j < i ==> (#[trigger] excluded@[j])@ != ns@,
                decreases excluded@.len() - i,
            {
                if excluded[i] == *ns {
                    return true;
                }
                i += 1;
            }
            false
        },
        None => false,
    }
}

/// What the registry does with one applied workload event: the container
/// ids to resolve and the detail record to post, or nothing at all for a
/// workload that is dropped.
pub struct PodDecision {
    pub container_ids: Vec<String>,
    pub detail: PodDetail,
    pub pod_ip: String,
}

/// Applies the registry's gates in order to one applied workload event:
/// a workload in the exclusion set, one with a failed readiness
/// condition, one without container statuses, or one without an address
/// is dropped outright — nothing is posted and nothing is registered for
/// it.  Only a workload that passes every gate yields its container ids
/// and its detail record.
pub fn process_pod(p: &PodModel, excluded: &Vec<String>, time_stamp: String) -> (r: Option<
    PodDecision,
>)
    ensures
        (r is Some <==> (!spec_in_exclusions(excluded@, p.namespace) && !spec_any_ready_false(
            p.conditions,
        ) && p.container_statuses is Some && p.pod_ip is Some)),
        r matches Some(d) ==> {
            &&& (p.container_statuses matches Some(cs) && d.container_ids@ == spec_present_ids(
                cs@,
            ))
            &&& (p.pod_ip matches Some(ip) && d.pod_ip == ip && d.detail.pod_ip == ip)
            &&& d.detail.pod_name == p.name
            &&& d.detail.pod_namespace == p.namespace
            &&& d.detail.pod_obj == p.obj_json
            &&& d.detail.time_stamp == time_stamp
        },
{
    if in_exclusions(excluded, &p.namespace) {
        return None;
    }
    let container_ids = match pod_unready(p) {
        Some(ids) => ids,
        None => {
            return None;
        },
    };
    match build_pod_detail(p, time_stamp) {
        Some(detail) => {
            let pod_ip = detail.pod_ip.clone();
            Some(PodDecision { container_ids, detail, pod_ip })
        },
        None => None,
    }
}

/// Builds the service detail record posted on each applied event, for a
/// service that has a cluster address; one without yields nothing.
pub fn build_svc_detail(s: &SvcModel, time_stamp: String) -> (r: Option<SvcDetail>)
    ensures
        match r {
            Some(d) => s.cluster_ip matches Some(ip) && d.svc_ip == ip && d.svc_name == s.name
                && d.svc_namespace == s.namespace && d.service_spec == s.spec_json && d.time_stamp
                == time_stamp,
            None => s.cluster_ip is None,
        },
{
    match &s.cluster_ip {
        Some(ip) => Some(
            SvcDetail {
                svc_ip: ip.clone(),
                svc_name: s.name.clone(),
                svc_namespace: s.namespace.clone(),
                service_spec: s.spec_json.clone(),
                time_stamp,
            },
        ),
        None => None,
    }
}

} // verus!
