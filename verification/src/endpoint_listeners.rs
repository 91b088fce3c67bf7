//! The local listeners a node restores when it starts, for the endpoints
//! of the services that run, or should run, on it.

use vstd::prelude::*;

use crate::instances::{binding_views, expose_bindings, service_expose_endpoint_bindings, EndpointBindingView};
use crate::model::{opt_text, ServiceInstance, ServiceManifest, ServiceManifestView, ServicePhase};
use crate::text::str_eq;

verus! {

/// A local listening rule: streams of `protocol` from peers are served by
/// the TCP service at `host:port`.
#[derive(Debug, Clone)]
pub struct ListeningRule {
    pub host: String,
    pub port: u16,
    pub protocol: Option<String>,
}

/// An endpoint list by its host ports and protocol names.
pub open spec fn endpoint_views(s: Seq<(u16, String)>) -> Seq<(u16, Seq<char>)> {
    s.map_values(|e: (u16, String)| (e.0, e.1@))
}

/// Whether a rule listens for an endpoint: on the loopback host, at its
/// port, for its protocol.
pub open spec fn listens_for(rule: ListeningRule, port: u16, protocol: Seq<char>) -> bool {
    rule.host@ == "127.0.0.1"@ && rule.port == port && opt_text(rule.protocol) == Some(protocol)
}

/// Whether some rule listens for an endpoint.
pub open spec fn listener_present(rules: Seq<(String, ListeningRule)>, port: u16, protocol: Seq<char>) -> bool {
    exists|i: int| 0 <= i < rules.len() && listens_for(#[trigger] rules[i].1, port, protocol)
}

/// The endpoints that get a new listener, in order: each one that no rule
/// listens for yet, the first time it comes.
pub open spec fn listeners_to_restore(
    rules: Seq<(String, ListeningRule)>,
    endpoints: Seq<(u16, Seq<char>)>,
) -> Seq<(u16, Seq<char>)>
    decreases endpoints.len(),
{
    if endpoints.len() == 0 {
        Seq::empty()
    } else {
        let rest = listeners_to_restore(rules, endpoints.drop_last());
        let e = endpoints.last();
        if listener_present(rules, e.0, e.1) || endpoints.drop_last().contains(e) {
            rest
        } else {
            rest.push(e)
        }
    }
}

fn rule_listens_for(rule: &ListeningRule, port: u16, protocol: &str) -> (r: bool)
    ensures
        r == listens_for(*rule, port, protocol@),
{
    if !str_eq(rule.host.as_str(), "127.0.0.1") || rule.port != port {
        return false;
    }
    match &rule.protocol {
        Some(p) => str_eq(p.as_str(), protocol),
        None => false,
    }
}

fn has_listener(rules: &Vec<(String, ListeningRule)>, port: u16, protocol: &str) -> (r: bool)
    ensures
        r == listener_present(rules@, port, protocol@),
{
    let mut i: usize = 0;
    while i < rules.len()
        invariant
            i <= rules.len(),
            forall|j: int| 0 <= j < i ==> !listens_for(#[trigger] rules@[j].1, port, protocol@),
        decreases rules.len() - i,
    {
        if rule_listens_for(&rules[i].1, port, protocol) {
            return true;
        }
        i = i + 1;
    }
    false
}

/// The endpoints to open a listener for; see `listeners_to_restore`.
pub fn plan_listener_restores(rules: &Vec<(String, ListeningRule)>, endpoints: &Vec<(u16, String)>) -> (r: Vec<
    (u16, String),
>)
    ensures
        endpoint_views(r@) == listeners_to_restore(rules@, endpoint_views(endpoints@)),
{
    let ghost ev = endpoint_views(endpoints@);
    let mut out: Vec<(u16, String)> = Vec::new();
    let mut i: usize = 0;
    proof {
        assert(ev.take(0) =~= Seq::<(u16, Seq<char>)>::empty());
        assert(endpoint_views(out@) =~= Seq::<(u16, Seq<char>)>::empty());
    }
    while i < endpoints.len()
        invariant
            i <= endpoints.len(),
            ev == endpoint_views(endpoints@),
            endpoint_views(out@) == listeners_to_restore(rules@, ev.take(i as int)),
        decreases endpoints.len() - i,
    {
        let port = endpoints[i].0;
        let protocol = endpoints[i].1.as_str();
        let present = has_listener(rules, port, protocol);
        let mut seen = false;
        let mut j: usize = 0;
        while j < i
            invariant
                j <= i < endpoints.len(),
                ev == endpoint_views(endpoints@),
                port == ev[i as int].0,
                protocol@ == ev[i as int].1,
                seen <==> exists|k: int| 0 <= k < j && ev[k] == ev[i as int],
            decreases i - j,
        {
            if endpoints[j].0 == port && str_eq(endpoints[j].1.as_str(), protocol) {
                seen = true;
            }
            proof {
                assert(ev[j as int] == (endpoints@[j as int].0, endpoints@[j as int].1@));
            }
            j = j + 1;
        }
        proof {
            let t = ev.take(i + 1);
            assert(t.drop_last() =~= ev.take(i as int));
            assert(t.last() == ev[i as int]);
            if seen {
                let k = choose|k: int| 0 <= k < i && ev[k] == ev[i as int];
                assert(ev.take(i as int)[k] == ev[i as int]);
            }
            if ev.take(i as int).contains(ev[i as int]) {
                let k = choose|k: int| 0 <= k < i && ev.take(i as int)[k] == ev[i as int];
                assert(ev[k] == ev[i as int]);
            }
        }
        if !present && !seen {
            let ghost before = endpoint_views(out@);
            out.push((port, endpoints[i].1.clone()));
            proof {
                assert(endpoint_views(out@) =~= before.push(ev[i as int]));
            }
        }
        i = i + 1;
    }
    proof {
        assert(ev.take(endpoints.len() as int) =~= ev);
    }
    out
}

/// A starting node opens a listener for every endpoint that has none, and
/// for no other: never one beside a rule that already listens for the
/// endpoint, and never two for the same endpoint.
pub proof fn law_restored_listeners_are_new_and_complete(
    rules: Seq<(String, ListeningRule)>,
    endpoints: Seq<(u16, Seq<char>)>,
)
    ensures
        ({
            let r = listeners_to_restore(rules, endpoints);
            &&& forall|i: int, j: int| 0 <= i < j < r.len() ==> r[i] != r[j]
            &&& forall|i: int|
                0 <= i < r.len() ==> endpoints.contains(#[trigger] r[i]) && !listener_present(rules, r[i].0, r[i].1)
            &&& forall|i: int|
                0 <= i < endpoints.len() && !listener_present(rules, endpoints[i].0, endpoints[i].1) ==> r.contains(
                    #[trigger] endpoints[i],
                )
        }),
    decreases endpoints.len(),
{
    if endpoints.len() > 0 {
        let dl = endpoints.drop_last();
        let e = endpoints.last();
        law_restored_listeners_are_new_and_complete(rules, dl);
        let rest = listeners_to_restore(rules, dl);
        let r = listeners_to_restore(rules, endpoints);
        assert forall|i: int| 0 <= i < rest.len() implies endpoints.contains(#[trigger] rest[i]) by {
            let k = choose|k: int| 0 <= k < dl.len() && dl[k] == rest[i];
            assert(endpoints[k] == dl[k]);
        }
        assert forall|i: int|
            0 <= i < endpoints.len() && !listener_present(rules, endpoints[i].0, endpoints[i].1) implies r.contains(
            #[trigger] endpoints[i],
        ) by {
            if i < dl.len() {
                assert(endpoints[i] == dl[i]);
                let k = choose|k: int| 0 <= k < rest.len() && rest[k] == dl[i];
                if r != rest {
                    assert(r[k] == rest[k]);
                }
            } else {
                if dl.contains(e) {
                    let k = choose|k: int| 0 <= k < dl.len() && dl[k] == e;
                    assert(rest.contains(dl[k]));
                } else {
                    assert(r[r.len() - 1] == e);
                }
            }
        }
        if !(listener_present(rules, e.0, e.1) || dl.contains(e)) {
            assert forall|i: int| 0 <= i < rest.len() implies rest[i] != e by {
                let k = choose|k: int| 0 <= k < dl.len() && dl[k] == rest[i];
            }
        }
    }
}

/// An endpoint binding by its host port and protocol name.
pub open spec fn binding_endpoints(b: Seq<EndpointBindingView>) -> Seq<(u16, Seq<char>)> {
    b.map_values(|x: EndpointBindingView| (x.host_port, x.protocol))
}

/// The exposed endpoints of the running instances, instance by instance.
pub open spec fn instance_endpoints(instances: Seq<ServiceInstance>) -> Seq<(u16, Seq<char>)>
    decreases instances.len(),
{
    if instances.len() == 0 {
        Seq::empty()
    } else {
        let last = instances.last();
        instance_endpoints(instances.drop_last()) + if last.status.phase == ServicePhase::Running {
            binding_endpoints(binding_views(last.exposed_endpoints@))
        } else {
            Seq::empty()
        }
    }
}

/// The endpoints the manifests publish, manifest by manifest.
pub open spec fn manifest_endpoints(manifests: Seq<ServiceManifestView>) -> Seq<(u16, Seq<char>)>
    decreases manifests.len(),
{
    if manifests.len() == 0 {
        Seq::empty()
    } else {
        manifest_endpoints(manifests.drop_last()) + binding_endpoints(expose_bindings(manifests.last()))
    }
}

fn append_bindings(out: &mut Vec<(u16, String)>, bindings: &Vec<crate::model::ServiceExposeEndpointBinding>)
    ensures
        endpoint_views(final(out)@) == endpoint_views(old(out)@) + binding_endpoints(binding_views(bindings@)),
{
    let ghost start = endpoint_views(out@);
    let ghost bv = binding_endpoints(binding_views(bindings@));
    let mut k: usize = 0;
    while k < bindings.len()
        invariant
            k <= bindings.len(),
            bv == binding_endpoints(binding_views(bindings@)),
            endpoint_views(out@) == start + bv.take(k as int),
        decreases bindings.len() - k,
    {
        let b = &bindings[k];
        let ghost before = endpoint_views(out@);
        out.push((b.host_port, b.protocol.clone()));
        proof {
            assert(bv[k as int] == (bindings@[k as int].host_port, bindings@[k as int].protocol@));
            assert(bv.take(k + 1) =~= bv.take(k as int).push(bv[k as int]));
            assert(endpoint_views(out@) =~= before.push(bv[k as int]));
        }
        k = k + 1;
    }
    proof {
        assert(bv.take(bindings.len() as int) =~= bv);
    }
}

/// The endpoints whose listeners a starting node restores: those the
/// running instances expose, then those the services meant to run publish.
pub fn endpoints_to_restore(running: &Vec<ServiceInstance>, desired_running: &Vec<ServiceManifest>) -> (r: Vec<
    (u16, String),
>)
    ensures
        endpoint_views(r@) == instance_endpoints(running@) + manifest_endpoints(
            desired_running@.map_values(|m: ServiceManifest| m@),
        ),
{
    let mut out: Vec<(u16, String)> = Vec::new();
    let mut i: usize = 0;
    proof {
        assert(running@.take(0) =~= Seq::<ServiceInstance>::empty());
        assert(endpoint_views(out@) =~= Seq::<(u16, Seq<char>)>::empty());
    }
    while i < running.len()
        invariant
            i <= running.len(),
            endpoint_views(out@) == instance_endpoints(running@.take(i as int)),
        decreases running.len() - i,
    {
        let instance = &running[i];
        proof {
            assert(running@.take(i + 1).drop_last() =~= running@.take(i as int));
            assert(running@.take(i + 1).last() == running@[i as int]);
        }
        if instance.status.phase == ServicePhase::Running {
            append_bindings(&mut out, &instance.exposed_endpoints);
        } else {
            proof {
                assert(endpoint_views(out@) =~= endpoint_views(out@) + Seq::<(u16, Seq<char>)>::empty());
            }
        }
        i = i + 1;
    }
    proof {
        assert(running@.take(running.len() as int) =~= running@);
    }
    let ghost from_instances = endpoint_views(out@);
    let ghost mv = desired_running@.map_values(|m: ServiceManifest| m@);
    let mut k: usize = 0;
    proof {
        assert(mv.take(0) =~= Seq::<ServiceManifestView>::empty());
        assert(endpoint_views(out@) =~= from_instances + manifest_endpoints(mv.take(0)));
    }
    while k < desired_running.len()
        invariant
            k <= desired_running.len(),
            mv == desired_running@.map_values(|m: ServiceManifest| m@),
            endpoint_views(out@) == from_instances + manifest_endpoints(mv.take(k as int)),
        decreases desired_running.len() - k,
    {
        let bindings = service_expose_endpoint_bindings(&desired_running[k]);
        proof {
            assert(mv.take(k + 1).drop_last() =~= mv.take(k as int));
            assert(mv.take(k + 1).last() == desired_running@[k as int]@);
        }
        append_bindings(&mut out, &bindings);
        proof {
            assert(endpoint_views(out@) =~= from_instances + manifest_endpoints(mv.take(k + 1)));
        }
        k = k + 1;
    }
    proof {
        assert(mv.take(desired_running.len() as int) =~= mv);
    }
    out
}

} // verus!
