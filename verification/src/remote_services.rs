//! Using services of other devices through local TCP forwarding: which
//! forwarding rules a remote service gets, and which services the rules
//! stand for.

use vstd::prelude::*;

use crate::model::{copy_opt, opt_text, RuntimeKind, ServiceExposeTransport, ServiceExposeUsage, ServiceStatus};
use crate::ordered::{chars_lt, seq_lt};
use crate::sorting::{stable_sort, stable_sorted};
use crate::text::{chars_eq, chars_of, concat, str_eq};

verus! {

/// A named TCP endpoint of a service another device offers.
#[derive(Debug, Clone)]
pub struct DiscoveredServiceEndpoint {
    pub name: String,
    pub protocol: String,
    pub service_port: u16,
}

/// A service another device offers.
#[derive(Debug, Clone)]
pub struct DiscoveredService {
    pub service_name: String,
    pub service_id: String,
    pub display_name: String,
    pub runtime: RuntimeKind,
    pub transport: ServiceExposeTransport,
    pub usage: Option<ServiceExposeUsage>,
    pub icon_url: Option<String>,
    pub catalog_id: Option<String>,
    pub endpoints: Vec<DiscoveredServiceEndpoint>,
    pub status: ServiceStatus,
}

/// A local listener that forwards to an endpoint of a remote service.
#[derive(Debug, Clone)]
pub struct EnabledRemoteServiceEndpoint {
    pub name: String,
    pub protocol: String,
    pub local_host: String,
    pub local_port: u16,
}

/// A remote service reachable through local listeners.
#[derive(Debug, Clone)]
pub struct EnabledRemoteService {
    pub peer_id: String,
    pub service_id: String,
    pub service_name: String,
    pub endpoints: Vec<EnabledRemoteServiceEndpoint>,
}

/// A local listener of a saved access to an endpoint of a remote service.
#[derive(Debug, Clone)]
pub struct ServiceAccessEndpoint {
    pub name: String,
    pub protocol: String,
    pub local_host: String,
    pub local_port: u16,
    pub remote_port: u16,
}

/// The saved local access to a remote service.
#[derive(Debug, Clone)]
pub struct ServiceAccess {
    pub peer_id: String,
    pub service_id: String,
    pub service_name: String,
    pub endpoints: Vec<ServiceAccessEndpoint>,
}

/// A TCP forwarding rule: a local listener whose connections go to a peer,
/// over a stream protocol or to a port, possibly for a remote service's
/// endpoint.
#[derive(Debug, Clone)]
pub struct TcpForwardingRule {
    pub local_host: String,
    pub local_port: u16,
    pub remote_peer_id: String,
    pub remote_protocol: Option<String>,
    pub remote_port: u16,
    pub remote_service_id: Option<String>,
    pub remote_service_name: Option<String>,
    pub remote_service_port_name: Option<String>,
}

/// The position of the offered service with id `service_id`; an error when
/// there is none, or when it has no endpoints to forward to.
pub fn find_enableable_service(services: &Vec<DiscoveredService>, service_id: &str) -> (r: Result<usize, String>)
    ensures
        match r {
            Ok(i) => i < services@.len() && services@[i as int].service_id@ == service_id@
                && services@[i as int].endpoints@.len() > 0 && forall|j: int|
                0 <= j < i ==> (#[trigger] services@[j]).service_id@ != service_id@,
            Err(e) => (forall|j: int| 0 <= j < services@.len() ==> (#[trigger] services@[j]).service_id@ != service_id@)
                && e@ == "remote service not found: "@ + service_id@ || exists|i: int|
                0 <= i < services@.len() && (#[trigger] services@[i]).service_id@ == service_id@
                    && services@[i].endpoints@.len() == 0 && (forall|j: int|
                    0 <= j < i ==> (#[trigger] services@[j]).service_id@ != service_id@) && e@
                    == "remote service exposes no named TCP endpoints: "@ + service_id@,
        },
{
    let mut i: usize = 0;
    while i < services.len()
        invariant
            i <= services.len(),
            forall|j: int| 0 <= j < i ==> (#[trigger] services@[j]).service_id@ != service_id@,
        decreases services.len() - i,
    {
        if str_eq(services[i].service_id.as_str(), service_id) {
            if services[i].endpoints.len() == 0 {
                return Err(concat("remote service exposes no named TCP endpoints: ", services[i].service_id.as_str()));
            }
            return Ok(i);
        }
        i = i + 1;
    }
    Err(concat("remote service not found: ", service_id))
}

/// Rule `r` already forwards endpoint `endpoint` of service `service_id` of
/// peer `peer_id`.
pub open spec fn forwards_endpoint(r: TcpForwardingRule, peer_id: Seq<char>, service_id: Seq<char>, endpoint: Seq<char>) -> bool {
    r.remote_peer_id@ == peer_id && opt_text(r.remote_service_id) == Some(service_id) && opt_text(
        r.remote_service_port_name,
    ) == Some(endpoint)
}

/// Whether an optional string holds `s`.
fn opt_is(o: &Option<String>, s: &str) -> (r: bool)
    ensures
        r == (opt_text(*o) == Some(s@)),
{
    match o {
        Some(v) => str_eq(v.as_str(), s),
        None => false,
    }
}

/// The first rule that already forwards an endpoint of a remote service.
pub fn existing_endpoint_forward(
    rules: &Vec<(String, TcpForwardingRule)>,
    peer_id: &str,
    service_id: &str,
    endpoint: &str,
) -> (r: Option<usize>)
    ensures
        match r {
            Some(i) => i < rules@.len() && forwards_endpoint(rules@[i as int].1, peer_id@, service_id@, endpoint@)
                && forall|j: int| 0 <= j < i ==> !forwards_endpoint(#[trigger] rules@[j].1, peer_id@, service_id@, endpoint@),
            None => forall|j: int| 0 <= j < rules@.len() ==> !forwards_endpoint(#[trigger] rules@[j].1, peer_id@, service_id@, endpoint@),
        },
{
    let mut i: usize = 0;
    while i < rules.len()
        invariant
            i <= rules.len(),
            forall|j: int| 0 <= j < i ==> !forwards_endpoint(#[trigger] rules@[j].1, peer_id@, service_id@, endpoint@),
        decreases rules.len() - i,
    {
        let rule = &rules[i].1;
        if str_eq(rule.remote_peer_id.as_str(), peer_id) && opt_is(&rule.remote_service_id, service_id) && opt_is(
            &rule.remote_service_port_name,
            endpoint,
        ) {
            return Some(i);
        }
        i = i + 1;
    }
    None
}

/// The local port for a new forward: the preferred port when it is set,
/// not reserved and free on the loopback interface, else the first port the
/// operating system offered that is not reserved.
pub fn allocate_local_forward_port(
    preferred_port: u16,
    preferred_port_free: bool,
    offered_ports: &Vec<u16>,
    reserved_ports: &Vec<u16>,
) -> (r: Result<u16, String>)
    ensures
        preferred_port != 0 && !reserved_ports@.contains(preferred_port) && preferred_port_free ==> r == Ok::<
            u16,
            String,
        >(preferred_port),
        !(preferred_port != 0 && !reserved_ports@.contains(preferred_port) && preferred_port_free) ==> match r {
            Ok(p) => exists|i: int|
                0 <= i < offered_ports@.len() && offered_ports@[i] == p && !reserved_ports@.contains(p) && forall|j: int|
                    0 <= j < i ==> reserved_ports@.contains(#[trigger] offered_ports@[j]),
            Err(e) => (forall|j: int| 0 <= j < offered_ports@.len() ==> reserved_ports@.contains(#[trigger] offered_ports@[j]))
                && e@ == "failed to allocate a free local TCP port for remote service forwarding"@,
        },
{
    if preferred_port != 0 && !contains_port(reserved_ports, preferred_port) && preferred_port_free {
        return Ok(preferred_port);
    }
    let mut i: usize = 0;
    while i < offered_ports.len()
        invariant
            i <= offered_ports.len(),
            !(preferred_port != 0 && !reserved_ports@.contains(preferred_port) && preferred_port_free),
            forall|j: int| 0 <= j < i ==> reserved_ports@.contains(#[trigger] offered_ports@[j]),
        decreases offered_ports.len() - i,
    {
        let port = offered_ports[i];
        if !contains_port(reserved_ports, port) {
            return Ok(port);
        }
        i = i + 1;
    }
    Err("failed to allocate a free local TCP port for remote service forwarding".to_owned())
}

/// Whether a port list holds `port`.
pub fn contains_port(ports: &Vec<u16>, port: u16) -> (r: bool)
    ensures
        r == ports@.contains(port),
{
    let mut i: usize = 0;
    while i < ports.len()
        invariant
            i <= ports.len(),
            forall|j: int| 0 <= j < i ==> ports@[j] != port,
        decreases ports.len() - i,
    {
        if ports[i] == port {
            proof {
                assert(ports@[i as int] == port);
            }
            return true;
        }
        i = i + 1;
    }
    false
}

/// The forwarding rule that makes endpoint `endpoint` of a remote service
/// reachable on the loopback port `local_port`.
pub fn endpoint_forwarding_rule(
    peer_id: &str,
    service: &DiscoveredService,
    endpoint: &DiscoveredServiceEndpoint,
    local_port: u16,
) -> (r: TcpForwardingRule)
    ensures
        r.local_host@ == "127.0.0.1"@,
        r.local_port == local_port,
        r.remote_peer_id@ == peer_id@,
        r.remote_protocol == Some(endpoint.protocol),
        r.remote_port == 0,
        r.remote_service_id == Some(service.service_id),
        r.remote_service_name == Some(service.service_name),
        r.remote_service_port_name == Some(endpoint.name),
{
    TcpForwardingRule {
        local_host: "127.0.0.1".to_owned(),
        local_port,
        remote_peer_id: peer_id.to_owned(),
        remote_protocol: Some(endpoint.protocol.clone()),
        remote_port: 0,
        remote_service_id: Some(service.service_id.clone()),
        remote_service_name: Some(service.service_name.clone()),
        remote_service_port_name: Some(endpoint.name.clone()),
    }
}

/// The position of the first rule that forwards an endpoint.
pub open spec fn forward_index(
    rules: Seq<(String, TcpForwardingRule)>,
    peer_id: Seq<char>,
    service_id: Seq<char>,
    endpoint: Seq<char>,
) -> Option<int>
    decreases rules.len(),
{
    if rules.len() == 0 {
        None
    } else if forwards_endpoint(rules[0].1, peer_id, service_id, endpoint) {
        Some(0)
    } else {
        match forward_index(rules.drop_first(), peer_id, service_id, endpoint) {
            Some(i) => Some(i + 1),
            None => None,
        }
    }
}

/// The first offered port that is not reserved.
pub open spec fn first_unreserved(offered: Seq<u16>, reserved: Seq<u16>) -> Option<u16>
    decreases offered.len(),
{
    if offered.len() == 0 {
        None
    } else if !reserved.contains(offered[0]) {
        Some(offered[0])
    } else {
        first_unreserved(offered.drop_first(), reserved)
    }
}

/// The local port a new forward gets; see `allocate_local_forward_port`.
pub open spec fn chosen_local_port(preferred: u16, preferred_free: bool, offered: Seq<u16>, reserved: Seq<u16>) -> Option<
    u16,
> {
    if preferred != 0 && !reserved.contains(preferred) && preferred_free {
        Some(preferred)
    } else {
        first_unreserved(offered, reserved)
    }
}

/// How an endpoint of a remote service is reached locally.
#[derive(Debug, Clone)]
pub enum EndpointAccess {
    /// Through the listener of a rule that already forwards to it.
    Existing { local_host: String, local_port: u16 },
    /// Through a new forwarding rule listening on this loopback port.
    New { local_port: u16 },
}

pub enum EndpointAccessView {
    Existing { local_host: Seq<char>, local_port: u16 },
    New { local_port: u16 },
}

impl View for EndpointAccess {
    type V = EndpointAccessView;

    open spec fn view(&self) -> EndpointAccessView {
        match self {
            EndpointAccess::Existing { local_host, local_port } => EndpointAccessView::Existing {
                local_host: local_host@,
                local_port: *local_port,
            },
            EndpointAccess::New { local_port } => EndpointAccessView::New { local_port: *local_port },
        }
    }
}

/// An access plan by view.
pub open spec fn access_views(v: Seq<EndpointAccess>) -> Seq<EndpointAccessView> {
    v.map_values(|a: EndpointAccess| a@)
}

/// How each endpoint of a remote service is reached, in endpoint order: an
/// endpoint some rule already forwards keeps that rule's listener; any
/// other gets a new loopback port, its service port when that is free and
/// not reserved, else the first offered port not reserved, and the port is
/// reserved from then on. None when a port cannot be found.
pub open spec fn access_plan(
    rules: Seq<(String, TcpForwardingRule)>,
    peer_id: Seq<char>,
    service_id: Seq<char>,
    endpoints: Seq<DiscoveredServiceEndpoint>,
    preferred_free: Seq<bool>,
    offered: Seq<u16>,
    reserved: Seq<u16>,
) -> Option<Seq<EndpointAccessView>>
    decreases endpoints.len(),
{
    if endpoints.len() == 0 {
        Some(Seq::empty())
    } else {
        let e = endpoints[0];
        match forward_index(rules, peer_id, service_id, e.name@) {
            Some(i) => match access_plan(
                rules,
                peer_id,
                service_id,
                endpoints.drop_first(),
                preferred_free.drop_first(),
                offered,
                reserved,
            ) {
                Some(rest) => Some(
                    seq![EndpointAccessView::Existing { local_host: rules[i].1.local_host@, local_port: rules[i].1.local_port }]
                        + rest,
                ),
                None => None,
            },
            None => match chosen_local_port(e.service_port, preferred_free[0], offered, reserved) {
                Some(p) => match access_plan(
                    rules,
                    peer_id,
                    service_id,
                    endpoints.drop_first(),
                    preferred_free.drop_first(),
                    offered,
                    reserved.push(p),
                ) {
                    Some(rest) => Some(seq![EndpointAccessView::New { local_port: p }] + rest),
                    None => None,
                },
                None => None,
            },
        }
    }
}

/// The local ports of the rules, as a reserved list.
pub open spec fn rule_ports(rules: Seq<(String, TcpForwardingRule)>) -> Seq<u16> {
    rules.map_values(|r: (String, TcpForwardingRule)| r.1.local_port)
}

proof fn lemma_forward_index(
    rules: Seq<(String, TcpForwardingRule)>,
    peer_id: Seq<char>,
    service_id: Seq<char>,
    endpoint: Seq<char>,
)
    ensures
        match forward_index(rules, peer_id, service_id, endpoint) {
            Some(i) => 0 <= i < rules.len() && forwards_endpoint(rules[i].1, peer_id, service_id, endpoint) && forall|j: int|
                0 <= j < i ==> !forwards_endpoint(#[trigger] rules[j].1, peer_id, service_id, endpoint),
            None => forall|j: int| 0 <= j < rules.len() ==> !forwards_endpoint(#[trigger] rules[j].1, peer_id, service_id, endpoint),
        },
    decreases rules.len(),
{
    if rules.len() > 0 {
        lemma_forward_index(rules.drop_first(), peer_id, service_id, endpoint);
        assert forall|j: int| 0 < j < rules.len() implies rules[j] == rules.drop_first()[j - 1] by {}
    }
}

proof fn lemma_first_unreserved(offered: Seq<u16>, reserved: Seq<u16>)
    ensures
        match first_unreserved(offered, reserved) {
            Some(p) => exists|i: int|
                0 <= i < offered.len() && offered[i] == p && !reserved.contains(p) && forall|j: int|
                    0 <= j < i ==> reserved.contains(#[trigger] offered[j]),
            None => forall|j: int| 0 <= j < offered.len() ==> reserved.contains(#[trigger] offered[j]),
        },
    decreases offered.len(),
{
    if offered.len() > 0 {
        lemma_first_unreserved(offered.drop_first(), reserved);
        assert forall|j: int| 0 < j < offered.len() implies offered[j] == offered.drop_first()[j - 1] by {}
        if reserved.contains(offered[0]) {
            match first_unreserved(offered.drop_first(), reserved) {
                Some(p) => {
                    let i = choose|i: int|
                        0 <= i < offered.drop_first().len() && offered.drop_first()[i] == p && !reserved.contains(p)
                            && forall|j: int| 0 <= j < i ==> reserved.contains(#[trigger] offered.drop_first()[j]);
                    assert forall|j: int| 0 <= j < i + 1 implies reserved.contains(#[trigger] offered[j]) by {
                        if j > 0 {
                            assert(offered[j] == offered.drop_first()[j - 1]);
                        }
                    }
                    assert(offered[i + 1] == p);
                },
                None => {},
            }
        } else {
            assert(offered[0] == offered[0]);
        }
    }
}

/// The listeners through which a remote service's endpoints are reached;
/// see `access_plan`, started from the ports of the existing rules.
/// Whether each endpoint's service port is free on this host, and the
/// ports the host offers otherwise, come from the caller.
pub fn plan_endpoint_access(
    peer_id: &str,
    service: &DiscoveredService,
    rules: &Vec<(String, TcpForwardingRule)>,
    preferred_free: &Vec<bool>,
    offered_ports: &Vec<u16>,
) -> (r: Result<Vec<EndpointAccess>, String>)
    requires
        preferred_free@.len() == service.endpoints@.len(),
    ensures
        match r {
            Ok(plan) => access_plan(
                rules@,
                peer_id@,
                service.service_id@,
                service.endpoints@,
                preferred_free@,
                offered_ports@,
                rule_ports(rules@),
            ) == Some(access_views(plan@)),
            Err(e) => access_plan(
                rules@,
                peer_id@,
                service.service_id@,
                service.endpoints@,
                preferred_free@,
                offered_ports@,
                rule_ports(rules@),
            ) is None && e@ == "failed to allocate a free local TCP port for remote service forwarding"@,
        },
{
    let ghost eps = service.endpoints@;
    let ghost free = preferred_free@;
    let ghost whole = access_plan(rules@, peer_id@, service.service_id@, eps, free, offered_ports@, rule_ports(rules@));
    let mut reserved: Vec<u16> = Vec::new();
    let mut k: usize = 0;
    while k < rules.len()
        invariant
            k <= rules.len(),
            reserved@ == rule_ports(rules@).take(k as int),
        decreases rules.len() - k,
    {
        reserved.push(rules[k].1.local_port);
        proof {
            assert(rule_ports(rules@).take(k + 1) =~= rule_ports(rules@).take(k as int).push(rules@[k as int].1.local_port));
        }
        k = k + 1;
    }
    proof {
        assert(rule_ports(rules@).take(rules.len() as int) =~= rule_ports(rules@));
    }
    let mut out: Vec<EndpointAccess> = Vec::new();
    let mut i: usize = 0;
    proof {
        assert(eps.skip(0) =~= eps);
        assert(free.skip(0) =~= free);
        assert(access_views(out@) =~= Seq::<EndpointAccessView>::empty());
        match whole {
            Some(t) => {
                assert(access_views(out@) + t =~= t);
            },
            None => {},
        }
    }
    while i < service.endpoints.len()
        invariant
            i <= service.endpoints.len(),
            eps == service.endpoints@,
            free == preferred_free@,
            free.len() == eps.len(),
            whole == access_plan(rules@, peer_id@, service.service_id@, eps, free, offered_ports@, rule_ports(rules@)),
            whole == match access_plan(
                rules@,
                peer_id@,
                service.service_id@,
                eps.skip(i as int),
                free.skip(i as int),
                offered_ports@,
                reserved@,
            ) {
                Some(t) => Some(access_views(out@) + t),
                None => None,
            },
        decreases service.endpoints.len() - i,
    {
        let endpoint = &service.endpoints[i];
        let ghost rest_eps = eps.skip(i as int);
        let ghost rest_free = free.skip(i as int);
        proof {
            assert(rest_eps[0] == eps[i as int]);
            assert(rest_free[0] == free[i as int]);
            assert(rest_eps.drop_first() =~= eps.skip(i + 1));
            assert(rest_free.drop_first() =~= free.skip(i + 1));
            lemma_forward_index(rules@, peer_id@, service.service_id@, endpoint.name@);
        }
        match existing_endpoint_forward(rules, peer_id, service.service_id.as_str(), endpoint.name.as_str()) {
            Some(j) => {
                proof {
                    let fi = forward_index(rules@, peer_id@, service.service_id@, endpoint.name@);
                    if fi != Some(j as int) {
                        let f = fi.unwrap();
                        if f < j {
                            assert(!forwards_endpoint(rules@[f].1, peer_id@, service.service_id@, endpoint.name@));
                        } else {
                            assert(!forwards_endpoint(rules@[j as int].1, peer_id@, service.service_id@, endpoint.name@));
                        }
                    }
                }
                let a = EndpointAccess::Existing {
                    local_host: rules[j].1.local_host.clone(),
                    local_port: rules[j].1.local_port,
                };
                let ghost before = access_views(out@);
                out.push(a);
                proof {
                    assert(access_views(out@) =~= before.push(a@));
                    match access_plan(rules@, peer_id@, service.service_id@, eps.skip(i + 1), free.skip(i + 1), offered_ports@, reserved@) {
                        Some(t) => {
                            assert(before + (seq![a@] + t) =~= access_views(out@) + t);
                        },
                        None => {},
                    }
                }
            },
            None => {
                let chosen = allocate_local_forward_port(endpoint.service_port, preferred_free[i], offered_ports, &reserved);
                proof {
                    lemma_first_unreserved(offered_ports@, reserved@);
                    let c = chosen_local_port(endpoint.service_port, free[i as int], offered_ports@, reserved@);
                    if !(endpoint.service_port != 0 && !reserved@.contains(endpoint.service_port) && free[i as int]) {
                        match chosen {
                            Ok(p) => {
                                let w = choose|w: int|
                                    0 <= w < offered_ports@.len() && offered_ports@[w] == p && !reserved@.contains(p)
                                        && forall|j: int| 0 <= j < w ==> reserved@.contains(#[trigger] offered_ports@[j]);
                                if c != Some(p) {
                                    let q = c.unwrap();
                                    let w2 = choose|w2: int|
                                        0 <= w2 < offered_ports@.len() && offered_ports@[w2] == q && !reserved@.contains(q)
                                            && forall|j: int| 0 <= j < w2 ==> reserved@.contains(#[trigger] offered_ports@[j]);
                                    if w < w2 {
                                        assert(reserved@.contains(offered_ports@[w]));
                                    } else if w2 < w {
                                        assert(reserved@.contains(offered_ports@[w2]));
                                    }
                                }
                            },
                            Err(_) => {
                                if c is Some {
                                    let q = c.unwrap();
                                    let w2 = choose|w2: int|
                                        0 <= w2 < offered_ports@.len() && offered_ports@[w2] == q && !reserved@.contains(q)
                                            && forall|j: int| 0 <= j < w2 ==> reserved@.contains(#[trigger] offered_ports@[j]);
                                    assert(reserved@.contains(offered_ports@[w2]));
                                }
                            },
                        }
                    }
                }
                let port = match chosen {
                    Ok(p) => p,
                    Err(e) => return Err(e),
                };
                let a = EndpointAccess::New { local_port: port };
                let ghost before = access_views(out@);
                out.push(a);
                reserved.push(port);
                proof {
                    assert(access_views(out@) =~= before.push(a@));
                    match access_plan(rules@, peer_id@, service.service_id@, eps.skip(i + 1), free.skip(i + 1), offered_ports@, reserved@) {
                        Some(t) => {
                            assert(before + (seq![a@] + t) =~= access_views(out@) + t);
                        },
                        None => {},
                    }
                }
            },
        }
        i = i + 1;
    }
    proof {
        assert(eps.skip(i as int) =~= Seq::<DiscoveredServiceEndpoint>::empty());
        assert(access_views(out@) + Seq::<EndpointAccessView>::empty() =~= access_views(out@));
    }
    Ok(out)
}

/// The loopback port of a planned access when it opens a new listener.
pub open spec fn new_port(a: EndpointAccessView) -> Option<u16> {
    match a {
        EndpointAccessView::New { local_port } => Some(local_port),
        EndpointAccessView::Existing { .. } => None,
    }
}

/// Every new listener of a plan started from `reserved` takes a port that is
/// not reserved, and no two new listeners share a port.
proof fn lemma_plan_ports_fresh(
    rules: Seq<(String, TcpForwardingRule)>,
    peer_id: Seq<char>,
    service_id: Seq<char>,
    endpoints: Seq<DiscoveredServiceEndpoint>,
    preferred_free: Seq<bool>,
    offered: Seq<u16>,
    reserved: Seq<u16>,
)
    ensures
        match access_plan(rules, peer_id, service_id, endpoints, preferred_free, offered, reserved) {
            Some(t) => (forall|i: int|
                0 <= i < t.len() && (#[trigger] new_port(t[i])) is Some ==> !reserved.contains(new_port(t[i])->0))
                && (forall|i: int, j: int|
                0 <= i < j < t.len() && (#[trigger] new_port(t[i])) is Some && (#[trigger] new_port(t[j])) is Some
                    ==> new_port(t[i]) != new_port(t[j])),
            None => true,
        },
    decreases endpoints.len(),
{
    if endpoints.len() > 0 {
        let e = endpoints[0];
        let rest_eps = endpoints.drop_first();
        let rest_free = preferred_free.drop_first();
        match forward_index(rules, peer_id, service_id, e.name@) {
            Some(k) => {
                lemma_plan_ports_fresh(rules, peer_id, service_id, rest_eps, rest_free, offered, reserved);
                match access_plan(rules, peer_id, service_id, rest_eps, rest_free, offered, reserved) {
                    Some(rest) => {
                        let head = EndpointAccessView::Existing {
                            local_host: rules[k].1.local_host@,
                            local_port: rules[k].1.local_port,
                        };
                        let t = seq![head] + rest;
                        assert forall|i: int| 0 < i < t.len() implies t[i] == rest[i - 1] by {}
                    },
                    None => {},
                }
            },
            None => {
                lemma_first_unreserved(offered, reserved);
                match chosen_local_port(e.service_port, preferred_free[0], offered, reserved) {
                    Some(p) => {
                        lemma_plan_ports_fresh(rules, peer_id, service_id, rest_eps, rest_free, offered, reserved.push(p));
                        assert(!reserved.contains(p));
                        match access_plan(rules, peer_id, service_id, rest_eps, rest_free, offered, reserved.push(p)) {
                            Some(rest) => {
                                let t = seq![EndpointAccessView::New { local_port: p }] + rest;
                                assert forall|i: int| 0 < i < t.len() implies t[i] == rest[i - 1] by {}
                                assert forall|i: int| 0 <= i < t.len() && (#[trigger] new_port(t[i])) is Some
                                    implies !reserved.contains(new_port(t[i])->0) by {
                                    if i > 0 {
                                        let q = new_port(rest[i - 1])->0;
                                        assert(!reserved.push(p).contains(q));
                                        if reserved.contains(q) {
                                            let w = choose|w: int| 0 <= w < reserved.len() && reserved[w] == q;
                                            assert(reserved.push(p)[w] == q);
                                        }
                                    }
                                }
                                assert forall|i: int, j: int|
                                    0 <= i < j < t.len() && (#[trigger] new_port(t[i])) is Some
                                        && (#[trigger] new_port(t[j])) is Some implies new_port(t[i]) != new_port(t[j]) by {
                                    if i == 0 {
                                        let q = new_port(rest[j - 1])->0;
                                        assert(!reserved.push(p).contains(q));
                                        assert(reserved.push(p)[reserved.len() as int] == p);
                                    }
                                }
                            },
                            None => {},
                        }
                    },
                    None => {},
                }
            },
        }
    }
}

/// A remote service's access plan opens each new listener on a port that no
/// existing forwarding rule listens on, and no two new listeners of the plan
/// share a port.
pub proof fn law_planned_ports_are_fresh(
    rules: Seq<(String, TcpForwardingRule)>,
    peer_id: Seq<char>,
    service_id: Seq<char>,
    endpoints: Seq<DiscoveredServiceEndpoint>,
    preferred_free: Seq<bool>,
    offered: Seq<u16>,
)
    ensures
        match access_plan(rules, peer_id, service_id, endpoints, preferred_free, offered, rule_ports(rules)) {
            Some(t) => (forall|i: int|
                0 <= i < t.len() && (#[trigger] new_port(t[i])) is Some ==> !rule_ports(rules).contains(
                    new_port(t[i])->0,
                )) && (forall|i: int, j: int|
                0 <= i < j < t.len() && (#[trigger] new_port(t[i])) is Some && (#[trigger] new_port(t[j])) is Some
                    ==> new_port(t[i]) != new_port(t[j])),
            None => true,
        },
{
    lemma_plan_ports_fresh(rules, peer_id, service_id, endpoints, preferred_free, offered, rule_ports(rules));
}

/// Endpoints are listed by name.
pub open spec fn endpoint_before(a: EnabledRemoteServiceEndpoint, b: EnabledRemoteServiceEndpoint) -> bool {
    seq_lt(a.name@, b.name@)
}

/// Whether endpoint `a` is listed before endpoint `b`.
pub fn endpoint_comes_before(a: &EnabledRemoteServiceEndpoint, b: &EnabledRemoteServiceEndpoint) -> (r: bool)
    ensures
        r == endpoint_before(*a, *b),
{
    chars_lt(&chars_of(a.name.as_str()), &chars_of(b.name.as_str()))
}

/// An enabled remote service with its endpoints in name order.
pub fn enabled_remote_service(
    peer_id: String,
    service_id: String,
    service_name: String,
    endpoints: Vec<EnabledRemoteServiceEndpoint>,
) -> (r: EnabledRemoteService)
    ensures
        r.peer_id == peer_id,
        r.service_id == service_id,
        r.service_name == service_name,
        r.endpoints@ == stable_sorted(
            endpoints@,
            |a: EnabledRemoteServiceEndpoint, b: EnabledRemoteServiceEndpoint| endpoint_before(a, b),
        ),
{
    let endpoints = stable_sort(
        endpoints,
        endpoint_comes_before,
        Ghost(|a: EnabledRemoteServiceEndpoint, b: EnabledRemoteServiceEndpoint| endpoint_before(a, b)),
    );
    EnabledRemoteService { peer_id, service_id, service_name, endpoints }
}

/// The ids of the rules that forward to a service of `peer_id` whose id or
/// name is `matcher`, in rule order.
pub open spec fn rules_to_disable(rules: Seq<(String, TcpForwardingRule)>, peer_id: Seq<char>, matcher: Seq<char>) -> Seq<Seq<char>>
    decreases rules.len(),
{
    if rules.len() == 0 {
        Seq::empty()
    } else {
        let rest = rules_to_disable(rules.drop_last(), peer_id, matcher);
        let r = rules.last().1;
        if r.remote_peer_id@ == peer_id && (opt_text(r.remote_service_id) == Some(matcher) || opt_text(
            r.remote_service_name,
        ) == Some(matcher)) {
            rest.push(rules.last().0@)
        } else {
            rest
        }
    }
}

/// Disabling a remote service removes exactly the rules of that peer whose
/// remote service id or name is the one given: every id returned is the id
/// of a rule of `peer_id` forwarding to that service, the id of every such
/// rule is returned, and no more ids are returned than there are rules.
pub proof fn law_disabled_rules_belong_to_the_peer(
    rules: Seq<(String, TcpForwardingRule)>,
    peer_id: Seq<char>,
    matcher: Seq<char>,
)
    ensures
        rules_to_disable(rules, peer_id, matcher).len() <= rules.len(),
        forall|k: int|
            #![trigger rules_to_disable(rules, peer_id, matcher)[k]]
            0 <= k < rules_to_disable(rules, peer_id, matcher).len() ==> exists|j: int|
                0 <= j < rules.len() && (#[trigger] rules[j]).0@ == rules_to_disable(rules, peer_id, matcher)[k]
                    && rules[j].1.remote_peer_id@ == peer_id && (opt_text(rules[j].1.remote_service_id) == Some(matcher)
                    || opt_text(rules[j].1.remote_service_name) == Some(matcher)),
        forall|j: int|
            0 <= j < rules.len() && (#[trigger] rules[j]).1.remote_peer_id@ == peer_id && (opt_text(
                rules[j].1.remote_service_id,
            ) == Some(matcher) || opt_text(rules[j].1.remote_service_name) == Some(matcher)) ==> rules_to_disable(
                rules,
                peer_id,
                matcher,
            ).contains(rules[j].0@),
    decreases rules.len(),
{
    if rules.len() > 0 {
        let d = rules.drop_last();
        let rest = rules_to_disable(d, peer_id, matcher);
        let out = rules_to_disable(rules, peer_id, matcher);
        law_disabled_rules_belong_to_the_peer(d, peer_id, matcher);
        assert forall|k: int| #![trigger out[k]] 0 <= k < out.len() implies exists|j: int|
            0 <= j < rules.len() && (#[trigger] rules[j]).0@ == out[k] && rules[j].1.remote_peer_id@ == peer_id && (
            opt_text(rules[j].1.remote_service_id) == Some(matcher) || opt_text(rules[j].1.remote_service_name) == Some(
                matcher,
            )) by {
            if k < rest.len() {
                assert(out[k] == rest[k]);
                let j = choose|j: int|
                    0 <= j < d.len() && (#[trigger] d[j]).0@ == rest[k] && d[j].1.remote_peer_id@ == peer_id && (
                    opt_text(d[j].1.remote_service_id) == Some(matcher) || opt_text(d[j].1.remote_service_name) == Some(
                        matcher,
                    ));
                assert(rules[j] == d[j]);
            } else {
                assert(rules[rules.len() - 1] == rules.last());
            }
        }
        assert forall|j: int|
            0 <= j < rules.len() && (#[trigger] rules[j]).1.remote_peer_id@ == peer_id && (opt_text(
                rules[j].1.remote_service_id,
            ) == Some(matcher) || opt_text(rules[j].1.remote_service_name) == Some(matcher)) implies out.contains(
            rules[j].0@,
        ) by {
            if j < d.len() {
                assert(d[j] == rules[j]);
                let k = choose|k: int| 0 <= k < rest.len() && rest[k] == rules[j].0@;
                assert(out[k] == rest[k]);
            } else {
                assert(rules[j] == rules.last());
                assert(out[rest.len() as int] == rules[j].0@);
            }
        }
    }
}

/// The ids of the rules to remove to disable a remote service; see
/// `rules_to_disable`.
pub fn remote_service_rule_ids(rules: &Vec<(String, TcpForwardingRule)>, peer_id: &str, matcher: &str) -> (r: Vec<String>)
    ensures
        r@.map_values(|s: String| s@) == rules_to_disable(rules@, peer_id@, matcher@),
{
    let mut out: Vec<String> = Vec::new();
    let mut i: usize = 0;
    proof {
        assert(rules@.take(0) =~= Seq::<(String, TcpForwardingRule)>::empty());
    }
    while i < rules.len()
        invariant
            i <= rules.len(),
            out@.map_values(|s: String| s@) == rules_to_disable(rules@.take(i as int), peer_id@, matcher@),
        decreases rules.len() - i,
    {
        proof {
            assert(rules@.take(i + 1).drop_last() =~= rules@.take(i as int));
            assert(rules@.take(i + 1).last() == rules@[i as int]);
        }
        let rule = &rules[i].1;
        if str_eq(rule.remote_peer_id.as_str(), peer_id) && (opt_is(&rule.remote_service_id, matcher) || opt_is(
            &rule.remote_service_name,
            matcher,
        )) {
            out.push(rules[i].0.clone());
            proof {
                assert(out@.map_values(|s: String| s@) =~= rules_to_disable(rules@.take(i as int), peer_id@, matcher@).push(
                    rules@[i as int].0@,
                ));
            }
        }
        i = i + 1;
    }
    proof {
        assert(rules@.take(rules@.len() as int) =~= rules@);
    }
    out
}

/// An enabled endpoint by the characters of its strings.
pub struct EnabledEndpointView {
    pub name: Seq<char>,
    pub protocol: Seq<char>,
    pub local_host: Seq<char>,
    pub local_port: u16,
}

impl View for EnabledRemoteServiceEndpoint {
    type V = EnabledEndpointView;

    open spec fn view(&self) -> EnabledEndpointView {
        EnabledEndpointView {
            name: self.name@,
            protocol: self.protocol@,
            local_host: self.local_host@,
            local_port: self.local_port,
        }
    }
}

/// An enabled remote service by the characters of its strings.
pub struct EnabledServiceView {
    pub peer_id: Seq<char>,
    pub service_id: Seq<char>,
    pub service_name: Seq<char>,
    pub endpoints: Seq<EnabledEndpointView>,
}

impl View for EnabledRemoteService {
    type V = EnabledServiceView;

    open spec fn view(&self) -> EnabledServiceView {
        EnabledServiceView {
            peer_id: self.peer_id@,
            service_id: self.service_id@,
            service_name: self.service_name@,
            endpoints: self.endpoints@.map_values(|e: EnabledRemoteServiceEndpoint| e@),
        }
    }
}

/// The key a remote service is grouped by: peer, service id, service name.
pub type ServiceKey = (Seq<char>, Seq<char>, Seq<char>);

/// The endpoint a rule forwards, under its service's key: only rules that
/// name a service id, a service name and an endpoint count, and, when a
/// peer is given, only those to it. A rule without a protocol forwards
/// under the empty one.
pub open spec fn rule_endpoint(rule: TcpForwardingRule, peer_filter: Option<Seq<char>>) -> Option<(ServiceKey, EnabledEndpointView)> {
    match (rule.remote_service_id, rule.remote_service_name, rule.remote_service_port_name) {
        (Some(id), Some(name), Some(port_name)) => if peer_filter matches Some(p) && rule.remote_peer_id@ != p {
            None
        } else {
            Some(
                (
                    (rule.remote_peer_id@, id@, name@),
                    EnabledEndpointView {
                        name: port_name@,
                        protocol: match rule.remote_protocol {
                            Some(p) => p@,
                            None => Seq::empty(),
                        },
                        local_host: rule.local_host@,
                        local_port: rule.local_port,
                    },
                ),
            )
        },
        _ => None,
    }
}

/// The endpoints the rules forward, in rule order; see `rule_endpoint`.
pub open spec fn rule_endpoints(rules: Seq<(String, TcpForwardingRule)>, peer_filter: Option<Seq<char>>) -> Seq<
    (ServiceKey, EnabledEndpointView),
>
    decreases rules.len(),
{
    if rules.len() == 0 {
        Seq::empty()
    } else {
        let rest = rule_endpoints(rules.drop_last(), peer_filter);
        match rule_endpoint(rules.last().1, peer_filter) {
            Some(e) => rest.push(e),
            None => rest,
        }
    }
}

/// Keys in order: by peer, service id, then name.
pub open spec fn key_before(a: ServiceKey, b: ServiceKey) -> bool {
    seq_lt(a.0, b.0) || (a.0 == b.0 && (seq_lt(a.1, b.1) || (a.1 == b.1 && seq_lt(a.2, b.2))))
}

/// Consecutive endpoints with the same key, grouped under it.
pub open spec fn group_runs(s: Seq<(ServiceKey, EnabledEndpointView)>) -> Seq<(ServiceKey, Seq<EnabledEndpointView>)>
    decreases s.len(),
{
    if s.len() == 0 {
        Seq::empty()
    } else {
        let g = group_runs(s.drop_last());
        let (k, e) = s.last();
        if g.len() > 0 && g.last().0 == k {
            g.update(g.len() - 1, (k, g.last().1.push(e)))
        } else {
            g.push((k, seq![e]))
        }
    }
}

/// Endpoint views in order: by name.
pub open spec fn endpoint_view_before(a: EnabledEndpointView, b: EnabledEndpointView) -> bool {
    seq_lt(a.name, b.name)
}

/// Enabled services in order: by peer, then service id.
pub open spec fn service_view_before(a: EnabledServiceView, b: EnabledServiceView) -> bool {
    seq_lt(a.peer_id, b.peer_id) || (a.peer_id == b.peer_id && seq_lt(a.service_id, b.service_id))
}

/// The enabled remote services the forwarding rules stand for: their
/// endpoints grouped by peer, service id and name (in that key order, each
/// group in rule order and then sorted by endpoint name), then sorted by
/// peer and service id.
pub open spec fn enabled_services(rules: Seq<(String, TcpForwardingRule)>, peer_filter: Option<Seq<char>>) -> Seq<
    EnabledServiceView,
> {
    let groups = group_runs(
        stable_sorted(
            rule_endpoints(rules, peer_filter),
            |a: (ServiceKey, EnabledEndpointView), b: (ServiceKey, EnabledEndpointView)| key_before(a.0, b.0),
        ),
    );
    stable_sorted(
        groups.map_values(
            |g: (ServiceKey, Seq<EnabledEndpointView>)|
                EnabledServiceView {
                    peer_id: g.0.0,
                    service_id: g.0.1,
                    service_name: g.0.2,
                    endpoints: stable_sorted(g.1, |a: EnabledEndpointView, b: EnabledEndpointView| endpoint_view_before(a, b)),
                },
        ),
        |a: EnabledServiceView, b: EnabledServiceView| service_view_before(a, b),
    )
}

/// An endpoint under its service key, by view.
pub open spec fn keyed_view(e: ((String, String, String), EnabledRemoteServiceEndpoint)) -> (ServiceKey, EnabledEndpointView) {
    ((e.0.0@, e.0.1@, e.0.2@), e.1@)
}

/// Keyed endpoints in key order.
pub open spec fn keyed_before(a: ((String, String, String), EnabledRemoteServiceEndpoint), b: ((String, String, String), EnabledRemoteServiceEndpoint)) -> bool {
    key_before(keyed_view(a).0, keyed_view(b).0)
}

/// Whether keyed endpoint `a` comes before `b`; see `key_before`.
fn keyed_comes_before(
    a: &((String, String, String), EnabledRemoteServiceEndpoint),
    b: &((String, String, String), EnabledRemoteServiceEndpoint),
) -> (r: bool)
    ensures
        r == keyed_before(*a, *b),
{
    let ap = chars_of(a.0.0.as_str());
    let bp = chars_of(b.0.0.as_str());
    if chars_lt(&ap, &bp) {
        return true;
    }
    if !chars_eq(&ap, &bp) {
        return false;
    }
    let ai = chars_of(a.0.1.as_str());
    let bi = chars_of(b.0.1.as_str());
    if chars_lt(&ai, &bi) {
        return true;
    }
    if !chars_eq(&ai, &bi) {
        return false;
    }
    chars_lt(&chars_of(a.0.2.as_str()), &chars_of(b.0.2.as_str()))
}

/// Enabled services in order, on the services themselves.
pub open spec fn service_before(a: EnabledRemoteService, b: EnabledRemoteService) -> bool {
    service_view_before(a@, b@)
}

/// Whether service `a` comes before `b`; see `service_view_before`.
fn service_comes_before(a: &EnabledRemoteService, b: &EnabledRemoteService) -> (r: bool)
    ensures
        r == service_before(*a, *b),
{
    let ap = chars_of(a.peer_id.as_str());
    let bp = chars_of(b.peer_id.as_str());
    if chars_lt(&ap, &bp) {
        return true;
    }
    if !chars_eq(&ap, &bp) {
        return false;
    }
    chars_lt(&chars_of(a.service_id.as_str()), &chars_of(b.service_id.as_str()))
}

/// The endpoint a rule forwards, under its key; see `rule_endpoint`.
fn keyed_rule_endpoint(rule: &TcpForwardingRule, peer_filter: Option<&str>) -> (r: Option<
    ((String, String, String), EnabledRemoteServiceEndpoint),
>)
    ensures
        match r {
            Some(e) => rule_endpoint(*rule, match peer_filter { Some(p) => Some(p@), None => None }) == Some(keyed_view(e)),
            None => rule_endpoint(*rule, match peer_filter { Some(p) => Some(p@), None => None }) is None,
        },
{
    let id = match &rule.remote_service_id {
        Some(v) => v,
        None => return None,
    };
    let name = match &rule.remote_service_name {
        Some(v) => v,
        None => return None,
    };
    let port_name = match &rule.remote_service_port_name {
        Some(v) => v,
        None => return None,
    };
    if let Some(p) = peer_filter {
        if !str_eq(rule.remote_peer_id.as_str(), p) {
            return None;
        }
    }
    let protocol = match &rule.remote_protocol {
        Some(p) => p.clone(),
        None => String::new(),
    };
    Some(
        (
            (rule.remote_peer_id.clone(), id.clone(), name.clone()),
            EnabledRemoteServiceEndpoint {
                name: port_name.clone(),
                protocol,
                local_host: rule.local_host.clone(),
                local_port: rule.local_port,
            },
        ),
    )
}

/// The enabled remote services the forwarding rules stand for, of one peer
/// when one is given; see `enabled_services`.
pub fn list_enabled_remote_services(rules: &Vec<(String, TcpForwardingRule)>, peer_filter: Option<&str>) -> (r: Vec<
    EnabledRemoteService,
>)
    ensures
        r@.map_values(|s: EnabledRemoteService| s@) == enabled_services(
            rules@,
            match peer_filter {
                Some(p) => Some(p@),
                None => None,
            },
        ),
{
    let ghost filter = match peer_filter {
        Some(p) => Some(p@),
        None => None,
    };
    let mut entries: Vec<((String, String, String), EnabledRemoteServiceEndpoint)> = Vec::new();
    let mut i: usize = 0;
    proof {
        assert(rules@.take(0) =~= Seq::<(String, TcpForwardingRule)>::empty());
        assert(entries@.map_values(|e: ((String, String, String), EnabledRemoteServiceEndpoint)| keyed_view(e))
            =~= Seq::<(ServiceKey, EnabledEndpointView)>::empty());
    }
    while i < rules.len()
        invariant
            i <= rules.len(),
            filter == (match peer_filter {
                Some(p) => Some(p@),
                None => None::<Seq<char>>,
            }),
            entries@.map_values(|e: ((String, String, String), EnabledRemoteServiceEndpoint)| keyed_view(e))
                == rule_endpoints(rules@.take(i as int), filter),
        decreases rules.len() - i,
    {
        proof {
            assert(rules@.take(i + 1).drop_last() =~= rules@.take(i as int));
            assert(rules@.take(i + 1).last() == rules@[i as int]);
        }
        match keyed_rule_endpoint(&rules[i].1, peer_filter) {
            Some(e) => {
                entries.push(e);
                proof {
                    assert(entries@.map_values(|e: ((String, String, String), EnabledRemoteServiceEndpoint)| keyed_view(e))
                        =~= rule_endpoints(rules@.take(i as int), filter).push(keyed_view(e)));
                }
            },
            None => {},
        }
        i = i + 1;
    }
    proof {
        assert(rules@.take(rules@.len() as int) =~= rules@);
    }
    let ghost entry_views = entries@.map_values(|e: ((String, String, String), EnabledRemoteServiceEndpoint)| keyed_view(e));
    let sorted = stable_sort(
        entries,
        keyed_comes_before,
        Ghost(|a: ((String, String, String), EnabledRemoteServiceEndpoint), b: ((String, String, String), EnabledRemoteServiceEndpoint)| keyed_before(a, b)),
    );
    let ghost sorted_views = sorted@.map_values(|e: ((String, String, String), EnabledRemoteServiceEndpoint)| keyed_view(e));
    proof {
        crate::sorting::lemma_stable_sorted_map(
            entries@,
            |e: ((String, String, String), EnabledRemoteServiceEndpoint)| keyed_view(e),
            |a: ((String, String, String), EnabledRemoteServiceEndpoint), b: ((String, String, String), EnabledRemoteServiceEndpoint)| keyed_before(a, b),
            |a: (ServiceKey, EnabledEndpointView), b: (ServiceKey, EnabledEndpointView)| key_before(a.0, b.0),
        );
        assert(sorted_views == stable_sorted(
            rule_endpoints(rules@, filter),
            |a: (ServiceKey, EnabledEndpointView), b: (ServiceKey, EnabledEndpointView)| key_before(a.0, b.0),
        ));
    }
    // Group consecutive endpoints of the same service.
    let mut keys: Vec<(String, String, String)> = Vec::new();
    let mut groups: Vec<Vec<EnabledRemoteServiceEndpoint>> = Vec::new();
    let mut k: usize = 0;
    proof {
        assert(sorted_views.take(0) =~= Seq::<(ServiceKey, EnabledEndpointView)>::empty());
    }
    while k < sorted.len()
        invariant
            k <= sorted.len(),
            sorted_views == sorted@.map_values(|e: ((String, String, String), EnabledRemoteServiceEndpoint)| keyed_view(e)),
            keys@.len() == groups@.len(),
            group_runs(sorted_views.take(k as int)).len() == keys@.len(),
            forall|g: int|
                0 <= g < keys@.len() ==> (#[trigger] group_runs(sorted_views.take(k as int))[g]) == (
                    (keys@[g].0@, keys@[g].1@, keys@[g].2@),
                    groups@[g]@.map_values(|e: EnabledRemoteServiceEndpoint| e@),
                ),
        decreases sorted.len() - k,
    {
        let ghost prev = group_runs(sorted_views.take(k as int));
        proof {
            assert(sorted_views.take(k + 1).drop_last() =~= sorted_views.take(k as int));
            assert(sorted_views.take(k + 1).last() == keyed_view(sorted@[k as int]));
        }
        let entry = &sorted[k];
        let n = keys.len();
        let same = n > 0 && str_eq(keys[n - 1].0.as_str(), entry.0.0.as_str()) && str_eq(
            keys[n - 1].1.as_str(),
            entry.0.1.as_str(),
        ) && str_eq(keys[n - 1].2.as_str(), entry.0.2.as_str());
        let endpoint = EnabledRemoteServiceEndpoint {
            name: entry.1.name.clone(),
            protocol: entry.1.protocol.clone(),
            local_host: entry.1.local_host.clone(),
            local_port: entry.1.local_port,
        };
        if same {
            proof {
                assert(prev.last() == prev[n - 1]);
            }
            let mut last = groups.pop().unwrap();
            let ghost before_push = last@;
            last.push(endpoint);
            groups.push(last);
            proof {
                assert(last@.map_values(|e: EnabledRemoteServiceEndpoint| e@) =~= before_push.map_values(
                    |e: EnabledRemoteServiceEndpoint| e@,
                ).push(entry.1@));
                let nxt = group_runs(sorted_views.take(k + 1));
                assert forall|g: int| 0 <= g < keys@.len() implies (#[trigger] nxt[g]) == (
                    (keys@[g].0@, keys@[g].1@, keys@[g].2@),
                    groups@[g]@.map_values(|e: EnabledRemoteServiceEndpoint| e@),
                ) by {
                    if g < n - 1 {
                        assert(nxt[g] == prev[g]);
                    }
                }
            }
        } else {
            keys.push((entry.0.0.clone(), entry.0.1.clone(), entry.0.2.clone()));
            let mut fresh: Vec<EnabledRemoteServiceEndpoint> = Vec::new();
            fresh.push(endpoint);
            groups.push(fresh);
            proof {
                if n > 0 {
                    assert(prev.last() == prev[n - 1]);
                }
                assert(fresh@.map_values(|e: EnabledRemoteServiceEndpoint| e@) =~= seq![entry.1@]);
                let nxt = group_runs(sorted_views.take(k + 1));
                assert forall|g: int| 0 <= g < keys@.len() implies (#[trigger] nxt[g]) == (
                    (keys@[g].0@, keys@[g].1@, keys@[g].2@),
                    groups@[g]@.map_values(|e: EnabledRemoteServiceEndpoint| e@),
                ) by {
                    if g < n {
                        assert(nxt[g] == prev[g]);
                    }
                }
            }
        }
        k = k + 1;
    }
    proof {
        assert(sorted_views.take(sorted_views.len() as int) =~= sorted_views);
    }
    let ghost grouped = group_runs(sorted_views);
    let ghost as_services = grouped.map_values(
        |g: (ServiceKey, Seq<EnabledEndpointView>)|
            EnabledServiceView {
                peer_id: g.0.0,
                service_id: g.0.1,
                service_name: g.0.2,
                endpoints: stable_sorted(g.1, |a: EnabledEndpointView, b: EnabledEndpointView| endpoint_view_before(a, b)),
            },
    );
    let mut services: Vec<EnabledRemoteService> = Vec::new();
    let mut rest_keys = keys;
    let mut rest_groups = groups;
    let mut m: usize = 0;
    let total = rest_keys.len();
    let ghost all_keys = rest_keys@;
    let ghost all_groups = rest_groups@;
    while rest_keys.len() > 0
        invariant
            m + rest_keys@.len() == total,
            total == all_keys.len(),
            all_keys.len() == all_groups.len(),
            grouped.len() == total,
            rest_keys@ == all_keys.skip(m as int),
            rest_groups@ == all_groups.skip(m as int),
            rest_keys@.len() == rest_groups@.len(),
            forall|g: int|
                0 <= g < total ==> (#[trigger] grouped[g]) == (
                    (all_keys[g].0@, all_keys[g].1@, all_keys[g].2@),
                    all_groups[g]@.map_values(|e: EnabledRemoteServiceEndpoint| e@),
                ),
            services@.len() == m,
            as_services == grouped.map_values(
                |g: (ServiceKey, Seq<EnabledEndpointView>)|
                    EnabledServiceView {
                        peer_id: g.0.0,
                        service_id: g.0.1,
                        service_name: g.0.2,
                        endpoints: stable_sorted(g.1, |a: EnabledEndpointView, b: EnabledEndpointView| endpoint_view_before(a, b)),
                    },
            ),
            forall|g: int| 0 <= g < m ==> (#[trigger] services@[g])@ == as_services[g],
        decreases rest_keys.len(),
    {
        let key = rest_keys.remove(0);
        let group = rest_groups.remove(0);
        proof {
            assert(key == all_keys[m as int]);
            assert(group == all_groups[m as int]);
            assert(rest_keys@ =~= all_keys.skip(m + 1));
            assert(rest_groups@ =~= all_groups.skip(m + 1));
        }
        let ghost group_view = group@;
        let ghost old_services = services@;
        let service = enabled_remote_service(key.0, key.1, key.2, group);
        proof {
            crate::sorting::lemma_stable_sorted_map(
                group_view,
                |e: EnabledRemoteServiceEndpoint| e@,
                |a: EnabledRemoteServiceEndpoint, b: EnabledRemoteServiceEndpoint| endpoint_before(a, b),
                |a: EnabledEndpointView, b: EnabledEndpointView| endpoint_view_before(a, b),
            );
            assert(grouped[m as int] == ((all_keys[m as int].0@, all_keys[m as int].1@, all_keys[m as int].2@), group_view.map_values(
                |e: EnabledRemoteServiceEndpoint| e@,
            )));
            assert(m < grouped.len());
            assert(as_services.len() == grouped.len());
            assert(as_services[m as int].endpoints == stable_sorted(
                grouped[m as int].1,
                |a: EnabledEndpointView, b: EnabledEndpointView| endpoint_view_before(a, b),
            ));
            assert(grouped[m as int].1 == group_view.map_values(|e: EnabledRemoteServiceEndpoint| e@));
            assert(service.endpoints@ == stable_sorted(
                group_view,
                |a: EnabledRemoteServiceEndpoint, b: EnabledRemoteServiceEndpoint| endpoint_before(a, b),
            ));
            assert(as_services[m as int].endpoints == service@.endpoints);
            assert(service@ == as_services[m as int]);
        }
        services.push(service);
        proof {
            assert forall|g: int| 0 <= g < m + 1 implies (#[trigger] services@[g])@ == as_services[g] by {
                if g < m {
                    assert(services@[g] == old_services[g]);
                }
            }
        }
        m = m + 1;
    }
    proof {
        assert(services@.map_values(|s: EnabledRemoteService| s@) =~= as_services);
    }
    let ghost service_views = services@.map_values(|s: EnabledRemoteService| s@);
    let ghost unsorted = services@;
    let out = stable_sort(
        services,
        service_comes_before,
        Ghost(|a: EnabledRemoteService, b: EnabledRemoteService| service_before(a, b)),
    );
    proof {
        crate::sorting::lemma_stable_sorted_map(
            unsorted,
            |s: EnabledRemoteService| s@,
            |a: EnabledRemoteService, b: EnabledRemoteService| service_before(a, b),
            |a: EnabledServiceView, b: EnabledServiceView| service_view_before(a, b),
        );
    }
    out
}

/// `a` is the saved access for the enabled service `s`: the same peer,
/// service and endpoints, each with the local listener of its rule. A rule
/// for a service endpoint forwards over a stream protocol, so no remote
/// port is recorded.
pub open spec fn is_access_of(a: ServiceAccess, s: EnabledServiceView) -> bool {
    &&& a.peer_id@ == s.peer_id
    &&& a.service_id@ == s.service_id
    &&& a.service_name@ == s.service_name
    &&& a.endpoints@.len() == s.endpoints.len()
    &&& forall|j: int|
        0 <= j < s.endpoints.len() ==> {
            let e = #[trigger] a.endpoints@[j];
            &&& e.name@ == s.endpoints[j].name
            &&& e.protocol@ == s.endpoints[j].protocol
            &&& e.local_host@ == s.endpoints[j].local_host
            &&& e.local_port == s.endpoints[j].local_port
            &&& e.remote_port == 0
        }
}

/// The saved accesses to remote services that the forwarding rules stand
/// for, of one peer when one is given: grouped and ordered as
/// `list_enabled_remote_services` lists them.
pub fn list_service_accesses(rules: &Vec<(String, TcpForwardingRule)>, peer_filter: Option<&str>) -> (r: Vec<
    ServiceAccess,
>)
    ensures
        r@.len() == enabled_services(rules@, match peer_filter {
            Some(p) => Some(p@),
            None => None,
        }).len(),
        forall|i: int|
            0 <= i < r@.len() ==> is_access_of(#[trigger] r@[i], enabled_services(rules@, match peer_filter {
                Some(p) => Some(p@),
                None => None,
            })[i]),
{
    let services = list_enabled_remote_services(rules, peer_filter);
    let ghost views = services@.map_values(|s: EnabledRemoteService| s@);
    let mut out: Vec<ServiceAccess> = Vec::new();
    let mut i: usize = 0;
    while i < services.len()
        invariant
            i <= services.len(),
            views == services@.map_values(|s: EnabledRemoteService| s@),
            out@.len() == i,
            forall|k: int| 0 <= k < i ==> is_access_of(#[trigger] out@[k], views[k]),
        decreases services.len() - i,
    {
        let service = &services[i];
        let mut endpoints: Vec<ServiceAccessEndpoint> = Vec::new();
        let mut j: usize = 0;
        while j < service.endpoints.len()
            invariant
                j <= service.endpoints.len(),
                endpoints@.len() == j,
                forall|k: int|
                    0 <= k < j ==> {
                        let e = #[trigger] endpoints@[k];
                        &&& e.name@ == service.endpoints@[k].name@
                        &&& e.protocol@ == service.endpoints@[k].protocol@
                        &&& e.local_host@ == service.endpoints@[k].local_host@
                        &&& e.local_port == service.endpoints@[k].local_port
                        &&& e.remote_port == 0
                    },
            decreases service.endpoints.len() - j,
        {
            let e = &service.endpoints[j];
            endpoints.push(
                ServiceAccessEndpoint {
                    name: e.name.clone(),
                    protocol: e.protocol.clone(),
                    local_host: e.local_host.clone(),
                    local_port: e.local_port,
                    remote_port: 0,
                },
            );
            j = j + 1;
        }
        let access = ServiceAccess {
            peer_id: service.peer_id.clone(),
            service_id: service.service_id.clone(),
            service_name: service.service_name.clone(),
            endpoints,
        };
        proof {
            let v = views[i as int];
            assert(v == service@);
            assert forall|k: int| 0 <= k < v.endpoints.len() implies {
                let e = #[trigger] access.endpoints@[k];
                &&& e.name@ == v.endpoints[k].name
                &&& e.protocol@ == v.endpoints[k].protocol
                &&& e.local_host@ == v.endpoints[k].local_host
                &&& e.local_port == v.endpoints[k].local_port
                &&& e.remote_port == 0
            } by {
                assert(v.endpoints[k] == service.endpoints@[k]@);
            }
        }
        out.push(access);
        proof {
            assert forall|k: int| 0 <= k < i + 1 implies is_access_of(#[trigger] out@[k], views[k]) by {
                if k == i {
                    assert(out@[k] == access);
                }
            }
        }
        i = i + 1;
    }
    out
}

} // verus!
