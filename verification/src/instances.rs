//! Services as a node reports them: their instances, built from manifests
//! and runtime facts, and the endpoints they publish.

use vstd::prelude::*;

use crate::model::{
    copy_opt, copy_pairs, copy_ports, opt_text, RuntimeKind, ServiceExposeEndpointBinding,
    ServiceExposeTransportKind, ServiceInstance, ServiceManifest, ServiceManifestView, ServicePort,
    ServicePortProtocol, ServicePortView, ServiceSource, ServiceSourceView, ServiceStatus, ServicePhase,
};
use crate::ordered::{chars_lt, entry_views, seq_lt};
use crate::text::{chars_of, concat, concat3, push_str, trim, trim_str, u64_string, decimal};

verus! {

/// The stream protocol a published port of a service is reached by.
pub open spec fn port_protocol_text(service: Seq<char>, port: Seq<char>) -> Seq<char> {
    "/fungi/service/"@ + service + "/"@ + port + "/0.2.0"@
}

/// The stream protocol of port `port_name` of service `service_name`.
pub fn service_port_protocol(service_name: &str, port_name: &str) -> (r: String)
    ensures
        r@ == port_protocol_text(service_name@, port_name@),
{
    let mut r = concat3("/fungi/service/", service_name, "/");
    push_str(&mut r, port_name);
    push_str(&mut r, "/0.2.0");
    r
}

/// An endpoint binding by the characters of its strings.
pub struct EndpointBindingView {
    pub name: Seq<char>,
    pub protocol: Seq<char>,
    pub host_port: u16,
    pub service_port: u16,
}

impl View for ServiceExposeEndpointBinding {
    type V = EndpointBindingView;

    open spec fn view(&self) -> EndpointBindingView {
        EndpointBindingView {
            name: self.name@,
            protocol: self.protocol@,
            host_port: self.host_port,
            service_port: self.service_port,
        }
    }
}

/// A list of endpoint bindings by view.
pub open spec fn binding_views(v: Seq<ServiceExposeEndpointBinding>) -> Seq<EndpointBindingView> {
    v.map_values(|b: ServiceExposeEndpointBinding| b@)
}

/// The binding of each TCP port whose name is not blank, in port order,
/// named by the trimmed port name.
pub open spec fn port_bindings(service: Seq<char>, ports: Seq<ServicePortView>) -> Seq<EndpointBindingView>
    decreases ports.len(),
{
    if ports.len() == 0 {
        Seq::empty()
    } else {
        let rest = port_bindings(service, ports.drop_last());
        let p = ports.last();
        match p.name {
            Some(n) => if p.protocol == ServicePortProtocol::Tcp && trim(n).len() > 0 {
                rest.push(
                    EndpointBindingView {
                        name: trim(n),
                        protocol: port_protocol_text(service, trim(n)),
                        host_port: p.host_port,
                        service_port: p.service_port,
                    },
                )
            } else {
                rest
            },
            None => rest,
        }
    }
}

/// `s`, sorted by name, with `b` put after every binding whose name is not
/// after its own.
pub open spec fn insert_by_name(s: Seq<EndpointBindingView>, b: EndpointBindingView) -> Seq<EndpointBindingView>
    decreases s.len(),
{
    if s.len() == 0 {
        seq![b]
    } else if seq_lt(b.name, s.last().name) {
        insert_by_name(s.drop_last(), b).push(s.last())
    } else {
        s.push(b)
    }
}

/// The stable sort of bindings by name.
pub open spec fn sort_by_name(s: Seq<EndpointBindingView>) -> Seq<EndpointBindingView>
    decreases s.len(),
{
    if s.len() == 0 {
        Seq::empty()
    } else {
        insert_by_name(sort_by_name(s.drop_last()), s.last())
    }
}

/// The endpoints a manifest publishes: none unless it is exposed over TCP;
/// then its port bindings sorted by name.
pub open spec fn expose_bindings(m: ServiceManifestView) -> Seq<EndpointBindingView> {
    match m.expose {
        Some(e) => if e.transport == ServiceExposeTransportKind::Tcp {
            sort_by_name(port_bindings(m.name, m.ports))
        } else {
            Seq::empty()
        },
        None => Seq::empty(),
    }
}

proof fn lemma_insert_by_name_at(s: Seq<EndpointBindingView>, b: EndpointBindingView, j: int)
    requires
        0 <= j <= s.len(),
        forall|k: int| j <= k < s.len() ==> seq_lt(b.name, #[trigger] s[k].name),
        j > 0 ==> !seq_lt(b.name, s[j - 1].name),
    ensures
        insert_by_name(s, b) == s.take(j).push(b) + s.skip(j),
    decreases s.len(),
{
    if s.len() == 0 {
        assert(s.take(j).push(b) + s.skip(j) =~= seq![b]);
    } else if j == s.len() {
        assert(s.take(j).push(b) + s.skip(j) =~= s.push(b));
    } else {
        let t = s.drop_last();
        assert(seq_lt(b.name, s[s.len() - 1].name));
        assert forall|k: int| j <= k < t.len() implies seq_lt(b.name, #[trigger] t[k].name) by {
            assert(t[k] == s[k]);
        }
        if j > 0 {
            assert(t[j - 1] == s[j - 1]);
        }
        lemma_insert_by_name_at(t, b, j);
        assert(insert_by_name(t, b).push(s.last()) =~= s.take(j).push(b) + s.skip(j));
    }
}

/// Puts `b` into `out`, kept sorted by name, after the bindings whose names
/// are not after its own.
fn insert_binding_by_name(out: &mut Vec<ServiceExposeEndpointBinding>, b: ServiceExposeEndpointBinding)
    ensures
        binding_views(final(out)@) == insert_by_name(binding_views(old(out)@), b@),
{
    let ghost s = binding_views(out@);
    let bc = chars_of(b.name.as_str());
    let mut j: usize = out.len();
    while j > 0
        invariant
            j <= out.len(),
            s == binding_views(out@),
            bc@ == b.name@,
            forall|k: int| j <= k < s.len() ==> seq_lt(b.name@, #[trigger] s[k].name),
        ensures
            j <= out.len(),
            s == binding_views(out@),
            forall|k: int| j <= k < s.len() ==> seq_lt(b.name@, #[trigger] s[k].name),
            j > 0 ==> !seq_lt(b.name@, s[j - 1].name),
        decreases j,
    {
        let oc = chars_of(out[j - 1].name.as_str());
        proof {
            assert(s[j - 1].name == out@[j - 1].name@);
        }
        if !chars_lt(&bc, &oc) {
            break;
        }
        j = j - 1;
    }
    proof {
        lemma_insert_by_name_at(s, b@, j as int);
    }
    out.insert(j, b);
    proof {
        assert(binding_views(out@) =~= s.take(j as int).push(b@) + s.skip(j as int));
    }
}

/// The endpoints a manifest publishes; see `expose_bindings`.
pub fn service_expose_endpoint_bindings(manifest: &ServiceManifest) -> (r: Vec<ServiceExposeEndpointBinding>)
    ensures
        binding_views(r@) == expose_bindings(manifest@),
{
    let tcp = match &manifest.expose {
        Some(e) => e.transport.kind == ServiceExposeTransportKind::Tcp,
        None => false,
    };
    if !tcp {
        return Vec::new();
    }
    let ghost ports = manifest@.ports;
    let mut out: Vec<ServiceExposeEndpointBinding> = Vec::new();
    let mut i: usize = 0;
    while i < manifest.ports.len()
        invariant
            i <= manifest.ports.len(),
            ports == manifest@.ports,
            binding_views(out@) == sort_by_name(port_bindings(manifest@.name, ports.take(i as int))),
        decreases manifest.ports.len() - i,
    {
        let port = &manifest.ports[i];
        proof {
            assert(ports.take(i + 1).drop_last() =~= ports.take(i as int));
            assert(ports.take(i + 1).last() == port@);
        }
        if port.protocol == ServicePortProtocol::Tcp {
            if let Some(raw) = &port.name {
                let name = trim_str(raw.as_str());
                if !name.as_str().is_empty() {
                    let protocol = service_port_protocol(manifest.name.as_str(), name.as_str());
                    let binding = ServiceExposeEndpointBinding {
                        name,
                        protocol,
                        host_port: port.host_port,
                        service_port: port.service_port,
                    };
                    proof {
                        let prev = port_bindings(manifest@.name, ports.take(i as int));
                        assert(port_bindings(manifest@.name, ports.take(i + 1)) == prev.push(binding@));
                        assert(prev.push(binding@).drop_last() =~= prev);
                    }
                    insert_binding_by_name(&mut out, binding);
                }
            }
        }
        i = i + 1;
    }
    proof {
        assert(ports.take(ports.len() as int) =~= ports);
    }
    out
}

/// The runtime's name as instance ids use it.
pub open spec fn runtime_name(runtime: RuntimeKind) -> Seq<char> {
    match runtime {
        RuntimeKind::Docker => "docker"@,
        RuntimeKind::Wasmtime => "wasmtime"@,
        RuntimeKind::External => "external"@,
    }
}

/// The id of a service's instance: `<runtime>:<name>`.
pub fn service_instance_id(runtime: RuntimeKind, name: &str) -> (r: String)
    ensures
        r@ == runtime_name(runtime) + ":"@ + name@,
{
    let runtime_text = match runtime {
        RuntimeKind::Docker => "docker",
        RuntimeKind::Wasmtime => "wasmtime",
        RuntimeKind::External => "external",
    };
    concat3(runtime_text, ":", name)
}

/// How a source is shown: the image, file or URL, or `host:port`.
pub open spec fn source_text(source: ServiceSourceView) -> Seq<char> {
    match source {
        ServiceSourceView::Docker { image } => image,
        ServiceSourceView::WasmtimeFile { component } => component,
        ServiceSourceView::WasmtimeUrl { url } => url,
        ServiceSourceView::ExistingTcp { host, port } => host + ":"@ + decimal(port as nat),
    }
}

/// How a source is shown; see `source_text`.
pub fn source_display(source: &ServiceSource) -> (r: String)
    ensures
        r@ == source_text(source@),
{
    match source {
        ServiceSource::Docker { image } => image.clone(),
        ServiceSource::WasmtimeFile { component } => component.clone(),
        ServiceSource::WasmtimeUrl { url } => url.clone(),
        ServiceSource::ExistingTcp { host, port } => {
            let digits = u64_string(*port as u64);
            concat3(host.as_str(), ":", digits.as_str())
        },
    }
}

/// A list of ports by view.
pub open spec fn port_views(v: Seq<ServicePort>) -> Seq<ServicePortView> {
    v.map_values(|p: ServicePort| p@)
}

/// `i` carries what `m` says of the service: its name, definition id,
/// ports and published endpoints.
pub open spec fn carries_manifest(i: ServiceInstance, m: ServiceManifestView) -> bool {
    &&& i.name@ == m.name
    &&& opt_text(i.definition_id) == m.definition_id
    &&& port_views(i.ports@) == m.ports
    &&& binding_views(i.exposed_endpoints@) == expose_bindings(m)
}

/// The instance shown for a service whose runtime has nothing for it.
pub fn missing_instance_from_manifest(manifest: &ServiceManifest) -> (r: ServiceInstance)
    ensures
        r.id@ == runtime_name(manifest.runtime) + ":"@ + manifest.name@,
        r.runtime == manifest.runtime,
        carries_manifest(r, manifest@),
        r.source@ == source_text(manifest@.source),
        entry_views(r.labels@) == manifest@.labels,
        r.status.phase == ServicePhase::Missing && r.status.detail is None,
{
    ServiceInstance {
        id: service_instance_id(manifest.runtime, manifest.name.as_str()),
        runtime: manifest.runtime,
        name: manifest.name.clone(),
        definition_id: copy_opt(&manifest.definition_id),
        source: source_display(&manifest.source),
        labels: copy_pairs(&manifest.labels),
        ports: copy_ports(&manifest.ports),
        exposed_endpoints: service_expose_endpoint_bindings(manifest),
        status: ServiceStatus::missing(),
    }
}

/// A runtime's instance completed from the manifest: the manifest's name,
/// definition id, ports and endpoints, and an id when it has none.
pub fn enrich_instance_from_manifest(instance: ServiceInstance, manifest: &ServiceManifest) -> (r: ServiceInstance)
    ensures
        instance.id@.len() == 0 ==> r.id@ == runtime_name(manifest.runtime) + ":"@ + manifest.name@,
        instance.id@.len() > 0 ==> r.id == instance.id,
        carries_manifest(r, manifest@),
        r.runtime == instance.runtime,
        r.source == instance.source,
        r.labels == instance.labels,
        r.status == instance.status,
{
    let mut instance = instance;
    if instance.id.as_str().is_empty() {
        instance.id = service_instance_id(manifest.runtime, manifest.name.as_str());
    }
    instance.name = manifest.name.clone();
    instance.definition_id = copy_opt(&manifest.definition_id);
    instance.ports = copy_ports(&manifest.ports);
    instance.exposed_endpoints = service_expose_endpoint_bindings(manifest);
    instance
}

/// The instance of an external TCP service: shown by its `host:port`,
/// running when it should be.
pub fn external_instance_from_manifest(manifest: &ServiceManifest, running: bool) -> (r: ServiceInstance)
    ensures
        r.id@ == "external:"@ + manifest.name@,
        r.runtime == RuntimeKind::External,
        carries_manifest(r, manifest@),
        r.source@ == (match manifest@.source {
            ServiceSourceView::ExistingTcp { host, port } => host + ":"@ + decimal(port as nat),
            _ => "external"@,
        }),
        entry_views(r.labels@) == manifest@.labels,
        r.status.phase == (if running { ServicePhase::Running } else { ServicePhase::Stopped }),
        r.status.detail is None,
{
    let source = match &manifest.source {
        ServiceSource::ExistingTcp { .. } => source_display(&manifest.source),
        _ => "external".to_owned(),
    };
    ServiceInstance {
        id: concat("external:", manifest.name.as_str()),
        runtime: RuntimeKind::External,
        name: manifest.name.clone(),
        definition_id: copy_opt(&manifest.definition_id),
        source,
        labels: copy_pairs(&manifest.labels),
        ports: copy_ports(&manifest.ports),
        exposed_endpoints: service_expose_endpoint_bindings(manifest),
        status: if running {
            ServiceStatus::running()
        } else {
            ServiceStatus::stopped()
        },
    }
}

/// The instance of a wasmtime service from what its runtime knows: running
/// while its process is alive, else exited with the last exit code it left,
/// else stopped.
pub fn map_wasmtime_instance(
    handle: &str,
    manifest: &ServiceManifest,
    source_display_text: &str,
    running: bool,
    last_exit_code: Option<i32>,
) -> (r: ServiceInstance)
    ensures
        r.id@ == "wasmtime:"@ + handle@,
        r.runtime == RuntimeKind::Wasmtime,
        r.name@ == manifest@.name,
        opt_text(r.definition_id) == manifest@.definition_id,
        r.source@ == source_display_text@,
        entry_views(r.labels@) == manifest@.labels,
        r.ports@.len() == 0,
        r.exposed_endpoints@.len() == 0,
        running ==> r.status.phase == ServicePhase::Running && r.status.detail is None,
        !running && last_exit_code is Some ==> r.status.phase == ServicePhase::Exited && r.status.detail is Some
            && r.status.detail->0@ == crate::model::exit_detail(last_exit_code->0 as int),
        !running && last_exit_code is None ==> r.status.phase == ServicePhase::Stopped && r.status.detail is None,
{
    let status = if running {
        ServiceStatus::running()
    } else if let Some(code) = last_exit_code {
        ServiceStatus::exited(Some(code))
    } else {
        ServiceStatus::stopped()
    };
    ServiceInstance {
        id: concat("wasmtime:", handle),
        runtime: RuntimeKind::Wasmtime,
        name: manifest.name.clone(),
        definition_id: copy_opt(&manifest.definition_id),
        source: source_display_text.to_owned(),
        labels: copy_pairs(&manifest.labels),
        ports: Vec::new(),
        exposed_endpoints: Vec::new(),
        status,
    }
}

/// Whether a manifest publishes any TCP port.
pub fn has_tcp_ports(manifest: &ServiceManifest) -> (r: bool)
    ensures
        r == exists|i: int| 0 <= i < manifest@.ports.len() && #[trigger] manifest@.ports[i].protocol == ServicePortProtocol::Tcp,
{
    let mut i: usize = 0;
    while i < manifest.ports.len()
        invariant
            i <= manifest.ports.len(),
            forall|j: int| 0 <= j < i ==> #[trigger] manifest@.ports[j].protocol != ServicePortProtocol::Tcp,
        decreases manifest.ports.len() - i,
    {
        if manifest.ports[i].protocol == ServicePortProtocol::Tcp {
            proof {
                assert(manifest@.ports[i as int].protocol == ServicePortProtocol::Tcp);
            }
            return true;
        }
        i = i + 1;
    }
    false
}

/// Why a manifest cannot run on wasmtime: its runtime, then its source.
pub open spec fn wasmtime_manifest_error(runtime: RuntimeKind, source: ServiceSourceView) -> Option<Seq<char>> {
    if runtime != RuntimeKind::Wasmtime {
        Some("service manifest runtime does not match wasmtime provider"@)
    } else {
        match source {
            ServiceSourceView::WasmtimeFile { component } => if component.len() == 0 {
                Some("wasmtime component path must not be empty"@)
            } else {
                None
            },
            ServiceSourceView::WasmtimeUrl { url } => if trim(url).len() == 0 {
                Some("wasmtime source url must not be empty"@)
            } else {
                None
            },
            _ => Some("wasmtime runtime requires a wasm component source"@),
        }
    }
}

/// Checks that a manifest can run on wasmtime: its runtime is wasmtime and
/// its source a non-empty component path or a non-blank URL.
pub fn ensure_wasmtime_manifest(manifest: &ServiceManifest) -> (r: Result<(), String>)
    ensures
        r is Ok <==> manifest.runtime == RuntimeKind::Wasmtime && match manifest@.source {
            ServiceSourceView::WasmtimeFile { component } => component.len() > 0,
            ServiceSourceView::WasmtimeUrl { url } => trim(url).len() > 0,
            _ => false,
        },
        match r {
            Ok(_) => wasmtime_manifest_error(manifest.runtime, manifest@.source) is None,
            Err(e) => wasmtime_manifest_error(manifest.runtime, manifest@.source) == Some(e@),
        },
{
    if manifest.runtime != RuntimeKind::Wasmtime {
        return Err("service manifest runtime does not match wasmtime provider".to_owned());
    }
    match &manifest.source {
        ServiceSource::WasmtimeFile { component } => {
            if component.as_str().is_empty() {
                return Err("wasmtime component path must not be empty".to_owned());
            }
            Ok(())
        },
        ServiceSource::WasmtimeUrl { url } => {
            if trim_str(url.as_str()).as_str().is_empty() {
                return Err("wasmtime source url must not be empty".to_owned());
            }
            Ok(())
        },
        _ => Err("wasmtime runtime requires a wasm component source".to_owned()),
    }
}

/// Whether a manifest with definition id `next` may replace a service
/// created from definition id `previous`: not when the service had one and
/// the new manifest has another, or none.
pub open spec fn definition_ids_compatible(previous: Option<Seq<char>>, next: Option<Seq<char>>) -> bool {
    match previous {
        Some(p) => next == Some(p),
        None => true,
    }
}

/// The refusal to overwrite service `name`, created from definition id
/// `previous`, with a manifest of definition id `next` or of none.
pub open spec fn definition_mismatch_message(name: Seq<char>, previous: Seq<char>, next: Option<Seq<char>>) -> Seq<
    char,
> {
    "service '"@ + name + "' was created from definition id '"@ + previous + match next {
        Some(n) => "' and cannot be overwritten with definition id '"@ + n
            + "'; use a different service name or remove the existing service first"@,
        None => "' and cannot be overwritten by a manifest without a definition id; use a matching .fungi.md service file or remove the existing service first"@,
    }
}

/// Checks that service `name`, created from definition id `previous`, may
/// be overwritten by a manifest with definition id `next`.
pub fn ensure_matching_definition_id(name: &str, previous: Option<&str>, next: Option<&str>) -> (r: Result<(), String>)
    ensures
        r is Ok <==> definition_ids_compatible(
            match previous { Some(p) => Some(p@), None => None },
            match next { Some(n) => Some(n@), None => None },
        ),
        r matches Err(e) ==> previous matches Some(p) && e@ == definition_mismatch_message(
            name@,
            p@,
            match next { Some(n) => Some(n@), None => None },
        ),
{
    match previous {
        Some(previous_id) => match next {
            Some(next_id) => {
                if crate::text::str_eq(previous_id, next_id) {
                    Ok(())
                } else {
                    let mut msg = concat3("service '", name, "' was created from definition id '");
                    push_str(&mut msg, previous_id);
                    push_str(&mut msg, "' and cannot be overwritten with definition id '");
                    push_str(&mut msg, next_id);
                    push_str(
                        &mut msg,
                        "'; use a different service name or remove the existing service first",
                    );
                    Err(msg)
                }
            },
            None => {
                let mut msg = concat3("service '", name, "' was created from definition id '");
                push_str(&mut msg, previous_id);
                push_str(
                    &mut msg,
                    "' and cannot be overwritten by a manifest without a definition id; use a matching .fungi.md service file or remove the existing service first",
                );
                Err(msg)
            },
        },
        None => Ok(()),
    }
}

/// Checks that `next` may replace `previous`; see
/// `definition_ids_compatible`.
pub fn ensure_definition_id_compatible(previous: &ServiceManifest, next: &ServiceManifest) -> (r: Result<(), String>)
    ensures
        r is Ok <==> definition_ids_compatible(previous@.definition_id, next@.definition_id),
        r matches Err(e) ==> previous@.definition_id matches Some(p) && e@ == definition_mismatch_message(
            next@.name,
            p,
            next@.definition_id,
        ),
{
    let p = match &previous.definition_id {
        Some(s) => Some(s.as_str()),
        None => None,
    };
    let n = match &next.definition_id {
        Some(s) => Some(s.as_str()),
        None => None,
    };
    ensure_matching_definition_id(next.name.as_str(), p, n)
}

} // verus!
