//! The data model of managed services: manifests, instances and status.

use vstd::prelude::*;

use crate::ordered::entry_views;
use crate::text::{i64_decimal, string_from};

verus! {

/// `std::time::SystemTime`, carried through unchanged.
#[verifier::external_type_specification]
#[verifier::external_body]
pub struct ExSystemTime(std::time::SystemTime);

/// `SystemTime::clone`: `SystemTime` is `Copy`, so the clone is the same
/// instant.
pub assume_specification[ <std::time::SystemTime as Clone>::clone ](t: &std::time::SystemTime) -> (r: std::time::SystemTime)
    ensures
        r == *t,
;

/// An optional string, by its characters.
pub open spec fn opt_text(o: Option<String>) -> Option<Seq<char>> {
    match o {
        Some(s) => Some(s@),
        None => None,
    }
}

/// A list of strings, by their characters.
pub open spec fn texts(v: Seq<String>) -> Seq<Seq<char>> {
    v.map_values(|s: String| s@)
}

/// Copies a list of strings.
pub fn copy_strings(v: &Vec<String>) -> (out: Vec<String>)
    ensures
        out@ == v@,
{
    let mut out: Vec<String> = Vec::new();
    let mut i: usize = 0;
    while i < v.len()
        invariant
            i <= v.len(),
            out@ == v@.take(i as int),
        decreases v.len() - i,
    {
        out.push(v[i].clone());
        i = i + 1;
        proof {
            assert(v@.take(i as int) =~= v@.take(i - 1).push(v@[i - 1]));
        }
    }
    proof {
        assert(v@.take(v@.len() as int) =~= v@);
    }
    out
}

/// Copies a list of string pairs.
pub fn copy_pairs(v: &Vec<(String, String)>) -> (out: Vec<(String, String)>)
    ensures
        out@ == v@,
{
    let mut out: Vec<(String, String)> = Vec::new();
    let mut i: usize = 0;
    while i < v.len()
        invariant
            i <= v.len(),
            out@ == v@.take(i as int),
        decreases v.len() - i,
    {
        out.push((v[i].0.clone(), v[i].1.clone()));
        i = i + 1;
        proof {
            assert(v@.take(i as int) =~= v@.take(i - 1).push(v@[i - 1]));
        }
    }
    proof {
        assert(v@.take(v@.len() as int) =~= v@);
    }
    out
}

/// Copies an optional string.
pub fn copy_opt(o: &Option<String>) -> (out: Option<String>)
    ensures
        out == *o,
{
    match o {
        Some(s) => Some(s.clone()),
        None => None,
    }
}

/// The runtime that hosts a service.
#[derive(Debug, Clone, Copy, PartialEq, Eq, Structural)]
pub enum RuntimeKind {
    Docker,
    Wasmtime,
    External,
}

/// How a wasmtime component is run.
#[derive(Debug, Clone, Copy, PartialEq, Eq, Structural)]
pub enum ServiceRunMode {
    Command,
    Http,
}

/// Where a service's workload comes from.
#[derive(Debug, Clone)]
pub enum ServiceSource {
    Docker { image: String },
    WasmtimeFile { component: String },
    WasmtimeUrl { url: String },
    ExistingTcp { host: String, port: u16 },
}

/// How a service is offered to other devices.
#[derive(Debug, Clone)]
pub struct ServiceExpose {
    pub transport: ServiceExposeTransport,
    pub usage: Option<ServiceExposeUsage>,
    pub icon_url: Option<String>,
    pub catalog_id: Option<String>,
}

/// The transport an exposed service uses.
#[derive(Debug, Clone, Copy, PartialEq, Eq, Structural)]
pub struct ServiceExposeTransport {
    pub kind: ServiceExposeTransportKind,
}

#[derive(Debug, Clone, Copy, PartialEq, Eq, Structural)]
pub enum ServiceExposeTransportKind {
    Tcp,
    Raw,
}

/// What a client does with an exposed service.
#[derive(Debug, Clone)]
pub struct ServiceExposeUsage {
    pub kind: ServiceExposeUsageKind,
    pub path: Option<String>,
}

#[derive(Debug, Clone, Copy, PartialEq, Eq, Structural)]
pub enum ServiceExposeUsageKind {
    Web,
    Ssh,
    Raw,
}

/// A host directory made visible to the workload.
#[derive(Debug, Clone)]
pub struct ServiceMount {
    pub host_path: String,
    pub runtime_path: String,
}

/// A published port of a service.
#[derive(Debug, Clone)]
pub struct ServicePort {
    pub name: Option<String>,
    pub host_port: u16,
    pub host_port_allocation: ServicePortAllocation,
    pub service_port: u16,
    pub protocol: ServicePortProtocol,
}

/// Whether a host port was chosen by the node or written in the manifest.
#[derive(Debug, Clone, Copy, PartialEq, Eq, Structural)]
pub enum ServicePortAllocation {
    Auto,
    Fixed,
}

#[derive(Debug, Clone, Copy, PartialEq, Eq, Structural)]
pub enum ServicePortProtocol {
    Tcp,
    Udp,
}

/// A resolved service definition.
#[derive(Debug, Clone)]
pub struct ServiceManifest {
    pub name: String,
    pub definition_id: Option<String>,
    pub runtime: RuntimeKind,
    pub run_mode: ServiceRunMode,
    pub source: ServiceSource,
    pub expose: Option<ServiceExpose>,
    pub env: Vec<(String, String)>,
    pub mounts: Vec<ServiceMount>,
    pub ports: Vec<ServicePort>,
    pub command: Vec<String>,
    pub entrypoint: Vec<String>,
    pub working_dir: Option<String>,
    pub labels: Vec<(String, String)>,
}

/// What a manifest resolution may use from the node: host ports that the
/// operating system offered, in the order it offered them.
#[derive(Debug, Clone, Default)]
pub struct ManifestResolutionPolicy {
    pub ephemeral_host_ports: Vec<u16>,
}

/// A service as a runtime reports it.
#[derive(Debug, Clone)]
pub struct ServiceInstance {
    pub id: String,
    pub runtime: RuntimeKind,
    pub name: String,
    pub definition_id: Option<String>,
    pub source: String,
    pub labels: Vec<(String, String)>,
    pub ports: Vec<ServicePort>,
    pub exposed_endpoints: Vec<ServiceExposeEndpointBinding>,
    pub status: ServiceStatus,
}

/// The lifecycle phase of a service.
#[derive(Debug, Clone, Copy, PartialEq, Eq, Structural)]
pub enum ServicePhase {
    Running,
    Stopped,
    Exited,
    Missing,
    Unknown,
}

/// The name of a phase.
pub open spec fn phase_name(p: ServicePhase) -> Seq<char> {
    match p {
        ServicePhase::Running => "running"@,
        ServicePhase::Stopped => "stopped"@,
        ServicePhase::Exited => "exited"@,
        ServicePhase::Missing => "missing"@,
        ServicePhase::Unknown => "unknown"@,
    }
}

impl ServicePhase {
    /// The phase's lower-case name.
    pub fn as_str(self) -> (r: &'static str)
        ensures
            r@ == phase_name(self),
    {
        match self {
            ServicePhase::Running => "running",
            ServicePhase::Stopped => "stopped",
            ServicePhase::Exited => "exited",
            ServicePhase::Missing => "missing",
            ServicePhase::Unknown => "unknown",
        }
    }
}

/// A phase with an optional human-readable detail.
#[derive(Debug, Clone)]
pub struct ServiceStatus {
    pub phase: ServicePhase,
    pub detail: Option<String>,
}

/// The detail an exit code gives: `exited(<code>)`.
pub open spec fn exit_detail(code: int) -> Seq<char> {
    "exited("@.add(crate::text::signed_decimal(code)).add(")"@)
}

/// The label a status shows: its detail when it has one, else its phase.
pub open spec fn status_label(s: ServiceStatus) -> Seq<char> {
    match s.detail {
        Some(d) => d@,
        None => phase_name(s.phase),
    }
}

impl ServiceStatus {
    pub fn running() -> (r: Self)
        ensures
            r.phase == ServicePhase::Running,
            r.detail is None,
    {
        Self::new(ServicePhase::Running)
    }

    pub fn stopped() -> (r: Self)
        ensures
            r.phase == ServicePhase::Stopped,
            r.detail is None,
    {
        Self::new(ServicePhase::Stopped)
    }

    /// An exited status; a known exit code becomes the detail `exited(<code>)`.
    pub fn exited(exit_code: Option<i32>) -> (r: Self)
        ensures
            r.phase == ServicePhase::Exited,
            match exit_code {
                Some(code) => r.detail is Some && r.detail->0@ == exit_detail(code as int),
                None => r.detail is None,
            },
    {
        let detail = match exit_code {
            Some(code) => {
                let digits = i64_decimal(code as i64);
                let mut chars: Vec<char> = Vec::new();
                chars.push('e');
                chars.push('x');
                chars.push('i');
                chars.push('t');
                chars.push('e');
                chars.push('d');
                chars.push('(');
                let mut k: usize = 0;
                while k < digits.len()
                    invariant
                        k <= digits.len(),
                        chars@ =~= seq!['e', 'x', 'i', 't', 'e', 'd', '('].add(digits@.take(k as int)),
                    decreases digits.len() - k,
                {
                    chars.push(digits[k]);
                    k = k + 1;
                    proof {
                        assert(digits@.take(k as int) =~= digits@.take(k - 1).push(digits@[k - 1]));
                    }
                }
                chars.push(')');
                proof {
                    reveal_strlit("exited(");
                    reveal_strlit(")");
                    assert(digits@.take(digits@.len() as int) =~= digits@);
                    assert(chars@ =~= exit_detail(code as int));
                }
                Some(string_from(chars.as_slice()))
            },
            None => None,
        };
        Self::new(ServicePhase::Exited).with_optional_detail(detail)
    }

    pub fn missing() -> (r: Self)
        ensures
            r.phase == ServicePhase::Missing,
            r.detail is None,
    {
        Self::new(ServicePhase::Missing)
    }

    pub fn unknown() -> (r: Self)
        ensures
            r.phase == ServicePhase::Unknown,
            r.detail is None,
    {
        Self::new(ServicePhase::Unknown)
    }

    pub fn new(phase: ServicePhase) -> (r: Self)
        ensures
            r.phase == phase,
            r.detail is None,
    {
        Self { phase, detail: None }
    }

    /// The same status with `detail` as its detail.
    pub fn with_detail(self, detail: &str) -> (r: Self)
        ensures
            r.phase == self.phase,
            r.detail is Some,
            r.detail->0@ == detail@,
    {
        let mut s = self;
        s.detail = Some(detail.to_owned());
        s
    }

    /// The same status with the given optional detail.
    pub fn with_optional_detail(self, detail: Option<String>) -> (r: Self)
        ensures
            r.phase == self.phase,
            r.detail == detail,
    {
        let mut s = self;
        s.detail = detail;
        s
    }

    pub fn is_running(&self) -> (r: bool)
        ensures
            r == (self.phase == ServicePhase::Running),
    {
        self.phase == ServicePhase::Running
    }

    /// The detail when there is one, else the phase name.
    pub fn state_label(&self) -> (r: String)
        ensures
            r@ == status_label(*self),
    {
        match &self.detail {
            Some(d) => d.clone(),
            None => self.phase.as_str().to_owned(),
        }
    }

    /// A copy of this status.
    pub fn duplicate(&self) -> (r: Self)
        ensures
            r == *self,
    {
        ServiceStatus { phase: self.phase, detail: copy_opt(&self.detail) }
    }
}

/// The services that one device reports, at one time.
#[derive(Debug, Clone)]
pub struct DeviceServiceSnapshot {
    pub peer_id: String,
    pub services: Vec<DeviceService>,
    pub updated_at: std::time::SystemTime,
}

/// A service as another device sees it.
#[derive(Debug, Clone)]
pub struct DeviceService {
    pub name: String,
    pub runtime: RuntimeKind,
    pub metadata: DeviceServiceMetadata,
    pub endpoints: Vec<DeviceServiceEndpoint>,
    pub status: ServiceStatus,
}

#[derive(Debug, Clone, Default)]
pub struct DeviceServiceMetadata {
    pub usage: Option<ServiceExposeUsage>,
    pub icon_url: Option<String>,
}

#[derive(Debug, Clone)]
pub struct DeviceServiceEndpoint {
    pub name: String,
    pub protocol: String,
}

/// A published endpoint of a service with its host and service ports.
#[derive(Debug, Clone)]
pub struct ServiceExposeEndpointBinding {
    pub name: String,
    pub protocol: String,
    pub host_port: u16,
    pub service_port: u16,
}

#[derive(Debug, Clone, Default)]
pub struct ServiceLogsOptions {
    pub tail: Option<String>,
}

#[derive(Debug, Clone)]
pub struct ServiceLogs {
    pub raw: Vec<u8>,
    pub text: String,
}


// ---------------------------------------------------------------------------
// Views of the manifest types, by the characters of their strings.
// ---------------------------------------------------------------------------

pub enum ServiceSourceView {
    Docker { image: Seq<char> },
    WasmtimeFile { component: Seq<char> },
    WasmtimeUrl { url: Seq<char> },
    ExistingTcp { host: Seq<char>, port: u16 },
}

impl View for ServiceSource {
    type V = ServiceSourceView;

    open spec fn view(&self) -> ServiceSourceView {
        match self {
            ServiceSource::Docker { image } => ServiceSourceView::Docker { image: image@ },
            ServiceSource::WasmtimeFile { component } => ServiceSourceView::WasmtimeFile {
                component: component@,
            },
            ServiceSource::WasmtimeUrl { url } => ServiceSourceView::WasmtimeUrl { url: url@ },
            ServiceSource::ExistingTcp { host, port } => ServiceSourceView::ExistingTcp {
                host: host@,
                port: *port,
            },
        }
    }
}

pub struct ServiceExposeUsageView {
    pub kind: ServiceExposeUsageKind,
    pub path: Option<Seq<char>>,
}

impl View for ServiceExposeUsage {
    type V = ServiceExposeUsageView;

    open spec fn view(&self) -> ServiceExposeUsageView {
        ServiceExposeUsageView { kind: self.kind, path: opt_text(self.path) }
    }
}

pub struct ServiceExposeView {
    pub transport: ServiceExposeTransportKind,
    pub usage: Option<ServiceExposeUsageView>,
    pub icon_url: Option<Seq<char>>,
    pub catalog_id: Option<Seq<char>>,
}

impl View for ServiceExpose {
    type V = ServiceExposeView;

    open spec fn view(&self) -> ServiceExposeView {
        ServiceExposeView {
            transport: self.transport.kind,
            usage: match self.usage {
                Some(u) => Some(u@),
                None => None,
            },
            icon_url: opt_text(self.icon_url),
            catalog_id: opt_text(self.catalog_id),
        }
    }
}

pub struct ServiceMountView {
    pub host_path: Seq<char>,
    pub runtime_path: Seq<char>,
}

impl View for ServiceMount {
    type V = ServiceMountView;

    open spec fn view(&self) -> ServiceMountView {
        ServiceMountView { host_path: self.host_path@, runtime_path: self.runtime_path@ }
    }
}

pub struct ServicePortView {
    pub name: Option<Seq<char>>,
    pub host_port: u16,
    pub host_port_allocation: ServicePortAllocation,
    pub service_port: u16,
    pub protocol: ServicePortProtocol,
}

impl View for ServicePort {
    type V = ServicePortView;

    open spec fn view(&self) -> ServicePortView {
        ServicePortView {
            name: opt_text(self.name),
            host_port: self.host_port,
            host_port_allocation: self.host_port_allocation,
            service_port: self.service_port,
            protocol: self.protocol,
        }
    }
}

pub struct ServiceManifestView {
    pub name: Seq<char>,
    pub definition_id: Option<Seq<char>>,
    pub runtime: RuntimeKind,
    pub run_mode: ServiceRunMode,
    pub source: ServiceSourceView,
    pub expose: Option<ServiceExposeView>,
    pub env: Seq<(Seq<char>, Seq<char>)>,
    pub mounts: Seq<ServiceMountView>,
    pub ports: Seq<ServicePortView>,
    pub command: Seq<Seq<char>>,
    pub entrypoint: Seq<Seq<char>>,
    pub working_dir: Option<Seq<char>>,
    pub labels: Seq<(Seq<char>, Seq<char>)>,
}

impl View for ServiceManifest {
    type V = ServiceManifestView;

    open spec fn view(&self) -> ServiceManifestView {
        ServiceManifestView {
            name: self.name@,
            definition_id: opt_text(self.definition_id),
            runtime: self.runtime,
            run_mode: self.run_mode,
            source: self.source@,
            expose: match self.expose {
                Some(e) => Some(e@),
                None => None,
            },
            env: entry_views(self.env@),
            mounts: self.mounts@.map_values(|m: ServiceMount| m@),
            ports: self.ports@.map_values(|p: ServicePort| p@),
            command: texts(self.command@),
            entrypoint: texts(self.entrypoint@),
            working_dir: opt_text(self.working_dir),
            labels: entry_views(self.labels@),
        }
    }
}


// ---------------------------------------------------------------------------
// Copies that keep the view.
// ---------------------------------------------------------------------------

impl ServiceSource {
    /// A copy of this source.
    pub fn duplicate(&self) -> (r: Self)
        ensures
            r@ == self@,
    {
        match self {
            ServiceSource::Docker { image } => ServiceSource::Docker { image: image.clone() },
            ServiceSource::WasmtimeFile { component } => ServiceSource::WasmtimeFile {
                component: component.clone(),
            },
            ServiceSource::WasmtimeUrl { url } => ServiceSource::WasmtimeUrl { url: url.clone() },
            ServiceSource::ExistingTcp { host, port } => ServiceSource::ExistingTcp {
                host: host.clone(),
                port: *port,
            },
        }
    }
}

impl ServiceExposeUsage {
    /// A copy of this usage.
    pub fn duplicate(&self) -> (r: Self)
        ensures
            r@ == self@,
    {
        ServiceExposeUsage { kind: self.kind, path: copy_opt(&self.path) }
    }
}

impl ServiceExpose {
    /// A copy of this expose section.
    pub fn duplicate(&self) -> (r: Self)
        ensures
            r@ == self@,
    {
        ServiceExpose {
            transport: ServiceExposeTransport { kind: self.transport.kind },
            usage: match &self.usage {
                Some(u) => Some(u.duplicate()),
                None => None,
            },
            icon_url: copy_opt(&self.icon_url),
            catalog_id: copy_opt(&self.catalog_id),
        }
    }
}

impl ServicePort {
    /// A copy of this port.
    pub fn duplicate(&self) -> (r: Self)
        ensures
            r@ == self@,
    {
        ServicePort {
            name: copy_opt(&self.name),
            host_port: self.host_port,
            host_port_allocation: self.host_port_allocation,
            service_port: self.service_port,
            protocol: self.protocol,
        }
    }
}

/// Copies a list of ports.
pub fn copy_ports(v: &Vec<ServicePort>) -> (out: Vec<ServicePort>)
    ensures
        out@.map_values(|p: ServicePort| p@) == v@.map_values(|p: ServicePort| p@),
{
    let mut out: Vec<ServicePort> = Vec::new();
    let mut i: usize = 0;
    while i < v.len()
        invariant
            i <= v.len(),
            out@.len() == i,
            forall|j: int| 0 <= j < i ==> (#[trigger] out@[j])@ == v@[j]@,
        decreases v.len() - i,
    {
        out.push(v[i].duplicate());
        i = i + 1;
    }
    proof {
        assert(out@.map_values(|p: ServicePort| p@) =~= v@.map_values(|p: ServicePort| p@));
    }
    out
}

/// Copies a list of mounts.
pub fn copy_mounts(v: &Vec<ServiceMount>) -> (out: Vec<ServiceMount>)
    ensures
        out@.map_values(|m: ServiceMount| m@) == v@.map_values(|m: ServiceMount| m@),
{
    let mut out: Vec<ServiceMount> = Vec::new();
    let mut i: usize = 0;
    while i < v.len()
        invariant
            i <= v.len(),
            out@.len() == i,
            forall|j: int| 0 <= j < i ==> (#[trigger] out@[j])@ == v@[j]@,
        decreases v.len() - i,
    {
        out.push(ServiceMount { host_path: v[i].host_path.clone(), runtime_path: v[i].runtime_path.clone() });
        i = i + 1;
    }
    proof {
        assert(out@.map_values(|m: ServiceMount| m@) =~= v@.map_values(|m: ServiceMount| m@));
    }
    out
}

impl ServiceManifest {
    /// A copy of this manifest.
    pub fn duplicate(&self) -> (r: Self)
        ensures
            r@ == self@,
    {
        ServiceManifest {
            name: self.name.clone(),
            definition_id: copy_opt(&self.definition_id),
            runtime: self.runtime,
            run_mode: self.run_mode,
            source: self.source.duplicate(),
            expose: match &self.expose {
                Some(e) => Some(e.duplicate()),
                None => None,
            },
            env: copy_pairs(&self.env),
            mounts: copy_mounts(&self.mounts),
            ports: copy_ports(&self.ports),
            command: copy_strings(&self.command),
            entrypoint: copy_strings(&self.entrypoint),
            working_dir: copy_opt(&self.working_dir),
            labels: copy_pairs(&self.labels),
        }
    }
}

} // verus!
