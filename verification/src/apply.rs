//! Applying a manifest on this node: what the apply starts from, and what
//! it reports once the runtime has done its part.

use vstd::prelude::*;

use crate::instances::{definition_ids_compatible, definition_mismatch_message, ensure_definition_id_compatible};
use crate::model::{
    copy_opt, opt_text, status_label, RuntimeKind, ServiceExpose, ServiceInstance, ServiceManifest, ServiceManifestView,
    ServiceMount, ServicePhase, ServicePort, ServiceSource, ServiceStatus,
};
use crate::ordered::entry_views;
use crate::service_control::{
    ServiceApplyFailure, ServiceApplyFailureStage, ServiceApplyOutcome, ServiceManifestChange, ServiceWorkloadAction,
};
use crate::service_state::{allocation_exhausted, is_generated_id, DesiredServiceState, PersistedService, ServiceStateStore};
use crate::text::{concat, push_str, str_eq};

verus! {

broadcast use vstd::laws_cmp::group_laws_cmp;

// ---------------------------------------------------------------------------
// Comparing manifests
// ---------------------------------------------------------------------------

fn opt_str_eq(a: &Option<String>, b: &Option<String>) -> (r: bool)
    ensures
        r == (opt_text(*a) == opt_text(*b)),
{
    match (a, b) {
        (Some(x), Some(y)) => str_eq(x.as_str(), y.as_str()),
        (None, None) => true,
        _ => false,
    }
}

fn strings_eq(a: &Vec<String>, b: &Vec<String>) -> (r: bool)
    ensures
        r == (crate::model::texts(a@) == crate::model::texts(b@)),
{
    if a.len() != b.len() {
        proof {
            assert(crate::model::texts(a@).len() != crate::model::texts(b@).len());
        }
        return false;
    }
    let mut i: usize = 0;
    while i < a.len()
        invariant
            i <= a.len() == b.len(),
            forall|j: int| 0 <= j < i ==> a@[j]@ == b@[j]@,
        decreases a.len() - i,
    {
        if !str_eq(a[i].as_str(), b[i].as_str()) {
            proof {
                assert(crate::model::texts(a@)[i as int] != crate::model::texts(b@)[i as int]);
            }
            return false;
        }
        i = i + 1;
    }
    proof {
        assert(crate::model::texts(a@) =~= crate::model::texts(b@));
    }
    true
}

fn pairs_eq(a: &Vec<(String, String)>, b: &Vec<(String, String)>) -> (r: bool)
    ensures
        r == (entry_views(a@) == entry_views(b@)),
{
    if a.len() != b.len() {
        proof {
            assert(entry_views(a@).len() != entry_views(b@).len());
        }
        return false;
    }
    let mut i: usize = 0;
    while i < a.len()
        invariant
            i <= a.len() == b.len(),
            forall|j: int| 0 <= j < i ==> a@[j].0@ == b@[j].0@ && a@[j].1@ == b@[j].1@,
        decreases a.len() - i,
    {
        if !str_eq(a[i].0.as_str(), b[i].0.as_str()) || !str_eq(a[i].1.as_str(), b[i].1.as_str()) {
            proof {
                assert(entry_views(a@)[i as int] != entry_views(b@)[i as int]);
            }
            return false;
        }
        i = i + 1;
    }
    proof {
        assert(entry_views(a@) =~= entry_views(b@));
    }
    true
}

fn mounts_eq(a: &Vec<ServiceMount>, b: &Vec<ServiceMount>) -> (r: bool)
    ensures
        r == (a@.map_values(|m: ServiceMount| m@) == b@.map_values(|m: ServiceMount| m@)),
{
    if a.len() != b.len() {
        proof {
            assert(a@.map_values(|m: ServiceMount| m@).len() != b@.map_values(|m: ServiceMount| m@).len());
        }
        return false;
    }
    let mut i: usize = 0;
    while i < a.len()
        invariant
            i <= a.len() == b.len(),
            forall|j: int| 0 <= j < i ==> a@[j]@ == b@[j]@,
        decreases a.len() - i,
    {
        if !str_eq(a[i].host_path.as_str(), b[i].host_path.as_str()) || !str_eq(
            a[i].runtime_path.as_str(),
            b[i].runtime_path.as_str(),
        ) {
            proof {
                assert(a@.map_values(|m: ServiceMount| m@)[i as int] != b@.map_values(|m: ServiceMount| m@)[i as int]);
            }
            return false;
        }
        i = i + 1;
    }
    proof {
        assert(a@.map_values(|m: ServiceMount| m@) =~= b@.map_values(|m: ServiceMount| m@));
    }
    true
}

fn ports_eq(a: &Vec<ServicePort>, b: &Vec<ServicePort>) -> (r: bool)
    ensures
        r == (a@.map_values(|p: ServicePort| p@) == b@.map_values(|p: ServicePort| p@)),
{
    if a.len() != b.len() {
        proof {
            assert(a@.map_values(|p: ServicePort| p@).len() != b@.map_values(|p: ServicePort| p@).len());
        }
        return false;
    }
    let mut i: usize = 0;
    while i < a.len()
        invariant
            i <= a.len() == b.len(),
            forall|j: int| 0 <= j < i ==> a@[j]@ == b@[j]@,
        decreases a.len() - i,
    {
        let (x, y) = (&a[i], &b[i]);
        if !opt_str_eq(&x.name, &y.name) || x.host_port != y.host_port || x.host_port_allocation
            != y.host_port_allocation || x.service_port != y.service_port || x.protocol != y.protocol {
            proof {
                assert(a@.map_values(|p: ServicePort| p@)[i as int] != b@.map_values(|p: ServicePort| p@)[i as int]);
            }
            return false;
        }
        i = i + 1;
    }
    proof {
        assert(a@.map_values(|p: ServicePort| p@) =~= b@.map_values(|p: ServicePort| p@));
    }
    true
}

fn source_eq(a: &ServiceSource, b: &ServiceSource) -> (r: bool)
    ensures
        r == (a@ == b@),
{
    match (a, b) {
        (ServiceSource::Docker { image: x }, ServiceSource::Docker { image: y }) => str_eq(x.as_str(), y.as_str()),
        (ServiceSource::WasmtimeFile { component: x }, ServiceSource::WasmtimeFile { component: y }) => str_eq(
            x.as_str(),
            y.as_str(),
        ),
        (ServiceSource::WasmtimeUrl { url: x }, ServiceSource::WasmtimeUrl { url: y }) => str_eq(x.as_str(), y.as_str()),
        (
            ServiceSource::ExistingTcp { host: x, port: p },
            ServiceSource::ExistingTcp { host: y, port: q },
        ) => str_eq(x.as_str(), y.as_str()) && *p == *q,
        _ => false,
    }
}

fn expose_eq(a: &Option<ServiceExpose>, b: &Option<ServiceExpose>) -> (r: bool)
    ensures
        r == ((match *a { Some(e) => Some(e@), None => None }) == (match *b { Some(e) => Some(e@), None => None })),
{
    match (a, b) {
        (None, None) => true,
        (Some(x), Some(y)) => {
            let usage = match (&x.usage, &y.usage) {
                (None, None) => true,
                (Some(u), Some(v)) => u.kind == v.kind && opt_str_eq(&u.path, &v.path),
                _ => false,
            };
            x.transport.kind == y.transport.kind && usage && opt_str_eq(&x.icon_url, &y.icon_url) && opt_str_eq(
                &x.catalog_id,
                &y.catalog_id,
            )
        },
        _ => false,
    }
}

/// Whether two manifests say the same.
pub fn manifests_equal(a: &ServiceManifest, b: &ServiceManifest) -> (r: bool)
    ensures
        r == (a@ == b@),
{
    str_eq(a.name.as_str(), b.name.as_str()) && opt_str_eq(&a.definition_id, &b.definition_id) && a.runtime
        == b.runtime && a.run_mode == b.run_mode && source_eq(&a.source, &b.source) && expose_eq(
        &a.expose,
        &b.expose,
    ) && pairs_eq(&a.env, &b.env) && mounts_eq(&a.mounts, &b.mounts) && ports_eq(&a.ports, &b.ports)
        && strings_eq(&a.command, &b.command) && strings_eq(&a.entrypoint, &b.entrypoint) && opt_str_eq(
        &a.working_dir,
        &b.working_dir,
    ) && pairs_eq(&a.labels, &b.labels)
}

/// How a manifest changes what was there: created when nothing was, else
/// unchanged or changed.
pub open spec fn change_of(previous: Option<ServiceManifestView>, next: ServiceManifestView) -> ServiceManifestChange {
    match previous {
        None => ServiceManifestChange::Created,
        Some(p) => if p == next {
            ServiceManifestChange::Unchanged
        } else {
            ServiceManifestChange::Changed
        },
    }
}

/// How applying `next` changes the service; see `change_of`.
pub fn manifest_change(previous: Option<&ServiceManifest>, next: &ServiceManifest) -> (r: ServiceManifestChange)
    ensures
        r == change_of(match previous { Some(p) => Some(p@), None => None }, next@),
{
    match previous {
        None => ServiceManifestChange::Created,
        Some(p) => if manifests_equal(p, next) {
            ServiceManifestChange::Unchanged
        } else {
            ServiceManifestChange::Changed
        },
    }
}

/// Checks that a service's stored configuration is in use: a service whose
/// removal left cleanup pending, or whose stored state failed to load, is
/// refused with its status, the pending cleanup first.
pub fn ensure_service_configuration_loaded(
    name: &str,
    pending_cleanup: Option<&ServiceStatus>,
    failed: Option<&ServiceStatus>,
) -> (r: Result<(), String>)
    ensures
        match (pending_cleanup, failed) {
            (Some(p), _) => r matches Err(e) && e@ == "service '"@ + name@ + "': "@ + status_label(*p),
            (None, Some(f)) => r matches Err(e) && e@ == "service '"@ + name@ + "': "@ + status_label(*f),
            (None, None) => r is Ok,
        },
{
    let status = match pending_cleanup {
        Some(p) => p,
        None => match failed {
            Some(f) => f,
            None => return Ok(()),
        },
    };
    let mut msg = concat("service '", name);
    push_str(&mut msg, "': ");
    let label = status.state_label();
    push_str(&mut msg, label.as_str());
    Err(msg)
}

// ---------------------------------------------------------------------------
// Planning an apply
// ---------------------------------------------------------------------------

/// What an apply starts from.
#[derive(Debug, Clone)]
pub struct ApplyPlan {
    /// The manifest the service had: stored, else the one in memory.
    pub previous_manifest: Option<ServiceManifest>,
    /// The state the service should be in: as stored, else stopped.
    pub desired_state: DesiredServiceState,
    /// The runtime the previous workload ran on.
    pub previous_runtime: Option<RuntimeKind>,
    /// Whether a service of this name already existed.
    pub replacing_existing: bool,
    /// Whether the previous workload is to be stopped first.
    pub stop_previous: bool,
    /// How the definition changes.
    pub manifest_change: ServiceManifestChange,
    /// The local id the service is kept under.
    pub local_service_id: String,
}

/// Plans applying `manifest`: what it replaces (the stored service, else
/// what is in memory), the desired state it keeps, and its local id (the
/// stored one, which a requested id must equal; else the requested one;
/// else one the store would give). A definition id the previous manifest
/// cannot be replaced with is an error.
pub fn plan_apply(
    store: &ServiceStateStore,
    manifest: &ServiceManifest,
    in_memory_manifest: Option<&ServiceManifest>,
    in_memory_runtime: Option<RuntimeKind>,
    requested_local_service_id: Option<&str>,
) -> (r: Result<ApplyPlan, String>)
    requires
        store.wf(),
    ensures
        match r {
            Ok(plan) => {
                let stored = store.id_of_name(manifest@.name);
                let previous = match stored {
                    Some(_) => Some(store.view_records()[store.index_of_name(manifest@.name).unwrap()].1.manifest),
                    None => match in_memory_manifest {
                        Some(m) => Some(m@),
                        None => None,
                    },
                };
                &&& (match plan.previous_manifest { Some(p) => Some(p@), None => None }) == previous
                &&& plan.desired_state == (match store.desired_of_name(manifest@.name) {
                    Some(d) => d,
                    None => DesiredServiceState::Stopped,
                })
                &&& plan.previous_runtime == (match plan.previous_manifest {
                    Some(p) => Some(p.runtime),
                    None => in_memory_runtime,
                })
                &&& plan.replacing_existing == (stored is Some || previous is Some || plan.previous_runtime is Some)
                &&& plan.stop_previous == (plan.previous_runtime is Some && plan.desired_state == DesiredServiceState::Running)
                &&& plan.manifest_change == change_of(previous, manifest@)
                &&& previous matches Some(p) ==> definition_ids_compatible(p.definition_id, manifest@.definition_id)
                &&& match stored {
                    Some(id) => plan.local_service_id@ == id && (requested_local_service_id matches Some(q) ==> q@ == id),
                    None => match requested_local_service_id {
                        Some(q) => plan.local_service_id@ == q@,
                        None => is_generated_id(plan.local_service_id@) && forall|j: int|
                            0 <= j < store.view_records().len() ==> (#[trigger] store.view_records()[j]).0
                                != plan.local_service_id@,
                    },
                }
            },
            Err(e) => {
                let stored = store.id_of_name(manifest@.name);
                let previous = match stored {
                    Some(_) => Some(store.view_records()[store.index_of_name(manifest@.name).unwrap()].1.manifest),
                    None => match in_memory_manifest {
                        Some(m) => Some(m@),
                        None => None,
                    },
                };
                let incompatible = previous is Some && !definition_ids_compatible(
                    previous.unwrap().definition_id,
                    manifest@.definition_id,
                );
                let mismatched = stored is Some && requested_local_service_id is Some
                    && requested_local_service_id.unwrap()@ != stored.unwrap();
                &&& incompatible || mismatched || (stored is None && requested_local_service_id is None && allocation_exhausted(
                    store.view_records(),
                ))
                &&& incompatible ==> previous.unwrap().definition_id is Some && e@ == definition_mismatch_message(
                    manifest@.name,
                    previous.unwrap().definition_id.unwrap(),
                    manifest@.definition_id,
                )
                &&& !incompatible && mismatched ==> e@ == "local_service_id mismatch for service '"@ + manifest@.name
                    + "': expected '"@ + stored.unwrap() + "', got '"@ + requested_local_service_id.unwrap()@ + "'"@
                &&& !incompatible && !mismatched ==> e@ == "failed to allocate unique local_service_id"@
            },
        },
{
    let previous_service = store.persisted_service(manifest.name.as_str());
    let previous_manifest = match &previous_service {
        Some(s) => Some(s.manifest.duplicate()),
        None => match in_memory_manifest {
            Some(m) => Some(m.duplicate()),
            None => None,
        },
    };
    let desired_state = match &previous_service {
        Some(s) => s.desired_state,
        None => DesiredServiceState::Stopped,
    };
    let previous_runtime = match &previous_manifest {
        Some(p) => Some(p.runtime),
        None => in_memory_runtime,
    };
    let replacing_existing = previous_service.is_some() || previous_manifest.is_some() || previous_runtime.is_some();
    let change = match &previous_manifest {
        Some(p) => manifest_change(Some(p), manifest),
        None => manifest_change(None, manifest),
    };
    if let Some(p) = &previous_manifest {
        ensure_definition_id_compatible(p, manifest)?;
    }
    let local_service_id = match &previous_service {
        Some(s) => {
            if let Some(q) = requested_local_service_id {
                if !str_eq(q, s.local_service_id.as_str()) {
                    let mut msg = crate::text::concat3(
                        "local_service_id mismatch for service '",
                        manifest.name.as_str(),
                        "': expected '",
                    );
                    push_str(&mut msg, s.local_service_id.as_str());
                    push_str(&mut msg, "', got '");
                    push_str(&mut msg, q);
                    push_str(&mut msg, "'");
                    return Err(msg);
                }
            }
            s.local_service_id.clone()
        },
        None => match requested_local_service_id {
            Some(q) => q.to_owned(),
            None => store.preview_local_service_id(manifest.name.as_str())?,
        },
    };
    let stop_previous = previous_runtime.is_some() && desired_state == DesiredServiceState::Running;
    Ok(
        ApplyPlan {
            previous_manifest,
            desired_state,
            previous_runtime,
            replacing_existing,
            stop_previous,
            manifest_change: change,
            local_service_id,
        },
    )
}

// ---------------------------------------------------------------------------
// Finishing an apply
// ---------------------------------------------------------------------------

/// A manifest applied on this node, with what the apply did.
#[derive(Debug, Clone)]
pub struct AppliedService {
    pub instance: ServiceInstance,
    pub previous_manifest: Option<ServiceManifest>,
    pub desired_state: DesiredServiceState,
    pub outcome: ServiceApplyOutcome,
}

/// What an apply reports once the runtime has done its part. A service that
/// should not run is reported as pulled. One that should run was started
/// (`start_result`) and inspected (`inspect_result`): a successful start
/// restarts a runtime workload (an external service has none) and reports
/// the inspected instance, or an unknown status and a failed final
/// inspection; a failed start is a restart failure, whose message takes the
/// inspection error too, and still reports a restart when the inspected
/// workload runs.
pub fn finish_apply(
    runtime: RuntimeKind,
    manifest_change: ServiceManifestChange,
    desired_state: DesiredServiceState,
    previous_manifest: Option<ServiceManifest>,
    instance: ServiceInstance,
    start_result: Option<Result<(), String>>,
    inspect_result: Option<Result<ServiceInstance, String>>,
) -> (r: AppliedService)
    requires
        desired_state == DesiredServiceState::Running ==> start_result is Some && inspect_result is Some,
    ensures
        r.previous_manifest == previous_manifest,
        r.desired_state == desired_state,
        r.outcome.manifest_change == manifest_change,
        r.outcome.final_status == r.instance.status,
        desired_state != DesiredServiceState::Running ==> r.instance == instance && r.outcome.workload_action
            == ServiceWorkloadAction::NoAction && r.outcome.failure is None,
        desired_state == DesiredServiceState::Running ==> match (start_result->0, inspect_result->0) {
            (Ok(()), Ok(i)) => r.instance == i && r.outcome.failure is None && r.outcome.workload_action == (if runtime
                == RuntimeKind::External {
                ServiceWorkloadAction::NoAction
            } else {
                ServiceWorkloadAction::Restarted
            }),
            (Ok(()), Err(e)) => r.instance.status.phase == ServicePhase::Unknown && r.instance.status.detail is None
                && r.outcome.failure == Some(
                ServiceApplyFailure { stage: ServiceApplyFailureStage::FinalInspection, message: e },
            ) && r.outcome.workload_action == (if runtime == RuntimeKind::External {
                ServiceWorkloadAction::NoAction
            } else {
                ServiceWorkloadAction::Restarted
            }),
            (Err(e), Ok(i)) => r.instance == i && r.outcome.failure == Some(
                ServiceApplyFailure { stage: ServiceApplyFailureStage::Restart, message: e },
            ) && r.outcome.workload_action == (if i.status.phase == ServicePhase::Running && runtime
                != RuntimeKind::External {
                ServiceWorkloadAction::Restarted
            } else {
                ServiceWorkloadAction::NoAction
            }),
            (Err(e), Err(ie)) => r.instance.status.phase == ServicePhase::Unknown && r.instance.status.detail is None
                && r.outcome.workload_action == ServiceWorkloadAction::NoAction && r.outcome.failure is Some
                && r.outcome.failure->0.stage == ServiceApplyFailureStage::Restart && r.outcome.failure->0.message@
                == e@ + "; failed to inspect final service state: "@ + ie@,
        },
{
    let mut instance = instance;
    let mut workload_action = ServiceWorkloadAction::NoAction;
    let mut failure: Option<ServiceApplyFailure> = None;
    if desired_state == DesiredServiceState::Running {
        let start = start_result.unwrap();
        let inspected = inspect_result.unwrap();
        match start {
            Ok(()) => {
                if runtime != RuntimeKind::External {
                    workload_action = ServiceWorkloadAction::Restarted;
                }
                match inspected {
                    Ok(i) => instance = i,
                    Err(e) => {
                        instance.status = ServiceStatus::unknown();
                        failure = Some(ServiceApplyFailure { stage: ServiceApplyFailureStage::FinalInspection, message: e });
                    },
                }
            },
            Err(e) => {
                let mut message = e;
                match inspected {
                    Ok(i) => {
                        if i.status.is_running() && runtime != RuntimeKind::External {
                            workload_action = ServiceWorkloadAction::Restarted;
                        }
                        instance = i;
                    },
                    Err(ie) => {
                        instance.status = ServiceStatus::unknown();
                        push_str(&mut message, "; failed to inspect final service state: ");
                        push_str(&mut message, ie.as_str());
                    },
                }
                failure = Some(ServiceApplyFailure { stage: ServiceApplyFailureStage::Restart, message });
            },
        }
    }
    let final_status = instance.status.duplicate();
    AppliedService {
        instance,
        previous_manifest,
        desired_state,
        outcome: ServiceApplyOutcome { manifest_change, workload_action, final_status, failure },
    }
}

/// The host ports the manifests of other services hold.
pub fn reserved_host_ports_except(manifests: &Vec<ServiceManifest>, service_name: &str) -> (r: std::collections::BTreeSet<
    u16,
>)
    ensures
        forall|p: u16|
            r@.contains(p) <==> exists|i: int, j: int|
                0 <= i < manifests@.len() && manifests@[i].name@ != service_name@ && 0 <= j
                    < manifests@[i].ports@.len() && (#[trigger] manifests@[i].ports@[j]).host_port == p,
{
    let mut out: std::collections::BTreeSet<u16> = std::collections::BTreeSet::new();
    let mut i: usize = 0;
    while i < manifests.len()
        invariant
            i <= manifests.len(),
            forall|p: u16|
                out@.contains(p) <==> exists|a: int, b: int|
                    0 <= a < i && manifests@[a].name@ != service_name@ && 0 <= b < manifests@[a].ports@.len()
                        && (#[trigger] manifests@[a].ports@[b]).host_port == p,
        decreases manifests.len() - i,
    {
        let m = &manifests[i];
        if !str_eq(m.name.as_str(), service_name) {
            let mut k: usize = 0;
            while k < m.ports.len()
                invariant
                    i < manifests.len(),
                    m == manifests@[i as int],
                    m.name@ != service_name@,
                    k <= m.ports.len(),
                    forall|p: u16|
                        out@.contains(p) <==> (exists|a: int, b: int|
                            0 <= a < i && manifests@[a].name@ != service_name@ && 0 <= b < manifests@[a].ports@.len()
                                && (#[trigger] manifests@[a].ports@[b]).host_port == p) || exists|b: int|
                            0 <= b < k && (#[trigger] m.ports@[b]).host_port == p,
                decreases m.ports.len() - k,
            {
                out.insert(m.ports[k].host_port);
                k = k + 1;
            }
            proof {
                assert forall|p: u16| out@.contains(p) implies exists|a: int, b: int|
                    0 <= a < i + 1 && manifests@[a].name@ != service_name@ && 0 <= b < manifests@[a].ports@.len()
                        && (#[trigger] manifests@[a].ports@[b]).host_port == p by {
                    if !(exists|a: int, b: int|
                        0 <= a < i && manifests@[a].name@ != service_name@ && 0 <= b < manifests@[a].ports@.len()
                            && (#[trigger] manifests@[a].ports@[b]).host_port == p) {
                        let b = choose|b: int| 0 <= b < k && (#[trigger] m.ports@[b]).host_port == p;
                        assert(manifests@[i as int].ports@[b].host_port == p);
                    }
                }
                assert forall|p: u16| (exists|a: int, b: int|
                    0 <= a < i + 1 && manifests@[a].name@ != service_name@ && 0 <= b < manifests@[a].ports@.len()
                        && (#[trigger] manifests@[a].ports@[b]).host_port == p) implies out@.contains(p) by {
                    let (a, b) = choose|a: int, b: int|
                        0 <= a < i + 1 && manifests@[a].name@ != service_name@ && 0 <= b < manifests@[a].ports@.len()
                            && (#[trigger] manifests@[a].ports@[b]).host_port == p;
                    if a == i {
                        assert(m.ports@[b].host_port == p);
                    }
                }
            }
        }
        i = i + 1;
    }
    out
}

impl ServiceStateStore {
    /// The stored record of the service named `service_name`.
    pub fn persisted_service(&self, service_name: &str) -> (r: Option<PersistedService>)
        requires
            self.wf(),
        ensures
            match r {
                Some(s) => self.index_of_name(service_name@) matches Some(i) && s@ == self.view_records()[i].1,
                None => self.index_of_name(service_name@) is None,
            },
    {
        let all = self.persisted_services();
        let mut i: usize = 0;
        while i < all.len()
            invariant
                self.wf(),
                i <= all.len(),
                all@.len() == self.view_records().len(),
                forall|j: int| 0 <= j < all@.len() ==> (#[trigger] all@[j])@ == self.view_records()[j].1,
                forall|j: int| 0 <= j < i ==> (#[trigger] self.view_records()[j]).1.manifest.name != service_name@,
            decreases all.len() - i,
        {
            if str_eq(all[i].manifest.name.as_str(), service_name) {
                proof {
                    assert(all@[i as int]@ == self.view_records()[i as int].1);
                    crate::service_state::lemma_name_position_at(self.view_records(), i as int);
                }
                return Some(all[i].duplicate());
            }
            proof {
                assert(all@[i as int]@ == self.view_records()[i as int].1);
            }
            i = i + 1;
        }
        None
    }

    /// The manifests of the services that should be running, in local id
    /// order.
    pub fn desired_running_service_manifests(&self) -> (r: Vec<ServiceManifest>)
        ensures
            r@.map_values(|m: ServiceManifest| m@) == self.view_records().filter(
                |e: (Seq<char>, crate::service_state::PersistedServiceView)| e.1.desired_state == DesiredServiceState::Running,
            ).map_values(|e: (Seq<char>, crate::service_state::PersistedServiceView)| e.1.manifest),
    {
        let all = self.persisted_services();
        let ghost recs = self.view_records();
        let mut out: Vec<ServiceManifest> = Vec::new();
        let mut i: usize = 0;
        proof {
            reveal(Seq::filter);
            assert(recs.take(0).filter(
                |e: (Seq<char>, crate::service_state::PersistedServiceView)| e.1.desired_state == DesiredServiceState::Running,
            ) =~= Seq::<(Seq<char>, crate::service_state::PersistedServiceView)>::empty());
        }
        while i < all.len()
            invariant
                i <= all.len(),
                recs == self.view_records(),
                all@.len() == recs.len(),
                forall|j: int| 0 <= j < all@.len() ==> (#[trigger] all@[j])@ == recs[j].1,
                out@.map_values(|m: ServiceManifest| m@) == recs.take(i as int).filter(
                    |e: (Seq<char>, crate::service_state::PersistedServiceView)| e.1.desired_state == DesiredServiceState::Running,
                ).map_values(|e: (Seq<char>, crate::service_state::PersistedServiceView)| e.1.manifest),
            decreases all.len() - i,
        {
            proof {
                reveal(Seq::filter);
                assert(recs.take(i + 1).drop_last() =~= recs.take(i as int));
                assert(recs.take(i + 1).last() == recs[i as int]);
                assert(all@[i as int]@ == recs[i as int].1);
            }
            if all[i].desired_state == DesiredServiceState::Running {
                let ghost old_out = out@;
                let copy = all[i].manifest.duplicate();
                out.push(copy);
                proof {
                    assert(copy@ == recs[i as int].1.manifest);
                    assert(out@.map_values(|m: ServiceManifest| m@) =~= old_out.map_values(|m: ServiceManifest| m@).push(
                        recs[i as int].1.manifest,
                    ));
                    let f = recs.take(i as int).filter(
                        |e: (Seq<char>, crate::service_state::PersistedServiceView)| e.1.desired_state == DesiredServiceState::Running,
                    );
                    assert(f.push(recs[i as int]).map_values(
                        |e: (Seq<char>, crate::service_state::PersistedServiceView)| e.1.manifest,
                    ) =~= f.map_values(|e: (Seq<char>, crate::service_state::PersistedServiceView)| e.1.manifest).push(
                        recs[i as int].1.manifest,
                    ));
                }
            }
            i = i + 1;
        }
        proof {
            assert(recs.take(recs.len() as int) =~= recs);
        }
        out
    }
}

} // verus!
