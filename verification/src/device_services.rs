//! What one device knows of the services of another: snapshots merged from
//! the services it manages and those it publishes, looked up live or from a
//! cache, and the epochs that keep a stale refresh from overwriting a
//! removal.

use vstd::prelude::*;

use crate::instances::{binding_views, expose_bindings, service_expose_endpoint_bindings, EndpointBindingView};
use crate::model::{
    copy_opt, DeviceService, DeviceServiceEndpoint, DeviceServiceMetadata, DeviceServiceSnapshot,
    RuntimeKind, ServiceExposeUsage, ServiceExposeUsageView, ServiceExposeView, ServiceInstance, ServiceManifest,
    ServiceManifestView, ServicePhase, ServiceStatus,
};
use crate::sorting::{lemma_stable_sorted_map, stable_sort, stable_sorted};
use crate::ordered::{
    entry_views, lemma_sorted_insert_position, lemma_sorted_insert_sorted, ordered_insert, seq_lt, sorted_insert,
    strictly_sorted,
};
use crate::text::{chars_eq, chars_of, str_eq};

verus! {

/// A published endpoint by the characters of its strings.
pub struct DeviceServiceEndpointView {
    pub name: Seq<char>,
    pub protocol: Seq<char>,
}

impl View for DeviceServiceEndpoint {
    type V = DeviceServiceEndpointView;

    open spec fn view(&self) -> DeviceServiceEndpointView {
        DeviceServiceEndpointView { name: self.name@, protocol: self.protocol@ }
    }
}

/// A device service by the characters of its strings.
pub struct DeviceServiceView {
    pub name: Seq<char>,
    pub runtime: RuntimeKind,
    pub usage: Option<ServiceExposeUsageView>,
    pub icon_url: Option<Seq<char>>,
    pub endpoints: Seq<DeviceServiceEndpointView>,
    pub status: ServiceStatus,
}

impl View for DeviceService {
    type V = DeviceServiceView;

    open spec fn view(&self) -> DeviceServiceView {
        DeviceServiceView {
            name: self.name@,
            runtime: self.runtime,
            usage: match self.metadata.usage {
                Some(u) => Some(u@),
                None => None,
            },
            icon_url: crate::model::opt_text(self.metadata.icon_url),
            endpoints: self.endpoints@.map_values(|e: DeviceServiceEndpoint| e@),
            status: self.status,
        }
    }
}

/// A list of device services by view.
pub open spec fn device_service_views(v: Seq<DeviceService>) -> Seq<DeviceServiceView> {
    v.map_values(|s: DeviceService| s@)
}

/// The device service a managed instance shows: its name, runtime and
/// status, with no metadata and no endpoints.
pub open spec fn from_instance(i: ServiceInstance) -> DeviceServiceView {
    DeviceServiceView {
        name: i.name@,
        runtime: i.runtime,
        usage: None,
        icon_url: None,
        endpoints: Seq::empty(),
        status: i.status,
    }
}

/// The device service a managed instance shows; see `from_instance`.
pub fn device_service_from_instance(instance: ServiceInstance) -> (r: DeviceService)
    ensures
        r@ == from_instance(instance),
{
    let r = DeviceService {
        name: instance.name,
        runtime: instance.runtime,
        metadata: DeviceServiceMetadata { usage: None, icon_url: None },
        endpoints: Vec::new(),
        status: instance.status,
    };
    proof {
        assert(r.endpoints@.map_values(|e: DeviceServiceEndpoint| e@) =~= Seq::<DeviceServiceEndpointView>::empty());
    }
    r
}

/// The position of key `k` in an entry list.
pub open spec fn entry_index<W>(s: Seq<(Seq<char>, W)>, k: Seq<char>) -> Option<int> {
    if exists|i: int| 0 <= i < s.len() && (#[trigger] s[i]).0 == k {
        Some(choose|i: int| 0 <= i < s.len() && (#[trigger] s[i]).0 == k)
    } else {
        None
    }
}

/// The value stored under `k` in an entry list.
pub open spec fn entry_value<W>(s: Seq<(Seq<char>, W)>, k: Seq<char>) -> Option<W> {
    match entry_index(s, k) {
        Some(i) => Some(s[i].1),
        None => None,
    }
}

/// A managed service's entry after its published form is seen: its
/// metadata and endpoints become those published.
pub open spec fn with_published(existing: DeviceServiceView, published: DeviceServiceView) -> DeviceServiceView {
    DeviceServiceView {
        name: existing.name,
        runtime: existing.runtime,
        usage: published.usage,
        icon_url: published.icon_url,
        endpoints: published.endpoints,
        status: existing.status,
    }
}

/// The by-name entries after the managed instances, each replacing an
/// earlier one of the same name.
pub open spec fn merged_managed(managed: Seq<ServiceInstance>) -> Seq<(Seq<char>, DeviceServiceView)>
    decreases managed.len(),
{
    if managed.len() == 0 {
        Seq::empty()
    } else {
        let i = managed.last();
        sorted_insert(merged_managed(managed.drop_last()), i.name@, from_instance(i))
    }
}

/// The by-name entries after the published services are laid over
/// `base`: a known name takes the published metadata and endpoints, a new
/// one is added as published.
pub open spec fn merged_published(
    base: Seq<(Seq<char>, DeviceServiceView)>,
    published: Seq<DeviceServiceView>,
) -> Seq<(Seq<char>, DeviceServiceView)>
    decreases published.len(),
{
    if published.len() == 0 {
        base
    } else {
        let prev = merged_published(base, published.drop_last());
        let p = published.last();
        match entry_value(prev, p.name) {
            Some(e) => sorted_insert(prev, p.name, with_published(e, p)),
            None => sorted_insert(prev, p.name, p),
        }
    }
}

/// The services of a merged snapshot, in name order.
pub open spec fn merged_services(managed: Seq<ServiceInstance>, published: Seq<DeviceService>) -> Seq<DeviceServiceView> {
    merged_published(merged_managed(managed), device_service_views(published)).map_values(
        |e: (Seq<char>, DeviceServiceView)| e.1,
    )
}

/// A device service with the metadata and endpoints of another.
fn take_published(existing: &DeviceService, published: &DeviceService) -> (r: DeviceService)
    ensures
        r@ == with_published(existing@, published@),
{
    let mut endpoints: Vec<DeviceServiceEndpoint> = Vec::new();
    let mut i: usize = 0;
    while i < published.endpoints.len()
        invariant
            i <= published.endpoints.len(),
            endpoints@.len() == i,
            forall|j: int| 0 <= j < i ==> (#[trigger] endpoints@[j])@ == published.endpoints@[j]@,
        decreases published.endpoints.len() - i,
    {
        let e = &published.endpoints[i];
        endpoints.push(DeviceServiceEndpoint { name: e.name.clone(), protocol: e.protocol.clone() });
        i = i + 1;
    }
    let r = DeviceService {
        name: existing.name.clone(),
        runtime: existing.runtime,
        metadata: DeviceServiceMetadata {
            usage: match &published.metadata.usage {
                Some(u) => Some(u.duplicate()),
                None => None,
            },
            icon_url: copy_opt(&published.metadata.icon_url),
        },
        endpoints,
        status: existing.status.duplicate(),
    };
    proof {
        assert(r.endpoints@.map_values(|e: DeviceServiceEndpoint| e@) =~= published.endpoints@.map_values(
            |e: DeviceServiceEndpoint| e@,
        ));
    }
    r
}

/// The position of key `k` in an entry list.
fn entry_position(entries: &Vec<(String, DeviceService)>, k: &str) -> (r: Option<usize>)
    requires
        strictly_sorted(entry_views(entries@)),
    ensures
        match r {
            Some(i) => i < entries@.len() && entry_value(entry_views(entries@), k@) == Some(entries@[i as int].1@),
            None => entry_value(entry_views(entries@), k@) is None,
        },
{
    let ghost ev = entry_views(entries@);
    let mut i: usize = 0;
    while i < entries.len()
        invariant
            i <= entries.len(),
            ev == entry_views(entries@),
            strictly_sorted(ev),
            forall|j: int| 0 <= j < i ==> (#[trigger] ev[j]).0 != k@,
        decreases entries.len() - i,
    {
        if str_eq(entries[i].0.as_str(), k) {
            proof {
                assert(ev[i as int].0 == k@);
                let c = choose|c: int| 0 <= c < ev.len() && (#[trigger] ev[c]).0 == k@;
                if c != i {
                    if c < i {
                        assert(seq_lt(ev[c].0, ev[i as int].0));
                        crate::ordered::lemma_seq_lt_trichotomy(ev[c].0, ev[i as int].0);
                    } else {
                        assert(seq_lt(ev[i as int].0, ev[c].0));
                        crate::ordered::lemma_seq_lt_trichotomy(ev[i as int].0, ev[c].0);
                    }
                }
                assert(ev[i as int].1 == entries@[i as int].1@);
            }
            return Some(i);
        }
        i = i + 1;
    }
    None
}

/// The snapshot of a device's services: each managed instance by name, the
/// published services laid over them (see `merged_services`), in name
/// order, stamped with `updated_at`.
pub fn merge_device_service_snapshot(
    peer_id: String,
    managed: Vec<ServiceInstance>,
    published: Vec<DeviceService>,
    updated_at: std::time::SystemTime,
) -> (r: DeviceServiceSnapshot)
    ensures
        r.peer_id == peer_id,
        device_service_views(r.services@) == merged_services(managed@, published@),
        r.updated_at == updated_at,
{
    let ghost mv = managed@;
    let ghost pv = device_service_views(published@);
    let mut entries: Vec<(String, DeviceService)> = Vec::new();
    let mut i: usize = 0;
    let mut managed = managed;
    proof {
        assert(mv.take(0) =~= Seq::<ServiceInstance>::empty());
    }
    while i < managed.len()
        invariant
            i <= managed.len(),
            managed@ == mv,
            entry_views(entries@) == merged_managed(mv.take(i as int)),
            strictly_sorted(entry_views(entries@)),
        decreases managed.len() - i,
    {
        let instance = managed[i].clone_instance();
        proof {
            assert(mv.take(i + 1).drop_last() =~= mv.take(i as int));
            assert(mv.take(i + 1).last() == mv[i as int]);
            crate::ordered::lemma_sorted_insert_sorted(entry_views(entries@), instance.name@, from_instance(instance));
        }
        let name = instance.name.clone();
        let service = device_service_from_instance(instance);
        ordered_insert(&mut entries, name, service);
        i = i + 1;
    }
    proof {
        assert(mv.take(mv.len() as int) =~= mv);
        assert(pv.take(0) =~= Seq::<DeviceServiceView>::empty());
    }
    let ghost base = entry_views(entries@);
    let mut k: usize = 0;
    while k < published.len()
        invariant
            k <= published.len(),
            pv == device_service_views(published@),
            entry_views(entries@) == merged_published(base, pv.take(k as int)),
            strictly_sorted(entry_views(entries@)),
        decreases published.len() - k,
    {
        let p = &published[k];
        proof {
            assert(pv.take(k + 1).drop_last() =~= pv.take(k as int));
            assert(pv.take(k + 1).last() == p@);
        }
        match entry_position(&entries, p.name.as_str()) {
            Some(j) => {
                let updated = take_published(&entries[j].1, p);
                proof {
                    crate::ordered::lemma_sorted_insert_sorted(entry_views(entries@), p.name@, updated@);
                }
                ordered_insert(&mut entries, p.name.clone(), updated);
            },
            None => {
                let copy = p.clone_service();
                proof {
                    crate::ordered::lemma_sorted_insert_sorted(entry_views(entries@), p.name@, copy@);
                }
                ordered_insert(&mut entries, p.name.clone(), copy);
            },
        }
        k = k + 1;
    }
    proof {
        assert(pv.take(pv.len() as int) =~= pv);
    }
    let ghost ev = entry_views(entries@);
    let mut services: Vec<DeviceService> = Vec::new();
    while entries.len() > 0
        invariant
            ev.len() == services@.len() + entries@.len(),
            device_service_views(services@) == ev.map_values(|e: (Seq<char>, DeviceServiceView)| e.1).take(
                services@.len() as int,
            ),
            entry_views(entries@) == ev.skip(services@.len() as int),
        decreases entries.len(),
    {
        let ghost before = entries@;
        let (_name, service) = entries.remove(0);
        let ghost n: int = services@.len() as int;
        proof {
            assert(entries@ =~= before.subrange(1, before.len() as int));
            assert(entry_views(entries@) =~= entry_views(before).subrange(1, before.len() as int));
            assert(entry_views(before).subrange(1, before.len() as int) =~= ev.skip(n + 1));
        }
        proof {
            assert(ev.skip(n)[0].1 == service@);
        }
        services.push(service);
        proof {
            assert(device_service_views(services@) =~= ev.map_values(|e: (Seq<char>, DeviceServiceView)| e.1).take(
                n + 1,
            ));
            assert(entry_views(entries@) =~= ev.skip(n + 1));
        }
    }
    proof {
        assert(ev.map_values(|e: (Seq<char>, DeviceServiceView)| e.1).take(services@.len() as int) =~= ev.map_values(
            |e: (Seq<char>, DeviceServiceView)| e.1,
        ));
    }
    DeviceServiceSnapshot { peer_id, services, updated_at }
}

impl ServiceInstance {
    /// A copy of this instance's name, runtime and status, which is what a
    /// device snapshot keeps of it.
    pub fn clone_instance(&self) -> (r: ServiceInstance)
        ensures
            r.name == self.name,
            r.runtime == self.runtime,
            r.status == self.status,
            from_instance(r) == from_instance(*self),
    {
        ServiceInstance {
            id: self.id.clone(),
            runtime: self.runtime,
            name: self.name.clone(),
            definition_id: copy_opt(&self.definition_id),
            source: self.source.clone(),
            labels: crate::model::copy_pairs(&self.labels),
            ports: crate::model::copy_ports(&self.ports),
            exposed_endpoints: Vec::new(),
            status: self.status.duplicate(),
        }
    }
}

impl DeviceService {
    /// A copy of this device service.
    pub fn clone_service(&self) -> (r: DeviceService)
        ensures
            r@ == self@,
    {
        take_published(self, self)
    }
}

/// The service named `name` in a snapshot, if it lists one.
pub fn find_service(snapshot: DeviceServiceSnapshot, name: &str) -> (r: Option<DeviceService>)
    ensures
        match r {
            Some(s) => s@.name == name@ && exists|i: int|
                0 <= i < snapshot.services@.len() && snapshot.services@[i]@ == s@ && forall|j: int|
                    0 <= j < i ==> (#[trigger] snapshot.services@[j]).name@ != name@,
            None => forall|j: int| 0 <= j < snapshot.services@.len() ==> (#[trigger] snapshot.services@[j]).name@ != name@,
        },
{
    let mut i: usize = 0;
    while i < snapshot.services.len()
        invariant
            i <= snapshot.services.len(),
            forall|j: int| 0 <= j < i ==> (#[trigger] snapshot.services@[j]).name@ != name@,
        decreases snapshot.services.len() - i,
    {
        if str_eq(snapshot.services[i].name.as_str(), name) {
            let s = snapshot.services[i].clone_service();
            proof {
                assert(snapshot.services@[i as int]@ == s@);
            }
            return Some(s);
        }
        i = i + 1;
    }
    None
}

/// Where a device-service snapshot came from.
#[derive(Debug, Clone, Copy, PartialEq, Eq, Structural)]
pub enum DeviceServiceSnapshotSource {
    Live,
    Cache,
    Empty,
}

/// The name of a snapshot source.
pub open spec fn source_name(s: DeviceServiceSnapshotSource) -> Seq<char> {
    match s {
        DeviceServiceSnapshotSource::Live => "live"@,
        DeviceServiceSnapshotSource::Cache => "cache"@,
        DeviceServiceSnapshotSource::Empty => "empty"@,
    }
}

impl DeviceServiceSnapshotSource {
    /// The source's lower-case name.
    pub fn as_str(&self) -> (r: &'static str)
        ensures
            r@ == source_name(*self),
    {
        match self {
            DeviceServiceSnapshotSource::Live => "live",
            DeviceServiceSnapshotSource::Cache => "cache",
            DeviceServiceSnapshotSource::Empty => "empty",
        }
    }
}

/// A device-service snapshot with where it came from and the refresh error
/// that made it stale, if any.
#[derive(Debug, Clone)]
pub struct DeviceServiceSnapshotLookup {
    pub snapshot: DeviceServiceSnapshot,
    pub source: DeviceServiceSnapshotSource,
    pub error: Option<String>,
}

/// The snapshot to show for a device: a successful refresh, live; else the
/// cached snapshot, with the refresh error if a refresh failed; else an
/// empty snapshot for the device, stamped `now`, with that error.
/// `refreshed` is `None` when no refresh was asked for.
pub fn device_service_snapshot_lookup(
    peer_id: String,
    refreshed: Option<Result<DeviceServiceSnapshot, String>>,
    cached: Option<DeviceServiceSnapshot>,
    now: std::time::SystemTime,
) -> (r: DeviceServiceSnapshotLookup)
    ensures
        match refreshed {
            Some(Ok(s)) => r.source == DeviceServiceSnapshotSource::Live && r.snapshot == s && r.error is None,
            _ => {
                &&& r.error == (match refreshed {
                    Some(Err(e)) => Some(e),
                    _ => None,
                })
                &&& match cached {
                    Some(c) => r.source == DeviceServiceSnapshotSource::Cache && r.snapshot == c,
                    None => r.source == DeviceServiceSnapshotSource::Empty && r.snapshot.peer_id == peer_id
                        && r.snapshot.services@.len() == 0 && r.snapshot.updated_at == now,
                }
            },
        },
{
    let error = match refreshed {
        Some(Ok(snapshot)) => {
            return DeviceServiceSnapshotLookup { snapshot, source: DeviceServiceSnapshotSource::Live, error: None };
        },
        Some(Err(e)) => Some(e),
        None => None,
    };
    match cached {
        Some(snapshot) => DeviceServiceSnapshotLookup { snapshot, source: DeviceServiceSnapshotSource::Cache, error },
        None => DeviceServiceSnapshotLookup {
            snapshot: DeviceServiceSnapshot { peer_id, services: Vec::new(), updated_at: now },
            source: DeviceServiceSnapshotSource::Empty,
            error,
        },
    }
}

/// In a key-ordered list, the value under a key after setting `k` to `v`:
/// `v` for `k`, what it was for any other key.
pub proof fn lemma_entry_value_after_insert<W>(s: Seq<(Seq<char>, W)>, k: Seq<char>, v: W, q: Seq<char>)
    requires
        strictly_sorted(s),
    ensures
        entry_value(sorted_insert(s, k, v), q) == (if q == k {
            Some(v)
        } else {
            entry_value(s, q)
        }),
{
    let r = sorted_insert(s, k, v);
    crate::ordered::lemma_sorted_insert_sorted(s, k, v);
    let i = crate::ordered::lemma_sorted_insert_position(s, k, v);
    let replaced = i < s.len() && s[i].0 == k;
    assert(r[i] == (k, v));
    if q == k {
        assert(r[i].0 == q);
        let c = entry_index(r, q).unwrap();
        assert(0 <= c < r.len() && r[c].0 == q);
        if c != i {
            crate::service_state::lemma_seq_lt_ne(r, c, i);
        }
    } else if entry_index(s, q) is Some {
        let m = entry_index(s, q).unwrap();
        assert(0 <= m < s.len() && s[m].0 == q);
        let m2 = if m < i {
            m
        } else if replaced {
            m
        } else {
            m + 1
        };
        if m < i {
            assert(r[m2] == s.take(i)[m]);
        } else if replaced {
            assert(m != i);
            assert(r[m2] == s.skip(i + 1)[m - i - 1]);
        } else {
            assert(r[m2] == s.skip(i)[m - i]);
        }
        assert(r[m2] == s[m]);
        assert(r[m2].0 == q);
        let c = entry_index(r, q).unwrap();
        assert(0 <= c < r.len() && r[c].0 == q);
        if c != m2 {
            crate::service_state::lemma_seq_lt_ne(r, c, m2);
        }
    } else {
        assert forall|c: int| 0 <= c < s.len() implies (#[trigger] s[c]).0 != q by {
            if s[c].0 == q {
                assert(entry_index(s, q) is Some);
            }
        }
        assert forall|c: int| 0 <= c < r.len() implies (#[trigger] r[c]).0 != q by {
            if c < i {
                assert(r[c] == s.take(i)[c]);
                assert(r[c] == s[c]);
            } else if c > i {
                if replaced {
                    assert(r[c] == s.skip(i + 1)[c - i - 1]);
                    assert(r[c] == s[c]);
                } else {
                    assert(r[c] == s.skip(i)[c - i - 1]);
                    assert(r[c] == s[c - 1]);
                }
            }
        }
    }
}

/// The epoch of a device's snapshot: zero until its snapshot is first
/// removed.
pub open spec fn epoch_of(epochs: Seq<(Seq<char>, u64)>, peer: Seq<char>) -> u64 {
    match entry_value(epochs, peer) {
        Some(e) => e,
        None => 0,
    }
}

/// The epochs after a device's snapshot is removed: its epoch moves on by
/// one.
pub open spec fn advanced(epochs: Seq<(Seq<char>, u64)>, peer: Seq<char>) -> Seq<(Seq<char>, u64)> {
    sorted_insert(epochs, peer, (epoch_of(epochs, peer) + 1) as u64)
}

/// Removing a device's snapshot turns away every save that read its epoch
/// before the removal, and leaves the epochs of other devices as they were.
pub proof fn law_removal_rejects_stale_saves(epochs: Seq<(Seq<char>, u64)>, peer: Seq<char>, other: Seq<char>)
    requires
        strictly_sorted(epochs),
        epoch_of(epochs, peer) < u64::MAX,
    ensures
        strictly_sorted(advanced(epochs, peer)),
        epoch_of(advanced(epochs, peer), peer) != epoch_of(epochs, peer),
        epoch_of(advanced(epochs, peer), peer) == epoch_of(epochs, peer) + 1,
        other != peer ==> epoch_of(advanced(epochs, peer), other) == epoch_of(epochs, other),
{
    let v = (epoch_of(epochs, peer) + 1) as u64;
    crate::ordered::lemma_sorted_insert_sorted(epochs, peer, v);
    lemma_entry_value_after_insert(epochs, peer, v, peer);
    lemma_entry_value_after_insert(epochs, peer, v, other);
}

/// The snapshot epochs of the devices whose snapshots were ever removed,
/// kept in device order.
pub struct SnapshotEpochs {
    pub(crate) epochs: Vec<(String, u64)>,
}

impl SnapshotEpochs {
    /// The epochs by device.
    pub closed spec fn entries(&self) -> Seq<(Seq<char>, u64)> {
        entry_views(self.epochs@)
    }

    /// Well formed: one entry per device, in device order.
    pub open spec fn wf(&self) -> bool {
        strictly_sorted(self.entries())
    }

    /// No epochs yet: every device is at zero.
    pub fn new() -> (r: Self)
        ensures
            r.wf(),
            r.entries() == Seq::<(Seq<char>, u64)>::empty(),
            forall|p: Seq<char>| epoch_of(#[trigger] r.entries(), p) == 0,
    {
        let r = SnapshotEpochs { epochs: Vec::new() };
        proof {
            assert(r.entries() =~= Seq::<(Seq<char>, u64)>::empty());
        }
        r
    }

    /// The current epoch of a device's snapshot.
    pub fn epoch(&self, peer_id: &str) -> (r: u64)
        requires
            self.wf(),
        ensures
            r == epoch_of(self.entries(), peer_id@),
    {
        let ghost ev = self.entries();
        let mut i: usize = 0;
        while i < self.epochs.len()
            invariant
                i <= self.epochs.len(),
                ev == entry_views(self.epochs@),
                strictly_sorted(ev),
                forall|j: int| 0 <= j < i ==> (#[trigger] ev[j]).0 != peer_id@,
            decreases self.epochs.len() - i,
        {
            if str_eq(self.epochs[i].0.as_str(), peer_id) {
                proof {
                    assert(ev[i as int].0 == peer_id@);
                    let c = choose|c: int| 0 <= c < ev.len() && (#[trigger] ev[c]).0 == peer_id@;
                    if c != i {
                        crate::service_state::lemma_seq_lt_ne(ev, c, i as int);
                    }
                }
                return self.epochs[i].1;
            }
            i = i + 1;
        }
        0
    }

    /// Whether a save that read epoch `expected` may still write: the
    /// device's epoch has not moved since.
    pub fn is_current(&self, peer_id: &str, expected: u64) -> (r: bool)
        requires
            self.wf(),
        ensures
            r == (epoch_of(self.entries(), peer_id@) == expected),
    {
        self.epoch(peer_id) == expected
    }

    /// Moves a device's epoch on, when its snapshot is removed; an error,
    /// with nothing changed, when the epoch cannot grow.
    pub fn advance(&mut self, peer_id: &str) -> (r: Result<(), String>)
        requires
            old(self).wf(),
        ensures
            final(self).wf(),
            r is Ok <==> epoch_of(old(self).entries(), peer_id@) < u64::MAX,
            r is Ok ==> final(self).entries() == advanced(old(self).entries(), peer_id@),
            r is Err ==> final(self).entries() == old(self).entries(),
    {
        let current = self.epoch(peer_id);
        let next = match current.checked_add(1) {
            Some(n) => n,
            None => return Err("device service snapshot epoch overflow".to_owned()),
        };
        proof {
            crate::ordered::lemma_sorted_insert_sorted(self.entries(), peer_id@, next);
        }
        ordered_insert(&mut self.epochs, peer_id.to_owned(), next);
        Ok(())
    }
}

/// The device service a running, exposed service publishes: its name and
/// runtime, the usage and icon of its expose section, its endpoints by name
/// and protocol, and its status.
pub open spec fn published_view(m: ServiceManifestView, e: ServiceExposeView, status: ServiceStatus) -> DeviceServiceView {
    DeviceServiceView {
        name: m.name,
        runtime: m.runtime,
        usage: e.usage,
        icon_url: e.icon_url,
        endpoints: expose_bindings(m).map_values(
            |b: EndpointBindingView| DeviceServiceEndpointView { name: b.name, protocol: b.protocol },
        ),
        status,
    }
}

/// What an inspected service publishes, if anything: an exposed service
/// found running publishes its device service.
pub open spec fn published_by(m: ServiceManifestView, inspected: Result<ServiceStatus, String>) -> Option<
    DeviceServiceView,
> {
    match m.expose {
        Some(e) => match inspected {
            Ok(st) => if st.phase == ServicePhase::Running {
                Some(published_view(m, e, st))
            } else {
                None
            },
            Err(_) => None,
        },
        None => None,
    }
}

/// The device services the inspected services publish, in their order.
pub open spec fn published_services(inspected: Seq<(ServiceManifest, Result<ServiceStatus, String>)>) -> Seq<
    DeviceServiceView,
>
    decreases inspected.len(),
{
    if inspected.len() == 0 {
        Seq::empty()
    } else {
        let rest = published_services(inspected.drop_last());
        match published_by(inspected.last().0@, inspected.last().1) {
            Some(d) => rest.push(d),
            None => rest,
        }
    }
}

/// Whether device service `a` is listed before `b`: by name.
pub open spec fn service_name_before(a: DeviceServiceView, b: DeviceServiceView) -> bool {
    seq_lt(a.name, b.name)
}

fn comes_before_by_name(a: &DeviceService, b: &DeviceService) -> (r: bool)
    ensures
        r == service_name_before(a@, b@),
{
    crate::ordered::chars_lt(&chars_of(a.name.as_str()), &chars_of(b.name.as_str()))
}

fn published_service(manifest: &ServiceManifest, status: ServiceStatus) -> (r: DeviceService)
    requires
        manifest@.expose is Some,
    ensures
        r@ == published_view(manifest@, manifest@.expose.unwrap(), status),
{
    let bindings = service_expose_endpoint_bindings(manifest);
    let mut endpoints: Vec<DeviceServiceEndpoint> = Vec::new();
    let mut k: usize = 0;
    while k < bindings.len()
        invariant
            k <= bindings.len(),
            endpoints@.len() == k,
            forall|j: int|
                0 <= j < k ==> (#[trigger] endpoints@[j])@ == (DeviceServiceEndpointView {
                    name: bindings@[j].name@,
                    protocol: bindings@[j].protocol@,
                }),
        decreases bindings.len() - k,
    {
        endpoints.push(
            DeviceServiceEndpoint { name: bindings[k].name.clone(), protocol: bindings[k].protocol.clone() },
        );
        k = k + 1;
    }
    let (usage, icon_url) = match &manifest.expose {
        Some(e) => (
            match &e.usage {
                Some(u) => Some(ServiceExposeUsage { kind: u.kind, path: copy_opt(&u.path) }),
                None => None,
            },
            copy_opt(&e.icon_url),
        ),
        None => (None, None),
    };
    let r = DeviceService {
        name: manifest.name.clone(),
        runtime: manifest.runtime,
        metadata: DeviceServiceMetadata { usage, icon_url },
        endpoints,
        status,
    };
    proof {
        assert(binding_views(bindings@) == expose_bindings(manifest@));
        assert(r.endpoints@.map_values(|e: DeviceServiceEndpoint| e@) =~= expose_bindings(manifest@).map_values(
            |b: EndpointBindingView| DeviceServiceEndpointView { name: b.name, protocol: b.protocol },
        ));
    }
    r
}

/// The device services this node publishes, from its services and how
/// their inspection went: each exposed service found running, in name
/// order (services of the same name keep their order).
pub fn list_published_device_services(inspected: Vec<(ServiceManifest, Result<ServiceStatus, String>)>) -> (r: Vec<
    DeviceService,
>)
    ensures
        device_service_views(r@) == stable_sorted(
            published_services(inspected@),
            |a: DeviceServiceView, b: DeviceServiceView| service_name_before(a, b),
        ),
{
    let mut out: Vec<DeviceService> = Vec::new();
    let mut i: usize = 0;
    proof {
        assert(inspected@.take(0) =~= Seq::<(ServiceManifest, Result<ServiceStatus, String>)>::empty());
        assert(device_service_views(out@) =~= Seq::<DeviceServiceView>::empty());
    }
    while i < inspected.len()
        invariant
            i <= inspected.len(),
            device_service_views(out@) == published_services(inspected@.take(i as int)),
        decreases inspected.len() - i,
    {
        let m = &inspected[i].0;
        proof {
            assert(inspected@.take(i + 1).drop_last() =~= inspected@.take(i as int));
            assert(inspected@.take(i + 1).last() == inspected@[i as int]);
        }
        if m.expose.is_some() {
            match &inspected[i].1 {
                Ok(st) => {
                    if st.phase == ServicePhase::Running {
                        let d = published_service(m, st.duplicate());
                        let ghost before = device_service_views(out@);
                        out.push(d);
                        proof {
                            assert(device_service_views(out@) =~= before.push(d@));
                        }
                    }
                },
                Err(_) => {},
            }
        }
        i = i + 1;
    }
    proof {
        assert(inspected@.take(inspected.len() as int) =~= inspected@);
    }
    let ghost unsorted = out@;
    let sorted = stable_sort(
        out,
        comes_before_by_name,
        Ghost(|a: DeviceService, b: DeviceService| service_name_before(a@, b@)),
    );
    proof {
        lemma_stable_sorted_map(
            unsorted,
            |s: DeviceService| s@,
            |a: DeviceService, b: DeviceService| service_name_before(a@, b@),
            |a: DeviceServiceView, b: DeviceServiceView| service_name_before(a, b),
        );
        assert(device_service_views(sorted@) =~= stable_sorted(unsorted, |a: DeviceService, b: DeviceService| service_name_before(a@, b@)).map_values(|s: DeviceService| s@));
    }
    sorted
}

/// Entries in strict name order, each filed under its service's name.
pub open spec fn entries_by_name(s: Seq<(Seq<char>, DeviceServiceView)>) -> bool {
    &&& strictly_sorted(s)
    &&& forall|j: int| 0 <= j < s.len() ==> (#[trigger] s[j]).1.name == s[j].0
}

proof fn lemma_insert_by_name(s: Seq<(Seq<char>, DeviceServiceView)>, v: DeviceServiceView)
    requires
        entries_by_name(s),
    ensures
        entries_by_name(sorted_insert(s, v.name, v)),
{
    lemma_sorted_insert_sorted(s, v.name, v);
    let i = lemma_sorted_insert_position(s, v.name, v);
    let r = sorted_insert(s, v.name, v);
    assert forall|j: int| 0 <= j < r.len() implies (#[trigger] r[j]).1.name == r[j].0 by {
        if j < i {
            assert(r[j] == s[j]);
        } else if j > i {
            if i < s.len() && s[i].0 == v.name {
                assert(r[j] == s[j]);
            } else {
                assert(r[j] == s[j - 1]);
            }
        }
    }
}

proof fn lemma_merged_managed_by_name(managed: Seq<ServiceInstance>)
    ensures
        entries_by_name(merged_managed(managed)),
    decreases managed.len(),
{
    if managed.len() > 0 {
        lemma_merged_managed_by_name(managed.drop_last());
        lemma_insert_by_name(merged_managed(managed.drop_last()), from_instance(managed.last()));
    }
}

proof fn lemma_merged_published_by_name(base: Seq<(Seq<char>, DeviceServiceView)>, published: Seq<DeviceServiceView>)
    requires
        entries_by_name(base),
    ensures
        entries_by_name(merged_published(base, published)),
    decreases published.len(),
{
    if published.len() > 0 {
        let prev = merged_published(base, published.drop_last());
        let p = published.last();
        lemma_merged_published_by_name(base, published.drop_last());
        match entry_value(prev, p.name) {
            Some(e) => {
                let k = entry_index(prev, p.name).unwrap();
                assert(prev[k].1.name == prev[k].0);
                lemma_insert_by_name(prev, with_published(e, p));
            },
            None => {
                lemma_insert_by_name(prev, p);
            },
        }
    }
}

/// A merged snapshot lists each service once, in name order.
pub proof fn law_merged_snapshot_names_are_ordered(managed: Seq<ServiceInstance>, published: Seq<DeviceService>)
    ensures
        forall|i: int, j: int|
            0 <= i < j < merged_services(managed, published).len() ==> seq_lt(
                #[trigger] merged_services(managed, published)[i].name,
                #[trigger] merged_services(managed, published)[j].name,
            ),
{
    lemma_merged_managed_by_name(managed);
    lemma_merged_published_by_name(merged_managed(managed), device_service_views(published));
    let e = merged_published(merged_managed(managed), device_service_views(published));
    let r = merged_services(managed, published);
    assert forall|i: int, j: int| 0 <= i < j < r.len() implies seq_lt(#[trigger] r[i].name, #[trigger] r[j].name) by {
        assert(r[i] == e[i].1 && r[j] == e[j].1);
        assert(e[i].1.name == e[i].0 && e[j].1.name == e[j].0);
    }
}

proof fn lemma_managed_value(managed: Seq<ServiceInstance>, k: int)
    requires
        0 <= k < managed.len(),
        forall|k2: int| k < k2 < managed.len() ==> (#[trigger] managed[k2]).name@ != managed[k].name@,
    ensures
        entry_value(merged_managed(managed), managed[k].name@) == Some(from_instance(managed[k])),
    decreases managed.len(),
{
    let d = managed.drop_last();
    lemma_merged_managed_by_name(d);
    let i = managed.last();
    lemma_entry_value_after_insert(merged_managed(d), i.name@, from_instance(i), managed[k].name@);
    if k < managed.len() - 1 {
        assert forall|k2: int| k < k2 < d.len() implies (#[trigger] d[k2]).name@ != d[k].name@ by {
            assert(d[k2] == managed[k2]);
        }
        assert(managed[managed.len() - 1] == i);
        lemma_managed_value(d, k);
        assert(d[k] == managed[k]);
    }
}

proof fn lemma_published_value(base: Seq<(Seq<char>, DeviceServiceView)>, published: Seq<DeviceServiceView>, k: int)
    requires
        entries_by_name(base),
        0 <= k < published.len(),
        forall|k2: int| k < k2 < published.len() ==> (#[trigger] published[k2]).name != published[k].name,
    ensures
        entry_value(merged_published(base, published), published[k].name) matches Some(v) && v.usage
            == published[k].usage && v.icon_url == published[k].icon_url && v.endpoints == published[k].endpoints,
    decreases published.len(),
{
    let d = published.drop_last();
    let prev = merged_published(base, d);
    let p = published.last();
    lemma_merged_published_by_name(base, d);
    let nv = match entry_value(prev, p.name) {
        Some(e) => with_published(e, p),
        None => p,
    };
    lemma_entry_value_after_insert(prev, p.name, nv, published[k].name);
    if k < published.len() - 1 {
        assert forall|k2: int| k < k2 < d.len() implies (#[trigger] d[k2]).name != d[k].name by {
            assert(d[k2] == published[k2]);
        }
        assert(published[published.len() - 1] == p);
        lemma_published_value(base, d, k);
        assert(d[k] == published[k]);
    }
}

proof fn lemma_published_keeps_base(base: Seq<(Seq<char>, DeviceServiceView)>, published: Seq<DeviceServiceView>, q: Seq<char>)
    requires
        entries_by_name(base),
        entry_value(base, q) is Some,
    ensures
        entry_value(merged_published(base, published), q) matches Some(v) && v.status == entry_value(base, q).unwrap().status
            && v.runtime == entry_value(base, q).unwrap().runtime,
    decreases published.len(),
{
    if published.len() > 0 {
        let d = published.drop_last();
        let prev = merged_published(base, d);
        let p = published.last();
        lemma_merged_published_by_name(base, d);
        lemma_published_keeps_base(base, d, q);
        let nv = match entry_value(prev, p.name) {
            Some(e) => with_published(e, p),
            None => p,
        };
        lemma_entry_value_after_insert(prev, p.name, nv, q);
    }
}

proof fn lemma_value_listed(e: Seq<(Seq<char>, DeviceServiceView)>, q: Seq<char>)
    requires
        entries_by_name(e),
        entry_value(e, q) is Some,
    ensures
        exists|i: int|
            0 <= i < e.len() && (#[trigger] e[i]).1 == entry_value(e, q).unwrap() && e[i].1.name == q,
{
    let c = entry_index(e, q).unwrap();
    assert(e[c].0 == q);
    assert(e[c].1.name == e[c].0);
}

/// A merged snapshot takes each published service's metadata and endpoints,
/// also for a service the device manages, and each managed service's
/// status and runtime: for the last published service of each name, the
/// snapshot lists a service of that name with the same usage, icon and
/// endpoints; for the last managed instance of each name, it lists a
/// service of that name with the instance's status and runtime.
pub proof fn law_merged_snapshot_takes_published_metadata(managed: Seq<ServiceInstance>, published: Seq<DeviceService>)
    ensures
        forall|k: int|
            #![trigger published[k]]
            0 <= k < published.len() && (forall|k2: int|
                k < k2 < published.len() ==> (#[trigger] published[k2]).name@ != published[k].name@) ==> exists|i: int|
                0 <= i < merged_services(managed, published).len() && (#[trigger] merged_services(managed, published)[i]).name
                    == published[k].name@ && merged_services(managed, published)[i].usage == published[k]@.usage
                    && merged_services(managed, published)[i].icon_url == published[k]@.icon_url && merged_services(
                    managed,
                    published,
                )[i].endpoints == published[k]@.endpoints,
        forall|k: int|
            #![trigger managed[k]]
            0 <= k < managed.len() && (forall|k2: int|
                k < k2 < managed.len() ==> (#[trigger] managed[k2]).name@ != managed[k].name@) ==> exists|i: int|
                0 <= i < merged_services(managed, published).len() && (#[trigger] merged_services(managed, published)[i]).name
                    == managed[k].name@ && merged_services(managed, published)[i].status == managed[k].status
                    && merged_services(managed, published)[i].runtime == managed[k].runtime,
{
    let base = merged_managed(managed);
    let pv = device_service_views(published);
    let e = merged_published(base, pv);
    let r = merged_services(managed, published);
    lemma_merged_managed_by_name(managed);
    lemma_merged_published_by_name(base, pv);
    assert forall|k: int|
        #![trigger published[k]]
        0 <= k < published.len() && (forall|k2: int|
            k < k2 < published.len() ==> (#[trigger] published[k2]).name@ != published[k].name@) implies exists|i: int|
        0 <= i < r.len() && (#[trigger] r[i]).name == published[k].name@ && r[i].usage == published[k]@.usage
            && r[i].icon_url == published[k]@.icon_url && r[i].endpoints == published[k]@.endpoints by {
        assert forall|k2: int| k < k2 < pv.len() implies (#[trigger] pv[k2]).name != pv[k].name by {
            assert(pv[k2] == published[k2]@);
            assert(published[k2].name@ != published[k].name@);
        }
        assert(pv[k] == published[k]@);
        lemma_published_value(base, pv, k);
        lemma_value_listed(e, published[k].name@);
        let i = choose|i: int| 0 <= i < e.len() && (#[trigger] e[i]).1 == entry_value(e, published[k].name@).unwrap()
            && e[i].1.name == published[k].name@;
        assert(r[i] == e[i].1);
    }
    assert forall|k: int|
        #![trigger managed[k]]
        0 <= k < managed.len() && (forall|k2: int|
            k < k2 < managed.len() ==> (#[trigger] managed[k2]).name@ != managed[k].name@) implies exists|i: int|
        0 <= i < r.len() && (#[trigger] r[i]).name == managed[k].name@ && r[i].status == managed[k].status
            && r[i].runtime == managed[k].runtime by {
        lemma_managed_value(managed, k);
        lemma_published_keeps_base(base, pv, managed[k].name@);
        lemma_value_listed(e, managed[k].name@);
        let i = choose|i: int| 0 <= i < e.len() && (#[trigger] e[i]).1 == entry_value(e, managed[k].name@).unwrap()
            && e[i].1.name == managed[k].name@;
        assert(r[i] == e[i].1);
    }
}

} // verus!
