//! Storing a manifest as a `fungi: service/v1` document and reading the
//! document back on the same node.

use vstd::prelude::*;

use crate::document::{FungiServiceDocumentView, FungiServiceMountView, FungiServicePublishEntryView, FungiServiceTcpView};
use crate::manifest::{
    client_metadata, doc_definition_id, doc_service_name, docker_image, existing_tcp_source, expose_of, has_zero_port, is_local_host,
    manifest_from_document, norm_opt, norm_required, publish_expose, publish_port, publish_ports, resolved_mount, run_source, tcp_host, usage_kind,
    RuntimeAndSourceView,
};
use crate::manifest_export::{client_of, exported_document, mounts_of, publish_entries, usage_kind_text};
use crate::model::{RuntimeKind, ServiceExposeUsageKind, ServiceManifestView, ServiceMountView, ServiceSourceView};
use crate::ordered::{lemma_sorted_from_unchanged, seq_lt, sorted_from};
use crate::paths::{join, resolved_path, ManifestPathRoots};
use crate::service_state::{
    desired_for_name, id_for_name, law_upsert, law_written_state_file_fits_its_directory, records_wf, state_file_fits,
    upsert_fits, upserted, valid_local_id, DesiredServiceState, PersistedServiceView, SERVICE_STATE_SCHEMA_VERSION,
};
use crate::text::{ascii_lowercase, lemma_trim_idempotent, lemma_trim_unchanged, trim};

verus! {

proof fn lemma_norm_required_idempotent(s: Seq<char>)
    ensures
        norm_required(s) matches Some(n) ==> norm_required(n) == Some(n),
{
    lemma_trim_idempotent(s);
}

proof fn lemma_norm_opt_idempotent(o: Option<Seq<char>>)
    ensures
        norm_opt(norm_opt(o)) == norm_opt(o),
{
    match o {
        Some(s) => lemma_norm_required_idempotent(s),
        None => {},
    }
}

/// The name a client kind is written with reads back as that kind.
proof fn lemma_kind_text_reads_back(k: ServiceExposeUsageKind)
    ensures
        norm_required(usage_kind_text(k)) == Some(usage_kind_text(k)),
        usage_kind(usage_kind_text(k)) == k,
{
    reveal_strlit("web");
    reveal_strlit("ssh");
    reveal_strlit("raw");
    let t = usage_kind_text(k);
    lemma_trim_unchanged(t);
    assert(ascii_lowercase(t) =~= t);
    assert(("raw"@)[0] != ("web"@)[0]);
    assert(("raw"@)[0] != ("ssh"@)[0]);
    assert(("ssh"@)[0] != ("web"@)[0]);
}

/// A loopback host carries no surrounding blanks.
proof fn lemma_local_host_trimmed(h: Seq<char>)
    requires
        is_local_host(h),
    ensures
        norm_required(h) == Some(h),
{
    reveal_strlit("127.0.0.1");
    reveal_strlit("localhost");
    lemma_trim_unchanged(h);
}

/// The client section written for an expose section reads back as the
/// client metadata that the expose section was made from.
proof fn lemma_client_reads_back(e: FungiServicePublishEntryView, tcp: FungiServiceTcpView)
    ensures
        client_metadata(
            FungiServicePublishEntryView { tcp, client: client_of(Some(expose_of(client_metadata(e)))) },
        ) == client_metadata(e),
{
    match e.client {
        Some(c) => {
            lemma_norm_opt_idempotent(c.path);
            lemma_norm_opt_idempotent(c.icon_url);
            lemma_norm_opt_idempotent(c.catalog_id);
            match client_metadata(e).usage {
                Some(k) => lemma_kind_text_reads_back(k),
                None => {},
            }
        },
        None => {},
    }
}

/// Whether a published host is a loopback host.
pub open spec fn loopback_host(host: Option<Seq<char>>) -> bool {
    tcp_host(host) matches Some(h) && is_local_host(h)
}

/// What reading published entries into ports asks of each of them.
proof fn lemma_publish_ports_facts(
    entries: Seq<(Seq<char>, FungiServicePublishEntryView)>,
    runtime: RuntimeKind,
    reserved: Set<u16>,
    cands: Seq<u16>,
    cursor: nat,
)
    requires
        publish_ports(entries, runtime, reserved, cands, cursor) is Some,
    ensures
        ({
            let ports = publish_ports(entries, runtime, reserved, cands, cursor).unwrap();
            &&& ports.len() == entries.len()
            &&& forall|i: int|
                0 <= i < ports.len() ==> {
                    &&& (#[trigger] ports[i]).name == norm_required(entries[i].0)
                    &&& norm_required(entries[i].0) is Some
                    &&& ports[i].service_port == entries[i].1.tcp.port
                    &&& entries[i].1.tcp.port != 0
                    &&& runtime == RuntimeKind::Docker ==> entries[i].1.tcp.host is None
                    &&& runtime != RuntimeKind::Docker ==> loopback_host(entries[i].1.tcp.host)
                }
        }),
    decreases entries.len(),
{
    if entries.len() > 0 {
        let (port, reserved2, cursor2) = publish_port(entries[0], runtime, reserved, cands, cursor).unwrap();
        lemma_publish_ports_facts(entries.drop_first(), runtime, reserved2, cands, cursor2);
        let rest = publish_ports(entries.drop_first(), runtime, reserved2, cands, cursor2).unwrap();
        let ports = publish_ports(entries, runtime, reserved, cands, cursor).unwrap();
        assert(ports == seq![port] + rest);
        assert forall|i: int| 0 < i < ports.len() implies (#[trigger] ports[i]) == rest[i - 1] && entries[i]
            == entries.drop_first()[i - 1] by {}
    }
}

/// Two published entries that a node reads alike.
pub open spec fn read_alike(
    a: (Seq<char>, FungiServicePublishEntryView),
    b: (Seq<char>, FungiServicePublishEntryView),
    runtime: RuntimeKind,
) -> bool {
    &&& norm_required(a.0) == norm_required(b.0)
    &&& a.1.tcp.port == b.1.tcp.port
    &&& runtime == RuntimeKind::Docker ==> (a.1.tcp.host is Some) == (b.1.tcp.host is Some)
    &&& runtime != RuntimeKind::Docker ==> loopback_host(a.1.tcp.host) == loopback_host(b.1.tcp.host)
}

/// Entries read alike, one by one, become the same ports.
proof fn lemma_publish_ports_alike(
    e1: Seq<(Seq<char>, FungiServicePublishEntryView)>,
    e2: Seq<(Seq<char>, FungiServicePublishEntryView)>,
    runtime: RuntimeKind,
    reserved: Set<u16>,
    cands: Seq<u16>,
    cursor: nat,
)
    requires
        e1.len() == e2.len(),
        forall|i: int| 0 <= i < e1.len() ==> read_alike(#[trigger] e1[i], e2[i], runtime),
    ensures
        publish_ports(e1, runtime, reserved, cands, cursor) == publish_ports(e2, runtime, reserved, cands, cursor),
    decreases e1.len(),
{
    if e1.len() > 0 {
        assert(read_alike(e1[0], e2[0], runtime));
        assert(publish_port(e1[0], runtime, reserved, cands, cursor) == publish_port(e2[0], runtime, reserved, cands, cursor));
        match publish_port(e1[0], runtime, reserved, cands, cursor) {
            Some((port, reserved2, cursor2)) => {
                assert forall|i: int| 0 <= i < e1.drop_first().len() implies read_alike(
                    #[trigger] e1.drop_first()[i],
                    e2.drop_first()[i],
                    runtime,
                ) by {
                    assert(read_alike(e1[i + 1], e2[i + 1], runtime));
                }
                lemma_publish_ports_alike(e1.drop_first(), e2.drop_first(), runtime, reserved2, cands, cursor2);
            },
            None => {},
        }
    }
}

/// The workload a document selects: from its run section, or, without
/// one, an existing local TCP service.
pub open spec fn document_source(d: FungiServiceDocumentView, base_dir: Seq<char>, roots: ManifestPathRoots) -> Option<
    RuntimeAndSourceView,
> {
    match d.run {
        Some(r) => run_source(r, d.publish, base_dir, roots),
        None => existing_tcp_source(d.publish),
    }
}

/// Whether the entry names of a document, trimmed, are strictly
/// increasing: no two of them trim to the same name, and trimming keeps
/// their order.
pub open spec fn trimmed_names_increasing(d: FungiServiceDocumentView) -> bool {
    forall|i: int, j: int|
        0 <= i < j < d.publish.len() ==> seq_lt(trim(#[trigger] d.publish[i].0), trim(#[trigger] d.publish[j].0))
}

/// A manifest as it reads back from the document it is stored as: the host
/// paths of its mounts are resolved once more against the node's
/// directories, and so is a component file's path, trimmed first.
pub open spec fn reread_manifest(m: ServiceManifestView, base_dir: Seq<char>, roots: ManifestPathRoots) -> ServiceManifestView {
    ServiceManifestView {
        source: match m.source {
            ServiceSourceView::WasmtimeFile { component } => ServiceSourceView::WasmtimeFile {
                component: resolved_path(trim(component), base_dir, roots),
            },
            _ => m.source,
        },
        mounts: m.mounts.map_values(
            |mt: ServiceMountView|
                ServiceMountView { host_path: resolved_path(mt.host_path, base_dir, roots), runtime_path: mt.runtime_path },
        ),
        ..m
    }
}

/// The entries a stored manifest publishes read as the service file's
/// entries did, in the same order.
proof fn lemma_stored_entries(
    d: FungiServiceDocumentView,
    base_dir: Seq<char>,
    roots: ManifestPathRoots,
    reserved: Set<u16>,
    offered: Seq<u16>,
)
    requires
        manifest_from_document(d, base_dir, roots, reserved, offered) is Some,
        trimmed_names_increasing(d),
    ensures
        ({
            let m = manifest_from_document(d, base_dir, roots, reserved, offered).unwrap();
            let pe = publish_entries(m);
            &&& sorted_from(pe) == pe
            &&& pe.len() == d.publish.len()
            &&& forall|i: int| 0 <= i < pe.len() ==> (#[trigger] pe[i]).1.tcp.port != 0
            &&& forall|i: int| 0 <= i < pe.len() ==> (#[trigger] pe[i]).1.client == client_of(m.expose)
            &&& publish_ports(pe, m.runtime, reserved, offered, 0) == Some(m.ports)
        }),
{
    let m = manifest_from_document(d, base_dir, roots, reserved, offered).unwrap();
    let ras = document_source(d, base_dir, roots).unwrap();
    lemma_publish_ports_facts(d.publish, ras.runtime, reserved, offered, 0);
    let pe = publish_entries(m);
    assert forall|i: int| 0 <= i < pe.len() implies (#[trigger] pe[i]).0 == trim(d.publish[i].0) by {
        assert(m.ports[i].name == norm_required(d.publish[i].0));
    }
    assert forall|i: int, j: int| 0 <= i < j < pe.len() implies seq_lt(#[trigger] pe[i].0, #[trigger] pe[j].0) by {
        assert(pe[i].0 == trim(d.publish[i].0));
        assert(pe[j].0 == trim(d.publish[j].0));
    }
    lemma_sorted_from_unchanged(pe);
    assert forall|i: int| 0 <= i < pe.len() implies read_alike(#[trigger] d.publish[i], pe[i], m.runtime) by {
        lemma_norm_required_idempotent(d.publish[i].0);
        assert(m.ports[i].name == norm_required(d.publish[i].0));
        match m.source {
            ServiceSourceView::ExistingTcp { host, port } => {
                lemma_local_host_trimmed(host);
            },
            _ => {},
        }
    }
    lemma_publish_ports_alike(d.publish, pe, m.runtime, reserved, offered, 0);
}

/// A stored manifest's document selects the workload the service file
/// did, a component file's path resolved once more.
proof fn lemma_stored_source(
    d: FungiServiceDocumentView,
    base_dir: Seq<char>,
    roots: ManifestPathRoots,
    reserved: Set<u16>,
    offered: Seq<u16>,
)
    requires
        manifest_from_document(d, base_dir, roots, reserved, offered) is Some,
        trimmed_names_increasing(d),
        !(manifest_from_document(d, base_dir, roots, reserved, offered).unwrap().source matches ServiceSourceView::WasmtimeFile {
            component,
        } && trim(component).len() == 0),
    ensures
        ({
            let m = manifest_from_document(d, base_dir, roots, reserved, offered).unwrap();
            let d2 = exported_document(m).unwrap();
            &&& exported_document(m) is Some
            &&& document_source(d2, base_dir, roots) == Some(
                RuntimeAndSourceView {
                    runtime: m.runtime,
                    run_mode: m.run_mode,
                    source: reread_manifest(m, base_dir, roots).source,
                },
            )
        }),
{
    let m = manifest_from_document(d, base_dir, roots, reserved, offered).unwrap();
    lemma_stored_entries(d, base_dir, roots, reserved, offered);
    let d2 = exported_document(m).unwrap();
    let pe = publish_entries(m);
    assert(d2.publish == pe);
    assert(!has_zero_port(pe)) by {
        if has_zero_port(pe) {
            let i = choose|i: int| 0 <= i < pe.len() && (#[trigger] pe[i]).1.tcp.port == 0;
            assert(pe[i].1.tcp.port != 0);
        }
    }
    match d.run {
        Some(r) => {
            lemma_norm_opt_idempotent(r.source.image);
            lemma_norm_opt_idempotent(r.source.url);
            lemma_norm_opt_idempotent(r.source.file);
            assert(docker_image(r.source) is Some ==> docker_image(r.source) == norm_opt(r.source.image));
        },
        None => {
            let host = tcp_host(d.publish[0].1.tcp.host).unwrap();
            lemma_local_host_trimmed(host);
        },
    }
}

/// A stored manifest's entries carry the client metadata that its expose
/// section was read from.
proof fn lemma_stored_expose(
    d: FungiServiceDocumentView,
    base_dir: Seq<char>,
    roots: ManifestPathRoots,
    reserved: Set<u16>,
    offered: Seq<u16>,
)
    requires
        manifest_from_document(d, base_dir, roots, reserved, offered) is Some,
        trimmed_names_increasing(d),
    ensures
        ({
            let m = manifest_from_document(d, base_dir, roots, reserved, offered).unwrap();
            publish_expose(publish_entries(m)) == Some(m.expose)
        }),
{
    let m = manifest_from_document(d, base_dir, roots, reserved, offered).unwrap();
    lemma_stored_entries(d, base_dir, roots, reserved, offered);
    let pe = publish_entries(m);
    let first = d.publish[0].1;
    assert(m.expose == Some(expose_of(client_metadata(first))));
    lemma_client_reads_back(first, pe[0].1.tcp);
    assert(pe[0].1 == FungiServicePublishEntryView { tcp: pe[0].1.tcp, client: client_of(m.expose) });
    assert forall|i: int| 1 <= i < pe.len() implies client_metadata(#[trigger] pe[i].1) == client_metadata(pe[0].1) by {
        assert(pe[i].1.client == pe[0].1.client);
    }
}

/// A manifest read from a service file, stored as a document and read back
/// on the same node, with the same host ports in use and on offer there,
/// comes back as it was, but that the host paths of its mounts and the
/// path of a component file are resolved once more. The service file's
/// entry names must keep their order once trimmed, and a component file's
/// resolved path must not be blank: otherwise the entries come back in
/// another order or merged, or the component is refused.
pub proof fn law_stored_manifest_reads_back(
    d: FungiServiceDocumentView,
    base_dir: Seq<char>,
    roots: ManifestPathRoots,
    reserved: Set<u16>,
    offered: Seq<u16>,
)
    requires
        manifest_from_document(d, base_dir, roots, reserved, offered) is Some,
        trimmed_names_increasing(d),
        !(manifest_from_document(d, base_dir, roots, reserved, offered).unwrap().source matches ServiceSourceView::WasmtimeFile {
            component,
        } && trim(component).len() == 0),
    ensures
        ({
            let m = manifest_from_document(d, base_dir, roots, reserved, offered).unwrap();
            &&& exported_document(m) is Some
            &&& manifest_from_document(exported_document(m).unwrap(), base_dir, roots, reserved, offered) == Some(
                reread_manifest(m, base_dir, roots),
            )
        }),
{
    let m = manifest_from_document(d, base_dir, roots, reserved, offered).unwrap();
    lemma_stored_entries(d, base_dir, roots, reserved, offered);
    lemma_stored_source(d, base_dir, roots, reserved, offered);
    lemma_stored_expose(d, base_dir, roots, reserved, offered);
    let d2 = exported_document(m).unwrap();
    lemma_norm_required_idempotent(d.id);
    match d.instance {
        Some(i) => lemma_norm_required_idempotent(i),
        None => {},
    }
    assert(doc_definition_id(d2) == m.definition_id);
    assert(doc_service_name(d2) == Some(m.name));
    let r = reread_manifest(m, base_dir, roots);
    match d.run {
        Some(run) => {
            assert(r.mounts =~= mounts_of(m.mounts).map_values(
                |mt: FungiServiceMountView| resolved_mount(mt, base_dir, roots),
            ));
        },
        None => {
            assert(r.mounts =~= Seq::<ServiceMountView>::empty());
        },
    }
}

/// A service stored by an upsert and written to its directory loads back as
/// the record it was stored as, read on the same node. After the upsert its
/// name gives its id and desired state; the state file written for it is
/// accepted from its directory with that id, and keeps the desired state;
/// the document written for its manifest reads back as the manifest, under
/// the same name, with its host paths resolved once more; and registering
/// that record in a store being loaded, which holds neither its name nor its
/// id yet, files it under the same id with the same desired state. The
/// manifest is one read from a service file whose entry names keep their
/// order once trimmed and whose component path, if any, is not blank.
pub proof fn law_upserted_service_loads_back(
    r: Seq<(Seq<char>, PersistedServiceView)>,
    loaded: Seq<(Seq<char>, PersistedServiceView)>,
    services_root: Seq<char>,
    id: Seq<char>,
    desired: DesiredServiceState,
    doc: FungiServiceDocumentView,
    base_dir: Seq<char>,
    roots: ManifestPathRoots,
    reserved: Set<u16>,
    offered: Seq<u16>,
)
    requires
        manifest_from_document(doc, base_dir, roots, reserved, offered) is Some,
        trimmed_names_increasing(doc),
        !(manifest_from_document(doc, base_dir, roots, reserved, offered).unwrap().source matches ServiceSourceView::WasmtimeFile {
            component,
        } && trim(component).len() == 0),
        records_wf(r),
        upsert_fits(r, id, manifest_from_document(doc, base_dir, roots, reserved, offered).unwrap().name),
        valid_local_id(id) == Some(id),
        records_wf(loaded),
        id_for_name(loaded, manifest_from_document(doc, base_dir, roots, reserved, offered).unwrap().name) is None,
        forall|j: int| 0 <= j < loaded.len() ==> (#[trigger] loaded[j]).0 != id,
    ensures
        ({
            let m = manifest_from_document(doc, base_dir, roots, reserved, offered).unwrap();
            let m2 = reread_manifest(m, base_dir, roots);
            &&& id_for_name(upserted(r, id, m, desired), m.name) == Some(id)
            &&& desired_for_name(upserted(r, id, m, desired), m.name) == Some(desired)
            &&& state_file_fits(SERVICE_STATE_SCHEMA_VERSION, id, join(services_root, id))
            &&& valid_local_id(id).unwrap() == id
            &&& exported_document(m) is Some
            &&& manifest_from_document(exported_document(m).unwrap(), base_dir, roots, reserved, offered) == Some(m2)
            &&& m2.name == m.name
            &&& records_wf(upserted(loaded, id, m2, desired))
            &&& id_for_name(upserted(loaded, id, m2, desired), m.name) == Some(id)
            &&& desired_for_name(upserted(loaded, id, m2, desired), m.name) == Some(desired)
        }),
{
    let m = manifest_from_document(doc, base_dir, roots, reserved, offered).unwrap();
    let m2 = reread_manifest(m, base_dir, roots);
    law_upsert(r, id, m, desired);
    law_written_state_file_fits_its_directory(services_root, id);
    law_stored_manifest_reads_back(doc, base_dir, roots, reserved, offered);
    law_upsert(loaded, id, m2, desired);
}

} // verus!
