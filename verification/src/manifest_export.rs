//! Writing a resolved manifest back as a `fungi: service/v1` document, as
//! the node stores it; and the front matter of a service file with its
//! document rewritten.

use vstd::prelude::*;

use crate::document::{
    FungiServiceClient, FungiServiceClientView, FungiServiceDocument, FungiServiceDocumentView, FungiServiceMount,
    FungiServiceMountView, FungiServiceProvider, FungiServicePublishEntry, FungiServicePublishEntryView,
    FungiServiceRun, FungiServiceRunView, FungiServiceSource, FungiServiceSourceView, FungiServiceTcp,
    FungiServiceTcpView,
};
use crate::model::{
    copy_opt, copy_pairs, copy_strings, ServiceExpose, ServiceExposeUsageKind, ServiceExposeView, ServiceManifest,
    ServiceManifestView, ServiceMountView, ServiceSource, ServiceSourceView,
};
use crate::ordered::{entry_views, ordered_insert, sorted_from};
use crate::text::{concat, decimal, str_eq, u64_string};

verus! {

/// The name a client kind is written with.
pub open spec fn usage_kind_text(k: ServiceExposeUsageKind) -> Seq<char> {
    match k {
        ServiceExposeUsageKind::Web => "web"@,
        ServiceExposeUsageKind::Ssh => "ssh"@,
        ServiceExposeUsageKind::Raw => "raw"@,
    }
}

/// The client metadata an exposed manifest publishes: the usage kind, the
/// path of a web usage, the icon and the catalog id; none when none of them
/// is set.
pub open spec fn client_of(expose: Option<ServiceExposeView>) -> Option<FungiServiceClientView> {
    match expose {
        None => None,
        Some(e) => {
            let kind = match e.usage {
                Some(u) => Some(usage_kind_text(u.kind)),
                None => None,
            };
            let path = match e.usage {
                Some(u) => if u.kind == ServiceExposeUsageKind::Web {
                    u.path
                } else {
                    None
                },
                None => None,
            };
            if kind is None && path is None && e.icon_url is None && e.catalog_id is None {
                None
            } else {
                Some(FungiServiceClientView { kind, path, icon_url: e.icon_url, catalog_id: e.catalog_id })
            }
        },
    }
}

/// The client metadata of an exposed manifest; see `client_of`.
pub fn manifest_client_to_fungi(expose: &Option<ServiceExpose>) -> (r: Option<FungiServiceClient>)
    ensures
        match r {
            Some(c) => client_of(match *expose { Some(e) => Some(e@), None => None }) == Some(c@),
            None => client_of(match *expose { Some(e) => Some(e@), None => None }) is None,
        },
{
    let e = match expose {
        Some(e) => e,
        None => return None,
    };
    let kind = match &e.usage {
        Some(u) => Some(
            match u.kind {
                ServiceExposeUsageKind::Web => "web".to_owned(),
                ServiceExposeUsageKind::Ssh => "ssh".to_owned(),
                ServiceExposeUsageKind::Raw => "raw".to_owned(),
            },
        ),
        None => None,
    };
    let path = match &e.usage {
        Some(u) => if u.kind == ServiceExposeUsageKind::Web {
            copy_opt(&u.path)
        } else {
            None
        },
        None => None,
    };
    if kind.is_none() && path.is_none() && e.icon_url.is_none() && e.catalog_id.is_none() {
        return None;
    }
    Some(FungiServiceClient { kind, path, icon_url: copy_opt(&e.icon_url), catalog_id: copy_opt(&e.catalog_id) })
}

/// The mounts of a manifest as a document writes them.
pub open spec fn mounts_of(mounts: Seq<ServiceMountView>) -> Seq<FungiServiceMountView> {
    mounts.map_values(|m: ServiceMountView| FungiServiceMountView { from: m.host_path, to: m.runtime_path })
}

/// How a manifest's workload is run: by docker from its image, or by
/// wasmtime from its file or URL, with its arguments, environment and
/// mounts; an existing TCP service has no `run`.
pub open spec fn run_of(m: ServiceManifestView) -> Option<FungiServiceRunView> {
    let none = FungiServiceSourceView { url: None, file: None, image: None };
    match m.source {
        ServiceSourceView::Docker { image } => Some(
            FungiServiceRunView {
                provider: FungiServiceProvider::Docker,
                source: FungiServiceSourceView { image: Some(image), ..none },
                args: m.command,
                env: m.env,
                mounts: mounts_of(m.mounts),
            },
        ),
        ServiceSourceView::WasmtimeFile { component } => Some(
            FungiServiceRunView {
                provider: FungiServiceProvider::Wasmtime,
                source: FungiServiceSourceView { file: Some(component), ..none },
                args: m.command,
                env: m.env,
                mounts: mounts_of(m.mounts),
            },
        ),
        ServiceSourceView::WasmtimeUrl { url } => Some(
            FungiServiceRunView {
                provider: FungiServiceProvider::Wasmtime,
                source: FungiServiceSourceView { url: Some(url), ..none },
                args: m.command,
                env: m.env,
                mounts: mounts_of(m.mounts),
            },
        ),
        ServiceSourceView::ExistingTcp { .. } => None,
    }
}

/// The name a publish entry gets when its port has none: `main` for the
/// first port, `main-<index>` for the others.
pub open spec fn fallback_entry_name(i: nat) -> Seq<char> {
    if i == 0 {
        "main"@
    } else {
        "main-"@ + decimal(i)
    }
}

/// The publish entry of each port, in port order: named by the port or by
/// its position, reached at the existing service's host and port or at the
/// port's service port, with the manifest's client metadata.
pub open spec fn publish_entries(m: ServiceManifestView) -> Seq<(Seq<char>, FungiServicePublishEntryView)> {
    Seq::new(
        m.ports.len(),
        |i: int|
            (
                match m.ports[i].name {
                    Some(n) => n,
                    None => fallback_entry_name(i as nat),
                },
                FungiServicePublishEntryView {
                    tcp: match m.source {
                        ServiceSourceView::ExistingTcp { host, port } => FungiServiceTcpView { host: Some(host), port },
                        _ => FungiServiceTcpView { host: None, port: m.ports[i].service_port },
                    },
                    client: client_of(m.expose),
                },
            ),
    )
}

/// The document a manifest is stored as; none when it uses what the format
/// cannot say (an entrypoint, a working directory or labels). The id is
/// the definition id, else the name; a name that differs from the id is the
/// instance; entries with the same name keep the last.
pub open spec fn exported_document(m: ServiceManifestView) -> Option<FungiServiceDocumentView> {
    if m.entrypoint.len() > 0 || m.working_dir is Some || m.labels.len() > 0 {
        None
    } else {
        let id = match m.definition_id {
            Some(d) => d,
            None => m.name,
        };
        Some(
            FungiServiceDocumentView {
                fungi: "service/v1"@,
                id,
                instance: if m.name != id {
                    Some(m.name)
                } else {
                    None
                },
                run: run_of(m),
                publish: sorted_from(publish_entries(m)),
            },
        )
    }
}

/// The document's mounts for a manifest's mounts.
fn manifest_mounts_to_fungi(manifest: &ServiceManifest) -> (r: Vec<FungiServiceMount>)
    ensures
        r@.map_values(|m: FungiServiceMount| m@) == mounts_of(manifest@.mounts),
{
    let mut out: Vec<FungiServiceMount> = Vec::new();
    let mut i: usize = 0;
    while i < manifest.mounts.len()
        invariant
            i <= manifest.mounts.len(),
            out@.len() == i,
            forall|j: int|
                0 <= j < i ==> (#[trigger] out@[j])@ == (FungiServiceMountView {
                    from: manifest@.mounts[j].host_path,
                    to: manifest@.mounts[j].runtime_path,
                }),
        decreases manifest.mounts.len() - i,
    {
        let m = &manifest.mounts[i];
        out.push(FungiServiceMount { from: m.host_path.clone(), to: m.runtime_path.clone() });
        i = i + 1;
    }
    proof {
        assert(out@.map_values(|m: FungiServiceMount| m@) =~= mounts_of(manifest@.mounts));
    }
    out
}

/// The `run` section for a manifest; see `run_of`.
fn run_to_fungi(manifest: &ServiceManifest) -> (r: Option<FungiServiceRun>)
    ensures
        match r {
            Some(run) => run_of(manifest@) == Some(run@),
            None => run_of(manifest@) is None,
        },
{
    let (provider, source) = match &manifest.source {
        ServiceSource::Docker { image } => (
            FungiServiceProvider::Docker,
            FungiServiceSource { url: None, file: None, image: Some(image.clone()) },
        ),
        ServiceSource::WasmtimeFile { component } => (
            FungiServiceProvider::Wasmtime,
            FungiServiceSource { url: None, file: Some(component.clone()), image: None },
        ),
        ServiceSource::WasmtimeUrl { url } => (
            FungiServiceProvider::Wasmtime,
            FungiServiceSource { url: Some(url.clone()), file: None, image: None },
        ),
        ServiceSource::ExistingTcp { .. } => return None,
    };
    Some(
        FungiServiceRun {
            provider,
            source,
            args: copy_strings(&manifest.command),
            env: copy_pairs(&manifest.env),
            mounts: manifest_mounts_to_fungi(manifest),
        },
    )
}

/// The publish entries of a manifest, by entry name; see `publish_entries`.
fn manifest_publish_to_fungi(manifest: &ServiceManifest) -> (r: Vec<(String, FungiServicePublishEntry)>)
    ensures
        entry_views(r@) == sorted_from(publish_entries(manifest@)),
{
    let ghost entries = publish_entries(manifest@);
    let mut publish: Vec<(String, FungiServicePublishEntry)> = Vec::new();
    let mut i: usize = 0;
    proof {
        assert(entries.take(0) =~= Seq::<(Seq<char>, FungiServicePublishEntryView)>::empty());
        assert(entry_views(publish@) =~= Seq::<(Seq<char>, FungiServicePublishEntryView)>::empty());
    }
    while i < manifest.ports.len()
        invariant
            i <= manifest.ports.len(),
            entries == publish_entries(manifest@),
            entry_views(publish@) == sorted_from(entries.take(i as int)),
        decreases manifest.ports.len() - i,
    {
        let port = &manifest.ports[i];
        let name = match &port.name {
            Some(n) => n.clone(),
            None => if i == 0 {
                "main".to_owned()
            } else {
                concat("main-", u64_string(i as u64).as_str())
            },
        };
        let tcp = match &manifest.source {
            ServiceSource::ExistingTcp { host, port } => FungiServiceTcp { host: Some(host.clone()), port: *port },
            _ => FungiServiceTcp { host: None, port: port.service_port },
        };
        let entry = FungiServicePublishEntry { tcp, client: manifest_client_to_fungi(&manifest.expose) };
        proof {
            assert(entries.take(i + 1).drop_last() =~= entries.take(i as int));
            assert(entries.take(i + 1).last() == entries[i as int]);
            assert(entries[i as int] == (name@, entry@));
        }
        ordered_insert(&mut publish, name, entry);
        i = i + 1;
    }
    proof {
        assert(entries.take(entries.len() as int) =~= entries);
    }
    publish
}

/// The document a manifest is stored as; see `exported_document`. The
/// error names what the format cannot say.
pub fn service_manifest_document(manifest: &ServiceManifest) -> (r: Result<FungiServiceDocument, String>)
    ensures
        match r {
            Ok(d) => exported_document(manifest@) == Some(d@),
            Err(e) => exported_document(manifest@) is None && e@ == (if manifest@.entrypoint.len() > 0 {
                "fungi: service/v1 does not support entrypoint"@
            } else if manifest@.working_dir is Some {
                "fungi: service/v1 does not support working_dir"@
            } else {
                "fungi: service/v1 does not support labels"@
            }),
        },
{
    let run = run_to_fungi(manifest);
    if manifest.entrypoint.len() > 0 {
        return Err("fungi: service/v1 does not support entrypoint".to_owned());
    }
    if manifest.working_dir.is_some() {
        return Err("fungi: service/v1 does not support working_dir".to_owned());
    }
    if manifest.labels.len() > 0 {
        return Err("fungi: service/v1 does not support labels".to_owned());
    }
    let id = match &manifest.definition_id {
        Some(d) => d.clone(),
        None => manifest.name.clone(),
    };
    let instance = if str_eq(manifest.name.as_str(), id.as_str()) {
        None
    } else {
        Some(manifest.name.clone())
    };
    let publish = manifest_publish_to_fungi(manifest);
    Ok(FungiServiceDocument { fungi: "service/v1".to_owned(), id, instance, run, publish })
}

/// YAML text without a leading `---` document start line, ending with a
/// line feed.
pub open spec fn without_document_start(yaml: Seq<char>) -> Seq<char> {
    let body = if yaml.len() >= 4 && yaml.take(4) == "---\n"@ {
        yaml.skip(4)
    } else if yaml.len() >= 5 && yaml.take(5) == "---\r\n"@ {
        yaml.skip(5)
    } else {
        yaml
    };
    if body.len() > 0 && body.last() == '\n' {
        body
    } else {
        body.push('\n')
    }
}

/// Removes a leading document start line from YAML text and ends it with a
/// line feed; see `without_document_start`.
pub fn yaml_without_document_start(yaml: String) -> (r: String)
    ensures
        r@ == without_document_start(yaml@),
{
    let cs = crate::text::chars_of(yaml.as_str());
    proof {
        reveal_strlit("---\n");
        reveal_strlit("---\r\n");
    }
    let start: usize = if cs.len() >= 4 && cs[0] == '-' && cs[1] == '-' && cs[2] == '-' && cs[3] == '\n' {
        proof {
            assert(cs@.take(4) =~= "---\n"@);
        }
        4
    } else if cs.len() >= 5 && cs[0] == '-' && cs[1] == '-' && cs[2] == '-' && cs[3] == '\r' && cs[4] == '\n' {
        proof {
            assert(cs@.take(5) =~= "---\r\n"@);
            assert(cs@.take(4) != "---\n"@) by {
                assert(cs@.take(4)[3] != "---\n"@[3]);
            }
        }
        5
    } else {
        proof {
            if cs@.len() >= 4 && cs@.take(4) == "---\n"@ {
                assert(cs@[0] == cs@.take(4)[0]);
                assert(cs@[3] == cs@.take(4)[3]);
            }
            if cs@.len() >= 5 && cs@.take(5) == "---\r\n"@ {
                assert(cs@[0] == cs@.take(5)[0]);
                assert(cs@[4] == cs@.take(5)[4]);
            }
        }
        0
    };
    let mut body = crate::text::slice_chars(&cs, start, cs.len());
    proof {
        assert(body@ =~= cs@.skip(start as int));
        if start == 0 {
            assert(cs@.skip(0) =~= cs@);
        }
    }
    if body.len() == 0 || body[body.len() - 1] != '\n' {
        body.push('\n');
    }
    crate::text::string_from(body.as_slice())
}

/// A service file made of front matter and a body: the YAML between `---`
/// lines, then the body.
pub open spec fn front_matter_file(yaml: Seq<char>, body: Seq<char>) -> Seq<char> {
    "---\n"@ + yaml + "---\n"@ + body
}

/// Writes front matter and a body back into a service file; see
/// `front_matter_file`.
pub fn front_matter_with_body(yaml: &str, body: &str) -> (r: String)
    ensures
        r@ == front_matter_file(yaml@, body@),
{
    let mut r = concat("---\n", yaml);
    crate::text::push_str(&mut r, "---\n");
    crate::text::push_str(&mut r, body);
    r
}

/// The document of a service file renamed to the instance `service_name`
/// (trimmed), with the body that followed its front matter, if it had one;
/// an error when the name is blank or the file holds no service document.
pub fn document_with_instance_name(content: &str, service_name: &str) -> (r: Result<
    (FungiServiceDocument, Option<String>),
    String,
>)
    ensures
        match r {
            Ok((d, body)) => {
                &&& crate::manifest::norm_required(service_name@) is Some
                &&& crate::service_file::required_document(content@) matches Some(orig) && d@ == (FungiServiceDocumentView {
                    instance: Some(crate::manifest::norm_required(service_name@).unwrap()),
                    ..orig
                })
                &&& match crate::service_file::front_matter(content@) {
                    Ok(Some((_, b))) => body is Some && body->0@ == b,
                    _ => body is None,
                }
            },
            Err(_) => crate::manifest::norm_required(service_name@) is None
                || crate::service_file::required_document(content@) is None,
        },
{
    let name = crate::manifest::normalize_non_empty(service_name, "service name")?;
    let body = match crate::service_file::split_front_matter(content)? {
        Some((_yaml, b)) => Some(b),
        None => None,
    };
    let mut document = crate::service_file::parse_required_fungi_service_document(content)?;
    document.set_instance_name(name);
    Ok((document, body))
}

} // verus!
