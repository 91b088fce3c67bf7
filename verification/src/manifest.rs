//! Turning a `fungi: service/v1` document into a service manifest for this
//! node: names, the workload source, published ports and client metadata.

use vstd::prelude::*;

use crate::document::{
    FungiServiceDocument, FungiServiceDocumentView, FungiServiceProvider, FungiServicePublishEntry,
    FungiServicePublishEntryView, FungiServiceRun, FungiServiceRunView, FungiServiceSource,
    FungiServiceSourceView,
};
use crate::model::{
    copy_opt, copy_pairs, copy_strings, opt_text, ManifestResolutionPolicy, RuntimeKind, ServiceExpose,
    ServiceExposeTransport, ServiceExposeTransportKind, ServiceExposeUsage, ServiceExposeUsageKind,
    ServiceExposeUsageView, ServiceExposeView, ServiceManifest, ServiceManifestView, ServiceMount,
    ServiceMountView, ServicePort, ServicePortAllocation, ServicePortProtocol, ServicePortView,
    ServiceRunMode, ServiceSource, ServiceSourceView,
};
use crate::ordered::entry_views;
use crate::paths::{resolve_manifest_path_string, resolved_path, ManifestPathRoots};
use crate::document::FungiServiceMountView;
use crate::text::{decimal, 
    ascii_lowercase, ascii_lowercase_chars, chars_eq, chars_of, concat, concat3, str_eq, string_from,
    trim, trim_str, u64_string,
};
use std::collections::BTreeSet;

verus! {

broadcast use vstd::laws_cmp::group_laws_cmp;

/// A required value with surrounding whitespace removed; `None` when
/// nothing is left.
pub open spec fn norm_required(s: Seq<char>) -> Option<Seq<char>> {
    if trim(s).len() > 0 {
        Some(trim(s))
    } else {
        None
    }
}

/// An optional value with surrounding whitespace removed; blank becomes
/// `None`.
pub open spec fn norm_opt(o: Option<Seq<char>>) -> Option<Seq<char>> {
    match o {
        Some(s) => norm_required(s),
        None => None,
    }
}

/// Trims a required value; a blank value is an error naming the field.
pub fn normalize_non_empty(value: &str, field_name: &str) -> (r: Result<String, String>)
    ensures
        match r {
            Ok(s) => norm_required(value@) == Some(s@),
            Err(e) => norm_required(value@) is None && e@ == field_name@ + " must not be empty"@,
        },
{
    let trimmed = trim_str(value);
    if trimmed.as_str().is_empty() {
        proof {
            assert(trimmed@.len() == 0);
        }
        return Err(concat(field_name, " must not be empty"));
    }
    proof {
        assert(trimmed@.len() > 0);
    }
    Ok(trimmed)
}

/// Trims an optional value; a blank value becomes `None`.
pub fn normalize_optional(value: Option<String>) -> (r: Option<String>)
    ensures
        opt_text(r) == norm_opt(opt_text(value)),
{
    match value {
        Some(v) => {
            let trimmed = trim_str(v.as_str());
            if trimmed.as_str().is_empty() {
                proof {
                    assert(trimmed@.len() == 0);
                }
                None
            } else {
                proof {
                    assert(trimmed@.len() > 0);
                }
                Some(trimmed)
            }
        },
        None => None,
    }
}

fn normalize_optional_ref(value: &Option<String>) -> (r: Option<String>)
    ensures
        opt_text(r) == norm_opt(opt_text(*value)),
{
    match value {
        Some(v) => normalize_optional(Some(v.clone())),
        None => None,
    }
}

/// A document's definition id: its trimmed `id`.
pub open spec fn doc_definition_id(d: FungiServiceDocumentView) -> Option<Seq<char>> {
    norm_required(d.id)
}

/// A document's service name: its trimmed `instance` when it has one, else
/// its definition id.
pub open spec fn doc_service_name(d: FungiServiceDocumentView) -> Option<Seq<char>> {
    match d.instance {
        Some(i) => norm_required(i),
        None => doc_definition_id(d),
    }
}

/// The refusal of a document without a service name: a blank instance, or
/// with no instance, a blank id.
pub open spec fn service_name_error(d: FungiServiceDocumentView) -> Seq<char> {
    match d.instance {
        Some(_) => "instance must not be empty"@,
        None => "id must not be empty"@,
    }
}

/// `e` refuses the first published entry with port 0.
pub open spec fn refuses_first_zero_port(publish: Seq<(Seq<char>, FungiServicePublishEntryView)>, e: Seq<char>) -> bool {
    exists|j: int|
        0 <= j < publish.len() && (#[trigger] publish[j]).1.tcp.port == 0 && (forall|k: int|
            0 <= k < j ==> (#[trigger] publish[k]).1.tcp.port != 0) && e == zero_port_text(publish[j].0)
}

impl FungiServiceDocument {
    /// The trimmed `id`.
    pub fn definition_id(&self) -> (r: Result<String, String>)
        ensures
            match r {
                Ok(s) => doc_definition_id(self@) == Some(s@),
                Err(e) => doc_definition_id(self@) is None && e@ == "id must not be empty"@,
            },
    {
        proof {
            reveal_strlit("id");
            reveal_strlit(" must not be empty");
            reveal_strlit("id must not be empty");
        }
        normalize_non_empty(self.id.as_str(), "id")
    }

    /// The service name: the trimmed `instance`, or the definition id.
    pub fn service_name(&self) -> (r: Result<String, String>)
        ensures
            match r {
                Ok(s) => doc_service_name(self@) == Some(s@),
                Err(e) => doc_service_name(self@) is None && e@ == service_name_error(self@),
            },
    {
        proof {
            reveal_strlit("instance");
            reveal_strlit(" must not be empty");
            reveal_strlit("instance must not be empty");
        }
        match &self.instance {
            Some(instance) => normalize_non_empty(instance.as_str(), "instance"),
            None => self.definition_id(),
        }
    }

    /// Sets the instance name.
    pub fn set_instance_name(&mut self, service_name: String)
        ensures
            final(self)@ == (FungiServiceDocumentView {
                instance: Some(service_name@),
                ..old(self)@
            }),
    {
        self.instance = Some(service_name);
    }
}

/// The runtime, run mode and source a document's run section selects.
#[derive(Debug, Clone)]
pub struct RuntimeAndSource {
    pub runtime: RuntimeKind,
    pub run_mode: ServiceRunMode,
    pub source: ServiceSource,
}

pub struct RuntimeAndSourceView {
    pub runtime: RuntimeKind,
    pub run_mode: ServiceRunMode,
    pub source: ServiceSourceView,
}

impl View for RuntimeAndSource {
    type V = RuntimeAndSourceView;

    open spec fn view(&self) -> RuntimeAndSourceView {
        RuntimeAndSourceView { runtime: self.runtime, run_mode: self.run_mode, source: self.source@ }
    }
}

/// Whether some published entry has port 0.
pub open spec fn has_zero_port(publish: Seq<(Seq<char>, FungiServicePublishEntryView)>) -> bool {
    exists|i: int| 0 <= i < publish.len() && (#[trigger] publish[i]).1.tcp.port == 0
}

/// The number of source fields that are set once blanks are dropped.
pub open spec fn source_count(s: FungiServiceSourceView) -> int {
    (if norm_opt(s.url) is Some { 1int } else { 0int }) + (if norm_opt(s.file) is Some {
        1int
    } else {
        0int
    }) + (if norm_opt(s.image) is Some { 1int } else { 0int })
}

/// The image of a docker source: exactly one source field is set, and it is
/// `image`.
pub open spec fn docker_image(s: FungiServiceSourceView) -> Option<Seq<char>> {
    if source_count(s) == 1 && norm_opt(s.image) is Some {
        norm_opt(s.image)
    } else {
        None
    }
}

/// `e` refuses a docker source: not exactly one of url, file or image is
/// set, or the one set is not the image.
pub open spec fn docker_source_error(s: FungiServiceSourceView, field_name: Seq<char>, e: Seq<char>) -> bool {
    if source_count(s) != 1 {
        e == field_name + " must set exactly one of url, file, or image"@
    } else {
        e == "provider: docker requires source.image, not source.url or source.file"@
    }
}

/// `e` refuses a run section: a published port 0 first, then the source
/// its provider cannot use.
pub open spec fn run_error(
    run: FungiServiceRunView,
    publish: Seq<(Seq<char>, FungiServicePublishEntryView)>,
    e: Seq<char>,
) -> bool {
    if has_zero_port(publish) {
        refuses_first_zero_port(publish, e)
    } else {
        match run.provider {
            FungiServiceProvider::Docker => docker_source_error(run.source, "run.source"@, e),
            FungiServiceProvider::Wasmtime => {
                let file = norm_opt(run.source.file);
                let url = norm_opt(run.source.url);
                let image = norm_opt(run.source.image);
                if file is None && url is None && image is Some {
                    e == "provider: wasmtime requires source.url or source.file, not source.image"@
                } else if file is None && url is None && image is None {
                    e == "provider: wasmtime requires source.url or source.file"@
                } else {
                    e == "provider: wasmtime accepts exactly one of source.url or source.file"@
                }
            },
        }
    }
}

/// What a run section selects.
pub open spec fn run_source(
    run: FungiServiceRunView,
    publish: Seq<(Seq<char>, FungiServicePublishEntryView)>,
    base_dir: Seq<char>,
    roots: ManifestPathRoots,
) -> Option<RuntimeAndSourceView> {
    if has_zero_port(publish) {
        None
    } else {
        match run.provider {
            FungiServiceProvider::Docker => match docker_image(run.source) {
                Some(image) => Some(
                    RuntimeAndSourceView {
                        runtime: RuntimeKind::Docker,
                        run_mode: ServiceRunMode::Command,
                        source: ServiceSourceView::Docker { image },
                    },
                ),
                None => None,
            },
            FungiServiceProvider::Wasmtime => {
                let file = norm_opt(run.source.file);
                let url = norm_opt(run.source.url);
                let image = norm_opt(run.source.image);
                if file is Some && url is None && image is None {
                    Some(
                        RuntimeAndSourceView {
                            runtime: RuntimeKind::Wasmtime,
                            run_mode: ServiceRunMode::Command,
                            source: ServiceSourceView::WasmtimeFile {
                                component: resolved_path(file.unwrap(), base_dir, roots),
                            },
                        },
                    )
                } else if file is None && url is Some && image is None {
                    Some(
                        RuntimeAndSourceView {
                            runtime: RuntimeKind::Wasmtime,
                            run_mode: ServiceRunMode::Command,
                            source: ServiceSourceView::WasmtimeUrl { url: url.unwrap() },
                        },
                    )
                } else {
                    None
                }
            },
        }
    }
}

/// Reads the image of a docker source.
pub fn exactly_one_source(source: &FungiServiceSource, field_name: &str) -> (r: Result<String, String>)
    ensures
        match r {
            Ok(s) => docker_image(source@) == Some(s@),
            Err(e) => docker_image(source@) is None && docker_source_error(source@, field_name@, e@),
        },
{
    let url = normalize_optional_ref(&source.url);
    let file = normalize_optional_ref(&source.file);
    let image = normalize_optional_ref(&source.image);
    let count: usize = (if url.is_some() { 1 } else { 0 }) + (if file.is_some() { 1 } else { 0 }) + (
    if image.is_some() {
        1
    } else {
        0
    });
    if count != 1 {
        return Err(concat(field_name, " must set exactly one of url, file, or image"));
    }
    match image {
        Some(i) => Ok(i),
        None => Err("provider: docker requires source.image, not source.url or source.file".to_owned()),
    }
}

/// The first published entry with port 0, if any.
fn first_zero_port(publish: &Vec<(String, FungiServicePublishEntry)>) -> (r: Option<usize>)
    ensures
        match r {
            Some(i) => i < publish@.len() && entry_views(publish@)[i as int].1.tcp.port == 0 && forall|k: int|
                0 <= k < i ==> (#[trigger] entry_views(publish@)[k]).1.tcp.port != 0,
            None => !has_zero_port(entry_views(publish@)),
        },
{
    let mut i: usize = 0;
    while i < publish.len()
        invariant
            i <= publish.len(),
            forall|j: int| 0 <= j < i ==> (#[trigger] publish@[j]).1.tcp.port != 0,
        decreases publish.len() - i,
    {
        if publish[i].1.tcp.port == 0 {
            proof {
                let pv = entry_views(publish@);
                assert forall|k: int| 0 <= k < i implies (#[trigger] pv[k]).1.tcp.port != 0 by {
                    assert(pv[k].1 == publish@[k].1@);
                }
            }
            return Some(i);
        }
        i = i + 1;
    }
    proof {
        let pv = entry_views(publish@);
        assert forall|j: int| 0 <= j < pv.len() implies (#[trigger] pv[j]).1.tcp.port != 0 by {
            assert(pv[j].1 == publish@[j].1@);
        }
    }
    None
}

/// The refusal of a published entry with port 0.
pub open spec fn zero_port_text(name: Seq<char>) -> Seq<char> {
    "publish."@ + name + ".tcp.port must be greater than 0"@
}

/// The error for a published entry with port 0.
fn zero_port_message(name: &str) -> (r: String)
    ensures
        r@ == zero_port_text(name@),
{
    concat3("publish.", name, ".tcp.port must be greater than 0")
}

/// Reads a run section: the provider and its source.
pub fn parse_fungi_run(
    run: &FungiServiceRun,
    publish: &Vec<(String, FungiServicePublishEntry)>,
    base_dir: &str,
    path_roots: &ManifestPathRoots,
) -> (r: Result<RuntimeAndSource, String>)
    ensures
        match r {
            Ok(x) => run_source(run@, entry_views(publish@), base_dir@, *path_roots) == Some(x@),
            Err(e) => run_source(run@, entry_views(publish@), base_dir@, *path_roots) is None && run_error(
                run@,
                entry_views(publish@),
                e@,
            ),
        },
{
    if let Some(i) = first_zero_port(publish) {
        let msg = zero_port_message(publish[i].0.as_str());
        proof {
            let pv = entry_views(publish@);
            assert(pv[i as int].0 == publish@[i as int].0@);
            assert(refuses_first_zero_port(pv, msg@));
        }
        return Err(msg);
    }
    match run.provider {
        FungiServiceProvider::Docker => {
            let image = exactly_one_source(&run.source, "run.source")?;
            Ok(
                RuntimeAndSource {
                    runtime: RuntimeKind::Docker,
                    run_mode: ServiceRunMode::Command,
                    source: ServiceSource::Docker { image },
                },
            )
        },
        FungiServiceProvider::Wasmtime => {
            let file = normalize_optional_ref(&run.source.file);
            let url = normalize_optional_ref(&run.source.url);
            let image = normalize_optional_ref(&run.source.image);
            let source = match (file, url, image) {
                (Some(file), None, None) => ServiceSource::WasmtimeFile {
                    component: resolve_manifest_path_string(file.as_str(), base_dir, path_roots),
                },
                (None, Some(url), None) => ServiceSource::WasmtimeUrl { url },
                (None, None, Some(_)) => {
                    return Err(
                        "provider: wasmtime requires source.url or source.file, not source.image".to_owned(),
                    );
                },
                (None, None, None) => {
                    return Err("provider: wasmtime requires source.url or source.file".to_owned());
                },
                _ => {
                    return Err(
                        "provider: wasmtime accepts exactly one of source.url or source.file".to_owned(),
                    );
                },
            };
            Ok(RuntimeAndSource { runtime: RuntimeKind::Wasmtime, run_mode: ServiceRunMode::Command, source })
        },
    }
}

/// A published host: the trimmed `host`, or `127.0.0.1` when absent.
pub open spec fn tcp_host(host: Option<Seq<char>>) -> Option<Seq<char>> {
    match host {
        Some(h) => norm_required(h),
        None => Some("127.0.0.1"@),
    }
}

/// Whether a host is one that published entries may use: the loopback
/// address or `localhost`.
pub open spec fn is_local_host(h: Seq<char>) -> bool {
    h == "127.0.0.1"@ || h == "localhost"@
}

/// Reads a published host.
pub fn normalize_fungi_tcp_host(value: &Option<String>, field_name: &str) -> (r: Result<String, String>)
    ensures
        match r {
            Ok(s) => tcp_host(opt_text(*value)) == Some(s@),
            Err(e) => tcp_host(opt_text(*value)) is None && e@ == field_name@ + " must not be empty"@,
        },
{
    match value {
        Some(v) => normalize_non_empty(v.as_str(), field_name),
        None => Ok("127.0.0.1".to_owned()),
    }
}

fn local_host(h: &str) -> (r: bool)
    ensures
        r == is_local_host(h@),
{
    str_eq(h, "127.0.0.1") || str_eq(h, "localhost")
}

/// What a service file without a run section selects: its one published
/// entry is an existing local TCP service.
pub open spec fn existing_tcp_source(publish: Seq<(Seq<char>, FungiServicePublishEntryView)>) -> Option<
    RuntimeAndSourceView,
> {
    if publish.len() != 1 {
        None
    } else {
        let entry = publish[0].1;
        match tcp_host(entry.tcp.host) {
            Some(host) => if is_local_host(host) && entry.tcp.port != 0 {
                Some(
                    RuntimeAndSourceView {
                        runtime: RuntimeKind::External,
                        run_mode: ServiceRunMode::Command,
                        source: ServiceSourceView::ExistingTcp { host, port: entry.tcp.port },
                    },
                )
            } else {
                None
            },
            None => None,
        }
    }
}

/// `e` is the refusal of a service file without a run section: not exactly
/// one published entry; a blank host; a host other than the loopback
/// address or `localhost`; or port 0.
pub open spec fn existing_tcp_error(publish: Seq<(Seq<char>, FungiServicePublishEntryView)>, e: Seq<char>) -> bool {
    if publish.len() != 1 {
        e == "service files without run currently support exactly one publish entry"@
    } else {
        let name = publish[0].0;
        let entry = publish[0].1;
        match tcp_host(entry.tcp.host) {
            None => e == "publish."@ + name + ".tcp.host"@ + " must not be empty"@,
            Some(host) => if !is_local_host(host) {
                e == "publish."@ + name + ".tcp.host currently supports only 127.0.0.1 or localhost"@
            } else {
                e == zero_port_text(name)
            },
        }
    }
}

/// Reads a service file without a run section.
pub fn parse_fungi_existing_tcp_run(publish: &Vec<(String, FungiServicePublishEntry)>) -> (r: Result<
    RuntimeAndSource,
    String,
>)
    ensures
        match r {
            Ok(x) => existing_tcp_source(entry_views(publish@)) == Some(x@),
            Err(e) => existing_tcp_source(entry_views(publish@)) is None && existing_tcp_error(entry_views(publish@), e@),
        },
{
    if publish.len() != 1 {
        return Err("service files without run currently support exactly one publish entry".to_owned());
    }
    let name = &publish[0].0;
    let entry = &publish[0].1;
    let field = concat3("publish.", name.as_str(), ".tcp.host");
    let host = normalize_fungi_tcp_host(&entry.tcp.host, field.as_str())?;
    if !local_host(host.as_str()) {
        return Err(
            concat3("publish.", name.as_str(), ".tcp.host currently supports only 127.0.0.1 or localhost"),
        );
    }
    if entry.tcp.port == 0 {
        return Err(zero_port_message(name.as_str()));
    }
    Ok(
        RuntimeAndSource {
            runtime: RuntimeKind::External,
            run_mode: ServiceRunMode::Command,
            source: ServiceSource::ExistingTcp { host, port: entry.tcp.port },
        },
    )
}


// ---------------------------------------------------------------------------
// Published ports.
// ---------------------------------------------------------------------------

/// How many host ports the node is asked for when it picks one.
pub const AUTO_HOST_PORT_ATTEMPTS: usize = 64;

/// The host port picked for an automatic entry: the first offered port,
/// from `cursor` on and within `attempts` offers, that is not reserved yet;
/// with the position after it.
pub open spec fn auto_port(reserved: Set<u16>, cands: Seq<u16>, cursor: nat, attempts: nat) -> Option<
    (u16, nat),
>
    decreases attempts,
{
    if attempts == 0 || cursor >= cands.len() {
        None
    } else if !reserved.contains(cands[cursor as int]) {
        Some((cands[cursor as int], cursor + 1))
    } else {
        auto_port(reserved, cands, cursor + 1, (attempts - 1) as nat)
    }
}

/// One published entry as a port of the manifest, with the reserved ports
/// and the offer position after it.
pub open spec fn publish_port(
    e: (Seq<char>, FungiServicePublishEntryView),
    runtime: RuntimeKind,
    reserved: Set<u16>,
    cands: Seq<u16>,
    cursor: nat,
) -> Option<(ServicePortView, Set<u16>, nat)> {
    match norm_required(e.0) {
        None => None,
        Some(name) => if e.1.tcp.port == 0 {
            None
        } else {
            match runtime {
                RuntimeKind::Docker => if e.1.tcp.host is Some {
                    None
                } else {
                    match auto_port(reserved, cands, cursor, AUTO_HOST_PORT_ATTEMPTS as nat) {
                        Some((p, next)) => Some(
                            (
                                ServicePortView {
                                    name: Some(name),
                                    host_port: p,
                                    host_port_allocation: ServicePortAllocation::Auto,
                                    service_port: e.1.tcp.port,
                                    protocol: ServicePortProtocol::Tcp,
                                },
                                reserved.insert(p),
                                next,
                            ),
                        ),
                        None => None,
                    }
                },
                _ => match tcp_host(e.1.tcp.host) {
                    Some(h) => if is_local_host(h) && !reserved.contains(e.1.tcp.port) {
                        Some(
                            (
                                ServicePortView {
                                    name: Some(name),
                                    host_port: e.1.tcp.port,
                                    host_port_allocation: ServicePortAllocation::Fixed,
                                    service_port: e.1.tcp.port,
                                    protocol: ServicePortProtocol::Tcp,
                                },
                                reserved.insert(e.1.tcp.port),
                                cursor,
                            ),
                        )
                    } else {
                        None
                    },
                    None => None,
                },
            }
        },
    }
}

/// `msg` refuses a published entry that `publish_port` does not take: a
/// blank key, port 0, a host with provider docker or no host port left to
/// allocate, a blank or non-local host, or a host port already reserved.
pub open spec fn port_error(
    e: (Seq<char>, FungiServicePublishEntryView),
    runtime: RuntimeKind,
    reserved: Set<u16>,
    msg: Seq<char>,
) -> bool {
    match norm_required(e.0) {
        None => msg == "publish entry key"@ + " must not be empty"@,
        Some(name) => if e.1.tcp.port == 0 {
            msg == zero_port_text(name)
        } else {
            match runtime {
                RuntimeKind::Docker => if e.1.tcp.host is Some {
                    msg == "publish."@ + name + ".tcp.host is not used with provider: docker; omit it"@
                } else {
                    msg == "failed to allocate host port automatically from the operating system"@
                },
                _ => match tcp_host(e.1.tcp.host) {
                    None => msg == "publish."@ + name + ".tcp.host"@ + " must not be empty"@,
                    Some(h) => if !is_local_host(h) {
                        msg == "publish."@ + name + ".tcp.host currently supports only 127.0.0.1 or localhost"@
                    } else {
                        msg == "publish."@ + name + ".tcp.port "@ + decimal(e.1.tcp.port as nat)
                            + " is already reserved"@
                    },
                },
            }
        },
    }
}

/// `msg` refuses the first published entry that `publish_ports` does not
/// take, the entries before it having been taken.
pub open spec fn ports_error(
    entries: Seq<(Seq<char>, FungiServicePublishEntryView)>,
    runtime: RuntimeKind,
    reserved: Set<u16>,
    cands: Seq<u16>,
    cursor: nat,
    msg: Seq<char>,
) -> bool
    decreases entries.len(),
{
    if entries.len() == 0 {
        false
    } else {
        match publish_port(entries[0], runtime, reserved, cands, cursor) {
            None => port_error(entries[0], runtime, reserved, msg),
            Some((_, reserved2, cursor2)) => ports_error(entries.drop_first(), runtime, reserved2, cands, cursor2, msg),
        }
    }
}

/// All published entries as ports, in key order.
pub open spec fn publish_ports(
    entries: Seq<(Seq<char>, FungiServicePublishEntryView)>,
    runtime: RuntimeKind,
    reserved: Set<u16>,
    cands: Seq<u16>,
    cursor: nat,
) -> Option<Seq<ServicePortView>>
    decreases entries.len(),
{
    if entries.len() == 0 {
        Some(Seq::empty())
    } else {
        match publish_port(entries[0], runtime, reserved, cands, cursor) {
            Some((port, reserved2, cursor2)) => match publish_ports(
                entries.drop_first(),
                runtime,
                reserved2,
                cands,
                cursor2,
            ) {
                Some(rest) => Some(seq![port] + rest),
                None => None,
            },
            None => None,
        }
    }
}

/// Picks a host port from the offered ones, as `auto_port` says.
pub fn allocate_auto_host_port(
    reserved_host_ports: &mut BTreeSet<u16>,
    candidates: &Vec<u16>,
    cursor: &mut usize,
) -> (r: Result<u16, String>)
    ensures
        match r {
            Ok(p) => auto_port(old(reserved_host_ports)@, candidates@, *old(cursor) as nat, AUTO_HOST_PORT_ATTEMPTS as nat)
                == Some((p, *final(cursor) as nat)) && final(reserved_host_ports)@ == old(reserved_host_ports)@.insert(p),
            Err(e) => auto_port(old(reserved_host_ports)@, candidates@, *old(cursor) as nat, AUTO_HOST_PORT_ATTEMPTS as nat) is None
                && e@ == "failed to allocate host port automatically from the operating system"@,
        },
{
    let mut attempts: usize = AUTO_HOST_PORT_ATTEMPTS;
    let ghost start = *cursor;
    while attempts > 0 && *cursor < candidates.len()
        invariant
            auto_port(old(reserved_host_ports)@, candidates@, start as nat, AUTO_HOST_PORT_ATTEMPTS as nat)
                == auto_port(reserved_host_ports@, candidates@, *cursor as nat, attempts as nat),
            reserved_host_ports@ == old(reserved_host_ports)@,
            start == *old(cursor),
        decreases attempts,
    {
        let port = candidates[*cursor];
        if !reserved_host_ports.contains(&port) {
            reserved_host_ports.insert(port);
            *cursor = *cursor + 1;
            return Ok(port);
        }
        *cursor = *cursor + 1;
        attempts = attempts - 1;
    }
    Err("failed to allocate host port automatically from the operating system".to_owned())
}

/// Reads one published entry as a port.
fn parse_fungi_publish_entry(
    name: &str,
    entry: &FungiServicePublishEntry,
    runtime: RuntimeKind,
    reserved_host_ports: &mut BTreeSet<u16>,
    candidates: &Vec<u16>,
    cursor: &mut usize,
) -> (r: Result<ServicePort, String>)
    ensures
        match r {
            Ok(p) => publish_port((name@, entry@), runtime, old(reserved_host_ports)@, candidates@, *old(cursor) as nat)
                == Some((p@, final(reserved_host_ports)@, *final(cursor) as nat)),
            Err(e) => publish_port((name@, entry@), runtime, old(reserved_host_ports)@, candidates@, *old(cursor) as nat) is None
                && port_error((name@, entry@), runtime, old(reserved_host_ports)@, e@),
        },
{
    let name = normalize_non_empty(name, "publish entry key")?;
    let service_port = entry.tcp.port;
    if service_port == 0 {
        return Err(zero_port_message(name.as_str()));
    }
    match runtime {
        RuntimeKind::Docker => {
            if entry.tcp.host.is_some() {
                return Err(
                    concat3("publish.", name.as_str(), ".tcp.host is not used with provider: docker; omit it"),
                );
            }
            let port = allocate_auto_host_port(reserved_host_ports, candidates, cursor)?;
            Ok(
                ServicePort {
                    name: Some(name),
                    host_port: port,
                    host_port_allocation: ServicePortAllocation::Auto,
                    service_port,
                    protocol: ServicePortProtocol::Tcp,
                },
            )
        },
        _ => {
            let field = concat3("publish.", name.as_str(), ".tcp.host");
            let host = normalize_fungi_tcp_host(&entry.tcp.host, field.as_str())?;
            if !local_host(host.as_str()) {
                return Err(
                    concat3(
                        "publish.",
                        name.as_str(),
                        ".tcp.host currently supports only 127.0.0.1 or localhost",
                    ),
                );
            }
            if !reserved_host_ports.insert(service_port) {
                let mut msg = concat3("publish.", name.as_str(), ".tcp.port ");
                crate::text::push_str(&mut msg, u64_string(service_port as u64).as_str());
                crate::text::push_str(&mut msg, " is already reserved");
                proof {
                    assert(msg@ =~= "publish."@ + name@ + ".tcp.port "@ + decimal(service_port as nat)
                        + " is already reserved"@);
                }
                return Err(msg);
            }
            Ok(
                ServicePort {
                    name: Some(name),
                    host_port: service_port,
                    host_port_allocation: ServicePortAllocation::Fixed,
                    service_port,
                    protocol: ServicePortProtocol::Tcp,
                },
            )
        },
    }
}

/// Reads all published entries as ports, in key order.
pub fn parse_fungi_publish_entries(
    publish: &Vec<(String, FungiServicePublishEntry)>,
    runtime: RuntimeKind,
    reserved_host_ports: &mut BTreeSet<u16>,
    candidates: &Vec<u16>,
) -> (r: Result<Vec<ServicePort>, String>)
    ensures
        match r {
            Ok(ports) => publish_ports(entry_views(publish@), runtime, old(reserved_host_ports)@, candidates@, 0)
                == Some(ports@.map_values(|p: ServicePort| p@)),
            Err(e) => publish_ports(entry_views(publish@), runtime, old(reserved_host_ports)@, candidates@, 0) is None
                && ports_error(entry_views(publish@), runtime, old(reserved_host_ports)@, candidates@, 0, e@),
        },
{
    let ghost pv = entry_views(publish@);
    let ghost r0 = reserved_host_ports@;
    let mut cursor: usize = 0;
    let mut out: Vec<ServicePort> = Vec::new();
    let mut i: usize = 0;
    proof {
        assert(pv.skip(0) =~= pv);
        assert(Seq::<ServicePortView>::empty() + Seq::<ServicePortView>::empty() =~= Seq::<ServicePortView>::empty());
    }
    while i < publish.len()
        invariant
            i <= publish.len(),
            pv == entry_views(publish@),
            r0 == old(reserved_host_ports)@,
            publish_ports(pv, runtime, r0, candidates@, 0) == match publish_ports(
                pv.skip(i as int),
                runtime,
                reserved_host_ports@,
                candidates@,
                cursor as nat,
            ) {
                Some(rest) => Some(out@.map_values(|p: ServicePort| p@) + rest),
                None => None::<Seq<ServicePortView>>,
            },
            forall|m: Seq<char>|
                #[trigger] ports_error(pv.skip(i as int), runtime, reserved_host_ports@, candidates@, cursor as nat, m)
                    ==> ports_error(pv, runtime, r0, candidates@, 0, m),
        decreases publish.len() - i,
    {
        let ghost rest = pv.skip(i as int);
        let ghost before = out@.map_values(|p: ServicePort| p@);
        let ghost r_before = reserved_host_ports@;
        let ghost c_before = cursor;
        proof {
            assert(rest[0] == pv[i as int]);
            assert(pv[i as int] == (publish@[i as int].0@, publish@[i as int].1@));
            assert(rest.drop_first() =~= pv.skip(i + 1));
        }
        let port = parse_fungi_publish_entry(
            publish[i].0.as_str(),
            &publish[i].1,
            runtime,
            reserved_host_ports,
            candidates,
            &mut cursor,
        );
        match port {
            Ok(p) => {
                out.push(p);
                proof {
                    assert forall|m: Seq<char>|
                        #[trigger] ports_error(pv.skip(i + 1), runtime, reserved_host_ports@, candidates@, cursor as nat, m)
                            implies ports_error(pv, runtime, r0, candidates@, 0, m) by {
                        assert(ports_error(rest, runtime, r_before, candidates@, c_before as nat, m));
                    }
                    assert(out@.map_values(|q: ServicePort| q@) =~= before.push(p@));
                    let tail = publish_ports(pv.skip(i + 1), runtime, reserved_host_ports@, candidates@, cursor as nat);
                    if tail is Some {
                        assert(before + (seq![p@] + tail.unwrap()) =~= before.push(p@) + tail.unwrap());
                    }
                }
            },
            Err(e) => {
                proof {
                    assert(publish_ports(rest, runtime, r_before, candidates@, c_before as nat) is None);
                    assert(ports_error(rest, runtime, r_before, candidates@, c_before as nat, e@));
                }
                return Err(e);
            },
        }
        i = i + 1;
    }
    proof {
        assert(pv.skip(publish@.len() as int) =~= Seq::<(Seq<char>, FungiServicePublishEntryView)>::empty());
        assert(out@.map_values(|p: ServicePort| p@) + Seq::<ServicePortView>::empty() =~= out@.map_values(|p: ServicePort| p@));
    }
    Ok(out)
}


// ---------------------------------------------------------------------------
// Client metadata of published entries.
// ---------------------------------------------------------------------------

/// The usage a client kind names, ignoring ASCII case: `web`, `ssh`, or raw
/// for anything else.
pub open spec fn usage_kind(kind: Seq<char>) -> ServiceExposeUsageKind {
    let l = ascii_lowercase(kind);
    if l == "web"@ {
        ServiceExposeUsageKind::Web
    } else if l == "ssh"@ {
        ServiceExposeUsageKind::Ssh
    } else {
        ServiceExposeUsageKind::Raw
    }
}

/// The client metadata of one published entry, blanks dropped.
pub struct ClientExposeMetadataView {
    pub usage: Option<ServiceExposeUsageKind>,
    pub path: Option<Seq<char>>,
    pub icon_url: Option<Seq<char>>,
    pub catalog_id: Option<Seq<char>>,
}

/// The metadata a published entry's client section gives: a usage from its
/// kind, a path only for web usage, an icon URL and a catalog id.
pub open spec fn client_metadata(e: FungiServicePublishEntryView) -> ClientExposeMetadataView {
    match e.client {
        Some(c) => {
            let usage = match norm_opt(c.kind) {
                Some(k) => Some(usage_kind(k)),
                None => None,
            };
            ClientExposeMetadataView {
                usage,
                path: if usage == Some(ServiceExposeUsageKind::Web) {
                    norm_opt(c.path)
                } else {
                    None
                },
                icon_url: norm_opt(c.icon_url),
                catalog_id: norm_opt(c.catalog_id),
            }
        },
        None => ClientExposeMetadataView { usage: None, path: None, icon_url: None, catalog_id: None },
    }
}

/// The expose section the metadata stands for.
pub open spec fn expose_of(m: ClientExposeMetadataView) -> ServiceExposeView {
    ServiceExposeView {
        transport: ServiceExposeTransportKind::Tcp,
        usage: match m.usage {
            Some(kind) => Some(ServiceExposeUsageView { kind, path: m.path }),
            None => None,
        },
        icon_url: m.icon_url,
        catalog_id: m.catalog_id,
    }
}

/// The expose section of a service: every published entry must carry the
/// same client metadata as the first.
pub open spec fn publish_expose(publish: Seq<(Seq<char>, FungiServicePublishEntryView)>) -> Option<
    Option<ServiceExposeView>,
> {
    if publish.len() == 0 {
        Some(None)
    } else if forall|i: int|
        1 <= i < publish.len() ==> client_metadata(#[trigger] publish[i].1) == client_metadata(
            publish[0].1,
        ) {
        Some(Some(expose_of(client_metadata(publish[0].1))))
    } else {
        None
    }
}

/// The client metadata of a published entry.
#[derive(Debug, Clone)]
pub struct FungiClientExposeMetadata {
    pub usage: Option<ServiceExposeUsageKind>,
    pub path: Option<String>,
    pub icon_url: Option<String>,
    pub catalog_id: Option<String>,
}

impl View for FungiClientExposeMetadata {
    type V = ClientExposeMetadataView;

    open spec fn view(&self) -> ClientExposeMetadataView {
        ClientExposeMetadataView {
            usage: self.usage,
            path: opt_text(self.path),
            icon_url: opt_text(self.icon_url),
            catalog_id: opt_text(self.catalog_id),
        }
    }
}

fn usage_of_kind(kind: &str) -> (r: ServiceExposeUsageKind)
    ensures
        r == usage_kind(kind@),
{
    let lower = ascii_lowercase_chars(&chars_of(kind));
    let web = chars_of("web");
    let ssh = chars_of("ssh");
    if chars_eq(&lower, &web) {
        ServiceExposeUsageKind::Web
    } else if chars_eq(&lower, &ssh) {
        ServiceExposeUsageKind::Ssh
    } else {
        ServiceExposeUsageKind::Raw
    }
}

/// Reads the client metadata of a published entry.
pub fn fungi_client_expose_metadata(entry: &FungiServicePublishEntry) -> (r: FungiClientExposeMetadata)
    ensures
        r@ == client_metadata(entry@),
{
    match &entry.client {
        Some(c) => {
            let usage = match normalize_optional_ref(&c.kind) {
                Some(k) => Some(usage_of_kind(k.as_str())),
                None => None,
            };
            let path = if usage == Some(ServiceExposeUsageKind::Web) {
                normalize_optional_ref(&c.path)
            } else {
                None
            };
            FungiClientExposeMetadata {
                usage,
                path,
                icon_url: normalize_optional_ref(&c.icon_url),
                catalog_id: normalize_optional_ref(&c.catalog_id),
            }
        },
        None => FungiClientExposeMetadata { usage: None, path: None, icon_url: None, catalog_id: None },
    }
}

fn opt_str_eq(a: &Option<String>, b: &Option<String>) -> (r: bool)
    ensures
        r == (opt_text(*a) == opt_text(*b)),
{
    match (a, b) {
        (Some(x), Some(y)) => str_eq(x.as_str(), y.as_str()),
        (None, None) => true,
        _ => false,
    }
}

fn metadata_eq(a: &FungiClientExposeMetadata, b: &FungiClientExposeMetadata) -> (r: bool)
    ensures
        r == (a@ == b@),
{
    a.usage == b.usage && opt_str_eq(&a.path, &b.path) && opt_str_eq(&a.icon_url, &b.icon_url)
        && opt_str_eq(&a.catalog_id, &b.catalog_id)
}

/// `e` refuses the first published entry whose client metadata differs
/// from the first entry's.
pub open spec fn expose_error(publish: Seq<(Seq<char>, FungiServicePublishEntryView)>, e: Seq<char>) -> bool {
    exists|j: int|
        1 <= j < publish.len() && client_metadata(#[trigger] publish[j].1) != client_metadata(publish[0].1) && (forall|
            k: int,
        | 1 <= k < j ==> client_metadata(#[trigger] publish[k].1) == client_metadata(publish[0].1)) && e == "publish."@
            + publish[j].0 + ".client metadata must match publish."@ + publish[0].0
            + ".client; per-entry client handling is not supported yet"@
}

/// Reads the expose section from the published entries.
pub fn parse_fungi_publish_expose(publish: &Vec<(String, FungiServicePublishEntry)>) -> (r: Result<
    Option<ServiceExpose>,
    String,
>)
    ensures
        match r {
            Ok(e) => publish_expose(entry_views(publish@)) == Some(
                match e {
                    Some(x) => Some(x@),
                    None => None::<ServiceExposeView>,
                },
            ),
            Err(e) => publish_expose(entry_views(publish@)) is None && expose_error(entry_views(publish@), e@),
        },
{
    let ghost pv = entry_views(publish@);
    if publish.len() == 0 {
        return Ok(None);
    }
    let first = fungi_client_expose_metadata(&publish[0].1);
    proof {
        assert(pv[0].1 == publish@[0].1@);
    }
    let mut i: usize = 1;
    while i < publish.len()
        invariant
            1 <= i <= publish.len(),
            pv == entry_views(publish@),
            first@ == client_metadata(pv[0].1),
            forall|j: int| 1 <= j < i ==> client_metadata(#[trigger] pv[j].1) == client_metadata(pv[0].1),
        decreases publish.len() - i,
    {
        let m = fungi_client_expose_metadata(&publish[i].1);
        proof {
            assert(pv[i as int].1 == publish@[i as int].1@);
        }
        if !metadata_eq(&m, &first) {
            let mut msg = concat3("publish.", publish[i].0.as_str(), ".client metadata must match publish.");
            crate::text::push_str(&mut msg, publish[0].0.as_str());
            crate::text::push_str(&mut msg, ".client; per-entry client handling is not supported yet");
            return Err(msg);
        }
        i = i + 1;
    }
    let usage = match first.usage {
        Some(kind) => Some(ServiceExposeUsage { kind, path: copy_opt(&first.path) }),
        None => None,
    };
    Ok(
        Some(
            ServiceExpose {
                transport: ServiceExposeTransport { kind: ServiceExposeTransportKind::Tcp },
                usage,
                icon_url: first.icon_url,
                catalog_id: first.catalog_id,
            },
        ),
    )
}

// ---------------------------------------------------------------------------
// The manifest.
// ---------------------------------------------------------------------------

/// A mount of the document resolved for the node.
pub open spec fn resolved_mount(m: FungiServiceMountView, base_dir: Seq<char>, roots: ManifestPathRoots) -> ServiceMountView {
    ServiceMountView { host_path: resolved_path(m.from, base_dir, roots), runtime_path: m.to }
}

/// The manifest a document resolves to on a node, given the host ports
/// already reserved there and the host ports the node offers for automatic
/// entries.
pub open spec fn manifest_from_document(
    d: FungiServiceDocumentView,
    base_dir: Seq<char>,
    roots: ManifestPathRoots,
    reserved: Set<u16>,
    offered: Seq<u16>,
) -> Option<ServiceManifestView> {
    if d.fungi != "service/v1"@ || doc_definition_id(d) is None || doc_service_name(d) is None
        || d.publish.len() == 0 {
        None
    } else {
        let ras = match d.run {
            Some(r) => run_source(r, d.publish, base_dir, roots),
            None => existing_tcp_source(d.publish),
        };
        match ras {
            None => None,
            Some(ras) => match publish_ports(d.publish, ras.runtime, reserved, offered, 0) {
                None => None,
                Some(ports) => match publish_expose(d.publish) {
                    None => None,
                    Some(expose) => Some(
                        ServiceManifestView {
                            name: doc_service_name(d).unwrap(),
                            definition_id: doc_definition_id(d),
                            runtime: ras.runtime,
                            run_mode: ras.run_mode,
                            source: ras.source,
                            expose,
                            env: match d.run {
                                Some(r) => r.env,
                                None => Seq::empty(),
                            },
                            mounts: match d.run {
                                Some(r) => r.mounts.map_values(
                                    |m: FungiServiceMountView| resolved_mount(m, base_dir, roots),
                                ),
                                None => Seq::empty(),
                            },
                            ports,
                            command: match d.run {
                                Some(r) => r.args,
                                None => Seq::empty(),
                            },
                            entrypoint: Seq::empty(),
                            working_dir: None,
                            labels: Seq::empty(),
                        },
                    ),
                },
            },
        }
    }
}

fn resolve_mounts(run: &FungiServiceRun, base_dir: &str, path_roots: &ManifestPathRoots) -> (r: Vec<ServiceMount>)
    ensures
        r@.map_values(|m: ServiceMount| m@) == run@.mounts.map_values(
            |m: FungiServiceMountView| resolved_mount(m, base_dir@, *path_roots),
        ),
{
    let mut out: Vec<ServiceMount> = Vec::new();
    let mut i: usize = 0;
    while i < run.mounts.len()
        invariant
            i <= run.mounts.len(),
            out@.len() == i,
            forall|j: int| 0 <= j < i ==> (#[trigger] out@[j])@ == resolved_mount(run.mounts@[j]@, base_dir@, *path_roots),
        decreases run.mounts.len() - i,
    {
        let m = &run.mounts[i];
        out.push(
            ServiceMount {
                host_path: resolve_manifest_path_string(m.from.as_str(), base_dir, path_roots),
                runtime_path: m.to.clone(),
            },
        );
        i = i + 1;
    }
    proof {
        assert(out@.map_values(|m: ServiceMount| m@) =~= run@.mounts.map_values(
            |m: FungiServiceMountView| resolved_mount(m, base_dir@, *path_roots),
        ));
    }
    out
}

/// `e` is the refusal of a document that does not resolve on a node: the
/// format, a blank id or instance, no published entry, the run section (see
/// `run_error`, and `existing_tcp_error` for a file without one), the first
/// published entry that cannot be taken as a port, or client metadata that
/// differs between entries.
pub open spec fn manifest_error(
    d: FungiServiceDocumentView,
    base_dir: Seq<char>,
    roots: ManifestPathRoots,
    reserved: Set<u16>,
    offered: Seq<u16>,
    e: Seq<char>,
) -> bool {
    if d.fungi != "service/v1"@ {
        e == "unsupported fungi service format: "@ + d.fungi
    } else if doc_definition_id(d) is None {
        e == "id must not be empty"@
    } else if doc_service_name(d) is None {
        e == service_name_error(d)
    } else if d.publish.len() == 0 {
        e == "service file requires at least one publish entry"@
    } else {
        let ras = match d.run {
            Some(r) => run_source(r, d.publish, base_dir, roots),
            None => existing_tcp_source(d.publish),
        };
        match ras {
            None => match d.run {
                Some(r) => run_error(r, d.publish, e),
                None => existing_tcp_error(d.publish, e),
            },
            Some(ras) => match publish_ports(d.publish, ras.runtime, reserved, offered, 0) {
                None => ports_error(d.publish, ras.runtime, reserved, offered, 0, e),
                Some(_) => expose_error(d.publish, e),
            },
        }
    }
}

impl FungiServiceDocument {
    /// Resolves the document for this node: the service's name, source,
    /// mounts, published ports and client metadata.
    pub fn into_service_manifest_for_node_with_service_paths(
        self,
        base_dir: &str,
        path_roots: &ManifestPathRoots,
        policy: &ManifestResolutionPolicy,
        used_host_ports: &BTreeSet<u16>,
    ) -> (r: Result<ServiceManifest, String>)
        ensures
            match r {
                Ok(m) => manifest_from_document(self@, base_dir@, *path_roots, used_host_ports@, policy.ephemeral_host_ports@)
                    == Some(m@),
                Err(e) => manifest_from_document(self@, base_dir@, *path_roots, used_host_ports@, policy.ephemeral_host_ports@)
                    is None && manifest_error(self@, base_dir@, *path_roots, used_host_ports@, policy.ephemeral_host_ports@, e@),
            },
    {
        if !str_eq(self.fungi.as_str(), "service/v1") {
            return Err(concat("unsupported fungi service format: ", self.fungi.as_str()));
        }
        let definition_id = self.definition_id()?;
        let service_name = self.service_name()?;
        if self.publish.len() == 0 {
            return Err("service file requires at least one publish entry".to_owned());
        }
        let ras = match &self.run {
            Some(run) => parse_fungi_run(run, &self.publish, base_dir, path_roots)?,
            None => parse_fungi_existing_tcp_run(&self.publish)?,
        };
        let mut reserved_host_ports = used_host_ports.clone();
        let ports = parse_fungi_publish_entries(
            &self.publish,
            ras.runtime,
            &mut reserved_host_ports,
            &policy.ephemeral_host_ports,
        )?;
        let expose = parse_fungi_publish_expose(&self.publish)?;
        let (env, mounts, command) = match &self.run {
            Some(run) => (copy_pairs(&run.env), resolve_mounts(run, base_dir, path_roots), copy_strings(&run.args)),
            None => (Vec::new(), Vec::new(), Vec::new()),
        };
        let manifest = ServiceManifest {
            name: service_name,
            definition_id: Some(definition_id),
            runtime: ras.runtime,
            run_mode: ras.run_mode,
            source: ras.source,
            expose,
            env,
            mounts,
            ports,
            command,
            entrypoint: Vec::new(),
            working_dir: None,
            labels: Vec::new(),
        };
        proof {
            assert(manifest@.entrypoint =~= Seq::<Seq<char>>::empty());
            assert(manifest@.labels =~= Seq::<(Seq<char>, Seq<char>)>::empty());
            if self.run is None {
                assert(manifest@.env =~= Seq::<(Seq<char>, Seq<char>)>::empty());
                assert(manifest@.mounts =~= Seq::<ServiceMountView>::empty());
                assert(manifest@.command =~= Seq::<Seq<char>>::empty());
            }
        }
        Ok(manifest)
    }
}

} // verus!

verus! {

/// A host port picked for an automatic entry was offered and was not
/// reserved.
proof fn lemma_auto_port_unreserved(reserved: Set<u16>, cands: Seq<u16>, cursor: nat, attempts: nat)
    ensures
        auto_port(reserved, cands, cursor, attempts) matches Some((p, _)) ==> !reserved.contains(p) && cands.contains(p),
    decreases attempts,
{
    if attempts > 0 && cursor < cands.len() {
        if !reserved.contains(cands[cursor as int]) {
            assert(cands[cursor as int] == cands[cursor as int]);
        } else {
            lemma_auto_port_unreserved(reserved, cands, cursor + 1, (attempts - 1) as nat);
        }
    }
}

/// The ports that published entries become use distinct host ports, none
/// of them reserved before; a non-docker port publishes its service port
/// itself, a docker port one the node offered.
pub proof fn law_publish_ports_distinct(
    entries: Seq<(Seq<char>, FungiServicePublishEntryView)>,
    runtime: RuntimeKind,
    reserved: Set<u16>,
    cands: Seq<u16>,
    cursor: nat,
)
    requires
        publish_ports(entries, runtime, reserved, cands, cursor) is Some,
    ensures
        ({
            let ports = publish_ports(entries, runtime, reserved, cands, cursor).unwrap();
            &&& forall|i: int| 0 <= i < ports.len() ==> !reserved.contains(#[trigger] ports[i].host_port)
            &&& forall|i: int, j: int|
                0 <= i < j < ports.len() ==> (#[trigger] ports[i]).host_port != (#[trigger] ports[j]).host_port
            &&& forall|i: int|
                0 <= i < ports.len() ==> (runtime == RuntimeKind::Docker ==> (#[trigger] ports[i]).host_port_allocation
                    == ServicePortAllocation::Auto && cands.contains(ports[i].host_port)) && (runtime != RuntimeKind::Docker
                    ==> ports[i].host_port_allocation == ServicePortAllocation::Fixed && ports[i].host_port
                    == ports[i].service_port)
        }),
    decreases entries.len(),
{
    if entries.len() > 0 {
        let (port, reserved2, cursor2) = publish_port(entries[0], runtime, reserved, cands, cursor).unwrap();
        lemma_auto_port_unreserved(reserved, cands, cursor, AUTO_HOST_PORT_ATTEMPTS as nat);
        law_publish_ports_distinct(entries.drop_first(), runtime, reserved2, cands, cursor2);
        let rest = publish_ports(entries.drop_first(), runtime, reserved2, cands, cursor2).unwrap();
        let ports = publish_ports(entries, runtime, reserved, cands, cursor).unwrap();
        assert(ports == seq![port] + rest);
        assert(reserved2 == reserved.insert(port.host_port));
        assert forall|i: int| 0 <= i < ports.len() implies !reserved.contains(#[trigger] ports[i].host_port) by {
            if i > 0 {
                assert(ports[i] == rest[i - 1]);
            }
        }
        assert forall|i: int, j: int| 0 <= i < j < ports.len() implies (#[trigger] ports[i]).host_port
            != (#[trigger] ports[j]).host_port by {
            assert(ports[j] == rest[j - 1]);
            if i > 0 {
                assert(ports[i] == rest[i - 1]);
            } else {
                assert(!reserved2.contains(rest[j - 1].host_port));
            }
        }
        assert forall|i: int| 0 <= i < ports.len() implies (runtime == RuntimeKind::Docker ==> (
        #[trigger] ports[i]).host_port_allocation == ServicePortAllocation::Auto && cands.contains(ports[i].host_port))
            && (runtime != RuntimeKind::Docker ==> ports[i].host_port_allocation == ServicePortAllocation::Fixed
            && ports[i].host_port == ports[i].service_port) by {
            if i > 0 {
                assert(ports[i] == rest[i - 1]);
            }
        }
    }
}

/// A manifest read from a service file publishes each host port once, none
/// of them in use on the node before; a docker service's host ports are
/// ones the node offered and chosen for it, any other service publishes its
/// own ports as they are.
pub proof fn law_manifest_host_ports(
    d: FungiServiceDocumentView,
    base_dir: Seq<char>,
    roots: ManifestPathRoots,
    reserved: Set<u16>,
    offered: Seq<u16>,
)
    requires
        manifest_from_document(d, base_dir, roots, reserved, offered) is Some,
    ensures
        ({
            let m = manifest_from_document(d, base_dir, roots, reserved, offered).unwrap();
            &&& forall|i: int| 0 <= i < m.ports.len() ==> !reserved.contains(#[trigger] m.ports[i].host_port)
            &&& forall|i: int, j: int|
                0 <= i < j < m.ports.len() ==> (#[trigger] m.ports[i]).host_port != (#[trigger] m.ports[j]).host_port
            &&& forall|i: int|
                0 <= i < m.ports.len() ==> (m.runtime == RuntimeKind::Docker ==> (#[trigger] m.ports[i]).host_port_allocation
                    == ServicePortAllocation::Auto && offered.contains(m.ports[i].host_port)) && (m.runtime
                    != RuntimeKind::Docker ==> m.ports[i].host_port_allocation == ServicePortAllocation::Fixed
                    && m.ports[i].host_port == m.ports[i].service_port)
        }),
{
    let ras = match d.run {
        Some(r) => run_source(r, d.publish, base_dir, roots),
        None => existing_tcp_source(d.publish),
    };
    law_publish_ports_distinct(d.publish, ras.unwrap().runtime, reserved, offered, 0);
}

} // verus!
