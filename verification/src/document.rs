//! The `fungi: service/v1` service file: its document types and how they
//! are read from a YAML tree, field by field, as the derived deserializers
//! of the format read them (unknown fields refused, optional fields
//! defaulted, maps ordered by key).

use vstd::prelude::*;

use crate::model::{opt_text, texts};
use crate::ordered::{entry_views, ordered_insert, sorted_from, sorted_insert};
use crate::text::{concat, concat3, decimal, i64_string, push_str, signed_decimal, starts_with, str_eq, u64_string};
use crate::yaml::{
    parse_yaml_value, yaml_as_bool, yaml_as_i64, yaml_as_str, yaml_as_u64, yaml_is_float, yaml_is_null,
    yaml_list_item, yaml_list_len, yaml_map_entry, yaml_map_len, yaml_parse, yaml_tree, YamlNode,
};

verus! {

// ---------------------------------------------------------------------------
// Reading fields of a YAML mapping.
// ---------------------------------------------------------------------------

/// The value of the first entry whose key is the text `name`.
pub open spec fn field_value(m: Seq<(YamlNode, YamlNode)>, name: Seq<char>) -> Option<YamlNode>
    decreases m.len(),
{
    if m.len() == 0 {
        None
    } else if m[0].0 == YamlNode::Text(name) {
        Some(m[0].1)
    } else {
        field_value(m.drop_first(), name)
    }
}

/// Every key is one of the field names, and no key appears twice.
pub open spec fn fields_ok(m: Seq<(YamlNode, YamlNode)>, names: Seq<Seq<char>>) -> bool {
    &&& forall|i: int|
        0 <= i < m.len() ==> (#[trigger] m[i]).0 is Text && names.contains(m[i].0->Text_0)
    &&& forall|i: int, j: int| 0 <= i < j < m.len() ==> #[trigger] m[i].0 != #[trigger] m[j].0
}

/// The characters of a list of field names.
pub open spec fn name_views(names: Seq<&str>) -> Seq<Seq<char>> {
    names.map_values(|s: &str| s@)
}

/// The text a scalar stands for when a string is expected: a string as it
/// is, an integer in decimal, a boolean as `true` or `false`.
pub open spec fn scalar_text(n: YamlNode) -> Option<Seq<char>> {
    match n {
        YamlNode::Text(s) => Some(s),
        YamlNode::Int(i) => Some(signed_decimal(i)),
        YamlNode::Bool(b) => Some(
            if b {
                "true"@
            } else {
                "false"@
            },
        ),
        _ => None,
    }
}

/// A required string field.
pub open spec fn req_text(m: Seq<(YamlNode, YamlNode)>, name: Seq<char>) -> Option<Seq<char>> {
    match field_value(m, name) {
        Some(v) => scalar_text(v),
        None => None,
    }
}

/// An optional string field: absent or null is `None`.
pub open spec fn opt_text_field(m: Seq<(YamlNode, YamlNode)>, name: Seq<char>) -> Option<
    Option<Seq<char>>,
> {
    match field_value(m, name) {
        None => Some(None),
        Some(YamlNode::Null) => Some(None),
        Some(v) => match scalar_text(v) {
            Some(s) => Some(Some(s)),
            None => None,
        },
    }
}

/// A port number: an integer from 0 to 65535.
pub open spec fn port_value(n: YamlNode) -> Option<u16> {
    match n {
        YamlNode::Int(i) => if 0 <= i <= 65535 {
            Some(i as u16)
        } else {
            None
        },
        _ => None,
    }
}

/// A list of strings.
pub open spec fn text_list(n: YamlNode) -> Option<Seq<Seq<char>>> {
    match n {
        YamlNode::List(items) => if forall|i: int|
            0 <= i < items.len() ==> (#[trigger] scalar_text(items[i])) is Some {
            Some(Seq::new(items.len(), |i: int| scalar_text(items[i]).unwrap()))
        } else {
            None
        },
        _ => None,
    }
}

/// A map from strings to strings, in key order.
pub open spec fn text_map(n: YamlNode) -> Option<Seq<(Seq<char>, Seq<char>)>> {
    match n {
        YamlNode::Mapping(m) => if forall|i: int|
            0 <= i < m.len() ==> (#[trigger] scalar_text(m[i].0)) is Some && scalar_text(
                m[i].1,
            ) is Some {
            Some(
                sorted_from(
                    Seq::new(
                        m.len(),
                        |i: int| (scalar_text(m[i].0).unwrap(), scalar_text(m[i].1).unwrap()),
                    ),
                ),
            )
        } else {
            None
        },
        _ => None,
    }
}

/// A defaulted field: absent gives `dflt`.
pub open spec fn defaulted<T>(f: Option<YamlNode>, dflt: T, read: spec_fn(YamlNode) -> Option<T>) -> Option<T> {
    match f {
        None => Some(dflt),
        Some(v) => read(v),
    }
}

/// An optional field: absent or null gives `None`.
pub open spec fn optional<T>(f: Option<YamlNode>, read: spec_fn(YamlNode) -> Option<T>) -> Option<Option<T>> {
    match f {
        None => Some(None),
        Some(YamlNode::Null) => Some(None),
        Some(v) => match read(v) {
            Some(x) => Some(Some(x)),
            None => None,
        },
    }
}

// ---------------------------------------------------------------------------
// The document types.
// ---------------------------------------------------------------------------

/// The provider that runs a service's workload.
#[derive(Debug, Clone, Copy, PartialEq, Eq, Structural)]
pub enum FungiServiceProvider {
    Docker,
    Wasmtime,
}

/// Where a workload comes from; at most one is expected to be set.
#[derive(Debug, Clone, Default)]
pub struct FungiServiceSource {
    pub url: Option<String>,
    pub file: Option<String>,
    pub image: Option<String>,
}

pub struct FungiServiceSourceView {
    pub url: Option<Seq<char>>,
    pub file: Option<Seq<char>>,
    pub image: Option<Seq<char>>,
}

impl View for FungiServiceSource {
    type V = FungiServiceSourceView;

    open spec fn view(&self) -> FungiServiceSourceView {
        FungiServiceSourceView {
            url: opt_text(self.url),
            file: opt_text(self.file),
            image: opt_text(self.image),
        }
    }
}

/// A host path mounted into the workload.
#[derive(Debug, Clone)]
pub struct FungiServiceMount {
    pub from: String,
    pub to: String,
}

pub struct FungiServiceMountView {
    pub from: Seq<char>,
    pub to: Seq<char>,
}

impl View for FungiServiceMount {
    type V = FungiServiceMountView;

    open spec fn view(&self) -> FungiServiceMountView {
        FungiServiceMountView { from: self.from@, to: self.to@ }
    }
}

/// How the service's workload is run.
#[derive(Debug, Clone)]
pub struct FungiServiceRun {
    pub provider: FungiServiceProvider,
    pub source: FungiServiceSource,
    pub args: Vec<String>,
    pub env: Vec<(String, String)>,
    pub mounts: Vec<FungiServiceMount>,
}

pub struct FungiServiceRunView {
    pub provider: FungiServiceProvider,
    pub source: FungiServiceSourceView,
    pub args: Seq<Seq<char>>,
    pub env: Seq<(Seq<char>, Seq<char>)>,
    pub mounts: Seq<FungiServiceMountView>,
}

impl View for FungiServiceRun {
    type V = FungiServiceRunView;

    open spec fn view(&self) -> FungiServiceRunView {
        FungiServiceRunView {
            provider: self.provider,
            source: self.source@,
            args: texts(self.args@),
            env: entry_views(self.env@),
            mounts: self.mounts@.map_values(|m: FungiServiceMount| m@),
        }
    }
}

/// The TCP address a published entry is reached at.
#[derive(Debug, Clone)]
pub struct FungiServiceTcp {
    pub host: Option<String>,
    pub port: u16,
}

pub struct FungiServiceTcpView {
    pub host: Option<Seq<char>>,
    pub port: u16,
}

impl View for FungiServiceTcp {
    type V = FungiServiceTcpView;

    open spec fn view(&self) -> FungiServiceTcpView {
        FungiServiceTcpView { host: opt_text(self.host), port: self.port }
    }
}

/// What a client is told about a published entry.
#[derive(Debug, Clone, Default)]
pub struct FungiServiceClient {
    pub kind: Option<String>,
    pub path: Option<String>,
    pub icon_url: Option<String>,
    pub catalog_id: Option<String>,
}

pub struct FungiServiceClientView {
    pub kind: Option<Seq<char>>,
    pub path: Option<Seq<char>>,
    pub icon_url: Option<Seq<char>>,
    pub catalog_id: Option<Seq<char>>,
}

impl View for FungiServiceClient {
    type V = FungiServiceClientView;

    open spec fn view(&self) -> FungiServiceClientView {
        FungiServiceClientView {
            kind: opt_text(self.kind),
            path: opt_text(self.path),
            icon_url: opt_text(self.icon_url),
            catalog_id: opt_text(self.catalog_id),
        }
    }
}

/// One published entry of a service.
#[derive(Debug, Clone)]
pub struct FungiServicePublishEntry {
    pub tcp: FungiServiceTcp,
    pub client: Option<FungiServiceClient>,
}

pub struct FungiServicePublishEntryView {
    pub tcp: FungiServiceTcpView,
    pub client: Option<FungiServiceClientView>,
}

impl View for FungiServicePublishEntry {
    type V = FungiServicePublishEntryView;

    open spec fn view(&self) -> FungiServicePublishEntryView {
        FungiServicePublishEntryView {
            tcp: self.tcp@,
            client: match self.client {
                Some(c) => Some(c@),
                None => None,
            },
        }
    }
}

/// A `fungi: service/v1` document. `publish` is kept in key order.
#[derive(Debug, Clone)]
pub struct FungiServiceDocument {
    pub fungi: String,
    pub id: String,
    pub instance: Option<String>,
    pub run: Option<FungiServiceRun>,
    pub publish: Vec<(String, FungiServicePublishEntry)>,
}

pub struct FungiServiceDocumentView {
    pub fungi: Seq<char>,
    pub id: Seq<char>,
    pub instance: Option<Seq<char>>,
    pub run: Option<FungiServiceRunView>,
    pub publish: Seq<(Seq<char>, FungiServicePublishEntryView)>,
}

impl View for FungiServiceDocument {
    type V = FungiServiceDocumentView;

    open spec fn view(&self) -> FungiServiceDocumentView {
        FungiServiceDocumentView {
            fungi: self.fungi@,
            id: self.id@,
            instance: opt_text(self.instance),
            run: match self.run {
                Some(r) => Some(r@),
                None => None,
            },
            publish: entry_views(self.publish@),
        }
    }
}

// ---------------------------------------------------------------------------
// Reading the document from a YAML tree.
// ---------------------------------------------------------------------------

pub open spec fn source_fields() -> Seq<Seq<char>> {
    seq!["url"@, "file"@, "image"@]
}

pub open spec fn mount_fields() -> Seq<Seq<char>> {
    seq!["from"@, "to"@]
}

pub open spec fn run_fields() -> Seq<Seq<char>> {
    seq!["provider"@, "source"@, "args"@, "env"@, "mounts"@]
}

pub open spec fn tcp_fields() -> Seq<Seq<char>> {
    seq!["host"@, "port"@]
}

pub open spec fn client_fields() -> Seq<Seq<char>> {
    seq!["kind"@, "path"@, "iconUrl"@, "catalogId"@]
}

pub open spec fn entry_fields() -> Seq<Seq<char>> {
    seq!["tcp"@, "client"@]
}

pub open spec fn document_fields() -> Seq<Seq<char>> {
    seq!["fungi"@, "id"@, "instance"@, "run"@, "publish"@]
}

/// The provider named by a string: `docker` or `wasmtime`.
pub open spec fn read_provider(n: YamlNode) -> Option<FungiServiceProvider> {
    if n == YamlNode::Text("docker"@) {
        Some(FungiServiceProvider::Docker)
    } else if n == YamlNode::Text("wasmtime"@) {
        Some(FungiServiceProvider::Wasmtime)
    } else {
        None
    }
}

pub open spec fn read_source(n: YamlNode) -> Option<FungiServiceSourceView> {
    match n {
        YamlNode::Mapping(m) => if fields_ok(m, source_fields()) && opt_text_field(m, "url"@) is Some
            && opt_text_field(m, "file"@) is Some && opt_text_field(m, "image"@) is Some {
            Some(
                FungiServiceSourceView {
                    url: opt_text_field(m, "url"@).unwrap(),
                    file: opt_text_field(m, "file"@).unwrap(),
                    image: opt_text_field(m, "image"@).unwrap(),
                },
            )
        } else {
            None
        },
        _ => None,
    }
}

pub open spec fn read_mount(n: YamlNode) -> Option<FungiServiceMountView> {
    match n {
        YamlNode::Mapping(m) => if fields_ok(m, mount_fields()) && req_text(m, "from"@) is Some
            && req_text(m, "to"@) is Some {
            Some(
                FungiServiceMountView {
                    from: req_text(m, "from"@).unwrap(),
                    to: req_text(m, "to"@).unwrap(),
                },
            )
        } else {
            None
        },
        _ => None,
    }
}

pub open spec fn read_mounts(n: YamlNode) -> Option<Seq<FungiServiceMountView>> {
    match n {
        YamlNode::List(items) => if forall|i: int|
            0 <= i < items.len() ==> (#[trigger] read_mount(items[i])) is Some {
            Some(Seq::new(items.len(), |i: int| read_mount(items[i]).unwrap()))
        } else {
            None
        },
        _ => None,
    }
}

pub open spec fn read_run(n: YamlNode) -> Option<FungiServiceRunView> {
    match n {
        YamlNode::Mapping(m) => {
            let provider = match field_value(m, "provider"@) {
                Some(v) => read_provider(v),
                None => None,
            };
            let source = match field_value(m, "source"@) {
                Some(v) => read_source(v),
                None => None,
            };
            let args = defaulted(field_value(m, "args"@), Seq::empty(), |v: YamlNode| text_list(v));
            let env = defaulted(field_value(m, "env"@), Seq::empty(), |v: YamlNode| text_map(v));
            let mounts = defaulted(field_value(m, "mounts"@), Seq::empty(), |v: YamlNode| read_mounts(v));
            if fields_ok(m, run_fields()) && provider is Some && source is Some && args is Some
                && env is Some && mounts is Some {
                Some(
                    FungiServiceRunView {
                        provider: provider.unwrap(),
                        source: source.unwrap(),
                        args: args.unwrap(),
                        env: env.unwrap(),
                        mounts: mounts.unwrap(),
                    },
                )
            } else {
                None
            }
        },
        _ => None,
    }
}

pub open spec fn read_tcp(n: YamlNode) -> Option<FungiServiceTcpView> {
    match n {
        YamlNode::Mapping(m) => {
            let port = match field_value(m, "port"@) {
                Some(v) => port_value(v),
                None => None,
            };
            if fields_ok(m, tcp_fields()) && opt_text_field(m, "host"@) is Some && port is Some {
                Some(
                    FungiServiceTcpView {
                        host: opt_text_field(m, "host"@).unwrap(),
                        port: port.unwrap(),
                    },
                )
            } else {
                None
            }
        },
        _ => None,
    }
}

pub open spec fn read_client(n: YamlNode) -> Option<FungiServiceClientView> {
    match n {
        YamlNode::Mapping(m) => if fields_ok(m, client_fields()) && opt_text_field(m, "kind"@) is Some
            && opt_text_field(m, "path"@) is Some && opt_text_field(m, "iconUrl"@) is Some
            && opt_text_field(m, "catalogId"@) is Some {
            Some(
                FungiServiceClientView {
                    kind: opt_text_field(m, "kind"@).unwrap(),
                    path: opt_text_field(m, "path"@).unwrap(),
                    icon_url: opt_text_field(m, "iconUrl"@).unwrap(),
                    catalog_id: opt_text_field(m, "catalogId"@).unwrap(),
                },
            )
        } else {
            None
        },
        _ => None,
    }
}

pub open spec fn read_entry(n: YamlNode) -> Option<FungiServicePublishEntryView> {
    match n {
        YamlNode::Mapping(m) => {
            let tcp = match field_value(m, "tcp"@) {
                Some(v) => read_tcp(v),
                None => None,
            };
            let client = optional(field_value(m, "client"@), |v: YamlNode| read_client(v));
            if fields_ok(m, entry_fields()) && tcp is Some && client is Some {
                Some(FungiServicePublishEntryView { tcp: tcp.unwrap(), client: client.unwrap() })
            } else {
                None
            }
        },
        _ => None,
    }
}

/// The entries of a publish mapping, in document order.
pub open spec fn publish_pairs(m: Seq<(YamlNode, YamlNode)>) -> Seq<(Seq<char>, FungiServicePublishEntryView)> {
    Seq::new(m.len(), |i: int| (scalar_text(m[i].0).unwrap(), read_entry(m[i].1).unwrap()))
}

/// The publish mapping, in key order.
pub open spec fn read_publish(n: YamlNode) -> Option<Seq<(Seq<char>, FungiServicePublishEntryView)>> {
    match n {
        YamlNode::Mapping(m) => if forall|i: int|
            0 <= i < m.len() ==> (#[trigger] scalar_text(m[i].0)) is Some && read_entry(
                m[i].1,
            ) is Some {
            Some(sorted_from(publish_pairs(m)))
        } else {
            None
        },
        _ => None,
    }
}

/// The document a YAML tree holds, if it is one.
pub open spec fn read_document(n: YamlNode) -> Option<FungiServiceDocumentView> {
    match n {
        YamlNode::Mapping(m) => {
            let run = optional(field_value(m, "run"@), |v: YamlNode| read_run(v));
            let publish = match field_value(m, "publish"@) {
                Some(v) => read_publish(v),
                None => None,
            };
            if fields_ok(m, document_fields()) && req_text(m, "fungi"@) is Some && req_text(
                m,
                "id"@,
            ) is Some && opt_text_field(m, "instance"@) is Some && run is Some && publish is Some {
                Some(
                    FungiServiceDocumentView {
                        fungi: req_text(m, "fungi"@).unwrap(),
                        id: req_text(m, "id"@).unwrap(),
                        instance: opt_text_field(m, "instance"@).unwrap(),
                        run: run.unwrap(),
                        publish: publish.unwrap(),
                    },
                )
            } else {
                None
            }
        },
        _ => None,
    }
}


// ---------------------------------------------------------------------------
// Executable readers.
// ---------------------------------------------------------------------------

/// `msg`, prefixed with the path of the node it is about.
pub open spec fn at_path_text(path: Seq<char>, msg: Seq<char>) -> Seq<char> {
    if path.len() == 0 {
        msg
    } else {
        path + ": "@ + msg
    }
}

/// The path of field `name` below `path`.
pub open spec fn child_path_text(path: Seq<char>, name: Seq<char>) -> Seq<char> {
    if path.len() == 0 {
        name
    } else {
        path + "."@ + name
    }
}

/// The path of item `i` below `path`.
pub open spec fn item_path_text(path: Seq<char>, i: nat) -> Seq<char> {
    path + "["@ + decimal(i) + "]"@
}

/// A field name in backquotes.
pub open spec fn ticked(name: Seq<char>) -> Seq<char> {
    "`"@ + name + "`"@
}

/// Field names in backquotes, separated by `, `.
pub open spec fn ticked_list(names: Seq<Seq<char>>) -> Seq<char>
    decreases names.len(),
{
    if names.len() == 0 {
        Seq::empty()
    } else if names.len() == 1 {
        ticked(names[0])
    } else {
        ticked_list(names.drop_last()) + ", "@ + ticked(names.last())
    }
}

/// The fields a mapping may have, as the refusal of another one names them:
/// one, two joined by `or`, or `one of` a list.
pub open spec fn expected_fields_text(names: Seq<Seq<char>>) -> Seq<char> {
    if names.len() == 1 {
        ticked(names[0])
    } else if names.len() == 2 {
        ticked(names[0]) + " or "@ + ticked(names[1])
    } else {
        "one of "@ + ticked_list(names)
    }
}

/// The refusal of a field `key` that is not one of `names`.
pub open spec fn unknown_field_text(key: Seq<char>, names: Seq<Seq<char>>) -> Seq<char> {
    "unknown field `"@ + key + "`, expected "@ + expected_fields_text(names)
}

/// What a node is, as a refusal of its type names it.
pub open spec fn node_kind_text(n: YamlNode) -> Seq<char> {
    match n {
        YamlNode::Null => "unit value"@,
        YamlNode::Bool(_) => "boolean"@,
        YamlNode::Float => "floating point"@,
        YamlNode::Text(_) => "string"@,
        YamlNode::List(_) => "sequence"@,
        YamlNode::Mapping(_) => "map"@,
        YamlNode::Int(_) => "integer"@,
    }
}

/// The refusal of a node of the wrong type, at its path.
pub open spec fn invalid_type_text(n: YamlNode, expected: Seq<char>, path: Seq<char>) -> Seq<char> {
    at_path_text(path, "invalid type: "@ + node_kind_text(n) + ", expected "@ + expected)
}

/// Key `i` of a mapping is a field name that no earlier key repeats.
pub open spec fn key_ok(m: Seq<(YamlNode, YamlNode)>, names: Seq<Seq<char>>, i: int) -> bool {
    &&& m[i].0 is Text
    &&& names.contains(m[i].0->Text_0)
    &&& forall|j: int| 0 <= j < i ==> m[j].0 != m[i].0
}

/// The refusal of key `i` of a mapping: not a string, not a field name, or
/// a field named twice.
pub open spec fn key_refusal(m: Seq<(YamlNode, YamlNode)>, names: Seq<Seq<char>>, path: Seq<char>, i: int) -> Seq<char> {
    if !(m[i].0 is Text) {
        invalid_type_text(m[i].0, "field identifier"@, path)
    } else if !names.contains(m[i].0->Text_0) {
        at_path_text(path, unknown_field_text(m[i].0->Text_0, names))
    } else {
        at_path_text(path, "duplicate field `"@ + m[i].0->Text_0 + "`"@)
    }
}

/// `e` refuses the first key of a mapping that is not a field name, or
/// that repeats an earlier one.
pub open spec fn fields_refusal(m: Seq<(YamlNode, YamlNode)>, names: Seq<Seq<char>>, path: Seq<char>, e: Seq<char>) -> bool {
    exists|i: int|
        0 <= i < m.len() && (forall|j: int| 0 <= j < i ==> #[trigger] key_ok(m, names, j)) && !key_ok(m, names, i)
            && e == #[trigger] key_refusal(m, names, path, i)
}

/// `e` refuses a node that is not a scalar where a string is expected.
pub open spec fn text_refusal(n: YamlNode, path: Seq<char>, e: Seq<char>) -> bool {
    e == invalid_type_text(n, "a string"@, path)
}

/// `e` refuses a required string field: it is missing, or not a scalar.
pub open spec fn req_text_refusal(m: Seq<(YamlNode, YamlNode)>, name: Seq<char>, path: Seq<char>, e: Seq<char>) -> bool {
    match field_value(m, name) {
        None => e == at_path_text(path, "missing field `"@ + name + "`"@),
        Some(f) => text_refusal(f, child_path_text(path, name), e),
    }
}

/// `e` refuses an optional string field that is neither null nor a scalar.
pub open spec fn opt_text_refusal(m: Seq<(YamlNode, YamlNode)>, name: Seq<char>, path: Seq<char>, e: Seq<char>) -> bool {
    match field_value(m, name) {
        Some(f) => text_refusal(f, child_path_text(path, name), e),
        None => false,
    }
}

/// `e` refuses a node that is not a port number: an integer out of range,
/// or not an integer.
pub open spec fn port_refusal(n: YamlNode, path: Seq<char>, e: Seq<char>) -> bool {
    match n {
        YamlNode::Int(i) => e == at_path_text(path, "invalid value: integer `"@ + signed_decimal(i) + "`, expected u16"@),
        _ => e == invalid_type_text(n, "u16"@, path),
    }
}

/// `e` refuses item `j` of a list of strings, which is not a scalar.
pub open spec fn text_item_refusal(items: Seq<YamlNode>, path: Seq<char>, j: int, e: Seq<char>) -> bool {
    scalar_text(items[j]) is None && text_refusal(items[j], item_path_text(path, j as nat), e)
}

/// `e` refuses item `j` of a list of mounts, which is not a mount.
pub open spec fn mount_item_refusal(items: Seq<YamlNode>, path: Seq<char>, j: int, e: Seq<char>) -> bool {
    read_mount(items[j]) is None && mount_refusal(items[j], item_path_text(path, j as nat), e)
}

/// `e` refuses a node that is not a list of strings: not a sequence, or
/// the first item that is not a scalar.
pub open spec fn text_list_refusal(n: YamlNode, path: Seq<char>, e: Seq<char>) -> bool {
    match n {
        YamlNode::List(items) => exists|j: int|
            0 <= j < items.len() && (forall|k: int| 0 <= k < j ==> (#[trigger] scalar_text(items[k])) is Some)
                && #[trigger] text_item_refusal(items, path, j, e),
        _ => e == invalid_type_text(n, "a sequence"@, path),
    }
}

/// `e` refuses a node that is not a map of strings: not a mapping, or the
/// first entry whose key or value is not a scalar.
pub open spec fn text_map_refusal(n: YamlNode, path: Seq<char>, e: Seq<char>) -> bool {
    match n {
        YamlNode::Mapping(m) => exists|i: int|
            0 <= i < m.len() && (forall|k: int|
                0 <= k < i ==> (#[trigger] scalar_text(m[k].0)) is Some && scalar_text(m[k].1) is Some)
                && #[trigger] entry_text_refusal(m, path, i, e),
        _ => e == invalid_type_text(n, "a map"@, path),
    }
}

/// `e` refuses entry `i` of a map of strings: its key, else its value.
pub open spec fn entry_text_refusal(m: Seq<(YamlNode, YamlNode)>, path: Seq<char>, i: int, e: Seq<char>) -> bool {
    if scalar_text(m[i].0) is None {
        text_refusal(m[i].0, item_path_text(path, i as nat), e)
    } else {
        scalar_text(m[i].1) is None && text_refusal(m[i].1, child_path_text(path, scalar_text(m[i].0).unwrap()), e)
    }
}

/// `e` refuses a node that does not read as a source.
pub open spec fn source_refusal(n: YamlNode, path: Seq<char>, e: Seq<char>) -> bool {
    match n {
        YamlNode::Mapping(m) => if !fields_ok(m, source_fields()) {
            fields_refusal(m, source_fields(), path, e)
        } else if opt_text_field(m, "url"@) is None {
            opt_text_refusal(m, "url"@, path, e)
        } else if opt_text_field(m, "file"@) is None {
            opt_text_refusal(m, "file"@, path, e)
        } else {
            opt_text_refusal(m, "image"@, path, e)
        },
        _ => e == invalid_type_text(n, "struct FungiServiceSource"@, path),
    }
}

/// `e` refuses a node that does not read as a mount.
pub open spec fn mount_refusal(n: YamlNode, path: Seq<char>, e: Seq<char>) -> bool {
    match n {
        YamlNode::Mapping(m) => if !fields_ok(m, mount_fields()) {
            fields_refusal(m, mount_fields(), path, e)
        } else if req_text(m, "from"@) is None {
            req_text_refusal(m, "from"@, path, e)
        } else {
            req_text_refusal(m, "to"@, path, e)
        },
        _ => e == invalid_type_text(n, "struct FungiServiceMount"@, path),
    }
}

/// `e` refuses a node that is not a list of mounts: not a sequence, or the
/// first item that is not a mount.
pub open spec fn mounts_refusal(n: YamlNode, path: Seq<char>, e: Seq<char>) -> bool {
    match n {
        YamlNode::List(items) => exists|j: int|
            0 <= j < items.len() && (forall|k: int| 0 <= k < j ==> (#[trigger] read_mount(items[k])) is Some)
                && #[trigger] mount_item_refusal(items, path, j, e),
        _ => e == invalid_type_text(n, "a sequence"@, path),
    }
}

/// `e` refuses a node that does not name a provider.
pub open spec fn provider_refusal(n: YamlNode, path: Seq<char>, e: Seq<char>) -> bool {
    match n {
        YamlNode::Text(t) => e == at_path_text(path, "unknown variant `"@ + t + "`, expected `docker` or `wasmtime`"@),
        _ => e == invalid_type_text(n, "enum FungiServiceProvider"@, path),
    }
}

/// `e` refuses a node that does not read as a run section, by the first of
/// its fields that does not read.
pub open spec fn run_refusal(n: YamlNode, path: Seq<char>, e: Seq<char>) -> bool {
    match n {
        YamlNode::Mapping(m) => {
            let provider = field_value(m, "provider"@);
            let source = field_value(m, "source"@);
            let args = field_value(m, "args"@);
            let env = field_value(m, "env"@);
            let mounts = field_value(m, "mounts"@);
            if !fields_ok(m, run_fields()) {
                fields_refusal(m, run_fields(), path, e)
            } else if provider is None {
                e == at_path_text(path, "missing field `provider`"@)
            } else if read_provider(provider.unwrap()) is None {
                provider_refusal(provider.unwrap(), child_path_text(path, "provider"@), e)
            } else if source is None {
                e == at_path_text(path, "missing field `source`"@)
            } else if read_source(source.unwrap()) is None {
                source_refusal(source.unwrap(), child_path_text(path, "source"@), e)
            } else if args is Some && text_list(args.unwrap()) is None {
                text_list_refusal(args.unwrap(), child_path_text(path, "args"@), e)
            } else if env is Some && text_map(env.unwrap()) is None {
                text_map_refusal(env.unwrap(), child_path_text(path, "env"@), e)
            } else {
                mounts is Some && mounts_refusal(mounts.unwrap(), child_path_text(path, "mounts"@), e)
            }
        },
        _ => e == invalid_type_text(n, "struct FungiServiceRun"@, path),
    }
}

/// `e` refuses a node that does not read as a TCP address.
pub open spec fn tcp_refusal(n: YamlNode, path: Seq<char>, e: Seq<char>) -> bool {
    match n {
        YamlNode::Mapping(m) => if !fields_ok(m, tcp_fields()) {
            fields_refusal(m, tcp_fields(), path, e)
        } else if opt_text_field(m, "host"@) is None {
            opt_text_refusal(m, "host"@, path, e)
        } else {
            match field_value(m, "port"@) {
                None => e == at_path_text(path, "missing field `port`"@),
                Some(f) => port_refusal(f, child_path_text(path, "port"@), e),
            }
        },
        _ => e == invalid_type_text(n, "struct FungiServiceTcp"@, path),
    }
}

/// `e` refuses a node that does not read as client metadata.
pub open spec fn client_refusal(n: YamlNode, path: Seq<char>, e: Seq<char>) -> bool {
    match n {
        YamlNode::Mapping(m) => if !fields_ok(m, client_fields()) {
            fields_refusal(m, client_fields(), path, e)
        } else if opt_text_field(m, "kind"@) is None {
            opt_text_refusal(m, "kind"@, path, e)
        } else if opt_text_field(m, "path"@) is None {
            opt_text_refusal(m, "path"@, path, e)
        } else if opt_text_field(m, "iconUrl"@) is None {
            opt_text_refusal(m, "iconUrl"@, path, e)
        } else {
            opt_text_refusal(m, "catalogId"@, path, e)
        },
        _ => e == invalid_type_text(n, "struct FungiServiceClient"@, path),
    }
}

/// `e` refuses a node that does not read as a published entry.
pub open spec fn entry_refusal(n: YamlNode, path: Seq<char>, e: Seq<char>) -> bool {
    match n {
        YamlNode::Mapping(m) => if !fields_ok(m, entry_fields()) {
            fields_refusal(m, entry_fields(), path, e)
        } else {
            match field_value(m, "tcp"@) {
                None => e == at_path_text(path, "missing field `tcp`"@),
                Some(t) => if read_tcp(t) is None {
                    tcp_refusal(t, child_path_text(path, "tcp"@), e)
                } else {
                    match field_value(m, "client"@) {
                        Some(c) => c != YamlNode::Null && client_refusal(c, child_path_text(path, "client"@), e),
                        None => false,
                    }
                },
            }
        },
        _ => e == invalid_type_text(n, "struct FungiServicePublishEntry"@, path),
    }
}

/// `e` refuses entry `i` of a publish mapping: its key, else its entry.
pub open spec fn publish_entry_refusal(m: Seq<(YamlNode, YamlNode)>, path: Seq<char>, i: int, e: Seq<char>) -> bool {
    if scalar_text(m[i].0) is None {
        text_refusal(m[i].0, item_path_text(path, i as nat), e)
    } else {
        read_entry(m[i].1) is None && entry_refusal(m[i].1, child_path_text(path, scalar_text(m[i].0).unwrap()), e)
    }
}

/// `e` refuses a node that does not read as a publish mapping: not a
/// mapping, or its first entry that does not read.
pub open spec fn publish_refusal(n: YamlNode, path: Seq<char>, e: Seq<char>) -> bool {
    match n {
        YamlNode::Mapping(m) => exists|i: int|
            0 <= i < m.len() && (forall|k: int|
                0 <= k < i ==> (#[trigger] scalar_text(m[k].0)) is Some && read_entry(m[k].1) is Some)
                && #[trigger] publish_entry_refusal(m, path, i, e),
        _ => e == invalid_type_text(n, "a map"@, path),
    }
}

/// `e` refuses a YAML tree that does not read as a service document, by
/// the first of its fields that does not read.
pub open spec fn document_refusal(n: YamlNode, e: Seq<char>) -> bool {
    match n {
        YamlNode::Mapping(m) => {
            let run = field_value(m, "run"@);
            let publish = field_value(m, "publish"@);
            if !fields_ok(m, document_fields()) {
                fields_refusal(m, document_fields(), ""@, e)
            } else if req_text(m, "fungi"@) is None {
                req_text_refusal(m, "fungi"@, ""@, e)
            } else if req_text(m, "id"@) is None {
                req_text_refusal(m, "id"@, ""@, e)
            } else if opt_text_field(m, "instance"@) is None {
                opt_text_refusal(m, "instance"@, ""@, e)
            } else if run is Some && run.unwrap() != YamlNode::Null && read_run(run.unwrap()) is None {
                run_refusal(run.unwrap(), "run"@, e)
            } else {
                match publish {
                    None => e == "missing field `publish`"@,
                    Some(p) => publish_refusal(p, "publish"@, e),
                }
            }
        },
        _ => e == invalid_type_text(n, "struct FungiServiceDocument"@, ""@),
    }
}

/// `msg`, prefixed with the path of the node it is about.
fn at_path(path: &str, msg: &str) -> (r: String)
    ensures
        r@ == at_path_text(path@, msg@),
{
    if path.is_empty() {
        msg.to_owned()
    } else {
        concat3(path, ": ", msg)
    }
}

/// The path of field `name` below `path`.
fn child_path(path: &str, name: &str) -> (r: String)
    ensures
        r@ == child_path_text(path@, name@),
{
    if path.is_empty() {
        name.to_owned()
    } else {
        concat3(path, ".", name)
    }
}

/// The path of item `i` below `path`.
fn item_path(path: &str, i: usize) -> (r: String)
    ensures
        r@ == item_path_text(path@, i as nat),
{
    let mut s = path.to_owned();
    push_str(&mut s, "[");
    let n = u64_string(i as u64);
    push_str(&mut s, n.as_str());
    push_str(&mut s, "]");
    proof {
        assert(s@ =~= item_path_text(path@, i as nat));
    }
    s
}

/// The error for a field that is not one of `names`.
fn unknown_field_message(key: &str, names: &[&str]) -> (r: String)
    ensures
        r@ == unknown_field_text(key@, name_views(names@)),
{
    let ghost nv = name_views(names@);
    let mut s = concat3("unknown field `", key, "`, expected ");
    let ghost head = s@;
    if names.len() == 1 {
        push_str(&mut s, "`");
        push_str(&mut s, names[0]);
        push_str(&mut s, "`");
        proof {
            assert(nv[0] == names@[0]@);
            assert(s@ =~= unknown_field_text(key@, nv));
        }
    } else if names.len() == 2 {
        push_str(&mut s, "`");
        push_str(&mut s, names[0]);
        push_str(&mut s, "` or `");
        push_str(&mut s, names[1]);
        push_str(&mut s, "`");
        proof {
            assert(nv[0] == names@[0]@);
            assert(nv[1] == names@[1]@);
            reveal_strlit("` or `");
            reveal_strlit("`");
            reveal_strlit(" or ");
            assert(s@ =~= unknown_field_text(key@, nv));
        }
    } else {
        push_str(&mut s, "one of ");
        let mut i: usize = 0;
        while i < names.len()
            invariant
                i <= names.len(),
                nv == name_views(names@),
                s@ == head + "one of "@ + ticked_list(nv.take(i as int)),
            decreases names.len() - i,
        {
            let ghost before = s@;
            if i > 0 {
                push_str(&mut s, ", ");
            }
            push_str(&mut s, "`");
            push_str(&mut s, names[i]);
            push_str(&mut s, "`");
            proof {
                let t = nv.take(i + 1);
                assert(t.drop_last() =~= nv.take(i as int));
                assert(t.last() == names@[i as int]@);
                if i == 0 {
                    assert(nv.take(0) =~= Seq::<Seq<char>>::empty());
                    assert(s@ =~= head + "one of "@ + ticked_list(t));
                } else {
                    assert(s@ =~= head + "one of "@ + ticked_list(t));
                }
            }
            i = i + 1;
        }
        proof {
            assert(nv.take(i as int) =~= nv);
            assert(nv.len() == names@.len());
            assert(expected_fields_text(nv) == "one of "@ + ticked_list(nv));
            assert(s@ =~= unknown_field_text(key@, nv));
        }
    }
    s
}

/// A short description of what a node is, for error messages.
fn node_kind(v: &serde_yaml::Value) -> (r: &'static str)
    ensures
        r@ == node_kind_text(yaml_tree(*v)),
{
    if yaml_is_null(v) {
        "unit value"
    } else if yaml_as_bool(v).is_some() {
        "boolean"
    } else if yaml_is_float(v) {
        "floating point"
    } else if yaml_as_str(v).is_some() {
        "string"
    } else if yaml_list_len(v).is_some() {
        "sequence"
    } else if yaml_map_len(v).is_some() {
        "map"
    } else {
        "integer"
    }
}

/// The error for a node of the wrong kind.
fn invalid_type(v: &serde_yaml::Value, expected: &str, path: &str) -> (r: String)
    ensures
        r@ == invalid_type_text(yaml_tree(*v), expected@, path@),
{
    let mut s = concat("invalid type: ", node_kind(v));
    push_str(&mut s, ", expected ");
    push_str(&mut s, expected);
    proof {
        assert(s@ =~= "invalid type: "@ + node_kind_text(yaml_tree(*v)) + ", expected "@ + expected@);
    }
    at_path(path, s.as_str())
}

/// The text of the key of entry `i`, if the key is a string.
fn key_text(v: &serde_yaml::Value, i: usize) -> (r: Option<String>)
    requires
        yaml_tree(*v) is Mapping,
        i < yaml_tree(*v)->Mapping_0.len(),
    ensures
        match r {
            Some(s) => yaml_tree(*v)->Mapping_0[i as int].0 == YamlNode::Text(s@),
            None => !(yaml_tree(*v)->Mapping_0[i as int].0 is Text),
        },
{
    let (k, _) = yaml_map_entry(v, i);
    yaml_as_str(k)
}

proof fn lemma_field_value_skip(m: Seq<(YamlNode, YamlNode)>, name: Seq<char>, i: int)
    requires
        0 <= i <= m.len(),
        forall|j: int| 0 <= j < i ==> (#[trigger] m[j]).0 != YamlNode::Text(name),
    ensures
        field_value(m, name) == field_value(m.skip(i), name),
    decreases i,
{
    if i > 0 {
        assert(m[0].0 != YamlNode::Text(name));
        let t = m.drop_first();
        assert forall|j: int| 0 <= j < i - 1 implies (#[trigger] t[j]).0 != YamlNode::Text(name) by {
            assert(t[j] == m[j + 1]);
        }
        lemma_field_value_skip(t, name, i - 1);
        assert(t.skip(i - 1) =~= m.skip(i));
    } else {
        assert(m.skip(0) =~= m);
    }
}

/// The value of field `name` of a mapping node.
pub(crate) fn find_field<'a>(v: &'a serde_yaml::Value, name: &str) -> (r: Option<&'a serde_yaml::Value>)
    requires
        yaml_tree(*v) is Mapping,
    ensures
        match r {
            Some(f) => field_value(yaml_tree(*v)->Mapping_0, name@) == Some(yaml_tree(*f)),
            None => field_value(yaml_tree(*v)->Mapping_0, name@) is None,
        },
{
    let ghost m = yaml_tree(*v)->Mapping_0;
    let n = yaml_map_len(v).unwrap();
    let mut i: usize = 0;
    while i < n
        invariant
            yaml_tree(*v) is Mapping,
            m == yaml_tree(*v)->Mapping_0,
            n == m.len(),
            i <= n,
            forall|j: int| 0 <= j < i ==> (#[trigger] m[j]).0 != YamlNode::Text(name@),
        decreases n - i,
    {
        let (k, val) = yaml_map_entry(v, i);
        let kt = yaml_as_str(k);
        let hit = match &kt {
            Some(s) => str_eq(s.as_str(), name),
            None => false,
        };
        if hit {
            proof {
                lemma_field_value_skip(m, name@, i as int);
                assert(m.skip(i as int)[0] == m[i as int]);
            }
            return Some(val);
        }
        i = i + 1;
    }
    proof {
        lemma_field_value_skip(m, name@, n as int);
        assert(m.skip(n as int).len() == 0);
    }
    None
}

/// Checks that every key of a mapping node is one of `names`, and that no
/// key appears twice.
fn check_fields(v: &serde_yaml::Value, names: &[&str], path: &str) -> (r: Result<(), String>)
    requires
        yaml_tree(*v) is Mapping,
    ensures
        r is Ok <==> fields_ok(yaml_tree(*v)->Mapping_0, name_views(names@)),
        r matches Err(e) ==> fields_refusal(yaml_tree(*v)->Mapping_0, name_views(names@), path@, e@),
{
    let ghost m = yaml_tree(*v)->Mapping_0;
    let ghost nv = name_views(names@);
    let n = yaml_map_len(v).unwrap();
    let mut keys: Vec<String> = Vec::new();
    let mut i: usize = 0;
    while i < n
        invariant
            yaml_tree(*v) is Mapping,
            m == yaml_tree(*v)->Mapping_0,
            nv == name_views(names@),
            n == m.len(),
            i <= n,
            keys@.len() == i,
            forall|j: int| 0 <= j < i ==> (#[trigger] m[j]).0 == YamlNode::Text(keys@[j]@),
            forall|j: int| 0 <= j < i ==> nv.contains((#[trigger] m[j]).0->Text_0),
            forall|a: int, b: int| 0 <= a < b < i ==> #[trigger] m[a].0 != #[trigger] m[b].0,
        decreases n - i,
    {
        let kt = key_text(v, i);
        match kt {
            None => {
                let (k, _) = yaml_map_entry(v, i);
                let e = invalid_type(k, "field identifier", path);
                proof {
                    assert forall|j: int| 0 <= j < i implies #[trigger] key_ok(m, nv, j) by {}
                    assert(!key_ok(m, nv, i as int));
                    assert(e@ == key_refusal(m, nv, path@, i as int));
                }
                return Err(e);
            },
            Some(key) => {
                let mut known = false;
                let mut j: usize = 0;
                while j < names.len()
                    invariant
                        j <= names.len(),
                        nv == name_views(names@),
                        !known ==> forall|q: int| 0 <= q < j ==> nv[q] != key@,
                        known ==> nv.contains(key@),
                    decreases names.len() - j,
                {
                    if str_eq(key.as_str(), names[j]) {
                        proof {
                            assert(nv[j as int] == key@);
                        }
                        known = true;
                    }
                    j = j + 1;
                }
                if !known {
                    proof {
                        assert(!nv.contains(key@));
                        assert(m[i as int].0->Text_0 == key@);
                    }
                    let e = at_path(path, unknown_field_message(key.as_str(), names).as_str());
                    proof {
                        assert forall|j: int| 0 <= j < i implies #[trigger] key_ok(m, nv, j) by {}
                        assert(!key_ok(m, nv, i as int));
                        assert(e@ == key_refusal(m, nv, path@, i as int));
                    }
                    return Err(e);
                }
                let mut a: usize = 0;
                while a < i
                    invariant
                        yaml_tree(*v) is Mapping,
                        m == yaml_tree(*v)->Mapping_0,
                        n == m.len(),
                        a <= i,
                        i < n,
                        keys@.len() == i,
                        m[i as int].0 == YamlNode::Text(key@),
                        forall|j: int| 0 <= j < i ==> (#[trigger] m[j]).0 == YamlNode::Text(keys@[j]@),
                        forall|q: int| 0 <= q < a ==> m[q].0 != m[i as int].0,
                        nv == name_views(names@),
                        nv.contains(key@),
                        forall|j: int| 0 <= j < i ==> nv.contains((#[trigger] m[j]).0->Text_0),
                        forall|x: int, y: int| 0 <= x < y < i ==> #[trigger] m[x].0 != #[trigger] m[y].0,
                    decreases i - a,
                {
                    if str_eq(keys[a].as_str(), key.as_str()) {
                        proof {
                            assert(m[a as int].0 == m[i as int].0);
                        }
                        let mut msg = concat3("duplicate field `", key.as_str(), "`");
                        let e = at_path(path, msg.as_str());
                        proof {
                            assert forall|j: int| 0 <= j < i implies #[trigger] key_ok(m, nv, j) by {}
                            assert(!key_ok(m, nv, i as int));
                            assert(nv.contains(key@));
                            assert(e@ == key_refusal(m, nv, path@, i as int));
                        }
                        return Err(e);
                    }
                    proof {
                        assert(m[a as int].0 == YamlNode::Text(keys@[a as int]@));
                    }
                    a = a + 1;
                }
                keys.push(key);
            },
        }
        i = i + 1;
    }
    Ok(())
}

/// Reads a scalar as a string.
fn read_text(v: &serde_yaml::Value, path: &str) -> (r: Result<String, String>)
    ensures
        match r {
            Ok(s) => scalar_text(yaml_tree(*v)) == Some(s@),
            Err(e) => scalar_text(yaml_tree(*v)) is None && text_refusal(yaml_tree(*v), path@, e@),
        },
{
    if let Some(s) = yaml_as_str(v) {
        return Ok(s);
    }
    if let Some(b) = yaml_as_bool(v) {
        return Ok(
            if b {
                "true".to_owned()
            } else {
                "false".to_owned()
            },
        );
    }
    if let Some(i) = yaml_as_i64(v) {
        return Ok(i64_string(i));
    }
    if let Some(u) = yaml_as_u64(v) {
        return Ok(u64_string(u));
    }
    Err(invalid_type(v, "a string", path))
}

/// Reads a required string field.
fn read_req_text(v: &serde_yaml::Value, name: &str, path: &str) -> (r: Result<String, String>)
    requires
        yaml_tree(*v) is Mapping,
    ensures
        match r {
            Ok(s) => req_text(yaml_tree(*v)->Mapping_0, name@) == Some(s@),
            Err(e) => req_text(yaml_tree(*v)->Mapping_0, name@) is None && req_text_refusal(
                yaml_tree(*v)->Mapping_0,
                name@,
                path@,
                e@,
            ),
        },
{
    match find_field(v, name) {
        Some(f) => {
            let p = child_path(path, name);
            read_text(f, p.as_str())
        },
        None => {
            let msg = concat3("missing field `", name, "`");
            Err(at_path(path, msg.as_str()))
        },
    }
}

/// Reads an optional string field.
fn read_opt_text(v: &serde_yaml::Value, name: &str, path: &str) -> (r: Result<Option<String>, String>)
    requires
        yaml_tree(*v) is Mapping,
    ensures
        match r {
            Ok(o) => opt_text_field(yaml_tree(*v)->Mapping_0, name@) == Some(opt_text(o)),
            Err(e) => opt_text_field(yaml_tree(*v)->Mapping_0, name@) is None && opt_text_refusal(
                yaml_tree(*v)->Mapping_0,
                name@,
                path@,
                e@,
            ),
        },
{
    match find_field(v, name) {
        Some(f) => {
            if yaml_is_null(f) {
                return Ok(None);
            }
            let p = child_path(path, name);
            match read_text(f, p.as_str()) {
                Ok(s) => Ok(Some(s)),
                Err(e) => Err(e),
            }
        },
        None => Ok(None),
    }
}

/// Reads a port number.
fn read_port(v: &serde_yaml::Value, path: &str) -> (r: Result<u16, String>)
    ensures
        match r {
            Ok(p) => port_value(yaml_tree(*v)) == Some(p),
            Err(e) => port_value(yaml_tree(*v)) is None && port_refusal(yaml_tree(*v), path@, e@),
        },
{
    match yaml_as_u64(v) {
        Some(n) => {
            if n <= 65535 {
                Ok(n as u16)
            } else {
                let msg = concat3("invalid value: integer `", u64_string(n).as_str(), "`, expected u16");
                proof {
                    assert(signed_decimal(n as int) == decimal(n as nat));
                }
                Err(at_path(path, msg.as_str()))
            }
        },
        None => {
            if let Some(i) = yaml_as_i64(v) {
                let msg = concat3("invalid value: integer `", i64_string(i).as_str(), "`, expected u16");
                Err(at_path(path, msg.as_str()))
            } else {
                Err(invalid_type(v, "u16", path))
            }
        },
    }
}

/// Reads a list of strings.
fn read_text_list(v: &serde_yaml::Value, path: &str) -> (r: Result<Vec<String>, String>)
    ensures
        match r {
            Ok(l) => text_list(yaml_tree(*v)) == Some(texts(l@)),
            Err(e) => text_list(yaml_tree(*v)) is None && text_list_refusal(yaml_tree(*v), path@, e@),
        },
{
    let n = match yaml_list_len(v) {
        Some(n) => n,
        None => {
            return Err(invalid_type(v, "a sequence", path));
        },
    };
    let ghost items = yaml_tree(*v)->List_0;
    let mut out: Vec<String> = Vec::new();
    let mut i: usize = 0;
    while i < n
        invariant
            yaml_tree(*v) is List,
            items == yaml_tree(*v)->List_0,
            n == items.len(),
            i <= n,
            out@.len() == i,
            forall|j: int| 0 <= j < i ==> scalar_text(#[trigger] items[j]) == Some(out@[j]@),
        decreases n - i,
    {
        let item = yaml_list_item(v, i);
        let p = item_path(path, i);
        match read_text(item, p.as_str()) {
            Ok(s) => out.push(s),
            Err(e) => {
                proof {
                    assert(forall|k: int| 0 <= k < i ==> (#[trigger] scalar_text(items[k])) is Some);
                    assert(yaml_tree(*item) == items[i as int]);
                    assert(scalar_text(items[i as int]) is None);
                    assert(text_item_refusal(items, path@, i as int, e@));
                    assert(text_list_refusal(yaml_tree(*v), path@, e@));
                }
                return Err(e);
            },
        }
        i = i + 1;
    }
    proof {
        assert(texts(out@) =~= Seq::new(items.len(), |j: int| scalar_text(items[j]).unwrap()));
    }
    Ok(out)
}

/// Reads a map from strings to strings, into key order.
fn read_text_map(v: &serde_yaml::Value, path: &str) -> (r: Result<Vec<(String, String)>, String>)
    ensures
        match r {
            Ok(l) => text_map(yaml_tree(*v)) == Some(entry_views(l@)),
            Err(e) => text_map(yaml_tree(*v)) is None && text_map_refusal(yaml_tree(*v), path@, e@),
        },
{
    let n = match yaml_map_len(v) {
        Some(n) => n,
        None => {
            return Err(invalid_type(v, "a map", path));
        },
    };
    let ghost m = yaml_tree(*v)->Mapping_0;
    let ghost pairs = Seq::new(
        m.len(),
        |i: int| (scalar_text(m[i].0).unwrap(), scalar_text(m[i].1).unwrap()),
    );
    let mut out: Vec<(String, String)> = Vec::new();
    let mut i: usize = 0;
    while i < n
        invariant
            yaml_tree(*v) is Mapping,
            m == yaml_tree(*v)->Mapping_0,
            pairs == Seq::new(
                m.len(),
                |i: int| (scalar_text(m[i].0).unwrap(), scalar_text(m[i].1).unwrap()),
            ),
            n == m.len(),
            i <= n,
            forall|j: int|
                0 <= j < i ==> (#[trigger] scalar_text(m[j].0)) is Some && scalar_text(m[j].1) is Some,
            entry_views(out@) == sorted_from(pairs.take(i as int)),
        decreases n - i,
    {
        let (k, val) = yaml_map_entry(v, i);
        let kp = item_path(path, i);
        let key = match read_text(k, kp.as_str()) {
            Ok(s) => s,
            Err(e) => {
                proof {
                    assert(scalar_text(m[i as int].0) is None);
                    assert(entry_text_refusal(m, path@, i as int, e@));
                }
                return Err(e);
            },
        };
        let vp = child_path(path, key.as_str());
        let value = match read_text(val, vp.as_str()) {
            Ok(s) => s,
            Err(e) => {
                proof {
                    assert(scalar_text(m[i as int].1) is None);
                    assert(!(scalar_text(m[i as int].0) is Some && scalar_text(m[i as int].1) is Some));
                    assert(entry_text_refusal(m, path@, i as int, e@));
                }
                return Err(e);
            },
        };
        proof {
            assert(pairs.take(i + 1).drop_last() =~= pairs.take(i as int));
            assert(pairs.take(i + 1).last() == (key@, value@));
        }
        ordered_insert(&mut out, key, value);
        i = i + 1;
    }
    proof {
        assert(pairs.take(n as int) =~= pairs);
    }
    Ok(out)
}


/// Reads the source of a run.
fn read_source_node(v: &serde_yaml::Value, path: &str) -> (r: Result<FungiServiceSource, String>)
    ensures
        match r {
            Ok(x) => read_source(yaml_tree(*v)) == Some(x@),
            Err(e) => read_source(yaml_tree(*v)) is None && source_refusal(yaml_tree(*v), path@, e@),
        },
{
    if yaml_map_len(v).is_none() {
        return Err(invalid_type(v, "struct FungiServiceSource", path));
    }
    let names: [&str; 3] = ["url", "file", "image"];
    proof {
        assert(name_views(names@) =~= source_fields());
    }
    check_fields(v, &names, path)?;
    let url = read_opt_text(v, "url", path)?;
    let file = read_opt_text(v, "file", path)?;
    let image = read_opt_text(v, "image", path)?;
    Ok(FungiServiceSource { url, file, image })
}

/// Reads a mount.
fn read_mount_node(v: &serde_yaml::Value, path: &str) -> (r: Result<FungiServiceMount, String>)
    ensures
        match r {
            Ok(x) => read_mount(yaml_tree(*v)) == Some(x@),
            Err(e) => read_mount(yaml_tree(*v)) is None && mount_refusal(yaml_tree(*v), path@, e@),
        },
{
    if yaml_map_len(v).is_none() {
        return Err(invalid_type(v, "struct FungiServiceMount", path));
    }
    let names: [&str; 2] = ["from", "to"];
    proof {
        assert(name_views(names@) =~= mount_fields());
    }
    check_fields(v, &names, path)?;
    let from = read_req_text(v, "from", path)?;
    let to = read_req_text(v, "to", path)?;
    Ok(FungiServiceMount { from, to })
}

/// Reads a list of mounts.
fn read_mounts_node(v: &serde_yaml::Value, path: &str) -> (r: Result<Vec<FungiServiceMount>, String>)
    ensures
        match r {
            Ok(l) => read_mounts(yaml_tree(*v)) == Some(l@.map_values(|m: FungiServiceMount| m@)),
            Err(e) => read_mounts(yaml_tree(*v)) is None && mounts_refusal(yaml_tree(*v), path@, e@),
        },
{
    let n = match yaml_list_len(v) {
        Some(n) => n,
        None => {
            return Err(invalid_type(v, "a sequence", path));
        },
    };
    let ghost items = yaml_tree(*v)->List_0;
    let mut out: Vec<FungiServiceMount> = Vec::new();
    let mut i: usize = 0;
    while i < n
        invariant
            yaml_tree(*v) is List,
            items == yaml_tree(*v)->List_0,
            n == items.len(),
            i <= n,
            out@.len() == i,
            forall|j: int| 0 <= j < i ==> read_mount(#[trigger] items[j]) == Some(out@[j]@),
        decreases n - i,
    {
        let item = yaml_list_item(v, i);
        let p = item_path(path, i);
        match read_mount_node(item, p.as_str()) {
            Ok(x) => out.push(x),
            Err(e) => {
                proof {
                    assert(forall|k: int| 0 <= k < i ==> (#[trigger] read_mount(items[k])) is Some);
                    assert(yaml_tree(*item) == items[i as int]);
                    assert(read_mount(items[i as int]) is None);
                    assert(mount_item_refusal(items, path@, i as int, e@));
                    assert(mounts_refusal(yaml_tree(*v), path@, e@));
                }
                return Err(e);
            },
        }
        i = i + 1;
    }
    proof {
        assert(out@.map_values(|m: FungiServiceMount| m@) =~= Seq::new(
            items.len(),
            |j: int| read_mount(items[j]).unwrap(),
        ));
    }
    Ok(out)
}

/// Reads the provider name.
fn read_provider_node(v: &serde_yaml::Value, path: &str) -> (r: Result<FungiServiceProvider, String>)
    ensures
        match r {
            Ok(x) => read_provider(yaml_tree(*v)) == Some(x),
            Err(e) => read_provider(yaml_tree(*v)) is None && provider_refusal(yaml_tree(*v), path@, e@),
        },
{
    match yaml_as_str(v) {
        Some(s) => {
            if str_eq(s.as_str(), "docker") {
                Ok(FungiServiceProvider::Docker)
            } else if str_eq(s.as_str(), "wasmtime") {
                Ok(FungiServiceProvider::Wasmtime)
            } else {
                let msg = concat3("unknown variant `", s.as_str(), "`, expected `docker` or `wasmtime`");
                Err(at_path(path, msg.as_str()))
            }
        },
        None => Err(invalid_type(v, "enum FungiServiceProvider", path)),
    }
}

/// Reads the run section.
fn read_run_node(v: &serde_yaml::Value, path: &str) -> (r: Result<FungiServiceRun, String>)
    ensures
        match r {
            Ok(x) => read_run(yaml_tree(*v)) == Some(x@),
            Err(e) => read_run(yaml_tree(*v)) is None && run_refusal(yaml_tree(*v), path@, e@),
        },
{
    if yaml_map_len(v).is_none() {
        return Err(invalid_type(v, "struct FungiServiceRun", path));
    }
    let ghost m = yaml_tree(*v)->Mapping_0;
    let names: [&str; 5] = ["provider", "source", "args", "env", "mounts"];
    proof {
        assert(name_views(names@) =~= run_fields());
    }
    check_fields(v, &names, path)?;
    let provider = match find_field(v, "provider") {
        Some(f) => {
            let p = child_path(path, "provider");
            read_provider_node(f, p.as_str())?
        },
        None => {
            return Err(at_path(path, "missing field `provider`"));
        },
    };
    let source = match find_field(v, "source") {
        Some(f) => {
            let p = child_path(path, "source");
            read_source_node(f, p.as_str())?
        },
        None => {
            return Err(at_path(path, "missing field `source`"));
        },
    };
    let args = match find_field(v, "args") {
        Some(f) => {
            let p = child_path(path, "args");
            read_text_list(f, p.as_str())?
        },
        None => Vec::new(),
    };
    let env = match find_field(v, "env") {
        Some(f) => {
            let p = child_path(path, "env");
            read_text_map(f, p.as_str())?
        },
        None => Vec::new(),
    };
    let mounts = match find_field(v, "mounts") {
        Some(f) => {
            let p = child_path(path, "mounts");
            read_mounts_node(f, p.as_str())?
        },
        None => Vec::new(),
    };
    let run = FungiServiceRun { provider, source, args, env, mounts };
    proof {
        assert(texts(run.args@) =~= defaulted(field_value(m, "args"@), Seq::empty(), |v: YamlNode| text_list(v)).unwrap());
        assert(entry_views(run.env@) =~= defaulted(field_value(m, "env"@), Seq::empty(), |v: YamlNode| text_map(v)).unwrap());
        assert(run.mounts@.map_values(|m: FungiServiceMount| m@) =~= defaulted(field_value(m, "mounts"@), Seq::empty(), |v: YamlNode| read_mounts(v)).unwrap());
    }
    Ok(run)
}


/// Reads the TCP address of a published entry.
fn read_tcp_node(v: &serde_yaml::Value, path: &str) -> (r: Result<FungiServiceTcp, String>)
    ensures
        match r {
            Ok(x) => read_tcp(yaml_tree(*v)) == Some(x@),
            Err(e) => read_tcp(yaml_tree(*v)) is None && tcp_refusal(yaml_tree(*v), path@, e@),
        },
{
    if yaml_map_len(v).is_none() {
        return Err(invalid_type(v, "struct FungiServiceTcp", path));
    }
    let names: [&str; 2] = ["host", "port"];
    proof {
        assert(name_views(names@) =~= tcp_fields());
    }
    check_fields(v, &names, path)?;
    let host = read_opt_text(v, "host", path)?;
    let port = match find_field(v, "port") {
        Some(f) => {
            let p = child_path(path, "port");
            read_port(f, p.as_str())?
        },
        None => {
            return Err(at_path(path, "missing field `port`"));
        },
    };
    Ok(FungiServiceTcp { host, port })
}

/// Reads the client metadata of a published entry.
fn read_client_node(v: &serde_yaml::Value, path: &str) -> (r: Result<FungiServiceClient, String>)
    ensures
        match r {
            Ok(x) => read_client(yaml_tree(*v)) == Some(x@),
            Err(e) => read_client(yaml_tree(*v)) is None && client_refusal(yaml_tree(*v), path@, e@),
        },
{
    if yaml_map_len(v).is_none() {
        return Err(invalid_type(v, "struct FungiServiceClient", path));
    }
    let names: [&str; 4] = ["kind", "path", "iconUrl", "catalogId"];
    proof {
        assert(name_views(names@) =~= client_fields());
    }
    check_fields(v, &names, path)?;
    let kind = read_opt_text(v, "kind", path)?;
    let p = read_opt_text(v, "path", path)?;
    let icon_url = read_opt_text(v, "iconUrl", path)?;
    let catalog_id = read_opt_text(v, "catalogId", path)?;
    Ok(FungiServiceClient { kind, path: p, icon_url, catalog_id })
}

/// Reads one published entry.
fn read_entry_node(v: &serde_yaml::Value, path: &str) -> (r: Result<FungiServicePublishEntry, String>)
    ensures
        match r {
            Ok(x) => read_entry(yaml_tree(*v)) == Some(x@),
            Err(e) => read_entry(yaml_tree(*v)) is None && entry_refusal(yaml_tree(*v), path@, e@),
        },
{
    if yaml_map_len(v).is_none() {
        return Err(invalid_type(v, "struct FungiServicePublishEntry", path));
    }
    let names: [&str; 2] = ["tcp", "client"];
    proof {
        assert(name_views(names@) =~= entry_fields());
    }
    check_fields(v, &names, path)?;
    let tcp = match find_field(v, "tcp") {
        Some(f) => {
            let p = child_path(path, "tcp");
            read_tcp_node(f, p.as_str())?
        },
        None => {
            return Err(at_path(path, "missing field `tcp`"));
        },
    };
    let client = match find_field(v, "client") {
        Some(f) => {
            if yaml_is_null(f) {
                None
            } else {
                let p = child_path(path, "client");
                Some(read_client_node(f, p.as_str())?)
            }
        },
        None => None,
    };
    Ok(FungiServicePublishEntry { tcp, client })
}

/// Reads the publish mapping, into key order.
fn read_publish_node(v: &serde_yaml::Value, path: &str) -> (r: Result<Vec<(String, FungiServicePublishEntry)>, String>)
    ensures
        match r {
            Ok(l) => read_publish(yaml_tree(*v)) == Some(entry_views(l@)),
            Err(e) => read_publish(yaml_tree(*v)) is None && publish_refusal(yaml_tree(*v), path@, e@),
        },
{
    let n = match yaml_map_len(v) {
        Some(n) => n,
        None => {
            return Err(invalid_type(v, "a map", path));
        },
    };
    let ghost m = yaml_tree(*v)->Mapping_0;
    let ghost pairs = publish_pairs(m);
    let mut out: Vec<(String, FungiServicePublishEntry)> = Vec::new();
    let mut i: usize = 0;
    while i < n
        invariant
            yaml_tree(*v) is Mapping,
            m == yaml_tree(*v)->Mapping_0,
            pairs == publish_pairs(m),
            n == m.len(),
            i <= n,
            forall|j: int|
                0 <= j < i ==> (#[trigger] scalar_text(m[j].0)) is Some && read_entry(m[j].1) is Some,
            entry_views(out@) == sorted_from(pairs.take(i as int)),
        decreases n - i,
    {
        let (k, val) = yaml_map_entry(v, i);
        let kp = item_path(path, i);
        let key = match read_text(k, kp.as_str()) {
            Ok(s) => s,
            Err(e) => {
                proof {
                    assert(scalar_text(m[i as int].0) is None);
                    assert(publish_entry_refusal(m, path@, i as int, e@));
                }
                return Err(e);
            },
        };
        let vp = child_path(path, key.as_str());
        let entry = match read_entry_node(val, vp.as_str()) {
            Ok(x) => x,
            Err(e) => {
                proof {
                    assert(read_entry(m[i as int].1) is None);
                    assert(!(scalar_text(m[i as int].0) is Some && read_entry(m[i as int].1) is Some));
                    assert(publish_entry_refusal(m, path@, i as int, e@));
                }
                return Err(e);
            },
        };
        proof {
            assert(pairs.take(i + 1).drop_last() =~= pairs.take(i as int));
            assert(pairs.take(i + 1).last() == (key@, entry@));
        }
        ordered_insert(&mut out, key, entry);
        i = i + 1;
    }
    proof {
        assert(pairs.take(n as int) =~= pairs);
    }
    Ok(out)
}

/// Reads a whole document from a YAML tree.
fn read_document_node(v: &serde_yaml::Value) -> (r: Result<FungiServiceDocument, String>)
    ensures
        match r {
            Ok(x) => read_document(yaml_tree(*v)) == Some(x@),
            Err(e) => read_document(yaml_tree(*v)) is None && document_refusal(yaml_tree(*v), e@),
        },
{
    if yaml_map_len(v).is_none() {
        return Err(invalid_type(v, "struct FungiServiceDocument", ""));
    }
    let names: [&str; 5] = ["fungi", "id", "instance", "run", "publish"];
    proof {
        assert(name_views(names@) =~= document_fields());
    }
    check_fields(v, &names, "")?;
    let fungi = read_req_text(v, "fungi", "")?;
    let id = read_req_text(v, "id", "")?;
    let instance = read_opt_text(v, "instance", "")?;
    let run = match find_field(v, "run") {
        Some(f) => {
            if yaml_is_null(f) {
                None
            } else {
                Some(read_run_node(f, "run")?)
            }
        },
        None => None,
    };
    let publish = match find_field(v, "publish") {
        Some(f) => read_publish_node(f, "publish")?,
        None => {
            return Err("missing field `publish`".to_owned());
        },
    };
    Ok(FungiServiceDocument { fungi, id, instance, run, publish })
}

/// The document a text holds, when it parses as YAML and reads as a
/// `fungi: service/v1` document.
pub open spec fn parsed_document(text: Seq<char>) -> Option<FungiServiceDocumentView> {
    match yaml_parse(text) {
        Ok(n) => read_document(n),
        Err(_) => None,
    }
}

/// `e` refuses a text that does not read as a service document: it names
/// the text, then gives the YAML error, or the refusal of the tree.
pub open spec fn service_yaml_refusal(label: Seq<char>, text: Seq<char>, e: Seq<char>) -> bool {
    match yaml_parse(text) {
        Err(m) => e == "Failed to parse "@ + label + ": "@ + m,
        Ok(n) => exists|m: Seq<char>| #[trigger] document_refusal(n, m) && e == "Failed to parse "@ + label + ": "@ + m,
    }
}

/// Parses a YAML text into a service document. Errors are prefixed with
/// `Failed to parse <label>: `.
pub fn parse_fungi_service_yaml(yaml: &str, label: &str) -> (r: Result<FungiServiceDocument, String>)
    ensures
        match r {
            Ok(d) => parsed_document(yaml@) == Some(d@),
            Err(e) => {
                &&& parsed_document(yaml@) is None
                &&& starts_with(e@, "Failed to parse "@ + label@ + ": "@)
                &&& service_yaml_refusal(label@, yaml@, e@)
            },
        },
{
    let prefix = concat3("Failed to parse ", label, ": ");
    match parse_yaml_value(yaml) {
        Ok(v) => match read_document_node(&v) {
            Ok(d) => Ok(d),
            Err(e) => {
                let r = concat(prefix.as_str(), e.as_str());
                proof {
                    assert(r@.subrange(0, prefix@.len() as int) =~= prefix@);
                    assert(document_refusal(yaml_tree(v), e@));
                }
                Err(r)
            },
        },
        Err(e) => {
            let r = concat(prefix.as_str(), e.as_str());
            proof {
                assert(r@.subrange(0, prefix@.len() as int) =~= prefix@);
            }
            Err(r)
        },
    }
}

} // verus!
