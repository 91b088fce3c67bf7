//! Running services on docker: the container a manifest asks for.

use vstd::prelude::*;

use crate::model::{
    copy_opt, copy_pairs, copy_strings, texts, RuntimeKind, ServiceManifest, ServicePortProtocol, ServiceSource,
    ServiceSourceView,
};
use crate::ordered::entry_views;
use crate::text::{chars_of, chars_start_with, starts_with, string_from};

verus! {

/// A host directory bound into a container.
#[derive(Debug, Clone)]
pub struct DockerBindMount {
    pub host_path: String,
    pub container_path: String,
}

/// The transport of a published container port.
#[derive(Debug, Clone, Copy, PartialEq, Eq, Structural)]
pub enum DockerPortProtocol {
    Tcp,
    Udp,
}

/// A container port published on a host port.
#[derive(Debug, Clone)]
pub struct DockerPortBinding {
    pub host_port: u16,
    pub container_port: u16,
    pub protocol: DockerPortProtocol,
}

/// The container the docker agent is asked to create for a service.
#[derive(Debug, Clone)]
pub struct DockerContainerSpec {
    pub name: Option<String>,
    pub image: String,
    pub env: Vec<(String, String)>,
    pub mounts: Vec<DockerBindMount>,
    pub ports: Vec<DockerPortBinding>,
    pub command: Vec<String>,
    pub entrypoint: Vec<String>,
    pub working_dir: Option<String>,
    pub labels: Vec<(String, String)>,
}

/// The container for a docker service, named `container_name`: its image,
/// environment, mounts, ports (host port to service port, same transport),
/// command, entrypoint, working directory and labels as the manifest gives
/// them; an error unless the manifest is for docker with an image source.
pub fn docker_spec_from_manifest_with_name(manifest: &ServiceManifest, container_name: &str) -> (r: Result<
    DockerContainerSpec,
    String,
>)
    ensures
        r is Ok <==> manifest.runtime == RuntimeKind::Docker && manifest@.source is Docker,
        r matches Err(e) ==> e@ == (if manifest.runtime != RuntimeKind::Docker {
            "service manifest runtime does not match docker provider"@
        } else {
            "docker runtime requires a docker image source"@
        }),
        r matches Ok(spec) ==> {
            &&& spec.name is Some && spec.name->0@ == container_name@
            &&& manifest@.source matches ServiceSourceView::Docker { image } && spec.image@ == image
            &&& entry_views(spec.env@) == manifest@.env
            &&& spec.mounts@.len() == manifest@.mounts.len()
            &&& forall|i: int|
                0 <= i < spec.mounts@.len() ==> (#[trigger] spec.mounts@[i]).host_path@ == manifest@.mounts[i].host_path
                    && spec.mounts@[i].container_path@ == manifest@.mounts[i].runtime_path
            &&& spec.ports@.len() == manifest@.ports.len()
            &&& forall|i: int|
                0 <= i < spec.ports@.len() ==> (#[trigger] spec.ports@[i]).host_port == manifest@.ports[i].host_port
                    && spec.ports@[i].container_port == manifest@.ports[i].service_port && (spec.ports@[i].protocol
                    == DockerPortProtocol::Tcp <==> manifest@.ports[i].protocol == ServicePortProtocol::Tcp)
            &&& texts(spec.command@) == manifest@.command
            &&& texts(spec.entrypoint@) == manifest@.entrypoint
            &&& crate::model::opt_text(spec.working_dir) == manifest@.working_dir
            &&& entry_views(spec.labels@) == manifest@.labels
        },
{
    if manifest.runtime != RuntimeKind::Docker {
        return Err("service manifest runtime does not match docker provider".to_owned());
    }
    let image = match &manifest.source {
        ServiceSource::Docker { image } => image.clone(),
        _ => return Err("docker runtime requires a docker image source".to_owned()),
    };
    let mut mounts: Vec<DockerBindMount> = Vec::new();
    let mut i: usize = 0;
    while i < manifest.mounts.len()
        invariant
            i <= manifest.mounts.len(),
            mounts@.len() == i,
            forall|j: int|
                0 <= j < i ==> (#[trigger] mounts@[j]).host_path@ == manifest@.mounts[j].host_path
                    && mounts@[j].container_path@ == manifest@.mounts[j].runtime_path,
        decreases manifest.mounts.len() - i,
    {
        let m = &manifest.mounts[i];
        mounts.push(DockerBindMount { host_path: m.host_path.clone(), container_path: m.runtime_path.clone() });
        i = i + 1;
    }
    let mut ports: Vec<DockerPortBinding> = Vec::new();
    let mut k: usize = 0;
    while k < manifest.ports.len()
        invariant
            k <= manifest.ports.len(),
            ports@.len() == k,
            forall|j: int|
                0 <= j < k ==> (#[trigger] ports@[j]).host_port == manifest@.ports[j].host_port
                    && ports@[j].container_port == manifest@.ports[j].service_port && (ports@[j].protocol
                    == DockerPortProtocol::Tcp <==> manifest@.ports[j].protocol == ServicePortProtocol::Tcp),
        decreases manifest.ports.len() - k,
    {
        let p = &manifest.ports[k];
        let protocol = match p.protocol {
            ServicePortProtocol::Tcp => DockerPortProtocol::Tcp,
            ServicePortProtocol::Udp => DockerPortProtocol::Udp,
        };
        ports.push(DockerPortBinding { host_port: p.host_port, container_port: p.service_port, protocol });
        k = k + 1;
    }
    Ok(
        DockerContainerSpec {
            name: Some(container_name.to_owned()),
            image,
            env: copy_pairs(&manifest.env),
            mounts,
            ports,
            command: copy_strings(&manifest.command),
            entrypoint: copy_strings(&manifest.entrypoint),
            working_dir: copy_opt(&manifest.working_dir),
            labels: copy_pairs(&manifest.labels),
        },
    )
}

/// `s` without the copies of `c` it starts with.
pub open spec fn trim_leading(s: Seq<char>, c: char) -> Seq<char>
    decreases s.len(),
{
    if s.len() > 0 && s[0] == c {
        trim_leading(s.drop_first(), c)
    } else {
        s
    }
}

/// `s` with every `/` made a `\`.
pub open spec fn backslashed(s: Seq<char>) -> Seq<char> {
    s.map_values(|c: char| if c == '/' { '\\' } else { c })
}

/// The named pipe a pipe path names: leading `/` dropped, `/` made `\`,
/// and a path relative to the local machine (`.\pipe\...`) made
/// `\\.\pipe\...`.
pub open spec fn named_pipe_path(raw: Seq<char>) -> Seq<char> {
    let n = backslashed(trim_leading(raw, '/'));
    if starts_with(n, "\\\\.\\pipe\\"@) {
        n
    } else if starts_with(n, ".\\pipe\\"@) {
        "\\\\"@ + n
    } else {
        n
    }
}

/// The named pipe a raw pipe path names; see `named_pipe_path`.
pub fn normalize_named_pipe_path(raw: &str) -> (r: String)
    ensures
        r@ == named_pipe_path(raw@),
{
    let cs = chars_of(raw);
    let mut start: usize = 0;
    proof {
        assert(cs@.skip(0) =~= cs@);
    }
    while start < cs.len() && cs[start] == '/'
        invariant
            start <= cs.len(),
            cs@ == raw@,
            trim_leading(raw@, '/') == trim_leading(cs@.skip(start as int), '/'),
        decreases cs.len() - start,
    {
        proof {
            assert(cs@.skip(start as int)[0] == cs@[start as int]);
            assert(cs@.skip(start as int).drop_first() =~= cs@.skip(start + 1));
        }
        start = start + 1;
    }
    let mut n: Vec<char> = Vec::new();
    let mut i: usize = start;
    proof {
        let rest = cs@.skip(start as int);
        if rest.len() > 0 {
            assert(rest[0] == cs@[start as int]);
        }
        assert(trim_leading(rest, '/') == rest);
    }
    while i < cs.len()
        invariant
            start <= i <= cs.len(),
            cs@ == raw@,
            n@ == backslashed(cs@.subrange(start as int, i as int)),
        decreases cs.len() - i,
    {
        let c = cs[i];
        n.push(if c == '/' { '\\' } else { c });
        proof {
            assert(cs@.subrange(start as int, i + 1) =~= cs@.subrange(start as int, i as int).push(c));
            assert(n@ =~= backslashed(cs@.subrange(start as int, i + 1)));
        }
        i = i + 1;
    }
    proof {
        assert(cs@.subrange(start as int, cs@.len() as int) =~= cs@.skip(start as int));
    }
    let local = chars_of("\\\\.\\pipe\\");
    if chars_start_with(&n, &local) {
        return string_from(n.as_slice());
    }
    let relative = chars_of(".\\pipe\\");
    if chars_start_with(&n, &relative) {
        let mut out: Vec<char> = chars_of("\\\\");
        let ghost prefix = out@;
        let mut k: usize = 0;
        while k < n.len()
            invariant
                k <= n.len(),
                out@ == prefix + n@.take(k as int),
            decreases n.len() - k,
        {
            out.push(n[k]);
            proof {
                assert(n@.take(k + 1) =~= n@.take(k as int).push(n@[k as int]));
            }
            k = k + 1;
        }
        proof {
            assert(n@.take(n.len() as int) =~= n@);
        }
        return string_from(out.as_slice());
    }
    string_from(n.as_slice())
}

/// The named pipe a `DOCKER_HOST` of the form `npipe://...` names.
pub fn docker_host_named_pipe_path(host: &str) -> (r: Option<String>)
    ensures
        match r {
            Some(p) => starts_with(host@, "npipe://"@) && p@ == named_pipe_path(host@.skip(8)),
            None => !starts_with(host@, "npipe://"@),
        },
{
    let cs = chars_of(host);
    let scheme = chars_of("npipe://");
    proof {
        reveal_strlit("npipe://");
    }
    if !chars_start_with(&cs, &scheme) {
        return None;
    }
    let rest = crate::text::slice_chars(&cs, 8, cs.len());
    proof {
        assert(cs@.subrange(8, cs@.len() as int) =~= host@.skip(8));
    }
    Some(normalize_named_pipe_path(string_from(rest.as_slice()).as_str()))
}

/// Whether a path names a Windows named pipe, in one of the forms Docker
/// hosts are written with.
pub open spec fn is_pipe_path(p: Seq<char>) -> bool {
    ||| starts_with(p, "\\\\.\\pipe\\"@)
    ||| starts_with(p, ".\\pipe\\"@)
    ||| starts_with(p, "//./pipe/"@)
    ||| starts_with(p, "npipe://"@)
}

/// Whether a path names a named pipe; see `is_pipe_path`.
pub fn is_named_pipe_path(path: &str) -> (r: bool)
    ensures
        r == is_pipe_path(path@),
{
    let cs = chars_of(path);
    chars_start_with(&cs, &chars_of("\\\\.\\pipe\\")) || chars_start_with(&cs, &chars_of(".\\pipe\\"))
        || chars_start_with(&cs, &chars_of("//./pipe/")) || chars_start_with(&cs, &chars_of("npipe://"))
}

/// Whether an error from the Docker agent says that the container does not
/// exist: it is a Docker API error (`api_status` is its HTTP status) with
/// status 404.
pub fn is_missing_docker_container_error(api_status: Option<u16>) -> (r: bool)
    ensures
        r == (api_status == Some(404u16)),
{
    match api_status {
        Some(status) => status == 404,
        None => false,
    }
}

} // verus!
