//! The official service recipes: ready-made service manifests published as
//! release assets, listed by an index.

use vstd::prelude::*;

use crate::model::{copy_opt, copy_strings};
use crate::node_capabilities::LocalRuntimeAvailability;
use crate::text::{ascii_lowercase, ascii_lowercase_chars, chars_of, concat, concat3, push_str, str_eq, trim, trim_str};

verus! {

/// Where the official recipes come from.
pub open spec fn official_source_label() -> Seq<char> {
    "enbop/fungi-service-recipes"@
}

/// The label of the official recipe source.
pub fn official_recipe_source_label() -> (r: &'static str)
    ensures
        r@ == official_source_label(),
{
    "enbop/fungi-service-recipes"
}

/// The runtime a recipe's service runs on.
#[derive(Debug, Clone, Copy, PartialEq, Eq, Structural)]
pub enum ServiceRecipeRuntime {
    Docker,
    Wasmtime,
    Link,
}

/// What the recipe list shows of a recipe.
#[derive(Debug, Clone)]
pub struct ServiceRecipeSummary {
    pub id: String,
    pub name: String,
    pub description: String,
    pub runtime: ServiceRecipeRuntime,
    pub stability: String,
    pub source_label: String,
    pub release_version: String,
}

/// A recipe with its cached and remote assets.
#[derive(Debug, Clone)]
pub struct ServiceRecipeDetail {
    pub summary: ServiceRecipeSummary,
    pub tags: Vec<String>,
    pub homepage: Option<String>,
    pub cached_manifest_path: String,
    pub cached_readme_path: Option<String>,
    pub remote_manifest_url: String,
    pub remote_readme_url: Option<String>,
}

/// A recipe's manifest made ready to apply under a service name.
#[derive(Debug, Clone)]
pub struct ResolvedServiceRecipe {
    pub detail: ServiceRecipeDetail,
    pub manifest_yaml: String,
    pub manifest_base_dir: String,
    pub resolved_manifest_path: String,
    pub warnings: Vec<String>,
}

/// A recipe as the official index lists it.
#[derive(Debug, Clone)]
pub struct OfficialRecipeRecord {
    pub id: String,
    pub name: String,
    pub description: String,
    pub runtime: String,
    pub manifest_asset: String,
    pub readme_asset: Option<String>,
    pub homepage: Option<String>,
    pub tags: Vec<String>,
    pub stability: String,
}

/// The runtime a recipe names, read without case and surrounding blanks;
/// `tcp` and `link` both mean a link to an existing TCP service.
pub open spec fn recipe_runtime_of(value: Seq<char>) -> Option<ServiceRecipeRuntime> {
    let v = ascii_lowercase(trim(value));
    if v == "docker"@ {
        Some(ServiceRecipeRuntime::Docker)
    } else if v == "wasmtime"@ {
        Some(ServiceRecipeRuntime::Wasmtime)
    } else if v == "tcp"@ || v == "link"@ {
        Some(ServiceRecipeRuntime::Link)
    } else {
        None
    }
}

/// The runtime a recipe names; see `recipe_runtime_of`. Anything else is
/// an error naming it.
pub fn parse_recipe_runtime(value: &str) -> (r: Result<ServiceRecipeRuntime, String>)
    ensures
        match r {
            Ok(k) => recipe_runtime_of(value@) == Some(k),
            Err(e) => recipe_runtime_of(value@) is None && e@ == unsupported_runtime_text(value@),
        },
{
    let lowered = ascii_lowercase_chars(&chars_of(trim_str(value).as_str()));
    let text = crate::text::string_from(lowered.as_slice());
    let v = text.as_str();
    proof {
        reveal_strlit("docker");
        reveal_strlit("wasmtime");
        reveal_strlit("tcp");
        reveal_strlit("link");
    }
    if str_eq(v, "docker") {
        Ok(ServiceRecipeRuntime::Docker)
    } else if str_eq(v, "wasmtime") {
        Ok(ServiceRecipeRuntime::Wasmtime)
    } else if str_eq(v, "tcp") || str_eq(v, "link") {
        Ok(ServiceRecipeRuntime::Link)
    } else {
        Err(concat3("unsupported recipe runtime `", v, "`"))
    }
}

/// The name a resolved recipe's service gets: the requested name trimmed,
/// or the recipe id when none or a blank one is given.
pub fn resolved_service_name(recipe: &OfficialRecipeRecord, service_name: Option<&str>) -> (r: String)
    ensures
        match service_name {
            Some(n) => if trim(n@).len() > 0 {
                r@ == trim(n@)
            } else {
                r@ == recipe.id@
            },
            None => r@ == recipe.id@,
        },
{
    let value = match service_name {
        Some(n) => trim_str(n),
        None => String::new(),
    };
    if value.as_str().is_empty() {
        recipe.id.clone()
    } else {
        value
    }
}

/// `s` summarizes `recipe` for the release: its id, name, description,
/// runtime and stability, the official source label and the release.
pub open spec fn is_summary_of(s: ServiceRecipeSummary, recipe: OfficialRecipeRecord, release_version: Seq<char>) -> bool {
    &&& recipe_runtime_of(recipe.runtime@) == Some(s.runtime)
    &&& s.id == recipe.id
    &&& s.name == recipe.name
    &&& s.description == recipe.description
    &&& s.stability == recipe.stability
    &&& s.source_label@ == official_source_label()
    &&& s.release_version@ == release_version
}

/// The refusal of a runtime name this node does not know.
pub open spec fn unsupported_runtime_text(value: Seq<char>) -> Seq<char> {
    "unsupported recipe runtime `"@ + ascii_lowercase(trim(value)) + "`"@
}

/// A recipe's summary for a release; an error when its runtime is not one
/// this node knows.
pub fn build_recipe_summary(recipe: &OfficialRecipeRecord, release_version: &str) -> (r: Result<
    ServiceRecipeSummary,
    String,
>)
    ensures
        match r {
            Ok(s) => is_summary_of(s, *recipe, release_version@),
            Err(e) => recipe_runtime_of(recipe.runtime@) is None && e@ == unsupported_runtime_text(recipe.runtime@),
        },
{
    let runtime = parse_recipe_runtime(recipe.runtime.as_str())?;
    Ok(
        ServiceRecipeSummary {
            id: recipe.id.clone(),
            name: recipe.name.clone(),
            description: recipe.description.clone(),
            runtime,
            stability: recipe.stability.clone(),
            source_label: official_recipe_source_label().to_owned(),
            release_version: release_version.to_owned(),
        },
    )
}

/// The summaries of all recipes of a release, in index order; the first
/// recipe with an unknown runtime makes it an error.
pub fn build_recipe_summaries(recipes: &Vec<OfficialRecipeRecord>, release_version: &str) -> (r: Result<
    Vec<ServiceRecipeSummary>,
    String,
>)
    ensures
        match r {
            Ok(v) => v@.len() == recipes@.len() && forall|i: int|
                0 <= i < v@.len() ==> is_summary_of(#[trigger] v@[i], recipes@[i], release_version@),
            Err(e) => exists|i: int|
                0 <= i < recipes@.len() && recipe_runtime_of(#[trigger] recipes@[i].runtime@) is None && e@
                    == unsupported_runtime_text(recipes@[i].runtime@) && forall|j: int|
                    0 <= j < i ==> recipe_runtime_of(#[trigger] recipes@[j].runtime@) is Some,
        },
{
    let mut out: Vec<ServiceRecipeSummary> = Vec::new();
    let mut i: usize = 0;
    while i < recipes.len()
        invariant
            i <= recipes.len(),
            out@.len() == i,
            forall|j: int| 0 <= j < i ==> is_summary_of(#[trigger] out@[j], recipes@[j], release_version@),
        decreases recipes.len() - i,
    {
        match build_recipe_summary(&recipes[i], release_version) {
            Ok(s) => out.push(s),
            Err(e) => {
                proof {
                    assert(recipe_runtime_of(recipes@[i as int].runtime@) is None);
                    assert forall|j: int| 0 <= j < i implies recipe_runtime_of(
                        #[trigger] recipes@[j].runtime@,
                    ) is Some by {
                        assert(is_summary_of(out@[j], recipes@[j], release_version@));
                    }
                }
                return Err(e);
            },
        }
        i = i + 1;
    }
    Ok(out)
}

/// The position of the recipe with id `recipe_id`; an error naming it when
/// the index has none.
pub fn find_recipe(recipes: &Vec<OfficialRecipeRecord>, recipe_id: &str) -> (r: Result<usize, String>)
    ensures
        match r {
            Ok(i) => i < recipes@.len() && recipes@[i as int].id@ == recipe_id@ && forall|j: int|
                0 <= j < i ==> (#[trigger] recipes@[j]).id@ != recipe_id@,
            Err(e) => (forall|j: int| 0 <= j < recipes@.len() ==> (#[trigger] recipes@[j]).id@ != recipe_id@) && e@
                == "unknown recipe `"@ + recipe_id@ + "`"@,
        },
{
    let mut i: usize = 0;
    while i < recipes.len()
        invariant
            i <= recipes.len(),
            forall|j: int| 0 <= j < i ==> (#[trigger] recipes@[j]).id@ != recipe_id@,
        decreases recipes.len() - i,
    {
        if str_eq(recipes[i].id.as_str(), recipe_id) {
            return Ok(i);
        }
        i = i + 1;
    }
    Err(concat3("unknown recipe `", recipe_id, "`"))
}

/// The download URL of a release asset of the official recipes.
pub open spec fn release_asset_url_text(release_version: Seq<char>, asset_name: Seq<char>) -> Seq<char> {
    "https://github.com/"@ + official_source_label() + "/releases/download/"@ + release_version + "/"@ + asset_name
}

/// The download URL of an asset, whose name the recipe cache has checked.
pub fn release_asset_url(release_version: &str, asset_name: &str) -> (r: String)
    ensures
        r@ == release_asset_url_text(release_version@, asset_name@),
{
    let mut r = concat3("https://github.com/", official_recipe_source_label(), "/releases/download/");
    push_str(&mut r, release_version);
    push_str(&mut r, "/");
    push_str(&mut r, asset_name);
    r
}

/// The cached release whose index is read: the latest one cached, unless a
/// refresh is asked for or its index is not cached; none means the latest
/// release is fetched.
pub fn cached_release_to_use(refresh: bool, latest_cached: Option<String>, index_cached: bool) -> (r: Option<String>)
    ensures
        r == (if !refresh && index_cached {
            latest_cached
        } else {
            None
        }),
{
    if refresh || !index_cached {
        None
    } else {
        latest_cached
    }
}

/// The release a "latest release" page redirects to: the path segment after
/// `tag`; an error naming the URL when there is none.
pub fn release_version_from_release_page_url(url: &str, path_segments: &Vec<String>) -> (r: Result<String, String>)
    ensures
        match r {
            Ok(v) => exists|i: int|
                0 <= i < path_segments@.len() - 1 && (#[trigger] path_segments@[i])@ == "tag"@ && (forall|j: int|
                    0 <= j < i ==> (#[trigger] path_segments@[j])@ != "tag"@) && v@ == path_segments@[i + 1]@,
            Err(e) => e@ == "failed to determine recipe release version from "@ + url@ && forall|i: int|
                0 <= i < path_segments@.len() - 1 ==> (#[trigger] path_segments@[i])@ != "tag"@ || exists|j: int|
                    0 <= j < i && (#[trigger] path_segments@[j])@ == "tag"@,
        },
{
    let mut i: usize = 0;
    proof {
        reveal_strlit("tag");
    }
    while i < path_segments.len()
        invariant
            i <= path_segments.len(),
            forall|j: int| 0 <= j < i ==> (#[trigger] path_segments@[j])@ != "tag"@,
        decreases path_segments.len() - i,
    {
        if str_eq(path_segments[i].as_str(), "tag") {
            if i + 1 < path_segments.len() {
                return Ok(path_segments[i + 1].clone());
            }
            return Err(concat("failed to determine recipe release version from ", url));
        }
        i = i + 1;
    }
    Err(concat("failed to determine recipe release version from ", url))
}

/// The warning a recipe gets about its runtime on this node: none when the
/// runtime is active; else whether it is disabled in config, missing, or
/// configured but not active.
pub fn runtime_status_warning(runtime_name: &str, config_enabled: bool, detected: bool, active: bool) -> (r: Vec<
    String,
>)
    ensures
        active ==> r@.len() == 0,
        !active ==> r@.len() == 1,
        !active && !config_enabled ==> r@[0]@ == runtime_name@ + " runtime is disabled in local config"@,
        !active && config_enabled && !detected ==> r@[0]@ == runtime_name@
            + " runtime does not appear to be available locally"@,
        !active && config_enabled && detected ==> r@[0]@ == runtime_name@
            + " runtime is configured but not active locally"@,
{
    if active {
        return Vec::new();
    }
    let message = if !config_enabled {
        concat(runtime_name, " runtime is disabled in local config")
    } else if !detected {
        concat(runtime_name, " runtime does not appear to be available locally")
    } else {
        concat(runtime_name, " runtime is configured but not active locally")
    };
    let mut out: Vec<String> = Vec::new();
    out.push(message);
    out
}

/// The warning a recipe gets about its runtime on this node, from how
/// docker and wasmtime stand here; a link recipe needs no runtime.
pub fn build_local_recipe_runtime_warnings(
    runtime: ServiceRecipeRuntime,
    docker: &LocalRuntimeAvailability,
    wasmtime: &LocalRuntimeAvailability,
) -> (r: Vec<String>)
    ensures
        match runtime {
            ServiceRecipeRuntime::Docker => local_runtime_warning(r@, "Docker"@, *docker),
            ServiceRecipeRuntime::Wasmtime => local_runtime_warning(r@, "Wasmtime"@, *wasmtime),
            ServiceRecipeRuntime::Link => r@.len() == 0,
        },
{
    match runtime {
        ServiceRecipeRuntime::Docker => runtime_status_warning(
            "Docker",
            docker.config_enabled,
            docker.detected,
            docker.active,
        ),
        ServiceRecipeRuntime::Wasmtime => runtime_status_warning(
            "Wasmtime",
            wasmtime.config_enabled,
            wasmtime.detected,
            wasmtime.active,
        ),
        ServiceRecipeRuntime::Link => Vec::new(),
    }
}

/// `w` is the warning `runtime_status_warning` gives for a runtime named
/// `name` that stands as `a`.
pub open spec fn local_runtime_warning(w: Seq<String>, name: Seq<char>, a: LocalRuntimeAvailability) -> bool {
    &&& a.active ==> w.len() == 0
    &&& !a.active ==> w.len() == 1
    &&& !a.active && !a.config_enabled ==> w[0]@ == name + " runtime is disabled in local config"@
    &&& !a.active && a.config_enabled && !a.detected ==> w[0]@ == name
        + " runtime does not appear to be available locally"@
    &&& !a.active && a.config_enabled && a.detected ==> w[0]@ == name
        + " runtime is configured but not active locally"@
}

/// The warning a recipe gets about its runtime on another device, named
/// `label`, from the runtimes it reports (docker, wasmtime) or the error
/// asking for them gave.
pub fn build_remote_recipe_runtime_warnings(
    runtime: ServiceRecipeRuntime,
    label: &str,
    reported: Result<(bool, bool), String>,
) -> (r: Vec<String>)
    ensures
        match reported {
            Err(e) => r@.len() == 1 && r@[0]@ == "Could not verify runtime compatibility for target device "@
                + label@ + ": "@ + e@,
            Ok((docker, wasmtime)) => match runtime {
                ServiceRecipeRuntime::Docker => if docker {
                    r@.len() == 0
                } else {
                    r@.len() == 1 && r@[0]@ == "Target device "@ + label@
                        + " does not report Docker runtime support"@
                },
                ServiceRecipeRuntime::Wasmtime => if wasmtime {
                    r@.len() == 0
                } else {
                    r@.len() == 1 && r@[0]@ == "Target device "@ + label@
                        + " does not report Wasmtime runtime support"@
                },
                ServiceRecipeRuntime::Link => r@.len() == 0,
            },
        },
{
    let (docker, wasmtime) = match reported {
        Ok(pair) => pair,
        Err(e) => {
            let mut msg = concat("Could not verify runtime compatibility for target device ", label);
            crate::text::push_str(&mut msg, ": ");
            crate::text::push_str(&mut msg, e.as_str());
            return vec![msg];
        },
    };
    match runtime {
        ServiceRecipeRuntime::Docker => if docker {
            Vec::new()
        } else {
            vec![concat3("Target device ", label, " does not report Docker runtime support")]
        },
        ServiceRecipeRuntime::Wasmtime => if wasmtime {
            Vec::new()
        } else {
            vec![concat3("Target device ", label, " does not report Wasmtime runtime support")]
        },
        ServiceRecipeRuntime::Link => Vec::new(),
    }
}

/// The detail of a recipe from its cached and remote assets.
pub fn build_recipe_detail(
    recipe: &OfficialRecipeRecord,
    release_version: &str,
    cached_manifest_path: String,
    cached_readme_path: Option<String>,
) -> (r: Result<ServiceRecipeDetail, String>)
    ensures
        match r {
            Ok(d) => {
                &&& is_summary_of(d.summary, *recipe, release_version@)
                &&& d.tags@ == recipe.tags@
                &&& d.homepage == recipe.homepage
                &&& d.cached_manifest_path == cached_manifest_path
                &&& d.cached_readme_path == cached_readme_path
                &&& d.remote_manifest_url@ == release_asset_url_text(release_version@, recipe.manifest_asset@)
                &&& match recipe.readme_asset {
                    Some(a) => d.remote_readme_url is Some && d.remote_readme_url->0@ == release_asset_url_text(
                        release_version@,
                        a@,
                    ),
                    None => d.remote_readme_url is None,
                }
            },
            Err(e) => recipe_runtime_of(recipe.runtime@) is None && e@ == unsupported_runtime_text(recipe.runtime@),
        },
{
    let summary = build_recipe_summary(recipe, release_version)?;
    let remote_readme_url = match &recipe.readme_asset {
        Some(a) => Some(release_asset_url(release_version, a.as_str())),
        None => None,
    };
    Ok(
        ServiceRecipeDetail {
            summary,
            tags: copy_strings(&recipe.tags),
            homepage: copy_opt(&recipe.homepage),
            cached_manifest_path,
            cached_readme_path,
            remote_manifest_url: release_asset_url(release_version, recipe.manifest_asset.as_str()),
            remote_readme_url,
        },
    )
}

} // verus!
