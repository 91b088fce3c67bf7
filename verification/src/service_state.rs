//! The registry of managed services kept by a node: each service under a
//! local id, with its manifest and the state it should be in.

use vstd::prelude::*;

use crate::manifest::norm_required;
use crate::model::{ServiceManifest, ServiceManifestView};
use crate::ordered::{entry_views, ordered_insert, seq_lt, sorted_insert, strictly_sorted, lemma_sorted_insert_sorted};
use crate::paths::join;
use crate::text::{
    lower_char,
    ascii_lowercase, ascii_lowercase_chars, chars_of, concat, concat3, str_eq, string_from, trim,
    trim_str,
};

verus! {

/// The version of the per-service state file this registry writes.
pub const SERVICE_STATE_SCHEMA_VERSION: u32 = 2;

/// The state file version assumed when a file names none.
pub fn default_schema_version() -> (r: u32)
    ensures
        r == SERVICE_STATE_SCHEMA_VERSION,
{
    SERVICE_STATE_SCHEMA_VERSION
}

/// Whether a service should be running.
#[derive(Debug, Clone, Copy, PartialEq, Eq, Structural)]
pub enum DesiredServiceState {
    Running,
    Stopped,
}

/// A managed service as it is stored.
#[derive(Debug, Clone)]
pub struct PersistedService {
    pub local_service_id: String,
    pub manifest: ServiceManifest,
    pub desired_state: DesiredServiceState,
}

pub struct PersistedServiceView {
    pub local_service_id: Seq<char>,
    pub manifest: ServiceManifestView,
    pub desired_state: DesiredServiceState,
}

impl View for PersistedService {
    type V = PersistedServiceView;

    open spec fn view(&self) -> PersistedServiceView {
        PersistedServiceView {
            local_service_id: self.local_service_id@,
            manifest: self.manifest@,
            desired_state: self.desired_state,
        }
    }
}

impl PersistedService {
    /// A copy of this record.
    pub fn duplicate(&self) -> (r: Self)
        ensures
            r@ == self@,
    {
        PersistedService {
            local_service_id: self.local_service_id.clone(),
            manifest: self.manifest.duplicate(),
            desired_state: self.desired_state,
        }
    }
}

/// The contents of a service's `state.json`.
#[derive(Debug, Clone)]
pub struct ServiceStateFile {
    pub schema_version: u32,
    pub local_service_id: String,
    pub updated_at: String,
    pub desired_state: DesiredServiceState,
}

impl ServiceStateFile {
    /// The state a service directory without a state file gets: current
    /// schema, stopped.
    pub fn default_for_local_service_id(local_service_id: String) -> (r: Self)
        ensures
            r.schema_version == SERVICE_STATE_SCHEMA_VERSION,
            r.local_service_id == local_service_id,
            r.updated_at@ == Seq::<char>::empty(),
            r.desired_state == DesiredServiceState::Stopped,
    {
        ServiceStateFile {
            schema_version: SERVICE_STATE_SCHEMA_VERSION,
            local_service_id,
            updated_at: String::new(),
            desired_state: DesiredServiceState::Stopped,
        }
    }
}

/// Whether a character may appear in a local service id.
pub open spec fn id_char(c: char) -> bool {
    ('a' <= c <= 'z') || ('A' <= c <= 'Z') || ('0' <= c <= '9') || c == '-' || c == '_'
}

/// A local service id as written: trimmed, not empty, and made of ASCII
/// letters, digits, `-` and `_`.
pub open spec fn valid_local_id(value: Seq<char>) -> Option<Seq<char>> {
    let t = trim(value);
    if t.len() > 0 && (forall|i: int| 0 <= i < t.len() ==> id_char(#[trigger] t[i])) {
        Some(t)
    } else {
        None
    }
}

/// Checks and trims a local service id.
pub fn normalize_local_service_id(value: &str, field_name: &str) -> (r: Result<String, String>)
    ensures
        match r {
            Ok(s) => valid_local_id(value@) == Some(s@),
            Err(_) => valid_local_id(value@) is None,
        },
{
    let trimmed = trim_str(value);
    if trimmed.as_str().is_empty() {
        return Err(concat(field_name, " must not be empty"));
    }
    let cs = chars_of(trimmed.as_str());
    let mut i: usize = 0;
    while i < cs.len()
        invariant
            i <= cs.len(),
            cs@ == trim(value@),
            forall|j: int| 0 <= j < i ==> id_char(#[trigger] cs@[j]),
        decreases cs.len() - i,
    {
        let c = cs[i];
        if !(('a' <= c && c <= 'z') || ('A' <= c && c <= 'Z') || ('0' <= c && c <= '9') || c == '-'
            || c == '_') {
            proof {
                assert(!id_char(cs@[i as int]));
            }
            return Err(concat(field_name, " must contain only ASCII letters, numbers, '-' or '_'"));
        }
        i = i + 1;
    }
    Ok(trimmed)
}

/// The last component of a path: what follows its last `/`, trailing
/// slashes ignored.
pub open spec fn last_component(p: Seq<char>) -> Seq<char>
    decreases p.len(),
{
    if p.len() > 0 && p.last() == '/' {
        last_component(p.drop_last())
    } else {
        last_segment(p)
    }
}

/// What follows the last `/` of `p`.
pub open spec fn last_segment(p: Seq<char>) -> Seq<char>
    decreases p.len(),
{
    if p.len() == 0 {
        p
    } else if p.last() == '/' {
        Seq::empty()
    } else {
        last_segment(p.drop_last()).push(p.last())
    }
}

/// The local id a service directory stands for: its last component, which
/// must be a valid id.
pub fn local_service_id_from_service_dir(service_dir: &str) -> (r: Result<String, String>)
    ensures
        match r {
            Ok(s) => valid_local_id(last_component(service_dir@)) == Some(s@),
            Err(_) => valid_local_id(last_component(service_dir@)) is None,
        },
{
    let cs = chars_of(service_dir);
    let mut hi = cs.len();
    proof {
        assert(cs@.take(hi as int) =~= cs@);
    }
    while hi > 0 && cs[hi - 1] == '/'
        invariant
            hi <= cs.len(),
            last_component(service_dir@) == last_component(cs@.take(hi as int)),
            cs@ == service_dir@,
        decreases hi,
    {
        proof {
            assert(cs@.take(hi as int).drop_last() =~= cs@.take(hi - 1));
        }
        hi = hi - 1;
    }
    let mut lo = hi;
    proof {
        let t = cs@.take(hi as int);
        if t.len() > 0 {
            assert(t.last() == cs@[hi - 1]);
        }
        assert(last_segment(cs@.subrange(hi as int, hi as int)) =~= Seq::<char>::empty());
    }
    while lo > 0 && cs[lo - 1] != '/'
        invariant
            lo <= hi <= cs.len(),
            last_segment(cs@.take(hi as int)) == last_segment(cs@.take(lo as int)) + cs@.subrange(
                lo as int,
                hi as int,
            ),
        decreases lo,
    {
        proof {
            assert(cs@.take(lo as int).drop_last() =~= cs@.take(lo - 1));
            assert(cs@.take(lo as int).last() == cs@[lo - 1]);
            assert(last_segment(cs@.take(lo - 1)).push(cs@[lo - 1]) + cs@.subrange(lo as int, hi as int)
                =~= last_segment(cs@.take(lo - 1)) + cs@.subrange(lo - 1, hi as int));
        }
        lo = lo - 1;
    }
    proof {
        let t = cs@.take(lo as int);
        if t.len() > 0 {
            assert(t.last() == cs@[lo - 1]);
        }
        assert(last_segment(t) + cs@.subrange(lo as int, hi as int) =~= cs@.subrange(lo as int, hi as int));
    }
    let name = crate::text::slice_chars(&cs, lo, hi);
    let name_str = string_from(name.as_slice());
    normalize_local_service_id(name_str.as_str(), "service directory name")
}

/// Whether a state file with this schema version and local id belongs in
/// the service directory `dir`: the schema is the current one, and the
/// file's id and the directory's name are the same valid id.
pub open spec fn state_file_fits(schema_version: u32, file_id: Seq<char>, dir: Seq<char>) -> bool {
    &&& schema_version == SERVICE_STATE_SCHEMA_VERSION
    &&& valid_local_id(last_component(dir)) is Some
    &&& valid_local_id(file_id) == valid_local_id(last_component(dir))
}

proof fn lemma_last_segment_after_separator(p: Seq<char>, name: Seq<char>)
    requires
        p.len() == 0 || p.last() == '/',
        forall|k: int| 0 <= k < name.len() ==> name[k] != '/',
    ensures
        last_segment(p + name) == name,
    decreases name.len(),
{
    if name.len() > 0 {
        let s = p + name;
        assert(s.last() == name.last());
        assert(s.drop_last() =~= p + name.drop_last());
        lemma_last_segment_after_separator(p, name.drop_last());
        assert(name.drop_last().push(name.last()) =~= name);
    } else {
        assert(p + name =~= p);
    }
}

/// The state file a store writes for a service, read back from that
/// service's directory, is accepted and gives back the id it was written
/// with, for any id in the form the store keeps ids in.
pub proof fn law_written_state_file_fits_its_directory(services_root: Seq<char>, id: Seq<char>)
    requires
        valid_local_id(id) == Some(id),
    ensures
        state_file_fits(SERVICE_STATE_SCHEMA_VERSION, id, join(services_root, id)),
        valid_local_id(id).unwrap() == id,
{
    let dir = join(services_root, id);
    assert forall|k: int| 0 <= k < id.len() implies id[k] != '/' by {
        assert(id_char(id[k]));
    }
    assert(!crate::paths::is_absolute(id));
    let p = if services_root.len() == 0 {
        Seq::<char>::empty()
    } else if services_root.last() == '/' {
        services_root
    } else {
        services_root + seq!['/']
    };
    assert(dir =~= p + id);
    lemma_last_segment_after_separator(p, id);
    assert(dir.last() == id.last());
}

/// Checks a state file read from a service directory: the schema must be
/// the current one and the local id must be the directory's.
pub fn check_service_state_file(state: ServiceStateFile, service_dir: &str) -> (r: Result<ServiceStateFile, String>)
    ensures
        match r {
            Ok(s) => state_file_fits(state.schema_version, state.local_service_id@, service_dir@)
                && s.local_service_id@ == valid_local_id(state.local_service_id@).unwrap()
                && s.schema_version == state.schema_version && s.updated_at == state.updated_at
                && s.desired_state == state.desired_state,
            Err(_) => !state_file_fits(state.schema_version, state.local_service_id@, service_dir@),
        },
{
    let local_service_id = local_service_id_from_service_dir(service_dir)?;
    if state.schema_version != SERVICE_STATE_SCHEMA_VERSION {
        return Err("Unsupported service state schema version".to_owned());
    }
    let normalized = normalize_local_service_id(state.local_service_id.as_str(), "local_service_id")?;
    if !str_eq(normalized.as_str(), local_service_id.as_str()) {
        return Err(
            concat3(
                "Managed service state local_service_id '",
                normalized.as_str(),
                "' does not match its directory",
            ),
        );
    }
    Ok(
        ServiceStateFile {
            schema_version: state.schema_version,
            local_service_id: normalized,
            updated_at: state.updated_at,
            desired_state: state.desired_state,
        },
    )
}

/// Whether a character is one `Ulid::to_string` writes: Crockford base32,
/// digits and upper-case letters.
pub open spec fn ulid_char(c: char) -> bool {
    ('0' <= c <= '9') || ('A' <= c <= 'Z')
}

/// `Ulid::new().to_string()`: a new ULID of 26 Crockford base32 characters.
/// Which ULID comes back depends on the clock and on chance.
#[verifier::external_body]
fn new_ulid_text() -> (r: String)
    ensures
        r@.len() == 26,
        forall|i: int| 0 <= i < r@.len() ==> ulid_char(#[trigger] r@[i]),
{
    ulid::Ulid::new().to_string()
}

/// A character of a lower-cased ULID: a digit or a lower-case letter.
pub open spec fn lower_ulid_char(c: char) -> bool {
    ('0' <= c <= '9') || ('a' <= c <= 'z')
}

/// The form of a generated local id: `svc_` and the 26 characters of a
/// lower-cased ULID.
pub open spec fn is_generated_id(id: Seq<char>) -> bool {
    &&& id.len() == 30
    &&& id.take(4) == "svc_"@
    &&& forall|i: int| 4 <= i < 30 ==> lower_ulid_char(#[trigger] id[i])
}

/// Whether some record is stored under `id`.
pub open spec fn has_record_id(r: Seq<(Seq<char>, PersistedServiceView)>, id: Seq<char>) -> bool {
    exists|j: int| 0 <= j < r.len() && (#[trigger] r[j]).0 == id
}

/// Sixteen generated ids were each an id already stored.
pub open spec fn allocation_exhausted(r: Seq<(Seq<char>, PersistedServiceView)>) -> bool {
    exists|c: Seq<Seq<char>>|
        c.len() == 16 && forall|i: int| 0 <= i < 16 ==> is_generated_id(#[trigger] c[i]) && has_record_id(r, c[i])
}

/// The local id made from a ULID's text: `svc_` and the text lower-cased.
pub fn local_service_id_candidate(ulid: &str) -> (r: String)
    ensures
        r@ == "svc_"@ + ascii_lowercase(ulid@),
{
    let lower = ascii_lowercase_chars(&chars_of(ulid));
    concat("svc_", string_from(lower.as_slice()).as_str())
}

/// A candidate made from the text `new_ulid_text` gives has the generated
/// form.
proof fn lemma_candidate_is_generated(ulid: Seq<char>)
    requires
        ulid.len() == 26,
        forall|i: int| 0 <= i < ulid.len() ==> ulid_char(#[trigger] ulid[i]),
    ensures
        is_generated_id("svc_"@ + ascii_lowercase(ulid)),
{
    reveal_strlit("svc_");
    let id = "svc_"@ + ascii_lowercase(ulid);
    assert(id.take(4) =~= "svc_"@);
    assert forall|i: int| 4 <= i < 30 implies lower_ulid_char(#[trigger] id[i]) by {
        let c = ulid[i - 4];
        assert(id[i] == lower_char(c));
        assert(ulid_char(c));
        if 'A' <= c <= 'Z' {
            assert(97 <= (c as u32) + 32 <= 122);
        }
    }
}

/// The services a node manages, each under its local id, kept in id order.
/// Each manifest name belongs to one service only.
pub struct ServiceStateStore {
    pub(crate) services_root: String,
    pub(crate) state: Vec<(String, PersistedService)>,
}

/// The registry as a list of records in local id order.
pub open spec fn records(s: Seq<(String, PersistedService)>) -> Seq<(Seq<char>, PersistedServiceView)> {
    entry_views(s)
}

/// Records in id order, each filed under its own id, no manifest name twice.
pub open spec fn records_wf(r: Seq<(Seq<char>, PersistedServiceView)>) -> bool {
    &&& strictly_sorted(r)
    &&& forall|i: int| 0 <= i < r.len() ==> (#[trigger] r[i]).1.local_service_id == r[i].0
    &&& forall|i: int, j: int|
        0 <= i < j < r.len() ==> (#[trigger] r[i]).1.manifest.name != (#[trigger] r[j]).1.manifest.name
}

/// The manifest names that have a desired state in the records.
pub open spec fn desired_names(r: Seq<(Seq<char>, PersistedServiceView)>) -> Set<Seq<char>> {
    Set::new(|n: Seq<char>| desired_for_name(r, n) is Some)
}

proof fn lemma_desired_names_count(r: Seq<(Seq<char>, PersistedServiceView)>)
    requires
        forall|i: int, j: int|
            0 <= i < j < r.len() ==> (#[trigger] r[i]).1.manifest.name != (#[trigger] r[j]).1.manifest.name,
    ensures
        desired_names(r).finite(),
        desired_names(r).len() == r.len(),
    decreases r.len(),
{
    if r.len() == 0 {
        assert(desired_names(r) =~= Set::<Seq<char>>::empty());
    } else {
        let dl = r.drop_last();
        assert forall|i: int, j: int| 0 <= i < j < dl.len() implies (#[trigger] dl[i]).1.manifest.name
            != (#[trigger] dl[j]).1.manifest.name by {
            assert(dl[i] == r[i] && dl[j] == r[j]);
        }
        lemma_desired_names_count(dl);
        let last = r.last().1.manifest.name;
        assert forall|n: Seq<char>| #[trigger] desired_names(r).contains(n) == desired_names(dl).insert(last).contains(n) by {
            if exists|i: int| 0 <= i < r.len() && (#[trigger] r[i]).1.manifest.name == n {
                let i = choose|i: int| 0 <= i < r.len() && (#[trigger] r[i]).1.manifest.name == n;
                if i < dl.len() {
                    assert(dl[i] == r[i]);
                }
            }
            if exists|i: int| 0 <= i < dl.len() && (#[trigger] dl[i]).1.manifest.name == n {
                let i = choose|i: int| 0 <= i < dl.len() && (#[trigger] dl[i]).1.manifest.name == n;
                assert(r[i] == dl[i]);
            }
            if n == last {
                assert(r[r.len() - 1].1.manifest.name == n);
            }
        }
        assert(desired_names(r) =~= desired_names(dl).insert(last));
        if desired_names(dl).contains(last) {
            let i = choose|i: int| 0 <= i < dl.len() && (#[trigger] dl[i]).1.manifest.name == last;
            assert(r[i] == dl[i]);
            assert(r[r.len() - 1].1.manifest.name == last);
            assert(false);
        }
    }
}

/// The stored services are listed in ascending local id order, no two
/// with the same manifest name, one for each name that has a desired state.
pub proof fn law_persisted_services_one_per_desired_name(r: Seq<(Seq<char>, PersistedServiceView)>)
    requires
        records_wf(r),
    ensures
        forall|i: int, j: int| 0 <= i < j < r.len() ==> seq_lt(#[trigger] r[i].0, #[trigger] r[j].0),
        forall|i: int, j: int|
            0 <= i < j < r.len() ==> (#[trigger] r[i]).1.manifest.name != (#[trigger] r[j]).1.manifest.name,
        desired_names(r).finite(),
        desired_names(r).len() == r.len(),
{
    lemma_desired_names_count(r);
}

/// The position of the record whose manifest is named `name`.
pub open spec fn name_position(r: Seq<(Seq<char>, PersistedServiceView)>, name: Seq<char>) -> Option<int> {
    if exists|i: int| 0 <= i < r.len() && (#[trigger] r[i]).1.manifest.name == name {
        Some(choose|i: int| 0 <= i < r.len() && (#[trigger] r[i]).1.manifest.name == name)
    } else {
        None
    }
}

/// The local id of the record whose manifest is named `name`.
pub open spec fn id_for_name(r: Seq<(Seq<char>, PersistedServiceView)>, name: Seq<char>) -> Option<Seq<char>> {
    match name_position(r, name) {
        Some(i) => Some(r[i].0),
        None => None,
    }
}

/// The desired state of the record whose manifest is named `name`.
pub open spec fn desired_for_name(r: Seq<(Seq<char>, PersistedServiceView)>, name: Seq<char>) -> Option<
    DesiredServiceState,
> {
    match name_position(r, name) {
        Some(i) => Some(r[i].1.desired_state),
        None => None,
    }
}

/// The record stored for a manifest under a local id.
pub open spec fn stored_record(id: Seq<char>, m: ServiceManifestView, d: DesiredServiceState) -> PersistedServiceView {
    PersistedServiceView { local_service_id: id, manifest: m, desired_state: d }
}

/// The records after storing manifest `m` under `id` with desired state `d`.
pub open spec fn upserted(
    r: Seq<(Seq<char>, PersistedServiceView)>,
    id: Seq<char>,
    m: ServiceManifestView,
    d: DesiredServiceState,
) -> Seq<(Seq<char>, PersistedServiceView)> {
    sorted_insert(r, id, stored_record(id, m, d))
}

/// `id` may hold the service named `name`: it is the id that service has,
/// or the service is new and no record uses `id`.
pub open spec fn upsert_fits(r: Seq<(Seq<char>, PersistedServiceView)>, id: Seq<char>, name: Seq<char>) -> bool {
    ||| id_for_name(r, name) == Some(id)
    ||| id_for_name(r, name) is None && forall|j: int| 0 <= j < r.len() ==> (#[trigger] r[j]).0 != id
}

/// The records after setting the desired state of the service named `name`.
pub open spec fn with_desired(r: Seq<(Seq<char>, PersistedServiceView)>, name: Seq<char>, d: DesiredServiceState) -> Seq<
    (Seq<char>, PersistedServiceView),
> {
    match name_position(r, name) {
        Some(i) => r.update(i, (r[i].0, stored_record(r[i].1.local_service_id, r[i].1.manifest, d))),
        None => r,
    }
}

/// The records after dropping the service named `name`.
pub open spec fn without_name(r: Seq<(Seq<char>, PersistedServiceView)>, name: Seq<char>) -> Seq<
    (Seq<char>, PersistedServiceView),
> {
    match name_position(r, name) {
        Some(i) => r.remove(i),
        None => r,
    }
}

/// In well-formed records, the record at `i` is the one found by its name.
pub proof fn lemma_name_position_at(r: Seq<(Seq<char>, PersistedServiceView)>, i: int)
    requires
        records_wf(r),
        0 <= i < r.len(),
    ensures
        name_position(r, r[i].1.manifest.name) == Some(i),
{
    let name = r[i].1.manifest.name;
    assert(r[i].1.manifest.name == name);
    let k = choose|k: int| 0 <= k < r.len() && (#[trigger] r[k]).1.manifest.name == name;
    if k != i {
        if k < i {
            assert(r[k].1.manifest.name != r[i].1.manifest.name);
        } else {
            assert(r[i].1.manifest.name != r[k].1.manifest.name);
        }
    }
}

/// Storing a manifest keeps the records well formed; afterwards its name
/// gives the id it was stored under and the desired state it was stored
/// with, and every other name gives what it gave before.
pub proof fn law_upsert(
    r: Seq<(Seq<char>, PersistedServiceView)>,
    id: Seq<char>,
    m: ServiceManifestView,
    d: DesiredServiceState,
)
    requires
        records_wf(r),
        upsert_fits(r, id, m.name),
    ensures
        records_wf(upserted(r, id, m, d)),
        id_for_name(upserted(r, id, m, d), m.name) == Some(id),
        desired_for_name(upserted(r, id, m, d), m.name) == Some(d),
        forall|n: Seq<char>|
            n != m.name ==> id_for_name(#[trigger] upserted(r, id, m, d), n) == id_for_name(r, n)
                && desired_for_name(upserted(r, id, m, d), n) == desired_for_name(r, n),
{
    let nv = stored_record(id, m, d);
    let u = upserted(r, id, m, d);
    lemma_sorted_insert_sorted(r, id, nv);
    let i = crate::ordered::lemma_sorted_insert_position(r, id, nv);
    if i < r.len() && r[i].0 == id {
        // The record at `i` is replaced; it was the one named `m.name`.
        assert(u.len() == r.len());
        assert forall|j: int| 0 <= j < r.len() && j != i implies #[trigger] u[j] == r[j] by {
            if j < i {
                assert(u[j] == r.take(i)[j]);
            } else {
                assert(u[j] == r.skip(i + 1)[j - i - 1]);
            }
        }
        assert(u[i] == (id, nv));
        assert(id_for_name(r, m.name) == Some(id)) by {
            if id_for_name(r, m.name) != Some(id) {
                assert(r[i].0 == id);
            }
        }
        let p = name_position(r, m.name).unwrap();
        assert(r[p].1.manifest.name == m.name);
        if p != i {
            lemma_seq_lt_ne(r, p, i);
        }
        assert(r[i].1.manifest.name == m.name);
        assert forall|a: int, b: int| 0 <= a < b < u.len() implies (#[trigger] u[a]).1.manifest.name
            != (#[trigger] u[b]).1.manifest.name by {
            if a == i {
                assert(u[b] == r[b]);
                assert(r[a].1.manifest.name != r[b].1.manifest.name);
            } else if b == i {
                assert(u[a] == r[a]);
                assert(r[a].1.manifest.name != r[b].1.manifest.name);
            } else {
                assert(u[a] == r[a]);
                assert(u[b] == r[b]);
                assert(r[a].1.manifest.name != r[b].1.manifest.name);
            }
        }
        assert forall|j: int| 0 <= j < u.len() implies (#[trigger] u[j]).1.local_service_id == u[j].0 by {
            if j != i {
                assert(u[j] == r[j]);
            }
        }
        assert(records_wf(u));
        lemma_name_position_at(u, i);
        assert forall|n: Seq<char>| n != m.name implies id_for_name(#[trigger] upserted(r, id, m, d), n)
            == id_for_name(r, n) && desired_for_name(upserted(r, id, m, d), n) == desired_for_name(r, n) by {
            match name_position(r, n) {
                Some(q) => {
                    assert(r[q].1.manifest.name == n);
                    assert(q != i);
                    assert(u[q] == r[q]);
                    lemma_name_position_at(u, q);
                    lemma_name_position_at(r, q);
                },
                None => {
                    assert forall|j: int| 0 <= j < u.len() implies (#[trigger] u[j]).1.manifest.name != n by {
                        if j != i {
                            assert(u[j] == r[j]);
                        }
                    }
                },
            }
        }
    } else {
        // A new record goes in at `i`; no record had `id` or the name.
        assert(u.len() == r.len() + 1);
        assert forall|j: int| 0 <= j < i implies #[trigger] u[j] == r[j] by {
            assert(u[j] == r.take(i)[j]);
        }
        assert forall|j: int| i < j < u.len() implies #[trigger] u[j] == r[j - 1] by {
            assert(u[j] == r.skip(i)[j - i - 1]);
        }
        assert(u[i] == (id, nv));
        assert forall|j: int| 0 <= j < r.len() implies (#[trigger] r[j]).0 != id by {
            if j < i {
                crate::ordered::lemma_seq_lt_trichotomy(r[j].0, id);
            } else if j == i {
            } else {
                assert(crate::ordered::seq_lt(r[i].0, r[j].0));
                crate::ordered::lemma_seq_lt_transitive(id, r[i].0, r[j].0);
                crate::ordered::lemma_seq_lt_trichotomy(id, r[j].0);
            }
        }
        assert(id_for_name(r, m.name) is None) by {
            if let Some(p) = name_position(r, m.name) {
                assert(r[p].0 != id);
            }
        }
        assert forall|j: int| 0 <= j < r.len() implies (#[trigger] r[j]).1.manifest.name != m.name by {
            if r[j].1.manifest.name == m.name {
                assert(name_position(r, m.name) is Some);
            }
        }
        assert forall|a: int, b: int| 0 <= a < b < u.len() implies (#[trigger] u[a]).1.manifest.name
            != (#[trigger] u[b]).1.manifest.name by {
            let a2 = if a < i { a } else { a - 1 };
            let b2 = if b < i { b } else { b - 1 };
            if a == i {
                assert(u[b] == r[b2]);
            } else if b == i {
                assert(u[a] == r[a2]);
            } else {
                assert(u[a] == r[a2]);
                assert(u[b] == r[b2]);
                assert(r[a2].1.manifest.name != r[b2].1.manifest.name);
            }
        }
        assert forall|j: int| 0 <= j < u.len() implies (#[trigger] u[j]).1.local_service_id == u[j].0 by {
            if j < i {
                assert(u[j] == r[j]);
            } else if j > i {
                assert(u[j] == r[j - 1]);
            }
        }
        assert(records_wf(u));
        lemma_name_position_at(u, i);
        assert forall|n: Seq<char>| n != m.name implies id_for_name(#[trigger] upserted(r, id, m, d), n)
            == id_for_name(r, n) && desired_for_name(upserted(r, id, m, d), n) == desired_for_name(r, n) by {
            match name_position(r, n) {
                Some(q) => {
                    assert(r[q].1.manifest.name == n);
                    let q2 = if q < i { q } else { q + 1 };
                    assert(u[q2] == r[q]);
                    lemma_name_position_at(u, q2);
                    lemma_name_position_at(r, q);
                },
                None => {
                    assert forall|j: int| 0 <= j < u.len() implies (#[trigger] u[j]).1.manifest.name != n by {
                        if j < i {
                            assert(u[j] == r[j]);
                        } else if j > i {
                            assert(u[j] == r[j - 1]);
                        }
                    }
                },
            }
        }
    }
}

/// Setting the desired state of a stored service keeps the records well
/// formed and every id where it was; afterwards that name gives the new
/// state, and every other name gives what it gave before.
pub proof fn law_set_desired(r: Seq<(Seq<char>, PersistedServiceView)>, name: Seq<char>, d: DesiredServiceState)
    requires
        records_wf(r),
        id_for_name(r, name) is Some,
    ensures
        records_wf(with_desired(r, name, d)),
        desired_for_name(with_desired(r, name, d), name) == Some(d),
        forall|n: Seq<char>| id_for_name(#[trigger] with_desired(r, name, d), n) == id_for_name(r, n),
        forall|n: Seq<char>|
            n != name ==> desired_for_name(#[trigger] with_desired(r, name, d), n) == desired_for_name(r, n),
{
    let i = name_position(r, name).unwrap();
    let u = with_desired(r, name, d);
    assert(r[i].1.manifest.name == name);
    assert forall|j: int| 0 <= j < u.len() implies (#[trigger] u[j]).0 == r[j].0 && u[j].1.manifest
        == r[j].1.manifest && u[j].1.local_service_id == r[j].1.local_service_id by {}
    assert forall|a: int, b: int| 0 <= a < b < u.len() implies crate::ordered::seq_lt(
        #[trigger] u[a].0,
        #[trigger] u[b].0,
    ) by {
        assert(u[a].0 == r[a].0);
        assert(u[b].0 == r[b].0);
    }
    assert forall|a: int, b: int| 0 <= a < b < u.len() implies (#[trigger] u[a]).1.manifest.name
        != (#[trigger] u[b]).1.manifest.name by {
        assert(r[a].1.manifest.name != r[b].1.manifest.name);
    }
    assert(records_wf(u));
    lemma_name_position_at(u, i);
    assert forall|n: Seq<char>| id_for_name(#[trigger] with_desired(r, name, d), n) == id_for_name(r, n)
        && (n != name ==> desired_for_name(with_desired(r, name, d), n) == desired_for_name(r, n)) by {
        match name_position(r, n) {
            Some(q) => {
                assert(r[q].1.manifest.name == n);
                assert(u[q].1.manifest.name == n);
                lemma_name_position_at(u, q);
                lemma_name_position_at(r, q);
            },
            None => {
                assert forall|j: int| 0 <= j < u.len() implies (#[trigger] u[j]).1.manifest.name != n by {
                    assert(u[j].1.manifest == r[j].1.manifest);
                }
            },
        }
    }
}

/// Dropping a service keeps the records well formed; afterwards its name
/// finds nothing, and every other name gives what it gave before.
pub proof fn law_remove(r: Seq<(Seq<char>, PersistedServiceView)>, name: Seq<char>)
    requires
        records_wf(r),
    ensures
        records_wf(without_name(r, name)),
        id_for_name(without_name(r, name), name) is None,
        forall|n: Seq<char>|
            n != name ==> id_for_name(#[trigger] without_name(r, name), n) == id_for_name(r, n)
                && desired_for_name(without_name(r, name), n) == desired_for_name(r, n),
{
    match name_position(r, name) {
        None => {},
        Some(i) => {
            let u = without_name(r, name);
            assert(r[i].1.manifest.name == name);
            assert(u.len() == r.len() - 1);
            assert forall|j: int| 0 <= j < u.len() implies #[trigger] u[j] == r[if j < i { j } else { j + 1 }] by {}
            assert forall|a: int, b: int| 0 <= a < b < u.len() implies crate::ordered::seq_lt(
                #[trigger] u[a].0,
                #[trigger] u[b].0,
            ) by {
                let a2 = if a < i { a } else { a + 1 };
                let b2 = if b < i { b } else { b + 1 };
                assert(u[a] == r[a2]);
                assert(u[b] == r[b2]);
            }
            assert forall|a: int, b: int| 0 <= a < b < u.len() implies (#[trigger] u[a]).1.manifest.name
                != (#[trigger] u[b]).1.manifest.name by {
                let a2 = if a < i { a } else { a + 1 };
                let b2 = if b < i { b } else { b + 1 };
                assert(u[a] == r[a2]);
                assert(u[b] == r[b2]);
                assert(r[a2].1.manifest.name != r[b2].1.manifest.name);
            }
            assert forall|j: int| 0 <= j < u.len() implies (#[trigger] u[j]).1.local_service_id == u[j].0 by {
                let j2 = if j < i { j } else { j + 1 };
                assert(u[j] == r[j2]);
            }
            assert(records_wf(u));
            assert forall|j: int| 0 <= j < u.len() implies (#[trigger] u[j]).1.manifest.name != name by {
                let j2 = if j < i { j } else { j + 1 };
                assert(u[j] == r[j2]);
                if j2 < i {
                    assert(r[j2].1.manifest.name != r[i].1.manifest.name);
                } else {
                    assert(r[i].1.manifest.name != r[j2].1.manifest.name);
                }
            }
            assert forall|n: Seq<char>| n != name implies id_for_name(#[trigger] without_name(r, name), n)
                == id_for_name(r, n) && desired_for_name(without_name(r, name), n) == desired_for_name(r, n) by {
                match name_position(r, n) {
                    Some(q) => {
                        assert(r[q].1.manifest.name == n);
                        assert(q != i);
                        let q2 = if q < i { q } else { q - 1 };
                        assert(u[q2] == r[q]);
                        lemma_name_position_at(u, q2);
                        lemma_name_position_at(r, q);
                    },
                    None => {
                        assert forall|j: int| 0 <= j < u.len() implies (#[trigger] u[j]).1.manifest.name != n by {
                            let j2 = if j < i { j } else { j + 1 };
                            assert(u[j] == r[j2]);
                        }
                    },
                }
            }
        },
    }
}

/// Dropping a service that was just stored under a fresh id gives back the
/// records as they were before it was stored.
pub proof fn law_remove_undoes_new_upsert(
    r: Seq<(Seq<char>, PersistedServiceView)>,
    id: Seq<char>,
    m: ServiceManifestView,
    d: DesiredServiceState,
)
    requires
        records_wf(r),
        id_for_name(r, m.name) is None,
        forall|j: int| 0 <= j < r.len() ==> (#[trigger] r[j]).0 != id,
    ensures
        without_name(upserted(r, id, m, d), m.name) == r,
{
    let nv = stored_record(id, m, d);
    let u = upserted(r, id, m, d);
    law_upsert(r, id, m, d);
    let i = crate::ordered::lemma_sorted_insert_position(r, id, nv);
    assert(!(i < r.len() && r[i].0 == id));
    assert(u[i] == (id, nv));
    lemma_name_position_at(u, i);
    assert(u.remove(i) =~= r);
}

impl ServiceStateStore {
    /// The records, by view.
    pub closed spec fn view_records(&self) -> Seq<(Seq<char>, PersistedServiceView)> {
        records(self.state@)
    }

    /// The services directory, by its characters.
    pub closed spec fn root_view(&self) -> Seq<char> {
        self.services_root@
    }

    /// Well-formed: ids strictly increasing, each record filed under its own
    /// id, and no manifest name used twice.
    pub open spec fn wf(&self) -> bool {
        records_wf(self.view_records())
    }

    /// The position of the service with the given manifest name.
    pub open spec fn index_of_name(&self, name: Seq<char>) -> Option<int> {
        name_position(self.view_records(), name)
    }

    /// The local id of the service with the given manifest name.
    pub open spec fn id_of_name(&self, name: Seq<char>) -> Option<Seq<char>> {
        id_for_name(self.view_records(), name)
    }

    /// The desired state of the service with the given manifest name.
    pub open spec fn desired_of_name(&self, name: Seq<char>) -> Option<DesiredServiceState> {
        desired_for_name(self.view_records(), name)
    }

    /// An empty registry for the services directory `services_root`.
    pub fn new(services_root: String) -> (r: Self)
        ensures
            r.wf(),
            r.view_records().len() == 0,
            r.root_view() == services_root@,
    {
        ServiceStateStore { services_root, state: Vec::new() }
    }

    /// Every stored service, in local id order.
    pub fn persisted_services(&self) -> (r: Vec<PersistedService>)
        ensures
            r@.len() == self.view_records().len(),
            forall|i: int| 0 <= i < r@.len() ==> (#[trigger] r@[i])@ == self.view_records()[i].1,
    {
        let mut out: Vec<PersistedService> = Vec::new();
        let mut i: usize = 0;
        while i < self.state.len()
            invariant
                i <= self.state.len(),
                out@.len() == i,
                forall|j: int| 0 <= j < i ==> (#[trigger] out@[j])@ == self.view_records()[j].1,
            decreases self.state.len() - i,
        {
            out.push(self.state[i].1.duplicate());
            i = i + 1;
        }
        out
    }

    /// The position of the service named `service_name`, if there is one.
    fn position_of_name(&self, service_name: &str) -> (r: Option<usize>)
        requires
            self.wf(),
        ensures
            match r {
                Some(i) => self.index_of_name(service_name@) == Some(i as int),
                None => self.index_of_name(service_name@) is None,
            },
    {
        let mut i: usize = 0;
        while i < self.state.len()
            invariant
                self.wf(),
                i <= self.state.len(),
                forall|j: int| 0 <= j < i ==> (#[trigger] self.view_records()[j]).1.manifest.name != service_name@,
            decreases self.state.len() - i,
        {
            if str_eq(self.state[i].1.manifest.name.as_str(), service_name) {
                proof {
                    let r = self.view_records();
                    assert(r[i as int].1.manifest.name == service_name@);
                    let k = choose|k: int| 0 <= k < r.len() && (#[trigger] r[k]).1.manifest.name == service_name@;
                    if k != i {
                        if k < i {
                            assert(r[k].1.manifest.name != r[i as int].1.manifest.name);
                        } else {
                            assert(r[i as int].1.manifest.name != r[k].1.manifest.name);
                        }
                    }
                }
                return Some(i);
            }
            i = i + 1;
        }
        None
    }

    /// The position of the service filed under `local_service_id`.
    fn position_of_id(&self, local_service_id: &str) -> (r: Option<usize>)
        ensures
            match r {
                Some(i) => i < self.view_records().len() && self.view_records()[i as int].0 == local_service_id@,
                None => forall|j: int| 0 <= j < self.view_records().len() ==> (#[trigger] self.view_records()[j]).0 != local_service_id@,
            },
    {
        let mut i: usize = 0;
        while i < self.state.len()
            invariant
                i <= self.state.len(),
                forall|j: int| 0 <= j < i ==> (#[trigger] self.view_records()[j]).0 != local_service_id@,
            decreases self.state.len() - i,
        {
            if str_eq(self.state[i].0.as_str(), local_service_id) {
                return Some(i);
            }
            i = i + 1;
        }
        None
    }

    /// The desired state of a service, if it is stored.
    pub fn desired_state(&self, service_name: &str) -> (r: Option<DesiredServiceState>)
        requires
            self.wf(),
        ensures
            r == self.desired_of_name(service_name@),
    {
        match self.position_of_name(service_name) {
            Some(i) => Some(self.state[i].1.desired_state),
            None => None,
        }
    }

    /// The local id of a stored service; an error when it is not stored.
    pub fn lookup_local_service_id(&self, service_name: &str) -> (r: Result<String, String>)
        requires
            self.wf(),
        ensures
            match r {
                Ok(id) => self.id_of_name(service_name@) == Some(id@),
                Err(e) => self.id_of_name(service_name@) is None && e@ == "persisted service not found: "@
                    + service_name@,
            },
    {
        match self.position_of_name(service_name) {
            Some(i) => Ok(self.state[i].0.clone()),
            None => Err(concat("persisted service not found: ", service_name)),
        }
    }

    /// A new local id, `svc_` and a lower-cased ULID, that no stored service
    /// uses; sixteen draws are tried, and the error comes only when each of
    /// them was an id already stored, so never on an empty store.
    pub fn generate_unique_local_service_id(&self) -> (r: Result<String, String>)
        ensures
            match r {
                Ok(id) => is_generated_id(id@) && (forall|j: int|
                    0 <= j < self.view_records().len() ==> (#[trigger] self.view_records()[j]).0 != id@),
                Err(e) => e@ == "failed to allocate unique local_service_id"@ && allocation_exhausted(
                    self.view_records(),
                ),
            },
            self.view_records().len() == 0 ==> r is Ok,
    {
        let ghost records = self.view_records();
        let ghost mut drawn: Seq<Seq<char>> = Seq::empty();
        let mut attempt: usize = 0;
        while attempt < 16
            invariant
                attempt <= 16,
                records == self.view_records(),
                drawn.len() == attempt,
                forall|i: int| 0 <= i < drawn.len() ==> is_generated_id(#[trigger] drawn[i]) && has_record_id(records, drawn[i]),
            decreases 16 - attempt,
        {
            let raw = new_ulid_text();
            let candidate = local_service_id_candidate(raw.as_str());
            proof {
                lemma_candidate_is_generated(raw@);
            }
            match self.position_of_id(candidate.as_str()) {
                None => {
                    return Ok(candidate);
                },
                Some(j) => {
                    proof {
                        assert(records[j as int].0 == candidate@);
                        let old_drawn = drawn;
                        drawn = drawn.push(candidate@);
                        assert forall|i: int| 0 <= i < drawn.len() implies is_generated_id(#[trigger] drawn[i])
                            && has_record_id(records, drawn[i]) by {
                            if i < old_drawn.len() {
                                assert(drawn[i] == old_drawn[i]);
                            }
                        }
                    }
                },
            }
            attempt = attempt + 1;
        }
        proof {
            assert(drawn.len() == 16);
            assert(allocation_exhausted(records));
            if records.len() == 0 {
                assert(is_generated_id(drawn[0]) && has_record_id(records, drawn[0]));
            }
        }
        Err("failed to allocate unique local_service_id".to_owned())
    }

    /// The local id a service would be stored under: its own when it is
    /// stored, else a new unused one.
    pub fn preview_local_service_id(&self, service_name: &str) -> (r: Result<String, String>)
        requires
            self.wf(),
        ensures
            self.id_of_name(service_name@) is Some ==> r is Ok && r->Ok_0@ == self.id_of_name(
                service_name@,
            ).unwrap(),
            self.id_of_name(service_name@) is None ==> match r {
                Ok(id) => is_generated_id(id@) && forall|j: int|
                    0 <= j < self.view_records().len() ==> (#[trigger] self.view_records()[j]).0 != id@,
                Err(e) => e@ == "failed to allocate unique local_service_id"@ && allocation_exhausted(
                    self.view_records(),
                ),
            },
            self.view_records().len() == 0 ==> r is Ok,
    {
        if let Some(i) = self.position_of_name(service_name) {
            return Ok(self.state[i].0.clone());
        }
        self.generate_unique_local_service_id()
    }

    /// The local id an upsert stores a service under: its current id (a
    /// different requested id is an error); else the requested id, unless
    /// another service holds it; else a new unused id.
    pub fn resolve_upsert_local_service_id(
        &self,
        service_name: &str,
        requested_local_service_id: Option<&str>,
    ) -> (r: Result<String, String>)
        requires
            self.wf(),
        ensures
            match r {
                Ok(id) => {
                    &&& requested_local_service_id matches Some(q) ==> valid_local_id(q@) == Some(id@)
                    &&& self.id_of_name(service_name@) matches Some(cur) ==> id@ == cur
                    &&& self.id_of_name(service_name@) is None ==> forall|j: int|
                        0 <= j < self.view_records().len() && (#[trigger] self.view_records()[j]).0 == id@
                            ==> self.view_records()[j].1.manifest.name == service_name@
                    &&& self.id_of_name(service_name@) is None && requested_local_service_id is None ==> is_generated_id(id@)
                },
                Err(_) => upsert_refusable(self.view_records(), service_name@, requested_local_service_id),
            },
    {
        let requested = match requested_local_service_id {
            Some(value) => Some(normalize_local_service_id(value, "local_service_id")?),
            None => None,
        };
        if let Some(i) = self.position_of_name(service_name) {
            let existing = &self.state[i].0;
            if let Some(req) = &requested {
                if !str_eq(req.as_str(), existing.as_str()) {
                    let mut msg = concat3("local_service_id mismatch for service '", service_name, "': expected '");
                    crate::text::push_str(&mut msg, existing.as_str());
                    crate::text::push_str(&mut msg, "', got '");
                    crate::text::push_str(&mut msg, req.as_str());
                    crate::text::push_str(&mut msg, "'");
                    return Err(msg);
                }
            }
            return Ok(existing.clone());
        }
        if let Some(req) = requested {
            if let Some(j) = self.position_of_id(req.as_str()) {
                if !str_eq(self.state[j].1.manifest.name.as_str(), service_name) {
                    let mut msg = concat3("local_service_id '", req.as_str(), "' is already assigned to service '");
                    crate::text::push_str(&mut msg, self.state[j].1.manifest.name.as_str());
                    crate::text::push_str(&mut msg, "'");
                    return Err(msg);
                }
                proof {
                    let r = self.view_records();
                    assert forall|k: int| 0 <= k < r.len() && (#[trigger] r[k]).0 == req@ implies r[k].1.manifest.name == service_name@ by {
                        if k != j {
                            lemma_seq_lt_ne(r, k, j as int);
                        }
                    }
                }
            }
            return Ok(req);
        }
        self.generate_unique_local_service_id()
    }
}

impl ServiceStateStore {
    /// Stores `manifest` with `desired_state` under the local id that
    /// `resolve_upsert_local_service_id` picks, and returns that id; on an
    /// error nothing changes. Writing the service's files is left to the
    /// caller.
    pub fn upsert_service_with_local_service_id(
        &mut self,
        manifest: &ServiceManifest,
        desired_state: DesiredServiceState,
        requested_local_service_id: Option<&str>,
    ) -> (r: Result<String, String>)
        requires
            old(self).wf(),
        ensures
            final(self).wf(),
            final(self).root_view() == old(self).root_view(),
            match r {
                Ok(id) => {
                    &&& upsert_fits(old(self).view_records(), id@, manifest@.name)
                    &&& final(self).view_records() == upserted(old(self).view_records(), id@, manifest@, desired_state)
                    &&& requested_local_service_id matches Some(q) ==> valid_local_id(q@) == Some(id@)
                    &&& requested_local_service_id is None && id_for_name(old(self).view_records(), manifest@.name)
                        is None ==> is_generated_id(id@)
                },
                Err(_) => {
                    &&& final(self).view_records() == old(self).view_records()
                    &&& upsert_refusable(old(self).view_records(), manifest@.name, requested_local_service_id)
                },
            },
    {
        let local_service_id = self.resolve_upsert_local_service_id(manifest.name.as_str(), requested_local_service_id)?;
        let ghost r = self.view_records();
        let ghost name = manifest@.name;
        proof {
            if id_for_name(r, name) is None {
                assert forall|j: int| 0 <= j < r.len() implies (#[trigger] r[j]).0 != local_service_id@ by {
                    if r[j].0 == local_service_id@ {
                        assert(r[j].1.manifest.name == name);
                        assert(name_position(r, name) is Some);
                    }
                }
            }
            law_upsert(r, local_service_id@, manifest@, desired_state);
        }
        let record = PersistedService {
            local_service_id: local_service_id.clone(),
            manifest: manifest.duplicate(),
            desired_state,
        };
        ordered_insert(&mut self.state, local_service_id.clone(), record);
        Ok(local_service_id)
    }

    /// Adds a service read from disk; a second service with the same
    /// manifest name or the same local id is an error, and nothing changes.
    pub fn register_loaded_service(&mut self, service: PersistedService) -> (r: Result<(), String>)
        requires
            old(self).wf(),
        ensures
            final(self).wf(),
            final(self).root_view() == old(self).root_view(),
            r is Ok <==> id_for_name(old(self).view_records(), service@.manifest.name) is None && forall|j: int|
                0 <= j < old(self).view_records().len() ==> (#[trigger] old(self).view_records()[j]).0
                    != service@.local_service_id,
            r is Ok ==> final(self).view_records() == upserted(
                old(self).view_records(),
                service@.local_service_id,
                service@.manifest,
                service@.desired_state,
            ),
            r is Err ==> final(self).view_records() == old(self).view_records(),
    {
        let ghost r = self.view_records();
        if let Some(i) = self.position_of_name(service.manifest.name.as_str()) {
            let mut msg = concat3(
                "Duplicate managed service name '",
                service.manifest.name.as_str(),
                "' for local ids '",
            );
            crate::text::push_str(&mut msg, self.state[i].0.as_str());
            crate::text::push_str(&mut msg, "' and '");
            crate::text::push_str(&mut msg, service.local_service_id.as_str());
            crate::text::push_str(&mut msg, "'");
            return Err(msg);
        }
        if let Some(j) = self.position_of_id(service.local_service_id.as_str()) {
            return Err(concat("Duplicate managed service local id in ", self.services_root.as_str()));
        }
        proof {
            law_upsert(r, service@.local_service_id, service@.manifest, service@.desired_state);
        }
        let id = service.local_service_id.clone();
        ordered_insert(&mut self.state, id, service);
        proof {
            assert(service@ == stored_record(service@.local_service_id, service@.manifest, service@.desired_state));
        }
        Ok(())
    }

    /// Sets the desired state of a stored service; an error when it is not
    /// stored.
    pub fn set_desired_state(&mut self, service_name: &str, desired_state: DesiredServiceState) -> (r: Result<
        (),
        String,
    >)
        requires
            old(self).wf(),
        ensures
            final(self).wf(),
            final(self).root_view() == old(self).root_view(),
            r is Ok <==> old(self).id_of_name(service_name@) is Some,
            final(self).view_records() == with_desired(old(self).view_records(), service_name@, desired_state),
            r matches Err(e) ==> e@ == "persisted service not found: "@ + service_name@,
    {
        let ghost r = self.view_records();
        match self.position_of_name(service_name) {
            None => Err(concat("persisted service not found: ", service_name)),
            Some(i) => {
                proof {
                    law_set_desired(r, service_name@, desired_state);
                }
                let (id, mut record) = self.state.remove(i);
                record.desired_state = desired_state;
                self.state.insert(i, (id, record));
                proof {
                    assert(self.view_records() =~= with_desired(r, service_name@, desired_state));
                }
                Ok(())
            },
        }
    }

    /// Drops a stored service and returns the local id it had, whose
    /// directory the caller then removes; `None` when it is not stored.
    pub fn remove_service(&mut self, service_name: &str) -> (r: Option<String>)
        requires
            old(self).wf(),
        ensures
            final(self).wf(),
            final(self).root_view() == old(self).root_view(),
            final(self).view_records() == without_name(old(self).view_records(), service_name@),
            match r {
                Some(id) => old(self).id_of_name(service_name@) == Some(id@),
                None => old(self).id_of_name(service_name@) is None,
            },
    {
        let ghost r = self.view_records();
        proof {
            law_remove(r, service_name@);
        }
        match self.position_of_name(service_name) {
            None => None,
            Some(i) => {
                let (id, _record) = self.state.remove(i);
                proof {
                    assert(self.view_records() =~= r.remove(i as int));
                }
                Some(id)
            },
        }
    }

    /// The directory of the service stored under `local_service_id`.
    pub fn service_dir(&self, local_service_id: &str) -> (r: String)
        ensures
            r@ == join(self.root_view(), local_service_id@),
    {
        crate::paths::join_path(self.services_root.as_str(), local_service_id)
    }

    /// The state file to write for the service stored under
    /// `local_service_id`, stamped `updated_at`; an error when no service
    /// is stored under that id.
    pub fn service_state_file(&self, local_service_id: &str, updated_at: String) -> (r: Result<ServiceStateFile, String>)
        ensures
            match r {
                Ok(f) => exists|j: int|
                    0 <= j < self.view_records().len() && (#[trigger] self.view_records()[j]).0 == local_service_id@
                        && f.desired_state == self.view_records()[j].1.desired_state
                        && f.schema_version == SERVICE_STATE_SCHEMA_VERSION && f.local_service_id@ == local_service_id@
                        && f.updated_at == updated_at,
                Err(e) => (forall|j: int|
                    0 <= j < self.view_records().len() ==> (#[trigger] self.view_records()[j]).0 != local_service_id@)
                    && e@ == "persisted service not found: "@ + local_service_id@,
            },
    {
        match self.position_of_id(local_service_id) {
            None => Err(concat("persisted service not found: ", local_service_id)),
            Some(i) => Ok(
                ServiceStateFile {
                    schema_version: SERVICE_STATE_SCHEMA_VERSION,
                    local_service_id: local_service_id.to_owned(),
                    updated_at,
                    desired_state: self.state[i].1.desired_state,
                },
            ),
        }
    }
}

/// The inputs on which an upsert may be refused: a requested id that is not
/// a valid id, or that differs from the service's current id, or that
/// another service holds; and, for a new service without a requested id,
/// failing to draw an unused id.
pub open spec fn upsert_refusable(
    r: Seq<(Seq<char>, PersistedServiceView)>,
    name: Seq<char>,
    requested: Option<&str>,
) -> bool {
    ||| (requested matches Some(q) && valid_local_id(q@) is None)
    ||| (requested matches Some(q) && id_for_name(r, name) matches Some(cur) && valid_local_id(q@) != Some(cur))
    ||| (requested matches Some(q) && id_for_name(r, name) is None && exists|j: int|
        0 <= j < r.len() && (#[trigger] r[j]).0 == valid_local_id(q@).unwrap() && r[j].1.manifest.name != name)
    ||| (requested is None && id_for_name(r, name) is None && allocation_exhausted(r))
}

/// In a strictly sorted list, distinct positions hold distinct keys.
pub proof fn lemma_seq_lt_ne<W>(r: Seq<(Seq<char>, W)>, a: int, b: int)
    requires
        strictly_sorted(r),
        0 <= a < r.len(),
        0 <= b < r.len(),
        a != b,
    ensures
        r[a].0 != r[b].0,
{
    if a < b {
        crate::ordered::lemma_seq_lt_trichotomy(r[a].0, r[b].0);
    } else {
        crate::ordered::lemma_seq_lt_trichotomy(r[b].0, r[a].0);
    }
}

} // verus!
