//! The list of services a node shows: the services whose stored state
//! failed to load, each managed service as its runtime reports it, and the
//! services whose removal still has cleanup pending, by name.

use vstd::prelude::*;

use crate::instances::{
    carries_manifest, enrich_instance_from_manifest, missing_instance_from_manifest, runtime_name, source_text,
};
use crate::model::{ServiceInstance, ServiceManifest, ServicePhase, ServiceStatus};
use crate::ordered::{chars_lt, entry_views, seq_lt};
use crate::sorting::{lemma_stable_sorted_permutes, stable_sort, stable_sorted};
use crate::text::{chars_of, concat, str_eq};

verus! {

broadcast use vstd::seq_lib::group_seq_properties;

/// The instance listed for a managed service: the one its runtime
/// reported, completed from the manifest; or, when the runtime could not
/// report it, the manifest's own instance with an unknown status naming
/// the error.
pub fn listed_instance(manifest: &ServiceManifest, inspected: Result<ServiceInstance, String>) -> (r: ServiceInstance)
    ensures
        carries_manifest(r, manifest@),
        match inspected {
            Ok(i) => {
                &&& i.id@.len() == 0 ==> r.id@ == runtime_name(manifest.runtime) + ":"@ + manifest.name@
                &&& i.id@.len() > 0 ==> r.id == i.id
                &&& r.runtime == i.runtime
                &&& r.source == i.source
                &&& r.labels == i.labels
                &&& r.status == i.status
            },
            Err(e) => {
                &&& r.id@ == runtime_name(manifest.runtime) + ":"@ + manifest.name@
                &&& r.runtime == manifest.runtime
                &&& r.source@ == source_text(manifest@.source)
                &&& entry_views(r.labels@) == manifest@.labels
                &&& r.status.phase == ServicePhase::Unknown
                &&& r.status.detail matches Some(d) && d@ == "runtime error: "@ + e@
            },
        },
{
    match inspected {
        Ok(i) => enrich_instance_from_manifest(i, manifest),
        Err(e) => {
            let mut instance = missing_instance_from_manifest(manifest);
            let detail = concat("runtime error: ", e.as_str());
            instance.status = ServiceStatus::unknown().with_detail(detail.as_str());
            enrich_instance_from_manifest(instance, manifest)
        },
    }
}

/// The instances not named `name`, in order.
pub open spec fn without_named(s: Seq<ServiceInstance>, name: Seq<char>) -> Seq<ServiceInstance>
    decreases s.len(),
{
    if s.len() == 0 {
        s
    } else {
        let rest = without_named(s.drop_last(), name);
        if s.last().name@ == name {
            rest
        } else {
            rest.push(s.last())
        }
    }
}

/// The instances with each pending cleanup, in turn, taking the place of
/// every instance of its name, at the end.
pub open spec fn with_pending(s: Seq<ServiceInstance>, pending: Seq<ServiceInstance>) -> Seq<ServiceInstance>
    decreases pending.len(),
{
    if pending.len() == 0 {
        s
    } else {
        let p = pending.last();
        without_named(with_pending(s, pending.drop_last()), p.name@).push(p)
    }
}

/// Whether instance `a` is listed before `b`: by name.
pub open spec fn instance_name_before(a: ServiceInstance, b: ServiceInstance) -> bool {
    seq_lt(a.name@, b.name@)
}

fn comes_before_by_name(a: &ServiceInstance, b: &ServiceInstance) -> (r: bool)
    ensures
        r == instance_name_before(*a, *b),
{
    chars_lt(&chars_of(a.name.as_str()), &chars_of(b.name.as_str()))
}

fn drop_named(services: Vec<ServiceInstance>, name: &str) -> (r: Vec<ServiceInstance>)
    ensures
        r@ == without_named(services@, name@),
{
    let ghost all = services@;
    let total = services.len();
    let mut rest = services;
    let mut kept: Vec<ServiceInstance> = Vec::new();
    let mut n: usize = 0;
    proof {
        assert(all.take(0) =~= Seq::<ServiceInstance>::empty());
        assert(rest@ =~= all.skip(0));
    }
    while rest.len() > 0
        invariant
            n + rest@.len() == all.len(),
            all.len() == total,
            rest@ == all.skip(n as int),
            kept@ == without_named(all.take(n as int), name@),
        decreases rest.len(),
    {
        let x = rest.remove(0);
        proof {
            assert(all.take(n + 1).drop_last() =~= all.take(n as int));
            assert(all.take(n + 1).last() == x);
            assert(rest@ =~= all.skip(n + 1));
        }
        if !str_eq(x.name.as_str(), name) {
            kept.push(x);
        }
        n = n + 1;
    }
    proof {
        assert(all.take(n as int) =~= all);
    }
    kept
}

/// The services a node lists: those that failed to load and those its
/// runtimes report, each service with cleanup pending in place of any
/// other listing of its name, all in name order (the same name keeping its
/// order).
pub fn list_services(failed: Vec<ServiceInstance>, listed: Vec<ServiceInstance>, pending: Vec<ServiceInstance>) -> (r: Vec<
    ServiceInstance,
>)
    ensures
        r@ == stable_sorted(
            with_pending(failed@ + listed@, pending@),
            |a: ServiceInstance, b: ServiceInstance| instance_name_before(a, b),
        ),
{
    let ghost start = failed@ + listed@;
    let mut services = failed;
    let ghost f = services@;
    let total = listed.len();
    let mut listed = listed;
    let ghost l = listed@;
    let mut k: usize = 0;
    proof {
        assert(l.take(0) =~= Seq::<ServiceInstance>::empty());
        assert(services@ =~= f + l.take(0));
        assert(listed@ =~= l.skip(0));
    }
    while listed.len() > 0
        invariant
            k + listed@.len() == l.len(),
            l.len() == total,
            listed@ == l.skip(k as int),
            services@ == f + l.take(k as int),
        decreases listed.len(),
    {
        let x = listed.remove(0);
        proof {
            assert(l.take(k + 1) =~= l.take(k as int).push(x));
            assert(listed@ =~= l.skip(k + 1));
        }
        services.push(x);
        proof {
            assert(services@ =~= f + l.take(k + 1));
        }
        k = k + 1;
    }
    proof {
        assert(l.take(k as int) =~= l);
        assert(services@ == start);
    }
    let pending_total = pending.len();
    let mut pending = pending;
    let ghost pv = pending@;
    let mut j: usize = 0;
    proof {
        assert(pv.take(0) =~= Seq::<ServiceInstance>::empty());
        assert(pending@ =~= pv.skip(0));
    }
    while pending.len() > 0
        invariant
            j + pending@.len() == pv.len(),
            pv.len() == pending_total,
            pending@ == pv.skip(j as int),
            services@ == with_pending(start, pv.take(j as int)),
        decreases pending.len(),
    {
        let p = pending.remove(0);
        proof {
            assert(pv.take(j + 1).drop_last() =~= pv.take(j as int));
            assert(pv.take(j + 1).last() == p);
            assert(pending@ =~= pv.skip(j + 1));
        }
        let mut kept = drop_named(services, p.name.as_str());
        kept.push(p);
        services = kept;
        j = j + 1;
    }
    proof {
        assert(pv.take(j as int) =~= pv);
    }
    stable_sort(
        services,
        comes_before_by_name,
        Ghost(|a: ServiceInstance, b: ServiceInstance| instance_name_before(a, b)),
    )
}

proof fn lemma_without_named(s: Seq<ServiceInstance>, name: Seq<char>)
    ensures
        forall|x: ServiceInstance|
            #[trigger] without_named(s, name).to_multiset().count(x) == if x.name@ == name {
                0
            } else {
                s.to_multiset().count(x)
            },
        forall|j: int|
            0 <= j < without_named(s, name).len() ==> (#[trigger] without_named(s, name)[j]).name@ != name
                && s.contains(without_named(s, name)[j]),
    decreases s.len(),
{
    broadcast use vstd::multiset::group_multiset_axioms;

    if s.len() == 0 {
        assert(without_named(s, name) =~= s);
    } else {
        let dl = s.drop_last();
        let l = s.last();
        lemma_without_named(dl, name);
        let r = without_named(dl, name);
        vstd::seq_lib::to_multiset_build(dl, l);
        assert(dl.push(l) =~= s);
        if l.name@ != name {
            vstd::seq_lib::to_multiset_build(r, l);
        }
        let w = without_named(s, name);
        assert forall|j: int| 0 <= j < w.len() implies (#[trigger] w[j]).name@ != name && s.contains(w[j]) by {
            if j < r.len() {
                assert(w[j] == r[j]);
                assert(dl.contains(r[j]));
                let m = choose|m: int| 0 <= m < dl.len() && dl[m] == r[j];
                assert(s[m] == dl[m]);
            } else {
                assert(w[j] == l);
                assert(s[s.len() - 1] == l);
            }
        }
    }
}

proof fn lemma_with_pending(s: Seq<ServiceInstance>, pending: Seq<ServiceInstance>)
    requires
        forall|i: int, j: int| 0 <= i < j < pending.len() ==> (#[trigger] pending[i]).name@ != (#[trigger] pending[j]).name@,
    ensures
        forall|k: int|
            0 <= k < pending.len() ==> with_pending(s, pending).to_multiset().count(#[trigger] pending[k]) == 1,
        forall|k: int, j: int|
            0 <= k < pending.len() && 0 <= j < with_pending(s, pending).len() && (#[trigger] with_pending(
                s,
                pending,
            )[j]).name@ == (#[trigger] pending[k]).name@ ==> with_pending(s, pending)[j] == pending[k],
    decreases pending.len(),
{
    broadcast use vstd::multiset::group_multiset_axioms;

    if pending.len() > 0 {
        let pd = pending.drop_last();
        let p = pending.last();
        assert forall|i: int, j: int| 0 <= i < j < pd.len() implies (#[trigger] pd[i]).name@ != (#[trigger] pd[j]).name@ by {
            assert(pd[i] == pending[i] && pd[j] == pending[j]);
        }
        lemma_with_pending(s, pd);
        let w0 = with_pending(s, pd);
        let w1 = without_named(w0, p.name@);
        lemma_without_named(w0, p.name@);
        vstd::seq_lib::to_multiset_build(w1, p);
        let w = with_pending(s, pending);
        assert(w == w1.push(p));
        assert forall|k: int| 0 <= k < pending.len() implies w.to_multiset().count(#[trigger] pending[k]) == 1 by {
            if k < pending.len() - 1 {
                assert(pending[k] == pd[k]);
                assert(pending[k].name@ != p.name@);
            } else {
                assert(pending[k] == p);
            }
        }
        assert forall|k: int, j: int|
            0 <= k < pending.len() && 0 <= j < w.len() && (#[trigger] w[j]).name@ == (#[trigger] pending[k]).name@ implies w[j]
            == pending[k] by {
            if j < w1.len() {
                assert(w[j] == w1[j]);
                assert(w1[j].name@ != p.name@);
                assert(k < pending.len() - 1);
                assert(pending[k] == pd[k]);
                let m = choose|m: int| 0 <= m < w0.len() && w0[m] == w1[j];
                assert(w0[m].name@ == pd[k].name@);
            } else {
                assert(w[j] == p);
                if k < pending.len() - 1 {
                    assert(pending[k] == pd[k]);
                }
            }
        }
    }
}

/// A service whose removal still has cleanup pending is listed exactly
/// once, as its pending state, and no other listing of its name remains.
pub proof fn law_pending_cleanup_listed_once(s: Seq<ServiceInstance>, pending: Seq<ServiceInstance>)
    requires
        forall|i: int, j: int| 0 <= i < j < pending.len() ==> (#[trigger] pending[i]).name@ != (#[trigger] pending[j]).name@,
    ensures
        ({
            let out = stable_sorted(
                with_pending(s, pending),
                |a: ServiceInstance, b: ServiceInstance| instance_name_before(a, b),
            );
            &&& forall|k: int| 0 <= k < pending.len() ==> out.to_multiset().count(#[trigger] pending[k]) == 1
            &&& forall|k: int, j: int|
                0 <= k < pending.len() && 0 <= j < out.len() && (#[trigger] out[j]).name@ == (#[trigger] pending[k]).name@
                    ==> out[j] == pending[k]
        }),
{
    let before = |a: ServiceInstance, b: ServiceInstance| instance_name_before(a, b);
    let w = with_pending(s, pending);
    let out = stable_sorted(w, before);
    lemma_with_pending(s, pending);
    lemma_stable_sorted_permutes(w, before);
    assert forall|k: int, j: int|
        0 <= k < pending.len() && 0 <= j < out.len() && (#[trigger] out[j]).name@ == (#[trigger] pending[k]).name@ implies out[j]
        == pending[k] by {
        assert(out.contains(out[j]));
        assert(out.to_multiset().count(out[j]) > 0);
        assert(w.to_multiset().count(out[j]) > 0);
        assert(w.contains(out[j]));
        let m = choose|m: int| 0 <= m < w.len() && w[m] == out[j];
    }
}

} // verus!
