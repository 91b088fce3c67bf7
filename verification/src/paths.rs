//! Path strings of manifests: placeholder expansion and joining, with the
//! `/`-separated path rules of Unix.

use vstd::prelude::*;

use crate::text::{chars_of, string_from};

verus! {

/// `s` with every occurrence of `from` replaced by `to`, scanning left to
/// right without overlaps, as `str::replace` does for a non-empty pattern.
pub open spec fn replace_all(s: Seq<char>, from: Seq<char>, to: Seq<char>) -> Seq<char>
    recommends
        from.len() > 0,
    decreases s.len(),
{
    if from.len() == 0 || s.len() < from.len() {
        s
    } else if s.subrange(0, from.len() as int) == from {
        to + replace_all(s.subrange(from.len() as int, s.len() as int), from, to)
    } else {
        seq![s[0]] + replace_all(s.drop_first(), from, to)
    }
}

/// Whether `s` has `from` at position `i`.
fn matches_at(s: &Vec<char>, from: &Vec<char>, i: usize) -> (r: bool)
    requires
        i <= s.len(),
    ensures
        r == (from@.len() <= s@.len() - i && s@.subrange(i as int, i + from@.len()) == from@),
{
    if from.len() > s.len() - i {
        return false;
    }
    let mut j: usize = 0;
    while j < from.len()
        invariant
            j <= from.len(),
            from.len() <= s.len() - i,
            forall|q: int| 0 <= q < j ==> s@[i + q] == from@[q],
        decreases from.len() - j,
    {
        if s[i + j] != from[j] {
            proof {
                assert(s@.subrange(i as int, i + from@.len())[j as int] != from@[j as int]);
            }
            return false;
        }
        j = j + 1;
    }
    proof {
        assert(s@.subrange(i as int, i + from@.len()) =~= from@);
    }
    true
}

/// `str::replace` with a non-empty pattern, on character sequences.
pub fn replace_all_chars(s: &Vec<char>, from: &Vec<char>, to: &Vec<char>) -> (out: Vec<char>)
    requires
        from@.len() > 0,
    ensures
        out@ == replace_all(s@, from@, to@),
{
    let mut out: Vec<char> = Vec::new();
    let mut i: usize = 0;
    proof {
        assert(s@.subrange(0, s@.len() as int) =~= s@);
        assert(out@ + replace_all(s@, from@, to@) =~= replace_all(s@, from@, to@));
    }
    while i < s.len()
        invariant
            i <= s.len(),
            from@.len() > 0,
            out@ + replace_all(s@.subrange(i as int, s@.len() as int), from@, to@) == replace_all(
                s@,
                from@,
                to@,
            ),
        decreases s.len() - i,
    {
        let ghost rest = s@.subrange(i as int, s@.len() as int);
        if matches_at(s, from, i) {
            proof {
                assert(rest.subrange(0, from@.len() as int) =~= s@.subrange(i as int, i + from@.len()));
                assert(rest.subrange(from@.len() as int, rest.len() as int) =~= s@.subrange(
                    i + from@.len(),
                    s@.len() as int,
                ));
            }
            let mut k: usize = 0;
            let ghost before = out@;
            while k < to.len()
                invariant
                    k <= to.len(),
                    out@ == before + to@.take(k as int),
                decreases to.len() - k,
            {
                out.push(to[k]);
                k = k + 1;
                proof {
                    assert(to@.take(k as int) =~= to@.take(k - 1).push(to@[k - 1]));
                }
            }
            proof {
                assert(to@.take(to@.len() as int) =~= to@);
                assert(out@ + replace_all(s@.subrange(i + from@.len(), s@.len() as int), from@, to@)
                    =~= before + replace_all(rest, from@, to@));
            }
            i = i + from.len();
        } else {
            proof {
                if rest.len() >= from@.len() {
                    assert(rest.subrange(0, from@.len() as int) =~= s@.subrange(i as int, i + from@.len()));
                }
                assert(rest.drop_first() =~= s@.subrange(i + 1, s@.len() as int));
                assert(rest[0] == s@[i as int]);
            }
            let ghost before = out@;
            out.push(s[i]);
            proof {
                if rest.len() < from@.len() {
                    assert(replace_all(rest, from@, to@) == rest);
                    assert(replace_all(rest.drop_first(), from@, to@) == rest.drop_first());
                    assert(rest =~= seq![rest[0]] + rest.drop_first());
                }
                assert(out@ + replace_all(s@.subrange(i + 1, s@.len() as int), from@, to@)
                    =~= before + replace_all(rest, from@, to@));
            }
            i = i + 1;
        }
    }
    proof {
        assert(s@.subrange(s@.len() as int, s@.len() as int) =~= Seq::<char>::empty());
        assert(out@ + Seq::<char>::empty() =~= out@);
    }
    out
}

/// Whether a path is absolute: it begins at the root `/`.
pub open spec fn is_absolute(p: Seq<char>) -> bool {
    p.len() > 0 && p[0] == '/'
}

/// `Path::join`: an absolute `rel` replaces `base`; otherwise `rel` is
/// appended after a separator, which is added unless `base` is empty or
/// already ends with one.
pub open spec fn join(base: Seq<char>, rel: Seq<char>) -> Seq<char> {
    if is_absolute(rel) {
        rel
    } else if base.len() == 0 {
        rel
    } else if base.last() == '/' {
        base + rel
    } else {
        base + seq!['/'] + rel
    }
}

/// `Path::join` on path strings.
pub fn join_path(base: &str, rel: &str) -> (out: String)
    ensures
        out@ == join(base@, rel@),
{
    let b = chars_of(base);
    let r = chars_of(rel);
    if r.len() > 0 && r[0] == '/' {
        return rel.to_owned();
    }
    if b.len() == 0 {
        return rel.to_owned();
    }
    let mut out = base.to_owned();
    if b[b.len() - 1] != '/' {
        out.push('/');
    }
    crate::text::push_str(&mut out, rel);
    out
}

/// Where the placeholders of a service's paths point.
#[derive(Debug, Clone)]
pub struct ManifestPathRoots {
    pub service_appdata_dir: String,
    pub service_artifacts_dir: String,
    pub user_root_dir: String,
    pub user_home_dir: String,
}

/// A path with its placeholders expanded: `$fungi.service.artifacts`,
/// `$fungi.service.data`, `$fungi.workspace` and `$fungi.root`, in that
/// order.
pub open spec fn expand_placeholders(path: Seq<char>, roots: ManifestPathRoots) -> Seq<char> {
    replace_all(
        replace_all(
            replace_all(
                replace_all(path, "$fungi.service.artifacts"@, roots.service_artifacts_dir@),
                "$fungi.service.data"@,
                roots.service_appdata_dir@,
            ),
            "$fungi.workspace"@,
            roots.user_home_dir@,
        ),
        "$fungi.root"@,
        roots.user_root_dir@,
    )
}

/// A manifest path resolved for a node: placeholders expanded, and a
/// relative result taken against the manifest's directory.
pub open spec fn resolved_path(path: Seq<char>, base_dir: Seq<char>, roots: ManifestPathRoots) -> Seq<char> {
    let expanded = expand_placeholders(path, roots);
    if is_absolute(expanded) {
        expanded
    } else {
        join(base_dir, expanded)
    }
}

fn replace_str(s: &Vec<char>, from: &str, to: &str) -> (out: Vec<char>)
    requires
        from@.len() > 0,
    ensures
        out@ == replace_all(s@, from@, to@),
{
    let f = chars_of(from);
    let t = chars_of(to);
    replace_all_chars(s, &f, &t)
}

/// Resolves a manifest path for a node.
pub fn resolve_manifest_path_string(path: &str, base_dir: &str, roots: &ManifestPathRoots) -> (out: String)
    ensures
        out@ == resolved_path(path@, base_dir@, *roots),
{
    proof {
        reveal_strlit("$fungi.service.artifacts");
        reveal_strlit("$fungi.service.data");
        reveal_strlit("$fungi.workspace");
        reveal_strlit("$fungi.root");
    }
    let p = chars_of(path);
    let a = replace_str(&p, "$fungi.service.artifacts", roots.service_artifacts_dir.as_str());
    let b = replace_str(&a, "$fungi.service.data", roots.service_appdata_dir.as_str());
    let c = replace_str(&b, "$fungi.workspace", roots.user_home_dir.as_str());
    let d = replace_str(&c, "$fungi.root", roots.user_root_dir.as_str());
    let expanded = string_from(d.as_slice());
    if d.len() > 0 && d[0] == '/' {
        expanded
    } else {
        join_path(base_dir, expanded.as_str())
    }
}

} // verus!
