//! Running services on wasmtime: the launcher command, the host directories
//! a component may see, and the tail of its log.

use vstd::prelude::*;

use crate::instances::has_tcp_ports;
use crate::model::{texts, ServiceManifest, ServiceManifestView, ServiceMountView};
use crate::ordered::entry_views;
use crate::text::{chars_eq, chars_of, concat, concat3, parse_usize, parse_usize_chars, push_str, string_from, trim, trim_str};

verus! {

// ---------------------------------------------------------------------------
// Host paths
// ---------------------------------------------------------------------------

/// The pieces of a path between its `/` separators.
pub open spec fn path_pieces(p: Seq<char>) -> Seq<Seq<char>>
    decreases p.len(),
{
    if p.len() == 0 {
        seq![Seq::empty()]
    } else if p.last() == '/' {
        path_pieces(p.drop_last()).push(Seq::empty())
    } else {
        let r = path_pieces(p.drop_last());
        r.update(r.len() - 1, r.last().push(p.last()))
    }
}

/// The components left after reading `pieces` in turn onto `stack`: empty
/// pieces and `.` are skipped, `..` drops the last component.
pub open spec fn fold_components(stack: Seq<Seq<char>>, pieces: Seq<Seq<char>>) -> Seq<Seq<char>>
    decreases pieces.len(),
{
    if pieces.len() == 0 {
        stack
    } else {
        let p = pieces[0];
        let next = if p.len() == 0 || p == seq!['.'] {
            stack
        } else if p == seq!['.', '.'] {
            if stack.len() > 0 {
                stack.drop_last()
            } else {
                stack
            }
        } else {
            stack.push(p)
        };
        fold_components(next, pieces.drop_first())
    }
}

/// The normal components of an absolute path after `.` and `..` are
/// resolved, as `Path::components` and `PathBuf::pop` resolve them.
pub open spec fn normal_components(p: Seq<char>) -> Seq<Seq<char>> {
    fold_components(Seq::empty(), path_pieces(p))
}

/// `/` followed by the components joined with `/`.
pub open spec fn rooted(components: Seq<Seq<char>>) -> Seq<char>
    decreases components.len(),
{
    if components.len() == 0 {
        seq!['/']
    } else if components.len() == 1 {
        seq!['/'] + components[0]
    } else {
        rooted(components.drop_last()) + seq!['/'] + components.last()
    }
}

/// Whether a path is absolute: it starts with `/`.
pub open spec fn is_absolute_path(p: Seq<char>) -> bool {
    p.len() > 0 && p[0] == '/'
}

proof fn lemma_path_pieces_len(p: Seq<char>)
    ensures
        path_pieces(p).len() >= 1,
    decreases p.len(),
{
    if p.len() > 0 {
        lemma_path_pieces_len(p.drop_last());
    }
}

proof fn lemma_fold_components_push(stack: Seq<Seq<char>>, pieces: Seq<Seq<char>>, p: Seq<char>)
    ensures
        fold_components(stack, pieces.push(p)) == fold_components(fold_components(stack, pieces), seq![p]),
    decreases pieces.len(),
{
    if pieces.len() > 0 {
        let q = pieces[0];
        let next = if q.len() == 0 || q == seq!['.'] {
            stack
        } else if q == seq!['.', '.'] {
            if stack.len() > 0 {
                stack.drop_last()
            } else {
                stack
            }
        } else {
            stack.push(q)
        };
        assert(pieces.push(p)[0] == q);
        assert(pieces.push(p).drop_first() =~= pieces.drop_first().push(p));
        lemma_fold_components_push(next, pieces.drop_first(), p);
    } else {
        assert(pieces.push(p) =~= seq![p]);
    }
}

/// A path component that names a directory entry: not empty, not `.` or
/// `..`, and without a `/`.
pub open spec fn plain_component(c: Seq<char>) -> bool {
    &&& c.len() > 0
    &&& c != seq!['.']
    &&& c != seq!['.', '.']
    &&& forall|k: int| 0 <= k < c.len() ==> c[k] != '/'
}

proof fn lemma_path_pieces_unslashed(p: Seq<char>)
    ensures
        forall|i: int, k: int|
            0 <= i < path_pieces(p).len() && 0 <= k < path_pieces(p)[i].len() ==> #[trigger] path_pieces(p)[i][k] != '/',
    decreases p.len(),
{
    if p.len() > 0 {
        lemma_path_pieces_unslashed(p.drop_last());
        lemma_path_pieces_len(p.drop_last());
        let r = path_pieces(p.drop_last());
        if p.last() != '/' {
            let last = r.last().push(p.last());
            assert forall|k: int| 0 <= k < last.len() implies last[k] != '/' by {
                if k < r.last().len() {
                    assert(last[k] == r[r.len() - 1][k]);
                }
            }
        }
    }
}

proof fn lemma_fold_components_plain(stack: Seq<Seq<char>>, pieces: Seq<Seq<char>>)
    requires
        forall|i: int| 0 <= i < stack.len() ==> plain_component(#[trigger] stack[i]),
        forall|i: int, k: int| 0 <= i < pieces.len() && 0 <= k < pieces[i].len() ==> #[trigger] pieces[i][k] != '/',
    ensures
        forall|i: int|
            0 <= i < fold_components(stack, pieces).len() ==> plain_component(#[trigger] fold_components(stack, pieces)[i]),
    decreases pieces.len(),
{
    if pieces.len() > 0 {
        let p = pieces[0];
        let next = if p.len() == 0 || p == seq!['.'] {
            stack
        } else if p == seq!['.', '.'] {
            if stack.len() > 0 {
                stack.drop_last()
            } else {
                stack
            }
        } else {
            stack.push(p)
        };
        assert forall|k: int| 0 <= k < p.len() implies p[k] != '/' by {
            assert(pieces[0][k] != '/');
        }
        assert forall|i: int| 0 <= i < next.len() implies plain_component(#[trigger] next[i]) by {
            if i < stack.len() {
                assert(next[i] == stack[i]);
            }
        }
        let rest = pieces.drop_first();
        assert forall|i: int, k: int| 0 <= i < rest.len() && 0 <= k < rest[i].len() implies #[trigger] rest[i][k]
            != '/' by {
            assert(rest[i] == pieces[i + 1]);
        }
        lemma_fold_components_plain(next, rest);
        assert(fold_components(stack, pieces) == fold_components(next, rest));
    }
}

/// A host path, normalized, is made of plain components only: none is
/// empty, `.` or `..`, or holds a `/`. A mount checked against the allowed
/// roots is thus compared by the directories it really names, and cannot
/// leave a root through `..`.
pub proof fn law_normal_components_are_plain(p: Seq<char>)
    ensures
        forall|i: int| 0 <= i < normal_components(p).len() ==> plain_component(#[trigger] normal_components(p)[i]),
{
    lemma_path_pieces_unslashed(p);
    lemma_fold_components_plain(Seq::empty(), path_pieces(p));
}

/// Reads one path piece onto a component stack.
fn step_component(stack: &mut Vec<Vec<char>>, piece: Vec<char>)
    ensures
        final(stack)@.map_values(|c: Vec<char>| c@) == fold_components(
            old(stack)@.map_values(|c: Vec<char>| c@),
            seq![piece@],
        ),
{
    let ghost s0 = stack@.map_values(|c: Vec<char>| c@);
    proof {
        reveal_with_fuel(fold_components, 2);
        assert(seq![piece@].drop_first() =~= Seq::<Seq<char>>::empty());
        assert(seq![piece@][0] == piece@);
    }
    if piece.len() == 0 || (piece.len() == 1 && piece[0] == '.') {
        proof {
            if piece.len() == 1 {
                assert(piece@ =~= seq!['.']);
            }
        }
        return;
    }
    if piece.len() == 2 && piece[0] == '.' && piece[1] == '.' {
        proof {
            assert(piece@ =~= seq!['.', '.']);
        }
        if stack.len() > 0 {
            stack.pop();
            proof {
                assert(stack@.map_values(|c: Vec<char>| c@) =~= s0.drop_last());
            }
        }
        return;
    }
    proof {
        assert(piece@ != seq!['.']);
        assert(piece@ != seq!['.', '.']);
    }
    stack.push(piece);
    proof {
        assert(stack@.map_values(|c: Vec<char>| c@) =~= s0.push(piece@));
    }
}

/// The normal components of `path`; see `normal_components`.
pub fn path_components(path: &str) -> (r: Vec<Vec<char>>)
    ensures
        r@.map_values(|c: Vec<char>| c@) == normal_components(path@),
{
    let cs = chars_of(path);
    let mut stack: Vec<Vec<char>> = Vec::new();
    let mut current: Vec<char> = Vec::new();
    let mut i: usize = 0;
    proof {
        assert(cs@.take(0) =~= Seq::<char>::empty());
        assert(path_pieces(Seq::<char>::empty()).drop_last() =~= Seq::<Seq<char>>::empty());
    }
    while i < cs.len()
        invariant
            i <= cs.len(),
            cs@ == path@,
            path_pieces(cs@.take(i as int)).last() == current@,
            path_pieces(cs@.take(i as int)).len() >= 1,
            stack@.map_values(|c: Vec<char>| c@) == fold_components(
                Seq::empty(),
                path_pieces(cs@.take(i as int)).drop_last(),
            ),
        decreases cs.len() - i,
    {
        let c = cs[i];
        let ghost before = cs@.take(i as int);
        proof {
            assert(cs@.take(i + 1).drop_last() =~= before);
            assert(cs@.take(i + 1).last() == c);
            lemma_path_pieces_len(before);
        }
        if c == '/' {
            let piece = current;
            proof {
                let pp = path_pieces(before);
                assert(path_pieces(cs@.take(i + 1)) == pp.push(Seq::empty()));
                assert(pp.push(Seq::<char>::empty()).drop_last() =~= pp);
                assert(pp =~= pp.drop_last().push(piece@));
                lemma_fold_components_push(Seq::empty(), pp.drop_last(), piece@);
            }
            step_component(&mut stack, piece);
            current = Vec::new();
        } else {
            current.push(c);
            proof {
                let pp = path_pieces(before);
                let np = pp.update(pp.len() - 1, pp.last().push(c));
                assert(path_pieces(cs@.take(i + 1)) == np);
                assert(np.drop_last() =~= pp.drop_last());
            }
        }
        i = i + 1;
    }
    proof {
        assert(cs@.take(cs@.len() as int) =~= cs@);
        let pp = path_pieces(cs@);
        assert(pp =~= pp.drop_last().push(current@));
        lemma_fold_components_push(Seq::empty(), pp.drop_last(), current@);
    }
    step_component(&mut stack, current);
    stack
}

/// Whether `prefix` is a prefix of `s`.
pub open spec fn is_prefix_of<T>(prefix: Seq<T>, s: Seq<T>) -> bool {
    prefix.len() <= s.len() && s.take(prefix.len() as int) == prefix
}

/// Whether the component list `a` starts with the component list `b`.
fn components_start_with(a: &Vec<Vec<char>>, b: &Vec<Vec<char>>) -> (r: bool)
    ensures
        r == is_prefix_of(b@.map_values(|c: Vec<char>| c@), a@.map_values(|c: Vec<char>| c@)),
{
    let ghost av = a@.map_values(|c: Vec<char>| c@);
    let ghost bv = b@.map_values(|c: Vec<char>| c@);
    if b.len() > a.len() {
        return false;
    }
    let mut i: usize = 0;
    while i < b.len()
        invariant
            i <= b.len() <= a.len(),
            av == a@.map_values(|c: Vec<char>| c@),
            bv == b@.map_values(|c: Vec<char>| c@),
            forall|j: int| 0 <= j < i ==> av[j] == bv[j],
        decreases b.len() - i,
    {
        if !chars_eq(&a[i], &b[i]) {
            proof {
                assert(av.take(bv.len() as int)[i as int] != bv[i as int]);
            }
            return false;
        }
        i = i + 1;
    }
    proof {
        assert(av.take(bv.len() as int) =~= bv);
    }
    true
}

/// `path` with `.` and `..` resolved; an error unless it is absolute.
pub fn normalize_absolute_path(path: &str) -> (r: Result<String, String>)
    ensures
        match r {
            Ok(s) => is_absolute_path(path@) && s@ == rooted(normal_components(path@)),
            Err(e) => !is_absolute_path(path@) && e@ == not_absolute_text(path@),
        },
{
    let cs = chars_of(path);
    if cs.len() == 0 || cs[0] != '/' {
        return Err(concat("host path must be absolute: ", path));
    }
    let components = path_components(path);
    let ghost cv = components@.map_values(|c: Vec<char>| c@);
    let mut out: Vec<char> = Vec::new();
    out.push('/');
    let mut i: usize = 0;
    proof {
        assert(cv.take(0) =~= Seq::<Seq<char>>::empty());
        assert(out@ =~= seq!['/']);
    }
    while i < components.len()
        invariant
            i <= components.len(),
            cv == components@.map_values(|c: Vec<char>| c@),
            out@ == rooted(cv.take(i as int)),
        decreases components.len() - i,
    {
        proof {
            assert(cv.take(i + 1).drop_last() =~= cv.take(i as int));
            assert(cv.take(i + 1).last() == cv[i as int]);
            if i == 0 {
                assert(cv.take(1)[0] == cv[0]);
            }
        }
        if i > 0 {
            out.push('/');
        }
        let part = &components[i];
        let ghost before = out@;
        let mut k: usize = 0;
        while k < part.len()
            invariant
                k <= part.len(),
                out@ == before + part@.take(k as int),
            decreases part.len() - k,
        {
            out.push(part[k]);
            k = k + 1;
            proof {
                assert(part@.take(k as int) =~= part@.take(k - 1).push(part@[k - 1]));
                assert(before + part@.take(k as int) =~= (before + part@.take(k - 1)).push(part@[k - 1]));
            }
        }
        proof {
            assert(part@.take(part@.len() as int) =~= part@);
            assert(cv[i as int] == part@);
            if i == 0 {
                assert(rooted(cv.take(1)) =~= seq!['/'] + cv[0]);
            }
        }
        i = i + 1;
    }
    proof {
        assert(cv.take(cv.len() as int) =~= cv);
    }
    Ok(string_from(out.as_slice()))
}

/// Whether every mount's host path lies under one of the allowed roots,
/// all of them absolute, compared by normal components.
pub open spec fn host_paths_allowed(mounts: Seq<ServiceMountView>, roots: Seq<Seq<char>>) -> bool {
    &&& forall|j: int| 0 <= j < roots.len() ==> is_absolute_path(#[trigger] roots[j])
    &&& forall|i: int|
        0 <= i < mounts.len() ==> is_absolute_path(#[trigger] mounts[i].host_path) && exists|j: int|
            0 <= j < roots.len() && is_prefix_of(
                normal_components(#[trigger] roots[j]),
                normal_components(mounts[i].host_path),
            )
}

/// The refusal of a path that is not absolute.
pub open spec fn not_absolute_text(path: Seq<char>) -> Seq<char> {
    "host path must be absolute: "@ + path
}

/// The refusal of the first allowed root that is not absolute.
pub open spec fn root_error(roots: Seq<Seq<char>>) -> Option<Seq<char>>
    decreases roots.len(),
{
    if roots.len() == 0 {
        None
    } else if !is_absolute_path(roots[0]) {
        Some(not_absolute_text(roots[0]))
    } else {
        root_error(roots.drop_first())
    }
}

/// Whether a host path lies under one of the roots.
pub open spec fn under_some_root(host: Seq<char>, roots: Seq<Seq<char>>) -> bool {
    exists|j: int| 0 <= j < roots.len() && is_prefix_of(normal_components(#[trigger] roots[j]), normal_components(host))
}

/// The refusal of the first mount whose host path is not absolute or not
/// under a root.
pub open spec fn mount_error(mounts: Seq<ServiceMountView>, roots: Seq<Seq<char>>) -> Option<Seq<char>>
    decreases mounts.len(),
{
    if mounts.len() == 0 {
        None
    } else if !is_absolute_path(mounts[0].host_path) {
        Some(not_absolute_text(mounts[0].host_path))
    } else if !under_some_root(mounts[0].host_path, roots) {
        Some("wasmtime host path is outside allowed roots: "@ + mounts[0].host_path)
    } else {
        mount_error(mounts.drop_first(), roots)
    }
}

/// Why the host paths are refused: the first root that is not absolute,
/// else the first mount that is not absolute or not under a root.
pub open spec fn host_path_error(mounts: Seq<ServiceMountView>, roots: Seq<Seq<char>>) -> Option<Seq<char>> {
    match root_error(roots) {
        Some(e) => Some(e),
        None => mount_error(mounts, roots),
    }
}

/// Checks that a wasmtime service mounts only host paths under the allowed
/// roots; see `host_paths_allowed`.
pub fn validate_allowed_host_paths(manifest: &ServiceManifest, allowed_host_paths: &Vec<String>) -> (r: Result<
    (),
    String,
>)
    ensures
        r is Ok <==> host_paths_allowed(manifest@.mounts, texts(allowed_host_paths@)),
        r matches Err(e) ==> host_path_error(manifest@.mounts, texts(allowed_host_paths@)) == Some(e@),
{
    let ghost roots = texts(allowed_host_paths@);
    let mut normalized_roots: Vec<Vec<Vec<char>>> = Vec::new();
    let mut j: usize = 0;
    proof {
        assert(roots.skip(0) =~= roots);
    }
    while j < allowed_host_paths.len()
        invariant
            j <= allowed_host_paths.len(),
            roots == texts(allowed_host_paths@),
            normalized_roots@.len() == j,
            forall|k: int| 0 <= k < j ==> is_absolute_path(#[trigger] roots[k]),
            forall|k: int|
                0 <= k < j ==> (#[trigger] normalized_roots@[k])@.map_values(|c: Vec<char>| c@) == normal_components(
                    roots[k],
                ),
            root_error(roots) == root_error(roots.skip(j as int)),
        decreases allowed_host_paths.len() - j,
    {
        let root = allowed_host_paths[j].as_str();
        proof {
            assert(roots[j as int] == root@);
            assert(roots.skip(j as int)[0] == roots[j as int]);
            assert(roots.skip(j as int).drop_first() =~= roots.skip(j + 1));
        }
        if let Err(e) = normalize_absolute_path(root) {
            return Err(e);
        }
        normalized_roots.push(path_components(root));
        j = j + 1;
    }
    let mut i: usize = 0;
    proof {
        assert(roots.skip(roots.len() as int) =~= Seq::<Seq<char>>::empty());
        assert(manifest@.mounts.skip(0) =~= manifest@.mounts);
    }
    while i < manifest.mounts.len()
        invariant
            i <= manifest.mounts.len(),
            roots == texts(allowed_host_paths@),
            normalized_roots@.len() == roots.len(),
            forall|k: int| 0 <= k < roots.len() ==> is_absolute_path(#[trigger] roots[k]),
            forall|k: int|
                0 <= k < roots.len() ==> (#[trigger] normalized_roots@[k])@.map_values(|c: Vec<char>| c@)
                    == normal_components(roots[k]),
            forall|m: int|
                0 <= m < i ==> is_absolute_path(#[trigger] manifest@.mounts[m].host_path) && exists|k: int|
                    0 <= k < roots.len() && is_prefix_of(
                        normal_components(#[trigger] roots[k]),
                        normal_components(manifest@.mounts[m].host_path),
                    ),
            root_error(roots) is None,
            mount_error(manifest@.mounts, roots) == mount_error(manifest@.mounts.skip(i as int), roots),
        decreases manifest.mounts.len() - i,
    {
        let host = manifest.mounts[i].host_path.as_str();
        proof {
            assert(manifest@.mounts[i as int].host_path == host@);
            assert(manifest@.mounts.skip(i as int)[0] == manifest@.mounts[i as int]);
            assert(manifest@.mounts.skip(i as int).drop_first() =~= manifest@.mounts.skip(i + 1));
        }
        if let Err(e) = normalize_absolute_path(host) {
            return Err(e);
        }
        let host_components = path_components(host);
        let mut k: usize = 0;
        let mut allowed = false;
        while k < normalized_roots.len()
            invariant
                k <= normalized_roots.len(),
                normalized_roots@.len() == roots.len(),
                host_components@.map_values(|c: Vec<char>| c@) == normal_components(host@),
                forall|q: int|
                    0 <= q < roots.len() ==> (#[trigger] normalized_roots@[q])@.map_values(|c: Vec<char>| c@)
                        == normal_components(roots[q]),
                allowed ==> exists|q: int|
                    0 <= q < roots.len() && is_prefix_of(normal_components(#[trigger] roots[q]), normal_components(host@)),
                !allowed ==> forall|q: int|
                    0 <= q < k ==> !is_prefix_of(normal_components(#[trigger] roots[q]), normal_components(host@)),
            decreases normalized_roots.len() - k,
        {
            if components_start_with(&host_components, &normalized_roots[k]) {
                allowed = true;
            }
            k = k + 1;
        }
        if !allowed {
            return Err(concat("wasmtime host path is outside allowed roots: ", host));
        }
        i = i + 1;
    }
    Ok(())
}

// ---------------------------------------------------------------------------
// Log tails
// ---------------------------------------------------------------------------

/// The pieces of a text between its line feeds.
pub open spec fn line_pieces(s: Seq<char>) -> Seq<Seq<char>>
    decreases s.len(),
{
    if s.len() == 0 {
        seq![Seq::empty()]
    } else if s.last() == '\n' {
        line_pieces(s.drop_last()).push(Seq::empty())
    } else {
        let r = line_pieces(s.drop_last());
        r.update(r.len() - 1, r.last().push(s.last()))
    }
}

/// A line without the carriage return that ended it.
pub open spec fn without_cr(line: Seq<char>) -> Seq<char> {
    if line.len() > 0 && line.last() == '\r' {
        line.drop_last()
    } else {
        line
    }
}

/// The lines of a text, as `str::lines` gives them: split at line feeds,
/// a carriage return before a line feed dropped, and no line after a final
/// line feed.
pub open spec fn text_lines(s: Seq<char>) -> Seq<Seq<char>> {
    let pieces = line_pieces(s);
    let ended = pieces.drop_last().map_values(|l: Seq<char>| without_cr(l));
    if s.len() == 0 || s.last() == '\n' {
        ended
    } else {
        ended.push(pieces.last())
    }
}

/// Lines joined with line feeds.
pub open spec fn joined_lines(lines: Seq<Seq<char>>) -> Seq<char>
    decreases lines.len(),
{
    if lines.len() == 0 {
        Seq::empty()
    } else if lines.len() == 1 {
        lines[0]
    } else {
        joined_lines(lines.drop_last()) + seq!['\n'] + lines.last()
    }
}

/// The last `count` lines of `text`, joined with line feeds, ending with a
/// line feed when the text does and anything is kept.
pub open spec fn last_lines(text: Seq<char>, count: nat) -> Seq<char> {
    let lines = text_lines(text);
    let start = if lines.len() > count { lines.len() - count } else { 0 };
    let out = joined_lines(lines.skip(start));
    if text.len() > 0 && text.last() == '\n' && out.len() > 0 {
        out.push('\n')
    } else {
        out
    }
}

/// The lines of `text`; see `text_lines`.
fn split_lines(text: &Vec<char>) -> (r: Vec<Vec<char>>)
    ensures
        r@.map_values(|l: Vec<char>| l@) == text_lines(text@),
{
    let mut done: Vec<Vec<char>> = Vec::new();
    let mut current: Vec<char> = Vec::new();
    let mut i: usize = 0;
    proof {
        assert(text@.take(0) =~= Seq::<char>::empty());
        assert(line_pieces(Seq::<char>::empty()).drop_last() =~= Seq::<Seq<char>>::empty());
    }
    while i < text.len()
        invariant
            i <= text.len(),
            line_pieces(text@.take(i as int)).len() >= 1,
            line_pieces(text@.take(i as int)).last() == current@,
            done@.map_values(|l: Vec<char>| l@) == line_pieces(text@.take(i as int)).drop_last().map_values(
                |l: Seq<char>| without_cr(l),
            ),
        decreases text.len() - i,
    {
        let c = text[i];
        let ghost before = text@.take(i as int);
        let ghost pp = line_pieces(before);
        proof {
            assert(text@.take(i + 1).drop_last() =~= before);
            assert(text@.take(i + 1).last() == c);
        }
        if c == '\n' {
            let mut line = current;
            if line.len() > 0 && line[line.len() - 1] == '\r' {
                line.pop();
            }
            proof {
                assert(line@ == without_cr(pp.last()));
                assert(line_pieces(text@.take(i + 1)) == pp.push(Seq::empty()));
                assert(pp.push(Seq::<char>::empty()).drop_last() =~= pp);
                assert(pp.map_values(|l: Seq<char>| without_cr(l)) =~= pp.drop_last().map_values(
                    |l: Seq<char>| without_cr(l),
                ).push(without_cr(pp.last())));
            }
            done.push(line);
            proof {
                assert(done@.map_values(|l: Vec<char>| l@) =~= pp.map_values(|l: Seq<char>| without_cr(l)));
            }
            current = Vec::new();
        } else {
            current.push(c);
            proof {
                let np = pp.update(pp.len() - 1, pp.last().push(c));
                assert(line_pieces(text@.take(i + 1)) == np);
                assert(np.drop_last() =~= pp.drop_last());
            }
        }
        i = i + 1;
    }
    proof {
        assert(text@.take(text@.len() as int) =~= text@);
    }
    if text.len() > 0 && text[text.len() - 1] != '\n' {
        done.push(current);
        proof {
            let pp = line_pieces(text@);
            assert(done@.map_values(|l: Vec<char>| l@) =~= pp.drop_last().map_values(|l: Seq<char>| without_cr(l)).push(
                pp.last(),
            ));
        }
    }
    done
}

/// The last lines of a log; the whole text when no count is given or the
/// count is not a number. See `last_lines`.
pub fn tail_lines(text: &str, tail: Option<&str>) -> (r: String)
    ensures
        match tail {
            Some(t) => match parse_usize(t@) {
                Some(count) => r@ == last_lines(text@, count),
                None => r@ == text@,
            },
            None => r@ == text@,
        },
{
    let tail = match tail {
        Some(t) => t,
        None => return text.to_owned(),
    };
    let count = match parse_usize_chars(&chars_of(tail)) {
        Some(n) => n,
        None => return text.to_owned(),
    };
    let cs = chars_of(text);
    let lines = split_lines(&cs);
    let ghost lv = lines@.map_values(|l: Vec<char>| l@);
    let start: usize = if lines.len() > count { lines.len() - count } else { 0 };
    let mut out: Vec<char> = Vec::new();
    let mut i = start;
    proof {
        assert(lv.skip(start as int).take(0) =~= Seq::<Seq<char>>::empty());
    }
    while i < lines.len()
        invariant
            start <= i <= lines.len(),
            lv == lines@.map_values(|l: Vec<char>| l@),
            out@ == joined_lines(lv.skip(start as int).take(i - start)),
        decreases lines.len() - i,
    {
        let ghost done_lines = lv.skip(start as int).take(i - start);
        proof {
            assert(lv.skip(start as int).take(i + 1 - start).drop_last() =~= done_lines);
            assert(lv.skip(start as int).take(i + 1 - start).last() == lv[i as int]);
        }
        if i > start {
            out.push('\n');
        }
        let line = &lines[i];
        let ghost before = out@;
        let mut k: usize = 0;
        while k < line.len()
            invariant
                k <= line.len(),
                out@ == before + line@.take(k as int),
            decreases line.len() - k,
        {
            out.push(line[k]);
            k = k + 1;
            proof {
                assert(line@.take(k as int) =~= line@.take(k - 1).push(line@[k - 1]));
                assert(before + line@.take(k as int) =~= (before + line@.take(k - 1)).push(line@[k - 1]));
            }
        }
        proof {
            assert(line@.take(line@.len() as int) =~= line@);
            assert(lv[i as int] == line@);
            if i == start {
                assert(lv.skip(start as int).take(1)[0] == lv[i as int]);
                assert(joined_lines(lv.skip(start as int).take(1)) == lv[i as int]);
                assert(before =~= Seq::<char>::empty());
                assert(out@ =~= line@);
            }
        }
        i = i + 1;
    }
    proof {
        assert(lv.skip(start as int).take(lines.len() - start) =~= lv.skip(start as int));
    }
    if cs.len() > 0 && cs[cs.len() - 1] == '\n' && out.len() > 0 {
        out.push('\n');
    }
    string_from(out.as_slice())
}

// ---------------------------------------------------------------------------
// The launcher command
// ---------------------------------------------------------------------------

/// A path with its leading `/` characters removed.
pub open spec fn without_leading_slashes(s: Seq<char>) -> Seq<char>
    decreases s.len(),
{
    if s.len() > 0 && s[0] == '/' {
        without_leading_slashes(s.drop_first())
    } else {
        s
    }
}

/// The `--dir` value for a mount: the host path alone when the guest path,
/// trimmed and without leading `/`, is empty, else `host::guest`.
pub open spec fn mount_dir_arg(m: ServiceMountView) -> Seq<char> {
    let guest = without_leading_slashes(trim(m.runtime_path));
    if guest.len() == 0 {
        m.host_path
    } else {
        m.host_path + "::"@ + guest
    }
}

/// `--dir` and its value for each mount, in order.
pub open spec fn mount_args(mounts: Seq<ServiceMountView>) -> Seq<Seq<char>>
    decreases mounts.len(),
{
    if mounts.len() == 0 {
        Seq::empty()
    } else {
        mount_args(mounts.drop_last()) + seq!["--dir"@, mount_dir_arg(mounts.last())]
    }
}

/// `--env` and `name=value` for each variable, in order.
pub open spec fn env_args(env: Seq<(Seq<char>, Seq<char>)>) -> Seq<Seq<char>>
    decreases env.len(),
{
    if env.len() == 0 {
        Seq::empty()
    } else {
        env_args(env.drop_last()) + seq!["--env"@, env.last().0 + "="@ + env.last().1]
    }
}

/// The launcher's arguments for a wasmtime service: its home, `run` with
/// the CLI and HTTP interfaces (and TCP networking when a TCP port is
/// published), the mounted directories, the environment, the staged
/// component, then the service's own arguments.
pub open spec fn wasmtime_args(fungi_home: Seq<char>, component: Seq<char>, m: ServiceManifestView) -> Seq<Seq<char>> {
    seq!["--fungi-dir"@, fungi_home, "run"@, "-Scli"@, "-Shttp"@] + (if exists|i: int|
        0 <= i < m.ports.len() && #[trigger] m.ports[i].protocol == crate::model::ServicePortProtocol::Tcp {
        seq!["-Stcp"@, "-Sinherit-network"@, "-Sallow-ip-name-lookup"@]
    } else {
        Seq::empty()
    }) + mount_args(m.mounts) + env_args(m.env) + seq![component] + m.command
}

/// How to start the launcher for a wasmtime service.
#[derive(Debug, Clone)]
pub struct WasmtimeCommand {
    pub program: String,
    pub args: Vec<String>,
    pub current_dir: String,
}

/// Appends a string to an argument list.
fn push_arg(args: &mut Vec<String>, arg: String)
    ensures
        texts(final(args)@) == texts(old(args)@).push(arg@),
{
    args.push(arg);
    proof {
        assert(texts(args@) =~= texts(old(args)@).push(arg@));
    }
}

/// The mount's `--dir` value; see `mount_dir_arg`.
fn dir_arg(host_path: &str, runtime_path: &str) -> (r: String)
    ensures
        r@ == mount_dir_arg(ServiceMountView { host_path: host_path@, runtime_path: runtime_path@ }),
{
    let trimmed = chars_of(trim_str(runtime_path).as_str());
    let mut k: usize = 0;
    proof {
        assert(trimmed@.skip(0) =~= trimmed@);
    }
    while k < trimmed.len() && trimmed[k] == '/'
        invariant
            k <= trimmed.len(),
            without_leading_slashes(trimmed@) == without_leading_slashes(trimmed@.skip(k as int)),
        decreases trimmed.len() - k,
    {
        proof {
            let t = trimmed@.skip(k as int);
            assert(t[0] == '/');
            assert(t.drop_first() =~= trimmed@.skip(k + 1));
        }
        k = k + 1;
    }
    let guest = crate::text::slice_chars(&trimmed, k, trimmed.len());
    proof {
        let t = trimmed@.skip(k as int);
        assert(guest@ =~= t);
        if t.len() > 0 {
            assert(t[0] == trimmed@[k as int]);
        }
    }
    if guest.len() == 0 {
        host_path.to_owned()
    } else {
        let g = string_from(guest.as_slice());
        concat3(host_path, "::", g.as_str())
    }
}

/// The launcher command for a wasmtime service: `launcher_path` with the
/// arguments `wasmtime_args` gives, run in the manifest's working directory
/// or else the service directory.
pub fn build_wasmtime_command(
    launcher_path: &str,
    fungi_home: &str,
    staged_component_path: &str,
    service_dir: &str,
    manifest: &ServiceManifest,
) -> (r: WasmtimeCommand)
    ensures
        r.program@ == launcher_path@,
        texts(r.args@) == wasmtime_args(fungi_home@, staged_component_path@, manifest@),
        r.current_dir@ == (match manifest@.working_dir {
            Some(w) => w,
            None => service_dir@,
        }),
{
    let mut args: Vec<String> = Vec::new();
    push_arg(&mut args, "--fungi-dir".to_owned());
    push_arg(&mut args, fungi_home.to_owned());
    push_arg(&mut args, "run".to_owned());
    push_arg(&mut args, "-Scli".to_owned());
    push_arg(&mut args, "-Shttp".to_owned());
    let ghost head = texts(args@);
    let tcp = has_tcp_ports(manifest);
    if tcp {
        push_arg(&mut args, "-Stcp".to_owned());
        push_arg(&mut args, "-Sinherit-network".to_owned());
        push_arg(&mut args, "-Sallow-ip-name-lookup".to_owned());
    }
    let ghost with_net = texts(args@);
    proof {
        assert(head =~= seq!["--fungi-dir"@, fungi_home@, "run"@, "-Scli"@, "-Shttp"@]);
        if tcp {
            assert(with_net =~= head + seq!["-Stcp"@, "-Sinherit-network"@, "-Sallow-ip-name-lookup"@]);
        } else {
            assert(with_net =~= head + Seq::<Seq<char>>::empty());
        }
    }
    let ghost mounts = manifest@.mounts;
    let mut i: usize = 0;
    proof {
        assert(mounts.take(0) =~= Seq::<ServiceMountView>::empty());
        assert(with_net + mount_args(mounts.take(0)) =~= with_net);
    }
    while i < manifest.mounts.len()
        invariant
            i <= manifest.mounts.len(),
            mounts == manifest@.mounts,
            texts(args@) == with_net + mount_args(mounts.take(i as int)),
        decreases manifest.mounts.len() - i,
    {
        let m = &manifest.mounts[i];
        proof {
            assert(mounts.take(i + 1).drop_last() =~= mounts.take(i as int));
            assert(mounts.take(i + 1).last() == m@);
        }
        let ghost before = texts(args@);
        push_arg(&mut args, "--dir".to_owned());
        push_arg(&mut args, dir_arg(m.host_path.as_str(), m.runtime_path.as_str()));
        proof {
            assert(texts(args@) =~= with_net + mount_args(mounts.take(i + 1)));
        }
        i = i + 1;
    }
    proof {
        assert(mounts.take(mounts.len() as int) =~= mounts);
    }
    let ghost with_mounts = texts(args@);
    let ghost env = manifest@.env;
    let mut e: usize = 0;
    proof {
        assert(env.take(0) =~= Seq::<(Seq<char>, Seq<char>)>::empty());
        assert(with_mounts + env_args(env.take(0)) =~= with_mounts);
    }
    while e < manifest.env.len()
        invariant
            e <= manifest.env.len(),
            env == manifest@.env,
            env == entry_views(manifest.env@),
            texts(args@) == with_mounts + env_args(env.take(e as int)),
        decreases manifest.env.len() - e,
    {
        let pair = &manifest.env[e];
        proof {
            assert(env.take(e + 1).drop_last() =~= env.take(e as int));
            assert(env.take(e + 1).last() == (pair.0@, pair.1@));
        }
        push_arg(&mut args, "--env".to_owned());
        push_arg(&mut args, concat3(pair.0.as_str(), "=", pair.1.as_str()));
        proof {
            assert(texts(args@) =~= with_mounts + env_args(env.take(e + 1)));
        }
        e = e + 1;
    }
    proof {
        assert(env.take(env.len() as int) =~= env);
    }
    push_arg(&mut args, staged_component_path.to_owned());
    let ghost with_component = texts(args@);
    let mut c: usize = 0;
    while c < manifest.command.len()
        invariant
            c <= manifest.command.len(),
            texts(args@) == with_component + texts(manifest.command@).take(c as int),
        decreases manifest.command.len() - c,
    {
        push_arg(&mut args, manifest.command[c].clone());
        proof {
            assert(texts(manifest.command@).take(c + 1) =~= texts(manifest.command@).take(c as int).push(
                manifest.command@[c as int]@,
            ));
        }
        c = c + 1;
    }
    proof {
        assert(texts(manifest.command@).take(manifest.command@.len() as int) =~= texts(manifest.command@));
        assert(texts(args@) =~= wasmtime_args(fungi_home@, staged_component_path@, manifest@));
    }
    let current_dir = match &manifest.working_dir {
        Some(w) => w.clone(),
        None => service_dir.to_owned(),
    };
    WasmtimeCommand { program: launcher_path.to_owned(), args, current_dir }
}

} // verus!
