//! Locating the service document in a service file: YAML front matter
//! between `---` lines, or a whole YAML document, and resolving it into a
//! manifest.

use vstd::prelude::*;

use crate::document::{
    field_value, find_field, parse_fungi_service_yaml, parsed_document, service_yaml_refusal, FungiServiceDocument,
    FungiServiceDocumentView,
};
use crate::manifest::{doc_service_name, manifest_error, manifest_from_document, service_name_error};
use crate::model::{ManifestResolutionPolicy, ServiceManifest};
use crate::paths::ManifestPathRoots;
use crate::text::{chars_eq, chars_of, chars_start_with, slice_chars, starts_with, string_from, trim_start};
use crate::yaml::{parse_yaml_value, yaml_map_len, yaml_parse, yaml_tree, YamlNode};
use std::collections::BTreeSet;

verus! {

/// The length of the first line of `s`, its `\n` included.
pub open spec fn first_line_len(s: Seq<char>) -> nat
    decreases s.len(),
{
    if s.len() == 0 {
        0
    } else if s[0] == '\n' {
        1
    } else {
        1 + first_line_len(s.drop_first())
    }
}

/// A non-empty text has a first line of at least one character, and no
/// line is longer than the text.
pub proof fn lemma_first_line_len(s: Seq<char>)
    ensures
        first_line_len(s) <= s.len(),
        s.len() > 0 ==> first_line_len(s) >= 1,
    decreases s.len(),
{
    if s.len() > 0 && s[0] != '\n' {
        lemma_first_line_len(s.drop_first());
    }
}

/// `s` without trailing `\r` and `\n` characters.
pub open spec fn strip_newlines(s: Seq<char>) -> Seq<char>
    decreases s.len(),
{
    if s.len() > 0 && (s.last() == '\r' || s.last() == '\n') {
        strip_newlines(s.drop_last())
    } else {
        s
    }
}

/// The offset and length of the first line of `s` that reads `---` once
/// its line ending is removed.
pub open spec fn closing_line(s: Seq<char>) -> Option<(nat, nat)>
    decreases s.len(),
{
    if s.len() == 0 {
        None
    } else {
        let l = first_line_len(s);
        proof {
            lemma_first_line_len(s);
        }
        if strip_newlines(s.take(l as int)) == "---"@ {
            Some((0, l))
        } else {
            match closing_line(s.skip(l as int)) {
                Some((o, n)) => Some((o + l, n)),
                None => None,
            }
        }
    }
}

/// The text after an opening `---` line, if the content begins with one.
pub open spec fn after_opening(content: Seq<char>) -> Option<Seq<char>> {
    if starts_with(content, "---\n"@) {
        Some(content.skip(4))
    } else if starts_with(content, "---\r\n"@) {
        Some(content.skip(5))
    } else {
        None
    }
}

/// The front matter of a service file, as its YAML and the body after it:
/// `Ok(None)` when the content does not open with `---` or is YAML with no
/// closing `---`; `Err` when it opens with `---`, has no closing `---`,
/// and is no YAML either.
pub open spec fn front_matter(content: Seq<char>) -> Result<Option<(Seq<char>, Seq<char>)>, ()> {
    match after_opening(content) {
        None => Ok(None),
        Some(rest) => match closing_line(rest) {
            Some((o, n)) => Ok(Some((rest.take(o as int), rest.skip((o + n) as int)))),
            None => if yaml_parse(content) is Ok {
                Ok(None)
            } else {
                Err(())
            },
        },
    }
}

fn strip_newlines_chars(s: &Vec<char>) -> (r: Vec<char>)
    ensures
        r@ == strip_newlines(s@),
{
    let mut hi = s.len();
    proof {
        assert(s@.take(hi as int) =~= s@);
    }
    while hi > 0 && (s[hi - 1] == '\r' || s[hi - 1] == '\n')
        invariant
            hi <= s.len(),
            strip_newlines(s@) == strip_newlines(s@.take(hi as int)),
        decreases hi,
    {
        proof {
            assert(s@.take(hi as int).drop_last() =~= s@.take(hi - 1));
        }
        hi = hi - 1;
    }
    let r = slice_chars(s, 0, hi);
    proof {
        assert(s@.subrange(0, hi as int) =~= s@.take(hi as int));
    }
    r
}

/// The length of the line of `s` that begins at `off`, its `\n` included.
fn line_len_at(s: &Vec<char>, off: usize) -> (r: usize)
    requires
        off <= s.len(),
    ensures
        r == first_line_len(s@.skip(off as int)),
        off + r <= s.len(),
{
    let mut j = off;
    while j < s.len() && s[j] != '\n'
        invariant
            off <= j <= s.len(),
            first_line_len(s@.skip(off as int)) == (j - off) + first_line_len(s@.skip(j as int)),
        decreases s.len() - j,
    {
        proof {
            assert(s@.skip(j as int).drop_first() =~= s@.skip(j + 1));
        }
        j = j + 1;
    }
    proof {
        lemma_first_line_len(s@.skip(j as int));
    }
    if j < s.len() {
        j + 1 - off
    } else {
        j - off
    }
}

/// Finds the closing `---` line.
fn find_closing_line(s: &Vec<char>) -> (r: Option<(usize, usize)>)
    ensures
        match r {
            Some((o, n)) => closing_line(s@) == Some((o as nat, n as nat)) && o + n <= s.len(),
            None => closing_line(s@) is None,
        },
{
    let dashes = chars_of("---");
    let mut off: usize = 0;
    proof {
        assert(s@.skip(0) =~= s@);
    }
    while off < s.len()
        invariant
            off <= s.len(),
            dashes@ == "---"@,
            closing_line(s@) == match closing_line(s@.skip(off as int)) {
                Some((o, n)) => Some(((o + off) as nat, n)),
                None => None::<(nat, nat)>,
            },
        decreases s.len() - off,
    {
        let n = line_len_at(s, off);
        let line = slice_chars(s, off, off + n);
        let stripped = strip_newlines_chars(&line);
        proof {
            lemma_first_line_len(s@.skip(off as int));
            assert(line@ =~= s@.skip(off as int).take(n as int));
            assert(s@.skip(off as int).skip(n as int) =~= s@.skip(off + n));
        }
        if chars_eq(&stripped, &dashes) {
            return Some((off, n));
        }
        off = off + n;
    }
    proof {
        assert(s@.skip(off as int).len() == 0);
    }
    None
}

/// Splits off the front matter of a service file.
pub fn split_front_matter(content: &str) -> (r: Result<Option<(String, String)>, String>)
    ensures
        match r {
            Ok(Some((y, b))) => front_matter(content@) == Ok::<Option<(Seq<char>, Seq<char>)>, ()>(
                Some((y@, b@)),
            ),
            Ok(None) => front_matter(content@) == Ok::<Option<(Seq<char>, Seq<char>)>, ()>(None),
            Err(e) => front_matter(content@) is Err && e@ == "Fungi service file front matter is missing closing ---"@,
        },
{
    let cs = chars_of(content);
    let open_lf = chars_of("---\n");
    let open_crlf = chars_of("---\r\n");
    proof {
        reveal_strlit("---\n");
        reveal_strlit("---\r\n");
    }
    let rest = if chars_start_with(&cs, &open_lf) {
        slice_chars(&cs, 4, cs.len())
    } else if chars_start_with(&cs, &open_crlf) {
        slice_chars(&cs, 5, cs.len())
    } else {
        return Ok(None);
    };
    proof {
        assert(after_opening(content@) == Some(rest@));
    }
    match find_closing_line(&rest) {
        Some((o, n)) => {
            let yaml = slice_chars(&rest, 0, o);
            let body = slice_chars(&rest, o + n, rest.len());
            proof {
                assert(yaml@ =~= rest@.take(o as int));
                assert(body@ =~= rest@.skip((o + n) as int));
            }
            Ok(Some((string_from(yaml.as_slice()), string_from(body.as_slice()))))
        },
        None => {
            if parse_yaml_value(content).is_ok() {
                Ok(None)
            } else {
                Err("Fungi service file front matter is missing closing ---".to_owned())
            }
        },
    }
}

/// Whether some of the first `count` lines of `s`, leading whitespace
/// removed, begins with `fungi:`.
pub open spec fn fungi_line_within(s: Seq<char>, count: nat) -> bool
    decreases s.len(),
{
    if s.len() == 0 || count == 0 {
        false
    } else {
        let l = first_line_len(s);
        proof {
            lemma_first_line_len(s);
        }
        starts_with(trim_start(s.take(l as int)), "fungi:"@) || fungi_line_within(
            s.skip(l as int),
            (count - 1) as nat,
        )
    }
}

/// Whether content with no front matter is read as a service document: it
/// begins with `fungi:`, or it begins with `---` and is a YAML mapping with
/// a `fungi` key, or, when it does not parse, one of its first 32 lines
/// begins with `fungi:`.
pub open spec fn looks_like_service_yaml(content: Seq<char>) -> bool {
    let trimmed = trim_start(content);
    if starts_with(trimmed, "fungi:"@) {
        true
    } else if !starts_with(trimmed, "---"@) {
        false
    } else {
        match yaml_parse(content) {
            Ok(YamlNode::Mapping(m)) => field_value(m, "fungi"@) is Some,
            Ok(_) => false,
            Err(_) => fungi_line_within(trimmed, 32),
        }
    }
}

fn trim_start_chars(s: &Vec<char>) -> (r: Vec<char>)
    ensures
        r@ == trim_start(s@),
{
    let mut lo: usize = 0;
    proof {
        assert(s@.skip(0) =~= s@);
    }
    while lo < s.len() && crate::text::is_ws_char(s[lo])
        invariant
            lo <= s.len(),
            trim_start(s@) == trim_start(s@.skip(lo as int)),
        decreases s.len() - lo,
    {
        proof {
            assert(s@.skip(lo as int).drop_first() =~= s@.skip(lo + 1));
        }
        lo = lo + 1;
    }
    proof {
        let r = s@.skip(lo as int);
        if r.len() > 0 {
            assert(r[0] == s@[lo as int]);
        }
    }
    slice_chars(s, lo, s.len())
}

fn fungi_line_within_chars(s: &Vec<char>, count: usize) -> (r: bool)
    ensures
        r == fungi_line_within(s@, count as nat),
{
    let prefix = chars_of("fungi:");
    let mut off: usize = 0;
    let mut left = count;
    proof {
        assert(s@.skip(0) =~= s@);
    }
    while off < s.len() && left > 0
        invariant
            off <= s.len(),
            prefix@ == "fungi:"@,
            fungi_line_within(s@, count as nat) == fungi_line_within(s@.skip(off as int), left as nat),
        decreases s.len() - off,
    {
        let n = line_len_at(s, off);
        let line = slice_chars(s, off, off + n);
        let t = trim_start_chars(&line);
        proof {
            lemma_first_line_len(s@.skip(off as int));
            assert(line@ =~= s@.skip(off as int).take(n as int));
            assert(s@.skip(off as int).skip(n as int) =~= s@.skip(off + n));
        }
        if chars_start_with(&t, &prefix) {
            return true;
        }
        off = off + n;
        left = left - 1;
    }
    false
}

/// Decides whether content without front matter is a service document.
pub fn should_parse_as_fungi_service_yaml(content: &str) -> (r: bool)
    ensures
        r == looks_like_service_yaml(content@),
{
    let cs = chars_of(content);
    let trimmed = trim_start_chars(&cs);
    if chars_start_with(&trimmed, &chars_of("fungi:")) {
        return true;
    }
    if !chars_start_with(&trimmed, &chars_of("---")) {
        return false;
    }
    match parse_yaml_value(content) {
        Ok(v) => {
            if yaml_map_len(&v).is_some() {
                find_field(&v, "fungi").is_some()
            } else {
                false
            }
        },
        Err(_) => fungi_line_within_chars(&trimmed, 32),
    }
}

/// The service document a file holds: in its front matter, or as its whole
/// text; `Some(None)` when it holds none; `None` when it fails to read.
pub open spec fn document_of(content: Seq<char>) -> Option<Option<FungiServiceDocumentView>> {
    match front_matter(content) {
        Err(_) => None,
        Ok(Some((yaml, _))) => match parsed_document(yaml) {
            Some(d) => Some(Some(d)),
            None => None,
        },
        Ok(None) => if looks_like_service_yaml(content) {
            match parsed_document(content) {
                Some(d) => Some(Some(d)),
                None => None,
            }
        } else {
            Some(None)
        },
    }
}

/// The service document a file must hold.
pub open spec fn required_document(content: Seq<char>) -> Option<FungiServiceDocumentView> {
    match document_of(content) {
        Some(Some(d)) => Some(d),
        _ => None,
    }
}

/// `e` is a refusal of a parsed text, from `parse_fungi_service_yaml`: it
/// names the text, then carries the YAML error or the refusal of the tree.
pub open spec fn yaml_refusal(label: Seq<char>, text: Seq<char>, e: Seq<char>) -> bool {
    &&& starts_with(e, "Failed to parse "@ + label + ": "@)
    &&& service_yaml_refusal(label, text, e)
}

/// `e` is the refusal of a file whose service document cannot be read: an
/// unclosed front matter, front matter or YAML that does not read as a
/// service document, or a file that holds no service document.
pub open spec fn file_error(content: Seq<char>, e: Seq<char>) -> bool {
    match front_matter(content) {
        Err(_) => e == "Fungi service file front matter is missing closing ---"@,
        Ok(Some((yaml, _))) => yaml_refusal("Fungi service front matter"@, yaml, e),
        Ok(None) => if looks_like_service_yaml(content) {
            yaml_refusal("Fungi service YAML"@, content, e)
        } else {
            e == "service manifest must use fungi: service/v1"@
        },
    }
}

/// Reads the service document of a file, if it holds one.
pub fn parse_fungi_service_document(content: &str) -> (r: Result<Option<FungiServiceDocument>, String>)
    ensures
        match r {
            Ok(Some(d)) => document_of(content@) == Some(Some(d@)),
            Ok(None) => document_of(content@) == Some(None::<FungiServiceDocumentView>),
            Err(e) => document_of(content@) is None && file_error(content@, e@),
        },
{
    match split_front_matter(content)? {
        Some((yaml, _body)) => {
            let d = parse_fungi_service_yaml(yaml.as_str(), "Fungi service front matter")?;
            Ok(Some(d))
        },
        None => {
            if should_parse_as_fungi_service_yaml(content) {
                let d = parse_fungi_service_yaml(content, "Fungi service YAML")?;
                Ok(Some(d))
            } else {
                Ok(None)
            }
        },
    }
}

/// Reads the service document a file must hold.
pub fn parse_required_fungi_service_document(content: &str) -> (r: Result<FungiServiceDocument, String>)
    ensures
        match r {
            Ok(d) => required_document(content@) == Some(d@),
            Err(e) => required_document(content@) is None && file_error(content@, e@),
        },
{
    match parse_fungi_service_document(content)? {
        Some(d) => Ok(d),
        None => Err("service manifest must use fungi: service/v1".to_owned()),
    }
}

/// The service name a service file declares.
pub fn peek_service_manifest_name(content: &str) -> (r: Result<String, String>)
    ensures
        match r {
            Ok(n) => required_document(content@) matches Some(d) && doc_service_name(d) == Some(n@),
            Err(e) => match required_document(content@) {
                Some(d) => doc_service_name(d) is None && e@ == service_name_error(d),
                None => file_error(content@, e@),
            },
        },
{
    let d = parse_required_fungi_service_document(content)?;
    d.service_name()
}

/// The manifest a service file resolves to on a node.
pub open spec fn manifest_of_file(
    content: Seq<char>,
    base_dir: Seq<char>,
    roots: ManifestPathRoots,
    reserved: Set<u16>,
    offered: Seq<u16>,
) -> Option<crate::model::ServiceManifestView> {
    match required_document(content) {
        Some(d) => manifest_from_document(d, base_dir, roots, reserved, offered),
        None => None,
    }
}

/// Reads a service file and resolves it for this node, given the host ports
/// already in use there.
pub fn parse_service_manifest_yaml_with_policy(
    content: &str,
    base_dir: &str,
    path_roots: &ManifestPathRoots,
    policy: &ManifestResolutionPolicy,
    used_host_ports: &BTreeSet<u16>,
) -> (r: Result<ServiceManifest, String>)
    ensures
        match r {
            Ok(m) => manifest_of_file(content@, base_dir@, *path_roots, used_host_ports@, policy.ephemeral_host_ports@)
                == Some(m@),
            Err(e) => manifest_of_file(content@, base_dir@, *path_roots, used_host_ports@, policy.ephemeral_host_ports@)
                is None && match required_document(content@) {
                Some(d) => manifest_error(d, base_dir@, *path_roots, used_host_ports@, policy.ephemeral_host_ports@, e@),
                None => file_error(content@, e@),
            },
        },
{
    let document = parse_required_fungi_service_document(content)?;
    document.into_service_manifest_for_node_with_service_paths(base_dir, path_roots, policy, used_host_ports)
}

/// Reads a service file and resolves it for this node, with no host port
/// in use yet.
pub fn parse_service_manifest_yaml(
    content: &str,
    base_dir: &str,
    path_roots: &ManifestPathRoots,
    policy: &ManifestResolutionPolicy,
) -> (r: Result<ServiceManifest, String>)
    ensures
        match r {
            Ok(m) => manifest_of_file(content@, base_dir@, *path_roots, Set::empty(), policy.ephemeral_host_ports@)
                == Some(m@),
            Err(e) => manifest_of_file(content@, base_dir@, *path_roots, Set::empty(), policy.ephemeral_host_ports@)
                is None && match required_document(content@) {
                Some(d) => manifest_error(d, base_dir@, *path_roots, Set::empty(), policy.ephemeral_host_ports@, e@),
                None => file_error(content@, e@),
            },
        },
{
    let used: BTreeSet<u16> = BTreeSet::new();
    parse_service_manifest_yaml_with_policy(content, base_dir, path_roots, policy, &used)
}

/// Whenever a service file resolves to a manifest on some node, the name that
/// `peek_service_manifest_name` reads from the file is that manifest's name:
/// the file's required document exists and its service name is the
/// manifest's name.
pub proof fn law_peeked_name_is_manifest_name(
    content: Seq<char>,
    base_dir: Seq<char>,
    roots: ManifestPathRoots,
    reserved: Set<u16>,
    offered: Seq<u16>,
)
    ensures
        manifest_of_file(content, base_dir, roots, reserved, offered) matches Some(m)
            ==> (required_document(content) matches Some(d) && doc_service_name(d) == Some(m.name)),
{
}

} // verus!
