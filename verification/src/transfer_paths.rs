//! Paths of the file-transfer view, where the first component names the
//! connected device and the rest is a path on it.

use vstd::prelude::*;

verus! {

/// A component of a Unix path.
#[derive(Debug, Clone)]
pub enum TransferPathComponent {
    Root,
    Current,
    Parent,
    Normal(String),
}

pub enum TransferPathComponentView {
    Root,
    Current,
    Parent,
    Normal(Seq<char>),
}

impl View for TransferPathComponent {
    type V = TransferPathComponentView;

    open spec fn view(&self) -> TransferPathComponentView {
        match self {
            TransferPathComponent::Root => TransferPathComponentView::Root,
            TransferPathComponent::Current => TransferPathComponentView::Current,
            TransferPathComponent::Parent => TransferPathComponentView::Parent,
            TransferPathComponent::Normal(s) => TransferPathComponentView::Normal(s@),
        }
    }
}

/// A component list by the views of its components.
pub open spec fn component_views(c: Seq<TransferPathComponent>) -> Seq<TransferPathComponentView> {
    c.map_values(|x: TransferPathComponent| x@)
}

/// The components `typed_path` reads a Unix path into.
pub uninterp spec fn unix_components(path: Seq<char>) -> Seq<TransferPathComponentView>;

/// The path `typed_path` normalizes a Unix path to.
pub uninterp spec fn unix_normalized(path: Seq<char>) -> Seq<char>;

/// `Utf8UnixPath::components`: the components of a Unix path, as
/// `typed_path` splits it. The result is a function of the path.
#[verifier::external_body]
fn unix_path_components(path: &str) -> (r: Vec<TransferPathComponent>)
    ensures
        component_views(r@) == unix_components(path@),
{
    typed_path::Utf8UnixPath::new(path).components().map(|c| match c {
        typed_path::Utf8UnixComponent::RootDir => TransferPathComponent::Root,
        typed_path::Utf8UnixComponent::CurDir => TransferPathComponent::Current,
        typed_path::Utf8UnixComponent::ParentDir => TransferPathComponent::Parent,
        typed_path::Utf8UnixComponent::Normal(s) => TransferPathComponent::Normal(s.to_string()),
    }).collect()
}

/// `Utf8UnixPath::normalize`: the path with `.` and `..` resolved, as
/// `typed_path` resolves them. The result is a function of the path.
#[verifier::external_body]
fn normalized_unix_path(path: &str) -> (r: String)
    ensures
        r@ == unix_normalized(path@),
{
    typed_path::Utf8UnixPath::new(path).normalize().into_string()
}

/// The components of a file-transfer path, once normalized.
pub fn transfer_path_components(path: &str) -> (r: Vec<TransferPathComponent>)
    ensures
        component_views(r@) == unix_components(unix_normalized(path@)),
{
    let normalized = normalized_unix_path(path);
    unix_path_components(normalized.as_str())
}

/// The text of a component, as `typed_path` writes Unix components.
pub open spec fn component_text(c: TransferPathComponentView) -> Seq<char> {
    match c {
        TransferPathComponentView::Root => "/"@,
        TransferPathComponentView::Current => "."@,
        TransferPathComponentView::Parent => ".."@,
        TransferPathComponentView::Normal(s) => s,
    }
}

/// Whether components name the root of the file-transfer view: none, or
/// one that is the root, the current directory or empty.
pub open spec fn names_root(c: Seq<TransferPathComponentView>) -> bool {
    ||| c.len() == 0
    ||| c.len() == 1 && (c[0] is Root || c[0] is Current || component_text(c[0]).len() == 0)
}

/// Whether components name the root of the file-transfer view; see
/// `names_root`.
pub fn is_root_path(components: &Vec<TransferPathComponent>) -> (r: bool)
    ensures
        r == names_root(component_views(components@)),
{
    if components.len() == 0 {
        return true;
    }
    if components.len() > 1 {
        return false;
    }
    proof {
        reveal_strlit("/");
        reveal_strlit(".");
    }
    match &components[0] {
        TransferPathComponent::Root => true,
        TransferPathComponent::Current => true,
        TransferPathComponent::Parent => {
            proof {
                reveal_strlit("..");
            }
            false
        },
        TransferPathComponent::Normal(s) => s.as_str().is_empty(),
    }
}

/// The device a file-transfer path names and where the rest of the path
/// starts: its first component, or its second when the first is the root
/// or the current directory; an error when there is none, or when the
/// first component is empty.
pub open spec fn client_of_components(c: Seq<TransferPathComponentView>) -> Result<(Seq<char>, int), Seq<char>> {
    if c.len() == 0 {
        Err("No client specified in path"@)
    } else if component_text(c[0]).len() == 0 {
        Err("Empty path"@)
    } else if c[0] is Root || c[0] is Current {
        if c.len() < 2 {
            Err("No client specified in path"@)
        } else {
            Ok((component_text(c[1]), 2))
        }
    } else {
        Ok((component_text(c[0]), 1))
    }
}

fn text_of(c: &TransferPathComponent) -> (r: String)
    ensures
        r@ == component_text(c@),
{
    match c {
        TransferPathComponent::Root => "/".to_owned(),
        TransferPathComponent::Current => ".".to_owned(),
        TransferPathComponent::Parent => "..".to_owned(),
        TransferPathComponent::Normal(s) => s.clone(),
    }
}

/// The device name a file-transfer path starts with, and the position of
/// the first component after it; see `client_of_components`.
pub fn client_name_of(components: &Vec<TransferPathComponent>) -> (r: Result<(String, usize), String>)
    ensures
        match r {
            Ok((name, rest)) => client_of_components(component_views(components@)) == Ok::<(Seq<char>, int), Seq<char>>(
                (name@, rest as int),
            ),
            Err(e) => client_of_components(component_views(components@)) == Err::<(Seq<char>, int), Seq<char>>(e@),
        },
{
    proof {
        reveal_strlit("/");
        reveal_strlit(".");
        reveal_strlit("..");
    }
    if components.len() == 0 {
        return Err("No client specified in path".to_owned());
    }
    let first = text_of(&components[0]);
    if first.as_str().is_empty() {
        return Err("Empty path".to_owned());
    }
    match &components[0] {
        TransferPathComponent::Root | TransferPathComponent::Current => {
            if components.len() < 2 {
                return Err("No client specified in path".to_owned());
            }
            Ok((text_of(&components[1]), 2))
        },
        _ => Ok((first, 1)),
    }
}

} // verus!
