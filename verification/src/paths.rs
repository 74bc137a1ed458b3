//! Paths are held as UTF-8 strings; the path grammar itself (components,
//! file names, extensions, joining) is `camino`'s, reached through the
//! trusted wrappers below.

use camino::{Utf8Component, Utf8Path};
use vstd::prelude::*;

verus! {

/// One component of a path, as `camino::Utf8Component` yields it.
#[derive(Debug)]
pub enum PathComponent {
    Prefix(String),
    RootDir,
    CurDir,
    ParentDir,
    Normal(String),
}

/// Mathematical view of a [`PathComponent`].
pub enum ComponentView {
    Prefix(Seq<char>),
    RootDir,
    CurDir,
    ParentDir,
    Normal(Seq<char>),
}

impl View for PathComponent {
    type V = ComponentView;

    open spec fn view(&self) -> ComponentView {
        match self {
            PathComponent::Prefix(s) => ComponentView::Prefix(s@),
            PathComponent::RootDir => ComponentView::RootDir,
            PathComponent::CurDir => ComponentView::CurDir,
            PathComponent::ParentDir => ComponentView::ParentDir,
            PathComponent::Normal(s) => ComponentView::Normal(s@),
        }
    }
}

/// The views of a sequence of components.
pub open spec fn component_views(v: Seq<PathComponent>) -> Seq<ComponentView> {
    v.map_values(|c: PathComponent| c@)
}

/// Name for the component sequence that `camino::Utf8Path::components` yields.
pub uninterp spec fn utf8_components(path: Seq<char>) -> Seq<ComponentView>;

/// `camino::Utf8Path::components`, each component converted to a
/// [`PathComponent`]. The contract names the result as a function of the path.
#[verifier::external_body]
pub(crate) fn components(path: &str) -> (r: Vec<PathComponent>)
    ensures
        component_views(r@) == utf8_components(path@),
{
    Utf8Path::new(path).components().map(|c| match c {
        Utf8Component::Prefix(p) => PathComponent::Prefix(p.as_str().to_owned()),
        Utf8Component::RootDir => PathComponent::RootDir,
        Utf8Component::CurDir => PathComponent::CurDir,
        Utf8Component::ParentDir => PathComponent::ParentDir,
        Utf8Component::Normal(s) => PathComponent::Normal(s.to_owned()),
    }).collect()
}

/// The text of a component (`Utf8Component::as_str`): the separator for the
/// root, `.` and `..` for the relative markers.
pub open spec fn component_text(c: ComponentView, root: Seq<char>) -> Seq<char> {
    match c {
        ComponentView::Prefix(s) => s,
        ComponentView::RootDir => root,
        ComponentView::CurDir => seq!['.'],
        ComponentView::ParentDir => seq!['.', '.'],
        ComponentView::Normal(s) => s,
    }
}

/// The text of a component, `root` standing for the root directory.
pub fn component_string(c: &PathComponent, root: char) -> (r: String)
    ensures
        r@ == component_text(c@, seq![root]),
{
    match c {
        PathComponent::Prefix(s) => s.clone(),
        PathComponent::RootDir => {
            let mut v: Vec<char> = Vec::new();
            v.push(root);
            assert(v@ =~= seq![root]);
            crate::text::string_from_chars(v.as_slice())
        },
        PathComponent::CurDir => {
            let mut v: Vec<char> = Vec::new();
            v.push('.');
            assert(v@ =~= seq!['.']);
            crate::text::string_from_chars(v.as_slice())
        },
        PathComponent::ParentDir => {
            let mut v: Vec<char> = Vec::new();
            v.push('.');
            v.push('.');
            assert(v@ =~= seq!['.', '.']);
            crate::text::string_from_chars(v.as_slice())
        },
        PathComponent::Normal(s) => s.clone(),
    }
}

/// Name for what `camino::Utf8Path::file_name` returns.
pub uninterp spec fn utf8_file_name(path: Seq<char>) -> Option<Seq<char>>;

/// `camino::Utf8Path::file_name`: the last normal component, if the path
/// does not end in `..`. The contract names the result.
#[verifier::external_body]
pub(crate) fn file_name(path: &str) -> (r: Option<String>)
    ensures
        r matches Some(s) ==> utf8_file_name(path@) == Some(s@),
        r is None ==> utf8_file_name(path@) is None,
{
    Utf8Path::new(path).file_name().map(|s| s.to_owned())
}

/// Name for what `camino::Utf8Path::extension` returns.
pub uninterp spec fn utf8_extension(path: Seq<char>) -> Option<Seq<char>>;

/// `camino::Utf8Path::extension`: the part of the file name after its
/// final `.`. The contract names the result.
#[verifier::external_body]
pub(crate) fn extension(path: &str) -> (r: Option<String>)
    ensures
        r matches Some(s) ==> utf8_extension(path@) == Some(s@),
        r is None ==> utf8_extension(path@) is None,
{
    Utf8Path::new(path).extension().map(|s| s.to_owned())
}

/// Name for what `camino::Utf8Path::is_absolute` returns.
pub uninterp spec fn utf8_is_absolute(path: Seq<char>) -> bool;

/// `camino::Utf8Path::is_absolute`. The contract names the result.
#[verifier::external_body]
pub(crate) fn is_absolute(path: &str) -> (r: bool)
    ensures
        r == utf8_is_absolute(path@),
{
    Utf8Path::new(path).is_absolute()
}

/// Name for what `camino::Utf8Path::strip_prefix` returns (`None` for `Err`).
pub uninterp spec fn utf8_strip_prefix(path: Seq<char>, base: Seq<char>) -> Option<Seq<char>>;

/// `camino::Utf8Path::strip_prefix`, with the error mapped to `None`.
/// The contract names the result.
#[verifier::external_body]
pub(crate) fn strip_prefix(path: &str, base: &str) -> (r: Option<String>)
    ensures
        r matches Some(s) ==> utf8_strip_prefix(path@, base@) == Some(s@),
        r is None ==> utf8_strip_prefix(path@, base@) is None,
{
    Utf8Path::new(path).strip_prefix(base).ok().map(|p| p.as_str().to_owned())
}

/// Name for what `camino::Utf8Path::parent` returns.
pub uninterp spec fn utf8_parent(path: Seq<char>) -> Option<Seq<char>>;

/// Whether a component sequence is empty or ends in a root or a prefix:
/// the paths that have no parent.
pub open spec fn ends_in_root_or_empty(c: Seq<ComponentView>) -> bool {
    c.len() == 0 || c.last() is RootDir || c.last() is Prefix
}

/// `camino::Utf8Path::parent` (std `Path::parent`): the path without its
/// final component, if it has one. The contract names the result, and
/// states what std documents: there is none exactly for the empty path and
/// a path that ends in a root or prefix, and the parent's components are
/// the path's without the last.
#[verifier::external_body]
pub(crate) fn parent(path: &str) -> (r: Option<String>)
    ensures
        r matches Some(s) ==> utf8_parent(path@) == Some(s@),
        r is None ==> utf8_parent(path@) is None,
        r is None <==> ends_in_root_or_empty(utf8_components(path@)),
        r matches Some(s) ==> utf8_components(s@) == utf8_components(path@).drop_last(),
{
    Utf8Path::new(path).parent().map(|p| p.as_str().to_owned())
}

/// Name for what `camino::Utf8Path::join` returns.
pub uninterp spec fn utf8_join(base: Seq<char>, path: Seq<char>) -> Seq<char>;

/// `camino::Utf8Path::join`. The contract names the result.
#[verifier::external_body]
pub(crate) fn join(base: &str, path: &str) -> (r: String)
    ensures
        r@ == utf8_join(base@, path@),
{
    Utf8Path::new(base).join(path).into_string()
}

/// std `path::MAIN_SEPARATOR`: `/` or `\` depending on the platform.
#[verifier::external_body]
pub(crate) fn main_separator() -> (r: char)
    ensures
        r == '/' || r == '\\',
{
    std::path::MAIN_SEPARATOR
}

} // verus!
