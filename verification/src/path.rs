//! Request paths and the visibility predicate.
//!
//! A path is an ordered sequence of components, already split and normalized
//! by whoever constructed the request. A path is *hidden* when any named
//! component starts with `.`; root, self and parent markers never hide a path.

use vstd::prelude::*;

verus! {

/// One component of a request path, after separator normalization.
pub enum PathComponent {
    /// The leading root marker (`/`).
    RootDir,
    /// The self marker (`.`).
    CurDir,
    /// The parent marker (`..`).
    ParentDir,
    /// A named file or directory component.
    Normal(String),
}

/// A request path, relative to the exposed tree root: an ordered sequence of
/// components, read-only to this layer.
pub struct FsPath {
    pub components: Vec<PathComponent>,
}

impl View for FsPath {
    type V = Seq<PathComponent>;

    open spec fn view(&self) -> Seq<PathComponent> {
        self.components@
    }
}

/// A named component hides the whole path exactly when its name starts with
/// `.`; marker components never do.
pub open spec fn component_hidden(c: PathComponent) -> bool {
    match c {
        PathComponent::Normal(name) => name@.len() > 0 && name@[0] == '.',
        _ => false,
    }
}

/// A path is visible when none of its components is hidden.
pub open spec fn path_visible(p: Seq<PathComponent>) -> bool {
    forall|i: int| 0 <= i < p.len() ==> !component_hidden(p[i])
}

/// Does `name` begin with a `.` character?
fn starts_with_dot(name: &String) -> (r: bool)
    ensures
        r == (name@.len() > 0 && name@[0] == '.'),
{
    let s = name.as_str();
    if s.unicode_len() == 0 {
        false
    } else {
        s.get_char(0) == '.'
    }
}

/// Law: a path whose named components all avoid a leading `.` is visible;
/// marker components never count against it.
pub proof fn lemma_plain_path_visible(p: Seq<PathComponent>)
    requires
        forall|i: int|
            0 <= i < p.len() ==> (#[trigger] p[i] matches PathComponent::Normal(name) ==> (
            name@.len() == 0 || name@[0] != '.')),
    ensures
        path_visible(p),
{
    assert forall|i: int| 0 <= i < p.len() implies !component_hidden(p[i]) by {
        assert(p[i] matches PathComponent::Normal(name) ==> (name@.len() == 0 || name@[0]
            != '.'));
    }
}

/// Law: one named component whose name starts with `.` hides the whole path,
/// wherever in the path it stands.
pub proof fn lemma_dot_component_hides(p: Seq<PathComponent>, i: int, name: String)
    requires
        0 <= i < p.len(),
        p[i] == PathComponent::Normal(name),
        name@.len() > 0,
        name@[0] == '.',
    ensures
        !path_visible(p),
{
    assert(component_hidden(p[i]));
}

/// Decides whether `path` is visible: true exactly when no named component
/// starts with `.`.
pub fn is_path_visible(path: &FsPath) -> (r: bool)
    ensures
        r == path_visible(path@),
{
    let n = path.components.len();
    let mut i: usize = 0;
    while i < n
        invariant
            n == path@.len(),
            0 <= i <= n,
            forall|j: int| 0 <= j < i ==> !component_hidden(path@[j]),
        decreases n - i,
    {
        match &path.components[i] {
            PathComponent::Normal(name) => {
                if starts_with_dot(name) {
                    assert(component_hidden(path@[i as int]));
                    return false;
                }
            },
            _ => {},
        }
        i = i + 1;
    }
    true
}

} // verus!
