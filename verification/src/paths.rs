//! Upload paths: a path asked for by a job must stay inside the job's
//! directory. This is the lexical part of that rule; resolving links is left
//! to the file system.
use vstd::prelude::*;

verus! {

/// One component of a path, as `std::path::Path::components` yields it.
#[derive(Debug, Clone, PartialEq, Eq)]
pub enum PathComponent {
    Prefix(String),
    RootDir,
    CurDir,
    ParentDir,
    Normal(String),
}

/// Abstract path component.
pub enum ComponentView {
    Prefix(Seq<char>),
    RootDir,
    CurDir,
    ParentDir,
    Normal(Seq<char>),
}

impl View for PathComponent {
    type V = ComponentView;

    open spec fn view(&self) -> ComponentView {
        match self {
            PathComponent::Prefix(p) => ComponentView::Prefix(p@),
            PathComponent::RootDir => ComponentView::RootDir,
            PathComponent::CurDir => ComponentView::CurDir,
            PathComponent::ParentDir => ComponentView::ParentDir,
            PathComponent::Normal(n) => ComponentView::Normal(n@),
        }
    }
}

/// The components `Path::components` yields for a path text.
pub uninterp spec fn path_components(s: Seq<char>) -> Seq<ComponentView>;

/// `std::path::Path::components`, each component converted to text. The
/// components are named `path_components`; the standard library yields a
/// prefix only as the first component.
#[verifier::external_body]
fn components_of(s: &str) -> (r: Vec<PathComponent>)
    ensures
        r@.map_values(|c: PathComponent| c@) == path_components(s@),
        forall|i: int| 0 < i < r@.len() ==> !(#[trigger] r@[i] is Prefix),
{
    let mut out = Vec::new();
    for c in std::path::Path::new(s).components() {
        out.push(match c {
            std::path::Component::Prefix(p) => PathComponent::Prefix(p.as_os_str().to_string_lossy().into_owned()),
            std::path::Component::RootDir => PathComponent::RootDir,
            std::path::Component::CurDir => PathComponent::CurDir,
            std::path::Component::ParentDir => PathComponent::ParentDir,
            std::path::Component::Normal(n) => PathComponent::Normal(n.to_string_lossy().into_owned()),
        });
    }
    out
}

/// Why an upload path was refused.
#[derive(Debug, Clone, Copy, PartialEq, Eq, Structural)]
pub enum PathError {
    /// The path starts at the file system root.
    FromRoot,
    /// The path climbs out of the directory it is relative to.
    Escapes,
}

/// A path relative to the job directory, resolved lexically: an optional
/// prefix and the names below the directory.
pub struct Normalized {
    pub prefix: Option<Seq<char>>,
    pub names: Seq<Seq<char>>,
}

/// Resolves the first `n` components: `.` is dropped, `..` removes the last
/// name (and is an error where there is none), a root is an error.
pub open spec fn normalize_prefix(cs: Seq<ComponentView>, n: int) -> Result<Normalized, PathError>
    decreases n,
{
    if n <= 0 {
        Ok(Normalized { prefix: None, names: Seq::empty() })
    } else {
        match normalize_prefix(cs, n - 1) {
            Err(e) => Err(e),
            Ok(acc) => match cs[n - 1] {
                ComponentView::Prefix(p) => Ok(Normalized { prefix: Some(p), names: acc.names }),
                ComponentView::RootDir => Err(PathError::FromRoot),
                ComponentView::CurDir => Ok(acc),
                ComponentView::ParentDir => if acc.names.len() == 0 {
                    Err(PathError::Escapes)
                } else {
                    Ok(Normalized { prefix: acc.prefix, names: acc.names.drop_last() })
                },
                ComponentView::Normal(c) => Ok(Normalized { prefix: acc.prefix, names: acc.names.push(c) }),
            },
        }
    }
}

/// Lexical resolution of a whole list of components.
pub open spec fn normalize_spec(cs: Seq<ComponentView>) -> Result<Normalized, PathError> {
    normalize_prefix(cs, cs.len() as int)
}

/// Resolves a list of path components lexically.
pub fn normalize(cs: &Vec<PathComponent>) -> (r: Result<(Option<String>, Vec<String>), PathError>)
    requires
        forall|i: int| 0 < i < cs@.len() ==> !(#[trigger] cs@[i] is Prefix),
    ensures
        match r {
            Ok((p, names)) => normalize_spec(cs@.map_values(|c: PathComponent| c@)) == Ok::<Normalized, PathError>(
                Normalized {
                    prefix: match p {
                        Some(x) => Some(x@),
                        None => None,
                    },
                    names: names@.map_values(|x: String| x@),
                },
            ),
            Err(e) => normalize_spec(cs@.map_values(|c: PathComponent| c@)) == Err::<Normalized, PathError>(e),
        },
{
    let ghost v = cs@.map_values(|c: PathComponent| c@);
    let mut prefix: Option<String> = None;
    let mut names: Vec<String> = Vec::new();
    let mut i: usize = 0;
    assert(names@.map_values(|x: String| x@) =~= Seq::<Seq<char>>::empty());
    while i < cs.len()
        invariant
            v == cs@.map_values(|c: PathComponent| c@),
            i <= cs@.len(),
            normalize_prefix(v, i as int) == Ok::<Normalized, PathError>(
                Normalized {
                    prefix: match prefix {
                        Some(x) => Some(x@),
                        None => None,
                    },
                    names: names@.map_values(|x: String| x@),
                },
            ),
        decreases cs@.len() - i,
    {
        let ghost before = names@;
        match &cs[i] {
            PathComponent::Prefix(p) => {
                prefix = Some(p.clone());
            },
            PathComponent::RootDir => {
                proof {
                    lemma_error_sticks(v, i + 1, v.len() as int);
                }
                return Err(PathError::FromRoot);
            },
            PathComponent::CurDir => {},
            PathComponent::ParentDir => {
                if names.len() == 0 {
                    proof {
                        lemma_error_sticks(v, i + 1, v.len() as int);
                    }
                    return Err(PathError::Escapes);
                }
                names.pop();
                assert(names@.map_values(|x: String| x@) =~= before.map_values(|x: String| x@).drop_last());
            },
            PathComponent::Normal(c) => {
                let c2 = c.clone();
                names.push(c2);
                assert(names@.map_values(|x: String| x@) =~= before.map_values(|x: String| x@).push(c2@));
            },
        }
        i = i + 1;
    }
    Ok((prefix, names))
}

/// Resolves a path text relative to the job directory lexically.
pub fn normalize_path(s: &str) -> (r: Result<(Option<String>, Vec<String>), PathError>)
    ensures
        match r {
            Ok((p, names)) => normalize_spec(path_components(s@)) == Ok::<Normalized, PathError>(
                Normalized {
                    prefix: match p {
                        Some(x) => Some(x@),
                        None => None,
                    },
                    names: names@.map_values(|x: String| x@),
                },
            ),
            Err(e) => normalize_spec(path_components(s@)) == Err::<Normalized, PathError>(e),
        },
{
    let cs = components_of(s);
    normalize(&cs)
}

/// Law: a path made only of `..` components beyond the directory is always
/// refused; a `..` can never take the result above the directory.
pub proof fn law_parent_first_escapes(cs: Seq<ComponentView>)
    requires
        cs.len() > 0,
        cs[0] is ParentDir,
    ensures
        normalize_spec(cs) == Err::<Normalized, PathError>(PathError::Escapes),
{
    assert(normalize_prefix(cs, 0) == Ok::<Normalized, PathError>(Normalized { prefix: None, names: Seq::empty() }));
    assert(normalize_prefix(cs, 1) == Err::<Normalized, PathError>(PathError::Escapes));
    lemma_error_sticks(cs, 1, cs.len() as int);
}

proof fn lemma_error_sticks(cs: Seq<ComponentView>, k: int, n: int)
    requires
        0 < k <= n,
        normalize_prefix(cs, k) is Err,
    ensures
        normalize_prefix(cs, n) == normalize_prefix(cs, k),
    decreases n - k,
{
    if n > k {
        lemma_error_sticks(cs, k, n - 1);
    }
}

proof fn lemma_parent_cancels_name(x: Seq<char>, cs: Seq<ComponentView>, k: int)
    requires
        0 <= k <= cs.len(),
    ensures
        normalize_prefix(seq![ComponentView::Normal(x), ComponentView::ParentDir] + cs, 2 + k) == normalize_prefix(cs, k),
    decreases k,
{
    let all = seq![ComponentView::Normal(x), ComponentView::ParentDir] + cs;
    if k == 0 {
        assert(all[0] == ComponentView::Normal(x));
        assert(all[1] == ComponentView::ParentDir);
        assert(normalize_prefix(all, 0) == Ok::<Normalized, PathError>(Normalized { prefix: None, names: Seq::empty() }));
        assert(normalize_prefix(all, 1) == Ok::<Normalized, PathError>(Normalized { prefix: None, names: Seq::<Seq<char>>::empty().push(x) }));
        assert(Seq::<Seq<char>>::empty().push(x).drop_last() =~= Seq::<Seq<char>>::empty());
        assert(seq![x].drop_last() =~= Seq::<Seq<char>>::empty());
    } else {
        lemma_parent_cancels_name(x, cs, k - 1);
        assert(all[2 + k - 1] == cs[k - 1]);
    }
}

/// Law: `..` right after a name takes that name back: resolving a name,
/// `..`, then any components gives what the components alone give.
pub proof fn law_parent_cancels_name(x: Seq<char>, cs: Seq<ComponentView>)
    ensures
        normalize_spec(seq![ComponentView::Normal(x), ComponentView::ParentDir] + cs) == normalize_spec(cs),
{
    lemma_parent_cancels_name(x, cs, cs.len() as int);
}

} // verus!
