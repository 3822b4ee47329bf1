//! Artifacts: the files a job uploads, gathered below its directory.
use vstd::prelude::*;
use crate::paths::{normalize_path, normalize_spec, path_components, PathError, Normalized};
use crate::worker::{join_path, joined};
use crate::text::push_char;

verus! {

broadcast use vstd::string::group_string_axioms;

/// The files to put in an artifact: paths below the root directory.
#[derive(Debug, Clone, PartialEq, Eq)]
pub struct ArtifactBuilder {
    uploads: Vec<String>,
    root_dir: String,
}

/// A built artifact: the archive file.
#[derive(Debug, Clone, PartialEq, Eq)]
pub struct Artifact {
    pub file: String,
}

/// Why an artifact cannot be built.
#[derive(Debug, Clone, Copy, PartialEq, Eq, Structural)]
pub enum ArtifactError {
    /// Nothing to upload.
    EmptyUploads,
    /// An upload path leaves the root directory.
    Path(PathError),
}

/// Names joined with `/`.
pub open spec fn names_text(names: Seq<Seq<char>>) -> Seq<char>
    decreases names.len(),
{
    if names.len() == 0 {
        Seq::empty()
    } else if names.len() == 1 {
        names[0]
    } else {
        names_text(names.drop_last()) + seq!['/'] + names.last()
    }
}

/// The relative text of a resolved path.
pub open spec fn normalized_text(n: Normalized) -> Seq<char> {
    match n.prefix {
        Some(p) => p + names_text(n.names),
        None => names_text(n.names),
    }
}

/// Where an upload lands: the root joined with the resolved path, or the
/// reason it is refused.
pub open spec fn upload_target(root: Seq<char>, upload: Seq<char>) -> Result<Seq<char>, PathError> {
    match normalize_spec(path_components(upload)) {
        Ok(n) => Ok(joined(root, normalized_text(n))),
        Err(e) => Err(e),
    }
}

fn names_string(names: &Vec<String>) -> (r: String)
    ensures
        r@ == names_text(names@.map_values(|x: String| x@)),
{
    let ghost v = names@.map_values(|x: String| x@);
    let mut out = String::new();
    let mut i: usize = 0;
    while i < names.len()
        invariant
            v == names@.map_values(|x: String| x@),
            i <= names@.len(),
            out@ == names_text(v.take(i as int)),
        decreases names@.len() - i,
    {
        assert(v.take(i + 1).drop_last() =~= v.take(i as int));
        if i > 0 {
            push_char(&mut out, '/');
        } else {
            assert(v.take(0) =~= Seq::<Seq<char>>::empty());
        }
        out = out.concat(names[i].as_str());
        i = i + 1;
    }
    assert(v.take(names@.len() as int) =~= v);
    out
}

impl ArtifactBuilder {
    pub closed spec fn uploads_view(&self) -> Seq<Seq<char>> {
        self.uploads@.map_values(|x: String| x@)
    }

    pub closed spec fn root_view(&self) -> Seq<char> {
        self.root_dir@
    }

    /// Plans an artifact of the uploads below `root_dir` (already resolved by
    /// the file system). Nothing to upload is an error, and so is the first
    /// upload path that leaves the root.
    pub fn new(root_dir: &str, uploads: &Vec<String>) -> (r: Result<ArtifactBuilder, ArtifactError>)
        ensures
            uploads@.len() == 0 ==> r == Err::<ArtifactBuilder, ArtifactError>(ArtifactError::EmptyUploads),
            uploads@.len() > 0 ==> match r {
                Ok(b) => b.root_view() == root_dir@ && b.uploads_view().len() == uploads@.len()
                    && forall|i: int| 0 <= i < uploads@.len() ==> upload_target(root_dir@, #[trigger] uploads@[i]@) == Ok::<Seq<char>, PathError>(b.uploads_view()[i]),
                Err(ArtifactError::Path(e)) => exists|k: int| 0 <= k < uploads@.len()
                    && upload_target(root_dir@, #[trigger] uploads@[k]@) == Err::<Seq<char>, PathError>(e)
                    && forall|j: int| 0 <= j < k ==> upload_target(root_dir@, #[trigger] uploads@[j]@) is Ok,
                Err(ArtifactError::EmptyUploads) => false,
            },
    {
        if uploads.len() == 0 {
            return Err(ArtifactError::EmptyUploads);
        }
        let mut out: Vec<String> = Vec::new();
        let mut i: usize = 0;
        while i < uploads.len()
            invariant
                i <= uploads@.len(),
                out@.len() == i,
                forall|j: int| 0 <= j < i ==> upload_target(root_dir@, #[trigger] uploads@[j]@) == Ok::<Seq<char>, PathError>(out@[j]@),
            decreases uploads@.len() - i,
        {
            match normalize_path(uploads[i].as_str()) {
                Ok((prefix, names)) => {
                    let rel = match prefix {
                        Some(p) => p.concat(names_string(&names).as_str()),
                        None => names_string(&names),
                    };
                    let target = join_path(root_dir, rel.as_str());
                    out.push(target);
                },
                Err(e) => {
                    assert forall|j: int| 0 <= j < i implies upload_target(root_dir@, #[trigger] uploads@[j]@) is Ok by {}
                    return Err(ArtifactError::Path(e));
                },
            }
            i = i + 1;
        }
        let b = ArtifactBuilder { uploads: out, root_dir: String::from_str(root_dir) };
        assert forall|i: int| 0 <= i < uploads@.len() implies upload_target(root_dir@, #[trigger] uploads@[i]@) == Ok::<Seq<char>, PathError>(b.uploads_view()[i]) by {}
        Ok(b)
    }

    /// The upload targets, in order.
    pub fn uploads(&self) -> (r: &Vec<String>)
        ensures
            r@.map_values(|x: String| x@) == self.uploads_view(),
    {
        &self.uploads
    }

    pub fn root_dir(&self) -> (r: &String)
        ensures
            r@ == self.root_view(),
    {
        &self.root_dir
    }
}

} // verus!
