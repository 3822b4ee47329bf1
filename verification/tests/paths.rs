use bountyhub_runner::artifact::{ArtifactBuilder, ArtifactError};
use bountyhub_runner::paths::{normalize_path, PathError};

#[test]
fn test_normalize_abs_path_cannot_escape() {
    let result = normalize_path("../../../../../etc/hosts");
    assert!(result.is_err(), "Expected error, got {result:?}");
    assert_eq!(result, Err(PathError::Escapes));
}

#[test]
fn lexical_resolution() {
    assert_eq!(normalize_path("a/./b/../c"), Ok((None, vec!["a".to_string(), "c".to_string()])));
    assert_eq!(normalize_path("folder/"), Ok((None, vec!["folder".to_string()])));
    assert_eq!(normalize_path("/etc/hosts"), Err(PathError::FromRoot));
    assert_eq!(normalize_path("a/../.."), Err(PathError::Escapes));
    assert_eq!(normalize_path("."), Ok((None, vec![])));
}

#[test]
fn artifact_plan() {
    assert_eq!(ArtifactBuilder::new("/work", &vec![]), Err(ArtifactError::EmptyUploads));
    let b = ArtifactBuilder::new("/work", &vec!["file_0.txt".to_string(), "folder/".to_string(), "example/./file_3.txt".to_string()]).unwrap();
    assert_eq!(b.uploads(), &vec!["/work/file_0.txt".to_string(), "/work/folder".to_string(), "/work/example/file_3.txt".to_string()]);
    assert_eq!(b.root_dir(), "/work");
    assert_eq!(
        ArtifactBuilder::new("/work", &vec!["ok".to_string(), "../out".to_string()]),
        Err(ArtifactError::Path(PathError::Escapes))
    );
}
