use pgx_install::artifact::{artifact_matches, find_library_file, profile_dir};
use pgx_install::errors::InstallError;

fn entries(names: &[&str]) -> Vec<String> {
    names.iter().map(|n| n.to_string()).collect()
}

#[test]
fn artifact_matching_picks_the_library() {
    let dir = entries(&["libfoo.so", "libfoo.d", "libbar.so"]);
    let found = find_library_file(&dir, "foo");
    assert!(matches!(found, Ok(0)));
}

#[test]
fn artifact_matching_fails_without_match() {
    let dir = entries(&["libbar.so"]);
    let found = find_library_file(&dir, "foo");
    assert!(matches!(found, Err(InstallError::ArtifactNotFound)));
}

#[test]
fn artifact_matching_skips_nonmatching_entries() {
    let dir = entries(&["libfoo.d", "notalib.so", "libfoo.dylib"]);
    let found = find_library_file(&dir, "foo");
    assert!(matches!(found, Ok(2)));
}

#[test]
fn artifact_predicate_accepts_platform_suffixes() {
    assert!(artifact_matches("libfoo.so", "foo"));
    assert!(artifact_matches("libfoo.dylib", "foo"));
    assert!(artifact_matches("libfoo.dll", "foo"));
}

#[test]
fn artifact_predicate_requires_prefix_name_and_suffix() {
    assert!(!artifact_matches("foo.so", "foo"));
    assert!(!artifact_matches("libfoo.d", "foo"));
    assert!(!artifact_matches("libbar.so", "foo"));
}

#[test]
fn artifact_predicate_tolerates_version_suffixes() {
    assert!(artifact_matches("libfoo_abi3.so", "foo"));
}

#[test]
fn profile_selects_subdirectory() {
    assert_eq!(profile_dir(true), "release");
    assert_eq!(profile_dir(false), "debug");
}
