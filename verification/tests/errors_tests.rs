use pgx_install::errors::InstallError;

#[test]
fn plain_failures_describe_themselves() {
    assert_eq!(
        InstallError::MissingBuildOutput.describe(),
        "target directory does not exist"
    );
    assert_eq!(InstallError::BuildFailed.describe(), "failed to build extension");
    assert_eq!(InstallError::ArtifactNotFound.describe(), "library file not found");
    assert_eq!(InstallError::ConfigProbeFailed.describe(), "failed to run pg_config");
    assert_eq!(
        InstallError::MissingVersionProperty.describe(),
        "cannot determine extension version number.  Is the `default_version` property declared in the control file?"
    );
}

#[test]
fn failures_with_paths_name_them() {
    assert_eq!(
        InstallError::FragmentReadError("sql/x.sql".to_string()).describe(),
        "could not open sql/x.sql"
    );
    assert_eq!(
        InstallError::DestinationCreateError("/out/dir".to_string()).describe(),
        "failed to create destination directory /out/dir"
    );
    assert_eq!(
        InstallError::CopyError { src: "a".to_string(), dest: "b".to_string() }.describe(),
        "failed copying `a` to `b`"
    );
}
