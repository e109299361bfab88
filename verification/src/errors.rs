use vstd::prelude::*;

verus! {

/// The ways the install pipeline can fail. Every failure is fatal: the whole
/// pipeline aborts at the first error, with no rollback of artifacts that
/// were already copied.
#[derive(Debug)]
pub enum InstallError {
    /// The build-profile output directory is absent.
    MissingBuildOutput,
    /// The external build process exited with a non-zero status.
    BuildFailed,
    /// No shared-library artifact matching the extension was found.
    ArtifactNotFound,
    /// The external configuration command failed or returned unusable output.
    ConfigProbeFailed,
    /// A named SQL fragment could not be read; carries the fragment filename.
    FragmentReadError(String),
    /// Creating a destination directory failed; carries the directory path.
    DestinationCreateError(String),
    /// Copying a file failed; carries the source and destination paths.
    CopyError { src: String, dest: String },
    /// The extension descriptor does not declare a version.
    MissingVersionProperty,
}

impl InstallError {
    /// A human-readable message for the failure, as shown to the invoking
    /// user together with a non-zero process exit.
    pub fn describe(&self) -> (msg: String)
        ensures
            self is MissingBuildOutput ==> msg@ == "target directory does not exist"@,
            self is BuildFailed ==> msg@ == "failed to build extension"@,
            self is ArtifactNotFound ==> msg@ == "library file not found"@,
            self is ConfigProbeFailed ==> msg@ == "failed to run pg_config"@,
            self matches InstallError::FragmentReadError(f) ==> msg@ == "could not open "@ + f@,
            self matches InstallError::DestinationCreateError(d) ==> msg@ == "failed to create destination directory "@
                + d@,
            self matches InstallError::CopyError { src, dest } ==> msg@ == "failed copying `"@ + src@ + "` to `"@
                + dest@ + "`"@,
            self is MissingVersionProperty ==> msg@ == "cannot determine extension version number.  Is the `default_version` property declared in the control file?"@,
    {
        match self {
            InstallError::MissingBuildOutput => String::from_str("target directory does not exist"),
            InstallError::BuildFailed => String::from_str("failed to build extension"),
            InstallError::ArtifactNotFound => String::from_str("library file not found"),
            InstallError::ConfigProbeFailed => String::from_str("failed to run pg_config"),
            InstallError::FragmentReadError(f) => {
                let mut msg = String::from_str("could not open ");
                msg.append(f.as_str());
                msg
            },
            InstallError::DestinationCreateError(d) => {
                let mut msg = String::from_str("failed to create destination directory ");
                msg.append(d.as_str());
                msg
            },
            InstallError::CopyError { src, dest } => {
                let mut msg = String::from_str("failed copying `");
                msg.append(src.as_str());
                msg.append("` to `");
                msg.append(dest.as_str());
                msg.append("`");
                msg
            },
            InstallError::MissingVersionProperty => String::from_str(
                "cannot determine extension version number.  Is the `default_version` property declared in the control file?",
            ),
        }
    }
}

} // verus!
