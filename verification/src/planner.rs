use vstd::prelude::*;

use crate::assemble::versioned_script;
use crate::assemble::versioned_script_name;
use crate::errors::InstallError;
use crate::paths::{join_path, joined, make_relative, relocated};

verus! {

/// The declared extension version: the value of the descriptor's
/// `default_version` property, or `MissingVersionProperty` where the
/// descriptor declares none.
pub fn version_from_property(default_version: &Option<String>) -> (r: Result<
    String,
    InstallError,
>)
    ensures
        r is Ok <==> default_version is Some,
        r matches Ok(v) ==> v@ == default_version.unwrap()@,
        r matches Err(e) ==> e is MissingVersionProperty,
{
    match default_version {
        Option::Some(v) => Ok(v.clone()),
        Option::None => Err(InstallError::MissingVersionProperty),
    }
}

/// The extension share directory: `extension` appended under the
/// configuration-reported share directory.
pub fn extension_dir(sharedir: &str) -> (r: String)
    ensures
        r@ == joined(sharedir@, "extension"@),
{
    join_path(sharedir, "extension")
}

/// Where the whole install layout for one extension goes, each destination
/// computed from a configuration-reported directory, relocated to be
/// relative, and rebased under the staging root.
pub struct InstallPlan {
    /// The directory that receives the control file, the generated
    /// versioned script and the staged upgrade scripts.
    pub extension_dir_dest: String,
    /// Destination of the control file, copied verbatim.
    pub control_file_dest: String,
    /// Destination of the shared library. Its name always carries the `.so`
    /// suffix, whatever platform suffix the located artifact had: a
    /// deliberate normalization for the target platform's loader.
    pub library_dest: String,
    /// Destination of the generated versioned SQL script.
    pub script_dest: String,
}

/// The directory destined for control file, script and upgrade scripts.
pub open spec fn extension_dest_of(base: Seq<char>, extensiondir: Seq<char>) -> Seq<char> {
    joined(base, relocated(extensiondir))
}

/// The shared library's destination.
pub open spec fn library_dest_of(base: Seq<char>, pkglibdir: Seq<char>, ext: Seq<char>) -> Seq<
    char,
> {
    joined(joined(base, relocated(pkglibdir)), ext + ".so"@)
}

/// Computes every artifact destination of one install: the
/// configuration-reported directories are made relative and rebased under
/// `base_directory`, the control file keeps its name, the library is named
/// `{extname}.so`, and the versioned script is named
/// `{extname}--{version}.sql`.
pub fn plan_install(
    base_directory: &str,
    pkglibdir: &str,
    extensiondir: &str,
    control_file: &str,
    extname: &str,
    version: &str,
) -> (p: InstallPlan)
    ensures
        p.extension_dir_dest@ == extension_dest_of(base_directory@, extensiondir@),
        p.control_file_dest@ == joined(
            extension_dest_of(base_directory@, extensiondir@),
            control_file@,
        ),
        p.library_dest@ == library_dest_of(base_directory@, pkglibdir@, extname@),
        p.script_dest@ == joined(
            extension_dest_of(base_directory@, extensiondir@),
            versioned_script(extname@, version@),
        ),
{
    let extdir_rel = make_relative(extensiondir);
    let pkgdir_rel = make_relative(pkglibdir);
    let extension_dir_dest = join_path(base_directory, extdir_rel.as_str());
    let control_file_dest = join_path(extension_dir_dest.as_str(), control_file);
    let mut libname = String::from_str(extname);
    libname.append(".so");
    let libdir = join_path(base_directory, pkgdir_rel.as_str());
    let library_dest = join_path(libdir.as_str(), libname.as_str());
    let script_name = versioned_script_name(extname, version);
    let script_dest = join_path(extension_dir_dest.as_str(), script_name.as_str());
    InstallPlan { extension_dir_dest, control_file_dest, library_dest, script_dest }
}

/// The steps of the install pipeline, in the order they run. The pipeline
/// is linear: every step is unconditional on success, and the first failure
/// at any step aborts the whole operation, with no rollback of artifacts
/// already copied.
pub enum InstallStep {
    Start,
    BuildInvoked,
    ConfigQueried,
    ArtifactLocated,
    ControlFileCopied,
    LibraryCopied,
    SchemaGenerated,
    SqlAssembled,
    UpgradesStaged,
    Done,
}

impl InstallStep {
    /// The single successor of a step; `Done` has none.
    pub fn next(&self) -> (r: Option<InstallStep>)
        ensures
            self is Start ==> (r matches Some(s) && s is BuildInvoked),
            self is BuildInvoked ==> (r matches Some(s) && s is ConfigQueried),
            self is ConfigQueried ==> (r matches Some(s) && s is ArtifactLocated),
            self is ArtifactLocated ==> (r matches Some(s) && s is ControlFileCopied),
            self is ControlFileCopied ==> (r matches Some(s) && s is LibraryCopied),
            self is LibraryCopied ==> (r matches Some(s) && s is SchemaGenerated),
            self is SchemaGenerated ==> (r matches Some(s) && s is SqlAssembled),
            self is SqlAssembled ==> (r matches Some(s) && s is UpgradesStaged),
            self is UpgradesStaged ==> (r matches Some(s) && s is Done),
            self is Done ==> r is None,
    {
        match self {
            InstallStep::Start => Some(InstallStep::BuildInvoked),
            InstallStep::BuildInvoked => Some(InstallStep::ConfigQueried),
            InstallStep::ConfigQueried => Some(InstallStep::ArtifactLocated),
            InstallStep::ArtifactLocated => Some(InstallStep::ControlFileCopied),
            InstallStep::ControlFileCopied => Some(InstallStep::LibraryCopied),
            InstallStep::LibraryCopied => Some(InstallStep::SchemaGenerated),
            InstallStep::SchemaGenerated => Some(InstallStep::SqlAssembled),
            InstallStep::SqlAssembled => Some(InstallStep::UpgradesStaged),
            InstallStep::UpgradesStaged => Some(InstallStep::Done),
            InstallStep::Done => None,
        }
    }
}

} // verus!
