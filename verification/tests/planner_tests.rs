use pgx_install::assemble::assemble;
use pgx_install::errors::InstallError;
use pgx_install::planner::{
    extension_dir, plan_install, version_from_property, InstallStep,
};

#[test]
fn version_comes_from_the_property() {
    let v = version_from_property(&Some("1.2".to_string()));
    assert_eq!(v.unwrap(), "1.2");
}

#[test]
fn missing_version_property_is_an_error() {
    let v = version_from_property(&None);
    assert!(matches!(v, Err(InstallError::MissingVersionProperty)));
}

#[test]
fn extension_dir_under_share_dir() {
    assert_eq!(extension_dir("/usr/share/postgresql"), "/usr/share/postgresql/extension");
}

#[test]
fn plan_rebases_under_staging_root() {
    let plan = plan_install(
        "/tmp/stage",
        "/usr/lib/postgresql",
        "/usr/share/postgresql/extension",
        "myext.control",
        "myext",
        "1.2",
    );
    assert_eq!(plan.extension_dir_dest, "/tmp/stage/usr/share/postgresql/extension");
    assert_eq!(
        plan.control_file_dest,
        "/tmp/stage/usr/share/postgresql/extension/myext.control"
    );
    assert_eq!(plan.library_dest, "/tmp/stage/usr/lib/postgresql/myext.so");
    assert_eq!(
        plan.script_dest,
        "/tmp/stage/usr/share/postgresql/extension/myext--1.2.sql"
    );
}

#[test]
fn plan_for_real_install_keeps_absolute_paths() {
    let plan = plan_install(
        "/",
        "/usr/lib/postgresql",
        "/usr/share/postgresql/extension",
        "myext.control",
        "myext",
        "1.2",
    );
    assert_eq!(plan.library_dest, "/usr/lib/postgresql/myext.so");
    assert_eq!(
        plan.script_dest,
        "/usr/share/postgresql/extension/myext--1.2.sql"
    );
}

#[test]
fn pipeline_steps_run_in_order() {
    let mut step = InstallStep::Start;
    let mut seen: usize = 0;
    while let Some(next) = step.next() {
        step = next;
        seen += 1;
        assert!(seen <= 9);
    }
    assert!(matches!(step, InstallStep::Done));
    assert_eq!(seen, 9);
}

#[test]
fn end_to_end_versioned_script() {
    // A control file declaring `default_version = '1.2'` for extension
    // `myext`: the property reader hands the version over as a plain value.
    let version = version_from_property(&Some("1.2".to_string())).unwrap();
    let plan = plan_install(
        "/stage",
        "/usr/lib/postgresql",
        "/usr/share/postgresql/extension",
        "myext.control",
        "myext",
        &version,
    );
    assert_eq!(
        plan.script_dest,
        "/stage/usr/share/postgresql/extension/myext--1.2.sql"
    );
    assert_eq!(
        plan.control_file_dest,
        "/stage/usr/share/postgresql/extension/myext.control"
    );
    assert_eq!(plan.library_dest, "/stage/usr/lib/postgresql/myext.so");
    let script = assemble(
        "sql",
        &vec!["init.sql".to_string()],
        &vec![Some("CREATE TABLE t();".to_string())],
    )
    .unwrap();
    assert_eq!(script, "--\n-- sql/init.sql\n--\nCREATE TABLE t();\n\n\n");
}
