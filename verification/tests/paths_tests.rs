use pgx_install::paths::{format_display_path, join_path, make_relative};

#[test]
fn relative_path_passthrough() {
    assert_eq!(make_relative("foo/bar"), "foo/bar");
}

#[test]
fn root_stripping() {
    assert_eq!(make_relative("/usr/lib/pg/ext"), "usr/lib/pg/ext");
}

#[test]
fn relocate_idempotent_examples() {
    for p in ["", "/", "foo/bar", "/usr/lib/pg/ext", "//twice", "a", "/a"] {
        let once = make_relative(p);
        let twice = make_relative(&once);
        assert_eq!(twice, once);
    }
}

#[test]
fn relocate_empty_and_root() {
    assert_eq!(make_relative(""), "");
    assert_eq!(make_relative("/"), "");
}

#[test]
fn join_inserts_separator() {
    assert_eq!(join_path("base", "leaf"), "base/leaf");
}

#[test]
fn join_keeps_existing_separator() {
    assert_eq!(join_path("base/", "leaf"), "base/leaf");
}

#[test]
fn join_absolute_replaces() {
    assert_eq!(join_path("base", "/abs"), "/abs");
}

#[test]
fn join_empty_base() {
    assert_eq!(join_path("", "leaf"), "leaf");
}

#[test]
fn display_path_strips_base() {
    assert_eq!(format_display_path("/work/target/debug/lib.so", "/work/target"), "debug/lib.so");
}

#[test]
fn display_path_unrelated_unchanged() {
    assert_eq!(format_display_path("/elsewhere/file", "/work/target"), "/elsewhere/file");
}

#[test]
fn display_path_of_base_itself() {
    assert_eq!(format_display_path("/work/target", "/work/target"), "");
}
