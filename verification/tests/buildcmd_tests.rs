use pgx_install::buildcmd::{build_command_args, build_features, decimal_string, split_flags};

#[test]
fn decimal_renders_exactly() {
    assert_eq!(decimal_string(0), "0");
    assert_eq!(decimal_string(7), "7");
    assert_eq!(decimal_string(13), "13");
    assert_eq!(decimal_string(100), "100");
    assert_eq!(decimal_string(18446744073709551615), "18446744073709551615");
}

#[test]
fn features_default_from_major_version() {
    assert_eq!(build_features(13, &None), "pg13");
    assert_eq!(build_features(9, &None), "pg9");
}

#[test]
fn features_override_wins() {
    assert_eq!(build_features(13, &Some("pg12 extra".to_string())), "pg12 extra");
}

#[test]
fn flags_split_at_whitespace() {
    assert_eq!(split_flags("  -v \t--offline\n  "), vec!["-v", "--offline"]);
    assert_eq!(split_flags(""), Vec::<String>::new());
    assert_eq!(split_flags(" \t\n"), Vec::<String>::new());
    assert_eq!(split_flags("one"), vec!["one"]);
}

#[test]
fn release_build_arguments() {
    let args = build_command_args(true, "pg13", "");
    assert_eq!(
        args,
        vec!["build", "--release", "--features", "pg13", "--no-default-features"]
    );
}

#[test]
fn debug_build_arguments_without_release_flag() {
    let args = build_command_args(false, "pg13", "");
    assert_eq!(args, vec!["build", "--features", "pg13", "--no-default-features"]);
}

#[test]
fn blank_features_add_no_feature_arguments() {
    let args = build_command_args(false, "  \t", "");
    assert_eq!(args, vec!["build"]);
}

#[test]
fn unicode_blank_features_add_no_feature_arguments() {
    // Blankness is what trimming leaves empty: every Unicode whitespace
    // character counts, not only the ASCII separators.
    for blank in ["\u{000B}", "\u{0085}", "\u{00A0}", "\u{2003}", "\u{3000}", " \u{00A0}\t"] {
        let args = build_command_args(false, blank, "");
        assert_eq!(args, vec!["build"], "features {:?} should be blank", blank);
    }
}

#[test]
fn nonblank_features_with_unicode_padding_are_passed() {
    let args = build_command_args(false, "\u{00A0}pg13\u{00A0}", "");
    assert_eq!(
        args,
        vec!["build", "--features", "\u{00A0}pg13\u{00A0}", "--no-default-features"]
    );
}

#[test]
fn extra_flags_come_last() {
    let args = build_command_args(true, "pg13", "--offline -v");
    assert_eq!(
        args,
        vec![
            "build",
            "--release",
            "--features",
            "pg13",
            "--no-default-features",
            "--offline",
            "-v"
        ]
    );
}
