use pi_coding_agent::package_spec::{PackageSpec, SpecError};

#[test]
fn parses_simple_npm_spec() {
    let spec = PackageSpec::parse("npm:pkg").unwrap();
    assert_eq!(
        spec,
        PackageSpec::Npm {
            spec: "pkg".into(),
            name: "pkg".into(),
            version: None
        }
    );
}

#[test]
fn parses_versioned_scoped_npm_spec() {
    let spec = PackageSpec::parse("npm:@foo/bar@1.0.0").unwrap();
    assert_eq!(spec.name(), "@foo/bar");
    match spec {
        PackageSpec::Npm { version, .. } => assert_eq!(version.as_deref(), Some("1.0.0")),
        other => panic!("unexpected spec: {other:?}"),
    }
}

#[test]
fn parses_git_shorthand_with_ref() {
    let spec = PackageSpec::parse("git:github.com/user/repo@v1").unwrap();
    match &spec {
        PackageSpec::Git {
            url,
            host,
            path,
            reference,
        } => {
            assert_eq!(url, "https://github.com/user/repo");
            assert_eq!(host, "github.com");
            assert_eq!(path, "user/repo");
            assert_eq!(reference.as_deref(), Some("v1"));
        }
        other => panic!("unexpected spec: {other:?}"),
    }
    assert_eq!(spec.install_dir_name(), "github.com-user-repo");
}

#[test]
fn parses_git_ssh_shorthand_without_ref() {
    let spec = PackageSpec::parse("git:git@github.com:user/repo").unwrap();
    match &spec {
        PackageSpec::Git { url, reference, .. } => {
            assert_eq!(url, "git@github.com:user/repo");
            assert_eq!(*reference, None);
        }
        other => panic!("unexpected spec: {other:?}"),
    }
}

#[test]
fn parses_git_hash_ref() {
    let spec = PackageSpec::parse("git:https://example.com/u/r#main").unwrap();
    match &spec {
        PackageSpec::Git { reference, .. } => assert_eq!(reference.as_deref(), Some("main")),
        other => panic!("unexpected spec: {other:?}"),
    }
}

#[test]
fn parses_https_with_ref() {
    let spec = PackageSpec::parse("https://github.com/user/repo@v2").unwrap();
    match &spec {
        PackageSpec::Https { url, reference, .. } => {
            assert_eq!(url, "https://github.com/user/repo");
            assert_eq!(reference.as_deref(), Some("v2"));
        }
        other => panic!("unexpected spec: {other:?}"),
    }
}

#[test]
fn parses_local_and_file_specs() {
    assert_eq!(
        PackageSpec::parse("./fixture").unwrap(),
        PackageSpec::File {
            path: "./fixture".to_string()
        }
    );
    assert_eq!(
        PackageSpec::parse("file:/abs/pkg").unwrap(),
        PackageSpec::File {
            path: "/abs/pkg".to_string()
        }
    );
}

#[test]
fn rejects_bare_and_unknown_specs() {
    assert!(matches!(PackageSpec::parse(""), Err(SpecError::Empty)));
    assert!(matches!(
        PackageSpec::parse("some-fixture"),
        Err(SpecError::Unsupported(_))
    ));
    assert!(matches!(PackageSpec::parse("npm:"), Err(SpecError::Npm(_))));
    assert!(matches!(PackageSpec::parse("git:"), Err(SpecError::Git(_))));
}

#[test]
fn spec_errors_carry_the_trimmed_spec() {
    assert_eq!(
        PackageSpec::parse("  npm:bad name  "),
        Err(SpecError::Npm("npm:bad name".to_string()))
    );
    assert_eq!(
        PackageSpec::parse("npm:pkg@"),
        Err(SpecError::Npm("npm:pkg@".to_string()))
    );
    assert_eq!(
        PackageSpec::parse("https://host"),
        Err(SpecError::Https("https://host".to_string()))
    );
    assert_eq!(
        PackageSpec::parse("file:   "),
        Err(SpecError::Unsupported("file:".to_string()))
    );
    assert_eq!(
        PackageSpec::parse("git:nohost"),
        Err(SpecError::Git("git:nohost".to_string()))
    );
}

#[test]
fn https_userinfo_is_not_a_reference() {
    let spec = PackageSpec::parse("https://user@example.com/org/repo.git").unwrap();
    assert_eq!(
        spec,
        PackageSpec::Https {
            url: "https://user@example.com/org/repo.git".into(),
            host: "example.com".into(),
            path: "org/repo.git".into(),
            reference: None,
        }
    );
    assert_eq!(spec.name(), "example.com/org/repo");
    assert_eq!(spec.display(), "https://user@example.com/org/repo.git");
}

#[test]
fn names_and_displays_follow_the_source_kind() {
    let npm = PackageSpec::parse("npm:@scope/pkg@^2").unwrap();
    assert_eq!(npm.display(), "npm:@scope/pkg@^2");
    assert_eq!(npm.install_dir_name(), "@scope-pkg");

    let git = PackageSpec::parse("git:github.com/user/repo#v3").unwrap();
    assert_eq!(git.display(), "git:https://github.com/user/repo#v3");
    assert_eq!(git.name(), "github.com/user/repo");

    let file = PackageSpec::parse("../pkgs/my-ext/").unwrap();
    assert_eq!(file.name(), "my-ext");
    assert_eq!(file.display(), "../pkgs/my-ext/");

    let dot = PackageSpec::parse(".").unwrap();
    assert_eq!(dot.name(), "package");
    assert_eq!(dot.install_dir_name(), "package");

    let drive = PackageSpec::parse("C:\\pkgs\\ext").unwrap();
    assert_eq!(drive.install_dir_name(), "C--pkgs-ext");
}
