use pi_coding_agent::installer::{
    command_failed, extension_dir, install_dir, is_extension, local_source, looks_like_archive,
    npm_missing_package, path_extension, published_name, removal_dir_name, resolve_root,
    tool_unavailable, FetchPlan, InstallError, RealFetcher, EXTENSIONS_DIR, PACKAGES_DIR,
};
use pi_coding_agent::package_spec::{PackageSpec, SpecError};
use pi_coding_agent::registry::PackageEntry;

#[test]
fn the_root_follows_dir_then_pi_home_then_home() {
    assert_eq!(resolve_root(Some("/x"), Some("/p"), Some("/h")), "/x");
    assert_eq!(resolve_root(None, Some("/p"), Some("/h")), "/p");
    assert_eq!(resolve_root(None, Some(""), Some("/h")), "/h/.pi");
    assert_eq!(resolve_root(None, None, None), "./.pi");
}

#[test]
fn layout_under_the_root() {
    assert_eq!(PACKAGES_DIR, "packages");
    assert_eq!(EXTENSIONS_DIR, "agent/extensions");
    assert_eq!(install_dir("/r", "pkg"), "/r/packages/pkg");
    assert_eq!(extension_dir("/r", "pkg"), "/r/agent/extensions/pkg");
}

#[test]
fn extension_files_are_recognised_by_their_extension() {
    assert!(is_extension("/p/extensions/a.ts"));
    assert!(is_extension("b.mjs"));
    assert!(is_extension("c.wasm"));
    assert!(!is_extension("d.json"));
    assert!(!is_extension(".ts"));
    assert_eq!(path_extension("/p/a.tar.gz"), Some("gz".to_string()));
    assert_eq!(path_extension("/p/noext"), None);
}

#[test]
fn published_names_number_every_extension_after_the_first() {
    assert_eq!(published_name(0, "/p/extensions/hello.js"), "hello.js");
    assert_eq!(published_name(2, "/p/extensions/more.ts"), "2-more.ts");
    assert_eq!(published_name(0, "/"), "extension.js");
}

#[test]
fn removal_uses_the_installed_directory() {
    let e = PackageEntry {
        spec: "npm:@s/p".into(),
        name: "@s/p".into(),
        resolved: "/r/packages/@s-p".into(),
        installed_at: String::new(),
        extensions: Vec::new(),
    };
    assert_eq!(removal_dir_name(&e), "@s-p");
    let f = PackageEntry {
        resolved: "/".into(),
        ..e
    };
    assert_eq!(removal_dir_name(&f), "@s-p");
}

#[test]
fn local_sources_expand_home_and_resolve_against_cwd() {
    assert_eq!(local_source("/work", "./pkg", Some("/home/u")), "/work/./pkg");
    assert_eq!(local_source("/work", "~/pkg", Some("/home/u")), "/home/u/pkg");
    assert_eq!(local_source("/work", "~/pkg", None), "/work/./pkg");
    assert_eq!(local_source("/work", "/abs/pkg", None), "/abs/pkg");
}

#[test]
fn archives_are_spotted_case_insensitively() {
    assert!(looks_like_archive("https://x/y.TAR.GZ"));
    assert!(looks_like_archive("https://x/y.zip"));
    assert!(!looks_like_archive("https://github.com/user/repo"));
}

#[test]
fn the_fetch_plan_follows_the_source() {
    let npm = PackageSpec::parse("npm:@scope/pkg@1.2.3").unwrap();
    assert_eq!(
        RealFetcher.plan(&npm),
        Ok(FetchPlan::Npm {
            spec: "@scope/pkg@1.2.3".into(),
            name: "@scope/pkg".into()
        })
    );
    let git = PackageSpec::parse("git:github.com/user/repo@v1").unwrap();
    assert_eq!(
        RealFetcher.plan(&git),
        Ok(FetchPlan::Git {
            url: "https://github.com/user/repo".into(),
            reference: Some("v1".into())
        })
    );
    let tarball = PackageSpec::parse("https://example.com/pkg.tgz").unwrap();
    assert!(matches!(RealFetcher.plan(&tarball), Err(InstallError::Unsupported(_))));
    let local = PackageSpec::parse("./pkg").unwrap();
    assert!(matches!(RealFetcher.plan(&local), Err(InstallError::Unsupported(_))));
}

#[test]
fn fetch_failures_read_well() {
    assert_eq!(
        npm_missing_package("pkg"),
        InstallError::Fetch("npm did not produce a package at pkg".into())
    );
    assert_eq!(
        tool_unavailable("git"),
        InstallError::Unavailable(
            "`git` is not available on PATH (required to install `git:` packages)".into()
        )
    );
    assert_eq!(
        command_failed(
            "git",
            &["clone".to_string(), "u".to_string()],
            "warning\nfatal: repository not found\n",
            Some(128)
        ),
        InstallError::Unavailable("`git clone u` failed: fatal: repository not found".into())
    );
    assert_eq!(
        command_failed("npm", &["install".to_string()], "", Some(1)),
        InstallError::Unavailable("`npm install` failed: exit code Some(1)".into())
    );
    assert_eq!(
        command_failed("npm", &[], "  \n", None),
        InstallError::Unavailable("`npm ` failed: exit code None".into())
    );
}

#[test]
fn install_errors_map_to_exit_codes_and_messages() {
    assert_eq!(InstallError::Spec(SpecError::Empty).exit_code(), 64);
    assert_eq!(InstallError::Unsupported("x".into()).exit_code(), 64);
    assert_eq!(InstallError::NotFound("x".into()).exit_code(), 66);
    assert_eq!(InstallError::Unavailable("x".into()).exit_code(), 69);
    assert_eq!(InstallError::Io("x".into()).exit_code(), 74);
    assert_eq!(
        InstallError::Unsupported("ftp".into()).message(),
        "unsupported package source: ftp"
    );
}
