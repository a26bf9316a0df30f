use pi_coding_agent::package_spec::PackageSpec;
use pi_coding_agent::paths::normalize_lexically;
use pi_coding_agent::registry::{PackageEntry, Registry, RegistryData};

#[test]
fn npm_specs_echo_back_to_themselves() {
    for raw in ["npm:left-pad", "  npm:@scope/pkg@1.2.3 ", "npm: lodash@^4"] {
        let spec = PackageSpec::parse(raw).unwrap();
        let shown = spec.display();
        assert!(shown.starts_with("npm:"));
        assert_eq!(PackageSpec::parse(&shown), Ok(spec));
    }
}

#[test]
fn normalising_twice_changes_nothing() {
    for raw in ["/a/b/../c/./d", "a/../../b", "../..", "//a//b/", "", "/", "/..", "./x/./"] {
        let once = normalize_lexically(raw);
        assert_eq!(normalize_lexically(&once), once);
        assert!(!once.split('/').any(|c| c == "."));
    }
}

fn entry(spec: &str, name: &str, at: &str) -> PackageEntry {
    PackageEntry {
        spec: spec.to_string(),
        name: name.to_string(),
        resolved: format!("/root/.pi/packages/{name}"),
        installed_at: at.to_string(),
        extensions: Vec::new(),
    }
}

#[test]
fn a_reinstall_leaves_one_entry_for_its_spec() {
    let mut r = Registry::with_data(
        "/root/.pi",
        RegistryData { packages: vec![entry("npm:a", "a", "t0"), entry("npm:b", "b", "t0")] },
    );
    r.upsert(entry("npm:c", "c", "t1"));
    let n = r.packages().len();
    r.upsert(entry("npm:c", "c", "t2"));
    assert_eq!(r.packages().len(), n);
    let matching: Vec<&PackageEntry> = r.packages().iter().filter(|e| e.spec == "npm:c").collect();
    assert_eq!(matching.len(), 1);
    assert_eq!(matching[0].installed_at, "t2");
}
