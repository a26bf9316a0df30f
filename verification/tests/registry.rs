use pi_coding_agent::registry::{PackageEntry, Registry, RegistryData, REGISTRY_FILE};

fn entry(spec: &str, name: &str, dir: &str) -> PackageEntry {
    PackageEntry {
        spec: spec.to_string(),
        name: name.to_string(),
        resolved: format!("/root/.pi/packages/{dir}"),
        installed_at: "2024-05-01T10:00:00+00:00".to_string(),
        extensions: Vec::new(),
    }
}

fn registry(entries: Vec<PackageEntry>) -> Registry {
    Registry::with_data("/root/.pi", RegistryData { packages: entries })
}

#[test]
fn the_registry_lives_in_the_root() {
    let r = registry(Vec::new());
    assert_eq!(REGISTRY_FILE, "packages.json");
    assert_eq!(r.path(), "/root/.pi/packages.json");
    assert!(r.is_empty());
    assert!(r.packages().is_empty());
}

#[test]
fn find_answers_to_spec_name_and_directory() {
    let r = registry(vec![
        entry("npm:@scope/pkg@1.0.0", "@scope/pkg", "@scope-pkg"),
        entry("file:./local", "local", "local"),
    ]);
    assert_eq!(r.find("npm:@scope/pkg@1.0.0").map(|e| e.name.as_str()), Some("@scope/pkg"));
    assert_eq!(r.find("@scope/pkg").map(|e| e.spec.as_str()), Some("npm:@scope/pkg@1.0.0"));
    assert_eq!(r.find("@scope-pkg").map(|e| e.name.as_str()), Some("@scope/pkg"));
    assert_eq!(r.find("local").map(|e| e.spec.as_str()), Some("file:./local"));
    assert!(r.find("nope").is_none());
}

#[test]
fn upsert_replaces_by_name_or_spec() {
    let mut r = registry(vec![entry("npm:pkg@1", "pkg", "pkg")]);
    r.upsert(entry("npm:pkg@2", "pkg", "pkg"));
    assert_eq!(r.packages().len(), 1);
    assert_eq!(r.packages()[0].spec, "npm:pkg@2");
    r.upsert(entry("npm:other", "other", "other"));
    assert_eq!(r.packages().len(), 2);
    assert_eq!(r.packages()[1].name, "other");
    assert_eq!(r.find("pkg").map(|e| e.spec.as_str()), Some("npm:pkg@2"));
}

#[test]
fn remove_takes_out_the_first_match() {
    let mut r = registry(vec![entry("npm:a", "a", "a"), entry("npm:b", "b", "b")]);
    assert_eq!(r.remove("b").map(|e| e.spec), Some("npm:b".to_string()));
    assert_eq!(r.packages().len(), 1);
    assert!(r.remove("b").is_none());
    assert_eq!(r.data().packages.len(), 1);
}

#[test]
fn removing_a_fresh_install_restores_the_registry() {
    let before = vec![entry("npm:a", "a", "a"), entry("file:./b", "b", "b")];
    let mut r = registry(before.clone());
    r.upsert(entry("npm:c@1", "c", "c"));
    assert_eq!(r.packages().len(), 3);
    assert_eq!(r.remove("c").map(|e| e.spec), Some("npm:c@1".to_string()));
    assert_eq!(r.packages(), &before[..]);
}

#[test]
fn reinstalling_the_same_spec_replaces_the_entry() {
    let base = vec![entry("npm:other", "other", "other")];
    let mut first = entry("npm:pkg", "pkg", "pkg");
    first.installed_at = "2024-05-01T10:00:00+00:00".to_string();
    let mut second = entry("npm:pkg", "pkg", "pkg");
    second.installed_at = "2024-06-01T10:00:00+00:00".to_string();

    let mut twice = registry(base.clone());
    twice.upsert(first);
    twice.upsert(second.clone());
    let mut once = registry(base);
    once.upsert(second);
    assert_eq!(twice.packages(), once.packages());
    assert_eq!(twice.packages().len(), 2);
    assert_eq!(twice.packages()[1].installed_at, "2024-06-01T10:00:00+00:00");
}
