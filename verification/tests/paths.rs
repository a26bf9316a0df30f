use pi_coding_agent::paths::with_extension;
use pi_coding_agent::paths::{
    agent_dir, agent_dir_or_default, expand_tilde, home_dir, join, normalize_lexically,
    path_file_name, path_file_stem, path_parent, resolve_against, strip_bom,
};

#[test]
fn strips_a_leading_bom() {
    assert_eq!(strip_bom("\u{feff}hello"), "hello");
    assert_eq!(strip_bom("hello"), "hello");
}

#[test]
fn normalises_lexically() {
    assert_eq!(normalize_lexically("/a/b/../c/./d"), "/a/c/d");
    assert_eq!(normalize_lexically("a/./b"), "a/b");
}

#[test]
fn resolves_relative_paths_against_a_base() {
    assert_eq!(resolve_against("/base", "skills"), "/base/skills");
    assert_eq!(resolve_against("/base", "/abs"), "/abs");
}

#[test]
fn expands_tilde_and_keeps_other_paths() {
    assert_eq!(
        expand_tilde("~/.pi/agent", "/fallback", Some("/home/me")),
        "/home/me/.pi/agent"
    );
    assert_eq!(expand_tilde("/abs/path", "/fallback", Some("/home/me")), "/abs/path");
    assert_eq!(expand_tilde("~", "/fallback", None), "/fallback");
    assert_eq!(expand_tilde("~/x", "/fallback", None), "/fallback/x");
}

#[test]
fn absolute_paths_stay_absolute() {
    assert_eq!(resolve_against("/cwd", "/a/b"), "/a/b");
}

#[test]
fn parent_dir_edge_cases_of_normalisation() {
    assert_eq!(normalize_lexically("/.."), "/..");
    assert_eq!(normalize_lexically("../.."), "");
    assert_eq!(normalize_lexically("a/../../b"), "../b");
    assert_eq!(normalize_lexically("//a//b/"), "/a/b");
    assert_eq!(normalize_lexically(""), "");
    assert_eq!(normalize_lexically("/"), "/");
}

#[test]
fn file_names_stems_and_parents() {
    assert_eq!(path_file_name("/a/b.md").as_deref(), Some("b.md"));
    assert_eq!(path_file_name("/a/b/").as_deref(), Some("b"));
    assert_eq!(path_file_name("/"), None);
    assert_eq!(path_file_name("a/.."), None);
    assert_eq!(path_file_stem("/p/greet.md").as_deref(), Some("greet"));
    assert_eq!(path_file_stem("/p/.hidden").as_deref(), Some(".hidden"));
    assert_eq!(path_file_stem("/p/a.b.c").as_deref(), Some("a.b"));
    assert_eq!(path_parent("/a/b").as_deref(), Some("/a"));
    assert_eq!(path_parent("/a").as_deref(), Some("/"));
    assert_eq!(path_parent("a").as_deref(), Some(""));
    assert_eq!(path_parent("/"), None);
}

#[test]
fn agent_directories_and_home() {
    assert_eq!(agent_dir(Some("/home/me")).as_deref(), Some("/home/me/.pi/agent"));
    assert_eq!(agent_dir(None), None);
    assert_eq!(agent_dir_or_default(None), ".pi/agent");
    assert_eq!(home_dir(None, Some("C:/Users/me")).as_deref(), Some("C:/Users/me"));
    assert_eq!(home_dir(Some("/h"), Some("/u")).as_deref(), Some("/h"));
    assert_eq!(join("/a/", "b"), "/a/b");
    assert_eq!(join("/a", "/b"), "/b");
}

#[test]
fn with_extension_replaces_or_appends() {
    assert_eq!(with_extension("/s/a.jsonl", "sqlite"), "/s/a.sqlite");
    assert_eq!(with_extension("/s/a", "sqlite"), "/s/a.sqlite");
    assert_eq!(with_extension("/s/.hidden", "sqlite"), "/s/.hidden.sqlite");
    assert_eq!(with_extension("/s/a.jsonl/", "sqlite"), "/s/a.sqlite");
    assert_eq!(with_extension("/", "sqlite"), "/");
}
