use pi_coding_agent::skills::{skill_candidates, skill_dir_plan, SkillVisit};
use pi_coding_agent::skills::{check_ignore_input, ignored_paths, relative_candidates, SkillDiagnostic};
use pi_coding_agent::paths::{PathAction, PathKind};
use pi_coding_agent::skills::{
    classify_skill_path, default_skill_dirs, escape_xml, format_skills_for_prompt,
    is_loose_skill_file, is_walked_entry, load_skill_from_content, validate_skill_description,
    validate_skill_name, DiagnosticKind, LoadSkillsOptions, Skill, SkillCollector,
    SkillFileContent, SkillFrontmatter, SkillReadTool,
    SkillSource, SkillsLoadResult,
};

fn skill(name: &str, path: &str, hidden: bool) -> Skill {
    Skill {
        name: name.to_string(),
        description: format!("{name} skill."),
        file_path: path.to_string(),
        base_dir: "/x".to_string(),
        source: SkillSource::Path,
        disable_model_invocation: hidden,
    }
}

fn frontmatter(name: Option<&str>, description: Option<&str>) -> SkillFileContent {
    SkillFileContent::Frontmatter(SkillFrontmatter {
        name: name.map(str::to_string),
        description: description.map(str::to_string),
        disable_model_invocation: None,
    })
}

#[test]
fn formats_skills_as_an_xml_block() {
    let skill = Skill {
        name: "test-skill".to_string(),
        description: "A skill with <special> & \"characters\".".to_string(),
        file_path: "/path/to/skill/SKILL.md".to_string(),
        base_dir: "/path/to/skill".to_string(),
        source: SkillSource::Path,
        disable_model_invocation: false,
    };

    let formatted = format_skills_for_prompt(&[skill], SkillReadTool::Read);
    assert!(formatted.contains("<available_skills>"));
    assert!(formatted.contains("</available_skills>"));
    assert!(formatted.contains("<name>test-skill</name>"));
    assert!(formatted.contains("&lt;special&gt;"));
    assert!(formatted.contains("&amp;"));
    assert!(formatted.contains("&quot;characters&quot;"));
    assert!(formatted.contains("<location>/path/to/skill/SKILL.md</location>"));
    assert!(formatted.contains("Use the read tool to load a skill's file"));
    assert!(formatted.starts_with("\n\nThe following skills provide"));
}

#[test]
fn hides_skills_marked_disable_model_invocation() {
    let visible = Skill {
        name: "visible".to_string(),
        description: "Visible.".to_string(),
        file_path: "/visible/SKILL.md".to_string(),
        base_dir: "/visible".to_string(),
        source: SkillSource::Path,
        disable_model_invocation: false,
    };
    let hidden = Skill {
        name: "hidden".to_string(),
        description: "Hidden.".to_string(),
        file_path: "/hidden/SKILL.md".to_string(),
        base_dir: "/hidden".to_string(),
        source: SkillSource::Path,
        disable_model_invocation: true,
    };

    let formatted =
        format_skills_for_prompt(&[visible.clone(), hidden.clone()], SkillReadTool::Bash);
    assert!(formatted.contains("<name>visible</name>"));
    assert!(!formatted.contains("<name>hidden</name>"));
    assert!(formatted.contains("Use bash to load a skill's file"));

    assert_eq!(format_skills_for_prompt(&[hidden], SkillReadTool::Read), "");
    assert_eq!(format_skills_for_prompt(&[], SkillReadTool::Read), "");
}

#[test]
fn the_prompt_block_is_exact() {
    let formatted = format_skills_for_prompt(&[skill("a", "/s/a/SKILL.md", false)], SkillReadTool::Read);
    let expected = [
        "",
        "",
        "The following skills provide specialized instructions for specific tasks.",
        "Use the read tool to load a skill's file when the task matches its description.",
        "When a skill file references a relative path, resolve it against the skill directory (parent of SKILL.md / dirname of the path) and use that absolute path in tool commands.",
        "",
        "<available_skills>",
        "  <skill>",
        "    <name>a</name>",
        "    <description>a skill.</description>",
        "    <location>/s/a/SKILL.md</location>",
        "  </skill>",
        "</available_skills>",
    ]
    .join("\n");
    assert_eq!(formatted, expected);
}

#[test]
fn escape_xml_replaces_the_five_specials() {
    assert_eq!(escape_xml("a<b>&\"'"), "a&lt;b&gt;&amp;&quot;&apos;");
    assert_eq!(escape_xml("plain text"), "plain text");
    assert_eq!(escape_xml(""), "");
}

#[test]
fn skill_names_follow_the_spec() {
    assert!(validate_skill_name("valid-skill").is_empty());
    assert_eq!(
        validate_skill_name("bad--name"),
        vec!["name must not contain consecutive hyphens".to_string()]
    );
    assert_eq!(
        validate_skill_name("Invalid_Name"),
        vec![
            "name contains invalid characters (must be lowercase a-z, 0-9, hyphens only)"
                .to_string()
        ]
    );
    assert_eq!(
        validate_skill_name("-edge"),
        vec!["name must not start or end with a hyphen".to_string()]
    );
    let long = "a".repeat(65);
    assert_eq!(
        validate_skill_name(&long),
        vec!["name exceeds 64 characters (65)".to_string()]
    );
    assert!(validate_skill_name(&"a".repeat(64)).is_empty());
    assert_eq!(validate_skill_name("--").len(), 2);
}

#[test]
fn skill_descriptions_follow_the_spec() {
    assert!(validate_skill_description("Does things.").is_empty());
    assert_eq!(
        validate_skill_description("   "),
        vec!["description is required".to_string()]
    );
    assert_eq!(
        validate_skill_description(&"x".repeat(1025)),
        vec!["description exceeds 1024 characters (1025)".to_string()]
    );
    assert!(validate_skill_description(&"x".repeat(1024)).is_empty());
}

#[test]
fn a_declared_skill_loads_with_its_frontmatter() {
    let loaded = load_skill_from_content(
        "/s/valid-skill/SKILL.md",
        SkillSource::User,
        frontmatter(Some("valid-skill"), Some("A valid skill for testing purposes.")),
    );
    let skill = loaded.skill.expect("skill");
    assert_eq!(skill.name, "valid-skill");
    assert_eq!(skill.description, "A valid skill for testing purposes.");
    assert_eq!(skill.base_dir, "/s/valid-skill");
    assert_eq!(skill.source, SkillSource::User);
    assert!(!skill.disable_model_invocation);
    assert!(loaded.diagnostics.is_empty());
}

#[test]
fn a_nameless_skill_takes_its_directory_name() {
    let loaded = load_skill_from_content(
        "/s/my-skill/SKILL.md",
        SkillSource::Path,
        frontmatter(None, Some("Description without a name.")),
    );
    assert_eq!(loaded.skill.expect("skill").name, "my-skill");
}

#[test]
fn a_skill_without_description_does_not_load() {
    let loaded = load_skill_from_content(
        "/s/missing/SKILL.md",
        SkillSource::Path,
        frontmatter(Some("missing"), None),
    );
    assert!(loaded.skill.is_none());
    assert_eq!(loaded.diagnostics.len(), 1);
    assert_eq!(loaded.diagnostics[0].message, "description is required");
    assert_eq!(loaded.diagnostics[0].path.as_deref(), Some("/s/missing/SKILL.md"));

    let loose = load_skill_from_content("/s/notes.md", SkillSource::Path, frontmatter(None, None));
    assert!(loose.skill.is_none());
    assert!(loose.diagnostics.is_empty(), "loose files without a description are silent");
}

#[test]
fn off_spec_names_warn_but_load() {
    let loaded = load_skill_from_content(
        "/s/bad--name/SKILL.md",
        SkillSource::Path,
        frontmatter(Some("bad--name"), Some("Consecutive hyphens.")),
    );
    assert!(loaded.skill.is_some());
    assert_eq!(loaded.diagnostics.len(), 1);
    assert_eq!(loaded.diagnostics[0].kind, DiagnosticKind::Warning);
    assert!(loaded.diagnostics[0].message.contains("consecutive hyphens"));
}

#[test]
fn frontmatter_errors_only_report_for_declared_skills() {
    let declared = load_skill_from_content(
        "/s/x/SKILL.md",
        SkillSource::Path,
        SkillFileContent::BadFrontmatter("invalid frontmatter".to_string()),
    );
    assert!(declared.skill.is_none());
    assert_eq!(declared.diagnostics[0].message, "invalid frontmatter");
    let loose = load_skill_from_content(
        "/s/x/notes.md",
        SkillSource::Path,
        SkillFileContent::BadFrontmatter("invalid frontmatter".to_string()),
    );
    assert!(loose.diagnostics.is_empty());
    let unreadable = load_skill_from_content(
        "/s/x/SKILL.md",
        SkillSource::Path,
        SkillFileContent::Unreadable("denied".to_string()),
    );
    assert_eq!(
        unreadable.diagnostics[0].message,
        "failed to read skill file: denied"
    );
}

#[test]
fn disable_model_invocation_is_read_from_the_frontmatter() {
    let loaded = load_skill_from_content(
        "/s/manual/SKILL.md",
        SkillSource::Path,
        SkillFileContent::Frontmatter(SkillFrontmatter {
            name: Some("manual-only".to_string()),
            description: Some("Requires an explicit invocation.".to_string()),
            disable_model_invocation: Some(true),
        }),
    );
    assert!(loaded.skill.expect("skill").disable_model_invocation);
    assert!(loaded.diagnostics.is_empty());
}

#[test]
fn the_first_name_wins_and_files_load_once() {
    let mut collector = SkillCollector::new();
    collector.add(
        SkillsLoadResult {
            skills: vec![skill("one", "/user/one/SKILL.md", false)],
            diagnostics: Vec::new(),
        },
        &["/user/one/SKILL.md".to_string()],
    );
    collector.add(
        SkillsLoadResult {
            skills: vec![
                skill("one", "/project/one/SKILL.md", false),
                skill("two", "/project/two/SKILL.md", false),
                skill("alias", "/project/link/SKILL.md", false),
            ],
            diagnostics: Vec::new(),
        },
        &[
            "/project/one/SKILL.md".to_string(),
            "/project/two/SKILL.md".to_string(),
            "/user/one/SKILL.md".to_string(),
        ],
    );
    let merged = collector.finish();
    let names: Vec<&str> = merged.skills.iter().map(|s| s.name.as_str()).collect();
    assert_eq!(names, vec!["one", "two"]);
    assert_eq!(merged.skills[0].file_path, "/user/one/SKILL.md");
    assert_eq!(merged.diagnostics.len(), 1);
    assert_eq!(merged.diagnostics[0].kind, DiagnosticKind::Collision);
    assert_eq!(merged.diagnostics[0].message, "name \"one\" collision");
    assert_eq!(
        merged.diagnostics[0].path.as_deref(),
        Some("/project/one/SKILL.md")
    );
}

#[test]
fn explicit_paths_are_classified() {
    assert_eq!(
        classify_skill_path("/a/x.md", PathKind::File),
        PathAction::LoadFile
    );
    assert_eq!(
        classify_skill_path("/a/skills", PathKind::Directory),
        PathAction::ScanDirectory
    );
    assert_eq!(
        classify_skill_path("/a/x.txt", PathKind::File),
        PathAction::Warn("skill path is not a markdown file".to_string())
    );
    assert_eq!(
        classify_skill_path("/a/.md", PathKind::File),
        PathAction::Warn("skill path is not a markdown file".to_string())
    );
    assert_eq!(
        classify_skill_path("/a/none", PathKind::Missing),
        PathAction::Warn("skill path does not exist".to_string())
    );
}

#[test]
fn the_walk_skips_dot_entries_and_node_modules() {
    assert!(!is_walked_entry(".git"));
    assert!(!is_walked_entry("node_modules"));
    assert!(is_walked_entry("my-skill"));
    assert!(is_loose_skill_file("notes.md", true));
    assert!(!is_loose_skill_file("notes.md", false));
    assert!(!is_loose_skill_file("notes.txt", true));
}

#[test]
fn default_locations_respect_trust() {
    let mut options = LoadSkillsOptions {
        cwd: "/work".to_string(),
        agent_dir: "/home/u/.pi/agent".to_string(),
        skill_paths: Vec::new(),
        include_defaults: true,
        project_trusted: false,
    };
    let dirs = default_skill_dirs(&options);
    assert_eq!(dirs, vec![("/home/u/.pi/agent/skills".to_string(), SkillSource::User)]);
    options.project_trusted = true;
    let dirs = default_skill_dirs(&options);
    assert_eq!(dirs[1], ("/work/.pi/skills".to_string(), SkillSource::Project));
    options.include_defaults = false;
    assert!(default_skill_dirs(&options).is_empty());
}

#[test]
fn skill_sources_have_stable_labels() {
    assert_eq!(SkillSource::User.as_str(), "user");
    assert_eq!(SkillSource::Project.as_str(), "project");
    assert_eq!(SkillSource::Path.as_str(), "path");
}

#[test]
fn git_ignore_candidates_are_relative_to_the_root() {
    let candidates = vec![
        "/r/skills".to_string(),
        "/r/skills/a/SKILL.md".to_string(),
        "/r/skillsX/b.md".to_string(),
        "/other/c.md".to_string(),
        "/r/skills/win\\x.md".to_string(),
    ];
    assert_eq!(
        relative_candidates("/r/skills", &candidates),
        vec![
            ("/r/skills/a/SKILL.md".to_string(), "a/SKILL.md".to_string()),
            ("/r/skills/win\\x.md".to_string(), "win/x.md".to_string()),
        ]
    );
    assert_eq!(
        relative_candidates("/r/", &["/r/a.md".to_string()]),
        vec![("/r/a.md".to_string(), "a.md".to_string())]
    );
}

#[test]
fn git_check_ignore_round_trip() {
    let relative = vec![
        ("/r/a/SKILL.md".to_string(), "a/SKILL.md".to_string()),
        ("/r/b.md".to_string(), "b.md".to_string()),
        ("/r/c.md".to_string(), "c.md".to_string()),
    ];
    assert_eq!(check_ignore_input(&relative), "a/SKILL.md\0b.md\0c.md\0");
    assert_eq!(
        ignored_paths(&relative, "c.md\0a/SKILL.md\0"),
        vec!["/r/a/SKILL.md".to_string(), "/r/c.md".to_string()]
    );
    assert!(ignored_paths(&relative, "").is_empty());
    assert!(ignored_paths(&relative, "\0\0").is_empty());
}

#[test]
fn diagnostic_constructors_set_the_kind() {
    let w = SkillDiagnostic::warning("off-spec name".to_string(), None);
    assert_eq!(w.kind, DiagnosticKind::Warning);
    assert_eq!(w.path, None);
    let c = SkillDiagnostic::collision("name \"x\" collision".to_string(), "/p/x/SKILL.md".to_string());
    assert_eq!(c.kind, DiagnosticKind::Collision);
    assert_eq!(c.path.as_deref(), Some("/p/x/SKILL.md"));
}

fn entries(list: &[(&str, PathKind)]) -> Vec<(String, PathKind)> {
    list.iter().map(|(n, k)| (n.to_string(), *k)).collect()
}

#[test]
fn a_root_skill_file_makes_the_directory_the_skill() {
    let listing = entries(&[("nested", PathKind::Directory), ("notes.md", PathKind::File)]);
    assert_eq!(
        skill_dir_plan("/s/demo", true, true, &listing, &[]),
        vec![SkillVisit::Load("/s/demo/SKILL.md".into())]
    );
    assert!(skill_dir_plan("/s/demo", true, true, &listing, &["/s/demo/SKILL.md".to_string()]).is_empty());
}

#[test]
fn the_walk_skips_dot_entries_node_modules_and_ignored_paths() {
    let listing = entries(&[
        ("zeta.md", PathKind::File),
        (".git", PathKind::Directory),
        ("node_modules", PathKind::Directory),
        ("alpha", PathKind::Directory),
        ("broken", PathKind::Unreadable),
        ("readme.txt", PathKind::File),
        ("skip", PathKind::Directory),
    ]);
    let ignored = vec!["/s/skip".to_string()];
    assert_eq!(
        skill_dir_plan("/s", false, true, &listing, &ignored),
        vec![
            SkillVisit::Descend("/s/alpha".into()),
            SkillVisit::Load("/s/zeta.md".into())
        ]
    );
    assert_eq!(
        skill_dir_plan("/s/alpha", false, false, &entries(&[("x.md", PathKind::File)]), &[]),
        Vec::<SkillVisit>::new()
    );
}

#[test]
fn candidates_list_every_walked_entry() {
    let listing = entries(&[
        ("b.txt", PathKind::File),
        (".hidden", PathKind::File),
        ("a", PathKind::Directory),
        ("gone", PathKind::Unreadable),
    ]);
    assert_eq!(
        skill_candidates("/s", false, &listing),
        vec![("/s/a".to_string(), true), ("/s/b.txt".to_string(), false)]
    );
    assert_eq!(
        skill_candidates("/s", true, &listing),
        vec![("/s/SKILL.md".to_string(), false)]
    );
}
