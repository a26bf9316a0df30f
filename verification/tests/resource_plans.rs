use pi_coding_agent::paths::{explicit_path, PathAction, PathKind};
use pi_coding_agent::prompt_templates::{
    merge_template_loads, template_load_plan, LoadPromptTemplatesOptions, PromptTemplate,
    PromptTemplateDiagnostic, PromptTemplateSource, PromptTemplatesLoadResult,
};
use pi_coding_agent::skills::{
    merge_skill_loads, skill_load_plan, DiagnosticKind, LoadSkillsOptions, Skill, SkillDiagnostic,
    SkillSource, SkillsLoadResult,
};

fn skill(name: &str, path: &str) -> Skill {
    Skill {
        name: name.to_string(),
        description: format!("{name} skill."),
        file_path: path.to_string(),
        base_dir: "/x".to_string(),
        source: SkillSource::User,
        disable_model_invocation: false,
    }
}

fn template(name: &str, path: &str) -> PromptTemplate {
    PromptTemplate {
        name: name.to_string(),
        description: String::new(),
        argument_hint: None,
        content: "body".to_string(),
        file_path: path.to_string(),
        source: PromptTemplateSource::User,
    }
}

#[test]
fn explicit_paths_expand_home_and_resolve_against_the_process_dir() {
    assert_eq!(explicit_path("~/s", "/proj", "/run", Some("/home/u")), "/home/u/s");
    assert_eq!(explicit_path("~/s", "/proj", "/run", None), "/proj/s");
    assert_eq!(explicit_path("a/../b", "/proj", "/run", None), "/run/b");
    assert_eq!(explicit_path("/abs/./x", "/proj", "/run", None), "/abs/x");
}

#[test]
fn skill_plans_list_defaults_then_explicit_paths() {
    let options = LoadSkillsOptions {
        cwd: "/proj".to_string(),
        agent_dir: "/home/u/.pi/agent".to_string(),
        skill_paths: vec!["extra".to_string(), "one.md".to_string(), "gone".to_string()],
        include_defaults: true,
        project_trusted: true,
    };
    let plan = skill_load_plan(
        &options,
        "/proj",
        None,
        &[PathKind::Directory, PathKind::File, PathKind::Missing],
    );
    assert_eq!(
        plan,
        vec![
            ("/home/u/.pi/agent/skills".to_string(), SkillSource::User, PathAction::ScanDirectory),
            ("/proj/.pi/skills".to_string(), SkillSource::Project, PathAction::ScanDirectory),
            ("/proj/extra".to_string(), SkillSource::Path, PathAction::ScanDirectory),
            ("/proj/one.md".to_string(), SkillSource::Path, PathAction::LoadFile),
            (
                "/proj/gone".to_string(),
                SkillSource::Path,
                PathAction::Warn("skill path does not exist".to_string())
            ),
        ]
    );
    let untrusted = LoadSkillsOptions { project_trusted: false, skill_paths: Vec::new(), ..options };
    assert_eq!(skill_load_plan(&untrusted, "/proj", None, &[]).len(), 1);
}

#[test]
fn merged_skill_loads_keep_the_first_name_and_report_collisions_last() {
    let warning = SkillDiagnostic::warning("skill path does not exist".to_string(), Some("/gone".to_string()));
    let loads = vec![
        (
            SkillsLoadResult { skills: vec![skill("a", "/u/a/SKILL.md")], diagnostics: Vec::new() },
            vec!["/u/a/SKILL.md".to_string()],
        ),
        (
            SkillsLoadResult {
                skills: vec![skill("a", "/p/a/SKILL.md"), skill("b", "/p/b/SKILL.md"), skill("a", "/u/a/SKILL.md")],
                diagnostics: vec![warning.clone()],
            },
            vec!["/p/a/SKILL.md".to_string(), "/p/b/SKILL.md".to_string(), "/u/a/SKILL.md".to_string()],
        ),
    ];
    let merged = merge_skill_loads(loads);
    let names: Vec<&str> = merged.skills.iter().map(|s| s.name.as_str()).collect();
    assert_eq!(names, vec!["a", "b"]);
    assert_eq!(merged.skills[0].file_path, "/u/a/SKILL.md");
    assert_eq!(merged.diagnostics.len(), 2);
    assert_eq!(merged.diagnostics[0], warning);
    assert_eq!(merged.diagnostics[1].kind, DiagnosticKind::Collision);
    assert_eq!(merged.diagnostics[1].message, "name \"a\" collision");
    assert_eq!(merged.diagnostics[1].path.as_deref(), Some("/p/a/SKILL.md"));
}

#[test]
fn template_plans_and_merges() {
    let options = LoadPromptTemplatesOptions {
        cwd: "/proj".to_string(),
        agent_dir: "/a".to_string(),
        prompt_paths: vec!["notes.txt".to_string()],
        include_defaults: true,
        project_trusted: false,
    };
    assert_eq!(
        template_load_plan(&options, "/run", None, &[PathKind::File]),
        vec![
            ("/a/prompts".to_string(), PromptTemplateSource::User, PathAction::ScanDirectory),
            (
                "/run/notes.txt".to_string(),
                PromptTemplateSource::Path,
                PathAction::Warn("prompt template path is not a markdown file".to_string())
            ),
        ]
    );
    let warning = PromptTemplateDiagnostic {
        message: "prompt template path is not a markdown file".to_string(),
        path: Some("/run/notes.txt".to_string()),
    };
    let merged = merge_template_loads(vec![
        PromptTemplatesLoadResult { templates: vec![template("x", "/a/prompts/x.md")], diagnostics: Vec::new() },
        PromptTemplatesLoadResult { templates: Vec::new(), diagnostics: vec![warning.clone()] },
        PromptTemplatesLoadResult { templates: vec![template("x", "/p/x.md"), template("y", "/p/y.md")], diagnostics: Vec::new() },
    ]);
    let names: Vec<&str> = merged.templates.iter().map(|t| t.name.as_str()).collect();
    assert_eq!(names, vec!["x", "y"]);
    assert_eq!(merged.diagnostics.len(), 2);
    assert_eq!(merged.diagnostics[0], warning);
    assert_eq!(merged.diagnostics[1].message, "prompt template \"x\" collision");
    assert_eq!(merged.diagnostics[1].path.as_deref(), Some("/p/x.md"));
}
