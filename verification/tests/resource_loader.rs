use pi_coding_agent::prompt_templates::{
    PromptTemplate, PromptTemplateDiagnostic, PromptTemplateSource, PromptTemplatesLoadResult,
};
use pi_coding_agent::resource_loader::{
    load_resources, skill_load_options, template_load_options, DiscoveredFiles,
    ExtensionToolPrompt, LoadedResources, ResourceLoadOptions,
};
use pi_coding_agent::skills::{DiagnosticKind, Skill, SkillDiagnostic, SkillSource, SkillsLoadResult};
use pi_coding_agent::system_prompt::ContextFile;

fn skill(name: &str, description: &str) -> Skill {
    Skill {
        name: name.to_string(),
        description: description.to_string(),
        file_path: format!("/p/.pi/skills/{name}/SKILL.md"),
        base_dir: format!("/p/.pi/skills/{name}"),
        source: SkillSource::Project,
        disable_model_invocation: false,
    }
}

fn template(name: &str, content: &str) -> PromptTemplate {
    PromptTemplate {
        name: name.to_string(),
        description: String::new(),
        argument_hint: None,
        content: content.to_string(),
        file_path: format!("/p/.pi/prompts/{name}.md"),
        source: PromptTemplateSource::Project,
    }
}

fn files() -> DiscoveredFiles {
    DiscoveredFiles {
        context_files: vec![ContextFile {
            path: "/p/AGENTS.md".to_string(),
            content: "Be careful.\n".to_string(),
        }],
        skills: SkillsLoadResult {
            skills: vec![skill("demo", "Demo skill.")],
            diagnostics: Vec::new(),
        },
        system_prompt: None,
        append_system_prompt: None,
        templates: PromptTemplatesLoadResult::default(),
        trust_requiring_resources: true,
    }
}

fn bundle() -> Vec<String> {
    ["read", "bash", "edit", "write", "grep", "find", "ls"]
        .iter()
        .map(|t| t.to_string())
        .collect()
}

#[test]
fn prompt_contains_builtin_tools_context_and_skills() {
    let loaded = load_resources(&ResourceLoadOptions::default(), files());
    let prompt = loaded.build_system_prompt("/p", &bundle(), None);
    assert!(prompt.contains("- read: Read file contents"));
    assert!(prompt.contains("- ls: List directory contents"));
    assert!(prompt.contains("Project-specific instructions and guidelines:"));
    assert!(prompt.contains("Be careful."));
    assert!(prompt.contains("<name>demo</name>"));
    assert!(prompt.contains("Demo skill."));
    assert!(prompt.contains("Current working directory: /p"));
    assert!(loaded.diagnostics.is_empty());
    assert!(loaded.trust_requiring_resources);
}

#[test]
fn no_context_files_and_no_skills_disable_discovery() {
    let options = ResourceLoadOptions {
        no_skills: true,
        no_context_files: true,
        ..ResourceLoadOptions::default()
    };
    let loaded = load_resources(&options, files());
    let prompt = loaded.build_system_prompt("/p", &bundle(), None);
    assert!(loaded.skills.is_empty());
    assert!(loaded.context_files.is_empty());
    assert!(!prompt.contains("Be careful."));
    assert!(!prompt.contains("<available_skills>"));
}

#[test]
fn global_system_and_append_prompt_files_are_honoured() {
    let mut found = files();
    found.system_prompt = Some("You are a custom agent.".to_string());
    found.append_system_prompt = Some("Loader rule.".to_string());
    let options = ResourceLoadOptions {
        append_system_prompt: vec!["CLI rule.".to_string(), String::new()],
        ..ResourceLoadOptions::default()
    };
    let loaded = load_resources(&options, found);
    assert_eq!(loaded.custom_prompt.as_deref(), Some("You are a custom agent."));
    assert_eq!(
        loaded.append_system_prompt.as_deref(),
        Some("Loader rule.\n\nCLI rule.")
    );
    let prompt = loaded.build_system_prompt("/p", &bundle(), None);
    assert!(prompt.starts_with("You are a custom agent."));
    let loader_rule = prompt.find("Loader rule.").unwrap();
    let cli_rule = prompt.find("CLI rule.").unwrap();
    assert!(loader_rule < cli_rule);
}

#[test]
fn a_blank_system_file_is_not_a_custom_prompt() {
    let mut found = files();
    found.system_prompt = Some("  \n ".to_string());
    found.append_system_prompt = Some(String::new());
    let loaded = load_resources(&ResourceLoadOptions::default(), found);
    assert_eq!(loaded.custom_prompt, None);
    assert_eq!(loaded.append_system_prompt, None);
}

#[test]
fn load_options_follow_the_flags() {
    let options = ResourceLoadOptions {
        cwd: "/p".to_string(),
        agent_dir: "/home/u/.pi/agent".to_string(),
        skill_paths: vec!["/extra".to_string()],
        prompt_template_paths: vec!["/tmp/prompts".to_string()],
        no_prompt_templates: true,
        project_trusted: false,
        ..ResourceLoadOptions::default()
    };
    let skills = skill_load_options(&options);
    assert!(skills.include_defaults);
    assert!(!skills.project_trusted);
    assert_eq!(skills.skill_paths, vec!["/extra".to_string()]);
    let templates = template_load_options(&options);
    assert!(!templates.include_defaults);
    assert_eq!(templates.prompt_paths, vec!["/tmp/prompts".to_string()]);
    assert_eq!(templates.cwd, "/p");
}

#[test]
fn extension_tool_prompts_are_folded_into_the_system_prompt() {
    let loaded = load_resources(&ResourceLoadOptions::default(), files());
    let tools = vec![
        ExtensionToolPrompt {
            name: "custom_search".to_string(),
            snippet: Some("Search the web".to_string()),
            guidelines: vec!["Cite sources".to_string(), "   ".to_string()],
        },
        ExtensionToolPrompt {
            name: "silent_tool".to_string(),
            snippet: None,
            guidelines: Vec::new(),
        },
    ];
    let prompt = loaded.build_system_prompt_with_extension_tools("/p", &bundle(), &tools, None);
    assert!(prompt.contains("- custom_search: Search the web"), "{prompt}");
    assert!(prompt.contains("- Cite sources"), "{prompt}");
    assert!(!prompt.contains("silent_tool"), "{prompt}");
}

#[test]
fn prompt_options_append_extension_tools_once() {
    let loaded = load_resources(&ResourceLoadOptions::default(), files());
    let tools = vec![
        ExtensionToolPrompt {
            name: "read".to_string(),
            snippet: Some("  Read anything  ".to_string()),
            guidelines: Vec::new(),
        },
        ExtensionToolPrompt {
            name: "x".to_string(),
            snippet: Some(" ".to_string()),
            guidelines: vec![" g ".to_string()],
        },
    ];
    let o = loaded.prompt_options("/p", &["read".to_string()], &tools, None);
    assert_eq!(o.selected_tools, vec!["read".to_string(), "x".to_string()]);
    assert_eq!(
        o.tool_snippets.get("read").map(|s| s.as_str()),
        Some("Read anything")
    );
    assert!(!o.tool_snippets.contains_key("x"));
    assert_eq!(o.prompt_guidelines.last().map(|s| s.as_str()), Some("g"));
    assert_eq!(o.cwd, "/p");
}

fn empty_loaded() -> LoadedResources {
    load_resources(
        &ResourceLoadOptions::default(),
        DiscoveredFiles {
            context_files: Vec::new(),
            skills: SkillsLoadResult {
                skills: vec![skill("dup", "Project wins.")],
                diagnostics: Vec::new(),
            },
            system_prompt: None,
            append_system_prompt: None,
            templates: PromptTemplatesLoadResult {
                templates: vec![template("note", "PROJECT TEMPLATE\n")],
                diagnostics: Vec::new(),
            },
            trust_requiring_resources: false,
        },
    )
}

#[test]
fn extension_resources_never_shadow_existing_names() {
    let mut loaded = empty_loaded();
    loaded.extend_extension_resources(
        Some(SkillsLoadResult {
            skills: vec![skill("dup", "Extension loses."), skill("from-ext", "From an extension.")],
            diagnostics: Vec::new(),
        }),
        Some(PromptTemplatesLoadResult {
            templates: vec![template("note", "EXTENSION TEMPLATE\n"), template("dyn", "EXT\n")],
            diagnostics: Vec::new(),
        }),
    );
    let names: Vec<&str> = loaded.skills.iter().map(|s| s.name.as_str()).collect();
    assert_eq!(names, vec!["dup", "from-ext"]);
    assert_eq!(loaded.skills[0].description, "Project wins.");
    let note = loaded
        .prompt_templates
        .iter()
        .find(|t| t.name == "note")
        .expect("project template present");
    assert_eq!(note.content.trim(), "PROJECT TEMPLATE");
    assert!(loaded.prompt_templates.iter().any(|t| t.name == "dyn"));
    assert!(loaded.prompt_diagnostics.is_empty());
    assert!(loaded.diagnostics.is_empty());
}

#[test]
fn missing_extension_resource_path_is_a_diagnostic() {
    let mut loaded = empty_loaded();
    loaded.extend_extension_resources(
        Some(SkillsLoadResult {
            skills: Vec::new(),
            diagnostics: vec![SkillDiagnostic {
                kind: DiagnosticKind::Warning,
                message: "skill path does not exist".to_string(),
                path: Some("/nope/SKILL.md".to_string()),
            }],
        }),
        Some(PromptTemplatesLoadResult {
            templates: Vec::new(),
            diagnostics: vec![PromptTemplateDiagnostic {
                message: "prompt template path does not exist".to_string(),
                path: Some("/nope/note.md".to_string()),
            }],
        }),
    );
    assert_eq!(loaded.diagnostics.len(), 1);
    assert_eq!(loaded.prompt_diagnostics.len(), 1);
    assert_eq!(loaded.skills.len(), 1);
}

#[test]
fn extending_with_nothing_changes_nothing() {
    let mut loaded = empty_loaded();
    loaded.extend_extension_resources(None, None);
    assert_eq!(loaded.skills.len(), 1);
    assert_eq!(loaded.prompt_templates.len(), 1);
}
