use pi_coding_agent::skills::{Skill, SkillSource};
use pi_coding_agent::system_prompt::{
    build_system_prompt, builtin_prompt_contributions, builtin_tool_contribution,
    pi_docs_candidates, ContextFile, PiDocs, SystemPromptOptions, ToolSnippets,
};

fn options() -> SystemPromptOptions {
    SystemPromptOptions {
        cwd: "/work/project".to_string(),
        ..Default::default()
    }
}

fn skill(name: &str, description: &str) -> Skill {
    Skill {
        name: name.to_string(),
        description: description.to_string(),
        file_path: format!("/skills/{name}/SKILL.md"),
        base_dir: format!("/skills/{name}"),
        source: SkillSource::User,
        disable_model_invocation: false,
    }
}

#[test]
fn default_prompt_lists_tools_and_guidelines() {
    let (snippets, guidelines) = builtin_prompt_contributions(
        &["read", "bash", "edit", "write", "find", "grep", "ls"]
            .iter()
            .map(|tool| tool.to_string())
            .collect::<Vec<_>>(),
    );

    let prompt = build_system_prompt(&SystemPromptOptions {
        selected_tools: snippets.keys(),
        tool_snippets: snippets,
        prompt_guidelines: guidelines,
        ..options()
    });

    assert!(prompt.starts_with("You are an expert coding assistant operating inside pi"));
    assert!(prompt.contains("- read: Read file contents"));
    assert!(prompt.contains("- bash: Execute bash commands (ls, grep, find, etc.)"));
    assert!(prompt.contains("- ls: List directory contents"));
    assert!(prompt.contains("- Use read to examine files instead of cat or sed."));
    assert!(prompt.contains("- Be concise in your responses"));
    assert!(prompt.contains("- Show file paths clearly when working with files"));
    assert!(!prompt.contains("Use bash for file operations like ls, rg, find"));
    assert!(prompt.ends_with("Current working directory: /work/project"));
}

#[test]
fn bash_only_selection_gets_the_exploration_guideline() {
    let (snippets, guidelines) =
        builtin_prompt_contributions(&["read".to_string(), "bash".to_string()]);

    let prompt = build_system_prompt(&SystemPromptOptions {
        selected_tools: vec!["read".to_string(), "bash".to_string()],
        tool_snippets: snippets,
        prompt_guidelines: guidelines,
        ..options()
    });

    assert!(prompt.contains("- Use bash for file operations like ls, rg, find"));
}

#[test]
fn tools_without_a_snippet_are_hidden_and_none_is_reported() {
    let prompt = build_system_prompt(&SystemPromptOptions {
        selected_tools: vec!["custom_extension_tool".to_string()],
        ..options()
    });

    assert!(prompt.contains("Available tools:\n(none)"));
}

#[test]
fn default_tool_list_matches_the_ts_default() {
    let prompt = build_system_prompt(&options());
    assert!(prompt.contains("Available tools:\n(none)"));
    assert!(prompt.contains("- Be concise in your responses"));
}

#[test]
fn omits_the_documentation_section_without_docs() {
    let prompt = build_system_prompt(&options());
    assert!(!prompt.contains("Pi documentation"));
}

#[test]
fn includes_the_documentation_section_with_docs() {
    let prompt = build_system_prompt(&SystemPromptOptions {
        docs: Some(PiDocs {
            readme: "/pkg/README.md".to_string(),
            docs: "/pkg/docs".to_string(),
            examples: "/pkg/examples".to_string(),
        }),
        ..options()
    });

    assert!(prompt.contains("- Main documentation: /pkg/README.md"));
    assert!(prompt.contains("- Additional docs: /pkg/docs"));
    assert!(prompt.contains("- Examples: /pkg/examples (extensions, custom tools, SDK)"));
    assert!(prompt.contains("docs/skills.md"));
}

#[test]
fn appends_project_context_files_after_the_prompt() {
    let prompt = build_system_prompt(&SystemPromptOptions {
        context_files: vec![ContextFile {
            path: "/work/project/AGENTS.md".to_string(),
            content: "Be careful.".to_string(),
        }],
        ..options()
    });

    assert!(prompt.contains("<project_context>"));
    assert!(prompt.contains(
        "<project_instructions path=\"/work/project/AGENTS.md\">\nBe careful.\n</project_instructions>"
    ));
    assert!(prompt.contains("</project_context>"));
    let context = prompt.find("<project_context>").unwrap();
    let cwd = prompt.find("Current working directory").unwrap();
    assert!(context < cwd);
}

#[test]
fn appends_skills_only_when_a_reading_tool_is_available() {
    let skills = vec![skill("demo", "A demo skill.")];

    let with_read = build_system_prompt(&SystemPromptOptions {
        selected_tools: vec!["read".to_string()],
        skills: skills.clone(),
        ..options()
    });
    assert!(with_read.contains("<available_skills>"));
    assert!(with_read.contains("<name>demo</name>"));

    let without_reader = build_system_prompt(&SystemPromptOptions {
        selected_tools: vec!["edit".to_string()],
        skills,
        ..options()
    });
    assert!(!without_reader.contains("<available_skills>"));
}

#[test]
fn append_system_prompt_lands_before_the_context_files() {
    let prompt = build_system_prompt(&SystemPromptOptions {
        append_system_prompt: Some("EXTRA RULES".to_string()),
        context_files: vec![ContextFile {
            path: "/work/project/AGENTS.md".to_string(),
            content: "context".to_string(),
        }],
        ..options()
    });

    let extra = prompt.find("EXTRA RULES").unwrap();
    let context = prompt.find("<project_context>").unwrap();
    assert!(extra < context);
}

#[test]
fn custom_prompt_replaces_the_builtin_body() {
    let prompt = build_system_prompt(&SystemPromptOptions {
        custom_prompt: Some("You are a custom agent.".to_string()),
        context_files: vec![ContextFile {
            path: "/work/project/AGENTS.md".to_string(),
            content: "Be careful.".to_string(),
        }],
        skills: vec![skill("demo", "A demo skill.")],
        selected_tools: vec!["read".to_string()],
        ..options()
    });

    assert!(prompt.starts_with("You are a custom agent."));
    assert!(!prompt.contains("Available tools:"));
    assert!(prompt.contains("<project_context>"));
    assert!(prompt.contains("<available_skills>"));
    assert!(prompt.ends_with("Current working directory: /work/project"));
}

#[test]
fn custom_prompt_gets_append_and_cwd() {
    let prompt = build_system_prompt(&SystemPromptOptions {
        custom_prompt: Some("Custom.".to_string()),
        append_system_prompt: Some("Appended.".to_string()),
        ..options()
    });

    assert_eq!(
        prompt,
        "Custom.\n\nAppended.\nCurrent working directory: /work/project"
    );
}

#[test]
fn windows_style_paths_are_printed_with_forward_slashes() {
    let prompt = build_system_prompt(&SystemPromptOptions {
        cwd: "C:\\work\\project".to_string(),
        ..options()
    });

    assert!(prompt.ends_with("Current working directory: C:/work/project"));
}

#[test]
fn guidelines_are_trimmed_deduplicated_and_ordered() {
    let prompt = build_system_prompt(&SystemPromptOptions {
        custom_prompt: None,
        selected_tools: vec!["powershell".to_string()],
        prompt_guidelines: vec![
            "  Be concise in your responses ".to_string(),
            "".to_string(),
            "Extra".to_string(),
            "Extra".to_string(),
        ],
        ..options()
    });
    assert!(prompt.contains(
        "Guidelines:\n- Use PowerShell for file operations like listing, searching, and finding files\n- Be concise in your responses\n- Extra\n- Show file paths clearly when working with files\nCurrent working directory: /work/project"
    ));
}

#[test]
fn snippets_are_an_ordered_map() {
    let mut snippets = ToolSnippets::new();
    snippets.insert("write".to_string(), "w".to_string());
    snippets.insert("bash".to_string(), "b".to_string());
    snippets.insert("read".to_string(), "r".to_string());
    snippets.insert("bash".to_string(), "B".to_string());
    assert_eq!(snippets.keys(), vec!["bash".to_string(), "read".to_string(), "write".to_string()]);
    assert_eq!(snippets.get("bash").map(String::as_str), Some("B"));
    assert!(!snippets.contains_key("ls"));
    assert!(builtin_tool_contribution("custom").is_none());
    assert_eq!(builtin_tool_contribution("edit").expect("edit").guidelines.len(), 4);
}

#[test]
fn documentation_candidates_follow_the_lookup_order() {
    let candidates = pi_docs_candidates(Some("/pkg"), Some("/repo/pi-rust/target/release/pi"));
    let roots: Vec<&str> = candidates.iter().map(|d| d.readme.as_str()).collect();
    assert_eq!(
        roots,
        vec![
            "/pkg/README.md",
            "/repo/pi-rust/target/release/../share/pi/README.md",
            "/repo/pi-rust/README.md",
        ]
    );
    assert_eq!(candidates[0].docs, "/pkg/docs");
    assert!(pi_docs_candidates(None, None).is_empty());
}
