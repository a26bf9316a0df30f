use pi_coding_agent::paths::{PathAction, PathKind};
use pi_coding_agent::prompt_templates::{
    add_templates, classify_template_path, default_template_dirs, expand_prompt_template,
    find_prompt_template, is_template_file_name, parse_command_args, substitute_args,
    template_from_content, LoadPromptTemplatesOptions, PromptTemplate, PromptTemplateSource,
    PromptTemplatesLoadResult, TemplateFrontmatter,
};

fn template(name: &str, content: &str) -> PromptTemplate {
    PromptTemplate {
        name: name.to_string(),
        description: String::new(),
        argument_hint: None,
        content: content.to_string(),
        file_path: format!("/prompts/{name}.md"),
        source: PromptTemplateSource::User,
    }
}

#[test]
fn parses_quoted_command_arguments() {
    assert_eq!(
        parse_command_args("a b  c"),
        vec!["a".to_string(), "b".to_string(), "c".to_string()]
    );
    assert_eq!(
        parse_command_args("\"a b\" 'c d' e"),
        vec!["a b".to_string(), "c d".to_string(), "e".to_string()]
    );
    assert!(parse_command_args("   ").is_empty());
}

#[test]
fn substitutes_positional_and_all_args() {
    let args = vec!["one".to_string(), "two".to_string(), "three".to_string()];
    assert_eq!(substitute_args("$1-$2", &args), "one-two");
    assert_eq!(substitute_args("$@", &args), "one two three");
    assert_eq!(substitute_args("$ARGUMENTS", &args), "one two three");
    assert_eq!(substitute_args("$4", &args), "");
}

#[test]
fn substitutes_defaults() {
    let args = vec!["one".to_string()];
    assert_eq!(substitute_args("${1:-fallback}", &args), "one");
    assert_eq!(substitute_args("${2:-fallback}", &args), "fallback");
    assert_eq!(substitute_args("${@:-none}", &args), "one");
    assert_eq!(substitute_args("${@:-none}", &[]), "none");
    assert_eq!(substitute_args("${ARGUMENTS:-none}", &[]), "none");
}

#[test]
fn substitutes_slices() {
    let args = vec![
        "a".to_string(),
        "b".to_string(),
        "c".to_string(),
        "d".to_string(),
    ];
    assert_eq!(substitute_args("${@:2}", &args), "b c d");
    assert_eq!(substitute_args("${@:2:2}", &args), "b c");
    assert_eq!(substitute_args("${@:1:1}", &args), "a");
    assert_eq!(substitute_args("${@:9}", &args), "");
}

#[test]
fn does_not_recursively_substitute_values() {
    let args = vec!["$1".to_string()];
    assert_eq!(substitute_args("$1", &args), "$1");
}

#[test]
fn expands_a_matching_template() {
    let templates = vec![template("greet", "Hello $1 from $2!")];
    assert_eq!(
        expand_prompt_template("/greet alice bob", &templates),
        "Hello alice from bob!"
    );
}

#[test]
fn leaves_non_templates_untouched() {
    let templates = vec![template("greet", "Hello $1!")];
    assert_eq!(expand_prompt_template("hello", &templates), "hello");
    assert_eq!(expand_prompt_template("/help", &templates), "/help");
    assert_eq!(expand_prompt_template("/greet", &[]), "/greet");
}

#[test]
fn placeholders_that_do_not_parse_stay_literal() {
    let args = vec!["x".to_string()];
    assert_eq!(substitute_args("cost: $", &args), "cost: $");
    assert_eq!(substitute_args("${ARGUMENTS}", &args), "${ARGUMENTS}");
    assert_eq!(substitute_args("${1:-open", &args), "${1:-open");
    assert_eq!(substitute_args("$$1", &args), "$x");
    assert_eq!(substitute_args("$10", &args), "");
    assert_eq!(substitute_args("${0:-zero}", &args), "zero");
    assert_eq!(substitute_args("$ARGUMENTSX", &args), "xX");
    assert_eq!(substitute_args("${@:0}", &args), "x");
    assert_eq!(substitute_args("${@:1:0}", &args), "");
    assert_eq!(
        substitute_args("$99999999999999999999999", &args),
        ""
    );
}

#[test]
fn non_ascii_digits_are_digits_that_do_not_parse() {
    let args = vec!["x".to_string()];
    assert_eq!(substitute_args("$\u{663}", &args), "");
    assert_eq!(substitute_args("${\u{663}:-d}", &args), "d");
}

#[test]
fn find_returns_the_first_template_and_the_trimmed_arguments() {
    let templates = vec![template("greet", "one"), template("greet", "two")];
    let (found, args) = find_prompt_template("/greet   a b", &templates).expect("match");
    assert_eq!(found.content, "one");
    assert_eq!(args, "a b");
    assert!(find_prompt_template("/", &templates).is_none());
    assert!(find_prompt_template("/ greet", &templates).is_none());
    assert!(find_prompt_template("greet", &templates).is_none());
}

#[test]
fn templates_take_their_stem_and_a_generated_description() {
    let t = template_from_content(
        "/p/plain.md",
        PromptTemplateSource::Path,
        Some((
            TemplateFrontmatter { description: None, argument_hint: Some(String::new()) },
            "\n  \nFirst line description.\r\n\nBody.\n".to_string(),
        )),
    )
    .expect("template");
    assert_eq!(t.name, "plain");
    assert_eq!(t.description, "First line description.");
    assert_eq!(t.argument_hint, None);
    let long = "x".repeat(100);
    let t = template_from_content(
        "/p/long.md",
        PromptTemplateSource::Path,
        Some((
            TemplateFrontmatter { description: None, argument_hint: None },
            format!("{long}\n"),
        )),
    )
    .expect("template");
    assert_eq!(t.description.chars().count(), 63);
    assert!(t.description.ends_with("..."));
    let t = template_from_content(
        "/p/greet.md",
        PromptTemplateSource::User,
        Some((
            TemplateFrontmatter {
                description: Some("Greets someone.".to_string()),
                argument_hint: Some("<name>".to_string()),
            },
            "Hello $1!".to_string(),
        )),
    )
    .expect("template");
    assert_eq!(t.description, "Greets someone.");
    assert_eq!(t.argument_hint.as_deref(), Some("<name>"));
    assert!(template_from_content("/p/x.md", PromptTemplateSource::User, None).is_none());
}

#[test]
fn the_first_template_name_wins() {
    let mut result = PromptTemplatesLoadResult::default();
    add_templates(&mut result, vec![template("shared", "agent")]);
    add_templates(
        &mut result,
        vec![template("shared", "project"), template("extra", "explicit")],
    );
    assert_eq!(result.templates.len(), 2);
    assert_eq!(result.templates[0].content, "agent");
    assert_eq!(result.templates[1].name, "extra");
    assert_eq!(result.diagnostics.len(), 1);
    assert_eq!(
        result.diagnostics[0].message,
        "prompt template \"shared\" collision"
    );
}

#[test]
fn template_locations_and_paths() {
    let options = LoadPromptTemplatesOptions {
        cwd: "/work".to_string(),
        agent_dir: "/home/u/.pi/agent".to_string(),
        prompt_paths: Vec::new(),
        include_defaults: true,
        project_trusted: false,
    };
    assert_eq!(
        default_template_dirs(&options),
        vec![("/home/u/.pi/agent/prompts".to_string(), PromptTemplateSource::User)]
    );
    assert_eq!(
        classify_template_path("/x/nope.md", PathKind::Missing),
        PathAction::Warn("prompt template path does not exist".to_string())
    );
    assert_eq!(
        classify_template_path("/x/extra.md", PathKind::File),
        PathAction::LoadFile
    );
    assert!(is_template_file_name("greet.md"));
    assert!(!is_template_file_name("ignored.txt"));
    assert_eq!(PromptTemplateSource::Project.as_str(), "project");
}
