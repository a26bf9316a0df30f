use pi_coding_agent::installer::InstallError;
use pi_coding_agent::package_commands::{
    installed_text, list_models_text, list_text, provider_ids, remove_outcome, sorted_models,
    update_models_text, version_text, CommandError, ModelSummary, PackageCommand,
};
use pi_coding_agent::package_spec::SpecError;
use pi_coding_agent::print_mode::OutputFormat;
use pi_coding_agent::registry::PackageEntry;

#[test]
fn exit_codes_follow_sysexits() {
    assert_eq!(CommandError::Spec(SpecError::Empty).exit_code(), 64);
    assert_eq!(CommandError::NotFound("x".into()).exit_code(), 66);
    assert_eq!(CommandError::Install(InstallError::Fetch("git".into())).exit_code(), 69);
    assert_eq!(CommandError::Install(InstallError::NotFound("/x".into())).exit_code(), 66);
    assert_eq!(CommandError::Registry("r".into()).exit_code(), 74);
    assert_eq!(CommandError::Io("io".into()).exit_code(), 74);
    assert_eq!(CommandError::Json("j".into()).exit_code(), 70);
}

#[test]
fn messages_are_transparent() {
    assert_eq!(
        CommandError::NotFound("npm:x".into()).message(),
        "no matching package found for npm:x"
    );
    assert_eq!(CommandError::Spec(SpecError::Empty).message(), "empty package spec");
    assert_eq!(
        CommandError::Install(InstallError::NotFound("/nope".into())).message(),
        "path does not exist: /nope"
    );
    assert_eq!(CommandError::Io("denied".into()).message(), "denied");
}

#[test]
fn provider_ids_are_sorted_and_unique() {
    let models = vec![
        ("openai".to_string(), "gpt-5".to_string()),
        ("anthropic".to_string(), "opus".to_string()),
        ("openai".to_string(), "gpt-4o".to_string()),
        ("faux".to_string(), "faux-model".to_string()),
    ];
    assert_eq!(
        provider_ids(&models),
        vec!["anthropic".to_string(), "faux".to_string(), "openai".to_string()]
    );
    assert!(provider_ids(&[]).is_empty());
}

#[test]
fn version_text_lists_the_providers() {
    assert_eq!(
        version_text("0.1.0", &["anthropic".to_string(), "openai".to_string()]),
        "pi 0.1.0\nproviders:\n  anthropic\n  openai\n"
    );
    assert_eq!(version_text("1.2.3", &[]), "pi 1.2.3\nproviders:\n");
}

#[test]
fn update_models_reports_the_count() {
    assert_eq!(
        update_models_text(42),
        "Model catalogs refreshed: 42 models (0 changes)\n"
    );
}

fn entry(name: &str) -> PackageEntry {
    PackageEntry {
        spec: format!("npm:{name}"),
        name: name.to_string(),
        resolved: format!("/root/packages/{name}"),
        installed_at: "2024-01-01T00:00:00Z".to_string(),
        extensions: Vec::new(),
    }
}

#[test]
fn list_and_install_texts() {
    assert_eq!(
        list_text(&[entry("a"), entry("b")]),
        "a  npm:a  /root/packages/a\nb  npm:b  /root/packages/b\n"
    );
    assert_eq!(list_text(&[]), "");
    assert_eq!(installed_text(&entry("a")), "Installed npm:a (/root/packages/a)\n");
}

#[test]
fn remove_reports_not_found() {
    assert_eq!(remove_outcome("npm:a", true), Ok("Removed npm:a\n".to_string()));
    let err = remove_outcome("npm:zz", false).unwrap_err();
    assert_eq!(err, CommandError::NotFound("npm:zz".into()));
    assert_eq!(err.exit_code(), 66);
}

#[test]
fn commands_carry_their_arguments() {
    let cmd = PackageCommand::Install {
        spec: "./pkg".into(),
        dir: Some("/tmp/root".into()),
    };
    assert!(matches!(cmd, PackageCommand::Install { ref spec, .. } if spec == "./pkg"));
    let list = PackageCommand::List {
        dir: None,
        output: OutputFormat::Json,
    };
    assert_eq!(
        list,
        PackageCommand::List {
            dir: None,
            output: OutputFormat::Json
        }
    );
}

fn model(provider: &str, id: &str, label: Option<&str>) -> ModelSummary {
    ModelSummary {
        provider: provider.to_string(),
        id: id.to_string(),
        label: label.map(str::to_string),
        context_window: 8192,
        max_output_tokens: 1024,
    }
}

#[test]
fn list_models_sorts_by_provider_then_id() {
    let models = vec![
        model("openai", "gpt-5", None),
        model("anthropic", "sonnet", Some("Sonnet")),
        model("openai", "gpt-4o", None),
        model("anthropic", "haiku", None),
    ];
    let sorted: Vec<String> = sorted_models(&models)
        .iter()
        .map(|m| format!("{}/{}", m.provider, m.id))
        .collect();
    assert_eq!(
        sorted,
        vec!["anthropic/haiku", "anthropic/sonnet", "openai/gpt-4o", "openai/gpt-5"]
    );
    assert_eq!(
        list_models_text(&models[..2]),
        "anthropic/sonnet  context=8192  max_output_tokens=1024  Sonnet\nopenai/gpt-5  context=8192  max_output_tokens=1024\n"
    );
    assert_eq!(list_models_text(&[]), "");
}
