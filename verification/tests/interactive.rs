use pi_coding_agent::interactive::{is_live_session, picker_kind, session_picker_footer, session_picker_title, PickerKind};
use pi_coding_agent::interactive::{
    append_prompt_templates, available_provider_count, describe_outcome, extension_command_args,
    help_text_with_extensions, is_fallback_sufficient_theme_error, is_subscription_provider,
    normalize_session_name, quote_if_needed, render_event, AuthEvent, AuthInfoLink, BashCallIds,
    LoginOutcome,
};
use pi_coding_agent::prompt_templates::{PromptTemplate, PromptTemplateSource};

#[test]
fn theme_not_found_is_silent() {
    assert!(is_fallback_sufficient_theme_error("Theme not found: upup-dark"));
}

#[test]
fn invalid_theme_name_is_silent() {
    assert!(is_fallback_sufficient_theme_error(
        "Invalid theme name: \"/etc/passwd\""
    ));
}

#[test]
fn structural_theme_errors_still_flash() {
    assert!(!is_fallback_sufficient_theme_error(
        "Invalid theme \"dark\": missing color token \"toolPendingBg\""
    ));
    assert!(!is_fallback_sufficient_theme_error("Invalid hex color: #xyz"));
    assert!(!is_fallback_sufficient_theme_error(
        "Variable reference not found: undefined-token"
    ));
}

#[test]
fn describe_outcome_renders_each_variant() {
    let stored = LoginOutcome::Stored {
        provider_id: "github-copilot".into(),
        subscription: true,
    };
    assert!(describe_outcome(&stored).contains("github-copilot"));
    assert!(describe_outcome(&LoginOutcome::Aborted).contains("cancelled"));
    assert!(describe_outcome(&LoginOutcome::UnknownProvider("nope".into())).contains("unknown"));
    assert!(describe_outcome(&LoginOutcome::NotOAuthProvider("anthropic".into()))
        .contains("does not use OAuth"));
    assert!(describe_outcome(&LoginOutcome::Failed("nope".into())).contains("nope"));
}

#[test]
fn describe_outcome_exact_lines() {
    let plain = LoginOutcome::Stored {
        provider_id: "kimi-coding".into(),
        subscription: false,
    };
    assert_eq!(describe_outcome(&plain), "Credentials saved for kimi-coding.");
    assert_eq!(describe_outcome(&LoginOutcome::Aborted), "/login cancelled.");
    assert_eq!(
        describe_outcome(&LoginOutcome::UnknownProvider("x".into())),
        "/login x: unknown provider id."
    );
    assert_eq!(
        describe_outcome(&LoginOutcome::Failed("boom".into())),
        "/login failed: boom"
    );
}

#[test]
fn render_event_device_code_includes_user_code_and_uri() {
    let event = AuthEvent::DeviceCode {
        user_code: "ABCD-1234".into(),
        verification_uri: "https://github.com/login/device".into(),
        interval_seconds: Some(5),
        expires_in_seconds: Some(900),
    };
    let body = render_event(&event);
    assert!(body.contains("ABCD-1234"));
    assert!(body.contains("https://github.com/login/device"));
    assert!(body.contains("Polling every 5s"));
    assert!(body.contains("Code expires in 900s"));
}

#[test]
fn render_event_auth_url_includes_instructions() {
    let event = AuthEvent::AuthUrl {
        url: "https://auth.openai.com/...".into(),
        instructions: Some("Sign in with your ChatGPT account".into()),
    };
    let body = render_event(&event);
    assert!(body.contains("https://auth.openai.com/..."));
    assert!(body.contains("Sign in with your ChatGPT account"));
}

#[test]
fn render_event_info_includes_links() {
    let event = AuthEvent::Info {
        message: "Copilot needs an OAuth token".into(),
        links: vec![AuthInfoLink {
            url: "https://github.com/settings/tokens".into(),
            label: Some("Tokens".into()),
        }],
    };
    let body = render_event(&event);
    assert!(body.contains("Copilot needs an OAuth token"));
    assert!(body.contains("https://github.com/settings/tokens"));
}

#[test]
fn render_event_exact_texts() {
    let info = AuthEvent::Info {
        message: "Note".into(),
        links: vec![
            AuthInfoLink {
                url: "https://a".into(),
                label: Some("A".into()),
            },
            AuthInfoLink {
                url: "https://b".into(),
                label: None,
            },
        ],
    };
    assert_eq!(render_event(&info), "Note\n  A: https://a\n  https://b\n");
    let bare = AuthEvent::Info {
        message: "Only".into(),
        links: Vec::new(),
    };
    assert_eq!(render_event(&bare), "Only");
    let code = AuthEvent::DeviceCode {
        user_code: "X".into(),
        verification_uri: "U".into(),
        interval_seconds: None,
        expires_in_seconds: Some(60),
    };
    assert_eq!(
        render_event(&code),
        "Device code: X\nVisit: U\nEnter the code above to authorize.\nCode expires in 60s."
    );
    let progress = AuthEvent::Progress {
        message: "waiting".into(),
    };
    assert_eq!(render_event(&progress), "\u{2026} waiting");
    let url = AuthEvent::AuthUrl {
        url: "https://x".into(),
        instructions: None,
    };
    assert_eq!(render_event(&url), "Open this URL in your browser:\n  https://x");
}

#[test]
fn quote_if_needed_leaves_safe_values_bare() {
    assert_eq!(quote_if_needed("src/main.rs"), "src/main.rs");
    assert_eq!(quote_if_needed("user@host:~/x_y-z.1"), "user@host:~/x_y-z.1");
}

#[test]
fn quote_if_needed_quotes_and_escapes() {
    assert_eq!(quote_if_needed(""), "''");
    assert_eq!(quote_if_needed("a b"), "'a b'");
    assert_eq!(quote_if_needed("it's"), "'it'\\''s'");
    assert_eq!(quote_if_needed("caf\u{e9}"), "'caf\u{e9}'");
}

#[test]
fn extension_command_args_takes_the_text_after_the_name() {
    assert_eq!(extension_command_args("/deploy  prod  now "), "prod  now");
    assert_eq!(extension_command_args("  //deploy\tx"), "x");
    assert_eq!(extension_command_args("/deploy"), "");
    assert_eq!(extension_command_args(""), "");
}

#[test]
fn normalize_session_name_collapses_line_breaks() {
    assert_eq!(normalize_session_name("  my\r\n\nsession \n"), "my session");
    assert_eq!(normalize_session_name("a\rb\nc"), "a b c");
    assert_eq!(normalize_session_name("\n\n"), "");
}

#[test]
fn subscription_provider_is_only_kimi_coding() {
    assert!(is_subscription_provider("kimi-coding"));
    assert!(!is_subscription_provider("openai"));
}

#[test]
fn provider_count_counts_distinct_providers() {
    let models = vec![
        ("openai".to_string(), "gpt-4o".to_string()),
        ("anthropic".to_string(), "sonnet".to_string()),
        ("openai".to_string(), "gpt-5".to_string()),
    ];
    assert_eq!(available_provider_count(&models), 2);
    assert_eq!(available_provider_count(&[]), 0);
}

#[test]
fn bash_call_ids_count_up() {
    let mut ids = BashCallIds::new();
    assert_eq!(ids.next_bash_call_id(), "local-bash-0");
    assert_eq!(ids.next_bash_call_id(), "local-bash-1");
    let mut last = BashCallIds { next: u64::MAX };
    assert_eq!(last.next_bash_call_id(), format!("local-bash-{}", u64::MAX));
    assert_eq!(last.next, 0);
}

fn template(name: &str, description: &str) -> PromptTemplate {
    PromptTemplate {
        name: name.to_string(),
        description: description.to_string(),
        argument_hint: None,
        content: String::new(),
        file_path: format!("/p/{name}.md"),
        source: PromptTemplateSource::User,
    }
}

#[test]
fn prompt_templates_are_spliced_before_the_keys_section() {
    let base = "commands:\n  /help\nkeys:\n  ctrl+c".to_string();
    let out = append_prompt_templates(
        base,
        &[template("review", "Review the diff"), template("x", "")],
    );
    assert_eq!(
        out,
        "commands:\n  /help\n\nprompt templates:\n  /review           Review the diff\n  /x\n\nkeys:\n  ctrl+c"
    );
}

#[test]
fn prompt_templates_are_appended_without_a_keys_section() {
    let out = append_prompt_templates("help".to_string(), &[template("a", "")]);
    assert_eq!(out, "help\n\nprompt templates:\n  /a\n");
    assert_eq!(append_prompt_templates("help".to_string(), &[]), "help");
}

#[test]
fn extension_commands_are_listed_like_templates() {
    let out = help_text_with_extensions(
        "help\nkeys:\nk".to_string(),
        &[("deploy".to_string(), "Ship it".to_string())],
    );
    assert_eq!(
        out,
        "help\n\nextension commands:\n  /deploy           Ship it\n\nkeys:\nk"
    );
}

#[test]
fn picker_kind_reads_the_first_value_then_the_title() {
    assert_eq!(picker_kind(Some("resume:abc"), "x"), PickerKind::Session);
    assert_eq!(picker_kind(Some("tree:1"), "Pick a session to resume"), PickerKind::Tree);
    assert_eq!(picker_kind(Some("scoped:openai/gpt"), "x"), PickerKind::ScopedModels);
    assert_eq!(picker_kind(Some("model:x"), "Session tree"), PickerKind::Other);
    assert_eq!(
        picker_kind(None, "Pick a session to resume \u{b7} sort: recent"),
        PickerKind::Session
    );
    assert_eq!(picker_kind(None, "Session tree"), PickerKind::Tree);
    assert_eq!(picker_kind(None, "Model Configuration"), PickerKind::ScopedModels);
    assert_eq!(picker_kind(None, "Select model"), PickerKind::Other);
}

#[test]
fn session_picker_texts() {
    assert_eq!(
        session_picker_title("recent", "all"),
        "Pick a session to resume \u{b7} sort: recent \u{b7} name: all"
    );
    assert_eq!(
        session_picker_footer(Some("abc"), "recent", "all", false, false),
        vec![
            "  Delete session abc?".to_string(),
            "  enter confirm \u{b7} esc cancel".to_string()
        ]
    );
    let footer = session_picker_footer(None, "recent", "named", true, true);
    assert_eq!(footer.len(), 3);
    assert_eq!(
        footer[0],
        "  ctrl+s sort (recent) \u{b7} ctrl+n named (named) \u{b7} ctrl+p path (on) \u{b7} ctrl+r rename"
    );
    assert_eq!(footer[2], "  no sessions listed? ctrl+n shows every session");
    assert_eq!(session_picker_footer(None, "a", "b", false, false).len(), 2);
    assert!(is_live_session("s1", None, "s1", "/db"));
    assert!(is_live_session("s1", Some("/db"), "s2", "/db"));
    assert!(!is_live_session("s1", Some("/db"), "s2", "/other"));
}
