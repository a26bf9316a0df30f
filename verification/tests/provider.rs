use pi_coding_agent::provider::{
    env_value, hint, require_error, resolve_extension_api_key, scoped_provider_env, ProviderError,
};

fn env(pairs: &[(&str, &str)]) -> Vec<(String, String)> {
    pairs
        .iter()
        .map(|(k, v)| (k.to_string(), v.to_string()))
        .collect()
}

fn names(list: &[&str]) -> Vec<String> {
    list.iter().map(|s| s.to_string()).collect()
}

#[test]
fn api_key_absent_or_blank_is_no_key() {
    assert_eq!(resolve_extension_api_key(None, &[]), Ok(None));
    assert_eq!(resolve_extension_api_key(Some("   "), &[]), Ok(None));
}

#[test]
fn api_key_literal_is_used_verbatim_after_trim() {
    assert_eq!(
        resolve_extension_api_key(Some("  sk-abc  "), &[]),
        Ok(Some("sk-abc".to_string()))
    );
}

#[test]
fn api_key_command_form_is_refused() {
    let err = resolve_extension_api_key(Some("!pass show key"), &[]).unwrap_err();
    assert!(err.contains("`!command` form is not supported"));
    assert!(err.ends_with("use a literal or $VAR instead"));
}

#[test]
fn api_key_variables_are_read_from_the_environment() {
    let e = env(&[("MY_KEY", "  secret "), ("EMPTY", "  ")]);
    assert_eq!(
        resolve_extension_api_key(Some("$MY_KEY"), &e),
        Ok(Some("secret".to_string()))
    );
    assert_eq!(
        resolve_extension_api_key(Some("${MY_KEY}"), &e),
        Ok(Some("secret".to_string()))
    );
    assert_eq!(
        resolve_extension_api_key(Some("$EMPTY"), &e),
        Err("apiKey references unset environment variable `EMPTY`".to_string())
    );
    assert_eq!(
        resolve_extension_api_key(Some("$NOPE"), &e),
        Err("apiKey references unset environment variable `NOPE`".to_string())
    );
    assert_eq!(
        resolve_extension_api_key(Some("$"), &e),
        Err("apiKey references an empty environment variable name".to_string())
    );
    assert_eq!(
        resolve_extension_api_key(Some("${}"), &e),
        Err("apiKey references an empty environment variable name".to_string())
    );
    // Without the closing brace the name keeps its opening one.
    assert_eq!(
        resolve_extension_api_key(Some("${MY_KEY"), &e),
        Err("apiKey references unset environment variable `{MY_KEY`".to_string())
    );
}

#[test]
fn env_value_takes_the_first_set_name() {
    let e = env(&[("B", " b "), ("A", ""), ("C", "c")]);
    assert_eq!(env_value(&e, &names(&["A", "B", "C"])), Some("b".to_string()));
    assert_eq!(env_value(&e, &names(&["A", "Z"])), None);
    assert_eq!(env_value(&e, &[]), None);
}

#[test]
fn scoped_env_keeps_the_set_names_in_order() {
    let e = env(&[("X", "1"), ("Y", "   "), ("Z", " 3 ")]);
    assert_eq!(
        scoped_provider_env(&e, &names(&["Z", "Y", "X", "W"])),
        vec![
            ("Z".to_string(), "3".to_string()),
            ("X".to_string(), "1".to_string())
        ]
    );
}

#[test]
fn require_error_names_the_variables_to_set() {
    let err = require_error(
        "anthropic",
        "sonnet",
        &names(&["ANTHROPIC_API_KEY", "ANTHROPIC_AUTH_TOKEN"]),
    );
    assert_eq!(
        err,
        ProviderError::MissingApiKey {
            provider: "anthropic".into(),
            vars: "ANTHROPIC_API_KEY, ANTHROPIC_AUTH_TOKEN".into(),
        }
    );
    assert_eq!(
        err.message(),
        "provider `anthropic` needs an API key: set one of ANTHROPIC_API_KEY, ANTHROPIC_AUTH_TOKEN"
    );
    assert_eq!(err.exit_code(), 78);
}

#[test]
fn require_error_without_variables_is_unsupported() {
    let err = require_error("acme", "m1", &[]);
    assert_eq!(
        err,
        ProviderError::UnsupportedProvider {
            provider: "acme".into(),
            model: "m1".into(),
        }
    );
    assert_eq!(
        err.message(),
        "no streaming adapter for provider `acme` (model `m1`)"
    );
    let api = ProviderError::UnsupportedApi {
        api: "bedrock-converse".into(),
    };
    assert_eq!(api.message(), "no streaming adapter for api `bedrock-converse`");
    assert_eq!(api.exit_code(), 78);
}

#[test]
fn hint_depends_on_the_credential_variables() {
    assert_eq!(
        hint("acme", &[]),
        "no adapter registered for provider `acme`"
    );
    assert_eq!(
        hint("openai", &names(&["OPENAI_API_KEY"])),
        "provider `openai` is not configured; set one of OPENAI_API_KEY"
    );
}
