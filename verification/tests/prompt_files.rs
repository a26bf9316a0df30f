use pi_coding_agent::system_prompt::{prompt_file, APPEND_SYSTEM_PROMPT_FILE, SYSTEM_PROMPT_FILE};

#[test]
fn a_trusted_project_copy_wins_over_the_agent_copy() {
    assert_eq!(
        prompt_file("/p", "/a", SYSTEM_PROMPT_FILE, true, true, true),
        Some("/p/.pi/SYSTEM.md".to_string())
    );
    assert_eq!(
        prompt_file("/p", "/a", APPEND_SYSTEM_PROMPT_FILE, true, false, true),
        Some("/a/APPEND_SYSTEM.md".to_string())
    );
}

#[test]
fn an_untrusted_project_copy_is_never_read() {
    assert_eq!(
        prompt_file("/p", "/a", SYSTEM_PROMPT_FILE, false, true, true),
        Some("/a/SYSTEM.md".to_string())
    );
    assert_eq!(prompt_file("/p", "/a", SYSTEM_PROMPT_FILE, false, true, false), None);
    assert_eq!(prompt_file("/p", "/a", SYSTEM_PROMPT_FILE, true, false, false), None);
}
