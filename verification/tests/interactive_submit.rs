use pi_coding_agent::interactive::{
    bash_busy_message, dequeue_status, submission_route, SubmitRoute, BASH_IMAGES_REFUSED,
    SLASH_IMAGES_IGNORED,
};
use pi_coding_agent::prompt_templates::{PromptTemplate, PromptTemplateSource};

fn template(name: &str, content: &str) -> PromptTemplate {
    PromptTemplate {
        name: name.to_string(),
        description: String::new(),
        argument_hint: None,
        content: content.to_string(),
        file_path: format!("/prompts/{name}.md"),
        source: PromptTemplateSource::User,
    }
}

#[test]
fn local_commands_come_first() {
    assert_eq!(submission_route("!ls", true, true, false, &[]), SubmitRoute::BashWithImages);
    assert_eq!(submission_route("!ls", true, false, true, &[]), SubmitRoute::BashBusy);
    assert_eq!(submission_route("!ls", true, false, false, &[]), SubmitRoute::RunBash);
}

#[test]
fn templates_win_over_slash_commands() {
    let templates = vec![template("greet", "Hello $1!")];
    assert_eq!(
        submission_route("/greet bob", false, true, false, &templates),
        SubmitRoute::Template { expanded: "Hello bob!".to_string(), images_ignored: true }
    );
    assert_eq!(
        submission_route("/help", false, false, false, &templates),
        SubmitRoute::Slash { images_ignored: false }
    );
    assert_eq!(
        submission_route("/", false, true, false, &templates),
        SubmitRoute::Slash { images_ignored: true }
    );
}

#[test]
fn anything_else_is_a_prompt() {
    assert_eq!(submission_route("hello /greet", false, true, true, &[]), SubmitRoute::Prompt);
    assert_eq!(submission_route("", false, false, false, &[]), SubmitRoute::Prompt);
}

#[test]
fn submission_notes() {
    assert_eq!(BASH_IMAGES_REFUSED, "Local ! commands cannot carry image attachments");
    assert_eq!(SLASH_IMAGES_IGNORED, "Images are ignored for slash commands");
    assert_eq!(
        bash_busy_message("Esc"),
        "A bash command is already running. Press Esc to cancel it first."
    );
}

#[test]
fn dequeue_status_lines() {
    assert_eq!(dequeue_status(0), "No queued messages to restore");
    assert_eq!(dequeue_status(1), "Restored 1 queued message to editor");
    assert_eq!(dequeue_status(3), "Restored 3 queued messages to editor");
}
