use pi_rust_cli::bytes::{count_chars_before, size_of};
use pi_rust_cli::completion::{
    completion_request, prompt_autocomplete_should_submit_current_prompt, replace_prompt_line, CompletionRequest,
};
use pi_rust_cli::editing::{
    apply_model_completion, apply_path_completion, apply_slash_completion, PromptAutocompleteKind,
};
use pi_rust_cli::offers::{
    completion_title, model_completion_items, slash_command_items, CommandSource, SlashCommand,
};
use pi_rust_cli::overlay::SelectItem;
use pi_rust_cli::session::ModelInfo;
use pi_rust_cli::submit::{read_submission, Submission};

fn offered(values: &[&str]) -> Vec<String> {
    values.iter().map(|value| value.to_string()).collect()
}

fn request(kind: PromptAutocompleteKind, prefix: &str) -> Option<CompletionRequest> {
    Some(CompletionRequest { kind, prefix: prefix.to_string() })
}

#[test]
fn slash_prompt_autocomplete_stays_closed_off_first_line() {
    let autocomplete = completion_request("hello\n/", (1, 1), false);
    assert!(autocomplete.is_none());
}

#[test]
fn exact_typed_slash_command_submits_current_prompt_instead_of_selected_suggestion() {
    let autocomplete = completion_request("/session", (0, "/session".len()), false).expect("autocomplete state");
    assert!(prompt_autocomplete_should_submit_current_prompt(
        &autocomplete,
        &offered(&["/settings", "/session", "/share"]),
    ));
}

#[test]
fn prompt_autocomplete_does_not_open_paths_for_plain_space() {
    let autocomplete = completion_request("hello ", (0, 6), false);
    assert!(autocomplete.is_none());
}

#[test]
fn multiline_model_prompt_autocomplete_stays_closed_off_first_line() {
    let autocomplete = completion_request("hello\n/model gp", (1, 9), false);
    assert!(autocomplete.is_none());
}

#[test]
fn exact_typed_model_argument_submits_current_prompt_instead_of_selected_suggestion() {
    let typed = "/model openai/gpt-5.1-codex";
    let autocomplete = completion_request(typed, (0, typed.len()), false).expect("autocomplete state");
    assert!(prompt_autocomplete_should_submit_current_prompt(&autocomplete, &offered(&["openai/gpt-5.1-codex"])));
}

#[test]
fn completions_are_asked_for() {
    assert_eq!(completion_request("/", (0, 1), false), request(PromptAutocompleteKind::SlashCommand, "/"));
    assert_eq!(completion_request("/model gp", (0, 9), false), request(PromptAutocompleteKind::ModelArgument, "gp"));
    assert_eq!(
        completion_request("/export src/ma", (0, "/export src/ma".len()), false),
        request(PromptAutocompleteKind::Path, "src/ma")
    );
    assert_eq!(
        completion_request("/export ", (0, "/export ".len()), true),
        request(PromptAutocompleteKind::Path, "")
    );
    assert_eq!(completion_request("@lib", (0, 4), false), request(PromptAutocompleteKind::FileReference, "@lib"));
    assert_eq!(completion_request("hello", (7, 0), false), None);
}

#[test]
fn partly_typed_words_are_not_sent() {
    let autocomplete = completion_request("/se", (0, 3), false).expect("autocomplete state");
    assert!(!prompt_autocomplete_should_submit_current_prompt(&autocomplete, &offered(&["/session"])));
    let path = completion_request("see src/a", (0, 9), false).expect("autocomplete state");
    assert!(!prompt_autocomplete_should_submit_current_prompt(&path, &offered(&["src/a"])));
}

#[test]
fn one_line_is_replaced() {
    assert_eq!(replace_prompt_line("a\nb\nc", 1, "x"), "a\nx\nc");
    assert_eq!(replace_prompt_line("a\nb", 5, "x"), "a\nb");
    assert_eq!(replace_prompt_line("", 0, "x"), "x");
}

#[test]
fn places_are_counted_in_bytes() {
    assert_eq!(size_of("aüπ𝄞"), 1 + 2 + 2 + 4);
    assert_eq!(size_of("€"), 3);
    assert_eq!(count_chars_before("aüb", 3), Some(2));
    assert_eq!(count_chars_before("aüb", 2), None);
    assert_eq!(count_chars_before("aüb", 5), None);
    let typed = "sieh ü/l";
    assert_eq!(completion_request(typed, (0, typed.len()), false), request(PromptAutocompleteKind::Path, "ü/l"));
}

#[test]
fn completions_fit_between_characters() {
    let item = SelectItem { value: "ü/läufer.rs".to_string(), label: "läufer.rs".to_string(), description: None };
    let line = "sieh ü/l nach";
    let done = apply_path_completion(line, "sieh ü/l".len(), &item, "ü/l", true).expect("a path");
    assert_eq!(done.line, "sieh ü/läufer.rs  nach");
    assert_eq!(done.cursor, "sieh ü/läufer.rs ".len());
    assert_eq!(apply_path_completion("ü", 2, &item, "ü/l", true), None);
    let done = apply_slash_completion("/gr", 3, "/größe");
    assert_eq!(done.line, "/größe ");
    assert_eq!(done.cursor, "/größe ".len());
    let done = apply_model_completion("ä /model op", "ä /model op".len(), "é/opus").expect("a model");
    assert_eq!(done.line, "ä /model é/opus");
    assert_eq!(done.cursor, done.line.len());
}

fn shown(title: &str, items: &[SelectItem]) -> String {
    let mut text = title.to_string();
    for item in items {
        text.push_str(&format!("\n{} {}", item.label, item.description.clone().unwrap_or_default()));
    }
    text
}

#[test]
fn slash_prompt_autocomplete_opens_on_slash() {
    let autocomplete = completion_request("/", (0, 1), false).expect("autocomplete state");
    let text = shown(completion_title(autocomplete.kind), &slash_command_items(&[]));
    assert!(text.contains("Commands"));
    assert!(text.contains("/settings"));
    assert!(text.contains("/scoped-models"));
    assert!(text.contains("/copy"));
    assert!(text.contains("/share"));
    assert!(text.contains("Open settings menu"));
}

#[test]
fn model_prompt_autocomplete_uses_available_models() {
    let autocomplete = completion_request("/model gp", (0, 9), false).expect("autocomplete state");
    let models = [ModelInfo {
        id: "gpt-5.1-codex".to_string(),
        provider: "openai".to_string(),
        name: "GPT-5.1 Codex".to_string(),
        context_window: 400_000,
        reasoning: true,
    }];
    let text = shown(completion_title(autocomplete.kind), &model_completion_items(&models));
    assert!(text.contains("Models"));
    assert!(text.contains("gpt-5.1-codex"));
    assert!(text.contains("GPT-5.1 Codex"));
}

#[test]
fn slash_prompt_autocomplete_includes_dynamic_prompt_and_skill_commands() {
    let prompt_commands = [
        SlashCommand {
            name: "plan".to_string(),
            description: Some("Generate a rollout".to_string()),
            source: CommandSource::Prompt,
        },
        SlashCommand {
            name: "skill:checks".to_string(),
            description: Some("Run repo checks".to_string()),
            source: CommandSource::Skill,
        },
    ];
    let prompt = completion_request("/pl", (0, 3), false).expect("autocomplete state");
    let prompt_text = shown(completion_title(prompt.kind), &slash_command_items(&prompt_commands));
    assert!(prompt_text.contains("/plan"));
    assert!(prompt_text.contains("Prompt template"));
    let skill = completion_request("/skill", (0, 6), false).expect("autocomplete state");
    let skill_text = shown(completion_title(skill.kind), &slash_command_items(&prompt_commands));
    assert!(skill_text.contains("/skill:checks"));
    assert!(skill_text.contains("Skill"));
}

#[test]
fn offered_commands_do_not_go_to_the_model() {
    for item in slash_command_items(&[]) {
        assert_eq!(item.value, item.label);
        let to_model = matches!(read_submission(&item.value), Submission::Prompt(_));
        assert_eq!(to_model, item.value == "/name");
    }
}
