use pi_rust_cli::keybindings::{
    AppAction, BindingValue, EditorAction, EditorCommand, KeybindingsManager, ListCommand, PromptAutocompleteInput,
    PromptEditorInput,
};
use pi_rust_cli::keys::{canonicalize_binding_values, KeyCode, KeyEvent, KeyModifiers};

#[test]
fn defaults_match_expected_actions() {
    let manager = KeybindingsManager::in_memory();
    assert!(manager.matches(
        &KeyEvent::with_modifiers(KeyCode::Char('l'), KeyModifiers::ctrl_only()),
        AppAction::SelectModel,
    ));
    assert!(manager.matches(
        &KeyEvent::with_modifiers(KeyCode::Enter, KeyModifiers::alt_only()),
        AppAction::FollowUp,
    ));
    assert!(manager.matches(&KeyEvent::new(KeyCode::Tab), AppAction::ToggleSessionScope,));
    assert!(manager.matches(
        &KeyEvent::with_modifiers(KeyCode::Tab, KeyModifiers::shift_only()),
        AppAction::CycleThinkingLevel,
    ));
    assert!(manager.matches(
        &KeyEvent::new(KeyCode::BackTab),
        AppAction::CycleThinkingLevel,
    ));
    assert!(manager.matches(
        &KeyEvent::with_modifiers(KeyCode::Tab, KeyModifiers::shift_only()),
        AppAction::CycleThinkingLevel,
    ));
    assert_eq!(manager.display(AppAction::CycleModelForward), "ctrl+p");
    assert_eq!(
        manager.display(AppAction::CycleModelBackward),
        "ctrl+shift+p"
    );
    assert_eq!(
        manager.resolve_app_action_in(
            &KeyEvent::with_modifiers(KeyCode::Char('z'), KeyModifiers::ctrl_only()),
            &[AppAction::Suspend, AppAction::Clear],
        ),
        Some(AppAction::Suspend)
    );
    assert_eq!(
        manager.resolve_app_action_in(
            &KeyEvent::with_modifiers(
                KeyCode::Char('p'),
                KeyModifiers {
                    ctrl: true,
                    alt: false,
                    shift: true,
                },
            ),
            &[AppAction::CycleModelForward, AppAction::CycleModelBackward],
        ),
        Some(AppAction::CycleModelBackward)
    );
    assert_eq!(
        manager.resolve_app_action_in(
            &KeyEvent::with_modifiers(KeyCode::Char('g'), KeyModifiers::ctrl_only()),
            &[AppAction::ExternalEditor, AppAction::PasteImage],
        ),
        Some(AppAction::ExternalEditor)
    );
    assert_eq!(
        manager.resolve_app_action_in(
            &KeyEvent::with_modifiers(KeyCode::Char('v'), KeyModifiers::ctrl_only()),
            &[AppAction::ExternalEditor, AppAction::PasteImage],
        ),
        Some(AppAction::PasteImage)
    );
    assert!(manager.matches_editor(
        &KeyEvent::with_modifiers(KeyCode::Char('b'), KeyModifiers::ctrl_only()),
        EditorAction::CursorLeft,
    ));
    assert!(manager.matches_editor(
        &KeyEvent::with_modifiers(KeyCode::Char('c'), KeyModifiers::ctrl_only()),
        EditorAction::SelectCancel,
    ));
    assert_eq!(manager.display_editor(EditorAction::Submit), "enter");
    assert_eq!(manager.display(AppAction::ToggleSessionPath), "ctrl+p");
    assert_eq!(manager.display(AppAction::DeleteSession), "ctrl+d");
}

#[test]
fn prompt_editor_input_resolution_handles_actions_and_text() {
    let manager = KeybindingsManager::in_memory();

    assert_eq!(
        manager.resolve_prompt_editor_input(&KeyEvent::new(KeyCode::Enter)),
        Some(PromptEditorInput::Action(EditorAction::Submit))
    );
    assert_eq!(
        manager.resolve_prompt_editor_input(&KeyEvent::with_modifiers(
            KeyCode::Enter,
            KeyModifiers::shift_only(),
        )),
        Some(PromptEditorInput::Action(EditorAction::NewLine))
    );
    assert_eq!(
        manager.resolve_prompt_editor_input(&KeyEvent::new(KeyCode::Tab)),
        Some(PromptEditorInput::TriggerAutocomplete)
    );
    assert_eq!(
        manager.resolve_prompt_editor_input(&KeyEvent::with_modifiers(
            KeyCode::Tab,
            KeyModifiers::shift_only(),
        )),
        None
    );
    assert_eq!(
        manager.resolve_prompt_editor_input(&KeyEvent::new(KeyCode::BackTab)),
        None
    );
    assert_eq!(
        manager
            .resolve_prompt_editor_input(&KeyEvent::new(KeyCode::Paste("hello".to_string(),))),
        Some(PromptEditorInput::InsertText("hello".to_string()))
    );
    assert_eq!(
        manager.resolve_prompt_editor_input(&KeyEvent::new(KeyCode::Char('x'))),
        Some(PromptEditorInput::InsertText("x".to_string()))
    );
    assert_eq!(
        manager.resolve_prompt_editor_input(&KeyEvent::with_modifiers(
            KeyCode::Char('x'),
            KeyModifiers::ctrl_only(),
        )),
        None
    );
}

#[test]
fn prompt_autocomplete_input_resolution_is_context_specific() {
    let manager = KeybindingsManager::in_memory();

    assert_eq!(
        manager.resolve_prompt_autocomplete_input(&KeyEvent::new(KeyCode::Up)),
        Some(PromptAutocompleteInput::NavigateUp)
    );
    assert_eq!(
        manager.resolve_prompt_autocomplete_input(&KeyEvent::new(KeyCode::Down)),
        Some(PromptAutocompleteInput::NavigateDown)
    );
    assert_eq!(
        manager.resolve_prompt_autocomplete_input(&KeyEvent::new(KeyCode::Enter)),
        Some(PromptAutocompleteInput::ConfirmSelection)
    );
    assert_eq!(
        manager.resolve_prompt_autocomplete_input(&KeyEvent::new(KeyCode::Escape)),
        Some(PromptAutocompleteInput::Cancel)
    );
    assert_eq!(
        manager.resolve_prompt_autocomplete_input(&KeyEvent::new(KeyCode::Tab)),
        Some(PromptAutocompleteInput::AcceptCompletion)
    );
    assert_eq!(
        manager.resolve_prompt_autocomplete_input(&KeyEvent::new(KeyCode::BackTab)),
        None
    );
}

#[test]
fn inputs_command_lists() {
    assert_eq!(PromptAutocompleteInput::NavigateUp.apply_to_select_list(), Some(ListCommand::SelectPrevious));
    assert_eq!(PromptAutocompleteInput::ConfirmSelection.apply_to_select_list(), Some(ListCommand::ConfirmSelection));
    assert_eq!(PromptAutocompleteInput::AcceptCompletion.apply_to_select_list(), None);
    assert_eq!(EditorAction::SelectDown.apply_to_select_list(), Some(ListCommand::SelectNext));
    assert_eq!(EditorAction::SelectCancel.apply_to_select_list(), Some(ListCommand::Cancel));
    assert_eq!(EditorAction::Yank.apply_to_select_list(), None);
}

#[test]
fn actions_ask_something_of_the_editor() {
    assert_eq!(EditorAction::DeleteWordBackward.apply_to_editor(), Some(EditorCommand::DeleteWordBackward));
    assert_eq!(EditorAction::Yank.apply_to_editor(), Some(EditorCommand::Yank));
    assert_eq!(EditorAction::Submit.apply_to_editor(), Some(EditorCommand::Submit));
    assert_eq!(EditorAction::CursorLineEnd.apply_to_editor(), Some(EditorCommand::MoveEnd));
    assert_eq!(EditorAction::Tab.apply_to_editor(), None);
    assert_eq!(EditorAction::SelectUp.apply_to_editor(), None);
}

#[test]
fn keybindings_are_read_from_json() {
    let manager = KeybindingsManager::create(Some(r#"{"selectModel": "ctrl+m", "submit": ["enter", "ctrl+j"]}"#));
    assert_eq!(manager.display(AppAction::SelectModel), "ctrl+m");
    assert_eq!(manager.display_editor(EditorAction::Submit), "enter / ctrl+j");
    assert!(manager.matches(
        &KeyEvent::with_modifiers(KeyCode::Char('m'), KeyModifiers::ctrl_only()),
        AppAction::SelectModel,
    ));
    assert_eq!(manager.display(AppAction::Exit), KeybindingsManager::in_memory().display(AppAction::Exit));
}

#[test]
fn unreadable_keybindings_change_nothing() {
    let manager = KeybindingsManager::create(Some("{\"selectModel\": "));
    assert_eq!(manager.display(AppAction::SelectModel), "ctrl+l");
    let manager = KeybindingsManager::create(Some("[1, 2]"));
    assert_eq!(manager.display(AppAction::SelectModel), "ctrl+l");
    let manager = KeybindingsManager::create(None);
    assert_eq!(manager.display(AppAction::SelectModel), "ctrl+l");
}

#[test]
fn unnamed_actions_keep_the_keys_they_had() {
    let entries = vec![("interrupt".to_string(), BindingValue::Single("ctrl+x".to_string()))];
    let manager = KeybindingsManager::from_overrides(&entries);
    assert_eq!(manager.display(AppAction::Interrupt), "ctrl+x");
    assert_eq!(manager.display(AppAction::Suspend), "ctrl+z");
    assert_eq!(AppAction::from_str("interrupt"), Some(AppAction::Interrupt));
    assert_eq!(AppAction::from_str("nothing"), None);
}

#[test]
fn bindings_are_written_in_one_way() {
    let values = vec!["Shift+CTRL+p".to_string(), "esc".to_string(), "ctrl+shift+p".to_string()];
    let written = canonicalize_binding_values(&values);
    assert_eq!(written, vec!["ctrl+shift+p".to_string(), "escape".to_string(), "ctrl+shift+p".to_string()]);
    assert_eq!(canonicalize_binding_values(&written), written);
}

#[test]
fn letters_beyond_ascii_are_written_small() {
    let values = vec!["Ctrl+\u{212A}".to_string(), "É".to_string(), " Shift + Tab ".to_string()];
    let once = canonicalize_binding_values(&values);
    assert_eq!(once, vec!["ctrl+k".to_string(), "É".to_string(), "shift+tab".to_string()]);
    assert_eq!(canonicalize_binding_values(&once), once);
}
