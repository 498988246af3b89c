use pi_rust_cli::choices::{
    build_fork_overlay_items, build_oauth_items, fork_list_reply, fork_status, logout_status, model_field_reply,
    model_list_reply, model_overlay_key, navigation_status, overlay_dialog_key, search_overlay_choice, tree_filter_key,
    tree_summary_items, tree_summary_reply, AuthFlowMode, Choice, DialogKey, ForkMessage, LoginProvider, ModelTarget,
};
use pi_rust_cli::dialogs::{
    answer_dialog, auth_field_reply, auth_overlay_key, auth_status, render_auth_overlay, render_dialog_overlay,
    session_rename_dialog, summary_instructions_dialog, tree_label_dialog, AuthAction, AuthOverlayState, DialogAction,
    DialogKind,
};
use pi_rust_cli::json::Json;
use pi_rust_cli::keybindings::KeybindingsManager;
use pi_rust_cli::keys::{KeyCode, KeyEvent, KeyModifiers};
use pi_rust_cli::models::{
    append_model_overlay_rows, build_model_overlay_items, model_overlay_scope_line, model_overlay_texts,
    render_model_overlay, sort_model_overlay_models, ListPlace, ModelOverlayScope,
};
use pi_rust_cli::overlay::{
    event_of_field, event_of_list, find_selection, route_search_key, select_list_visible_bounds, FieldReply, KeyTarget,
    ListReply, OverlaySelection, SearchOverlayEvent, Status,
};
use pi_rust_cli::pieces::Piece;
use pi_rust_cli::scoped::{
    build_scoped_model_items, move_scoped_model_selection, saved_status, scoped_models_footer_text, scoped_models_key, scoped_models_list_reply,
    toggle_scoped_model, toggle_scoped_models_provider, ScopedAction,
};
use pi_rust_cli::session::ModelInfo;
use pi_rust_cli::sessions::{
    build_session_overlay_items, session_answers_query, session_answers_with, session_field_reply, session_list_reply, session_overlay_key,
    session_selection_detail, startup_picker_action, switched_status, PickerAction, SessionAction, SessionNameFilter,
    SessionRecord, SessionScope, SessionSortMode,
};
use pi_rust_cli::tools::JsonDoc;
use pi_rust_cli::tree::{
    build_tree_overlay_items, extract_message_preview, flatten_tree_items, render_search_overlay,
    render_search_overlay_shell, tree_entry_preview, tree_item_matches_mode, SearchOverlayKind, SearchTexts,
    TreeFilterMode, TreeListItem, TreeNode,
};

fn strip_ansi(text: &str) -> String {
    let mut out = String::new();
    let mut chars = text.chars();
    while let Some(ch) = chars.next() {
        if ch == '\u{1b}' {
            for next in chars.by_ref() {
                if next.is_ascii_alphabetic() {
                    break;
                }
            }
            continue;
        }
        out.push(ch);
    }
    out
}

fn pieces_text(pieces: &[Piece]) -> String {
    pieces
        .iter()
        .map(|piece| match piece {
            Piece::Row(text) | Piece::Flow(text) => strip_ansi(text),
            Piece::Blank => String::new(),
            Piece::Field(_) => "<field>".to_string(),
            Piece::List(_) => "<list>".to_string(),
        })
        .collect::<Vec<_>>()
        .join("\n")
}

fn model(provider: &str, id: &str) -> ModelInfo {
    ModelInfo {
        provider: provider.to_string(),
        id: id.to_string(),
        name: id.to_uppercase(),
        reasoning: true,
        context_window: 200_000,
    }
}

fn sample_model() -> ModelInfo {
    ModelInfo {
        provider: "openai".to_string(),
        id: "gpt-5.1-codex".to_string(),
        name: "GPT-5.1 Codex".to_string(),
        reasoning: true,
        context_window: 200_000,
    }
}

fn key(code: KeyCode) -> KeyEvent {
    KeyEvent::new(code)
}

fn ctrl(c: char) -> KeyEvent {
    KeyEvent::with_modifiers(KeyCode::Char(c), KeyModifiers::ctrl_only())
}

fn record(path: &str, name: Option<&str>, preview: &str, message_count: u64) -> SessionRecord {
    SessionRecord {
        path: path.to_string(),
        cwd: "/workspace".to_string(),
        name: name.map(|name| name.to_string()),
        preview: preview.to_string(),
        message_count,
        age: "1h".to_string(),
        parent_session: None,
    }
}

fn said(status: &Status) -> &str {
    match status {
        Status::Say(text) => text.as_str(),
        Status::Keep => "<keep>",
        Status::Clear => "<clear>",
    }
}

fn object(members: Vec<(&str, Json)>) -> Json {
    Json::Object(members.into_iter().map(|(name, value)| (name.to_string(), value)).collect())
}

fn text(value: &str) -> Json {
    Json::Text(value.to_string())
}

fn node(id: &str, role: &str, content: Json, children: Vec<TreeNode>) -> TreeNode {
    let entry = object(vec![
        ("id", text(id)),
        ("type", text("message")),
        ("message", object(vec![("role", text(role)), ("content", content)])),
    ]);
    TreeNode { entry: JsonDoc { value: entry, raw: "{}".to_string() }, label: None, children }
}

#[test]
fn tree_no_tools_filter_hides_tool_results_and_tool_only_assistants() {
    let tool_result = TreeListItem {
        entry_id: "tool".to_string(),
        entry_type: "message".to_string(),
        message_role: Some("toolResult".to_string()),
        assistant_tool_only: false,
        preview: "tool result".to_string(),
        depth: 0,
        label: None,
    };
    let assistant_tool_only = TreeListItem {
        entry_id: "assistant".to_string(),
        entry_type: "message".to_string(),
        message_role: Some("assistant".to_string()),
        assistant_tool_only: true,
        preview: "assistant: tool".to_string(),
        depth: 0,
        label: None,
    };

    assert!(!tree_item_matches_mode(
        &tool_result,
        TreeFilterMode::NoTools
    ));
    assert!(!tree_item_matches_mode(
        &assistant_tool_only,
        TreeFilterMode::NoTools
    ));
}

#[test]
fn session_overlay_items_mark_current_and_filter_named_records() {
    let records = vec![
        record("/tmp/current.jsonl", Some("Named Session"), "preview", 4),
        record("/tmp/other.jsonl", None, "fallback preview", 2),
    ];

    let (items, selections) = build_session_overlay_items(
        &records,
        None,
        SessionNameFilter::Named,
        false,
        Some("/tmp/current.jsonl"),
    );

    assert_eq!(items.len(), 1);
    assert!(items[0].label.contains("Named Session"));
    assert!(
        items[0]
            .description
            .as_deref()
            .is_some_and(|description| description.contains("4 msg ·"))
    );
    match &selections[0] {
        OverlaySelection::Session { path } => {
            assert_eq!(path, "/tmp/current.jsonl");
        }
        other => panic!("unexpected selection: {other:?}"),
    }
}

#[test]
fn session_overlay_items_support_regex_queries() {
    let records = vec![
        record("/tmp/current.jsonl", Some("Build Session"), "Investigating startup footer", 4),
        record("/tmp/other.jsonl", Some("Docs"), "Unrelated notes", 2),
    ];

    let (items, _) = build_session_overlay_items(
        &records,
        Some("re:startup\\s+footer"),
        SessionNameFilter::All,
        false,
        None,
    );

    assert_eq!(items.len(), 1);
    assert!(items[0].label.contains("Build Session"));
}

#[test]
fn session_overlay_items_support_exact_phrase_queries() {
    let records = vec![
        record(
            "/tmp/current.jsonl",
            Some("Exact Phrase"),
            "Need the exact phrase for startup footer parity",
            4,
        ),
        record("/tmp/other.jsonl", Some("Partial"), "Need startup parity work", 2),
    ];

    let (items, _) = build_session_overlay_items(
        &records,
        Some("\"exact phrase\" footer"),
        SessionNameFilter::All,
        false,
        None,
    );

    assert_eq!(items.len(), 1);
    assert!(items[0].label.contains("Exact Phrase"));
}

#[test]
fn build_model_overlay_items_marks_current_model_and_context() {
    let model = sample_model();
    let (items, selections) = build_model_overlay_items(std::slice::from_ref(&model), &Some(model.clone()));
    assert_eq!(items.len(), 1);
    assert!(items[0].label.contains("[openai]"));
    assert!(items[0].label.contains("✓"));
    assert!(
        items[0]
            .description
            .as_deref()
            .is_some_and(|description| description.contains("200k ctx"))
    );
    assert!(matches!(
        selections.first(),
        Some(OverlaySelection::Model { provider, model_id })
            if provider == "openai" && model_id == "gpt-5.1-codex"
    ));
}

#[test]
fn model_overlay_metadata_mentions_scope_when_scoped_models_exist() {
    let model = sample_model();
    let (items, _) = build_model_overlay_items(std::slice::from_ref(&model), &Some(model.clone()));
    let overlay = model_overlay_texts(12, 3, &Some(model), ModelOverlayScope::Scoped, items.first());
    assert!(overlay.subtitle.contains("scope scoped"));
    assert!(overlay.subtitle.contains("12 all"));
    assert!(
        overlay
            .detail
            .as_deref()
            .is_some_and(|detail| detail.contains("reasoning"))
    );
    assert!(overlay.hint.contains("Tab toggles scope"));
}

#[test]
fn overlay_banner_renders_multiline_subtitle() {
    let texts = SearchTexts {
        subtitle: "line one\nline two".to_string(),
        detail: None,
        hint: "Esc cancels".to_string(),
        search_visible: true,
        search_value: String::new(),
    };
    let rendered = pieces_text(&render_search_overlay("Resume Session", &texts, 80));
    assert!(rendered.contains("line one"));
    assert!(rendered.contains("line two"));
}

#[test]
fn search_overlay_renders_detail_line() {
    let texts = SearchTexts {
        subtitle: "scope scoped".to_string(),
        detail: Some("Selected detail".to_string()),
        hint: "Esc cancels".to_string(),
        search_visible: true,
        search_value: String::new(),
    };
    let rendered = pieces_text(&render_search_overlay("Model Selector", &texts, 80));
    assert!(rendered.contains("Selected detail"));
}

#[test]
fn session_selection_detail_includes_preview_and_paths() {
    let detail = session_selection_detail(
        &SessionRecord {
            path: "/tmp/session.jsonl".to_string(),
            cwd: "/workspace/pi".to_string(),
            name: Some("Named Session".to_string()),
            preview: "first prompt from transcript".to_string(),
            message_count: 5,
            age: "now".to_string(),
            parent_session: Some("/tmp/parent.jsonl".to_string()),
        },
        true,
        &None,
    );
    assert!(detail.contains("first prompt from transcript"));
    assert!(detail.contains("cwd /workspace/pi"));
    assert!(detail.contains("session /tmp/session.jsonl"));
    assert!(detail.contains("parent /tmp/parent.jsonl"));
    assert!(detail.contains("current"));
}

#[test]
fn the_current_model_stands_first() {
    let models = vec![model("b", "x"), model("a", "z"), model("a", "y")];
    let sorted = sort_model_overlay_models(&models, &Some(model("b", "x")));
    let ids: Vec<&str> = sorted.iter().map(|m| m.id.as_str()).collect();
    assert_eq!(ids, vec!["x", "y", "z"]);
    let sorted = sort_model_overlay_models(&models, &None);
    let ids: Vec<&str> = sorted.iter().map(|m| m.id.as_str()).collect();
    assert_eq!(ids, vec!["y", "z", "x"]);
}

#[test]
fn model_rows_show_the_place() {
    let models: Vec<ModelInfo> = (0..15).map(|n| model("p", &format!("m{n}"))).collect();
    let place = ListPlace { filtered: (0..15).collect(), selected: 7, max_visible: 5 };
    let rows = append_model_overlay_rows(&models, &None, &place, 60);
    assert!(rows.iter().any(|row| strip_ansi(row).contains("m7")));
    assert!(rows.iter().any(|row| strip_ansi(row).contains("(8/15)")));
    assert!(strip_ansi(&model_overlay_scope_line(2, ModelOverlayScope::Scoped)).contains("scoped"));
    assert!(!render_model_overlay(&models, &None, &place, ModelOverlayScope::All, 0, 60).is_empty());
}

#[test]
fn what_is_selected_is_visible() {
    for selected in 0..30 {
        let (start, end) = select_list_visible_bounds(30, selected, 10);
        assert!(start <= selected && selected < end);
        assert!(end - start <= 10);
    }
    assert_eq!(select_list_visible_bounds(4, 2, 10), (0, 4));
}

#[test]
fn scoped_models_are_toggled() {
    let on = toggle_scoped_model(Some(vec!["a/x".to_string()]), "a/y");
    assert_eq!(on, Some(vec!["a/x".to_string(), "a/y".to_string()]));
    assert_eq!(toggle_scoped_model(on, "a/y"), Some(vec!["a/x".to_string()]));
    assert_eq!(toggle_scoped_model(None, "a/y"), Some(vec!["a/y".to_string()]));

    let models = vec![model("a", "x"), model("a", "y"), model("b", "z"), model("c", "w")];
    let all = toggle_scoped_models_provider(&models, Some(vec!["b/z".to_string()]), "a/x").expect("enabled");
    assert!(all.contains(&"a/x".to_string()) && all.contains(&"a/y".to_string()));
    let none = toggle_scoped_models_provider(&models, Some(all), "a/x").expect("enabled");
    assert_eq!(none, vec!["b/z".to_string()]);

    let enabled = Some(vec!["a/x".to_string(), "a/y".to_string()]);
    let moved = move_scoped_model_selection(&models, &enabled, "a/x", 1);
    assert_eq!(moved, Some(vec!["a/y".to_string(), "a/x".to_string()]));
    assert_eq!(move_scoped_model_selection(&models, &moved, "a/x", -1), enabled);
    assert_eq!(build_scoped_model_items(&models, &enabled).len(), 4);
    assert!(!scoped_models_footer_text(&enabled, 3, true).is_empty());
    assert!(saved_status(2).contains('2'));
}

#[test]
fn scoped_models_move_by_a_distance() {
    let models = vec![model("a", "x"), model("a", "y"), model("b", "z")];
    let list = |ids: &[&str]| Some(ids.iter().map(|id| id.to_string()).collect::<Vec<String>>());
    let far = move_scoped_model_selection(&models, &None, "a/x", 2);
    assert_eq!(far, list(&["b/z", "a/y", "a/x"]));
    assert_eq!(move_scoped_model_selection(&models, &far, "a/x", -2), list(&["a/x", "a/y", "b/z"]));
    assert_eq!(move_scoped_model_selection(&models, &far, "a/y", 0), far);
    assert_eq!(move_scoped_model_selection(&models, &None, "a/x", -1), None);
    assert_eq!(move_scoped_model_selection(&models, &None, "a/x", 3), None);
    assert_eq!(move_scoped_model_selection(&models, &None, "a/y", isize::MAX), None);
    assert_eq!(move_scoped_model_selection(&models, &None, "a/y", isize::MIN), None);
    assert_eq!(move_scoped_model_selection(&models, &list(&["a/y"]), "a/x", 0), None);
}

#[test]
fn scoped_model_keys() {
    let models = vec![model("a", "x"), model("b", "z")];
    let step = scoped_models_key(&models, Some(Vec::new()), false, Some("a/x"), &ctrl('p'));
    assert_eq!(step.enabled_ids, Some(vec!["a/x".to_string()]));
    assert_eq!(step.action, ScopedAction::Apply);
    assert!(step.dirty);
    let step = scoped_models_list_reply(Some(Vec::new()), false, ListReply::Selected("b/z".to_string()));
    assert_eq!(step.enabled_ids, Some(vec!["b/z".to_string()]));
    let step = scoped_models_key(&models, None, false, Some("a/x"), &ctrl('s'));
    assert_eq!(step.action, ScopedAction::Forget);
    let step = scoped_models_key(&models, Some(Vec::new()), false, Some("a/x"), &ctrl('s'));
    assert_eq!(step.action, ScopedAction::Save);
    let step = scoped_models_key(&models, None, false, Some("a/x"), &key(KeyCode::Escape));
    assert_ne!(step.action, ScopedAction::Save);
}

#[test]
fn filter_modes_go_round() {
    let mut mode = TreeFilterMode::Default;
    let mut seen = Vec::new();
    for _ in 0..5 {
        seen.push(mode);
        mode = mode.next();
    }
    assert_eq!(mode, TreeFilterMode::Default);
    assert_eq!(seen.len(), 5);
    assert_eq!(TreeFilterMode::NoTools.label(), "no-tools");
}

#[test]
fn trees_are_flattened() {
    let tree = vec![node("1", "user", text("hello"), vec![node("2", "assistant", text("hi"), Vec::new())])];
    let flat = flatten_tree_items(&tree, 0);
    assert_eq!(flat.len(), 2);
    assert_eq!((flat[0].entry_id.as_str(), flat[0].depth), ("1", 0));
    assert_eq!((flat[1].entry_id.as_str(), flat[1].depth), ("2", 1));
    assert!(flat[0].preview.contains("hello"));
    assert_eq!(tree_entry_preview(&tree[0].entry), flat[0].preview);
    let (items, selections) = build_tree_overlay_items(&tree, Some("2"), TreeFilterMode::UserOnly);
    assert_eq!(items.len(), 1);
    assert!(matches!(&selections[0], OverlaySelection::Tree { tree_entry_id, .. } if tree_entry_id == "1"));
    assert_eq!(extract_message_preview(&object(vec![("content", text("plain"))])), "plain");
}

#[test]
fn tree_keys_change_the_filter() {
    let (mode, status) =
        tree_filter_key(SearchOverlayKind::Tree, Some(TreeFilterMode::Default), &key(KeyCode::Tab)).expect("a mode");
    assert_eq!(mode, TreeFilterMode::NoTools);
    assert_eq!(status, "Tree filter: no-tools");
    assert_eq!(tree_filter_key(SearchOverlayKind::Tree, Some(TreeFilterMode::Default), &key(KeyCode::Up)), None);
    assert_eq!(tree_filter_key(SearchOverlayKind::OAuthLogin, None, &key(KeyCode::Tab)), None);
    let texts = SearchTexts {
        subtitle: "s".to_string(),
        detail: None,
        hint: "h".to_string(),
        search_visible: true,
        search_value: "find me".to_string(),
    };
    let shell = render_search_overlay_shell(SearchOverlayKind::Tree, &texts, Some(TreeFilterMode::All), 70);
    assert!(pieces_text(&shell).contains("find me"));
}

#[test]
fn the_current_session_is_not_deleted() {
    let keys = KeybindingsManager::in_memory();
    let (action, status) = session_overlay_key(&keys, None, Some("/a.jsonl"), Some("/a.jsonl"), false, &ctrl('d'));
    assert_eq!(action, SessionAction::Stay);
    assert!(said(&status).contains("current"));
    let (action, _) = session_overlay_key(&keys, None, Some("/b.jsonl"), Some("/a.jsonl"), false, &ctrl('d'));
    assert_eq!(action, SessionAction::AskDelete("/b.jsonl".to_string()));
    let (action, _) =
        session_overlay_key(&keys, Some("/b.jsonl"), Some("/b.jsonl"), Some("/a.jsonl"), false, &key(KeyCode::Enter));
    assert_eq!(action, SessionAction::Delete("/b.jsonl".to_string()));
    let (action, _) =
        session_overlay_key(&keys, Some("/b.jsonl"), Some("/b.jsonl"), Some("/a.jsonl"), false, &key(KeyCode::Escape));
    assert_eq!(action, SessionAction::KeepSession);
}

#[test]
fn session_queries_are_answered() {
    let build = record("/tmp/a.jsonl", Some("Build"), "Investigating startup footer", 1);
    assert!(session_answers_query(&build, "startup footer"));
    assert!(session_answers_query(&build, "re:^.*FOOTER|footer"));
    assert!(!session_answers_query(&build, "re:foo{9}ter"));
    assert!(!session_answers_query(&build, "\"footer startup\""));
}

#[test]
fn sessions_are_opened() {
    assert_eq!(
        session_list_reply(ListReply::Selected("/a.jsonl".to_string())).0,
        SessionAction::Open("/a.jsonl".to_string())
    );
    assert_eq!(session_list_reply(ListReply::Cancelled).0, SessionAction::Close);
    assert_eq!(session_field_reply(FieldReply::Changed, None).0, SessionAction::Reload);
    assert!(switched_status("/a.jsonl", false).contains("a.jsonl"));
    assert_eq!(
        startup_picker_action(SessionAction::Open("/a.jsonl".to_string()), Status::Keep),
        PickerAction::Selected("/a.jsonl".to_string())
    );
    assert_eq!(startup_picker_action(SessionAction::Close, Status::Keep), PickerAction::Cancel);
}

#[test]
fn models_are_chosen() {
    let selections = vec![OverlaySelection::Model { provider: "a".to_string(), model_id: "x".to_string() }];
    let chosen = Choice::UseModel { provider: "a".to_string(), model_id: "x".to_string() };
    assert_eq!(model_list_reply(&selections, ListReply::Selected("a/x".to_string())).0, chosen);
    assert_eq!(model_field_reply(&selections, FieldReply::Submitted(String::new()), Some("a/x")).0, chosen);
    assert_eq!(model_list_reply(&selections, ListReply::Cancelled).0, Choice::Close);
    assert_eq!(model_overlay_key(&key(KeyCode::Tab)), ModelTarget::ToggleScope);
    assert_eq!(find_selection(&selections, "a/x").as_ref(), Some(&selections[0]));
    assert_eq!(find_selection(&selections, "b/x"), None);
}

#[test]
fn forks_and_logins_are_listed() {
    let messages =
        vec![ForkMessage { entry_id: "e1".to_string(), index: 1, preview: "first".to_string() }];
    let (items, selections) = build_fork_overlay_items(&messages);
    assert!(items[0].label.contains("first"));
    assert_eq!(fork_list_reply(&selections, ListReply::Selected(items[0].value.clone())).0, Choice::ForkAt("e1".to_string()));

    let out = LoginProvider { provider: "anthropic".to_string(), logged_in: false, authenticated: false };
    assert_eq!(
        build_oauth_items(AuthFlowMode::Logout, &[out.clone()]),
        Err("No OAuth providers logged in. Use /login first.".to_string())
    );
    let (items, _) = build_oauth_items(AuthFlowMode::Login, &[out]).expect("providers");
    assert_eq!(items.len(), 1);
    assert!(logout_status("anthropic", true).contains("Anthropic"));
}

#[test]
fn summaries_are_chosen() {
    for item in tree_summary_items() {
        let (choice, _) = tree_summary_reply(ListReply::Selected(item.value.clone()));
        assert!(matches!(choice, Choice::Navigate(_) | Choice::AskInstructions), "{}", item.value);
    }
    assert_eq!(tree_summary_reply(ListReply::Cancelled).0, Choice::BackToTree);
}

#[test]
fn searches_lead_to_choices() {
    let selections = vec![OverlaySelection::Tree { tree_entry_id: "t1".to_string(), label: None }];
    let (choice, _) = search_overlay_choice(
        SearchOverlayKind::Tree,
        &selections,
        Some("t2"),
        SearchOverlayEvent::Selected("t1".to_string()),
    );
    assert_eq!(choice, Choice::AskSummary("t1".to_string()));
    assert_eq!(route_search_key(&key(KeyCode::Up), true), KeyTarget::List);
    assert_eq!(route_search_key(&key(KeyCode::Char('x')), true), KeyTarget::Field);
    assert_eq!(event_of_list(ListReply::Cancelled), SearchOverlayEvent::Cancelled);
    assert_eq!(
        event_of_field(FieldReply::Submitted(String::new()), Some("v")),
        SearchOverlayEvent::Selected("v".to_string())
    );
}

#[test]
fn dialogs_are_answered() {
    let dialog = session_rename_dialog("/a.jsonl", Some("Old"));
    assert_eq!(dialog.value, "Old");
    assert!(pieces_text(&render_dialog_overlay(&dialog, 60)).contains(&dialog.title));
    assert_eq!(
        answer_dialog(DialogKind::RenameSession, FieldReply::Submitted(" New ".to_string())).0,
        DialogAction::Rename("New".to_string())
    );
    assert_eq!(
        answer_dialog(DialogKind::EditTreeLabel, FieldReply::Submitted("  ".to_string())).0,
        DialogAction::Label(None)
    );
    assert_eq!(answer_dialog(DialogKind::EditTreeLabel, FieldReply::Cancelled).0, DialogAction::Back);
    assert_eq!(
        tree_label_dialog(&[], "x").expect_err("nothing selected"),
        "No tree item selected for label editing."
    );
    assert!(!summary_instructions_dialog().title.is_empty());
    let keys = KeybindingsManager::in_memory();
    assert_eq!(overlay_dialog_key(&keys, true, false, true, &key(KeyCode::Up)), DialogKey::Neither);
}

#[test]
fn logins_are_shown() {
    let state = AuthOverlayState::new("anthropic")
        .set_auth_info("https://login.example", Some("Open it"), false)
        .push_progress("waiting");
    let shown = pieces_text(&render_auth_overlay(&state, 70));
    assert!(shown.contains("https://login.example"));
    assert!(shown.contains("waiting"));
    assert!(!state.awaiting_input);
    let asking = state.set_prompt("Code?", Some("paste"));
    assert!(asking.awaiting_input);
    assert!(!asking.sent().awaiting_input);
    assert_eq!(auth_overlay_key(&key(KeyCode::Escape), false), AuthAction::CancelLogin);
    assert_eq!(auth_overlay_key(&key(KeyCode::Char('a')), true), AuthAction::ToField);
    assert_eq!(auth_field_reply(&FieldReply::Submitted("code".to_string())), AuthAction::Send);
}

#[test]
fn regular_expressions_decide_alone() {
    let record = SessionRecord {
        path: "/s/one.jsonl".to_string(),
        cwd: "/work".to_string(),
        name: Some("Footer work".to_string()),
        preview: "startup".to_string(),
        message_count: 2,
        age: "1h".to_string(),
        parent_session: None,
    };
    assert!(session_answers_with(&record, "re:nothing", true));
    assert!(!session_answers_with(&record, "re:footer", false));
    assert!(session_answers_with(&record, "startup", false));
    assert!(!session_answers_with(&record, "missing", true));
}

#[test]
fn session_choices_return() {
    assert_eq!(SessionScope::Current.toggle(), SessionScope::All);
    assert_eq!(SessionScope::Current.toggle().toggle(), SessionScope::Current);
    assert_eq!(SessionNameFilter::All.toggle().label(), "named");
    assert_eq!(SessionSortMode::Threaded.next(), SessionSortMode::Recent);
    assert_eq!(SessionSortMode::Threaded.next().next().next(), SessionSortMode::Threaded);
    assert_eq!(SessionSortMode::Relevance.label(), "relevance");
}

#[test]
fn reached_points_are_announced() {
    assert_eq!(fork_status(true), "Branched to new session.");
    assert_eq!(fork_status(false), "Branched to new session");
    assert_eq!(navigation_status(), "Navigated to selected point");
    assert_eq!(auth_status(&AuthAction::CancelLogin), Status::Say("Cancelling login...".to_string()));
    assert_eq!(auth_status(&AuthAction::Stay), Status::Keep);
}
