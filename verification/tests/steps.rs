use pi_rust_cli::actions::{
    arm_exit, cycle_model_status, cycle_thinking_status, empty_prompt_escape, handle_global_keybinding, loop_action, route_key,
    share_key, toggle_thinking, Arming, Busy, DoubleEscapeAction, EscapeAction, GlobalAction, GlobalKeyAction, KeyRoute, ShareKey,
};
use pi_rust_cli::background::{
    answer_lost_status, apply_live_message, begin_login, end_tool, login_status, needs_periodic_redraw,
    next_spinner_frame, poll_answer, share_status, start_tool, update_tool, AnswerAction, AnswerStage, Arrival,
    LoginOutcome, ShareOutcome,
};
use pi_rust_cli::config::{
    build_config_browser_display_rows, build_config_browser_visible_rows, config_browser_header, config_browser_key,
    config_browser_window, config_field_reply, render_config_browser, selected_config_browser_item,
    step_config_browser_selection, sync_config_browser_selection, BrowserPlace, ConfigBrowserDisplayRow,
    ConfigFieldStep, ConfigStep,
};
use pi_rust_cli::editing::{
    apply_model_completion, apply_path_completion, apply_slash_completion, arrow_browses_history, completion_submits,
    enter_prompt, handle_prompt_key, Entered, PromptAutocompleteKind, PromptStep,
};
use pi_rust_cli::frame::RenderOutput;
use pi_rust_cli::json::Json;
use pi_rust_cli::keybindings::{EditorAction, KeybindingsManager, PromptEditorInput};
use pi_rust_cli::keys::{KeyCode, KeyEvent, KeyModifiers};
use pi_rust_cli::live::{ActiveToolExecution, QueuedMessage, QueuedMessageKind};
use pi_rust_cli::models::ModelOverlayScope;
use pi_rust_cli::opening::{
    begin_prompt, completed_models, dequeue_last, dequeue_status, empty_overlay_status, external_editor_command, external_editor_status, fill_height,
    initial_prompt, opening_model_scope, prompt_after_navigation, provider_count, redraw_delay, reloaded_model_scope,
    render_prompt_autocomplete, settings_notice, start_status, start_step, toggle_model_overlay_scope, EditorOutcome,
    StartStep,
};
use pi_rust_cli::overlay::{FieldReply, SelectItem, Status};
use pi_rust_cli::paths::{normalize_path, relative_path, resolve_plugin_root, same_path, serialize_plugin_root, strip_dir};
use pi_rust_cli::pieces::Piece;
use pi_rust_cli::plugins::{
    add_plugin_root, build_plugin_discovery_roots, plugin_root_added_message, plugin_root_removed_message,
    remove_plugin_root, render_plugin_runtime_diagnostics_text, PluginSummary, PluginWarning, SettingsScope,
};
use pi_rust_cli::resources::{
    build_config_browser_data, config_browser_group_items, config_browser_has_extension_config,
    config_browser_item_title, config_browser_settings_path, resource_scope_from_package_scope,
    toggle_config_browser_item, toggled_message, ConfigBrowserData, ConfigBrowserOwner, ConfigDirs, ConfigResourceKind, ConfigToggle,
    ExtensionSettings, InstalledPackage, PackageInstallScope, ResourceCatalog, ResourceCatalogGroup, ResourceEntry,
    ResourceOrigin,
};
use pi_rust_cli::session::{ModelInfo, QueueMode, SessionState};
use pi_rust_cli::settings::{
    build_settings_items, parse_number, read_setting_change, setting_effects, setting_key_value, setting_status,
    setting_with_id, settings_cancelled_status, sort_once, InterfaceEffect, SessionEffect, SettingChange, SettingKey,
    SettingsContext, TransportSetting,
};
use pi_rust_cli::submit::{
    bool_value, completion_status, copy_status, export_status, queue_message, queue_mode_value, read_interface_settings,
    read_submission, reload_status, restore_pending_messages, submission_status, Submission,
};
use pi_rust_cli::tools::JsonDoc;
use pi_rust_cli::transcript::{Message, RenderedLine, UserContent};

const IDLE: Busy = Busy { auth: false, prompt: false, overlay: false };

fn words(list: &[&str]) -> Vec<String> {
    list.iter().map(|word| word.to_string()).collect()
}

fn key(code: KeyCode) -> KeyEvent {
    KeyEvent::new(code)
}

fn ctrl(c: char) -> KeyEvent {
    KeyEvent::with_modifiers(KeyCode::Char(c), KeyModifiers::ctrl_only())
}

fn object(members: Vec<(&str, Json)>) -> Json {
    Json::Object(members.into_iter().map(|(name, value)| (name.to_string(), value)).collect())
}

fn running(id: &str) -> ActiveToolExecution {
    ActiveToolExecution {
        tool_call_id: id.to_string(),
        tool_name: "bash".to_string(),
        args: JsonDoc { value: Json::Null, raw: "null".to_string() },
        partial_result: None,
    }
}

fn model(provider: &str, id: &str) -> ModelInfo {
    ModelInfo {
        provider: provider.to_string(),
        id: id.to_string(),
        name: id.to_string(),
        reasoning: true,
        context_window: 1_000,
    }
}

fn browser() -> ConfigBrowserData {
    let entry = |path: &str, enabled: bool| ResourceEntry { path: path.to_string(), enabled };
    let catalog = ResourceCatalog {
        skills: vec![
            ResourceCatalogGroup {
                scope: SettingsScope::Global,
                origin: ResourceOrigin::TopLevel { root: "/agent/skills".to_string() },
                entries: vec![entry("/agent/skills/global.md", true)],
            },
            ResourceCatalogGroup {
                scope: SettingsScope::Project,
                origin: ResourceOrigin::Package { root: "/work/pkg/".to_string() },
                entries: vec![entry("/work/pkg/skills/pkg.md", false)],
            },
        ],
        prompts: vec![ResourceCatalogGroup {
            scope: SettingsScope::Project,
            origin: ResourceOrigin::TopLevel { root: "/work/.pi/prompts".to_string() },
            entries: vec![entry("/work/.pi/prompts/project.md", true)],
        }],
        themes: vec![ResourceCatalogGroup {
            scope: SettingsScope::Project,
            origin: ResourceOrigin::Package { root: "/work/pkg".to_string() },
            entries: vec![entry("/work/pkg/themes/dark.json", true)],
        }],
    };
    let packages = vec![InstalledPackage {
        identity: "pkg".to_string(),
        scope: PackageInstallScope::Project,
        source: "../pkg".to_string(),
        install_path: "/work/pkg".to_string(),
    }];
    let dirs = ConfigDirs { agent_dir: "/agent".to_string(), project_dir: "/work/.pi".to_string() };
    build_config_browser_data(&catalog, &packages, &dirs, &None, true)
}

#[test]
fn resources_stand_in_groups() {
    let data = browser();
    let titles: Vec<&str> = data.groups.iter().map(|group| group.title.as_str()).collect();
    assert_eq!(
        titles,
        vec!["Global top-level · /agent/skills", "Project package · ../pkg", "Project top-level · /work/.pi/prompts"]
    );
    assert_eq!(data.groups[1].sections.len(), 2);
    let rows = build_config_browser_visible_rows(&data, "");
    let names: Vec<&str> = rows.iter().map(|row| row.item.title.as_str()).collect();
    assert_eq!(names, vec!["global", "pkg", "dark", "project"]);
    assert_eq!(rows[0].item.id, "skills:/agent/skills/global.md");
    let found = build_config_browser_visible_rows(&data, " DARK ");
    assert_eq!(found.len(), 1);
    let owned = config_browser_group_items(&data, PackageInstallScope::Project, "../pkg", "/work/pkg/", ConfigResourceKind::Skill);
    assert_eq!(owned.len(), 1);
}

#[test]
fn rows_lead_to_their_resources() {
    let data = browser();
    let (rows, places, visible) = build_config_browser_display_rows(&data, "");
    assert_eq!(places.len(), visible.len());
    for (place, row) in places.iter().zip(&visible) {
        assert_eq!(rows[*place], ConfigBrowserDisplayRow::Item(row.item.clone()));
    }
    assert_eq!(rows[0], ConfigBrowserDisplayRow::Group("Global top-level · /agent/skills".to_string()));
    assert_eq!(rows.last(), Some(&ConfigBrowserDisplayRow::Item(visible[3].item.clone())));
    let (start, end) = config_browser_window(&rows, 4, places[3]);
    assert_eq!(end - start, 4);
    assert!(matches!(rows[start], ConfigBrowserDisplayRow::Group(_) | ConfigBrowserDisplayRow::Section(_)));
    assert_eq!(config_browser_window(&rows, 0, 0), (0, rows.len()));
}

#[test]
fn selections_follow_the_rows() {
    let data = browser();
    let rows = build_config_browser_visible_rows(&data, "");
    let first = sync_config_browser_selection(&rows, Some("gone")).expect("a row");
    assert_eq!(first, rows[0].item.id);
    let next = step_config_browser_selection(&rows, Some(&first), 1).expect("a row");
    assert_eq!(next, rows[1].item.id);
    assert_eq!(step_config_browser_selection(&rows, Some(&next), -1), Some(first.clone()));
    assert_eq!(step_config_browser_selection(&rows, Some(&next), isize::MAX), Some(rows[3].item.id.clone()));
    assert_eq!(step_config_browser_selection(&rows, Some(&next), isize::MIN), Some(first.clone()));
    assert_eq!(sync_config_browser_selection(&[], Some("gone")), None);
    assert_eq!(selected_config_browser_item(&rows, Some(&next)), Some(&rows[1].item));
    assert_eq!(selected_config_browser_item(&rows, None), None);

    assert_eq!(config_browser_key(&rows, None, &key(KeyCode::End)), ConfigStep::Select(Some(rows[3].item.id.clone())));
    assert_eq!(config_browser_key(&rows, Some(&next), &key(KeyCode::Char(' '))), ConfigStep::Toggle(1));
    assert_eq!(config_browser_key(&rows, None, &key(KeyCode::Escape)), ConfigStep::Close);
    assert_eq!(config_browser_key(&rows, Some(&next), &key(KeyCode::Char('x'))), ConfigStep::Search(Some(next)));
    assert_eq!(config_browser_key(&[], None, &key(KeyCode::Enter)), ConfigStep::Select(None));
    assert_eq!(config_field_reply(&FieldReply::Changed), ConfigFieldStep::Refilter);
    assert_eq!(config_field_reply(&FieldReply::Cancelled), ConfigFieldStep::Close);
}

#[test]
fn resources_are_turned_over() {
    let data = browser();
    let rows = build_config_browser_visible_rows(&data, "");
    assert_eq!(
        toggle_config_browser_item(&rows[0].item),
        ConfigToggle::Setting {
            scope: SettingsScope::Global,
            kind: ConfigResourceKind::Skill,
            path: "skills/global.md".to_string(),
            enable: false,
        }
    );
    assert_eq!(
        toggle_config_browser_item(&rows[1].item),
        ConfigToggle::PackageFilter {
            identity: "pkg".to_string(),
            package_scope: PackageInstallScope::Project,
            package_kind: ConfigResourceKind::Skill,
            install_path: "/work/pkg".to_string(),
            resource_path: "/work/pkg/skills/pkg.md".to_string(),
            switch_on: true,
        }
    );
    assert_eq!(toggled_message(&rows[0].item, &Some("/agent".to_string())), "Disabled ~/skills/global.md");
    assert_eq!(toggled_message(&rows[1].item, &None), "Enabled /work/pkg/skills/pkg.md");
    assert_eq!(config_browser_settings_path("/agent", "/srv/a\\b"), "/srv/a/b");
    assert_eq!(config_browser_item_title("/a/b.tar.gz"), "b.tar");
    assert_eq!(config_browser_item_title("/a/.hidden"), ".hidden");
    assert_eq!(config_browser_item_title("/"), "resource");
    assert_eq!(resource_scope_from_package_scope(PackageInstallScope::Temporary), SettingsScope::Project);
}

#[test]
fn the_browser_is_drawn() {
    let data = browser();
    let place = BrowserPlace { width: 60, height: 30, above: 8 };
    let pieces = render_config_browser(&data, "", Some("skills:/agent/skills/global.md"), Some("Done"), &None, &place);
    let flows: Vec<&str> = pieces
        .iter()
        .map(|piece| match piece {
            Piece::Flow(text) | Piece::Row(text) => text.as_str(),
            _ => "",
        })
        .collect();
    assert!(flows.iter().any(|line| line.contains("[x] global")));
    assert!(flows.iter().any(|line| line.contains("[ ] pkg")));
    assert!(flows.iter().any(|line| line.contains("Done")));
    assert!(flows.last().expect("a line").contains("Extensions stay static"));
    let empty = render_config_browser(&data, "nothing like it", None, None, &None, &place);
    assert!(matches!(&empty[0], Piece::Flow(text) if text.contains("No resources found")));
    assert!(config_browser_header(60).contains(&Piece::Field(true)));
    let none = ExtensionSettings { extensions: Vec::new(), package_extensions: vec![None, Some(Vec::new())] };
    let some = ExtensionSettings { extensions: Vec::new(), package_extensions: vec![Some(words(&["x"]))] };
    assert!(!config_browser_has_extension_config(&none, &none));
    assert!(config_browser_has_extension_config(&none, &some));
}

#[test]
fn roots_are_added_and_removed() {
    let added = add_plugin_root(&words(&["a"]), &words(&["/work/a"]), "/work/b", "b").expect("a new root");
    assert_eq!(added, words(&["a", "b"]));
    assert_eq!(add_plugin_root(&words(&["a"]), &words(&["/work/a"]), "/work/a", "a"), None);
    let removed = remove_plugin_root(&added, &words(&["/work/a", "/work/b"]), "/work/b").expect("a root");
    assert_eq!(removed, words(&["a"]));
    assert_eq!(remove_plugin_root(&removed, &words(&["/work/a"]), "/work/b"), None);
    assert_eq!(
        plugin_root_added_message("./plugins", SettingsScope::Project),
        "Added plugin root ./plugins to project settings."
    );
    assert_eq!(
        plugin_root_removed_message("./plugins", SettingsScope::Project, true),
        Ok("Removed plugin root ./plugins from project settings.".to_string())
    );
    assert!(plugin_root_removed_message("./plugins", SettingsScope::Global, false).is_err());
    assert_eq!(serialize_plugin_root("/work/.pi", "/work/plugins"), "../plugins");
    assert_eq!(resolve_plugin_root("/work/.pi", "../plugins"), "/work/plugins");
    assert_eq!(resolve_plugin_root("/work/.pi", "/srv/./x"), "/srv/x");
}

#[test]
fn discovery_roots_keep_their_order() {
    let roots = build_plugin_discovery_roots(
        &words(&["/work/project-package"]),
        &words(&["/work/user-package"]),
        &words(&["/work/project-plugins", "/work/user-package"]),
        &words(&["/agent/plugins"]),
    );
    assert_eq!(
        roots,
        words(&["/work/project-package", "/work/user-package", "/work/project-plugins", "/agent/plugins"])
    );
}

#[test]
fn paths_are_tidied() {
    assert_eq!(normalize_path("/a/./b/../c//d/"), "/a/c/d");
    assert_eq!(normalize_path("a/.."), ".");
    assert_eq!(relative_path("/a/b", "/a/c/d"), "../c/d");
    assert!(same_path("/a/b/", "/a/./b"));
    assert_eq!(strip_dir("/a", "/a/b/c").as_deref(), Some("b/c"));
    assert_eq!(strip_dir("/b", "/a/b/c"), None);
}

#[test]
fn diagnostics_are_listed() {
    let plugin = PluginSummary {
        descriptor_path: "/p/pi-plugin-host.json".to_string(),
        plugin_id: "good".to_string(),
        plugin_name: "Good".to_string(),
        manifest_version: 1,
        command_count: 1,
        tool_count: 2,
        flag_count: 0,
        hook_count: 0,
        provider_count: 0,
        model_count: 0,
    };
    let warning = PluginWarning {
        path: Some("/q".to_string()),
        plugin_id: None,
        plugin_name: None,
        message: "did not start".to_string(),
    };
    let text = render_plugin_runtime_diagnostics_text(&[plugin], &[warning]);
    assert!(text.contains("Good"));
    assert!(text.contains("1 command"));
    assert!(text.contains("2 tools"));
    assert!(text.contains("did not start"));
}

#[test]
fn submissions_are_read() {
    assert_eq!(read_submission("/quit"), Submission::Quit);
    assert_eq!(read_submission("/model"), Submission::Model(None));
    assert_eq!(read_submission("/model opus"), Submission::Model(Some("opus".to_string())));
    assert_eq!(
        read_submission("!!ls -l"),
        Submission::Bash { command: "ls -l".to_string(), excluded: true }
    );
    assert_eq!(read_submission("!ls"), Submission::Bash { command: "ls".to_string(), excluded: false });
    assert_eq!(read_submission("hello there"), Submission::Prompt("hello there".to_string()));
    assert_eq!(read_submission("/changelog"), Submission::Changelog);
    assert_eq!(submission_status(&Submission::Prompt("x".to_string())), Status::Clear);
    assert!(!copy_status(None).0);
    assert!(copy_status(Some("answer")).0);
    assert!(export_status("/tmp/x.html").contains("/tmp/x.html"));
    assert_ne!(reload_status(0), reload_status(2));
}

#[test]
fn interface_settings_are_read() {
    let settings = object(vec![
        ("hideThinkingBlock", Json::Bool(true)),
        ("quietStartup", Json::Bool(true)),
        ("steeringMode", Json::Text("all".to_string())),
        ("doubleEscapeAction", Json::Text("fork".to_string())),
    ]);
    let read = read_interface_settings(&settings);
    assert!(read.hide_thinking);
    assert!(read.quiet_startup);
    assert_eq!(read.steering_mode, QueueMode::All);
    assert_eq!(read.double_escape_action, DoubleEscapeAction::Fork);
    assert_eq!(read_interface_settings(&Json::Null).follow_up_mode, QueueMode::OneAtATime);
    assert_eq!(queue_mode_value(QueueMode::OneAtATime), "one-at-a-time");
    assert_eq!(bool_value(true), "true");
}

#[test]
fn messages_wait_and_come_back() {
    let (pending, status) = queue_message(Vec::new(), QueuedMessageKind::Steer, "stop");
    assert_eq!(status, "Queued steer message (1 pending).");
    let (pending, _) = queue_message(pending, QueuedMessageKind::FollowUp, "go on");
    assert_eq!(restore_pending_messages(&pending, &[false, true]), ("go on".to_string(), 1));
    assert_eq!(restore_pending_messages(&pending, &[true, true]), ("stop\ngo on".to_string(), 2));
    assert_eq!(completion_status(Ok(false), 0), Status::Clear);
    assert_eq!(
        completion_status(Ok(true), 2),
        Status::Say("Request aborted. Restored 2 queued message(s).".to_string())
    );
    let (rest, taken) = dequeue_last(pending, true);
    assert_eq!(taken.as_deref(), Some("go on"));
    assert_eq!(rest, vec![QueuedMessage { kind: QueuedMessageKind::Steer, message: "stop".to_string() }]);
    let (rest, taken) = dequeue_last(rest, false);
    assert_eq!((rest.len(), taken), (0, None));
}

#[test]
fn settings_are_listed_and_changed() {
    let state = SessionState {
        model: Some(model("a", "x")),
        thinking_level: "high".to_string(),
        session_name: None,
        session_file: None,
        auto_compaction_enabled: true,
        steering_mode: QueueMode::All,
        follow_up_mode: QueueMode::OneAtATime,
    };
    let context = SettingsContext {
        settings: Json::Object(Vec::new()),
        inline_images: true,
        show_images: true,
        hide_thinking: false,
        double_escape_action: DoubleEscapeAction::Tree,
        supports_xhigh: false,
        hardware_cursor: false,
        theme_names: words(&["light", "dark", "light"]),
    };
    let items = build_settings_items(&state, &context);
    for item in &items {
        let known = setting_with_id(&item.id).expect("a known setting");
        assert_eq!(setting_key_value(known), item.id);
    }
    assert_eq!(sort_once(&words(&["b", "a", "b"])), words(&["a", "b"]));
    assert_eq!(setting_with_id("nothing"), None);
    assert_eq!(
        read_setting_change(setting_key_value(SettingKey::QuietStartup), "true"),
        SettingChange::Switch(SettingKey::QuietStartup, true)
    );
    assert_eq!(
        read_setting_change(setting_key_value(SettingKey::Transport), "websocket"),
        SettingChange::Transport(TransportSetting::Websocket)
    );
    assert_eq!(read_setting_change("nothing", "x"), SettingChange::Unknown);
    assert_eq!(parse_number("12"), Some(12));
    assert_eq!(parse_number("+3"), Some(3));
    assert_eq!(parse_number("-4"), Some(-4));
    assert_eq!(parse_number("9223372036854775808"), None);
    assert_eq!(parse_number("x"), None);
    assert!(!setting_status(setting_key_value(SettingKey::Theme), "dark", "high").is_empty());
}

#[test]
fn global_keys_do_what_they_say() {
    let keys = KeybindingsManager::in_memory();
    let (action, _) = handle_global_keybinding(&keys, IDLE, "text", false, &ctrl('c'));
    assert_eq!(action, GlobalAction::ClearPrompt);
    let (action, _) = handle_global_keybinding(&keys, IDLE, "", true, &ctrl('c'));
    assert_eq!(action, GlobalAction::Quit);
    assert_eq!(loop_action(&action), GlobalKeyAction::Quit);
    let busy = Busy { prompt: true, ..IDLE };
    let (action, _) = handle_global_keybinding(&keys, busy, "", false, &ctrl('c'));
    assert_eq!(action, GlobalAction::Abort);
    let (action, _) = handle_global_keybinding(&keys, IDLE, "text", false, &ctrl('d'));
    assert_ne!(action, GlobalAction::Quit);
    let (action, _) = handle_global_keybinding(&keys, IDLE, "", false, &key(KeyCode::Char('x')));
    assert_eq!(action, GlobalAction::PassOn);
    assert!(cycle_model_status(Some(("a", "x"))).contains('x'));
    assert!(!cycle_thinking_status(Ok(None)).is_empty());
    assert!(toggle_thinking(false).0);
}

#[test]
fn two_escapes_open_what_is_set() {
    let (action, _) = empty_prompt_escape(&key(KeyCode::Escape), false, "", false, DoubleEscapeAction::Tree);
    assert_eq!(action, EscapeAction::Arm);
    let (action, _) = empty_prompt_escape(&key(KeyCode::Escape), false, "", true, DoubleEscapeAction::Fork);
    assert_eq!(action, EscapeAction::OpenFork);
    let (action, _) = empty_prompt_escape(&key(KeyCode::Escape), false, "text", true, DoubleEscapeAction::Fork);
    assert_eq!(action, EscapeAction::Other);
    for action in [DoubleEscapeAction::Tree, DoubleEscapeAction::Fork, DoubleEscapeAction::Nothing] {
        assert_eq!(DoubleEscapeAction::from_settings(Some(action.as_str())), action);
    }
    assert_eq!(share_key(&key(KeyCode::Escape)), ShareKey::Cancel);
    assert_eq!(route_key(true, false, &key(KeyCode::Escape)), KeyRoute::Share(ShareKey::Cancel));
    assert_eq!(route_key(false, true, &ctrl('p')), KeyRoute::OverlayFirst);
}

#[test]
fn prompt_keys_edit_the_prompt() {
    let keys = KeybindingsManager::in_memory();
    let (step, _) = handle_prompt_key(&keys, false, false, "", &key(KeyCode::Char('a')));
    assert_eq!(step, PromptStep::Edit(PromptEditorInput::InsertText("a".to_string())));
    let (step, _) = handle_prompt_key(&keys, false, false, "", &key(KeyCode::Enter));
    assert_eq!(step, PromptStep::Edit(PromptEditorInput::Action(EditorAction::Submit)));
    let (step, _) = handle_prompt_key(&keys, false, true, "", &key(KeyCode::Escape));
    assert_eq!(step, PromptStep::Abort);
    assert_eq!(enter_prompt("  hi ", false), Entered::Submit("hi".to_string()));
    assert_eq!(enter_prompt("  hi ", true), Entered::Steer("hi".to_string()));
    assert_eq!(enter_prompt("   ", false), Entered::Nothing);
    assert!(arrow_browses_history(true, 0, 3));
    assert!(!arrow_browses_history(true, 1, 3));
    assert!(completion_submits(PromptAutocompleteKind::SlashCommand, true));
    assert!(!completion_submits(PromptAutocompleteKind::Path, true));
}

#[test]
fn completions_keep_the_rest_of_the_line() {
    let done = apply_slash_completion("/se", 3, "/settings");
    assert_eq!((done.line.as_str(), done.cursor), ("/settings ", 10));
    let done = apply_model_completion("/model op", 9, "anthropic/opus").expect("a model");
    assert_eq!(done.line, "/model anthropic/opus");
    let file = SelectItem { value: "src/lib.rs".to_string(), label: "lib.rs".to_string(), description: None };
    let done = apply_path_completion("see src/l now", 9, &file, "src/l", false).expect("a path");
    assert_eq!(done.line, "see src/lib.rs now");
}

#[test]
fn answers_finish_in_two_steps() {
    let (stage, action) = poll_answer(AnswerStage::Running, Arrival::Result);
    assert_eq!((stage, action), (AnswerStage::Lingering, AnswerAction::Keep));
    assert_eq!(poll_answer(AnswerStage::Running, Arrival::Nothing).1, AnswerAction::Wait);
    assert_eq!(poll_answer(AnswerStage::Running, Arrival::Lost).1, AnswerAction::GiveUp);
    assert!(!answer_lost_status().is_empty());
    assert!(needs_periodic_redraw(false, true, false));
    assert!(!needs_periodic_redraw(false, false, false));
    assert_eq!(redraw_delay(true), 100);
    assert_eq!(redraw_delay(false), 250);
    assert!(next_spinner_frame(0) < 100);
}

#[test]
fn tools_start_and_end() {
    let mut tools = Vec::new();
    start_tool(&mut tools, running("a"));
    start_tool(&mut tools, running("b"));
    start_tool(&mut tools, running("a"));
    assert_eq!(tools.len(), 2);
    update_tool(&mut tools, "b", JsonDoc { value: Json::Bool(true), raw: "true".to_string() });
    let updated = tools.iter().find(|tool| tool.tool_call_id == "b").expect("b");
    assert!(updated.partial_result.is_some());
    let left = end_tool(tools, "b");
    assert!(left.iter().all(|tool| tool.tool_call_id != "b"));
    let mut messages = Vec::new();
    apply_live_message(&mut messages, Message::User(UserContent::Text("x".to_string())), false);
    assert_eq!(messages.len(), 1);
}

#[test]
fn outcomes_are_said() {
    let shared = ShareOutcome::Shared { viewer_url: "https://v".to_string(), gist_url: "https://g".to_string() };
    assert!(share_status(&shared).contains("https://v"));
    assert_ne!(share_status(&ShareOutcome::Cancelled), share_status(&ShareOutcome::Lost));
    assert!(login_status("anthropic", LoginOutcome::Failure("denied".to_string())).contains("denied"));
    assert_ne!(login_status("anthropic", LoginOutcome::Success), login_status("anthropic", LoginOutcome::Lost));
    assert_eq!(begin_login(true, "anthropic"), Err("A login flow is already running.".to_string()));
    assert!(begin_login(false, "anthropic").expect("a dialog").starts_with("Login dialog open for "));
}

#[test]
fn sessions_and_editors_are_opened() {
    assert_eq!(begin_prompt(false, true, true), Ok(true));
    assert_eq!(begin_prompt(false, true, false), Ok(false));
    assert_eq!(begin_prompt(true, true, true), Err("A prompt is already running.".to_string()));
    assert_eq!(start_step(true, false), StartStep::PickSession);
    assert_eq!(start_step(true, true), StartStep::Open);
    assert_eq!(start_status(true, false).as_deref(), Some("Continuing the most recent session."));
    assert_eq!(start_status(true, true), None);
    assert_eq!(initial_prompt(&words(&["a", "b"])).as_deref(), Some("a\nb"));
    assert_eq!(initial_prompt(&[]), None);
    let blank = Some("  ".to_string());
    let vi = Some("vi".to_string());
    assert_eq!(external_editor_command(&blank, &vi), vi);
    assert_eq!(external_editor_command(&vi, &Some("ed".to_string())), vi);
    assert_eq!(external_editor_command(&blank, &None), None);
    assert_eq!(
        external_editor_status(&EditorOutcome::Failed("exit status: 1".to_string())),
        "External editor exited with status exit status: 1."
    );
    assert!(external_editor_status(&EditorOutcome::NotSet).contains("$VISUAL"));
    assert_ne!(external_editor_status(&EditorOutcome::Finished), external_editor_status(&EditorOutcome::NotSet));
    assert_eq!(prompt_after_navigation("  ", &Some("again".to_string())), "again");
    assert_eq!(prompt_after_navigation("mine", &Some("again".to_string())), "mine");
    assert_eq!(empty_overlay_status(true, 0).as_deref(), Some("No messages to fork from"));
    assert_eq!(empty_overlay_status(false, 0).as_deref(), Some("No entries in session"));
    assert_eq!(empty_overlay_status(false, 1), None);
    assert_eq!(settings_notice(SettingsScope::Global, "broken"), "Global: broken");
}

#[test]
fn model_scopes_are_toggled() {
    assert_eq!(opening_model_scope(0), ModelOverlayScope::All);
    assert_eq!(opening_model_scope(2), ModelOverlayScope::Scoped);
    assert_eq!(reloaded_model_scope(ModelOverlayScope::Scoped, 0), ModelOverlayScope::All);
    let (scope, status) = toggle_model_overlay_scope(ModelOverlayScope::All, 2);
    assert_eq!(scope, ModelOverlayScope::Scoped);
    assert_eq!(status, Status::Say("Model scope: scoped".to_string()));
    assert_eq!(toggle_model_overlay_scope(ModelOverlayScope::All, 0), (ModelOverlayScope::All, Status::Keep));
    assert_eq!(provider_count(&[model("a", "x"), model("b", "y"), model("a", "z")]), 2);
}

#[test]
fn pictures_fill_the_height() {
    let output = RenderOutput { lines: vec![RenderedLine::Text("one".to_string())], cursor: None };
    assert_eq!(fill_height(output.clone(), 3, 4).lines.len(), 4);
    assert_eq!(fill_height(output, 3, 0).lines.len(), 1);
    assert_eq!(render_prompt_autocomplete("Commands", "sub", "hint").len(), 6);
}

#[test]
fn restored_messages_are_announced() {
    assert_eq!(dequeue_status(true), "Restored the most recent queued message.");
    assert_eq!(dequeue_status(false), "No queued messages to restore.");
}

#[test]
fn scoped_models_are_offered_first() {
    let all = vec![model("openai", "a"), model("openai", "b")];
    let scoped = vec![model("openai", "b")];
    assert_eq!(completed_models(&all, &scoped), &scoped[..]);
    assert_eq!(completed_models(&all, &[]), &all[..]);
}

#[test]
fn stored_roots_lead_back() {
    let base = "/home/me/work/.pi";
    let root = resolve_plugin_root("/home/me/work", "./../plugins/./x");
    assert_eq!(root, "/home/me/plugins/x");
    let stored = serialize_plugin_root(base, &root);
    assert_eq!(stored, "../../plugins/x");
    assert_eq!(resolve_plugin_root(base, &stored), root);
    let roots = vec!["../other".to_string()];
    let resolved = vec![resolve_plugin_root(base, "../other")];
    let after = add_plugin_root(&roots, &resolved, &root, &stored).expect("a new root");
    let resolved: Vec<String> = after.iter().map(|entry| resolve_plugin_root(base, entry)).collect();
    assert_eq!(remove_plugin_root(&after, &resolved, &root), Some(roots));
    assert_eq!(serialize_plugin_root("/", "/"), ".");
    assert_eq!(resolve_plugin_root("/", "."), "/");
}

#[test]
fn stored_roots_lead_back_without_a_root() {
    let kept = [
        (".pi", ".", "plugins", "plugins", "../plugins"),
        (".", ".", "plugins", "plugins", "../plugins"),
        (".", ".", ".", ".", "."),
        ("a/b", ".", ".", ".", "../../."),
        ("a/b", "a", "c", "a/c", "../c"),
        (".pi", "/work", "plugins", "/work/plugins", "/work/plugins"),
        ("/w\\x/.pi", "/w\\x", "plugins", "/w\\x/plugins", "../plugins"),
    ];
    for (base, cwd, value, root, stored) in kept {
        let found = resolve_plugin_root(cwd, value);
        assert_eq!(found, root);
        assert_eq!(serialize_plugin_root(base, &found), stored);
        assert_eq!(resolve_plugin_root(base, stored), root);
    }
    assert_eq!(serialize_plugin_root("/a", "x"), "../x");
    assert_eq!(resolve_plugin_root("/a", "../x"), "/x");
    assert_eq!(serialize_plugin_root("/a", "/a/x\\y"), "x/y");
}

#[test]
fn config_browser_visible_rows_include_top_level_and_package_resources() {
    let rows = build_config_browser_visible_rows(&browser(), "");
    assert!(rows.iter().any(|row| row.item.title == "global"));
    assert!(rows.iter().any(|row| row.item.title == "project"));
    assert!(rows.iter().any(|row| row.item.title == "pkg"));
    assert!(rows.iter().any(|row| matches!(row.item.owner, ConfigBrowserOwner::Package { .. })));
}

#[test]
fn plugin_discovery_order_includes_project_and_user_plugin_roots_between_packages() {
    let discovery_roots = build_plugin_discovery_roots(
        &[resolve_plugin_root("/t/workspace", "project-package")],
        &[resolve_plugin_root("/t/workspace", "user-package")],
        &[resolve_plugin_root("/t/workspace/.pi", "../project-plugins")],
        &[resolve_plugin_root("/t/agent", "plugins")],
    );
    assert_eq!(
        discovery_roots,
        vec![
            normalize_path("/t/workspace/project-package"),
            normalize_path("/t/workspace/user-package"),
            normalize_path("/t/workspace/project-plugins"),
            normalize_path("/t/agent/plugins"),
        ]
    );
}

#[test]
fn changes_of_settings_have_effects() {
    let effects = setting_effects(&read_setting_change("setting:steering_mode", "all"));
    assert_eq!(effects.session, SessionEffect::SteeringMode(QueueMode::All));
    assert_eq!(effects.interface, InterfaceEffect::Nothing);
    assert!(effects.written && effects.renews_snapshot && !effects.renews_completions);
    let effects = setting_effects(&read_setting_change("setting:hide_thinking", "true"));
    assert_eq!(effects.interface, InterfaceEffect::HideThinking(true));
    assert!(effects.written && !effects.renews_snapshot);
    let effects = setting_effects(&read_setting_change("setting:skill_commands", "false"));
    assert_eq!(effects.session, SessionEffect::Nothing);
    assert!(effects.written && effects.renews_completions);
    let effects = setting_effects(&read_setting_change("setting:none", "true"));
    assert!(!effects.written && !effects.renews_snapshot && !effects.renews_completions);
    assert_eq!(settings_cancelled_status(), "Settings cancelled.");
}

#[test]
fn leaving_is_armed_on_an_empty_prompt() {
    let keys = KeybindingsManager::in_memory();
    let clear = KeyEvent::with_modifiers(KeyCode::Char('c'), KeyModifiers::ctrl_only());
    let idle = Busy { auth: false, prompt: false, overlay: false };
    let working = Busy { auth: false, prompt: true, overlay: false };
    assert_eq!(arm_exit(&keys, idle, "", false, &clear), Arming::Arm);
    assert_eq!(arm_exit(&keys, idle, "text", false, &clear), Arming::Forget);
    assert_eq!(arm_exit(&keys, working, "", false, &clear), Arming::Keep);
    assert_eq!(arm_exit(&keys, idle, "", true, &KeyEvent::new(KeyCode::Up)), Arming::Forget);
}
