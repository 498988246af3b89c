use pi_rust_cli::chrome::{
    align_footer_row, composer_max_visible_lines, display_app_shortcut, footer_context_usage, footer_subtitle,
    prompt_composer_border_rules, render_footer_panel, startup_hint_lines, startup_notice_lines,
};
use pi_rust_cli::json::{indented_or_raw, pretty_json};
use pi_rust_cli::frame::{
    append_blank_lines, append_output, clip_render_output_to_height, lay_out_frame, lay_out_shell, overlay_presentation,
    transcript_with_banner,
    should_show_startup_stack, CursorPosition, FrameParts, OverlayKind, OverlayPresentation, RenderOutput,
};
use pi_rust_cli::keybindings::{AppAction, KeybindingsManager};
use pi_rust_cli::screen::{style_bash_border_rule, style_success, visible_width};
use pi_rust_cli::session::{Cost, ModelInfo, QueueMode, SessionState, SessionStats, TokenStats};
use pi_rust_cli::startup::{
    render_status_lines, startup_header_lines, startup_resource_lines, LoginProgress, NoticeSection, StartupNotice,
    StartupSummary,
};
use pi_rust_cli::summary::{
    branch_from_output, changelog_markdown, context_file_names, format_grouped_decimal, format_hotkeys_markdown,
    format_session_summary_markdown, is_session_path, project_context_files,
};
use pi_rust_cli::transcript::RenderedLine;

fn strip_ansi(text: &str) -> String {
    let mut out = String::new();
    let mut chars = text.chars();
    while let Some(ch) = chars.next() {
        if ch == '\u{1b}' {
            for next in chars.by_ref() {
                if next.is_ascii_alphabetic() {
                    break;
                }
            }
            continue;
        }
        out.push(ch);
    }
    out
}

fn output_text(output: &RenderOutput) -> String {
    output
        .lines
        .iter()
        .map(|line| match line {
            RenderedLine::Text(text) => strip_ansi(text),
            RenderedLine::Image(image) => image.alt_text.clone(),
        })
        .collect::<Vec<_>>()
        .join("\n")
}

fn sample_state() -> SessionState {
    SessionState {
        model: Some(ModelInfo {
            id: "gpt-5.1-codex".to_string(),
            name: "GPT-5.1 Codex".to_string(),
            provider: "openai".to_string(),
            reasoning: true,
            context_window: 200_000,
        }),
        thinking_level: "high".to_string(),
        steering_mode: QueueMode::All,
        follow_up_mode: QueueMode::OneAtATime,
        session_file: Some("session.jsonl".to_string()),
        session_name: Some("Footer Parity".to_string()),
        auto_compaction_enabled: true,
    }
}

fn sample_stats() -> SessionStats {
    SessionStats {
        session_file: Some("session.jsonl".to_string()),
        session_id: "session-123".to_string(),
        user_messages: 3,
        assistant_messages: 2,
        tool_calls: 1,
        tool_results: 1,
        total_messages: 6,
        tokens: TokenStats { input: 1_200, output: 345, cache_read: 200, cache_write: 0, total: 1_745 },
        cost: Cost { positive: true, amount: "$0.123".to_string() },
    }
}

fn text_output(lines: &[&str]) -> RenderOutput {
    RenderOutput { lines: lines.iter().map(|line| RenderedLine::Text(line.to_string())).collect(), cursor: None }
}

#[test]
fn footer_panel_renders_session_stats_and_status() {
    let lines = render_footer_panel(&sample_state(), &sample_stats(), "/workspace/pi", Some("main"), &None, 140, 2, false);
    let text = lines.iter().map(|line| strip_ansi(line)).collect::<Vec<_>>().join("\n");
    assert!(text.contains("/workspace/pi"));
    assert!(text.contains("(main)"));
    assert!(text.contains("Footer Parity"));
    assert!(text.contains("↑1.2k"));
    assert!(text.contains("↓345"));
    assert!(text.contains("R200"));
    assert!(text.contains("$0.123"));
    assert!(text.contains("0.9%"));
    assert!(text.contains("200k"));
    assert!(text.contains("auto"));
    assert!(text.contains("gpt-5.1-codex"));
    assert!(text.contains("high"));
}

#[test]
fn footer_panel_shows_thinking_off_for_reasoning_models() {
    let mut state = sample_state();
    state.thinking_level = "off".to_string();
    let lines = render_footer_panel(&state, &sample_stats(), "/workspace/pi", Some("main"), &None, 140, 0, false);
    let text = lines.iter().map(|line| strip_ansi(line)).collect::<Vec<_>>().join("\n");
    assert!(text.contains("thinking off"));
}

#[test]
fn prompt_composer_border_rules_use_distinct_thinking_colors() {
    let off = prompt_composer_border_rules("", "off", 8);
    let minimal = prompt_composer_border_rules("", "minimal", 8);
    let low = prompt_composer_border_rules("", "low", 8);
    let medium = prompt_composer_border_rules("", "medium", 8);
    let high = prompt_composer_border_rules("", "high", 8);
    let xhigh = prompt_composer_border_rules("", "xhigh", 8);
    let bash = prompt_composer_border_rules("!!printf hi", "medium", 8);

    assert_eq!(off.0, off.1);
    assert_eq!(minimal.0, minimal.1);
    assert_eq!(low.0, low.1);
    assert_eq!(medium.0, medium.1);
    assert_eq!(high.0, high.1);
    assert_eq!(xhigh.0, xhigh.1);
    assert_ne!(off.0, minimal.0);
    assert_ne!(minimal.0, low.0);
    assert_ne!(low.0, medium.0);
    assert_ne!(medium.0, high.0);
    assert_ne!(high.0, xhigh.0);
    assert_eq!(bash.0, bash.1);
    assert_eq!(bash.0, style_bash_border_rule(&"─".repeat(8)));
}

#[test]
fn startup_stack_stays_visible_during_first_active_turn() {
    assert!(should_show_startup_stack(
        false, None, true, false, true,
    ));
    assert!(!should_show_startup_stack(
        false, None, false, false, true,
    ));
    assert!(!should_show_startup_stack(
        false,
        Some(OverlayPresentation::Standalone),
        true,
        false,
        true,
    ));
}

#[test]
fn clip_render_output_to_height_keeps_bottom_cursor_visible() {
    let output = RenderOutput {
        lines: (0..10)
            .map(|index| RenderedLine::Text(format!("line {index}")))
            .collect(),
        cursor: Some(CursorPosition { row: 9, col: 4 }),
    };

    let clipped = clip_render_output_to_height(output, 4);
    let text = output_text(&clipped);

    assert_eq!(clipped.lines.len(), 4);
    assert!(text.contains("line 6"));
    assert!(text.contains("line 9"));
    assert_eq!(clipped.cursor, Some(CursorPosition { row: 3, col: 4 }));
}

#[test]
fn startup_resource_lines_render_extension_summaries_and_warnings() {
    let summary = StartupSummary {
        skills: Vec::new(),
        prompts: Vec::new(),
        extensions: Vec::new(),
        themes: Vec::new(),
        conflicts: Vec::new(),
        extension_summaries: vec![
            "Good Plugin [good] v1 - 1 command, 1 tool - /tmp/packages/good/pi-plugin-host.json"
                .to_string(),
        ],
        notices: vec![StartupNotice {
            section: NoticeSection::Extension,
            heading: "Extension warnings".to_string(),
            path: "/tmp/packages/good/pi-plugin-host.json".to_string(),
            message: "Good Plugin [good]: plugin did not respond within 50ms".to_string(),
        }],
    };

    let rendered = startup_resource_lines(&[], &summary, &None, 120).join("\n");

    assert!(rendered.contains("[Extensions]"));
    assert!(rendered.contains("Good Plugin [good] v1"));
    assert!(rendered.contains("Extension warnings"));
    assert!(rendered.contains("plugin did not respond within 50ms"));
}

#[test]
fn footers_keep_to_the_width() {
    for width in [0u16, 1, 5, 20, 60, 140] {
        for line in render_footer_panel(&sample_state(), &sample_stats(), "/workspace/pi", None, &None, width, 2, true) {
            assert!(visible_width(&line) <= width as usize, "{width}");
        }
    }
    assert_eq!(align_footer_row("left", "right", 12), "left   right");
    assert_eq!(
        strip_ansi(&footer_subtitle("/home/me/project", Some("dev"), &Some("/home/me".to_string()), 60)),
        "~/project (dev)"
    );
    assert!(strip_ansi(&footer_context_usage(&sample_state(), 190_000)).contains("95.0%"));
}

#[test]
fn frames_end_with_the_footer() {
    let parts = FrameParts {
        header: text_output(&["header"]),
        transcript: (0..40).map(|n| RenderedLine::Text(format!("entry {n}"))).collect(),
        tool_lines: Vec::new(),
        pending: None,
        status: Some(text_output(&["status"])),
        prompt: Some(RenderOutput { cursor: Some(CursorPosition { row: 0, col: 2 }), ..text_output(&["prompt"]) }),
        footer: text_output(&["footer one", "footer two"]),
        active_prompt: false,
        new_session_banner: false,
    };
    let frame = lay_out_frame(parts, 40, 12);
    assert_eq!(frame.lines.len(), 12);
    assert_eq!(frame.lines[11], RenderedLine::Text("footer two".to_string()));
    assert!(output_text(&frame).contains("entry 39"));
    let cursor = frame.cursor.expect("a cursor");
    assert_eq!(frame.lines[cursor.row as usize], RenderedLine::Text("prompt".to_string()));
}

#[test]
fn shells_end_with_the_footer() {
    let frame = lay_out_shell(text_output(&["header"]), text_output(&["overlay"]), text_output(&["footer"]), 20, 8);
    assert_eq!(frame.lines.len(), 8);
    assert_eq!(frame.lines[7], RenderedLine::Text("footer".to_string()));
}

#[test]
fn outputs_stand_below_each_other() {
    let child = RenderOutput { cursor: Some(CursorPosition { row: 0, col: 3 }), ..text_output(&["two"]) };
    let both = append_output(text_output(&["one"]), child, true);
    assert_eq!(both.cursor, Some(CursorPosition { row: 1, col: 3 }));
    let spaced = append_blank_lines(both, 3, 2);
    assert_eq!(spaced.lines.len(), 4);
    assert_eq!(overlay_presentation(OverlayKind::Auth), OverlayPresentation::Standalone);
}

#[test]
fn clipping_twice_is_clipping_once() {
    let output = text_output(&["a", "b", "c", "d", "e"]);
    let once = clip_render_output_to_height(output, 3);
    let twice = clip_render_output_to_height(once.clone(), 3);
    assert_eq!(once, twice);
}

#[test]
fn startup_texts() {
    let keys = KeybindingsManager::in_memory();
    assert_eq!(display_app_shortcut(&keys, AppAction::CycleModelBackward), "shift+ctrl+p");
    assert!(startup_hint_lines(&keys).iter().any(|line| strip_ansi(line) == "ctrl+c to clear"));
    assert!(!startup_notice_lines(true, &[], 60).is_empty());
    assert!(composer_max_visible_lines(40) > 0);
    let summary = StartupSummary {
        skills: vec!["/skills/a".to_string()],
        prompts: Vec::new(),
        extensions: Vec::new(),
        extension_summaries: Vec::new(),
        themes: Vec::new(),
        notices: Vec::new(),
        conflicts: Vec::new(),
    };
    let header = startup_header_lines("0.1.0", false, &keys, false, &[], &[], &summary, &None, 80).join("\n");
    assert!(header.contains("0.1.0"));
    assert!(header.contains("/skills/a"));
}

#[test]
fn status_lines_show_what_goes_on() {
    let login = Some(LoginProgress { provider: "anthropic".to_string(), elapsed_seconds: 7 });
    let lines = render_status_lines(Some("Saved."), false, false, &login, 0, 60).join("\n");
    assert!(lines.contains("Saved."));
    assert!(render_status_lines(None, false, false, &None, 0, 60).is_empty());
    assert!(!render_status_lines(None, false, true, &None, 3, 60).is_empty());
}

#[test]
fn numbers_are_grouped() {
    assert_eq!(format_grouped_decimal(0), "0");
    assert_eq!(format_grouped_decimal(999), "999");
    assert_eq!(format_grouped_decimal(1_000), "1,000");
    assert_eq!(format_grouped_decimal(12_345_678), "12,345,678");
    assert_eq!(format_grouped_decimal(u64::MAX as i128).replace(',', ""), u64::MAX.to_string());
    assert_eq!(format_grouped_decimal(-1), "-1");
    assert_eq!(format_grouped_decimal(-999), "-999");
    assert_eq!(format_grouped_decimal(-1_234_567), "-1,234,567");
    assert_eq!(format_grouped_decimal(i128::MIN).replace(',', ""), i128::MIN.to_string());
}

#[test]
fn sessions_are_summed_up() {
    let text = format_session_summary_markdown(&sample_state(), &sample_stats());
    assert_eq!(
        text,
        "## Session\n- Name: Footer Parity\n- File: session.jsonl\n- ID: session-123\n\n## Messages\n- User: 3\n- Assistant: 2\n- Tool Calls: 1\n- Tool Results: 1\n- Total: 6\n\n## Tokens\n- Input: 1,200\n- Output: 345\n- Cache Read: 200\n- Total: 1,745\n\n## Cost\n- Total: $0.123"
    );
    let free = SessionStats {
        session_file: None,
        cost: Cost { positive: false, amount: "$0.00".to_string() },
        ..sample_stats()
    };
    let text = format_session_summary_markdown(&SessionState { session_name: None, ..sample_state() }, &free);
    assert!(text.contains("- File: In-memory"));
    assert!(!text.contains("Name"));
    assert!(!text.contains("Cost"));
}

#[test]
fn keys_are_listed() {
    let text = format_hotkeys_markdown(&KeybindingsManager::in_memory());
    assert!(text.starts_with("## Navigation\n"));
    assert!(text.contains("- enter: Send message"));
    assert!(text.contains("- ctrl+p / ctrl+shift+p: Cycle models"));
    assert!(text.ends_with("- !!: Run bash command (excluded from context)"));
}

#[test]
fn the_latest_changes_are_shown() {
    let content = "# Changelog\n\n## [Unreleased]\n- a\n\n## [1.2.0]\n- b\n\n## Notes\nx\n\n## [1.1.0]\n- c\n\n## [1.0.0]\n- d\n";
    assert_eq!(changelog_markdown(content), "## [Unreleased]\n- a\n\n## [1.2.0]\n- b\n\n## [1.1.0]\n- c");
    assert_eq!(changelog_markdown("# Changelog"), "No changelog entries found.");
}

#[test]
fn places_are_found_out() {
    assert_eq!(branch_from_output("main\n").as_deref(), Some("main"));
    assert_eq!(branch_from_output("HEAD\n"), None);
    assert_eq!(branch_from_output(" \n"), None);
    let names = context_file_names(
        &["/home/me/AGENTS.md".to_string(), "/srv/NOTES.md".to_string(), "/home/me/AGENTS.md".to_string()],
        &Some("/home/me".to_string()),
    );
    assert_eq!(names, vec!["~/AGENTS.md".to_string(), "/srv/NOTES.md".to_string()]);
    assert_eq!(project_context_files().len(), 5);
}

#[test]
fn session_files_have_an_extension() {
    assert!(is_session_path("/sessions/a.jsonl"));
    assert!(is_session_path("a.b.jsonl"));
    assert!(!is_session_path("/sessions/.jsonl"));
    assert!(!is_session_path("/sessions/a.json"));
    assert!(!is_session_path("/"));
}

#[test]
fn rows_begin_anew_after_the_last_one() {
    let many = RenderOutput { lines: vec![RenderedLine::Text(String::new()); 65_537], cursor: None };
    let child = RenderOutput { cursor: Some(CursorPosition { row: 2, col: 0 }), ..text_output(&["x", "y", "z"]) };
    let both = append_output(many, child, true);
    assert_eq!(both.cursor, Some(CursorPosition { row: 3, col: 0 }));
    assert_eq!(both.lines.len(), 65_540);
}

#[test]
fn json_is_indented() {
    assert_eq!(pretty_json("{\"b\":[1,2]}"), "{\n  \"b\": [\n    1,\n    2\n  ]\n}");
    assert_eq!(pretty_json("{\"b\":"), "{\"b\":");
    assert_eq!(indented_or_raw("raw", Some("pretty".to_string())), "pretty");
    assert_eq!(indented_or_raw("raw", None), "raw");
}

#[test]
fn new_sessions_are_announced() {
    let banner = |active: bool| FrameParts {
        header: RenderOutput::empty(),
        transcript: vec![RenderedLine::Text("entry".to_string())],
        tool_lines: Vec::new(),
        pending: None,
        status: None,
        prompt: None,
        footer: text_output(&["footer"]),
        active_prompt: active,
        new_session_banner: true,
    };
    let announced = RenderedLine::Text(style_success("✓ New session started"));
    let empty = RenderedLine::Text(String::new());
    let frame = lay_out_frame(banner(true), 10, 6);
    assert_eq!(frame.lines.len(), 6);
    assert_eq!(frame.lines[0], announced);
    assert_eq!(frame.lines[1], empty);
    assert_eq!(frame.lines[2], RenderedLine::Text("entry".to_string()));
    assert_eq!(frame.lines[3], empty);
    assert_eq!(frame.lines[4], RenderedLine::Text(" ".repeat(10)));
    assert_eq!(frame.lines[5], RenderedLine::Text("footer".to_string()));
    let frame = lay_out_frame(banner(false), 10, 6);
    assert_eq!(frame.lines[3], RenderedLine::Text(" ".repeat(10)));
    assert_eq!(transcript_with_banner(Vec::new(), false, true), Vec::new());
    assert_eq!(transcript_with_banner(Vec::new(), true, true), vec![announced, empty.clone(), empty]);
}
