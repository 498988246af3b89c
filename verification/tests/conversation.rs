use pi_rust_cli::json::Json;
use pi_rust_cli::live::{
    active_tool_render_lines, apply_live_transcript_message, latest_active_tool_panel_id,
    latest_transcript_tool_panel_id, pending_message_lines, ActiveToolExecution, QueuedMessage, QueuedMessageKind,
};
use pi_rust_cli::opening::{build_transcript_entries, SessionEntry};
use pi_rust_cli::tools::{
    build_edit_call_lines, build_find_result_lines, collect_bash_result_lines, collect_edit_call_preview_lines,
    parse_grep_context_line, parse_grep_match_line, shorten_home_path, split_bracket_notices, tool_panel_title,
    tool_read_range, ContentBlock, JsonDoc, ToolResult,
};
use pi_rust_cli::transcript::{
    content_text, find_tool_call_arguments, parse_skill_block, render_summary_entry, render_transcript_entry,
    session_transcript_lines, AssistantBlock, AssistantMessage, Message, RenderedLine, StopReason, SummaryKind,
    ToolExpandMode, TranscriptEntry, TranscriptRenderContext, UserContent,
};

fn strip_ansi(text: &str) -> String {
    let mut out = String::new();
    let mut chars = text.chars().peekable();
    while let Some(ch) = chars.next() {
        if ch == '\u{1b}' {
            if matches!(chars.peek(), Some(']')) {
                chars.next();
                for next in chars.by_ref() {
                    if next == '\u{7}' {
                        break;
                    }
                }
            } else {
                for next in chars.by_ref() {
                    if next.is_ascii_alphabetic() {
                        break;
                    }
                }
            }
            continue;
        }
        out.push(ch);
    }
    out
}

fn convert(value: &serde_json::Value) -> Json {
    match value {
        serde_json::Value::Null => Json::Null,
        serde_json::Value::Bool(b) => Json::Bool(*b),
        serde_json::Value::Number(n) => match (n.as_u64(), n.as_i64()) {
            (Some(n), _) => Json::Unsigned(n),
            (None, Some(n)) => Json::Negative(n),
            (None, None) => Json::Other(n.to_string()),
        },
        serde_json::Value::String(s) => Json::Text(s.clone()),
        serde_json::Value::Array(list) => Json::Array(list.iter().map(convert).collect()),
        serde_json::Value::Object(map) => {
            Json::Object(map.iter().map(|(name, value)| (name.clone(), convert(value))).collect())
        }
    }
}

fn json(raw: &str) -> Json {
    convert(&serde_json::from_str(raw).expect("json"))
}

fn doc(raw: &str) -> JsonDoc {
    JsonDoc { value: json(raw), raw: raw.to_string() }
}

fn context(width: u16) -> TranscriptRenderContext {
    TranscriptRenderContext {
        width,
        hide_thinking: false,
        show_images: false,
        inline_images: false,
        tool_expand_mode: ToolExpandMode::Collapsed,
        expand_hint: "ctrl+o".to_string(),
        home: None,
    }
}

fn expanded(width: u16) -> TranscriptRenderContext {
    TranscriptRenderContext { tool_expand_mode: ToolExpandMode::All, ..context(width) }
}

fn shown(lines: Vec<RenderedLine>) -> Vec<String> {
    lines
        .into_iter()
        .map(|line| match line {
            RenderedLine::Text(text) => strip_ansi(&text),
            RenderedLine::Image(_) => "[image]".to_string(),
        })
        .collect()
}

fn rendered_entry(entry: &TranscriptEntry, width: u16) -> Vec<String> {
    let mut lines = Vec::new();
    render_transcript_entry(&mut lines, entry, None, &context(width), width);
    shown(lines)
}

fn any(lines: &[String], part: &str) -> bool {
    lines.iter().any(|line| line.contains(part))
}

fn assistant(content: Vec<AssistantBlock>) -> TranscriptEntry {
    TranscriptEntry::Message(Message::Assistant(AssistantMessage {
        content,
        stop_reason: StopReason::Stop,
        error_message: None,
    }))
}

fn call(id: &str, name: &str, arguments: &str) -> AssistantBlock {
    AssistantBlock::ToolCall { id: id.to_string(), name: name.to_string(), arguments: doc(arguments) }
}

fn result(id: &str, name: &str, text: &str) -> TranscriptEntry {
    TranscriptEntry::Message(Message::ToolResult(ToolResult {
        tool_call_id: id.to_string(),
        tool_name: name.to_string(),
        content: vec![ContentBlock::Text(text.to_string())],
        details: None,
        is_error: false,
    }))
}

fn running(id: &str, name: &str, args: &str, partial: &str) -> ActiveToolExecution {
    ActiveToolExecution {
        tool_call_id: id.to_string(),
        tool_name: name.to_string(),
        args: doc(args),
        partial_result: Some(doc(partial)),
    }
}

#[test]
fn active_tool_render_lines_show_bash_output_text() {
    let rendered = shown(active_tool_render_lines(
        &[running("call-1", "bash", r#"{"command": "echo hi"}"#, r#"{"output": "first line\nsecond line"}"#)],
        &context(80),
    ));
    assert!(!any(&rendered, "Running Bash"));
    assert!(!any(&rendered, "Bash"));
    assert!(any(&rendered, "$ echo hi"));
    assert!(any(&rendered, "echo hi"));
    assert!(any(&rendered, "first line"));
    assert!(any(&rendered, "second line"));
}

#[test]
fn pending_write_tool_call_renders_preview_instead_of_raw_json() {
    let rendered = rendered_entry(
        &assistant(vec![call(
            "call-write",
            "write",
            r#"{"path": "src/main.rs", "content": "fn main() {\n    println!(\"hi\");\n}"}"#,
        )]),
        80,
    );
    assert!(any(&rendered, "write src/main.rs"));
    assert!(any(&rendered, "println!(\"hi\");"));
    assert!(!any(&rendered, "preview"));
    assert!(!any(&rendered, "\"content\""));
}

#[test]
fn pending_edit_tool_call_renders_replace_preview() {
    let rendered = rendered_entry(
        &assistant(vec![call(
            "call-edit",
            "edit",
            r#"{"path": "src/lib.rs", "oldText": "let value = 1;", "newText": "let value = 2;"}"#,
        )]),
        80,
    );
    assert!(any(&rendered, "edit src/lib.rs"));
    assert!(any(&rendered, "- let value = 1;"));
    assert!(any(&rendered, "+ let value = 2;"));
    assert!(!any(&rendered, "replace"));
    assert!(!any(&rendered, "\"oldText\""));
}

#[test]
fn active_tool_render_lines_show_diff_lines() {
    let rendered = shown(active_tool_render_lines(
        &[running("call-2", "edit", r#"{"path": "file.txt"}"#, r#"{"diff": "@@ -1 +1 @@\n-old\n+new"}"#)],
        &context(80),
    ));
    assert!(any(&rendered, "@@ -1 +1 @@"));
    assert!(any(&rendered, "-old"));
    assert!(any(&rendered, "+new"));
}

#[test]
fn live_assistant_thinking_renders_visible_or_collapsed_based_on_setting() {
    let mut transcript = vec![TranscriptEntry::Message(Message::User(UserContent::Text("hello".to_string())))];
    apply_live_transcript_message(
        &mut transcript,
        Message::Assistant(AssistantMessage {
            content: vec![
                AssistantBlock::Thinking("thinking stream".to_string()),
                AssistantBlock::Text("final answer".to_string()),
            ],
            stop_reason: StopReason::Stop,
            error_message: None,
        }),
        false,
    );

    let visible = shown(session_transcript_lines(&transcript, &context(80))).join("\n");
    let hiding = TranscriptRenderContext { hide_thinking: true, ..context(80) };
    let hidden = shown(session_transcript_lines(&transcript, &hiding)).join("\n");

    assert!(visible.contains("thinking stream"));
    assert!(visible.contains("final answer"));
    assert!(hidden.contains("Thinking..."));
    assert!(!hidden.contains("thinking stream"));
}

#[test]
fn user_messages_render_as_padded_surface_without_log_prefix() {
    let rendered = rendered_entry(
        &TranscriptEntry::Message(Message::User(UserContent::Text("**hello** world".to_string()))),
        40,
    );
    assert!(any(&rendered, "hello world"));
    assert!(!any(&rendered, "You:"));
}

#[test]
fn assistant_markdown_renders_without_assistant_prefix() {
    let rendered = rendered_entry(
        &assistant(vec![AssistantBlock::Text("# Heading\n\n```rs\nfn main() {}\n```".to_string())]),
        60,
    );
    assert!(any(&rendered, "Heading"));
    assert!(any(&rendered, "fn main() {}"));
    assert!(!any(&rendered, "Assistant:"));
}

#[test]
fn transcript_tool_result_uses_correlated_read_args_for_title_and_range() {
    let rendered = shown(session_transcript_lines(
        &[
            assistant(vec![call(
                "call-read",
                "read",
                r#"{"path": "/tmp/example.rs", "offset": 2, "limit": 2}"#,
            )]),
            result(
                "call-read",
                "read",
                "fn answer() {}\nreturn 42;\n\n[2 more lines in file. Use offset=4 to continue.]",
            ),
        ],
        &context(80),
    ));
    assert!(any(&rendered, "read /tmp/example.rs:2-3"));
    assert!(any(&rendered, "fn answer() {}"));
    assert!(any(&rendered, "return 42;"));
    assert!(!any(&rendered, "contents 2-3"));
    assert!(any(&rendered, "[2 more lines in file. Use offset=4 to continue.]"));
}

#[test]
fn transcript_tool_result_uses_correlated_write_args_for_preview() {
    let rendered = shown(session_transcript_lines(
        &[
            assistant(vec![call(
                "call-write",
                "write",
                r#"{"path": "src/main.rs", "content": "fn main() {\n    println!(\"hi\");\n}"}"#,
            )]),
            result("call-write", "write", "Successfully wrote 31 bytes to src/main.rs"),
        ],
        &context(80),
    ));
    assert!(any(&rendered, "write src/main.rs"));
    assert!(any(&rendered, "println!(\"hi\");"));
    assert!(!any(&rendered, "preview"));
}

#[test]
fn transcript_tool_result_formats_grep_results_with_structured_prefixes() {
    let rendered = shown(session_transcript_lines(
        &[result(
            "call-grep",
            "grep",
            "src/app.ts:2: console.log(value)\nsrc/app.ts-1- const value = 1;\n\n[Some lines truncated to 400 chars. Use read tool to see full lines]",
        )],
        &context(90),
    ));
    assert!(any(&rendered, "grep ."));
    assert!(any(&rendered, "src/app.ts"));
    assert!(any(&rendered, "2: console.log(value)"));
    assert!(any(&rendered, "console.log(value)"));
    assert!(any(&rendered, "1- const value = 1;"));
    assert!(any(&rendered, "Use read tool"));
}

#[test]
fn transcript_tool_result_formats_ls_directories_distinctly() {
    let rendered = shown(session_transcript_lines(
        &[result(
            "call-ls",
            "ls",
            "alpha.txt\nbeta/\n\n[500 entries limit reached. Use limit=1000 for more]",
        )],
        &context(80),
    ));
    assert!(any(&rendered, "ls"));
    assert!(any(&rendered, "alpha.txt"));
    assert!(any(&rendered, "beta/"));
    assert!(any(&rendered, "500 entries limit reached"));
}

#[test]
fn render_custom_bash_message_includes_command_and_output() {
    let rendered = rendered_entry(
        &TranscriptEntry::CustomMessage {
            custom_type: "bash_execution".to_string(),
            content: UserContent::Blocks(vec![ContentBlock::Text("$ echo hi\nhi\nExit code: 0".to_string())]),
            details: Some(json(r#"{"output":"hi","exitCode":0}"#)),
        },
        80,
    );
    assert!(!any(&rendered, "Bash"));
    assert!(any(&rendered, "$ echo hi"));
    assert!(any(&rendered, "hi"));
    assert!(!any(&rendered, "Exit code: 0"));
}

#[test]
fn transcript_image_blocks_only_emit_image_lines_when_terminal_supports_it() {
    let content = UserContent::Blocks(vec![ContentBlock::Image {
        data: "AAAA".to_string(),
        mime_type: "image/png".to_string(),
    }]);

    let mut fallback_lines = Vec::new();
    let fallback = TranscriptRenderContext { show_images: true, ..context(80) };
    render_transcript_entry(
        &mut fallback_lines,
        &TranscriptEntry::Message(Message::User(content.clone())),
        None,
        &fallback,
        80,
    );
    assert_eq!(
        fallback_lines
            .iter()
            .filter(|line| matches!(line, RenderedLine::Image(_)))
            .count(),
        0
    );

    let mut inline_lines = Vec::new();
    let inline = TranscriptRenderContext { show_images: true, inline_images: true, ..context(80) };
    render_transcript_entry(
        &mut inline_lines,
        &TranscriptEntry::Message(Message::User(content)),
        None,
        &inline,
        80,
    );
    assert!(
        inline_lines
            .iter()
            .any(|line| matches!(line, RenderedLine::Image(_)))
    );
}

#[test]
fn active_tool_render_lines_show_expand_hint_when_collapsed() {
    let rendered = shown(active_tool_render_lines(
        &[running(
            "call-3",
            "grep",
            r#"{"pattern": "foo"}"#,
            r#"{"output": "one\ntwo\nthree\nfour\nfive\nsix\nseven\neight\nnine\nten\neleven\nsixteen\nseventeen\neighteen\nnineteen\ntwenty"}"#,
        )],
        &context(80),
    ));
    assert!(any(&rendered, "ctrl+o to expand"));
}

#[test]
fn active_tool_render_lines_show_collapse_hint_when_expanded() {
    let rendered = shown(active_tool_render_lines(
        &[running(
            "call-4",
            "grep",
            r#"{"pattern": "foo"}"#,
            r#"{"output": "one\ntwo\nthree\nfour\nfive\nsix\nseven\neight\nnine\nten\neleven\nsixteen\nseventeen\neighteen\nnineteen\ntwenty"}"#,
        )],
        &expanded(80),
    ));
    assert!(any(&rendered, "twenty"));
    assert!(!any(&rendered, "ctrl+o to expand"));
}

#[test]
fn content_text_joins_text_blocks_and_skips_images() {
    let text = content_text(&UserContent::Blocks(vec![
        ContentBlock::Text("first".to_string()),
        ContentBlock::Image { data: "AAAA".to_string(), mime_type: "image/png".to_string() },
        ContentBlock::Text("second".to_string()),
    ]));

    assert_eq!(text, "first\nsecond");
}

#[test]
fn tool_expand_mode_all_expands_all_active_panels() {
    let rendered = shown(active_tool_render_lines(
        &[
            running(
                "call-a",
                "grep",
                r#"{"pattern": "foo"}"#,
                r#"{"output": "one\ntwo\nthree\nfour\nfive\nsix\nseven\neight\nnine\nten\neleven\ntwelve\nthirteen\nfourteen\nfifteen\nsixteen\nseventeen"}"#,
            ),
            running(
                "call-b",
                "grep",
                r#"{"pattern": "bar"}"#,
                r#"{"output": "alpha\nbeta\ngamma\ndelta\nepsilon\nzeta\neta\ntheta\niota\nkappa\nlambda\nmu\nnu\nxi\nomicron\npi\nrho"}"#,
            ),
        ],
        &expanded(80),
    ));
    assert!(any(&rendered, "seventeen"));
    assert!(any(&rendered, "rho"));
    assert!(!any(&rendered, "ctrl+o to expand"));
}

#[test]
fn streamed_answers_replace_themselves() {
    let mut transcript = vec![TranscriptEntry::Message(Message::User(UserContent::Text("hello".to_string())))];
    let answer = |text: &str| {
        Message::Assistant(AssistantMessage {
            content: vec![AssistantBlock::Text(text.to_string())],
            stop_reason: StopReason::Stop,
            error_message: None,
        })
    };
    apply_live_transcript_message(&mut transcript, answer("a"), false);
    apply_live_transcript_message(&mut transcript, answer("ab"), false);
    assert_eq!(transcript.len(), 2);
    assert_eq!(transcript[1], assistant(vec![AssistantBlock::Text("ab".to_string())]));
}

#[test]
fn other_tools_show_their_arguments_with_indentation() {
    let rendered = rendered_entry(&assistant(vec![call("c", "deploy", r#"{"target":"prod","dry":true}"#)]), 80);
    assert!(any(&rendered, "deploy"));
    assert!(any(&rendered, "  \"target\": \"prod\""));
}

#[test]
fn arguments_that_are_no_json_are_shown_as_they_stand() {
    let broken = JsonDoc { value: Json::Null, raw: "{\"oldText\": oops".to_string() };
    let lines = build_edit_call_lines(&broken, 60);
    assert!(lines.iter().any(|line| line.contains("oops")));
}

#[test]
fn edit_previews_keep_to_their_limit() {
    let old: String = (0..30).map(|n| format!("old {n}\n")).collect();
    let new: String = (0..30).map(|n| format!("new {n}\n")).collect();
    let lines = collect_edit_call_preview_lines(&old, &new, 80, 10);
    let marked = lines.iter().filter(|line| {
        let plain = strip_ansi(line);
        plain.starts_with("- ") || plain.starts_with("+ ")
    });
    assert!(marked.count() <= 10);
}

#[test]
fn skill_blocks_are_read() {
    let text = "<skill name=\"review\" location=\"/skills/review/SKILL.md\">\nLook closely.\n</skill>\n\nCheck this";
    let block = parse_skill_block(text).expect("a skill block");
    assert_eq!(block.name, "review");
    assert_eq!(block.location, "/skills/review/SKILL.md");
    assert_eq!(block.content, "Look closely.");
    assert_eq!(block.user_message.as_deref(), Some("Check this"));
    assert_eq!(parse_skill_block("plain text"), None);
}

#[test]
fn arguments_are_found_by_the_call_they_belong_to() {
    let entries = vec![
        assistant(vec![call("a", "read", r#"{"path": "one"}"#)]),
        assistant(vec![call("b", "read", r#"{"path": "two"}"#)]),
    ];
    assert_eq!(find_tool_call_arguments(&entries, 2, "a"), Some(&json(r#"{"path": "one"}"#)));
    assert_eq!(find_tool_call_arguments(&entries, 1, "b"), None);
}

#[test]
fn waiting_messages_are_listed() {
    let waiting = vec![
        QueuedMessage { kind: QueuedMessageKind::Steer, message: "stop".to_string() },
        QueuedMessage { kind: QueuedMessageKind::FollowUp, message: "then go".to_string() },
    ];
    let lines: Vec<String> = pending_message_lines(&waiting, 60).iter().map(|line| strip_ansi(line)).collect();
    assert!(any(&lines, "[steer] stop"));
    assert!(any(&lines, "[follow-up] then go"));
    assert!(pending_message_lines(&[], 60).is_empty());
}

#[test]
fn panels_have_identifiers() {
    let tools = vec![
        running("call-1", "bash", "{}", "{}"),
        running("call-2", "bash", "{}", "{}"),
    ];
    let latest = latest_active_tool_panel_id(&tools).expect("a panel");
    assert!(latest.contains("call-2"));
    assert_eq!(latest_active_tool_panel_id(&[]), None);
    assert!(latest_transcript_tool_panel_id(&[result("call-9", "ls", "")]).expect("a panel").contains("call-9"));
}

#[test]
fn session_entries_become_transcript_entries() {
    let entries = build_transcript_entries(vec![
        SessionEntry::Message(Message::User(UserContent::Text("hi".to_string()))),
        SessionEntry::CustomMessage {
            custom_type: "note".to_string(),
            content: UserContent::Text("hidden".to_string()),
            details: None,
            display: false,
        },
        SessionEntry::Other,
        SessionEntry::Compaction { summary: "short".to_string(), tokens_before: 12 },
        SessionEntry::BranchSummary { branch_summary: "other way".to_string() },
    ]);
    assert_eq!(entries.len(), 3);
    assert_eq!(
        entries[1],
        TranscriptEntry::Summary {
            kind: SummaryKind::Compaction,
            title: "Compaction Summary".to_string(),
            body: "short".to_string(),
            tokens_before: Some(12),
        }
    );
    assert_eq!(
        entries[2],
        TranscriptEntry::Summary {
            kind: SummaryKind::Branch,
            title: "Branch Summary".to_string(),
            body: "other way".to_string(),
            tokens_before: None,
        }
    );
}

#[test]
fn summaries_show_their_text() {
    let lines: Vec<String> =
        render_summary_entry(SummaryKind::Generic, "Session", "- Name: x", None, 60, "ctrl+o")
            .iter()
            .map(|line| strip_ansi(line))
            .collect();
    assert!(any(&lines, "Session"));
    assert!(any(&lines, "Name: x"));
}

#[test]
fn found_lines_are_taken_apart() {
    let found = parse_grep_match_line("src/a.rs:12: let x = 1;").expect("a match");
    assert_eq!((found.path.as_str(), found.number.as_str()), ("src/a.rs", "12"));
    assert!(parse_grep_match_line("no numbers here").is_none());
    let around = parse_grep_context_line("src/a.rs-11- }").expect("a line around it");
    assert_eq!(around.number, "11");
}

#[test]
fn notices_in_brackets_stand_apart() {
    let (lines, notices) = split_bracket_notices("one\ntwo\n\n[limit reached]");
    assert_eq!(lines[0], "one");
    assert_eq!(notices, vec!["[limit reached]".to_string()]);
}

#[test]
fn tool_titles_and_ranges() {
    let args = json(r#"{"path": "/home/me/a.rs", "offset": 3, "limit": 4}"#);
    assert_eq!(tool_read_range(Some(&args)).as_deref(), Some(":3-6"));
    let title = strip_ansi(&tool_panel_title("read", Some(&args), None, &Some("/home/me".to_string())));
    assert!(title.contains("read ~/a.rs:3-6"));
    assert_eq!(shorten_home_path("/home/me/a", &Some("/home/me".to_string())), "~/a");
    assert_eq!(shorten_home_path("/srv/a", &Some("/home/me".to_string())), "/srv/a");
    assert_eq!(shorten_home_path("/srv/a", &None), "/srv/a");
}

#[test]
fn empty_results_say_so() {
    assert!(!build_find_result_lines("", 40).is_empty());
    assert!(collect_bash_result_lines("hi", 40).iter().any(|line| line.contains("hi")));
}
