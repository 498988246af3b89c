use pi_rust_cli::diff::{collect_diff_lines, parse_diff_line, render_intra_line_diff};
use pi_rust_cli::markdown::{collect_markdown_lines, parse_heading, parse_list_item, render_inline_markdown};
use pi_rust_cli::numbers::{format_percentage, format_token_count, Level};
use pi_rust_cli::panels::{append_panel_block, collapse_panel_body};
use pi_rust_cli::screen::{fit_line, style_hint, truncate_to_width, visible_width};
use pi_rust_cli::wrap::{wrap_text, wrap_with_prefix};

#[test]
fn wrap_text_preserves_readable_lines() {
    let lines = wrap_text("one two three four", 7);
    assert_eq!(
        lines,
        vec![
            "one two".to_string(),
            "three".to_string(),
            "four".to_string()
        ]
    );
}

#[test]
fn diff_lines_highlight_single_line_replacements() {
    let lines = collect_diff_lines("-  12 let value = 1;\n+  12 let value = 2;", 120);
    assert_eq!(lines.len(), 2);
    assert!(lines[0].contains("\u{1b}[7m"));
    assert!(lines[1].contains("\u{1b}[7m"));
}

#[test]
fn changed_words_stand_out() {
    let (removed, added) = render_intra_line_diff("let value = 1;", "let value = 2;");
    assert!(removed.starts_with("let"));
    assert!(removed.find("value") < removed.find("\u{1b}[7m"));
    assert!(removed.contains("1;"));
    assert!(added.contains("2;"));
    assert!(removed.contains("\u{1b}[7m"));
    let (same, again) = render_intra_line_diff("same", "same");
    assert_eq!(same, again);
    assert!(same.starts_with("same"));
}

#[test]
fn diff_lines_are_read() {
    let line = parse_diff_line("+12 let value = 2;").expect("an added line");
    assert_eq!(line.prefix, '+');
    assert_eq!(line.line_num, "12");
    assert_eq!(line.content, "let value = 2;");
    assert!(parse_diff_line("@@ -1 +1 @@").is_none());
}

#[test]
fn diff_keeps_every_line() {
    let diff = "@@ -1,2 +1,2 @@\n-a\n-b\n+c\n d";
    assert_eq!(collect_diff_lines(diff, 80).len(), 5);
}

#[test]
fn styles_take_no_width() {
    let styled = style_hint("abc");
    assert_ne!(styled, "abc");
    assert_eq!(visible_width(&styled), 3);
    assert_eq!(visible_width(&truncate_to_width(&styled, 2)), 2);
    assert_eq!(visible_width(&fit_line("ab", 5)), 5);
    assert_eq!(visible_width(&fit_line("abcdefg", 5)), 5);
}

#[test]
fn wrapped_words_fit_where_they_can() {
    for line in wrap_text("aa bb cc dd ee ff", 5) {
        assert!(visible_width(&line) <= 5);
    }
    assert_eq!(wrap_text("", 10), vec!["".to_string()]);
    let prefixed = wrap_with_prefix("one two three", "> ", 9);
    assert_eq!(prefixed[0], "> one two");
    assert_eq!(prefixed[1], "  three");
}

#[test]
fn markdown_is_read() {
    assert_eq!(parse_heading("## Two"), Some((2, "Two".to_string())));
    assert_eq!(parse_heading("plain"), None);
    assert!(parse_list_item("- item").is_some());
    assert!(render_inline_markdown("**bold**").contains("bold"));
    assert!(!render_inline_markdown("**bold**").contains("**"));
    assert!(!collect_markdown_lines("", 40).is_empty());
}

#[test]
fn collapsed_panels_are_short() {
    let body: Vec<String> = (0..20).map(|n| n.to_string()).collect();
    let short = collapse_panel_body(&body, 1, 4, false, false, "ctrl+o");
    assert!(short.len() < body.len());
    assert!(short.iter().any(|line| line.contains("ctrl+o")));
    assert_eq!(collapse_panel_body(&body, 1, 4, false, true, "ctrl+o")[..20], body[..]);
    for line in append_panel_block("Title", &body, 30) {
        assert_eq!(visible_width(&line), 30);
    }
}

fn tokens_with_floats(value: u64) -> String {
    if value < 1_000 {
        return value.to_string();
    }
    if value < 10_000 {
        return format!("{:.1}k", value as f64 / 1_000.0);
    }
    if value < 1_000_000 {
        return format!("{}k", (value as f64 / 1_000.0).round() as u64);
    }
    if value < 10_000_000 {
        return format!("{:.1}M", value as f64 / 1_000_000.0);
    }
    format!("{}M", (value as f64 / 1_000_000.0).round() as u64)
}

#[test]
fn token_counts_agree_with_floating_point() {
    for value in 0..12_000u64 {
        assert_eq!(format_token_count(value), tokens_with_floats(value), "{value}");
    }
    let mut value: u64 = 12_001;
    while value < u64::MAX / 3 {
        for near in [value - 1, value, value + 1, value + 449, value + 500] {
            assert_eq!(format_token_count(near), tokens_with_floats(near), "{near}");
        }
        value = value / 7 * 9 + 13;
    }
    for value in [999_499, 999_500, 1_049_999, 1_050_000, 1_150_000, 9_949_999, 9_950_000, 10_499_999, 10_500_000, u64::MAX] {
        assert_eq!(format_token_count(value), tokens_with_floats(value), "{value}");
    }
    assert_eq!(format_token_count(200_000), "200k");
    assert_eq!(format_token_count(1_250), "1.2k");
}

fn percentage_with_floats(part: u64, whole: u64) -> (String, Level) {
    let percent = (part as f64 / whole as f64) * 100.0;
    let level = if percent >= 90.0 {
        Level::Critical
    } else if percent >= 70.0 {
        Level::High
    } else {
        Level::Low
    };
    (format!("{percent:.1}"), level)
}

#[test]
fn percentages_agree_with_floating_point() {
    let wholes = [1u64, 3, 7, 10, 128, 1_000, 4_096, 65_535, 128_000, 200_000, 262_144, 1_000_000, 1 << 40, u64::MAX];
    for whole in wholes {
        let mut part: u64 = 0;
        for step in 0..400u64 {
            let (shown, level) = format_percentage(part, whole);
            let (expected, expected_level) = percentage_with_floats(part, whole);
            assert!(shown.starts_with(&expected), "{part} of {whole}: {shown} for {expected}");
            assert_eq!(level, expected_level, "{part} of {whole}");
            part = part.saturating_add(whole / 311 + step % 3 + 1);
        }
    }
    let (shown, level) = format_percentage(1_745, 200_000);
    assert!(shown.starts_with("0.9"));
    assert_eq!(level, Level::Low);
    assert_eq!(format_percentage(95, 100).1, Level::Critical);
    assert_eq!(format_percentage(80, 100).1, Level::High);
}
