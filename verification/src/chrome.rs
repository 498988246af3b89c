//! What stands around the transcript: the footer, the greeting and the borders of the prompt.
use vstd::prelude::*;
use crate::keybindings::{AppAction, EditorAction, KeybindingsManager};
use crate::numbers;
use crate::numbers::{format_percentage, format_token_count, Level};
use crate::screen;
use crate::screen::{
    fit_line, normalized_thinking_level, style_bash_border_rule, style_dim, style_error,
    style_hint, style_subtitle, style_success, style_thinking_border_rule, style_warning,
    truncate_to_width, visible_width,
};
use crate::session::{SessionState, SessionStats};
use crate::text;
use crate::text::{begins_with_char, cat2, cat3, cat4, cat5, copy_text, join_texts, repeat_char, replaced_text, same, trimmed, trimmed_start};
use crate::tools;
use crate::tools::shorten_home_path;
use crate::wrap;
use crate::wrap::wrap_text;

verus! {

broadcast use crate::text::group_texts;

/// One text where a condition holds, else none.
pub open spec fn only_if(wanted: bool, s: Seq<char>) -> Seq<Seq<char>> {
    if wanted {
        seq![s]
    } else {
        Seq::empty()
    }
}

/// Where a session stands: the directory and the branch.
pub open spec fn place(cwd: Seq<char>, branch: Option<Seq<char>>, home: Option<Seq<char>>) -> Seq<
    char,
> {
    let shown = tools::short_path(cwd, home);
    match branch {
        Some(b) => if b.len() > 0 {
            shown + " ("@ + b + ")"@
        } else {
            shown
        },
        None => shown,
    }
}

/// What an optional text refers to.
pub open spec fn opt_str(value: Option<&str>) -> Option<Seq<char>> {
    match value {
        Some(s) => Some(s@),
        None => None,
    }
}

/// Where a session stands, in a width.
pub fn footer_subtitle(cwd: &str, git_branch: Option<&str>, home: &Option<String>, width: usize) -> (r:
    String)
    ensures
        r@ == screen::subtitle(
            screen::cut(place(cwd@, opt_str(git_branch), text::opt_text(*home)), width as nat),
        ),
{
    let shown = shorten_home_path(cwd, home);
    let plain = match git_branch {
        Some(branch) => if branch.is_empty() {
            shown
        } else {
            cat4(shown.as_str(), " (", branch, ")")
        },
        None => shown,
    };
    style_subtitle(truncate_to_width(plain.as_str(), width).as_str())
}

/// How many tokens the model of a session takes in.
pub open spec fn context_window(state: SessionState) -> nat {
    match state.model {
        Some(model) => if model.provider@ == "openai"@ && (model.id@ == "gpt-4.1"@ || model.id@
            == "gpt-4.1-mini"@ || model.id@ == "gpt-4.1-nano"@) {
            1_047_576
        } else {
            model.context_window as nat
        },
        None => 0,
    }
}

/// How many tokens the model of a session takes in.
pub fn footer_context_window(state: &SessionState) -> (r: u64)
    ensures
        r == context_window(*state),
{
    match &state.model {
        Some(model) => if same(model.provider.as_str(), "openai") && (same(
            model.id.as_str(),
            "gpt-4.1",
        ) || same(model.id.as_str(), "gpt-4.1-mini") || same(model.id.as_str(), "gpt-4.1-nano")) {
            1_047_576
        } else {
            model.context_window
        },
        None => 0,
    }
}

/// A share in the color of its level.
pub open spec fn level_styled(level: Level, s: Seq<char>) -> Seq<char> {
    match level {
        Level::Critical => screen::error(s),
        Level::High => screen::warning(s),
        Level::Low => screen::success(s),
    }
}

/// How much of what the model takes in is used.
pub open spec fn context_usage(state: SessionState, total: nat) -> Seq<char> {
    let window = context_window(state);
    if window == 0 {
        screen::hint("?"@) + "/"@ + screen::subtitle("0"@)
    } else {
        let share = numbers::share(total, window);
        level_styled(numbers::level_of(share), numbers::percent_text(share)) + "/"@
            + screen::subtitle(numbers::token_text(window))
    }
}

/// How much of what the model takes in is used.
pub fn footer_context_usage(state: &SessionState, total: u64) -> (r: String)
    ensures
        r@ == context_usage(*state, total as nat),
{
    let window = footer_context_window(state);
    if window == 0 {
        return cat3(style_hint("?").as_str(), "/", style_subtitle("0").as_str());
    }
    let (shown, level) = format_percentage(total, window);
    let styled = match level {
        Level::Critical => style_error(shown.as_str()),
        Level::High => style_warning(shown.as_str()),
        Level::Low => style_success(shown.as_str()),
    };
    cat3(styled.as_str(), "/", style_subtitle(format_token_count(window).as_str()).as_str())
}

/// Two texts in one row, the second at the right end; where they do not both fit, the first one is
/// cut, and where even the second does not fit, it alone is shown.
pub open spec fn aligned(left: Seq<char>, right: Seq<char>, width: nat) -> Seq<char> {
    let l = screen::width_of(left);
    let r = screen::width_of(right);
    if right.len() == 0 {
        screen::cut(left, width)
    } else if l + r + 1 <= width {
        left + text::repeated(' ', (width - (l + r)) as nat) + right
    } else if r >= width {
        screen::cut(right, width)
    } else {
        screen::cut(left, (width - (r + 1)) as nat) + " "@ + right
    }
}

/// Two texts in one row, the second at the right end.
pub fn align_footer_row(left: &str, right: &str, width: usize) -> (r: String)
    ensures
        r@ == aligned(left@, right@, width as nat),
{
    if right.is_empty() {
        return truncate_to_width(left, width);
    }
    let left_width = visible_width(left);
    let right_width = visible_width(right);
    if left_width < width && right_width < width - left_width {
        let gap: usize = width - left_width - right_width;
        return cat3(left, repeat_char(' ', gap).as_str(), right);
    }
    if right_width >= width {
        return truncate_to_width(right, width);
    }
    cat3(truncate_to_width(left, width - right_width - 1).as_str(), " ", right)
}

/// A count with a sign before it.
pub open spec fn counted(sign: Seq<char>, n: nat) -> Seq<char> {
    screen::subtitle(sign + numbers::token_text(n))
}

/// What a session has used so far.
pub open spec fn usage_segments(state: SessionState, stats: SessionStats, subscribed: bool) -> Seq<
    Seq<char>,
> {
    only_if(stats.tokens.input > 0, counted("↑"@, stats.tokens.input as nat)) + only_if(
        stats.tokens.output > 0,
        counted("↓"@, stats.tokens.output as nat),
    ) + only_if(stats.tokens.cache_read > 0, counted("R"@, stats.tokens.cache_read as nat))
        + only_if(
        stats.tokens.cache_write > 0,
        counted("W"@, stats.tokens.cache_write as nat),
    ) + only_if(
        stats.cost.positive || subscribed,
        screen::subtitle(
            if subscribed {
                stats.cost.amount@ + " (sub)"@
            } else {
                stats.cost.amount@
            },
        ),
    ) + seq![
        if state.auto_compaction_enabled {
            context_usage(state, stats.tokens.total as nat) + " "@ + screen::subtitle("(auto)"@)
        } else {
            context_usage(state, stats.tokens.total as nat)
        },
    ]
}

/// The model of a session, and how hard it thinks.
pub open spec fn model_status(state: SessionState, providers: nat) -> Seq<char> {
    match state.model {
        Some(model) => {
            let provider = if providers > 1 {
                screen::hint("("@ + model.provider@ + ") "@)
            } else {
                ""@
            };
            let level = screen::shown_level(state.thinking_level@);
            let thinking = if model.reasoning {
                " "@ + screen::dim("•"@) + " "@ + screen::subtitle(
                    if level == "off"@ {
                        "thinking off"@
                    } else {
                        level
                    },
                )
            } else {
                ""@
            };
            provider + screen::subtitle(model.id@) + thinking
        },
        None => screen::hint("no-model"@),
    }
}

/// The name of a session, where it has one that is not blank.
pub open spec fn shown_name(state: SessionState) -> Option<Seq<char>> {
    match state.session_name {
        Some(name) => if text::trim(name@).len() > 0 {
            Some(name@)
        } else {
            None
        },
        None => None,
    }
}

/// The first line of the footer.
pub open spec fn footer_header(
    state: SessionState,
    cwd: Seq<char>,
    branch: Option<Seq<char>>,
    home: Option<Seq<char>>,
    width: nat,
) -> Seq<char> {
    let subtitle = screen::subtitle(screen::cut(place(cwd, branch, home), width));
    let line = match shown_name(state) {
        Some(name) => subtitle + " "@ + screen::dim("•"@) + " "@ + screen::subtitle(
            screen::cut(name, width / 3),
        ),
        None => screen::cut(subtitle, width),
    };
    screen::fitted(screen::cut(line, width), width)
}

/// The two lines of the footer.
pub open spec fn footer_lines(
    state: SessionState,
    stats: SessionStats,
    cwd: Seq<char>,
    branch: Option<Seq<char>>,
    home: Option<Seq<char>>,
    width: nat,
    providers: nat,
    subscribed: bool,
) -> Seq<Seq<char>> {
    seq![
        footer_header(state, cwd, branch, home, width),
        aligned(
            text::join(usage_segments(state, stats, subscribed), " "@),
            model_status(state, providers),
            width,
        ),
    ]
}

fn push_if(target: &mut Vec<String>, wanted: bool, sign: &str, n: u64)
    ensures
        text::texts(final(target)@) == text::texts(old(target)@) + only_if(
            wanted,
            counted(sign@, n as nat),
        ),
{
    let ghost before = text::texts(target@);
    if wanted {
        target.push(style_subtitle(cat2(sign, format_token_count(n).as_str()).as_str()));
    }
    assert(text::texts(target@) =~= before + only_if(wanted, counted(sign@, n as nat)));
}

fn collect_usage(state: &SessionState, stats: &SessionStats, subscribed: bool) -> (r: Vec<String>)
    ensures
        text::texts(r@) == usage_segments(*state, *stats, subscribed),
{
    let mut segments: Vec<String> = Vec::new();
    push_if(&mut segments, stats.tokens.input > 0, "↑", stats.tokens.input);
    push_if(&mut segments, stats.tokens.output > 0, "↓", stats.tokens.output);
    push_if(&mut segments, stats.tokens.cache_read > 0, "R", stats.tokens.cache_read);
    push_if(&mut segments, stats.tokens.cache_write > 0, "W", stats.tokens.cache_write);
    if stats.cost.positive || subscribed {
        let cost = if subscribed {
            cat2(stats.cost.amount.as_str(), " (sub)")
        } else {
            copy_text(stats.cost.amount.as_str())
        };
        segments.push(style_subtitle(cost.as_str()));
    }
    let usage = footer_context_usage(state, stats.tokens.total);
    if state.auto_compaction_enabled {
        segments.push(cat3(usage.as_str(), " ", style_subtitle("(auto)").as_str()));
    } else {
        segments.push(usage);
    }
    assert(text::texts(segments@) =~= usage_segments(*state, *stats, subscribed));
    segments
}

fn show_model(state: &SessionState, providers: usize) -> (r: String)
    ensures
        r@ == model_status(*state, providers as nat),
{
    match &state.model {
        Some(model) => {
            let provider = if providers > 1 {
                style_hint(cat3("(", model.provider.as_str(), ") ").as_str())
            } else {
                copy_text("")
            };
            let thinking = if model.reasoning {
                let level = normalized_thinking_level(state.thinking_level.as_str());
                let shown = if same(level.as_str(), "off") {
                    style_subtitle("thinking off")
                } else {
                    style_subtitle(level.as_str())
                };
                cat4(" ", style_dim("•").as_str(), " ", shown.as_str())
            } else {
                copy_text("")
            };
            cat3(
                provider.as_str(),
                style_subtitle(model.id.as_str()).as_str(),
                thinking.as_str(),
            )
        },
        None => style_hint("no-model"),
    }
}

/// The two lines of the footer: where the session stands and what it is called; what it has used and
/// which model it runs.
pub fn render_footer_panel(
    state: &SessionState,
    stats: &SessionStats,
    cwd: &str,
    git_branch: Option<&str>,
    home: &Option<String>,
    width: u16,
    available_provider_count: usize,
    using_oauth_subscription: bool,
) -> (r: Vec<String>)
    ensures
        text::texts(r@) == footer_lines(
            *state,
            *stats,
            cwd@,
            opt_str(git_branch),
            text::opt_text(*home),
            width as nat,
            available_provider_count as nat,
            using_oauth_subscription,
        ),
{
    let line_width: usize = width as usize;
    let subtitle = footer_subtitle(cwd, git_branch, home, line_width);
    let named = match &state.session_name {
        Some(name) => !trimmed(name.as_str()).as_str().is_empty(),
        None => false,
    };
    let line = match &state.session_name {
        Some(name) => if named {
            cat5(
                subtitle.as_str(),
                " ",
                style_dim("•").as_str(),
                " ",
                style_subtitle(truncate_to_width(name.as_str(), line_width / 3).as_str()).as_str(),
            )
        } else {
            truncate_to_width(subtitle.as_str(), line_width)
        },
        None => truncate_to_width(subtitle.as_str(), line_width),
    };
    let mut lines: Vec<String> = Vec::new();
    lines.push(fit_line(truncate_to_width(line.as_str(), line_width).as_str(), width));
    let usage = collect_usage(state, stats, using_oauth_subscription);
    lines.push(
        align_footer_row(
            join_texts(usage.as_slice(), " ").as_str(),
            show_model(state, available_provider_count).as_str(),
            line_width,
        ),
    );
    assert(text::texts(lines@) =~= footer_lines(
        *state,
        *stats,
        cwd@,
        opt_str(git_branch),
        text::opt_text(*home),
        width as nat,
        available_provider_count as nat,
        using_oauth_subscription,
    ));
    lines
}

/// A shortcut as it is shown: shift before control.
pub open spec fn shortcut(s: Seq<char>) -> Seq<char> {
    text::replace_all(
        text::replace_all(s, "ctrl+shift+"@, "shift+ctrl+"@),
        "Ctrl+Shift+"@,
        "Shift+Ctrl+"@,
    )
}

fn display_shortcut(display: String) -> (r: String)
    ensures
        r@ == shortcut(display@),
{
    proof {
        reveal_strlit("ctrl+shift+");
        reveal_strlit("Ctrl+Shift+");
    }
    let lower = replaced_text(display.as_str(), "ctrl+shift+", "shift+ctrl+");
    replaced_text(lower.as_str(), "Ctrl+Shift+", "Shift+Ctrl+")
}

/// The keys of an action as they are shown.
pub open spec fn app_shortcut(keys: KeybindingsManager, action: AppAction) -> Seq<char> {
    shortcut(text::join(keys.app_shown(action), " / "@))
}

/// The keys of an action of the editor as they are shown.
pub open spec fn editor_shortcut(keys: KeybindingsManager, action: EditorAction) -> Seq<char> {
    shortcut(text::join(keys.editor_shown(action), " / "@))
}

/// The keys of an action as they are shown.
pub fn display_app_shortcut(keybindings: &KeybindingsManager, action: AppAction) -> (r: String)
    ensures
        r@ == app_shortcut(*keybindings, action),
{
    display_shortcut(keybindings.display(action))
}

/// The keys of an action of the editor as they are shown.
pub fn display_editor_shortcut(keybindings: &KeybindingsManager, action: EditorAction) -> (r: String)
    ensures
        r@ == editor_shortcut(*keybindings, action),
{
    display_shortcut(keybindings.display_editor(action))
}

/// The border of the prompt.
pub open spec fn composer_border(prompt: Seq<char>, level: Seq<char>, width: nat) -> Seq<char> {
    let rule = text::repeated('─', width);
    if text::starts_with_char(text::trim_start(prompt), '!') {
        screen::bash_border_rule(rule)
    } else {
        screen::thinking_rule(level, rule)
    }
}

/// The borders above and below the prompt: in one color for a shell command, else in the color of
/// the thinking level.
pub fn prompt_composer_border_rules(prompt_text: &str, thinking_level: &str, width: usize) -> (r: (
    String,
    String,
))
    ensures
        r.0@ == composer_border(prompt_text@, thinking_level@, width as nat),
        r.1@ == composer_border(prompt_text@, thinking_level@, width as nat),
{
    let rule = repeat_char('─', width);
    let border = if begins_with_char(trimmed_start(prompt_text).as_str(), '!') {
        style_bash_border_rule(rule.as_str())
    } else {
        style_thinking_border_rule(thinking_level, rule.as_str())
    };
    let copy = copy_text(border.as_str());
    (border, copy)
}

/// How many lines of the prompt are shown at most: three tenths of the screen, and at least five.
pub fn composer_max_visible_lines(height: u16) -> (r: usize)
    ensures
        r == (if height * 3 / 10 > 5 {
            height * 3 / 10
        } else {
            5
        }),
{
    let share: usize = (height as usize * 3) / 10;
    if share > 5 {
        share
    } else {
        5
    }
}

/// A hint about an action.
pub open spec fn app_hint(keys: KeybindingsManager, action: AppAction, what: Seq<char>) -> Seq<char> {
    screen::hint(app_shortcut(keys, action) + what)
}

/// The hints of the greeting.
pub open spec fn startup_hints(keys: KeybindingsManager) -> Seq<Seq<char>> {
    seq![
        screen::hint("escape to interrupt"@),
        app_hint(keys, AppAction::Clear, " to clear"@),
        app_hint(keys, AppAction::Clear, " twice to exit"@),
        app_hint(keys, AppAction::Exit, " to exit (empty)"@),
        app_hint(keys, AppAction::Suspend, " to suspend"@),
        screen::hint(editor_shortcut(keys, EditorAction::DeleteToLineEnd) + " to delete to end"@),
        app_hint(keys, AppAction::CycleThinkingLevel, " to cycle thinking level"@),
        screen::hint(
            app_shortcut(keys, AppAction::CycleModelForward) + "/"@ + app_shortcut(
                keys,
                AppAction::CycleModelBackward,
            ) + " to cycle models"@,
        ),
        app_hint(keys, AppAction::SelectModel, " to select model"@),
        app_hint(keys, AppAction::ExpandTools, " to expand tools"@),
        app_hint(keys, AppAction::ToggleThinking, " to expand thinking"@),
        app_hint(keys, AppAction::ExternalEditor, " for external editor"@),
        screen::hint("/ for commands"@),
        screen::hint("! to run bash"@),
        screen::hint("!! to run bash (no context)"@),
        app_hint(keys, AppAction::FollowUp, " to queue follow-up"@),
        app_hint(keys, AppAction::Dequeue, " to edit all queued messages"@),
        app_hint(keys, AppAction::PasteImage, " to paste image"@),
        screen::hint("drop files to attach"@),
    ]
}

fn hint_about(keys: &KeybindingsManager, action: AppAction, what: &str) -> (r: String)
    ensures
        r@ == app_hint(*keys, action, what@),
{
    style_hint(cat2(display_app_shortcut(keys, action).as_str(), what).as_str())
}

/// The hints of the greeting.
pub fn startup_hint_lines(keybindings: &KeybindingsManager) -> (r: Vec<String>)
    ensures
        text::texts(r@) == startup_hints(*keybindings),
{
    let k = keybindings;
    let mut out: Vec<String> = Vec::new();
    out.push(style_hint("escape to interrupt"));
    out.push(hint_about(k, AppAction::Clear, " to clear"));
    out.push(hint_about(k, AppAction::Clear, " twice to exit"));
    out.push(hint_about(k, AppAction::Exit, " to exit (empty)"));
    out.push(hint_about(k, AppAction::Suspend, " to suspend"));
    out.push(
        style_hint(
            cat2(
                display_editor_shortcut(k, EditorAction::DeleteToLineEnd).as_str(),
                " to delete to end",
            ).as_str(),
        ),
    );
    out.push(hint_about(k, AppAction::CycleThinkingLevel, " to cycle thinking level"));
    out.push(
        style_hint(
            cat4(
                display_app_shortcut(k, AppAction::CycleModelForward).as_str(),
                "/",
                display_app_shortcut(k, AppAction::CycleModelBackward).as_str(),
                " to cycle models",
            ).as_str(),
        ),
    );
    out.push(hint_about(k, AppAction::SelectModel, " to select model"));
    out.push(hint_about(k, AppAction::ExpandTools, " to expand tools"));
    out.push(hint_about(k, AppAction::ToggleThinking, " to expand thinking"));
    out.push(hint_about(k, AppAction::ExternalEditor, " for external editor"));
    out.push(style_hint("/ for commands"));
    out.push(style_hint("! to run bash"));
    out.push(style_hint("!! to run bash (no context)"));
    out.push(hint_about(k, AppAction::FollowUp, " to queue follow-up"));
    out.push(hint_about(k, AppAction::Dequeue, " to edit all queued messages"));
    out.push(hint_about(k, AppAction::PasteImage, " to paste image"));
    out.push(style_hint("drop files to attach"));
    assert(text::texts(out@) =~= startup_hints(*keybindings));
    out
}

/// Lines as warnings, each cut to a width.
pub open spec fn warnings(lines: Seq<Seq<char>>, width: nat) -> Seq<Seq<char>> {
    Seq::new(lines.len(), |i: int| screen::cut(screen::warning(lines[i]), width))
}

/// Notices as warnings, wrapped to a width.
pub open spec fn notice_warnings(notices: Seq<Seq<char>>, width: nat) -> Seq<Seq<char>>
    decreases notices.len(),
{
    if notices.len() == 0 {
        Seq::empty()
    } else {
        notice_warnings(notices.drop_last(), width) + warnings(
            wrap::wrapped(notices.last(), width),
            width,
        )
    }
}

/// The notices of the greeting.
pub open spec fn startup_notices(no_models: bool, notices: Seq<Seq<char>>, width: nat) -> Seq<
    Seq<char>,
> {
    only_if(
        no_models,
        screen::cut(
            screen::warning(
                "No models available. Set ANTHROPIC_API_KEY or configure models.json."@,
            ),
            width,
        ),
    ) + notice_warnings(notices, width)
}

fn push_warnings(target: &mut Vec<String>, lines: &[String], width: usize)
    ensures
        text::texts(final(target)@) == text::texts(old(target)@) + warnings(
            text::texts(lines@),
            width as nat,
        ),
{
    let ghost before = text::texts(target@);
    let ghost shown = warnings(text::texts(lines@), width as nat);
    let mut i: usize = 0;
    assert(before =~= before + shown.take(0));
    while i < lines.len()
        invariant
            0 <= i <= lines.len(),
            shown == warnings(text::texts(lines@), width as nat),
            text::texts(target@) == before + shown.take(i as int),
        decreases lines.len() - i,
    {
        target.push(truncate_to_width(style_warning(lines[i].as_str()).as_str(), width));
        i += 1;
        assert(shown.take(i as int) =~= shown.take(i - 1).push(shown[i - 1]));
        assert(text::texts(target@) =~= before + shown.take(i as int));
    }
    assert(shown.take(i as int) =~= shown);
}

/// The notices of the greeting.
pub fn startup_notice_lines(no_models_available: bool, notices: &[String], width: usize) -> (r: Vec<
    String,
>)
    ensures
        text::texts(r@) == startup_notices(
            no_models_available,
            text::texts(notices@),
            width as nat,
        ),
{
    let ghost all = text::texts(notices@);
    let mut out: Vec<String> = Vec::new();
    if no_models_available {
        out.push(
            truncate_to_width(
                style_warning(
                    "No models available. Set ANTHROPIC_API_KEY or configure models.json.",
                ).as_str(),
                width,
            ),
        );
    }
    let ghost first = text::texts(out@);
    let mut i: usize = 0;
    assert(all.take(0) =~= Seq::<Seq<char>>::empty());
    assert(first =~= first + notice_warnings(all.take(0), width as nat));
    while i < notices.len()
        invariant
            0 <= i <= notices.len(),
            all == text::texts(notices@),
            text::texts(out@) == first + notice_warnings(all.take(i as int), width as nat),
        decreases notices.len() - i,
    {
        assert(all.take(i + 1).drop_last() =~= all.take(i as int));
        let ghost before = text::texts(out@);
        let lines = wrap_text(notices[i].as_str(), width);
        push_warnings(&mut out, lines.as_slice(), width);
        i += 1;
        assert(text::texts(out@) =~= first + notice_warnings(all.take(i as int), width as nat));
    }
    assert(all.take(i as int) =~= all);
    assert(text::texts(out@) =~= startup_notices(no_models_available, all, width as nat));
    out
}

/// A row with two sides shows the right one whole at its end wherever that fits, and of the left
/// one what room is left; the row is never wider than it may be.
pub proof fn rows_show_both_sides(left: Seq<char>, right: Seq<char>, width: nat)
    requires
        screen::scan_from(screen::Scan::Plain, left) == screen::Scan::Plain,
        screen::scan_from(screen::Scan::Plain, right) == screen::Scan::Plain,
        right.len() > 0,
    ensures
        ({
            let l = screen::visible(left);
            let r = screen::visible(right);
            let shown = screen::visible(aligned(left, right, width));
            &&& shown.len() <= width
            &&& l.len() + r.len() + 1 <= width ==> shown == l + text::repeated(
                ' ',
                (width - l.len() - r.len()) as nat,
            ) + r
            &&& l.len() + r.len() + 1 > width && r.len() < width ==> shown == l.take(
                width - r.len() - 1,
            ) + seq![' '] + r
            &&& r.len() >= width ==> shown == r.take(width as int)
        }),
{
    let l = screen::visible(left);
    let r = screen::visible(right);
    screen::visible_is_wide(screen::Scan::Plain, left);
    screen::visible_is_wide(screen::Scan::Plain, right);
    if l.len() + r.len() + 1 <= width {
        let gap = text::repeated(' ', (width - (l.len() + r.len())) as nat);
        screen::plain_is_visible(gap);
        screen::visible_adds_up(left, gap);
        screen::visible_adds_up(left + gap, right);
    } else if r.len() >= width {
        screen::cut_shows_the_beginning(right, width);
        if r.len() == width {
            assert(r.take(width as int) =~= r);
        }
    } else {
        let n = (width - (r.len() + 1)) as nat;
        screen::cut_shows_the_beginning(left, n);
        screen::cut_keeps_to_width(left, n);
        reveal_strlit(" ");
        assert(" "@ =~= seq![' ']);
        screen::plain_is_visible(seq![' ']);
        screen::visible_adds_up(screen::cut(left, n), " "@);
        screen::visible_adds_up(screen::cut(left, n) + " "@, right);
        if l.len() == n {
            assert(l.take(n as int) =~= l);
        }
    }
}

/// Where a session stands is its directory, and its branch behind it where there is one.
pub proof fn places_are_named(cwd: Seq<char>, branch: Seq<char>, home: Option<Seq<char>>)
    requires
        branch.len() > 0,
    ensures
        place(cwd, None, home) == tools::short_path(cwd, home),
        place(cwd, Some(branch), home) == place(cwd, None, home) + seq![' ', '('] + branch + seq![
            ')',
        ],
        place(cwd, Some(Seq::empty()), home) == place(cwd, None, home),
{
    reveal_strlit(" (");
    reveal_strlit(")");
    assert(" ("@ =~= seq![' ', '(']);
    assert(")"@ =~= seq![')']);
}

/// Each kind of tokens is told exactly where there are some, and the cost exactly where there is
/// one or the use is paid for otherwise; how full the context is stands last, always.
pub proof fn usage_is_told(state: SessionState, stats: SessionStats, subscribed: bool)
    ensures
        ({
            let told = usage_segments(state, stats, subscribed);
            let input = (if stats.tokens.input > 0 {
                1int
            } else {
                0int
            });
            let output = (if stats.tokens.output > 0 {
                1int
            } else {
                0int
            });
            let read = (if stats.tokens.cache_read > 0 {
                1int
            } else {
                0int
            });
            let written = (if stats.tokens.cache_write > 0 {
                1int
            } else {
                0int
            });
            let cost = (if stats.cost.positive || subscribed {
                1int
            } else {
                0int
            });
            &&& told.len() == input + output + read + written + cost + 1
            &&& input > 0 ==> told[0] == screen::subtitle(
                "↑"@ + numbers::token_text(stats.tokens.input as nat),
            )
            &&& output > 0 ==> told[input] == screen::subtitle(
                "↓"@ + numbers::token_text(stats.tokens.output as nat),
            )
            &&& read > 0 ==> told[input + output] == screen::subtitle(
                "R"@ + numbers::token_text(stats.tokens.cache_read as nat),
            )
            &&& written > 0 ==> told[input + output + read] == screen::subtitle(
                "W"@ + numbers::token_text(stats.tokens.cache_write as nat),
            )
            &&& stats.cost.positive && !subscribed ==> told[input + output + read + written]
                == screen::subtitle(stats.cost.amount@)
            &&& subscribed ==> told[input + output + read + written] == screen::subtitle(
                stats.cost.amount@ + " (sub)"@,
            )
            &&& told.last() == context_usage(state, stats.tokens.total as nat) + (
            if state.auto_compaction_enabled {
                " "@ + screen::subtitle("(auto)"@)
            } else {
                Seq::empty()
            })
        }),
{
    let told = usage_segments(state, stats, subscribed);
    assert(told.last() =~= context_usage(state, stats.tokens.total as nat) + (
    if state.auto_compaction_enabled {
        " "@ + screen::subtitle("(auto)"@)
    } else {
        Seq::empty()
    }));
}

/// The window of a model is its own but for three models, whose window is larger than they say.
pub proof fn windows_are_the_models_own(state: SessionState)
    ensures
        state.model is None ==> context_window(state) == 0,
        state.model matches Some(model) ==> (model.provider@ != "openai"@ ==> context_window(state)
            == model.context_window),
        state.model matches Some(model) ==> context_window(state) == model.context_window
            || context_window(state) == 1_047_576,
{
}

/// What the footer says of the model names it: its provider where there are several, and how it
/// thinks where it can.
pub proof fn models_are_named(state: SessionState, providers: nat)
    requires
        state.model is Some,
        !state.model->0.id@.contains('\x1b'),
        !state.model->0.provider@.contains('\x1b'),
    ensures
        !state.model->0.reasoning && providers <= 1 ==> screen::visible(
            model_status(state, providers),
        ) == state.model->0.id@,
        !state.model->0.reasoning && providers > 1 ==> screen::visible(
            model_status(state, providers),
        ) == "("@ + state.model->0.provider@ + ") "@ + state.model->0.id@,
        providers <= 1 ==> text::has_prefix(
            screen::visible(model_status(state, providers)),
            state.model->0.id@,
        ),
{
    let m = state.model->0;
    screen::inline_codes();
    screen::plain_is_visible(m.id@);
    screen::styled_shows_the_text("38;2;128;128;128"@, m.id@);
    reveal_strlit("");
    let named = screen::subtitle(m.id@);
    let status = model_status(state, providers);
    let with_provider = "("@ + m.provider@ + ") "@;
    if !m.reasoning && providers > 1 {
        reveal_strlit("(");
        reveal_strlit(") ");
        screen::plain_is_visible(with_provider);
        screen::styled_shows_the_text("38;2;128;128;128"@, with_provider);
        screen::visible_adds_up(screen::hint(with_provider), named);
        assert(status =~= screen::hint(with_provider) + named);
    }
    if providers <= 1 {
        let rest = status.skip(named.len() as int);
        assert(status =~= named + rest);
        if !m.reasoning {
            assert(status =~= named);
        }
        screen::visible_adds_up(named, rest);
        assert(screen::visible(status).take(m.id@.len() as int) =~= m.id@);
    }
}

/// The border of the prompt is a rule across the screen, in the look of a command where the
/// prompt holds one.
pub proof fn borders_are_rules(prompt: Seq<char>, level: Seq<char>, width: nat)
    ensures
        text::starts_with_char(text::trim_start(prompt), '!') ==> screen::visible(
            composer_border(prompt, level, width),
        ) == text::repeated('─', width),
        text::starts_with_char(text::trim_start(prompt), '!') ==> composer_border(
            prompt,
            level,
            width,
        ) == screen::bash_border_rule(text::repeated('─', width)),
        !text::starts_with_char(text::trim_start(prompt), '!') ==> composer_border(
            prompt,
            level,
            width,
        ) == screen::thinking_rule(level, text::repeated('─', width)),
{
    let rule = text::repeated('─', width);
    screen::other_codes();
    screen::plain_is_visible(rule);
    screen::styled_shows_the_text("38;2;181;189;104"@, rule);
}

/// The notices of two lists are shown as those of the first, then those of the second.
pub proof fn notices_in_two(a: Seq<Seq<char>>, b: Seq<Seq<char>>, width: nat)
    ensures
        notice_warnings(a + b, width) == notice_warnings(a, width) + notice_warnings(b, width),
    decreases b.len(),
{
    if b.len() == 0 {
        assert(a + b =~= a);
    } else {
        assert((a + b).drop_last() =~= a + b.drop_last());
        notices_in_two(a, b.drop_last(), width);
        assert(notice_warnings(a + b, width) =~= notice_warnings(a, width) + notice_warnings(
            b,
            width,
        ));
    }
}

/// Every line of a notice is shown.
pub proof fn notices_are_shown(notice: Seq<char>, width: nat, i: int)
    requires
        0 <= i < wrap::wrapped(notice, width).len(),
        !wrap::wrapped(notice, width)[i].contains('\x1b'),
        wrap::wrapped(notice, width)[i].len() <= width,
    ensures
        notice_warnings(seq![notice], width).len() == wrap::wrapped(notice, width).len(),
        screen::visible(notice_warnings(seq![notice], width)[i]) == wrap::wrapped(notice, width)[i],
{
    reveal_with_fuel(notice_warnings, 2);
    assert(seq![notice].drop_last() =~= Seq::<Seq<char>>::empty());
    let line = wrap::wrapped(notice, width)[i];
    screen::inline_codes();
    screen::plain_is_visible(line);
    screen::styled_shows_the_text("38;2;255;255;0"@, line);
    screen::cut_shows_the_beginning(screen::warning(line), width);
    assert(line.take(line.len() as int) =~= line);
}

/// The first line of the footer shows where the session stands and, behind a dot, its name; there
/// are two lines.
#[verifier::rlimit(60)]
pub proof fn footers_name_place_and_session(
    state: SessionState,
    cwd: Seq<char>,
    branch: Option<Seq<char>>,
    home: Option<Seq<char>>,
    width: nat,
)
    requires
        !place(cwd, branch, home).contains('\x1b'),
        place(cwd, branch, home).len() <= width,
    ensures
        shown_name(state) is None ==> screen::visible(
            footer_header(state, cwd, branch, home, width),
        ) == place(cwd, branch, home) + text::repeated(
            ' ',
            (width - place(cwd, branch, home).len()) as nat,
        ),
        shown_name(state) matches Some(name) ==> (!name.contains('\x1b') && name.len() <= width / 3
            && place(cwd, branch, home).len() + 3 + name.len() <= width ==> screen::visible(
            footer_header(state, cwd, branch, home, width),
        ) == place(cwd, branch, home) + seq![' ', '•', ' '] + name + text::repeated(
            ' ',
            (width - place(cwd, branch, home).len() - 3 - name.len()) as nat,
        )),
{
    let p = place(cwd, branch, home);
    screen::inline_codes();
    screen::plain_is_visible(p);
    screen::visible_is_wide(screen::Scan::Plain, p);
    screen::cut_keeps_to_width(p, width);
    assert(screen::cut(p, width) == p);
    let code = "38;2;128;128;128"@;
    screen::styled_shows_the_text(code, p);
    let subtitle = screen::subtitle(p);
    screen::visible_is_wide(screen::Scan::Plain, subtitle);
    screen::cut_keeps_to_width(subtitle, width);
    assert(screen::cut(subtitle, width) == subtitle);
    screen::fitted_shows_the_text(subtitle, width);
    if shown_name(state) is None {
        padded_or_full(p, width);
    }
    if let Some(name) = shown_name(state) {
        if !name.contains('\x1b') && name.len() <= width / 3 && p.len() + 3 + name.len() <= width {
            reveal_strlit(" ");
            reveal_strlit("•");
            let gap = " "@;
            let dot = "•"@;
            assert(gap =~= seq![' ']);
            assert(dot =~= seq!['•']);
            screen::plain_is_visible(gap);
            screen::plain_is_visible(dot);
            screen::plain_is_visible(name);
            screen::visible_is_wide(screen::Scan::Plain, name);
            screen::cut_keeps_to_width(name, width / 3);
            assert(screen::cut(name, width / 3) == name);
            screen::styled_shows_the_text(code, name);
            screen::styled_shows_the_text("38;2;102;102;102"@, dot);
            let a = subtitle + gap;
            screen::visible_adds_up(subtitle, gap);
            let b = a + screen::dim(dot);
            screen::visible_adds_up(a, screen::dim(dot));
            let c = b + gap;
            screen::visible_adds_up(b, gap);
            let d = c + screen::subtitle(name);
            screen::visible_adds_up(c, screen::subtitle(name));
            let shown = p + seq![' ', '•', ' '] + name;
            assert(screen::visible(d) =~= shown);
            screen::visible_is_wide(screen::Scan::Plain, d);
            screen::cut_keeps_to_width(d, width);
            assert(screen::cut(d, width) == d);
            screen::fitted_shows_the_text(d, width);
            padded_or_full(shown, width);
        }
    }
}

proof fn padded_or_full(shown: Seq<char>, width: nat)
    requires
        shown.len() <= width,
    ensures
        shown.len() == width ==> shown.take(width as int) == shown + text::repeated(
            ' ',
            (width - shown.len()) as nat,
        ),
{
    if shown.len() == width {
        assert(text::repeated(' ', 0) =~= Seq::<char>::empty());
        assert(shown.take(width as int) =~= shown + text::repeated(' ', 0));
    }
}

} // verus!
