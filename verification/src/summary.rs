//! The summaries that commands add to the transcript, and what is found out about a place.
use vstd::prelude::*;
use crate::chrome;
use crate::keybindings::{AppAction, EditorAction, KeybindingsManager};
use crate::paths;
use crate::paths::{path_parts, PathPart};
use crate::plugins;
use crate::plugins::append_unique_root;
use crate::session::{SessionState, SessionStats};
use crate::startup;
use crate::startup::shorten_paths;
use crate::text;
use crate::text::{
    begins_with, cat2, cat3, cat4, cat5, chars_of, copy_text, ends_with, join_texts, same, split_on_text, trimmed,
    wide_decimal_text,
};

verus! {

broadcast use crate::text::group_texts;

/// The first digits of a number, with a comma before each group of three from the end.
pub open spec fn grouped_upto(digits: Seq<char>, n: int) -> Seq<char>
    decreases n,
{
    if n <= 0 {
        Seq::empty()
    } else {
        let before = grouped_upto(digits, n - 1);
        if n > 1 && (digits.len() - (n - 1)) % 3 == 0 {
            before.push(',').push(digits[n - 1])
        } else {
            before.push(digits[n - 1])
        }
    }
}

/// A number in decimal digits, in groups of three.
pub open spec fn grouped(value: nat) -> Seq<char> {
    grouped_upto(text::decimal(value), text::decimal(value).len() as int)
}

/// A whole number in decimal digits, in groups of three, behind a minus sign where it is negative.
pub open spec fn signed_grouped(value: int) -> Seq<char> {
    if value < 0 {
        "-"@ + grouped((-value) as nat)
    } else {
        grouped(value as nat)
    }
}

/// A whole number in decimal digits, in groups of three. Every integer of up to sixty-four bits is
/// among those of this type.
pub fn format_grouped_decimal(value: i128) -> (r: String)
    ensures
        r@ == signed_grouped(value as int),
{
    if value >= 0 {
        group_digits(value as u128)
    } else if value == i128::MIN {
        cat2("-", group_digits(0x8000_0000_0000_0000_0000_0000_0000_0000u128).as_str())
    } else {
        cat2("-", group_digits((-value) as u128).as_str())
    }
}

fn group_digits(value: u128) -> (r: String)
    ensures
        r@ == grouped(value as nat),
{
    let digits = chars_of(wide_decimal_text(value).as_str());
    let len: usize = digits.len();
    let mut out = String::new();
    let mut i: usize = 0;
    while i < len
        invariant
            len == digits@.len(),
            0 <= i <= len,
            out@ == grouped_upto(digits@, i as int),
        decreases len - i,
    {
        if i > 0 && (len - i) % 3 == 0 {
            out.push(',');
        }
        out.push(digits[i]);
        i += 1;
    }
    out
}

proof fn plain_digit(d: nat)
    requires
        d < 10,
    ensures
        text::digit(d) != ',',
{
}

proof fn no_comma_in_decimal(n: nat)
    ensures
        forall|i: int| 0 <= i < text::decimal(n).len() ==> #[trigger] text::decimal(n)[i] != ',',
    decreases n,
{
    reveal_with_fuel(text::decimal, 2);
    if n < 10 {
        plain_digit(n);
    } else {
        no_comma_in_decimal(n / 10);
        plain_digit(n % 10);
        let before = text::decimal(n / 10);
        let all = text::decimal(n);
        assert forall|i: int| 0 <= i < all.len() implies #[trigger] all[i] != ',' by {
            if i < before.len() {
                assert(all[i] == before[i]);
            }
        }
    }
}

proof fn commas_removed(digits: Seq<char>, n: int)
    requires
        0 <= n <= digits.len(),
        forall|i: int| 0 <= i < digits.len() ==> #[trigger] digits[i] != ',',
    ensures
        text::replace_char(grouped_upto(digits, n), ',', Seq::empty()) == digits.take(n),
    decreases n,
{
    let empty = Seq::<char>::empty();
    if n > 0 {
        commas_removed(digits, n - 1);
        let before = grouped_upto(digits, n - 1);
        let last = digits[n - 1];
        assert(digits.take(n) =~= digits.take(n - 1).push(last));
        if n > 1 && (digits.len() - (n - 1)) % 3 == 0 {
            let with_comma = before.push(',');
            assert(with_comma.drop_last() =~= before);
            assert(text::replace_char(with_comma, ',', empty) =~= text::replace_char(
                before,
                ',',
                empty,
            ));
            assert(with_comma.push(last).drop_last() =~= with_comma);
        } else {
            assert(before.push(last).drop_last() =~= before);
        }
    } else {
        assert(digits.take(0) =~= empty);
    }
}

/// A whole number in decimal digits, behind a minus sign where it is negative.
pub open spec fn signed_decimal(value: int) -> Seq<char> {
    if value < 0 {
        "-"@ + text::decimal((-value) as nat)
    } else {
        text::decimal(value as nat)
    }
}

proof fn commas_removed_from_digits(value: nat)
    ensures
        text::replace_char(grouped(value), ',', Seq::empty()) == text::decimal(value),
{
    no_comma_in_decimal(value);
    let digits = text::decimal(value);
    commas_removed(digits, digits.len() as int);
    assert(digits.take(digits.len() as int) =~= digits);
}

proof fn kept_first(c: char, s: Seq<char>)
    requires
        c != ',',
    ensures
        text::replace_char(seq![c] + s, ',', Seq::empty()) == seq![c] + text::replace_char(
            s,
            ',',
            Seq::empty(),
        ),
    decreases s.len(),
{
    let whole = seq![c] + s;
    if s.len() == 0 {
        assert(whole =~= Seq::<char>::empty().push(c));
        assert(whole.drop_last() =~= Seq::<char>::empty());
        reveal_with_fuel(text::replace_char, 2);
        assert(text::replace_char(whole, ',', Seq::empty()) =~= seq![c]);
    } else {
        kept_first(c, s.drop_last());
        assert(whole.drop_last() =~= seq![c] + s.drop_last());
        assert(whole.last() == s.last());
        assert(text::replace_char(whole, ',', Seq::empty()) =~= seq![c] + text::replace_char(
            s,
            ',',
            Seq::empty(),
        ));
    }
}

/// Without the commas, a grouped number is the number in decimal digits.
pub proof fn grouping_only_adds_commas(value: int)
    ensures
        text::replace_char(signed_grouped(value), ',', Seq::empty()) == signed_decimal(value),
{
    if value < 0 {
        commas_removed_from_digits((-value) as nat);
        reveal_strlit("-");
        assert("-"@ =~= seq!['-']);
        kept_first('-', grouped((-value) as nat));
    } else {
        commas_removed_from_digits(value as nat);
    }
}

/// A counted thing in a list.
pub open spec fn count_line(name: Seq<char>, n: nat) -> Seq<char> {
    "- "@ + name + ": "@ + grouped(n)
}

/// Where a session is kept, as lines.
pub open spec fn place_lines(state: SessionState, stats: SessionStats) -> Seq<Seq<char>> {
    seq!["## Session"@] + (match chrome::shown_name(state) {
        Some(name) => seq!["- Name: "@ + name],
        None => Seq::empty(),
    }) + seq![
        "- File: "@ + (match stats.session_file {
            Some(path) => path@,
            None => "In-memory"@,
        }),
        "- ID: "@ + stats.session_id@,
        ""@,
    ]
}

/// How many messages a session has, as lines.
pub open spec fn message_lines(stats: SessionStats) -> Seq<Seq<char>> {
    seq![
        "## Messages"@,
        count_line("User"@, stats.user_messages as nat),
        count_line("Assistant"@, stats.assistant_messages as nat),
        count_line("Tool Calls"@, stats.tool_calls as nat),
        count_line("Tool Results"@, stats.tool_results as nat),
        count_line("Total"@, stats.total_messages as nat),
        ""@,
    ]
}

/// How many tokens a session used, as lines.
pub open spec fn token_lines(stats: SessionStats) -> Seq<Seq<char>> {
    seq![
        "## Tokens"@,
        count_line("Input"@, stats.tokens.input as nat),
        count_line("Output"@, stats.tokens.output as nat),
    ] + chrome::only_if(
        stats.tokens.cache_read > 0,
        count_line("Cache Read"@, stats.tokens.cache_read as nat),
    ) + chrome::only_if(
        stats.tokens.cache_write > 0,
        count_line("Cache Write"@, stats.tokens.cache_write as nat),
    ) + seq![count_line("Total"@, stats.tokens.total as nat)]
}

/// What a session cost, as lines; none where it cost nothing.
pub open spec fn cost_lines(stats: SessionStats) -> Seq<Seq<char>> {
    if stats.cost.positive {
        seq![""@, "## Cost"@, "- Total: "@ + stats.cost.amount@]
    } else {
        Seq::empty()
    }
}

/// What is known of a session, as lines.
pub open spec fn summary_lines(state: SessionState, stats: SessionStats) -> Seq<Seq<char>> {
    place_lines(state, stats) + message_lines(stats) + token_lines(stats) + cost_lines(stats)
}

fn counted(name: &str, n: u64) -> (r: String)
    ensures
        r@ == count_line(name@, n as nat),
{
    cat4("- ", name, ": ", format_grouped_decimal(n as i128).as_str())
}

fn list_place(state: &SessionState, stats: &SessionStats) -> (r: Vec<String>)
    ensures
        text::texts(r@) == place_lines(*state, *stats),
{
    let mut lines: Vec<String> = Vec::new();
    lines.push(copy_text("## Session"));
    if let Some(name) = &state.session_name {
        if !trimmed(name.as_str()).as_str().is_empty() {
            lines.push(cat2("- Name: ", name.as_str()));
        }
    }
    lines.push(
        match &stats.session_file {
            Some(path) => cat2("- File: ", path.as_str()),
            None => cat2("- File: ", "In-memory"),
        },
    );
    lines.push(cat2("- ID: ", stats.session_id.as_str()));
    lines.push(copy_text(""));
    assert(text::texts(lines@) =~= place_lines(*state, *stats));
    lines
}

fn list_messages(stats: &SessionStats) -> (r: Vec<String>)
    ensures
        text::texts(r@) == message_lines(*stats),
{
    let mut lines: Vec<String> = Vec::new();
    lines.push(copy_text("## Messages"));
    lines.push(counted("User", stats.user_messages));
    lines.push(counted("Assistant", stats.assistant_messages));
    lines.push(counted("Tool Calls", stats.tool_calls));
    lines.push(counted("Tool Results", stats.tool_results));
    lines.push(counted("Total", stats.total_messages));
    lines.push(copy_text(""));
    assert(text::texts(lines@) =~= message_lines(*stats));
    lines
}

fn list_tokens(stats: &SessionStats) -> (r: Vec<String>)
    ensures
        text::texts(r@) == token_lines(*stats),
{
    let mut lines: Vec<String> = Vec::new();
    lines.push(copy_text("## Tokens"));
    lines.push(counted("Input", stats.tokens.input));
    lines.push(counted("Output", stats.tokens.output));
    if stats.tokens.cache_read > 0 {
        lines.push(counted("Cache Read", stats.tokens.cache_read));
    }
    if stats.tokens.cache_write > 0 {
        lines.push(counted("Cache Write", stats.tokens.cache_write));
    }
    lines.push(counted("Total", stats.tokens.total));
    assert(text::texts(lines@) =~= token_lines(*stats));
    lines
}

fn list_cost(stats: &SessionStats) -> (r: Vec<String>)
    ensures
        text::texts(r@) == cost_lines(*stats),
{
    let mut lines: Vec<String> = Vec::new();
    if stats.cost.positive {
        lines.push(copy_text(""));
        lines.push(copy_text("## Cost"));
        lines.push(cat2("- Total: ", stats.cost.amount.as_str()));
    }
    assert(text::texts(lines@) =~= cost_lines(*stats));
    lines
}

/// What is known of a session: where it is kept, how many messages and tokens it has, and what it
/// cost.
pub fn format_session_summary_markdown(state: &SessionState, stats: &SessionStats) -> (r: String)
    ensures
        r@ == text::join(summary_lines(*state, *stats), "\n"@),
{
    let mut lines = list_place(state, stats);
    let mut messages = list_messages(stats);
    lines.append(&mut messages);
    let mut tokens = list_tokens(stats);
    lines.append(&mut tokens);
    let mut cost = list_cost(stats);
    lines.append(&mut cost);
    join_texts(lines.as_slice(), "\n")
}

/// The keys of an action, and what they do.
pub open spec fn key_line(shown: Seq<Seq<char>>, what: Seq<char>) -> Seq<char> {
    "- "@ + text::join(shown, " / "@) + what
}

/// The keys of two actions, and what they do.
pub open spec fn pair_line(first: Seq<Seq<char>>, second: Seq<Seq<char>>, what: Seq<char>) -> Seq<char> {
    "- "@ + text::join(first, " / "@) + " / "@ + text::join(second, " / "@) + what
}

/// The keys that move and edit, as lines.
pub open spec fn editing_lines(keys: KeybindingsManager) -> Seq<Seq<char>> {
    seq![
        "## Navigation"@,
        "- Arrow keys: Move cursor / browse history (Up when empty)"@,
        pair_line(
            keys.editor_shown(EditorAction::CursorWordLeft),
            keys.editor_shown(EditorAction::CursorWordRight),
            ": Move by word"@,
        ),
        key_line(keys.editor_shown(EditorAction::CursorLineStart), ": Start of line"@),
        key_line(keys.editor_shown(EditorAction::CursorLineEnd), ": End of line"@),
        ""@,
        "## Editing"@,
        key_line(keys.editor_shown(EditorAction::Submit), ": Send message"@),
        key_line(keys.editor_shown(EditorAction::NewLine), ": New line"@),
        key_line(
            keys.editor_shown(EditorAction::DeleteWordBackward),
            ": Delete word backwards"@,
        ),
        key_line(keys.editor_shown(EditorAction::DeleteWordForward), ": Delete word forwards"@),
        key_line(
            keys.editor_shown(EditorAction::DeleteToLineStart),
            ": Delete to start of line"@,
        ),
        key_line(keys.editor_shown(EditorAction::DeleteToLineEnd), ": Delete to end of line"@),
        key_line(
            keys.editor_shown(EditorAction::Yank),
            ": Paste the most-recently-deleted text"@,
        ),
        key_line(
            keys.editor_shown(EditorAction::YankPop),
            ": Cycle through the deleted text after pasting"@,
        ),
        key_line(keys.editor_shown(EditorAction::Undo), ": Undo"@),
        ""@,
    ]
}

/// The other keys, as lines.
pub open spec fn other_lines(keys: KeybindingsManager) -> Seq<Seq<char>> {
    seq![
        "## Other"@,
        key_line(
            keys.editor_shown(EditorAction::Tab),
            ": Path completion / accept autocomplete"@,
        ),
        "- escape: Cancel autocomplete / abort streaming"@,
        key_line(keys.app_shown(AppAction::Clear), ": Clear editor (first) / exit (second)"@),
        key_line(keys.app_shown(AppAction::Exit), ": Exit (when editor is empty)"@),
        key_line(keys.app_shown(AppAction::Suspend), ": Suspend to background"@),
        key_line(keys.app_shown(AppAction::CycleThinkingLevel), ": Cycle thinking level"@),
        pair_line(
            keys.app_shown(AppAction::CycleModelForward),
            keys.app_shown(AppAction::CycleModelBackward),
            ": Cycle models"@,
        ),
        key_line(keys.app_shown(AppAction::SelectModel), ": Open model selector"@),
        key_line(keys.app_shown(AppAction::ExpandTools), ": Toggle tool output expansion"@),
        key_line(keys.app_shown(AppAction::ToggleThinking), ": Toggle thinking block visibility"@),
        key_line(keys.app_shown(AppAction::ExternalEditor), ": Edit message in external editor"@),
        key_line(keys.app_shown(AppAction::FollowUp), ": Queue follow-up message"@),
        key_line(keys.app_shown(AppAction::Dequeue), ": Restore queued messages"@),
        key_line(keys.app_shown(AppAction::PasteImage), ": Paste image from clipboard"@),
        "- /: Slash commands"@,
        "- !: Run bash command"@,
        "- !!: Run bash command (excluded from context)"@,
    ]
}

fn app_line(keys: &KeybindingsManager, action: AppAction, what: &str) -> (r: String)
    ensures
        r@ == key_line(keys.app_shown(action), what@),
{
    cat3("- ", keys.display(action).as_str(), what)
}

fn editor_line(keys: &KeybindingsManager, action: EditorAction, what: &str) -> (r: String)
    ensures
        r@ == key_line(keys.editor_shown(action), what@),
{
    cat3("- ", keys.display_editor(action).as_str(), what)
}

fn list_editing(k: &KeybindingsManager) -> (r: Vec<String>)
    ensures
        text::texts(r@) == editing_lines(*k),
{
    let mut out: Vec<String> = Vec::new();
    out.push(copy_text("## Navigation"));
    out.push(copy_text("- Arrow keys: Move cursor / browse history (Up when empty)"));
    out.push(
        cat5(
            "- ",
            k.display_editor(EditorAction::CursorWordLeft).as_str(),
            " / ",
            k.display_editor(EditorAction::CursorWordRight).as_str(),
            ": Move by word",
        ),
    );
    out.push(editor_line(k, EditorAction::CursorLineStart, ": Start of line"));
    out.push(editor_line(k, EditorAction::CursorLineEnd, ": End of line"));
    out.push(copy_text(""));
    out.push(copy_text("## Editing"));
    out.push(editor_line(k, EditorAction::Submit, ": Send message"));
    out.push(editor_line(k, EditorAction::NewLine, ": New line"));
    out.push(editor_line(k, EditorAction::DeleteWordBackward, ": Delete word backwards"));
    out.push(editor_line(k, EditorAction::DeleteWordForward, ": Delete word forwards"));
    out.push(editor_line(k, EditorAction::DeleteToLineStart, ": Delete to start of line"));
    out.push(editor_line(k, EditorAction::DeleteToLineEnd, ": Delete to end of line"));
    out.push(editor_line(k, EditorAction::Yank, ": Paste the most-recently-deleted text"));
    out.push(
        editor_line(k, EditorAction::YankPop, ": Cycle through the deleted text after pasting"),
    );
    out.push(editor_line(k, EditorAction::Undo, ": Undo"));
    out.push(copy_text(""));
    assert(text::texts(out@) =~= editing_lines(*k));
    out
}

fn list_others(k: &KeybindingsManager) -> (r: Vec<String>)
    ensures
        text::texts(r@) == other_lines(*k),
{
    let mut out: Vec<String> = Vec::new();
    out.push(copy_text("## Other"));
    out.push(editor_line(k, EditorAction::Tab, ": Path completion / accept autocomplete"));
    out.push(copy_text("- escape: Cancel autocomplete / abort streaming"));
    out.push(app_line(k, AppAction::Clear, ": Clear editor (first) / exit (second)"));
    out.push(app_line(k, AppAction::Exit, ": Exit (when editor is empty)"));
    out.push(app_line(k, AppAction::Suspend, ": Suspend to background"));
    out.push(app_line(k, AppAction::CycleThinkingLevel, ": Cycle thinking level"));
    out.push(
        cat5(
            "- ",
            k.display(AppAction::CycleModelForward).as_str(),
            " / ",
            k.display(AppAction::CycleModelBackward).as_str(),
            ": Cycle models",
        ),
    );
    out.push(app_line(k, AppAction::SelectModel, ": Open model selector"));
    out.push(app_line(k, AppAction::ExpandTools, ": Toggle tool output expansion"));
    out.push(app_line(k, AppAction::ToggleThinking, ": Toggle thinking block visibility"));
    out.push(app_line(k, AppAction::ExternalEditor, ": Edit message in external editor"));
    out.push(app_line(k, AppAction::FollowUp, ": Queue follow-up message"));
    out.push(app_line(k, AppAction::Dequeue, ": Restore queued messages"));
    out.push(app_line(k, AppAction::PasteImage, ": Paste image from clipboard"));
    out.push(copy_text("- /: Slash commands"));
    out.push(copy_text("- !: Run bash command"));
    out.push(copy_text("- !!: Run bash command (excluded from context)"));
    assert(text::texts(out@) =~= other_lines(*k));
    out
}

/// All keys and what they do.
pub fn format_hotkeys_markdown(keybindings: &KeybindingsManager) -> (r: String)
    ensures
        r@ == text::join(editing_lines(*keybindings) + other_lines(*keybindings), "\n"@),
{
    let mut lines = list_editing(keybindings);
    let mut others = list_others(keybindings);
    lines.append(&mut others);
    join_texts(lines.as_slice(), "\n")
}

/// A section of the list of changes under its heading, where it is one of a version.
pub open spec fn version_section(piece: Seq<char>) -> Option<Seq<char>> {
    let s = text::trim(piece);
    let section = if text::has_prefix(s, "## "@) {
        s
    } else {
        "## "@ + s
    };
    if s.len() > 0 && text::has_prefix(section, "## ["@) {
        Some(section)
    } else {
        None
    }
}

/// The sections of versions.
pub open spec fn version_sections(pieces: Seq<Seq<char>>) -> Seq<Seq<char>>
    decreases pieces.len(),
{
    if pieces.len() == 0 {
        Seq::empty()
    } else {
        let before = version_sections(pieces.drop_last());
        match version_section(pieces.last()) {
            Some(section) => before.push(section),
            None => before,
        }
    }
}

/// The sections of the first three versions of a list of changes.
pub open spec fn latest_changes(content: Seq<char>) -> Seq<char> {
    let sections = version_sections(text::pieces_from(content, "\n## "@, 0));
    let shown = if sections.len() > 3 {
        sections.take(3)
    } else {
        sections
    };
    if shown.len() == 0 {
        "No changelog entries found."@
    } else {
        text::join(shown, "\n\n"@)
    }
}

fn section_of(piece: &str) -> (r: Option<String>)
    ensures
        text::opt_text(r) == version_section(piece@),
{
    let s = trimmed(piece);
    if s.as_str().is_empty() {
        return None;
    }
    let section = if begins_with(s.as_str(), "## ") {
        s
    } else {
        cat2("## ", s.as_str())
    };
    if begins_with(section.as_str(), "## [") {
        Some(section)
    } else {
        None
    }
}

/// The sections of the first three versions of a list of changes.
pub fn changelog_markdown(content: &str) -> (r: String)
    ensures
        r@ == latest_changes(content@),
{
    proof {
        reveal_strlit("\n## ");
    }
    let pieces = split_on_text(content, "\n## ");
    let ghost all = text::texts(pieces@);
    let mut sections: Vec<String> = Vec::new();
    let mut i: usize = 0;
    assert(all.take(0) =~= Seq::<Seq<char>>::empty());
    while i < pieces.len()
        invariant
            0 <= i <= pieces.len(),
            all == text::texts(pieces@),
            text::texts(sections@) == version_sections(all.take(i as int)),
        decreases pieces.len() - i,
    {
        assert(all.take(i + 1).drop_last() =~= all.take(i as int));
        if let Some(section) = section_of(pieces[i].as_str()) {
            sections.push(section);
        }
        i += 1;
    }
    assert(all.take(i as int) =~= all);
    assert(text::texts(sections@).len() == sections@.len());
    if sections.len() == 0 {
        return copy_text("No changelog entries found.");
    }
    if sections.len() > 3 {
        let first = vstd::slice::slice_subrange(sections.as_slice(), 0, 3);
        assert(text::texts(first@) =~= text::texts(sections@).take(3));
        return join_texts(first, "\n\n");
    }
    join_texts(sections.as_slice(), "\n\n")
}

/// The branch that a name of the current commit stands for; a commit without a branch has none.
pub open spec fn branch_named(output: Seq<char>) -> Option<Seq<char>> {
    let name = text::trim(output);
    if name.len() == 0 || name == "HEAD"@ {
        None
    } else {
        Some(name)
    }
}

/// The branch that a name of the current commit stands for.
pub fn branch_from_output(output: &str) -> (r: Option<String>)
    ensures
        text::opt_text(r) == branch_named(output@),
{
    let name = trimmed(output);
    if name.as_str().is_empty() || same(name.as_str(), "HEAD") {
        None
    } else {
        Some(name)
    }
}

/// The files that belong to the context, as they are shown, each once.
pub fn context_file_names(paths: &[String], home: &Option<String>) -> (r: Vec<String>)
    ensures
        text::texts(r@) == plugins::distinct(
            startup::short_paths(text::texts(paths@), text::opt_text(*home)),
        ),
{
    let shown = shorten_paths(paths, home);
    let ghost all = text::texts(shown@);
    let mut out: Vec<String> = Vec::new();
    let mut i: usize = 0;
    assert(all.take(0) =~= Seq::<Seq<char>>::empty());
    while i < shown.len()
        invariant
            0 <= i <= shown.len(),
            all == text::texts(shown@),
            text::texts(out@) == plugins::distinct(all.take(i as int)),
        decreases shown.len() - i,
    {
        assert(all.take(i + 1).drop_last() =~= all.take(i as int));
        append_unique_root(&mut out, shown[i].as_str());
        i += 1;
    }
    assert(all.take(i as int) =~= all);
    out
}

/// The names, relative to a directory, of the files that may belong to the context.
pub fn project_context_files() -> (r: Vec<String>)
    ensures
        text::texts(r@) == seq![
            ".pi/AGENTS.md"@,
            ".pi/SYSTEM.md"@,
            ".pi/APPEND_SYSTEM.md"@,
            ".pi/SYSTEM"@,
            ".pi/APPEND_SYSTEM"@,
        ],
{
    let mut out: Vec<String> = Vec::new();
    out.push(copy_text(".pi/AGENTS.md"));
    out.push(copy_text(".pi/SYSTEM.md"));
    out.push(copy_text(".pi/APPEND_SYSTEM.md"));
    out.push(copy_text(".pi/SYSTEM"));
    out.push(copy_text(".pi/APPEND_SYSTEM"));
    assert(text::texts(out@) =~= seq![
        ".pi/AGENTS.md"@,
        ".pi/SYSTEM.md"@,
        ".pi/APPEND_SYSTEM.md"@,
        ".pi/SYSTEM"@,
        ".pi/APPEND_SYSTEM"@,
    ]);
    out
}

/// Whether a path names a file with the extension of sessions.
pub open spec fn names_session(path: Seq<char>) -> bool {
    let parts = paths::parts_of(path);
    parts.len() > 0 && match parts.last() {
        paths::PartView::Name(name) => text::has_suffix(name, ".jsonl"@) && name.len()
            > ".jsonl"@.len(),
        _ => false,
    }
}

/// Whether a path names a file with the extension of sessions.
pub fn is_session_path(path: &str) -> (r: bool)
    ensures
        r == names_session(path@),
{
    let parts = path_parts(path);
    assert(paths::part_views(parts@).len() == parts@.len());
    if parts.len() == 0 {
        return false;
    }
    let last = &parts[parts.len() - 1];
    assert(last@ == paths::part_views(parts@).last());
    match last {
        PathPart::Name(name) => ends_with(name.as_str(), ".jsonl") && chars_of(name.as_str()).len()
            > chars_of(".jsonl").len(),
        _ => false,
    }
}

proof fn decimal_of_thousands(a: nat, b: nat)
    requires
        a > 0,
        b < 1000,
    ensures
        text::decimal(1000 * a + b) == text::decimal(a) + seq![
            text::digit(b / 100),
            text::digit(b / 10 % 10),
            text::digit(b % 10),
        ],
{
    let x: nat = 10 * a + b / 100;
    let y: nat = 10 * x + b / 10 % 10;
    let z: nat = 10 * y + b % 10;
    assert(z == 1000 * a + b);
    assert(x / 10 == a && x % 10 == b / 100);
    assert(y / 10 == x && y % 10 == b / 10 % 10);
    assert(z / 10 == y && z % 10 == b % 10);
    assert(text::decimal(x) == text::decimal(a).push(text::digit(b / 100)));
    assert(text::decimal(y) == text::decimal(x).push(text::digit(b / 10 % 10)));
    assert(text::decimal(z) == text::decimal(y).push(text::digit(b % 10)));
}

proof fn grouped_with_more(digits: Seq<char>, more: Seq<char>, n: int)
    requires
        more.len() == 3,
        n <= digits.len(),
    ensures
        grouped_upto(digits + more, n) == grouped_upto(digits, n),
    decreases n,
{
    if n > 0 {
        grouped_with_more(digits, more, n - 1);
        assert((digits + more)[n - 1] == digits[n - 1]);
        assert(((digits + more).len() - (n - 1)) % 3 == (digits.len() - (n - 1)) % 3);
    }
}

proof fn short_is_not_grouped(digits: Seq<char>, n: int)
    requires
        0 <= n <= digits.len() <= 3,
    ensures
        grouped_upto(digits, n) == digits.take(n),
    decreases n,
{
    if n > 0 {
        short_is_not_grouped(digits, n - 1);
        assert(digits.take(n) =~= digits.take(n - 1).push(digits[n - 1]));
    }
}

/// A number below a thousand is written without a comma; a larger one is its thousands as they
/// are written alone, a comma, and the three digits of the rest.
pub proof fn thousands_are_grouped(a: nat, b: nat)
    requires
        b < 1000,
    ensures
        grouped(b) == text::decimal(b),
        a > 0 ==> grouped(1000 * a + b) == grouped(a) + seq![
            ',',
            text::digit(b / 100),
            text::digit(b / 10 % 10),
            text::digit(b % 10),
        ],
{
    reveal_with_fuel(text::decimal, 3);
    let digits = text::decimal(b);
    assert(digits.len() <= 3);
    short_is_not_grouped(digits, digits.len() as int);
    assert(digits.take(digits.len() as int) =~= digits);
    if a > 0 {
        decimal_of_thousands(a, b);
        let high = text::decimal(a);
        let low = seq![text::digit(b / 100), text::digit(b / 10 % 10), text::digit(b % 10)];
        let all = high + low;
        let n = high.len() as int;
        assert(n > 0);
        grouped_with_more(high, low, n);
        assert(all.len() == n + 3);
        let first = grouped_upto(all, n + 1);
        assert((all.len() - n) % 3 == 0);
        assert(first == grouped_upto(all, n).push(',').push(all[n]));
        let second = grouped_upto(all, n + 2);
        assert((all.len() - (n + 1)) % 3 == 2);
        assert(second == first.push(all[n + 1]));
        let third = grouped_upto(all, n + 3);
        assert((all.len() - (n + 2)) % 3 == 1);
        assert(third == second.push(all[n + 2]));
        assert(grouped(1000 * a + b) == third);
    }
}

/// The summary of a session names its file, its identifier, its name, what it cost, and each of
/// its counts under the name of that count.
#[verifier::rlimit(60)]
pub proof fn sessions_are_summed_up(state: SessionState, stats: SessionStats)
    ensures
        stats.session_file matches Some(path) ==> summary_lines(state, stats).contains(
            "- File: "@ + path@,
        ),
        summary_lines(state, stats).contains("- ID: "@ + stats.session_id@),
        chrome::shown_name(state) matches Some(name) ==> summary_lines(state, stats).contains(
            "- Name: "@ + name,
        ),
        summary_lines(state, stats).contains("- User: "@ + grouped(stats.user_messages as nat)),
        summary_lines(state, stats).contains(
            "- Assistant: "@ + grouped(stats.assistant_messages as nat),
        ),
        summary_lines(state, stats).contains("- Tool Calls: "@ + grouped(stats.tool_calls as nat)),
        summary_lines(state, stats).contains(
            "- Tool Results: "@ + grouped(stats.tool_results as nat),
        ),
        summary_lines(state, stats).contains("- Total: "@ + grouped(stats.total_messages as nat)),
        summary_lines(state, stats).contains("- Input: "@ + grouped(stats.tokens.input as nat)),
        summary_lines(state, stats).contains("- Output: "@ + grouped(stats.tokens.output as nat)),
        stats.tokens.cache_read > 0 ==> summary_lines(state, stats).contains(
            "- Cache Read: "@ + grouped(stats.tokens.cache_read as nat),
        ),
        stats.tokens.cache_write > 0 ==> summary_lines(state, stats).contains(
            "- Cache Write: "@ + grouped(stats.tokens.cache_write as nat),
        ),
        summary_lines(state, stats).contains("- Total: "@ + grouped(stats.tokens.total as nat)),
        stats.cost.positive ==> summary_lines(state, stats).contains(
            "- Total: "@ + stats.cost.amount@,
        ),
{
    let p = place_lines(state, stats);
    let m = message_lines(stats);
    let t = token_lines(stats);
    let c = cost_lines(stats);
    let all = summary_lines(state, stats);
    let n = (if chrome::shown_name(state) is Some {
        1int
    } else {
        0int
    });
    assert(p.len() == 4 + n);
    assert(all[1 + n] == p[1 + n]);
    assert(all[2 + n] == p[2 + n]);
    if n == 1 {
        assert(all[1] == p[1]);
    }
    let at = p.len() as int;
    counts_are_named();
    assert(all[at + 1] == m[1]);
    assert(all[at + 2] == m[2]);
    assert(all[at + 3] == m[3]);
    assert(all[at + 4] == m[4]);
    assert(all[at + 5] == m[5]);
    let from = at + 7;
    assert(m.len() == 7);
    assert(all[from + 1] == t[1]);
    assert(all[from + 2] == t[2]);
    let r = (if stats.tokens.cache_read > 0 {
        1int
    } else {
        0int
    });
    let w = (if stats.tokens.cache_write > 0 {
        1int
    } else {
        0int
    });
    assert(t.len() == 4 + r + w);
    if r == 1 {
        assert(all[from + 3] == t[3]);
    }
    if w == 1 {
        assert(all[from + 3 + r] == t[3 + r]);
    }
    assert(all[from + 3 + r + w] == t[3 + r + w]);
    if stats.cost.positive {
        assert(all[from + t.len() + 2] == c[2]);
    }
}

proof fn counts_are_named()
    ensures
        forall|n: nat| #[trigger] count_line("User"@, n) == "- User: "@ + grouped(n),
        forall|n: nat| #[trigger] count_line("Assistant"@, n) == "- Assistant: "@ + grouped(n),
        forall|n: nat| #[trigger] count_line("Tool Calls"@, n) == "- Tool Calls: "@ + grouped(n),
        forall|n: nat|
            #[trigger] count_line("Tool Results"@, n) == "- Tool Results: "@ + grouped(n),
        forall|n: nat| #[trigger] count_line("Total"@, n) == "- Total: "@ + grouped(n),
        forall|n: nat| #[trigger] count_line("Input"@, n) == "- Input: "@ + grouped(n),
        forall|n: nat| #[trigger] count_line("Output"@, n) == "- Output: "@ + grouped(n),
        forall|n: nat| #[trigger] count_line("Cache Read"@, n) == "- Cache Read: "@ + grouped(n),
        forall|n: nat| #[trigger] count_line("Cache Write"@, n) == "- Cache Write: "@ + grouped(n),
{
    reveal_strlit("- ");
    reveal_strlit(": ");
    reveal_strlit("User");
    reveal_strlit("- User: ");
    assert("- "@ + "User"@ + ": "@ =~= "- User: "@);
    reveal_strlit("Assistant");
    reveal_strlit("- Assistant: ");
    assert("- "@ + "Assistant"@ + ": "@ =~= "- Assistant: "@);
    reveal_strlit("Tool Calls");
    reveal_strlit("- Tool Calls: ");
    assert("- "@ + "Tool Calls"@ + ": "@ =~= "- Tool Calls: "@);
    reveal_strlit("Tool Results");
    reveal_strlit("- Tool Results: ");
    assert("- "@ + "Tool Results"@ + ": "@ =~= "- Tool Results: "@);
    reveal_strlit("Total");
    reveal_strlit("- Total: ");
    assert("- "@ + "Total"@ + ": "@ =~= "- Total: "@);
    reveal_strlit("Input");
    reveal_strlit("- Input: ");
    assert("- "@ + "Input"@ + ": "@ =~= "- Input: "@);
    reveal_strlit("Output");
    reveal_strlit("- Output: ");
    assert("- "@ + "Output"@ + ": "@ =~= "- Output: "@);
    reveal_strlit("Cache Read");
    reveal_strlit("- Cache Read: ");
    assert("- "@ + "Cache Read"@ + ": "@ =~= "- Cache Read: "@);
    reveal_strlit("Cache Write");
    reveal_strlit("- Cache Write: ");
    assert("- "@ + "Cache Write"@ + ": "@ =~= "- Cache Write: "@);
}

/// The sections of two runs of pieces are those of the first, then those of the second.
pub proof fn sections_in_two(a: Seq<Seq<char>>, b: Seq<Seq<char>>)
    ensures
        version_sections(a + b) == version_sections(a) + version_sections(b),
    decreases b.len(),
{
    if b.len() == 0 {
        assert(a + b =~= a);
    } else {
        assert((a + b).drop_last() =~= a + b.drop_last());
        sections_in_two(a, b.drop_last());
    }
}

/// A piece that begins with a version in brackets is a section, headed as it was.
pub proof fn versions_are_sections(piece: Seq<char>)
    requires
        piece.len() > 0,
        !text::is_white(piece.last()),
    ensures
        piece[0] == '[' ==> version_sections(seq![piece]) == seq!["## "@ + piece],
        text::has_prefix(piece, "## ["@) ==> version_sections(seq![piece]) == seq![piece],
        piece[0] != '[' && piece[0] != '#' && !text::is_white(piece[0]) ==> version_sections(
            seq![piece],
        ).len() == 0,
{
    reveal_with_fuel(version_sections, 2);
    reveal_strlit("## ");
    reveal_strlit("## [");
    assert(seq![piece].drop_last() =~= Seq::<Seq<char>>::empty());
    let headed = "## "@ + piece;
    if piece[0] == '[' {
        text::trim_keeps(piece);
        assert(piece.len() >= 3 ==> piece.take(3)[0] != "## "@[0]);
        assert(headed.take(4) =~= "## ["@);
    } else if text::has_prefix(piece, "## ["@) {
        assert(piece.take(4)[0] == piece[0]);
        text::trim_keeps(piece);
        assert(piece.take(3) =~= "## "@) by {
            assert(piece.take(4).take(3) =~= piece.take(3));
            assert("## ["@.take(3) =~= "## "@);
        }
    }
    if text::has_prefix(piece, "## ["@) {
        assert(piece.take(4)[0] == '#');
    }
    if piece[0] != '[' && piece[0] != '#' && !text::is_white(piece[0]) {
        text::trim_keeps(piece);
        assert(piece.len() >= 3 ==> piece.take(3)[0] != "## "@[0]);
        assert(headed.len() >= 4 ==> headed.take(4)[3] == piece[0]);
    }
}

/// Of the sections of a changelog the first three are shown, and all of them where there are no
/// more.
pub proof fn latest_sections_are_shown(content: Seq<char>, sections: Seq<Seq<char>>)
    requires
        sections == version_sections(text::pieces_from(content, "\n## "@, 0)),
    ensures
        1 <= sections.len() <= 3 ==> latest_changes(content) == text::join(sections, "\n\n"@),
        sections.len() > 3 ==> latest_changes(content) == text::join(
            seq![sections[0], sections[1], sections[2]],
            "\n\n"@,
        ),
{
    if sections.len() > 3 {
        assert(sections.take(3) =~= seq![sections[0], sections[1], sections[2]]);
    }
}

/// The branch is what was answered, without the end of the line; a checkout without a branch has
/// none.
pub proof fn branches_are_read(name: Seq<char>)
    requires
        name.len() > 0,
        !text::is_white(name[0]),
        !text::is_white(name.last()),
    ensures
        name != "HEAD"@ ==> branch_named(name + seq!['\n']) == Some(name),
        branch_named("HEAD"@ + seq!['\n']) is None,
{
    ended_by_feed(name);
    reveal_strlit("HEAD");
    ended_by_feed("HEAD"@);
}

proof fn ended_by_feed(name: Seq<char>)
    requires
        name.len() > 0,
        !text::is_white(name[0]),
        !text::is_white(name.last()),
    ensures
        text::trim(name + seq!['\n']) == name,
{
    let s = name + seq!['\n'];
    assert(s[0] == name[0]);
    assert(text::trim_start(s) == s);
    assert(text::is_white(s.last()));
    assert(s.drop_last() =~= name);
    assert(text::trim_end(name) == name);
}

/// Every key that can be set is listed beside what it does.
#[verifier::rlimit(60)]
pub proof fn keys_are_listed(keys: KeybindingsManager)
    ensures
        (editing_lines(keys) + other_lines(keys)).contains(
            "- "@ + text::join(keys.editor_shown(EditorAction::CursorWordLeft), " / "@) + " / "@ + text::join(keys.editor_shown(EditorAction::CursorWordRight), " / "@) + ": Move by word"@,
        ),
        (editing_lines(keys) + other_lines(keys)).contains(
            "- "@ + text::join(keys.editor_shown(EditorAction::CursorLineStart), " / "@) + ": Start of line"@,
        ),
        (editing_lines(keys) + other_lines(keys)).contains(
            "- "@ + text::join(keys.editor_shown(EditorAction::CursorLineEnd), " / "@) + ": End of line"@,
        ),
        (editing_lines(keys) + other_lines(keys)).contains(
            "- "@ + text::join(keys.editor_shown(EditorAction::Submit), " / "@) + ": Send message"@,
        ),
        (editing_lines(keys) + other_lines(keys)).contains(
            "- "@ + text::join(keys.editor_shown(EditorAction::NewLine), " / "@) + ": New line"@,
        ),
        (editing_lines(keys) + other_lines(keys)).contains(
            "- "@ + text::join(keys.editor_shown(EditorAction::DeleteWordBackward), " / "@) + ": Delete word backwards"@,
        ),
        (editing_lines(keys) + other_lines(keys)).contains(
            "- "@ + text::join(keys.editor_shown(EditorAction::DeleteWordForward), " / "@) + ": Delete word forwards"@,
        ),
        (editing_lines(keys) + other_lines(keys)).contains(
            "- "@ + text::join(keys.editor_shown(EditorAction::DeleteToLineStart), " / "@) + ": Delete to start of line"@,
        ),
        (editing_lines(keys) + other_lines(keys)).contains(
            "- "@ + text::join(keys.editor_shown(EditorAction::DeleteToLineEnd), " / "@) + ": Delete to end of line"@,
        ),
        (editing_lines(keys) + other_lines(keys)).contains(
            "- "@ + text::join(keys.editor_shown(EditorAction::Yank), " / "@) + ": Paste the most-recently-deleted text"@,
        ),
        (editing_lines(keys) + other_lines(keys)).contains(
            "- "@ + text::join(keys.editor_shown(EditorAction::YankPop), " / "@) + ": Cycle through the deleted text after pasting"@,
        ),
        (editing_lines(keys) + other_lines(keys)).contains(
            "- "@ + text::join(keys.editor_shown(EditorAction::Undo), " / "@) + ": Undo"@,
        ),
        (editing_lines(keys) + other_lines(keys)).contains(
            "- "@ + text::join(keys.editor_shown(EditorAction::Tab), " / "@) + ": Path completion / accept autocomplete"@,
        ),
        (editing_lines(keys) + other_lines(keys)).contains(
            "- "@ + text::join(keys.app_shown(AppAction::Clear), " / "@) + ": Clear editor (first) / exit (second)"@,
        ),
        (editing_lines(keys) + other_lines(keys)).contains(
            "- "@ + text::join(keys.app_shown(AppAction::Exit), " / "@) + ": Exit (when editor is empty)"@,
        ),
        (editing_lines(keys) + other_lines(keys)).contains(
            "- "@ + text::join(keys.app_shown(AppAction::Suspend), " / "@) + ": Suspend to background"@,
        ),
        (editing_lines(keys) + other_lines(keys)).contains(
            "- "@ + text::join(keys.app_shown(AppAction::CycleThinkingLevel), " / "@) + ": Cycle thinking level"@,
        ),
        (editing_lines(keys) + other_lines(keys)).contains(
            "- "@ + text::join(keys.app_shown(AppAction::CycleModelForward), " / "@) + " / "@ + text::join(keys.app_shown(AppAction::CycleModelBackward), " / "@) + ": Cycle models"@,
        ),
        (editing_lines(keys) + other_lines(keys)).contains(
            "- "@ + text::join(keys.app_shown(AppAction::SelectModel), " / "@) + ": Open model selector"@,
        ),
        (editing_lines(keys) + other_lines(keys)).contains(
            "- "@ + text::join(keys.app_shown(AppAction::ExpandTools), " / "@) + ": Toggle tool output expansion"@,
        ),
        (editing_lines(keys) + other_lines(keys)).contains(
            "- "@ + text::join(keys.app_shown(AppAction::ToggleThinking), " / "@) + ": Toggle thinking block visibility"@,
        ),
        (editing_lines(keys) + other_lines(keys)).contains(
            "- "@ + text::join(keys.app_shown(AppAction::ExternalEditor), " / "@) + ": Edit message in external editor"@,
        ),
        (editing_lines(keys) + other_lines(keys)).contains(
            "- "@ + text::join(keys.app_shown(AppAction::FollowUp), " / "@) + ": Queue follow-up message"@,
        ),
        (editing_lines(keys) + other_lines(keys)).contains(
            "- "@ + text::join(keys.app_shown(AppAction::Dequeue), " / "@) + ": Restore queued messages"@,
        ),
        (editing_lines(keys) + other_lines(keys)).contains(
            "- "@ + text::join(keys.app_shown(AppAction::PasteImage), " / "@) + ": Paste image from clipboard"@,
        ),
{
    let editing = editing_lines(keys);
    let other = other_lines(keys);
    let all = editing + other;
    assert(editing.len() == 17);
    assert(all[2] == editing[2]);
    assert(all[3] == editing[3]);
    assert(all[4] == editing[4]);
    assert(all[7] == editing[7]);
    assert(all[8] == editing[8]);
    assert(all[9] == editing[9]);
    assert(all[10] == editing[10]);
    assert(all[11] == editing[11]);
    assert(all[12] == editing[12]);
    assert(all[13] == editing[13]);
    assert(all[14] == editing[14]);
    assert(all[15] == editing[15]);
    assert(all[18] == other[1]);
    assert(all[20] == other[3]);
    assert(all[21] == other[4]);
    assert(all[22] == other[5]);
    assert(all[23] == other[6]);
    assert(all[24] == other[7]);
    assert(all[25] == other[8]);
    assert(all[26] == other[9]);
    assert(all[27] == other[10]);
    assert(all[28] == other[11]);
    assert(all[29] == other[12]);
    assert(all[30] == other[13]);
    assert(all[31] == other[14]);
}

/// A file whose name ends as those of sessions do is one, whatever directories it stands in.
pub proof fn session_files_are_known(directories: Seq<Seq<char>>, name: Seq<char>)
    requires
        name.len() > 0,
        !name.contains('/'),
        forall|i: int| 0 <= i < directories.len() ==> !(#[trigger] directories[i]).contains('/'),
    ensures
        names_session(text::join(directories.push(name + ".jsonl"@), seq!['/'])),
{
    reveal_strlit(".jsonl");
    let file = name + ".jsonl"@;
    assert(!file.contains('/')) by {
        if file.contains('/') {
            let k = choose|k: int| 0 <= k < file.len() && file[k] == '/';
            if k < name.len() {
                assert(name[k] == '/');
            }
        }
    }
    assert(file.skip(file.len() - 6) =~= ".jsonl"@);
    let all = directories.push(file);
    assert forall|i: int| 0 <= i < all.len() implies !(#[trigger] all[i]).contains('/') by {
        if i < directories.len() {
            assert(all[i] == directories[i]);
        }
    }
    text::split_undoes_join(all, '/');
    reveal_strlit(".");
    reveal_strlit("..");
    assert(all.last() == file);
}

/// A path that ends otherwise is none.
pub proof fn other_files_are_no_sessions(directories: Seq<Seq<char>>, name: Seq<char>)
    requires
        !name.contains('/'),
        name.len() > 2,
        !text::has_suffix(name, ".jsonl"@),
        forall|i: int| 0 <= i < directories.len() ==> !(#[trigger] directories[i]).contains('/'),
    ensures
        !names_session(text::join(directories.push(name), seq!['/'])),
{
    let all = directories.push(name);
    assert forall|i: int| 0 <= i < all.len() implies !(#[trigger] all[i]).contains('/') by {
        if i < directories.len() {
            assert(all[i] == directories[i]);
        }
    }
    text::split_undoes_join(all, '/');
    reveal_strlit(".");
    reveal_strlit("..");
    assert(all.last() == name);
}

} // verus!
