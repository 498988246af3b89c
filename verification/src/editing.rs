//! The prompt: which key does what in it, and how a completion is put into it.
use vstd::prelude::*;
use crate::bytes;
use crate::bytes::{count_chars_before, size_of};
use crate::keybindings::{AppAction, KeybindingsManager, PromptAutocompleteInput, PromptEditorInput, PromptInputView};
use crate::keys::KeyEvent;
use crate::overlay;
use crate::overlay::{plain_escape, say, SelectItem, Status, StatusView};
use crate::text;
use crate::text::{
    begins_with, begins_with_char, cat2, cat3, chars_of, ends_with, find_at, slice_text, trimmed,
    white,
};

verus! {

broadcast use crate::text::group_texts;

/// What a key press in the prompt leads to.
#[derive(Clone, Debug, PartialEq, Eq)]
pub enum PromptStep {
    /// The list of completions is asked for something.
    Complete(PromptAutocompleteInput),
    /// The answer is broken off.
    Abort,
    /// The prompt is emptied.
    Clear,
    /// The prompt is edited elsewhere.
    ExternalEditor,
    /// Nothing comes of it.
    Ignore,
    /// The prompt is edited.
    Edit(PromptEditorInput),
}

/// What a key press in the prompt leads to, as a mathematical value.
pub enum PromptStepView {
    Complete(PromptAutocompleteInput),
    Abort,
    Clear,
    ExternalEditor,
    Ignore,
    Edit(PromptInputView),
}

impl View for PromptStep {
    type V = PromptStepView;

    open spec fn view(&self) -> PromptStepView {
        match self {
            PromptStep::Complete(input) => PromptStepView::Complete(*input),
            PromptStep::Abort => PromptStepView::Abort,
            PromptStep::Clear => PromptStepView::Clear,
            PromptStep::ExternalEditor => PromptStepView::ExternalEditor,
            PromptStep::Ignore => PromptStepView::Ignore,
            PromptStep::Edit(input) => PromptStepView::Edit(input@),
        }
    }
}

/// What a key press in the prompt leads to: the list of completions comes first where it is open;
/// escape breaks an answer off, else it empties the prompt; the rest edits it.
pub open spec fn prompt_step(
    keys: KeybindingsManager,
    completing: bool,
    answering: bool,
    prompt: Seq<char>,
    event: KeyEvent,
) -> (PromptStepView, StatusView) {
    let completion = keys.autocomplete_input(event);
    if completing && completion is Some {
        (
            PromptStepView::Complete(completion->0),
            if completion->0 == PromptAutocompleteInput::Cancel {
                StatusView::Say("Autocomplete dismissed."@)
            } else {
                StatusView::Keep
            },
        )
    } else if overlay::is_plain_escape(event) && answering {
        (PromptStepView::Abort, StatusView::Say("Abort requested."@))
    } else if overlay::is_plain_escape(event) && text::trim(prompt).len() > 0 {
        (PromptStepView::Clear, StatusView::Say("Cancelled input."@))
    } else if keys.calls(event, AppAction::ExternalEditor) {
        (PromptStepView::ExternalEditor, StatusView::Keep)
    } else {
        match keys.prompt_input(event) {
            Some(input) => (PromptStepView::Edit(input), StatusView::Keep),
            None => (PromptStepView::Ignore, StatusView::Keep),
        }
    }
}

/// What a key press in the prompt leads to, and what is said.
pub fn handle_prompt_key(
    keybindings: &KeybindingsManager,
    completing: bool,
    active_prompt: bool,
    prompt_text: &str,
    event: &KeyEvent,
) -> (r: (PromptStep, Status))
    ensures
        (r.0@, r.1@) == prompt_step(*keybindings, completing, active_prompt, prompt_text@, *event),
{
    if completing {
        if let Some(input) = keybindings.resolve_prompt_autocomplete_input(event) {
            let status = if input == PromptAutocompleteInput::Cancel {
                say("Autocomplete dismissed.")
            } else {
                Status::Keep
            };
            return (PromptStep::Complete(input), status);
        }
    }
    if plain_escape(event) && active_prompt {
        return (PromptStep::Abort, say("Abort requested."));
    }
    if plain_escape(event) && !trimmed(prompt_text).as_str().is_empty() {
        return (PromptStep::Clear, say("Cancelled input."));
    }
    if keybindings.matches(event, AppAction::ExternalEditor) {
        return (PromptStep::ExternalEditor, Status::Keep);
    }
    match keybindings.resolve_prompt_editor_input(event) {
        Some(input) => (PromptStep::Edit(input), Status::Keep),
        None => (PromptStep::Ignore, Status::Keep),
    }
}

/// Whether an arrow first goes through what was entered before: up in the first line, down in the
/// last one.
pub fn arrow_browses_history(up: bool, line: usize, total_lines: usize) -> (r: bool)
    ensures
        r == (if up {
            line == 0
        } else {
            line + 1 >= total_lines
        }),
{
    if up {
        line == 0
    } else {
        line >= total_lines || total_lines - line == 1
    }
}

/// What becomes of a prompt that is entered.
#[derive(Clone, Debug, PartialEq, Eq)]
pub enum Entered {
    Nothing,
    /// It steers the answer that is being written.
    Steer(String),
    /// It is sent.
    Submit(String),
}

/// What becomes of a prompt that is entered: a blank one is nothing; while an answer is being written
/// it steers that answer.
pub fn enter_prompt(prompt_text: &str, active_prompt: bool) -> (r: Entered)
    ensures
        match r {
            Entered::Nothing => text::trim(prompt_text@).len() == 0,
            Entered::Steer(s) => s@ == text::trim(prompt_text@) && s@.len() > 0 && active_prompt,
            Entered::Submit(s) => s@ == text::trim(prompt_text@) && s@.len() > 0 && !active_prompt,
        },
{
    let value = trimmed(prompt_text);
    if value.as_str().is_empty() {
        Entered::Nothing
    } else if active_prompt {
        Entered::Steer(value)
    } else {
        Entered::Submit(value)
    }
}

/// What is completed.
#[derive(Clone, Copy, Debug, PartialEq, Eq, Structural)]
pub enum PromptAutocompleteKind {
    SlashCommand,
    ModelArgument,
    Path,
    FileReference,
}

/// Whether a prompt is sent once its completion has been chosen: a command or a model is, a path is
/// not.
pub fn completion_submits(kind: PromptAutocompleteKind, submit_after: bool) -> (r: bool)
    ensures
        r == (submit_after && (kind == PromptAutocompleteKind::SlashCommand || kind
            == PromptAutocompleteKind::ModelArgument)),
{
    submit_after && matches!(
        kind,
        PromptAutocompleteKind::SlashCommand | PromptAutocompleteKind::ModelArgument
    )
}

/// A line with a completion in it, and the place behind the completion, counted in bytes.
#[derive(Clone, Debug, PartialEq, Eq)]
pub struct CompletedLine {
    pub line: String,
    pub cursor: usize,
}

/// A line with a completion in it, as a mathematical value.
pub struct CompletedView {
    pub line: Seq<char>,
    pub cursor: int,
}

impl View for CompletedLine {
    type V = CompletedView;

    open spec fn view(&self) -> CompletedView {
        CompletedView { line: self.line@, cursor: self.cursor as int }
    }
}

/// A completion whose place is counted in bytes instead of characters.
pub open spec fn in_bytes(c: CompletedView) -> CompletedView {
    CompletedView { line: c.line, cursor: bytes::size(c.line.take(c.cursor)) as int }
}

/// The first place from one on where there is white space.
pub open spec fn white_from(line: Seq<char>, i: int) -> Option<int>
    decreases line.len() - i,
{
    if i < 0 || i >= line.len() {
        None
    } else if text::is_white(line[i]) {
        Some(i)
    } else {
        white_from(line, i + 1)
    }
}

/// Where the word at the cursor ends: before the next white space, or at the cursor where there is
/// none.
pub open spec fn word_end(line: Seq<char>, cursor: int) -> int {
    match white_from(line, cursor) {
        Some(i) => i,
        None => cursor,
    }
}

/// Where a line begins after the white space at its start; the start where there is nothing else.
pub open spec fn line_start(line: Seq<char>) -> int {
    let n = line.len() - text::trim_start(line).len();
    if n < line.len() {
        n
    } else {
        0
    }
}

/// A line in which some part is replaced, with the place behind it, counted in characters.
pub open spec fn replaced(line: Seq<char>, from: int, to: int, s: Seq<char>) -> CompletedView {
    CompletedView { line: line.take(from) + s + line.skip(to), cursor: from + s.len() }
}

/// A line with a command in the place of the word it begins with. A space follows unless there is
/// white space already.
pub open spec fn slash_completed(line: Seq<char>, cursor: int, command: Seq<char>) -> CompletedView {
    let end = word_end(line, cursor);
    let space = !(end < line.len() && text::is_white(line[end]));
    replaced(
        line,
        line_start(line),
        end,
        if space {
            command + " "@
        } else {
            command
        },
    )
}

fn find_white(line: &[char], from: usize) -> (r: Option<usize>)
    requires
        from <= line@.len(),
    ensures
        (match r {
            Some(i) => Some(i as int),
            None => None,
        }) == white_from(line@, from as int),
        r is Some ==> from <= r->0 < line@.len(),
{
    let len: usize = line.len();
    let mut i: usize = from;
    while i < len
        invariant
            len == line@.len(),
            from <= i <= len,
            white_from(line@, i as int) == white_from(line@, from as int),
        decreases len - i,
    {
        if white(line[i]) {
            return Some(i);
        }
        i += 1;
    }
    None
}

fn end_of_word(line: &[char], cursor: usize) -> (r: usize)
    requires
        cursor <= line@.len(),
    ensures
        r == word_end(line@, cursor as int),
        cursor <= r <= line@.len(),
{
    match find_white(line, cursor) {
        Some(i) => i,
        None => cursor,
    }
}

proof fn start_skips_white(line: Seq<char>, i: int)
    requires
        0 <= i <= line.len(),
        forall|j: int| 0 <= j < i ==> text::is_white(#[trigger] line[j]),
        i < line.len() ==> !text::is_white(line[i]),
    ensures
        text::trim_start(line).len() == line.len() - i,
    decreases i,
{
    if i > 0 {
        assert(text::is_white(line[0]));
        let rest = line.skip(1);
        assert forall|j: int| 0 <= j < i - 1 implies text::is_white(#[trigger] rest[j]) by {
            assert(rest[j] == line[j + 1]);
        }
        start_skips_white(rest, i - 1);
        assert(text::trim_start(line) == text::trim_start(rest));
    } else {
        assert(text::trim_start(line) == line);
    }
}

fn start_of_line(line: &[char]) -> (r: usize)
    ensures
        r == line_start(line@),
        r <= line@.len(),
{
    let len: usize = line.len();
    let mut i: usize = 0;
    while i < len && white(line[i])
        invariant
            len == line@.len(),
            0 <= i <= len,
            forall|j: int| 0 <= j < i ==> text::is_white(#[trigger] line@[j]),
        decreases len - i,
    {
        i += 1;
    }
    proof {
        start_skips_white(line@, i as int);
    }
    if i < len {
        i
    } else {
        0
    }
}

fn replace_part(line: &[char], from: usize, to: usize, s: &str) -> (r: CompletedLine)
    requires
        from <= to <= line@.len(),
        bytes::size(line@) + bytes::size(s@) <= usize::MAX,
    ensures
        r@ == in_bytes(replaced(line@, from as int, to as int, s@)),
{
    let head = slice_text(line, 0, from);
    let tail = slice_text(line, to, line.len());
    assert(line@.subrange(0, from as int) =~= line@.take(from as int));
    assert(line@.subrange(to as int, line@.len() as int) =~= line@.skip(to as int));
    let start = cat2(head.as_str(), s);
    proof {
        bytes::sizes_add_up(line@.take(from as int), line@.skip(from as int));
        assert(line@.take(from as int) + line@.skip(from as int) =~= line@);
        bytes::sizes_add_up(head@, s@);
        let whole = replaced(line@, from as int, to as int, s@);
        assert(whole.line.take(whole.cursor) =~= start@);
    }
    let cursor = size_of(start.as_str());
    CompletedLine { line: cat2(start.as_str(), tail.as_str()), cursor }
}

/// How many characters stand before a place between two characters.
fn chars_before_place(line: &str, place: usize) -> (r: usize)
    requires
        bytes::chars_before(line@, place as nat) is Some,
    ensures
        Some(r as int) == bytes::chars_before(line@, place as nat),
        r <= line@.len(),
{
    match count_chars_before(line, place) {
        Some(n) => n,
        None => 0,
    }
}

/// Puts a command in the place of the word that a line begins with. The cursor is counted in bytes;
/// it must stand between two characters and not before that word.
pub fn apply_slash_completion(line: &str, cursor: usize, command: &str) -> (r: CompletedLine)
    requires
        bytes::chars_before(line@, cursor as nat) is Some,
        line_start(line@) <= word_end(line@, bytes::chars_before(line@, cursor as nat)->0),
        bytes::size(line@) + bytes::size(command@) + 1 <= usize::MAX,
    ensures
        r@ == in_bytes(
            slash_completed(line@, bytes::chars_before(line@, cursor as nat)->0, command@),
        ),
{
    let v = chars_of(line);
    let start = start_of_line(v.as_slice());
    let end = end_of_word(v.as_slice(), chars_before_place(line, cursor));
    let spaced = end < v.len() && white(v[end]);
    proof {
        reveal_strlit(" ");
        reveal_with_fuel(bytes::size, 2);
        bytes::sizes_add_up(command@, " "@);
        assert(" "@.drop_last() =~= Seq::<char>::empty());
    }
    if spaced {
        replace_part(v.as_slice(), start, end, command)
    } else {
        replace_part(v.as_slice(), start, end, cat2(command, " ").as_str())
    }
}

/// Where the name of a model begins in a line.
pub open spec fn model_start(line: Seq<char>) -> Option<int> {
    match text::first_at(line, "/model "@, 0) {
        Some(i) => Some(i + "/model "@.len()),
        None => None,
    }
}

/// A line with a model in the place of its argument; nothing where the command is not in it.
pub open spec fn model_completed(line: Seq<char>, cursor: int, model: Seq<char>) -> Option<CompletedView> {
    match model_start(line) {
        Some(start) => Some(replaced(line, start, word_end(line, cursor), model)),
        None => None,
    }
}

/// An optional completion whose place is counted in bytes instead of characters.
pub open spec fn opt_in_bytes(r: Option<CompletedView>) -> Option<CompletedView> {
    match r {
        Some(c) => Some(in_bytes(c)),
        None => None,
    }
}

/// An optional completion, as a mathematical value.
pub open spec fn opt_completed(r: Option<CompletedLine>) -> Option<CompletedView> {
    match r {
        Some(c) => Some(c@),
        None => None,
    }
}

/// Puts a model in the place of the argument of a command. The cursor is counted in bytes; where the
/// command is there, it must stand between two characters and not before the argument.
pub fn apply_model_completion(line: &str, cursor: usize, model_value: &str) -> (r: Option<CompletedLine>)
    requires
        model_start(line@) is Some ==> {
            &&& bytes::chars_before(line@, cursor as nat) is Some
            &&& model_start(line@)->0 <= word_end(
                line@,
                bytes::chars_before(line@, cursor as nat)->0,
            )
        },
        bytes::size(line@) + bytes::size(model_value@) <= usize::MAX,
    ensures
        opt_completed(r) == opt_in_bytes(
            model_completed(line@, bytes::chars_before(line@, cursor as nat)->0, model_value@),
        ),
{
    let v = chars_of(line);
    let name = chars_of("/model ");
    match find_at(v.as_slice(), name.as_slice(), 0) {
        Some(i) => {
            assert(i + name@.len() <= v@.len());
            let len: usize = v.len();
            let start: usize = i + name.len();
            let end = end_of_word(v.as_slice(), chars_before_place(line, cursor));
            Some(replace_part(v.as_slice(), start, end, model_value))
        },
        None => None,
    }
}

/// A line with a path between two places, counted in characters, where some of it was typed. A
/// space follows a file that is referred to. A quotation mark is not doubled, and the cursor stays
/// inside the quotation marks of a directory.
pub open spec fn path_completed(
    line: Seq<char>,
    from: int,
    cursor: int,
    item: overlay::ItemView,
    typed: Seq<char>,
    spaced: bool,
) -> CompletedView {
    let quoted = text::starts_with_char(typed, '"') || text::has_prefix(typed, "@\""@);
    let ends_quoted = text::has_suffix(item.value, "\""@);
    let directory = text::has_suffix(item.label, "/"@);
    let after = line.skip(cursor);
    let rest = if quoted && ends_quoted && text::starts_with_char(after, '"') {
        after.skip(1)
    } else {
        after
    };
    let suffix = if spaced && !directory {
        " "@
    } else {
        ""@
    };
    let end = from + item.value.len() + suffix.len();
    CompletedView {
        line: line.take(from) + item.value + suffix + rest,
        cursor: if directory && ends_quoted && end > 0 {
            end - 1
        } else {
            end
        },
    }
}

/// Whether what was typed of a path, counted in bytes, stands between two places of a line before
/// the cursor, each between two characters.
pub open spec fn typed_before(line: Seq<char>, cursor: nat, typed: Seq<char>) -> bool {
    &&& bytes::size(typed) <= cursor
    &&& bytes::chars_before(line, cursor) is Some
    &&& bytes::chars_before(line, (cursor - bytes::size(typed)) as nat) is Some
}

/// Puts a path in the place of what was typed of it; nothing where more was typed than stands before
/// the cursor. The cursor is counted in bytes. It must stand between two characters, and so must
/// the place where what was typed begins.
pub fn apply_path_completion(
    line: &str,
    cursor: usize,
    item: &SelectItem,
    prefix: &str,
    add_space_for_files: bool,
) -> (r: Option<CompletedLine>)
    requires
        bytes::size(prefix@) <= usize::MAX,
        bytes::size(prefix@) <= cursor ==> typed_before(line@, cursor as nat, prefix@),
        bytes::size(line@) + bytes::size(item.value@) + 1 <= usize::MAX,
    ensures
        opt_completed(r) == (if bytes::size(prefix@) > cursor {
            None
        } else {
            Some(
                in_bytes(
                    path_completed(
                        line@,
                        bytes::chars_before(line@, (cursor - bytes::size(prefix@)) as nat)->0,
                        bytes::chars_before(line@, cursor as nat)->0,
                        item@,
                        prefix@,
                        add_space_for_files,
                    ),
                ),
            )
        }),
{
    let typed = size_of(prefix);
    if typed > cursor {
        return None;
    }
    let from = chars_before_place(line, cursor - typed);
    let to = chars_before_place(line, cursor);
    Some(put_path(line, from, to, item, prefix, add_space_for_files))
}

/// How many bytes a text takes, or takes without its last character.
fn size_within(s: &str, inside: bool) -> (r: usize)
    requires
        bytes::size(s@) <= usize::MAX,
    ensures
        r == bytes::size(
            if inside && s@.len() > 0 {
                s@.drop_last()
            } else {
                s@
            },
        ),
{
    let v = chars_of(s);
    if inside && v.len() > 0 {
        let shorter = slice_text(v.as_slice(), 0, v.len() - 1);
        assert(shorter@ =~= s@.drop_last());
        size_of(shorter.as_str())
    } else {
        size_of(s)
    }
}

fn put_path(
    line: &str,
    from: usize,
    to: usize,
    item: &SelectItem,
    prefix: &str,
    add_space_for_files: bool,
) -> (r: CompletedLine)
    requires
        from <= line@.len(),
        to <= line@.len(),
        bytes::size(line@) + bytes::size(item.value@) + 1 <= usize::MAX,
    ensures
        r@ == in_bytes(
            path_completed(line@, from as int, to as int, item@, prefix@, add_space_for_files),
        ),
{
    let v = chars_of(line);
    let len: usize = v.len();
    let quoted = begins_with_char(prefix, '"') || begins_with(prefix, "@\"");
    let ends_quoted = ends_with(item.value.as_str(), "\"");
    let directory = ends_with(item.label.as_str(), "/");
    let follows = to < len && v[to] == '"';
    let skip: usize = if quoted && ends_quoted && follows {
        to + 1
    } else {
        to
    };
    let head = slice_text(v.as_slice(), 0, from);
    let rest = slice_text(v.as_slice(), skip, len);
    proof {
        reveal_strlit("");
        reveal_strlit(" ");
        let after = line@.skip(to as int);
        assert(line@.subrange(0, from as int) =~= line@.take(from as int));
        assert(line@.subrange(to as int, len as int) =~= after);
        if follows {
            assert(after[0] == '"');
            assert(line@.subrange(to + 1, len as int) =~= after.skip(1));
        } else if to < len {
            assert(after[0] == line@[to as int]);
        }
    }
    let spaced = add_space_for_files && !directory;
    let suffix = if spaced {
        " "
    } else {
        ""
    };
    let start = cat3(head.as_str(), item.value.as_str(), suffix);
    let inside = directory && ends_quoted;
    let ghost whole = path_completed(line@, from as int, to as int, item@, prefix@, add_space_for_files);
    proof {
        bytes::sizes_add_up(line@.take(from as int), line@.skip(from as int));
        assert(line@.take(from as int) + line@.skip(from as int) =~= line@);
        bytes::sizes_add_up(head@, item.value@);
        bytes::sizes_add_up(head@ + item.value@, suffix@);
        reveal_with_fuel(bytes::size, 2);
        assert(" "@.drop_last() =~= Seq::<char>::empty());
    }
    let next = size_within(start.as_str(), inside);
    proof {
        assert(whole.line =~= start@ + rest@);
        assert(whole.line.take(start@.len() as int) =~= start@);
        if inside && start@.len() > 0 {
            assert(whole.line.take(start@.len() - 1) =~= start@.drop_last());
        }
    }
    CompletedLine { line: cat2(start.as_str(), rest.as_str()), cursor: next }
}

/// What is completed leaves what stands before it as it is, and the cursor stands behind it.
pub proof fn completion_keeps_the_rest(line: Seq<char>, from: int, to: int, s: Seq<char>)
    requires
        0 <= from <= to <= line.len(),
    ensures
        ({
            let r = replaced(line, from, to, s);
            &&& r.line.take(from) == line.take(from)
            &&& r.line.subrange(from, r.cursor) == s
            &&& r.line.skip(r.cursor) == line.skip(to)
        }),
{
    let r = replaced(line, from, to, s);
    assert(r.line.take(from) =~= line.take(from));
    assert(r.line.subrange(from, r.cursor) =~= s);
    assert(r.line.skip(r.cursor) =~= line.skip(to));
}

proof fn no_white_from(line: Seq<char>, i: int)
    requires
        0 <= i <= line.len(),
        forall|k: int| i <= k < line.len() ==> !text::is_white(#[trigger] line[k]),
    ensures
        white_from(line, i) is None,
    decreases line.len() - i,
{
    if i < line.len() {
        assert(!text::is_white(line[i]));
        no_white_from(line, i + 1);
    }
}

/// A command that is completed at the end of the line takes the place of what was typed, and a
/// space follows; before more words it takes the place of the first one, and they stay.
pub proof fn commands_are_completed(
    typed: Seq<char>,
    rest: Seq<char>,
    space: char,
    command: Seq<char>,
)
    requires
        typed.len() > 0,
        forall|k: int| 0 <= k < typed.len() ==> !text::is_white(#[trigger] typed[k]),
        text::is_white(space),
    ensures
        slash_completed(typed, typed.len() as int, command) == (CompletedView {
            line: command + seq![' '],
            cursor: (command.len() + 1) as int,
        }),
        slash_completed(typed + seq![space] + rest, typed.len() as int, command) == (
        CompletedView { line: command + seq![space] + rest, cursor: command.len() as int }),
{
    reveal_strlit(" ");
    assert(" "@ =~= seq![' ']);
    let n = typed.len() as int;
    assert(!text::is_white(typed[0]));
    assert(text::trim_start(typed) == typed);
    no_white_from(typed, n);
    assert(typed.take(0) + (command + " "@) + typed.skip(n) =~= command + seq![' ']);
    let line = typed + seq![space] + rest;
    assert(line[0] == typed[0]);
    assert(text::trim_start(line) == line);
    assert(line[n] == space);
    assert(white_from(line, n) == Some(n));
    assert(line.take(0) + command + line.skip(n) =~= command + seq![space] + rest);
}

/// A model that is completed stands behind the command.
pub proof fn models_are_completed(typed: Seq<char>, model: Seq<char>)
    requires
        forall|k: int| 0 <= k < typed.len() ==> !text::is_white(#[trigger] typed[k]),
    ensures
        model_completed("/model "@ + typed, ("/model "@ + typed).len() as int, model) == Some(
            CompletedView {
                line: "/model "@ + model,
                cursor: ("/model "@ + model).len() as int,
            },
        ),
{
    reveal_strlit("/model ");
    let head = "/model "@;
    let line = head + typed;
    assert(line.subrange(0, head.len() as int) =~= head);
    assert(text::occurs_at(line, head, 0));
    assert(text::first_at(line, head, 0) == Some(0int));
    no_white_from(line, line.len() as int);
    assert(word_end(line, line.len() as int) == line.len());
    assert(line.take(head.len() as int) =~= head);
    assert(head + model + line.skip(line.len() as int) =~= head + model);
}

/// A path that is completed takes the place of what was typed of it, and leaves what stands
/// before and behind; behind a file a space follows where one is asked for, behind a directory
/// none.
pub proof fn paths_are_completed(
    before: Seq<char>,
    typed: Seq<char>,
    after: Seq<char>,
    item: overlay::ItemView,
    spaced: bool,
)
    requires
        !text::starts_with_char(typed, '"'),
        !text::has_prefix(typed, "@\""@),
        !text::has_suffix(item.value, "\""@),
    ensures
        ({
            let done = path_completed(
                before + typed + after,
                before.len() as int,
                (before + typed).len() as int,
                item,
                typed,
                spaced,
            );
            let space = (if spaced && !text::has_suffix(item.label, "/"@) {
                seq![' ']
            } else {
                Seq::empty()
            });
            &&& done.line == before + item.value + space + after
            &&& done.cursor == (before + item.value + space).len()
        }),
{
    reveal_strlit(" ");
    reveal_strlit("");
    assert(" "@ =~= seq![' ']);
    assert(""@ =~= Seq::<char>::empty());
    let line = before + typed + after;
    assert(line.take(before.len() as int) =~= before);
    assert(line.skip((before + typed).len() as int) =~= after);
}

/// The escape key breaks an answer off while there is one, and else empties a prompt that holds
/// something; while completions are offered, their keys come first.
pub proof fn escape_breaks_off(
    keys: KeybindingsManager,
    prompt: Seq<char>,
    event: KeyEvent,
    answering: bool,
)
    ensures
        overlay::is_plain_escape(event) ==> prompt_step(keys, false, true, prompt, event).0
            == PromptStepView::Abort,
        overlay::is_plain_escape(event) && text::trim(prompt).len() > 0 ==> prompt_step(
            keys,
            false,
            false,
            prompt,
            event,
        ).0 == PromptStepView::Clear,
        keys.autocomplete_input(event) matches Some(input) ==> prompt_step(
            keys,
            true,
            answering,
            prompt,
            event,
        ).0 == PromptStepView::Complete(input),
        !overlay::is_plain_escape(event) && !keys.calls(event, AppAction::ExternalEditor) ==> (
        keys.prompt_input(event) matches Some(input) ==> prompt_step(
            keys,
            false,
            answering,
            prompt,
            event,
        ).0 == PromptStepView::Edit(input)),
        !overlay::is_plain_escape(event) && keys.calls(event, AppAction::ExternalEditor)
            ==> prompt_step(keys, false, answering, prompt, event).0
            == PromptStepView::ExternalEditor,
{
}

/// Behind a completion the cursor stands at the same place, counted in bytes.
pub proof fn cursors_are_counted_in_bytes(done: CompletedView)
    requires
        0 <= done.cursor <= done.line.len(),
    ensures
        in_bytes(done).line == done.line,
        bytes::chars_before(done.line, in_bytes(done).cursor as nat) == Some(done.cursor),
{
    bytes::places_lead_back(done.line, done.cursor);
}

} // verus!
