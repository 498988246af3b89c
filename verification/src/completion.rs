//! Which completions are offered for a prompt, and where they go.
use vstd::prelude::*;
use crate::bytes;
use crate::bytes::count_chars_before;
use crate::editing::PromptAutocompleteKind;
use crate::text;
use crate::text::{begins_with, begins_with_char, chars_of, copy_text, holds_text, join_texts, slice_text, split_text, strip_prefix, text_upto, trimmed_start, white};

verus! {

broadcast use crate::text::group_texts;

/// What is completed: a command, the model after a command, a path, or a file that is referred to.
#[derive(Clone, Debug, PartialEq, Eq)]
pub struct CompletionRequest {
    pub kind: PromptAutocompleteKind,
    /// What stands there already.
    pub prefix: String,
}

/// What is completed, as a mathematical value.
pub struct RequestView {
    pub kind: PromptAutocompleteKind,
    pub prefix: Seq<char>,
}

/// What is completed, as a mathematical value; nothing where no completion is offered.
pub open spec fn request_view(r: Option<CompletionRequest>) -> Option<RequestView> {
    match r {
        Some(request) => Some(RequestView { kind: request.kind, prefix: request.prefix@ }),
        None => None,
    }
}

/// The part of a text behind its last white space.
pub open spec fn last_word(s: Seq<char>) -> Seq<char>
    decreases s.len(),
{
    if s.len() == 0 || text::is_white(s.last()) {
        Seq::empty()
    } else {
        last_word(s.drop_last()).push(s.last())
    }
}

/// Whether a word looks like a path: a slash stands behind its first character.
pub open spec fn looks_like_path(word: Seq<char>) -> bool {
    exists|i: int| 1 <= i < word.len() && #[trigger] word[i] == '/'
}

/// What is completed where a text stands before the cursor on its line. Commands and models are
/// completed on the first line only; paths where a word looks like one, or where they are asked
/// for.
pub open spec fn requested(before: Seq<char>, first_line: bool, forced: bool) -> Option<RequestView> {
    let start = text::trim_start(before);
    let word = last_word(before);
    if first_line && text::starts_with_char(start, '/') && last_word(start) == start {
        Some(RequestView { kind: PromptAutocompleteKind::SlashCommand, prefix: start })
    } else if first_line && text::has_prefix(start, "/model "@) {
        Some(
            RequestView {
                kind: PromptAutocompleteKind::ModelArgument,
                prefix: text::trim_start(start.skip("/model "@.len() as int)),
            },
        )
    } else if text::starts_with_char(word, '@') {
        Some(RequestView { kind: PromptAutocompleteKind::FileReference, prefix: word })
    } else if forced || looks_like_path(word) {
        Some(RequestView { kind: PromptAutocompleteKind::Path, prefix: word })
    } else {
        None
    }
}

/// The part of a text before a place on one of its lines, counted in bytes; the whole line where the
/// place is not between two of its characters, and nothing where there is no such line.
pub open spec fn before_cursor(s: Seq<char>, line: nat, col: nat) -> Seq<char> {
    let lines = text::split_on(s, '\n');
    if line >= lines.len() {
        Seq::empty()
    } else {
        match bytes::chars_before(lines[line as int], col) {
            Some(n) => lines[line as int].take(n),
            None => lines[line as int],
        }
    }
}

proof fn last_word_from(s: Seq<char>, n: int)
    requires
        0 <= n <= s.len(),
        forall|j: int| n <= j < s.len() ==> !text::is_white(#[trigger] s[j]),
        n == 0 || text::is_white(s[n - 1]),
    ensures
        last_word(s) == s.skip(n),
    decreases s.len(),
{
    if n == s.len() {
        assert(s.skip(n) =~= Seq::<char>::empty());
    } else {
        let shorter = s.drop_last();
        assert forall|j: int| n <= j < shorter.len() implies !text::is_white(
            #[trigger] shorter[j],
        ) by {
            assert(shorter[j] == s[j]);
        }
        assert(!text::is_white(s[s.len() - 1]));
        last_word_from(shorter, n);
        assert(s.skip(n) =~= shorter.skip(n).push(s.last()));
    }
}

fn find_last_word(s: &str) -> (r: String)
    ensures
        r@ == last_word(s@),
{
    let chars = chars_of(s);
    let mut n: usize = chars.len();
    while n > 0 && !white(chars[n - 1])
        invariant
            0 <= n <= chars.len(),
            chars@ == s@,
            forall|j: int| n <= j < chars@.len() ==> !text::is_white(#[trigger] s@[j]),
        decreases n,
    {
        n -= 1;
    }
    proof {
        last_word_from(s@, n as int);
        assert(s@.subrange(n as int, s@.len() as int) =~= s@.skip(n as int));
    }
    slice_text(chars.as_slice(), n, chars.len())
}

fn path_like(word: &str) -> (r: bool)
    ensures
        r == looks_like_path(word@),
{
    let chars = chars_of(word);
    let mut i: usize = 1;
    while i < chars.len()
        invariant
            1 <= i,
            chars@ == word@,
            forall|j: int| 1 <= j < i && j < chars@.len() ==> #[trigger] word@[j] != '/',
        decreases chars.len() - i,
    {
        if chars[i] == '/' {
            assert(word@[i as int] == '/');
            return true;
        }
        i += 1;
    }
    false
}

fn cut_at_cursor(s: &str, line: usize, col: usize) -> (r: String)
    ensures
        r@ == before_cursor(s@, line as nat, col as nat),
{
    let lines = split_text(s, '\n');
    assert(text::texts(lines@).len() == lines@.len());
    if line >= lines.len() {
        return String::new();
    }
    assert(text::texts(lines@)[line as int] == lines@[line as int]@);
    match count_chars_before(lines[line].as_str(), col) {
        Some(n) => text_upto(lines[line].as_str(), n),
        None => copy_text(lines[line].as_str()),
    }
}

/// What is completed in a prompt, with the cursor on a line, before a column that is counted in bytes.
pub fn completion_request(prompt_text: &str, cursor: (usize, usize), forced: bool) -> (r: Option<
    CompletionRequest,
>)
    ensures
        request_view(r) == requested(
            before_cursor(prompt_text@, cursor.0 as nat, cursor.1 as nat),
            cursor.0 == 0,
            forced,
        ),
{
    let before = cut_at_cursor(prompt_text, cursor.0, cursor.1);
    let start = trimmed_start(before.as_str());
    let word = find_last_word(before.as_str());
    let first_line = cursor.0 == 0;
    if first_line && begins_with_char(start.as_str(), '/') && text::same(
        find_last_word(start.as_str()).as_str(),
        start.as_str(),
    ) {
        return Some(
            CompletionRequest { kind: PromptAutocompleteKind::SlashCommand, prefix: start },
        );
    }
    if first_line && begins_with(start.as_str(), "/model ") {
        let rest = match strip_prefix(start.as_str(), "/model ") {
            Some(rest) => rest,
            None => String::new(),
        };
        return Some(
            CompletionRequest {
                kind: PromptAutocompleteKind::ModelArgument,
                prefix: trimmed_start(rest.as_str()),
            },
        );
    }
    if begins_with_char(word.as_str(), '@') {
        Some(CompletionRequest { kind: PromptAutocompleteKind::FileReference, prefix: word })
    } else if forced || path_like(word.as_str()) {
        Some(CompletionRequest { kind: PromptAutocompleteKind::Path, prefix: word })
    } else {
        None
    }
}

/// Whether the prompt is sent as it stands although a completion is chosen: what was typed is one
/// of the commands or models on offer.
pub fn prompt_autocomplete_should_submit_current_prompt(request: &CompletionRequest, offered: &[String]) -> (r:
    bool)
    ensures
        r == ((request.kind == PromptAutocompleteKind::SlashCommand || request.kind
            == PromptAutocompleteKind::ModelArgument) && text::texts(offered@).contains(
            request.prefix@,
        )),
{
    (request.kind == PromptAutocompleteKind::SlashCommand || request.kind
        == PromptAutocompleteKind::ModelArgument) && holds_text(offered, request.prefix.as_str())
}

/// A prompt with another text on one of its lines; the prompt itself where there is no such line.
pub open spec fn line_replaced(s: Seq<char>, line: nat, new_line: Seq<char>) -> Seq<char> {
    let lines = text::split_on(s, '\n');
    if line < lines.len() {
        text::join(lines.update(line as int, new_line), seq!['\n'])
    } else {
        s
    }
}

/// A prompt with another text on one of its lines; the prompt itself where there is no such line.
pub fn replace_prompt_line(prompt_text: &str, line: usize, new_line: &str) -> (r: String)
    ensures
        r@ == line_replaced(prompt_text@, line as nat, new_line@),
{
    let mut lines = split_text(prompt_text, '\n');
    let ghost all = text::texts(lines@);
    assert(all.len() == lines@.len());
    if line >= lines.len() {
        return copy_text(prompt_text);
    }
    lines.set(line, copy_text(new_line));
    assert(text::texts(lines@) =~= all.update(line as int, new_line@));
    proof {
        reveal_strlit("\n");
        assert("\n"@ =~= seq!['\n']);
    }
    join_texts(lines.as_slice(), "\n")
}

/// Replacing a line of a prompt leaves its other lines as they are.
pub proof fn other_lines_stay(s: Seq<char>, line: nat, new_line: Seq<char>)
    requires
        line < text::split_on(s, '\n').len(),
        !new_line.contains('\n'),
    ensures
        text::split_on(line_replaced(s, line, new_line), '\n') == text::split_on(s, '\n').update(
            line as int,
            new_line,
        ),
{
    let lines = text::split_on(s, '\n');
    let after = lines.update(line as int, new_line);
    assert forall|i: int| 0 <= i < after.len() implies !(#[trigger] after[i]).contains('\n') by {
        if i != line {
            text::split_pieces(s, '\n', i);
        }
    }
    text::split_undoes_join(after, '\n');
}

/// The last word of a text is what stands behind its last white space.
pub proof fn last_word_is_last(s: Seq<char>, space: char, word: Seq<char>)
    requires
        text::is_white(space),
        forall|k: int| 0 <= k < word.len() ==> !text::is_white(#[trigger] word[k]),
    ensures
        last_word(s + seq![space] + word) == word,
        last_word(word) == word,
    decreases word.len(),
{
    let all = s + seq![space] + word;
    if word.len() == 0 {
        assert(all.last() == space);
        assert(word =~= Seq::<char>::empty());
    } else {
        let rest = word.drop_last();
        assert forall|k: int| 0 <= k < rest.len() implies !text::is_white(#[trigger] rest[k]) by {
            assert(rest[k] == word[k]);
        }
        last_word_is_last(s, space, rest);
        assert(all.drop_last() =~= s + seq![space] + rest);
        assert(!text::is_white(word[word.len() - 1]));
        assert(rest.push(word.last()) =~= word);
    }
}

/// On the first line a word that begins with a slash asks for commands.
pub proof fn slashes_ask_for_commands(word: Seq<char>, forced: bool)
    requires
        forall|k: int| 0 <= k < word.len() ==> !text::is_white(#[trigger] word[k]),
    ensures
        requested(seq!['/'] + word, true, forced) == Some(
            RequestView { kind: PromptAutocompleteKind::SlashCommand, prefix: seq!['/'] + word },
        ),
{
    let typed = seq!['/'] + word;
    assert(typed[0] == '/');
    assert(text::trim_start(typed) == typed);
    assert forall|k: int| 0 <= k < typed.len() implies !text::is_white(#[trigger] typed[k]) by {
        if k > 0 {
            assert(typed[k] == word[k - 1]);
        }
    }
    last_word_is_last(Seq::empty(), ' ', typed);
}

/// Behind the command for a model, models are asked for.
pub proof fn models_are_asked_for(word: Seq<char>, forced: bool)
    requires
        word.len() > 0 ==> !text::is_white(word[0]),
    ensures
        requested("/model "@ + word, true, forced) == Some(
            RequestView { kind: PromptAutocompleteKind::ModelArgument, prefix: word },
        ),
{
    reveal_strlit("/model ");
    let head = "/model "@;
    let typed = head + word;
    assert(typed[0] == '/');
    assert(text::trim_start(typed) == typed);
    assert(typed.take(head.len() as int) =~= head);
    assert(typed.skip(head.len() as int) =~= word);
    assert(text::trim_start(word) == word);
    assert(last_word(typed) != typed) by {
        behind_space(typed, head.len() - 1);
    }
}

proof fn behind_space(s: Seq<char>, i: int)
    requires
        0 <= i < s.len(),
        text::is_white(s[i]),
    ensures
        last_word(s).len() < s.len() - i,
    decreases s.len(),
{
    if !text::is_white(s.last()) {
        assert(s.drop_last()[i] == s[i]);
        behind_space(s.drop_last(), i);
    }
}

/// Behind other words, a word that begins with an at sign asks for files, one with a slash in it
/// for paths, and any other for nothing unless it is forced to.
pub proof fn words_ask_for_paths(
    s: Seq<char>,
    space: char,
    word: Seq<char>,
    first_line: bool,
    forced: bool,
)
    requires
        s.len() > 0,
        !text::is_white(s[0]),
        s[0] != '/',
        text::is_white(space),
        word.len() > 0,
        forall|k: int| 0 <= k < word.len() ==> !text::is_white(#[trigger] word[k]),
    ensures
        word[0] == '@' ==> requested(s + seq![space] + word, first_line, forced) == Some(
            RequestView { kind: PromptAutocompleteKind::FileReference, prefix: word },
        ),
        word[0] != '@' && word.skip(1).contains('/') ==> requested(
            s + seq![space] + word,
            first_line,
            forced,
        ) == Some(RequestView { kind: PromptAutocompleteKind::Path, prefix: word }),
        word[0] != '@' && !word.skip(1).contains('/') ==> requested(
            s + seq![space] + word,
            first_line,
            forced,
        ) == (if forced {
            Some(RequestView { kind: PromptAutocompleteKind::Path, prefix: word })
        } else {
            None
        }),
{
    let all = s + seq![space] + word;
    last_word_is_last(s, space, word);
    assert(all[0] == s[0]);
    assert(text::trim_start(all) == all);
    reveal_strlit("/model ");
    assert(!text::has_prefix(all, "/model "@)) by {
        if all.len() >= 7 {
            assert(all.take(7)[0] == s[0]);
        }
    }
    let rest = word.skip(1);
    if rest.contains('/') {
        let k = choose|k: int| 0 <= k < rest.len() && rest[k] == '/';
        assert(word[k + 1] == '/');
        assert(looks_like_path(word));
    } else {
        assert forall|i: int| 1 <= i < word.len() implies #[trigger] word[i] != '/' by {
            assert(rest[i - 1] == word[i]);
        }
    }
}

/// What stands before the cursor is the part of its line up to there.
pub proof fn cursor_splits_its_line(
    lines: Seq<Seq<char>>,
    line: int,
    before: Seq<char>,
    after: Seq<char>,
)
    requires
        0 <= line < lines.len(),
        lines[line] == before + after,
        forall|i: int| 0 <= i < lines.len() ==> !(#[trigger] lines[i]).contains('\n'),
    ensures
        before_cursor(text::join(lines, seq!['\n']), line as nat, bytes::size(before)) == before,
{
    text::split_undoes_join(lines, '\n');
    let n = before.len() as int;
    assert(lines[line].take(n) =~= before);
    bytes::places_lead_back(lines[line], n);
}

} // verus!
