//! Differences between texts, as styled lines.
use vstd::prelude::*;
use crate::screen;
use crate::screen::{style_diff_added_line, style_diff_context_line, style_diff_highlight, style_diff_removed_line, style_subtitle, style_warning, truncate_to_width};
use crate::text;
use crate::text::{begins_with, chars_of, copy_text, replaced_char, slice_text, text_from, text_lines, text_upto, trimmed_start};

verus! {

broadcast use crate::text::group_texts;

/// Whether a piece of text is in both texts, in the old one or in the new one.
#[derive(Clone, Copy, Debug, PartialEq, Eq, Structural)]
pub enum ChangeKind {
    Equal,
    Delete,
    Insert,
}

/// A piece of text in a difference.
#[derive(Clone, Debug, PartialEq, Eq)]
pub struct WordChange {
    pub kind: ChangeKind,
    pub value: String,
}

/// The pieces of a difference, as mathematical values.
pub open spec fn change_views(changes: Seq<WordChange>) -> Seq<(ChangeKind, Seq<char>)> {
    Seq::new(changes.len(), |i: int| (changes[i].kind, changes[i].value@))
}

/// The changes between the words of two texts that `similar::TextDiff::from_words` finds, each with
/// the text that it is displayed as.
pub uninterp spec fn word_changes_of(old: Seq<char>, new: Seq<char>) -> Seq<
    (ChangeKind, Seq<char>),
>;

/// A text without its line feeds.
pub open spec fn without_feeds(s: Seq<char>) -> Seq<char>
    decreases s.len(),
{
    if s.len() == 0 {
        Seq::empty()
    } else if s.last() == '\n' {
        without_feeds(s.drop_last())
    } else {
        without_feeds(s.drop_last()).push(s.last())
    }
}

/// The pieces of a difference that are in the old text, one after the other.
pub open spec fn old_text(changes: Seq<(ChangeKind, Seq<char>)>) -> Seq<char>
    decreases changes.len(),
{
    if changes.len() == 0 {
        Seq::empty()
    } else if changes.last().0 == ChangeKind::Insert {
        old_text(changes.drop_last())
    } else {
        old_text(changes.drop_last()) + changes.last().1
    }
}

/// The pieces of a difference that are in the new text, one after the other.
pub open spec fn new_text(changes: Seq<(ChangeKind, Seq<char>)>) -> Seq<char>
    decreases changes.len(),
{
    if changes.len() == 0 {
        Seq::empty()
    } else if changes.last().0 == ChangeKind::Delete {
        new_text(changes.drop_last())
    } else {
        new_text(changes.drop_last()) + changes.last().1
    }
}

/// Whether the pieces of a difference are those of an old and of a new text, but for line feeds.
pub open spec fn tells_apart(
    changes: Seq<(ChangeKind, Seq<char>)>,
    old: Seq<char>,
    new: Seq<char>,
) -> bool {
    &&& without_feeds(old_text(changes)) == without_feeds(old)
    &&& without_feeds(new_text(changes)) == without_feeds(new)
}

/// `similar::TextDiff::from_words` compares two texts word by word, and `iter_all_changes` hands
/// the changes out in order. A change is displayed as its word or white space, with a line feed
/// after it where it does not end in one. The words that are not inserted are those of the old text,
/// and the words that are not deleted are those of the new text. Which changes there are is left to
/// the name `word_changes_of`.
#[verifier::external_body]
fn word_changes(old_content: &str, new_content: &str) -> (r: Vec<WordChange>)
    ensures
        change_views(r@) == word_changes_of(old_content@, new_content@),
        tells_apart(change_views(r@), old_content@, new_content@),
{
    similar::TextDiff::from_words(old_content, new_content)
        .iter_all_changes()
        .map(|change| WordChange {
            kind: match change.tag() {
                similar::ChangeTag::Equal => ChangeKind::Equal,
                similar::ChangeTag::Delete => ChangeKind::Delete,
                similar::ChangeTag::Insert => ChangeKind::Insert,
            },
            value: change.to_string(),
        })
        .collect()
}

/// The two sides of a changed line, with what differs highlighted.
pub struct Sides {
    pub removed: Seq<char>,
    pub added: Seq<char>,
    pub first_removed: bool,
    pub first_added: bool,
}

/// One side with a changed piece: the white space before the first changed piece is not
/// highlighted.
pub open spec fn with_change(side: Seq<char>, first: bool, value: Seq<char>) -> Seq<char> {
    let body = if first {
        text::trim_start(value)
    } else {
        value
    };
    let lead = value.take(value.len() - body.len());
    if body.len() > 0 {
        side + lead + screen::diff_highlight(body)
    } else {
        side + lead
    }
}

/// The two sides after a sequence of changes.
pub open spec fn sides_of(changes: Seq<(ChangeKind, Seq<char>)>) -> Sides
    decreases changes.len(),
{
    if changes.len() == 0 {
        Sides {
            removed: Seq::empty(),
            added: Seq::empty(),
            first_removed: true,
            first_added: true,
        }
    } else {
        let before = sides_of(changes.drop_last());
        let (kind, value) = changes.last();
        match kind {
            ChangeKind::Equal => Sides {
                removed: before.removed + value,
                added: before.added + value,
                ..before
            },
            ChangeKind::Delete => Sides {
                removed: with_change(before.removed, before.first_removed, value),
                first_removed: false,
                ..before
            },
            ChangeKind::Insert => Sides {
                added: with_change(before.added, before.first_added, value),
                first_added: false,
                ..before
            },
        }
    }
}

proof fn trim_start_is_shorter(s: Seq<char>)
    ensures
        text::trim_start(s).len() <= s.len(),
    decreases s.len(),
{
    if s.len() > 0 && text::is_white(s[0]) {
        trim_start_is_shorter(s.skip(1));
    }
}

fn add_change(side: &mut String, first: bool, value: &str)
    ensures
        final(side)@ == with_change(old(side)@, first, value@),
{
    let body = if first {
        trimmed_start(value)
    } else {
        copy_text(value)
    };
    proof {
        trim_start_is_shorter(value@);
    }
    let lead = text_upto(value, value.unicode_len() - body.as_str().unicode_len());
    side.append(lead.as_str());
    if !body.as_str().is_empty() {
        side.append(style_diff_highlight(body.as_str()).as_str());
    }
}

/// The two sides of a changed line, given the changes between its words.
pub fn intra_line_diff(changes: &[WordChange]) -> (r: (String, String))
    ensures
        r.0@ == sides_of(change_views(changes@)).removed,
        r.1@ == sides_of(change_views(changes@)).added,
{
    let ghost all = change_views(changes@);
    let mut removed = String::new();
    let mut added = String::new();
    let mut first_removed = true;
    let mut first_added = true;
    let mut i: usize = 0;
    assert(all.take(0) =~= Seq::<(ChangeKind, Seq<char>)>::empty());
    while i < changes.len()
        invariant
            0 <= i <= changes.len(),
            all == change_views(changes@),
            removed@ == sides_of(all.take(i as int)).removed,
            added@ == sides_of(all.take(i as int)).added,
            first_removed == sides_of(all.take(i as int)).first_removed,
            first_added == sides_of(all.take(i as int)).first_added,
        decreases changes.len() - i,
    {
        assert(all.take(i + 1).drop_last() =~= all.take(i as int));
        let value = changes[i].value.as_str();
        match changes[i].kind {
            ChangeKind::Equal => {
                removed.append(value);
                added.append(value);
            },
            ChangeKind::Delete => {
                add_change(&mut removed, first_removed, value);
                first_removed = false;
            },
            ChangeKind::Insert => {
                add_change(&mut added, first_added, value);
                first_added = false;
            },
        }
        i += 1;
    }
    assert(all.take(i as int) =~= all);
    (removed, added)
}

/// The two sides of a changed line, with what differs highlighted.
pub fn render_intra_line_diff(old_content: &str, new_content: &str) -> (r: (String, String))
    ensures
        r.0@ == sides_of(word_changes_of(old_content@, new_content@)).removed,
        r.1@ == sides_of(word_changes_of(old_content@, new_content@)).added,
        tells_apart(word_changes_of(old_content@, new_content@), old_content@, new_content@),
        !old_content@.contains('\x1b') && !new_content@.contains('\x1b') ==> without_feeds(
            screen::visible(r.0@),
        ) == without_feeds(old_content@) && without_feeds(screen::visible(r.1@)) == without_feeds(
            new_content@,
        ),
{
    let changes = word_changes(old_content, new_content);
    proof {
        if !old_content@.contains('\x1b') && !new_content@.contains('\x1b') {
            feeds_hide_nothing(old_text(change_views(changes@)), old_content@, '\x1b');
            feeds_hide_nothing(new_text(change_views(changes@)), new_content@, '\x1b');
            sides_show_the_texts(change_views(changes@));
        }
    }
    intra_line_diff(changes.as_slice())
}

/// A line of a difference: its mark, its number and its content.
#[derive(Clone, Debug, PartialEq, Eq)]
pub struct ParsedDiffLine {
    pub prefix: char,
    pub line_num: String,
    pub content: String,
}

/// A line of a difference, as a mathematical value.
pub struct DiffLineView {
    pub prefix: char,
    pub line_num: Seq<char>,
    pub content: Seq<char>,
}

impl View for ParsedDiffLine {
    type V = DiffLineView;

    open spec fn view(&self) -> DiffLineView {
        DiffLineView {
            prefix: self.prefix,
            line_num: self.line_num@,
            content: self.content@,
        }
    }
}

/// Whether a character can stand in a line number: a digit or ASCII white space.
pub open spec fn in_line_number(c: char) -> bool {
    '0' <= c <= '9' || c == ' ' || c == '\t' || c == '\n' || c == '\r' || c == '\x0c'
}

/// Whether a text is a line number.
pub open spec fn is_line_number(s: Seq<char>) -> bool {
    forall|i: int| 0 <= i < s.len() ==> in_line_number(#[trigger] s[i])
}

fn line_number_like(chars: &[char], from: usize, to: usize) -> (r: bool)
    requires
        from <= to <= chars@.len(),
    ensures
        r == is_line_number(chars@.subrange(from as int, to as int)),
{
    let ghost part = chars@.subrange(from as int, to as int);
    let mut i: usize = from;
    while i < to
        invariant
            from <= i <= to <= chars@.len(),
            part == chars@.subrange(from as int, to as int),
            forall|k: int| 0 <= k < i - from ==> in_line_number(#[trigger] part[k]),
        decreases to - i,
    {
        let c = chars[i];
        assert(part[i - from] == c);
        if !(('0' <= c && c <= '9') || c == ' ' || c == '\t' || c == '\n' || c == '\r' || c
            == '\x0c') {
            return false;
        }
        i += 1;
    }
    true
}

/// A text with each tab as three spaces.
pub open spec fn untabbed(s: Seq<char>) -> Seq<char> {
    text::replace_char(s, '\t', "   "@)
}

/// What a line of a difference says: a mark, a number up to the first space, and the content.
pub open spec fn diff_line_of(line: Seq<char>) -> Option<DiffLineView> {
    if line.len() == 0 || (line[0] != '+' && line[0] != '-' && line[0] != ' ') {
        None
    } else {
        match text::first_at(line, seq![' '], 1) {
            None => None,
            Some(space) => if is_line_number(line.subrange(1, space)) {
                Some(
                    DiffLineView {
                        prefix: line[0],
                        line_num: line.subrange(1, space),
                        content: untabbed(line.skip(space + 1)),
                    },
                )
            } else {
                None
            },
        }
    }
}

/// What a line of a difference says.
pub fn parse_diff_line(line: &str) -> (r: Option<ParsedDiffLine>)
    ensures
        match r {
            Some(parsed) => diff_line_of(line@) == Some(parsed@),
            None => diff_line_of(line@) is None,
        },
{
    let chars = chars_of(line);
    if chars.len() == 0 {
        return None;
    }
    let prefix = chars[0];
    if prefix != '+' && prefix != '-' && prefix != ' ' {
        return None;
    }
    let pattern = vec![' '];
    assert(pattern@ =~= seq![' ']);
    proof {
        text::first_at_is_first(chars@, seq![' '], 1);
    }
    match text::find_at(chars.as_slice(), pattern.as_slice(), 1) {
        None => None,
        Some(space) => {
            if line_number_like(chars.as_slice(), 1, space) {
                let content = text_from(line, space + 1);
                Some(
                    ParsedDiffLine {
                        prefix,
                        line_num: slice_text(chars.as_slice(), 1, space),
                        content: replaced_char(content.as_str(), '\t', "   "),
                    },
                )
            } else {
                None
            }
        },
    }
}

/// A line of a difference, written with some content.
pub open spec fn diff_line_text(parsed: DiffLineView, content: Seq<char>) -> Seq<char> {
    seq![parsed.prefix] + parsed.line_num + " "@ + content
}

/// A line of a difference, written with some content.
pub fn format_diff_line(parsed: &ParsedDiffLine, content: &str) -> (r: String)
    ensures
        r@ == diff_line_text(parsed@, content@),
{
    let mut out = String::new();
    out.push(parsed.prefix);
    assert(out@ =~= seq![parsed.prefix]);
    out.append(parsed.line_num.as_str());
    out.append(" ");
    out.append(content);
    out
}

/// A line that is no numbered line of a difference.
pub open spec fn other_line(line: Seq<char>) -> Seq<char> {
    if text::has_prefix(line, "@@"@) {
        screen::warning(line)
    } else if text::has_prefix(line, "diff --git"@) || text::has_prefix(line, "index "@)
        || text::has_prefix(line, "--- "@) || text::has_prefix(line, "+++ "@) {
        screen::subtitle(line)
    } else {
        screen::diff_context(line)
    }
}

fn render_other_line(line: &str) -> (r: String)
    ensures
        r@ == other_line(line@),
{
    if begins_with(line, "@@") {
        style_warning(line)
    } else if begins_with(line, "diff --git") || begins_with(line, "index ") || begins_with(
        line,
        "--- ",
    ) || begins_with(line, "+++ ") {
        style_subtitle(line)
    } else {
        style_diff_context_line(line)
    }
}

/// Whether line `i` is a numbered line with a mark.
pub open spec fn marked(lines: Seq<Seq<char>>, i: int, mark: char) -> bool {
    0 <= i < lines.len() && diff_line_of(lines[i]) is Some && diff_line_of(lines[i])->0.prefix
        == mark
}

/// How many lines from `i` on have a mark.
pub open spec fn run_of(lines: Seq<Seq<char>>, i: int, mark: char) -> nat
    decreases lines.len() - i,
{
    if marked(lines, i, mark) {
        1 + run_of(lines, i + 1, mark)
    } else {
        0
    }
}

proof fn run_within(lines: Seq<Seq<char>>, i: int, mark: char)
    requires
        0 <= i <= lines.len(),
    ensures
        i + run_of(lines, i, mark) <= lines.len(),
    decreases lines.len() - i,
{
    if marked(lines, i, mark) {
        run_within(lines, i + 1, mark);
    }
}

/// A removed line with some content.
pub open spec fn removed_line(line: Seq<char>, content: Seq<char>, width: nat) -> Seq<char> {
    screen::cut(screen::diff_removed(diff_line_text(diff_line_of(line)->0, content)), width)
}

/// An added line with some content.
pub open spec fn added_line(line: Seq<char>, content: Seq<char>, width: nat) -> Seq<char> {
    screen::cut(screen::diff_added(diff_line_text(diff_line_of(line)->0, content)), width)
}

/// The content of a numbered line.
pub open spec fn content_of(line: Seq<char>) -> Seq<char> {
    diff_line_of(line)->0.content
}

/// The lines from `i` on: `removed` removed ones and then `added` added ones. One line that takes
/// the place of another is shown with what differs highlighted.
pub open spec fn change_block(
    lines: Seq<Seq<char>>,
    i: int,
    removed: nat,
    added: nat,
    width: nat,
) -> Seq<Seq<char>> {
    if removed == 1 && added == 1 {
        let sides = sides_of(word_changes_of(content_of(lines[i]), content_of(lines[i + 1])));
        seq![
            removed_line(lines[i], sides.removed, width),
            added_line(lines[i + 1], sides.added, width),
        ]
    } else {
        Seq::new(removed, |k: int| removed_line(lines[i + k], content_of(lines[i + k]), width))
            + Seq::new(
            added,
            |k: int|
                added_line(
                    lines[i + removed + k],
                    content_of(lines[i + removed + k]),
                    width,
                ),
        )
    }
}

/// The lines from `i` on, as they are shown.
pub open spec fn diff_from(lines: Seq<Seq<char>>, i: int, width: nat) -> Seq<Seq<char>>
    decreases lines.len() - i,
    via diff_from_ends
{
    if i < 0 || i >= lines.len() {
        Seq::empty()
    } else if marked(lines, i, '-') {
        let removed = run_of(lines, i, '-');
        let added = run_of(lines, i + removed, '+');
        change_block(lines, i, removed, added, width) + diff_from(lines, i + removed + added, width)
    } else if marked(lines, i, '+') {
        seq![added_line(lines[i], content_of(lines[i]), width)] + diff_from(lines, i + 1, width)
    } else if let Some(parsed) = diff_line_of(lines[i]) {
        seq![screen::cut(screen::diff_context(diff_line_text(parsed, parsed.content)), width)]
            + diff_from(lines, i + 1, width)
    } else {
        seq![screen::cut(other_line(lines[i]), width)] + diff_from(lines, i + 1, width)
    }
}

#[via_fn]
proof fn diff_from_ends(lines: Seq<Seq<char>>, i: int, width: nat) {
    if 0 <= i < lines.len() && marked(lines, i, '-') {
        run_within(lines, i, '-');
        run_within(lines, i + run_of(lines, i, '-'), '+');
        assert(run_of(lines, i, '-') >= 1);
    }
}

/// A difference as styled lines: always at least one.
pub open spec fn diff_lines(diff: Seq<char>, width: nat) -> Seq<Seq<char>> {
    let lines = text::lines_of(diff).map_values(|line: Seq<char>| untabbed(line));
    let shown = diff_from(lines, 0, width);
    if shown.len() == 0 {
        seq![Seq::empty()]
    } else {
        shown
    }
}

/// The parsed lines of a difference.
spec fn parsed_lines(parsed: Seq<Option<ParsedDiffLine>>, lines: Seq<Seq<char>>) -> bool {
    &&& parsed.len() == lines.len()
    &&& forall|i: int|
        0 <= i < lines.len() ==> (match #[trigger] parsed[i] {
            Some(line) => diff_line_of(lines[i]) == Some(line@),
            None => diff_line_of(lines[i]) is None,
        })
}

fn count_run(parsed: &[Option<ParsedDiffLine>], from: usize, mark: char, lines: Ghost<
    Seq<Seq<char>>,
>) -> (r: usize)
    requires
        from <= parsed@.len(),
        parsed_lines(parsed@, lines@),
    ensures
        r == run_of(lines@, from as int, mark),
        from + r <= parsed@.len(),
        forall|k: int| from <= k < from + r ==> (#[trigger] parsed@[k]) is Some,
{
    let mut n: usize = 0;
    while n < parsed.len() - from
        invariant_except_break
            run_of(lines@, from as int, mark) == n + run_of(lines@, from + n, mark),
        invariant
            from + n <= parsed.len(),
            parsed_lines(parsed@, lines@),
            forall|k: int| from <= k < from + n ==> (#[trigger] parsed@[k]) is Some,
        ensures
            run_of(lines@, from as int, mark) == n,
        decreases parsed.len() - from - n,
    {
        let here = match &parsed[from + n] {
            Some(line) => line.prefix == mark,
            None => false,
        };
        if !here {
            break;
        }
        n += 1;
    }
    n
}

fn push_plain_run(
    out: &mut Vec<String>,
    parsed: &[Option<ParsedDiffLine>],
    from: usize,
    count: usize,
    removed: bool,
    width: usize,
    lines: Ghost<Seq<Seq<char>>>,
)
    requires
        from + count <= parsed@.len(),
        parsed_lines(parsed@, lines@),
        forall|k: int| from <= k < from + count ==> (#[trigger] parsed@[k]) is Some,
    ensures
        text::texts(final(out)@) == text::texts(old(out)@) + Seq::new(
            count as nat,
            |k: int|
                if removed {
                    removed_line(lines@[from + k], content_of(lines@[from + k]), width as nat)
                } else {
                    added_line(lines@[from + k], content_of(lines@[from + k]), width as nat)
                },
        ),
{
    let ghost before = text::texts(out@);
    let ghost shown = Seq::new(
        count as nat,
        |k: int|
            if removed {
                removed_line(lines@[from + k], content_of(lines@[from + k]), width as nat)
            } else {
                added_line(lines@[from + k], content_of(lines@[from + k]), width as nat)
            },
    );
    let mut n: usize = 0;
    assert(text::texts(out@) =~= before + shown.take(0));
    while n < count
        invariant
            0 <= n <= count,
            from + count <= parsed@.len(),
            parsed@.len() == parsed.len(),
            parsed_lines(parsed@, lines@),
            forall|k: int| from <= k < from + count ==> (#[trigger] parsed@[k]) is Some,
            shown == Seq::new(
                count as nat,
                |k: int|
                    if removed {
                        removed_line(lines@[from + k], content_of(lines@[from + k]), width as nat)
                    } else {
                        added_line(lines@[from + k], content_of(lines@[from + k]), width as nat)
                    },
            ),
            text::texts(out@) == before + shown.take(n as int),
        decreases count - n,
    {
        assert(parsed@[from + n] is Some);
        if let Some(line) = &parsed[from + n] {
            let written = format_diff_line(line, line.content.as_str());
            let styled = if removed {
                style_diff_removed_line(written.as_str())
            } else {
                style_diff_added_line(written.as_str())
            };
            out.push(truncate_to_width(styled.as_str(), width));
        }
        n += 1;
        assert(shown.take(n as int) =~= shown.take(n - 1).push(shown[n - 1]));
        assert(text::texts(out@) =~= before + shown.take(n as int));
    }
    assert(shown.take(n as int) =~= shown);
}

fn push_change_block(
    out: &mut Vec<String>,
    parsed: &[Option<ParsedDiffLine>],
    from: usize,
    removed: usize,
    added: usize,
    width: usize,
    lines: Ghost<Seq<Seq<char>>>,
)
    requires
        from + removed + added <= parsed@.len(),
        parsed_lines(parsed@, lines@),
        forall|k: int| from <= k < from + removed + added ==> (#[trigger] parsed@[k]) is Some,
    ensures
        text::texts(final(out)@) == text::texts(old(out)@) + change_block(
            lines@,
            from as int,
            removed as nat,
            added as nat,
            width as nat,
        ),
        removed == 1 && added == 1 ==> tells_apart_at(lines@, from as int),
{
    let ghost before = text::texts(out@);
    let ghost shown = change_block(
        lines@,
        from as int,
        removed as nat,
        added as nat,
        width as nat,
    );
    assert(parsed@.len() == parsed.len());
    if removed == 1 && added == 1 {
        assert(parsed@[from as int] is Some);
        assert(parsed@[from + 1] is Some);
        if let (Some(a), Some(b)) = (&parsed[from], &parsed[from + 1]) {
            let (old_side, new_side) = render_intra_line_diff(
                a.content.as_str(),
                b.content.as_str(),
            );
            let first = style_diff_removed_line(format_diff_line(a, old_side.as_str()).as_str());
            let second = style_diff_added_line(format_diff_line(b, new_side.as_str()).as_str());
            out.push(truncate_to_width(first.as_str(), width));
            out.push(truncate_to_width(second.as_str(), width));
            assert(text::texts(out@) =~= before + shown);
        }
    } else {
        push_plain_run(out, parsed, from, removed, true, width, lines);
        push_plain_run(out, parsed, from + removed, added, false, width, lines);
        assert(text::texts(out@) =~= before + shown);
    }
}

/// Whether line `i` is removed and the next one added in its place: no other removed line stands
/// before the one, and no other added line behind the other.
pub open spec fn one_for_another(lines: Seq<Seq<char>>, i: int) -> bool {
    &&& marked(lines, i, '-')
    &&& !marked(lines, i - 1, '-')
    &&& marked(lines, i + 1, '+')
    &&& !marked(lines, i + 2, '+')
}

/// Whether the words that differ between line `i` and the next one are those of the two lines.
pub open spec fn tells_apart_at(lines: Seq<Seq<char>>, i: int) -> bool {
    tells_apart(
        word_changes_of(content_of(lines[i]), content_of(lines[i + 1])),
        content_of(lines[i]),
        content_of(lines[i + 1]),
    )
}

/// Whether that holds of all lines of which one takes the place of another.
pub open spec fn all_told_apart(lines: Seq<Seq<char>>) -> bool {
    forall|i: int| #[trigger] one_for_another(lines, i) ==> tells_apart_at(lines, i)
}

/// Whether what is seen of a shown line is a line, but for line feeds, cut to a width.
pub open spec fn shows_line(shown: Seq<char>, line: Seq<char>, width: nat) -> bool {
    exists|full: Seq<char>| #[trigger]
        without_feeds(full) == without_feeds(line) && screen::visible(shown) == full.take(
            if full.len() <= width {
                full.len() as int
            } else {
                width as int
            },
        )
}

/// A difference as styled lines.
pub fn collect_diff_lines(diff: &str, width: usize) -> (r: Vec<String>)
    ensures
        text::texts(r@) == diff_lines(diff@, width as nat),
        text::lines_of(diff@).len() <= r@.len(),
        !diff@.contains('\x1b') ==> forall|k: int|
            0 <= k < text::lines_of(diff@).len() ==> shows_line(
                (#[trigger] r@[k])@,
                untabbed(text::lines_of(diff@)[k]),
                width as nat,
            ),
{
    let raw = text_lines(diff);
    let ghost lines = text::lines_of(diff@).map_values(|line: Seq<char>| untabbed(line));
    let mut rendered: Vec<String> = Vec::new();
    let mut parsed: Vec<Option<ParsedDiffLine>> = Vec::new();
    let mut k: usize = 0;
    while k < raw.len()
        invariant
            0 <= k <= raw.len(),
            text::texts(raw@) == text::lines_of(diff@),
            lines == text::lines_of(diff@).map_values(|line: Seq<char>| untabbed(line)),
            text::texts(rendered@) == lines.take(k as int),
            parsed_lines(parsed@, lines.take(k as int)),
        decreases raw.len() - k,
    {
        let line = replaced_char(raw[k].as_str(), '\t', "   ");
        assert(lines[k as int] == line@);
        let ghost before = parsed@;
        let ghost shorter = lines.take(k as int);
        parsed.push(parse_diff_line(line.as_str()));
        rendered.push(line);
        k += 1;
        proof {
            assert(lines.take(k as int) =~= shorter.push(lines[k - 1]));
            assert forall|i: int| 0 <= i < k implies (match #[trigger] parsed@[i] {
                Some(line) => diff_line_of(lines.take(k as int)[i]) == Some(line@),
                None => diff_line_of(lines.take(k as int)[i]) is None,
            }) by {
                if i < k - 1 {
                    assert(parsed@[i] == before[i]);
                    assert(shorter[i] == lines.take(k as int)[i]);
                }
            }
        }
    }
    assert(lines.take(k as int) =~= lines);
    let mut out: Vec<String> = Vec::new();
    let mut i: usize = 0;
    assert(text::texts(out@) + diff_from(lines, 0, width as nat) =~= diff_from(
        lines,
        0,
        width as nat,
    ));
    while i < rendered.len()
        invariant
            0 <= i <= rendered.len(),
            parsed@.len() == parsed.len(),
            text::texts(rendered@) == lines,
            parsed_lines(parsed@, lines),
            text::texts(out@) + diff_from(lines, i as int, width as nat) == diff_from(
                lines,
                0,
                width as nat,
            ),
            marked(lines, i as int, '-') ==> !marked(lines, i - 1, '-'),
            forall|j: int| j < i && #[trigger] one_for_another(lines, j) ==> tells_apart_at(lines, j),
        decreases rendered.len() - i,
    {
        let ghost before = text::texts(out@);
        let ghost here = i as int;
        let removed = count_run(parsed.as_slice(), i, '-', Ghost(lines));
        if removed > 0 {
            let added = count_run(parsed.as_slice(), i + removed, '+', Ghost(lines));
            push_change_block(
                &mut out,
                parsed.as_slice(),
                i,
                removed,
                added,
                width,
                Ghost(lines),
            );
            i = i + removed + added;
            proof {
                run_ends(lines, here, '-');
                run_ends(lines, here + removed, '+');
                assert forall|j: int| j < i && #[trigger] one_for_another(lines, j) implies
                    tells_apart_at(lines, j) by {
                    if j >= here {
                        pair_is_the_block(lines, here, j);
                    }
                }
                assert(!marked(lines, i as int, '-') || !marked(lines, i - 1, '-')) by {
                    if added > 0 {
                        assert(marked(lines, here + removed + (added - 1), '+'));
                    }
                }
            }
            assert(text::texts(out@) + diff_from(lines, i as int, width as nat) =~= before + (
            change_block(lines, here, removed as nat, added as nat, width as nat) + diff_from(
                lines,
                i as int,
                width as nat,
            )));
        } else {
            assert(!marked(lines, here, '-'));
            let styled = match &parsed[i] {
                Some(line) => {
                    let written = format_diff_line(line, line.content.as_str());
                    if line.prefix == '+' {
                        style_diff_added_line(written.as_str())
                    } else {
                        style_diff_context_line(written.as_str())
                    }
                },
                None => render_other_line(rendered[i].as_str()),
            };
            let shown = truncate_to_width(styled.as_str(), width);
            let ghost text_shown = shown@;
            out.push(shown);
            i += 1;
            assert(forall|j: int|
                here <= j < i && #[trigger] one_for_another(lines, j) ==> marked(lines, here, '-'));
            assert(text::texts(out@) + diff_from(lines, i as int, width as nat) =~= before + (
            seq![text_shown] + diff_from(lines, i as int, width as nat)));
        }
    }
    assert(text::texts(out@) + diff_from(lines, i as int, width as nat) =~= text::texts(out@));
    assert(all_told_apart(lines)) by {
        assert forall|j: int| #[trigger] one_for_another(lines, j) implies tells_apart_at(
            lines,
            j,
        ) by {
            assert(j < i);
        }
    }
    if out.len() == 0 {
        out.push(String::new());
        assert(text::texts(out@) =~= seq![Seq::<char>::empty()]);
    }
    proof {
        assert(text::texts(out@) == diff_lines(diff@, width as nat));
        diff_keeps_its_lines(lines, 0, width as nat);
        if !diff@.contains('\x1b') {
            assert forall|k: int| 0 <= k < text::lines_of(diff@).len() implies shows_line(
                (#[trigger] out@[k])@,
                untabbed(text::lines_of(diff@)[k]),
                width as nat,
            ) by {
                shown_lines_are_their_own(diff@, lines, width as nat, k);
                assert(text::texts(out@)[k] == out@[k]@);
            }
        }
    }
    out
}

/// A difference is shown with as many lines as it has.
pub proof fn diff_keeps_its_lines(lines: Seq<Seq<char>>, i: int, width: nat)
    requires
        0 <= i <= lines.len(),
    ensures
        diff_from(lines, i, width).len() == lines.len() - i,
    decreases lines.len() - i,
{
    if i < lines.len() {
        if marked(lines, i, '-') {
            let removed = run_of(lines, i, '-');
            run_within(lines, i, '-');
            let added = run_of(lines, i + removed, '+');
            run_within(lines, i + removed, '+');
            diff_keeps_its_lines(lines, i + removed + added, width);
        } else {
            diff_keeps_its_lines(lines, i + 1, width);
        }
    }
}

/// No line of a shown difference is wider than the width.
pub proof fn diff_lines_fit(lines: Seq<Seq<char>>, i: int, width: nat)
    requires
        0 <= i <= lines.len(),
    ensures
        forall|k: int|
            0 <= k < diff_from(lines, i, width).len() ==> screen::width_of(
                #[trigger] diff_from(lines, i, width)[k],
            ) <= width,
    decreases lines.len() - i,
{
    let shown = diff_from(lines, i, width);
    if i < lines.len() {
        let first = if marked(lines, i, '-') {
            run_of(lines, i, '-') + run_of(lines, i + run_of(lines, i, '-'), '+')
        } else {
            1
        };
        if marked(lines, i, '-') {
            run_within(lines, i, '-');
            run_within(lines, i + run_of(lines, i, '-'), '+');
        }
        diff_lines_fit(lines, i + first, width);
        let rest = diff_from(lines, i + first, width);
        assert forall|k: int| 0 <= k < shown.len() implies screen::width_of(#[trigger] shown[k])
            <= width by {
            if k < first {
                cut_lines_fit(lines, i, k, width);
            } else {
                assert(shown[k] == rest[k - first]);
            }
        }
    }
}

proof fn cut_lines_fit(lines: Seq<Seq<char>>, i: int, k: int, width: nat)
    requires
        0 <= i < lines.len(),
        0 <= k < (if marked(lines, i, '-') {
            run_of(lines, i, '-') + run_of(lines, i + run_of(lines, i, '-'), '+')
        } else {
            1
        }),
    ensures
        k < diff_from(lines, i, width).len(),
        screen::width_of(diff_from(lines, i, width)[k]) <= width,
{
    broadcast use cut_fits;

    if marked(lines, i, '-') {
        let removed = run_of(lines, i, '-');
        let added = run_of(lines, i + removed, '+');
        let block = change_block(lines, i, removed, added, width);
        assert(block.len() == removed + added);
        assert(diff_from(lines, i, width)[k] == block[k]);
    }
}

broadcast proof fn cut_fits(s: Seq<char>, n: nat)
    ensures
        screen::width_of(#[trigger] screen::cut(s, n)) <= n,
{
    screen::cut_keeps_to_width(s, n);
}

proof fn without_feeds_in_two(a: Seq<char>, b: Seq<char>)
    ensures
        without_feeds(a + b) == without_feeds(a) + without_feeds(b),
    decreases b.len(),
{
    if b.len() == 0 {
        assert(a + b =~= a);
        assert(without_feeds(a) + without_feeds(b) =~= without_feeds(a));
    } else {
        without_feeds_in_two(a, b.drop_last());
        assert((a + b).drop_last() =~= a + b.drop_last());
        assert((a + b).last() == b.last());
        assert(without_feeds(a + b) =~= without_feeds(a) + without_feeds(b));
    }
}

proof fn without_feeds_holds(s: Seq<char>, c: char)
    requires
        c != '\n',
    ensures
        without_feeds(s).contains(c) == s.contains(c),
    decreases s.len(),
{
    if s.len() > 0 {
        let front = s.drop_last();
        without_feeds_holds(front, c);
        let kept = without_feeds(front);
        let all = without_feeds(s);
        if s.contains(c) {
            let k = choose|k: int| 0 <= k < s.len() && s[k] == c;
            if k < front.len() {
                assert(front[k] == c);
                let j = choose|j: int| 0 <= j < kept.len() && kept[j] == c;
                assert(all[j] == c);
            } else {
                assert(all[kept.len() as int] == c);
            }
        }
        if all.contains(c) {
            let j = choose|j: int| 0 <= j < all.len() && all[j] == c;
            if j < kept.len() {
                assert(kept[j] == c);
                let k = choose|k: int| 0 <= k < front.len() && front[k] == c;
                assert(s[k] == c);
            } else {
                assert(s[s.len() - 1] == c);
            }
        }
    }
}

/// Two texts that differ in line feeds alone hold the same other characters.
proof fn feeds_hide_nothing(a: Seq<char>, b: Seq<char>, c: char)
    requires
        without_feeds(a) == without_feeds(b),
        c != '\n',
    ensures
        a.contains(c) == b.contains(c),
{
    without_feeds_holds(a, c);
    without_feeds_holds(b, c);
}

proof fn parts_hold(a: Seq<char>, b: Seq<char>, c: char)
    requires
        !(a + b).contains(c),
    ensures
        !a.contains(c),
        !b.contains(c),
{
    if a.contains(c) {
        let k = choose|k: int| 0 <= k < a.len() && a[k] == c;
        assert((a + b)[k] == c);
    }
    if b.contains(c) {
        let k = choose|k: int| 0 <= k < b.len() && b[k] == c;
        assert((a + b)[a.len() + k] == c);
    }
}

proof fn both_hold(a: Seq<char>, b: Seq<char>, c: char)
    requires
        !a.contains(c),
        !b.contains(c),
    ensures
        !(a + b).contains(c),
{
    if (a + b).contains(c) {
        let k = choose|k: int| 0 <= k < (a + b).len() && (a + b)[k] == c;
        if k < a.len() {
            assert(a[k] == c);
        } else {
            assert(b[k - a.len()] == c);
        }
    }
}

/// Whether what is seen of a side is a text.
spec fn is_seen_as(side: Seq<char>, s: Seq<char>) -> bool {
    &&& screen::visible(side) == s
    &&& screen::scan_from(screen::Scan::Plain, side) == screen::Scan::Plain
    &&& screen::only_styles(side)
}

proof fn plain_is_seen(s: Seq<char>)
    requires
        !s.contains('\x1b'),
    ensures
        is_seen_as(s, s),
{
    screen::plain_is_visible(s);
    screen::plain_has_no_sequences(s);
}

proof fn both_are_seen(a: Seq<char>, s: Seq<char>, b: Seq<char>, t: Seq<char>)
    requires
        is_seen_as(a, s),
        is_seen_as(b, t),
    ensures
        is_seen_as(a + b, s + t),
{
    screen::visible_adds_up(a, b);
    screen::styles_add_up(a, b);
}

proof fn trim_start_is_tail(s: Seq<char>)
    ensures
        text::trim_start(s).len() <= s.len(),
        s == s.take(s.len() - text::trim_start(s).len()) + text::trim_start(s),
    decreases s.len(),
{
    if s.len() > 0 && text::is_white(s[0]) {
        let tail = s.skip(1);
        trim_start_is_tail(tail);
        let rest = text::trim_start(tail);
        assert(s =~= s.take(s.len() - rest.len()) + rest) by {
            assert(s.skip(s.len() - rest.len()) =~= tail.skip(tail.len() - rest.len()));
            assert(tail.skip(tail.len() - rest.len()) =~= rest);
        }
    } else {
        assert(s =~= s.take(0) + s);
    }
}

proof fn change_is_seen(side: Seq<char>, s: Seq<char>, first: bool, value: Seq<char>)
    requires
        is_seen_as(side, s),
        !value.contains('\x1b'),
    ensures
        is_seen_as(with_change(side, first, value), s + value),
{
    let body = if first {
        text::trim_start(value)
    } else {
        value
    };
    trim_start_is_tail(value);
    let lead = value.take(value.len() - body.len());
    assert(value =~= lead + body);
    parts_hold(lead, body, '\x1b');
    plain_is_seen(lead);
    plain_is_seen(body);
    both_are_seen(side, s, lead, lead);
    screen::inline_codes();
    screen::styled_shows_the_text("7"@, body);
    screen::styled_is_style("7"@, body);
    both_are_seen(side + lead, s + lead, screen::diff_highlight(body), body);
    assert(s + lead + body =~= s + value);
    if body.len() == 0 {
        assert(s + lead =~= s + value);
    }
}

/// The two sides of a changed line show the old and the new text: highlighting changes nothing of what
/// is seen, and no word stands on the side that it is not in.
#[verifier::rlimit(60)]
pub proof fn sides_show_the_texts(changes: Seq<(ChangeKind, Seq<char>)>)
    requires
        !old_text(changes).contains('\x1b'),
        !new_text(changes).contains('\x1b'),
    ensures
        screen::visible(sides_of(changes).removed) == old_text(changes),
        screen::visible(sides_of(changes).added) == new_text(changes),
        screen::scan_from(screen::Scan::Plain, sides_of(changes).removed) == screen::Scan::Plain,
        screen::scan_from(screen::Scan::Plain, sides_of(changes).added) == screen::Scan::Plain,
        screen::only_styles(sides_of(changes).removed),
        screen::only_styles(sides_of(changes).added),
    decreases changes.len(),
{
    if changes.len() == 0 {
        plain_is_seen(Seq::empty());
    } else {
        let front = changes.drop_last();
        let (kind, value) = changes.last();
        if kind != ChangeKind::Insert {
            parts_hold(old_text(front), value, '\x1b');
        }
        if kind != ChangeKind::Delete {
            parts_hold(new_text(front), value, '\x1b');
        }
        sides_show_the_texts(front);
        let before = sides_of(front);
        plain_is_seen(value);
        match kind {
            ChangeKind::Equal => {
                both_are_seen(before.removed, old_text(front), value, value);
                both_are_seen(before.added, new_text(front), value, value);
            },
            ChangeKind::Delete => {
                change_is_seen(before.removed, old_text(front), before.first_removed, value);
            },
            ChangeKind::Insert => {
                change_is_seen(before.added, new_text(front), before.first_added, value);
            },
        }
    }
}

/// Where nothing differs, both sides are the text as it is, and nothing is highlighted.
pub proof fn equal_words_are_not_highlighted(changes: Seq<(ChangeKind, Seq<char>)>)
    requires
        forall|i: int| 0 <= i < changes.len() ==> (#[trigger] changes[i]).0 == ChangeKind::Equal,
    ensures
        sides_of(changes).removed == old_text(changes),
        sides_of(changes).added == old_text(changes),
        new_text(changes) == old_text(changes),
    decreases changes.len(),
{
    if changes.len() > 0 {
        let front = changes.drop_last();
        assert(forall|i: int| 0 <= i < front.len() ==> front[i] == changes[i]);
        assert(changes[changes.len() - 1] == changes.last());
        equal_words_are_not_highlighted(front);
    }
}

/// A word of one side alone is highlighted there, but for the white space that the first change
/// starts with; the other side stays as it is.
pub proof fn changed_words_are_highlighted(
    changes: Seq<(ChangeKind, Seq<char>)>,
    value: Seq<char>,
)
    requires
        value.len() > 0,
        !text::is_white(value[0]),
    ensures
        sides_of(changes.push((ChangeKind::Delete, value))).removed == sides_of(changes).removed
            + screen::diff_highlight(value),
        sides_of(changes.push((ChangeKind::Delete, value))).added == sides_of(changes).added,
        sides_of(changes.push((ChangeKind::Insert, value))).added == sides_of(changes).added
            + screen::diff_highlight(value),
        sides_of(changes.push((ChangeKind::Insert, value))).removed == sides_of(changes).removed,
{
    let deleted = changes.push((ChangeKind::Delete, value));
    let inserted = changes.push((ChangeKind::Insert, value));
    assert(deleted.drop_last() =~= changes);
    assert(inserted.drop_last() =~= changes);
    assert(text::trim_start(value) == value);
    let before = sides_of(changes);
    assert(before.removed + value.take(0) =~= before.removed);
    assert(before.added + value.take(0) =~= before.added);
}

/// A run of marked lines: each of them has the mark, and the line behind them has not.
proof fn run_ends(lines: Seq<Seq<char>>, i: int, mark: char)
    requires
        0 <= i <= lines.len(),
    ensures
        i + run_of(lines, i, mark) <= lines.len(),
        !marked(lines, i + run_of(lines, i, mark), mark),
        forall|k: int| i <= k < i + run_of(lines, i, mark) ==> #[trigger] marked(lines, k, mark),
    decreases lines.len() - i,
{
    if marked(lines, i, mark) {
        run_ends(lines, i + 1, mark);
    }
}

/// Two lines that take each other's place are a block of their own.
proof fn pair_is_the_block(lines: Seq<Seq<char>>, i: int, j: int)
    requires
        marked(lines, i, '-'),
        i <= j < i + run_of(lines, i, '-') + run_of(lines, i + run_of(lines, i, '-'), '+'),
        one_for_another(lines, j),
    ensures
        j == i,
        run_of(lines, i, '-') == 1,
        run_of(lines, i + 1, '+') == 1,
{
    let removed = run_of(lines, i, '-');
    run_ends(lines, i, '-');
    run_ends(lines, i + removed, '+');
    if j > i {
        if j < i + removed {
            assert(marked(lines, j - 1, '-'));
        } else {
            assert(marked(lines, j, '+'));
        }
    }
    if removed > 1 {
        assert(marked(lines, i + 1, '-'));
    }
    if run_of(lines, i + 1, '+') > 1 {
        assert(marked(lines, i + 2, '+'));
    }
}

proof fn line_is_written_back(line: Seq<char>)
    requires
        diff_line_of(line) is Some,
        !line.contains('\t'),
    ensures
        diff_line_text(diff_line_of(line)->0, content_of(line)) == line,
        !line.contains('\x1b') ==> !content_of(line).contains('\x1b'),
        !line.contains('\x1b') ==> !(seq![line[0]] + diff_line_of(line)->0.line_num + " "@).contains(
            '\x1b',
        ),
{
    text::first_at_is_first(line, seq![' '], 1);
    let space = text::first_at(line, seq![' '], 1)->0;
    let num = line.subrange(1, space);
    let tail = line.skip(space + 1);
    assert(line.subrange(space, space + 1)[0] == ' ');
    reveal_strlit(" ");
    assert(" "@ =~= seq![' ']);
    let head = seq![line[0]] + num + " "@;
    assert(line =~= head + tail);
    parts_hold(head, tail, '\t');
    crate::paths::nothing_replaced(tail, '\t', "   "@);
    if !line.contains('\x1b') {
        parts_hold(head, tail, '\x1b');
    }
}

/// A numbered line of a difference, read and written again, is the line.
pub proof fn numbered_lines_are_written_back(line: Seq<char>)
    requires
        diff_line_of(line) is Some,
        !line.contains('\t'),
    ensures
        diff_line_text(diff_line_of(line)->0, diff_line_of(line)->0.content) == line,
        diff_line_of(line)->0.prefix == line[0],
{
    line_is_written_back(line);
}

/// A mark, a number and a content behind a space are read as such.
pub proof fn numbered_lines_are_read(mark: char, num: Seq<char>, content: Seq<char>)
    requires
        mark == '+' || mark == '-' || mark == ' ',
        forall|i: int| 0 <= i < num.len() ==> '0' <= #[trigger] num[i] <= '9',
        !content.contains('\t'),
    ensures
        diff_line_of(seq![mark] + num + seq![' '] + content) == Some(
            DiffLineView { prefix: mark, line_num: num, content },
        ),
{
    let line = seq![mark] + num + seq![' '] + content;
    let space = num.len() as int + 1;
    assert(line[0] == mark);
    assert(line[space] == ' ');
    assert forall|j: int| 1 <= j < space implies #[trigger] line[j] != ' ' by {
        assert(line[j] == num[j - 1]);
    }
    first_space(line, space);
    assert(line.subrange(1, space) =~= num);
    assert(is_line_number(num));
    assert(line.skip(space + 1) =~= content);
    crate::paths::nothing_replaced(content, '\t', "   "@);
}

proof fn first_space(line: Seq<char>, space: int)
    requires
        1 <= space < line.len(),
        line[space] == ' ',
        forall|j: int| 1 <= j < space ==> #[trigger] line[j] != ' ',
    ensures
        text::first_at(line, seq![' '], 1) == Some(space),
{
    assert(line.subrange(space, space + 1) =~= seq![' ']);
    text::first_at_is_first(line, seq![' '], 1);
    assert(text::occurs_at(line, seq![' '], space));
    if let Some(found) = text::first_at(line, seq![' '], 1) {
        assert(line.subrange(found, found + 1)[0] == line[found]);
    }
}

/// A line that is cut after it was styled shows the beginning of what was written.
proof fn cut_line_is_shown(styled: Seq<char>, full: Seq<char>, line: Seq<char>, width: nat)
    requires
        screen::visible(styled) == full,
        without_feeds(full) == without_feeds(line),
    ensures
        shows_line(screen::cut(styled, width), line, width),
{
    screen::cut_shows_the_beginning(styled, width);
}

proof fn whole_line_is_shown(line: Seq<char>, width: nat)
    requires
        !line.contains('\x1b'),
        !line.contains('\t'),
    ensures
        shows_line(screen::cut(other_line(line), width), line, width),
        diff_line_of(line) is Some ==> shows_line(
            removed_line(line, content_of(line), width),
            line,
            width,
        ) && shows_line(added_line(line, content_of(line), width), line, width) && shows_line(
            screen::cut(
                screen::diff_context(
                    diff_line_text(diff_line_of(line)->0, diff_line_of(line)->0.content),
                ),
                width,
            ),
            line,
            width,
        ),
{
    plain_is_seen(line);
    screen::inline_codes();
    screen::styled_shows_the_text("38;2;255;255;0"@, line);
    screen::styled_shows_the_text("38;2;128;128;128"@, line);
    screen::lasting_style_shows_the_text("38;5;244"@, line);
    screen::lasting_style_shows_the_text("38;5;203"@, line);
    screen::lasting_style_shows_the_text("38;5;78"@, line);
    cut_line_is_shown(other_line(line), line, line, width);
    if diff_line_of(line) is Some {
        line_is_written_back(line);
        cut_line_is_shown(screen::diff_removed(line), line, line, width);
        cut_line_is_shown(screen::diff_added(line), line, line, width);
        cut_line_is_shown(screen::diff_context(line), line, line, width);
    }
}

/// A line with a content that was highlighted shows the line with the content that is seen.
proof fn side_is_shown(line: Seq<char>, side: Seq<char>, seen: Seq<char>, width: nat)
    requires
        diff_line_of(line) is Some,
        !line.contains('\x1b'),
        !line.contains('\t'),
        is_seen_as(side, seen),
        without_feeds(seen) == without_feeds(content_of(line)),
    ensures
        shows_line(removed_line(line, side, width), line, width),
        shows_line(added_line(line, side, width), line, width),
{
    line_is_written_back(line);
    let parsed = diff_line_of(line)->0;
    let head = seq![line[0]] + parsed.line_num + " "@;
    plain_is_seen(head);
    both_are_seen(head, head, side, seen);
    screen::inline_codes();
    screen::lasting_style_shows_the_text("38;5;203"@, head + side);
    screen::lasting_style_shows_the_text("38;5;78"@, head + side);
    without_feeds_in_two(head, seen);
    without_feeds_in_two(head, content_of(line));
    cut_line_is_shown(screen::diff_removed(head + side), head + seen, line, width);
    cut_line_is_shown(screen::diff_added(head + side), head + seen, line, width);
}

/// Each line of a block of changes is shown as itself: a removed line with its own content and an added
/// line with its own content.
#[verifier::rlimit(60)]
pub proof fn changed_lines_are_their_own(
    lines: Seq<Seq<char>>,
    i: int,
    removed: nat,
    added: nat,
    width: nat,
    k: int,
)
    requires
        0 <= i,
        i + removed + added <= lines.len(),
        forall|j: int| i <= j < i + removed + added ==> (#[trigger] diff_line_of(lines[j])) is Some,
        forall|j: int|
            0 <= j < lines.len() ==> !(#[trigger] lines[j]).contains('\x1b') && !lines[j].contains(
                '\t',
            ),
        0 <= k < removed + added,
    ensures
        removed == 1 && added == 1 ==> (tells_apart_at(lines, i) ==> shows_line(
            change_block(lines, i, removed, added, width)[k],
            lines[i + k],
            width,
        )),
        removed != 1 || added != 1 ==> shows_line(
            change_block(lines, i, removed, added, width)[k],
            lines[i + k],
            width,
        ),
{
    let line = lines[i + k];
    assert(diff_line_of(lines[i + k]) is Some);
    if removed == 1 && added == 1 {
        if tells_apart_at(lines, i) {
            assert(diff_line_of(lines[i]) is Some);
            assert(diff_line_of(lines[i + 1]) is Some);
            let old = content_of(lines[i]);
            let new = content_of(lines[i + 1]);
            let changes = word_changes_of(old, new);
            line_is_written_back(lines[i]);
            line_is_written_back(lines[i + 1]);
            feeds_hide_nothing(old_text(changes), old, '\x1b');
            feeds_hide_nothing(new_text(changes), new, '\x1b');
            sides_show_the_texts(changes);
            side_is_shown(lines[i], sides_of(changes).removed, old_text(changes), width);
            side_is_shown(lines[i + 1], sides_of(changes).added, new_text(changes), width);
        }
    } else {
        whole_line_is_shown(line, width);
        let block = change_block(lines, i, removed, added, width);
        if k < removed {
            assert(block[k] == removed_line(lines[i + k], content_of(lines[i + k]), width));
        } else {
            assert(block[k] == added_line(
                lines[i + removed + (k - removed)],
                content_of(lines[i + removed + (k - removed)]),
                width,
            ));
        }
    }
}

/// Each shown line of a difference is its own input line.
#[verifier::rlimit(60)]
pub proof fn diff_lines_are_their_own(lines: Seq<Seq<char>>, i: int, width: nat, k: int)
    requires
        0 <= i <= k < lines.len(),
        marked(lines, i, '-') ==> !marked(lines, i - 1, '-'),
        forall|j: int|
            0 <= j < lines.len() ==> !(#[trigger] lines[j]).contains('\x1b') && !lines[j].contains(
                '\t',
            ),
    ensures
        k - i < diff_from(lines, i, width).len(),
        all_told_apart(lines) ==> shows_line(diff_from(lines, i, width)[k - i], lines[k], width),
    decreases lines.len() - i,
{
    diff_keeps_its_lines(lines, i, width);
    let shown = diff_from(lines, i, width);
    if marked(lines, i, '-') {
        let removed = run_of(lines, i, '-');
        run_ends(lines, i, '-');
        let added = run_of(lines, i + removed, '+');
        run_ends(lines, i + removed, '+');
        let block = change_block(lines, i, removed, added, width);
        assert(block.len() == removed + added);
        let next = i + removed + added;
        if k < next {
            assert forall|j: int| i <= j < next implies (#[trigger] diff_line_of(lines[j])) is Some by {
                if j < i + removed {
                    assert(marked(lines, j, '-'));
                } else {
                    assert(marked(lines, j, '+'));
                }
            }
            changed_lines_are_their_own(lines, i, removed, added, width, k - i);
            assert(shown[k - i] == block[k - i]);
            if removed == 1 && added == 1 {
                assert(marked(lines, i + 1, '+'));
                assert(one_for_another(lines, i));
            }
        } else {
            if added > 0 {
                assert(marked(lines, i + removed + (added - 1), '+'));
            }
            diff_lines_are_their_own(lines, next, width, k);
            assert(shown[k - i] == diff_from(lines, next, width)[k - next]);
        }
    } else {
        whole_line_is_shown(lines[i], width);
        if k > i {
            diff_lines_are_their_own(lines, i + 1, width, k);
            assert(shown[k - i] == diff_from(lines, i + 1, width)[k - (i + 1)]);
        }
    }
}

/// Each shown line of a difference is its own input line, with tabs as spaces and cut to the width.
pub proof fn shown_lines_are_their_own(
    diff: Seq<char>,
    lines: Seq<Seq<char>>,
    width: nat,
    k: int,
)
    requires
        0 <= k < lines.len(),
        !diff.contains('\x1b'),
        lines == text::lines_of(diff).map_values(|line: Seq<char>| untabbed(line)),
    ensures
        k < diff_lines(diff, width).len(),
        all_told_apart(lines) ==> shows_line(diff_lines(diff, width)[k], lines[k], width),
{
    reveal_strlit("   ");
    assert("   "@ =~= seq![' ', ' ', ' ']);
    assert(!"   "@.contains('\x1b') && !"   "@.contains('\t'));
    assert forall|j: int| 0 <= j < lines.len() implies !(#[trigger] lines[j]).contains('\x1b')
        && !lines[j].contains('\t') by {
        let raw = text::lines_of(diff)[j];
        text::lines_hold_no_more(diff, '\x1b', j);
        text::replaced_holds_no_more(raw, '\t', "   "@, '\x1b');
        text::replaced_holds_no_more(raw, '\t', "   "@, '\t');
    }
    diff_lines_are_their_own(lines, 0, width, k);
}

} // verus!
