//! Tool calls and their results, as titles and lines.
use vstd::prelude::*;
use crate::diff;
use crate::diff::collect_diff_lines;
use crate::json;
use crate::json::{bool_under, get_in, number_under, pretty_json, text_under, Json};
use crate::markdown;
use crate::markdown::{collect_markdown_lines, lines_without_tabs};
use crate::screen;
use crate::screen::{style_code_block_line, style_dim, style_error, style_hint, style_subtitle, style_success, style_title, style_warning, truncate_to_width};
use crate::text;
use crate::text::{begins_with, begins_with_char, cat2, cat3, cat4, chars_of, copy_text, decimal_text, ends_with, find_at, same, slice_text, text_from, text_lines, text_upto, trimmed, trimmed_start, wide_decimal_text};
use crate::wrap;
use crate::wrap::wrap_with_prefix;

verus! {

broadcast use crate::text::group_texts;

fn one(line: String) -> (r: Vec<String>)
    ensures
        text::texts(r@) == seq![line@],
{
    let mut out: Vec<String> = Vec::new();
    out.push(line);
    assert(text::texts(out@) =~= seq![line@]);
    out
}

/// Lines, or one empty line where there are none.
pub open spec fn at_least_one(lines: Seq<Seq<char>>) -> Seq<Seq<char>> {
    if lines.len() == 0 {
        seq![Seq::empty()]
    } else {
        lines
    }
}

fn or_blank(lines: Vec<String>) -> (r: Vec<String>)
    ensures
        text::texts(r@) == at_least_one(text::texts(lines@)),
{
    if lines.len() == 0 {
        one(String::new())
    } else {
        lines
    }
}

/// How a line that is not empty is styled.
#[derive(Clone, Copy, Debug, PartialEq, Eq, Structural)]
pub enum LiteralStyle {
    Error,
    Dim,
    Code,
}

/// A line in a literal style.
pub open spec fn literal(style: LiteralStyle, s: Seq<char>) -> Seq<char> {
    match style {
        LiteralStyle::Error => screen::error(s),
        LiteralStyle::Dim => screen::dim(s),
        LiteralStyle::Code => screen::code_block_line(s),
    }
}

fn style_literal(style: LiteralStyle, s: &str) -> (r: String)
    ensures
        r@ == literal(style, s@),
{
    match style {
        LiteralStyle::Error => style_error(s),
        LiteralStyle::Dim => style_dim(s),
        LiteralStyle::Code => style_code_block_line(s),
    }
}

/// One line, cut and styled; an empty line stays empty.
pub open spec fn literal_line(style: LiteralStyle, line: Seq<char>, width: nat) -> Seq<char> {
    if line.len() == 0 {
        line
    } else {
        literal(style, screen::cut(line, width))
    }
}

/// Lines, each cut and styled: always at least one.
pub open spec fn styled_lines(style: LiteralStyle, lines: Seq<Seq<char>>, width: nat) -> Seq<
    Seq<char>,
> {
    at_least_one(lines.map_values(|line: Seq<char>| literal_line(style, line, width)))
}

/// Lines, each cut and styled: always at least one.
pub fn collect_styled_lines(style: LiteralStyle, lines: &[String], width: usize) -> (r: Vec<String>)
    ensures
        text::texts(r@) == styled_lines(style, text::texts(lines@), width as nat),
{
    let ghost all = text::texts(lines@).map_values(
        |line: Seq<char>| literal_line(style, line, width as nat),
    );
    let mut out: Vec<String> = Vec::new();
    let mut i: usize = 0;
    while i < lines.len()
        invariant
            0 <= i <= lines.len(),
            all == text::texts(lines@).map_values(
                |line: Seq<char>| literal_line(style, line, width as nat),
            ),
            text::texts(out@) == all.take(i as int),
        decreases lines.len() - i,
    {
        let line = lines[i].as_str();
        if line.is_empty() {
            out.push(copy_text(line));
        } else {
            out.push(style_literal(style, truncate_to_width(line, width).as_str()));
        }
        i += 1;
        assert(all.take(i as int) =~= all.take(i - 1).push(all[i - 1]));
    }
    assert(all.take(i as int) =~= all);
    or_blank(out)
}

/// The lines of a text, each cut and styled.
pub fn collect_literal_lines(s: &str, width: usize, style: LiteralStyle) -> (r: Vec<String>)
    ensures
        text::texts(r@) == styled_lines(style, markdown::untabbed_lines(s@), width as nat),
{
    collect_styled_lines(style, lines_without_tabs(s).as_slice(), width)
}

/// Lines of code, each cut and styled.
pub fn collect_code_block_lines(lines: &[String], width: usize) -> (r: Vec<String>)
    ensures
        text::texts(r@) == styled_lines(LiteralStyle::Code, text::texts(lines@), width as nat),
{
    collect_styled_lines(LiteralStyle::Code, lines, width)
}

/// `s` without the repetitions of `prefix` it starts with.
pub open spec fn strip_all(s: Seq<char>, prefix: Seq<char>) -> Seq<char>
    decreases s.len(),
{
    if prefix.len() > 0 && text::has_prefix(s, prefix) {
        strip_all(s.skip(prefix.len() as int), prefix)
    } else {
        s
    }
}

fn strip_repeated(s: &str, prefix: &str) -> (r: String)
    ensures
        r@ == strip_all(s@, prefix@),
{
    let mut rest = copy_text(s);
    let n: usize = prefix.unicode_len();
    if n == 0 {
        return rest;
    }
    while begins_with(rest.as_str(), prefix)
        invariant
            n == prefix@.len(),
            n > 0,
            strip_all(rest@, prefix@) == strip_all(s@, prefix@),
        decreases rest@.len(),
    {
        rest = text_from(rest.as_str(), n);
    }
    rest
}

/// The exit code that a status line tells.
pub open spec fn exit_note(line: Seq<char>) -> Seq<char> {
    "(exit "@ + text::trim(strip_all(line, "Exit code:"@)) + ")"@
}

/// The exit code that a status line tells.
pub fn render_exit_note(line: &str) -> (r: String)
    ensures
        r@ == exit_note(line@),
{
    let code = trimmed(strip_repeated(line, "Exit code:").as_str());
    cat3("(exit ", code.as_str(), ")")
}

/// What one line of shell output is shown as; nothing for a successful exit.
pub open spec fn bash_line(line: Seq<char>, width: nat) -> Seq<Seq<char>> {
    if line.len() == 0 {
        seq![line]
    } else if text::has_prefix(line, "Exit code: 0"@) {
        Seq::empty()
    } else if text::has_prefix(line, "Exit code:"@) {
        seq![screen::warning(screen::cut(exit_note(line), width))]
    } else if text::has_prefix(line, "Command cancelled"@) {
        seq![screen::warning(screen::cut("(cancelled)"@, width))]
    } else if text::has_prefix(line, "Full output:"@) {
        seq![screen::hint(screen::cut(line, width))]
    } else {
        seq![screen::dim(screen::cut(line, width))]
    }
}

fn render_bash_line(line: &str, width: usize) -> (r: Vec<String>)
    ensures
        text::texts(r@) == bash_line(line@, width as nat),
{
    if line.is_empty() {
        one(copy_text(line))
    } else if begins_with(line, "Exit code: 0") {
        Vec::new()
    } else if begins_with(line, "Exit code:") {
        one(style_warning(truncate_to_width(render_exit_note(line).as_str(), width).as_str()))
    } else if begins_with(line, "Command cancelled") {
        one(style_warning(truncate_to_width("(cancelled)", width).as_str()))
    } else if begins_with(line, "Full output:") {
        one(style_hint(truncate_to_width(line, width).as_str()))
    } else {
        one(style_dim(truncate_to_width(line, width).as_str()))
    }
}

/// What lines of shell output are shown as.
pub open spec fn bash_lines(lines: Seq<Seq<char>>, width: nat) -> Seq<Seq<char>>
    decreases lines.len(),
{
    if lines.len() == 0 {
        Seq::empty()
    } else {
        bash_lines(lines.drop_last(), width) + bash_line(lines.last(), width)
    }
}

/// Shell output as lines: always at least one.
pub fn collect_bash_result_lines(s: &str, width: usize) -> (r: Vec<String>)
    ensures
        text::texts(r@) == at_least_one(bash_lines(text::lines_of(s@), width as nat)),
{
    let raw = text_lines(s);
    let ghost all = text::texts(raw@);
    let mut out: Vec<String> = Vec::new();
    let mut i: usize = 0;
    assert(all.take(0) =~= Seq::<Seq<char>>::empty());
    while i < raw.len()
        invariant
            0 <= i <= raw.len(),
            all == text::texts(raw@),
            text::texts(out@) == bash_lines(all.take(i as int), width as nat),
        decreases raw.len() - i,
    {
        assert(all.take(i + 1).drop_last() =~= all.take(i as int));
        let mut more = render_bash_line(raw[i].as_str(), width);
        out.append(&mut more);
        i += 1;
    }
    assert(all.take(i as int) =~= all);
    or_blank(out)
}

/// Whether a line is a notice: it stands in brackets.
pub open spec fn is_notice(line: Seq<char>) -> bool {
    let inner = text::trim(line);
    text::starts_with_char(inner, '[') && text::has_suffix(inner, "]"@)
}

/// The notices among lines.
pub open spec fn notices_of(lines: Seq<Seq<char>>) -> Seq<Seq<char>>
    decreases lines.len(),
{
    if lines.len() == 0 {
        Seq::empty()
    } else if is_notice(lines.last()) {
        notices_of(lines.drop_last()).push(text::trim(lines.last()))
    } else {
        notices_of(lines.drop_last())
    }
}

/// The lines that are no notices, from the first one that is not empty.
pub open spec fn content_from_first(lines: Seq<Seq<char>>) -> Seq<Seq<char>>
    decreases lines.len(),
{
    if lines.len() == 0 {
        Seq::empty()
    } else {
        let before = content_from_first(lines.drop_last());
        if is_notice(lines.last()) || (lines.last().len() == 0 && before.len() == 0) {
            before
        } else {
            before.push(lines.last())
        }
    }
}

/// Lines without the empty ones at the end.
pub open spec fn without_blank_end(lines: Seq<Seq<char>>) -> Seq<Seq<char>>
    decreases lines.len(),
{
    if lines.len() > 0 && lines.last().len() == 0 {
        without_blank_end(lines.drop_last())
    } else {
        lines
    }
}

/// The lines of a text that are no notices, without empty ones at either end.
pub open spec fn content_lines(s: Seq<char>) -> Seq<Seq<char>> {
    without_blank_end(content_from_first(text::lines_of(s)))
}

/// The lines of a text that are no notices, and the notices.
pub fn split_bracket_notices(s: &str) -> (r: (Vec<String>, Vec<String>))
    ensures
        text::texts(r.0@) == content_lines(s@),
        text::texts(r.1@) == notices_of(text::lines_of(s@)),
{
    let raw = text_lines(s);
    let ghost all = text::texts(raw@);
    let mut content: Vec<String> = Vec::new();
    let mut notices: Vec<String> = Vec::new();
    let mut i: usize = 0;
    assert(all.take(0) =~= Seq::<Seq<char>>::empty());
    while i < raw.len()
        invariant
            0 <= i <= raw.len(),
            all == text::texts(raw@),
            text::texts(content@) == content_from_first(all.take(i as int)),
            text::texts(notices@) == notices_of(all.take(i as int)),
        decreases raw.len() - i,
    {
        assert(all.take(i + 1).drop_last() =~= all.take(i as int));
        let line = raw[i].as_str();
        let inner = trimmed(line);
        if begins_with_char(inner.as_str(), '[') && ends_with(inner.as_str(), "]") {
            notices.push(inner);
        } else if !line.is_empty() || content.len() > 0 {
            content.push(copy_text(line));
        }
        i += 1;
    }
    assert(all.take(i as int) =~= all);
    let ghost whole = text::texts(content@);
    let mut more = content.len() > 0 && content[content.len() - 1].as_str().is_empty();
    while more
        invariant
            more == (content@.len() > 0 && content@.last()@.len() == 0),
            without_blank_end(text::texts(content@)) == without_blank_end(whole),
        decreases content@.len(),
    {
        let ghost before = text::texts(content@);
        let _ = content.pop();
        assert(before.drop_last() =~= text::texts(content@));
        more = content.len() > 0 && content[content.len() - 1].as_str().is_empty();
    }
    (content, notices)
}

/// Lines with each notice as a hint after them.
pub open spec fn with_notices(lines: Seq<Seq<char>>, notices: Seq<Seq<char>>) -> Seq<Seq<char>> {
    lines + notices.map_values(|notice: Seq<char>| screen::hint(notice))
}

fn push_notices(lines: &mut Vec<String>, notices: &[String])
    ensures
        text::texts(final(lines)@) == with_notices(
            text::texts(old(lines)@),
            text::texts(notices@),
        ),
{
    let ghost before = text::texts(lines@);
    let ghost shown = text::texts(notices@).map_values(|notice: Seq<char>| screen::hint(notice));
    let mut i: usize = 0;
    assert(text::texts(lines@) =~= before + shown.take(0));
    while i < notices.len()
        invariant
            0 <= i <= notices.len(),
            shown == text::texts(notices@).map_values(
                |notice: Seq<char>| screen::hint(notice),
            ),
            text::texts(lines@) == before + shown.take(i as int),
        decreases notices.len() - i,
    {
        lines.push(style_hint(notices[i].as_str()));
        i += 1;
        assert(shown.take(i as int) =~= shown.take(i - 1).push(shown[i - 1]));
        assert(text::texts(lines@) =~= before + shown.take(i as int));
    }
    assert(shown.take(i as int) =~= shown);
}

/// What was read from a file, as lines.
pub open spec fn read_result(s: Seq<char>, width: nat) -> Seq<Seq<char>> {
    let content = content_lines(s);
    let lines = if content.len() == 0 {
        seq![screen::hint("No file content returned"@)]
    } else if content.len() == 1 && text::has_prefix(content[0], "Read image file ["@) {
        seq![screen::hint(content[0])]
    } else {
        styled_lines(LiteralStyle::Code, content, width)
    };
    with_notices(lines, notices_of(text::lines_of(s)))
}

/// What was read from a file, as lines.
pub fn build_read_result_lines(s: &str, width: usize) -> (r: Vec<String>)
    ensures
        text::texts(r@) == read_result(s@, width as nat),
{
    let (content, notices) = split_bracket_notices(s);
    let mut lines = if content.len() == 0 {
        one(style_hint("No file content returned"))
    } else if content.len() == 1 && begins_with(content[0].as_str(), "Read image file [") {
        one(style_hint(content[0].as_str()))
    } else {
        collect_code_block_lines(content.as_slice(), width)
    };
    push_notices(&mut lines, notices.as_slice());
    lines
}

/// What was written to a file, as lines: the error, or the content that was asked for.
pub open spec fn write_result(
    s: Seq<char>,
    content: Option<Seq<char>>,
    width: nat,
    is_error: bool,
) -> Seq<Seq<char>> {
    if is_error {
        styled_lines(LiteralStyle::Error, markdown::untabbed_lines(s), width)
    } else if content is Some && content->0.len() > 0 {
        styled_lines(LiteralStyle::Code, markdown::untabbed_lines(content->0), width)
    } else {
        Seq::empty()
    }
}

/// What was written to a file, as lines.
pub fn build_write_result_lines(s: &str, args: Option<&Json>, width: usize, is_error: bool) -> (r:
    Vec<String>)
    ensures
        text::texts(r@) == write_result(
            s@,
            json::text_in(json::member_of(json::referred(args), "content"@)),
            width as nat,
            is_error,
        ),
{
    if is_error {
        return collect_literal_lines(s, width, LiteralStyle::Error);
    }
    if let Some(content) = text_under(args, "content") {
        if !content.is_empty() {
            return collect_code_block_lines(lines_without_tabs(content).as_slice(), width);
        }
    }
    Vec::new()
}

/// What an edit answered, as lines: the error, or an answer of several lines.
pub open spec fn edit_result(s: Seq<char>, width: nat, is_error: bool) -> Seq<Seq<char>> {
    if is_error {
        styled_lines(LiteralStyle::Error, markdown::untabbed_lines(s), width)
    } else if s.contains('\n') {
        styled_lines(LiteralStyle::Code, markdown::untabbed_lines(s), width)
    } else {
        Seq::empty()
    }
}

fn holds_char(s: &str, c: char) -> (r: bool)
    ensures
        r == s@.contains(c),
{
    let v = chars_of(s);
    let mut i: usize = 0;
    while i < v.len()
        invariant
            0 <= i <= v.len(),
            v@ == s@,
            forall|k: int| 0 <= k < i ==> v@[k] != c,
        decreases v.len() - i,
    {
        if v[i] == c {
            return true;
        }
        i += 1;
    }
    false
}

/// What an edit answered, as lines.
pub fn build_edit_result_lines(s: &str, width: usize, is_error: bool) -> (r: Vec<String>)
    ensures
        text::texts(r@) == edit_result(s@, width as nat, is_error),
{
    if is_error {
        collect_literal_lines(s, width, LiteralStyle::Error)
    } else if holds_char(s, '\n') {
        collect_literal_lines(s, width, LiteralStyle::Code)
    } else {
        Vec::new()
    }
}

/// Whether all characters are digits.
pub open spec fn all_digits(s: Seq<char>) -> bool {
    forall|i: int| 0 <= i < s.len() ==> markdown::is_digit(#[trigger] s[i])
}

/// A line of search output: the file, the line number and the line, separated by `c`.
pub open spec fn found_line(line: Seq<char>, c: char) -> Option<(Seq<char>, Seq<char>, Seq<char>)> {
    match text::first_at(line, seq![c], 0) {
        None => None,
        Some(i) => match text::first_at(line, seq![c], i + 1) {
            None => None,
            Some(j) => if all_digits(line.subrange(i + 1, j)) {
                Some(
                    (line.take(i), line.subrange(i + 1, j), text::trim_start(line.skip(j + 1))),
                )
            } else {
                None
            },
        },
    }
}

/// A line of search output, taken apart.
pub struct FoundLine {
    pub path: String,
    pub number: String,
    pub body: String,
}

fn digits_between(chars: &[char], from: usize, to: usize) -> (r: bool)
    requires
        from <= to <= chars@.len(),
    ensures
        r == all_digits(chars@.subrange(from as int, to as int)),
{
    let ghost part = chars@.subrange(from as int, to as int);
    let mut i: usize = from;
    while i < to
        invariant
            from <= i <= to <= chars@.len(),
            part == chars@.subrange(from as int, to as int),
            forall|k: int| 0 <= k < i - from ==> markdown::is_digit(#[trigger] part[k]),
        decreases to - i,
    {
        let c = chars[i];
        assert(part[i - from] == c);
        if !('0' <= c && c <= '9') {
            return false;
        }
        i += 1;
    }
    true
}

/// A line of search output, taken apart at `c`.
pub fn parse_found_line(line: &str, c: char) -> (r: Option<FoundLine>)
    ensures
        match r {
            Some(found) => found_line(line@, c) == Some((found.path@, found.number@, found.body@)),
            None => found_line(line@, c) is None,
        },
{
    let chars = chars_of(line);
    let len: usize = chars.len();
    let pattern = vec![c];
    assert(pattern@ =~= seq![c]);
    proof {
        text::first_at_is_first(chars@, seq![c], 0);
    }
    let i = match find_at(chars.as_slice(), pattern.as_slice(), 0) {
        Some(i) => i,
        None => {
            return None;
        },
    };
    proof {
        text::first_at_is_first(chars@, seq![c], i + 1);
    }
    let j = match find_at(chars.as_slice(), pattern.as_slice(), i + 1) {
        Some(j) => j,
        None => {
            return None;
        },
    };
    if digits_between(chars.as_slice(), i + 1, j) {
        Some(
            FoundLine {
                path: text_upto(line, i),
                number: slice_text(chars.as_slice(), i + 1, j),
                body: trimmed_start(text_from(line, j + 1).as_str()),
            },
        )
    } else {
        None
    }
}

/// A matching line of search output: `file:number:line`.
pub fn parse_grep_match_line(line: &str) -> (r: Option<FoundLine>)
    ensures
        match r {
            Some(found) => found_line(line@, ':') == Some(
                (found.path@, found.number@, found.body@),
            ),
            None => found_line(line@, ':') is None,
        },
{
    parse_found_line(line, ':')
}

/// A line near a match in search output: `file-number-line`.
pub fn parse_grep_context_line(line: &str) -> (r: Option<FoundLine>)
    ensures
        match r {
            Some(found) => found_line(line@, '-') == Some(
                (found.path@, found.number@, found.body@),
            ),
            None => found_line(line@, '-') is None,
        },
{
    parse_found_line(line, '-')
}

/// Search output as lines, and the file of the last line.
pub struct Found {
    pub lines: Seq<Seq<char>>,
    pub path: Option<Seq<char>>,
}

/// The output with the name of a file above the lines found in it.
pub open spec fn with_path(before: Found, path: Seq<char>, width: nat) -> Seq<Seq<char>> {
    if before.path == Some(path) {
        before.lines
    } else if before.lines.len() == 0 {
        before.lines.push(screen::title(screen::cut(path, width)))
    } else {
        before.lines.push(Seq::empty()).push(screen::title(screen::cut(path, width)))
    }
}

/// The output after one more line.
pub open spec fn found_step(before: Found, line: Seq<char>, width: nat) -> Found {
    if let Some((path, number, body)) = found_line(line, ':') {
        Found {
            lines: with_path(before, path, width) + wrap::wrapped_beside(
                body,
                screen::subtitle("  "@ + number + ": "@),
                width,
            ),
            path: Some(path),
        }
    } else if let Some((path, number, body)) = found_line(line, '-') {
        Found {
            lines: with_path(before, path, width) + wrap::wrapped_beside(
                body,
                screen::hint("  "@ + number + "- "@),
                width,
            ).map_values(|shown: Seq<char>| screen::dim(shown)),
            path: Some(path),
        }
    } else {
        Found {
            lines: before.lines + styled_lines(
                LiteralStyle::Dim,
                markdown::untabbed_lines(line),
                width,
            ),
            path: before.path,
        }
    }
}

/// The output after several lines.
pub open spec fn found_in(lines: Seq<Seq<char>>, width: nat) -> Found
    decreases lines.len(),
{
    if lines.len() == 0 {
        Found { lines: Seq::empty(), path: None }
    } else {
        found_step(found_in(lines.drop_last(), width), lines.last(), width)
    }
}

/// What a search found, as lines grouped by file.
pub open spec fn grep_result(s: Seq<char>, width: nat) -> Seq<Seq<char>> {
    let content = content_lines(s);
    with_notices(
        if content.len() == 0 {
            seq![screen::hint("No matches found"@)]
        } else {
            found_in(content, width).lines
        },
        notices_of(text::lines_of(s)),
    )
}

fn push_path(lines: &mut Vec<String>, current: &Option<String>, path: &str, width: usize)
    ensures
        text::texts(final(lines)@) == with_path(
            (Found { lines: text::texts(old(lines)@), path: text::opt_text(*current) }),
            path@,
            width as nat,
        ),
{
    let known = match current {
        Some(name) => same(name.as_str(), path),
        None => false,
    };
    if !known {
        if lines.len() > 0 {
            lines.push(String::new());
        }
        lines.push(style_title(truncate_to_width(path, width).as_str()));
    }
}

fn dim_lines(lines: &[String]) -> (r: Vec<String>)
    ensures
        text::texts(r@) == text::texts(lines@).map_values(|line: Seq<char>| screen::dim(line)),
{
    let ghost all = text::texts(lines@).map_values(|line: Seq<char>| screen::dim(line));
    let mut out: Vec<String> = Vec::new();
    let mut i: usize = 0;
    while i < lines.len()
        invariant
            0 <= i <= lines.len(),
            all == text::texts(lines@).map_values(|line: Seq<char>| screen::dim(line)),
            text::texts(out@) == all.take(i as int),
        decreases lines.len() - i,
    {
        out.push(style_dim(lines[i].as_str()));
        i += 1;
        assert(all.take(i as int) =~= all.take(i - 1).push(all[i - 1]));
    }
    assert(all.take(i as int) =~= all);
    out
}

/// What a search found, as lines grouped by file.
pub fn build_grep_result_lines(s: &str, width: usize) -> (r: Vec<String>)
    ensures
        text::texts(r@) == grep_result(s@, width as nat),
{
    let (content, notices) = split_bracket_notices(s);
    let mut lines: Vec<String> = Vec::new();
    if content.len() == 0 {
        lines = one(style_hint("No matches found"));
    } else {
        let ghost all = text::texts(content@);
        let mut current: Option<String> = None;
        let mut i: usize = 0;
        assert(all.take(0) =~= Seq::<Seq<char>>::empty());
        while i < content.len()
            invariant
                0 <= i <= content.len(),
                all == text::texts(content@),
                text::texts(lines@) == found_in(all.take(i as int), width as nat).lines,
                text::opt_text(current) == found_in(all.take(i as int), width as nat).path,
            decreases content.len() - i,
        {
            assert(all.take(i + 1).drop_last() =~= all.take(i as int));
            let line = content[i].as_str();
            if let Some(found) = parse_grep_match_line(line) {
                push_path(&mut lines, &current, found.path.as_str(), width);
                let prefix = style_subtitle(cat3("  ", found.number.as_str(), ": ").as_str());
                let mut more = wrap_with_prefix(found.body.as_str(), prefix.as_str(), width);
                lines.append(&mut more);
                current = Some(found.path);
            } else if let Some(found) = parse_grep_context_line(line) {
                push_path(&mut lines, &current, found.path.as_str(), width);
                let prefix = style_hint(cat3("  ", found.number.as_str(), "- ").as_str());
                let wrapped = wrap_with_prefix(found.body.as_str(), prefix.as_str(), width);
                let mut more = dim_lines(wrapped.as_slice());
                lines.append(&mut more);
                current = Some(found.path);
            } else {
                let mut more = collect_literal_lines(line, width, LiteralStyle::Dim);
                lines.append(&mut more);
            }
            i += 1;
        }
        assert(all.take(i as int) =~= all);
    }
    push_notices(&mut lines, notices.as_slice());
    lines
}

/// An entry of a directory or of a search for files; a directory ends in a slash.
pub open spec fn entry_line(line: Seq<char>, file_style: LiteralStyle, width: nat) -> Seq<char> {
    if text::has_suffix(line, "/"@) {
        screen::title(screen::cut("dir  "@ + line, width))
    } else {
        literal(file_style, screen::cut("file "@ + line, width))
    }
}

/// Entries as lines, or a hint where there are none.
pub open spec fn entries_result(
    s: Seq<char>,
    empty: Seq<char>,
    file_style: LiteralStyle,
    width: nat,
) -> Seq<Seq<char>> {
    let content = content_lines(s);
    with_notices(
        if content.len() == 0 {
            seq![screen::hint(empty)]
        } else {
            content.map_values(|line: Seq<char>| entry_line(line, file_style, width))
        },
        notices_of(text::lines_of(s)),
    )
}

fn build_entry_lines(s: &str, empty: &str, file_style: LiteralStyle, width: usize) -> (r: Vec<
    String,
>)
    ensures
        text::texts(r@) == entries_result(s@, empty@, file_style, width as nat),
{
    let (content, notices) = split_bracket_notices(s);
    let mut lines: Vec<String> = Vec::new();
    if content.len() == 0 {
        lines = one(style_hint(empty));
    } else {
        let ghost all = text::texts(content@).map_values(
            |line: Seq<char>| entry_line(line, file_style, width as nat),
        );
        let mut i: usize = 0;
        while i < content.len()
            invariant
                0 <= i <= content.len(),
                all == text::texts(content@).map_values(
                    |line: Seq<char>| entry_line(line, file_style, width as nat),
                ),
                text::texts(lines@) == all.take(i as int),
            decreases content.len() - i,
        {
            let line = content[i].as_str();
            if ends_with(line, "/") {
                let entry = cat2("dir  ", line);
                lines.push(style_title(truncate_to_width(entry.as_str(), width).as_str()));
            } else {
                let entry = cat2("file ", line);
                lines.push(
                    style_literal(file_style, truncate_to_width(entry.as_str(), width).as_str()),
                );
            }
            i += 1;
            assert(all.take(i as int) =~= all.take(i - 1).push(all[i - 1]));
        }
        assert(all.take(i as int) =~= all);
    }
    push_notices(&mut lines, notices.as_slice());
    lines
}

/// The files that a search found, as lines.
pub fn build_find_result_lines(s: &str, width: usize) -> (r: Vec<String>)
    ensures
        text::texts(r@) == entries_result(
            s@,
            "No files found matching pattern"@,
            LiteralStyle::Code,
            width as nat,
        ),
{
    build_entry_lines(s, "No files found matching pattern", LiteralStyle::Code, width)
}

/// The entries of a directory, as lines.
pub fn build_ls_result_lines(s: &str, width: usize) -> (r: Vec<String>)
    ensures
        text::texts(r@) == entries_result(
            s@,
            "(empty directory)"@,
            LiteralStyle::Dim,
            width as nat,
        ),
{
    build_entry_lines(s, "(empty directory)", LiteralStyle::Dim, width)
}

/// A path with the home directory at its start written as a tilde.
pub open spec fn short_path(path: Seq<char>, home: Option<Seq<char>>) -> Seq<char> {
    match home {
        Some(dir) => if text::has_prefix(path, dir) {
            "~"@ + path.skip(dir.len() as int)
        } else {
            path
        },
        None => path,
    }
}

/// A path with the home directory at its start written as a tilde.
pub fn shorten_home_path(path: &str, home: &Option<String>) -> (r: String)
    ensures
        r@ == short_path(path@, text::opt_text(*home)),
{
    match home {
        Some(dir) => match text::strip_prefix(path, dir.as_str()) {
            Some(rest) => cat2("~", rest.as_str()),
            None => copy_text(path),
        },
        None => copy_text(path),
    }
}

/// The path that a tool is called with.
pub open spec fn argument_path(args: Option<Json>, home: Option<Seq<char>>) -> Option<Seq<char>> {
    match json::text_in(json::member_of(args, "path"@)) {
        Some(path) => Some(short_path(path, home)),
        None => match json::text_in(json::member_of(args, "file_path"@)) {
            Some(path) => Some(short_path(path, home)),
            None => None,
        },
    }
}

/// The path that a tool is called with.
pub fn tool_argument_path(args: Option<&Json>, home: &Option<String>) -> (r: Option<String>)
    ensures
        text::opt_text(r) == argument_path(json::referred(args), text::opt_text(*home)),
{
    match text_under(args, "path") {
        Some(path) => Some(shorten_home_path(path, home)),
        None => match text_under(args, "file_path") {
            Some(path) => Some(shorten_home_path(path, home)),
            None => None,
        },
    }
}

/// The first line that is read: one where none is given.
pub open spec fn read_offset(args: Option<Json>) -> nat {
    match json::number_in(json::member_of(args, "offset"@)) {
        Some(offset) => offset as nat,
        None => 1,
    }
}

/// The lines that are read, after the name of a file.
pub open spec fn read_range(args: Option<Json>) -> Option<Seq<char>> {
    let offset = read_offset(args);
    if args is None {
        None
    } else {
        match json::number_in(json::member_of(args, "limit"@)) {
            Some(limit) => if limit > 0 {
                Some(
                    ":"@ + text::decimal(offset) + "-"@ + text::decimal(
                        (offset + limit as nat - 1) as nat,
                    ),
                )
            } else {
                None
            },
            None => if offset > 1 {
                Some(":"@ + text::decimal(offset) + "+"@)
            } else {
                None
            },
        }
    }
}

fn offset_of(args: Option<&Json>) -> (r: u64)
    ensures
        r == read_offset(json::referred(args)),
{
    match number_under(args, "offset") {
        Some(offset) => offset,
        None => 1,
    }
}

fn last_line(offset: u64, limit: u64) -> (r: String)
    requires
        limit > 0,
    ensures
        r@ == text::decimal((offset + limit - 1) as nat),
{
    let last: u128 = offset as u128 + (limit as u128 - 1);
    wide_decimal_text(last)
}

/// The lines that are read, after the name of a file.
pub fn tool_read_range(args: Option<&Json>) -> (r: Option<String>)
    ensures
        text::opt_text(r) == read_range(json::referred(args)),
{
    if args.is_none() {
        return None;
    }
    let offset = offset_of(args);
    match number_under(args, "limit") {
        Some(limit) => if limit > 0 {
            Some(
                cat4(
                    ":",
                    decimal_text(offset).as_str(),
                    "-",
                    last_line(offset, limit).as_str(),
                ),
            )
        } else {
            None
        },
        None => if offset > 1 {
            Some(cat3(":", decimal_text(offset).as_str(), "+"))
        } else {
            None
        },
    }
}

/// A name with a path after it, where there is one.
pub open spec fn named_path(name: Seq<char>, path: Option<Seq<char>>) -> Seq<char> {
    match path {
        Some(p) => name + " "@ + p,
        None => name,
    }
}

fn name_path(name: &str, path: &Option<String>) -> (r: String)
    ensures
        r@ == named_path(name@, text::opt_text(*path)),
{
    match path {
        Some(p) => cat3(name, " ", p.as_str()),
        None => copy_text(name),
    }
}

/// The text under a name, or nothing.
pub open spec fn text_or_empty(args: Option<Json>, key: Seq<char>) -> Seq<char> {
    match json::text_in(json::member_of(args, key)) {
        Some(s) => s,
        None => Seq::empty(),
    }
}

fn text_or_nothing(args: Option<&Json>, key: &str) -> (r: String)
    ensures
        r@ == text_or_empty(json::referred(args), key@),
{
    match text_under(args, key) {
        Some(s) => copy_text(s),
        None => String::new(),
    }
}

/// The title of a tool panel.
pub open spec fn panel_title(
    tool: Seq<char>,
    args: Option<Json>,
    details: Option<Json>,
    home: Option<Seq<char>>,
) -> Seq<char> {
    let path = argument_path(args, home);
    let place = match path {
        Some(p) => p,
        None => "."@,
    };
    let pattern = text_or_empty(args, "pattern"@);
    if tool == "read"@ {
        match (path, read_range(args)) {
            (Some(p), Some(range)) => "read "@ + p + range,
            (Some(p), None) => "read "@ + p,
            _ => "read"@,
        }
    } else if tool == "write"@ {
        named_path("write"@, path)
    } else if tool == "edit"@ {
        match json::number_in(json::member_of(details, "firstChangedLine"@)) {
            Some(line) => named_path("edit"@, path) + ":"@ + text::decimal(line as nat),
            None => named_path("edit"@, path),
        }
    } else if tool == "bash"@ {
        if text_or_empty(args, "command"@).len() == 0 {
            "$"@
        } else {
            "$ "@ + screen::cut(text_or_empty(args, "command"@), 48)
        }
    } else if tool == "ls"@ {
        named_path("ls"@, path)
    } else if tool == "find"@ {
        if pattern.len() == 0 {
            "find "@ + place
        } else {
            "find "@ + screen::cut(pattern, 28) + " in "@ + place
        }
    } else if tool == "grep"@ {
        if pattern.len() == 0 {
            "grep "@ + place
        } else {
            "grep /"@ + screen::cut(pattern, 24) + "/ in "@ + place
        }
    } else {
        "Tool "@ + tool
    }
}

/// The title of a tool panel.
pub fn tool_panel_title(
    tool_name: &str,
    args: Option<&Json>,
    details: Option<&Json>,
    home: &Option<String>,
) -> (r: String)
    ensures
        r@ == panel_title(
            tool_name@,
            json::referred(args),
            json::referred(details),
            text::opt_text(*home),
        ),
{
    let path = tool_argument_path(args, home);
    let place = match &path {
        Some(p) => copy_text(p.as_str()),
        None => copy_text("."),
    };
    if same(tool_name, "read") {
        return match (&path, tool_read_range(args)) {
            (Some(p), Some(range)) => cat3("read ", p.as_str(), range.as_str()),
            (Some(p), None) => cat2("read ", p.as_str()),
            _ => copy_text("read"),
        };
    }
    if same(tool_name, "write") {
        return name_path("write", &path);
    }
    if same(tool_name, "edit") {
        let title = name_path("edit", &path);
        return match number_under(details, "firstChangedLine") {
            Some(line) => cat3(title.as_str(), ":", decimal_text(line).as_str()),
            None => title,
        };
    }
    if same(tool_name, "bash") {
        let command = text_or_nothing(args, "command");
        return if command.as_str().is_empty() {
            copy_text("$")
        } else {
            cat2("$ ", truncate_to_width(command.as_str(), 48).as_str())
        };
    }
    if same(tool_name, "ls") {
        return name_path("ls", &path);
    }
    let pattern = text_or_nothing(args, "pattern");
    if same(tool_name, "find") {
        return if pattern.as_str().is_empty() {
            cat2("find ", place.as_str())
        } else {
            cat4(
                "find ",
                truncate_to_width(pattern.as_str(), 28).as_str(),
                " in ",
                place.as_str(),
            )
        };
    }
    if same(tool_name, "grep") {
        return if pattern.as_str().is_empty() {
            cat2("grep ", place.as_str())
        } else {
            cat4(
                "grep /",
                truncate_to_width(pattern.as_str(), 24).as_str(),
                "/ in ",
                place.as_str(),
            )
        };
    }
    cat2("Tool ", tool_name)
}

/// How many lines of a tool's output are shown collapsed, and whether they are the last ones.
pub open spec fn preview_config(tool: Seq<char>) -> (nat, bool) {
    if tool == "bash"@ {
        (5, true)
    } else if tool == "ls"@ || tool == "find"@ {
        (20, false)
    } else if tool == "grep"@ {
        (15, false)
    } else {
        (10, false)
    }
}

/// How many lines of a tool's output are shown collapsed, and whether they are the last ones.
pub fn tool_preview_config(tool_name: &str) -> (r: (usize, bool))
    ensures
        (r.0 as nat, r.1) == preview_config(tool_name@),
{
    if same(tool_name, "bash") {
        (5, true)
    } else if same(tool_name, "ls") || same(tool_name, "find") {
        (20, false)
    } else if same(tool_name, "grep") {
        (15, false)
    } else {
        (10, false)
    }
}

/// A notice with a number, where the details hold one.
pub open spec fn limit_notice(details: Option<Json>, key: Seq<char>, label: Seq<char>) -> Seq<
    Seq<char>,
> {
    match json::number_in(json::member_of(details, key)) {
        Some(limit) => seq![screen::warning(label + text::decimal(limit as nat))],
        None => Seq::empty(),
    }
}

/// The notices that the details of a result give.
pub open spec fn notice_lines(details: Option<Json>) -> Seq<Seq<char>> {
    (if json::member_of(details, "truncation"@) is Some {
        seq![screen::warning("Output truncated"@)]
    } else {
        Seq::empty()
    }) + (match json::text_in(json::member_of(details, "fullOutputPath"@)) {
        Some(path) => seq![screen::hint("Full output: "@ + path)],
        None => Seq::empty(),
    }) + limit_notice(details, "entryLimitReached"@, "Entry limit reached: "@) + limit_notice(
        details,
        "resultLimitReached"@,
        "Result limit reached: "@,
    ) + limit_notice(details, "matchLimitReached"@, "Match limit reached: "@) + (
    if json::bool_in(json::member_of(details, "linesTruncated"@)) == Some(true) {
        seq![screen::warning("Some lines were truncated"@)]
    } else {
        Seq::empty()
    })
}

fn push_limit(lines: &mut Vec<String>, details: Option<&Json>, key: &str, label: &str)
    ensures
        text::texts(final(lines)@) == text::texts(old(lines)@) + limit_notice(
            json::referred(details),
            key@,
            label@,
        ),
{
    if let Some(limit) = number_under(details, key) {
        lines.push(style_warning(cat2(label, decimal_text(limit).as_str()).as_str()));
    }
}

/// The notices that the details of a result give.
pub fn tool_notice_lines(details: Option<&Json>) -> (r: Vec<String>)
    ensures
        text::texts(r@) == notice_lines(json::referred(details)),
{
    let mut lines: Vec<String> = Vec::new();
    if get_in(details, "truncation").is_some() {
        lines.push(style_warning("Output truncated"));
    }
    if let Some(path) = text_under(details, "fullOutputPath") {
        lines.push(style_hint(cat2("Full output: ", path).as_str()));
    }
    push_limit(&mut lines, details, "entryLimitReached", "Entry limit reached: ");
    push_limit(&mut lines, details, "resultLimitReached", "Result limit reached: ");
    push_limit(&mut lines, details, "matchLimitReached", "Match limit reached: ");
    let cut_off = match bool_under(details, "linesTruncated") {
        Some(b) => b,
        None => false,
    };
    if cut_off {
        lines.push(style_warning("Some lines were truncated"));
    }
    assert(text::texts(lines@) =~= notice_lines(json::referred(details)));
    lines
}

/// A JSON value together with its text.
#[derive(Debug, PartialEq, Eq)]
pub struct JsonDoc {
    pub value: Json,
    pub raw: String,
}

/// Lines, each cut and dim.
pub open spec fn dim_cut(lines: Seq<Seq<char>>, width: nat) -> Seq<Seq<char>> {
    lines.map_values(|line: Seq<char>| screen::dim(screen::cut(line, width)))
}

/// Lines of a text, each cut and dim.
pub fn dim_cut_lines(s: &str, width: usize) -> (r: Vec<String>)
    ensures
        text::texts(r@) == dim_cut(text::lines_of(s@), width as nat),
{
    let raw = text_lines(s);
    let ghost all = dim_cut(text::texts(raw@), width as nat);
    let mut out: Vec<String> = Vec::new();
    let mut i: usize = 0;
    while i < raw.len()
        invariant
            0 <= i <= raw.len(),
            all == dim_cut(text::texts(raw@), width as nat),
            text::texts(out@) == all.take(i as int),
        decreases raw.len() - i,
    {
        out.push(style_dim(truncate_to_width(raw[i].as_str(), width).as_str()));
        i += 1;
        assert(all.take(i as int) =~= all.take(i - 1).push(all[i - 1]));
    }
    assert(all.take(i as int) =~= all);
    out
}

/// A JSON value as dim lines.
pub open spec fn pretty_lines(doc: JsonDoc, width: nat) -> Seq<Seq<char>> {
    dim_cut(text::lines_of(json::indented(doc.raw@, json::pretty_json_of(doc.raw@))), width)
}

fn render_pretty_lines(doc: &JsonDoc, width: usize) -> (r: Vec<String>)
    ensures
        text::texts(r@) == pretty_lines(*doc, width as nat),
{
    dim_cut_lines(pretty_json(doc.raw.as_str()).as_str(), width)
}

/// The lines that a call asks to read.
pub open spec fn read_call(args: Json) -> Seq<Seq<char>> {
    let offset = read_offset(Some(args));
    let limit = json::number_in(json::member(args, "limit"@));
    if offset > 1 || limit is Some {
        if limit is Some && limit->0 > 0 {
            seq![
                screen::hint(
                    "lines "@ + text::decimal(offset) + "-"@ + text::decimal(
                        (offset + limit->0 as nat - 1) as nat,
                    ),
                ),
            ]
        } else {
            seq![screen::hint("lines "@ + text::decimal(offset) + "+"@)]
        }
    } else {
        Seq::empty()
    }
}

/// The lines that a call asks to read.
pub fn build_read_call_lines(args: &Json) -> (r: Vec<String>)
    ensures
        text::texts(r@) == read_call(*args),
{
    let offset = offset_of(Some(args));
    let first = decimal_text(offset);
    match number_under(Some(args), "limit") {
        Some(limit) => if limit > 0 {
            one(
                style_hint(
                    cat4("lines ", first.as_str(), "-", last_line(offset, limit).as_str()).as_str(),
                ),
            )
        } else {
            one(style_hint(cat3("lines ", first.as_str(), "+").as_str()))
        },
        None => if offset > 1 {
            one(style_hint(cat3("lines ", first.as_str(), "+").as_str()))
        } else {
            Vec::new()
        },
    }
}

/// What is said of lines that a preview leaves out.
pub open spec fn left_out(n: nat) -> Seq<char> {
    screen::hint(
        "... "@ + text::decimal(n) + " more lines (wait for tool output or ctrl+o later)"@,
    )
}

fn render_left_out(n: u128) -> (r: String)
    ensures
        r@ == left_out(n as nat),
{
    style_hint(
        cat3(
            "... ",
            wide_decimal_text(n).as_str(),
            " more lines (wait for tool output or ctrl+o later)",
        ).as_str(),
    )
}

/// What a call asks to write: its first ten lines.
pub open spec fn write_call(args: Json, width: nat) -> Seq<Seq<char>> {
    match json::text_in(json::member(args, "content"@)) {
        None => seq![screen::error("[invalid content arg - expected string]"@)],
        Some(content) => if content.len() == 0 {
            seq![screen::hint("(empty file)"@)]
        } else {
            let lines = markdown::untabbed_lines(content);
            if lines.len() > 10 {
                styled_lines(LiteralStyle::Code, lines.take(10), width).push(
                    left_out((lines.len() - 10) as nat),
                )
            } else {
                styled_lines(LiteralStyle::Code, lines, width)
            }
        },
    }
}

/// What a call asks to write.
pub fn build_write_call_lines(args: &Json, width: usize) -> (r: Vec<String>)
    ensures
        text::texts(r@) == write_call(*args, width as nat),
{
    let content = match text_under(Some(args), "content") {
        Some(content) => content,
        None => {
            return one(style_error("[invalid content arg - expected string]"));
        },
    };
    if content.is_empty() {
        return one(style_hint("(empty file)"));
    }
    let lines = lines_without_tabs(content);
    if lines.len() > 10 {
        let shown = vstd::slice::slice_subrange(lines.as_slice(), 0, 10);
        assert(text::texts(shown@) =~= text::texts(lines@).take(10));
        let mut body = collect_code_block_lines(shown, width);
        body.push(render_left_out((lines.len() - 10) as u128));
        body
    } else {
        collect_code_block_lines(lines.as_slice(), width)
    }
}

/// How many old and how many new lines a preview of an edit shows.
pub open spec fn edit_shares(old_len: nat, new_len: nat, limit: nat) -> (nat, nat) {
    let half = if limit / 2 > 1 {
        limit / 2
    } else {
        1
    };
    let bound = if old_len > 0 && new_len > 0 {
        half
    } else {
        limit
    };
    let old_take = if bound < old_len {
        bound
    } else {
        old_len
    };
    let room = if old_take < limit {
        (limit - old_take) as nat
    } else {
        0
    };
    let new_take = if room < new_len {
        room
    } else {
        new_len
    };
    if new_take == 0 && new_len > 0 && old_take > 1 {
        ((old_take - 1) as nat, 1)
    } else {
        (old_take, new_take)
    }
}

/// The first `n` lines with a mark before each.
pub open spec fn marked_lines(lines: Seq<Seq<char>>, n: nat, removed: bool, width: nat) -> Seq<
    Seq<char>,
> {
    Seq::new(
        n,
        |i: int|
            if removed {
                screen::error(screen::cut("- "@ + lines[i], width))
            } else {
                screen::success(screen::cut("+ "@ + lines[i], width))
            },
    )
}

/// A preview of an edit: old lines, new lines, and how many are left out.
pub open spec fn edit_preview(
    old_lines: Seq<Seq<char>>,
    new_lines: Seq<Seq<char>>,
    width: nat,
    limit: nat,
) -> Seq<Seq<char>> {
    let (old_take, new_take) = edit_shares(old_lines.len(), new_lines.len(), limit);
    let hidden = (old_lines.len() + new_lines.len() - old_take - new_take) as nat;
    let lines = marked_lines(old_lines, old_take, true, width) + marked_lines(
        new_lines,
        new_take,
        false,
        width,
    ) + (if hidden > 0 {
        seq![left_out(hidden)]
    } else {
        Seq::empty()
    });
    if lines.len() == 0 {
        seq![screen::hint("(no visible diff preview)"@)]
    } else {
        lines
    }
}

fn push_marked(out: &mut Vec<String>, lines: &[String], n: usize, removed: bool, width: usize)
    requires
        n <= lines@.len(),
    ensures
        text::texts(final(out)@) == text::texts(old(out)@) + marked_lines(
            text::texts(lines@),
            n as nat,
            removed,
            width as nat,
        ),
{
    let ghost before = text::texts(out@);
    let ghost shown = marked_lines(text::texts(lines@), n as nat, removed, width as nat);
    let mut i: usize = 0;
    assert(text::texts(out@) =~= before + shown.take(0));
    while i < n
        invariant
            0 <= i <= n <= lines@.len(),
            shown == marked_lines(text::texts(lines@), n as nat, removed, width as nat),
            text::texts(out@) == before + shown.take(i as int),
        decreases n - i,
    {
        if removed {
            let line = cat2("- ", lines[i].as_str());
            out.push(style_error(truncate_to_width(line.as_str(), width).as_str()));
        } else {
            let line = cat2("+ ", lines[i].as_str());
            out.push(style_success(truncate_to_width(line.as_str(), width).as_str()));
        }
        i += 1;
        assert(shown.take(i as int) =~= shown.take(i - 1).push(shown[i - 1]));
        assert(text::texts(out@) =~= before + shown.take(i as int));
    }
    assert(shown.take(i as int) =~= shown);
}

fn compute_shares(old_len: usize, new_len: usize, limit: usize) -> (r: (usize, usize))
    ensures
        (r.0 as nat, r.1 as nat) == edit_shares(old_len as nat, new_len as nat, limit as nat),
        r.0 <= old_len,
        r.1 <= new_len,
{
    let half: usize = if limit / 2 > 1 {
        limit / 2
    } else {
        1
    };
    let bound: usize = if old_len > 0 && new_len > 0 {
        half
    } else {
        limit
    };
    let old_take: usize = if bound < old_len {
        bound
    } else {
        old_len
    };
    let room: usize = if old_take < limit {
        limit - old_take
    } else {
        0
    };
    let new_take: usize = if room < new_len {
        room
    } else {
        new_len
    };
    if new_take == 0 && new_len > 0 && old_take > 1 {
        (old_take - 1, 1)
    } else {
        (old_take, new_take)
    }
}

/// A preview of an edit: old lines, new lines, and how many are left out.
pub fn collect_edit_call_preview_lines(
    old_text: &str,
    new_text: &str,
    width: usize,
    preview_limit: usize,
) -> (r: Vec<String>)
    ensures
        text::texts(r@) == edit_preview(
            markdown::untabbed_lines(old_text@),
            markdown::untabbed_lines(new_text@),
            width as nat,
            preview_limit as nat,
        ),
{
    let old_lines = lines_without_tabs(old_text);
    let new_lines = lines_without_tabs(new_text);
    let (old_take, new_take) = compute_shares(old_lines.len(), new_lines.len(), preview_limit);
    let mut lines: Vec<String> = Vec::new();
    push_marked(&mut lines, old_lines.as_slice(), old_take, true, width);
    push_marked(&mut lines, new_lines.as_slice(), new_take, false, width);
    let hidden: u128 = (old_lines.len() - old_take) as u128 + (new_lines.len() - new_take) as u128;
    if hidden > 0 {
        lines.push(render_left_out(hidden));
    }
    if lines.len() == 0 {
        return one(style_hint("(no visible diff preview)"));
    }
    assert(text::texts(lines@) =~= edit_preview(
        markdown::untabbed_lines(old_text@),
        markdown::untabbed_lines(new_text@),
        width as nat,
        preview_limit as nat,
    ));
    lines
}

/// A preview of an edit with something to show shows no more lines than its limit, and one of each
/// side that has lines.
pub proof fn edit_shares_keep_to_limit(old_len: nat, new_len: nat, limit: nat)
    requires
        limit >= 2,
    ensures
        ({
            let (old_take, new_take) = edit_shares(old_len, new_len, limit);
            &&& old_take <= old_len
            &&& new_take <= new_len
            &&& old_take + new_take <= limit
            &&& old_len > 0 ==> old_take > 0
            &&& new_len > 0 ==> new_take > 0
        }),
{
}

/// What a call asks to edit.
pub open spec fn edit_call(doc: JsonDoc, width: nat) -> Seq<Seq<char>> {
    match (
        json::text_in(json::member(doc.value, "oldText"@)),
        json::text_in(json::member(doc.value, "newText"@)),
    ) {
        (Some(old_text), Some(new_text)) => edit_preview(
            markdown::untabbed_lines(old_text),
            markdown::untabbed_lines(new_text),
            width,
            8,
        ),
        _ => pretty_lines(doc, width),
    }
}

/// What a call asks to edit.
pub fn build_edit_call_lines(doc: &JsonDoc, width: usize) -> (r: Vec<String>)
    ensures
        text::texts(r@) == edit_call(*doc, width as nat),
{
    match (text_under(Some(&doc.value), "oldText"), text_under(Some(&doc.value), "newText")) {
        (Some(old_text), Some(new_text)) => collect_edit_call_preview_lines(
            old_text,
            new_text,
            width,
            8,
        ),
        _ => render_pretty_lines(doc, width),
    }
}

/// The body of a tool call.
pub open spec fn call_body(tool: Seq<char>, doc: JsonDoc, width: nat) -> Seq<Seq<char>> {
    if tool == "write"@ {
        write_call(doc.value, width)
    } else if tool == "edit"@ {
        edit_call(doc, width)
    } else if tool == "read"@ {
        read_call(doc.value)
    } else {
        pretty_lines(doc, width)
    }
}

/// The body of a tool call.
pub fn build_tool_call_body(tool_name: &str, doc: &JsonDoc, width: usize) -> (r: Vec<String>)
    ensures
        text::texts(r@) == call_body(tool_name@, *doc, width as nat),
{
    if same(tool_name, "write") {
        build_write_call_lines(&doc.value, width)
    } else if same(tool_name, "edit") {
        build_edit_call_lines(doc, width)
    } else if same(tool_name, "read") {
        build_read_call_lines(&doc.value)
    } else {
        render_pretty_lines(doc, width)
    }
}

/// A block of content.
#[derive(Clone, Debug, PartialEq, Eq)]
pub enum ContentBlock {
    Text(String),
    Image { mime_type: String, data: String },
}

/// An image to show: its type and its data.
#[derive(Clone, Debug, PartialEq, Eq)]
pub struct ImageRef {
    pub mime_type: String,
    pub data: Option<String>,
}

/// Images, as mathematical values.
pub open spec fn image_views(images: Seq<ImageRef>) -> Seq<(Seq<char>, Option<Seq<char>>)> {
    Seq::new(images.len(), |i: int| (images[i].mime_type@, text::opt_text(images[i].data)))
}

/// The result of a tool.
#[derive(Debug, PartialEq, Eq)]
pub struct ToolResult {
    pub tool_call_id: String,
    pub tool_name: String,
    pub content: Vec<ContentBlock>,
    pub details: Option<Json>,
    pub is_error: bool,
}

/// The text of a tool's result, as lines.
pub open spec fn result_text(
    tool: Seq<char>,
    s: Seq<char>,
    args: Option<Json>,
    is_error: bool,
    width: nat,
) -> Seq<Seq<char>> {
    if tool == "read"@ {
        read_result(s, width)
    } else if tool == "write"@ {
        write_result(
            s,
            json::text_in(json::member_of(args, "content"@)),
            width,
            is_error,
        )
    } else if tool == "edit"@ {
        edit_result(s, width, is_error)
    } else if tool == "grep"@ {
        grep_result(s, width)
    } else if tool == "find"@ {
        entries_result(s, "No files found matching pattern"@, LiteralStyle::Code, width)
    } else if tool == "ls"@ {
        entries_result(s, "(empty directory)"@, LiteralStyle::Dim, width)
    } else if tool == "bash"@ {
        at_least_one(bash_lines(text::lines_of(s), width))
    } else if is_error {
        styled_lines(LiteralStyle::Error, markdown::untabbed_lines(s), width)
    } else {
        markdown::markdown(s, width)
    }
}

fn render_result_text(tool: &str, s: &str, args: Option<&Json>, is_error: bool, width: usize) -> (r:
    Vec<String>)
    ensures
        text::texts(r@) == result_text(
            tool@,
            s@,
            json::referred(args),
            is_error,
            width as nat,
        ),
{
    if same(tool, "read") {
        build_read_result_lines(s, width)
    } else if same(tool, "write") {
        build_write_result_lines(s, args, width, is_error)
    } else if same(tool, "edit") {
        build_edit_result_lines(s, width, is_error)
    } else if same(tool, "grep") {
        build_grep_result_lines(s, width)
    } else if same(tool, "find") {
        build_find_result_lines(s, width)
    } else if same(tool, "ls") {
        build_ls_result_lines(s, width)
    } else if same(tool, "bash") {
        collect_bash_result_lines(s, width)
    } else if is_error {
        collect_literal_lines(s, width, LiteralStyle::Error)
    } else {
        collect_markdown_lines(s, width)
    }
}

/// The lines of a result's text blocks.
pub open spec fn result_blocks(
    tool: Seq<char>,
    blocks: Seq<ContentBlock>,
    args: Option<Json>,
    is_error: bool,
    width: nat,
) -> Seq<Seq<char>>
    decreases blocks.len(),
{
    if blocks.len() == 0 {
        Seq::empty()
    } else {
        let before = result_blocks(tool, blocks.drop_last(), args, is_error, width);
        match blocks.last() {
            ContentBlock::Text(s) => before + result_text(tool, s@, args, is_error, width),
            ContentBlock::Image { .. } => before,
        }
    }
}

/// The images among blocks of content.
pub open spec fn images_in(blocks: Seq<ContentBlock>) -> Seq<(Seq<char>, Option<Seq<char>>)>
    decreases blocks.len(),
{
    if blocks.len() == 0 {
        Seq::empty()
    } else {
        let before = images_in(blocks.drop_last());
        match blocks.last() {
            ContentBlock::Text(_) => before,
            ContentBlock::Image { mime_type, data } => before.push((mime_type@, Some(data@))),
        }
    }
}

/// The title, the body and the images of a result. Where the details hold a difference, that is the
/// body.
pub open spec fn result_body(result: ToolResult, args: Option<Json>, width: nat) -> (
    Seq<Seq<char>>,
    Seq<(Seq<char>, Option<Seq<char>>)>,
) {
    match json::text_in(json::member_of(result.details, "diff"@)) {
        Some(change) => (diff::diff_lines(change, width), Seq::empty()),
        None => (
            result_blocks(
                result.tool_name@,
                result.content@,
                args,
                result.is_error,
                width,
            ),
            images_in(result.content@),
        ),
    }
}

/// The parts of a tool panel.
pub struct ToolPanel {
    pub title: String,
    pub body: Vec<String>,
    pub images: Vec<ImageRef>,
}

/// The optional value behind a reference.
pub fn details_of(details: &Option<Json>) -> (r: Option<&Json>)
    ensures
        json::referred(r) == *details,
{
    match details {
        Some(value) => Some(value),
        None => None,
    }
}

/// The title, the body and the images of a result.
pub fn build_tool_result_panel(
    result: &ToolResult,
    args: Option<&Json>,
    width: usize,
    home: &Option<String>,
) -> (r: ToolPanel)
    ensures
        r.title@ == panel_title(
            result.tool_name@,
            json::referred(args),
            result.details,
            text::opt_text(*home),
        ),
        (text::texts(r.body@), image_views(r.images@)) == result_body(
            *result,
            json::referred(args),
            width as nat,
        ),
{
    let details = details_of(&result.details);
    let title = tool_panel_title(result.tool_name.as_str(), args, details, home);
    let mut images: Vec<ImageRef> = Vec::new();
    assert(image_views(images@) =~= Seq::empty());
    if let Some(change) = text_under(details, "diff") {
        let body = collect_diff_lines(change, width);
        return ToolPanel { title, body, images };
    }
    let ghost all = result.content@;
    let ghost given = json::referred(args);
    let mut body: Vec<String> = Vec::new();
    let mut i: usize = 0;
    assert(all.take(0) =~= Seq::<ContentBlock>::empty());
    while i < result.content.len()
        invariant
            0 <= i <= result.content.len(),
            all == result.content@,
            given == json::referred(args),
            text::texts(body@) == result_blocks(
                result.tool_name@,
                all.take(i as int),
                given,
                result.is_error,
                width as nat,
            ),
            image_views(images@) == images_in(all.take(i as int)),
        decreases result.content.len() - i,
    {
        assert(all.take(i + 1).drop_last() =~= all.take(i as int));
        let ghost before = image_views(images@);
        match &result.content[i] {
            ContentBlock::Text(s) => {
                let mut more = render_result_text(
                    result.tool_name.as_str(),
                    s.as_str(),
                    args,
                    result.is_error,
                    width,
                );
                body.append(&mut more);
            },
            ContentBlock::Image { mime_type, data } => {
                images.push(
                    ImageRef {
                        mime_type: copy_text(mime_type.as_str()),
                        data: Some(copy_text(data.as_str())),
                    },
                );
                assert(image_views(images@) =~= before.push((mime_type@, Some(data@))));
            },
        }
        i += 1;
    }
    assert(all.take(i as int) =~= all);
    ToolPanel { title, body, images }
}

/// The beginning of a text that fits a width.
pub open spec fn beginning(s: Seq<char>, width: nat) -> Seq<char> {
    s.take(
        if s.len() <= width {
            s.len() as int
        } else {
            width as int
        },
    )
}

proof fn literal_is_seen(style: LiteralStyle, s: Seq<char>, width: nat)
    requires
        !s.contains('\x1b'),
    ensures
        screen::visible(literal(style, screen::cut(s, width))) == beginning(s, width),
        screen::visible(screen::title(screen::cut(s, width))) == beginning(s, width),
        screen::visible(screen::warning(screen::cut(s, width))) == beginning(s, width),
        screen::visible(screen::hint(screen::cut(s, width))) == beginning(s, width),
        screen::visible(screen::error(screen::cut(s, width))) == beginning(s, width),
        screen::visible(screen::success(screen::cut(s, width))) == beginning(s, width),
        screen::visible(screen::dim(screen::cut(s, width))) == beginning(s, width),
{
    let shown = screen::cut(s, width);
    screen::plain_is_visible(s);
    screen::cut_shows_the_beginning(s, width);
    screen::cut_keeps_to_width(s, width);
    screen::inline_codes();
    screen::other_codes();
    screen::styled_shows_the_text("1;38;2;204;102;102"@, shown);
    screen::styled_shows_the_text("38;2;102;102;102"@, shown);
    screen::styled_shows_the_text("38;5;114"@, shown);
    screen::styled_shows_the_text("1;38;2;129;162;190"@, shown);
    screen::styled_shows_the_text("38;2;255;255;0"@, shown);
    screen::styled_shows_the_text("38;2;128;128;128"@, shown);
    screen::styled_shows_the_text("38;2;181;189;104"@, shown);
}

/// Output is shown line by line: as many lines as there are, and each is its own line cut to the width.
pub proof fn output_lines_are_their_own(
    style: LiteralStyle,
    lines: Seq<Seq<char>>,
    width: nat,
    i: int,
)
    requires
        0 <= i < lines.len(),
        !lines[i].contains('\x1b'),
    ensures
        styled_lines(style, lines, width).len() == lines.len(),
        screen::visible(styled_lines(style, lines, width)[i]) == beginning(lines[i], width),
{
    literal_is_seen(style, lines[i], width);
    if lines[i].len() == 0 {
        screen::plain_is_visible(lines[i]);
        assert(beginning(lines[i], width) =~= lines[i]);
    }
}

/// The output of a shell command is shown line by line.
pub proof fn bash_lines_in_two(a: Seq<Seq<char>>, b: Seq<Seq<char>>, width: nat)
    ensures
        bash_lines(a + b, width) == bash_lines(a, width) + bash_lines(b, width),
    decreases b.len(),
{
    if b.len() == 0 {
        assert(a + b =~= a);
        assert(bash_lines(a, width) + bash_lines(b, width) =~= bash_lines(a, width));
    } else {
        bash_lines_in_two(a, b.drop_last(), width);
        assert((a + b).drop_last() =~= a + b.drop_last());
        assert((a + b).last() == b.last());
        assert(bash_lines(a + b, width) =~= bash_lines(a, width) + bash_lines(b, width));
    }
}

/// A line of the output of a shell command that is no note on how it ended is shown as it is, cut to
/// the width.
pub proof fn bash_output_is_shown(line: Seq<char>, width: nat)
    requires
        line.len() > 0,
        line[0] != 'E',
        line[0] != 'C',
        !line.contains('\x1b'),
    ensures
        bash_line(line, width).len() == 1,
        screen::visible(bash_line(line, width)[0]) == beginning(line, width),
{
    reveal_strlit("Exit code: 0");
    reveal_strlit("Exit code:");
    reveal_strlit("Command cancelled");
    reveal_strlit("Full output:");
    assert("Exit code: 0"@[0] == 'E' && "Exit code:"@[0] == 'E' && "Command cancelled"@[0] == 'C');
    starts_with_first(line, "Exit code: 0"@);
    starts_with_first(line, "Exit code:"@);
    starts_with_first(line, "Command cancelled"@);
    literal_is_seen(LiteralStyle::Dim, line, width);
}

proof fn starts_with_first(s: Seq<char>, prefix: Seq<char>)
    requires
        prefix.len() > 0,
    ensures
        text::has_prefix(s, prefix) ==> s.len() > 0 && s[0] == prefix[0],
{
    if text::has_prefix(s, prefix) {
        assert(s.take(prefix.len() as int)[0] == s[0]);
    }
}

/// How a shell command ended is noted with its code, unless it ended well: then nothing is noted.
pub proof fn exit_codes_are_noted(code: Seq<char>, width: nat)
    requires
        code.len() > 0,
        forall|i: int| 0 <= i < code.len() ==> markdown::is_digit(#[trigger] code[i]),
        width >= code.len() + 7,
    ensures
        code[0] == '0' ==> bash_line("Exit code: "@ + code, width).len() == 0,
        code[0] != '0' ==> bash_line("Exit code: "@ + code, width).len() == 1 && screen::visible(
            bash_line("Exit code: "@ + code, width)[0],
        ) == "(exit "@ + code + ")"@,
{
    reveal_strlit("Exit code: ");
    reveal_strlit("Exit code: 0");
    reveal_strlit("Exit code:");
    reveal_strlit("(exit ");
    reveal_strlit(")");
    let line = "Exit code: "@ + code;
    assert(markdown::is_digit(code[0]));
    assert(markdown::is_digit(code[code.len() - 1]));
    assert("Exit code: "@.len() == 11 && "Exit code:"@.len() == 10 && "Exit code: 0"@.len() == 12);
    assert("Exit code: "@ =~= "Exit code:"@ + seq![' ']);
    assert("Exit code: 0"@ =~= "Exit code: "@ + seq!['0']);
    assert(line.take(10) =~= "Exit code:"@);
    assert(line[11] == code[0]);
    assert(line.take(12) =~= "Exit code: "@ + seq![code[0]]);
    if code[0] == '0' {
    } else {
        if text::has_prefix(line, "Exit code: 0"@) {
            assert(line.take(12)[11] == code[0]);
            assert("Exit code: 0"@[11] == '0');
        }
        let rest = line.skip(10);
        assert(rest =~= seq![' '] + code);
        assert(rest[0] == ' ');
        assert("Exit code:"@[0] == 'E');
        starts_with_first(rest, "Exit code:"@);
        reveal_with_fuel(strip_all, 2);
        assert(strip_all(line, "Exit code:"@) == rest);
        assert(text::is_white(' '));
        assert(rest.skip(1) =~= code);
        assert(!text::is_white(code[0]) && !text::is_white(code.last()));
        reveal_with_fuel(text::trim_start, 2);
        assert(text::trim_start(rest) == code);
        assert(text::trim(rest) == code);
        let note = "(exit "@ + code + ")"@;
        assert(exit_note(line) == note);
        assert(!note.contains('\x1b')) by {
            if note.contains('\x1b') {
                let k = choose|k: int| 0 <= k < note.len() && note[k] == '\x1b';
                if 6 <= k < 6 + code.len() {
                    assert(note[k] == code[k - 6]);
                    assert(markdown::is_digit(code[k - 6]));
                }
            }
        }
        literal_is_seen(LiteralStyle::Dim, note, width);
        assert(beginning(note, width) =~= note);
    }
}

/// Output without notes in brackets is all content, where it neither begins nor ends with a blank
/// line.
pub proof fn content_is_kept(lines: Seq<Seq<char>>)
    requires
        forall|i: int| 0 <= i < lines.len() ==> !is_notice(#[trigger] lines[i]),
        lines.len() > 0 ==> lines[0].len() > 0,
    ensures
        content_from_first(lines) == lines,
        notices_of(lines).len() == 0,
        lines.len() > 0 && lines.last().len() > 0 ==> without_blank_end(content_from_first(lines))
            == lines,
    decreases lines.len(),
{
    if lines.len() > 0 {
        let front = lines.drop_last();
        assert(forall|i: int| 0 <= i < front.len() ==> front[i] == lines[i]);
        assert(!is_notice(lines[lines.len() - 1]));
        content_is_kept(front);
        assert(front.push(lines.last()) =~= lines);
    }
}

/// Notes in brackets are taken out of the content, in order, and nothing else is.
pub proof fn notices_in_two(a: Seq<Seq<char>>, b: Seq<Seq<char>>)
    ensures
        notices_of(a + b) == notices_of(a) + notices_of(b),
        b.len() == 1 && is_notice(b[0]) ==> notices_of(b) == seq![text::trim(b[0])]
            && content_from_first(a + b) == content_from_first(a),
        b.len() == 1 && !is_notice(b[0]) && b[0].len() > 0 ==> notices_of(b).len() == 0
            && content_from_first(a + b) == content_from_first(a).push(b[0]),
    decreases b.len(),
{
    let none = Seq::<Seq<char>>::empty();
    if b.len() == 0 {
        assert(a + b =~= a);
        assert(notices_of(a) + notices_of(b) =~= notices_of(a));
    } else {
        notices_in_two(a, b.drop_last());
        assert((a + b).drop_last() =~= a + b.drop_last());
        assert((a + b).last() == b.last());
        assert(notices_of(a + b) =~= notices_of(a) + notices_of(b));
        if b.len() == 1 {
            assert(b.drop_last() =~= none);
            assert(notices_of(none) =~= none);
            assert(a + b.drop_last() =~= a);
            assert(none.push(text::trim(b[0])) =~= seq![text::trim(b[0])]);
        }
    }
}

/// A line that was found is read into its file, its number and its text.
pub proof fn found_lines_are_read(path: Seq<char>, number: Seq<char>, body: Seq<char>, c: char)
    requires
        c == ':' || c == '-',
        !path.contains(c),
        forall|i: int| 0 <= i < number.len() ==> markdown::is_digit(#[trigger] number[i]),
        body.len() > 0 ==> !text::is_white(body[0]),
    ensures
        found_line(path + seq![c] + number + seq![c] + seq![' '] + body, c) == Some(
            (path, number, body),
        ),
{
    let line = path + seq![c] + number + seq![c] + seq![' '] + body;
    let i = path.len() as int;
    let j = i + 1 + number.len();
    assert(line[i] == c && line[j] == c);
    assert forall|k: int| 0 <= k < i implies #[trigger] line[k] != c by {
        assert(line[k] == path[k]);
    }
    assert forall|k: int| i + 1 <= k < j implies #[trigger] line[k] != c by {
        assert(line[k] == number[k - i - 1]);
        assert(markdown::is_digit(number[k - i - 1]));
    }
    markdown::char_found(line, c, 0, i);
    markdown::char_found(line, c, i + 1, j);
    assert(line.take(i) =~= path);
    assert(line.subrange(i + 1, j) =~= number);
    assert(line.skip(j + 1) =~= seq![' '] + body);
    let tail = seq![' '] + body;
    assert(tail[0] == ' ');
    assert(text::is_white(' '));
    assert(tail.skip(1) =~= body);
    reveal_with_fuel(text::trim_start, 2);
    assert(text::trim_start(tail) == body);
}

/// Directories and files are listed as such, each under its own name.
pub proof fn entries_are_shown(line: Seq<char>, style: LiteralStyle, width: nat)
    requires
        !line.contains('\x1b'),
        width >= line.len() + 5,
    ensures
        line.len() > 0 && line.last() == '/' ==> screen::visible(entry_line(line, style, width))
            == "dir  "@ + line,
        line.len() > 0 && line.last() != '/' ==> screen::visible(entry_line(line, style, width))
            == "file "@ + line,
{
    reveal_strlit("dir  ");
    reveal_strlit("file ");
    reveal_strlit("/");
    assert("/"@ =~= seq!['/']);
    if line.len() > 0 {
        assert(line.skip(line.len() - 1)[0] == line.last());
        if line.last() == '/' {
            assert(line.skip(line.len() - 1) =~= seq!['/']);
        }
        let dir = "dir  "@ + line;
        let file = "file "@ + line;
        assert(!dir.contains('\x1b')) by {
            if dir.contains('\x1b') {
                let k = choose|k: int| 0 <= k < dir.len() && dir[k] == '\x1b';
                if k >= 5 {
                    assert(line[k - 5] == '\x1b');
                }
            }
        }
        assert(!file.contains('\x1b')) by {
            if file.contains('\x1b') {
                let k = choose|k: int| 0 <= k < file.len() && file[k] == '\x1b';
                if k >= 5 {
                    assert(line[k - 5] == '\x1b');
                }
            }
        }
        literal_is_seen(style, dir, width);
        literal_is_seen(style, file, width);
        assert(beginning(dir, width) =~= dir);
        assert(beginning(file, width) =~= file);
    }
}

/// A path in the home directory is shown with a tilde for it, and another one as it is.
pub proof fn home_is_a_tilde(home: Seq<char>, rest: Seq<char>, path: Seq<char>)
    ensures
        short_path(home + rest, Some(home)) == seq!['~'] + rest,
        !text::has_prefix(path, home) ==> short_path(path, Some(home)) == path,
        short_path(path, None) == path,
{
    reveal_strlit("~");
    assert("~"@ =~= seq!['~']);
    assert((home + rest).take(home.len() as int) =~= home);
    assert((home + rest).skip(home.len() as int) =~= rest);
}

/// The title of a tool's panel begins with the tool's name, or with a dollar sign where it runs a shell
/// command.
pub proof fn titles_name_the_tool(
    tool: Seq<char>,
    args: Option<Json>,
    details: Option<Json>,
    home: Option<Seq<char>>,
)
    ensures
        (tool == "read"@ || tool == "write"@ || tool == "edit"@ || tool == "ls"@ || tool == "find"@
            || tool == "grep"@) ==> text::has_prefix(panel_title(tool, args, details, home), tool),
        tool == "bash"@ ==> text::starts_with_char(panel_title(tool, args, details, home), '$'),
        tool == "bash"@ && text_or_empty(args, "command"@).len() > 0 ==> panel_title(
            tool,
            args,
            details,
            home,
        ) == seq!['$', ' '] + screen::cut(text_or_empty(args, "command"@), 48),
        (tool == "write"@ || tool == "ls"@) && argument_path(args, home) is Some ==> panel_title(
            tool,
            args,
            details,
            home,
        ) == tool + seq![' '] + argument_path(args, home)->0,
        (tool == "read"@ || tool == "edit"@) && argument_path(args, home) is Some
            ==> text::has_prefix(
            panel_title(tool, args, details, home),
            tool + seq![' '] + argument_path(args, home)->0,
        ),
        (tool == "find"@ || tool == "grep"@) && argument_path(args, home) is Some
            ==> text::has_suffix(
            panel_title(tool, args, details, home),
            seq![' '] + argument_path(args, home)->0,
        ),
{
    reveal_strlit("read");
    reveal_strlit("read ");
    reveal_strlit("write");
    reveal_strlit("edit");
    reveal_strlit("bash");
    reveal_strlit("ls");
    reveal_strlit("find");
    reveal_strlit("find ");
    reveal_strlit("grep");
    reveal_strlit("grep ");
    reveal_strlit("grep /");
    reveal_strlit("/ in ");
    reveal_strlit(" in ");
    reveal_strlit("$");
    reveal_strlit("$ ");
    reveal_strlit(" ");
    assert("read"@[0] == 'r' && "write"@[0] == 'w' && "edit"@[0] == 'e' && "bash"@[0] == 'b'
        && "ls"@[0] == 'l' && "find"@[0] == 'f' && "grep"@[0] == 'g');
    assert(" "@ =~= seq![' ']);
    assert("$ "@ =~= seq!['$', ' ']);
    assert("read "@ =~= "read"@ + seq![' ']);
    assert("find "@ =~= "find"@ + seq![' ']);
    assert("grep "@ =~= "grep"@ + seq![' ']);
    assert("grep /"@ =~= "grep"@ + seq![' ', '/']);
    assert(" in "@ =~= seq![' ', 'i', 'n', ' ']);
    assert("/ in "@ =~= seq!['/', ' ', 'i', 'n', ' ']);
    let shown = panel_title(tool, args, details, home);
    if tool == "read"@ || tool == "write"@ || tool == "edit"@ || tool == "ls"@ || tool == "find"@
        || tool == "grep"@ {
        assert(shown.take(tool.len() as int) =~= tool);
        if let Some(path) = argument_path(args, home) {
            if tool == "read"@ || tool == "edit"@ {
                let start = tool + seq![' '] + path;
                assert(shown.take(start.len() as int) =~= start);
            }
            if tool == "find"@ || tool == "grep"@ {
                let tail = seq![' '] + path;
                assert(shown.skip(shown.len() - tail.len()) =~= tail);
            }
            if tool == "write"@ || tool == "ls"@ {
                assert(shown =~= tool + seq![' '] + path);
            }
        }
    }
}

/// The blocks of a result are shown one after the other, and its images are kept in order.
pub proof fn result_blocks_in_two(
    tool: Seq<char>,
    a: Seq<ContentBlock>,
    b: Seq<ContentBlock>,
    args: Option<Json>,
    is_error: bool,
    width: nat,
)
    ensures
        result_blocks(tool, a + b, args, is_error, width) == result_blocks(
            tool,
            a,
            args,
            is_error,
            width,
        ) + result_blocks(tool, b, args, is_error, width),
        images_in(a + b) == images_in(a) + images_in(b),
    decreases b.len(),
{
    if b.len() == 0 {
        assert(a + b =~= a);
        assert(result_blocks(tool, a, args, is_error, width) + result_blocks(
            tool,
            b,
            args,
            is_error,
            width,
        ) =~= result_blocks(tool, a, args, is_error, width));
        assert(images_in(a) + images_in(b) =~= images_in(a));
    } else {
        result_blocks_in_two(tool, a, b.drop_last(), args, is_error, width);
        assert((a + b).drop_last() =~= a + b.drop_last());
        assert((a + b).last() == b.last());
        assert(result_blocks(tool, a + b, args, is_error, width) =~= result_blocks(
            tool,
            a,
            args,
            is_error,
            width,
        ) + result_blocks(tool, b, args, is_error, width));
        assert(images_in(a + b) =~= images_in(a) + images_in(b));
    }
}

/// What a tool answers is shown in the way of that tool; of a tool that is not known it is shown as
/// the text that it is, or as an error.
pub proof fn results_are_shown_by_their_tool(
    tool: Seq<char>,
    s: Seq<char>,
    args: Option<Json>,
    is_error: bool,
    width: nat,
)
    ensures
        result_text("read"@, s, args, is_error, width) == read_result(s, width),
        result_text("write"@, s, args, is_error, width) == write_result(
            s,
            json::text_in(json::member_of(args, "content"@)),
            width,
            is_error,
        ),
        result_text("edit"@, s, args, is_error, width) == edit_result(s, width, is_error),
        result_text("grep"@, s, args, is_error, width) == grep_result(s, width),
        result_text("find"@, s, args, is_error, width) == entries_result(
            s,
            "No files found matching pattern"@,
            LiteralStyle::Code,
            width,
        ),
        result_text("ls"@, s, args, is_error, width) == entries_result(
            s,
            "(empty directory)"@,
            LiteralStyle::Dim,
            width,
        ),
        result_text("bash"@, s, args, is_error, width) == at_least_one(
            bash_lines(text::lines_of(s), width),
        ),
        tool.len() > 5 && is_error ==> result_text(tool, s, args, is_error, width) == styled_lines(
            LiteralStyle::Error,
            markdown::untabbed_lines(s),
            width,
        ),
        tool.len() > 5 && !is_error ==> result_text(tool, s, args, is_error, width)
            == markdown::markdown(s, width),
{
    reveal_strlit("read");
    reveal_strlit("write");
    reveal_strlit("edit");
    reveal_strlit("grep");
    reveal_strlit("find");
    reveal_strlit("ls");
    reveal_strlit("bash");
    assert("read"@[0] == 'r' && "edit"@[0] == 'e' && "grep"@[0] == 'g' && "find"@[0] == 'f'
        && "bash"@[0] == 'b');
    assert("write"@.len() == 5 && "ls"@.len() == 2 && "read"@.len() == 4 && "bash"@.len() == 4
        && "edit"@.len() == 4 && "grep"@.len() == 4 && "find"@.len() == 4);
}

/// The lines that are read are named by the first and the last of them, and by the first alone
/// where no end is given; a whole file is not named so.
pub proof fn lines_read_are_named(args: Json, offset: u64, limit: u64)
    requires
        json::number_in(json::member(args, "offset"@)) == Some(offset),
        offset > 1,
    ensures
        json::number_in(json::member(args, "limit"@)) == Some(limit) && limit > 0 ==> read_call(
            args,
        ) == seq![
            screen::hint(
                "lines "@ + text::decimal(offset as nat) + "-"@ + text::decimal(
                    (offset + limit - 1) as nat,
                ),
            ),
        ],
        json::number_in(json::member(args, "limit"@)) is None ==> read_call(args) == seq![
            screen::hint("lines "@ + text::decimal(offset as nat) + "+"@),
        ],
{
}

/// Where neither a first line nor a number of lines is given, nothing is said of them.
pub proof fn whole_files_are_read_silently(args: Json)
    requires
        json::number_in(json::member(args, "offset"@)) is None,
        json::number_in(json::member(args, "limit"@)) is None,
    ensures
        read_call(args).len() == 0,
{
}

} // verus!
