//! Markdown as styled lines.
use vstd::prelude::*;
use crate::screen;
use crate::screen::{style_code_block_border, style_code_block_line, style_dim, style_inline_code, style_list_bullet, style_markdown_bold, style_markdown_heading, style_markdown_italic, style_markdown_link, style_markdown_link_url, style_markdown_strikethrough, style_md_hr, style_quote_border, style_quote_text, truncate_to_width};
use crate::text;
use crate::text::{
    begins_with, begins_with_char, cat2, cat3, chars_of, find_at, repeat_char, replaced_char,
    slice_text, text_from, text_lines, text_upto, trimmed, trimmed_start,
};
use crate::wrap;
use crate::wrap::{wrap_text, wrap_with_prefix};

verus! {

broadcast use crate::text::group_texts;

/// The first place at or after `from` of a character.
pub open spec fn next_char(s: Seq<char>, c: char, from: int) -> Option<int> {
    text::first_at(s, seq![c], from)
}

/// The first place at or after `from` of a doubled character.
pub open spec fn next_pair(s: Seq<char>, c: char, from: int) -> Option<int> {
    text::first_at(s, seq![c, c], from)
}

/// Whether the character `c` stands twice at `i`.
pub open spec fn pair_at(s: Seq<char>, c: char, i: int) -> bool {
    i + 1 < s.len() && s[i] == c && s[i + 1] == c
}

/// What stands at one place of a text with inline markup.
pub enum Inline {
    /// A character that a backslash protects.
    Escaped(char),
    /// Code up to the backquote at this place.
    Code(int),
    /// A link: the places of its closing bracket and of its closing parenthesis.
    Link(int, int),
    /// Bold text up to the pair at this place.
    Bold(int),
    /// Text struck through up to the pair at this place.
    Struck(int),
    /// Italic text up to the character at this place.
    Italic(int),
    /// A character for itself.
    Plain,
}

/// What stands at place `i` of a text with inline markup.
pub open spec fn inline_at(s: Seq<char>, i: int) -> Inline {
    let c = s[i];
    let bracket = next_char(s, ']', i + 1);
    let paren = if bracket is Some && bracket->0 + 1 < s.len() && s[bracket->0 + 1] == '(' {
        next_char(s, ')', bracket->0 + 2)
    } else {
        None
    };
    if c == '\\' && i + 1 < s.len() {
        Inline::Escaped(s[i + 1])
    } else if c == '`' && next_char(s, '`', i + 1) is Some {
        Inline::Code(next_char(s, '`', i + 1)->0)
    } else if c == '[' && paren is Some {
        Inline::Link(bracket->0, paren->0)
    } else if pair_at(s, '*', i) && next_pair(s, '*', i + 2) is Some {
        Inline::Bold(next_pair(s, '*', i + 2)->0)
    } else if pair_at(s, '_', i) && next_pair(s, '_', i + 2) is Some {
        Inline::Bold(next_pair(s, '_', i + 2)->0)
    } else if pair_at(s, '~', i) && next_pair(s, '~', i + 2) is Some {
        Inline::Struck(next_pair(s, '~', i + 2)->0)
    } else if (c == '*' || c == '_') && next_char(s, c, i + 1) is Some && text::trim(
        s.subrange(i + 1, next_char(s, c, i + 1)->0),
    ).len() > 0 {
        Inline::Italic(next_char(s, c, i + 1)->0)
    } else {
        Inline::Plain
    }
}

/// The text from place `i` on, with its inline markup shown as styles.
pub open spec fn inline_from(s: Seq<char>, i: int) -> Seq<char>
    decreases s.len(), s.len() - i,
    via inline_from_ends
{
    if i < 0 || i >= s.len() {
        Seq::empty()
    } else {
        match inline_at(s, i) {
            Inline::Escaped(c) => seq![c] + inline_from(s, i + 2),
            Inline::Code(end) => screen::inline_code(s.subrange(i + 1, end)) + inline_from(
                s,
                end + 1,
            ),
            Inline::Link(bracket, paren) => {
                let label = s.subrange(i + 1, bracket);
                let url = s.subrange(bracket + 2, paren);
                let shown = screen::link(inline_from(label, 0)) + (if label == url {
                    Seq::empty()
                } else {
                    screen::link_url(" ("@ + url + ")"@)
                });
                shown + inline_from(s, paren + 1)
            },
            Inline::Bold(end) => screen::bold(inline_from(s.subrange(i + 2, end), 0))
                + inline_from(s, end + 2),
            Inline::Struck(end) => screen::strikethrough(inline_from(s.subrange(i + 2, end), 0))
                + inline_from(s, end + 2),
            Inline::Italic(end) => screen::italic(inline_from(s.subrange(i + 1, end), 0))
                + inline_from(s, end + 1),
            Inline::Plain => seq![s[i]] + inline_from(s, i + 1),
        }
    }
}

#[via_fn]
proof fn inline_from_ends(s: Seq<char>, i: int) {
    if 0 <= i < s.len() {
        inline_places(s, i);
    }
}

/// The places that inline markup ends at lie behind where it starts, within the text.
proof fn inline_places(s: Seq<char>, i: int)
    requires
        0 <= i < s.len(),
    ensures
        match inline_at(s, i) {
            Inline::Escaped(c) => i + 1 < s.len() && c == s[i + 1],
            Inline::Code(end) => i + 1 <= end < s.len(),
            Inline::Link(bracket, paren) => i + 1 <= bracket && bracket + 2 <= paren < s.len(),
            Inline::Bold(end) => i + 2 <= end && end + 2 <= s.len(),
            Inline::Struck(end) => i + 2 <= end && end + 2 <= s.len(),
            Inline::Italic(end) => i + 1 <= end < s.len(),
            Inline::Plain => true,
        },
{
    text::first_at_is_first(s, seq!['`'], i + 1);
    text::first_at_is_first(s, seq![']'], i + 1);
    text::first_at_is_first(s, seq!['*', '*'], i + 2);
    text::first_at_is_first(s, seq!['_', '_'], i + 2);
    text::first_at_is_first(s, seq!['~', '~'], i + 2);
    text::first_at_is_first(s, seq![s[i]], i + 1);
    let bracket = next_char(s, ']', i + 1);
    if bracket is Some {
        text::first_at_is_first(s, seq![')'], bracket->0 + 2);
    }
}

/// The place of a character at or after `start`.
pub fn find_char(chars: &[char], start: usize, needle: char) -> (r: Option<usize>)
    requires
        start <= chars@.len(),
    ensures
        match r {
            Some(i) => next_char(chars@, needle, start as int) == Some(i as int) && start <= i
                && i < chars@.len(),
            None => next_char(chars@, needle, start as int) is None,
        },
{
    let pattern = vec![needle];
    assert(pattern@ =~= seq![needle]);
    proof {
        text::first_at_is_first(chars@, seq![needle], start as int);
    }
    find_at(chars, pattern.as_slice(), start)
}

/// The place of a doubled character at or after `start`.
pub fn find_pair(chars: &[char], start: usize, needle: char) -> (r: Option<usize>)
    requires
        start <= chars@.len(),
    ensures
        match r {
            Some(i) => next_pair(chars@, needle, start as int) == Some(i as int) && start <= i && i
                + 2 <= chars@.len(),
            None => next_pair(chars@, needle, start as int) is None,
        },
{
    let pattern = vec![needle, needle];
    assert(pattern@ =~= seq![needle, needle]);
    proof {
        text::first_at_is_first(chars@, seq![needle, needle], start as int);
    }
    find_at(chars, pattern.as_slice(), start)
}

/// What stands at one place of a text with inline markup, on executable values.
enum Markup {
    Escaped(char),
    Code(usize),
    Link(usize, usize),
    Bold(usize),
    Struck(usize),
    Italic(usize),
    Plain,
}

impl Markup {
    spec fn shown(self) -> Inline {
        match self {
            Markup::Escaped(c) => Inline::Escaped(c),
            Markup::Code(end) => Inline::Code(end as int),
            Markup::Link(bracket, paren) => Inline::Link(bracket as int, paren as int),
            Markup::Bold(end) => Inline::Bold(end as int),
            Markup::Struck(end) => Inline::Struck(end as int),
            Markup::Italic(end) => Inline::Italic(end as int),
            Markup::Plain => Inline::Plain,
        }
    }
}

fn doubled(chars: &[char], i: usize, c: char) -> (r: bool)
    requires
        i < chars@.len(),
    ensures
        r == pair_at(chars@, c, i as int),
{
    i < chars.len() - 1 && chars[i] == c && chars[i + 1] == c
}

fn link_at(chars: &[char], i: usize) -> (r: Option<(usize, usize)>)
    requires
        i < chars@.len(),
        chars@[i as int] == '[',
    ensures
        match r {
            Some((bracket, paren)) => inline_at(chars@, i as int) == Inline::Link(
                bracket as int,
                paren as int,
            ),
            None => !(inline_at(chars@, i as int) is Link),
        },
{
    let len: usize = chars.len();
    let bracket = match find_char(chars, i + 1, ']') {
        Some(bracket) => bracket,
        None => {
            return None;
        },
    };
    if bracket < len - 1 && chars[bracket + 1] == '(' {
        match find_char(chars, bracket + 2, ')') {
            Some(paren) => Some((bracket, paren)),
            None => None,
        }
    } else {
        None
    }
}

fn markup_at(chars: &[char], i: usize) -> (r: Markup)
    requires
        i < chars@.len(),
    ensures
        r.shown() == inline_at(chars@, i as int),
{
    let c = chars[i];
    if c == '\\' && i < chars.len() - 1 {
        return Markup::Escaped(chars[i + 1]);
    }
    if c == '`' {
        if let Some(end) = find_char(chars, i + 1, '`') {
            return Markup::Code(end);
        }
    }
    if c == '[' {
        if let Some((bracket, paren)) = link_at(chars, i) {
            return Markup::Link(bracket, paren);
        }
    }
    if doubled(chars, i, '*') {
        if let Some(end) = find_pair(chars, i + 2, '*') {
            return Markup::Bold(end);
        }
    }
    if doubled(chars, i, '_') {
        if let Some(end) = find_pair(chars, i + 2, '_') {
            return Markup::Bold(end);
        }
    }
    if doubled(chars, i, '~') {
        if let Some(end) = find_pair(chars, i + 2, '~') {
            return Markup::Struck(end);
        }
    }
    if c == '*' || c == '_' {
        if let Some(end) = find_char(chars, i + 1, c) {
            let inner = trimmed(slice_text(chars, i + 1, end).as_str());
            if !inner.as_str().is_empty() {
                return Markup::Italic(end);
            }
        }
    }
    Markup::Plain
}

/// A text with its inline markup shown as styles.
pub fn render_inline_markdown_slice(chars: &[char]) -> (r: String)
    ensures
        r@ == inline_from(chars@, 0),
    decreases chars@.len(),
{
    let ghost s = chars@;
    let mut out = String::new();
    let mut i: usize = 0;
    assert(out@ + inline_from(s, 0) =~= inline_from(s, 0));
    while i < chars.len()
        invariant
            0 <= i <= chars.len(),
            s == chars@,
            out@ + inline_from(s, i as int) == inline_from(s, 0),
        decreases chars.len() - i,
    {
        proof {
            inline_places(s, i as int);
        }
        let ghost before = out@;
        let ghost here = i as int;
        match markup_at(chars, i) {
            Markup::Escaped(c) => {
                out.push(c);
                i += 2;
                assert(out@ + inline_from(s, i as int) =~= before + (seq![c] + inline_from(
                    s,
                    i as int,
                )));
            },
            Markup::Code(end) => {
                let inner = style_inline_code(slice_text(chars, i + 1, end).as_str());
                out.append(inner.as_str());
                i = end + 1;
                assert(out@ + inline_from(s, i as int) =~= before + (inner@ + inline_from(
                    s,
                    i as int,
                )));
            },
            Markup::Link(bracket, paren) => {
                let label = vstd::slice::slice_subrange(chars, i + 1, bracket);
                let mut shown = style_markdown_link(render_inline_markdown_slice(label).as_str());
                let plain = slice_text(chars, i + 1, bracket);
                let url = slice_text(chars, bracket + 2, paren);
                if !text::same(plain.as_str(), url.as_str()) {
                    shown.append(style_markdown_link_url(cat3(" (", url.as_str(), ")").as_str()).as_str());
                } else {
                    assert(shown@ + Seq::<char>::empty() =~= shown@);
                }
                out.append(shown.as_str());
                i = paren + 1;
                assert(out@ + inline_from(s, i as int) =~= before + (shown@ + inline_from(
                    s,
                    i as int,
                )));
            },
            Markup::Bold(end) => {
                let inner = render_inline_markdown_slice(
                    vstd::slice::slice_subrange(chars, i + 2, end),
                );
                let shown = style_markdown_bold(inner.as_str());
                out.append(shown.as_str());
                i = end + 2;
                assert(out@ + inline_from(s, i as int) =~= before + (shown@ + inline_from(
                    s,
                    i as int,
                )));
            },
            Markup::Struck(end) => {
                let inner = render_inline_markdown_slice(
                    vstd::slice::slice_subrange(chars, i + 2, end),
                );
                let shown = style_markdown_strikethrough(inner.as_str());
                out.append(shown.as_str());
                i = end + 2;
                assert(out@ + inline_from(s, i as int) =~= before + (shown@ + inline_from(
                    s,
                    i as int,
                )));
            },
            Markup::Italic(end) => {
                let inner = render_inline_markdown_slice(
                    vstd::slice::slice_subrange(chars, i + 1, end),
                );
                let shown = style_markdown_italic(inner.as_str());
                out.append(shown.as_str());
                i = end + 1;
                assert(out@ + inline_from(s, i as int) =~= before + (shown@ + inline_from(
                    s,
                    i as int,
                )));
            },
            Markup::Plain => {
                out.push(chars[i]);
                i += 1;
                assert(out@ + inline_from(s, i as int) =~= before + (seq![s[here]] + inline_from(
                    s,
                    i as int,
                )));
            },
        }
    }
    assert(out@ + inline_from(s, i as int) =~= out@);
    out
}

/// A text with its inline markup shown as styles.
pub fn render_inline_markdown(s: &str) -> (r: String)
    ensures
        r@ == inline_from(s@, 0),
{
    let chars = chars_of(s);
    render_inline_markdown_slice(chars.as_slice())
}

/// How often `c` stands at the start of `s`.
pub open spec fn leading(s: Seq<char>, c: char) -> nat
    decreases s.len(),
{
    if s.len() > 0 && s[0] == c {
        1 + leading(s.skip(1), c)
    } else {
        0
    }
}

proof fn leading_bound(s: Seq<char>, c: char)
    ensures
        leading(s, c) <= s.len(),
    decreases s.len(),
{
    if s.len() > 0 && s[0] == c {
        leading_bound(s.skip(1), c);
    }
}

fn count_leading(chars: &[char], c: char) -> (r: usize)
    ensures
        r == leading(chars@, c),
        r <= chars@.len(),
{
    let ghost s = chars@;
    let mut n: usize = 0;
    assert(s.skip(0) =~= s);
    while n < chars.len() && chars[n] == c
        invariant
            0 <= n <= chars.len(),
            s == chars@,
            leading(s, c) == n + leading(s.skip(n as int), c),
        decreases chars.len() - n,
    {
        assert(s.skip(n as int).skip(1) =~= s.skip(n + 1));
        assert(s.skip(n as int)[0] == c);
        n += 1;
    }
    n
}

/// Whether `c` is a decimal digit.
pub open spec fn is_digit(c: char) -> bool {
    '0' <= c <= '9'
}

/// How many digits stand at the start of `s`.
pub open spec fn leading_digits(s: Seq<char>) -> nat
    decreases s.len(),
{
    if s.len() > 0 && is_digit(s[0]) {
        1 + leading_digits(s.skip(1))
    } else {
        0
    }
}

fn count_digits(chars: &[char], from: usize) -> (r: usize)
    requires
        from <= chars@.len(),
    ensures
        r == leading_digits(chars@.skip(from as int)),
        from + r <= chars@.len(),
{
    let ghost s = chars@.skip(from as int);
    let mut n: usize = 0;
    assert(s.skip(0) =~= s);
    while n < chars.len() - from && '0' <= chars[from + n] && chars[from + n] <= '9'
        invariant
            from + n <= chars.len(),
            s == chars@.skip(from as int),
            leading_digits(s) == n + leading_digits(s.skip(n as int)),
        decreases chars.len() - from - n,
    {
        assert(s.skip(n as int).skip(1) =~= s.skip(n + 1));
        assert(s.skip(n as int)[0] == chars@[from + n]);
        n += 1;
    }
    proof {
        let rest = s.skip(n as int);
        if rest.len() > 0 {
            assert(rest[0] == chars@[from + n]);
        }
    }
    n
}

/// The level and the text of a heading: one to six number signs, a space, the text.
pub open spec fn heading_of(line: Seq<char>) -> Option<(nat, Seq<char>)> {
    let n = leading(line, '#');
    if 1 <= n <= 6 && n < line.len() && line[n as int] == ' ' {
        Some((n, text::trim(line.skip(n as int + 1))))
    } else {
        None
    }
}

/// The level and the text of a heading.
pub fn parse_heading(line: &str) -> (r: Option<(usize, String)>)
    ensures
        match r {
            Some((level, title)) => heading_of(line@) == Some((level as nat, title@)),
            None => heading_of(line@) is None,
        },
{
    let chars = chars_of(line);
    let n = count_leading(chars.as_slice(), '#');
    if n < 1 || n > 6 || n >= chars.len() || chars[n] != ' ' {
        return None;
    }
    let rest = text_from(line, n + 1);
    Some((n, trimmed(rest.as_str())))
}

/// How deep a line is quoted: how many `>` stand before its first other character.
pub open spec fn quote_depth(s: Seq<char>) -> nat
    decreases s.len(),
{
    if s.len() > 0 && s[0] == '>' {
        1 + quote_depth(s.skip(1))
    } else if s.len() > 0 && text::is_white(s[0]) {
        quote_depth(s.skip(1))
    } else {
        0
    }
}

/// A line without the `>` and the white space at its start.
pub open spec fn quote_rest(s: Seq<char>) -> Seq<char>
    decreases s.len(),
{
    if s.len() > 0 && (s[0] == '>' || text::is_white(s[0])) {
        quote_rest(s.skip(1))
    } else {
        s
    }
}

/// The depth and the text of a quoted line.
pub fn parse_blockquote(line: &str) -> (r: Option<(usize, String)>)
    ensures
        match r {
            Some((depth, rest)) => depth > 0 && quote_depth(line@) == depth && rest@ == quote_rest(
                line@,
            ),
            None => quote_depth(line@) == 0,
        },
{
    let chars = chars_of(line);
    let ghost s = chars@;
    let mut depth: usize = 0;
    let mut i: usize = 0;
    assert(s.skip(0) =~= s);
    while i < chars.len() && (chars[i] == '>' || text::white(chars[i]))
        invariant
            0 <= i <= chars.len(),
            depth <= i,
            s == chars@,
            quote_depth(s) == depth + quote_depth(s.skip(i as int)),
            quote_rest(s) == quote_rest(s.skip(i as int)),
        decreases chars.len() - i,
    {
        assert(s.skip(i as int).skip(1) =~= s.skip(i + 1));
        assert(s.skip(i as int)[0] == chars@[i as int]);
        if chars[i] == '>' {
            depth += 1;
        }
        i += 1;
    }
    proof {
        let rest = s.skip(i as int);
        if rest.len() > 0 {
            assert(rest[0] == chars@[i as int]);
        }
    }
    if depth == 0 {
        None
    } else {
        Some((depth, text_from(line, i)))
    }
}

/// The bullet or number of a list item with the spaces before it, and the item's text.
pub open spec fn list_item_of(line: Seq<char>) -> Option<(Seq<char>, Seq<char>)> {
    let indent = leading(line, ' ');
    let item = line.skip(indent as int);
    let digits = leading_digits(item) as int;
    if text::has_prefix(item, "- "@) || text::has_prefix(item, "* "@) || text::has_prefix(
        item,
        "+ "@,
    ) {
        Some((text::repeated(' ', indent) + item.take(2), text::trim_start(item.skip(2))))
    } else if digits > 0 && digits + 1 < item.len() && item[digits] == '.' && item[digits + 1]
        == ' ' {
        Some(
            (
                text::repeated(' ', indent) + item.take(digits + 2),
                text::trim_start(item.skip(digits + 2)),
            ),
        )
    } else {
        None
    }
}

/// The bullet or number of a list item with the spaces before it, and the item's text.
pub fn parse_list_item(line: &str) -> (r: Option<(String, String)>)
    ensures
        match r {
            Some((prefix, rest)) => list_item_of(line@) == Some((prefix@, rest@)),
            None => list_item_of(line@) is None,
        },
{
    let chars = chars_of(line);
    let indent = count_leading(chars.as_slice(), ' ');
    let item = text_from(line, indent);
    let spaces = repeat_char(' ', indent);
    proof {
        reveal_strlit("- ");
        reveal_strlit("* ");
        reveal_strlit("+ ");
    }
    if begins_with(item.as_str(), "- ") || begins_with(item.as_str(), "* ") || begins_with(
        item.as_str(),
        "+ ",
    ) {
        let prefix = cat2(spaces.as_str(), text_upto(item.as_str(), 2).as_str());
        let rest = trimmed_start(text_from(item.as_str(), 2).as_str());
        return Some((prefix, rest));
    }
    let digits = count_digits(chars.as_slice(), indent);
    let len: usize = chars.len() - indent;
    if digits > 0 && digits < len && len - digits > 1 && chars[indent + digits] == '.'
        && chars[indent + digits + 1] == ' ' {
        let prefix = cat2(spaces.as_str(), text_upto(item.as_str(), digits + 2).as_str());
        let rest = trimmed_start(text_from(item.as_str(), digits + 2).as_str());
        return Some((prefix, rest));
    }
    None
}

/// Whether a line is a horizontal rule: three or more dashes, underscores and stars.
pub open spec fn is_rule(line: Seq<char>) -> bool {
    let compact = text::trim(line);
    compact.len() >= 3 && forall|i: int|
        0 <= i < compact.len() ==> (#[trigger] compact[i] == '-' || compact[i] == '_' || compact[i]
            == '*')
}

/// Whether a line is a horizontal rule.
pub fn is_markdown_rule(line: &str) -> (r: bool)
    ensures
        r == is_rule(line@),
{
    let compact = chars_of(trimmed(line).as_str());
    if compact.len() < 3 {
        return false;
    }
    let mut i: usize = 0;
    while i < compact.len()
        invariant
            0 <= i <= compact.len(),
            compact@ == text::trim(line@),
            compact@.len() >= 3,
            forall|k: int|
                0 <= k < i ==> (#[trigger] compact@[k] == '-' || compact@[k] == '_' || compact@[k]
                    == '*'),
        decreases compact.len() - i,
    {
        let c = compact[i];
        if c != '-' && c != '_' && c != '*' {
            return false;
        }
        i += 1;
    }
    true
}

/// The lines of a quotation.
pub open spec fn quote_lines(depth: nat, rest: Seq<char>, width: nat) -> Seq<Seq<char>> {
    let room = if depth + 1 < width {
        (width - (depth + 1)) as nat
    } else {
        0
    };
    let prefix = screen::quote_border(text::repeated('│', depth) + " "@);
    wrap::wrapped(inline_from(rest, 0), room).map_values(
        |line: Seq<char>| prefix + screen::quote_text(line),
    )
}

fn render_quote(depth: usize, rest: &str, width: usize) -> (r: Vec<String>)
    ensures
        text::texts(r@) == quote_lines(depth as nat, rest@, width as nat),
{
    let room: usize = if width > 0 && depth < width - 1 {
        width - 1 - depth
    } else {
        0
    };
    let prefix = style_quote_border(cat2(repeat_char('│', depth).as_str(), " ").as_str());
    let lines = wrap_text(render_inline_markdown(rest).as_str(), room);
    let ghost all = quote_lines(depth as nat, rest@, width as nat);
    let mut out: Vec<String> = Vec::new();
    let mut i: usize = 0;
    while i < lines.len()
        invariant
            0 <= i <= lines.len(),
            text::texts(lines@) == wrap::wrapped(inline_from(rest@, 0), room as nat),
            all == text::texts(lines@).map_values(
                |line: Seq<char>| prefix@ + screen::quote_text(line),
            ),
            text::texts(out@) == all.take(i as int),
        decreases lines.len() - i,
    {
        out.push(cat2(prefix.as_str(), style_quote_text(lines[i].as_str()).as_str()));
        i += 1;
        assert(all.take(i as int) =~= all.take(i - 1).push(all[i - 1]));
    }
    assert(all.take(i as int) =~= all);
    out
}

/// How long a horizontal rule is.
pub open spec fn rule_length(width: nat) -> nat {
    if width > 80 {
        80
    } else if width < 3 {
        3
    } else {
        width
    }
}

/// Whether a line opens or closes a block of code.
pub open spec fn is_fence(line: Seq<char>) -> bool {
    text::has_prefix(text::trim(line), "```"@)
}

/// What one line of markdown is shown as. Inside a block of code, or indented by four spaces, it is
/// code.
pub open spec fn shown_line(raw: Seq<char>, in_code: bool, width: nat) -> Seq<Seq<char>> {
    let compact = text::trim(raw);
    if compact.len() == 0 {
        seq![Seq::empty()]
    } else if text::has_prefix(compact, "```"@) {
        seq![screen::code_block_border(compact)]
    } else if in_code || text::has_prefix(raw, "    "@) {
        wrap::wrapped_beside(screen::code_block_line(compact), "  "@, width)
    } else if is_rule(compact) {
        seq![screen::rule(text::repeated('─', rule_length(width)))]
    } else if let Some((level, title)) = heading_of(compact) {
        seq![screen::heading(level, inline_from(title, 0))]
    } else if quote_depth(compact) > 0 {
        quote_lines(quote_depth(compact), quote_rest(compact), width)
    } else if let Some((prefix, rest)) = list_item_of(raw) {
        wrap::wrapped_beside(inline_from(rest, 0), screen::list_bullet(prefix), width)
    } else if text::has_prefix(compact, "@@"@) || text::starts_with_char(compact, '+')
        || text::starts_with_char(compact, '-') {
        seq![screen::cut(compact, width)]
    } else if text::starts_with_char(compact, '|') {
        seq![screen::dim(screen::cut(compact, width))]
    } else {
        wrap::wrapped(inline_from(compact, 0), width)
    }
}

fn one(line: String) -> (r: Vec<String>)
    ensures
        text::texts(r@) == seq![line@],
{
    let mut out: Vec<String> = Vec::new();
    out.push(line);
    assert(text::texts(out@) =~= seq![line@]);
    out
}

/// What one line of markdown is shown as.
pub fn render_line(raw: &str, in_code: bool, width: usize) -> (r: Vec<String>)
    ensures
        text::texts(r@) == shown_line(raw@, in_code, width as nat),
{
    let owned = trimmed(raw);
    let compact = owned.as_str();
    if compact.is_empty() {
        return one(String::new());
    }
    if begins_with(compact, "```") {
        return one(style_code_block_border(compact));
    }
    if in_code || begins_with(raw, "    ") {
        return wrap_with_prefix(style_code_block_line(compact).as_str(), "  ", width);
    }
    if is_markdown_rule(compact) {
        let n: usize = if width > 80 {
            80
        } else if width < 3 {
            3
        } else {
            width
        };
        return one(style_md_hr(repeat_char('─', n).as_str()));
    }
    if let Some((level, title)) = parse_heading(compact) {
        return one(
            style_markdown_heading(level, render_inline_markdown(title.as_str()).as_str()),
        );
    }
    if let Some((depth, rest)) = parse_blockquote(compact) {
        return render_quote(depth, rest.as_str(), width);
    }
    if let Some((prefix, rest)) = parse_list_item(raw) {
        return wrap_with_prefix(
            render_inline_markdown(rest.as_str()).as_str(),
            style_list_bullet(prefix.as_str()).as_str(),
            width,
        );
    }
    if begins_with(compact, "@@") || begins_with_char(compact, '+') || begins_with_char(
        compact,
        '-',
    ) {
        return one(truncate_to_width(compact, width));
    }
    if begins_with_char(compact, '|') {
        return one(style_dim(truncate_to_width(compact, width).as_str()));
    }
    wrap_text(render_inline_markdown(compact).as_str(), width)
}

/// Whether a block of code is open after some lines.
pub open spec fn code_open(lines: Seq<Seq<char>>) -> bool
    decreases lines.len(),
{
    if lines.len() == 0 {
        false
    } else if is_fence(lines.last()) {
        !code_open(lines.drop_last())
    } else {
        code_open(lines.drop_last())
    }
}

/// What lines of markdown are shown as.
pub open spec fn shown_lines(lines: Seq<Seq<char>>, width: nat) -> Seq<Seq<char>>
    decreases lines.len(),
{
    if lines.len() == 0 {
        Seq::empty()
    } else {
        shown_lines(lines.drop_last(), width) + shown_line(
            lines.last(),
            code_open(lines.drop_last()),
            width,
        )
    }
}

/// A text with each tab as three spaces, line by line.
pub open spec fn untabbed_lines(s: Seq<char>) -> Seq<Seq<char>> {
    text::lines_of(text::replace_char(s, '\t', "   "@))
}

/// A text with each tab as three spaces, line by line.
pub fn lines_without_tabs(s: &str) -> (r: Vec<String>)
    ensures
        text::texts(r@) == untabbed_lines(s@),
{
    text_lines(replaced_char(s, '\t', "   ").as_str())
}

/// Markdown as styled lines: always at least one.
pub open spec fn markdown(s: Seq<char>, width: nat) -> Seq<Seq<char>> {
    let lines = shown_lines(untabbed_lines(s), width);
    if lines.len() == 0 {
        seq![Seq::empty()]
    } else {
        lines
    }
}

/// Markdown as styled lines.
pub fn collect_markdown_lines(s: &str, width: usize) -> (r: Vec<String>)
    ensures
        text::texts(r@) == markdown(s@, width as nat),
{
    let raw = lines_without_tabs(s);
    let ghost all = text::texts(raw@);
    let mut in_code = false;
    let mut lines: Vec<String> = Vec::new();
    let mut i: usize = 0;
    assert(all.take(0) =~= Seq::<Seq<char>>::empty());
    while i < raw.len()
        invariant
            0 <= i <= raw.len(),
            all == text::texts(raw@),
            in_code == code_open(all.take(i as int)),
            text::texts(lines@) == shown_lines(all.take(i as int), width as nat),
        decreases raw.len() - i,
    {
        assert(all.take(i + 1).drop_last() =~= all.take(i as int));
        let mut more = render_line(raw[i].as_str(), in_code, width);
        lines.append(&mut more);
        if begins_with(trimmed(raw[i].as_str()).as_str(), "```") {
            in_code = !in_code;
        }
        i += 1;
    }
    assert(all.take(i as int) =~= all);
    if lines.len() == 0 {
        return one(String::new());
    }
    lines
}

/// Markdown is shown as at least one line.
pub proof fn markdown_is_not_empty(s: Seq<char>, width: nat)
    ensures
        markdown(s, width).len() > 0,
{
}

/// Whether a character can begin inline markup.
pub open spec fn is_mark(c: char) -> bool {
    c == '\\' || c == '`' || c == '[' || c == '*' || c == '_' || c == '~'
}

proof fn char_occurs(s: Seq<char>, c: char, i: int)
    ensures
        text::occurs_at(s, seq![c], i) <==> 0 <= i < s.len() && s[i] == c,
{
    if 0 <= i < s.len() {
        assert(s.subrange(i, i + 1)[0] == s[i]);
        if s[i] == c {
            assert(s.subrange(i, i + 1) =~= seq![c]);
        }
    }
}

proof fn pair_occurs(s: Seq<char>, c: char, i: int)
    ensures
        text::occurs_at(s, seq![c, c], i) <==> 0 <= i && pair_at(s, c, i),
{
    if 0 <= i && i + 1 < s.len() {
        let part = s.subrange(i, i + 2);
        assert(part[0] == s[i]);
        assert(part[1] == s[i + 1]);
        if pair_at(s, c, i) {
            assert(part =~= seq![c, c]);
        }
    }
}

/// The place of a pattern that does not stand before it.
proof fn found_at(s: Seq<char>, pattern: Seq<char>, from: int, place: int)
    requires
        0 <= from <= place,
        text::occurs_at(s, pattern, place),
        forall|j: int| from <= j < place ==> !text::occurs_at(s, pattern, j),
    ensures
        text::first_at(s, pattern, from) == Some(place),
{
    text::first_at_is_first(s, pattern, from);
}

/// The place of a character that does not stand before it.
pub proof fn char_found(s: Seq<char>, c: char, from: int, place: int)
    requires
        0 <= from <= place < s.len(),
        s[place] == c,
        forall|j: int| from <= j < place ==> #[trigger] s[j] != c,
    ensures
        next_char(s, c, from) == Some(place),
{
    char_occurs(s, c, place);
    assert forall|j: int| from <= j < place implies !text::occurs_at(s, seq![c], j) by {
        char_occurs(s, c, j);
    }
    found_at(s, seq![c], from, place);
}

proof fn char_not_found(s: Seq<char>, c: char, from: int)
    requires
        0 <= from,
        forall|j: int| from <= j < s.len() ==> #[trigger] s[j] != c,
    ensures
        next_char(s, c, from) is None,
{
    text::first_at_is_first(s, seq![c], from);
    if let Some(i) = next_char(s, c, from) {
        char_occurs(s, c, i);
    }
}

proof fn pair_found(s: Seq<char>, c: char, from: int, place: int)
    requires
        0 <= from <= place,
        pair_at(s, c, place),
        forall|j: int| from <= j < place ==> !#[trigger] pair_at(s, c, j),
    ensures
        next_pair(s, c, from) == Some(place),
{
    pair_occurs(s, c, place);
    assert forall|j: int| from <= j < place implies !text::occurs_at(s, seq![c, c], j) by {
        pair_occurs(s, c, j);
        assert(pair_at(s, c, j) == pair_at(s, c, j));
    }
    found_at(s, seq![c, c], from, place);
}

proof fn first_behind(s: Seq<char>, pattern: Seq<char>, k: int, from: int)
    requires
        0 <= k <= s.len(),
        0 <= from,
    ensures
        text::first_at(s, pattern, k + from) == (match text::first_at(s.skip(k), pattern, from) {
            Some(i) => Some(k + i),
            None => None,
        }),
    decreases s.len() + 1 - k - from,
{
    let rest = s.skip(k);
    if k + from + pattern.len() <= s.len() {
        assert(rest.subrange(from, from + pattern.len()) =~= s.subrange(
            k + from,
            k + from + pattern.len(),
        ));
        assert(text::occurs_at(s, pattern, k + from) == text::occurs_at(rest, pattern, from));
        if !text::occurs_at(rest, pattern, from) {
            first_behind(s, pattern, k, from + 1);
        }
    }
}

/// What stands at a place, with the places in it counted from elsewhere.
spec fn moved_by(what: Inline, k: int) -> Inline {
    match what {
        Inline::Escaped(c) => Inline::Escaped(c),
        Inline::Code(end) => Inline::Code(k + end),
        Inline::Link(bracket, paren) => Inline::Link(k + bracket, k + paren),
        Inline::Bold(end) => Inline::Bold(k + end),
        Inline::Struck(end) => Inline::Struck(k + end),
        Inline::Italic(end) => Inline::Italic(k + end),
        Inline::Plain => Inline::Plain,
    }
}

/// What stands at a place does not depend on the text before it.
#[verifier::rlimit(60)]
proof fn inline_at_behind(s: Seq<char>, k: int, i: int)
    requires
        0 <= k,
        0 <= i,
        k + i < s.len(),
    ensures
        inline_at(s, k + i) == moved_by(inline_at(s.skip(k), i), k),
{
    let rest = s.skip(k);
    let c = s[k + i];
    assert(rest[i] == c);
    first_behind(s, seq!['`'], k, i + 1);
    first_behind(s, seq![']'], k, i + 1);
    first_behind(s, seq!['*', '*'], k, i + 2);
    first_behind(s, seq!['_', '_'], k, i + 2);
    first_behind(s, seq!['~', '~'], k, i + 2);
    first_behind(s, seq![c], k, i + 1);
    if k + i + 1 < s.len() {
        assert(rest[i + 1] == s[k + i + 1]);
    }
    text::first_at_is_first(rest, seq![']'], i + 1);
    text::first_at_is_first(rest, seq![c], i + 1);
    if let Some(bracket) = next_char(rest, ']', i + 1) {
        first_behind(s, seq![')'], k, bracket + 2);
        if bracket + 1 < rest.len() {
            assert(rest[bracket + 1] == s[k + bracket + 1]);
        }
    }
    if let Some(end) = next_char(rest, c, i + 1) {
        assert(rest.subrange(i + 1, end) =~= s.subrange(k + i + 1, k + end));
    }
}

/// How a text is shown from a place on does not depend on the text before it.
#[verifier::rlimit(60)]
pub proof fn inline_behind(s: Seq<char>, k: int, i: int)
    requires
        0 <= k <= s.len(),
        0 <= i,
    ensures
        inline_from(s, k + i) == inline_from(s.skip(k), i),
    decreases s.len() + 2 - k - i,
{
    let rest = s.skip(k);
    if k + i < s.len() {
        inline_at_behind(s, k, i);
        inline_places(rest, i);
        match inline_at(rest, i) {
            Inline::Escaped(c) => {
                inline_behind(s, k, i + 2);
            },
            Inline::Code(end) => {
                inline_behind(s, k, end + 1);
                assert(rest.subrange(i + 1, end) =~= s.subrange(k + i + 1, k + end));
            },
            Inline::Link(bracket, paren) => {
                inline_behind(s, k, paren + 1);
                assert(rest.subrange(i + 1, bracket) =~= s.subrange(k + i + 1, k + bracket));
                assert(rest.subrange(bracket + 2, paren) =~= s.subrange(
                    k + bracket + 2,
                    k + paren,
                ));
            },
            Inline::Bold(end) => {
                inline_behind(s, k, end + 2);
                assert(rest.subrange(i + 2, end) =~= s.subrange(k + i + 2, k + end));
            },
            Inline::Struck(end) => {
                inline_behind(s, k, end + 2);
                assert(rest.subrange(i + 2, end) =~= s.subrange(k + i + 2, k + end));
            },
            Inline::Italic(end) => {
                inline_behind(s, k, end + 1);
                assert(rest.subrange(i + 1, end) =~= s.subrange(k + i + 1, k + end));
            },
            Inline::Plain => {
                inline_behind(s, k, i + 1);
            },
        }
    }
}

/// What follows some characters is shown as it is alone.
proof fn shown_behind(a: Seq<char>, rest: Seq<char>)
    ensures
        inline_from(a + rest, a.len() as int) == inline_from(rest, 0),
{
    assert((a + rest).skip(a.len() as int) =~= rest);
    inline_behind(a + rest, a.len() as int, 0);
}

/// Text without markup stays as it is, and what follows it is shown as it is alone.
pub proof fn plain_text_is_shown(a: Seq<char>, rest: Seq<char>)
    requires
        forall|i: int| 0 <= i < a.len() ==> !is_mark(#[trigger] a[i]),
    ensures
        inline_from(a + rest, 0) == a + inline_from(rest, 0),
    decreases a.len(),
{
    if a.len() == 0 {
        assert(a + rest =~= rest);
        assert(a + inline_from(rest, 0) =~= inline_from(rest, 0));
    } else {
        let s = a + rest;
        let tail = a.skip(1);
        assert(s[0] == a[0]);
        assert(!is_mark(a[0]));
        assert(inline_at(s, 0) == Inline::Plain);
        assert forall|i: int| 0 <= i < tail.len() implies !is_mark(#[trigger] tail[i]) by {
            assert(tail[i] == a[i + 1]);
        }
        plain_text_is_shown(tail, rest);
        assert(s.skip(1) =~= tail + rest);
        inline_behind(s, 1, 0);
        assert(inline_from(s, 0) =~= a + inline_from(rest, 0));
    }
}

/// Text between backquotes is shown as code, as it stands, and what follows it is shown as it is alone.
pub proof fn code_is_shown(b: Seq<char>, rest: Seq<char>)
    requires
        !b.contains('`'),
    ensures
        inline_from(seq!['`'] + b + seq!['`'] + rest, 0) == screen::inline_code(b) + inline_from(
            rest,
            0,
        ),
{
    let head = seq!['`'] + b + seq!['`'];
    let s = head + rest;
    let end = b.len() as int + 1;
    assert forall|j: int| 1 <= j < end implies #[trigger] s[j] != '`' by {
        assert(s[j] == b[j - 1]);
    }
    assert(s[end] == '`');
    char_found(s, '`', 1, end);
    assert(s[0] == '`');
    assert(inline_at(s, 0) == Inline::Code(end));
    assert(s.subrange(1, end) =~= b);
    shown_behind(head, rest);
}

/// Code stands in its place: the text before it and behind it is not lost.
pub proof fn code_stands_in_its_place(a: Seq<char>, b: Seq<char>, c: Seq<char>)
    requires
        forall|i: int| 0 <= i < a.len() ==> !is_mark(#[trigger] a[i]),
        !b.contains('`'),
        forall|i: int| 0 <= i < c.len() ==> !is_mark(#[trigger] c[i]),
    ensures
        inline_from(a + seq!['`'] + b + seq!['`'] + c, 0) == a + screen::inline_code(b) + c,
{
    let code = seq!['`'] + b + seq!['`'] + c;
    assert(a + seq!['`'] + b + seq!['`'] + c =~= a + code);
    plain_text_is_shown(a, code);
    code_is_shown(b, c);
    let none = Seq::<char>::empty();
    plain_text_is_shown(c, none);
    assert(c + none =~= c);
    assert(inline_from(none, 0) =~= none);
    assert(a + (screen::inline_code(b) + c) =~= a + screen::inline_code(b) + c);
}

/// A backquote that is not followed by another one is shown as it is.
pub proof fn lone_backquote_is_shown(b: Seq<char>)
    requires
        !b.contains('`'),
    ensures
        inline_from(seq!['`'] + b, 0) == seq!['`'] + inline_from(b, 0),
{
    let s = seq!['`'] + b;
    assert forall|j: int| 1 <= j < s.len() implies #[trigger] s[j] != '`' by {
        assert(s[j] == b[j - 1]);
    }
    char_not_found(s, '`', 1);
    assert(s[0] == '`');
    assert(inline_at(s, 0) == Inline::Plain);
    shown_behind(seq!['`'], b);
}

#[verifier::rlimit(60)]
proof fn paired(b: Seq<char>, rest: Seq<char>, c: char)
    requires
        !text::contains_text(b, seq![c, c]),
        b.len() > 0 ==> b.last() != c,
    ensures
        ({
            let s = seq![c, c] + b + seq![c, c] + rest;
            &&& pair_at(s, c, 0)
            &&& next_pair(s, c, 2) == Some(b.len() as int + 2)
            &&& s.subrange(2, b.len() as int + 2) == b
            &&& inline_from(s, b.len() as int + 4) == inline_from(rest, 0)
        }),
{
    let head = seq![c, c] + b + seq![c, c];
    let s = head + rest;
    let end = b.len() as int + 2;
    assert(s[0] == c && s[1] == c && s[end] == c && s[end + 1] == c);
    assert forall|j: int| 2 <= j < end implies !#[trigger] pair_at(s, c, j) by {
        assert(s[j] == b[j - 2]);
        if j + 1 < end {
            assert(s[j + 1] == b[j - 1]);
            if pair_at(s, c, j) {
                pair_occurs(b, c, j - 2);
                assert(text::occurs_at(b, seq![c, c], j - 2));
            }
        }
    }
    pair_found(s, c, 2, end);
    assert(s.subrange(2, end) =~= b);
    shown_behind(head, rest);
}

/// Text between doubled stars or doubled underscores is bold, with its own markup shown, and what
/// follows it is shown as it is alone.
pub proof fn bold_is_shown(b: Seq<char>, rest: Seq<char>, c: char)
    requires
        c == '*' || c == '_',
        !text::contains_text(b, seq![c, c]),
        b.len() > 0 ==> b.last() != c,
    ensures
        inline_from(seq![c, c] + b + seq![c, c] + rest, 0) == screen::bold(inline_from(b, 0))
            + inline_from(rest, 0),
{
    let s = seq![c, c] + b + seq![c, c] + rest;
    paired(b, rest, c);
    assert(inline_at(s, 0) == Inline::Bold(b.len() as int + 2));
}

/// Text between doubled tildes is struck through, with its own markup shown, and what follows it is
/// shown as it is alone.
pub proof fn struck_is_shown(b: Seq<char>, rest: Seq<char>)
    requires
        !text::contains_text(b, seq!['~', '~']),
        b.len() > 0 ==> b.last() != '~',
    ensures
        inline_from(seq!['~', '~'] + b + seq!['~', '~'] + rest, 0) == screen::strikethrough(
            inline_from(b, 0),
        ) + inline_from(rest, 0),
{
    let s = seq!['~', '~'] + b + seq!['~', '~'] + rest;
    paired(b, rest, '~');
    assert(inline_at(s, 0) == Inline::Struck(b.len() as int + 2));
}

/// Text that is not blank between stars or underscores is italic, with its own markup shown, and what
/// follows it is shown as it is alone.
pub proof fn italic_is_shown(b: Seq<char>, rest: Seq<char>, c: char)
    requires
        c == '*' || c == '_',
        !b.contains(c),
        text::trim(b).len() > 0,
    ensures
        inline_from(seq![c] + b + seq![c] + rest, 0) == screen::italic(inline_from(b, 0))
            + inline_from(rest, 0),
{
    let head = seq![c] + b + seq![c];
    let s = head + rest;
    let end = b.len() as int + 1;
    assert(b.len() > 0) by {
        let place = text::trimmed_part(b);
    }
    assert forall|j: int| 1 <= j < end implies #[trigger] s[j] != c by {
        assert(s[j] == b[j - 1]);
    }
    assert(s[0] == c && s[end] == c);
    assert(s[1] == b[0]);
    char_found(s, c, 1, end);
    assert(s.subrange(1, end) =~= b);
    assert(inline_at(s, 0) == Inline::Italic(end));
    shown_behind(head, rest);
}

/// A star or an underscore that is not followed by another one is shown as it is.
pub proof fn lone_mark_is_shown(b: Seq<char>, c: char)
    requires
        c == '*' || c == '_',
        !b.contains(c),
    ensures
        inline_from(seq![c] + b, 0) == seq![c] + inline_from(b, 0),
{
    let s = seq![c] + b;
    assert forall|j: int| 1 <= j < s.len() implies #[trigger] s[j] != c by {
        assert(s[j] == b[j - 1]);
    }
    char_not_found(s, c, 1);
    assert(s[0] == c);
    assert(inline_at(s, 0) == Inline::Plain);
    shown_behind(seq![c], b);
}

/// A link is shown as its label, with its own markup, and its address behind it where that is not the
/// label. What follows it is shown as it is alone.
#[verifier::rlimit(60)]
pub proof fn link_is_shown(label: Seq<char>, url: Seq<char>, rest: Seq<char>)
    requires
        !label.contains(']'),
        !url.contains(')'),
    ensures
        label != url ==> inline_from(
            seq!['['] + label + seq![']', '('] + url + seq![')'] + rest,
            0,
        ) == screen::link(inline_from(label, 0)) + screen::link_url(
            seq![' ', '('] + url + seq![')'],
        ) + inline_from(rest, 0),
        label == url ==> inline_from(
            seq!['['] + label + seq![']', '('] + url + seq![')'] + rest,
            0,
        ) == screen::link(inline_from(label, 0)) + inline_from(rest, 0),
{
    let head = seq!['['] + label + seq![']', '('] + url + seq![')'];
    let s = head + rest;
    let bracket = label.len() as int + 1;
    let paren = bracket + 2 + url.len();
    assert(s[0] == '[' && s[bracket] == ']' && s[bracket + 1] == '(' && s[paren]
        == ')');
    assert forall|j: int| 1 <= j < bracket implies #[trigger] s[j] != ']' by {
        assert(s[j] == label[j - 1]);
    }
    assert forall|j: int| bracket + 2 <= j < paren implies #[trigger] s[j] != ')' by {
        assert(s[j] == url[j - bracket - 2]);
    }
    char_found(s, ']', 1, bracket);
    char_found(s, ')', bracket + 2, paren);
    assert(inline_at(s, 0) == Inline::Link(bracket, paren));
    assert(s.subrange(1, bracket) =~= label);
    assert(s.subrange(bracket + 2, paren) =~= url);
    shown_behind(head, rest);
    reveal_strlit(" (");
    reveal_strlit(")");
    assert(" ("@ =~= seq![' ', '(']);
    assert(")"@ =~= seq![')']);
    let shown = screen::link(inline_from(label, 0));
    assert(shown + Seq::<char>::empty() =~= shown);
}

/// A character behind a backslash is shown as it is, whatever it would begin.
pub proof fn escaped_is_shown(c: char, rest: Seq<char>)
    ensures
        inline_from(seq!['\\', c] + rest, 0) == seq![c] + inline_from(rest, 0),
{
    let s = seq!['\\', c] + rest;
    assert(s[0] == '\\' && s[1] == c);
    assert(inline_at(s, 0) == Inline::Escaped(c));
    shown_behind(seq!['\\', c], rest);
}

/// A text without the characters that begin inline markup.
pub open spec fn without_marks(s: Seq<char>) -> Seq<char>
    decreases s.len(),
{
    if s.len() == 0 {
        Seq::empty()
    } else if is_mark(s.last()) {
        without_marks(s.drop_last())
    } else {
        without_marks(s.drop_last()).push(s.last())
    }
}

proof fn without_marks_in_two(a: Seq<char>, b: Seq<char>)
    ensures
        without_marks(a + b) == without_marks(a) + without_marks(b),
    decreases b.len(),
{
    if b.len() == 0 {
        assert(a + b =~= a);
        assert(without_marks(a) + without_marks(b) =~= without_marks(a));
    } else {
        without_marks_in_two(a, b.drop_last());
        assert((a + b).drop_last() =~= a + b.drop_last());
        assert((a + b).last() == b.last());
        assert(without_marks(a + b) =~= without_marks(a) + without_marks(b));
    }
}

proof fn without_marks_of_one(c: char)
    ensures
        without_marks(seq![c]) == (if is_mark(c) {
            Seq::empty()
        } else {
            seq![c]
        }),
{
    let none = Seq::<char>::empty();
    assert(seq![c].drop_last() =~= none);
    assert(without_marks(none) =~= none);
    assert(none.push(c) =~= seq![c]);
}

/// The text from `i` to `j` without marks, where marks stand at both ends.
proof fn between_marks(s: Seq<char>, i: int, a: int, b: int, j: int)
    requires
        0 <= i <= a <= b <= j <= s.len(),
        forall|k: int| i <= k < a ==> is_mark(#[trigger] s[k]),
        forall|k: int| b <= k < j ==> is_mark(#[trigger] s[k]),
    ensures
        without_marks(s.skip(i)) == without_marks(s.subrange(a, b)) + without_marks(s.skip(j)),
{
    let open = s.subrange(i, a);
    let inner = s.subrange(a, b);
    let close = s.subrange(b, j);
    assert(s.skip(i) =~= open + (inner + (close + s.skip(j))));
    without_marks_in_two(open, inner + (close + s.skip(j)));
    without_marks_in_two(inner, close + s.skip(j));
    without_marks_in_two(close, s.skip(j));
    assert forall|k: int| 0 <= k < open.len() implies is_mark(#[trigger] open[k]) by {
        assert(open[k] == s[i + k]);
    }
    assert forall|k: int| 0 <= k < close.len() implies is_mark(#[trigger] close[k]) by {
        assert(close[k] == s[b + k]);
    }
    all_marks(open);
    all_marks(close);
    assert(without_marks(s.skip(i)) =~= without_marks(inner) + without_marks(s.skip(j)));
}

proof fn all_marks(s: Seq<char>)
    requires
        forall|k: int| 0 <= k < s.len() ==> is_mark(#[trigger] s[k]),
    ensures
        without_marks(s) == Seq::<char>::empty(),
    decreases s.len(),
{
    if s.len() > 0 {
        assert(is_mark(s[s.len() - 1]));
        assert forall|k: int| 0 <= k < s.drop_last().len() implies is_mark(
            #[trigger] s.drop_last()[k],
        ) by {
            assert(s.drop_last()[k] == s[k]);
        }
        all_marks(s.drop_last());
    }
}

proof fn part_holds(s: Seq<char>, i: int, j: int, c: char)
    requires
        0 <= i <= j <= s.len(),
        !s.contains(c),
    ensures
        !s.subrange(i, j).contains(c),
{
    let part = s.subrange(i, j);
    if part.contains(c) {
        let k = choose|k: int| 0 <= k < part.len() && part[k] == c;
        assert(s[i + k] == c);
    }
}

/// Inline rendering loses no text, adds none and keeps its order: apart from the marks, what is seen
/// of a text without links is the text.
#[verifier::rlimit(60)]
pub proof fn inline_loses_no_text(s: Seq<char>, i: int)
    requires
        0 <= i <= s.len(),
        !s.contains('\x1b'),
        !s.contains('['),
    ensures
        without_marks(screen::visible(inline_from(s, i))) == without_marks(s.skip(i)),
        screen::scan_from(screen::Scan::Plain, inline_from(s, i)) == screen::Scan::Plain,
    decreases s.len(), s.len() - i,
{
    if i < s.len() {
        inline_places(s, i);
        screen::inline_codes();
        let c = s[i];
        text::first_at_is_first(s, seq!['`'], i + 1);
        text::first_at_is_first(s, seq!['*', '*'], i + 2);
        text::first_at_is_first(s, seq!['_', '_'], i + 2);
        text::first_at_is_first(s, seq!['~', '~'], i + 2);
        text::first_at_is_first(s, seq![c], i + 1);
        match inline_at(s, i) {
            Inline::Escaped(d) => {
                inline_loses_no_text(s, i + 2);
                one_is_seen(s, i + 1);
                screen::visible_adds_up(seq![d], inline_from(s, i + 2));
                without_marks_in_two(seq![d], screen::visible(inline_from(s, i + 2)));
                between_marks(s, i, i + 1, i + 2, i + 2);
                assert(s.subrange(i + 1, i + 2) =~= seq![d]);
            },
            Inline::Code(end) => {
                let inner = s.subrange(i + 1, end);
                char_occurs(s, '`', end);
                inline_loses_no_text(s, end + 1);
                part_holds(s, i + 1, end, '\x1b');
                screen::plain_is_visible(inner);
                screen::styled_shows_the_text("38;5;151"@, inner);
                joined_are_seen(screen::inline_code(inner), inline_from(s, end + 1));
                between_marks(s, i, i + 1, end, end + 1);
            },
            Inline::Link(bracket, paren) => {
                assert(s[i] == '[');
            },
            Inline::Bold(end) => {
                let inner = s.subrange(i + 2, end);
                pair_occurs(s, '*', end);
                pair_occurs(s, '_', end);
                inline_loses_no_text(s, end + 2);
                part_is_seen(s, i + 2, end);
                screen::styled_shows_the_text("1"@, inline_from(inner, 0));
                joined_are_seen(screen::bold(inline_from(inner, 0)), inline_from(s, end + 2));
                between_marks(s, i, i + 2, end, end + 2);
            },
            Inline::Struck(end) => {
                let inner = s.subrange(i + 2, end);
                pair_occurs(s, '~', end);
                inline_loses_no_text(s, end + 2);
                part_is_seen(s, i + 2, end);
                screen::styled_shows_the_text("9"@, inline_from(inner, 0));
                joined_are_seen(
                    screen::strikethrough(inline_from(inner, 0)),
                    inline_from(s, end + 2),
                );
                between_marks(s, i, i + 2, end, end + 2);
            },
            Inline::Italic(end) => {
                let inner = s.subrange(i + 1, end);
                char_occurs(s, c, end);
                inline_loses_no_text(s, end + 1);
                part_is_seen(s, i + 1, end);
                screen::styled_shows_the_text("3"@, inline_from(inner, 0));
                joined_are_seen(screen::italic(inline_from(inner, 0)), inline_from(s, end + 1));
                between_marks(s, i, i + 1, end, end + 1);
            },
            Inline::Plain => {
                inline_loses_no_text(s, i + 1);
                one_is_seen(s, i);
                joined_are_seen(seq![c], inline_from(s, i + 1));
                between_marks(s, i, i, i + 1, i + 1);
                assert(s.subrange(i, i + 1) =~= seq![c]);
            },
        }
    } else {
        assert(s.skip(i) =~= Seq::<char>::empty());
        assert(screen::visible(inline_from(s, i)) =~= Seq::<char>::empty());
    }
}

proof fn one_is_seen(s: Seq<char>, i: int)
    requires
        0 <= i < s.len(),
        !s.contains('\x1b'),
    ensures
        screen::visible(seq![s[i]]) == seq![s[i]],
        screen::scan_from(screen::Scan::Plain, seq![s[i]]) == screen::Scan::Plain,
{
    let one = seq![s[i]];
    assert(s.contains(s[i]));
    assert(!one.contains('\x1b')) by {
        if one.contains('\x1b') {
            let k = choose|k: int| 0 <= k < one.len() && one[k] == '\x1b';
            assert(one[k] == s[i]);
        }
    }
    screen::plain_is_visible(one);
}

proof fn joined_are_seen(a: Seq<char>, b: Seq<char>)
    requires
        screen::scan_from(screen::Scan::Plain, a) == screen::Scan::Plain,
    ensures
        without_marks(screen::visible(a + b)) == without_marks(screen::visible(a)) + without_marks(
            screen::visible(b),
        ),
        screen::scan_from(screen::Scan::Plain, a + b) == screen::scan_from(screen::Scan::Plain, b),
{
    screen::visible_adds_up(a, b);
    without_marks_in_two(screen::visible(a), screen::visible(b));
}

proof fn part_is_seen(s: Seq<char>, i: int, j: int)
    requires
        0 < i <= j <= s.len(),
        !s.contains('\x1b'),
        !s.contains('['),
    ensures
        without_marks(screen::visible(inline_from(s.subrange(i, j), 0))) == without_marks(
            s.subrange(i, j),
        ),
        screen::scan_from(screen::Scan::Plain, inline_from(s.subrange(i, j), 0))
            == screen::Scan::Plain,
    decreases s.len(), 0int,
{
    let inner = s.subrange(i, j);
    part_holds(s, i, j, '\x1b');
    part_holds(s, i, j, '[');
    inline_loses_no_text(inner, 0);
    assert(inner.skip(0) =~= inner);
}

/// What is seen of a text whose only markup are backquotes is the text without the paired ones: the
/// text before the first, the code, and what is seen of the rest.
pub proof fn paired_backquotes_are_not_seen(a: Seq<char>, b: Seq<char>, rest: Seq<char>)
    requires
        forall|i: int| 0 <= i < a.len() ==> !is_mark(#[trigger] a[i]),
        !a.contains('\x1b'),
        !b.contains('`'),
        !b.contains('\x1b'),
    ensures
        screen::visible(inline_from(a + seq!['`'] + b + seq!['`'] + rest, 0)) == a + b
            + screen::visible(inline_from(rest, 0)),
{
    let code = seq!['`'] + b + seq!['`'] + rest;
    assert(a + seq!['`'] + b + seq!['`'] + rest =~= a + code);
    plain_text_is_shown(a, code);
    code_is_shown(b, rest);
    screen::inline_codes();
    screen::plain_is_visible(a);
    screen::plain_is_visible(b);
    screen::styled_shows_the_text("38;5;151"@, b);
    screen::visible_adds_up(screen::inline_code(b), inline_from(rest, 0));
    screen::visible_adds_up(a, inline_from(code, 0));
    assert(a + (b + screen::visible(inline_from(rest, 0))) =~= a + b + screen::visible(
        inline_from(rest, 0),
    ));
}

/// Whether a block of code is open after lines depends on the fences among them alone: two runs of
/// lines leave it open where one of them does and the other does not.
pub proof fn code_open_in_two(a: Seq<Seq<char>>, b: Seq<Seq<char>>)
    ensures
        code_open(a + b) == (code_open(a) != code_open(b)),
    decreases b.len(),
{
    if b.len() == 0 {
        assert(a + b =~= a);
    } else {
        code_open_in_two(a, b.drop_last());
        assert((a + b).drop_last() =~= a + b.drop_last());
        assert((a + b).last() == b.last());
    }
}

/// Lines behind lines that leave no block of code open are shown as they are alone.
pub proof fn lines_are_shown_alone(a: Seq<Seq<char>>, b: Seq<Seq<char>>, width: nat)
    requires
        !code_open(a),
    ensures
        shown_lines(a + b, width) == shown_lines(a, width) + shown_lines(b, width),
    decreases b.len(),
{
    if b.len() == 0 {
        assert(a + b =~= a);
        assert(shown_lines(a, width) + shown_lines(b, width) =~= shown_lines(a, width));
    } else {
        lines_are_shown_alone(a, b.drop_last(), width);
        code_open_in_two(a, b.drop_last());
        assert((a + b).drop_last() =~= a + b.drop_last());
        assert((a + b).last() == b.last());
        assert(shown_lines(a + b, width) =~= shown_lines(a, width) + shown_lines(b, width));
    }
}

/// One line alone.
pub proof fn one_line_is_shown(line: Seq<char>, width: nat)
    ensures
        shown_lines(seq![line], width) == shown_line(line, false, width),
{
    let none = Seq::<Seq<char>>::empty();
    assert(seq![line].drop_last() =~= none);
    assert(shown_lines(none, width) =~= none);
    assert(none + shown_line(line, false, width) =~= shown_line(line, false, width));
}

proof fn code_stays_open(open: Seq<char>, body: Seq<Seq<char>>)
    requires
        is_fence(open),
        forall|i: int| 0 <= i < body.len() ==> !is_fence(#[trigger] body[i]),
    ensures
        code_open(seq![open] + body),
    decreases body.len(),
{
    if body.len() == 0 {
        assert((seq![open] + body).drop_last() =~= Seq::<Seq<char>>::empty());
        assert((seq![open] + body).last() == open);
        assert(!code_open(Seq::<Seq<char>>::empty()));
    } else {
        let front = body.drop_last();
        assert(forall|i: int| 0 <= i < front.len() ==> front[i] == body[i]);
        assert(!is_fence(body[body.len() - 1]));
        code_stays_open(open, front);
        assert((seq![open] + body).drop_last() =~= seq![open] + front);
        assert((seq![open] + body).last() == body.last());
    }
}

/// What lines of code are shown as, one after the other.
pub open spec fn code_lines(body: Seq<Seq<char>>, width: nat) -> Seq<Seq<char>>
    decreases body.len(),
{
    if body.len() == 0 {
        Seq::empty()
    } else {
        (if text::trim(body[0]).len() == 0 {
            seq![Seq::empty()]
        } else {
            wrap::wrapped_beside(screen::code_block_line(text::trim(body[0])), "  "@, width)
        }) + code_lines(body.subrange(1, body.len() as int), width)
    }
}

proof fn code_lines_push(body: Seq<Seq<char>>, line: Seq<char>, width: nat)
    ensures
        code_lines(body.push(line), width) == code_lines(body, width) + (if text::trim(line).len()
            == 0 {
            seq![Seq::empty()]
        } else {
            wrap::wrapped_beside(screen::code_block_line(text::trim(line)), "  "@, width)
        }),
    decreases body.len(),
{
    let none = Seq::<Seq<char>>::empty();
    let all = body.push(line);
    if body.len() == 0 {
        assert(all[0] == line);
        assert(all.subrange(1, 1) =~= none);
        assert(code_lines(none, width) =~= none);
        assert(code_lines(all, width) =~= code_lines(body, width) + (if text::trim(line).len()
            == 0 {
            seq![Seq::empty()]
        } else {
            wrap::wrapped_beside(screen::code_block_line(text::trim(line)), "  "@, width)
        }));
    } else {
        let rest = body.subrange(1, body.len() as int);
        code_lines_push(rest, line, width);
        assert(all[0] == body[0]);
        assert(all.subrange(1, all.len() as int) =~= rest.push(line));
        assert(code_lines(all, width) =~= code_lines(body, width) + (if text::trim(line).len()
            == 0 {
            seq![Seq::empty()]
        } else {
            wrap::wrapped_beside(screen::code_block_line(text::trim(line)), "  "@, width)
        }));
    }
}

proof fn fenced_body(open: Seq<char>, body: Seq<Seq<char>>, width: nat)
    requires
        is_fence(open),
        forall|i: int| 0 <= i < body.len() ==> !is_fence(#[trigger] body[i]),
    ensures
        shown_lines(seq![open] + body, width) == seq![screen::code_block_border(text::trim(open))]
            + code_lines(body, width),
    decreases body.len(),
{
    reveal_strlit("```");
    assert(text::trim(open).len() >= 3);
    if body.len() == 0 {
        assert(seq![open] + body =~= seq![open]);
        one_line_is_shown(open, width);
        assert(shown_line(open, false, width) + code_lines(body, width) =~= shown_line(
            open,
            false,
            width,
        ));
    } else {
        let front = body.drop_last();
        let line = body.last();
        assert(forall|i: int| 0 <= i < front.len() ==> front[i] == body[i]);
        assert(!is_fence(body[body.len() - 1]));
        fenced_body(open, front, width);
        code_stays_open(open, front);
        assert((seq![open] + body).drop_last() =~= seq![open] + front);
        assert((seq![open] + body).last() == line);
        assert(front.push(line) =~= body);
        code_lines_push(front, line, width);
        assert(shown_lines(seq![open] + body, width) =~= seq![
            screen::code_block_border(text::trim(open)),
        ] + code_lines(body, width));
    }
}

/// A block of code is shown with its fences, and every line between them as code: no markup in it is
/// read. What follows the block is shown as it is alone.
pub proof fn code_blocks_are_shown(
    open: Seq<char>,
    body: Seq<Seq<char>>,
    close: Seq<char>,
    rest: Seq<Seq<char>>,
    width: nat,
)
    requires
        is_fence(open),
        is_fence(close),
        forall|i: int| 0 <= i < body.len() ==> !is_fence(#[trigger] body[i]),
    ensures
        shown_lines(seq![open] + body + seq![close] + rest, width) == seq![
            screen::code_block_border(text::trim(open)),
        ] + code_lines(body, width) + seq![screen::code_block_border(text::trim(close))]
            + shown_lines(rest, width),
{
    reveal_strlit("```");
    assert(text::trim(close).len() >= 3);
    let inner = seq![open] + body;
    let block = inner + seq![close];
    fenced_body(open, body, width);
    code_stays_open(open, body);
    assert(block.drop_last() =~= inner);
    assert(block.last() == close);
    assert(!code_open(block));
    lines_are_shown_alone(block, rest, width);
}

proof fn leading_of(c: char, n: nat, rest: Seq<char>)
    requires
        rest.len() > 0 ==> rest[0] != c,
    ensures
        leading(text::repeated(c, n) + rest, c) == n,
        (text::repeated(c, n) + rest).skip(n as int) == rest,
    decreases n,
{
    let s = text::repeated(c, n) + rest;
    assert(s.skip(n as int) =~= rest);
    if n == 0 {
        assert(s =~= rest);
    } else {
        assert(s[0] == c);
        assert(s.skip(1) =~= text::repeated(c, (n - 1) as nat) + rest);
        leading_of(c, (n - 1) as nat, rest);
    }
}

/// One to six number signs and a space make a heading of the text behind them, with its markup shown.
pub proof fn headings_are_shown(level: nat, title: Seq<char>, width: nat)
    requires
        1 <= level <= 6,
        title.len() > 0,
        !text::is_white(title[0]),
        !text::is_white(title.last()),
    ensures
        shown_line(text::repeated('#', level) + seq![' '] + title, false, width) == seq![
            screen::heading(level, inline_from(title, 0)),
        ],
{
    let signs = text::repeated('#', level);
    let raw = signs + seq![' '] + title;
    assert(raw[0] == '#');
    assert(raw.last() == title.last());
    assert(!text::is_white('#'));
    text::trim_keeps(raw);
    reveal_strlit("```");
    reveal_strlit("    ");
    assert("```"@[0] == '`');
    assert("    "@[0] == ' ');
    assert(!text::has_prefix(raw, "```"@)) by {
        if text::has_prefix(raw, "```"@) {
            assert(raw.take(3)[0] == raw[0]);
        }
    }
    assert(!text::has_prefix(raw, "    "@)) by {
        if text::has_prefix(raw, "    "@) {
            assert(raw.take(4)[0] == raw[0]);
        }
    }
    assert(!is_rule(raw)) by {
        assert(text::trim(raw)[0] == '#');
    }
    assert(raw =~= signs + (seq![' '] + title));
    leading_of('#', level, seq![' '] + title);
    assert(raw[level as int] == ' ');
    assert(raw.skip(level as int + 1) =~= title);
    text::trim_keeps(title);
}

/// A dash, a star or a plus sign and a space make an item of the text behind them, and so does a number
/// with a point and a space. The bullet is shown with the spaces before it, on the first line alone.
pub proof fn list_items_are_read(indent: nat, bullet: Seq<char>, item: Seq<char>)
    requires
        bullet == seq!['-', ' '] || bullet == seq!['*', ' '] || bullet == seq!['+', ' '] || (
        bullet.len() > 2 && bullet[bullet.len() - 2] == '.' && bullet.last() == ' ' && forall|
            i: int,
        |
            0 <= i < bullet.len() - 2 ==> is_digit(#[trigger] bullet[i])),
        item.len() > 0 ==> !text::is_white(item[0]),
    ensures
        list_item_of(text::repeated(' ', indent) + bullet + item) == Some(
            (text::repeated(' ', indent) + bullet, item),
        ),
{
    let raw = text::repeated(' ', indent) + bullet + item;
    let rest = bullet + item;
    assert(raw =~= text::repeated(' ', indent) + rest);
    assert(rest[0] == bullet[0]);
    leading_of(' ', indent, rest);
    reveal_strlit("- ");
    reveal_strlit("* ");
    reveal_strlit("+ ");
    assert("- "@ =~= seq!['-', ' ']);
    assert("* "@ =~= seq!['*', ' ']);
    assert("+ "@ =~= seq!['+', ' ']);
    let n = bullet.len() as int;
    assert(rest.take(n) =~= bullet);
    assert(rest.skip(n) =~= item);
    assert(text::trim_start(item) == item);
    if bullet.len() > 2 {
        digits_of(bullet.take(n - 2), seq!['.', ' '] + item);
        assert(rest =~= bullet.take(n - 2) + (seq!['.', ' '] + item));
        assert(rest[n - 2] == '.' && rest[n - 1] == ' ');
        assert(is_digit(bullet[0]));
        assert(rest.take(2)[0] == rest[0]);
    }
}

proof fn digits_of(digits: Seq<char>, rest: Seq<char>)
    requires
        forall|i: int| 0 <= i < digits.len() ==> is_digit(#[trigger] digits[i]),
        rest.len() > 0 ==> !is_digit(rest[0]),
    ensures
        leading_digits(digits + rest) == digits.len(),
    decreases digits.len(),
{
    let s = digits + rest;
    if digits.len() == 0 {
        assert(s =~= rest);
    } else {
        let tail = digits.skip(1);
        assert(s[0] == digits[0]);
        assert(s.skip(1) =~= tail + rest);
        assert forall|i: int| 0 <= i < tail.len() implies is_digit(#[trigger] tail[i]) by {
            assert(tail[i] == digits[i + 1]);
        }
        digits_of(tail, rest);
    }
}

/// As many signs as a quotation is deep are read as its depth, and the text behind them as its text.
pub proof fn quotations_are_read(depth: nat, rest: Seq<char>)
    requires
        depth > 0,
        rest.len() > 0 ==> rest[0] != '>' && !text::is_white(rest[0]),
    ensures
        quote_depth(text::repeated('>', depth) + seq![' '] + rest) == depth,
        quote_rest(text::repeated('>', depth) + seq![' '] + rest) == rest,
    decreases depth,
{
    let s = text::repeated('>', depth) + seq![' '] + rest;
    assert(s[0] == '>');
    if depth == 1 {
        let tail = seq![' '] + rest;
        assert(s.skip(1) =~= tail);
        assert(tail[0] == ' ');
        assert(text::is_white(' '));
        assert(tail.skip(1) =~= rest);
        assert(quote_depth(rest) == 0);
        assert(quote_rest(rest) == rest);
        assert(quote_depth(tail) == 0);
        assert(quote_rest(tail) == rest);
    } else {
        quotations_are_read((depth - 1) as nat, rest);
        assert(s.skip(1) =~= text::repeated('>', (depth - 1) as nat) + seq![' '] + rest);
    }
}

/// A line that is no heading, list item, quotation, table or rule is shown as its own words, with its
/// markup.
pub proof fn paragraphs_are_shown(line: Seq<char>, width: nat)
    requires
        line.len() > 0,
        ('a' <= line[0] <= 'z') || ('A' <= line[0] <= 'Z'),
        !text::is_white(line.last()),
    ensures
        shown_line(line, false, width) == wrap::wrapped(inline_from(line, 0), width),
{
    assert(!text::is_white(line[0]));
    text::trim_keeps(line);
    reveal_strlit("```");
    reveal_strlit("    ");
    reveal_strlit("@@");
    reveal_strlit("- ");
    reveal_strlit("* ");
    reveal_strlit("+ ");
    assert("```"@[0] == '`' && "    "@[0] == ' ' && "@@"@[0] == '@');
    assert("- "@[0] == '-' && "* "@[0] == '*' && "+ "@[0] == '+');
    if text::has_prefix(line, "```"@) {
        assert(line.take(3)[0] == line[0]);
    }
    if text::has_prefix(line, "    "@) {
        assert(line.take(4)[0] == line[0]);
    }
    if text::has_prefix(line, "@@"@) {
        assert(line.take(2)[0] == line[0]);
    }
    assert(!is_rule(line)) by {
        assert(text::trim(line)[0] == line[0]);
    }
    assert(leading(line, '#') == 0);
    assert(quote_depth(line) == 0);
    assert(leading(line, ' ') == 0);
    assert(line.skip(0) =~= line);
    assert(leading_digits(line) == 0);
    assert(line.take(2)[0] == line[0] || line.len() < 2);
}

} // verus!
