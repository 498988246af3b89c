//! Text on a screen: how many columns it takes, how it is cut to a width, and how it is styled.
//!
//! A styled text holds escape sequences: an escape character, an opening bracket, and what follows
//! up to a character from `@` to `~`. An escape character with another character after it is a
//! sequence too. Sequences take no columns. Every other character takes one.
use vstd::prelude::*;
use crate::text;
use crate::text::{begins_with, cat3, cat5, chars_of, copy_text, decimal_text, repeat_char, same};

verus! {

broadcast use crate::text::group_texts;

/// Where a text stands with respect to escape sequences.
#[derive(Clone, Copy, Debug, PartialEq, Eq, Structural)]
pub enum Scan {
    Plain,
    Escape,
    Sequence,
}

/// Where a text stands after one more character.
pub open spec fn scan_step(scan: Scan, c: char) -> Scan {
    match scan {
        Scan::Plain => if c == '\x1b' {
            Scan::Escape
        } else {
            Scan::Plain
        },
        Scan::Escape => if c == '[' {
            Scan::Sequence
        } else {
            Scan::Plain
        },
        Scan::Sequence => if '@' <= c <= '~' {
            Scan::Plain
        } else {
            Scan::Sequence
        },
    }
}

/// Whether a character takes a column.
pub open spec fn takes_column(scan: Scan, c: char) -> bool {
    scan == Scan::Plain && c != '\x1b'
}

fn step(scan: Scan, c: char) -> (r: Scan)
    ensures
        r == scan_step(scan, c),
{
    match scan {
        Scan::Plain => if c == '\x1b' {
            Scan::Escape
        } else {
            Scan::Plain
        },
        Scan::Escape => if c == '[' {
            Scan::Sequence
        } else {
            Scan::Plain
        },
        Scan::Sequence => if '@' <= c && c <= '~' {
            Scan::Plain
        } else {
            Scan::Sequence
        },
    }
}

fn column(scan: Scan, c: char) -> (r: bool)
    ensures
        r == takes_column(scan, c),
{
    scan == Scan::Plain && c != '\x1b'
}

/// Where a text stands after `s`, started at `scan`.
pub open spec fn scan_from(scan: Scan, s: Seq<char>) -> Scan
    decreases s.len(),
{
    if s.len() == 0 {
        scan
    } else {
        scan_step(scan_from(scan, s.drop_last()), s.last())
    }
}

/// How many columns `s` takes, started at `scan`.
pub open spec fn width_from(scan: Scan, s: Seq<char>) -> nat
    decreases s.len(),
{
    if s.len() == 0 {
        0
    } else {
        width_from(scan, s.drop_last()) + (if takes_column(
            scan_from(scan, s.drop_last()),
            s.last(),
        ) {
            1nat
        } else {
            0nat
        })
    }
}

/// How many columns a text takes.
pub open spec fn width_of(s: Seq<char>) -> nat {
    width_from(Scan::Plain, s)
}

/// A text cut to at most `n` columns. The escape sequences stay, also those after the cut.
pub open spec fn cut(s: Seq<char>, n: nat) -> Seq<char>
    decreases s.len(),
{
    if s.len() == 0 {
        s
    } else {
        let front = s.drop_last();
        if takes_column(scan_from(Scan::Plain, front), s.last()) && width_of(front) >= n {
            cut(front, n)
        } else {
            cut(front, n).push(s.last())
        }
    }
}

/// A text cut or filled with spaces to exactly `n` columns.
pub open spec fn fitted(s: Seq<char>, n: nat) -> Seq<char> {
    if width_of(s) >= n {
        cut(s, n)
    } else {
        s + text::repeated(' ', (n - width_of(s)) as nat)
    }
}

/// How many columns a text takes.
pub fn visible_width(s: &str) -> (r: usize)
    ensures
        r == width_of(s@),
{
    let v = chars_of(s);
    let mut scan = Scan::Plain;
    let mut width: usize = 0;
    let mut i: usize = 0;
    assert(v@.take(0) =~= Seq::<char>::empty());
    while i < v.len()
        invariant
            0 <= i <= v.len(),
            width <= i,
            scan == scan_from(Scan::Plain, v@.take(i as int)),
            width == width_of(v@.take(i as int)),
        decreases v.len() - i,
    {
        assert(v@.take(i + 1).drop_last() =~= v@.take(i as int));
        if column(scan, v[i]) {
            width += 1;
        }
        scan = step(scan, v[i]);
        i += 1;
    }
    assert(v@.take(i as int) =~= v@);
    width
}

/// A text cut to at most `width` columns.
pub fn truncate_to_width(s: &str, width: usize) -> (r: String)
    ensures
        r@ == cut(s@, width as nat),
{
    let v = chars_of(s);
    let mut out = String::new();
    let mut scan = Scan::Plain;
    let mut used: usize = 0;
    let mut i: usize = 0;
    assert(v@.take(0) =~= Seq::<char>::empty());
    while i < v.len()
        invariant
            0 <= i <= v.len(),
            used <= i,
            scan == scan_from(Scan::Plain, v@.take(i as int)),
            used == width_of(v@.take(i as int)),
            out@ == cut(v@.take(i as int), width as nat),
        decreases v.len() - i,
    {
        assert(v@.take(i + 1).drop_last() =~= v@.take(i as int));
        if column(scan, v[i]) {
            if used < width {
                out.push(v[i]);
            }
            used += 1;
        } else {
            out.push(v[i]);
        }
        scan = step(scan, v[i]);
        i += 1;
    }
    assert(v@.take(i as int) =~= v@);
    out
}

/// A text cut or filled with spaces to exactly `width` columns.
pub fn fit_line(s: &str, width: u16) -> (r: String)
    ensures
        r@ == fitted(s@, width as nat),
{
    let used = visible_width(s);
    if used >= width as usize {
        truncate_to_width(s, width as usize)
    } else {
        text::cat2(s, repeat_char(' ', width as usize - used).as_str())
    }
}

proof fn scan_in_two(scan: Scan, a: Seq<char>, b: Seq<char>)
    ensures
        scan_from(scan, a + b) == scan_from(scan_from(scan, a), b),
        width_from(scan, a + b) == width_from(scan, a) + width_from(scan_from(scan, a), b),
    decreases b.len(),
{
    if b.len() == 0 {
        assert(a + b =~= a);
    } else {
        scan_in_two(scan, a, b.drop_last());
        assert((a + b).drop_last() =~= a + b.drop_last());
        assert((a + b).last() == b.last());
    }
}

/// Two texts take the columns of both, where the first one ends outside an escape sequence.
pub proof fn width_adds_up(a: Seq<char>, b: Seq<char>)
    requires
        scan_from(Scan::Plain, a) == Scan::Plain,
    ensures
        width_of(a + b) == width_of(a) + width_of(b),
        scan_from(Scan::Plain, a + b) == scan_from(Scan::Plain, b),
{
    scan_in_two(Scan::Plain, a, b);
}

proof fn cut_width(s: Seq<char>, n: nat)
    ensures
        scan_from(Scan::Plain, cut(s, n)) == scan_from(Scan::Plain, s),
        width_of(cut(s, n)) == (if width_of(s) <= n {
            width_of(s)
        } else {
            n
        }),
        width_of(s) <= n ==> cut(s, n) == s,
    decreases s.len(),
{
    if s.len() > 0 {
        let front = s.drop_last();
        cut_width(front, n);
        let shorter = cut(front, n);
        assert(shorter.push(s.last()).drop_last() =~= shorter);
        assert(front.push(s.last()) =~= s);
    }
}

/// A cut text takes as many columns as are allowed and there are. A text that keeps to the width
/// stays as it is, and cutting twice is cutting once. An escape sequence is never cut open.
pub proof fn cut_keeps_to_width(s: Seq<char>, n: nat)
    ensures
        width_of(cut(s, n)) == (if width_of(s) <= n {
            width_of(s)
        } else {
            n
        }),
        width_of(s) <= n ==> cut(s, n) == s,
        cut(cut(s, n), n) == cut(s, n),
        scan_from(Scan::Plain, cut(s, n)) == scan_from(Scan::Plain, s),
{
    cut_width(s, n);
    cut_width(cut(s, n), n);
}

proof fn width_of_spaces(n: nat)
    ensures
        width_of(text::repeated(' ', n)) == n,
        scan_from(Scan::Plain, text::repeated(' ', n)) == Scan::Plain,
    decreases n,
{
    if n > 0 {
        let fewer = text::repeated(' ', (n - 1) as nat);
        width_of_spaces((n - 1) as nat);
        assert(text::repeated(' ', n).drop_last() =~= fewer);
    }
}

/// A fitted text takes exactly the columns asked for, where it ends outside an escape sequence.
pub proof fn fitted_width(s: Seq<char>, n: nat)
    requires
        scan_from(Scan::Plain, s) == Scan::Plain,
    ensures
        width_of(fitted(s, n)) == n,
        scan_from(Scan::Plain, fitted(s, n)) == Scan::Plain,
{
    cut_width(s, n);
    if width_of(s) < n {
        let fill = text::repeated(' ', (n - width_of(s)) as nat);
        width_of_spaces((n - width_of(s)) as nat);
        width_adds_up(s, fill);
    }
}

/// The sequence that ends all styles.
pub const ANSI_RESET: &'static str = "\x1b[0m";

/// A text in a style.
pub open spec fn styled(code: Seq<char>, s: Seq<char>) -> Seq<char> {
    "\x1b["@ + code + "m"@ + s + ANSI_RESET@
}

/// A text in a style.
pub fn ansi(code: &str, s: &str) -> (r: String)
    ensures
        r@ == styled(code@, s@),
{
    cat5("\x1b[", code, "m", s, ANSI_RESET)
}

/// Whether a style code consists of digits and semicolons.
pub open spec fn is_code(code: Seq<char>) -> bool {
    forall|i: int| 0 <= i < code.len() ==> '0' <= #[trigger] code[i] <= ';'
}

proof fn code_stays_inside(code: Seq<char>)
    requires
        is_code(code),
    ensures
        scan_from(Scan::Sequence, code) == Scan::Sequence,
        width_from(Scan::Sequence, code) == 0,
    decreases code.len(),
{
    if code.len() > 0 {
        assert(code[code.len() - 1] == code.last());
        assert(forall|i: int| 0 <= i < code.drop_last().len() ==> code.drop_last()[i] == code[i]);
        code_stays_inside(code.drop_last());
    }
}

proof fn opening_takes_nothing(code: Seq<char>)
    requires
        is_code(code),
    ensures
        scan_from(Scan::Plain, "\x1b["@ + code + "m"@) == Scan::Plain,
        width_of("\x1b["@ + code + "m"@) == 0,
{
    let open = "\x1b["@;
    reveal_strlit("\x1b[");
    reveal_strlit("m");
    assert(open =~= seq!['\x1b', '[']);
    assert("m"@ =~= seq!['m']);
    let none = Seq::<char>::empty();
    assert(seq!['\x1b'].drop_last() =~= none);
    assert(scan_from(Scan::Plain, none) == Scan::Plain);
    assert(width_of(none) == 0);
    assert(scan_from(Scan::Plain, seq!['\x1b']) == Scan::Escape);
    assert(width_of(seq!['\x1b']) == 0);
    assert(open.drop_last() =~= seq!['\x1b']);
    assert(scan_from(Scan::Plain, open) == Scan::Sequence);
    assert(width_of(open) == 0);
    code_stays_inside(code);
    scan_in_two(Scan::Plain, open, code);
    let inside = open + code;
    assert((inside + "m"@).drop_last() =~= inside);
}

/// A style takes no columns.
pub proof fn styled_width(code: Seq<char>, s: Seq<char>)
    requires
        is_code(code),
        scan_from(Scan::Plain, s) == Scan::Plain,
    ensures
        width_of(styled(code, s)) == width_of(s),
        scan_from(Scan::Plain, styled(code, s)) == Scan::Plain,
{
    opening_takes_nothing(code);
    let open = "\x1b["@ + code + "m"@;
    width_adds_up(open, s);
    reveal_strlit("\x1b[0m");
    reveal_strlit("0");
    reveal_strlit("\x1b[");
    reveal_strlit("m");
    assert("0"@ =~= seq!['0']);
    assert(ANSI_RESET@ =~= "\x1b["@ + "0"@ + "m"@);
    opening_takes_nothing("0"@);
    width_adds_up(open + s, ANSI_RESET@);
}

/// What persistent styling has written, and where it stands.
pub struct Persisted {
    pub out: Seq<char>,
    pub scan: Scan,
}

/// A text whose style is put back after each reset inside it, up to some character. Here a
/// sequence ends at the letter `m`.
pub open spec fn persisted(opening: Seq<char>, s: Seq<char>) -> Persisted
    decreases s.len(),
{
    if s.len() == 0 {
        Persisted { out: opening, scan: Scan::Plain }
    } else {
        let before = persisted(opening, s.drop_last());
        let c = s.last();
        let out = before.out.push(c);
        match before.scan {
            Scan::Plain => Persisted {
                out,
                scan: if c == '\x1b' {
                    Scan::Escape
                } else {
                    Scan::Plain
                },
            },
            Scan::Escape => Persisted {
                out,
                scan: if c == '[' {
                    Scan::Sequence
                } else if c == '\x1b' {
                    Scan::Escape
                } else {
                    Scan::Plain
                },
            },
            Scan::Sequence => if c != 'm' {
                Persisted { out, scan: Scan::Sequence }
            } else if text::has_suffix(out, "[0m"@) {
                Persisted { out: out + opening, scan: Scan::Plain }
            } else {
                Persisted { out, scan: Scan::Plain }
            },
        }
    }
}

/// A text in a style that lasts through the resets inside it.
pub open spec fn styled_through(code: Seq<char>, s: Seq<char>) -> Seq<char> {
    persisted("\x1b["@ + code + "m"@, s).out + ANSI_RESET@
}

/// A text in a style that lasts through the resets inside it.
pub fn apply_persistent_style(code: &str, s: &str) -> (r: String)
    ensures
        r@ == styled_through(code@, s@),
{
    let opening = cat3("\x1b[", code, "m");
    let v = chars_of(s);
    let mut out = copy_text(opening.as_str());
    let mut scan = Scan::Plain;
    let mut i: usize = 0;
    assert(v@.take(0) =~= Seq::<char>::empty());
    while i < v.len()
        invariant
            0 <= i <= v.len(),
            out@ == persisted(opening@, v@.take(i as int)).out,
            scan == persisted(opening@, v@.take(i as int)).scan,
        decreases v.len() - i,
    {
        assert(v@.take(i + 1).drop_last() =~= v@.take(i as int));
        let c = v[i];
        out.push(c);
        match scan {
            Scan::Plain => {
                if c == '\x1b' {
                    scan = Scan::Escape;
                }
            },
            Scan::Escape => {
                if c == '[' {
                    scan = Scan::Sequence;
                } else if c != '\x1b' {
                    scan = Scan::Plain;
                }
            },
            Scan::Sequence => {
                if c == 'm' {
                    scan = Scan::Plain;
                    if text::ends_with(out.as_str(), "[0m") {
                        out.append(opening.as_str());
                    }
                }
            },
        }
        i += 1;
    }
    assert(v@.take(i as int) =~= v@);
    out.append(ANSI_RESET);
    out
}

/// The style of a brand.
pub open spec fn brand(s: Seq<char>) -> Seq<char> {
    styled("1;38;2;138;190;183"@, s)
}

/// The style of a brand.
pub fn style_brand(s: &str) -> (r: String)
    ensures
        r@ == brand(s@),
{
    ansi("1;38;2;138;190;183", s)
}

/// The style of a title.
pub open spec fn title(s: Seq<char>) -> Seq<char> {
    styled("1;38;2;129;162;190"@, s)
}

/// The style of a title.
pub fn style_title(s: &str) -> (r: String)
    ensures
        r@ == title(s@),
{
    ansi("1;38;2;129;162;190", s)
}

/// The style of a tool title.
pub open spec fn tool_title(s: Seq<char>) -> Seq<char> {
    styled("1;38;2;240;198;116"@, s)
}

/// The style of a tool title.
pub fn style_tool_title(s: &str) -> (r: String)
    ensures
        r@ == tool_title(s@),
{
    ansi("1;38;2;240;198;116", s)
}

/// The style of a subtitle.
pub open spec fn subtitle(s: Seq<char>) -> Seq<char> {
    styled("38;2;128;128;128"@, s)
}

/// The style of a subtitle.
pub fn style_subtitle(s: &str) -> (r: String)
    ensures
        r@ == subtitle(s@),
{
    ansi("38;2;128;128;128", s)
}

/// The style of a hint.
pub open spec fn hint(s: Seq<char>) -> Seq<char> {
    styled("38;2;128;128;128"@, s)
}

/// The style of a hint.
pub fn style_hint(s: &str) -> (r: String)
    ensures
        r@ == hint(s@),
{
    ansi("38;2;128;128;128", s)
}

/// The style of a dim.
pub open spec fn dim(s: Seq<char>) -> Seq<char> {
    styled("38;2;102;102;102"@, s)
}

/// The style of a dim.
pub fn style_dim(s: &str) -> (r: String)
    ensures
        r@ == dim(s@),
{
    ansi("38;2;102;102;102", s)
}

/// The style of a border.
pub open spec fn border(s: Seq<char>) -> Seq<char> {
    styled("38;2;80;80;80"@, s)
}

/// The style of a border.
pub fn style_border(s: &str) -> (r: String)
    ensures
        r@ == border(s@),
{
    ansi("38;2;80;80;80", s)
}

/// The style of a startup section title.
pub open spec fn startup_section_title(s: Seq<char>) -> Seq<char> {
    styled("1;38;2;240;198;116"@, s)
}

/// The style of a startup section title.
pub fn style_startup_section_title(s: &str) -> (r: String)
    ensures
        r@ == startup_section_title(s@),
{
    ansi("1;38;2;240;198;116", s)
}

/// The style of a bash border rule.
pub open spec fn bash_border_rule(s: Seq<char>) -> Seq<char> {
    styled("38;2;181;189;104"@, s)
}

/// The style of a bash border rule.
pub fn style_bash_border_rule(s: &str) -> (r: String)
    ensures
        r@ == bash_border_rule(s@),
{
    ansi("38;2;181;189;104", s)
}

/// The style of a warning.
pub open spec fn warning(s: Seq<char>) -> Seq<char> {
    styled("38;2;255;255;0"@, s)
}

/// The style of a warning.
pub fn style_warning(s: &str) -> (r: String)
    ensures
        r@ == warning(s@),
{
    ansi("38;2;255;255;0", s)
}

/// The style of an error.
pub open spec fn error(s: Seq<char>) -> Seq<char> {
    styled("1;38;2;204;102;102"@, s)
}

/// The style of an error.
pub fn style_error(s: &str) -> (r: String)
    ensures
        r@ == error(s@),
{
    ansi("1;38;2;204;102;102", s)
}

/// The style of a success.
pub open spec fn success(s: Seq<char>) -> Seq<char> {
    styled("38;2;181;189;104"@, s)
}

/// The style of a success.
pub fn style_success(s: &str) -> (r: String)
    ensures
        r@ == success(s@),
{
    ansi("38;2;181;189;104", s)
}

/// The style of an user surface.
pub open spec fn user_surface(s: Seq<char>) -> Seq<char> {
    styled_through("48;5;237;38;5;255"@, s)
}

/// The style of an user surface.
pub fn style_user_surface(s: &str) -> (r: String)
    ensures
        r@ == user_surface(s@),
{
    apply_persistent_style("48;5;237;38;5;255", s)
}

/// The style of a custom surface.
pub open spec fn custom_surface(s: Seq<char>) -> Seq<char> {
    styled_through("48;5;236;38;5;255"@, s)
}

/// The style of a custom surface.
pub fn style_custom_surface(s: &str) -> (r: String)
    ensures
        r@ == custom_surface(s@),
{
    apply_persistent_style("48;5;236;38;5;255", s)
}

/// The style of a custom label.
pub open spec fn custom_label(s: Seq<char>) -> Seq<char> {
    styled("1;38;5;141"@, s)
}

/// The style of a custom label.
pub fn style_custom_label(s: &str) -> (r: String)
    ensures
        r@ == custom_label(s@),
{
    ansi("1;38;5;141", s)
}

/// The style of a custom text.
pub open spec fn custom_text(s: Seq<char>) -> Seq<char> {
    styled("38;5;189"@, s)
}

/// The style of a custom text.
pub fn style_custom_text(s: &str) -> (r: String)
    ensures
        r@ == custom_text(s@),
{
    ansi("38;5;189", s)
}

/// The style of a selected row.
pub open spec fn selected_row(s: Seq<char>) -> Seq<char> {
    styled_through("48;5;236"@, s)
}

/// The style of a selected row.
pub fn style_selected_row(s: &str) -> (r: String)
    ensures
        r@ == selected_row(s@),
{
    apply_persistent_style("48;5;236", s)
}

/// The style of a thinking surface.
pub open spec fn thinking_surface(s: Seq<char>) -> Seq<char> {
    styled_through("3;38;5;244"@, s)
}

/// The style of a thinking surface.
pub fn style_thinking_surface(s: &str) -> (r: String)
    ensures
        r@ == thinking_surface(s@),
{
    apply_persistent_style("3;38;5;244", s)
}

/// The style of an inline code.
pub open spec fn inline_code(s: Seq<char>) -> Seq<char> {
    styled("38;5;151"@, s)
}

/// The style of an inline code.
pub fn style_inline_code(s: &str) -> (r: String)
    ensures
        r@ == inline_code(s@),
{
    ansi("38;5;151", s)
}

/// The style of a code block border.
pub open spec fn code_block_border(s: Seq<char>) -> Seq<char> {
    styled("38;5;244"@, s)
}

/// The style of a code block border.
pub fn style_code_block_border(s: &str) -> (r: String)
    ensures
        r@ == code_block_border(s@),
{
    ansi("38;5;244", s)
}

/// The style of a code block line.
pub open spec fn code_block_line(s: Seq<char>) -> Seq<char> {
    styled("38;5;114"@, s)
}

/// The style of a code block line.
pub fn style_code_block_line(s: &str) -> (r: String)
    ensures
        r@ == code_block_line(s@),
{
    ansi("38;5;114", s)
}

/// The style of a link.
pub open spec fn link(s: Seq<char>) -> Seq<char> {
    styled("4;38;5;110"@, s)
}

/// The style of a link.
pub fn style_markdown_link(s: &str) -> (r: String)
    ensures
        r@ == link(s@),
{
    ansi("4;38;5;110", s)
}

/// The style of a link url.
pub open spec fn link_url(s: Seq<char>) -> Seq<char> {
    styled("38;5;244"@, s)
}

/// The style of a link url.
pub fn style_markdown_link_url(s: &str) -> (r: String)
    ensures
        r@ == link_url(s@),
{
    ansi("38;5;244", s)
}

/// The style of a bold.
pub open spec fn bold(s: Seq<char>) -> Seq<char> {
    styled("1"@, s)
}

/// The style of a bold.
pub fn style_markdown_bold(s: &str) -> (r: String)
    ensures
        r@ == bold(s@),
{
    ansi("1", s)
}

/// The style of an italic.
pub open spec fn italic(s: Seq<char>) -> Seq<char> {
    styled("3"@, s)
}

/// The style of an italic.
pub fn style_markdown_italic(s: &str) -> (r: String)
    ensures
        r@ == italic(s@),
{
    ansi("3", s)
}

/// The style of a strikethrough.
pub open spec fn strikethrough(s: Seq<char>) -> Seq<char> {
    styled("9"@, s)
}

/// The style of a strikethrough.
pub fn style_markdown_strikethrough(s: &str) -> (r: String)
    ensures
        r@ == strikethrough(s@),
{
    ansi("9", s)
}

/// The style of a quote border.
pub open spec fn quote_border(s: Seq<char>) -> Seq<char> {
    styled("38;5;244"@, s)
}

/// The style of a quote border.
pub fn style_quote_border(s: &str) -> (r: String)
    ensures
        r@ == quote_border(s@),
{
    ansi("38;5;244", s)
}

/// The style of a quote text.
pub open spec fn quote_text(s: Seq<char>) -> Seq<char> {
    styled("3;38;5;244"@, s)
}

/// The style of a quote text.
pub fn style_quote_text(s: &str) -> (r: String)
    ensures
        r@ == quote_text(s@),
{
    ansi("3;38;5;244", s)
}

/// The style of a list bullet.
pub open spec fn list_bullet(s: Seq<char>) -> Seq<char> {
    styled("38;5;109"@, s)
}

/// The style of a list bullet.
pub fn style_list_bullet(s: &str) -> (r: String)
    ensures
        r@ == list_bullet(s@),
{
    ansi("38;5;109", s)
}

/// The style of a rule.
pub open spec fn rule(s: Seq<char>) -> Seq<char> {
    styled("38;5;240"@, s)
}

/// The style of a rule.
pub fn style_md_hr(s: &str) -> (r: String)
    ensures
        r@ == rule(s@),
{
    ansi("38;5;240", s)
}

/// The style of a diff removed.
pub open spec fn diff_removed(s: Seq<char>) -> Seq<char> {
    styled_through("38;5;203"@, s)
}

/// The style of a diff removed.
pub fn style_diff_removed_line(s: &str) -> (r: String)
    ensures
        r@ == diff_removed(s@),
{
    apply_persistent_style("38;5;203", s)
}

/// The style of a diff added.
pub open spec fn diff_added(s: Seq<char>) -> Seq<char> {
    styled_through("38;5;78"@, s)
}

/// The style of a diff added.
pub fn style_diff_added_line(s: &str) -> (r: String)
    ensures
        r@ == diff_added(s@),
{
    apply_persistent_style("38;5;78", s)
}

/// The style of a diff context.
pub open spec fn diff_context(s: Seq<char>) -> Seq<char> {
    styled_through("38;5;244"@, s)
}

/// The style of a diff context.
pub fn style_diff_context_line(s: &str) -> (r: String)
    ensures
        r@ == diff_context(s@),
{
    apply_persistent_style("38;5;244", s)
}

/// The style of a diff highlight.
pub open spec fn diff_highlight(s: Seq<char>) -> Seq<char> {
    styled("7"@, s)
}

/// The style of a diff highlight.
pub fn style_diff_highlight(s: &str) -> (r: String)
    ensures
        r@ == diff_highlight(s@),
{
    ansi("7", s)
}

/// The style of a heading; from the third level on the number signs are shown.
pub open spec fn heading(level: nat, s: Seq<char>) -> Seq<char> {
    if level == 1 {
        styled("1;4;38;5;222"@, s)
    } else if level == 2 {
        styled("1;38;5;222"@, s)
    } else {
        styled("1;38;5;222"@, text::repeated('#', level) + " "@ + s)
    }
}

/// The style of a heading.
pub fn style_markdown_heading(level: usize, s: &str) -> (r: String)
    ensures
        r@ == heading(level as nat, s@),
{
    if level == 1 {
        ansi("1;4;38;5;222", s)
    } else if level == 2 {
        ansi("1;38;5;222", s)
    } else {
        ansi("1;38;5;222", cat3(repeat_char('#', level).as_str(), " ", s).as_str())
    }
}

/// The style of the name that stands before a message.
pub open spec fn prefix_style(prefix: Seq<char>) -> Seq<char> {
    if text::has_prefix(prefix, "Tool "@) {
        tool_title(prefix)
    } else if prefix == "You"@ {
        styled("1;38;5;81"@, prefix)
    } else if prefix == "Assistant"@ {
        styled("1;38;5;117"@, prefix)
    } else if prefix == "Thinking"@ {
        hint(prefix)
    } else if prefix == "Bash"@ {
        styled("1;38;5;214"@, prefix)
    } else if prefix == "Running"@ {
        warning(prefix)
    } else {
        styled("1"@, prefix)
    }
}

/// The style of the name that stands before a message.
pub fn style_prefix(prefix: &str) -> (r: String)
    ensures
        r@ == prefix_style(prefix@),
{
    if begins_with(prefix, "Tool ") {
        style_tool_title(prefix)
    } else if same(prefix, "You") {
        ansi("1;38;5;81", prefix)
    } else if same(prefix, "Assistant") {
        ansi("1;38;5;117", prefix)
    } else if same(prefix, "Thinking") {
        style_hint(prefix)
    } else if same(prefix, "Bash") {
        ansi("1;38;5;214", prefix)
    } else if same(prefix, "Running") {
        style_warning(prefix)
    } else {
        ansi("1", prefix)
    }
}

/// A text in a color given by its three parts.
pub open spec fn colored(r: nat, g: nat, b: nat, s: Seq<char>) -> Seq<char> {
    styled(
        "38;2;"@ + text::decimal(r) + ";"@ + text::decimal(g) + ";"@ + text::decimal(b),
        s,
    )
}

/// A text in a color given by its three parts.
pub fn ansi_rgb(r: u8, g: u8, b: u8, s: &str) -> (out: String)
    ensures
        out@ == colored(r as nat, g as nat, b as nat, s@),
{
    let mut code = cat5(
        "38;2;",
        decimal_text(r as u64).as_str(),
        ";",
        decimal_text(g as u64).as_str(),
        ";",
    );
    code.append(decimal_text(b as u64).as_str());
    ansi(code.as_str(), s)
}

/// A thinking level as it is shown: none counts as off.
pub open spec fn shown_level(level: Seq<char>) -> Seq<char> {
    if text::trim(level).len() == 0 {
        "off"@
    } else {
        text::trim(level)
    }
}

/// A thinking level as it is shown.
pub fn normalized_thinking_level(level: &str) -> (r: String)
    ensures
        r@ == shown_level(level@),
{
    let value = text::trimmed(level);
    if value.as_str().is_empty() {
        copy_text("off")
    } else {
        value
    }
}

/// The style of the lines around the prompt, by thinking level.
pub open spec fn thinking_rule(level: Seq<char>, s: Seq<char>) -> Seq<char> {
    let shown = shown_level(level);
    if shown == "minimal"@ {
        colored(110, 110, 110, s)
    } else if shown == "low"@ {
        colored(95, 135, 175, s)
    } else if shown == "medium"@ {
        colored(129, 162, 190, s)
    } else if shown == "high"@ {
        colored(178, 148, 187, s)
    } else if shown == "xhigh"@ {
        colored(209, 131, 232, s)
    } else {
        colored(80, 80, 80, s)
    }
}

/// The style of the lines around the prompt, by thinking level.
pub fn style_thinking_border_rule(level: &str, s: &str) -> (r: String)
    ensures
        r@ == thinking_rule(level@, s@),
{
    let value = normalized_thinking_level(level);
    let shown = value.as_str();
    if same(shown, "minimal") {
        ansi_rgb(110, 110, 110, s)
    } else if same(shown, "low") {
        ansi_rgb(95, 135, 175, s)
    } else if same(shown, "medium") {
        ansi_rgb(129, 162, 190, s)
    } else if same(shown, "high") {
        ansi_rgb(178, 148, 187, s)
    } else if same(shown, "xhigh") {
        ansi_rgb(209, 131, 232, s)
    } else {
        ansi_rgb(80, 80, 80, s)
    }
}

/// The characters of `s` that take columns, started at `scan`.
pub open spec fn visible_from(scan: Scan, s: Seq<char>) -> Seq<char>
    decreases s.len(),
{
    if s.len() == 0 {
        Seq::empty()
    } else {
        let front = s.drop_last();
        if takes_column(scan_from(scan, front), s.last()) {
            visible_from(scan, front).push(s.last())
        } else {
            visible_from(scan, front)
        }
    }
}

/// What a reader sees of a text: the text without its escape sequences.
pub open spec fn visible(s: Seq<char>) -> Seq<char> {
    visible_from(Scan::Plain, s)
}

/// Of two texts one after the other both are seen.
pub proof fn visible_in_two(scan: Scan, a: Seq<char>, b: Seq<char>)
    ensures
        visible_from(scan, a + b) == visible_from(scan, a) + visible_from(scan_from(scan, a), b),
        scan_from(scan, a + b) == scan_from(scan_from(scan, a), b),
    decreases b.len(),
{
    scan_in_two(scan, a, b);
    if b.len() == 0 {
        assert(a + b =~= a);
        assert(visible_from(scan, a) + visible_from(scan_from(scan, a), b) =~= visible_from(
            scan,
            a,
        ));
    } else {
        visible_in_two(scan, a, b.drop_last());
        scan_in_two(scan, a, b.drop_last());
        assert((a + b).drop_last() =~= a + b.drop_last());
        assert((a + b).last() == b.last());
        assert(visible_from(scan, a + b) =~= visible_from(scan, a) + visible_from(
            scan_from(scan, a),
            b,
        ));
    }
}

/// Of two texts one after the other both are seen, where the first one ends outside a sequence.
pub proof fn visible_adds_up(a: Seq<char>, b: Seq<char>)
    requires
        scan_from(Scan::Plain, a) == Scan::Plain,
    ensures
        visible(a + b) == visible(a) + visible(b),
        scan_from(Scan::Plain, a + b) == scan_from(Scan::Plain, b),
{
    visible_in_two(Scan::Plain, a, b);
}

/// A text takes as many columns as characters of it are seen.
pub proof fn visible_is_wide(scan: Scan, s: Seq<char>)
    ensures
        visible_from(scan, s).len() == width_from(scan, s),
    decreases s.len(),
{
    if s.len() > 0 {
        visible_is_wide(scan, s.drop_last());
    }
}

/// A text without escape characters is seen as it is.
pub proof fn plain_is_visible(s: Seq<char>)
    requires
        !s.contains('\x1b'),
    ensures
        visible(s) == s,
        scan_from(Scan::Plain, s) == Scan::Plain,
    decreases s.len(),
{
    if s.len() > 0 {
        let front = s.drop_last();
        assert(!front.contains('\x1b')) by {
            if front.contains('\x1b') {
                let i = choose|i: int| 0 <= i < front.len() && front[i] == '\x1b';
                assert(s[i] == '\x1b');
            }
        }
        plain_is_visible(front);
        assert(s[s.len() - 1] == s.last());
        assert(front.push(s.last()) =~= s);
    }
}

/// Cutting a text leaves the beginning of what is seen of it, as wide as it may be.
pub proof fn cut_shows_the_beginning(s: Seq<char>, n: nat)
    ensures
        visible(cut(s, n)) == visible(s).take(if visible(s).len() <= n {
            visible(s).len() as int
        } else {
            n as int
        }),
    decreases s.len(),
{
    visible_is_wide(Scan::Plain, s);
    if s.len() > 0 {
        let front = s.drop_last();
        cut_shows_the_beginning(front, n);
        visible_is_wide(Scan::Plain, front);
        cut_width(front, n);
        let shorter = cut(front, n);
        assert(shorter.push(s.last()).drop_last() =~= shorter);
        assert(visible(cut(s, n)) =~= visible(s).take(if visible(s).len() <= n {
            visible(s).len() as int
        } else {
            n as int
        }));
    } else {
        assert(visible(s).take(0) =~= visible(s));
    }
}

proof fn nothing_is_seen(scan: Scan, s: Seq<char>)
    requires
        width_from(scan, s) == 0,
    ensures
        visible_from(scan, s) == Seq::<char>::empty(),
{
    visible_is_wide(scan, s);
    assert(visible_from(scan, s) =~= Seq::<char>::empty());
}

proof fn reset_is_not_seen()
    ensures
        visible(ANSI_RESET@) == Seq::<char>::empty(),
        scan_from(Scan::Plain, ANSI_RESET@) == Scan::Plain,
{
    reveal_strlit("\x1b[0m");
    reveal_strlit("0");
    reveal_strlit("\x1b[");
    reveal_strlit("m");
    assert("0"@ =~= seq!['0']);
    assert(ANSI_RESET@ =~= "\x1b["@ + "0"@ + "m"@);
    opening_takes_nothing("0"@);
    nothing_is_seen(Scan::Plain, ANSI_RESET@);
}

/// A style changes nothing of what is seen.
pub proof fn styled_shows_the_text(code: Seq<char>, s: Seq<char>)
    requires
        is_code(code),
        scan_from(Scan::Plain, s) == Scan::Plain,
    ensures
        visible(styled(code, s)) == visible(s),
        scan_from(Scan::Plain, styled(code, s)) == Scan::Plain,
{
    opening_takes_nothing(code);
    let open = "\x1b["@ + code + "m"@;
    nothing_is_seen(Scan::Plain, open);
    visible_adds_up(open, s);
    reset_is_not_seen();
    visible_adds_up(open + s, ANSI_RESET@);
    assert(visible(styled(code, s)) =~= visible(s));
}

/// Whether all sequences in a text, started at `scan`, are styles.
pub open spec fn only_styles_from(scan: Scan, s: Seq<char>) -> bool
    decreases s.len(),
{
    s.len() > 0 ==> {
        let front = s.drop_last();
        let here = scan_from(scan, front);
        &&& only_styles_from(scan, front)
        &&& here == Scan::Escape ==> s.last() == '['
        &&& here == Scan::Sequence && '@' <= s.last() <= '~' ==> s.last() == 'm'
    }
}

/// Whether all sequences in a text are styles.
pub open spec fn only_styles(s: Seq<char>) -> bool {
    only_styles_from(Scan::Plain, s)
}

proof fn styles_in_two(scan: Scan, a: Seq<char>, b: Seq<char>)
    ensures
        only_styles_from(scan, a + b) == (only_styles_from(scan, a) && only_styles_from(
            scan_from(scan, a),
            b,
        )),
    decreases b.len(),
{
    if b.len() == 0 {
        assert(a + b =~= a);
    } else {
        styles_in_two(scan, a, b.drop_last());
        scan_in_two(scan, a, b.drop_last());
        assert((a + b).drop_last() =~= a + b.drop_last());
        assert((a + b).last() == b.last());
    }
}

/// Two texts with styles only, one after the other, hold styles only.
pub proof fn styles_add_up(a: Seq<char>, b: Seq<char>)
    requires
        scan_from(Scan::Plain, a) == Scan::Plain,
        only_styles(a),
        only_styles(b),
    ensures
        only_styles(a + b),
{
    styles_in_two(Scan::Plain, a, b);
}

/// A text without escape characters holds styles only.
pub proof fn plain_has_no_sequences(s: Seq<char>)
    requires
        !s.contains('\x1b'),
    ensures
        only_styles(s),
    decreases s.len(),
{
    if s.len() > 0 {
        let front = s.drop_last();
        assert(!front.contains('\x1b')) by {
            if front.contains('\x1b') {
                let i = choose|i: int| 0 <= i < front.len() && front[i] == '\x1b';
                assert(s[i] == '\x1b');
            }
        }
        plain_has_no_sequences(front);
        plain_is_visible(front);
    }
}

proof fn code_is_style(code: Seq<char>)
    requires
        is_code(code),
    ensures
        only_styles_from(Scan::Sequence, code),
    decreases code.len(),
{
    if code.len() > 0 {
        let front = code.drop_last();
        assert(code[code.len() - 1] == code.last());
        assert(forall|i: int| 0 <= i < front.len() ==> front[i] == code[i]);
        code_is_style(front);
        code_stays_inside(front);
    }
}

proof fn opening_is_style(code: Seq<char>)
    requires
        is_code(code),
    ensures
        only_styles("\x1b["@ + code + "m"@),
{
    let open = "\x1b["@;
    reveal_strlit("\x1b[");
    reveal_strlit("m");
    assert(open =~= seq!['\x1b', '[']);
    assert("m"@ =~= seq!['m']);
    let none = Seq::<char>::empty();
    assert(seq!['\x1b'].drop_last() =~= none);
    assert(only_styles(none));
    assert(scan_from(Scan::Plain, none) == Scan::Plain);
    assert(only_styles(seq!['\x1b']));
    assert(scan_from(Scan::Plain, seq!['\x1b']) == Scan::Escape);
    assert(open.drop_last() =~= seq!['\x1b']);
    assert(only_styles(open));
    assert(scan_from(Scan::Plain, open) == Scan::Sequence);
    code_is_style(code);
    code_stays_inside(code);
    styles_in_two(Scan::Plain, open, code);
    scan_in_two(Scan::Plain, open, code);
    let inside = open + code;
    assert((inside + "m"@).drop_last() =~= inside);
}

/// A styled text holds styles only, where the text does.
pub proof fn styled_is_style(code: Seq<char>, s: Seq<char>)
    requires
        is_code(code),
        only_styles(s),
        scan_from(Scan::Plain, s) == Scan::Plain,
    ensures
        only_styles(styled(code, s)),
{
    let open = "\x1b["@ + code + "m"@;
    opening_is_style(code);
    opening_takes_nothing(code);
    styles_add_up(open, s);
    visible_adds_up(open, s);
    reveal_strlit("\x1b[0m");
    reveal_strlit("0");
    reveal_strlit("\x1b[");
    reveal_strlit("m");
    assert("0"@ =~= seq!['0']);
    assert(ANSI_RESET@ =~= "\x1b["@ + "0"@ + "m"@);
    opening_is_style("0"@);
    styles_add_up(open + s, ANSI_RESET@);
}

proof fn persisted_shows_the_text(opening: Seq<char>, s: Seq<char>)
    requires
        visible(opening) == Seq::<char>::empty(),
        scan_from(Scan::Plain, opening) == Scan::Plain,
        only_styles(s),
    ensures
        visible(persisted(opening, s).out) == visible(s),
        scan_from(Scan::Plain, persisted(opening, s).out) == scan_from(Scan::Plain, s),
        persisted(opening, s).scan == scan_from(Scan::Plain, s),
    decreases s.len(),
{
    if s.len() > 0 {
        let front = s.drop_last();
        persisted_shows_the_text(opening, front);
        let before = persisted(opening, front);
        let out = before.out.push(s.last());
        assert(out.drop_last() =~= before.out);
        assert(visible(out) == visible(s));
        assert(scan_from(Scan::Plain, out) == scan_from(Scan::Plain, s));
        if before.scan == Scan::Sequence && s.last() == 'm' {
            visible_adds_up(out, opening);
            assert(visible(out) + visible(opening) =~= visible(out));
        }
    }
}

/// A style that lasts changes nothing of what is seen.
pub proof fn lasting_style_shows_the_text(code: Seq<char>, s: Seq<char>)
    requires
        is_code(code),
        only_styles(s),
        scan_from(Scan::Plain, s) == Scan::Plain,
    ensures
        visible(styled_through(code, s)) == visible(s),
        scan_from(Scan::Plain, styled_through(code, s)) == Scan::Plain,
{
    let opening = "\x1b["@ + code + "m"@;
    opening_takes_nothing(code);
    nothing_is_seen(Scan::Plain, opening);
    persisted_shows_the_text(opening, s);
    reset_is_not_seen();
    let out = persisted(opening, s).out;
    visible_adds_up(out, ANSI_RESET@);
    assert(visible(out) + visible(ANSI_RESET@) =~= visible(out));
}

/// Spaces take one column each.
pub proof fn spaces_are_wide(n: nat)
    ensures
        width_of(text::repeated(' ', n)) == n,
        scan_from(Scan::Plain, text::repeated(' ', n)) == Scan::Plain,
{
    width_of_spaces(n);
}

/// The styles of inline markup are styles.
pub proof fn inline_codes()
    ensures
        is_code("38;5;151"@),
        is_code("4;38;5;110"@),
        is_code("38;5;244"@),
        is_code("1"@),
        is_code("3"@),
        is_code("9"@),
        is_code("7"@),
        is_code("38;5;203"@),
        is_code("38;5;78"@),
        is_code("38;2;255;255;0"@),
        is_code("38;2;128;128;128"@),
        is_code("38;5;114"@),
        is_code("38;5;109"@),
        is_code("38;5;240"@),
        is_code("3;38;5;244"@),
        is_code("38;2;102;102;102"@),
        is_code("1;4;38;5;222"@),
        is_code("1;38;5;222"@),
{
    reveal_strlit("38;5;151");
    reveal_strlit("4;38;5;110");
    reveal_strlit("38;5;244");
    reveal_strlit("1");
    reveal_strlit("3");
    reveal_strlit("9");
    reveal_strlit("7");
    reveal_strlit("38;5;203");
    reveal_strlit("38;5;78");
    reveal_strlit("38;2;255;255;0");
    reveal_strlit("38;2;128;128;128");
    reveal_strlit("38;5;114");
    reveal_strlit("38;5;109");
    reveal_strlit("38;5;240");
    reveal_strlit("3;38;5;244");
    reveal_strlit("38;2;102;102;102");
    reveal_strlit("1;4;38;5;222");
    reveal_strlit("1;38;5;222");
}

/// The other styles are styles.
pub proof fn other_codes()
    ensures
        is_code("1;38;2;138;190;183"@),
        is_code("1;38;2;129;162;190"@),
        is_code("1;38;2;240;198;116"@),
        is_code("38;2;80;80;80"@),
        is_code("38;2;181;189;104"@),
        is_code("1;38;2;204;102;102"@),
        is_code("48;5;237;38;5;255"@),
        is_code("48;5;236;38;5;255"@),
        is_code("1;38;5;141"@),
        is_code("38;5;189"@),
        is_code("48;5;236"@),
        is_code("1;38;5;81"@),
        is_code("1;38;5;117"@),
        is_code("1;38;5;214"@),
{
    reveal_strlit("1;38;2;138;190;183");
    reveal_strlit("1;38;2;129;162;190");
    reveal_strlit("1;38;2;240;198;116");
    reveal_strlit("38;2;80;80;80");
    reveal_strlit("38;2;181;189;104");
    reveal_strlit("1;38;2;204;102;102");
    reveal_strlit("48;5;237;38;5;255");
    reveal_strlit("48;5;236;38;5;255");
    reveal_strlit("1;38;5;141");
    reveal_strlit("38;5;189");
    reveal_strlit("48;5;236");
    reveal_strlit("1;38;5;81");
    reveal_strlit("1;38;5;117");
    reveal_strlit("1;38;5;214");
}

/// A fitted text shows the beginning of what is seen of the text, or all of it with spaces behind it.
pub proof fn fitted_shows_the_text(s: Seq<char>, n: nat)
    requires
        scan_from(Scan::Plain, s) == Scan::Plain,
    ensures
        visible(fitted(s, n)) == (if visible(s).len() >= n {
            visible(s).take(n as int)
        } else {
            visible(s) + text::repeated(' ', (n - visible(s).len()) as nat)
        }),
        scan_from(Scan::Plain, fitted(s, n)) == Scan::Plain,
        only_styles(s) ==> only_styles(fitted(s, n)),
{
    visible_is_wide(Scan::Plain, s);
    cut_shows_the_beginning(s, n);
    fitted_width(s, n);
    cut_keeps_styles(s, n);
    if width_of(s) < n {
        let fill = text::repeated(' ', (n - width_of(s)) as nat);
        assert(!fill.contains('\x1b')) by {
            if fill.contains('\x1b') {
                let k = choose|k: int| 0 <= k < fill.len() && fill[k] == '\x1b';
                assert(fill[k] == ' ');
            }
        }
        plain_is_visible(fill);
        plain_has_no_sequences(fill);
        visible_adds_up(s, fill);
        if only_styles(s) {
            styles_add_up(s, fill);
        }
    }
}

/// Cutting leaves styles only, where there were styles only.
pub proof fn cut_keeps_styles(s: Seq<char>, n: nat)
    ensures
        only_styles(s) ==> only_styles(cut(s, n)),
        scan_from(Scan::Plain, cut(s, n)) == scan_from(Scan::Plain, s),
    decreases s.len(),
{
    if s.len() > 0 {
        let front = s.drop_last();
        cut_keeps_styles(front, n);
        cut_width(s, n);
        let shorter = cut(front, n);
        assert(shorter.push(s.last()).drop_last() =~= shorter);
    }
}

} // verus!
