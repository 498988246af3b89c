//! Blocks of lines: surfaces, panels, and bodies that can be collapsed.
use vstd::prelude::*;
use crate::screen;
use crate::screen::{fit_line, style_border, style_custom_surface, style_dim, style_hint, style_tool_title, style_user_surface, truncate_to_width, visible_width};
use crate::text;
use crate::text::{cat3, cat5, copy_text, copy_texts, decimal_text, extend_texts, repeat_char};

verus! {

broadcast use crate::text::group_texts;

/// The body of a block: an empty line where there is none.
pub open spec fn body_or_blank(body: Seq<Seq<char>>) -> Seq<Seq<char>> {
    if body.len() == 0 {
        seq![Seq::empty()]
    } else {
        body
    }
}

fn blank_or_body(body: &[String]) -> (r: Vec<String>)
    ensures
        text::texts(r@) == body_or_blank(text::texts(body@)),
{
    if body.len() == 0 {
        let mut out: Vec<String> = Vec::new();
        out.push(String::new());
        assert(text::texts(out@) =~= seq![Seq::<char>::empty()]);
        out
    } else {
        copy_texts(body)
    }
}

/// How a line of a block is shown.
#[derive(Clone, Copy, Debug, PartialEq, Eq, Structural)]
pub enum LineLook {
    /// Cut, on the surface of a user message.
    UserCut,
    /// Filled, with a space on both sides, on the surface of a user message.
    User,
    /// Cut, on the surface of a custom message.
    CustomCut,
    /// Filled, with a space on both sides, on the surface of a custom message.
    Custom,
    /// Filled.
    Tool,
    /// Filled, in a dim style.
    DimTool,
    /// Cut.
    Cut,
    /// Filled, between two borders.
    Bordered,
}

/// How a line of a block is shown at a width.
pub open spec fn line_shown(look: LineLook, line: Seq<char>, width: nat) -> Seq<char> {
    match look {
        LineLook::UserCut => screen::user_surface(screen::cut(line, width)),
        LineLook::User => screen::user_surface(" "@ + screen::fitted(line, width) + " "@),
        LineLook::CustomCut => screen::custom_surface(screen::cut(line, width)),
        LineLook::Custom => screen::custom_surface(" "@ + screen::fitted(line, width) + " "@),
        LineLook::Tool => screen::fitted(line, width),
        LineLook::DimTool => screen::dim(screen::fitted(line, width)),
        LineLook::Cut => screen::cut(line, width),
        LineLook::Bordered => screen::border("│"@) + " "@ + screen::fitted(line, width) + " "@
            + screen::border("│"@),
    }
}

fn show_line(look: LineLook, line: &str, width: u16) -> (r: String)
    ensures
        r@ == line_shown(look, line@, width as nat),
{
    match look {
        LineLook::UserCut => style_user_surface(truncate_to_width(line, width as usize).as_str()),
        LineLook::User => style_user_surface(
            cat3(" ", fit_line(line, width).as_str(), " ").as_str(),
        ),
        LineLook::CustomCut => style_custom_surface(
            truncate_to_width(line, width as usize).as_str(),
        ),
        LineLook::Custom => style_custom_surface(
            cat3(" ", fit_line(line, width).as_str(), " ").as_str(),
        ),
        LineLook::Tool => fit_line(line, width),
        LineLook::DimTool => style_dim(fit_line(line, width).as_str()),
        LineLook::Cut => truncate_to_width(line, width as usize),
        LineLook::Bordered => cat5(
            style_border("│").as_str(),
            " ",
            fit_line(line, width).as_str(),
            " ",
            style_border("│").as_str(),
        ),
    }
}

/// Lines of a block, each shown in the same way.
pub open spec fn lines_shown(look: LineLook, lines: Seq<Seq<char>>, width: nat) -> Seq<Seq<char>> {
    lines.map_values(|line: Seq<char>| line_shown(look, line, width))
}

fn push_shown(target: &mut Vec<String>, look: LineLook, lines: &[String], width: u16)
    ensures
        text::texts(final(target)@) == text::texts(old(target)@) + lines_shown(
            look,
            text::texts(lines@),
            width as nat,
        ),
{
    let ghost before = text::texts(target@);
    let ghost shown = lines_shown(look, text::texts(lines@), width as nat);
    let mut i: usize = 0;
    assert(text::texts(target@) =~= before + shown.take(0));
    while i < lines.len()
        invariant
            0 <= i <= lines.len(),
            shown == lines_shown(look, text::texts(lines@), width as nat),
            text::texts(target@) == before + shown.take(i as int),
        decreases lines.len() - i,
    {
        target.push(show_line(look, lines[i].as_str(), width));
        i += 1;
        assert(shown.take(i as int) =~= shown.take(i - 1).push(shown[i - 1]));
        assert(text::texts(target@) =~= before + shown.take(i as int));
    }
    assert(shown.take(i as int) =~= shown);
}

/// A block of tool output: its title where it has one, then its lines.
pub open spec fn tool_surface(
    title: Seq<char>,
    body: Seq<Seq<char>>,
    width: nat,
    dimmed: bool,
) -> Seq<Seq<char>> {
    let head = if title.len() == 0 {
        Seq::<Seq<char>>::empty()
    } else if dimmed {
        seq![screen::dim(screen::cut(title, width))]
    } else {
        seq![screen::tool_title(screen::cut(title, width))]
    };
    head + lines_shown(
        if dimmed {
            LineLook::DimTool
        } else {
            LineLook::Tool
        },
        body_or_blank(body),
        width,
    )
}

/// A block of tool output.
pub fn append_tool_surface_block(title: &str, body: &[String], width: u16, dimmed: bool) -> (r: Vec<
    String,
>)
    ensures
        text::texts(r@) == tool_surface(title@, text::texts(body@), width as nat, dimmed),
{
    let lines = blank_or_body(body);
    let mut out: Vec<String> = Vec::new();
    if !title.is_empty() {
        let cut = truncate_to_width(title, width as usize);
        if dimmed {
            out.push(style_dim(cut.as_str()));
        } else {
            out.push(style_tool_title(cut.as_str()));
        }
    }
    let look = if dimmed {
        LineLook::DimTool
    } else {
        LineLook::Tool
    };
    push_shown(&mut out, look, lines.as_slice(), width);
    assert(text::texts(out@) =~= tool_surface(
        title@,
        text::texts(body@),
        width as nat,
        dimmed,
    ));
    out
}

/// A message of the user on its surface, with an empty line above and below.
pub open spec fn user_block(body: Seq<Seq<char>>, width: nat) -> Seq<Seq<char>> {
    if width < 4 {
        lines_shown(LineLook::UserCut, body_or_blank(body), width)
    } else {
        seq![screen::user_surface(text::repeated(' ', width))] + lines_shown(
            LineLook::User,
            body_or_blank(body),
            (width - 2) as nat,
        ) + seq![screen::user_surface(text::repeated(' ', width))]
    }
}

/// A message of the user on its surface.
pub fn append_user_message_block(body: &[String], width: u16) -> (r: Vec<String>)
    ensures
        text::texts(r@) == user_block(text::texts(body@), width as nat),
{
    let lines = blank_or_body(body);
    let mut out: Vec<String> = Vec::new();
    if width < 4 {
        push_shown(&mut out, LineLook::UserCut, lines.as_slice(), width);
    } else {
        let edge = style_user_surface(repeat_char(' ', width as usize).as_str());
        out.push(copy_text(edge.as_str()));
        push_shown(&mut out, LineLook::User, lines.as_slice(), width - 2);
        out.push(edge);
    }
    assert(text::texts(out@) =~= user_block(text::texts(body@), width as nat));
    out
}

/// A custom message on its surface, with an empty line above and below.
pub open spec fn custom_block(body: Seq<Seq<char>>, width: nat) -> Seq<Seq<char>> {
    if width < 4 {
        lines_shown(LineLook::CustomCut, body_or_blank(body), width)
    } else {
        seq![screen::custom_surface(text::repeated(' ', width))] + lines_shown(
            LineLook::Custom,
            body_or_blank(body),
            (width - 2) as nat,
        ) + seq![screen::custom_surface(text::repeated(' ', width))]
    }
}

/// A custom message on its surface.
pub fn append_custom_surface_block(body: &[String], width: u16) -> (r: Vec<String>)
    ensures
        text::texts(r@) == custom_block(text::texts(body@), width as nat),
{
    let lines = blank_or_body(body);
    let mut out: Vec<String> = Vec::new();
    if width < 4 {
        push_shown(&mut out, LineLook::CustomCut, lines.as_slice(), width);
    } else {
        let edge = style_custom_surface(repeat_char(' ', width as usize).as_str());
        out.push(copy_text(edge.as_str()));
        push_shown(&mut out, LineLook::Custom, lines.as_slice(), width - 2);
        out.push(edge);
    }
    assert(text::texts(out@) =~= custom_block(text::texts(body@), width as nat));
    out
}

/// The title of a panel as it fits between the borders.
pub open spec fn panel_title(title: Seq<char>, inner: nat) -> Seq<char> {
    screen::cut(
        title,
        if inner > 1 {
            (inner - 1) as nat
        } else {
            1
        },
    )
}

/// How far the top border of a panel goes on after the title.
pub open spec fn panel_filler(title: Seq<char>, inner: nat) -> nat {
    if screen::width_of(title) + 1 < inner {
        (inner - (screen::width_of(title) + 1)) as nat
    } else {
        0
    }
}

/// A panel with a title in its top border.
pub open spec fn panel_block(title: Seq<char>, body: Seq<Seq<char>>, width: nat) -> Seq<Seq<char>> {
    if width < 6 {
        seq![screen::cut(title, width)] + lines_shown(LineLook::Cut, body, width)
    } else {
        let inner = (width - 4) as nat;
        let shown = panel_title(title, inner);
        let filler = text::repeated('─', panel_filler(shown, inner));
        seq![
            screen::border("╭─ "@) + shown + screen::border(" "@) + screen::border(filler)
                + screen::border("╮"@),
        ] + lines_shown(LineLook::Bordered, body_or_blank(body), inner) + seq![
            screen::border("╰"@ + text::repeated('─', (width - 2) as nat) + "╯"@),
        ]
    }
}

/// A panel with a title in its top border.
pub fn append_panel_block(title: &str, body: &[String], width: u16) -> (r: Vec<String>)
    ensures
        text::texts(r@) == panel_block(title@, text::texts(body@), width as nat),
{
    let mut out: Vec<String> = Vec::new();
    if width < 6 {
        out.push(truncate_to_width(title, width as usize));
        push_shown(&mut out, LineLook::Cut, body, width);
        assert(text::texts(out@) =~= panel_block(title@, text::texts(body@), width as nat));
        return out;
    }
    let inner: u16 = width - 4;
    let room: usize = if inner > 1 {
        inner as usize - 1
    } else {
        1
    };
    let shown = truncate_to_width(title, room);
    let used = visible_width(shown.as_str());
    let rest: usize = if used < inner as usize && inner as usize - used > 1 {
        inner as usize - used - 1
    } else {
        0
    };
    out.push(
        cat5(
            style_border("╭─ ").as_str(),
            shown.as_str(),
            style_border(" ").as_str(),
            style_border(repeat_char('─', rest).as_str()).as_str(),
            style_border("╮").as_str(),
        ),
    );
    let lines = blank_or_body(body);
    push_shown(&mut out, LineLook::Bordered, lines.as_slice(), inner);
    out.push(
        style_border(cat3("╰", repeat_char('─', width as usize - 2).as_str(), "╯").as_str()),
    );
    assert(text::texts(out@) =~= panel_block(title@, text::texts(body@), width as nat));
    out
}

/// What is said of lines that are not shown.
pub open spec fn hidden_note(hidden: nat, earlier: bool, hint: Seq<char>) -> Seq<char> {
    if earlier {
        screen::hint("... "@ + text::decimal(hidden) + " earlier lines ("@ + hint + " to expand)"@)
    } else {
        screen::hint("... "@ + text::decimal(hidden) + " more lines ("@ + hint + " to expand)"@)
    }
}

/// The body of a panel, collapsed: the first `locked` lines always stay, and of the others only
/// `preview` are shown, the last ones or the first ones.
pub open spec fn collapsed(
    body: Seq<Seq<char>>,
    locked: nat,
    preview: nat,
    from_end: bool,
    expanded: bool,
    hint: Seq<char>,
) -> Seq<Seq<char>> {
    if expanded || body.len() <= locked + preview {
        body
    } else {
        let hidden = (body.len() - locked - preview) as nat;
        let fixed = body.take(locked as int);
        let note = seq![hidden_note(hidden, from_end, hint)];
        if from_end {
            fixed + note + body.skip(body.len() - preview)
        } else {
            fixed + body.subrange(locked as int, (locked + preview) as int) + note
        }
    }
}

/// The body of a panel, collapsed.
pub fn collapse_panel_body(
    body: &[String],
    locked: usize,
    preview: usize,
    from_end: bool,
    expanded: bool,
    hint: &str,
) -> (r: Vec<String>)
    ensures
        text::texts(r@) == collapsed(
            text::texts(body@),
            locked as nat,
            preview as nat,
            from_end,
            expanded,
            hint@,
        ),
{
    let len: usize = body.len();
    if expanded || len <= locked || len - locked <= preview {
        return copy_texts(body);
    }
    let hidden: usize = len - locked - preview;
    let words = if from_end {
        " earlier lines ("
    } else {
        " more lines ("
    };
    let note = style_hint(
        cat5("... ", decimal_text(hidden as u64).as_str(), words, hint, " to expand)").as_str(),
    );
    let mut out = copy_texts(vstd::slice::slice_subrange(body, 0, locked));
    if from_end {
        out.push(note);
        extend_texts(&mut out, vstd::slice::slice_subrange(body, len - preview, len));
    } else {
        extend_texts(&mut out, vstd::slice::slice_subrange(body, locked, locked + preview));
        out.push(note);
    }
    assert(text::texts(out@) =~= collapsed(
        text::texts(body@),
        locked as nat,
        preview as nat,
        from_end,
        expanded,
        hint@,
    ));
    out
}

/// A collapsed body has at most one line more than what stays and what is shown, an expanded one is
/// the whole body, and the locked lines are always there.
pub proof fn collapsed_body_is_short(
    body: Seq<Seq<char>>,
    locked: nat,
    preview: nat,
    from_end: bool,
    hint: Seq<char>,
)
    ensures
        collapsed(body, locked, preview, from_end, true, hint) == body,
        collapsed(body, locked, preview, from_end, false, hint).len() <= locked + preview + 1,
        locked <= body.len() ==> collapsed(body, locked, preview, from_end, false, hint).take(
            locked as int,
        ) == body.take(locked as int),
{
    if locked <= body.len() {
        assert(collapsed(body, locked, preview, from_end, false, hint).take(locked as int)
            =~= body.take(locked as int));
    }
}

/// The codes of the styles used in borders are style codes.
proof fn border_takes_nothing(s: Seq<char>)
    requires
        screen::scan_from(screen::Scan::Plain, s) == screen::Scan::Plain,
    ensures
        screen::width_of(screen::border(s)) == screen::width_of(s),
        screen::scan_from(screen::Scan::Plain, screen::border(s)) == screen::Scan::Plain,
{
    reveal_strlit("38;2;80;80;80");
    screen::styled_width("38;2;80;80;80"@, s);
}

proof fn plain_run(c: char, n: nat)
    requires
        c != '\x1b',
    ensures
        screen::width_of(text::repeated(c, n)) == n,
        screen::scan_from(screen::Scan::Plain, text::repeated(c, n)) == screen::Scan::Plain,
    decreases n,
{
    if n > 0 {
        plain_run(c, (n - 1) as nat);
        assert(text::repeated(c, n).drop_last() =~= text::repeated(c, (n - 1) as nat));
    }
}

/// Every line of a panel takes exactly the panel's width.
pub proof fn panel_lines_take_the_width(title: Seq<char>, body: Seq<Seq<char>>, width: nat)
    requires
        width >= 6,
        screen::scan_from(screen::Scan::Plain, title) == screen::Scan::Plain,
        forall|i: int|
            0 <= i < body.len() ==> screen::scan_from(screen::Scan::Plain, #[trigger] body[i])
                == screen::Scan::Plain,
    ensures
        forall|i: int|
            0 <= i < panel_block(title, body, width).len() ==> screen::width_of(
                #[trigger] panel_block(title, body, width)[i],
            ) == width,
{
    let inner = (width - 4) as nat;
    let shown = panel_title(title, inner);
    let block = panel_block(title, body, width);
    screen::cut_keeps_to_width(title, (inner - 1) as nat);
    let filler = text::repeated('─', panel_filler(shown, inner));
    reveal_strlit("╭─ ");
    reveal_strlit(" ");
    reveal_strlit("╮");
    reveal_strlit("│");
    reveal_strlit("╰");
    reveal_strlit("╯");
    let one_space = text::repeated(' ', 1);
    assert(" "@ =~= one_space);
    plain_run(' ', 1);
    assert("╮"@ =~= text::repeated('╮', 1));
    plain_run('╮', 1);
    assert("│"@ =~= text::repeated('│', 1));
    plain_run('│', 1);
    assert("╰"@ =~= text::repeated('╰', 1));
    plain_run('╰', 1);
    assert("╯"@ =~= text::repeated('╯', 1));
    plain_run('╯', 1);
    plain_run('─', panel_filler(shown, inner));
    plain_run('─', (width - 2) as nat);
    let corner = text::repeated('╭', 1) + text::repeated('─', 1);
    plain_run('╭', 1);
    plain_run('─', 1);
    screen::width_adds_up(text::repeated('╭', 1), text::repeated('─', 1));
    screen::width_adds_up(corner, one_space);
    assert("╭─ "@ =~= corner + one_space);
    border_takes_nothing("╭─ "@);
    border_takes_nothing(" "@);
    border_takes_nothing(filler);
    border_takes_nothing("╮"@);
    border_takes_nothing("│"@);
    let a = screen::border("╭─ "@);
    screen::width_adds_up(a, shown);
    screen::width_adds_up(a + shown, screen::border(" "@));
    screen::width_adds_up(a + shown + screen::border(" "@), screen::border(filler));
    screen::width_adds_up(
        a + shown + screen::border(" "@) + screen::border(filler),
        screen::border("╮"@),
    );
    let dashes = text::repeated('─', (width - 2) as nat);
    screen::width_adds_up("╰"@, dashes);
    screen::width_adds_up("╰"@ + dashes, "╯"@);
    border_takes_nothing("╰"@ + dashes + "╯"@);
    let lines = body_or_blank(body);
    let middle = lines_shown(LineLook::Bordered, lines, inner);
    assert(block.len() == middle.len() + 2);
    assert forall|i: int| 0 <= i < block.len() implies screen::width_of(#[trigger] block[i])
        == width by {
        if 0 < i <= middle.len() {
            let line = lines[i - 1];
            assert(block[i] == middle[i - 1]);
            if body.len() > 0 {
                assert(line == body[i - 1]);
            }
            screen::fitted_width(line, inner);
            let side = screen::border("│"@);
            let fit = screen::fitted(line, inner);
            screen::width_adds_up(side, " "@);
            screen::width_adds_up(side + " "@, fit);
            screen::width_adds_up(side + " "@ + fit, " "@);
            screen::width_adds_up(side + " "@ + fit + " "@, side);
        }
    }
}

/// What is seen of a line that is filled to a width.
pub open spec fn filled_line(seen: Seq<char>, width: nat) -> Seq<char> {
    if seen.len() >= width {
        seen.take(width as int)
    } else {
        seen + text::repeated(' ', (width - seen.len()) as nat)
    }
}

/// A line on a surface or in a panel shows itself: filled or cut to the width, with the space or the
/// border that it has on both sides.
pub proof fn panel_lines_show_themselves(line: Seq<char>, width: nat)
    requires
        screen::only_styles(line),
        screen::scan_from(screen::Scan::Plain, line) == screen::Scan::Plain,
    ensures
        screen::visible(line_shown(LineLook::Tool, line, width)) == filled_line(
            screen::visible(line),
            width,
        ),
        screen::visible(line_shown(LineLook::DimTool, line, width)) == filled_line(
            screen::visible(line),
            width,
        ),
        screen::visible(line_shown(LineLook::User, line, width)) == seq![' '] + filled_line(
            screen::visible(line),
            width,
        ) + seq![' '],
        screen::visible(line_shown(LineLook::Custom, line, width)) == seq![' '] + filled_line(
            screen::visible(line),
            width,
        ) + seq![' '],
        screen::visible(line_shown(LineLook::Bordered, line, width)) == seq!['│', ' ']
            + filled_line(screen::visible(line), width) + seq![' ', '│'],
        screen::visible(line_shown(LineLook::UserCut, line, width)) == screen::visible(
            screen::cut(line, width),
        ),
        screen::visible(line_shown(LineLook::CustomCut, line, width)) == screen::visible(
            screen::cut(line, width),
        ),
{
    let body = screen::fitted(line, width);
    let seen = screen::visible(body);
    screen::fitted_shows_the_text(line, width);
    screen::cut_keeps_styles(line, width);
    screen::inline_codes();
    screen::other_codes();
    reveal_strlit(" ");
    reveal_strlit("│");
    assert(" "@ =~= seq![' ']);
    assert("│"@ =~= seq!['│']);
    assert(!seq![' '].contains('\x1b') && !seq!['│'].contains('\x1b'));
    screen::plain_is_visible(" "@);
    screen::plain_has_no_sequences(" "@);
    screen::plain_is_visible("│"@);
    screen::styled_shows_the_text("38;2;102;102;102"@, body);
    let spaced = " "@ + body + " "@;
    screen::visible_adds_up(" "@, body);
    screen::styles_add_up(" "@, body);
    screen::visible_adds_up(" "@ + body, " "@);
    screen::styles_add_up(" "@ + body, " "@);
    screen::lasting_style_shows_the_text("48;5;237;38;5;255"@, spaced);
    screen::lasting_style_shows_the_text("48;5;236;38;5;255"@, spaced);
    screen::lasting_style_shows_the_text("48;5;237;38;5;255"@, screen::cut(line, width));
    screen::lasting_style_shows_the_text("48;5;236;38;5;255"@, screen::cut(line, width));
    let edge = screen::border("│"@);
    screen::styled_shows_the_text("38;2;80;80;80"@, "│"@);
    screen::visible_adds_up(edge, " "@);
    screen::visible_adds_up(edge + " "@, body);
    screen::visible_adds_up(edge + " "@ + body, " "@);
    screen::visible_adds_up(edge + " "@ + body + " "@, edge);
    assert(seq!['│'] + seq![' '] + seen + seq![' '] + seq!['│'] =~= seq!['│', ' '] + seen + seq![
        ' ',
        '│',
    ]);
}

/// A block shows all lines of its body, in order: a title or an edge before them, and nothing else but
/// an edge behind them.
pub proof fn blocks_show_their_body(title: Seq<char>, body: Seq<Seq<char>>, width: nat, i: int)
    requires
        0 <= i < body.len(),
        title.len() > 0,
        width >= 6,
    ensures
        tool_surface(title, body, width, false).len() == body.len() + 1,
        tool_surface(title, body, width, false)[i + 1] == line_shown(LineLook::Tool, body[i], width),
        user_block(body, width).len() == body.len() + 2,
        user_block(body, width)[i + 1] == line_shown(LineLook::User, body[i], (width - 2) as nat),
        custom_block(body, width).len() == body.len() + 2,
        custom_block(body, width)[i + 1] == line_shown(
            LineLook::Custom,
            body[i],
            (width - 2) as nat,
        ),
        panel_block(title, body, width).len() == body.len() + 2,
        panel_block(title, body, width)[i + 1] == line_shown(
            LineLook::Bordered,
            body[i],
            (width - 4) as nat,
        ),
{
}

/// A collapsed body keeps its first lines, and of the others the first or the last ones. A note in
/// place of the rest says how many lines are left out. Expanded, nothing is left out.
pub proof fn collapsing_hides_the_rest(
    body: Seq<Seq<char>>,
    locked: nat,
    preview: nat,
    hint: Seq<char>,
    i: int,
)
    requires
        locked + preview < body.len(),
    ensures
        collapsed(body, locked, preview, false, true, hint) == body,
        collapsed(body, locked, preview, true, true, hint) == body,
        0 <= i < locked + preview ==> collapsed(body, locked, preview, false, false, hint)[i]
            == body[i],
        collapsed(body, locked, preview, false, false, hint)[(locked + preview) as int]
            == hidden_note((body.len() - locked - preview) as nat, false, hint),
        0 <= i < locked ==> collapsed(body, locked, preview, true, false, hint)[i] == body[i],
        collapsed(body, locked, preview, true, false, hint)[locked as int] == hidden_note(
            (body.len() - locked - preview) as nat,
            true,
            hint,
        ),
        0 <= i < preview ==> collapsed(body, locked, preview, true, false, hint)[locked + 1 + i]
            == body[body.len() - preview + i],
        collapsed(body, locked, preview, true, false, hint).len() == locked + preview + 1,
        collapsed(body, locked, preview, false, false, hint).len() == locked + preview + 1,
{
}

} // verus!
