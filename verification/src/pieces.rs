//! The pieces that panels and overlays are made of, from top to bottom.
use vstd::prelude::*;
use crate::screen;
use crate::screen::{fit_line, style_border, style_subtitle, style_title, truncate_to_width, visible_width};
use crate::text;
use crate::text::{cat3, cat5, repeat_char, text_lines};

verus! {

/// A piece of a panel.
#[derive(Clone, Debug, PartialEq, Eq)]
pub enum Piece {
    /// A line as it stands.
    Row(String),
    /// A text that is laid out within the width.
    Flow(String),
    /// A blank line.
    Blank,
    /// The field that text is typed into. Where the flag is set, the cursor stands in it whatever
    /// stands above.
    Field(bool),
    /// The list that is chosen from. Where the flag is set, the cursor stands in it whatever stands
    /// above.
    List(bool),
}

/// A piece, as a mathematical value.
pub enum PieceView {
    Row(Seq<char>),
    Flow(Seq<char>),
    Blank,
    Field(bool),
    List(bool),
}

impl View for Piece {
    type V = PieceView;

    open spec fn view(&self) -> PieceView {
        match self {
            Piece::Row(s) => PieceView::Row(s@),
            Piece::Flow(s) => PieceView::Flow(s@),
            Piece::Blank => PieceView::Blank,
            Piece::Field(b) => PieceView::Field(*b),
            Piece::List(b) => PieceView::List(*b),
        }
    }
}

/// The pieces of a sequence, as mathematical values.
pub open spec fn views(pieces: Seq<Piece>) -> Seq<PieceView> {
    Seq::new(pieces.len(), |i: int| pieces[i]@)
}

/// The view of pieces with one more.
pub broadcast proof fn views_push(pieces: Seq<Piece>, piece: Piece)
    ensures
        #[trigger] views(pieces.push(piece)) == views(pieces).push(piece@),
{
    assert(views(pieces.push(piece)) =~= views(pieces).push(piece@));
}

/// The view of pieces one after the other.
pub broadcast proof fn views_add(a: Seq<Piece>, b: Seq<Piece>)
    ensures
        #[trigger] views(a + b) == views(a) + views(b),
{
    assert(views(a + b) =~= views(a) + views(b));
}

/// No pieces have an empty view.
pub broadcast proof fn views_empty(pieces: Seq<Piece>)
    requires
        pieces.len() == 0,
    ensures
        #[trigger] views(pieces) == Seq::<PieceView>::empty(),
{
    assert(views(pieces) =~= Seq::<PieceView>::empty());
}

pub broadcast group group_pieces {
    views_push,
    views_add,
    views_empty,
}

/// Texts as rows.
pub open spec fn rows(lines: Seq<Seq<char>>) -> Seq<PieceView> {
    Seq::new(lines.len(), |i: int| PieceView::Row(lines[i]))
}

/// Appends texts as rows.
pub fn push_rows(target: &mut Vec<Piece>, lines: Vec<String>)
    ensures
        views(final(target)@) == views(old(target)@) + rows(text::texts(lines@)),
{
    broadcast use {group_pieces, crate::text::group_texts};

    let ghost before = views(target@);
    let ghost shown = rows(text::texts(lines@));
    let mut i: usize = 0;
    assert(before =~= before + shown.take(0));
    while i < lines.len()
        invariant
            0 <= i <= lines.len(),
            shown == rows(text::texts(lines@)),
            views(target@) == before + shown.take(i as int),
        decreases lines.len() - i,
    {
        broadcast use {group_pieces, crate::text::group_texts};

        target.push(Piece::Row(text::copy_text(lines[i].as_str())));
        i += 1;
        assert(shown.take(i as int) =~= shown.take(i - 1).push(shown[i - 1]));
        assert(views(target@) =~= before + shown.take(i as int));
    }
    assert(shown.take(i as int) =~= shown);
}

/// A rule over the whole width.
pub open spec fn rule(width: nat) -> Seq<PieceView> {
    if width == 0 {
        Seq::empty()
    } else {
        seq![PieceView::Row(screen::border(text::repeated('─', width)))]
    }
}

/// Appends a rule over the whole width.
pub fn append_rule_line(target: &mut Vec<Piece>, width: u16)
    ensures
        views(final(target)@) == views(old(target)@) + rule(width as nat),
{
    broadcast use group_pieces;

    let ghost before = views(target@);
    if width > 0 {
        target.push(Piece::Row(style_border(repeat_char('─', width as usize).as_str())));
    }
    assert(views(target@) =~= before + rule(width as nat));
}

/// The lines of a subtitle that are not empty, in a frame.
pub open spec fn framed_lines(lines: Seq<Seq<char>>, width: nat) -> Seq<Seq<char>>
    decreases lines.len(),
{
    if lines.len() == 0 {
        Seq::empty()
    } else {
        let before = framed_lines(lines.drop_last(), width);
        if lines.last().len() == 0 {
            before
        } else {
            before.push(
                screen::border("│"@) + " "@ + screen::fitted(screen::subtitle(lines.last()), width)
                    + " "@ + screen::border("│"@),
            )
        }
    }
}

/// The lines of a subtitle, each as a text that is laid out.
pub open spec fn plain_subtitle(lines: Seq<Seq<char>>) -> Seq<PieceView> {
    Seq::new(lines.len(), |i: int| PieceView::Flow(screen::subtitle(lines[i])))
}

/// A title and a subtitle in a frame; in a narrow width, without the frame.
pub open spec fn banner(title: Seq<char>, subtitle: Seq<char>, width: nat) -> Seq<PieceView> {
    if width < 6 {
        seq![PieceView::Flow(screen::title(title))] + plain_subtitle(text::lines_of(subtitle))
    } else {
        let shown = screen::cut(title, (width - 1) as nat);
        let used = screen::width_of(shown) + 1;
        let filler = text::repeated(
            '─',
            if used < width {
                (width - used) as nat
            } else {
                0
            },
        );
        seq![
            PieceView::Row(
                screen::border("╭─ "@) + screen::title(shown) + screen::border(" "@)
                    + screen::border(filler) + screen::border("╮"@),
            ),
        ] + rows(framed_lines(text::lines_of(subtitle), width)) + seq![
            PieceView::Row(
                screen::border("╰"@ + text::repeated('─', (width - 2) as nat) + "╯"@),
            ),
        ]
    }
}

fn frame_lines(lines: &[String], width: u16) -> (r: Vec<String>)
    ensures
        text::texts(r@) == framed_lines(text::texts(lines@), width as nat),
{
    broadcast use crate::text::group_texts;

    let ghost all = text::texts(lines@);
    let mut out: Vec<String> = Vec::new();
    let mut i: usize = 0;
    assert(all.take(0) =~= Seq::<Seq<char>>::empty());
    while i < lines.len()
        invariant
            0 <= i <= lines.len(),
            all == text::texts(lines@),
            text::texts(out@) == framed_lines(all.take(i as int), width as nat),
        decreases lines.len() - i,
    {
        broadcast use crate::text::group_texts;

        assert(all.take(i + 1).drop_last() =~= all.take(i as int));
        if !lines[i].as_str().is_empty() {
            out.push(
                cat5(
                    style_border("│").as_str(),
                    " ",
                    fit_line(style_subtitle(lines[i].as_str()).as_str(), width).as_str(),
                    " ",
                    style_border("│").as_str(),
                ),
            );
        }
        i += 1;
    }
    assert(all.take(i as int) =~= all);
    out
}

/// Appends a title and a subtitle in a frame.
pub fn append_overlay_banner(target: &mut Vec<Piece>, title: &str, subtitle: &str, width: u16)
    ensures
        views(final(target)@) == views(old(target)@) + banner(title@, subtitle@, width as nat),
{
    broadcast use {group_pieces, crate::text::group_texts};

    let ghost before = views(target@);
    let lines = text_lines(subtitle);
    if width < 6 {
        target.push(Piece::Flow(style_title(title)));
        let ghost first = views(target@);
        let ghost shown = plain_subtitle(text::texts(lines@));
        let mut i: usize = 0;
        assert(first =~= first + shown.take(0));
        while i < lines.len()
            invariant
                0 <= i <= lines.len(),
                shown == plain_subtitle(text::texts(lines@)),
                views(target@) == first + shown.take(i as int),
            decreases lines.len() - i,
        {
            broadcast use {group_pieces, crate::text::group_texts};

            target.push(Piece::Flow(style_subtitle(lines[i].as_str())));
            i += 1;
            assert(shown.take(i as int) =~= shown.take(i - 1).push(shown[i - 1]));
            assert(views(target@) =~= first + shown.take(i as int));
        }
        assert(shown.take(i as int) =~= shown);
        assert(views(target@) =~= before + banner(title@, subtitle@, width as nat));
        return ;
    }
    let shown = truncate_to_width(title, width as usize - 1);
    let used: usize = visible_width(shown.as_str());
    let rest: usize = if used < width as usize - 1 {
        width as usize - used - 1
    } else {
        0
    };
    target.push(
        Piece::Row(
            cat5(
                style_border("╭─ ").as_str(),
                style_title(shown.as_str()).as_str(),
                style_border(" ").as_str(),
                style_border(repeat_char('─', rest).as_str()).as_str(),
                style_border("╮").as_str(),
            ),
        ),
    );
    let framed = frame_lines(lines.as_slice(), width);
    push_rows(target, framed);
    target.push(
        Piece::Row(
            style_border(cat3("╰", repeat_char('─', width as usize - 2).as_str(), "╯").as_str()),
        ),
    );
    assert(views(target@) =~= before + banner(title@, subtitle@, width as nat));
}

/// The lines of a frame are those of the text, each in its place; empty ones are left out.
pub proof fn framed_in_two(a: Seq<Seq<char>>, b: Seq<Seq<char>>, width: nat)
    ensures
        framed_lines(a + b, width) == framed_lines(a, width) + framed_lines(b, width),
    decreases b.len(),
{
    if b.len() == 0 {
        assert(a + b =~= a);
    } else {
        assert((a + b).drop_last() =~= a + b.drop_last());
        framed_in_two(a, b.drop_last(), width);
        assert(framed_lines(a + b, width) =~= framed_lines(a, width) + framed_lines(b, width));
    }
}

/// A line in a frame shows its text between the borders, filled up to the width.
#[verifier::rlimit(60)]
pub proof fn framed_lines_show_the_text(line: Seq<char>, width: nat)
    requires
        0 < line.len() <= width,
        !line.contains('\x1b'),
    ensures
        framed_lines(seq![line], width).len() == 1,
        screen::visible(framed_lines(seq![line], width)[0]) == seq!['│', ' '] + line
            + text::repeated(' ', (width - line.len()) as nat) + seq![' ', '│'],
{
    reveal_with_fuel(framed_lines, 2);
    assert(seq![line].drop_last() =~= Seq::<Seq<char>>::empty());
    reveal_strlit("│");
    reveal_strlit(" ");
    let bar = "│"@;
    let gap = " "@;
    assert(bar =~= seq!['│']);
    assert(gap =~= seq![' ']);
    screen::inline_codes();
    screen::other_codes();
    screen::plain_is_visible(bar);
    screen::plain_is_visible(gap);
    screen::plain_is_visible(line);
    screen::styled_shows_the_text("38;2;80;80;80"@, bar);
    screen::styled_shows_the_text("38;2;128;128;128"@, line);
    let body = screen::fitted(screen::subtitle(line), width);
    screen::fitted_shows_the_text(screen::subtitle(line), width);
    let fill = text::repeated(' ', (width - line.len()) as nat);
    if line.len() == width {
        assert(line.take(width as int) =~= line);
        assert(fill =~= Seq::<char>::empty());
        assert(line + fill =~= line);
    }
    assert(screen::visible(body) == line + fill);
    let a = screen::border(bar) + gap;
    screen::visible_adds_up(screen::border(bar), gap);
    let b = a + body;
    screen::visible_adds_up(a, body);
    let c = b + gap;
    screen::visible_adds_up(b, gap);
    screen::visible_adds_up(c, screen::border(bar));
    assert(screen::visible(c + screen::border(bar)) =~= seq!['│', ' '] + line + fill + seq![
        ' ',
        '│',
    ]);
}

/// A banner begins with its title and holds the lines below it in between; without room for a
/// frame they stand alone.
pub proof fn banners_hold_their_text(title: Seq<char>, subtitle: Seq<char>, width: nat, i: int)
    ensures
        width < 6 ==> banner(title, subtitle, width).len() == text::lines_of(subtitle).len() + 1,
        width < 6 ==> banner(title, subtitle, width)[0] == PieceView::Flow(screen::title(title)),
        width < 6 && 0 <= i < text::lines_of(subtitle).len() ==> banner(title, subtitle, width)[i
            + 1] == PieceView::Flow(screen::subtitle(text::lines_of(subtitle)[i])),
        width >= 6 ==> banner(title, subtitle, width).len() == framed_lines(
            text::lines_of(subtitle),
            width,
        ).len() + 2,
        width >= 6 && 0 <= i < framed_lines(text::lines_of(subtitle), width).len() ==> banner(
            title,
            subtitle,
            width,
        )[i + 1] == PieceView::Row(framed_lines(text::lines_of(subtitle), width)[i]),
{
}

/// The first line of a banner shows its title, and is filled up to the width with a rule.
#[verifier::rlimit(60)]
pub proof fn banners_show_their_title(title: Seq<char>, subtitle: Seq<char>, width: nat)
    requires
        width >= 6,
        title.len() + 1 <= width,
        !title.contains('\x1b'),
    ensures
        banner(title, subtitle, width)[0] matches PieceView::Row(row) && screen::visible(row)
            == seq!['╭', '─', ' '] + title + seq![' '] + text::repeated(
            '─',
            (width - title.len() - 1) as nat,
        ) + seq!['╮'],
{
    reveal_strlit("╭─ ");
    reveal_strlit(" ");
    reveal_strlit("╮");
    let left = "╭─ "@;
    let gap = " "@;
    let right = "╮"@;
    assert(left =~= seq!['╭', '─', ' ']);
    assert(gap =~= seq![' ']);
    assert(right =~= seq!['╮']);
    screen::other_codes();
    screen::plain_is_visible(left);
    screen::plain_is_visible(gap);
    screen::plain_is_visible(right);
    screen::plain_is_visible(title);
    screen::visible_is_wide(screen::Scan::Plain, title);
    screen::cut_keeps_to_width(title, (width - 1) as nat);
    assert(screen::cut(title, (width - 1) as nat) == title);
    let filler = text::repeated('─', (width - title.len() - 1) as nat);
    screen::plain_is_visible(filler);
    screen::styled_shows_the_text("38;2;80;80;80"@, left);
    screen::styled_shows_the_text("1;38;2;129;162;190"@, title);
    screen::styled_shows_the_text("38;2;80;80;80"@, gap);
    screen::styled_shows_the_text("38;2;80;80;80"@, filler);
    screen::styled_shows_the_text("38;2;80;80;80"@, right);
    if title.len() + 1 == width {
        assert(text::repeated('─', 0) =~= filler);
    }
    let a = screen::border(left) + screen::title(title);
    screen::visible_adds_up(screen::border(left), screen::title(title));
    let b = a + screen::border(gap);
    screen::visible_adds_up(a, screen::border(gap));
    let c = b + screen::border(filler);
    screen::visible_adds_up(b, screen::border(filler));
    let d = c + screen::border(right);
    screen::visible_adds_up(c, screen::border(right));
    assert(banner(title, subtitle, width)[0] == PieceView::Row(d));
}

/// A rule goes across the width, and there is none without one.
pub proof fn rules_go_across(width: nat)
    ensures
        rule(0).len() == 0,
        width > 0 ==> rule(width).len() == 1,
        width > 0 ==> (rule(width)[0] matches PieceView::Row(row) && screen::visible(row)
            == text::repeated('─', width)),
{
    let line = text::repeated('─', width);
    screen::other_codes();
    screen::plain_is_visible(line);
    screen::styled_shows_the_text("38;2;80;80;80"@, line);
}

} // verus!
