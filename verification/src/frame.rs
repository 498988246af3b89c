//! The lines and the cursor of the screen, and how the parts of a screen are laid out.
use vstd::prelude::*;
use crate::screen;
use crate::screen::style_success;
use crate::text;
use crate::text::repeat_char;
use crate::transcript;
use crate::transcript::{LineView, RenderedLine};

verus! {

broadcast use {crate::transcript::group_lines, crate::text::group_texts};

/// Where the cursor stands.
#[derive(Clone, Copy, Debug, PartialEq, Eq, Structural)]
pub struct CursorPosition {
    pub row: u16,
    pub col: u16,
}

/// Lines on the screen, and the cursor among them.
#[derive(Clone, Debug, PartialEq, Eq)]
pub struct RenderOutput {
    pub lines: Vec<RenderedLine>,
    pub cursor: Option<CursorPosition>,
}

/// Lines and cursor, as a mathematical value.
pub struct OutputView {
    pub lines: Seq<LineView>,
    pub cursor: Option<CursorPosition>,
}

impl View for RenderOutput {
    type V = OutputView;

    open spec fn view(&self) -> OutputView {
        OutputView { lines: transcript::line_views(self.lines@), cursor: self.cursor }
    }
}

/// No lines and no cursor.
pub open spec fn nothing() -> OutputView {
    OutputView { lines: Seq::empty(), cursor: None }
}

impl RenderOutput {
    /// No lines and no cursor.
    pub fn empty() -> (r: RenderOutput)
        ensures
            r@ == nothing(),
    {
        RenderOutput { lines: Vec::new(), cursor: None }
    }
}

/// Whether the cursor of a child becomes the cursor of the whole.
pub open spec fn takes_cursor(target: OutputView, child: OutputView, prefer_cursor: bool) -> bool {
    (prefer_cursor || target.cursor is None) && child.cursor is Some
}

/// The lines of a child below those of a target. The row of a cursor counts from the top of the
/// whole, in sixteen bits: beyond the last row that they can tell, it begins anew.
pub open spec fn joined(target: OutputView, child: OutputView, prefer_cursor: bool) -> OutputView {
    OutputView {
        lines: target.lines + child.lines,
        cursor: if takes_cursor(target, child, prefer_cursor) {
            Some(
                CursorPosition {
                    row: ((target.lines.len() + child.cursor->0.row) % 0x10000) as u16,
                    col: child.cursor->0.col,
                },
            )
        } else {
            target.cursor
        },
    }
}

/// Puts the lines of a child below those of a target.
pub fn append_output(target: RenderOutput, child: RenderOutput, prefer_cursor: bool) -> (r:
    RenderOutput)
    ensures
        r@ == joined(target@, child@, prefer_cursor),
{
    let mut lines = target.lines;
    let offset: usize = lines.len() % 0x10000;
    let mut more = child.lines;
    lines.append(&mut more);
    let cursor = match child.cursor {
        Some(cursor) => if prefer_cursor || target.cursor.is_none() {
            let row: usize = (offset + cursor.row as usize) % 0x10000;
            Some(CursorPosition { row: row as u16, col: cursor.col })
        } else {
            target.cursor
        },
        None => target.cursor,
    };
    RenderOutput { lines, cursor }
}

/// Blank lines of a width.
pub open spec fn blanks(width: nat, count: nat) -> Seq<LineView> {
    Seq::new(count, |i: int| LineView::Text(text::repeated(' ', width)))
}

/// Blank lines below a target.
pub open spec fn spaced(target: OutputView, width: nat, count: nat) -> OutputView {
    OutputView { lines: target.lines + blanks(width, count), cursor: target.cursor }
}

/// Puts blank lines below a target.
pub fn append_blank_lines(target: RenderOutput, width: u16, count: usize) -> (r: RenderOutput)
    ensures
        r@ == spaced(target@, width as nat, count as nat),
{
    let ghost before = target@.lines;
    let cursor = target.cursor;
    let mut lines = target.lines;
    let mut i: usize = 0;
    assert(before =~= before + blanks(width as nat, 0));
    while i < count
        invariant
            0 <= i <= count,
            transcript::line_views(lines@) == before + blanks(width as nat, i as nat),
        decreases count - i,
    {
        let ghost earlier = lines@;
        lines.push(RenderedLine::Text(repeat_char(' ', width as usize)));
        i += 1;
        assert(transcript::line_views(lines@) =~= transcript::line_views(earlier).push(
            LineView::Text(text::repeated(' ', width as nat)),
        ));
        assert(transcript::line_views(lines@) =~= before + blanks(width as nat, i as nat));
    }
    RenderOutput { lines, cursor }
}

/// The last lines that fit in a height; a height of zero stands for no limit. A cursor above them is
/// left out.
pub open spec fn clipped(output: OutputView, height: nat) -> OutputView {
    let n = output.lines.len();
    if height == 0 || n <= height {
        output
    } else {
        let start = (n - height) as nat;
        OutputView {
            lines: output.lines.skip(start as int),
            cursor: match output.cursor {
                Some(cursor) => if cursor.row >= start {
                    Some(CursorPosition { row: (cursor.row - start) as u16, col: cursor.col })
                } else {
                    None
                },
                None => None,
            },
        }
    }
}

/// Keeps the last lines that fit in a height.
pub fn clip_render_output_to_height(output: RenderOutput, height: u16) -> (r: RenderOutput)
    ensures
        r@ == clipped(output@, height as nat),
{
    let max: usize = height as usize;
    if max == 0 || output.lines.len() <= max {
        return output;
    }
    let start: usize = output.lines.len() - max;
    let mut lines = output.lines;
    let kept = lines.split_off(start);
    assert(transcript::line_views(kept@) =~= output@.lines.skip(start as int));
    let cursor = match output.cursor {
        Some(cursor) => if cursor.row as usize >= start {
            Some(CursorPosition { row: cursor.row - start as u16, col: cursor.col })
        } else {
            None
        },
        None => None,
    };
    RenderOutput { lines: kept, cursor }
}

/// Whether the cursor, where there is one, stands on one of the lines.
pub open spec fn cursor_on_lines(output: OutputView) -> bool {
    output.cursor is Some ==> output.cursor->0.row < output.lines.len()
}

/// Where there is a limit, a clipped output keeps to it.
pub proof fn clipped_fits(output: OutputView, height: nat)
    requires
        height > 0,
    ensures
        clipped(output, height).lines.len() <= height,
{
}

/// Clipping keeps the cursor on the lines.
pub proof fn clipped_keeps_cursor_on_lines(output: OutputView, height: nat)
    requires
        cursor_on_lines(output),
    ensures
        cursor_on_lines(clipped(output, height)),
{
}

/// Clipping twice to the same height is clipping once.
pub proof fn clipping_is_idempotent(output: OutputView, height: nat)
    ensures
        clipped(clipped(output, height), height) == clipped(output, height),
{
}

/// How an overlay stands on the screen.
#[derive(Clone, Copy, Debug, PartialEq, Eq, Structural)]
pub enum OverlayPresentation {
    InShell,
    Standalone,
}

/// Which overlay is open.
#[derive(Clone, Copy, Debug, PartialEq, Eq, Structural)]
pub enum OverlayKind {
    Model,
    ScopedModels,
    Settings,
    Fork,
    TreeSummary,
    Search,
    Session,
    StandaloneSession,
    Input,
    Auth,
}

/// Which overlays take the whole screen.
pub open spec fn presentation(kind: OverlayKind) -> OverlayPresentation {
    match kind {
        OverlayKind::Input => OverlayPresentation::Standalone,
        OverlayKind::Auth => OverlayPresentation::Standalone,
        OverlayKind::TreeSummary => OverlayPresentation::Standalone,
        OverlayKind::StandaloneSession => OverlayPresentation::Standalone,
        _ => OverlayPresentation::InShell,
    }
}

/// How an overlay stands on the screen.
pub fn overlay_presentation(kind: OverlayKind) -> (r: OverlayPresentation)
    ensures
        r == presentation(kind),
{
    match kind {
        OverlayKind::Search => OverlayPresentation::InShell,
        OverlayKind::Input | OverlayKind::Auth => OverlayPresentation::Standalone,
        OverlayKind::Model | OverlayKind::ScopedModels | OverlayKind::Settings
        | OverlayKind::Fork => OverlayPresentation::InShell,
        OverlayKind::TreeSummary => OverlayPresentation::Standalone,
        OverlayKind::StandaloneSession => OverlayPresentation::Standalone,
        OverlayKind::Session => OverlayPresentation::InShell,
    }
}

/// Whether the greeting of a new start is shown: not below an overlay that takes the whole screen
/// and not during a login, but above an empty transcript and above the first turn of a session.
pub fn should_show_startup_stack(
    transcript_entries_empty: bool,
    overlay_presentation: Option<OverlayPresentation>,
    has_active_prompt: bool,
    has_active_auth: bool,
    show_new_session_banner: bool,
) -> (r: bool)
    ensures
        r <==> (overlay_presentation != Some(OverlayPresentation::Standalone) && !has_active_auth
            && (transcript_entries_empty || (has_active_prompt && show_new_session_banner))),
{
    let standalone = match overlay_presentation {
        Some(OverlayPresentation::Standalone) => true,
        _ => false,
    };
    !standalone && !has_active_auth && (transcript_entries_empty || (has_active_prompt
        && show_new_session_banner))
}

/// The parts of a screen.
pub struct FrameParts {
    pub header: RenderOutput,
    pub transcript: Vec<RenderedLine>,
    pub tool_lines: Vec<RenderedLine>,
    pub pending: Option<RenderOutput>,
    pub status: Option<RenderOutput>,
    pub prompt: Option<RenderOutput>,
    pub footer: RenderOutput,
    pub active_prompt: bool,
    pub new_session_banner: bool,
}

/// The parts of a screen, as a mathematical value.
pub struct FrameView {
    pub header: OutputView,
    pub transcript: Seq<LineView>,
    pub tool_lines: Seq<LineView>,
    pub pending: Option<OutputView>,
    pub status: Option<OutputView>,
    pub prompt: Option<OutputView>,
    pub footer: OutputView,
    pub active_prompt: bool,
    pub new_session_banner: bool,
}

/// An optional output, as a mathematical value.
pub open spec fn opt_output(output: Option<RenderOutput>) -> Option<OutputView> {
    match output {
        Some(o) => Some(o@),
        None => None,
    }
}

impl View for FrameParts {
    type V = FrameView;

    open spec fn view(&self) -> FrameView {
        FrameView {
            header: self.header@,
            transcript: transcript::line_views(self.transcript@),
            tool_lines: transcript::line_views(self.tool_lines@),
            pending: opt_output(self.pending),
            status: opt_output(self.status),
            prompt: opt_output(self.prompt),
            footer: self.footer@,
            active_prompt: self.active_prompt,
            new_session_banner: self.new_session_banner,
        }
    }
}

/// One where a condition holds, else zero.
pub open spec fn one_if(b: bool) -> nat {
    if b {
        1
    } else {
        0
    }
}

/// What is left of a number of lines when some of them are taken.
pub open spec fn left_of(lines: nat, taken: nat) -> nat {
    if lines >= taken {
        (lines - taken) as nat
    } else {
        0
    }
}

/// How many lines an optional part takes, with a blank one above it.
pub open spec fn section_len(output: Option<OutputView>) -> nat {
    match output {
        Some(o) => o.lines.len() + 1,
        None => 0,
    }
}

/// The lines of a transcript as they are shown: below the announcement of a new session, and above
/// an empty line while an answer is being written, where there is anything to stand above it.
pub open spec fn announced(lines: Seq<LineView>, banner: bool, active: bool) -> Seq<LineView> {
    let above = if banner {
        seq![LineView::Text(screen::success("✓ New session started"@)), LineView::Text(Seq::empty())]
    } else {
        Seq::empty()
    };
    let all = above + lines;
    if active && all.len() > 0 {
        all.push(LineView::Text(Seq::empty()))
    } else {
        all
    }
}

/// Puts what announces a new session above a transcript, and an empty line below it while an answer
/// is being written.
pub fn transcript_with_banner(lines: Vec<RenderedLine>, banner: bool, active: bool) -> (r: Vec<
    RenderedLine,
>)
    ensures
        transcript::line_views(r@) == announced(transcript::line_views(lines@), banner, active),
{
    let ghost shown = transcript::line_views(lines@);
    let mut all: Vec<RenderedLine> = Vec::new();
    if banner {
        all.push(RenderedLine::Text(style_success("✓ New session started")));
        all.push(RenderedLine::Text(String::new()));
    }
    let ghost above = transcript::line_views(all@);
    let mut more = lines;
    all.append(&mut more);
    assert(transcript::line_views(all@) =~= above + shown);
    assert(above =~= if banner {
        seq![LineView::Text(screen::success("✓ New session started"@)), LineView::Text(Seq::empty())]
    } else {
        Seq::empty()
    });
    if active && all.len() > 0 {
        let ghost before = all@;
        all.push(RenderedLine::Text(String::new()));
        assert(transcript::line_views(all@) =~= transcript::line_views(before).push(
            LineView::Text(Seq::empty()),
        ));
    }
    all
}

impl FrameView {
    /// The lines between the header and the tools.
    pub open spec fn middle(self) -> Seq<LineView> {
        announced(self.transcript, self.new_session_banner, self.active_prompt)
    }

    /// How many lines the tools, the queue and the status take.
    pub open spec fn lower(self) -> nat {
        self.tool_lines.len() + one_if(self.tool_lines.len() > 0) + section_len(self.pending)
            + section_len(self.status)
    }

    /// Whether anything stands above the prompt.
    pub open spec fn has_content(self) -> bool {
        self.header.lines.len() > 0 || self.middle().len() > 0 || self.tool_lines.len() > 0
            || self.pending is Some || self.status is Some
    }

    /// How many lines the prompt takes.
    pub open spec fn prompt_len(self) -> nat {
        match self.prompt {
            Some(p) => p.lines.len() + one_if(self.has_content()),
            None => 0,
        }
    }

    /// How many lines everything but the header and the transcript takes.
    pub open spec fn below_middle(self) -> nat {
        self.lower() + self.footer.lines.len() + self.prompt_len()
    }

    /// How many lines everything but the transcript takes under some header.
    pub open spec fn reserved(self, header: OutputView) -> nat {
        header.lines.len() + one_if(header.lines.len() > 0) + self.below_middle()
    }

    /// How many lines of the transcript are kept free while an answer is being written.
    pub open spec fn least_middle(self) -> nat {
        if self.new_session_banner {
            10
        } else {
            6
        }
    }

    /// How many lines are left for the header while an answer is being written.
    pub open spec fn header_budget(self, height: nat) -> nat {
        left_of(
            height,
            self.below_middle() + self.least_middle() + one_if(self.header.lines.len() > 0),
        )
    }

    /// The header that is shown: cut while an answer is being written and the screen is full.
    pub open spec fn shown_header(self, height: nat) -> OutputView {
        if self.active_prompt && self.reserved(self.header) > height {
            clipped(self.header, self.header_budget(height))
        } else {
            self.header
        }
    }

    /// How many lines of the transcript are shown at most.
    pub open spec fn middle_budget(self, height: nat) -> nat {
        left_of(height, self.reserved(self.shown_header(height)))
    }

    /// The header, the end of the transcript and blank lines that fill the rest.
    pub open spec fn upper(self, width: nat, height: nat) -> OutputView {
        let header = self.shown_header(height);
        let budget = self.middle_budget(height);
        let middle = if self.middle().len() > budget {
            self.middle().skip(self.middle().len() - budget)
        } else {
            self.middle()
        };
        let top = spaced(joined(nothing(), header, false), width, one_if(header.lines.len() > 0));
        let filled = joined(top, OutputView { lines: middle, cursor: None }, false);
        spaced(filled, width, (budget - middle.len()) as nat)
    }
}

/// An optional part below what stands above it.
pub open spec fn with_section(above: OutputView, section: Option<OutputView>, width: nat) -> OutputView {
    match section {
        Some(s) => joined(spaced(above, width, 1), s, false),
        None => above,
    }
}

/// Lines below what stands above them.
pub open spec fn with_tools(above: OutputView, tools: Seq<LineView>, width: nat) -> OutputView {
    if tools.len() == 0 {
        above
    } else {
        let gap = spaced(above, width, one_if(above.lines.len() > 0));
        OutputView { lines: gap.lines + tools, cursor: gap.cursor }
    }
}

/// The prompt below what stands above it.
pub open spec fn with_prompt(above: OutputView, prompt: Option<OutputView>, width: nat) -> OutputView {
    match prompt {
        Some(p) => joined(spaced(above, width, one_if(above.lines.len() > 0)), p, true),
        None => above,
    }
}

/// All that stands above the footer.
pub open spec fn above_footer(parts: FrameView, width: nat, height: nat) -> OutputView {
    with_prompt(
        with_section(
            with_section(
                with_tools(parts.upper(width, height), parts.tool_lines, width),
                parts.pending,
                width,
            ),
            parts.status,
            width,
        ),
        parts.prompt,
        width,
    )
}

/// The screen.
pub open spec fn frame(parts: FrameView, width: nat, height: nat) -> OutputView {
    clipped(joined(above_footer(parts, width, height), parts.footer, false), height)
}

/// Puts one blank line below a target where a condition holds.
fn append_gap(target: RenderOutput, width: u16, wanted: bool) -> (r: RenderOutput)
    ensures
        r@ == spaced(target@, width as nat, one_if(wanted)),
        r@.lines.len() == target@.lines.len() + one_if(wanted),
{
    append_blank_lines(target, width, count_if(wanted))
}

fn count_if(b: bool) -> (r: usize)
    ensures
        r == one_if(b),
{
    if b {
        1
    } else {
        0
    }
}

fn append_section(above: RenderOutput, section: Option<RenderOutput>, width: u16) -> (r: RenderOutput)
    ensures
        r@ == with_section(above@, opt_output(section), width as nat),
{
    match section {
        Some(s) => append_output(append_gap(above, width, true), s, false),
        None => above,
    }
}

fn append_tools(above: RenderOutput, tools: Vec<RenderedLine>, width: u16) -> (r: RenderOutput)
    ensures
        r@ == with_tools(above@, transcript::line_views(tools@), width as nat),
{
    if tools.len() == 0 {
        return above;
    }
    let wanted = above.lines.len() > 0;
    let spaced_out = append_gap(above, width, wanted);
    let cursor = spaced_out.cursor;
    let mut lines = spaced_out.lines;
    let mut more = tools;
    lines.append(&mut more);
    RenderOutput { lines, cursor }
}

fn append_prompt(above: RenderOutput, prompt: Option<RenderOutput>, width: u16) -> (r: RenderOutput)
    ensures
        r@ == with_prompt(above@, opt_output(prompt), width as nat),
{
    match prompt {
        Some(p) => {
            let wanted = above.lines.len() > 0;
            append_output(append_gap(above, width, wanted), p, true)
        },
        None => above,
    }
}

/// How many lines of a screen are left, and whether more were taken than there are.
struct Room {
    left: usize,
    over: bool,
}

impl Room {
    /// Whether this is what is left of a screen when some lines are taken.
    spec fn after(self, height: nat, taken: nat) -> bool {
        self.left == left_of(height, taken) && self.over == (taken > height)
    }

    fn take(self, count: usize, Ghost(height): Ghost<nat>, Ghost(taken): Ghost<nat>) -> (r: Room)
        requires
            self.after(height, taken),
        ensures
            r.after(height, taken + count as nat),
    {
        if count > self.left {
            Room { left: 0, over: true }
        } else {
            Room { left: self.left - count, over: self.over }
        }
    }

    fn take_section(
        self,
        section: &Option<RenderOutput>,
        Ghost(height): Ghost<nat>,
        Ghost(taken): Ghost<nat>,
    ) -> (r: Room)
        requires
            self.after(height, taken),
        ensures
            r.after(height, taken + section_len(opt_output(*section))),
    {
        match section {
            Some(o) => self.take(o.lines.len(), Ghost(height), Ghost(taken)).take(
                1,
                Ghost(height),
                Ghost((taken + o.lines.len()) as nat),
            ),
            None => self,
        }
    }
}

/// What everything but the header and the transcript leaves.
fn room_above(parts: &FrameParts, height: u16) -> (r: Room)
    ensures
        r.after(height as nat, parts@.below_middle()),
{
    let ghost h = height as nat;
    let ghost view = parts@;
    let tools: usize = parts.tool_lines.len();
    let room = Room { left: height as usize, over: false };
    let room = room.take(tools, Ghost(h), Ghost(0));
    let room = room.take(count_if(tools > 0), Ghost(h), Ghost(view.tool_lines.len()));
    let ghost taken = view.tool_lines.len() + one_if(view.tool_lines.len() > 0);
    let room = room.take_section(&parts.pending, Ghost(h), Ghost(taken));
    let ghost taken = taken + section_len(view.pending);
    let room = room.take_section(&parts.status, Ghost(h), Ghost(taken));
    let room = room.take(parts.footer.lines.len(), Ghost(h), Ghost(view.lower()));
    let ghost taken = view.lower() + view.footer.lines.len();
    let has_content = parts.header.lines.len() > 0 || parts.new_session_banner
        || parts.transcript.len() > 0 || tools > 0
        || parts.pending.is_some() || parts.status.is_some();
    assert(has_content == view.has_content());
    match &parts.prompt {
        Some(p) => room.take(p.lines.len(), Ghost(h), Ghost(taken)).take(
            count_if(has_content),
            Ghost(h),
            Ghost((taken + p.lines.len()) as nat),
        ),
        None => room,
    }
}

fn fit_header(
    header: RenderOutput,
    room: &Room,
    active_prompt: bool,
    new_session_banner: bool,
    height: u16,
    Ghost(parts): Ghost<FrameView>,
) -> (r: RenderOutput)
    requires
        header@ == parts.header,
        active_prompt == parts.active_prompt,
        new_session_banner == parts.new_session_banner,
        room.after(height as nat, parts.below_middle()),
    ensures
        r@ == parts.shown_header(height as nat),
{
    let ghost h = height as nat;
    let ghost below = parts.below_middle();
    let header_len: usize = header.lines.len();
    let gap: usize = count_if(header_len > 0);
    let free = Room { left: room.left, over: room.over }.take(gap, Ghost(h), Ghost(below));
    let with_header = Room { left: free.left, over: free.over }.take(
        header_len,
        Ghost(h),
        Ghost(below + gap as nat),
    );
    if !active_prompt || !with_header.over {
        return header;
    }
    let least: usize = if new_session_banner {
        10
    } else {
        6
    };
    let budget = free.take(least, Ghost(h), Ghost(below + gap as nat));
    clip_render_output_to_height(header, budget.left as u16)
}

fn upper_part(
    header: RenderOutput,
    middle: Vec<RenderedLine>,
    budget: usize,
    width: u16,
    Ghost(parts): Ghost<FrameView>,
    Ghost(height): Ghost<nat>,
) -> (r: RenderOutput)
    requires
        header@ == parts.shown_header(height),
        transcript::line_views(middle@) == parts.middle(),
        budget == parts.middle_budget(height),
    ensures
        r@ == parts.upper(width as nat, height),
{
    let wanted = header.lines.len() > 0;
    let top = append_gap(append_output(RenderOutput::empty(), header, false), width, wanted);
    let mut all = middle;
    let shown: Vec<RenderedLine> = if all.len() > budget {
        let from: usize = all.len() - budget;
        let tail = all.split_off(from);
        assert(transcript::line_views(tail@) =~= parts.middle().skip(from as int));
        tail
    } else {
        all
    };
    let padding: usize = budget - shown.len();
    append_blank_lines(
        append_output(top, RenderOutput { lines: shown, cursor: None }, false),
        width,
        padding,
    )
}

/// Lays the parts of a screen out: the header, the end of the transcript, the running tools, the
/// queue, the status and the prompt, one below the other, and the footer at the bottom.
pub fn lay_out_frame(parts: FrameParts, width: u16, height: u16) -> (r: RenderOutput)
    ensures
        r@ == frame(parts@, width as nat, height as nat),
{
    let ghost view = parts@;
    let ghost h = height as nat;
    let room = room_above(&parts, height);
    let header = fit_header(
        parts.header,
        &room,
        parts.active_prompt,
        parts.new_session_banner,
        height,
        Ghost(view),
    );
    let gap: usize = count_if(header.lines.len() > 0);
    let ghost below = view.below_middle();
    let room = room.take(header.lines.len(), Ghost(h), Ghost(below)).take(
        gap,
        Ghost(h),
        Ghost(below + header@.lines.len()),
    );
    let budget: usize = room.left;
    assert(budget == view.middle_budget(h));
    let middle = transcript_with_banner(
        parts.transcript,
        parts.new_session_banner,
        parts.active_prompt,
    );
    let upper = upper_part(header, middle, budget, width, Ghost(view), Ghost(h));
    stack_up(
        upper,
        parts.tool_lines,
        parts.pending,
        parts.status,
        parts.prompt,
        parts.footer,
        width,
        height,
        Ghost(view),
    )
}

fn stack_up(
    upper: RenderOutput,
    tool_lines: Vec<RenderedLine>,
    pending: Option<RenderOutput>,
    status: Option<RenderOutput>,
    prompt: Option<RenderOutput>,
    footer: RenderOutput,
    width: u16,
    height: u16,
    Ghost(parts): Ghost<FrameView>,
) -> (r: RenderOutput)
    requires
        upper@ == parts.upper(width as nat, height as nat),
        transcript::line_views(tool_lines@) == parts.tool_lines,
        opt_output(pending) == parts.pending,
        opt_output(status) == parts.status,
        opt_output(prompt) == parts.prompt,
        footer@ == parts.footer,
    ensures
        r@ == frame(parts, width as nat, height as nat),
{
    let with_tools = append_tools(upper, tool_lines, width);
    let with_pending = append_section(with_tools, pending, width);
    let with_status = append_section(with_pending, status, width);
    let above = append_prompt(with_status, prompt, width);
    assert(above@ == above_footer(parts, width as nat, height as nat));
    clip_render_output_to_height(append_output(above, footer, false), height)
}

/// The screen with an overlay between the header and the footer.
pub open spec fn shell_frame(
    header: OutputView,
    overlay: OutputView,
    footer: OutputView,
    width: nat,
    height: nat,
) -> OutputView {
    let top = spaced(joined(nothing(), header, false), width, one_if(header.lines.len() > 0));
    let budget = shell_budget(footer, height);
    let body = clipped(joined(top, overlay, true), budget);
    let padding = left_of(budget, body.lines.len());
    clipped(
        joined(spaced(joined(nothing(), body, true), width, padding), footer, false),
        height,
    )
}

/// How many lines the footer leaves.
pub open spec fn shell_budget(footer: OutputView, height: nat) -> nat {
    left_of(height, footer.lines.len())
}

/// Lays an overlay out between the header and the footer.
pub fn lay_out_shell(
    header: RenderOutput,
    overlay: RenderOutput,
    footer: RenderOutput,
    width: u16,
    height: u16,
) -> (r: RenderOutput)
    ensures
        r@ == shell_frame(header@, overlay@, footer@, width as nat, height as nat),
{
    let wanted = header.lines.len() > 0;
    let top = append_gap(append_output(RenderOutput::empty(), header, false), width, wanted);
    let footer_len: usize = footer.lines.len();
    let budget: usize = if height as usize >= footer_len {
        height as usize - footer_len
    } else {
        0
    };
    let body = clip_render_output_to_height(append_output(top, overlay, true), budget as u16);
    let padding: usize = if budget >= body.lines.len() {
        budget - body.lines.len()
    } else {
        0
    };
    let output = append_blank_lines(append_output(RenderOutput::empty(), body, true), width, padding);
    clip_render_output_to_height(append_output(output, footer, false), height)
}

/// The screen keeps to its height.
pub proof fn frame_fits(parts: FrameView, width: nat, height: nat)
    requires
        height > 0,
    ensures
        frame(parts, width, height).lines.len() <= height,
{
}

/// The footer stands at the bottom of the screen, whole where the screen is high enough.
pub proof fn footer_stands_last(parts: FrameView, width: nat, height: nat)
    requires
        parts.footer.lines.len() <= height,
    ensures
        ({
            let lines = frame(parts, width, height).lines;
            let n = parts.footer.lines.len();
            &&& n <= lines.len()
            &&& lines.skip(lines.len() - n) == parts.footer.lines
        }),
{
    let above = above_footer(parts, width, height);
    let whole = joined(above, parts.footer, false);
    let lines = frame(parts, width, height).lines;
    let n = parts.footer.lines.len();
    assert(whole.lines.skip(whole.lines.len() - n) =~= parts.footer.lines);
    assert(lines.skip(lines.len() - n) =~= parts.footer.lines);
}

/// The footer stands at the bottom below an overlay too.
pub proof fn footer_stands_last_in_shell(
    header: OutputView,
    overlay: OutputView,
    footer: OutputView,
    width: nat,
    height: nat,
)
    requires
        footer.lines.len() <= height,
    ensures
        ({
            let lines = shell_frame(header, overlay, footer, width, height).lines;
            let n = footer.lines.len();
            &&& n <= lines.len()
            &&& lines.skip(lines.len() - n) == footer.lines
        }),
{
    let lines = shell_frame(header, overlay, footer, width, height).lines;
    let n = footer.lines.len();
    assert(lines.skip(lines.len() - n) =~= footer.lines);
}

/// Whatever is added below leaves what stands above as it was and is shown whole.
pub proof fn sections_are_added_below(
    above: OutputView,
    section: OutputView,
    tools: Seq<LineView>,
    width: nat,
)
    ensures
        ({
            let below = with_section(above, Some(section), width).lines;
            let n = section.lines.len();
            &&& below.len() == above.lines.len() + 1 + n
            &&& below.take(above.lines.len() as int) == above.lines
            &&& below.skip(below.len() - n) == section.lines
        }),
        ({
            let below = with_prompt(above, Some(section), width).lines;
            let n = section.lines.len();
            &&& below.len() >= above.lines.len() + n
            &&& below.take(above.lines.len() as int) == above.lines
            &&& below.skip(below.len() - n) == section.lines
        }),
        ({
            let below = with_tools(above, tools, width).lines;
            &&& below.take(above.lines.len() as int) == above.lines
            &&& below.skip(below.len() - tools.len()) == tools
        }),
        with_section(above, None, width) == above,
        with_prompt(above, None, width) == above,
{
    let a = with_section(above, Some(section), width).lines;
    let n = section.lines.len();
    assert(a.take(above.lines.len() as int) =~= above.lines);
    assert(a.skip(a.len() - n) =~= section.lines);
    let b = with_prompt(above, Some(section), width).lines;
    assert(b.take(above.lines.len() as int) =~= above.lines);
    assert(b.skip(b.len() - n) =~= section.lines);
    let c = with_tools(above, tools, width).lines;
    assert(c.take(above.lines.len() as int) =~= above.lines);
    assert(c.skip(c.len() - tools.len()) =~= tools);
}

/// The prompt keeps its cursor, counted from the top of what it is added to.
pub proof fn prompt_keeps_its_cursor(above: OutputView, prompt: OutputView, width: nat)
    requires
        prompt.cursor is Some,
        above.lines.len() + 1 + prompt.cursor->0.row < 0x10000,
    ensures
        ({
            let gap = (if above.lines.len() > 0 {
                1int
            } else {
                0int
            });
            let cursor = with_prompt(above, Some(prompt), width).cursor;
            &&& cursor is Some
            &&& cursor->0.row == above.lines.len() + gap + prompt.cursor->0.row
            &&& cursor->0.col == prompt.cursor->0.col
        }),
{
}

/// The end of the prompt is the end of what stands above the footer.
pub proof fn prompt_stands_above_the_footer(
    parts: FrameView,
    prompt: OutputView,
    width: nat,
    height: nat,
)
    requires
        parts.prompt == Some(prompt),
    ensures
        above_footer(parts, width, height).lines.len() >= prompt.lines.len(),
        above_footer(parts, width, height).lines.skip(
            above_footer(parts, width, height).lines.len() - prompt.lines.len(),
        ) == prompt.lines,
{
    let above = with_section(
        with_section(
            with_tools(parts.upper(width, height), parts.tool_lines, width),
            parts.pending,
            width,
        ),
        parts.status,
        width,
    );
    sections_are_added_below(above, prompt, Seq::empty(), width);
}

/// The lines of a transcript are all shown below the banner of a new session, if there is one.
pub proof fn transcript_stands_below_the_banner(
    lines: Seq<LineView>,
    banner: bool,
    active: bool,
    i: int,
)
    requires
        0 <= i < lines.len(),
    ensures
        announced(lines, banner, active)[if banner {
            i + 2
        } else {
            i
        }] == lines[i],
        banner ==> announced(lines, banner, active)[0] == LineView::Text(
            screen::success("✓ New session started"@),
        ),
        !active ==> announced(lines, banner, active).len() == lines.len() + (if banner {
            2int
        } else {
            0int
        }),
{
}

/// Where there is room for all of it, a screen with an overlay shows the header, then the overlay.
pub proof fn overlay_stands_below_the_header(
    header: OutputView,
    overlay: OutputView,
    footer: OutputView,
    width: nat,
    height: nat,
    i: int,
)
    requires
        header.lines.len() > 0,
        header.lines.len() + 1 + overlay.lines.len() + footer.lines.len() <= height,
    ensures
        0 <= i < header.lines.len() ==> shell_frame(header, overlay, footer, width, height).lines[i]
            == header.lines[i],
        0 <= i < overlay.lines.len() ==> shell_frame(
            header,
            overlay,
            footer,
            width,
            height,
        ).lines[header.lines.len() + 1 + i] == overlay.lines[i],
        shell_frame(header, overlay, footer, width, height).lines.len() == height,
{
    let top = spaced(joined(nothing(), header, false), width, 1);
    let budget = shell_budget(footer, height);
    let whole = joined(top, overlay, true);
    assert(whole.lines.len() <= budget);
    assert(clipped(whole, budget) == whole);
    let padding = left_of(budget, whole.lines.len());
    let all = joined(spaced(joined(nothing(), whole, true), width, padding), footer, false);
    assert(all.lines.len() == height);
    assert(clipped(all, height) == all);
}

/// What asks for a text or a decision takes the whole screen; what offers a list stands in the
/// shell.
pub proof fn dialogs_stand_alone(kind: OverlayKind)
    ensures
        presentation(kind) is Standalone <==> (kind is Input || kind is Auth || kind is TreeSummary
            || kind is StandaloneSession),
{
}

} // verus!
