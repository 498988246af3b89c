//! The transcript of a session, as lines on the screen.
use vstd::prelude::*;
use crate::json;
use crate::json::{bool_under, text_under, Json};
use crate::markdown;
use crate::markdown::collect_markdown_lines;
use crate::panels;
use crate::panels::{append_custom_surface_block, append_panel_block, append_tool_surface_block, append_user_message_block, collapse_panel_body};
use crate::screen;
use crate::screen::{style_custom_label, style_custom_text, style_dim, style_error, style_hint, style_prefix, style_thinking_surface, style_title, style_warning, truncate_to_width, visible_width};
use crate::text;
use crate::text::{begins_with, cat2, cat3, cat4, copy_opt, copy_text, decimal_text, join_texts, same, text_lines, trimmed};
use crate::tools;
use crate::tools::{build_tool_call_body, build_tool_result_panel, details_of, render_exit_note, tool_notice_lines, tool_panel_title, tool_preview_config, ContentBlock, ImageRef, JsonDoc, ToolResult};
use crate::wrap;
use crate::wrap::{prefix_lines, wrap_text};

verus! {

broadcast use crate::text::group_texts;

/// An image on the screen.
#[derive(Clone, Debug, PartialEq, Eq)]
pub struct ImageLine {
    pub alt_text: String,
    pub mime_type: Option<String>,
    pub data: Option<String>,
}

/// A line on the screen.
#[derive(Clone, Debug, PartialEq, Eq)]
pub enum RenderedLine {
    Text(String),
    Image(ImageLine),
}

/// A line on the screen, as a mathematical value.
pub enum LineView {
    Text(Seq<char>),
    Image { alt_text: Seq<char>, mime_type: Option<Seq<char>>, data: Option<Seq<char>> },
}

impl View for RenderedLine {
    type V = LineView;

    open spec fn view(&self) -> LineView {
        match self {
            RenderedLine::Text(s) => LineView::Text(s@),
            RenderedLine::Image(image) => LineView::Image {
                alt_text: image.alt_text@,
                mime_type: text::opt_text(image.mime_type),
                data: text::opt_text(image.data),
            },
        }
    }
}

/// The lines of a sequence, as mathematical values.
pub open spec fn line_views(lines: Seq<RenderedLine>) -> Seq<LineView> {
    Seq::new(lines.len(), |i: int| lines[i]@)
}

/// There are as many views as lines.
pub broadcast proof fn line_views_len(lines: Seq<RenderedLine>)
    ensures
        #[trigger] line_views(lines).len() == lines.len(),
{
}

/// The views of lines one after the other.
pub broadcast proof fn line_views_add(a: Seq<RenderedLine>, b: Seq<RenderedLine>)
    ensures
        #[trigger] line_views(a + b) == line_views(a)
            + line_views(b),
{
    assert(line_views(a + b) =~= line_views(a) + line_views(b));
}

/// The views of some lines in a row.
pub broadcast proof fn line_views_subrange(lines: Seq<RenderedLine>, i: int, j: int)
    requires
        0 <= i <= j <= lines.len(),
    ensures
        #[trigger] line_views(lines.subrange(i, j)) == line_views(
            lines,
        ).subrange(i, j),
{
    assert(line_views(lines.subrange(i, j)) =~= line_views(lines).subrange(
        i,
        j,
    ));
}

/// No lines have no views.
pub broadcast proof fn line_views_empty(lines: Seq<RenderedLine>)
    requires
        lines.len() == 0,
    ensures
        #[trigger] line_views(lines) == Seq::<LineView>::empty(),
{
    assert(line_views(lines) =~= Seq::<LineView>::empty());
}

pub broadcast group group_lines {
    line_views_len,
    line_views_add,
    line_views_subrange,
    line_views_empty,
}

/// Texts as lines.
pub open spec fn as_lines(lines: Seq<Seq<char>>) -> Seq<LineView> {
    Seq::new(lines.len(), |i: int| LineView::Text(lines[i]))
}

/// Appends texts as lines.
pub fn push_texts(target: &mut Vec<RenderedLine>, lines: Vec<String>)
    ensures
        line_views(final(target)@) == line_views(old(target)@) + as_lines(text::texts(lines@)),
{
    let ghost before = line_views(target@);
    let ghost shown = as_lines(text::texts(lines@));
    let mut i: usize = 0;
    assert(line_views(target@) =~= before + shown.take(0));
    while i < lines.len()
        invariant
            0 <= i <= lines.len(),
            shown == as_lines(text::texts(lines@)),
            line_views(target@) == before + shown.take(i as int),
        decreases lines.len() - i,
    {
        let ghost earlier = line_views(target@);
        target.push(RenderedLine::Text(copy_text(lines[i].as_str())));
        assert(line_views(target@) =~= earlier.push(LineView::Text(lines@[i as int]@)));
        i += 1;
        assert(shown.take(i as int) =~= shown.take(i - 1).push(shown[i - 1]));
        assert(line_views(target@) =~= before + shown.take(i as int));
    }
    assert(shown.take(i as int) =~= shown);
}

/// Appends one text as a line.
pub fn push_text(target: &mut Vec<RenderedLine>, line: String)
    ensures
        line_views(final(target)@) == line_views(old(target)@).push(LineView::Text(line@)),
{
    let ghost before = line_views(target@);
    target.push(RenderedLine::Text(line));
    assert(line_views(target@) =~= before.push(LineView::Text(line@)));
}

/// The content of a message.
#[derive(Clone, Debug, PartialEq, Eq)]
pub enum UserContent {
    Text(String),
    Blocks(Vec<ContentBlock>),
}

/// A block of an assistant's message.
#[derive(Debug, PartialEq, Eq)]
pub enum AssistantBlock {
    Text(String),
    Thinking(String),
    ToolCall { id: String, name: String, arguments: JsonDoc },
}

/// Why an assistant stopped.
#[derive(Clone, Copy, Debug, PartialEq, Eq, Structural)]
pub enum StopReason {
    Stop,
    Length,
    ToolUse,
    Error,
    Aborted,
}

/// A message of the assistant.
#[derive(Debug, PartialEq, Eq)]
pub struct AssistantMessage {
    pub content: Vec<AssistantBlock>,
    pub stop_reason: StopReason,
    pub error_message: Option<String>,
}

/// A message.
#[derive(Debug, PartialEq, Eq)]
pub enum Message {
    User(UserContent),
    Assistant(AssistantMessage),
    ToolResult(ToolResult),
}

/// What a summary sums up.
#[derive(Clone, Copy, Debug, PartialEq, Eq, Structural)]
pub enum SummaryKind {
    Generic,
    Branch,
    Compaction,
}

/// An entry of a transcript.
#[derive(Debug, PartialEq, Eq)]
pub enum TranscriptEntry {
    Message(Message),
    CustomMessage { custom_type: String, content: UserContent, details: Option<Json> },
    Summary { kind: SummaryKind, title: String, body: String, tokens_before: Option<u64> },
}

/// Whether tool panels are shown whole.
#[derive(Clone, Copy, Debug, PartialEq, Eq, Structural)]
pub enum ToolExpandMode {
    Collapsed,
    All,
}

impl ToolExpandMode {
    /// The other mode.
    pub open spec fn toggled(self) -> ToolExpandMode {
        match self {
            ToolExpandMode::Collapsed => ToolExpandMode::All,
            ToolExpandMode::All => ToolExpandMode::Collapsed,
        }
    }

    /// The other mode.
    pub fn next(self) -> (r: ToolExpandMode)
        ensures
            r == self.toggled(),
            r.toggled() == self,
    {
        match self {
            ToolExpandMode::Collapsed => ToolExpandMode::All,
            ToolExpandMode::All => ToolExpandMode::Collapsed,
        }
    }

    /// What is told when the mode was chosen.
    pub fn status(self) -> (r: &'static str)
        ensures
            r@ == (match self {
                ToolExpandMode::Collapsed => "Tool blocks collapsed."@,
                ToolExpandMode::All => "Tool blocks expanded."@,
            }),
    {
        match self {
            ToolExpandMode::Collapsed => "Tool blocks collapsed.",
            ToolExpandMode::All => "Tool blocks expanded.",
        }
    }
}

/// How a transcript is shown.
#[derive(Clone, Debug, PartialEq, Eq)]
pub struct TranscriptRenderContext {
    pub width: u16,
    pub hide_thinking: bool,
    pub show_images: bool,
    pub inline_images: bool,
    pub tool_expand_mode: ToolExpandMode,
    pub expand_hint: String,
    pub home: Option<String>,
}

impl TranscriptRenderContext {
    /// Whether images are shown.
    pub open spec fn images(self) -> bool {
        self.show_images && self.inline_images
    }

    /// Whether panels are shown whole.
    pub open spec fn expanded(self) -> bool {
        self.tool_expand_mode == ToolExpandMode::All
    }

    fn with_images(&self) -> (r: bool)
        ensures
            r == self.images(),
    {
        self.show_images && self.inline_images
    }
}

/// Whether a tool panel is shown whole.
pub fn should_expand_tool_panel(mode: ToolExpandMode) -> (r: bool)
    ensures
        r == (mode == ToolExpandMode::All),
{
    match mode {
        ToolExpandMode::Collapsed => false,
        ToolExpandMode::All => true,
    }
}

/// `a - b`, but at least one.
pub open spec fn less(a: nat, b: nat) -> nat {
    if a > b + 1 {
        (a - b) as nat
    } else {
        1
    }
}

fn minus(a: usize, b: usize) -> (r: usize)
    ensures
        r == less(a as nat, b as nat),
{
    if a > b && a - b > 1 {
        a - b
    } else {
        1
    }
}

/// The texts among blocks of content.
pub open spec fn block_texts(blocks: Seq<ContentBlock>) -> Seq<Seq<char>>
    decreases blocks.len(),
{
    if blocks.len() == 0 {
        Seq::empty()
    } else {
        match blocks.last() {
            ContentBlock::Text(s) => block_texts(blocks.drop_last()).push(s@),
            ContentBlock::Image { .. } => block_texts(blocks.drop_last()),
        }
    }
}

/// The text of a content: its text blocks as lines, without the images.
pub open spec fn text_of(content: UserContent) -> Seq<char> {
    match content {
        UserContent::Text(s) => s@,
        UserContent::Blocks(blocks) => text::join(block_texts(blocks@), "\n"@),
    }
}

/// The text of a content.
pub fn content_text(content: &UserContent) -> (r: String)
    ensures
        r@ == text_of(*content),
{
    match content {
        UserContent::Text(s) => copy_text(s.as_str()),
        UserContent::Blocks(blocks) => {
            let ghost all = blocks@;
            let mut parts: Vec<String> = Vec::new();
            let mut i: usize = 0;
            assert(all.take(0) =~= Seq::<ContentBlock>::empty());
            while i < blocks.len()
                invariant
                    0 <= i <= blocks.len(),
                    all == blocks@,
                    text::texts(parts@) == block_texts(all.take(i as int)),
                decreases blocks.len() - i,
            {
                assert(all.take(i + 1).drop_last() =~= all.take(i as int));
                match &blocks[i] {
                    ContentBlock::Text(s) => {
                        parts.push(copy_text(s.as_str()));
                    },
                    ContentBlock::Image { .. } => {},
                }
                i += 1;
            }
            assert(all.take(i as int) =~= all);
            join_texts(parts.as_slice(), "\n")
        },
    }
}

/// A text behind a name, broken into lines.
pub open spec fn behind_name(name: Seq<char>, s: Seq<char>, width: nat) -> Seq<Seq<char>> {
    let prefix = if name.len() == 0 {
        Seq::empty()
    } else {
        screen::prefix_style(name) + ": "@
    };
    let used = screen::width_of(prefix);
    wrap::prefixed(
        wrap::wrapped(
            s,
            if used < width {
                (width - used) as nat
            } else {
                0
            },
        ),
        prefix,
        used,
    )
}

/// A text behind a name, broken into lines.
pub fn append_prefixed_wrapped_text(name: &str, s: &str, width: usize) -> (r: Vec<String>)
    ensures
        text::texts(r@) == behind_name(name@, s@, width as nat),
{
    let prefix = if name.is_empty() {
        String::new()
    } else {
        cat2(style_prefix(name).as_str(), ": ")
    };
    let used = visible_width(prefix.as_str());
    let room: usize = if used < width {
        width - used
    } else {
        0
    };
    let lines = wrap_text(s, room);
    prefix_lines(lines.as_slice(), prefix.as_str(), used)
}

/// The note that stands for an image.
pub open spec fn image_note(mime_type: Seq<char>) -> Seq<char> {
    screen::hint("[image: "@ + mime_type + "]"@)
}

fn render_image_note(mime_type: &str) -> (r: String)
    ensures
        r@ == image_note(mime_type@),
{
    style_hint(cat3("[image: ", mime_type, "]").as_str())
}

/// An image: a note, and the image itself where images are shown.
pub open spec fn image_block(
    mime_type: Seq<char>,
    data: Option<Seq<char>>,
    width: nat,
    shown: bool,
) -> Seq<LineView> {
    as_lines(behind_name(Seq::empty(), image_note(mime_type), width)) + (if shown {
        seq![
            LineView::Image { alt_text: mime_type, mime_type: Some(mime_type), data },
        ]
    } else {
        Seq::empty()
    })
}

/// Several images.
pub open spec fn image_blocks(
    images: Seq<(Seq<char>, Option<Seq<char>>)>,
    width: nat,
    shown: bool,
) -> Seq<LineView>
    decreases images.len(),
{
    if images.len() == 0 {
        Seq::empty()
    } else {
        image_blocks(images.drop_last(), width, shown) + image_block(
            images.last().0,
            images.last().1,
            width,
            shown,
        )
    }
}

fn append_image_block(target: &mut Vec<RenderedLine>, image: &ImageRef, width: usize, shown: bool)
    ensures
        line_views(final(target)@) == line_views(old(target)@) + image_block(
            image.mime_type@,
            text::opt_text(image.data),
            width as nat,
            shown,
        ),
{
    let ghost before = line_views(target@);
    let note = render_image_note(image.mime_type.as_str());
    let lines = append_prefixed_wrapped_text("", note.as_str(), width);
    proof {
        reveal_strlit("");
        assert(""@ =~= Seq::<char>::empty());
    }
    push_texts(target, lines);
    if shown {
        let ghost noted = line_views(target@);
        target.push(
            RenderedLine::Image(
                ImageLine {
                    alt_text: copy_text(image.mime_type.as_str()),
                    mime_type: Some(copy_text(image.mime_type.as_str())),
                    data: copy_opt(&image.data),
                },
            ),
        );
        assert(line_views(target@) =~= noted.push(
            LineView::Image {
                alt_text: image.mime_type@,
                mime_type: Some(image.mime_type@),
                data: text::opt_text(image.data),
            },
        ));
    }
    assert(line_views(target@) =~= before + image_block(
        image.mime_type@,
        text::opt_text(image.data),
        width as nat,
        shown,
    ));
}

/// Appends several images.
pub fn append_image_blocks(target: &mut Vec<RenderedLine>, images: &[ImageRef], width: usize, shown: bool)
    ensures
        line_views(final(target)@) == line_views(old(target)@) + image_blocks(
            tools::image_views(images@),
            width as nat,
            shown,
        ),
{
    let ghost before = line_views(target@);
    let ghost all = tools::image_views(images@);
    let mut i: usize = 0;
    assert(all.take(0) =~= Seq::<(Seq<char>, Option<Seq<char>>)>::empty());
    assert(line_views(target@) =~= before + image_blocks(all.take(0), width as nat, shown));
    while i < images.len()
        invariant
            0 <= i <= images.len(),
            all == tools::image_views(images@),
            line_views(target@) == before + image_blocks(all.take(i as int), width as nat, shown),
        decreases images.len() - i,
    {
        assert(all.take(i + 1).drop_last() =~= all.take(i as int));
        append_image_block(target, &images[i], width, shown);
        i += 1;
        assert(line_views(target@) =~= before + image_blocks(
            all.take(i as int),
            width as nat,
            shown,
        ));
    }
    assert(all.take(i as int) =~= all);
}

/// The body of a user's message, and the images to show after it.
pub struct BodyView {
    pub lines: Seq<Seq<char>>,
    pub images: Seq<(Seq<char>, Option<Seq<char>>)>,
}

/// Lines with an empty one after them, where there are any.
pub open spec fn gapped(lines: Seq<Seq<char>>) -> Seq<Seq<char>> {
    if lines.len() == 0 {
        lines
    } else {
        lines.push(Seq::empty())
    }
}

/// The body of a user's message after its blocks, each below the one before.
pub open spec fn user_blocks(blocks: Seq<ContentBlock>, width: nat, images: bool) -> BodyView
    decreases blocks.len(),
{
    if blocks.len() == 0 {
        BodyView { lines: Seq::empty(), images: Seq::empty() }
    } else {
        let before = user_blocks(blocks.drop_last(), width, images);
        match blocks.last() {
            ContentBlock::Text(s) => BodyView {
                lines: gapped(before.lines) + markdown::markdown(s@, width),
                images: before.images,
            },
            ContentBlock::Image { mime_type, data } => if images {
                BodyView {
                    lines: before.lines,
                    images: before.images.push((mime_type@, Some(data@))),
                }
            } else {
                BodyView {
                    lines: gapped(before.lines).push(image_note(mime_type@)),
                    images: before.images,
                }
            },
        }
    }
}

/// A user's message on its surface, and its images.
pub open spec fn user_message(content: UserContent, width: nat, images: bool) -> Seq<LineView> {
    let room = less(less(width, 2), 2);
    let body = match content {
        UserContent::Text(s) => BodyView {
            lines: markdown::markdown(s@, room),
            images: Seq::empty(),
        },
        UserContent::Blocks(blocks) => user_blocks(blocks@, room, images),
    };
    as_lines(panels::user_block(body.lines, width)) + image_blocks(body.images, width, images)
}

fn push_gap(lines: &mut Vec<String>)
    ensures
        text::texts(final(lines)@) == gapped(text::texts(old(lines)@)),
{
    if lines.len() > 0 {
        lines.push(String::new());
    }
}

/// Appends a user's message on its surface, and its images.
pub fn render_plain_user_content(
    target: &mut Vec<RenderedLine>,
    content: &UserContent,
    width: u16,
    images_shown: bool,
)
    ensures
        line_views(final(target)@) == line_views(old(target)@) + user_message(
            *content,
            width as nat,
            images_shown,
        ),
{
    let ghost before = line_views(target@);
    let room = minus(minus(width as usize, 2), 2);
    let mut body: Vec<String> = Vec::new();
    let mut images: Vec<ImageRef> = Vec::new();
    assert(tools::image_views(images@) =~= Seq::<(Seq<char>, Option<Seq<char>>)>::empty());
    match content {
        UserContent::Text(s) => {
            body = collect_markdown_lines(s.as_str(), room);
        },
        UserContent::Blocks(blocks) => {
            let ghost all = blocks@;
            let mut i: usize = 0;
            assert(all.take(0) =~= Seq::<ContentBlock>::empty());
            while i < blocks.len()
                invariant
                    0 <= i <= blocks.len(),
                    all == blocks@,
                    text::texts(body@) == user_blocks(
                        all.take(i as int),
                        room as nat,
                        images_shown,
                    ).lines,
                    tools::image_views(images@) == user_blocks(
                        all.take(i as int),
                        room as nat,
                        images_shown,
                    ).images,
                decreases blocks.len() - i,
            {
                assert(all.take(i + 1).drop_last() =~= all.take(i as int));
                let ghost shown = tools::image_views(images@);
                match &blocks[i] {
                    ContentBlock::Text(s) => {
                        push_gap(&mut body);
                        let mut more = collect_markdown_lines(s.as_str(), room);
                        body.append(&mut more);
                    },
                    ContentBlock::Image { mime_type, data } => {
                        if images_shown {
                            images.push(
                                ImageRef {
                                    mime_type: copy_text(mime_type.as_str()),
                                    data: Some(copy_text(data.as_str())),
                                },
                            );
                            assert(tools::image_views(images@) =~= shown.push(
                                (mime_type@, Some(data@)),
                            ));
                        } else {
                            push_gap(&mut body);
                            body.push(render_image_note(mime_type.as_str()));
                        }
                    },
                }
                i += 1;
            }
            assert(all.take(i as int) =~= all);
        },
    }
    push_texts(target, append_user_message_block(body.as_slice(), width));
    append_image_blocks(target, images.as_slice(), width as usize, images_shown);
    assert(line_views(target@) =~= before + user_message(*content, width as nat, images_shown));
}

/// The groups that a regular expression captures in a text, the whole match first; nothing where
/// the expression is not valid or does not match.
pub uninterp spec fn regex_groups(pattern: Seq<char>, s: Seq<char>) -> Option<
    Seq<Option<Seq<char>>>,
>;

/// The texts of a list in which texts may be missing, behind an option.
pub open spec fn opt_groups(groups: Option<Vec<Option<String>>>) -> Option<Seq<Option<Seq<char>>>> {
    match groups {
        Some(list) => Some(Seq::new(list@.len(), |i: int| text::opt_text(list@[i]))),
        None => None,
    }
}

/// `regex::Regex::new` compiles an expression and `captures` finds its first match in a text. The
/// groups are handed out as texts. What matches is left to the name `regex_groups`.
#[verifier::external_body]
pub(crate) fn capture_groups(pattern: &str, s: &str) -> (r: Option<Vec<Option<String>>>)
    ensures
        opt_groups(r) == regex_groups(pattern@, s@),
{
    let captures = regex::Regex::new(pattern).ok()?.captures(s)?;
    Some(captures.iter().map(|group| group.map(|found| found.as_str().to_owned())).collect())
}

/// The expression for a skill that a message calls.
pub const SKILL_PATTERN: &'static str = "(?s)^<skill name=\"([^\"]+)\" location=\"([^\"]+)\">\\s*(.*?)\\s*</skill>(?:\\s+(.*))?$";

/// A skill that a message calls.
#[derive(Clone, Debug, PartialEq, Eq)]
pub struct ParsedSkillBlock {
    pub name: String,
    pub location: String,
    pub content: String,
    pub user_message: Option<String>,
}

/// A skill that a message calls, as a mathematical value.
pub struct SkillView {
    pub name: Seq<char>,
    pub location: Seq<char>,
    pub content: Seq<char>,
    pub user_message: Option<Seq<char>>,
}

impl View for ParsedSkillBlock {
    type V = SkillView;

    open spec fn view(&self) -> SkillView {
        SkillView {
            name: self.name@,
            location: self.location@,
            content: self.content@,
            user_message: text::opt_text(self.user_message),
        }
    }
}

/// Group `i` of a match.
pub open spec fn group(groups: Seq<Option<Seq<char>>>, i: int) -> Option<Seq<char>> {
    if 0 <= i < groups.len() {
        groups[i]
    } else {
        None
    }
}

/// The skill that the groups of a match give: a name, a place, a content, and a message of the user
/// where one is left after trimming.
pub open spec fn skill_in(groups: Option<Seq<Option<Seq<char>>>>) -> Option<SkillView> {
    match groups {
        None => None,
        Some(list) => match (group(list, 1), group(list, 2), group(list, 3)) {
            (Some(name), Some(location), Some(content)) => Some(
                SkillView {
                    name,
                    location,
                    content,
                    user_message: match group(list, 4) {
                        Some(message) => if text::trim(message).len() > 0 {
                            Some(text::trim(message))
                        } else {
                            None
                        },
                        None => None,
                    },
                },
            ),
            _ => None,
        },
    }
}

fn group_at(groups: &Vec<Option<String>>, i: usize) -> (r: Option<&String>)
    ensures
        match r {
            Some(s) => group(opt_groups(Some(*groups))->0, i as int) == Some(s@),
            None => group(opt_groups(Some(*groups))->0, i as int) is None,
        },
{
    if i < groups.len() {
        match &groups[i] {
            Some(s) => Some(s),
            None => None,
        }
    } else {
        None
    }
}

/// The skill that the groups of a match give.
pub fn skill_from_groups(groups: Option<Vec<Option<String>>>) -> (r: Option<ParsedSkillBlock>)
    ensures
        match r {
            Some(skill) => skill_in(opt_groups(groups)) == Some(skill@),
            None => skill_in(opt_groups(groups)) is None,
        },
{
    match groups {
        None => None,
        Some(list) => match (group_at(&list, 1), group_at(&list, 2), group_at(&list, 3)) {
            (Some(name), Some(location), Some(content)) => {
                let user_message = match group_at(&list, 4) {
                    Some(message) => {
                        let inner = trimmed(message.as_str());
                        if inner.as_str().is_empty() {
                            None
                        } else {
                            Some(inner)
                        }
                    },
                    None => None,
                };
                Some(
                    ParsedSkillBlock {
                        name: copy_text(name.as_str()),
                        location: copy_text(location.as_str()),
                        content: copy_text(content.as_str()),
                        user_message,
                    },
                )
            },
            _ => None,
        },
    }
}

/// The skill that a text calls.
pub open spec fn skill_of(s: Seq<char>) -> Option<SkillView> {
    skill_in(regex_groups(SKILL_PATTERN@, s))
}

/// The skill that a text calls.
pub fn parse_skill_block(s: &str) -> (r: Option<ParsedSkillBlock>)
    ensures
        match r {
            Some(skill) => skill_of(s@) == Some(skill@),
            None => skill_of(s@) is None,
        },
{
    skill_from_groups(capture_groups(SKILL_PATTERN, s))
}

/// Lines in the style of custom messages.
pub open spec fn custom_lines(lines: Seq<Seq<char>>) -> Seq<Seq<char>> {
    lines.map_values(|line: Seq<char>| screen::custom_text(line))
}

fn push_custom_lines(target: &mut Vec<String>, lines: &[String])
    ensures
        text::texts(final(target)@) == text::texts(old(target)@) + custom_lines(
            text::texts(lines@),
        ),
{
    let ghost before = text::texts(target@);
    let ghost shown = custom_lines(text::texts(lines@));
    let mut i: usize = 0;
    assert(text::texts(target@) =~= before + shown.take(0));
    while i < lines.len()
        invariant
            0 <= i <= lines.len(),
            shown == custom_lines(text::texts(lines@)),
            text::texts(target@) == before + shown.take(i as int),
        decreases lines.len() - i,
    {
        target.push(style_custom_text(lines[i].as_str()));
        i += 1;
        assert(shown.take(i as int) =~= shown.take(i - 1).push(shown[i - 1]));
        assert(text::texts(target@) =~= before + shown.take(i as int));
    }
    assert(shown.take(i as int) =~= shown);
}

/// A skill that a message calls, whole or collapsed.
pub open spec fn skill_block(
    name: Seq<char>,
    content: Seq<char>,
    width: nat,
    expanded: bool,
    hint: Seq<char>,
) -> Seq<Seq<char>> {
    let head = seq![screen::custom_label("[skill]"@), Seq::empty()];
    panels::custom_block(
        if expanded {
            head + seq![screen::custom_text(name), Seq::empty()] + custom_lines(
                markdown::markdown(content, less(width, 2)),
            )
        } else {
            head.push(screen::custom_text(name + " ("@ + hint + " to expand)"@))
        },
        width,
    )
}

fn render_skill_invocation_message(
    skill: &ParsedSkillBlock,
    width: u16,
    mode: ToolExpandMode,
    hint: &str,
) -> (r: Vec<String>)
    ensures
        text::texts(r@) == skill_block(
            skill.name@,
            skill.content@,
            width as nat,
            mode == ToolExpandMode::All,
            hint@,
        ),
{
    let mut body: Vec<String> = Vec::new();
    body.push(style_custom_label("[skill]"));
    body.push(String::new());
    let ghost head = seq![screen::custom_label("[skill]"@), Seq::<char>::empty()];
    assert(text::texts(body@) =~= head);
    if should_expand_tool_panel(mode) {
        body.push(style_custom_text(skill.name.as_str()));
        body.push(String::new());
        let lines = collect_markdown_lines(skill.content.as_str(), minus(width as usize, 2));
        assert(text::texts(body@) =~= head + seq![
            screen::custom_text(skill.name@),
            Seq::<char>::empty(),
        ]);
        push_custom_lines(&mut body, lines.as_slice());
    } else {
        body.push(
            style_custom_text(cat4(skill.name.as_str(), " (", hint, " to expand)").as_str()),
        );
    }
    append_custom_surface_block(body.as_slice(), width)
}

/// A user's message, with the skill that it calls above it.
pub open spec fn user_with_skill(
    content: UserContent,
    width: nat,
    images: bool,
    expanded: bool,
    hint: Seq<char>,
) -> Seq<LineView> {
    match skill_of(text_of(content)) {
        Some(skill) => as_lines(skill_block(skill.name, skill.content, width, expanded, hint)) + (
        match skill.user_message {
            Some(message) => user_text(message, width, images),
            None => Seq::empty(),
        }),
        None => user_message(content, width, images),
    }
}

/// A user's message that is one text.
pub open spec fn user_text(s: Seq<char>, width: nat, images: bool) -> Seq<LineView> {
    as_lines(panels::user_block(markdown::markdown(s, less(less(width, 2), 2)), width))
        + image_blocks(Seq::empty(), width, images)
}

fn render_user_text(target: &mut Vec<RenderedLine>, s: &str, width: u16, images: bool)
    ensures
        line_views(final(target)@) == line_views(old(target)@) + user_text(
            s@,
            width as nat,
            images,
        ),
{
    render_plain_user_content(target, &UserContent::Text(copy_text(s)), width, images);
}

/// Appends a user's message, with the skill that it calls above it.
pub fn render_user_message(
    target: &mut Vec<RenderedLine>,
    content: &UserContent,
    width: u16,
    images: bool,
    mode: ToolExpandMode,
    hint: &str,
)
    ensures
        line_views(final(target)@) == line_views(old(target)@) + user_with_skill(
            *content,
            width as nat,
            images,
            mode == ToolExpandMode::All,
            hint@,
        ),
{
    let ghost before = line_views(target@);
    match parse_skill_block(content_text(content).as_str()) {
        Some(skill) => {
            push_texts(target, render_skill_invocation_message(&skill, width, mode, hint));
            if let Some(message) = &skill.user_message {
                render_user_text(target, message.as_str(), width, images);
            }
            assert(line_views(target@) =~= before + user_with_skill(
                *content,
                width as nat,
                images,
                mode == ToolExpandMode::All,
                hint@,
            ));
        },
        None => {
            render_plain_user_content(target, content, width, images);
        },
    }
}

/// The body of a custom message after its blocks: a text block starts below an empty line.
pub open spec fn custom_blocks(
    head: Seq<Seq<char>>,
    blocks: Seq<ContentBlock>,
    width: nat,
    images: bool,
) -> BodyView
    decreases blocks.len(),
{
    if blocks.len() == 0 {
        BodyView { lines: head, images: Seq::empty() }
    } else {
        let before = custom_blocks(head, blocks.drop_last(), width, images);
        match blocks.last() {
            ContentBlock::Text(s) => BodyView {
                lines: (if before.lines.len() > 0 && before.lines.last().len() > 0 {
                    before.lines.push(Seq::empty())
                } else {
                    before.lines
                }) + custom_lines(markdown::markdown(s@, width)),
                images: before.images,
            },
            ContentBlock::Image { mime_type, data } => if images {
                BodyView {
                    lines: before.lines,
                    images: before.images.push((mime_type@, Some(data@))),
                }
            } else {
                BodyView {
                    lines: before.lines.push(image_note(mime_type@)),
                    images: before.images,
                }
            },
        }
    }
}

/// A custom message on its surface, and its images.
pub open spec fn custom_message(
    custom_type: Seq<char>,
    content: UserContent,
    width: nat,
    images: bool,
) -> Seq<LineView> {
    let head = seq![screen::custom_label("["@ + custom_type + "]"@), Seq::empty()];
    let body = match content {
        UserContent::Text(s) => BodyView {
            lines: head + custom_lines(markdown::markdown(s@, less(width, 2))),
            images: Seq::empty(),
        },
        UserContent::Blocks(blocks) => custom_blocks(head, blocks@, less(width, 2), images),
    };
    as_lines(panels::custom_block(body.lines, width)) + image_blocks(body.images, width, images)
}

fn render_generic_custom_message(
    target: &mut Vec<RenderedLine>,
    custom_type: &str,
    content: &UserContent,
    width: u16,
    images_shown: bool,
)
    ensures
        line_views(final(target)@) == line_views(old(target)@) + custom_message(
            custom_type@,
            *content,
            width as nat,
            images_shown,
        ),
{
    let ghost before = line_views(target@);
    let room = minus(width as usize, 2);
    let mut body: Vec<String> = Vec::new();
    body.push(style_custom_label(cat3("[", custom_type, "]").as_str()));
    body.push(String::new());
    let ghost head = seq![
        screen::custom_label("["@ + custom_type@ + "]"@),
        Seq::<char>::empty(),
    ];
    assert(text::texts(body@) =~= head);
    let mut images: Vec<ImageRef> = Vec::new();
    assert(tools::image_views(images@) =~= Seq::<(Seq<char>, Option<Seq<char>>)>::empty());
    match content {
        UserContent::Text(s) => {
            let lines = collect_markdown_lines(s.as_str(), room);
            push_custom_lines(&mut body, lines.as_slice());
        },
        UserContent::Blocks(blocks) => {
            let ghost all = blocks@;
            let mut i: usize = 0;
            assert(all.take(0) =~= Seq::<ContentBlock>::empty());
            while i < blocks.len()
                invariant
                    0 <= i <= blocks.len(),
                    all == blocks@,
                    text::texts(body@) == custom_blocks(
                        head,
                        all.take(i as int),
                        room as nat,
                        images_shown,
                    ).lines,
                    tools::image_views(images@) == custom_blocks(
                        head,
                        all.take(i as int),
                        room as nat,
                        images_shown,
                    ).images,
                decreases blocks.len() - i,
            {
                assert(all.take(i + 1).drop_last() =~= all.take(i as int));
                let ghost shown = tools::image_views(images@);
                match &blocks[i] {
                    ContentBlock::Text(s) => {
                        if body.len() > 0 && !body[body.len() - 1].as_str().is_empty() {
                            body.push(String::new());
                        }
                        let lines = collect_markdown_lines(s.as_str(), room);
                        push_custom_lines(&mut body, lines.as_slice());
                    },
                    ContentBlock::Image { mime_type, data } => {
                        if images_shown {
                            images.push(
                                ImageRef {
                                    mime_type: copy_text(mime_type.as_str()),
                                    data: Some(copy_text(data.as_str())),
                                },
                            );
                            assert(tools::image_views(images@) =~= shown.push(
                                (mime_type@, Some(data@)),
                            ));
                        } else {
                            body.push(render_image_note(mime_type.as_str()));
                        }
                    },
                }
                i += 1;
            }
            assert(all.take(i as int) =~= all);
        },
    }
    push_texts(target, append_custom_surface_block(body.as_slice(), width));
    append_image_blocks(target, images.as_slice(), width as usize, images_shown);
    assert(line_views(target@) =~= before + custom_message(
        custom_type@,
        *content,
        width as nat,
        images_shown,
    ));
}

/// What one line of a shell command's record is shown as; nothing for a successful exit.
pub open spec fn bash_record_line(line: Seq<char>, width: nat) -> Seq<Seq<char>> {
    if line.len() == 0 {
        seq![line]
    } else if text::has_prefix(line, "Exit code: 0"@) {
        Seq::empty()
    } else if text::has_prefix(line, "Exit code:"@) {
        seq![screen::warning(tools::exit_note(line))]
    } else if text::has_prefix(line, "Command cancelled"@) {
        seq![screen::warning("(cancelled)"@)]
    } else if text::has_prefix(line, "Full output:"@) {
        seq![screen::hint(line)]
    } else {
        seq![screen::dim(screen::cut(line, width))]
    }
}

/// What lines of a shell command's record are shown as.
pub open spec fn bash_record_lines(lines: Seq<Seq<char>>, width: nat) -> Seq<Seq<char>>
    decreases lines.len(),
{
    if lines.len() == 0 {
        Seq::empty()
    } else {
        bash_record_lines(lines.drop_last(), width) + bash_record_line(lines.last(), width)
    }
}

fn push_bash_record_line(body: &mut Vec<String>, line: &str, width: usize)
    ensures
        text::texts(final(body)@) == text::texts(old(body)@) + bash_record_line(
            line@,
            width as nat,
        ),
{
    let ghost before = text::texts(body@);
    if line.is_empty() {
        body.push(copy_text(line));
    } else if begins_with(line, "Exit code: 0") {
    } else if begins_with(line, "Exit code:") {
        body.push(style_warning(render_exit_note(line).as_str()));
    } else if begins_with(line, "Command cancelled") {
        body.push(style_warning("(cancelled)"));
    } else if begins_with(line, "Full output:") {
        body.push(style_hint(line));
    } else {
        body.push(style_dim(truncate_to_width(line, width).as_str()));
    }
    assert(text::texts(body@) =~= before + bash_record_line(line@, width as nat));
}

/// The title of a shell command's record: the command of its details, or its first line.
pub open spec fn bash_record_title(s: Seq<char>, details: Option<Json>) -> Seq<char> {
    match json::text_in(json::member_of(details, "command"@)) {
        Some(command) => if command.len() == 0 {
            "$"@
        } else {
            "$ "@ + command
        },
        None => if text::lines_of(s).len() == 0 {
            text::trim("$"@)
        } else {
            text::trim(text::lines_of(s)[0])
        },
    }
}

/// The notice that output is missing, where the record does not tell where it is.
pub open spec fn bash_record_notice(s: Seq<char>, details: Option<Json>) -> Seq<Seq<char>> {
    if json::bool_in(json::member_of(details, "truncated"@)) == Some(true) && !text::contains_text(
        s,
        "Full output:"@,
    ) {
        match json::text_in(json::member_of(details, "fullOutputPath"@)) {
            Some(path) => seq![screen::hint("Full output: "@ + path)],
            None => seq![screen::warning("Output truncated"@)],
        }
    } else {
        Seq::empty()
    }
}

/// The record of a shell command.
pub open spec fn bash_record(
    content: UserContent,
    details: Option<Json>,
    width: nat,
    expanded: bool,
    hint: Seq<char>,
) -> Seq<Seq<char>> {
    let s = text_of(content);
    let lines = text::lines_of(s);
    let rest = if lines.len() == 0 {
        lines
    } else {
        lines.skip(1)
    };
    let body = bash_record_lines(
        rest,
        if width > 1 {
            width
        } else {
            1
        },
    ) + bash_record_notice(s, details);
    panels::tool_surface(
        bash_record_title(s, details),
        panels::collapsed(body, 1, 20, true, expanded, hint),
        width,
        json::bool_in(json::member_of(details, "excludeFromContext"@)) == Some(true),
    )
}

fn is_true(details: Option<&Json>, key: &str) -> (r: bool)
    ensures
        r == (json::bool_in(json::member_of(json::referred(details), key@)) == Some(true)),
{
    match bool_under(details, key) {
        Some(b) => b,
        None => false,
    }
}

fn render_bash_title(lines: &[String], details: Option<&Json>, s: Ghost<Seq<char>>) -> (r: String)
    requires
        text::texts(lines@) == text::lines_of(s@),
    ensures
        r@ == bash_record_title(s@, json::referred(details)),
{
    match text_under(details, "command") {
        Some(command) => if command.is_empty() {
            copy_text("$")
        } else {
            cat2("$ ", command)
        },
        None => if lines.len() == 0 {
            trimmed("$")
        } else {
            trimmed(lines[0].as_str())
        },
    }
}

/// The record of a shell command.
pub fn render_bash_execution_message(
    content: &UserContent,
    details: Option<&Json>,
    width: u16,
    mode: ToolExpandMode,
    hint: &str,
) -> (r: Vec<String>)
    ensures
        text::texts(r@) == bash_record(
            *content,
            json::referred(details),
            width as nat,
            mode == ToolExpandMode::All,
            hint@,
        ),
{
    let s = content_text(content);
    let lines = text_lines(s.as_str());
    let room: usize = if width > 1 {
        width as usize
    } else {
        1
    };
    let title = render_bash_title(lines.as_slice(), details, Ghost(s@));
    let ghost all = text::texts(lines@);
    let ghost rest = if all.len() == 0 {
        all
    } else {
        all.skip(1)
    };
    let mut body: Vec<String> = Vec::new();
    if lines.len() > 0 {
        let mut i: usize = 1;
        assert(rest.take(0) =~= Seq::<Seq<char>>::empty());
        while i < lines.len()
            invariant
                1 <= i <= lines.len(),
                all == text::texts(lines@),
                rest == all.skip(1),
                text::texts(body@) == bash_record_lines(rest.take(i - 1), room as nat),
            decreases lines.len() - i,
        {
            assert(rest.take(i as int).drop_last() =~= rest.take(i - 1));
            assert(rest.take(i as int).last() == all[i as int]);
            push_bash_record_line(&mut body, lines[i].as_str(), room);
            i += 1;
        }
        assert(rest.take(i - 1) =~= rest);
    }
    if is_true(details, "truncated") && !text::contains(s.as_str(), "Full output:") {
        match text_under(details, "fullOutputPath") {
            Some(path) => {
                body.push(style_hint(cat2("Full output: ", path).as_str()));
            },
            None => {
                body.push(style_warning("Output truncated"));
            },
        }
    }
    assert(text::texts(body@) =~= bash_record_lines(rest, room as nat) + bash_record_notice(
        s@,
        json::referred(details),
    ));
    let shown = collapse_panel_body(
        body.as_slice(),
        1,
        20,
        true,
        should_expand_tool_panel(mode),
        hint,
    );
    append_tool_surface_block(
        title.as_str(),
        shown.as_slice(),
        width,
        is_true(details, "excludeFromContext"),
    )
}

/// A custom entry of the transcript.
pub open spec fn custom_entry(
    custom_type: Seq<char>,
    content: UserContent,
    details: Option<Json>,
    width: nat,
    images: bool,
    expanded: bool,
    hint: Seq<char>,
) -> Seq<LineView> {
    if custom_type == "bash_execution"@ {
        as_lines(bash_record(content, details, width, expanded, hint))
    } else {
        match skill_of(text_of(content)) {
            Some(skill) => as_lines(
                skill_block(skill.name, skill.content, width, expanded, hint),
            ) + (match skill.user_message {
                Some(message) => nested_user_text(message, width, images),
                None => Seq::empty(),
            }),
            None => custom_message(custom_type, content, width, images),
        }
    }
}

/// A user's text that may call a skill itself, which is then shown whole.
pub open spec fn nested_user_text(s: Seq<char>, width: nat, images: bool) -> Seq<LineView> {
    match skill_of(s) {
        Some(skill) => as_lines(
            skill_block(skill.name, skill.content, width, true, "ctrl+o"@),
        ) + (match skill.user_message {
            Some(message) => user_text(message, width, images),
            None => Seq::empty(),
        }),
        None => user_text(s, width, images),
    }
}

fn render_user_content(target: &mut Vec<RenderedLine>, s: &str, width: u16, images: bool)
    ensures
        line_views(final(target)@) == line_views(old(target)@) + nested_user_text(
            s@,
            width as nat,
            images,
        ),
{
    let ghost before = line_views(target@);
    match parse_skill_block(s) {
        Some(skill) => {
            push_texts(
                target,
                render_skill_invocation_message(&skill, width, ToolExpandMode::All, "ctrl+o"),
            );
            if let Some(message) = &skill.user_message {
                render_user_text(target, message.as_str(), width, images);
            }
            assert(line_views(target@) =~= before + nested_user_text(s@, width as nat, images));
        },
        None => {
            render_user_text(target, s, width, images);
        },
    }
}

fn render_custom_message(
    target: &mut Vec<RenderedLine>,
    custom_type: &str,
    content: &UserContent,
    details: Option<&Json>,
    width: u16,
    images: bool,
    mode: ToolExpandMode,
    hint: &str,
)
    ensures
        line_views(final(target)@) == line_views(old(target)@) + custom_entry(
            custom_type@,
            *content,
            json::referred(details),
            width as nat,
            images,
            mode == ToolExpandMode::All,
            hint@,
        ),
{
    let ghost before = line_views(target@);
    if same(custom_type, "bash_execution") {
        push_texts(target, render_bash_execution_message(content, details, width, mode, hint));
        return;
    }
    match parse_skill_block(content_text(content).as_str()) {
        Some(skill) => {
            push_texts(target, render_skill_invocation_message(&skill, width, mode, hint));
            if let Some(message) = &skill.user_message {
                render_user_content(target, message.as_str(), width, images);
            }
            assert(line_views(target@) =~= before + custom_entry(
                custom_type@,
                *content,
                json::referred(details),
                width as nat,
                images,
                mode == ToolExpandMode::All,
                hint@,
            ));
        },
        None => {
            render_generic_custom_message(target, custom_type, content, width, images);
        },
    }
}

/// A summary in the transcript.
pub open spec fn summary_entry(
    kind: SummaryKind,
    title: Seq<char>,
    s: Seq<char>,
    tokens_before: Option<u64>,
    width: nat,
    hint: Seq<char>,
) -> Seq<Seq<char>> {
    let short = screen::custom_text(screen::cut(s, less(width, 2)));
    match kind {
        SummaryKind::Generic => panels::panel_block(
            screen::title(title),
            markdown::markdown(s, less(width, 4)),
            width,
        ),
        SummaryKind::Branch => panels::custom_block(
            seq![
                screen::custom_label("[branch]"@),
                Seq::empty(),
                screen::custom_text("Branch summary ("@ + hint + " to expand)"@),
                Seq::empty(),
                short,
            ],
            width,
        ),
        SummaryKind::Compaction => panels::custom_block(
            seq![
                screen::custom_label("[compaction]"@),
                Seq::empty(),
                screen::custom_text(
                    "Compacted from "@ + (match tokens_before {
                        Some(n) => text::decimal(n as nat),
                        None => "?"@,
                    }) + " tokens ("@ + hint + " to expand)"@,
                ),
                Seq::empty(),
                short,
            ],
            width,
        ),
    }
}

/// A summary in the transcript.
pub fn render_summary_entry(
    kind: SummaryKind,
    title: &str,
    s: &str,
    tokens_before: Option<u64>,
    width: u16,
    hint: &str,
) -> (r: Vec<String>)
    ensures
        text::texts(r@) == summary_entry(
            kind,
            title@,
            s@,
            tokens_before,
            width as nat,
            hint@,
        ),
{
    if kind == SummaryKind::Generic {
        let lines = collect_markdown_lines(s, minus(width as usize, 4));
        return append_panel_block(style_title(title).as_str(), lines.as_slice(), width);
    }
    let short = style_custom_text(truncate_to_width(s, minus(width as usize, 2)).as_str());
    let (label, note) = if kind == SummaryKind::Branch {
        (
            style_custom_label("[branch]"),
            style_custom_text(cat3("Branch summary (", hint, " to expand)").as_str()),
        )
    } else {
        let tokens = match tokens_before {
            Some(n) => decimal_text(n),
            None => copy_text("?"),
        };
        (
            style_custom_label("[compaction]"),
            style_custom_text(
                text::cat5("Compacted from ", tokens.as_str(), " tokens (", hint, " to expand)").as_str(),
            ),
        )
    };
    let ghost expected = seq![
        label@,
        Seq::<char>::empty(),
        note@,
        Seq::<char>::empty(),
        short@,
    ];
    let mut body: Vec<String> = Vec::new();
    body.push(label);
    body.push(String::new());
    body.push(note);
    body.push(String::new());
    body.push(short);
    assert(text::texts(body@) =~= expected);
    append_custom_surface_block(body.as_slice(), width)
}

/// What an assistant's message is shown as so far, and whether nothing was shown yet.
pub struct AssistantLines {
    pub lines: Seq<Seq<char>>,
    pub first: bool,
}

/// More lines, below an empty one where something was shown before.
pub open spec fn below(before: AssistantLines, more: Seq<Seq<char>>) -> AssistantLines {
    AssistantLines {
        lines: before.lines + (if before.first {
            Seq::empty()
        } else {
            seq![Seq::<char>::empty()]
        }) + more,
        first: false,
    }
}

/// Lines of thought; an empty line stays empty.
pub open spec fn thinking_lines(s: Seq<char>, width: nat) -> Seq<Seq<char>> {
    markdown::markdown(s, width).map_values(
        |line: Seq<char>|
            if line.len() == 0 {
                line
            } else {
                screen::thinking_surface(line)
            },
    )
}

/// A tool call.
pub open spec fn call_block(
    name: Seq<char>,
    arguments: JsonDoc,
    width: nat,
    home: Option<Seq<char>>,
) -> Seq<Seq<char>> {
    panels::tool_surface(
        tools::panel_title(name, Some(arguments.value), None, home),
        tools::call_body(name, arguments, less(width, 4)),
        width,
        false,
    )
}

/// What an assistant's message is shown as after one more block.
pub open spec fn assistant_step(
    before: AssistantLines,
    block: AssistantBlock,
    width: nat,
    hide_thinking: bool,
    home: Option<Seq<char>>,
) -> AssistantLines {
    match block {
        AssistantBlock::Text(s) => if text::trim(s@).len() > 0 {
            below(before, markdown::markdown(s@, width))
        } else {
            before
        },
        AssistantBlock::Thinking(s) => if hide_thinking {
            below(before, seq![screen::thinking_surface("Thinking..."@)])
        } else if text::trim(s@).len() > 0 {
            below(before, thinking_lines(s@, width))
        } else {
            before
        },
        AssistantBlock::ToolCall { id, name, arguments } => below(
            before,
            call_block(name@, arguments, width, home),
        ),
    }
}

/// What an assistant's message is shown as after its blocks.
pub open spec fn assistant_blocks(
    blocks: Seq<AssistantBlock>,
    width: nat,
    hide_thinking: bool,
    home: Option<Seq<char>>,
) -> AssistantLines
    decreases blocks.len(),
{
    if blocks.len() == 0 {
        AssistantLines { lines: Seq::empty(), first: true }
    } else {
        assistant_step(
            assistant_blocks(blocks.drop_last(), width, hide_thinking, home),
            blocks.last(),
            width,
            hide_thinking,
            home,
        )
    }
}

/// Whether a message calls a tool.
pub open spec fn calls_tool(blocks: Seq<AssistantBlock>) -> bool {
    exists|i: int| 0 <= i < blocks.len() && (#[trigger] blocks[i]) is ToolCall
}

/// Why a message ended early, as a line.
pub open spec fn ending(message: AssistantMessage) -> Option<Seq<char>> {
    if calls_tool(message.content@) {
        None
    } else if message.stop_reason == StopReason::Aborted {
        Some(
            screen::warning(
                match message.error_message {
                    Some(error) => if error@ == "Request was aborted"@ {
                        "Operation aborted"@
                    } else {
                        error@
                    },
                    None => "Operation aborted"@,
                },
            ),
        )
    } else if message.stop_reason == StopReason::Error {
        Some(
            screen::error(
                "Error: "@ + (match message.error_message {
                    Some(error) => error@,
                    None => "Unknown error"@,
                }),
            ),
        )
    } else {
        None
    }
}

/// A message of the assistant: its blocks, why it ended early, or dots where there is nothing.
pub open spec fn assistant_message(
    message: AssistantMessage,
    width: nat,
    hide_thinking: bool,
    home: Option<Seq<char>>,
) -> Seq<Seq<char>> {
    let blocks = assistant_blocks(message.content@, width, hide_thinking, home);
    let ended = match ending(message) {
        Some(line) => below(blocks, seq![line]),
        None => blocks,
    };
    if ended.first {
        ended.lines.push(screen::hint("..."@))
    } else {
        ended.lines
    }
}

fn push_below(target: &mut Vec<String>, first: bool, lines: Vec<String>)
    ensures
        text::texts(final(target)@) == below(
            (AssistantLines { lines: text::texts(old(target)@), first }),
            text::texts(lines@),
        ).lines,
{
    let ghost before = text::texts(target@);
    let ghost more = text::texts(lines@);
    let mut rest = lines;
    if !first {
        target.push(String::new());
    }
    target.append(&mut rest);
    assert(text::texts(target@) =~= below((AssistantLines { lines: before, first }), more).lines);
}

fn render_thinking(s: &str, width: usize) -> (r: Vec<String>)
    ensures
        text::texts(r@) == thinking_lines(s@, width as nat),
{
    let lines = collect_markdown_lines(s, width);
    let ghost all = thinking_lines(s@, width as nat);
    let mut out: Vec<String> = Vec::new();
    let mut i: usize = 0;
    while i < lines.len()
        invariant
            0 <= i <= lines.len(),
            text::texts(lines@) == markdown::markdown(s@, width as nat),
            all == thinking_lines(s@, width as nat),
            text::texts(out@) == all.take(i as int),
        decreases lines.len() - i,
    {
        let line = lines[i].as_str();
        if line.is_empty() {
            out.push(copy_text(line));
        } else {
            out.push(style_thinking_surface(line));
        }
        i += 1;
        assert(all.take(i as int) =~= all.take(i - 1).push(all[i - 1]));
    }
    assert(all.take(i as int) =~= all);
    out
}

fn render_call_block(name: &str, arguments: &JsonDoc, width: u16, home: &Option<String>) -> (r: Vec<
    String,
>)
    ensures
        text::texts(r@) == call_block(name@, *arguments, width as nat, text::opt_text(*home)),
{
    let body = build_tool_call_body(name, arguments, minus(width as usize, 4));
    let title = tool_panel_title(name, Some(&arguments.value), None, home);
    append_tool_surface_block(title.as_str(), body.as_slice(), width, false)
}

fn one_line(line: String) -> (r: Vec<String>)
    ensures
        text::texts(r@) == seq![line@],
{
    let mut out: Vec<String> = Vec::new();
    out.push(line);
    assert(text::texts(out@) =~= seq![line@]);
    out
}

fn has_tool_call(blocks: &[AssistantBlock]) -> (r: bool)
    ensures
        r == calls_tool(blocks@),
{
    let mut i: usize = 0;
    while i < blocks.len()
        invariant
            0 <= i <= blocks.len(),
            forall|k: int| 0 <= k < i ==> !((#[trigger] blocks@[k]) is ToolCall),
        decreases blocks.len() - i,
    {
        if matches!(blocks[i], AssistantBlock::ToolCall { .. }) {
            assert(blocks@[i as int] is ToolCall);
            return true;
        }
        i += 1;
    }
    false
}

fn render_ending(message: &AssistantMessage) -> (r: Option<String>)
    ensures
        text::opt_text(r) == ending(*message),
{
    if has_tool_call(message.content.as_slice()) {
        return None;
    }
    match message.stop_reason {
        StopReason::Aborted => {
            let told = match &message.error_message {
                Some(error) => if same(error.as_str(), "Request was aborted") {
                    copy_text("Operation aborted")
                } else {
                    copy_text(error.as_str())
                },
                None => copy_text("Operation aborted"),
            };
            Some(style_warning(told.as_str()))
        },
        StopReason::Error => {
            let told = match &message.error_message {
                Some(error) => copy_text(error.as_str()),
                None => copy_text("Unknown error"),
            };
            Some(style_error(cat2("Error: ", told.as_str()).as_str()))
        },
        _ => None,
    }
}

/// A message of the assistant.
pub fn render_assistant_message(
    message: &AssistantMessage,
    width: u16,
    hide_thinking: bool,
    home: &Option<String>,
) -> (r: Vec<String>)
    ensures
        text::texts(r@) == assistant_message(
            *message,
            width as nat,
            hide_thinking,
            text::opt_text(*home),
        ),
{
    let ghost all = message.content@;
    let ghost dir = text::opt_text(*home);
    let ghost w = width as nat;
    let mut lines: Vec<String> = Vec::new();
    let mut first = true;
    let mut i: usize = 0;
    assert(all.take(0) =~= Seq::<AssistantBlock>::empty());
    while i < message.content.len()
        invariant
            0 <= i <= message.content.len(),
            all == message.content@,
            dir == text::opt_text(*home),
            w == width as nat,
            text::texts(lines@) == assistant_blocks(
                all.take(i as int),
                w,
                hide_thinking,
                dir,
            ).lines,
            first == assistant_blocks(all.take(i as int), w, hide_thinking, dir).first,
        decreases message.content.len() - i,
    {
        assert(all.take(i + 1).drop_last() =~= all.take(i as int));
        match &message.content[i] {
            AssistantBlock::Text(s) => {
                if !trimmed(s.as_str()).as_str().is_empty() {
                    push_below(
                        &mut lines,
                        first,
                        collect_markdown_lines(s.as_str(), width as usize),
                    );
                    first = false;
                }
            },
            AssistantBlock::Thinking(s) => {
                if hide_thinking {
                    push_below(&mut lines, first, one_line(style_thinking_surface("Thinking...")));
                    first = false;
                } else if !trimmed(s.as_str()).as_str().is_empty() {
                    push_below(&mut lines, first, render_thinking(s.as_str(), width as usize));
                    first = false;
                }
            },
            AssistantBlock::ToolCall { id, name, arguments } => {
                push_below(
                    &mut lines,
                    first,
                    render_call_block(name.as_str(), arguments, width, home),
                );
                first = false;
            },
        }
        i += 1;
    }
    assert(all.take(i as int) =~= all);
    if let Some(line) = render_ending(message) {
        push_below(&mut lines, first, one_line(line));
        first = false;
    }
    if first {
        lines.push(style_hint("..."));
    }
    lines
}

/// The result of a tool: its panel, collapsed or whole, and its images.
pub open spec fn result_entry(
    result: ToolResult,
    args: Option<Json>,
    width: nat,
    images: bool,
    expanded: bool,
    hint: Seq<char>,
    home: Option<Seq<char>>,
) -> Seq<LineView> {
    let room = if width > 1 {
        width
    } else {
        1
    };
    let (body, pictures) = tools::result_body(result, args, room);
    let (preview, from_end) = tools::preview_config(result.tool_name@);
    as_lines(
        panels::tool_surface(
            tools::panel_title(result.tool_name@, args, result.details, home),
            panels::collapsed(
                body + tools::notice_lines(result.details),
                1,
                preview,
                from_end,
                expanded,
                hint,
            ),
            width,
            false,
        ),
    ) + image_blocks(pictures, width, images)
}

fn render_tool_result(
    target: &mut Vec<RenderedLine>,
    result: &ToolResult,
    args: Option<&Json>,
    context: &TranscriptRenderContext,
    width: u16,
)
    ensures
        line_views(final(target)@) == line_views(old(target)@) + result_entry(
            *result,
            json::referred(args),
            width as nat,
            context.images(),
            context.expanded(),
            context.expand_hint@,
            text::opt_text(context.home),
        ),
{
    let ghost before = line_views(target@);
    let room: usize = if width > 1 {
        width as usize
    } else {
        1
    };
    let panel = build_tool_result_panel(result, args, room, &context.home);
    let mut body = panel.body;
    let mut notices = tool_notice_lines(details_of(&result.details));
    body.append(&mut notices);
    let (preview, from_end) = tool_preview_config(result.tool_name.as_str());
    let shown = collapse_panel_body(
        body.as_slice(),
        1,
        preview,
        from_end,
        should_expand_tool_panel(context.tool_expand_mode),
        context.expand_hint.as_str(),
    );
    push_texts(
        target,
        append_tool_surface_block(panel.title.as_str(), shown.as_slice(), width, false),
    );
    append_image_blocks(target, panel.images.as_slice(), width as usize, context.with_images());
    assert(line_views(target@) =~= before + result_entry(
        *result,
        json::referred(args),
        width as nat,
        context.images(),
        context.expanded(),
        context.expand_hint@,
        text::opt_text(context.home),
    ));
}

/// One entry of the transcript, as lines.
pub open spec fn entry_lines(
    entry: TranscriptEntry,
    args: Option<Json>,
    context: TranscriptRenderContext,
    width: nat,
) -> Seq<LineView> {
    let hint = context.expand_hint@;
    let home = text::opt_text(context.home);
    match entry {
        TranscriptEntry::Message(Message::User(content)) => user_with_skill(
            content,
            width,
            context.images(),
            context.expanded(),
            hint,
        ),
        TranscriptEntry::Message(Message::Assistant(message)) => as_lines(
            assistant_message(message, width, context.hide_thinking, home),
        ),
        TranscriptEntry::Message(Message::ToolResult(result)) => result_entry(
            result,
            args,
            width,
            context.images(),
            context.expanded(),
            hint,
            home,
        ),
        TranscriptEntry::CustomMessage { custom_type, content, details } => custom_entry(
            custom_type@,
            content,
            details,
            width,
            context.images(),
            context.expanded(),
            hint,
        ),
        TranscriptEntry::Summary { kind, title, body, tokens_before } => as_lines(
            summary_entry(kind, title@, body@, tokens_before, width, hint),
        ),
    }
}

/// Appends one entry of the transcript.
pub fn render_transcript_entry(
    target: &mut Vec<RenderedLine>,
    entry: &TranscriptEntry,
    tool_call_args: Option<&Json>,
    context: &TranscriptRenderContext,
    width: u16,
)
    ensures
        line_views(final(target)@) == line_views(old(target)@) + entry_lines(
            *entry,
            json::referred(tool_call_args),
            *context,
            width as nat,
        ),
{
    let images = context.with_images();
    let mode = context.tool_expand_mode;
    let hint = context.expand_hint.as_str();
    match entry {
        TranscriptEntry::Message(Message::User(content)) => {
            render_user_message(target, content, width, images, mode, hint);
        },
        TranscriptEntry::Message(Message::Assistant(message)) => {
            push_texts(
                target,
                render_assistant_message(message, width, context.hide_thinking, &context.home),
            );
        },
        TranscriptEntry::Message(Message::ToolResult(result)) => {
            render_tool_result(target, result, tool_call_args, context, width);
        },
        TranscriptEntry::CustomMessage { custom_type, content, details } => {
            render_custom_message(
                target,
                custom_type.as_str(),
                content,
                details_of(details),
                width,
                images,
                mode,
                hint,
            );
        },
        TranscriptEntry::Summary { kind, title, body, tokens_before } => {
            push_texts(
                target,
                render_summary_entry(
                    *kind,
                    title.as_str(),
                    body.as_str(),
                    *tokens_before,
                    width,
                    hint,
                ),
            );
        },
    }
}

/// The arguments of the last call with an id among blocks.
pub open spec fn call_in(blocks: Seq<AssistantBlock>, id: Seq<char>) -> Option<Json>
    decreases blocks.len(),
{
    if blocks.len() == 0 {
        None
    } else {
        match blocks.last() {
            AssistantBlock::ToolCall { id: call_id, name, arguments } => if call_id@ == id {
                Some(arguments.value)
            } else {
                call_in(blocks.drop_last(), id)
            },
            _ => call_in(blocks.drop_last(), id),
        }
    }
}

/// The arguments of the last call with an id among entries.
pub open spec fn call_before(entries: Seq<TranscriptEntry>, id: Seq<char>) -> Option<Json>
    decreases entries.len(),
{
    if entries.len() == 0 {
        None
    } else {
        let found = match entries.last() {
            TranscriptEntry::Message(Message::Assistant(message)) => call_in(
                message.content@,
                id,
            ),
            _ => None,
        };
        match found {
            Some(arguments) => Some(arguments),
            None => call_before(entries.drop_last(), id),
        }
    }
}

fn find_call_in<'a>(blocks: &'a [AssistantBlock], id: &str) -> (r: Option<&'a Json>)
    ensures
        json::referred(r) == call_in(blocks@, id@),
{
    let ghost all = blocks@;
    let mut i: usize = blocks.len();
    assert(all.take(i as int) =~= all);
    while i > 0
        invariant
            0 <= i <= blocks.len(),
            all == blocks@,
            call_in(all.take(i as int), id@) == call_in(all, id@),
        decreases i,
    {
        i -= 1;
        assert(all.take(i + 1).drop_last() =~= all.take(i as int));
        if let AssistantBlock::ToolCall { id: call_id, name, arguments } = &blocks[i] {
            if same(call_id.as_str(), id) {
                return Some(&arguments.value);
            }
        }
    }
    None
}

/// The arguments of the call that a result answers: the last call with its id before `index`.
pub fn find_tool_call_arguments<'a>(
    entries: &'a [TranscriptEntry],
    index: usize,
    tool_call_id: &str,
) -> (r: Option<&'a Json>)
    requires
        index <= entries@.len(),
    ensures
        json::referred(r) == call_before(entries@.take(index as int), tool_call_id@),
{
    let ghost all = entries@.take(index as int);
    let mut i: usize = index;
    assert(all.take(i as int) =~= all);
    while i > 0
        invariant
            0 <= i <= index <= entries@.len(),
            all == entries@.take(index as int),
            call_before(all.take(i as int), tool_call_id@) == call_before(all, tool_call_id@),
        decreases i,
    {
        i -= 1;
        assert(all.take(i + 1).drop_last() =~= all.take(i as int));
        assert(all.take(i + 1).last() == entries@[i as int]);
        if let TranscriptEntry::Message(Message::Assistant(message)) = &entries[i] {
            if let Some(arguments) = find_call_in(message.content.as_slice(), tool_call_id) {
                return Some(arguments);
            }
        }
    }
    None
}

/// The arguments that entry `i` is shown with.
pub open spec fn entry_arguments(entries: Seq<TranscriptEntry>, i: int) -> Option<Json> {
    match entries[i] {
        TranscriptEntry::Message(Message::ToolResult(result)) => call_before(
            entries.take(i),
            result.tool_call_id@,
        ),
        _ => None,
    }
}

/// How wide the entries of a transcript are on a screen.
pub open spec fn content_width(width: nat) -> nat {
    if width > 22 {
        (width - 2) as nat
    } else {
        20
    }
}

/// The first `n` entries of a transcript, each with an empty line after it.
pub open spec fn transcript_upto(
    entries: Seq<TranscriptEntry>,
    n: int,
    context: TranscriptRenderContext,
) -> Seq<LineView>
    decreases n,
{
    if n <= 0 {
        Seq::empty()
    } else {
        transcript_upto(entries, n - 1, context) + entry_lines(
            entries[n - 1],
            entry_arguments(entries, n - 1),
            context,
            content_width(context.width as nat),
        ) + seq![LineView::Text(Seq::empty())]
    }
}

/// A transcript, as lines: each entry with an empty line after it.
#[verifier::rlimit(60)]
pub fn session_transcript_lines(entries: &[TranscriptEntry], context: &TranscriptRenderContext) -> (r:
    Vec<RenderedLine>)
    ensures
        line_views(r@) == transcript_upto(entries@, entries@.len() as int, *context),
{
    let width: u16 = if context.width > 22 {
        context.width - 2
    } else {
        20
    };
    let mut lines: Vec<RenderedLine> = Vec::new();
    let mut i: usize = 0;
    assert(line_views(lines@) =~= Seq::<LineView>::empty());
    while i < entries.len()
        invariant
            0 <= i <= entries.len(),
            width == content_width(context.width as nat),
            line_views(lines@) == transcript_upto(entries@, i as int, *context),
        decreases entries.len() - i,
    {
        let ghost before = line_views(lines@);
        let args = match &entries[i] {
            TranscriptEntry::Message(Message::ToolResult(result)) => find_tool_call_arguments(
                entries,
                i,
                result.tool_call_id.as_str(),
            ),
            _ => None,
        };
        render_transcript_entry(&mut lines, &entries[i], args, context, width);
        push_text(&mut lines, String::new());
        i += 1;
        assert(line_views(lines@) =~= transcript_upto(entries@, i as int, *context));
    }
    lines
}

/// The blocks of an answer are shown in order, with a blank line between each two that show something.
pub proof fn answer_blocks_in_two(
    a: Seq<AssistantBlock>,
    b: Seq<AssistantBlock>,
    width: nat,
    hide_thinking: bool,
    home: Option<Seq<char>>,
)
    ensures
        ({
            let first = assistant_blocks(a, width, hide_thinking, home);
            let second = assistant_blocks(b, width, hide_thinking, home);
            let both = assistant_blocks(a + b, width, hide_thinking, home);
            &&& both.first == (first.first && second.first)
            &&& both.lines == first.lines + (if first.first || second.first {
                Seq::empty()
            } else {
                seq![Seq::<char>::empty()]
            }) + second.lines
            &&& first.first ==> first.lines.len() == 0
        }),
    decreases a.len() + b.len(),
{
    let none = Seq::<AssistantBlock>::empty();
    let first = assistant_blocks(a, width, hide_thinking, home);
    let both = assistant_blocks(a + b, width, hide_thinking, home);
    let second = assistant_blocks(b, width, hide_thinking, home);
    if a.len() > 0 && b.len() == 0 {
        answer_blocks_in_two(a.drop_last(), none, width, hide_thinking, home);
    }
    if b.len() == 0 {
        assert(a + b =~= a);
        assert(both.lines =~= first.lines + Seq::<Seq<char>>::empty() + second.lines);
    } else {
        let front = b.drop_last();
        answer_blocks_in_two(a, front, width, hide_thinking, home);
        answer_blocks_in_two(front, none, width, hide_thinking, home);
        assert((a + b).drop_last() =~= a + front);
        assert((a + b).last() == b.last());
        let gap = if first.first || second.first {
            Seq::<Seq<char>>::empty()
        } else {
            seq![Seq::<char>::empty()]
        };
        assert(both.lines =~= first.lines + gap + second.lines);
    }
}

/// A block of an answer: text is shown as markdown, thinking too unless it is hidden, and a call as the
/// panel of its tool. Blank text is not shown.
pub proof fn answer_blocks_are_shown(
    block: AssistantBlock,
    width: nat,
    hide_thinking: bool,
    home: Option<Seq<char>>,
)
    ensures
        ({
            let shown = assistant_blocks(seq![block], width, hide_thinking, home);
            match block {
                AssistantBlock::Text(s) => {
                    &&& text::trim(s@).len() > 0 ==> shown.lines == markdown::markdown(s@, width)
                    &&& text::trim(s@).len() == 0 ==> shown.lines.len() == 0
                },
                AssistantBlock::Thinking(s) => {
                    &&& hide_thinking ==> shown.lines == seq![
                        screen::thinking_surface("Thinking..."@),
                    ]
                    &&& !hide_thinking && text::trim(s@).len() > 0 ==> shown.lines.len()
                        == markdown::markdown(s@, width).len()
                    &&& !hide_thinking && text::trim(s@).len() == 0 ==> shown.lines.len() == 0
                },
                AssistantBlock::ToolCall { id, name, arguments } => shown.lines
                    == panels::tool_surface(
                    tools::panel_title(name@, Some(arguments.value), None, home),
                    tools::call_body(name@, arguments, less(width, 4)),
                    width,
                    false,
                ),
            }
        }),
{
    let none = Seq::<Seq<char>>::empty();
    assert(seq![block].drop_last() =~= Seq::<AssistantBlock>::empty());
    assert(seq![block].last() == block);
    assert(assistant_blocks(Seq::empty(), width, hide_thinking, home) == (AssistantLines {
        lines: none,
        first: true,
    }));
    let shown = assistant_blocks(seq![block], width, hide_thinking, home);
    match block {
        AssistantBlock::Text(s) => {
            assert(none + none + markdown::markdown(s@, width) =~= markdown::markdown(s@, width));
        },
        AssistantBlock::Thinking(s) => {
            let line = seq![screen::thinking_surface("Thinking..."@)];
            assert(none + none + line =~= line);
            assert(none + none + thinking_lines(s@, width) =~= thinking_lines(s@, width));
        },
        AssistantBlock::ToolCall { id, name, arguments } => {
            let more = call_block(name@, arguments, width, home);
            assert(none + none + more =~= more);
        },
    }
}

/// Thinking that is shown is seen as it was written.
pub proof fn thinking_is_seen(s: Seq<char>, width: nat, i: int)
    requires
        0 <= i < markdown::markdown(s, width).len(),
        screen::only_styles(markdown::markdown(s, width)[i]),
        screen::scan_from(screen::Scan::Plain, markdown::markdown(s, width)[i])
            == screen::Scan::Plain,
    ensures
        screen::visible(thinking_lines(s, width)[i]) == screen::visible(
            markdown::markdown(s, width)[i],
        ),
{
    screen::inline_codes();
    screen::lasting_style_shows_the_text("3;38;5;244"@, markdown::markdown(s, width)[i]);
}

/// An answer that failed or was broken off says so on its last line, with the reason, unless it calls a
/// tool. An answer that ended well says nothing more.
pub proof fn answers_tell_how_they_ended(
    message: AssistantMessage,
    width: nat,
    hide_thinking: bool,
    home: Option<Seq<char>>,
)
    requires
        !calls_tool(message.content@),
    ensures
        ({
            let shown = assistant_message(message, width, hide_thinking, home);
            &&& message.stop_reason == StopReason::Error && message.error_message is Some
                ==> shown.len() > 0 && shown.last() == screen::error(
                "Error: "@ + message.error_message->0@,
            )
            &&& message.stop_reason == StopReason::Aborted && message.error_message is None
                ==> shown.len() > 0 && shown.last() == screen::warning("Operation aborted"@)
            &&& message.stop_reason == StopReason::Aborted && message.error_message is Some
                && message.error_message->0@ != "Request was aborted"@ ==> shown.len() > 0
                && shown.last() == screen::warning(message.error_message->0@)
            &&& message.stop_reason == StopReason::Stop || message.stop_reason
                == StopReason::ToolUse || message.stop_reason == StopReason::Length ==> (
            !assistant_blocks(message.content@, width, hide_thinking, home).first ==> shown
                == assistant_blocks(message.content@, width, hide_thinking, home).lines)
        }),
{
}

/// The arguments of the latest call with an identifier are found, whatever other entries follow.
pub proof fn latest_call_is_found(
    entries: Seq<TranscriptEntry>,
    message: AssistantMessage,
    id: Seq<char>,
    other: TranscriptEntry,
)
    ensures
        call_in(message.content@, id) is Some ==> call_before(
            entries.push(TranscriptEntry::Message(Message::Assistant(message))),
            id,
        ) == call_in(message.content@, id),
        call_in(message.content@, id) is None ==> call_before(
            entries.push(TranscriptEntry::Message(Message::Assistant(message))),
            id,
        ) == call_before(entries, id),
        !(other matches TranscriptEntry::Message(Message::Assistant(_))) ==> call_before(
            entries.push(other),
            id,
        ) == call_before(entries, id),
{
    assert(entries.push(TranscriptEntry::Message(Message::Assistant(message))).drop_last()
        =~= entries);
    assert(entries.push(other).drop_last() =~= entries);
}

/// A call is found in an answer by its identifier, and by no other.
pub proof fn calls_are_found_by_id(blocks: Seq<AssistantBlock>, block: AssistantBlock, id: Seq<char>)
    ensures
        block matches AssistantBlock::ToolCall { id: own, name, arguments } ==> (own@ == id
            ==> call_in(blocks.push(block), id) == Some(arguments.value)) && (own@ != id ==> call_in(
            blocks.push(block),
            id,
        ) == call_in(blocks, id)),
        !(block is ToolCall) ==> call_in(blocks.push(block), id) == call_in(blocks, id),
        call_in(Seq::empty(), id) is None,
{
    assert(blocks.push(block).drop_last() =~= blocks);
}

proof fn transcript_goes_on_upto(
    entries: Seq<TranscriptEntry>,
    more: Seq<TranscriptEntry>,
    n: int,
    context: TranscriptRenderContext,
)
    requires
        n <= entries.len(),
    ensures
        transcript_upto(entries + more, n, context) == transcript_upto(entries, n, context),
    decreases n,
{
    if n > 0 {
        transcript_goes_on_upto(entries, more, n - 1, context);
        assert((entries + more)[n - 1] == entries[n - 1]);
        assert((entries + more).take(n - 1) =~= entries.take(n - 1));
    }
}

/// A new entry of the transcript is shown below the others, which stay as they are, and above a blank
/// line.
pub proof fn transcripts_grow_at_the_end(
    entries: Seq<TranscriptEntry>,
    entry: TranscriptEntry,
    context: TranscriptRenderContext,
)
    ensures
        transcript_upto(entries.push(entry), entries.len() as int + 1, context) == transcript_upto(
            entries,
            entries.len() as int,
            context,
        ) + entry_lines(
            entry,
            entry_arguments(entries.push(entry), entries.len() as int),
            context,
            content_width(context.width as nat),
        ) + seq![LineView::Text(Seq::empty())],
{
    assert(entries.push(entry) =~= entries + seq![entry]);
    transcript_goes_on_upto(entries, seq![entry], entries.len() as int, context);
}

/// The images of a message are shown in order, each with a note of what it is.
pub proof fn images_in_two(
    a: Seq<(Seq<char>, Option<Seq<char>>)>,
    b: Seq<(Seq<char>, Option<Seq<char>>)>,
    width: nat,
    shown: bool,
)
    ensures
        image_blocks(a + b, width, shown) == image_blocks(a, width, shown) + image_blocks(
            b,
            width,
            shown,
        ),
    decreases b.len(),
{
    if b.len() == 0 {
        assert(a + b =~= a);
        assert(image_blocks(a, width, shown) + image_blocks(b, width, shown) =~= image_blocks(
            a,
            width,
            shown,
        ));
    } else {
        images_in_two(a, b.drop_last(), width, shown);
        assert((a + b).drop_last() =~= a + b.drop_last());
        assert((a + b).last() == b.last());
        assert(image_blocks(a + b, width, shown) =~= image_blocks(a, width, shown) + image_blocks(
            b,
            width,
            shown,
        ));
    }
}

/// The texts of a message are all of it but its images, in order.
pub proof fn message_texts_in_two(a: Seq<ContentBlock>, b: Seq<ContentBlock>)
    ensures
        block_texts(a + b) == block_texts(a) + block_texts(b),
    decreases b.len(),
{
    if b.len() == 0 {
        assert(a + b =~= a);
        assert(block_texts(a) + block_texts(b) =~= block_texts(a));
    } else {
        message_texts_in_two(a, b.drop_last());
        assert((a + b).drop_last() =~= a + b.drop_last());
        assert((a + b).last() == b.last());
        assert(block_texts(a + b) =~= block_texts(a) + block_texts(b));
    }
}

/// A message of the user is shown as markdown on its surface, one line of the surface for each line, and
/// its images below.
pub proof fn user_messages_are_shown(s: Seq<char>, width: nat, images: bool, i: int)
    requires
        width >= 6,
        0 <= i < markdown::markdown(s, (width - 4) as nat).len(),
    ensures
        user_text(s, width, images).len() == markdown::markdown(s, (width - 4) as nat).len() + 2,
        user_text(s, width, images)[i + 1] == LineView::Text(
            panels::line_shown(
                panels::LineLook::User,
                markdown::markdown(s, (width - 4) as nat)[i],
                (width - 2) as nat,
            ),
        ),
{
    reveal_strlit("x");
    assert("x"@.len() == 1);
    panels::blocks_show_their_body("x"@, markdown::markdown(s, (width - 4) as nat), width, i);
}

/// Of what a command printed, each line is shown; how it ended is noted unless it ended well.
pub proof fn recorded_lines_are_shown(line: Seq<char>, rest: Seq<char>, width: nat)
    ensures
        line.len() > 0 && line[0] != 'E' && line[0] != 'C' && line[0] != 'F' ==> bash_record_line(
            line,
            width,
        ) == seq![screen::dim(screen::cut(line, width))],
        bash_record_line(Seq::empty(), width) == seq![Seq::<char>::empty()],
        bash_record_line("Command cancelled"@ + rest, width) == seq![
            screen::warning("(cancelled)"@),
        ],
        bash_record_line("Full output:"@ + rest, width) == seq![
            screen::hint("Full output:"@ + rest),
        ],
        bash_record_line("Exit code: 0"@ + rest, width).len() == 0,
        rest.len() > 1 && rest[0] == ' ' && rest[1] != '0' ==> bash_record_line(
            "Exit code:"@ + rest,
            width,
        ) == seq![screen::warning(tools::exit_note("Exit code:"@ + rest))],
{
    reveal_strlit("Exit code: 0");
    reveal_strlit("Exit code:");
    reveal_strlit("Command cancelled");
    reveal_strlit("Full output:");
    if line.len() > 0 {
        assert(line.len() >= 12 ==> line.take(12)[0] == line[0]);
        assert(line.len() >= 10 ==> line.take(10)[0] == line[0]);
        assert(line.len() >= 17 ==> line.take(17)[0] == line[0]);
    }
    let cancelled = "Command cancelled"@ + rest;
    assert(cancelled.take(17) =~= "Command cancelled"@);
    assert(cancelled.take(12)[0] == 'C');
    assert(cancelled.take(10)[0] == 'C');
    let full = "Full output:"@ + rest;
    assert(full.take(12) =~= "Full output:"@);
    assert(full.take(12)[0] == 'F');
    assert(full.take(10)[0] == 'F');
    assert(full.len() >= 17 ==> full.take(17)[0] == 'F');
    let well = "Exit code: 0"@ + rest;
    assert(well.take(12) =~= "Exit code: 0"@);
    if rest.len() > 1 && rest[0] == ' ' && rest[1] != '0' {
        let ill = "Exit code:"@ + rest;
        assert(ill.take(12)[11] == rest[1]);
        assert("Exit code: 0"@[11] == '0');
        assert(ill.take(10) =~= "Exit code:"@);
    }
}

} // verus!
