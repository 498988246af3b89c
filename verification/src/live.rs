//! What is shown while the agent works: running tools and messages that wait.
use vstd::prelude::*;
use crate::diff;
use crate::diff::collect_diff_lines;
use crate::json;
use crate::json::{get_in, pretty_json, text_under, Json};
use crate::markdown;
use crate::markdown::collect_markdown_lines;
use crate::panels;
use crate::panels::{append_tool_surface_block, collapse_panel_body};
use crate::screen;
use crate::screen::{style_hint, style_title, truncate_to_width};
use crate::text;
use crate::text::{cat2, cat3, copy_text, decimal_text, same, text_lines};
use crate::tools;
use crate::tools::{tool_panel_title, tool_preview_config, ImageRef, JsonDoc, ToolResult};
use crate::transcript;
use crate::transcript::{
    append_image_blocks, push_text, push_texts, should_expand_tool_panel, AssistantMessage,
    Message, RenderedLine, TranscriptEntry, TranscriptRenderContext,
};
use crate::wrap;
use crate::wrap::{prefix_lines, wrap_text};

verus! {

broadcast use crate::text::group_texts;

/// A tool that is running.
#[derive(Debug, PartialEq, Eq)]
pub struct ActiveToolExecution {
    pub tool_call_id: String,
    pub tool_name: String,
    pub args: JsonDoc,
    pub partial_result: Option<JsonDoc>,
}

/// Lines, each cut.
pub open spec fn cut_lines(lines: Seq<Seq<char>>, width: nat) -> Seq<Seq<char>> {
    lines.map_values(|line: Seq<char>| screen::cut(line, width))
}

fn cut_text_lines(s: &str, width: usize) -> (r: Vec<String>)
    ensures
        text::texts(r@) == cut_lines(text::lines_of(s@), width as nat),
{
    let raw = text_lines(s);
    let ghost all = cut_lines(text::texts(raw@), width as nat);
    let mut out: Vec<String> = Vec::new();
    let mut i: usize = 0;
    while i < raw.len()
        invariant
            0 <= i <= raw.len(),
            all == cut_lines(text::texts(raw@), width as nat),
            text::texts(out@) == all.take(i as int),
        decreases raw.len() - i,
    {
        out.push(truncate_to_width(raw[i].as_str(), width));
        i += 1;
        assert(all.take(i as int) =~= all.take(i - 1).push(all[i - 1]));
    }
    assert(all.take(i as int) =~= all);
    out
}

/// The lines of the text blocks in an array of content.
pub open spec fn content_texts(blocks: Seq<Json>, width: nat) -> Seq<Seq<char>>
    decreases blocks.len(),
{
    if blocks.len() == 0 {
        Seq::empty()
    } else {
        let before = content_texts(blocks.drop_last(), width);
        let block = blocks.last();
        if json::text_in(json::member(block, "type"@)) == Some("text"@) {
            match json::text_in(json::member(block, "text"@)) {
                Some(s) => before + markdown::markdown(s, width),
                None => before,
            }
        } else {
            before
        }
    }
}

/// The images in an array of content.
pub open spec fn content_images(blocks: Seq<Json>) -> Seq<(Seq<char>, Option<Seq<char>>)>
    decreases blocks.len(),
{
    if blocks.len() == 0 {
        Seq::empty()
    } else {
        let before = content_images(blocks.drop_last());
        let block = blocks.last();
        let kind = json::text_in(json::member(block, "type"@));
        if kind != Some("text"@) && kind == Some("image"@) {
            match json::text_in(json::member(block, "mimeType"@)) {
                Some(mime) => before.push((mime, json::text_in(json::member(block, "data"@)))),
                None => before,
            }
        } else {
            before
        }
    }
}

/// What a running tool has given so far: a difference, output, errors, a text, blocks of content,
/// or else the value itself.
pub open spec fn partial_body(tool: Seq<char>, doc: JsonDoc, width: nat) -> transcript::BodyView {
    let nothing = Seq::<(Seq<char>, Option<Seq<char>>)>::empty();
    let value = doc.value;
    if let Some(change) = json::text_in(json::member(value, "diff"@)) {
        transcript::BodyView { lines: diff::diff_lines(change, width), images: nothing }
    } else if let Some(output) = json::text_in(json::member(value, "output"@)) {
        transcript::BodyView { lines: markdown::markdown(output, width), images: nothing }
    } else if let Some(errors) = json::text_in(json::member(value, "stderr"@)) {
        transcript::BodyView { lines: markdown::markdown(errors, width), images: nothing }
    } else if let Json::Text(s) = value {
        transcript::BodyView {
            lines: if tool == "bash"@ {
                markdown::markdown(s@, width)
            } else {
                wrap::wrapped(s@, width)
            },
            images: nothing,
        }
    } else if let Some(Json::Array(blocks)) = json::member(value, "content"@) {
        transcript::BodyView {
            lines: content_texts(blocks@, width),
            images: content_images(blocks@),
        }
    } else {
        transcript::BodyView {
            lines: cut_lines(
                text::lines_of(json::indented(doc.raw@, json::pretty_json_of(doc.raw@))),
                width,
            ),
            images: nothing,
        }
    }
}

/// Lines and images of a running tool.
pub struct LiveBody {
    pub lines: Vec<String>,
    pub images: Vec<ImageRef>,
}

fn body_of(lines: Vec<String>) -> (r: LiveBody)
    ensures
        text::texts(r.lines@) == text::texts(lines@),
        tools::image_views(r.images@) == Seq::<(Seq<char>, Option<Seq<char>>)>::empty(),
{
    let images: Vec<ImageRef> = Vec::new();
    assert(tools::image_views(images@) =~= Seq::<(Seq<char>, Option<Seq<char>>)>::empty());
    LiveBody { lines, images }
}

fn collect_content(blocks: &[Json], width: usize) -> (r: LiveBody)
    ensures
        text::texts(r.lines@) == content_texts(blocks@, width as nat),
        tools::image_views(r.images@) == content_images(blocks@),
{
    let ghost all = blocks@;
    let mut lines: Vec<String> = Vec::new();
    let mut images: Vec<ImageRef> = Vec::new();
    let mut i: usize = 0;
    assert(all.take(0) =~= Seq::<Json>::empty());
    assert(tools::image_views(images@) =~= Seq::<(Seq<char>, Option<Seq<char>>)>::empty());
    while i < blocks.len()
        invariant
            0 <= i <= blocks.len(),
            all == blocks@,
            text::texts(lines@) == content_texts(all.take(i as int), width as nat),
            tools::image_views(images@) == content_images(all.take(i as int)),
        decreases blocks.len() - i,
    {
        assert(all.take(i + 1).drop_last() =~= all.take(i as int));
        let block = Some(&blocks[i]);
        let ghost shown = tools::image_views(images@);
        if let Some(kind) = text_under(block, "type") {
            if same(kind, "text") {
                if let Some(s) = text_under(block, "text") {
                    let mut more = collect_markdown_lines(s, width);
                    lines.append(&mut more);
                }
            } else if same(kind, "image") {
                if let Some(mime) = text_under(block, "mimeType") {
                    let data = match text_under(block, "data") {
                        Some(data) => Some(copy_text(data)),
                        None => None,
                    };
                    let ghost kept = text::opt_text(data);
                    images.push(ImageRef { mime_type: copy_text(mime), data });
                    assert(tools::image_views(images@) =~= shown.push((mime@, kept)));
                }
            }
        }
        i += 1;
    }
    assert(all.take(i as int) =~= all);
    LiveBody { lines, images }
}

/// What a running tool has given so far.
pub fn collect_live_tool_partial_block(tool_name: &str, doc: &JsonDoc, width: usize) -> (r: LiveBody)
    ensures
        text::texts(r.lines@) == partial_body(tool_name@, *doc, width as nat).lines,
        tools::image_views(r.images@) == partial_body(tool_name@, *doc, width as nat).images,
{
    let value = Some(&doc.value);
    if let Some(change) = text_under(value, "diff") {
        return body_of(collect_diff_lines(change, width));
    }
    if let Some(output) = text_under(value, "output") {
        return body_of(collect_markdown_lines(output, width));
    }
    if let Some(errors) = text_under(value, "stderr") {
        return body_of(collect_markdown_lines(errors, width));
    }
    if let Some(s) = doc.value.as_text() {
        return if same(tool_name, "bash") {
            body_of(collect_markdown_lines(s, width))
        } else {
            body_of(wrap_text(s, width))
        };
    }
    if let Some(Json::Array(blocks)) = get_in(value, "content") {
        return collect_content(blocks.as_slice(), width);
    }
    body_of(cut_text_lines(pretty_json(doc.raw.as_str()).as_str(), width))
}

/// The body of a running tool's panel, and its images.
pub open spec fn active_body(tool: ActiveToolExecution, width: nat) -> transcript::BodyView {
    let given = match tool.partial_result {
        Some(doc) => partial_body(tool.tool_name@, doc, width),
        None => transcript::BodyView { lines: Seq::empty(), images: Seq::empty() },
    };
    transcript::BodyView {
        lines: if given.lines.len() == 0 {
            seq![screen::hint("Waiting for output..."@)]
        } else {
            given.lines
        },
        images: given.images,
    }
}

/// A running tool: its panel, collapsed or whole, and its images.
pub open spec fn active_lines(tool: ActiveToolExecution, context: TranscriptRenderContext) -> Seq<
    transcript::LineView,
> {
    let width = context.width as nat;
    let body = active_body(tool, width);
    let (preview, from_end) = tools::preview_config(tool.tool_name@);
    transcript::as_lines(
        panels::tool_surface(
            tools::panel_title(
                tool.tool_name@,
                Some(tool.args.value),
                None,
                text::opt_text(context.home),
            ),
            panels::collapsed(
                body.lines,
                0,
                preview,
                from_end,
                context.expanded(),
                context.expand_hint@,
            ),
            width,
            false,
        ),
    ) + transcript::image_blocks(body.images, width, context.images())
}

/// The first `n` running tools, with an empty line between each two of all.
pub open spec fn active_upto(
    all: Seq<ActiveToolExecution>,
    n: int,
    context: TranscriptRenderContext,
) -> Seq<transcript::LineView>
    decreases n,
{
    if n <= 0 {
        Seq::empty()
    } else {
        active_upto(all, n - 1, context) + active_lines(all[n - 1], context) + (if n < all.len() {
            seq![transcript::LineView::Text(Seq::empty())]
        } else {
            Seq::empty()
        })
    }
}

fn render_active_tool(
    target: &mut Vec<RenderedLine>,
    tool: &ActiveToolExecution,
    context: &TranscriptRenderContext,
)
    ensures
        transcript::line_views(final(target)@) == transcript::line_views(old(target)@)
            + active_lines(*tool, *context),
{
    let ghost before = transcript::line_views(target@);
    let width = context.width as usize;
    let title = tool_panel_title(
        tool.tool_name.as_str(),
        Some(&tool.args.value),
        None,
        &context.home,
    );
    let given = match &tool.partial_result {
        Some(doc) => collect_live_tool_partial_block(tool.tool_name.as_str(), doc, width),
        None => body_of(Vec::new()),
    };
    let images = given.images;
    let mut body = given.lines;
    if body.len() == 0 {
        body.push(style_hint("Waiting for output..."));
    }
    assert(text::texts(body@) =~= active_body(*tool, width as nat).lines);
    let (preview, from_end) = tool_preview_config(tool.tool_name.as_str());
    let shown = collapse_panel_body(
        body.as_slice(),
        0,
        preview,
        from_end,
        should_expand_tool_panel(context.tool_expand_mode),
        context.expand_hint.as_str(),
    );
    push_texts(
        target,
        append_tool_surface_block(title.as_str(), shown.as_slice(), context.width, false),
    );
    append_image_blocks(
        target,
        images.as_slice(),
        width,
        context.show_images && context.inline_images,
    );
    assert(transcript::line_views(target@) =~= before + active_lines(*tool, *context));
}

/// The running tools, as lines.
pub fn active_tool_render_lines(tools: &[ActiveToolExecution], context: &TranscriptRenderContext) -> (r:
    Vec<RenderedLine>)
    ensures
        transcript::line_views(r@) == active_upto(tools@, tools@.len() as int, *context),
{
    let mut lines: Vec<RenderedLine> = Vec::new();
    let mut i: usize = 0;
    assert(transcript::line_views(lines@) =~= Seq::<transcript::LineView>::empty());
    while i < tools.len()
        invariant
            0 <= i <= tools.len(),
            transcript::line_views(lines@) == active_upto(tools@, i as int, *context),
        decreases tools.len() - i,
    {
        render_active_tool(&mut lines, &tools[i], context);
        i += 1;
        if i < tools.len() {
            push_text(&mut lines, String::new());
        }
        assert(transcript::line_views(lines@) =~= active_upto(tools@, i as int, *context));
    }
    lines
}

/// The id of a running tool's panel.
pub fn active_tool_panel_id(tool: &ActiveToolExecution) -> (r: String)
    ensures
        r@ == "active:"@ + tool.tool_call_id@,
{
    cat2("active:", tool.tool_call_id.as_str())
}

/// The id of a result's panel.
pub fn tool_result_panel_id(result: &ToolResult) -> (r: String)
    ensures
        r@ == "result:"@ + result.tool_call_id@,
{
    cat2("result:", result.tool_call_id.as_str())
}

/// The id of the panel of a shell command's record.
pub fn bash_panel_id(entry_index: usize) -> (r: String)
    ensures
        r@ == "bash:"@ + text::decimal(entry_index as nat),
{
    cat2("bash:", decimal_text(entry_index as u64).as_str())
}

/// The id of the panel of the tool that was started last.
pub fn latest_active_tool_panel_id(tools: &[ActiveToolExecution]) -> (r: Option<String>)
    ensures
        text::opt_text(r) == (if tools@.len() == 0 {
            None
        } else {
            Some("active:"@ + tools@.last().tool_call_id@)
        }),
{
    if tools.len() == 0 {
        None
    } else {
        Some(active_tool_panel_id(&tools[tools.len() - 1]))
    }
}

/// The id of the last tool panel in a transcript.
pub open spec fn latest_panel(entries: Seq<TranscriptEntry>) -> Option<Seq<char>>
    decreases entries.len(),
{
    if entries.len() == 0 {
        None
    } else {
        match entries.last() {
            TranscriptEntry::Message(Message::ToolResult(result)) => Some(
                "result:"@ + result.tool_call_id@,
            ),
            TranscriptEntry::CustomMessage { custom_type, content, details } => if custom_type@
                == "bash_execution"@ {
                Some("bash:"@ + text::decimal((entries.len() - 1) as nat))
            } else {
                latest_panel(entries.drop_last())
            },
            _ => latest_panel(entries.drop_last()),
        }
    }
}

/// The id of the last tool panel in a transcript.
pub fn latest_transcript_tool_panel_id(entries: &[TranscriptEntry]) -> (r: Option<String>)
    ensures
        text::opt_text(r) == latest_panel(entries@),
{
    let ghost all = entries@;
    let mut i: usize = entries.len();
    assert(all.take(i as int) =~= all);
    while i > 0
        invariant
            0 <= i <= entries.len(),
            all == entries@,
            latest_panel(all.take(i as int)) == latest_panel(all),
        decreases i,
    {
        i -= 1;
        assert(all.take(i + 1).drop_last() =~= all.take(i as int));
        match &entries[i] {
            TranscriptEntry::Message(Message::ToolResult(result)) => {
                return Some(tool_result_panel_id(result));
            },
            TranscriptEntry::CustomMessage { custom_type, content, details } => {
                if same(custom_type.as_str(), "bash_execution") {
                    return Some(bash_panel_id(i));
                }
            },
            _ => {},
        }
    }
    None
}

/// When a waiting message is handed over.
#[derive(Clone, Copy, Debug, PartialEq, Eq, Structural)]
pub enum QueuedMessageKind {
    Steer,
    FollowUp,
}

impl QueuedMessageKind {
    /// What the kind is called.
    pub fn label(self) -> (r: &'static str)
        ensures
            r@ == (match self {
                QueuedMessageKind::Steer => "steer"@,
                QueuedMessageKind::FollowUp => "follow-up"@,
            }),
    {
        match self {
            QueuedMessageKind::Steer => "steer",
            QueuedMessageKind::FollowUp => "follow-up",
        }
    }
}

/// A message that waits.
#[derive(Clone, Debug, PartialEq, Eq)]
pub struct QueuedMessage {
    pub kind: QueuedMessageKind,
    pub message: String,
}

/// What stands before a waiting message.
pub open spec fn queue_prefix(kind: QueuedMessageKind) -> Seq<char> {
    match kind {
        QueuedMessageKind::Steer => "  [steer] "@,
        QueuedMessageKind::FollowUp => "  [follow-up] "@,
    }
}

/// A waiting message, as lines.
pub open spec fn queued_lines(queued: QueuedMessage, width: nat) -> Seq<Seq<char>> {
    let prefix = queue_prefix(queued.kind);
    let room = if prefix.len() < width {
        (width - prefix.len()) as nat
    } else {
        0
    };
    wrap::prefixed(wrap::wrapped(queued.message@, room), prefix, prefix.len())
}

/// The messages from `i` on, as lines.
pub open spec fn queued_from(messages: Seq<QueuedMessage>, i: int, n: int, width: nat) -> Seq<
    Seq<char>,
>
    decreases n,
{
    if n <= i || i < 0 {
        Seq::empty()
    } else {
        queued_from(messages, i, n - 1, width) + queued_lines(messages[n - 1], width)
    }
}

/// The waiting messages: the last three, and how many more there are.
pub open spec fn pending_lines(messages: Seq<QueuedMessage>, width: nat) -> Seq<Seq<char>> {
    if messages.len() == 0 {
        Seq::empty()
    } else {
        let start = if messages.len() > 3 {
            messages.len() - 3
        } else {
            0
        };
        seq![screen::cut(screen::title("Pending messages:"@), width)] + queued_from(
            messages,
            start,
            messages.len() as int,
            width,
        ) + (if messages.len() > 3 {
            seq!["  ... "@ + text::decimal((messages.len() - 3) as nat) + " more"@]
        } else {
            Seq::empty()
        })
    }
}

fn render_queued(queued: &QueuedMessage, width: usize) -> (r: Vec<String>)
    ensures
        text::texts(r@) == queued_lines(*queued, width as nat),
{
    let prefix = match queued.kind {
        QueuedMessageKind::Steer => "  [steer] ",
        QueuedMessageKind::FollowUp => "  [follow-up] ",
    };
    let used: usize = prefix.unicode_len();
    let room: usize = if used < width {
        width - used
    } else {
        0
    };
    let lines = wrap_text(queued.message.as_str(), room);
    prefix_lines(lines.as_slice(), prefix, used)
}

/// The waiting messages, as lines.
pub fn pending_message_lines(messages: &[QueuedMessage], width: u16) -> (r: Vec<String>)
    ensures
        text::texts(r@) == pending_lines(messages@, width as nat),
{
    let mut lines: Vec<String> = Vec::new();
    if messages.len() == 0 {
        return lines;
    }
    lines.push(truncate_to_width(style_title("Pending messages:").as_str(), width as usize));
    let ghost head = seq![screen::cut(screen::title("Pending messages:"@), width as nat)];
    let start: usize = if messages.len() > 3 {
        messages.len() - 3
    } else {
        0
    };
    let mut i: usize = start;
    assert(text::texts(lines@) =~= head + queued_from(
        messages@,
        start as int,
        i as int,
        width as nat,
    ));
    while i < messages.len()
        invariant
            start <= i <= messages.len(),
            text::texts(lines@) == head + queued_from(
                messages@,
                start as int,
                i as int,
                width as nat,
            ),
        decreases messages.len() - i,
    {
        let mut more = render_queued(&messages[i], width as usize);
        lines.append(&mut more);
        i += 1;
        assert(text::texts(lines@) =~= head + queued_from(
            messages@,
            start as int,
            i as int,
            width as nat,
        ));
    }
    if messages.len() > 3 {
        lines.push(cat3("  ... ", decimal_text((messages.len() - 3) as u64).as_str(), " more"));
    }
    assert(text::texts(lines@) =~= pending_lines(messages@, width as nat));
    lines
}

/// Whether the last entry of a transcript is a message of the assistant.
pub open spec fn ends_with_assistant(transcript: Seq<TranscriptEntry>) -> bool {
    transcript.len() > 0 && transcript.last() matches TranscriptEntry::Message(Message::Assistant(_))
}

/// A transcript with a message that arrived: a message of the assistant takes the place of the one
/// that is being written, and a message that is there already is not put there again.
/// `repeats_last` says whether the last entry is that same message.
pub open spec fn with_live_message(
    transcript: Seq<TranscriptEntry>,
    message: Message,
    repeats_last: bool,
) -> Seq<TranscriptEntry> {
    if message is Assistant {
        if ends_with_assistant(transcript) {
            transcript.drop_last().push(TranscriptEntry::Message(message))
        } else {
            transcript.push(TranscriptEntry::Message(message))
        }
    } else if repeats_last {
        transcript
    } else {
        transcript.push(TranscriptEntry::Message(message))
    }
}

/// Adds a message that arrived to a transcript.
pub fn apply_live_transcript_message(
    transcript: &mut Vec<TranscriptEntry>,
    message: Message,
    repeats_last: bool,
)
    ensures
        final(transcript)@ == with_live_message(old(transcript)@, message, repeats_last),
{
    match message {
        Message::Assistant(next) => {
            let replace = transcript.len() > 0 && matches!(
                transcript[transcript.len() - 1],
                TranscriptEntry::Message(Message::Assistant(_))
            );
            if replace {
                let _ = transcript.pop();
            }
            transcript.push(TranscriptEntry::Message(Message::Assistant(next)));
        },
        other => {
            if !repeats_last {
                transcript.push(TranscriptEntry::Message(other));
            }
        },
    }
}

/// A message of the assistant that is written piece by piece stays one entry: the last version is
/// the one that is kept.
pub proof fn streaming_keeps_one_entry(
    transcript: Seq<TranscriptEntry>,
    first: AssistantMessage,
    second: AssistantMessage,
)
    ensures
        with_live_message(
            with_live_message(transcript, Message::Assistant(first), false),
            Message::Assistant(second),
            false,
        ) == with_live_message(transcript, Message::Assistant(second), false),
{
    let once = with_live_message(transcript, Message::Assistant(first), false);
    assert(once.last() == TranscriptEntry::Message(Message::Assistant(first)));
    assert(with_live_message(once, Message::Assistant(second), false) =~= with_live_message(
        transcript,
        Message::Assistant(second),
        false,
    ));
}

/// What a tool hands over in two runs of blocks is shown as the first, then the second.
pub proof fn content_in_two(a: Seq<Json>, b: Seq<Json>, width: nat)
    ensures
        content_texts(a + b, width) == content_texts(a, width) + content_texts(b, width),
        content_images(a + b) == content_images(a) + content_images(b),
    decreases b.len(),
{
    if b.len() == 0 {
        assert(a + b =~= a);
    } else {
        assert((a + b).drop_last() =~= a + b.drop_last());
        content_in_two(a, b.drop_last(), width);
        assert(content_texts(a + b, width) =~= content_texts(a, width) + content_texts(b, width));
        assert(content_images(a + b) =~= content_images(a) + content_images(b));
    }
}

/// A block of text is shown as the lines of that text, an image as that image, and neither as the
/// other.
pub proof fn content_blocks_are_shown(block: Json, width: nat, s: Seq<char>)
    ensures
        json::text_in(json::member(block, "type"@)) == Some("text"@) && json::text_in(
            json::member(block, "text"@),
        ) == Some(s) ==> content_texts(seq![block], width) == markdown::markdown(s, width)
            && content_images(seq![block]).len() == 0,
        json::text_in(json::member(block, "type"@)) == Some("image"@) && json::text_in(
            json::member(block, "mimeType"@),
        ) == Some(s) ==> content_texts(seq![block], width).len() == 0 && content_images(seq![block])
            == seq![(s, json::text_in(json::member(block, "data"@)))],
{
    reveal_with_fuel(content_texts, 2);
    reveal_with_fuel(content_images, 2);
    reveal_strlit("text");
    reveal_strlit("image");
    assert(seq![block].drop_last() =~= Seq::<Json>::empty());
    assert("text"@.len() != "image"@.len());
    if json::text_in(json::member(block, "type"@)) == Some("text"@) && json::text_in(
        json::member(block, "text"@),
    ) == Some(s) {
        assert(content_texts(seq![block], width) =~= markdown::markdown(s, width));
    }
    if json::text_in(json::member(block, "type"@)) == Some("image"@) && json::text_in(
        json::member(block, "mimeType"@),
    ) == Some(s) {
        assert(content_images(seq![block]) =~= seq![
            (s, json::text_in(json::member(block, "data"@))),
        ]);
    }
}

/// A change is shown before output, output before errors, and a text as it is.
pub proof fn partial_results_are_shown(tool: Seq<char>, doc: JsonDoc, width: nat, s: Seq<char>)
    ensures
        json::text_in(json::member(doc.value, "diff"@)) == Some(s) ==> partial_body(
            tool,
            doc,
            width,
        ).lines == diff::diff_lines(s, width),
        json::text_in(json::member(doc.value, "diff"@)) is None && json::text_in(
            json::member(doc.value, "output"@),
        ) == Some(s) ==> partial_body(tool, doc, width).lines == markdown::markdown(s, width),
        json::text_in(json::member(doc.value, "diff"@)) is None && json::text_in(
            json::member(doc.value, "output"@),
        ) is None && json::text_in(json::member(doc.value, "stderr"@)) == Some(s) ==> partial_body(
            tool,
            doc,
            width,
        ).lines == markdown::markdown(s, width),
        doc.value matches Json::Text(given) ==> (given@ == s && json::member(doc.value, "diff"@)
            is None && json::member(doc.value, "output"@) is None && json::member(
            doc.value,
            "stderr"@,
        ) is None ==> partial_body(tool, doc, width).lines == (if tool == "bash"@ {
            markdown::markdown(s, width)
        } else {
            wrap::wrapped(s, width)
        })),
{
}

proof fn active_with_one_more(
    all: Seq<ActiveToolExecution>,
    tool: ActiveToolExecution,
    n: int,
    context: TranscriptRenderContext,
)
    requires
        0 <= n <= all.len(),
    ensures
        n < all.len() ==> active_upto(all.push(tool), n, context) == active_upto(all, n, context),
        n == all.len() && n > 0 ==> active_upto(all.push(tool), n, context) == active_upto(
            all,
            n,
            context,
        ).push(transcript::LineView::Text(Seq::empty())),
    decreases n,
{
    if n > 0 {
        active_with_one_more(all, tool, n - 1, context);
        assert(all.push(tool)[n - 1] == all[n - 1]);
        let shown = active_lines(all[n - 1], context);
        let blank = transcript::LineView::Text(Seq::empty());
        if n == all.len() {
            assert(active_upto(all, n, context) =~= active_upto(all, n - 1, context) + shown);
            assert(active_upto(all.push(tool), n, context) =~= (active_upto(all, n - 1, context)
                + shown).push(blank));
        }
    }
}

/// Every running tool is shown, one below the other, with an empty line between each two.
pub proof fn running_tools_are_shown(
    all: Seq<ActiveToolExecution>,
    tool: ActiveToolExecution,
    context: TranscriptRenderContext,
)
    ensures
        active_upto(all.push(tool), (all.len() + 1) as int, context) == active_upto(
            all,
            all.len() as int,
            context,
        ) + (if all.len() > 0 {
            seq![transcript::LineView::Text(Seq::empty())]
        } else {
            Seq::empty()
        }) + active_lines(tool, context),
{
    let n = all.len() as int;
    active_with_one_more(all, tool, n, context);
    assert(all.push(tool)[n] == tool);
    let blank = transcript::LineView::Text(Seq::empty());
    if n > 0 {
        assert(active_upto(all, n, context).push(blank) =~= active_upto(all, n, context) + seq![
            blank,
        ]);
    }
    assert(active_upto(all.push(tool), n + 1, context) =~= active_upto(all.push(tool), n, context)
        + active_lines(tool, context));
}

/// A tool that has handed nothing over yet is waited for; what it has handed over is kept.
pub proof fn silent_tools_are_waited_for(tool: ActiveToolExecution, width: nat)
    ensures
        tool.partial_result is None ==> active_body(tool, width).lines == seq![
            screen::hint("Waiting for output..."@),
        ],
        tool.partial_result matches Some(doc) ==> (partial_body(
            tool.tool_name@,
            doc,
            width,
        ).lines.len() > 0 ==> active_body(tool, width).lines == partial_body(
            tool.tool_name@,
            doc,
            width,
        ).lines),
{
}

/// The latest panel is that of the last tool result or of the last command that was run, whatever
/// else was said since.
pub proof fn latest_panel_is_found(
    entries: Seq<TranscriptEntry>,
    result: ToolResult,
    entry: TranscriptEntry,
)
    ensures
        latest_panel(Seq::empty()) is None,
        latest_panel(entries.push(TranscriptEntry::Message(Message::ToolResult(result)))) == Some(
            "result:"@ + result.tool_call_id@,
        ),
        entry matches TranscriptEntry::Message(m) ==> (!(m is ToolResult) ==> latest_panel(
            entries.push(entry),
        ) == latest_panel(entries)),
        entry matches TranscriptEntry::CustomMessage { custom_type, content, details } ==> (
        latest_panel(entries.push(entry)) == (if custom_type@ == "bash_execution"@ {
            Some("bash:"@ + text::decimal(entries.len()))
        } else {
            latest_panel(entries)
        })),
{
    let done = TranscriptEntry::Message(Message::ToolResult(result));
    assert(entries.push(done).drop_last() =~= entries);
    assert(entries.push(entry).drop_last() =~= entries);
    assert(entries.push(done).last() == done);
    assert(entries.push(entry).last() == entry);
}

/// Up to three waiting messages are all shown; of more, the last three are, and how many others
/// there are is said.
pub proof fn waiting_messages_are_shown(
    earlier: Seq<QueuedMessage>,
    a: QueuedMessage,
    b: QueuedMessage,
    c: QueuedMessage,
    width: nat,
)
    ensures
        ({
            let head = seq![screen::cut(screen::title("Pending messages:"@), width)];
            let la = queued_lines(a, width);
            let lb = queued_lines(b, width);
            let lc = queued_lines(c, width);
            &&& pending_lines(Seq::empty(), width).len() == 0
            &&& pending_lines(seq![a], width) == head + la
            &&& pending_lines(seq![a, b], width) == head + la + lb
            &&& pending_lines(seq![a, b, c], width) == head + la + lb + lc
            &&& earlier.len() > 0 ==> pending_lines(earlier + seq![a, b, c], width) == head + la
                + lb + lc + seq!["  ... "@ + text::decimal(earlier.len()) + " more"@]
        }),
{
    let head = seq![screen::cut(screen::title("Pending messages:"@), width)];
    let la = queued_lines(a, width);
    let lb = queued_lines(b, width);
    let lc = queued_lines(c, width);
    let none = Seq::<Seq<char>>::empty();
    reveal_with_fuel(queued_from, 4);
    assert(pending_lines(seq![a], width) =~= head + la);
    assert(pending_lines(seq![a, b], width) =~= head + la + lb);
    assert(pending_lines(seq![a, b, c], width) =~= head + la + lb + lc);
    if earlier.len() > 0 {
        let all = earlier + seq![a, b, c];
        let n = earlier.len() as int;
        assert(all[n] == a && all[n + 1] == b && all[n + 2] == c);
        assert(queued_from(all, n, n, width) =~= none);
        assert(queued_from(all, n, n + 1, width) =~= la);
        assert(queued_from(all, n, n + 2, width) =~= la + lb);
        assert(queued_from(all, n, n + 3, width) =~= la + lb + lc);
        assert(all.len() == n + 3);
        assert(pending_lines(all, width) =~= head + la + lb + lc + seq![
            "  ... "@ + text::decimal(earlier.len()) + " more"@,
        ]);
    }
}

/// The first line of a waiting message says how it will be handed over, and begins the message.
pub proof fn waiting_messages_say_their_kind(queued: QueuedMessage, width: nat, room: nat)
    requires
        queued.kind is Steer ==> width == 10 + room,
        queued.kind is FollowUp ==> width == 14 + room,
        wrap::wrapped(queued.message@, room).len() > 0,
    ensures
        queued_lines(queued, width).len() == wrap::wrapped(queued.message@, room).len(),
        queued.kind is Steer ==> queued_lines(queued, width)[0] == "  [steer] "@ + wrap::wrapped(
            queued.message@,
            room,
        )[0],
        queued.kind is FollowUp ==> queued_lines(queued, width)[0] == "  [follow-up] "@
            + wrap::wrapped(queued.message@, room)[0],
{
    reveal_strlit("  [steer] ");
    reveal_strlit("  [follow-up] ");
    let lines = wrap::wrapped(queued.message@, room);
    let prefix = queue_prefix(queued.kind);
    wrap::prefix_stands_once(lines, prefix, prefix.len(), 0);
}

/// A message that comes in is the last entry afterwards, and no entry but the answer that it
/// continues makes way for it.
pub proof fn live_messages_come_last(
    transcript: Seq<TranscriptEntry>,
    message: Message,
    i: int,
)
    ensures
        with_live_message(transcript, message, false).last() == TranscriptEntry::Message(message),
        !(message is Assistant) || !ends_with_assistant(transcript) ==> with_live_message(
            transcript,
            message,
            false,
        ).len() == transcript.len() + 1,
        0 <= i < transcript.len() - 1 ==> with_live_message(transcript, message, false)[i]
            == transcript[i],
        0 <= i < transcript.len() && !ends_with_assistant(transcript) ==> with_live_message(
            transcript,
            message,
            false,
        )[i] == transcript[i],
        !(message is Assistant) ==> with_live_message(transcript, message, true) == transcript,
{
}

} // verus!
