//! How sessions, overlays and editors are opened, and what a session's entries become.
use vstd::prelude::*;
use crate::frame;
use crate::frame::{append_blank_lines, RenderOutput};
use crate::json::Json;
use crate::live::QueuedMessage;
use crate::models::ModelOverlayScope;
use crate::overlay::{Status, StatusView};
use crate::pieces;
use crate::pieces::{Piece, PieceView};
use crate::plugins;
use crate::plugins::{append_unique_root, SettingsScope};
use crate::resources;
use crate::resources::config_browser_scope_label;
use crate::screen;
use crate::screen::{style_hint, style_subtitle, style_title};
use crate::session::ModelInfo;
use crate::text;
use crate::text::{cat2, cat3, copy_text, join_texts, trimmed};
use crate::transcript::{Message, SummaryKind, TranscriptEntry, UserContent};

verus! {

broadcast use {crate::text::group_texts, crate::pieces::group_pieces};

/// An entry of a session.
#[derive(Debug, PartialEq, Eq)]
pub enum SessionEntry {
    Message(Message),
    CustomMessage { custom_type: String, content: UserContent, details: Option<Json>, display: bool },
    Compaction { summary: String, tokens_before: u64 },
    BranchSummary { branch_summary: String },
    /// Anything else, and what cannot be read.
    Other,
}

/// What is shown of an entry.
pub enum ShownEntry {
    Message(Message),
    CustomMessage { custom_type: Seq<char>, content: UserContent, details: Option<Json> },
    Summary { kind: SummaryKind, title: Seq<char>, body: Seq<char>, tokens_before: Option<u64> },
}

/// An entry of a transcript, as a mathematical value.
pub open spec fn entry_view(entry: TranscriptEntry) -> ShownEntry {
    match entry {
        TranscriptEntry::Message(message) => ShownEntry::Message(message),
        TranscriptEntry::CustomMessage { custom_type, content, details } => ShownEntry::CustomMessage {
            custom_type: custom_type@,
            content,
            details,
        },
        TranscriptEntry::Summary { kind, title, body, tokens_before } => ShownEntry::Summary {
            kind,
            title: title@,
            body: body@,
            tokens_before,
        },
    }
}

/// Entries of a transcript, as mathematical values.
pub open spec fn entry_views(entries: Seq<TranscriptEntry>) -> Seq<ShownEntry> {
    Seq::new(entries.len(), |i: int| entry_view(entries[i]))
}

/// What is shown of an entry of a session: messages, custom messages that are meant to be shown,
/// and summaries.
pub open spec fn shown_entry(entry: SessionEntry) -> Option<ShownEntry> {
    match entry {
        SessionEntry::Message(message) => Some(ShownEntry::Message(message)),
        SessionEntry::CustomMessage { custom_type, content, details, display } => if display {
            Some(ShownEntry::CustomMessage { custom_type: custom_type@, content, details })
        } else {
            None
        },
        SessionEntry::Compaction { summary, tokens_before } => Some(
            ShownEntry::Summary {
                kind: SummaryKind::Compaction,
                title: "Compaction Summary"@,
                body: summary@,
                tokens_before: Some(tokens_before),
            },
        ),
        SessionEntry::BranchSummary { branch_summary } => Some(
            ShownEntry::Summary {
                kind: SummaryKind::Branch,
                title: "Branch Summary"@,
                body: branch_summary@,
                tokens_before: None,
            },
        ),
        SessionEntry::Other => None,
    }
}

/// What is shown of the entries of a session, in order.
pub open spec fn shown_entries(entries: Seq<SessionEntry>) -> Seq<ShownEntry>
    decreases entries.len(),
{
    if entries.len() == 0 {
        Seq::empty()
    } else {
        let before = shown_entries(entries.drop_last());
        match shown_entry(entries.last()) {
            Some(entry) => before.push(entry),
            None => before,
        }
    }
}

fn show_entry(entry: SessionEntry) -> (r: Option<TranscriptEntry>)
    ensures
        match r {
            Some(shown) => shown_entry(entry) == Some(entry_view(shown)),
            None => shown_entry(entry) is None,
        },
{
    match entry {
        SessionEntry::Message(message) => Some(TranscriptEntry::Message(message)),
        SessionEntry::CustomMessage { custom_type, content, details, display } => if display {
            Some(TranscriptEntry::CustomMessage { custom_type, content, details })
        } else {
            None
        },
        SessionEntry::Compaction { summary, tokens_before } => Some(
            TranscriptEntry::Summary {
                kind: SummaryKind::Compaction,
                title: copy_text("Compaction Summary"),
                body: summary,
                tokens_before: Some(tokens_before),
            },
        ),
        SessionEntry::BranchSummary { branch_summary } => Some(
            TranscriptEntry::Summary {
                kind: SummaryKind::Branch,
                title: copy_text("Branch Summary"),
                body: branch_summary,
                tokens_before: None,
            },
        ),
        SessionEntry::Other => None,
    }
}

/// What is shown of the entries of a session, in order.
pub fn build_transcript_entries(entries: Vec<SessionEntry>) -> (r: Vec<TranscriptEntry>)
    ensures
        entry_views(r@) == shown_entries(entries@),
{
    let ghost all = entries@;
    let ghost n = all.len();
    let mut rest = entries;
    let mut out: Vec<TranscriptEntry> = Vec::new();
    assert(all.take(0) =~= Seq::<SessionEntry>::empty());
    assert(entry_views(out@) =~= Seq::<ShownEntry>::empty());
    assert(all.skip(0) =~= all);
    while rest.len() > 0
        invariant
            rest@.len() <= n,
            n == all.len(),
            rest@ == all.skip(n - rest@.len()),
            entry_views(out@) == shown_entries(all.take(n - rest@.len())),
        decreases rest@.len(),
    {
        let ghost i = n - rest@.len();
        let entry = rest.remove(0);
        assert(entry == all[i]);
        assert(rest@ =~= all.skip(i + 1));
        assert(all.take(i + 1).drop_last() =~= all.take(i));
        if let Some(shown) = show_entry(entry) {
            let ghost view = entry_view(shown);
            let ghost earlier = entry_views(out@);
            out.push(shown);
            assert(entry_views(out@) =~= earlier.push(view));
        }
    }
    assert(all.take(n as int) =~= all);
    out
}

/// A text that is not blank.
pub open spec fn not_blank(value: Option<Seq<char>>) -> Option<Seq<char>> {
    match value {
        Some(s) => if text::trim(s).len() > 0 {
            Some(s)
        } else {
            None
        },
        None => None,
    }
}

fn unless_blank(value: &Option<String>) -> (r: Option<String>)
    ensures
        text::opt_text(r) == not_blank(text::opt_text(*value)),
{
    match value {
        Some(s) => if !trimmed(s.as_str()).as_str().is_empty() {
            Some(copy_text(s.as_str()))
        } else {
            None
        },
        None => None,
    }
}

/// The editor that a prompt is edited in: the visual one, else the plain one. Blank ones count as
/// not set.
pub fn external_editor_command(visual: &Option<String>, editor: &Option<String>) -> (r: Option<String>)
    ensures
        text::opt_text(r) == (match not_blank(text::opt_text(*visual)) {
            Some(command) => Some(command),
            None => not_blank(text::opt_text(*editor)),
        }),
{
    match unless_blank(visual) {
        Some(command) => Some(command),
        None => unless_blank(editor),
    }
}

/// How an external editor ended.
#[derive(Clone, Debug, PartialEq, Eq)]
pub enum EditorOutcome {
    /// None is set.
    NotSet,
    Finished,
    /// It ended with this status.
    Failed(String),
}

/// What is said of an external editor.
pub fn external_editor_status(outcome: &EditorOutcome) -> (r: String)
    ensures
        r@ == (match *outcome {
            EditorOutcome::NotSet => "Set $VISUAL or $EDITOR to use the external editor."@,
            EditorOutcome::Finished => "Loaded text from external editor."@,
            EditorOutcome::Failed(status) => "External editor exited with status "@ + status@ + "."@,
        }),
{
    match outcome {
        EditorOutcome::NotSet => copy_text("Set $VISUAL or $EDITOR to use the external editor."),
        EditorOutcome::Finished => copy_text("Loaded text from external editor."),
        EditorOutcome::Failed(status) => cat3(
            "External editor exited with status ",
            status.as_str(),
            ".",
        ),
    }
}

/// Whether a prompt may start, and whether it is the first one of its session: nothing was said
/// before.
pub fn begin_prompt(running: bool, transcript_empty: bool, transient_empty: bool) -> (r: Result<
    bool,
    String,
>)
    ensures
        match r {
            Ok(first) => !running && first == (transcript_empty && transient_empty),
            Err(message) => running && message@ == "A prompt is already running."@,
        },
{
    if running {
        Err(copy_text("A prompt is already running."))
    } else {
        Ok(transcript_empty && transient_empty)
    }
}

/// How the interface starts.
#[derive(Clone, Copy, Debug, PartialEq, Eq, Structural)]
pub enum StartStep {
    /// A session is picked first. Where none is picked, the interface ends; the most recent one is
    /// not continued.
    PickSession,
    Open,
}

/// How the interface starts.
pub fn start_step(resume_picker: bool, has_session: bool) -> (r: StartStep)
    ensures
        r == (if resume_picker && !has_session {
            StartStep::PickSession
        } else {
            StartStep::Open
        }),
{
    if resume_picker && !has_session {
        StartStep::PickSession
    } else {
        StartStep::Open
    }
}

/// What is said at the start.
pub fn start_status(continue_session: bool, has_session: bool) -> (r: Option<String>)
    ensures
        text::opt_text(r) == (if continue_session && !has_session {
            Some("Continuing the most recent session."@)
        } else {
            None
        }),
{
    if continue_session && !has_session {
        Some(copy_text("Continuing the most recent session."))
    } else {
        None
    }
}

/// The prompt that the interface starts with: the messages of the command line, one below the
/// other.
pub fn initial_prompt(messages: &[String]) -> (r: Option<String>)
    ensures
        text::opt_text(r) == (if messages@.len() == 0 {
            None
        } else {
            Some(text::join(text::texts(messages@), "\n"@))
        }),
{
    if messages.len() == 0 {
        None
    } else {
        Some(join_texts(messages, "\n"))
    }
}

/// After how many milliseconds without a key the interface is drawn again.
pub fn redraw_delay(needs_periodic_redraw: bool) -> (r: u64)
    ensures
        r == (if needs_periodic_redraw {
            100u64
        } else {
            250u64
        }),
{
    if needs_periodic_redraw {
        100
    } else {
        250
    }
}

/// A picture of the session picker that fills the height.
pub fn fill_height(output: RenderOutput, width: u16, height: u16) -> (r: RenderOutput)
    ensures
        r@ == frame::spaced(
            output@,
            width as nat,
            if output@.lines.len() < height {
                (height - output@.lines.len()) as nat
            } else {
                0
            },
        ),
{
    assert(output@.lines.len() == output.lines@.len());
    let missing: usize = if output.lines.len() < height as usize {
        height as usize - output.lines.len()
    } else {
        0
    };
    append_blank_lines(output, width, missing)
}

/// Which models are shown first.
pub fn opening_model_scope(scoped_count: usize) -> (r: ModelOverlayScope)
    ensures
        r == (if scoped_count == 0 {
            ModelOverlayScope::All
        } else {
            ModelOverlayScope::Scoped
        }),
{
    if scoped_count == 0 {
        ModelOverlayScope::All
    } else {
        ModelOverlayScope::Scoped
    }
}

/// Which models are shown once they were looked up again: all, where none is scoped.
pub fn reloaded_model_scope(scope: ModelOverlayScope, scoped_count: usize) -> (r: ModelOverlayScope)
    ensures
        r == (if scoped_count == 0 {
            ModelOverlayScope::All
        } else {
            scope
        }),
{
    if scoped_count == 0 {
        ModelOverlayScope::All
    } else {
        scope
    }
}

/// Which models are shown instead, and what is said of it. Where none is scoped, nothing is said.
pub fn toggle_model_overlay_scope(scope: ModelOverlayScope, scoped_count: usize) -> (r: (
    ModelOverlayScope,
    Status,
))
    ensures
        r.0 == (if scoped_count == 0 {
            ModelOverlayScope::All
        } else {
            scope.other()
        }),
        r.1@ == (if scoped_count == 0 {
            StatusView::Keep
        } else {
            StatusView::Say("Model scope: "@ + scope.other().name())
        }),
{
    if scoped_count == 0 {
        return (ModelOverlayScope::All, Status::Keep);
    }
    let next = scope.next();
    (next, Status::Say(cat2("Model scope: ", next.label())))
}

/// What is said instead of opening an overlay that would be empty.
pub fn empty_overlay_status(fork: bool, count: usize) -> (r: Option<String>)
    ensures
        text::opt_text(r) == (if count > 0 {
            None
        } else if fork {
            Some("No messages to fork from"@)
        } else {
            Some("No entries in session"@)
        }),
{
    if count > 0 {
        None
    } else if fork {
        Some(copy_text("No messages to fork from"))
    } else {
        Some(copy_text("No entries in session"))
    }
}

/// The text of the prompt once another point of the session was gone to: a prompt that is not blank
/// stays.
pub fn prompt_after_navigation(present: &str, editor_text: &Option<String>) -> (r: String)
    ensures
        r@ == (match *editor_text {
            Some(s) => if text::trim(present@).len() == 0 {
                s@
            } else {
                present@
            },
            None => present@,
        }),
{
    match editor_text {
        Some(s) => if trimmed(present).as_str().is_empty() {
            copy_text(s.as_str())
        } else {
            copy_text(present)
        },
        None => copy_text(present),
    }
}

/// The providers of models.
pub open spec fn providers(models: Seq<ModelInfo>) -> Seq<Seq<char>> {
    Seq::new(models.len(), |i: int| models[i].provider@)
}

/// How many different providers models have.
pub fn provider_count(models: &[ModelInfo]) -> (r: usize)
    ensures
        r == plugins::distinct(providers(models@)).len(),
{
    let ghost all = providers(models@);
    let mut seen: Vec<String> = Vec::new();
    let mut i: usize = 0;
    assert(all.take(0) =~= Seq::<Seq<char>>::empty());
    while i < models.len()
        invariant
            0 <= i <= models.len(),
            all == providers(models@),
            text::texts(seen@) == plugins::distinct(all.take(i as int)),
        decreases models.len() - i,
    {
        assert(all.take(i + 1).drop_last() =~= all.take(i as int));
        append_unique_root(&mut seen, models[i].provider.as_str());
        i += 1;
    }
    assert(all.take(i as int) =~= all);
    assert(text::texts(seen@).len() == seen@.len());
    seen.len()
}

/// What is said at the start of settings that could not be read.
pub fn settings_notice(scope: SettingsScope, message: &str) -> (r: String)
    ensures
        r@ == resources::scope_word(scope) + ": "@ + message@,
{
    cat3(config_browser_scope_label(scope), ": ", message)
}

/// The list of completions below a prompt.
pub fn render_prompt_autocomplete(title: &str, subtitle: &str, hint: &str) -> (r: Vec<Piece>)
    ensures
        pieces::views(r@) == seq![
            PieceView::Flow(screen::title(title@)),
            PieceView::Flow(screen::subtitle(subtitle@)),
            PieceView::Blank,
            PieceView::List(false),
            PieceView::Blank,
            PieceView::Flow(screen::hint(hint@)),
        ],
{
    let mut out: Vec<Piece> = Vec::new();
    out.push(Piece::Flow(style_title(title)));
    out.push(Piece::Flow(style_subtitle(subtitle)));
    out.push(Piece::Blank);
    out.push(Piece::List(false));
    out.push(Piece::Blank);
    out.push(Piece::Flow(style_hint(hint)));
    assert(pieces::views(out@) =~= seq![
        PieceView::Flow(screen::title(title@)),
        PieceView::Flow(screen::subtitle(subtitle@)),
        PieceView::Blank,
        PieceView::List(false),
        PieceView::Blank,
        PieceView::Flow(screen::hint(hint@)),
    ]);
    out
}

/// Takes the last queued message away. Where it was still waiting, its text goes back to the
/// prompt.
pub fn dequeue_last(pending: Vec<QueuedMessage>, still_waiting: bool) -> (r: (
    Vec<QueuedMessage>,
    Option<String>,
))
    ensures
        pending@.len() == 0 ==> r.0@ == pending@ && r.1 is None,
        pending@.len() > 0 ==> r.0@ == pending@.drop_last() && text::opt_text(r.1) == (
        if still_waiting {
            Some(pending@.last().message@)
        } else {
            None
        }),
{
    let mut rest = pending;
    match rest.pop() {
        Some(queued) => if still_waiting {
            (rest, Some(queued.message))
        } else {
            (rest, None)
        },
        None => (rest, None),
    }
}

/// What is said once a queued message was asked back.
pub fn dequeue_status(restored: bool) -> (r: &'static str)
    ensures
        r@ == (if restored {
            "Restored the most recent queued message."@
        } else {
            "No queued messages to restore."@
        }),
{
    if restored {
        "Restored the most recent queued message."
    } else {
        "No queued messages to restore."
    }
}

/// The models that are completed: the scoped ones, or all where none is scoped.
pub fn completed_models<'a>(all: &'a [ModelInfo], scoped: &'a [ModelInfo]) -> (r: &'a [ModelInfo])
    ensures
        r@ == (if scoped@.len() == 0 {
            all@
        } else {
            scoped@
        }),
{
    if scoped.len() == 0 {
        all
    } else {
        scoped
    }
}

/// The entries of a session that was written in two parts are those of the first, then those of
/// the second.
pub proof fn entries_in_two(a: Seq<SessionEntry>, b: Seq<SessionEntry>)
    ensures
        shown_entries(a + b) == shown_entries(a) + shown_entries(b),
    decreases b.len(),
{
    if b.len() == 0 {
        assert(a + b =~= a);
    } else {
        assert((a + b).drop_last() =~= a + b.drop_last());
        entries_in_two(a, b.drop_last());
        assert(shown_entries(a + b) =~= shown_entries(a) + shown_entries(b));
    }
}

/// Every message of a session is shown as it is, and so is every other message that is meant to
/// be; a summary is shown with its text; nothing else is.
pub proof fn entries_are_shown(entry: SessionEntry)
    ensures
        entry matches SessionEntry::Message(message) ==> shown_entries(seq![entry]) == seq![
            ShownEntry::Message(message),
        ],
        entry matches SessionEntry::CustomMessage { custom_type, content, details, display } ==> (
        shown_entries(seq![entry]) == (if display {
            seq![ShownEntry::CustomMessage { custom_type: custom_type@, content, details }]
        } else {
            Seq::empty()
        })),
        entry matches SessionEntry::Compaction { summary, tokens_before } ==> (shown_entries(
            seq![entry],
        ).len() == 1 && shown_entries(seq![entry])[0] == (ShownEntry::Summary {
            kind: SummaryKind::Compaction,
            title: "Compaction Summary"@,
            body: summary@,
            tokens_before: Some(tokens_before),
        })),
        entry matches SessionEntry::BranchSummary { branch_summary } ==> (shown_entries(
            seq![entry],
        ).len() == 1 && shown_entries(seq![entry])[0] == (ShownEntry::Summary {
            kind: SummaryKind::Branch,
            title: "Branch Summary"@,
            body: branch_summary@,
            tokens_before: None,
        })),
        entry is Other ==> shown_entries(seq![entry]).len() == 0,
{
    reveal_with_fuel(shown_entries, 2);
    assert(seq![entry].drop_last() =~= Seq::<SessionEntry>::empty());
}

/// A value counts exactly if there is more to it than white space, and then as it stands.
pub proof fn blank_values_do_not_count(s: Seq<char>)
    ensures
        text::trim(s).len() > 0 ==> not_blank(Some(s)) == Some(s),
        text::trim(s).len() == 0 ==> not_blank(Some(s)) is None,
        not_blank(None) is None,
{
}

} // verus!
