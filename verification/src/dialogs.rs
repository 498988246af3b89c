//! The overlays that ask for a text: the login, and the dialogs that name and describe things.
use vstd::prelude::*;
use crate::chrome;
use crate::keys::{KeyCode, KeyEvent};
use crate::overlay;
use crate::overlay::{
    matches_ctrl_char, say, FieldReply, OverlaySelection, SelectionView, Status, StatusView,
};
use crate::pieces;
use crate::pieces::{append_overlay_banner, Piece, PieceView};
use crate::screen;
use crate::screen::{style_hint, truncate_to_width};
use crate::startup;
use crate::startup::oauth_provider_label;
use crate::text;
use crate::text::{cat2, cat3, copy_opt, copy_text, join_texts, same, trimmed};

verus! {

broadcast use {crate::text::group_texts, crate::pieces::group_pieces};

/// The overlay of a login that is going on.
#[derive(Clone, Debug, PartialEq, Eq)]
pub struct AuthOverlayState {
    pub provider: String,
    pub subtitle: String,
    pub message_lines: Vec<String>,
    pub awaiting_input: bool,
}

/// The overlay of a login, as a mathematical value.
pub struct AuthView {
    pub provider: Seq<char>,
    pub subtitle: Seq<char>,
    pub message_lines: Seq<Seq<char>>,
    pub awaiting_input: bool,
}

impl View for AuthOverlayState {
    type V = AuthView;

    open spec fn view(&self) -> AuthView {
        AuthView {
            provider: self.provider@,
            subtitle: self.subtitle@,
            message_lines: text::texts(self.message_lines@),
            awaiting_input: self.awaiting_input,
        }
    }
}

/// One text or none.
pub open spec fn each(value: Option<Seq<char>>) -> Seq<Seq<char>> {
    match value {
        Some(s) => seq![s],
        None => Seq::empty(),
    }
}

/// A message at the end of others, unless it is the last one already.
pub open spec fn with_progress(lines: Seq<Seq<char>>, message: Seq<char>) -> Seq<Seq<char>> {
    if lines.len() > 0 && lines.last() == message {
        lines
    } else {
        lines.push(message)
    }
}

impl AuthOverlayState {
    /// The overlay of a login that begins.
    pub fn new(provider: &str) -> (r: AuthOverlayState)
        ensures
            r@ == (AuthView {
                provider: provider@,
                subtitle: "Waiting for provider instructions..."@,
                message_lines: seq!["Preparing OAuth login flow..."@],
                awaiting_input: false,
            }),
    {
        let mut message_lines: Vec<String> = Vec::new();
        message_lines.push(copy_text("Preparing OAuth login flow..."));
        assert(text::texts(message_lines@) =~= seq!["Preparing OAuth login flow..."@]);
        AuthOverlayState {
            provider: copy_text(provider),
            subtitle: copy_text("Waiting for provider instructions..."),
            message_lines,
            awaiting_input: false,
        }
    }

    /// Shows where the login is completed.
    pub fn set_auth_info(self, url: &str, instructions: Option<&str>, on_mac: bool) -> (r:
        AuthOverlayState)
        ensures
            r@ == (AuthView {
                provider: self@.provider,
                subtitle: "Open the URL below and complete login in your browser."@,
                message_lines: seq![url@] + each(chrome::opt_str(instructions)) + seq![
                    if on_mac {
                        "Cmd+click the URL if the browser did not open automatically."@
                    } else {
                        "Ctrl+click the URL if the browser did not open automatically."@
                    },
                ],
                awaiting_input: self@.awaiting_input,
            }),
    {
        let mut message_lines: Vec<String> = Vec::new();
        message_lines.push(copy_text(url));
        if let Some(s) = instructions {
            message_lines.push(copy_text(s));
        }
        message_lines.push(
            copy_text(
                if on_mac {
                    "Cmd+click the URL if the browser did not open automatically."
                } else {
                    "Ctrl+click the URL if the browser did not open automatically."
                },
            ),
        );
        assert(text::texts(message_lines@) =~= seq![url@] + each(chrome::opt_str(instructions))
            + seq![
            if on_mac {
                "Cmd+click the URL if the browser did not open automatically."@
            } else {
                "Ctrl+click the URL if the browser did not open automatically."@
            },
        ]);
        AuthOverlayState {
            provider: self.provider,
            subtitle: copy_text("Open the URL below and complete login in your browser."),
            message_lines,
            awaiting_input: self.awaiting_input,
        }
    }

    /// Asks for a text.
    pub fn set_prompt(self, message: &str, placeholder: Option<&str>) -> (r: AuthOverlayState)
        ensures
            r@ == (AuthView {
                provider: self@.provider,
                subtitle: self@.subtitle,
                message_lines: self@.message_lines.push(message@) + (match placeholder {
                    Some(p) => seq!["e.g., "@ + p@],
                    None => Seq::empty(),
                }),
                awaiting_input: true,
            }),
    {
        let ghost before = text::texts(self.message_lines@);
        let mut message_lines = self.message_lines;
        message_lines.push(copy_text(message));
        if let Some(p) = placeholder {
            message_lines.push(cat2("e.g., ", p));
        }
        assert(text::texts(message_lines@) =~= before.push(message@) + (match placeholder {
            Some(p) => seq!["e.g., "@ + p@],
            None => Seq::empty(),
        }));
        AuthOverlayState {
            provider: self.provider,
            subtitle: self.subtitle,
            message_lines,
            awaiting_input: true,
        }
    }

    /// Shows a message, unless it is shown last already.
    pub fn push_progress(self, message: &str) -> (r: AuthOverlayState)
        ensures
            r@ == (AuthView {
                message_lines: with_progress(self@.message_lines, message@),
                ..self@
            }),
    {
        let mut message_lines = self.message_lines;
        let repeated = message_lines.len() > 0 && same(
            message_lines[message_lines.len() - 1].as_str(),
            message,
        );
        if !repeated {
            message_lines.push(copy_text(message));
        }
        AuthOverlayState {
            provider: self.provider,
            subtitle: self.subtitle,
            message_lines,
            awaiting_input: self.awaiting_input,
        }
    }

    /// The overlay once a text has been sent to the provider.
    pub fn sent(self) -> (r: AuthOverlayState)
        ensures
            r@ == (AuthView {
                message_lines: with_progress(
                    self@.message_lines,
                    "Waiting for provider response..."@,
                ),
                awaiting_input: false,
                ..self@
            }),
    {
        let next = self.push_progress("Waiting for provider response...");
        AuthOverlayState {
            provider: next.provider,
            subtitle: next.subtitle,
            message_lines: next.message_lines,
            awaiting_input: false,
        }
    }
}

/// The overlay of a login.
pub open spec fn auth_overlay(state: AuthView, width: nat) -> Seq<PieceView> {
    pieces::banner(
        "Login to "@ + startup::provider_label(state.provider),
        state.subtitle,
        width,
    ) + seq![PieceView::Blank] + (if state.message_lines.len() > 0 {
        seq![PieceView::Flow(text::join(state.message_lines, "\n"@))]
    } else {
        Seq::empty()
    }) + (if state.awaiting_input {
        seq![PieceView::Blank, PieceView::Field(true)]
    } else {
        Seq::empty()
    }) + seq![
        PieceView::Blank,
        PieceView::Flow(
            screen::hint(
                if state.awaiting_input {
                    "Enter submits - Esc cancels"@
                } else {
                    "Esc cancels"@
                },
            ),
        ),
    ]
}

/// The overlay of a login.
pub fn render_auth_overlay(state: &AuthOverlayState, width: u16) -> (r: Vec<Piece>)
    ensures
        pieces::views(r@) == auth_overlay(state@, width as nat),
{
    let mut out: Vec<Piece> = Vec::new();
    let title = cat2("Login to ", oauth_provider_label(state.provider.as_str()));
    append_overlay_banner(&mut out, title.as_str(), state.subtitle.as_str(), width);
    out.push(Piece::Blank);
    assert(text::texts(state.message_lines@).len() == state.message_lines@.len());
    if state.message_lines.len() > 0 {
        out.push(Piece::Flow(join_texts(state.message_lines.as_slice(), "\n")));
    }
    if state.awaiting_input {
        out.push(Piece::Blank);
        out.push(Piece::Field(true));
    }
    out.push(Piece::Blank);
    out.push(
        Piece::Flow(
            style_hint(
                if state.awaiting_input {
                    "Enter submits - Esc cancels"
                } else {
                    "Esc cancels"
                },
            ),
        ),
    );
    assert(pieces::views(out@) =~= auth_overlay(state@, width as nat));
    out
}

/// What a key press during a login asks for.
#[derive(Clone, Copy, Debug, PartialEq, Eq, Structural)]
pub enum AuthAction {
    Stay,
    /// The login is to be cancelled.
    CancelLogin,
    /// The key press goes to the field.
    ToField,
    /// The text that was entered goes to the provider.
    Send,
}

/// What a key press during a login asks for: escape, or control and C, cancels; other keys go to the
/// field while a text is asked for.
pub fn auth_overlay_key(event: &KeyEvent, awaiting_input: bool) -> (r: AuthAction)
    ensures
        r == (if overlay::is_ctrl(*event, 'c') || event.code is Escape {
            AuthAction::CancelLogin
        } else if awaiting_input {
            AuthAction::ToField
        } else {
            AuthAction::Stay
        }),
{
    if matches_ctrl_char(event, 'c') || matches!(event.code, KeyCode::Escape) {
        return AuthAction::CancelLogin;
    }
    if awaiting_input {
        AuthAction::ToField
    } else {
        AuthAction::Stay
    }
}

/// What the reply of the field asks for.
pub fn auth_field_reply(reply: &FieldReply) -> (r: AuthAction)
    ensures
        r == (match *reply {
            FieldReply::Cancelled => AuthAction::CancelLogin,
            FieldReply::Submitted(_) => AuthAction::Send,
            _ => AuthAction::Stay,
        }),
{
    match reply {
        FieldReply::Changed | FieldReply::Nothing => AuthAction::Stay,
        FieldReply::Cancelled => AuthAction::CancelLogin,
        FieldReply::Submitted(_) => AuthAction::Send,
    }
}

/// What a dialog is for.
#[derive(Clone, Copy, Debug, PartialEq, Eq, Structural)]
pub enum DialogKind {
    RenameSession,
    EditTreeLabel,
    TreeSummaryCustomPrompt,
}

/// A dialog: its texts, and what stands before and in its field.
#[derive(Clone, Debug, PartialEq, Eq)]
pub struct Dialog {
    pub title: String,
    pub subtitle: String,
    pub message_lines: Vec<String>,
    pub hint: String,
    pub prompt: String,
    pub value: String,
}

/// A dialog, as a mathematical value.
pub struct DialogView {
    pub title: Seq<char>,
    pub subtitle: Seq<char>,
    pub message_lines: Seq<Seq<char>>,
    pub hint: Seq<char>,
    pub prompt: Seq<char>,
    pub value: Seq<char>,
}

impl View for Dialog {
    type V = DialogView;

    open spec fn view(&self) -> DialogView {
        DialogView {
            title: self.title@,
            subtitle: self.subtitle@,
            message_lines: text::texts(self.message_lines@),
            hint: self.hint@,
            prompt: self.prompt@,
            value: self.value@,
        }
    }
}

/// An optional text, or the empty one.
pub open spec fn or_empty(value: Option<Seq<char>>) -> Seq<char> {
    match value {
        Some(s) => s,
        None => ""@,
    }
}

/// The dialog that names a session.
pub fn session_rename_dialog(path: &str, name: Option<&str>) -> (r: Dialog)
    ensures
        r@ == (DialogView {
            title: "Rename Session"@,
            subtitle: screen::cut(path@, 120),
            message_lines: seq!["Set a human-readable session name."@],
            hint: "Enter saves - Esc cancels"@,
            prompt: "Name: "@,
            value: or_empty(chrome::opt_str(name)),
        }),
{
    let mut message_lines: Vec<String> = Vec::new();
    message_lines.push(copy_text("Set a human-readable session name."));
    assert(text::texts(message_lines@) =~= seq!["Set a human-readable session name."@]);
    Dialog {
        title: copy_text("Rename Session"),
        subtitle: truncate_to_width(path, 120),
        message_lines,
        hint: copy_text("Enter saves - Esc cancels"),
        prompt: copy_text("Name: "),
        value: match name {
            Some(s) => copy_text(s),
            None => copy_text(""),
        },
    }
}

/// The label of the first entry of the tree with an identifier.
pub open spec fn label_of(selections: Seq<SelectionView>, id: Seq<char>) -> Option<Option<Seq<char>>>
    decreases selections.len(),
{
    if selections.len() == 0 {
        None
    } else {
        match selections[0] {
            SelectionView::Tree { tree_entry_id, label } => if tree_entry_id == id {
                Some(label)
            } else {
                label_of(selections.skip(1), id)
            },
            _ => label_of(selections.skip(1), id),
        }
    }
}

fn find_label(selections: &[OverlaySelection], id: &str) -> (r: Option<Option<String>>)
    ensures
        (match r {
            Some(label) => Some(text::opt_text(label)),
            None => None,
        }) == label_of(overlay::selections(selections@), id@),
{
    let ghost all = overlay::selections(selections@);
    let mut i: usize = 0;
    assert(all.skip(0) =~= all);
    while i < selections.len()
        invariant
            0 <= i <= selections.len(),
            all == overlay::selections(selections@),
            label_of(all.skip(i as int), id@) == label_of(all, id@),
        decreases selections.len() - i,
    {
        assert(all.skip(i as int)[0] == selections@[i as int]@);
        assert(all.skip(i as int).skip(1) =~= all.skip(i + 1));
        match &selections[i] {
            OverlaySelection::Tree { tree_entry_id, label } => {
                if same(tree_entry_id.as_str(), id) {
                    return Some(copy_opt(label));
                }
            },
            _ => {},
        }
        i += 1;
    }
    None
}

/// The dialog that labels an entry of the tree, or why there is none.
pub fn tree_label_dialog(selections: &[OverlaySelection], selected_value: &str) -> (r: Result<
    Dialog,
    String,
>)
    ensures
        match (r, label_of(overlay::selections(selections@), selected_value@)) {
            (Ok(dialog), Some(label)) => dialog@ == (DialogView {
                title: "Session Tree"@,
                subtitle: ""@,
                message_lines: Seq::empty(),
                hint: "Enter saves · Esc cancels"@,
                prompt: "Label (empty to remove): "@,
                value: or_empty(label),
            }),
            (Err(error), None) => error@ == "No tree item selected for label editing."@,
            _ => false,
        },
{
    match find_label(selections, selected_value) {
        Some(label) => {
            let message_lines: Vec<String> = Vec::new();
            Ok(
                Dialog {
                    title: copy_text("Session Tree"),
                    subtitle: copy_text(""),
                    message_lines,
                    hint: copy_text("Enter saves · Esc cancels"),
                    prompt: copy_text("Label (empty to remove): "),
                    value: match label {
                        Some(s) => s,
                        None => copy_text(""),
                    },
                },
            )
        },
        None => Err(copy_text("No tree item selected for label editing.")),
    }
}

/// The dialog that says how a branch is to be summarized.
pub fn summary_instructions_dialog() -> (r: Dialog)
    ensures
        r@ == (DialogView {
            title: "Custom summarization instructions"@,
            subtitle: ""@,
            message_lines: Seq::empty(),
            hint: "Enter navigates · Esc cancels"@,
            prompt: "Instructions: "@,
            value: ""@,
        }),
{
    let message_lines: Vec<String> = Vec::new();
    Dialog {
        title: copy_text("Custom summarization instructions"),
        subtitle: copy_text(""),
        message_lines,
        hint: copy_text("Enter navigates · Esc cancels"),
        prompt: copy_text("Instructions: "),
        value: copy_text(""),
    }
}

/// The overlay of a dialog.
pub open spec fn dialog_overlay(dialog: DialogView, width: nat) -> Seq<PieceView> {
    pieces::banner(dialog.title, dialog.subtitle, width) + seq![PieceView::Blank] + (
    if dialog.message_lines.len() > 0 {
        seq![PieceView::Flow(text::join(dialog.message_lines, "\n"@)), PieceView::Blank]
    } else {
        Seq::empty()
    }) + seq![
        PieceView::Field(true),
        PieceView::Blank,
        PieceView::Flow(screen::hint(dialog.hint)),
    ]
}

/// The overlay of a dialog.
pub fn render_dialog_overlay(dialog: &Dialog, width: u16) -> (r: Vec<Piece>)
    ensures
        pieces::views(r@) == dialog_overlay(dialog@, width as nat),
{
    let mut out: Vec<Piece> = Vec::new();
    append_overlay_banner(&mut out, dialog.title.as_str(), dialog.subtitle.as_str(), width);
    out.push(Piece::Blank);
    assert(text::texts(dialog.message_lines@).len() == dialog.message_lines@.len());
    if dialog.message_lines.len() > 0 {
        out.push(Piece::Flow(join_texts(dialog.message_lines.as_slice(), "\n")));
        out.push(Piece::Blank);
    }
    out.push(Piece::Field(true));
    out.push(Piece::Blank);
    out.push(Piece::Flow(style_hint(dialog.hint.as_str())));
    assert(pieces::views(out@) =~= dialog_overlay(dialog@, width as nat));
    out
}

/// What is to be done once a dialog has been answered.
#[derive(Clone, Debug, PartialEq, Eq)]
pub enum DialogAction {
    /// The dialog stays.
    Stay,
    /// Back to the overlay from which the dialog was opened.
    Back,
    /// The session gets a name.
    Rename(String),
    /// The entry gets a label, or loses it.
    Label(Option<String>),
    /// The session goes on from the entry, with a summary made by these instructions.
    Navigate(String),
}

/// What is to be done, as a mathematical value.
pub enum DialogActionView {
    Stay,
    Back,
    Rename(Seq<char>),
    Label(Option<Seq<char>>),
    Navigate(Seq<char>),
}

impl View for DialogAction {
    type V = DialogActionView;

    open spec fn view(&self) -> DialogActionView {
        match self {
            DialogAction::Stay => DialogActionView::Stay,
            DialogAction::Back => DialogActionView::Back,
            DialogAction::Rename(s) => DialogActionView::Rename(s@),
            DialogAction::Label(label) => DialogActionView::Label(text::opt_text(*label)),
            DialogAction::Navigate(s) => DialogActionView::Navigate(s@),
        }
    }
}

/// What is to be done once a dialog has been answered, and what is said. A blank name leaves the
/// session as it is, and a blank label removes the label.
pub open spec fn dialog_answer(kind: DialogKind, reply: FieldReply) -> (DialogActionView, StatusView) {
    match reply {
        FieldReply::Changed | FieldReply::Nothing => (DialogActionView::Stay, StatusView::Keep),
        FieldReply::Cancelled => (
            DialogActionView::Back,
            if kind == DialogKind::RenameSession {
                StatusView::Say("Dialog cancelled."@)
            } else {
                StatusView::Clear
            },
        ),
        FieldReply::Submitted(value) => {
            let entered = text::trim(value@);
            match kind {
                DialogKind::RenameSession => if entered.len() > 0 {
                    (
                        DialogActionView::Rename(entered),
                        StatusView::Say("Renamed session to "@ + entered + "."@),
                    )
                } else {
                    (DialogActionView::Back, StatusView::Say("Session name unchanged."@))
                },
                DialogKind::EditTreeLabel => (
                    DialogActionView::Label(
                        if entered.len() > 0 {
                            Some(entered)
                        } else {
                            None
                        },
                    ),
                    StatusView::Clear,
                ),
                DialogKind::TreeSummaryCustomPrompt => (
                    DialogActionView::Navigate(value@),
                    StatusView::Keep,
                ),
            }
        },
    }
}

/// What is to be done once a dialog has been answered, and what is said.
pub fn answer_dialog(kind: DialogKind, reply: FieldReply) -> (r: (DialogAction, Status))
    ensures
        (r.0@, r.1@) == dialog_answer(kind, reply),
{
    match reply {
        FieldReply::Changed | FieldReply::Nothing => (DialogAction::Stay, Status::Keep),
        FieldReply::Cancelled => {
            let status = match kind {
                DialogKind::EditTreeLabel | DialogKind::TreeSummaryCustomPrompt => Status::Clear,
                DialogKind::RenameSession => say("Dialog cancelled."),
            };
            (DialogAction::Back, status)
        },
        FieldReply::Submitted(value) => {
            let entered = trimmed(value.as_str());
            match kind {
                DialogKind::RenameSession => if entered.as_str().is_empty() {
                    (DialogAction::Back, say("Session name unchanged."))
                } else {
                    let message = cat3("Renamed session to ", entered.as_str(), ".");
                    (DialogAction::Rename(entered), Status::Say(message))
                },
                DialogKind::EditTreeLabel => if entered.as_str().is_empty() {
                    (DialogAction::Label(None), Status::Clear)
                } else {
                    (DialogAction::Label(Some(entered)), Status::Clear)
                },
                DialogKind::TreeSummaryCustomPrompt => (
                    DialogAction::Navigate(value),
                    Status::Keep,
                ),
            }
        },
    }
}

/// What is said of what becomes of a key press during a login.
pub fn auth_status(action: &AuthAction) -> (r: Status)
    ensures
        r@ == (match *action {
            AuthAction::CancelLogin => StatusView::Say("Cancelling login..."@),
            _ => StatusView::Keep,
        }),
{
    match action {
        AuthAction::CancelLogin => say("Cancelling login..."),
        _ => Status::Keep,
    }
}

/// What is entered as a name becomes the name, without the white space around it; an empty name
/// changes nothing.
pub proof fn entered_names_are_taken(value: String)
    ensures
        text::trim(value@).len() > 0 ==> dialog_answer(
            DialogKind::RenameSession,
            FieldReply::Submitted(value),
        ).0 == DialogActionView::Rename(text::trim(value@)),
        text::trim(value@).len() == 0 ==> dialog_answer(
            DialogKind::RenameSession,
            FieldReply::Submitted(value),
        ).0 == DialogActionView::Back,
        text::trim(value@).len() > 0 ==> dialog_answer(
            DialogKind::EditTreeLabel,
            FieldReply::Submitted(value),
        ).0 == DialogActionView::Label(Some(text::trim(value@))),
        text::trim(value@).len() == 0 ==> dialog_answer(
            DialogKind::EditTreeLabel,
            FieldReply::Submitted(value),
        ).0 == DialogActionView::Label(None),
        dialog_answer(DialogKind::TreeSummaryCustomPrompt, FieldReply::Submitted(value)).0
            == DialogActionView::Navigate(value@),
{
}

/// A dialog that is cancelled changes nothing, and one that is being typed into stays.
pub proof fn cancelled_dialogs_change_nothing(kind: DialogKind)
    ensures
        dialog_answer(kind, FieldReply::Cancelled).0 == DialogActionView::Back,
        dialog_answer(kind, FieldReply::Changed).0 == DialogActionView::Stay,
        dialog_answer(kind, FieldReply::Nothing).0 == DialogActionView::Stay,
{
}

/// The label that is offered is that of the entry that was asked for.
pub proof fn labels_are_found(
    selections: Seq<SelectionView>,
    k: int,
    id: Seq<char>,
    label: Option<Seq<char>>,
)
    requires
        0 <= k < selections.len(),
        selections[k] == (SelectionView::Tree { tree_entry_id: id, label }),
        forall|i: int|
            0 <= i < k ==> !(#[trigger] selections[i] matches SelectionView::Tree {
                tree_entry_id,
                ..
            } && tree_entry_id == id),
    ensures
        label_of(selections, id) == Some(label),
    decreases selections.len(),
{
    if k > 0 {
        assert(!(selections[0] matches SelectionView::Tree { tree_entry_id, .. } && tree_entry_id
            == id));
        let rest = selections.skip(1);
        assert(rest[k - 1] == selections[k]);
        assert forall|i: int| 0 <= i < k - 1 implies !(
        #[trigger] rest[i] matches SelectionView::Tree { tree_entry_id, .. } && tree_entry_id
            == id) by {
            assert(rest[i] == selections[i + 1]);
        }
        labels_are_found(rest, k - 1, id, label);
    }
}

/// The progress of a login is added at the end unless it stands there already; what was said
/// before stays.
pub proof fn progress_is_added(lines: Seq<Seq<char>>, message: Seq<char>, i: int)
    ensures
        with_progress(lines, message).last() == message,
        0 <= i < lines.len() ==> with_progress(lines, message)[i] == lines[i],
        lines.len() == 0 || lines.last() != message ==> with_progress(lines, message).len()
            == lines.len() + 1,
        with_progress(with_progress(lines, message), message) == with_progress(lines, message),
{
}

/// The overlay of a login shows what was said and the field exactly while an answer is awaited; a
/// dialog always shows its field, and what it says above it.
pub proof fn dialogs_show_what_they_say(state: AuthView, dialog: DialogView, width: nat)
    ensures
        state.message_lines.len() > 0 ==> auth_overlay(state, width).contains(
            PieceView::Flow(text::join(state.message_lines, "\n"@)),
        ),
        state.awaiting_input ==> auth_overlay(state, width).contains(PieceView::Field(true)),
        dialog_overlay(dialog, width).contains(PieceView::Field(true)),
        dialog_overlay(dialog, width).contains(PieceView::Flow(screen::hint(dialog.hint))),
        dialog.message_lines.len() > 0 ==> dialog_overlay(dialog, width).contains(
            PieceView::Flow(text::join(dialog.message_lines, "\n"@)),
        ),
{
    let top = pieces::banner(
        "Login to "@ + startup::provider_label(state.provider),
        state.subtitle,
        width,
    );
    let all = auth_overlay(state, width);
    let n = top.len() as int + 1;
    if state.message_lines.len() > 0 {
        assert(all[n] == PieceView::Flow(text::join(state.message_lines, "\n"@)));
        if state.awaiting_input {
            assert(all[n + 2] == PieceView::Field(true));
        }
    } else if state.awaiting_input {
        assert(all[n + 1] == PieceView::Field(true));
    }
    let head = pieces::banner(dialog.title, dialog.subtitle, width);
    let shown = dialog_overlay(dialog, width);
    let m = head.len() as int + 1;
    if dialog.message_lines.len() > 0 {
        assert(shown[m] == PieceView::Flow(text::join(dialog.message_lines, "\n"@)));
        assert(shown[m + 2] == PieceView::Field(true));
        assert(shown[m + 4] == PieceView::Flow(screen::hint(dialog.hint)));
    } else {
        assert(shown[m] == PieceView::Field(true));
        assert(shown[m + 2] == PieceView::Flow(screen::hint(dialog.hint)));
    }
}

} // verus!
