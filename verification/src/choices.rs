//! What a choice in an overlay leads to.
use vstd::prelude::*;
use crate::chrome;
use crate::keybindings::{AppAction, KeybindingsManager};
use crate::keys::{KeyCode, KeyEvent, KeyModifiers};
use crate::models;
use crate::models::ModelView;
use crate::overlay;
use crate::overlay::{event_of_field, event_of_list, find_selection, say, FieldReply, ItemView, ListReply, OverlaySelection, SearchEventView, SearchOverlayEvent, SelectItem, SelectionView, Status, StatusView};
use crate::screen;
use crate::screen::truncate_to_width;
use crate::startup;
use crate::startup::oauth_provider_label;
use crate::text;
use crate::text::{cat2, cat3, cat4, copy_text, decimal_text, same};
use crate::tree::{SearchOverlayKind, TreeFilterMode};

verus! {

broadcast use crate::text::group_texts;

/// What a choice leads to.
#[derive(Clone, Debug, PartialEq, Eq)]
pub enum Choice {
    /// The overlay stays as it is.
    Stay,
    /// The list is to be filtered by what the field holds.
    Filter,
    /// The texts around the list are to be renewed.
    Renew,
    /// The items are to be made anew.
    Reload,
    /// The overlay closes.
    Close,
    /// The session goes on with a model.
    UseModel { provider: String, model_id: String },
    /// A new session branches off before a message.
    ForkAt(String),
    /// It is asked whether the branch is to be summarized on the way to an entry.
    AskSummary(String),
    /// The session goes on from the entry, with a summary or without one.
    Navigate(bool),
    /// It is asked how the branch is to be summarized.
    AskInstructions,
    /// Back to the tree.
    BackToTree,
    /// A login begins.
    Login(String),
    /// A login ends.
    Logout(String),
}

/// What a choice leads to, as a mathematical value.
pub enum ChoiceView {
    Stay,
    Filter,
    Renew,
    Reload,
    Close,
    UseModel { provider: Seq<char>, model_id: Seq<char> },
    ForkAt(Seq<char>),
    AskSummary(Seq<char>),
    Navigate(bool),
    AskInstructions,
    BackToTree,
    Login(Seq<char>),
    Logout(Seq<char>),
}

impl View for Choice {
    type V = ChoiceView;

    open spec fn view(&self) -> ChoiceView {
        match self {
            Choice::Stay => ChoiceView::Stay,
            Choice::Filter => ChoiceView::Filter,
            Choice::Renew => ChoiceView::Renew,
            Choice::Reload => ChoiceView::Reload,
            Choice::Close => ChoiceView::Close,
            Choice::UseModel { provider, model_id } => ChoiceView::UseModel {
                provider: provider@,
                model_id: model_id@,
            },
            Choice::ForkAt(id) => ChoiceView::ForkAt(id@),
            Choice::AskSummary(id) => ChoiceView::AskSummary(id@),
            Choice::Navigate(summarize) => ChoiceView::Navigate(*summarize),
            Choice::AskInstructions => ChoiceView::AskInstructions,
            Choice::BackToTree => ChoiceView::BackToTree,
            Choice::Login(provider) => ChoiceView::Login(provider@),
            Choice::Logout(provider) => ChoiceView::Logout(provider@),
        }
    }
}

/// Whether a key press shows the tree in the next mode.
pub open spec fn changes_filter(kind: SearchOverlayKind, event: KeyEvent) -> bool {
    kind == SearchOverlayKind::Tree && event.code is Tab && event.modifiers == KeyModifiers::none()
}

/// The mode of the tree, where one is set.
pub open spec fn mode_or_default(mode: Option<TreeFilterMode>) -> TreeFilterMode {
    match mode {
        Some(m) => m,
        None => TreeFilterMode::Default,
    }
}

/// Whether a key press shows the tree in the next mode, and what is said then.
pub fn tree_filter_key(kind: SearchOverlayKind, tree_filter: Option<TreeFilterMode>, event: &KeyEvent) -> (r:
    Option<(TreeFilterMode, String)>)
    ensures
        match r {
            Some((mode, message)) => changes_filter(kind, *event) && mode == mode_or_default(
                tree_filter,
            ).following() && message@ == "Tree filter: "@ + mode.name(),
            None => !changes_filter(kind, *event),
        },
{
    if kind == SearchOverlayKind::Tree && matches!(event.code, KeyCode::Tab) && event.modifiers
        == KeyModifiers::none() {
        let current = match tree_filter {
            Some(mode) => mode,
            None => TreeFilterMode::Default,
        };
        let next = current.next();
        return Some((next, cat2("Tree filter: ", next.label())));
    }
    None
}

/// What the choice of an item leads to.
pub open spec fn selected_choice(
    kind: SearchOverlayKind,
    selections: Seq<SelectionView>,
    leaf: Option<Seq<char>>,
    value: Seq<char>,
) -> (ChoiceView, StatusView) {
    match overlay::chosen(selections, value) {
        Some(SelectionView::Model { provider, model_id }) => (
            ChoiceView::UseModel { provider, model_id },
            StatusView::Keep,
        ),
        Some(SelectionView::Fork { entry_id }) => (ChoiceView::ForkAt(entry_id), StatusView::Keep),
        Some(SelectionView::Tree { tree_entry_id, label }) => if leaf == Some(tree_entry_id) {
            (ChoiceView::Close, StatusView::Say("Already at this point"@))
        } else {
            (ChoiceView::AskSummary(tree_entry_id), StatusView::Keep)
        },
        Some(SelectionView::AuthProvider { auth_provider }) => match kind {
            SearchOverlayKind::OAuthLogin => (ChoiceView::Login(auth_provider), StatusView::Keep),
            SearchOverlayKind::OAuthLogout => (ChoiceView::Logout(auth_provider), StatusView::Keep),
            SearchOverlayKind::Tree => (
                ChoiceView::Close,
                StatusView::Say("Invalid OAuth selection."@),
            ),
        },
        Some(SelectionView::Session { path }) => (
            ChoiceView::Close,
            StatusView::Say("Invalid selection."@),
        ),
        None => (ChoiceView::Close, StatusView::Say("Invalid selection."@)),
    }
}

/// What comes of a key press in a search overlay.
pub open spec fn search_choice(
    kind: SearchOverlayKind,
    selections: Seq<SelectionView>,
    leaf: Option<Seq<char>>,
    event: SearchEventView,
) -> (ChoiceView, StatusView) {
    match event {
        SearchEventView::Continue => (ChoiceView::Stay, StatusView::Keep),
        SearchEventView::Filter => (ChoiceView::Filter, StatusView::Keep),
        SearchEventView::Cancelled => (
            ChoiceView::Close,
            StatusView::Say("Selection cancelled."@),
        ),
        SearchEventView::Selected(value) => selected_choice(kind, selections, leaf, value),
    }
}

fn choose_selected(
    kind: SearchOverlayKind,
    selections: &[OverlaySelection],
    current_leaf: Option<&str>,
    value: &str,
) -> (r: (Choice, Status))
    ensures
        (r.0@, r.1@) == selected_choice(
            kind,
            overlay::selections(selections@),
            chrome::opt_str(current_leaf),
            value@,
        ),
{
    match find_selection(selections, value) {
        Some(OverlaySelection::Model { provider, model_id }) => (
            Choice::UseModel { provider, model_id },
            Status::Keep,
        ),
        Some(OverlaySelection::Fork { entry_id }) => (Choice::ForkAt(entry_id), Status::Keep),
        Some(OverlaySelection::Tree { tree_entry_id, label: _ }) => {
            let at_leaf = match current_leaf {
                Some(leaf) => same(leaf, tree_entry_id.as_str()),
                None => false,
            };
            if at_leaf {
                (Choice::Close, say("Already at this point"))
            } else {
                (Choice::AskSummary(tree_entry_id), Status::Keep)
            }
        },
        Some(OverlaySelection::AuthProvider { auth_provider }) => match kind {
            SearchOverlayKind::OAuthLogin => (Choice::Login(auth_provider), Status::Keep),
            SearchOverlayKind::OAuthLogout => (Choice::Logout(auth_provider), Status::Keep),
            SearchOverlayKind::Tree => (Choice::Close, say("Invalid OAuth selection.")),
        },
        Some(OverlaySelection::Session { path: _ }) => (Choice::Close, say("Invalid selection.")),
        None => (Choice::Close, say("Invalid selection.")),
    }
}

/// What comes of a key press in a search overlay, and what is said.
pub fn search_overlay_choice(
    kind: SearchOverlayKind,
    selections: &[OverlaySelection],
    current_leaf: Option<&str>,
    event: SearchOverlayEvent,
) -> (r: (Choice, Status))
    ensures
        (r.0@, r.1@) == search_choice(
            kind,
            overlay::selections(selections@),
            chrome::opt_str(current_leaf),
            event@,
        ),
{
    match event {
        SearchOverlayEvent::Continue => (Choice::Stay, Status::Keep),
        SearchOverlayEvent::Filter => (Choice::Filter, Status::Keep),
        SearchOverlayEvent::Cancelled => (Choice::Close, say("Selection cancelled.")),
        SearchOverlayEvent::Selected(value) => choose_selected(
            kind,
            selections,
            current_leaf,
            value.as_str(),
        ),
    }
}

/// What is said once the session goes on with a model.
pub fn model_status(provider: &str, model_id: &str) -> (r: String)
    ensures
        r@ == "Switched to "@ + provider@ + "/"@ + model_id@,
{
    cat4("Switched to ", provider, "/", model_id)
}

/// What is said once a login has ended.
pub open spec fn logged_out(provider: Seq<char>, removed: bool) -> Seq<char> {
    if removed {
        "Logged out of "@ + startup::provider_label(provider)
    } else {
        startup::provider_label(provider) + " was already logged out."@
    }
}

/// What is said once a login has ended.
pub fn logout_status(provider: &str, removed: bool) -> (r: String)
    ensures
        r@ == logged_out(provider@, removed),
{
    if removed {
        cat2("Logged out of ", oauth_provider_label(provider))
    } else {
        cat2(oauth_provider_label(provider), " was already logged out.")
    }
}

/// Which part of the overlay of models a key press goes to.
#[derive(Clone, Copy, Debug, PartialEq, Eq, Structural)]
pub enum ModelTarget {
    ToggleScope,
    List,
    Field,
}

/// Which part of the overlay of models a key press goes to: tab changes the scope, the arrows, enter
/// and escape go to the list, and the rest to the field.
pub fn model_overlay_key(event: &KeyEvent) -> (r: ModelTarget)
    ensures
        r == (if event.code is Tab && event.modifiers == KeyModifiers::none() {
            ModelTarget::ToggleScope
        } else if event.code is Up || event.code is Down || event.code is Enter
            || event.code is Escape {
            ModelTarget::List
        } else {
            ModelTarget::Field
        }),
{
    if matches!(event.code, KeyCode::Tab) && event.modifiers == KeyModifiers::none() {
        return ModelTarget::ToggleScope;
    }
    match event.code {
        KeyCode::Up | KeyCode::Down | KeyCode::Enter | KeyCode::Escape => ModelTarget::List,
        _ => ModelTarget::Field,
    }
}

/// What the choice of a model leads to; an item that stands for no model is no choice.
pub open spec fn model_chosen(selections: Seq<SelectionView>, value: Seq<char>) -> (
    ChoiceView,
    StatusView,
) {
    match overlay::chosen(models_only(selections), value) {
        Some(SelectionView::Model { provider, model_id }) => (
            ChoiceView::UseModel { provider, model_id },
            StatusView::Keep,
        ),
        _ => (ChoiceView::Close, StatusView::Say("Invalid selection."@)),
    }
}

/// The choices that stand for models.
pub open spec fn models_only(selections: Seq<SelectionView>) -> Seq<SelectionView>
    decreases selections.len(),
{
    if selections.len() == 0 {
        Seq::empty()
    } else if selections[0] is Model {
        seq![selections[0]] + models_only(selections.skip(1))
    } else {
        models_only(selections.skip(1))
    }
}

/// The choices that stand for messages to branch off at.
pub open spec fn forks_only(selections: Seq<SelectionView>) -> Seq<SelectionView>
    decreases selections.len(),
{
    if selections.len() == 0 {
        Seq::empty()
    } else if selections[0] is Fork {
        seq![selections[0]] + forks_only(selections.skip(1))
    } else {
        forks_only(selections.skip(1))
    }
}

fn choose_model(selections: &[OverlaySelection], value: &str) -> (r: (Choice, Status))
    ensures
        (r.0@, r.1@) == model_chosen(overlay::selections(selections@), value@),
{
    let ghost all = overlay::selections(selections@);
    let mut i: usize = 0;
    assert(all.skip(0) =~= all);
    while i < selections.len()
        invariant
            0 <= i <= selections.len(),
            all == overlay::selections(selections@),
            overlay::chosen(models_only(all.skip(i as int)), value@) == overlay::chosen(
                models_only(all),
                value@,
            ),
        decreases selections.len() - i,
    {
        let ghost rest = all.skip(i as int);
        assert(rest[0] == selections@[i as int]@);
        assert(rest.skip(1) =~= all.skip(i + 1));
        proof {
            let later = models_only(rest.skip(1));
            let here = seq![rest[0]] + later;
            assert(here[0] == rest[0]);
            assert(here.skip(1) =~= later);
        }
        match &selections[i] {
            OverlaySelection::Model { provider, model_id } => {
                if same(cat3(provider.as_str(), "/", model_id.as_str()).as_str(), value) {
                    return (
                        Choice::UseModel {
                            provider: copy_text(provider.as_str()),
                            model_id: copy_text(model_id.as_str()),
                        },
                        Status::Keep,
                    );
                }
            },
            _ => {},
        }
        i += 1;
    }
    (Choice::Close, say("Invalid selection."))
}

/// What the reply of the list or the field asks for in the overlay of models.
pub open spec fn model_choice(selections: Seq<SelectionView>, event: SearchEventView, renew: bool) -> (
    ChoiceView,
    StatusView,
) {
    match event {
        SearchEventView::Continue => (
            if renew {
                ChoiceView::Renew
            } else {
                ChoiceView::Stay
            },
            StatusView::Keep,
        ),
        SearchEventView::Filter => (ChoiceView::Reload, StatusView::Keep),
        SearchEventView::Cancelled => (
            ChoiceView::Close,
            StatusView::Say("Selection cancelled."@),
        ),
        SearchEventView::Selected(value) => model_chosen(selections, value),
    }
}

fn model_event(selections: &[OverlaySelection], event: SearchOverlayEvent, renew: bool) -> (r: (
    Choice,
    Status,
))
    ensures
        (r.0@, r.1@) == model_choice(overlay::selections(selections@), event@, renew),
{
    match event {
        SearchOverlayEvent::Continue => if renew {
            (Choice::Renew, Status::Keep)
        } else {
            (Choice::Stay, Status::Keep)
        },
        SearchOverlayEvent::Filter => (Choice::Reload, Status::Keep),
        SearchOverlayEvent::Cancelled => (Choice::Close, say("Selection cancelled.")),
        SearchOverlayEvent::Selected(value) => choose_model(selections, value.as_str()),
    }
}

/// What the reply of the list asks for in the overlay of models.
pub fn model_list_reply(selections: &[OverlaySelection], reply: ListReply) -> (r: (Choice, Status))
    ensures
        (r.0@, r.1@) == model_choice(
            overlay::selections(selections@),
            overlay::list_event(reply),
            reply is Moved,
        ),
{
    let renew = matches!(reply, ListReply::Moved);
    model_event(selections, event_of_list(reply), renew)
}

/// What the reply of the field asks for in the overlay of models.
pub fn model_field_reply(
    selections: &[OverlaySelection],
    reply: FieldReply,
    selected_value: Option<&str>,
) -> (r: (Choice, Status))
    ensures
        (r.0@, r.1@) == model_choice(
            overlay::selections(selections@),
            overlay::field_event(reply, chrome::opt_str(selected_value)),
            false,
        ),
{
    model_event(selections, event_of_field(reply, selected_value), false)
}

/// What the reply of the list of messages asks for.
pub open spec fn fork_choice(selections: Seq<SelectionView>, reply: ListReply) -> (
    ChoiceView,
    StatusView,
) {
    match reply {
        ListReply::Cancelled => (ChoiceView::Close, StatusView::Say("Fork cancelled."@)),
        ListReply::Selected(value) => match overlay::chosen(forks_only(selections), value@) {
            Some(SelectionView::Fork { entry_id }) => (
                ChoiceView::ForkAt(entry_id),
                StatusView::Keep,
            ),
            _ => (ChoiceView::Close, StatusView::Say("Invalid selection."@)),
        },
        _ => (ChoiceView::Stay, StatusView::Keep),
    }
}

fn choose_fork(selections: &[OverlaySelection], value: &str) -> (r: (Choice, Status))
    ensures
        (r.0@, r.1@) == (match overlay::chosen(
            forks_only(overlay::selections(selections@)),
            value@,
        ) {
            Some(SelectionView::Fork { entry_id }) => (
                ChoiceView::ForkAt(entry_id),
                StatusView::Keep,
            ),
            _ => (ChoiceView::Close, StatusView::Say("Invalid selection."@)),
        }),
{
    let ghost all = overlay::selections(selections@);
    let mut i: usize = 0;
    assert(all.skip(0) =~= all);
    while i < selections.len()
        invariant
            0 <= i <= selections.len(),
            all == overlay::selections(selections@),
            overlay::chosen(forks_only(all.skip(i as int)), value@) == overlay::chosen(
                forks_only(all),
                value@,
            ),
        decreases selections.len() - i,
    {
        let ghost rest = all.skip(i as int);
        assert(rest[0] == selections@[i as int]@);
        assert(rest.skip(1) =~= all.skip(i + 1));
        proof {
            let later = forks_only(rest.skip(1));
            let here = seq![rest[0]] + later;
            assert(here[0] == rest[0]);
            assert(here.skip(1) =~= later);
        }
        match &selections[i] {
            OverlaySelection::Fork { entry_id } => {
                if same(entry_id.as_str(), value) {
                    return (Choice::ForkAt(copy_text(entry_id.as_str())), Status::Keep);
                }
            },
            _ => {},
        }
        i += 1;
    }
    (Choice::Close, say("Invalid selection."))
}

/// What the reply of the list of messages asks for, and what is said.
pub fn fork_list_reply(selections: &[OverlaySelection], reply: ListReply) -> (r: (Choice, Status))
    ensures
        (r.0@, r.1@) == fork_choice(overlay::selections(selections@), reply),
{
    match reply {
        ListReply::Moved | ListReply::Nothing => (Choice::Stay, Status::Keep),
        ListReply::Cancelled => (Choice::Close, say("Fork cancelled.")),
        ListReply::Selected(value) => choose_fork(selections, value.as_str()),
    }
}

/// What the answer to the question for a summary leads to.
pub open spec fn summary_choice(reply: ListReply) -> (ChoiceView, StatusView) {
    match reply {
        ListReply::Cancelled => (ChoiceView::BackToTree, StatusView::Say("Navigation cancelled"@)),
        ListReply::Selected(value) => if value@ == "no-summary"@ {
            (ChoiceView::Navigate(false), StatusView::Keep)
        } else if value@ == "summarize"@ {
            (ChoiceView::Navigate(true), StatusView::Keep)
        } else if value@ == "summarize-custom"@ {
            (ChoiceView::AskInstructions, StatusView::Keep)
        } else {
            (ChoiceView::Close, StatusView::Say("Invalid selection"@))
        },
        _ => (ChoiceView::Stay, StatusView::Keep),
    }
}

/// What the answer to the question for a summary leads to, and what is said.
pub fn tree_summary_reply(reply: ListReply) -> (r: (Choice, Status))
    ensures
        (r.0@, r.1@) == summary_choice(reply),
{
    match reply {
        ListReply::Moved | ListReply::Nothing => (Choice::Stay, Status::Keep),
        ListReply::Cancelled => (Choice::BackToTree, say("Navigation cancelled")),
        ListReply::Selected(value) => {
            if same(value.as_str(), "no-summary") {
                (Choice::Navigate(false), Status::Keep)
            } else if same(value.as_str(), "summarize") {
                (Choice::Navigate(true), Status::Keep)
            } else if same(value.as_str(), "summarize-custom") {
                (Choice::AskInstructions, Status::Keep)
            } else {
                (Choice::Close, say("Invalid selection"))
            }
        },
    }
}

/// An item without a description.
pub open spec fn bare_item(value: Seq<char>, label: Seq<char>) -> ItemView {
    ItemView { value, label, description: None }
}

/// The answers to the question for a summary.
pub open spec fn summary_items() -> Seq<ItemView> {
    seq![
        bare_item("no-summary"@, "  No summary"@),
        bare_item("summarize"@, "  Summarize"@),
        bare_item("summarize-custom"@, "  Summarize with custom prompt"@),
    ]
}

fn bare(value: &str, label: &str) -> (r: SelectItem)
    ensures
        r@ == bare_item(value@, label@),
{
    SelectItem { value: copy_text(value), label: copy_text(label), description: None }
}

/// The answers to the question for a summary.
pub fn tree_summary_items() -> (r: Vec<SelectItem>)
    ensures
        overlay::items(r@) == summary_items(),
{
    let mut items: Vec<SelectItem> = Vec::new();
    items.push(bare("no-summary", "  No summary"));
    items.push(bare("summarize", "  Summarize"));
    items.push(bare("summarize-custom", "  Summarize with custom prompt"));
    assert(overlay::items(items@) =~= summary_items());
    items
}

/// Each answer to the question for a summary leads somewhere.
pub proof fn summary_answers_are_understood(value: String)
    requires
        exists|i: int| 0 <= i < summary_items().len() && #[trigger] summary_items()[i].value == value@,
    ensures
        summary_choice(ListReply::Selected(value)).0 != ChoiceView::Close,
{
    let items = summary_items();
    assert(items[0].value == "no-summary"@);
    assert(items[1].value == "summarize"@);
    assert(items[2].value == "summarize-custom"@);
}

/// A message that a session can branch off at: where it stands, and how it begins.
#[derive(Clone, Debug, PartialEq, Eq)]
pub struct ForkMessage {
    pub entry_id: String,
    pub index: u64,
    pub preview: String,
}

/// A message as an item of the list.
pub open spec fn fork_item(message: ForkMessage) -> ItemView {
    ItemView {
        value: message.entry_id@,
        label: screen::cut(message.preview@, 72),
        description: Some(
            "Message "@ + text::decimal(
                if message.index < u64::MAX {
                    (message.index + 1) as nat
                } else {
                    message.index as nat
                },
            ),
        ),
    }
}

/// Messages as items of the list.
pub open spec fn fork_items(messages: Seq<ForkMessage>) -> Seq<ItemView> {
    Seq::new(messages.len(), |i: int| fork_item(messages[i]))
}

/// What the choice of each message stands for.
pub open spec fn fork_selections(messages: Seq<ForkMessage>) -> Seq<SelectionView> {
    Seq::new(messages.len(), |i: int| SelectionView::Fork { entry_id: messages[i].entry_id@ })
}

/// The messages that a session can branch off at as items of the list, and what the choice of each
/// stands for.
pub fn build_fork_overlay_items(messages: &[ForkMessage]) -> (r: (
    Vec<SelectItem>,
    Vec<OverlaySelection>,
))
    ensures
        overlay::items(r.0@) == fork_items(messages@),
        overlay::selections(r.1@) == fork_selections(messages@),
{
    let ghost shown = fork_items(messages@);
    let ghost meant = fork_selections(messages@);
    let mut items: Vec<SelectItem> = Vec::new();
    let mut selections: Vec<OverlaySelection> = Vec::new();
    let mut i: usize = 0;
    assert(overlay::items(items@) =~= shown.take(0));
    assert(overlay::selections(selections@) =~= meant.take(0));
    while i < messages.len()
        invariant
            0 <= i <= messages.len(),
            shown == fork_items(messages@),
            meant == fork_selections(messages@),
            overlay::items(items@) == shown.take(i as int),
            overlay::selections(selections@) == meant.take(i as int),
        decreases messages.len() - i,
    {
        let m = &messages[i];
        let number: u64 = if m.index < u64::MAX {
            m.index + 1
        } else {
            m.index
        };
        let item = SelectItem {
            value: copy_text(m.entry_id.as_str()),
            label: truncate_to_width(m.preview.as_str(), 72),
            description: Some(cat2("Message ", decimal_text(number).as_str())),
        };
        assert(item@ == shown[i as int]);
        let ghost items_before = items@;
        let ghost selections_before = selections@;
        items.push(item);
        selections.push(OverlaySelection::Fork { entry_id: copy_text(m.entry_id.as_str()) });
        i += 1;
        assert(overlay::items(items@) =~= overlay::items(items_before).push(shown[i - 1]));
        assert(overlay::items(items@) =~= shown.take(i as int));
        assert(overlay::selections(selections@) =~= overlay::selections(selections_before).push(
            meant[i - 1],
        ));
        assert(overlay::selections(selections@) =~= meant.take(i as int));
    }
    assert(shown.take(i as int) =~= shown);
    assert(meant.take(i as int) =~= meant);
    (items, selections)
}

/// Whether a login or a logout is chosen.
#[derive(Clone, Copy, Debug, PartialEq, Eq, Structural)]
pub enum AuthFlowMode {
    Login,
    Logout,
}

/// A provider of logins: whether there is a login, and whether it counts.
#[derive(Clone, Debug, PartialEq, Eq)]
pub struct LoginProvider {
    pub provider: String,
    pub logged_in: bool,
    pub authenticated: bool,
}

/// A provider as an item of the list.
pub open spec fn provider_item(p: LoginProvider) -> ItemView {
    bare_item(
        p.provider@,
        startup::provider_label(p.provider@) + (if p.authenticated {
            " ✓ logged in"@
        } else {
            ""@
        }),
    )
}

/// Providers as items of the list.
pub open spec fn provider_items(providers: Seq<LoginProvider>) -> Seq<ItemView> {
    Seq::new(providers.len(), |i: int| provider_item(providers[i]))
}

/// What the choice of each provider stands for.
pub open spec fn provider_selections(providers: Seq<LoginProvider>) -> Seq<SelectionView> {
    Seq::new(
        providers.len(),
        |i: int| SelectionView::AuthProvider { auth_provider: providers[i].provider@ },
    )
}

/// Why there is nothing to choose from.
pub open spec fn no_providers(mode: AuthFlowMode, providers: Seq<LoginProvider>) -> Option<Seq<char>> {
    if mode == AuthFlowMode::Logout && forall|i: int|
        0 <= i < providers.len() ==> !(#[trigger] providers[i]).logged_in {
        Some("No OAuth providers logged in. Use /login first."@)
    } else if providers.len() == 0 {
        Some("No OAuth providers are registered."@)
    } else {
        None
    }
}

fn any_logged_in(providers: &[LoginProvider]) -> (r: bool)
    ensures
        r == !(forall|i: int| 0 <= i < providers@.len() ==> !(#[trigger] providers@[i]).logged_in),
{
    let mut i: usize = 0;
    while i < providers.len()
        invariant
            0 <= i <= providers.len(),
            forall|j: int| 0 <= j < i ==> !(#[trigger] providers@[j]).logged_in,
        decreases providers.len() - i,
    {
        if providers[i].logged_in {
            assert(providers@[i as int].logged_in);
            return true;
        }
        i += 1;
    }
    false
}

/// The providers of logins as items of the list, and what the choice of each stands for; or why there
/// is nothing to choose from.
pub fn build_oauth_items(mode: AuthFlowMode, providers: &[LoginProvider]) -> (r: Result<
    (Vec<SelectItem>, Vec<OverlaySelection>),
    String,
>)
    ensures
        match (r, no_providers(mode, providers@)) {
            (Err(message), Some(reason)) => message@ == reason,
            (Ok((items, selections)), None) => overlay::items(items@) == provider_items(providers@)
                && overlay::selections(selections@) == provider_selections(providers@),
            _ => false,
        },
{
    if mode == AuthFlowMode::Logout && !any_logged_in(providers) {
        return Err(copy_text("No OAuth providers logged in. Use /login first."));
    }
    if providers.len() == 0 {
        return Err(copy_text("No OAuth providers are registered."));
    }
    let ghost shown = provider_items(providers@);
    let ghost meant = provider_selections(providers@);
    let mut items: Vec<SelectItem> = Vec::new();
    let mut selections: Vec<OverlaySelection> = Vec::new();
    let mut i: usize = 0;
    assert(overlay::items(items@) =~= shown.take(0));
    assert(overlay::selections(selections@) =~= meant.take(0));
    while i < providers.len()
        invariant
            0 <= i <= providers.len(),
            shown == provider_items(providers@),
            meant == provider_selections(providers@),
            overlay::items(items@) == shown.take(i as int),
            overlay::selections(selections@) == meant.take(i as int),
        decreases providers.len() - i,
    {
        let p = &providers[i];
        let label = cat2(
            oauth_provider_label(p.provider.as_str()),
            if p.authenticated {
                " ✓ logged in"
            } else {
                ""
            },
        );
        let item = bare(p.provider.as_str(), label.as_str());
        assert(item@ == shown[i as int]);
        let ghost items_before = items@;
        let ghost selections_before = selections@;
        items.push(item);
        selections.push(
            OverlaySelection::AuthProvider { auth_provider: copy_text(p.provider.as_str()) },
        );
        i += 1;
        assert(overlay::items(items@) =~= overlay::items(items_before).push(shown[i - 1]));
        assert(overlay::items(items@) =~= shown.take(i as int));
        assert(overlay::selections(selections@) =~= overlay::selections(selections_before).push(
            meant[i - 1],
        ));
        assert(overlay::selections(selections@) =~= meant.take(i as int));
    }
    assert(shown.take(i as int) =~= shown);
    assert(meant.take(i as int) =~= meant);
    Ok((items, selections))
}

/// A dialog that a key press opens from an overlay.
#[derive(Clone, Copy, Debug, PartialEq, Eq, Structural)]
pub enum DialogKey {
    Neither,
    RenameSession,
    EditTreeLabel,
}

/// Whether a key press opens a dialog: the name of the selected session among the sessions, and the
/// label of the selected entry in the tree.
pub fn overlay_dialog_key(
    keybindings: &KeybindingsManager,
    in_sessions: bool,
    in_tree: bool,
    has_selection: bool,
    event: &KeyEvent,
) -> (r: DialogKey)
    ensures
        r == (if in_sessions && has_selection && keybindings.calls(*event, AppAction::RenameSession) {
            DialogKey::RenameSession
        } else if in_tree && has_selection && keybindings.calls(*event, AppAction::EditTreeLabel) {
            DialogKey::EditTreeLabel
        } else {
            DialogKey::Neither
        }),
{
    if in_sessions && has_selection && keybindings.matches(event, AppAction::RenameSession) {
        return DialogKey::RenameSession;
    }
    if in_tree && has_selection && keybindings.matches(event, AppAction::EditTreeLabel) {
        return DialogKey::EditTreeLabel;
    }
    DialogKey::Neither
}

/// What is said once a session has branched off, from the list of messages or from a search.
pub fn fork_status(from_list: bool) -> (r: &'static str)
    ensures
        r@ == (if from_list {
            "Branched to new session."@
        } else {
            "Branched to new session"@
        }),
{
    if from_list {
        "Branched to new session."
    } else {
        "Branched to new session"
    }
}

/// What is said once another point of the tree has been reached.
pub fn navigation_status() -> (r: &'static str)
    ensures
        r@ == "Navigated to selected point"@,
{
    "Navigated to selected point"
}

proof fn all_are_models(models: Seq<ModelView>)
    ensures
        models_only(models::model_selections(models)) == models::model_selections(models),
    decreases models.len(),
{
    let all = models::model_selections(models);
    if models.len() > 0 {
        all_are_models(models.skip(1));
        assert(models::model_selections(models.skip(1)) =~= all.skip(1));
        assert(seq![all[0]] + all.skip(1) =~= all);
    }
}

/// The model whose entry is chosen is the model that the session goes on with.
pub proof fn chosen_model_is_used(models: Seq<ModelView>, k: int)
    requires
        0 <= k < models.len(),
        forall|i: int| 0 <= i < k ==> models::full_id(#[trigger] models[i]) != models::full_id(
            models[k],
        ),
    ensures
        model_chosen(models::model_selections(models), models::full_id(models[k])).0 == (
        ChoiceView::UseModel { provider: models[k].provider, model_id: models[k].id }),
        model_choice(
            models::model_selections(models),
            SearchEventView::Selected(models::full_id(models[k])),
            false,
        ).0 == (ChoiceView::UseModel { provider: models[k].provider, model_id: models[k].id }),
{
    all_are_models(models);
    let all = models::model_selections(models);
    assert(overlay::value_of(all[k]) == models::full_id(models[k]));
    assert forall|i: int| 0 <= i < k implies overlay::value_of(#[trigger] all[i])
        != overlay::value_of(all[k]) by {
        assert(models::full_id(models[i]) != models::full_id(models[k]));
    }
    overlay::choices_are_found(all, k);
}

proof fn all_are_forks(messages: Seq<ForkMessage>)
    ensures
        forks_only(fork_selections(messages)) == fork_selections(messages),
    decreases messages.len(),
{
    let all = fork_selections(messages);
    if messages.len() > 0 {
        all_are_forks(messages.skip(1));
        assert(fork_selections(messages.skip(1)) =~= all.skip(1));
        assert(seq![all[0]] + all.skip(1) =~= all);
    }
}

/// The message whose entry is chosen is the message before which the new session branches off.
pub proof fn chosen_message_is_forked_at(messages: Seq<ForkMessage>, k: int, value: String)
    requires
        0 <= k < messages.len(),
        value@ == fork_items(messages)[k].value,
        forall|i: int|
            0 <= i < k ==> (#[trigger] messages[i]).entry_id@ != messages[k].entry_id@,
    ensures
        value@ == messages[k].entry_id@,
        fork_choice(fork_selections(messages), ListReply::Selected(value)).0 == ChoiceView::ForkAt(
            messages[k].entry_id@,
        ),
{
    all_are_forks(messages);
    let all = fork_selections(messages);
    assert(fork_items(messages)[k] == fork_item(messages[k]));
    assert(overlay::value_of(all[k]) == messages[k].entry_id@);
    assert forall|i: int| 0 <= i < k implies overlay::value_of(#[trigger] all[i])
        != overlay::value_of(all[k]) by {
        assert(messages[i].entry_id@ != messages[k].entry_id@);
    }
    overlay::choices_are_found(all, k);
}

/// The provider whose entry is chosen is the one that is logged in to, or out of.
pub proof fn chosen_provider_is_meant(
    providers: Seq<LoginProvider>,
    k: int,
    leaf: Option<Seq<char>>,
)
    requires
        0 <= k < providers.len(),
        forall|i: int|
            0 <= i < k ==> (#[trigger] providers[i]).provider@ != providers[k].provider@,
    ensures
        provider_items(providers)[k].value == providers[k].provider@,
        selected_choice(
            SearchOverlayKind::OAuthLogin,
            provider_selections(providers),
            leaf,
            providers[k].provider@,
        ).0 == ChoiceView::Login(providers[k].provider@),
        selected_choice(
            SearchOverlayKind::OAuthLogout,
            provider_selections(providers),
            leaf,
            providers[k].provider@,
        ).0 == ChoiceView::Logout(providers[k].provider@),
{
    let all = provider_selections(providers);
    assert(provider_items(providers)[k] == provider_item(providers[k]));
    assert(overlay::value_of(all[k]) == providers[k].provider@);
    assert forall|i: int| 0 <= i < k implies overlay::value_of(#[trigger] all[i])
        != overlay::value_of(all[k]) by {
        assert(providers[i].provider@ != providers[k].provider@);
    }
    overlay::choices_are_found(all, k);
}

/// The entry that is chosen in the tree is where the session goes on, unless it is there already.
pub proof fn chosen_entry_is_gone_to(
    selections: Seq<SelectionView>,
    k: int,
    id: Seq<char>,
    label: Option<Seq<char>>,
    leaf: Option<Seq<char>>,
)
    requires
        0 <= k < selections.len(),
        selections[k] == (SelectionView::Tree { tree_entry_id: id, label }),
        forall|i: int| 0 <= i < k ==> overlay::value_of(#[trigger] selections[i]) != id,
    ensures
        leaf != Some(id) ==> selected_choice(SearchOverlayKind::Tree, selections, leaf, id).0
            == ChoiceView::AskSummary(id),
        leaf == Some(id) ==> selected_choice(SearchOverlayKind::Tree, selections, leaf, id).0
            == ChoiceView::Close,
{
    overlay::choices_are_found(selections, k);
}

/// The entry of a message shows the beginning of it and its number, counted from one.
pub proof fn fork_items_show_their_message(messages: Seq<ForkMessage>, k: int)
    requires
        0 <= k < messages.len(),
        messages[k].index < u64::MAX,
    ensures
        fork_items(messages).len() == messages.len(),
        fork_selections(messages).len() == messages.len(),
        screen::visible(fork_items(messages)[k].label) == screen::visible(
            messages[k].preview@,
        ).take(
            if screen::visible(messages[k].preview@).len() <= 72 {
                screen::visible(messages[k].preview@).len() as int
            } else {
                72
            },
        ),
        fork_items(messages)[k].description == Some(
            "Message "@ + text::decimal((messages[k].index + 1) as nat),
        ),
{
    assert(fork_items(messages)[k] == fork_item(messages[k]));
    screen::cut_shows_the_beginning(messages[k].preview@, 72);
}

/// There is someone to log out of exactly if someone is logged in, and someone to log in to
/// exactly if there are providers.
pub proof fn providers_are_offered(providers: Seq<LoginProvider>)
    ensures
        no_providers(AuthFlowMode::Login, providers) is None <==> providers.len() > 0,
        no_providers(AuthFlowMode::Logout, providers) is None <==> exists|i: int|
            0 <= i < providers.len() && (#[trigger] providers[i]).logged_in,
{
    if providers.len() == 0 {
        assert(no_providers(AuthFlowMode::Login, providers) is Some);
    }
}

/// A provider that is authenticated is marked as such, by the name that it goes by.
pub proof fn provider_items_say_who_is_known(p: LoginProvider)
    ensures
        provider_item(p).value == p.provider@,
        text::has_prefix(provider_item(p).label, startup::provider_label(p.provider@)),
        !p.authenticated ==> provider_item(p).label == startup::provider_label(p.provider@),
        p.authenticated ==> provider_item(p).label == startup::provider_label(p.provider@)
            + " ✓ logged in"@,
{
    reveal_strlit("");
    let name = startup::provider_label(p.provider@);
    assert(provider_item(p).label.take(name.len() as int) =~= name);
    assert(!p.authenticated ==> provider_item(p).label =~= name);
}

/// What is typed filters the list, a cancelled choice closes it, and a choice is made of what was
/// selected.
pub proof fn searches_end_in_a_choice(
    kind: SearchOverlayKind,
    selections: Seq<SelectionView>,
    leaf: Option<Seq<char>>,
    value: Seq<char>,
)
    ensures
        search_choice(kind, selections, leaf, SearchEventView::Selected(value)) == selected_choice(
            kind,
            selections,
            leaf,
            value,
        ),
        search_choice(kind, selections, leaf, SearchEventView::Filter).0 == ChoiceView::Filter,
        search_choice(kind, selections, leaf, SearchEventView::Cancelled).0 == ChoiceView::Close,
        search_choice(kind, selections, leaf, SearchEventView::Continue).0 == ChoiceView::Stay,
        overlay::chosen(selections, value) is None ==> selected_choice(
            kind,
            selections,
            leaf,
            value,
        ).0 == ChoiceView::Close,
{
}

/// The filter of the tree changes by the tabulator alone, and only there.
pub proof fn tabulator_changes_the_filter(kind: SearchOverlayKind, event: KeyEvent)
    ensures
        changes_filter(SearchOverlayKind::Tree, event) <==> event.code is Tab && event.modifiers
            == KeyModifiers::none(),
        kind != SearchOverlayKind::Tree ==> !changes_filter(kind, event),
        mode_or_default(None) == TreeFilterMode::Default,
{
}

/// Whether a login ended is told with the name of the provider.
pub proof fn logouts_are_told(provider: Seq<char>)
    ensures
        text::has_suffix(logged_out(provider, true), startup::provider_label(provider)),
        text::has_prefix(logged_out(provider, false), startup::provider_label(provider)),
        logged_out(provider, true) != logged_out(provider, false),
{
    let name = startup::provider_label(provider);
    let done = logged_out(provider, true);
    assert(done.skip(done.len() - name.len()) =~= name);
    let before = logged_out(provider, false);
    assert(before.take(name.len() as int) =~= name);
    reveal_strlit("Logged out of ");
    reveal_strlit(" was already logged out.");
    assert(done.len() != before.len());
}

} // verus!
