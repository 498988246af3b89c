//! What the overlays have in common: the items that are chosen from, and what a choice stands for.
use vstd::prelude::*;
use crate::keys::{KeyCode, KeyEvent, KeyModifiers};
use crate::text;
use crate::text::{cat3, copy_opt, copy_text, same};

verus! {

/// An item of a list.
#[derive(Clone, Debug, PartialEq, Eq)]
pub struct SelectItem {
    pub value: String,
    pub label: String,
    pub description: Option<String>,
}

/// An item of a list, as a mathematical value.
pub struct ItemView {
    pub value: Seq<char>,
    pub label: Seq<char>,
    pub description: Option<Seq<char>>,
}

impl View for SelectItem {
    type V = ItemView;

    open spec fn view(&self) -> ItemView {
        ItemView {
            value: self.value@,
            label: self.label@,
            description: text::opt_text(self.description),
        }
    }
}

/// Items, as mathematical values.
pub open spec fn items(list: Seq<SelectItem>) -> Seq<ItemView> {
    Seq::new(list.len(), |i: int| list[i]@)
}

/// What a choice stands for.
#[derive(Clone, Debug, PartialEq, Eq)]
pub enum OverlaySelection {
    Model { provider: String, model_id: String },
    Session { path: String },
    Fork { entry_id: String },
    Tree { tree_entry_id: String, label: Option<String> },
    AuthProvider { auth_provider: String },
}

/// What a choice stands for, as a mathematical value.
pub enum SelectionView {
    Model { provider: Seq<char>, model_id: Seq<char> },
    Session { path: Seq<char> },
    Fork { entry_id: Seq<char> },
    Tree { tree_entry_id: Seq<char>, label: Option<Seq<char>> },
    AuthProvider { auth_provider: Seq<char> },
}

impl View for OverlaySelection {
    type V = SelectionView;

    open spec fn view(&self) -> SelectionView {
        match self {
            OverlaySelection::Model { provider, model_id } => SelectionView::Model {
                provider: provider@,
                model_id: model_id@,
            },
            OverlaySelection::Session { path } => SelectionView::Session { path: path@ },
            OverlaySelection::Fork { entry_id } => SelectionView::Fork { entry_id: entry_id@ },
            OverlaySelection::Tree { tree_entry_id, label } => SelectionView::Tree {
                tree_entry_id: tree_entry_id@,
                label: text::opt_text(*label),
            },
            OverlaySelection::AuthProvider { auth_provider } => SelectionView::AuthProvider {
                auth_provider: auth_provider@,
            },
        }
    }
}

/// Choices, as mathematical values.
pub open spec fn selections(list: Seq<OverlaySelection>) -> Seq<SelectionView> {
    Seq::new(list.len(), |i: int| list[i]@)
}

/// The value of the item that stands for a choice.
pub open spec fn value_of(selection: SelectionView) -> Seq<char> {
    match selection {
        SelectionView::Model { provider, model_id } => provider + "/"@ + model_id,
        SelectionView::Session { path } => path,
        SelectionView::Fork { entry_id } => entry_id,
        SelectionView::Tree { tree_entry_id, label } => tree_entry_id,
        SelectionView::AuthProvider { auth_provider } => auth_provider,
    }
}

fn has_value(selection: &OverlaySelection, value: &str) -> (r: bool)
    ensures
        r == (value_of(selection@) == value@),
{
    match selection {
        OverlaySelection::Model { provider, model_id } => same(
            cat3(provider.as_str(), "/", model_id.as_str()).as_str(),
            value,
        ),
        OverlaySelection::Session { path } => same(path.as_str(), value),
        OverlaySelection::Fork { entry_id } => same(entry_id.as_str(), value),
        OverlaySelection::Tree { tree_entry_id, .. } => same(tree_entry_id.as_str(), value),
        OverlaySelection::AuthProvider { auth_provider } => same(auth_provider.as_str(), value),
    }
}

/// A copy of a choice.
pub fn copy_selection(selection: &OverlaySelection) -> (r: OverlaySelection)
    ensures
        r@ == selection@,
{
    match selection {
        OverlaySelection::Model { provider, model_id } => OverlaySelection::Model {
            provider: copy_text(provider.as_str()),
            model_id: copy_text(model_id.as_str()),
        },
        OverlaySelection::Session { path } => OverlaySelection::Session {
            path: copy_text(path.as_str()),
        },
        OverlaySelection::Fork { entry_id } => OverlaySelection::Fork {
            entry_id: copy_text(entry_id.as_str()),
        },
        OverlaySelection::Tree { tree_entry_id, label } => OverlaySelection::Tree {
            tree_entry_id: copy_text(tree_entry_id.as_str()),
            label: copy_opt(label),
        },
        OverlaySelection::AuthProvider { auth_provider } => OverlaySelection::AuthProvider {
            auth_provider: copy_text(auth_provider.as_str()),
        },
    }
}

/// The first choice whose item has a value.
pub open spec fn chosen(list: Seq<SelectionView>, value: Seq<char>) -> Option<SelectionView>
    decreases list.len(),
{
    if list.len() == 0 {
        None
    } else if value_of(list[0]) == value {
        Some(list[0])
    } else {
        chosen(list.skip(1), value)
    }
}

/// An optional choice, as a mathematical value.
pub open spec fn opt_selection(selection: Option<OverlaySelection>) -> Option<SelectionView> {
    match selection {
        Some(s) => Some(s@),
        None => None,
    }
}

/// The first choice whose item has a value.
pub fn find_selection(list: &[OverlaySelection], value: &str) -> (r: Option<OverlaySelection>)
    ensures
        opt_selection(r) == chosen(selections(list@), value@),
{
    let ghost all = selections(list@);
    let mut i: usize = 0;
    assert(all.skip(0) =~= all);
    while i < list.len()
        invariant
            0 <= i <= list.len(),
            all == selections(list@),
            chosen(all.skip(i as int), value@) == chosen(all, value@),
        decreases list.len() - i,
    {
        assert(all.skip(i as int)[0] == list@[i as int]@);
        if has_value(&list[i], value) {
            return Some(copy_selection(&list[i]));
        }
        assert(all.skip(i as int).skip(1) =~= all.skip(i + 1));
        i += 1;
    }
    None
}

/// Which part of a list is shown: from some items above the selected one on, as many as are shown at
/// most.
pub open spec fn visible_bounds(count: nat, selected: nat, max_visible: nat) -> (nat, nat) {
    let half = if max_visible > 0 {
        (max_visible - 1) as nat / 2
    } else {
        0
    };
    let start = if selected >= half {
        (selected - half) as nat
    } else {
        0
    };
    (
        start,
        if start + max_visible < count {
            start + max_visible
        } else {
            count
        },
    )
}

/// Which part of a list is shown.
pub fn select_list_visible_bounds(count: usize, selected_index: usize, max_visible: usize) -> (r: (
    usize,
    usize,
))
    ensures
        (r.0 as nat, r.1 as nat) == visible_bounds(
            count as nat,
            selected_index as nat,
            max_visible as nat,
        ),
{
    let half: usize = if max_visible > 0 {
        (max_visible - 1) / 2
    } else {
        0
    };
    let start: usize = if selected_index >= half {
        selected_index - half
    } else {
        0
    };
    let end: usize = if start < count && max_visible < count - start {
        start + max_visible
    } else {
        count
    };
    (start, end)
}

/// The selected item is among those that are shown.
pub proof fn selected_is_visible(count: nat, selected: nat, max_visible: nat)
    requires
        selected < count,
        max_visible > 0,
    ensures
        ({
            let (start, end) = visible_bounds(count, selected, max_visible);
            &&& start <= selected < end
            &&& end - start <= max_visible
            &&& end <= count
        }),
{
}

/// Whether a key press is a character with the control key.
pub open spec fn is_ctrl(event: KeyEvent, c: char) -> bool {
    event.code@ == crate::keys::CodeView::Char(c) && event.modifiers == KeyModifiers::ctrl_only()
}

/// Whether a key press is a character with the control key.
pub fn matches_ctrl_char(event: &KeyEvent, expected: char) -> (r: bool)
    ensures
        r == is_ctrl(*event, expected),
{
    let same_char = match event.code {
        KeyCode::Char(c) => c == expected,
        _ => false,
    };
    same_char && event.modifiers == KeyModifiers::ctrl_only()
}

/// Whether a key press is a key with the alt key.
pub fn matches_alt_key(event: &KeyEvent, code: &KeyCode) -> (r: bool)
    ensures
        r == (event.code@ == code@ && event.modifiers == KeyModifiers::alt_only()),
{
    event.code.same_as(code) && event.modifiers == KeyModifiers::alt_only()
}

/// Whether a key press is the escape key alone.
pub open spec fn is_plain_escape(event: KeyEvent) -> bool {
    event.code is Escape && event.modifiers == KeyModifiers::none()
}

/// Whether a key press is the escape key alone.
pub fn plain_escape(event: &KeyEvent) -> (r: bool)
    ensures
        r == is_plain_escape(*event),
{
    matches!(event.code, KeyCode::Escape) && event.modifiers == KeyModifiers::none()
}

/// What a list did with a key press.
#[derive(Clone, Debug, PartialEq, Eq)]
pub enum ListReply {
    Nothing,
    Moved,
    Cancelled,
    /// The value of the item that was chosen.
    Selected(String),
}

/// What a field did with a key press.
#[derive(Clone, Debug, PartialEq, Eq)]
pub enum FieldReply {
    Nothing,
    Changed,
    Cancelled,
    /// The text that was entered.
    Submitted(String),
}

/// What becomes of the message in the status line.
#[derive(Clone, Debug, PartialEq, Eq)]
pub enum Status {
    Keep,
    Clear,
    Say(String),
}

/// What becomes of the message in the status line, as a mathematical value.
pub enum StatusView {
    Keep,
    Clear,
    Say(Seq<char>),
}

impl View for Status {
    type V = StatusView;

    open spec fn view(&self) -> StatusView {
        match self {
            Status::Keep => StatusView::Keep,
            Status::Clear => StatusView::Clear,
            Status::Say(s) => StatusView::Say(s@),
        }
    }
}

/// A message for the status line.
pub fn say(s: &str) -> (r: Status)
    ensures
        r@ == StatusView::Say(s@),
{
    Status::Say(copy_text(s))
}

/// Which part of a search overlay a key press goes to.
#[derive(Clone, Copy, Debug, PartialEq, Eq, Structural)]
pub enum KeyTarget {
    Cancel,
    List,
    Field,
}

/// Where a key press goes in an overlay with a list and, where it is visible, a field: control and C
/// cancels, the keys that move and choose go to the list, and the rest to the field.
pub open spec fn search_target(event: KeyEvent, search_visible: bool) -> KeyTarget {
    if is_ctrl(event, 'c') {
        KeyTarget::Cancel
    } else if !search_visible {
        KeyTarget::List
    } else {
        match event.code {
            KeyCode::Up | KeyCode::Down | KeyCode::Left | KeyCode::Right | KeyCode::Home
            | KeyCode::End | KeyCode::Enter | KeyCode::Escape => KeyTarget::List,
            _ => KeyTarget::Field,
        }
    }
}

/// Where a key press goes in an overlay with a list and, where it is visible, a field.
pub fn route_search_key(event: &KeyEvent, search_visible: bool) -> (r: KeyTarget)
    ensures
        r == search_target(*event, search_visible),
{
    if matches_ctrl_char(event, 'c') {
        return KeyTarget::Cancel;
    }
    if !search_visible {
        return KeyTarget::List;
    }
    match event.code {
        KeyCode::Up | KeyCode::Down | KeyCode::Left | KeyCode::Right | KeyCode::Home
        | KeyCode::End | KeyCode::Enter | KeyCode::Escape => KeyTarget::List,
        _ => KeyTarget::Field,
    }
}

/// What came of a key press in a search overlay.
#[derive(Clone, Debug, PartialEq, Eq)]
pub enum SearchOverlayEvent {
    Continue,
    /// The list is to be filtered by what the field holds.
    Filter,
    Cancelled,
    /// The value of the item that was chosen.
    Selected(String),
}

/// What came of a key press, as a mathematical value.
pub enum SearchEventView {
    Continue,
    Filter,
    Cancelled,
    Selected(Seq<char>),
}

impl View for SearchOverlayEvent {
    type V = SearchEventView;

    open spec fn view(&self) -> SearchEventView {
        match self {
            SearchOverlayEvent::Continue => SearchEventView::Continue,
            SearchOverlayEvent::Filter => SearchEventView::Filter,
            SearchOverlayEvent::Cancelled => SearchEventView::Cancelled,
            SearchOverlayEvent::Selected(s) => SearchEventView::Selected(s@),
        }
    }
}

/// What the reply of the list means.
pub open spec fn list_event(reply: ListReply) -> SearchEventView {
    match reply {
        ListReply::Selected(value) => SearchEventView::Selected(value@),
        ListReply::Cancelled => SearchEventView::Cancelled,
        _ => SearchEventView::Continue,
    }
}

/// What the reply of the field means, where an item is selected or none is.
pub open spec fn field_event(reply: FieldReply, selected: Option<Seq<char>>) -> SearchEventView {
    match reply {
        FieldReply::Changed => SearchEventView::Filter,
        FieldReply::Cancelled => SearchEventView::Cancelled,
        FieldReply::Submitted(_) => match selected {
            Some(value) => SearchEventView::Selected(value),
            None => SearchEventView::Continue,
        },
        FieldReply::Nothing => SearchEventView::Continue,
    }
}

/// What the reply of the list means.
pub fn event_of_list(reply: ListReply) -> (r: SearchOverlayEvent)
    ensures
        r@ == list_event(reply),
{
    match reply {
        ListReply::Selected(value) => SearchOverlayEvent::Selected(value),
        ListReply::Cancelled => SearchOverlayEvent::Cancelled,
        ListReply::Nothing | ListReply::Moved => SearchOverlayEvent::Continue,
    }
}

/// What the reply of the field means: a changed text filters the list, and an entered one chooses
/// the selected item.
pub fn event_of_field(reply: FieldReply, selected: Option<&str>) -> (r: SearchOverlayEvent)
    ensures
        r@ == field_event(reply, crate::chrome::opt_str(selected)),
{
    match reply {
        FieldReply::Changed => SearchOverlayEvent::Filter,
        FieldReply::Cancelled => SearchOverlayEvent::Cancelled,
        FieldReply::Submitted(_) => match selected {
            Some(value) => SearchOverlayEvent::Selected(copy_text(value)),
            None => SearchOverlayEvent::Continue,
        },
        FieldReply::Nothing => SearchOverlayEvent::Continue,
    }
}

/// What is chosen is the first thing with the value that was chosen.
pub proof fn choices_are_found(list: Seq<SelectionView>, k: int)
    requires
        0 <= k < list.len(),
        forall|i: int| 0 <= i < k ==> value_of(#[trigger] list[i]) != value_of(list[k]),
    ensures
        chosen(list, value_of(list[k])) == Some(list[k]),
    decreases list.len(),
{
    if k > 0 {
        assert(value_of(list[0]) != value_of(list[k]));
        let rest = list.skip(1);
        assert(rest[k - 1] == list[k]);
        assert forall|i: int| 0 <= i < k - 1 implies value_of(#[trigger] rest[i]) != value_of(
            rest[k - 1],
        ) by {
            assert(rest[i] == list[i + 1]);
        }
        choices_are_found(rest, k - 1);
    }
}

/// A value that nothing has leads to nothing.
pub proof fn strange_values_lead_nowhere(list: Seq<SelectionView>, value: Seq<char>)
    requires
        forall|i: int| 0 <= i < list.len() ==> value_of(#[trigger] list[i]) != value,
    ensures
        chosen(list, value) is None,
    decreases list.len(),
{
    if list.len() > 0 {
        assert(value_of(list[0]) != value);
        let rest = list.skip(1);
        assert forall|i: int| 0 <= i < rest.len() implies value_of(#[trigger] rest[i]) != value by {
            assert(rest[i] == list[i + 1]);
        }
        strange_values_lead_nowhere(rest, value);
    }
}

/// Where there is a field, what is typed goes to it; the keys that move and choose go to the list,
/// and where there is no field all but one go there.
pub proof fn keys_reach_field_or_list(event: KeyEvent, c: char)
    ensures
        event.code == KeyCode::Char(c) && !event.modifiers.ctrl ==> search_target(event, true)
            is Field,
        event.code is Backspace ==> search_target(event, true) is Field,
        event.code is Up || event.code is Down || event.code is Enter || event.code is Escape
            ==> search_target(event, true) is List,
        !is_ctrl(event, 'c') ==> search_target(event, false) is List,
        is_ctrl(event, 'c') ==> search_target(event, true) is Cancel && search_target(event, false)
            is Cancel,
{
}

/// Where the list begins, nothing before the selected entry is hidden that there is room for, and
/// as much is shown as there is room for or as there is.
pub proof fn lists_use_their_room(count: nat, selected: nat, max_visible: nat)
    requires
        selected < count,
        max_visible > 0,
    ensures
        ({
            let (start, end) = visible_bounds(count, selected, max_visible);
            &&& end - start == max_visible || end == count
            &&& selected <= (max_visible - 1) / 2 ==> start == 0
            &&& count <= max_visible && selected <= (max_visible - 1) / 2 ==> start == 0 && end
                == count
        }),
{
}

/// What is typed filters, what is submitted chooses the selected entry, and what is chosen in the
/// list is that.
pub proof fn replies_choose(value: String, typed: String, selected: Option<Seq<char>>)
    ensures
        list_event(ListReply::Selected(value)) == SearchEventView::Selected(value@),
        list_event(ListReply::Cancelled) == SearchEventView::Cancelled,
        list_event(ListReply::Moved) == SearchEventView::Continue,
        field_event(FieldReply::Changed, selected) == SearchEventView::Filter,
        field_event(FieldReply::Cancelled, selected) == SearchEventView::Cancelled,
        selected matches Some(entry) ==> field_event(FieldReply::Submitted(typed), selected)
            == SearchEventView::Selected(entry),
        selected is None ==> field_event(FieldReply::Submitted(typed), selected)
            == SearchEventView::Continue,
{
}

} // verus!
