//! The sessions that can be resumed, and the overlay in which one is chosen.
use vstd::prelude::*;
use crate::chrome;
use crate::keybindings::{AppAction, KeybindingsManager};
use crate::keys::{KeyCode, KeyEvent, KeyModifiers};
use crate::overlay;
use crate::overlay::{matches_ctrl_char, say, FieldReply, ItemView, ListReply, OverlaySelection, SelectItem, SelectionView, Status, StatusView};
use crate::paths;
use crate::paths::same_path;
use crate::screen;
use crate::screen::truncate_to_width;
use crate::text;
use crate::text::{
    begins_with, cat2, cat3, cat4, copy_text, decimal_text, join_texts, replaced_char,
    split_text, strip_prefix, text_words, trimmed,
};
use crate::tools;
use crate::tools::shorten_home_path;
use crate::transcript;
use crate::transcript::capture_groups;

verus! {

broadcast use crate::text::group_texts;

/// A session that can be resumed. How long ago it was changed is given as text.
#[derive(Clone, Debug, PartialEq, Eq)]
pub struct SessionRecord {
    pub path: String,
    pub cwd: String,
    pub name: Option<String>,
    pub preview: String,
    pub message_count: u64,
    pub age: String,
    pub parent_session: Option<String>,
}

/// What is said of the selected session.
pub open spec fn selection_detail(record: SessionRecord, current: bool, home: Option<Seq<char>>) -> Seq<
    char,
> {
    let preview = screen::cut(
        text::trim(text::replace_char(record.preview@, '\n', " "@)),
        96,
    );
    let meta = seq![
        text::decimal(record.message_count as nat) + " msg"@,
        record.age@,
        "cwd "@ + tools::short_path(record.cwd@, home),
    ] + chrome::only_if(current, "current"@);
    let path_line = "session "@ + tools::short_path(record.path@, home) + (
    match record.parent_session {
        Some(parent) => " · parent "@ + tools::short_path(parent@, home),
        None => ""@,
    });
    text::join(seq![preview, text::join(meta, " · "@), screen::cut(path_line, 96)], "\n"@)
}

/// What is said of the selected session: how it begins, how long it is, and where it stands.
pub fn session_selection_detail(record: &SessionRecord, is_current: bool, home: &Option<String>) -> (r:
    String)
    ensures
        r@ == selection_detail(*record, is_current, text::opt_text(*home)),
{
    let preview = truncate_to_width(
        trimmed(replaced_char(record.preview.as_str(), '\n', " ").as_str()).as_str(),
        96,
    );
    let mut meta: Vec<String> = Vec::new();
    meta.push(cat2(decimal_text(record.message_count).as_str(), " msg"));
    meta.push(copy_text(record.age.as_str()));
    meta.push(cat2("cwd ", shorten_home_path(record.cwd.as_str(), home).as_str()));
    if is_current {
        meta.push(copy_text("current"));
    }
    assert(text::texts(meta@) =~= seq![
        text::decimal(record.message_count as nat) + " msg"@,
        record.age@,
        "cwd "@ + tools::short_path(record.cwd@, text::opt_text(*home)),
    ] + chrome::only_if(is_current, "current"@));
    let parent = match &record.parent_session {
        Some(path) => cat2(" · parent ", shorten_home_path(path.as_str(), home).as_str()),
        None => copy_text(""),
    };
    let path_line = cat3(
        "session ",
        shorten_home_path(record.path.as_str(), home).as_str(),
        parent.as_str(),
    );
    let mut lines: Vec<String> = Vec::new();
    lines.push(preview);
    lines.push(join_texts(meta.as_slice(), " · "));
    lines.push(truncate_to_width(path_line.as_str(), 96));
    let ghost shown = text::texts(lines@);
    assert(shown =~= seq![shown[0], shown[1], shown[2]]);
    join_texts(lines.as_slice(), "\n")
}

/// Which sessions are shown.
#[derive(Clone, Copy, Debug, PartialEq, Eq, Structural)]
pub enum SessionNameFilter {
    All,
    Named,
}

impl SessionNameFilter {
    /// The other choice.
    pub open spec fn other(self) -> SessionNameFilter {
        match self {
            SessionNameFilter::All => SessionNameFilter::Named,
            SessionNameFilter::Named => SessionNameFilter::All,
        }
    }

    /// The name of the choice.
    pub open spec fn name(self) -> Seq<char> {
        match self {
            SessionNameFilter::All => "all"@,
            SessionNameFilter::Named => "named"@,
        }
    }

    /// The other choice.
    pub fn toggle(self) -> (r: SessionNameFilter)
        ensures
            r == self.other(),
    {
        match self {
            SessionNameFilter::All => SessionNameFilter::Named,
            SessionNameFilter::Named => SessionNameFilter::All,
        }
    }

    /// The name of the choice.
    pub fn label(self) -> (r: &'static str)
        ensures
            r@ == self.name(),
    {
        match self {
            SessionNameFilter::All => "all",
            SessionNameFilter::Named => "named",
        }
    }
}

/// Whose sessions are listed: those of the current place, or all.
#[derive(Clone, Copy, Debug, PartialEq, Eq, Structural)]
pub enum SessionScope {
    Current,
    All,
}

impl SessionScope {
    /// The other choice.
    pub open spec fn other(self) -> SessionScope {
        match self {
            SessionScope::Current => SessionScope::All,
            SessionScope::All => SessionScope::Current,
        }
    }

    /// The name of the choice.
    pub open spec fn name(self) -> Seq<char> {
        match self {
            SessionScope::Current => "current"@,
            SessionScope::All => "all"@,
        }
    }

    /// The other choice.
    pub fn toggle(self) -> (r: SessionScope)
        ensures
            r == self.other(),
    {
        match self {
            SessionScope::Current => SessionScope::All,
            SessionScope::All => SessionScope::Current,
        }
    }

    /// The name of the choice.
    pub fn label(self) -> (r: &'static str)
        ensures
            r@ == self.name(),
    {
        match self {
            SessionScope::Current => "current",
            SessionScope::All => "all",
        }
    }
}

/// In which order sessions are listed.
#[derive(Clone, Copy, Debug, PartialEq, Eq, Structural)]
pub enum SessionSortMode {
    Threaded,
    Recent,
    Relevance,
}

impl SessionSortMode {
    /// The choice that follows.
    pub open spec fn following(self) -> SessionSortMode {
        match self {
            SessionSortMode::Threaded => SessionSortMode::Recent,
            SessionSortMode::Recent => SessionSortMode::Relevance,
            SessionSortMode::Relevance => SessionSortMode::Threaded,
        }
    }

    /// The name of the choice.
    pub open spec fn name(self) -> Seq<char> {
        match self {
            SessionSortMode::Threaded => "threaded"@,
            SessionSortMode::Recent => "recent"@,
            SessionSortMode::Relevance => "relevance"@,
        }
    }

    /// The choice that follows.
    pub fn next(self) -> (r: SessionSortMode)
        ensures
            r == self.following(),
    {
        match self {
            SessionSortMode::Threaded => SessionSortMode::Recent,
            SessionSortMode::Recent => SessionSortMode::Relevance,
            SessionSortMode::Relevance => SessionSortMode::Threaded,
        }
    }

    /// The name of the choice.
    pub fn label(self) -> (r: &'static str)
        ensures
            r@ == self.name(),
    {
        match self {
            SessionSortMode::Threaded => "threaded",
            SessionSortMode::Recent => "recent",
            SessionSortMode::Relevance => "relevance",
        }
    }
}

/// Two steps lead back to the same scope and to the same filter, and three to the same order.
pub proof fn session_choices_go_round(
    scope: SessionScope,
    filter: SessionNameFilter,
    sort: SessionSortMode,
)
    ensures
        scope.other() != scope,
        scope.other().other() == scope,
        filter.other() != filter,
        filter.other().other() == filter,
        sort.following() != sort,
        sort.following().following() != sort,
        sort.following().following().following() == sort,
{
}

/// Where a session is searched: its name, its beginning and its places.
pub open spec fn searched(record: SessionRecord) -> Seq<char> {
    (match record.name {
        Some(name) => name@ + " "@,
        None => ""@,
    }) + record.preview@ + " "@ + record.cwd@ + " "@ + record.path@
}

/// What a query asks for between its quotation marks: a phrase, or words.
pub open spec fn terms_of(pieces: Seq<Seq<char>>) -> Seq<Seq<char>>
    decreases pieces.len(),
{
    if pieces.len() == 0 {
        Seq::empty()
    } else {
        let before = terms_of(pieces.drop_last());
        let piece = pieces.last();
        if pieces.len() % 2 == 0 {
            before + chrome::only_if(piece.len() > 0, piece)
        } else {
            before + text::words_of(piece)
        }
    }
}

/// Whether a text holds all terms, whatever their case.
pub open spec fn holds_terms(s: Seq<char>, terms: Seq<Seq<char>>) -> bool {
    forall|i: int|
        0 <= i < terms.len() ==> text::contains_text(
            text::lowered(s),
            text::lowered(#[trigger] terms[i]),
        )
}

/// Whether a session answers a query: a regular expression after `re:`, of which `matched` says
/// whether it matches, else words and quoted phrases that all have to occur.
pub open spec fn answers_with(record: SessionRecord, query: Seq<char>, matched: bool) -> bool {
    if text::has_prefix(query, "re:"@) {
        matched
    } else {
        holds_terms(searched(record), terms_of(text::split_on(query, '"')))
    }
}

/// Whether a session answers a query.
pub open spec fn answers(record: SessionRecord, query: Seq<char>) -> bool {
    answers_with(
        record,
        query,
        transcript::regex_groups(query.skip("re:"@.len() as int), searched(record)) is Some,
    )
}

fn search_text(record: &SessionRecord) -> (r: String)
    ensures
        r@ == searched(*record),
{
    let name = match &record.name {
        Some(name) => cat2(name.as_str(), " "),
        None => copy_text(""),
    };
    let start = cat3(name.as_str(), record.preview.as_str(), " ");
    cat4(start.as_str(), record.cwd.as_str(), " ", record.path.as_str())
}

fn query_terms(query: &str) -> (r: Vec<String>)
    ensures
        text::texts(r@) == terms_of(text::split_on(query@, '"')),
{
    let pieces = split_text(query, '"');
    let ghost all = text::texts(pieces@);
    let mut out: Vec<String> = Vec::new();
    let mut i: usize = 0;
    assert(all.take(0) =~= Seq::<Seq<char>>::empty());
    while i < pieces.len()
        invariant
            0 <= i <= pieces.len(),
            all == text::texts(pieces@),
            text::texts(out@) == terms_of(all.take(i as int)),
        decreases pieces.len() - i,
    {
        assert(all.take(i + 1).drop_last() =~= all.take(i as int));
        let ghost before = text::texts(out@);
        if i % 2 == 1 {
            if !pieces[i].as_str().is_empty() {
                out.push(copy_text(pieces[i].as_str()));
            }
        } else {
            let mut words = text_words(pieces[i].as_str());
            out.append(&mut words);
        }
        assert(text::texts(out@) =~= terms_of(all.take(i + 1)));
        i += 1;
    }
    assert(all.take(i as int) =~= all);
    out
}

fn holds_all(s: &str, terms: &[String]) -> (r: bool)
    ensures
        r == holds_terms(s@, text::texts(terms@)),
{
    let lower = s.to_lowercase();
    let mut i: usize = 0;
    while i < terms.len()
        invariant
            0 <= i <= terms.len(),
            lower@ == text::lowered(s@),
            forall|j: int|
                0 <= j < i ==> text::contains_text(
                    text::lowered(s@),
                    text::lowered(#[trigger] text::texts(terms@)[j]),
                ),
        decreases terms.len() - i,
    {
        if !text::contains(lower.as_str(), terms[i].as_str().to_lowercase().as_str()) {
            assert(!text::contains_text(
                text::lowered(s@),
                text::lowered(text::texts(terms@)[i as int]),
            ));
            return false;
        }
        i += 1;
    }
    true
}

/// Whether a session answers a query, where `matched` says whether the regular expression of a
/// query that begins with `re:` matches.
pub fn session_answers_with(record: &SessionRecord, query: &str, matched: bool) -> (r: bool)
    ensures
        r == answers_with(*record, query@, matched),
{
    if begins_with(query, "re:") {
        matched
    } else {
        holds_all(search_text(record).as_str(), query_terms(query).as_slice())
    }
}

/// Whether a session answers a query.
pub fn session_answers_query(record: &SessionRecord, query: &str) -> (r: bool)
    ensures
        r == answers(*record, query@),
{
    let matched = match strip_prefix(query, "re:") {
        Some(pattern) => capture_groups(pattern.as_str(), search_text(record).as_str()).is_some(),
        None => false,
    };
    session_answers_with(record, query, matched)
}

/// Whether a session is shown.
pub open spec fn session_shown(record: SessionRecord, query: Option<Seq<char>>, filter: SessionNameFilter) -> bool {
    (filter == SessionNameFilter::Named ==> record.name is Some) && (match query {
        Some(q) => answers(record, q),
        None => true,
    })
}

/// A session as an item of the list.
pub open spec fn session_item(record: SessionRecord, show_path: bool, current: Option<Seq<char>>) -> ItemView {
    ItemView {
        value: record.path@,
        label: (match record.name {
            Some(name) => name@,
            None => text::trim(text::replace_char(record.preview@, '\n', " "@)),
        }) + (if current is Some && paths::parts_of(current->0) == paths::parts_of(record.path@) {
            " ✓"@
        } else {
            ""@
        }),
        description: Some(
            text::decimal(record.message_count as nat) + " msg · "@ + record.age@ + (if show_path {
                " · "@ + record.path@
            } else {
                ""@
            }),
        ),
    }
}

/// The sessions that are shown.
pub open spec fn sessions_shown(
    records: Seq<SessionRecord>,
    query: Option<Seq<char>>,
    filter: SessionNameFilter,
) -> Seq<SessionRecord>
    decreases records.len(),
{
    if records.len() == 0 {
        Seq::empty()
    } else if session_shown(records.last(), query, filter) {
        sessions_shown(records.drop_last(), query, filter).push(records.last())
    } else {
        sessions_shown(records.drop_last(), query, filter)
    }
}

/// Sessions as items of the list.
pub open spec fn session_items(records: Seq<SessionRecord>, show_path: bool, current: Option<Seq<char>>) -> Seq<
    ItemView,
> {
    Seq::new(records.len(), |i: int| session_item(records[i], show_path, current))
}

/// What the choice of each session stands for.
pub open spec fn session_selections(records: Seq<SessionRecord>) -> Seq<SelectionView> {
    Seq::new(records.len(), |i: int| SelectionView::Session { path: records[i].path@ })
}

fn shows(record: &SessionRecord, query: Option<&str>, filter: SessionNameFilter) -> (r: bool)
    ensures
        r == session_shown(*record, chrome::opt_str(query), filter),
{
    if filter == SessionNameFilter::Named && record.name.is_none() {
        return false;
    }
    match query {
        Some(q) => session_answers_query(record, q),
        None => true,
    }
}

fn item_of(record: &SessionRecord, show_path: bool, current: Option<&str>) -> (r: SelectItem)
    ensures
        r@ == session_item(*record, show_path, chrome::opt_str(current)),
{
    let name = match &record.name {
        Some(name) => copy_text(name.as_str()),
        None => trimmed(replaced_char(record.preview.as_str(), '\n', " ").as_str()),
    };
    let is_current = match current {
        Some(path) => same_path(path, record.path.as_str()),
        None => false,
    };
    let path = if show_path {
        cat2(" · ", record.path.as_str())
    } else {
        copy_text("")
    };
    SelectItem {
        value: copy_text(record.path.as_str()),
        label: cat2(
            name.as_str(),
            if is_current {
                " ✓"
            } else {
                ""
            },
        ),
        description: Some(
            cat4(
                decimal_text(record.message_count).as_str(),
                " msg · ",
                record.age.as_str(),
                path.as_str(),
            ),
        ),
    }
}

/// The sessions that pass the filter and answer the query, in the order they are given, as items of
/// the list, and what the choice of each stands for.
pub fn build_session_overlay_items(
    records: &[SessionRecord],
    query: Option<&str>,
    name_filter: SessionNameFilter,
    show_path: bool,
    current: Option<&str>,
) -> (r: (Vec<SelectItem>, Vec<OverlaySelection>))
    ensures
        overlay::items(r.0@) == session_items(
            sessions_shown(records@, chrome::opt_str(query), name_filter),
            show_path,
            chrome::opt_str(current),
        ),
        overlay::selections(r.1@) == session_selections(
            sessions_shown(records@, chrome::opt_str(query), name_filter),
        ),
{
    let ghost q = chrome::opt_str(query);
    let ghost cur = chrome::opt_str(current);
    let mut items: Vec<SelectItem> = Vec::new();
    let mut selections: Vec<OverlaySelection> = Vec::new();
    let mut i: usize = 0;
    assert(records@.take(0) =~= Seq::<SessionRecord>::empty());
    assert(overlay::items(items@) =~= session_items(Seq::empty(), show_path, cur));
    assert(overlay::selections(selections@) =~= session_selections(Seq::empty()));
    while i < records.len()
        invariant
            0 <= i <= records.len(),
            q == chrome::opt_str(query),
            cur == chrome::opt_str(current),
            overlay::items(items@) == session_items(
                sessions_shown(records@.take(i as int), q, name_filter),
                show_path,
                cur,
            ),
            overlay::selections(selections@) == session_selections(
                sessions_shown(records@.take(i as int), q, name_filter),
            ),
        decreases records.len() - i,
    {
        assert(records@.take(i + 1).drop_last() =~= records@.take(i as int));
        if shows(&records[i], query, name_filter) {
            let ghost kept = sessions_shown(records@.take(i as int), q, name_filter);
            let ghost items_before = items@;
            let ghost selections_before = selections@;
            let item = item_of(&records[i], show_path, current);
            let ghost shown = item@;
            items.push(item);
            let selection = OverlaySelection::Session { path: copy_text(records[i].path.as_str()) };
            let ghost meant = selection@;
            selections.push(selection);
            assert(overlay::items(items@) =~= overlay::items(items_before).push(shown));
            assert(overlay::selections(selections@) =~= overlay::selections(selections_before).push(
                meant,
            ));
            assert(session_items(kept.push(records@[i as int]), show_path, cur) =~= session_items(
                kept,
                show_path,
                cur,
            ).push(shown));
            assert(session_selections(kept.push(records@[i as int])) =~= session_selections(
                kept,
            ).push(meant));
        }
        i += 1;
    }
    assert(records@.take(i as int) =~= records@);
    (items, selections)
}

/// What a key press among the sessions asks for.
#[derive(Clone, Debug, PartialEq, Eq)]
pub enum SessionAction {
    /// Nothing.
    Stay,
    /// The session is not deleted after all.
    KeepSession,
    /// The session is deleted.
    Delete(String),
    /// Whether the session is to be deleted is asked for.
    AskDelete(String),
    /// Other sessions are shown.
    ToggleScope,
    ToggleNamed,
    NextSort,
    TogglePath,
    /// The key press goes to the list.
    ToList,
    /// The key press goes to the field.
    ToField,
    /// The texts around the list are to be renewed.
    Renew,
    /// The sessions are to be read again.
    Reload,
    /// The session is opened.
    Open(String),
    /// The overlay closes.
    Close,
}

/// What a key press asks for, as a mathematical value.
pub enum SessionActionView {
    Stay,
    KeepSession,
    Delete(Seq<char>),
    AskDelete(Seq<char>),
    ToggleScope,
    ToggleNamed,
    NextSort,
    TogglePath,
    ToList,
    ToField,
    Renew,
    Reload,
    Open(Seq<char>),
    Close,
}

impl View for SessionAction {
    type V = SessionActionView;

    open spec fn view(&self) -> SessionActionView {
        match self {
            SessionAction::Stay => SessionActionView::Stay,
            SessionAction::KeepSession => SessionActionView::KeepSession,
            SessionAction::Delete(path) => SessionActionView::Delete(path@),
            SessionAction::AskDelete(path) => SessionActionView::AskDelete(path@),
            SessionAction::ToggleScope => SessionActionView::ToggleScope,
            SessionAction::ToggleNamed => SessionActionView::ToggleNamed,
            SessionAction::NextSort => SessionActionView::NextSort,
            SessionAction::TogglePath => SessionActionView::TogglePath,
            SessionAction::ToList => SessionActionView::ToList,
            SessionAction::ToField => SessionActionView::ToField,
            SessionAction::Renew => SessionActionView::Renew,
            SessionAction::Reload => SessionActionView::Reload,
            SessionAction::Open(path) => SessionActionView::Open(path@),
            SessionAction::Close => SessionActionView::Close,
        }
    }
}

/// Whether two optional paths name the same session.
pub open spec fn is_same_session(a: Option<Seq<char>>, b: Seq<char>) -> bool {
    a is Some && paths::parts_of(a->0) == paths::parts_of(b)
}

/// What a key press asks for while it is asked whether a session is to be deleted: escape keeps it,
/// and enter deletes it where it is still selected and not in use.
pub open spec fn confirm_step(
    asked: Seq<char>,
    selected: Option<Seq<char>>,
    current: Option<Seq<char>>,
    event: KeyEvent,
) -> (SessionActionView, StatusView) {
    if event.code is Escape || overlay::is_ctrl(event, 'c') {
        (SessionActionView::KeepSession, StatusView::Say("Session deletion cancelled."@))
    } else if event.code is Enter && is_same_session(selected, asked) {
        if is_same_session(current, selected->0) {
            (
                SessionActionView::KeepSession,
                StatusView::Say("Cannot delete the currently active session."@),
            )
        } else {
            (SessionActionView::Delete(selected->0), StatusView::Keep)
        }
    } else {
        (SessionActionView::Stay, StatusView::Keep)
    }
}

/// What a key press asks for.
pub open spec fn session_step(
    keys: KeybindingsManager,
    asked: Option<Seq<char>>,
    selected: Option<Seq<char>>,
    current: Option<Seq<char>>,
    paths_shown: bool,
    event: KeyEvent,
) -> (SessionActionView, StatusView) {
    if asked is Some {
        confirm_step(asked->0, selected, current, event)
    } else if keys.calls(event, AppAction::ToggleSessionScope) {
        (SessionActionView::ToggleScope, StatusView::Keep)
    } else if keys.calls(event, AppAction::ToggleSessionNamedFilter) {
        (SessionActionView::ToggleNamed, StatusView::Keep)
    } else if keys.calls(event, AppAction::ToggleSessionSort) {
        (SessionActionView::NextSort, StatusView::Keep)
    } else if keys.calls(event, AppAction::ToggleSessionPath) {
        (
            SessionActionView::TogglePath,
            StatusView::Say(
                if paths_shown {
                    "Session paths hidden."@
                } else {
                    "Session paths visible."@
                },
            ),
        )
    } else if keys.calls(event, AppAction::DeleteSession) || (event.code is Backspace
        && event.modifiers == KeyModifiers::none()) {
        match selected {
            Some(path) => if is_same_session(current, path) {
                (
                    SessionActionView::Stay,
                    StatusView::Say("Cannot delete the currently active session."@),
                )
            } else {
                (
                    SessionActionView::AskDelete(path),
                    StatusView::Say(
                        "Press Enter to confirm session deletion, or Esc to cancel."@,
                    ),
                )
            },
            None => (SessionActionView::Stay, StatusView::Keep),
        }
    } else {
        (
            match event.code {
                KeyCode::Up | KeyCode::Down | KeyCode::Enter | KeyCode::Escape =>
                    SessionActionView::ToList,
                _ => SessionActionView::ToField,
            },
            StatusView::Keep,
        )
    }
}

fn names_session(a: Option<&str>, b: &str) -> (r: bool)
    ensures
        r == is_same_session(chrome::opt_str(a), b@),
{
    match a {
        Some(path) => same_path(path, b),
        None => false,
    }
}

fn confirm_key(asked: &str, selected: Option<&str>, current: Option<&str>, event: &KeyEvent) -> (r: (
    SessionAction,
    Status,
))
    ensures
        (r.0@, r.1@) == confirm_step(
            asked@,
            chrome::opt_str(selected),
            chrome::opt_str(current),
            *event,
        ),
{
    if matches!(event.code, KeyCode::Escape) || matches_ctrl_char(event, 'c') {
        return (SessionAction::KeepSession, say("Session deletion cancelled."));
    }
    if matches!(event.code, KeyCode::Enter) {
        if let Some(path) = selected {
            if same_path(path, asked) {
                if names_session(current, path) {
                    return (
                        SessionAction::KeepSession,
                        say("Cannot delete the currently active session."),
                    );
                }
                return (SessionAction::Delete(copy_text(path)), Status::Keep);
            }
        }
    }
    (SessionAction::Stay, Status::Keep)
}

/// What a key press among the sessions asks for, and what is said.
pub fn session_overlay_key(
    keybindings: &KeybindingsManager,
    confirming_delete: Option<&str>,
    selected: Option<&str>,
    current_session: Option<&str>,
    show_path: bool,
    event: &KeyEvent,
) -> (r: (SessionAction, Status))
    ensures
        (r.0@, r.1@) == session_step(
            *keybindings,
            chrome::opt_str(confirming_delete),
            chrome::opt_str(selected),
            chrome::opt_str(current_session),
            show_path,
            *event,
        ),
{
    if let Some(asked) = confirming_delete {
        return confirm_key(asked, selected, current_session, event);
    }
    if keybindings.matches(event, AppAction::ToggleSessionScope) {
        return (SessionAction::ToggleScope, Status::Keep);
    }
    if keybindings.matches(event, AppAction::ToggleSessionNamedFilter) {
        return (SessionAction::ToggleNamed, Status::Keep);
    }
    if keybindings.matches(event, AppAction::ToggleSessionSort) {
        return (SessionAction::NextSort, Status::Keep);
    }
    if keybindings.matches(event, AppAction::ToggleSessionPath) {
        let message = if show_path {
            "Session paths hidden."
        } else {
            "Session paths visible."
        };
        return (SessionAction::TogglePath, say(message));
    }
    if keybindings.matches(event, AppAction::DeleteSession) || (matches!(
        event.code,
        KeyCode::Backspace
    ) && event.modifiers == KeyModifiers::none()) {
        return match selected {
            Some(path) => if names_session(current_session, path) {
                (SessionAction::Stay, say("Cannot delete the currently active session."))
            } else {
                (
                    SessionAction::AskDelete(copy_text(path)),
                    say("Press Enter to confirm session deletion, or Esc to cancel."),
                )
            },
            None => (SessionAction::Stay, Status::Keep),
        };
    }
    match event.code {
        KeyCode::Up | KeyCode::Down | KeyCode::Enter | KeyCode::Escape => (
            SessionAction::ToList,
            Status::Keep,
        ),
        _ => (SessionAction::ToField, Status::Keep),
    }
}

/// The session in use is never deleted, whatever is pressed.
pub proof fn current_session_is_safe(
    keys: KeybindingsManager,
    asked: Option<Seq<char>>,
    selected: Option<Seq<char>>,
    current: Option<Seq<char>>,
    paths_shown: bool,
    event: KeyEvent,
)
    ensures
        ({
            let (action, status) = session_step(keys, asked, selected, current, paths_shown, event);
            action matches SessionActionView::Delete(path) ==> !is_same_session(current, path)
        }),
{
}

/// A session is deleted only after it was asked for, and only while it is selected.
pub proof fn deletion_is_confirmed(
    keys: KeybindingsManager,
    asked: Option<Seq<char>>,
    selected: Option<Seq<char>>,
    current: Option<Seq<char>>,
    paths_shown: bool,
    event: KeyEvent,
)
    ensures
        ({
            let (action, status) = session_step(keys, asked, selected, current, paths_shown, event);
            action matches SessionActionView::Delete(path) ==> is_same_session(asked, path)
                && selected == Some(path) && event.code is Enter
        }),
{
}

/// What the reply of the list asks for.
pub open spec fn session_list_step(reply: ListReply) -> (SessionActionView, StatusView) {
    match reply {
        ListReply::Moved => (SessionActionView::Renew, StatusView::Keep),
        ListReply::Nothing => (SessionActionView::Stay, StatusView::Keep),
        ListReply::Cancelled => (
            SessionActionView::Close,
            StatusView::Say("Selection cancelled."@),
        ),
        ListReply::Selected(path) => (SessionActionView::Open(path@), StatusView::Keep),
    }
}

/// What the reply of the list asks for, and what is said.
pub fn session_list_reply(reply: ListReply) -> (r: (SessionAction, Status))
    ensures
        (r.0@, r.1@) == session_list_step(reply),
{
    match reply {
        ListReply::Moved => (SessionAction::Renew, Status::Keep),
        ListReply::Nothing => (SessionAction::Stay, Status::Keep),
        ListReply::Cancelled => (SessionAction::Close, say("Selection cancelled.")),
        ListReply::Selected(path) => (SessionAction::Open(path), Status::Keep),
    }
}

/// What the reply of the field asks for.
pub open spec fn session_field_step(reply: FieldReply, selected: Option<Seq<char>>) -> (
    SessionActionView,
    StatusView,
) {
    match reply {
        FieldReply::Changed => (SessionActionView::Reload, StatusView::Keep),
        FieldReply::Nothing => (SessionActionView::Stay, StatusView::Keep),
        FieldReply::Cancelled => (
            SessionActionView::Close,
            StatusView::Say("Selection cancelled."@),
        ),
        FieldReply::Submitted(_) => match selected {
            Some(path) => (SessionActionView::Open(path), StatusView::Keep),
            None => (SessionActionView::Stay, StatusView::Keep),
        },
    }
}

/// What the reply of the field asks for, and what is said.
pub fn session_field_reply(reply: FieldReply, selected: Option<&str>) -> (r: (SessionAction, Status))
    ensures
        (r.0@, r.1@) == session_field_step(reply, chrome::opt_str(selected)),
{
    match reply {
        FieldReply::Changed => (SessionAction::Reload, Status::Keep),
        FieldReply::Nothing => (SessionAction::Stay, Status::Keep),
        FieldReply::Cancelled => (SessionAction::Close, say("Selection cancelled.")),
        FieldReply::Submitted(_) => match selected {
            Some(path) => (SessionAction::Open(copy_text(path)), Status::Keep),
            None => (SessionAction::Stay, Status::Keep),
        },
    }
}

/// What is said once sessions have been switched.
pub open spec fn switched(path: Seq<char>, cancelled: bool) -> Seq<char> {
    if cancelled {
        "Switched sessions after cancelling active work."@
    } else {
        "Switched to "@ + path
    }
}

/// What is said once sessions have been switched.
pub fn switched_status(path: &str, cancelled: bool) -> (r: String)
    ensures
        r@ == switched(path@, cancelled),
{
    if cancelled {
        copy_text("Switched sessions after cancelling active work.")
    } else {
        cat2("Switched to ", path)
    }
}

/// What is said once a session has been deleted.
pub fn deleted_status(path: &str) -> (r: String)
    ensures
        r@ == "Deleted "@ + path@ + "."@,
{
    cat3("Deleted ", path, ".")
}

/// Which of the choices among the sessions was changed.
#[derive(Clone, Copy, Debug, PartialEq, Eq, Structural)]
pub enum SessionChoice {
    Scope,
    Named,
    Sort,
}

/// What is said once one of the choices has been changed.
pub fn session_choice_status(choice: SessionChoice, label: &str) -> (r: String)
    ensures
        r@ == (match choice {
            SessionChoice::Scope => "Session scope: "@,
            SessionChoice::Named => "Session name filter: "@,
            SessionChoice::Sort => "Session sort: "@,
        }) + label@,
{
    match choice {
        SessionChoice::Scope => cat2("Session scope: ", label),
        SessionChoice::Named => cat2("Session name filter: ", label),
        SessionChoice::Sort => cat2("Session sort: ", label),
    }
}

/// What comes of a step in the choice of a session at the start.
#[derive(Clone, Debug, PartialEq, Eq)]
pub enum PickerAction {
    /// The choice goes on; what is said, if anything.
    Continue(Option<String>),
    /// No session is chosen.
    Cancel,
    /// This session is chosen.
    Selected(String),
}

/// What comes of a step, as a mathematical value.
pub enum PickerView {
    Continue(Option<Seq<char>>),
    Cancel,
    Selected(Seq<char>),
}

impl View for PickerAction {
    type V = PickerView;

    open spec fn view(&self) -> PickerView {
        match self {
            PickerAction::Continue(message) => PickerView::Continue(text::opt_text(*message)),
            PickerAction::Cancel => PickerView::Cancel,
            PickerAction::Selected(path) => PickerView::Selected(path@),
        }
    }
}

/// What comes of a step in the choice of a session at the start: an opened session is the chosen one,
/// and a closed overlay is no choice.
pub open spec fn picked(action: SessionActionView, status: StatusView) -> PickerView {
    match action {
        SessionActionView::Open(path) => PickerView::Selected(path),
        SessionActionView::Close => PickerView::Cancel,
        _ => PickerView::Continue(
            match status {
                StatusView::Say(message) => Some(message),
                _ => None,
            },
        ),
    }
}

/// What comes of a step in the choice of a session at the start.
pub fn startup_picker_action(action: SessionAction, status: Status) -> (r: PickerAction)
    ensures
        r@ == picked(action@, status@),
{
    match action {
        SessionAction::Open(path) => PickerAction::Selected(path),
        SessionAction::Close => PickerAction::Cancel,
        _ => match status {
            Status::Say(message) => PickerAction::Continue(Some(message)),
            _ => PickerAction::Continue(None),
        },
    }
}

/// Of the sessions of two lists, those of the first are shown before those of the second, and
/// each list decides for itself.
pub proof fn sessions_in_two(
    a: Seq<SessionRecord>,
    b: Seq<SessionRecord>,
    query: Option<Seq<char>>,
    filter: SessionNameFilter,
)
    ensures
        sessions_shown(a + b, query, filter) == sessions_shown(a, query, filter) + sessions_shown(
            b,
            query,
            filter,
        ),
    decreases b.len(),
{
    if b.len() == 0 {
        assert(a + b =~= a);
    } else {
        assert((a + b).drop_last() =~= a + b.drop_last());
        sessions_in_two(a, b.drop_last(), query, filter);
    }
}

/// Without a query and without the filter by name, every session is shown, in its place.
pub proof fn all_sessions_are_shown(records: Seq<SessionRecord>)
    ensures
        sessions_shown(records, None, SessionNameFilter::All) == records,
    decreases records.len(),
{
    if records.len() > 0 {
        all_sessions_are_shown(records.drop_last());
    }
}

/// With the filter by name alone, a session stands in the list exactly if it has a name.
pub proof fn named_sessions_are_shown(records: Seq<SessionRecord>, record: SessionRecord)
    ensures
        sessions_shown(records, None, SessionNameFilter::Named).contains(record) <==> (
        records.contains(record) && record.name is Some),
    decreases records.len(),
{
    let shown = sessions_shown(records, None, SessionNameFilter::Named);
    if records.len() > 0 {
        let rest = records.drop_last();
        let before = sessions_shown(rest, None, SessionNameFilter::Named);
        named_sessions_are_shown(rest, record);
        assert(records =~= rest.push(records.last()));
        assert(records.contains(record) <==> (rest.contains(record) || records.last() == record))
            by {
            if rest.contains(record) {
                let k = choose|k: int| 0 <= k < rest.len() && rest[k] == record;
                assert(records[k] == record);
            }
            if records.last() == record {
                assert(records[records.len() - 1] == record);
            }
            if records.contains(record) {
                let k = choose|k: int| 0 <= k < records.len() && records[k] == record;
                if k < rest.len() {
                    assert(rest[k] == record);
                }
            }
        }
        if records.last().name is Some {
            assert(shown == before.push(records.last()));
            if before.contains(record) {
                let k = choose|k: int| 0 <= k < before.len() && before[k] == record;
                assert(shown[k] == record);
            }
            if records.last() == record {
                assert(shown[before.len() as int] == record);
            }
            if shown.contains(record) {
                let k = choose|k: int| 0 <= k < shown.len() && shown[k] == record;
                if k < before.len() {
                    assert(before[k] == record);
                }
            }
        }
    }
}

/// Whatever stands in the list answers the query, and what does not answer it is left out.
pub proof fn shown_sessions_answer(
    records: Seq<SessionRecord>,
    query: Seq<char>,
    record: SessionRecord,
)
    ensures
        sessions_shown(records, Some(query), SessionNameFilter::All).contains(record) ==> answers(
            record,
            query,
        ) && records.contains(record),
        records.contains(record) && answers(record, query) ==> sessions_shown(
            records,
            Some(query),
            SessionNameFilter::All,
        ).contains(record),
    decreases records.len(),
{
    let shown = sessions_shown(records, Some(query), SessionNameFilter::All);
    if records.len() > 0 {
        let rest = records.drop_last();
        let before = sessions_shown(rest, Some(query), SessionNameFilter::All);
        shown_sessions_answer(rest, query, record);
        if rest.contains(record) {
            let k = choose|k: int| 0 <= k < rest.len() && rest[k] == record;
            assert(records[k] == record);
        }
        if records.contains(record) {
            let k = choose|k: int| 0 <= k < records.len() && records[k] == record;
            if k < rest.len() {
                assert(rest[k] == record);
            }
        }
        if answers(records.last(), query) {
            if before.contains(record) {
                let k = choose|k: int| 0 <= k < before.len() && before[k] == record;
                assert(shown[k] == record);
            }
            if records.last() == record {
                assert(shown[before.len() as int] == record);
                assert(records[records.len() - 1] == record);
            }
            if shown.contains(record) {
                let k = choose|k: int| 0 <= k < shown.len() && shown[k] == record;
                if k < before.len() {
                    assert(before[k] == record);
                } else {
                    assert(records[records.len() - 1] == record);
                }
            }
        }
    }
}

proof fn unquoted_is_one_piece(s: Seq<char>)
    requires
        !s.contains('"'),
    ensures
        text::split_on(s, '"') == seq![s],
{
    text::split_undoes_join(seq![s], '"');
    reveal_with_fuel(text::join, 2);
    assert(seq![s].drop_last() =~= Seq::<Seq<char>>::empty());
    assert(text::join(seq![s], seq!['"']) =~= s);
}

/// A query of words asks for every one of them, in any order and in any case.
pub proof fn sessions_are_found_by_words(record: SessionRecord, query: Seq<char>)
    requires
        !query.contains('"'),
        !text::has_prefix(query, "re:"@),
    ensures
        answers(record, query) <==> forall|i: int|
            0 <= i < text::words_of(query).len() ==> text::contains_text(
                text::lowered(searched(record)),
                text::lowered(#[trigger] text::words_of(query)[i]),
            ),
{
    unquoted_is_one_piece(query);
    reveal_with_fuel(terms_of, 2);
    assert(seq![query].drop_last() =~= Seq::<Seq<char>>::empty());
    assert(terms_of(seq![query]) =~= text::words_of(query));
}

/// A query between quotation marks asks for the whole phrase.
pub proof fn sessions_are_found_by_phrases(record: SessionRecord, phrase: Seq<char>)
    requires
        !phrase.contains('"'),
        phrase.len() > 0,
    ensures
        answers(record, seq!['"'] + phrase + seq!['"']) <==> text::contains_text(
            text::lowered(searched(record)),
            text::lowered(phrase),
        ),
{
    let query = seq!['"'] + phrase + seq!['"'];
    let none = Seq::<char>::empty();
    let parts = seq![none, phrase, none];
    reveal_strlit("re:");
    assert(!text::has_prefix(query, "re:"@)) by {
        assert(query.take(3)[0] == '"');
    }
    text::split_undoes_join(parts, '"');
    reveal_with_fuel(text::join, 4);
    assert(parts.drop_last() =~= seq![none, phrase]);
    assert(seq![none, phrase].drop_last() =~= seq![none]);
    assert(seq![none].drop_last() =~= Seq::<Seq<char>>::empty());
    assert(text::join(parts, seq!['"']) =~= query);
    assert(text::split_on(query, '"') == parts);
    reveal_with_fuel(terms_of, 4);
    assert(text::words_of(none) =~= Seq::<Seq<char>>::empty());
    assert(terms_of(parts) =~= seq![phrase]);
    let terms = terms_of(parts);
    assert(terms[0] == phrase);
    if text::contains_text(text::lowered(searched(record)), text::lowered(phrase)) {
        assert(holds_terms(searched(record), terms));
    }
}

/// What is searched holds the name, the preview, the directory and the path of a session.
pub proof fn sessions_are_searched(record: SessionRecord)
    ensures
        record.name matches Some(name) ==> text::contains_text(searched(record), name@),
        text::contains_text(searched(record), record.preview@),
        text::contains_text(searched(record), record.cwd@),
        text::contains_text(searched(record), record.path@),
{
    reveal_strlit(" ");
    let s = searched(record);
    let n = (match record.name {
        Some(name) => name@.len() + 1,
        None => 0,
    }) as int;
    if let Some(name) = record.name {
        assert(s.subrange(0, name@.len() as int) =~= name@);
        assert(text::occurs_at(s, name@, 0));
    } else {
        reveal_strlit("");
    }
    let p = record.preview@.len() as int;
    let d = record.cwd@.len() as int;
    let e = record.path@.len() as int;
    assert(s.subrange(n, n + p) =~= record.preview@);
    assert(text::occurs_at(s, record.preview@, n));
    assert(s.subrange(n + p + 1, n + p + 1 + d) =~= record.cwd@);
    assert(text::occurs_at(s, record.cwd@, n + p + 1));
    assert(s.subrange(n + p + d + 2, n + p + d + 2 + e) =~= record.path@);
    assert(text::occurs_at(s, record.path@, n + p + d + 2));
}

/// The entry of a session leads to that session: it carries the path, in the list and as what is
/// chosen, and begins with the name where there is one.
pub proof fn session_items_lead_to_sessions(
    records: Seq<SessionRecord>,
    show_path: bool,
    current: Option<Seq<char>>,
    k: int,
)
    requires
        0 <= k < records.len(),
    ensures
        session_items(records, show_path, current).len() == records.len(),
        session_selections(records).len() == records.len(),
        session_items(records, show_path, current)[k].value == records[k].path@,
        session_selections(records)[k] == (SelectionView::Session { path: records[k].path@ }),
        records[k].name matches Some(name) ==> text::has_prefix(
            session_items(records, show_path, current)[k].label,
            name@,
        ),
        records[k].name matches Some(name) ==> (current is None ==> session_items(
            records,
            show_path,
            current,
        )[k].label == name@),
        show_path ==> text::has_suffix(
            session_items(records, show_path, current)[k].description->0,
            records[k].path@,
        ),
{
    let item = session_items(records, show_path, current)[k];
    assert(item == session_item(records[k], show_path, current));
    reveal_strlit("");
    if let Some(name) = records[k].name {
        assert(item.label.take(name@.len() as int) =~= name@);
        if current is None {
            assert(item.label =~= name@);
        }
    }
    if show_path {
        let d = item.description->0;
        assert(d.skip(d.len() - records[k].path@.len()) =~= records[k].path@);
    }
}

/// What is chosen in the list is what is opened, and so is what is selected when the field is
/// submitted; the picker hands it on.
pub proof fn chosen_session_is_opened(path: String, query: String, selected: Seq<char>)
    ensures
        session_list_step(ListReply::Selected(path)).0 == SessionActionView::Open(path@),
        session_field_step(FieldReply::Submitted(query), Some(selected)).0
            == SessionActionView::Open(selected),
        picked(session_list_step(ListReply::Selected(path)).0, StatusView::Keep)
            == PickerView::Selected(path@),
        picked(
            session_list_step(ListReply::Cancelled).0,
            session_list_step(ListReply::Cancelled).1,
        ) == PickerView::Cancel,
{
}

/// What is said of a session is its beginning, its figures, and where it is kept and branched from,
/// in three lines.
#[verifier::rlimit(60)]
pub proof fn sessions_are_described(
    record: SessionRecord,
    home: Option<Seq<char>>,
    preview: Seq<char>,
    meta: Seq<char>,
)
    requires
        preview == screen::cut(text::trim(text::replace_char(record.preview@, '\n', " "@)), 96),
        meta == text::decimal(record.message_count as nat) + " msg · "@ + record.age@ + " · cwd "@
            + tools::short_path(record.cwd@, home),
    ensures
        record.parent_session is None ==> selection_detail(record, false, home) == preview + seq![
            '\n',
        ] + meta + seq!['\n'] + screen::cut(
            "session "@ + tools::short_path(record.path@, home),
            96,
        ),
        record.parent_session is None ==> selection_detail(record, true, home) == preview + seq![
            '\n',
        ] + (meta + " · current"@) + seq!['\n'] + screen::cut(
            "session "@ + tools::short_path(record.path@, home),
            96,
        ),
        record.parent_session matches Some(parent) ==> text::has_suffix(
            selection_detail(record, false, home),
            screen::cut(
                "session "@ + tools::short_path(record.path@, home) + " · parent "@
                    + tools::short_path(parent@, home),
                96,
            ),
        ),
{
    reveal_strlit("\n");
    reveal_strlit("");
    reveal_strlit(" · ");
    reveal_strlit(" msg");
    reveal_strlit(" msg · ");
    reveal_strlit("cwd ");
    reveal_strlit(" · cwd ");
    reveal_strlit("current");
    reveal_strlit(" · current");
    reveal_with_fuel(text::join, 5);
    let count = text::decimal(record.message_count as nat) + " msg"@;
    let cwd = "cwd "@ + tools::short_path(record.cwd@, home);
    let few = seq![count, record.age@, cwd];
    let many = few.push("current"@);
    assert(few.drop_last() =~= seq![count, record.age@]);
    assert(seq![count, record.age@].drop_last() =~= seq![count]);
    assert(many.drop_last() =~= few);
    assert(text::join(few, " · "@) =~= meta);
    assert(text::join(many, " · "@) =~= meta + " · current"@);
    assert(few + chrome::only_if(false, "current"@) =~= few);
    assert(few + chrome::only_if(true, "current"@) =~= many);
    let path_line = "session "@ + tools::short_path(record.path@, home) + (
    match record.parent_session {
        Some(parent) => " · parent "@ + tools::short_path(parent@, home),
        None => ""@,
    });
    let end = screen::cut(path_line, 96);
    let whole = seq![preview, meta, end];
    assert(whole.drop_last() =~= seq![preview, meta]);
    assert(seq![preview, meta].drop_last() =~= seq![preview]);
    let noted = meta + " · current"@;
    let marked = seq![preview, noted, end];
    assert(marked.drop_last() =~= seq![preview, noted]);
    assert(seq![preview, noted].drop_last() =~= seq![preview]);
    assert(selection_detail(record, false, home) =~= preview + seq!['\n'] + meta + seq!['\n'] + end);
    assert(selection_detail(record, true, home) =~= preview + seq!['\n'] + noted + seq!['\n']
        + end);
    if record.parent_session is None {
        assert(path_line =~= "session "@ + tools::short_path(record.path@, home));
    } else {
        let parent = record.parent_session->0;
        assert(path_line =~= "session "@ + tools::short_path(record.path@, home) + " · parent "@
            + tools::short_path(parent@, home));
        let d = selection_detail(record, false, home);
        assert(d.skip(d.len() - end.len()) =~= end);
    }
}

/// Where a session was switched to is told, unless work was cancelled for it.
pub proof fn switches_are_told(path: Seq<char>)
    ensures
        text::has_suffix(switched(path, false), path),
        switched(path, false) == "Switched to "@ + path,
        switched(path, true) == switched(Seq::empty(), true),
{
    let told = switched(path, false);
    assert(told.skip(told.len() - path.len()) =~= path);
}

/// A deletion that is asked for happens on confirmation alone; the key that cancels keeps the
/// session, and any other key leaves the question open.
pub proof fn deletions_can_be_cancelled(
    asked: Seq<char>,
    selected: Option<Seq<char>>,
    current: Option<Seq<char>>,
    event: KeyEvent,
)
    ensures
        event.code is Escape || overlay::is_ctrl(event, 'c') ==> confirm_step(
            asked,
            selected,
            current,
            event,
        ).0 == SessionActionView::KeepSession,
        !(event.code is Escape || event.code is Enter || overlay::is_ctrl(event, 'c'))
            ==> confirm_step(asked, selected, current, event).0 == SessionActionView::Stay,
        event.code is Enter && selected == Some(asked) && !is_same_session(current, asked)
            ==> confirm_step(asked, selected, current, event).0 == SessionActionView::Delete(asked),
{
}

} // verus!
