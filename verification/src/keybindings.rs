//! Which keys call which actions.
use vstd::prelude::*;
use crate::keys;
use crate::keys::{canonicalize_binding_values, KeyBinding, KeyCode, KeyEvent};
use crate::text;
use crate::text::{copy_text, join_texts, same};

verus! {

broadcast use crate::text::group_texts;

fn no_keys() -> (r: Vec<String>)
    ensures
        text::texts(r@) == Seq::<Seq<char>>::empty(),
{
    Vec::new()
}

fn one_key(a: &str) -> (r: Vec<String>)
    ensures
        text::texts(r@) == seq![a@],
{
    let mut out: Vec<String> = Vec::new();
    out.push(copy_text(a));
    assert(text::texts(out@) =~= seq![a@]);
    out
}

fn two_keys(a: &str, b: &str) -> (r: Vec<String>)
    ensures
        text::texts(r@) == seq![a@, b@],
{
    let mut out = one_key(a);
    out.push(copy_text(b));
    assert(text::texts(out@) =~= seq![a@, b@]);
    out
}

fn three_keys(a: &str, b: &str, c: &str) -> (r: Vec<String>)
    ensures
        text::texts(r@) == seq![a@, b@, c@],
{
    let mut out = two_keys(a, b);
    out.push(copy_text(c));
    assert(text::texts(out@) =~= seq![a@, b@, c@]);
    out
}

/// Something the application does at a key press.
#[derive(Clone, Copy, Debug, PartialEq, Eq, Structural, PartialOrd, Ord)]
pub enum AppAction {
    Interrupt,
    Clear,
    Exit,
    Suspend,
    CycleThinkingLevel,
    CycleModelForward,
    CycleModelBackward,
    SelectModel,
    ExpandTools,
    ToggleThinking,
    ToggleSessionNamedFilter,
    ToggleSessionScope,
    ToggleSessionSort,
    ToggleSessionPath,
    RenameSession,
    DeleteSession,
    EditTreeLabel,
    ExternalEditor,
    FollowUp,
    Dequeue,
    PasteImage,
    NewSession,
    Tree,
    Fork,
    Resume,
}

/// The action with a name.
pub open spec fn app_named(name: Seq<char>) -> Option<AppAction> {
    if name == "interrupt"@ {
        Some(AppAction::Interrupt)
    } else if name == "clear"@ {
        Some(AppAction::Clear)
    } else if name == "exit"@ {
        Some(AppAction::Exit)
    } else if name == "suspend"@ {
        Some(AppAction::Suspend)
    } else if name == "cycleThinkingLevel"@ {
        Some(AppAction::CycleThinkingLevel)
    } else if name == "cycleModelForward"@ {
        Some(AppAction::CycleModelForward)
    } else if name == "cycleModelBackward"@ {
        Some(AppAction::CycleModelBackward)
    } else if name == "selectModel"@ {
        Some(AppAction::SelectModel)
    } else if name == "expandTools"@ {
        Some(AppAction::ExpandTools)
    } else if name == "toggleThinking"@ {
        Some(AppAction::ToggleThinking)
    } else if name == "toggleSessionNamedFilter"@ {
        Some(AppAction::ToggleSessionNamedFilter)
    } else if name == "toggleSessionScope"@ {
        Some(AppAction::ToggleSessionScope)
    } else if name == "toggleSessionSort"@ {
        Some(AppAction::ToggleSessionSort)
    } else if name == "toggleSessionPath"@ {
        Some(AppAction::ToggleSessionPath)
    } else if name == "renameSession"@ {
        Some(AppAction::RenameSession)
    } else if name == "deleteSession"@ {
        Some(AppAction::DeleteSession)
    } else if name == "editTreeLabel"@ {
        Some(AppAction::EditTreeLabel)
    } else if name == "externalEditor"@ {
        Some(AppAction::ExternalEditor)
    } else if name == "followUp"@ {
        Some(AppAction::FollowUp)
    } else if name == "dequeue"@ {
        Some(AppAction::Dequeue)
    } else if name == "pasteImage"@ {
        Some(AppAction::PasteImage)
    } else if name == "newSession"@ {
        Some(AppAction::NewSession)
    } else if name == "tree"@ {
        Some(AppAction::Tree)
    } else if name == "fork"@ {
        Some(AppAction::Fork)
    } else if name == "resume"@ {
        Some(AppAction::Resume)
    } else {
        None
    }
}

/// The keys that call an action by default.
pub open spec fn default_app_keys(action: AppAction) -> Seq<Seq<char>> {
    match action {
        AppAction::Interrupt => seq!["escape"@],
        AppAction::Clear => seq!["ctrl+c"@],
        AppAction::Exit => seq!["ctrl+d"@],
        AppAction::Suspend => seq!["ctrl+z"@],
        AppAction::CycleThinkingLevel => seq!["shift+tab"@],
        AppAction::CycleModelForward => seq!["ctrl+p"@],
        AppAction::CycleModelBackward => seq!["ctrl+shift+p"@],
        AppAction::SelectModel => seq!["ctrl+l"@],
        AppAction::ExpandTools => seq!["ctrl+o"@],
        AppAction::ToggleThinking => seq!["ctrl+t"@],
        AppAction::ToggleSessionNamedFilter => seq!["ctrl+n"@],
        AppAction::ToggleSessionScope => seq!["tab"@],
        AppAction::ToggleSessionSort => seq!["ctrl+s"@],
        AppAction::ToggleSessionPath => seq!["ctrl+p"@],
        AppAction::RenameSession => seq!["ctrl+r"@],
        AppAction::DeleteSession => seq!["ctrl+d"@],
        AppAction::EditTreeLabel => seq!["shift+l"@],
        AppAction::ExternalEditor => seq!["ctrl+g"@],
        AppAction::FollowUp => seq!["alt+enter"@],
        AppAction::Dequeue => seq!["alt+up"@],
        AppAction::PasteImage => seq!["ctrl+v"@],
        AppAction::NewSession => Seq::empty(),
        AppAction::Tree => Seq::empty(),
        AppAction::Fork => Seq::empty(),
        AppAction::Resume => Seq::empty(),
    }
}

/// The place of an action in the table of keys.
pub open spec fn app_index(action: AppAction) -> int {
    match action {
        AppAction::Interrupt => 0,
        AppAction::Clear => 1,
        AppAction::Exit => 2,
        AppAction::Suspend => 3,
        AppAction::CycleThinkingLevel => 4,
        AppAction::CycleModelForward => 5,
        AppAction::CycleModelBackward => 6,
        AppAction::SelectModel => 7,
        AppAction::ExpandTools => 8,
        AppAction::ToggleThinking => 9,
        AppAction::ToggleSessionNamedFilter => 10,
        AppAction::ToggleSessionScope => 11,
        AppAction::ToggleSessionSort => 12,
        AppAction::ToggleSessionPath => 13,
        AppAction::RenameSession => 14,
        AppAction::DeleteSession => 15,
        AppAction::EditTreeLabel => 16,
        AppAction::ExternalEditor => 17,
        AppAction::FollowUp => 18,
        AppAction::Dequeue => 19,
        AppAction::PasteImage => 20,
        AppAction::NewSession => 21,
        AppAction::Tree => 22,
        AppAction::Fork => 23,
        AppAction::Resume => 24,
    }
}

impl AppAction {
    /// The action with a name.
    pub fn from_str(value: &str) -> (r: Option<AppAction>)
        ensures
            r == app_named(value@),
    {
        if same(value, "interrupt") {
            Some(AppAction::Interrupt)
        } else if same(value, "clear") {
            Some(AppAction::Clear)
        } else if same(value, "exit") {
            Some(AppAction::Exit)
        } else if same(value, "suspend") {
            Some(AppAction::Suspend)
        } else if same(value, "cycleThinkingLevel") {
            Some(AppAction::CycleThinkingLevel)
        } else if same(value, "cycleModelForward") {
            Some(AppAction::CycleModelForward)
        } else if same(value, "cycleModelBackward") {
            Some(AppAction::CycleModelBackward)
        } else if same(value, "selectModel") {
            Some(AppAction::SelectModel)
        } else if same(value, "expandTools") {
            Some(AppAction::ExpandTools)
        } else if same(value, "toggleThinking") {
            Some(AppAction::ToggleThinking)
        } else if same(value, "toggleSessionNamedFilter") {
            Some(AppAction::ToggleSessionNamedFilter)
        } else if same(value, "toggleSessionScope") {
            Some(AppAction::ToggleSessionScope)
        } else if same(value, "toggleSessionSort") {
            Some(AppAction::ToggleSessionSort)
        } else if same(value, "toggleSessionPath") {
            Some(AppAction::ToggleSessionPath)
        } else if same(value, "renameSession") {
            Some(AppAction::RenameSession)
        } else if same(value, "deleteSession") {
            Some(AppAction::DeleteSession)
        } else if same(value, "editTreeLabel") {
            Some(AppAction::EditTreeLabel)
        } else if same(value, "externalEditor") {
            Some(AppAction::ExternalEditor)
        } else if same(value, "followUp") {
            Some(AppAction::FollowUp)
        } else if same(value, "dequeue") {
            Some(AppAction::Dequeue)
        } else if same(value, "pasteImage") {
            Some(AppAction::PasteImage)
        } else if same(value, "newSession") {
            Some(AppAction::NewSession)
        } else if same(value, "tree") {
            Some(AppAction::Tree)
        } else if same(value, "fork") {
            Some(AppAction::Fork)
        } else if same(value, "resume") {
            Some(AppAction::Resume)
        } else {
            None
        }
    }

    /// The place of the action in the table of keys.
    fn index(self) -> (r: usize)
        ensures
            r == app_index(self),
            r < 25,
    {
        match self {
            AppAction::Interrupt => 0,
            AppAction::Clear => 1,
            AppAction::Exit => 2,
            AppAction::Suspend => 3,
            AppAction::CycleThinkingLevel => 4,
            AppAction::CycleModelForward => 5,
            AppAction::CycleModelBackward => 6,
            AppAction::SelectModel => 7,
            AppAction::ExpandTools => 8,
            AppAction::ToggleThinking => 9,
            AppAction::ToggleSessionNamedFilter => 10,
            AppAction::ToggleSessionScope => 11,
            AppAction::ToggleSessionSort => 12,
            AppAction::ToggleSessionPath => 13,
            AppAction::RenameSession => 14,
            AppAction::DeleteSession => 15,
            AppAction::EditTreeLabel => 16,
            AppAction::ExternalEditor => 17,
            AppAction::FollowUp => 18,
            AppAction::Dequeue => 19,
            AppAction::PasteImage => 20,
            AppAction::NewSession => 21,
            AppAction::Tree => 22,
            AppAction::Fork => 23,
            AppAction::Resume => 24,
        }
    }

    /// The action at a place in the table of keys.
    fn at(index: usize) -> (r: AppAction)
        requires
            index < 25,
        ensures
            app_index(r) == index,
    {
        if index == 0 {
            AppAction::Interrupt
        } else if index == 1 {
            AppAction::Clear
        } else if index == 2 {
            AppAction::Exit
        } else if index == 3 {
            AppAction::Suspend
        } else if index == 4 {
            AppAction::CycleThinkingLevel
        } else if index == 5 {
            AppAction::CycleModelForward
        } else if index == 6 {
            AppAction::CycleModelBackward
        } else if index == 7 {
            AppAction::SelectModel
        } else if index == 8 {
            AppAction::ExpandTools
        } else if index == 9 {
            AppAction::ToggleThinking
        } else if index == 10 {
            AppAction::ToggleSessionNamedFilter
        } else if index == 11 {
            AppAction::ToggleSessionScope
        } else if index == 12 {
            AppAction::ToggleSessionSort
        } else if index == 13 {
            AppAction::ToggleSessionPath
        } else if index == 14 {
            AppAction::RenameSession
        } else if index == 15 {
            AppAction::DeleteSession
        } else if index == 16 {
            AppAction::EditTreeLabel
        } else if index == 17 {
            AppAction::ExternalEditor
        } else if index == 18 {
            AppAction::FollowUp
        } else if index == 19 {
            AppAction::Dequeue
        } else if index == 20 {
            AppAction::PasteImage
        } else if index == 21 {
            AppAction::NewSession
        } else if index == 22 {
            AppAction::Tree
        } else if index == 23 {
            AppAction::Fork
        } else {
            AppAction::Resume
        }
    }
}

/// The keys that call an action by default.
pub fn default_bindings(action: AppAction) -> (r: Vec<String>)
    ensures
        text::texts(r@) == default_app_keys(action),
{
    match action {
        AppAction::Interrupt => one_key("escape"),
        AppAction::Clear => one_key("ctrl+c"),
        AppAction::Exit => one_key("ctrl+d"),
        AppAction::Suspend => one_key("ctrl+z"),
        AppAction::CycleThinkingLevel => one_key("shift+tab"),
        AppAction::CycleModelForward => one_key("ctrl+p"),
        AppAction::CycleModelBackward => one_key("ctrl+shift+p"),
        AppAction::SelectModel => one_key("ctrl+l"),
        AppAction::ExpandTools => one_key("ctrl+o"),
        AppAction::ToggleThinking => one_key("ctrl+t"),
        AppAction::ToggleSessionNamedFilter => one_key("ctrl+n"),
        AppAction::ToggleSessionScope => one_key("tab"),
        AppAction::ToggleSessionSort => one_key("ctrl+s"),
        AppAction::ToggleSessionPath => one_key("ctrl+p"),
        AppAction::RenameSession => one_key("ctrl+r"),
        AppAction::DeleteSession => one_key("ctrl+d"),
        AppAction::EditTreeLabel => one_key("shift+l"),
        AppAction::ExternalEditor => one_key("ctrl+g"),
        AppAction::FollowUp => one_key("alt+enter"),
        AppAction::Dequeue => one_key("alt+up"),
        AppAction::PasteImage => one_key("ctrl+v"),
        AppAction::NewSession => no_keys(),
        AppAction::Tree => no_keys(),
        AppAction::Fork => no_keys(),
        AppAction::Resume => no_keys(),
    }
}

/// Something the prompt editor, or a list under it, does at a key press.
#[derive(Clone, Copy, Debug, PartialEq, Eq, Structural, PartialOrd, Ord)]
pub enum EditorAction {
    CursorUp,
    CursorDown,
    CursorLeft,
    CursorRight,
    CursorWordLeft,
    CursorWordRight,
    CursorLineStart,
    CursorLineEnd,
    DeleteCharBackward,
    DeleteCharForward,
    DeleteWordBackward,
    DeleteWordForward,
    DeleteToLineStart,
    DeleteToLineEnd,
    NewLine,
    Submit,
    Tab,
    SelectUp,
    SelectDown,
    SelectConfirm,
    SelectCancel,
    Yank,
    YankPop,
    Undo,
}

/// The action with a name.
pub open spec fn editor_named(name: Seq<char>) -> Option<EditorAction> {
    if name == "cursorUp"@ {
        Some(EditorAction::CursorUp)
    } else if name == "cursorDown"@ {
        Some(EditorAction::CursorDown)
    } else if name == "cursorLeft"@ {
        Some(EditorAction::CursorLeft)
    } else if name == "cursorRight"@ {
        Some(EditorAction::CursorRight)
    } else if name == "cursorWordLeft"@ {
        Some(EditorAction::CursorWordLeft)
    } else if name == "cursorWordRight"@ {
        Some(EditorAction::CursorWordRight)
    } else if name == "cursorLineStart"@ {
        Some(EditorAction::CursorLineStart)
    } else if name == "cursorLineEnd"@ {
        Some(EditorAction::CursorLineEnd)
    } else if name == "deleteCharBackward"@ {
        Some(EditorAction::DeleteCharBackward)
    } else if name == "deleteCharForward"@ {
        Some(EditorAction::DeleteCharForward)
    } else if name == "deleteWordBackward"@ {
        Some(EditorAction::DeleteWordBackward)
    } else if name == "deleteWordForward"@ {
        Some(EditorAction::DeleteWordForward)
    } else if name == "deleteToLineStart"@ {
        Some(EditorAction::DeleteToLineStart)
    } else if name == "deleteToLineEnd"@ {
        Some(EditorAction::DeleteToLineEnd)
    } else if name == "newLine"@ {
        Some(EditorAction::NewLine)
    } else if name == "submit"@ {
        Some(EditorAction::Submit)
    } else if name == "tab"@ {
        Some(EditorAction::Tab)
    } else if name == "selectUp"@ {
        Some(EditorAction::SelectUp)
    } else if name == "selectDown"@ {
        Some(EditorAction::SelectDown)
    } else if name == "selectConfirm"@ {
        Some(EditorAction::SelectConfirm)
    } else if name == "selectCancel"@ {
        Some(EditorAction::SelectCancel)
    } else if name == "yank"@ {
        Some(EditorAction::Yank)
    } else if name == "yankPop"@ {
        Some(EditorAction::YankPop)
    } else if name == "undo"@ {
        Some(EditorAction::Undo)
    } else {
        None
    }
}

/// The keys that call an action by default.
pub open spec fn default_editor_keys(action: EditorAction) -> Seq<Seq<char>> {
    match action {
        EditorAction::CursorUp => seq!["up"@],
        EditorAction::CursorDown => seq!["down"@],
        EditorAction::CursorLeft => seq!["left"@, "ctrl+b"@],
        EditorAction::CursorRight => seq!["right"@, "ctrl+f"@],
        EditorAction::CursorWordLeft => seq!["alt+left"@, "ctrl+left"@, "alt+b"@],
        EditorAction::CursorWordRight => seq!["alt+right"@, "ctrl+right"@, "alt+f"@],
        EditorAction::CursorLineStart => seq!["home"@, "ctrl+a"@],
        EditorAction::CursorLineEnd => seq!["end"@, "ctrl+e"@],
        EditorAction::DeleteCharBackward => seq!["backspace"@],
        EditorAction::DeleteCharForward => seq!["delete"@, "ctrl+d"@],
        EditorAction::DeleteWordBackward => seq!["ctrl+w"@, "alt+backspace"@],
        EditorAction::DeleteWordForward => seq!["alt+d"@, "alt+delete"@],
        EditorAction::DeleteToLineStart => seq!["ctrl+u"@],
        EditorAction::DeleteToLineEnd => seq!["ctrl+k"@],
        EditorAction::NewLine => seq!["shift+enter"@],
        EditorAction::Submit => seq!["enter"@],
        EditorAction::Tab => seq!["tab"@],
        EditorAction::SelectUp => seq!["up"@],
        EditorAction::SelectDown => seq!["down"@],
        EditorAction::SelectConfirm => seq!["enter"@],
        EditorAction::SelectCancel => seq!["escape"@, "ctrl+c"@],
        EditorAction::Yank => seq!["ctrl+y"@],
        EditorAction::YankPop => seq!["alt+y"@],
        EditorAction::Undo => seq!["ctrl+-"@],
    }
}

/// The place of an action in the table of keys.
pub open spec fn editor_index(action: EditorAction) -> int {
    match action {
        EditorAction::CursorUp => 0,
        EditorAction::CursorDown => 1,
        EditorAction::CursorLeft => 2,
        EditorAction::CursorRight => 3,
        EditorAction::CursorWordLeft => 4,
        EditorAction::CursorWordRight => 5,
        EditorAction::CursorLineStart => 6,
        EditorAction::CursorLineEnd => 7,
        EditorAction::DeleteCharBackward => 8,
        EditorAction::DeleteCharForward => 9,
        EditorAction::DeleteWordBackward => 10,
        EditorAction::DeleteWordForward => 11,
        EditorAction::DeleteToLineStart => 12,
        EditorAction::DeleteToLineEnd => 13,
        EditorAction::NewLine => 14,
        EditorAction::Submit => 15,
        EditorAction::Tab => 16,
        EditorAction::SelectUp => 17,
        EditorAction::SelectDown => 18,
        EditorAction::SelectConfirm => 19,
        EditorAction::SelectCancel => 20,
        EditorAction::Yank => 21,
        EditorAction::YankPop => 22,
        EditorAction::Undo => 23,
    }
}

impl EditorAction {
    /// The action with a name.
    pub fn from_str(value: &str) -> (r: Option<EditorAction>)
        ensures
            r == editor_named(value@),
    {
        if same(value, "cursorUp") {
            Some(EditorAction::CursorUp)
        } else if same(value, "cursorDown") {
            Some(EditorAction::CursorDown)
        } else if same(value, "cursorLeft") {
            Some(EditorAction::CursorLeft)
        } else if same(value, "cursorRight") {
            Some(EditorAction::CursorRight)
        } else if same(value, "cursorWordLeft") {
            Some(EditorAction::CursorWordLeft)
        } else if same(value, "cursorWordRight") {
            Some(EditorAction::CursorWordRight)
        } else if same(value, "cursorLineStart") {
            Some(EditorAction::CursorLineStart)
        } else if same(value, "cursorLineEnd") {
            Some(EditorAction::CursorLineEnd)
        } else if same(value, "deleteCharBackward") {
            Some(EditorAction::DeleteCharBackward)
        } else if same(value, "deleteCharForward") {
            Some(EditorAction::DeleteCharForward)
        } else if same(value, "deleteWordBackward") {
            Some(EditorAction::DeleteWordBackward)
        } else if same(value, "deleteWordForward") {
            Some(EditorAction::DeleteWordForward)
        } else if same(value, "deleteToLineStart") {
            Some(EditorAction::DeleteToLineStart)
        } else if same(value, "deleteToLineEnd") {
            Some(EditorAction::DeleteToLineEnd)
        } else if same(value, "newLine") {
            Some(EditorAction::NewLine)
        } else if same(value, "submit") {
            Some(EditorAction::Submit)
        } else if same(value, "tab") {
            Some(EditorAction::Tab)
        } else if same(value, "selectUp") {
            Some(EditorAction::SelectUp)
        } else if same(value, "selectDown") {
            Some(EditorAction::SelectDown)
        } else if same(value, "selectConfirm") {
            Some(EditorAction::SelectConfirm)
        } else if same(value, "selectCancel") {
            Some(EditorAction::SelectCancel)
        } else if same(value, "yank") {
            Some(EditorAction::Yank)
        } else if same(value, "yankPop") {
            Some(EditorAction::YankPop)
        } else if same(value, "undo") {
            Some(EditorAction::Undo)
        } else {
            None
        }
    }

    /// The place of the action in the table of keys.
    fn index(self) -> (r: usize)
        ensures
            r == editor_index(self),
            r < 24,
    {
        match self {
            EditorAction::CursorUp => 0,
            EditorAction::CursorDown => 1,
            EditorAction::CursorLeft => 2,
            EditorAction::CursorRight => 3,
            EditorAction::CursorWordLeft => 4,
            EditorAction::CursorWordRight => 5,
            EditorAction::CursorLineStart => 6,
            EditorAction::CursorLineEnd => 7,
            EditorAction::DeleteCharBackward => 8,
            EditorAction::DeleteCharForward => 9,
            EditorAction::DeleteWordBackward => 10,
            EditorAction::DeleteWordForward => 11,
            EditorAction::DeleteToLineStart => 12,
            EditorAction::DeleteToLineEnd => 13,
            EditorAction::NewLine => 14,
            EditorAction::Submit => 15,
            EditorAction::Tab => 16,
            EditorAction::SelectUp => 17,
            EditorAction::SelectDown => 18,
            EditorAction::SelectConfirm => 19,
            EditorAction::SelectCancel => 20,
            EditorAction::Yank => 21,
            EditorAction::YankPop => 22,
            EditorAction::Undo => 23,
        }
    }

    /// The action at a place in the table of keys.
    fn at(index: usize) -> (r: EditorAction)
        requires
            index < 24,
        ensures
            editor_index(r) == index,
    {
        if index == 0 {
            EditorAction::CursorUp
        } else if index == 1 {
            EditorAction::CursorDown
        } else if index == 2 {
            EditorAction::CursorLeft
        } else if index == 3 {
            EditorAction::CursorRight
        } else if index == 4 {
            EditorAction::CursorWordLeft
        } else if index == 5 {
            EditorAction::CursorWordRight
        } else if index == 6 {
            EditorAction::CursorLineStart
        } else if index == 7 {
            EditorAction::CursorLineEnd
        } else if index == 8 {
            EditorAction::DeleteCharBackward
        } else if index == 9 {
            EditorAction::DeleteCharForward
        } else if index == 10 {
            EditorAction::DeleteWordBackward
        } else if index == 11 {
            EditorAction::DeleteWordForward
        } else if index == 12 {
            EditorAction::DeleteToLineStart
        } else if index == 13 {
            EditorAction::DeleteToLineEnd
        } else if index == 14 {
            EditorAction::NewLine
        } else if index == 15 {
            EditorAction::Submit
        } else if index == 16 {
            EditorAction::Tab
        } else if index == 17 {
            EditorAction::SelectUp
        } else if index == 18 {
            EditorAction::SelectDown
        } else if index == 19 {
            EditorAction::SelectConfirm
        } else if index == 20 {
            EditorAction::SelectCancel
        } else if index == 21 {
            EditorAction::Yank
        } else if index == 22 {
            EditorAction::YankPop
        } else {
            EditorAction::Undo
        }
    }
}

/// The keys that call an action by default.
pub fn default_editor_bindings(action: EditorAction) -> (r: Vec<String>)
    ensures
        text::texts(r@) == default_editor_keys(action),
{
    match action {
        EditorAction::CursorUp => one_key("up"),
        EditorAction::CursorDown => one_key("down"),
        EditorAction::CursorLeft => two_keys("left", "ctrl+b"),
        EditorAction::CursorRight => two_keys("right", "ctrl+f"),
        EditorAction::CursorWordLeft => three_keys("alt+left", "ctrl+left", "alt+b"),
        EditorAction::CursorWordRight => three_keys("alt+right", "ctrl+right", "alt+f"),
        EditorAction::CursorLineStart => two_keys("home", "ctrl+a"),
        EditorAction::CursorLineEnd => two_keys("end", "ctrl+e"),
        EditorAction::DeleteCharBackward => one_key("backspace"),
        EditorAction::DeleteCharForward => two_keys("delete", "ctrl+d"),
        EditorAction::DeleteWordBackward => two_keys("ctrl+w", "alt+backspace"),
        EditorAction::DeleteWordForward => two_keys("alt+d", "alt+delete"),
        EditorAction::DeleteToLineStart => one_key("ctrl+u"),
        EditorAction::DeleteToLineEnd => one_key("ctrl+k"),
        EditorAction::NewLine => one_key("shift+enter"),
        EditorAction::Submit => one_key("enter"),
        EditorAction::Tab => one_key("tab"),
        EditorAction::SelectUp => one_key("up"),
        EditorAction::SelectDown => one_key("down"),
        EditorAction::SelectConfirm => one_key("enter"),
        EditorAction::SelectCancel => two_keys("escape", "ctrl+c"),
        EditorAction::Yank => one_key("ctrl+y"),
        EditorAction::YankPop => one_key("alt+y"),
        EditorAction::Undo => one_key("ctrl+-"),
    }
}

/// What a file of key bindings gives under one name.
#[derive(Clone, Debug, PartialEq, Eq)]
pub enum BindingValue {
    Single(String),
    Many(Vec<Option<String>>),
    Other,
}

/// What a file of key bindings gives under one name, as a mathematical value.
pub enum BindingValueView {
    Single(Seq<char>),
    Many(Seq<Option<Seq<char>>>),
    Other,
}

/// The texts of a list in which texts may be missing.
pub open spec fn opt_list(values: Seq<Option<String>>) -> Seq<Option<Seq<char>>> {
    Seq::new(values.len(), |i: int| text::opt_text(values[i]))
}

impl View for BindingValue {
    type V = BindingValueView;

    open spec fn view(&self) -> BindingValueView {
        match self {
            BindingValue::Single(value) => BindingValueView::Single(value@),
            BindingValue::Many(values) => BindingValueView::Many(opt_list(values@)),
            BindingValue::Other => BindingValueView::Other,
        }
    }
}

/// The names of a file of key bindings with what stands under each.
pub type Entries = Seq<(Seq<char>, BindingValueView)>;

/// The entries of a list, as mathematical values.
pub open spec fn entry_views(entries: Seq<(String, BindingValue)>) -> Entries {
    Seq::new(entries.len(), |i: int| (entries[i].0@, entries[i].1@))
}

/// The entries behind an optional list.
pub open spec fn opt_entries(entries: Option<Vec<(String, BindingValue)>>) -> Option<Entries> {
    match entries {
        Some(list) => Some(entry_views(list@)),
        None => None,
    }
}

/// The members of the object that `serde_json::from_str` reads from a text, in the order of the
/// object's iteration; nothing where the text is no JSON or no object.
pub uninterp spec fn json_object_entries(content: Seq<char>) -> Option<Entries>;

/// `serde_json::from_str::<Value>` reads a JSON text. Where that is an object, its members are
/// handed out: a string as it is, an array with its strings in their places, and anything else as
/// `Other`. What is read is left to the name `json_object_entries`.
#[verifier::external_body]
fn read_json_object(content: &str) -> (r: Option<Vec<(String, BindingValue)>>)
    ensures
        opt_entries(r) == json_object_entries(content@),
{
    let value = serde_json::from_str::<serde_json::Value>(content).ok()?;
    let mut entries = Vec::new();
    for (key, value) in value.as_object()? {
        let value = match value {
            serde_json::Value::String(single) => BindingValue::Single(single.clone()),
            serde_json::Value::Array(values) => BindingValue::Many(
                values.iter().map(|value| value.as_str().map(str::to_owned)).collect(),
            ),
            _ => BindingValue::Other,
        };
        entries.push((key.clone(), value));
    }
    Some(entries)
}

/// The texts of a list, without the places where one is missing.
pub open spec fn present(values: Seq<Option<Seq<char>>>) -> Seq<Seq<char>>
    decreases values.len(),
{
    if values.len() == 0 {
        Seq::empty()
    } else {
        match values.last() {
            Some(value) => present(values.drop_last()).push(value),
            None => present(values.drop_last()),
        }
    }
}

/// The keys that an entry gives, where it gives any.
pub open spec fn given_keys(value: BindingValueView) -> Option<Seq<Seq<char>>> {
    match value {
        BindingValueView::Single(single) => Some(seq![single]),
        BindingValueView::Many(values) => Some(present(values)),
        BindingValueView::Other => None,
    }
}

impl BindingValue {
    fn keys(&self) -> (r: Option<Vec<String>>)
        ensures
            match r {
                Some(list) => given_keys(self@) == Some(text::texts(list@)),
                None => given_keys(self@) is None,
            },
    {
        match self {
            BindingValue::Single(single) => Some(one_key(single.as_str())),
            BindingValue::Many(values) => {
                let ghost all = opt_list(values@);
                let mut out: Vec<String> = Vec::new();
                let mut i: usize = 0;
                while i < values.len()
                    invariant
                        0 <= i <= values.len(),
                        all == opt_list(values@),
                        text::texts(out@) == present(all.take(i as int)),
                    decreases values.len() - i,
                {
                    assert(all.take(i + 1).drop_last() =~= all.take(i as int));
                    if let Some(value) = &values[i] {
                        out.push(copy_text(value.as_str()));
                    }
                    i += 1;
                }
                assert(all.take(i as int) =~= all);
                Some(out)
            },
            BindingValue::Other => None,
        }
    }
}

/// The keys that entries give for an action: those of the last entry that names it.
pub open spec fn app_override(entries: Entries, action: AppAction) -> Option<Seq<Seq<char>>>
    decreases entries.len(),
{
    if entries.len() == 0 {
        None
    } else if app_named(entries.last().0) == Some(action) && given_keys(
        entries.last().1,
    ) is Some {
        given_keys(entries.last().1)
    } else {
        app_override(entries.drop_last(), action)
    }
}

/// The keys that call an action, as they are shown.
pub open spec fn app_keys(entries: Entries, action: AppAction) -> Seq<Seq<char>> {
    (match app_override(entries, action) {
        Some(given) => given,
        None => default_app_keys(action),
    }).map_values(|value: Seq<char>| keys::canonical(value))
}

fn find_app_override(entries: &[(String, BindingValue)], action: AppAction) -> (r: Option<
    Vec<String>,
>)
    ensures
        match r {
            Some(list) => app_override(entry_views(entries@), action) == Some(
                text::texts(list@),
            ),
            None => app_override(entry_views(entries@), action) is None,
        },
{
    let ghost all = entry_views(entries@);
    let mut i: usize = entries.len();
    assert(all.take(i as int) =~= all);
    while i > 0
        invariant
            0 <= i <= entries.len(),
            all == entry_views(entries@),
            app_override(all.take(i as int), action) == app_override(all, action),
        decreases i,
    {
        i -= 1;
        assert(all.take(i + 1).drop_last() =~= all.take(i as int));
        let named = match AppAction::from_str(entries[i].0.as_str()) {
            Some(found) => found == action,
            None => false,
        };
        if named {
            if let Some(list) = entries[i].1.keys() {
                return Some(list);
            }
        }
    }
    None
}

/// The keys that entries give for an action: those of the last entry that names it.
pub open spec fn editor_override(entries: Entries, action: EditorAction) -> Option<Seq<Seq<char>>>
    decreases entries.len(),
{
    if entries.len() == 0 {
        None
    } else if editor_named(entries.last().0) == Some(action) && given_keys(
        entries.last().1,
    ) is Some {
        given_keys(entries.last().1)
    } else {
        editor_override(entries.drop_last(), action)
    }
}

/// The keys that call an action, as they are shown.
pub open spec fn editor_keys(entries: Entries, action: EditorAction) -> Seq<Seq<char>> {
    (match editor_override(entries, action) {
        Some(given) => given,
        None => default_editor_keys(action),
    }).map_values(|value: Seq<char>| keys::canonical(value))
}

fn find_editor_override(entries: &[(String, BindingValue)], action: EditorAction) -> (r: Option<
    Vec<String>,
>)
    ensures
        match r {
            Some(list) => editor_override(entry_views(entries@), action) == Some(
                text::texts(list@),
            ),
            None => editor_override(entry_views(entries@), action) is None,
        },
{
    let ghost all = entry_views(entries@);
    let mut i: usize = entries.len();
    assert(all.take(i as int) =~= all);
    while i > 0
        invariant
            0 <= i <= entries.len(),
            all == entry_views(entries@),
            editor_override(all.take(i as int), action) == editor_override(all, action),
        decreases i,
    {
        i -= 1;
        assert(all.take(i + 1).drop_last() =~= all.take(i as int));
        let named = match EditorAction::from_str(entries[i].0.as_str()) {
            Some(found) => found == action,
            None => false,
        };
        if named {
            if let Some(list) = entries[i].1.keys() {
                return Some(list);
            }
        }
    }
    None
}

/// The bindings that texts write down, without the texts that write none.
pub open spec fn bindings_in(values: Seq<Seq<char>>) -> Seq<keys::BindingView>
    decreases values.len(),
{
    if values.len() == 0 {
        Seq::empty()
    } else {
        match keys::parsed_binding(values.last()) {
            Some(binding) => bindings_in(values.drop_last()).push(binding),
            None => bindings_in(values.drop_last()),
        }
    }
}

/// Whether one of the texts writes down a binding that a key press matches.
pub open spec fn any_matches(values: Seq<Seq<char>>, event: KeyEvent) -> bool {
    exists|i: int|
        0 <= i < bindings_in(values).len() && keys::binding_matches(
            #[trigger] bindings_in(values)[i],
            event.code@,
            event.modifiers,
        )
}

/// The keys of one action: how they are shown, and the bindings they are.
#[derive(Debug)]
struct ActionKeys {
    display: Vec<String>,
    bindings: Vec<KeyBinding>,
}

spec fn binding_views(bindings: Seq<KeyBinding>) -> Seq<keys::BindingView> {
    Seq::new(bindings.len(), |i: int| bindings[i]@)
}

impl ActionKeys {
    spec fn well_formed(self) -> bool {
        binding_views(self.bindings@) == bindings_in(text::texts(self.display@))
    }

    fn new(values: Vec<String>) -> (r: ActionKeys)
        ensures
            r.well_formed(),
            text::texts(r.display@) == text::texts(values@).map_values(
                |value: Seq<char>| keys::canonical(value),
            ),
    {
        let display = canonicalize_binding_values(values.as_slice());
        let ghost all = text::texts(display@);
        let mut bindings: Vec<KeyBinding> = Vec::new();
        let mut i: usize = 0;
        assert(binding_views(bindings@) =~= Seq::<keys::BindingView>::empty());
        while i < display.len()
            invariant
                0 <= i <= display.len(),
                all == text::texts(display@),
                binding_views(bindings@) == bindings_in(all.take(i as int)),
            decreases display.len() - i,
        {
            assert(all.take(i + 1).drop_last() =~= all.take(i as int));
            let ghost before = binding_views(bindings@);
            if let Some(binding) = KeyBinding::parse(display[i].as_str()) {
                let ghost shown = binding@;
                bindings.push(binding);
                assert(binding_views(bindings@) =~= before.push(shown));
            }
            i += 1;
        }
        assert(all.take(i as int) =~= all);
        ActionKeys { display, bindings }
    }

    fn matches(&self, event: &KeyEvent) -> (r: bool)
        requires
            self.well_formed(),
        ensures
            r == any_matches(text::texts(self.display@), *event),
    {
        let ghost views = binding_views(self.bindings@);
        let mut i: usize = 0;
        while i < self.bindings.len()
            invariant
                0 <= i <= self.bindings.len(),
                views == binding_views(self.bindings@),
                views == bindings_in(text::texts(self.display@)),
                forall|k: int|
                    0 <= k < i ==> !keys::binding_matches(
                        #[trigger] views[k],
                        event.code@,
                        event.modifiers,
                    ),
            decreases self.bindings.len() - i,
        {
            if self.bindings[i].matches(event) {
                assert(keys::binding_matches(views[i as int], event.code@, event.modifiers));
                return true;
            }
            i += 1;
        }
        false
    }
}

/// What the prompt editor is asked for.
#[derive(Clone, Debug, PartialEq, Eq)]
pub enum PromptEditorInput {
    Action(EditorAction),
    TriggerAutocomplete,
    InsertText(String),
}

/// What the prompt editor is asked for, as a mathematical value.
pub enum PromptInputView {
    Action(EditorAction),
    TriggerAutocomplete,
    InsertText(Seq<char>),
}

impl View for PromptEditorInput {
    type V = PromptInputView;

    open spec fn view(&self) -> PromptInputView {
        match self {
            PromptEditorInput::Action(action) => PromptInputView::Action(*action),
            PromptEditorInput::TriggerAutocomplete => PromptInputView::TriggerAutocomplete,
            PromptEditorInput::InsertText(value) => PromptInputView::InsertText(value@),
        }
    }
}

/// What the list of completions is asked for.
#[derive(Clone, Copy, Debug, PartialEq, Eq, Structural)]
pub enum PromptAutocompleteInput {
    NavigateUp,
    NavigateDown,
    ConfirmSelection,
    Cancel,
    AcceptCompletion,
}

/// What the editor of a prompt is asked to do.
#[derive(Clone, Copy, Debug, PartialEq, Eq, Structural)]
pub enum EditorCommand {
    MoveUp,
    MoveDown,
    MoveLeft,
    MoveRight,
    MoveWordLeft,
    MoveWordRight,
    MoveHome,
    MoveEnd,
    Backspace,
    Delete,
    DeleteWordBackward,
    DeleteWordForward,
    DeleteToLineStart,
    DeleteToLineEnd,
    InsertNewline,
    Submit,
    Yank,
    YankPop,
    Undo,
}

/// What a list is asked to do.
#[derive(Clone, Copy, Debug, PartialEq, Eq, Structural)]
pub enum ListCommand {
    SelectPrevious,
    SelectNext,
    ConfirmSelection,
    Cancel,
}

impl EditorAction {
    /// What the action asks of an editor; nothing where it is about something else.
    pub open spec fn of_editor(self) -> Option<EditorCommand> {
        match self {
            EditorAction::CursorUp => Some(EditorCommand::MoveUp),
            EditorAction::CursorDown => Some(EditorCommand::MoveDown),
            EditorAction::CursorLeft => Some(EditorCommand::MoveLeft),
            EditorAction::CursorRight => Some(EditorCommand::MoveRight),
            EditorAction::CursorWordLeft => Some(EditorCommand::MoveWordLeft),
            EditorAction::CursorWordRight => Some(EditorCommand::MoveWordRight),
            EditorAction::CursorLineStart => Some(EditorCommand::MoveHome),
            EditorAction::CursorLineEnd => Some(EditorCommand::MoveEnd),
            EditorAction::DeleteCharBackward => Some(EditorCommand::Backspace),
            EditorAction::DeleteCharForward => Some(EditorCommand::Delete),
            EditorAction::DeleteWordBackward => Some(EditorCommand::DeleteWordBackward),
            EditorAction::DeleteWordForward => Some(EditorCommand::DeleteWordForward),
            EditorAction::DeleteToLineStart => Some(EditorCommand::DeleteToLineStart),
            EditorAction::DeleteToLineEnd => Some(EditorCommand::DeleteToLineEnd),
            EditorAction::NewLine => Some(EditorCommand::InsertNewline),
            EditorAction::Submit => Some(EditorCommand::Submit),
            EditorAction::Yank => Some(EditorCommand::Yank),
            EditorAction::YankPop => Some(EditorCommand::YankPop),
            EditorAction::Undo => Some(EditorCommand::Undo),
            EditorAction::Tab => None,
            EditorAction::SelectUp => None,
            EditorAction::SelectDown => None,
            EditorAction::SelectConfirm => None,
            EditorAction::SelectCancel => None,
        }
    }

    /// What the action asks of a list; nothing where it is about something else.
    pub open spec fn of_list(self) -> Option<ListCommand> {
        match self {
            EditorAction::SelectUp => Some(ListCommand::SelectPrevious),
            EditorAction::SelectDown => Some(ListCommand::SelectNext),
            EditorAction::SelectConfirm => Some(ListCommand::ConfirmSelection),
            EditorAction::SelectCancel => Some(ListCommand::Cancel),
            _ => None,
        }
    }

    /// What the action asks of a list; nothing where it is about something else.
    pub fn apply_to_select_list(self) -> (r: Option<ListCommand>)
        ensures
            r == self.of_list(),
    {
        match self {
            EditorAction::SelectUp => Some(ListCommand::SelectPrevious),
            EditorAction::SelectDown => Some(ListCommand::SelectNext),
            EditorAction::SelectConfirm => Some(ListCommand::ConfirmSelection),
            EditorAction::SelectCancel => Some(ListCommand::Cancel),
            _ => None,
        }
    }

    /// What the action asks of an editor; nothing where it is about something else.
    pub fn apply_to_editor(self) -> (r: Option<EditorCommand>)
        ensures
            r == self.of_editor(),
    {
        match self {
            EditorAction::CursorUp => Some(EditorCommand::MoveUp),
            EditorAction::CursorDown => Some(EditorCommand::MoveDown),
            EditorAction::CursorLeft => Some(EditorCommand::MoveLeft),
            EditorAction::CursorRight => Some(EditorCommand::MoveRight),
            EditorAction::CursorWordLeft => Some(EditorCommand::MoveWordLeft),
            EditorAction::CursorWordRight => Some(EditorCommand::MoveWordRight),
            EditorAction::CursorLineStart => Some(EditorCommand::MoveHome),
            EditorAction::CursorLineEnd => Some(EditorCommand::MoveEnd),
            EditorAction::DeleteCharBackward => Some(EditorCommand::Backspace),
            EditorAction::DeleteCharForward => Some(EditorCommand::Delete),
            EditorAction::DeleteWordBackward => Some(EditorCommand::DeleteWordBackward),
            EditorAction::DeleteWordForward => Some(EditorCommand::DeleteWordForward),
            EditorAction::DeleteToLineStart => Some(EditorCommand::DeleteToLineStart),
            EditorAction::DeleteToLineEnd => Some(EditorCommand::DeleteToLineEnd),
            EditorAction::NewLine => Some(EditorCommand::InsertNewline),
            EditorAction::Submit => Some(EditorCommand::Submit),
            EditorAction::Yank => Some(EditorCommand::Yank),
            EditorAction::YankPop => Some(EditorCommand::YankPop),
            EditorAction::Undo => Some(EditorCommand::Undo),
            EditorAction::Tab | EditorAction::SelectUp | EditorAction::SelectDown
            | EditorAction::SelectConfirm | EditorAction::SelectCancel => None,
        }
    }
}

/// Every action is about the editor or about a list, but for the one that completes; none is about
/// both, and no two ask the same of the editor.
pub proof fn actions_ask_different_things(a: EditorAction, b: EditorAction)
    ensures
        !(a.of_editor() is Some && a.of_list() is Some),
        a.of_editor() is None && a.of_list() is None <==> a == EditorAction::Tab,
        a.of_editor() is Some && a.of_editor() == b.of_editor() ==> a == b,
{
}

impl PromptAutocompleteInput {
    /// What the input asks of the list of completions; nothing where a completion is taken over as
    /// it stands.
    pub fn apply_to_select_list(self) -> (r: Option<ListCommand>)
        ensures
            r == (match self {
                PromptAutocompleteInput::NavigateUp => Some(ListCommand::SelectPrevious),
                PromptAutocompleteInput::NavigateDown => Some(ListCommand::SelectNext),
                PromptAutocompleteInput::ConfirmSelection => Some(ListCommand::ConfirmSelection),
                PromptAutocompleteInput::Cancel => Some(ListCommand::Cancel),
                PromptAutocompleteInput::AcceptCompletion => None,
            }),
    {
        match self {
            PromptAutocompleteInput::NavigateUp => Some(ListCommand::SelectPrevious),
            PromptAutocompleteInput::NavigateDown => Some(ListCommand::SelectNext),
            PromptAutocompleteInput::ConfirmSelection => Some(ListCommand::ConfirmSelection),
            PromptAutocompleteInput::Cancel => Some(ListCommand::Cancel),
            PromptAutocompleteInput::AcceptCompletion => None,
        }
    }
}

/// The actions of the prompt editor, in the order in which they are tried.
pub open spec fn prompt_editor_actions() -> Seq<EditorAction> {
    seq![
        EditorAction::Submit,
        EditorAction::NewLine,
        EditorAction::Undo,
        EditorAction::Yank,
        EditorAction::YankPop,
        EditorAction::CursorLeft,
        EditorAction::CursorRight,
        EditorAction::CursorWordLeft,
        EditorAction::CursorWordRight,
        EditorAction::CursorLineStart,
        EditorAction::CursorLineEnd,
        EditorAction::DeleteCharBackward,
        EditorAction::DeleteCharForward,
        EditorAction::DeleteWordBackward,
        EditorAction::DeleteWordForward,
        EditorAction::DeleteToLineStart,
        EditorAction::DeleteToLineEnd,
        EditorAction::CursorUp,
        EditorAction::CursorDown,
    ]
}

/// The actions of the list of completions, in the order in which they are tried.
pub open spec fn prompt_autocomplete_actions() -> Seq<EditorAction> {
    seq![
        EditorAction::SelectCancel,
        EditorAction::SelectUp,
        EditorAction::SelectDown,
        EditorAction::SelectConfirm,
    ]
}

/// Which keys call which actions.
#[derive(Debug)]
pub struct KeybindingsManager {
    app: Vec<ActionKeys>,
    editor: Vec<ActionKeys>,
}

impl KeybindingsManager {
    #[verifier::type_invariant]
    spec fn well_formed(self) -> bool {
        &&& self.app@.len() == 25
        &&& self.editor@.len() == 24
        &&& forall|i: int| 0 <= i < 25 ==> (#[trigger] self.app@[i]).well_formed()
        &&& forall|i: int| 0 <= i < 24 ==> (#[trigger] self.editor@[i]).well_formed()
    }

    /// The keys that call an action, as they are shown.
    pub closed spec fn app_shown(self, action: AppAction) -> Seq<Seq<char>> {
        text::texts(self.app@[app_index(action)].display@)
    }

    /// The keys that call an action of the editor, as they are shown.
    pub closed spec fn editor_shown(self, action: EditorAction) -> Seq<Seq<char>> {
        text::texts(self.editor@[editor_index(action)].display@)
    }

    /// Whether a key press calls an action.
    pub open spec fn calls(self, event: KeyEvent, action: AppAction) -> bool {
        any_matches(self.app_shown(action), event)
    }

    /// Whether a key press calls an action of the editor.
    pub open spec fn calls_editor(self, event: KeyEvent, action: EditorAction) -> bool {
        any_matches(self.editor_shown(action), event)
    }

    /// The first of some actions that a key press calls.
    pub open spec fn first_called(self, event: KeyEvent, actions: Seq<AppAction>) -> Option<AppAction>
        decreases actions.len(),
    {
        if actions.len() == 0 {
            None
        } else if self.calls(event, actions[0]) {
            Some(actions[0])
        } else {
            self.first_called(event, actions.skip(1))
        }
    }

    /// The first of some actions of the editor that a key press calls.
    pub open spec fn first_editor_called(
        self,
        event: KeyEvent,
        actions: Seq<EditorAction>,
    ) -> Option<EditorAction>
        decreases actions.len(),
    {
        if actions.len() == 0 {
            None
        } else if self.calls_editor(event, actions[0]) {
            Some(actions[0])
        } else {
            self.first_editor_called(event, actions.skip(1))
        }
    }

    /// The keys that entries give, over the default ones.
    pub fn from_overrides(entries: &[(String, BindingValue)]) -> (r: KeybindingsManager)
        ensures
            forall|action: AppAction| #[trigger]
                r.app_shown(action) == app_keys(entry_views(entries@), action),
            forall|action: EditorAction| #[trigger]
                r.editor_shown(action) == editor_keys(entry_views(entries@), action),
    {
        let ghost all = entry_views(entries@);
        let mut app: Vec<ActionKeys> = Vec::new();
        let mut i: usize = 0;
        while i < 25
            invariant
                0 <= i <= 25,
                all == entry_views(entries@),
                app@.len() == i,
                forall|k: int| 0 <= k < i ==> (#[trigger] app@[k]).well_formed(),
                forall|action: AppAction|
                    0 <= #[trigger] app_index(action) < i ==> text::texts(
                        app@[app_index(action)].display@,
                    ) == app_keys(all, action),
            decreases 25 - i,
        {
            let action = AppAction::at(i);
            let values = match find_app_override(entries, action) {
                Some(given) => given,
                None => default_bindings(action),
            };
            app.push(ActionKeys::new(values));
            i += 1;
        }
        let mut editor: Vec<ActionKeys> = Vec::new();
        let mut k: usize = 0;
        while k < 24
            invariant
                0 <= k <= 24,
                all == entry_views(entries@),
                editor@.len() == k,
                forall|i: int| 0 <= i < k ==> (#[trigger] editor@[i]).well_formed(),
                forall|action: EditorAction|
                    0 <= #[trigger] editor_index(action) < k ==> text::texts(
                        editor@[editor_index(action)].display@,
                    ) == editor_keys(all, action),
            decreases 24 - k,
        {
            let action = EditorAction::at(k);
            let values = match find_editor_override(entries, action) {
                Some(given) => given,
                None => default_editor_bindings(action),
            };
            editor.push(ActionKeys::new(values));
            k += 1;
        }
        KeybindingsManager { app, editor }
    }

    /// The default keys.
    pub fn in_memory() -> (r: KeybindingsManager)
        ensures
            forall|action: AppAction| #[trigger]
                r.app_shown(action) == app_keys(Seq::empty(), action),
            forall|action: EditorAction| #[trigger]
                r.editor_shown(action) == editor_keys(Seq::empty(), action),
    {
        let entries: Vec<(String, BindingValue)> = Vec::new();
        assert(entry_views(entries@) =~= Seq::empty());
        KeybindingsManager::from_overrides(entries.as_slice())
    }

    /// The keys with the overrides of a file, given the file's content. A file that cannot be
    /// read, or that holds no JSON object, overrides nothing.
    pub fn create(content: Option<&str>) -> (r: KeybindingsManager)
        ensures
            ({
                let entries = match content {
                    Some(text) => match json_object_entries(text@) {
                        Some(entries) => entries,
                        None => Seq::empty(),
                    },
                    None => Seq::empty(),
                };
                &&& forall|action: AppAction| #[trigger]
                    r.app_shown(action) == app_keys(entries, action)
                &&& forall|action: EditorAction| #[trigger]
                    r.editor_shown(action) == editor_keys(entries, action)
            }),
    {
        match content {
            Some(text) => match read_json_object(text) {
                Some(entries) => KeybindingsManager::from_overrides(entries.as_slice()),
                None => KeybindingsManager::in_memory(),
            },
            None => KeybindingsManager::in_memory(),
        }
    }

    /// Whether a key press calls an action.
    pub fn matches(&self, event: &KeyEvent, action: AppAction) -> (r: bool)
        ensures
            r == self.calls(*event, action),
    {
        proof {
            use_type_invariant(self);
        }
        self.app[action.index()].matches(event)
    }

    /// Whether a key press calls an action of the editor.
    pub fn matches_editor(&self, event: &KeyEvent, action: EditorAction) -> (r: bool)
        ensures
            r == self.calls_editor(*event, action),
    {
        proof {
            use_type_invariant(self);
        }
        self.editor[action.index()].matches(event)
    }

    /// The first of some actions that a key press calls.
    pub fn resolve_app_action_in(&self, event: &KeyEvent, actions: &[AppAction]) -> (r: Option<
        AppAction,
    >)
        ensures
            r == self.first_called(*event, actions@),
    {
        let mut i: usize = 0;
        assert(actions@.skip(0) =~= actions@);
        while i < actions.len()
            invariant
                0 <= i <= actions.len(),
                self.first_called(*event, actions@.skip(i as int)) == self.first_called(
                    *event,
                    actions@,
                ),
            decreases actions.len() - i,
        {
            assert(actions@.skip(i as int).skip(1) =~= actions@.skip(i + 1));
            if self.matches(event, actions[i]) {
                return Some(actions[i]);
            }
            i += 1;
        }
        None
    }

    /// The first of some actions of the editor that a key press calls.
    pub fn resolve_editor_action_in(&self, event: &KeyEvent, actions: &[EditorAction]) -> (r:
        Option<EditorAction>)
        ensures
            r == self.first_editor_called(*event, actions@),
    {
        let mut i: usize = 0;
        assert(actions@.skip(0) =~= actions@);
        while i < actions.len()
            invariant
                0 <= i <= actions.len(),
                self.first_editor_called(*event, actions@.skip(i as int))
                    == self.first_editor_called(*event, actions@),
            decreases actions.len() - i,
        {
            assert(actions@.skip(i as int).skip(1) =~= actions@.skip(i + 1));
            if self.matches_editor(event, actions[i]) {
                return Some(actions[i]);
            }
            i += 1;
        }
        None
    }

    /// The keys of an action as one text.
    pub fn display(&self, action: AppAction) -> (r: String)
        ensures
            r@ == text::join(self.app_shown(action), " / "@),
    {
        proof {
            use_type_invariant(self);
        }
        join_texts(self.app[action.index()].display.as_slice(), " / ")
    }

    /// The keys of an action of the editor as one text.
    pub fn display_editor(&self, action: EditorAction) -> (r: String)
        ensures
            r@ == text::join(self.editor_shown(action), " / "@),
    {
        proof {
            use_type_invariant(self);
        }
        join_texts(self.editor[action.index()].display.as_slice(), " / ")
    }

    /// What a key press asks of the prompt editor: an action, then completion, then text. A
    /// character with control or alt is no text.
    pub open spec fn prompt_input(self, event: KeyEvent) -> Option<PromptInputView> {
        match self.first_editor_called(event, prompt_editor_actions()) {
            Some(action) => Some(PromptInputView::Action(action)),
            None => if self.calls_editor(event, EditorAction::Tab) {
                Some(PromptInputView::TriggerAutocomplete)
            } else {
                match event.code {
                    KeyCode::Paste(value) => Some(PromptInputView::InsertText(value@)),
                    KeyCode::Char(c) => if !event.modifiers.ctrl && !event.modifiers.alt {
                        Some(PromptInputView::InsertText(seq![c]))
                    } else {
                        None
                    },
                    _ => None,
                }
            },
        }
    }

    /// What a key press asks of the prompt editor.
    pub fn resolve_prompt_editor_input(&self, event: &KeyEvent) -> (r: Option<PromptEditorInput>)
        ensures
            match r {
                Some(input) => self.prompt_input(*event) == Some(input@),
                None => self.prompt_input(*event) is None,
            },
    {
        let actions = vec![
            EditorAction::Submit,
            EditorAction::NewLine,
            EditorAction::Undo,
            EditorAction::Yank,
            EditorAction::YankPop,
            EditorAction::CursorLeft,
            EditorAction::CursorRight,
            EditorAction::CursorWordLeft,
            EditorAction::CursorWordRight,
            EditorAction::CursorLineStart,
            EditorAction::CursorLineEnd,
            EditorAction::DeleteCharBackward,
            EditorAction::DeleteCharForward,
            EditorAction::DeleteWordBackward,
            EditorAction::DeleteWordForward,
            EditorAction::DeleteToLineStart,
            EditorAction::DeleteToLineEnd,
            EditorAction::CursorUp,
            EditorAction::CursorDown,
        ];
        assert(actions@ =~= prompt_editor_actions());
        if let Some(action) = self.resolve_editor_action_in(event, actions.as_slice()) {
            return Some(PromptEditorInput::Action(action));
        }
        if self.matches_editor(event, EditorAction::Tab) {
            return Some(PromptEditorInput::TriggerAutocomplete);
        }
        match &event.code {
            KeyCode::Paste(value) => Some(
                PromptEditorInput::InsertText(copy_text(value.as_str())),
            ),
            KeyCode::Char(c) => {
                if !event.modifiers.ctrl && !event.modifiers.alt {
                    let mut inserted = String::new();
                    inserted.push(*c);
                    assert(inserted@ =~= seq![*c]);
                    Some(PromptEditorInput::InsertText(inserted))
                } else {
                    None
                }
            },
            _ => None,
        }
    }

    /// What a key press asks of the list of completions.
    pub open spec fn autocomplete_input(self, event: KeyEvent) -> Option<PromptAutocompleteInput> {
        match self.first_editor_called(event, prompt_autocomplete_actions()) {
            Some(EditorAction::SelectCancel) => Some(PromptAutocompleteInput::Cancel),
            Some(EditorAction::SelectUp) => Some(PromptAutocompleteInput::NavigateUp),
            Some(EditorAction::SelectDown) => Some(PromptAutocompleteInput::NavigateDown),
            Some(_) => Some(PromptAutocompleteInput::ConfirmSelection),
            None => if self.calls_editor(event, EditorAction::Tab) {
                Some(PromptAutocompleteInput::AcceptCompletion)
            } else {
                None
            },
        }
    }

    /// What a key press asks of the list of completions.
    pub fn resolve_prompt_autocomplete_input(&self, event: &KeyEvent) -> (r: Option<
        PromptAutocompleteInput,
    >)
        ensures
            r == self.autocomplete_input(*event),
    {
        let actions = vec![
            EditorAction::SelectCancel,
            EditorAction::SelectUp,
            EditorAction::SelectDown,
            EditorAction::SelectConfirm,
        ];
        assert(actions@ =~= prompt_autocomplete_actions());
        match self.resolve_editor_action_in(event, actions.as_slice()) {
            Some(EditorAction::SelectCancel) => Some(PromptAutocompleteInput::Cancel),
            Some(EditorAction::SelectUp) => Some(PromptAutocompleteInput::NavigateUp),
            Some(EditorAction::SelectDown) => Some(PromptAutocompleteInput::NavigateDown),
            Some(_) => Some(PromptAutocompleteInput::ConfirmSelection),
            None => if self.matches_editor(event, EditorAction::Tab) {
                Some(PromptAutocompleteInput::AcceptCompletion)
            } else {
                None
            },
        }
    }
}

/// An action without an entry of its own keeps its default keys.
pub proof fn unnamed_actions_keep_their_keys(entries: Entries, action: AppAction)
    requires
        forall|i: int| 0 <= i < entries.len() ==> app_named((#[trigger] entries[i]).0) != Some(action),
    ensures
        app_keys(entries, action) == app_keys(Seq::empty(), action),
{
    no_override(entries, action);
}

proof fn no_override(entries: Entries, action: AppAction)
    requires
        forall|i: int| 0 <= i < entries.len() ==> app_named((#[trigger] entries[i]).0) != Some(action),
    ensures
        app_override(entries, action) is None,
    decreases entries.len(),
{
    if entries.len() > 0 {
        let front = entries.drop_last();
        assert(forall|i: int| 0 <= i < front.len() ==> front[i] == entries[i]);
        assert(entries[entries.len() - 1] == entries.last());
        no_override(front, action);
    }
}

/// The name of an action of the program in the file of key bindings.
pub open spec fn app_name(action: AppAction) -> Seq<char> {
    match action {
        AppAction::Interrupt => "interrupt"@,
        AppAction::Clear => "clear"@,
        AppAction::Exit => "exit"@,
        AppAction::Suspend => "suspend"@,
        AppAction::CycleThinkingLevel => "cycleThinkingLevel"@,
        AppAction::CycleModelForward => "cycleModelForward"@,
        AppAction::CycleModelBackward => "cycleModelBackward"@,
        AppAction::SelectModel => "selectModel"@,
        AppAction::ExpandTools => "expandTools"@,
        AppAction::ToggleThinking => "toggleThinking"@,
        AppAction::ToggleSessionNamedFilter => "toggleSessionNamedFilter"@,
        AppAction::ToggleSessionScope => "toggleSessionScope"@,
        AppAction::ToggleSessionSort => "toggleSessionSort"@,
        AppAction::ToggleSessionPath => "toggleSessionPath"@,
        AppAction::RenameSession => "renameSession"@,
        AppAction::DeleteSession => "deleteSession"@,
        AppAction::EditTreeLabel => "editTreeLabel"@,
        AppAction::ExternalEditor => "externalEditor"@,
        AppAction::FollowUp => "followUp"@,
        AppAction::Dequeue => "dequeue"@,
        AppAction::PasteImage => "pasteImage"@,
        AppAction::NewSession => "newSession"@,
        AppAction::Tree => "tree"@,
        AppAction::Fork => "fork"@,
        AppAction::Resume => "resume"@,
    }
}

/// The letters by which the names of the actions of the program differ.
proof fn app_names_differ()
    ensures
        "interrupt"@.len() == 9,
        "interrupt"@[0] == 'i',
        "clear"@.len() == 5,
        "clear"@[0] == 'c',
        "exit"@.len() == 4,
        "exit"@[0] == 'e',
        "suspend"@.len() == 7,
        "suspend"@[0] == 's',
        "cycleThinkingLevel"@.len() == 18,
        "cycleThinkingLevel"@[0] == 'c',
        "cycleThinkingLevel"@[13] == 'L',
        "cycleModelForward"@.len() == 17,
        "cycleModelForward"@[0] == 'c',
        "cycleModelForward"@[13] == 'w',
        "cycleModelBackward"@.len() == 18,
        "cycleModelBackward"@[0] == 'c',
        "cycleModelBackward"@[13] == 'k',
        "selectModel"@.len() == 11,
        "selectModel"@[0] == 's',
        "expandTools"@.len() == 11,
        "expandTools"@[0] == 'e',
        "toggleThinking"@.len() == 14,
        "toggleThinking"@[0] == 't',
        "toggleThinking"@[13] == 'g',
        "toggleSessionNamedFilter"@.len() == 24,
        "toggleSessionNamedFilter"@[0] == 't',
        "toggleSessionNamedFilter"@[13] == 'N',
        "toggleSessionScope"@.len() == 18,
        "toggleSessionScope"@[0] == 't',
        "toggleSessionScope"@[13] == 'S',
        "toggleSessionSort"@.len() == 17,
        "toggleSessionSort"@[0] == 't',
        "toggleSessionSort"@[13] == 'S',
        "toggleSessionPath"@.len() == 17,
        "toggleSessionPath"@[0] == 't',
        "toggleSessionPath"@[13] == 'P',
        "renameSession"@.len() == 13,
        "renameSession"@[0] == 'r',
        "deleteSession"@.len() == 13,
        "deleteSession"@[0] == 'd',
        "editTreeLabel"@.len() == 13,
        "editTreeLabel"@[0] == 'e',
        "externalEditor"@.len() == 14,
        "externalEditor"@[0] == 'e',
        "externalEditor"@[13] == 'r',
        "followUp"@.len() == 8,
        "followUp"@[0] == 'f',
        "dequeue"@.len() == 7,
        "dequeue"@[0] == 'd',
        "pasteImage"@.len() == 10,
        "pasteImage"@[0] == 'p',
        "newSession"@.len() == 10,
        "newSession"@[0] == 'n',
        "tree"@.len() == 4,
        "tree"@[0] == 't',
        "fork"@.len() == 4,
        "fork"@[0] == 'f',
        "resume"@.len() == 6,
        "resume"@[0] == 'r',
{
    reveal_strlit("interrupt");
    reveal_strlit("clear");
    reveal_strlit("exit");
    reveal_strlit("suspend");
    reveal_strlit("cycleThinkingLevel");
    reveal_strlit("cycleModelForward");
    reveal_strlit("cycleModelBackward");
    reveal_strlit("selectModel");
    reveal_strlit("expandTools");
    reveal_strlit("toggleThinking");
    reveal_strlit("toggleSessionNamedFilter");
    reveal_strlit("toggleSessionScope");
    reveal_strlit("toggleSessionSort");
    reveal_strlit("toggleSessionPath");
    reveal_strlit("renameSession");
    reveal_strlit("deleteSession");
    reveal_strlit("editTreeLabel");
    reveal_strlit("externalEditor");
    reveal_strlit("followUp");
    reveal_strlit("dequeue");
    reveal_strlit("pasteImage");
    reveal_strlit("newSession");
    reveal_strlit("tree");
    reveal_strlit("fork");
    reveal_strlit("resume");
}

/// Each action of the program is read under its own name.
pub proof fn app_names_are_read(action: AppAction)
    ensures
        app_named(app_name(action)) == Some(action),
{
    app_names_differ();
}

/// A binding that names an action takes the place of its keys, and of no other action's keys.
pub proof fn app_bindings_are_read(
    entries: Entries,
    action: AppAction,
    value: Seq<char>,
    other: AppAction,
)
    ensures
        app_keys(entries.push((app_name(action), BindingValueView::Single(value))), action) == seq![
            keys::canonical(value),
        ],
        other != action ==> app_keys(
            entries.push((app_name(action), BindingValueView::Single(value))),
            other,
        ) == app_keys(entries, other),
{
    app_names_are_read(action);
    let longer = entries.push((app_name(action), BindingValueView::Single(value)));
    assert(longer.drop_last() =~= entries);
    assert(longer.last() == (app_name(action), BindingValueView::Single(value)));
    assert(app_keys(longer, action) =~= seq![keys::canonical(value)]);
}

/// Without bindings each action of the program has its usual keys.
pub proof fn usual_app_keys()
    ensures
        app_keys(Seq::empty(), AppAction::Interrupt) == seq![keys::canonical("escape"@)],
        app_keys(Seq::empty(), AppAction::Clear) == seq![keys::canonical("ctrl+c"@)],
        app_keys(Seq::empty(), AppAction::Exit) == seq![keys::canonical("ctrl+d"@)],
        app_keys(Seq::empty(), AppAction::Suspend) == seq![keys::canonical("ctrl+z"@)],
        app_keys(Seq::empty(), AppAction::CycleThinkingLevel) == seq![keys::canonical("shift+tab"@)],
        app_keys(Seq::empty(), AppAction::CycleModelForward) == seq![keys::canonical("ctrl+p"@)],
        app_keys(Seq::empty(), AppAction::CycleModelBackward) == seq![keys::canonical("ctrl+shift+p"@)],
        app_keys(Seq::empty(), AppAction::SelectModel) == seq![keys::canonical("ctrl+l"@)],
        app_keys(Seq::empty(), AppAction::ExpandTools) == seq![keys::canonical("ctrl+o"@)],
        app_keys(Seq::empty(), AppAction::ToggleThinking) == seq![keys::canonical("ctrl+t"@)],
        app_keys(Seq::empty(), AppAction::ToggleSessionNamedFilter) == seq![keys::canonical("ctrl+n"@)],
        app_keys(Seq::empty(), AppAction::ToggleSessionScope) == seq![keys::canonical("tab"@)],
        app_keys(Seq::empty(), AppAction::ToggleSessionSort) == seq![keys::canonical("ctrl+s"@)],
        app_keys(Seq::empty(), AppAction::ToggleSessionPath) == seq![keys::canonical("ctrl+p"@)],
        app_keys(Seq::empty(), AppAction::RenameSession) == seq![keys::canonical("ctrl+r"@)],
        app_keys(Seq::empty(), AppAction::DeleteSession) == seq![keys::canonical("ctrl+d"@)],
        app_keys(Seq::empty(), AppAction::EditTreeLabel) == seq![keys::canonical("shift+l"@)],
        app_keys(Seq::empty(), AppAction::ExternalEditor) == seq![keys::canonical("ctrl+g"@)],
        app_keys(Seq::empty(), AppAction::FollowUp) == seq![keys::canonical("alt+enter"@)],
        app_keys(Seq::empty(), AppAction::Dequeue) == seq![keys::canonical("alt+up"@)],
        app_keys(Seq::empty(), AppAction::PasteImage) == seq![keys::canonical("ctrl+v"@)],
        app_keys(Seq::empty(), AppAction::NewSession).len() == 0,
        app_keys(Seq::empty(), AppAction::Tree).len() == 0,
        app_keys(Seq::empty(), AppAction::Fork).len() == 0,
        app_keys(Seq::empty(), AppAction::Resume).len() == 0,
{
    assert(app_keys(Seq::empty(), AppAction::Interrupt) =~= seq![keys::canonical("escape"@)]);
    assert(app_keys(Seq::empty(), AppAction::Clear) =~= seq![keys::canonical("ctrl+c"@)]);
    assert(app_keys(Seq::empty(), AppAction::Exit) =~= seq![keys::canonical("ctrl+d"@)]);
    assert(app_keys(Seq::empty(), AppAction::Suspend) =~= seq![keys::canonical("ctrl+z"@)]);
    assert(app_keys(Seq::empty(), AppAction::CycleThinkingLevel) =~= seq![keys::canonical("shift+tab"@)]);
    assert(app_keys(Seq::empty(), AppAction::CycleModelForward) =~= seq![keys::canonical("ctrl+p"@)]);
    assert(app_keys(Seq::empty(), AppAction::CycleModelBackward) =~= seq![keys::canonical("ctrl+shift+p"@)]);
    assert(app_keys(Seq::empty(), AppAction::SelectModel) =~= seq![keys::canonical("ctrl+l"@)]);
    assert(app_keys(Seq::empty(), AppAction::ExpandTools) =~= seq![keys::canonical("ctrl+o"@)]);
    assert(app_keys(Seq::empty(), AppAction::ToggleThinking) =~= seq![keys::canonical("ctrl+t"@)]);
    assert(app_keys(Seq::empty(), AppAction::ToggleSessionNamedFilter) =~= seq![keys::canonical("ctrl+n"@)]);
    assert(app_keys(Seq::empty(), AppAction::ToggleSessionScope) =~= seq![keys::canonical("tab"@)]);
    assert(app_keys(Seq::empty(), AppAction::ToggleSessionSort) =~= seq![keys::canonical("ctrl+s"@)]);
    assert(app_keys(Seq::empty(), AppAction::ToggleSessionPath) =~= seq![keys::canonical("ctrl+p"@)]);
    assert(app_keys(Seq::empty(), AppAction::RenameSession) =~= seq![keys::canonical("ctrl+r"@)]);
    assert(app_keys(Seq::empty(), AppAction::DeleteSession) =~= seq![keys::canonical("ctrl+d"@)]);
    assert(app_keys(Seq::empty(), AppAction::EditTreeLabel) =~= seq![keys::canonical("shift+l"@)]);
    assert(app_keys(Seq::empty(), AppAction::ExternalEditor) =~= seq![keys::canonical("ctrl+g"@)]);
    assert(app_keys(Seq::empty(), AppAction::FollowUp) =~= seq![keys::canonical("alt+enter"@)]);
    assert(app_keys(Seq::empty(), AppAction::Dequeue) =~= seq![keys::canonical("alt+up"@)]);
    assert(app_keys(Seq::empty(), AppAction::PasteImage) =~= seq![keys::canonical("ctrl+v"@)]);
}

/// The name of an action of the editor in the file of key bindings.
pub open spec fn editor_name(action: EditorAction) -> Seq<char> {
    match action {
        EditorAction::CursorUp => "cursorUp"@,
        EditorAction::CursorDown => "cursorDown"@,
        EditorAction::CursorLeft => "cursorLeft"@,
        EditorAction::CursorRight => "cursorRight"@,
        EditorAction::CursorWordLeft => "cursorWordLeft"@,
        EditorAction::CursorWordRight => "cursorWordRight"@,
        EditorAction::CursorLineStart => "cursorLineStart"@,
        EditorAction::CursorLineEnd => "cursorLineEnd"@,
        EditorAction::DeleteCharBackward => "deleteCharBackward"@,
        EditorAction::DeleteCharForward => "deleteCharForward"@,
        EditorAction::DeleteWordBackward => "deleteWordBackward"@,
        EditorAction::DeleteWordForward => "deleteWordForward"@,
        EditorAction::DeleteToLineStart => "deleteToLineStart"@,
        EditorAction::DeleteToLineEnd => "deleteToLineEnd"@,
        EditorAction::NewLine => "newLine"@,
        EditorAction::Submit => "submit"@,
        EditorAction::Tab => "tab"@,
        EditorAction::SelectUp => "selectUp"@,
        EditorAction::SelectDown => "selectDown"@,
        EditorAction::SelectConfirm => "selectConfirm"@,
        EditorAction::SelectCancel => "selectCancel"@,
        EditorAction::Yank => "yank"@,
        EditorAction::YankPop => "yankPop"@,
        EditorAction::Undo => "undo"@,
    }
}

/// The letters by which the names of the actions of the editor differ.
proof fn editor_names_differ()
    ensures
        "cursorUp"@.len() == 8,
        "cursorUp"@[0] == 'c',
        "cursorUp"@[6] == 'U',
        "cursorDown"@.len() == 10,
        "cursorDown"@[0] == 'c',
        "cursorDown"@[6] == 'D',
        "cursorLeft"@.len() == 10,
        "cursorLeft"@[0] == 'c',
        "cursorLeft"@[6] == 'L',
        "cursorRight"@.len() == 11,
        "cursorRight"@[0] == 'c',
        "cursorRight"@[6] == 'R',
        "cursorWordLeft"@.len() == 14,
        "cursorWordLeft"@[0] == 'c',
        "cursorWordLeft"@[6] == 'W',
        "cursorWordRight"@.len() == 15,
        "cursorWordRight"@[0] == 'c',
        "cursorWordRight"@[6] == 'W',
        "cursorLineStart"@.len() == 15,
        "cursorLineStart"@[0] == 'c',
        "cursorLineStart"@[6] == 'L',
        "cursorLineEnd"@.len() == 13,
        "cursorLineEnd"@[0] == 'c',
        "cursorLineEnd"@[6] == 'L',
        "deleteCharBackward"@.len() == 18,
        "deleteCharBackward"@[0] == 'd',
        "deleteCharBackward"@[6] == 'C',
        "deleteCharForward"@.len() == 17,
        "deleteCharForward"@[0] == 'd',
        "deleteCharForward"@[6] == 'C',
        "deleteWordBackward"@.len() == 18,
        "deleteWordBackward"@[0] == 'd',
        "deleteWordBackward"@[6] == 'W',
        "deleteWordForward"@.len() == 17,
        "deleteWordForward"@[0] == 'd',
        "deleteWordForward"@[6] == 'W',
        "deleteToLineStart"@.len() == 17,
        "deleteToLineStart"@[0] == 'd',
        "deleteToLineStart"@[6] == 'T',
        "deleteToLineEnd"@.len() == 15,
        "deleteToLineEnd"@[0] == 'd',
        "deleteToLineEnd"@[6] == 'T',
        "newLine"@.len() == 7,
        "newLine"@[0] == 'n',
        "newLine"@[6] == 'e',
        "submit"@.len() == 6,
        "submit"@[0] == 's',
        "tab"@.len() == 3,
        "tab"@[0] == 't',
        "selectUp"@.len() == 8,
        "selectUp"@[0] == 's',
        "selectUp"@[6] == 'U',
        "selectDown"@.len() == 10,
        "selectDown"@[0] == 's',
        "selectDown"@[6] == 'D',
        "selectConfirm"@.len() == 13,
        "selectConfirm"@[0] == 's',
        "selectConfirm"@[6] == 'C',
        "selectCancel"@.len() == 12,
        "selectCancel"@[0] == 's',
        "selectCancel"@[6] == 'C',
        "yank"@.len() == 4,
        "yank"@[0] == 'y',
        "yankPop"@.len() == 7,
        "yankPop"@[0] == 'y',
        "yankPop"@[6] == 'p',
        "undo"@.len() == 4,
        "undo"@[0] == 'u',
{
    reveal_strlit("cursorUp");
    reveal_strlit("cursorDown");
    reveal_strlit("cursorLeft");
    reveal_strlit("cursorRight");
    reveal_strlit("cursorWordLeft");
    reveal_strlit("cursorWordRight");
    reveal_strlit("cursorLineStart");
    reveal_strlit("cursorLineEnd");
    reveal_strlit("deleteCharBackward");
    reveal_strlit("deleteCharForward");
    reveal_strlit("deleteWordBackward");
    reveal_strlit("deleteWordForward");
    reveal_strlit("deleteToLineStart");
    reveal_strlit("deleteToLineEnd");
    reveal_strlit("newLine");
    reveal_strlit("submit");
    reveal_strlit("tab");
    reveal_strlit("selectUp");
    reveal_strlit("selectDown");
    reveal_strlit("selectConfirm");
    reveal_strlit("selectCancel");
    reveal_strlit("yank");
    reveal_strlit("yankPop");
    reveal_strlit("undo");
}

/// Each action of the editor is read under its own name.
pub proof fn editor_names_are_read(action: EditorAction)
    ensures
        editor_named(editor_name(action)) == Some(action),
{
    editor_names_differ();
}

/// A binding that names an action takes the place of its keys, and of no other action's keys.
pub proof fn editor_bindings_are_read(
    entries: Entries,
    action: EditorAction,
    value: Seq<char>,
    other: EditorAction,
)
    ensures
        editor_keys(entries.push((editor_name(action), BindingValueView::Single(value))), action) == seq![
            keys::canonical(value),
        ],
        other != action ==> editor_keys(
            entries.push((editor_name(action), BindingValueView::Single(value))),
            other,
        ) == editor_keys(entries, other),
{
    editor_names_are_read(action);
    let longer = entries.push((editor_name(action), BindingValueView::Single(value)));
    assert(longer.drop_last() =~= entries);
    assert(longer.last() == (editor_name(action), BindingValueView::Single(value)));
    assert(editor_keys(longer, action) =~= seq![keys::canonical(value)]);
}

/// Without bindings each action of the editor has its usual keys.
pub proof fn usual_editor_keys()
    ensures
        editor_keys(Seq::empty(), EditorAction::CursorUp) == seq![keys::canonical("up"@)],
        editor_keys(Seq::empty(), EditorAction::CursorDown) == seq![keys::canonical("down"@)],
        editor_keys(Seq::empty(), EditorAction::CursorLeft) == seq![keys::canonical("left"@), keys::canonical("ctrl+b"@)],
        editor_keys(Seq::empty(), EditorAction::CursorRight) == seq![keys::canonical("right"@), keys::canonical("ctrl+f"@)],
        editor_keys(Seq::empty(), EditorAction::CursorWordLeft) == seq![keys::canonical("alt+left"@), keys::canonical("ctrl+left"@), keys::canonical("alt+b"@)],
        editor_keys(Seq::empty(), EditorAction::CursorWordRight) == seq![keys::canonical("alt+right"@), keys::canonical("ctrl+right"@), keys::canonical("alt+f"@)],
        editor_keys(Seq::empty(), EditorAction::CursorLineStart) == seq![keys::canonical("home"@), keys::canonical("ctrl+a"@)],
        editor_keys(Seq::empty(), EditorAction::CursorLineEnd) == seq![keys::canonical("end"@), keys::canonical("ctrl+e"@)],
        editor_keys(Seq::empty(), EditorAction::DeleteCharBackward) == seq![keys::canonical("backspace"@)],
        editor_keys(Seq::empty(), EditorAction::DeleteCharForward) == seq![keys::canonical("delete"@), keys::canonical("ctrl+d"@)],
        editor_keys(Seq::empty(), EditorAction::DeleteWordBackward) == seq![keys::canonical("ctrl+w"@), keys::canonical("alt+backspace"@)],
        editor_keys(Seq::empty(), EditorAction::DeleteWordForward) == seq![keys::canonical("alt+d"@), keys::canonical("alt+delete"@)],
        editor_keys(Seq::empty(), EditorAction::DeleteToLineStart) == seq![keys::canonical("ctrl+u"@)],
        editor_keys(Seq::empty(), EditorAction::DeleteToLineEnd) == seq![keys::canonical("ctrl+k"@)],
        editor_keys(Seq::empty(), EditorAction::NewLine) == seq![keys::canonical("shift+enter"@)],
        editor_keys(Seq::empty(), EditorAction::Submit) == seq![keys::canonical("enter"@)],
        editor_keys(Seq::empty(), EditorAction::Tab) == seq![keys::canonical("tab"@)],
        editor_keys(Seq::empty(), EditorAction::SelectUp) == seq![keys::canonical("up"@)],
        editor_keys(Seq::empty(), EditorAction::SelectDown) == seq![keys::canonical("down"@)],
        editor_keys(Seq::empty(), EditorAction::SelectConfirm) == seq![keys::canonical("enter"@)],
        editor_keys(Seq::empty(), EditorAction::SelectCancel) == seq![keys::canonical("escape"@), keys::canonical("ctrl+c"@)],
        editor_keys(Seq::empty(), EditorAction::Yank) == seq![keys::canonical("ctrl+y"@)],
        editor_keys(Seq::empty(), EditorAction::YankPop) == seq![keys::canonical("alt+y"@)],
        editor_keys(Seq::empty(), EditorAction::Undo) == seq![keys::canonical("ctrl+-"@)],
{
    assert(editor_keys(Seq::empty(), EditorAction::CursorUp) =~= seq![keys::canonical("up"@)]);
    assert(editor_keys(Seq::empty(), EditorAction::CursorDown) =~= seq![keys::canonical("down"@)]);
    assert(editor_keys(Seq::empty(), EditorAction::CursorLeft) =~= seq![keys::canonical("left"@), keys::canonical("ctrl+b"@)]);
    assert(editor_keys(Seq::empty(), EditorAction::CursorRight) =~= seq![keys::canonical("right"@), keys::canonical("ctrl+f"@)]);
    assert(editor_keys(Seq::empty(), EditorAction::CursorWordLeft) =~= seq![keys::canonical("alt+left"@), keys::canonical("ctrl+left"@), keys::canonical("alt+b"@)]);
    assert(editor_keys(Seq::empty(), EditorAction::CursorWordRight) =~= seq![keys::canonical("alt+right"@), keys::canonical("ctrl+right"@), keys::canonical("alt+f"@)]);
    assert(editor_keys(Seq::empty(), EditorAction::CursorLineStart) =~= seq![keys::canonical("home"@), keys::canonical("ctrl+a"@)]);
    assert(editor_keys(Seq::empty(), EditorAction::CursorLineEnd) =~= seq![keys::canonical("end"@), keys::canonical("ctrl+e"@)]);
    assert(editor_keys(Seq::empty(), EditorAction::DeleteCharBackward) =~= seq![keys::canonical("backspace"@)]);
    assert(editor_keys(Seq::empty(), EditorAction::DeleteCharForward) =~= seq![keys::canonical("delete"@), keys::canonical("ctrl+d"@)]);
    assert(editor_keys(Seq::empty(), EditorAction::DeleteWordBackward) =~= seq![keys::canonical("ctrl+w"@), keys::canonical("alt+backspace"@)]);
    assert(editor_keys(Seq::empty(), EditorAction::DeleteWordForward) =~= seq![keys::canonical("alt+d"@), keys::canonical("alt+delete"@)]);
    assert(editor_keys(Seq::empty(), EditorAction::DeleteToLineStart) =~= seq![keys::canonical("ctrl+u"@)]);
    assert(editor_keys(Seq::empty(), EditorAction::DeleteToLineEnd) =~= seq![keys::canonical("ctrl+k"@)]);
    assert(editor_keys(Seq::empty(), EditorAction::NewLine) =~= seq![keys::canonical("shift+enter"@)]);
    assert(editor_keys(Seq::empty(), EditorAction::Submit) =~= seq![keys::canonical("enter"@)]);
    assert(editor_keys(Seq::empty(), EditorAction::Tab) =~= seq![keys::canonical("tab"@)]);
    assert(editor_keys(Seq::empty(), EditorAction::SelectUp) =~= seq![keys::canonical("up"@)]);
    assert(editor_keys(Seq::empty(), EditorAction::SelectDown) =~= seq![keys::canonical("down"@)]);
    assert(editor_keys(Seq::empty(), EditorAction::SelectConfirm) =~= seq![keys::canonical("enter"@)]);
    assert(editor_keys(Seq::empty(), EditorAction::SelectCancel) =~= seq![keys::canonical("escape"@), keys::canonical("ctrl+c"@)]);
    assert(editor_keys(Seq::empty(), EditorAction::Yank) =~= seq![keys::canonical("ctrl+y"@)]);
    assert(editor_keys(Seq::empty(), EditorAction::YankPop) =~= seq![keys::canonical("alt+y"@)]);
    assert(editor_keys(Seq::empty(), EditorAction::Undo) =~= seq![keys::canonical("ctrl+-"@)]);
}

/// Of some actions, a key press calls the first that it is bound to, and none where it is bound to
/// none of them.
pub proof fn first_bound_action_is_called(
    keys: KeybindingsManager,
    event: KeyEvent,
    actions: Seq<AppAction>,
    k: int,
)
    ensures
        0 <= k < actions.len() && keys.calls(event, actions[k]) && (forall|i: int|
            0 <= i < k ==> !keys.calls(event, #[trigger] actions[i])) ==> keys.first_called(
            event,
            actions,
        ) == Some(actions[k]),
        (forall|i: int| 0 <= i < actions.len() ==> !keys.calls(event, #[trigger] actions[i]))
            ==> keys.first_called(event, actions) is None,
    decreases actions.len(),
{
    if actions.len() > 0 {
        let rest = actions.skip(1);
        first_bound_action_is_called(keys, event, rest, k - 1);
        if 0 < k < actions.len() && keys.calls(event, actions[k]) && (forall|i: int|
            0 <= i < k ==> !keys.calls(event, #[trigger] actions[i])) {
            assert(!keys.calls(event, actions[0]));
            assert(rest[k - 1] == actions[k]);
            assert forall|i: int| 0 <= i < k - 1 implies !keys.calls(event, #[trigger] rest[i]) by {
                assert(rest[i] == actions[i + 1]);
            }
        }
        if forall|i: int| 0 <= i < actions.len() ==> !keys.calls(event, #[trigger] actions[i]) {
            assert(!keys.calls(event, actions[0]));
            assert forall|i: int| 0 <= i < rest.len() implies !keys.calls(
                event,
                #[trigger] rest[i],
            ) by {
                assert(rest[i] == actions[i + 1]);
            }
        }
    }
}

} // verus!
