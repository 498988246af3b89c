//! What a key press leads to that no overlay has taken, and what is said of it.
use vstd::prelude::*;
use crate::chrome;
use crate::keybindings::{AppAction, KeybindingsManager};
use crate::keys::KeyEvent;
use crate::overlay;
use crate::overlay::{matches_ctrl_char, plain_escape, say, Status, StatusView};
use crate::text;
use crate::text::{cat2, cat3, cat4, contains, copy_text, same, trimmed};

verus! {

broadcast use crate::text::group_texts;

/// What is going on while a key is pressed.
#[derive(Clone, Copy, Debug, PartialEq, Eq, Structural)]
pub struct Busy {
    /// A login runs.
    pub auth: bool,
    /// An answer is being written.
    pub prompt: bool,
    /// An overlay is open.
    pub overlay: bool,
}

impl Busy {
    /// Whether a login or an answer is on its way.
    pub open spec fn working(self) -> bool {
        self.auth || self.prompt
    }
}

/// What a key press leads to.
#[derive(Clone, Debug, PartialEq, Eq)]
pub enum GlobalAction {
    /// The key press is meant for something else.
    PassOn,
    /// Nothing but what is said.
    Done,
    /// The login is cancelled.
    CancelLogin,
    /// The answer is broken off.
    Abort,
    /// The prompt is emptied.
    ClearPrompt,
    /// Another press within a second ends the program.
    ArmExit,
    Quit,
    Suspend,
    OpenModels,
    CycleModelForward,
    CycleModelBackward,
    CycleThinking,
    ToggleThinking,
    ToggleTools,
    NewSession,
    OpenSessions,
    OpenTree,
    OpenFork,
    PasteImage,
    Dequeue,
    /// A text is queued until the answer is complete.
    QueueFollowUp(String),
}

/// What a key press leads to, as a mathematical value.
pub enum GlobalView {
    PassOn,
    Done,
    CancelLogin,
    Abort,
    ClearPrompt,
    ArmExit,
    Quit,
    Suspend,
    OpenModels,
    CycleModelForward,
    CycleModelBackward,
    CycleThinking,
    ToggleThinking,
    ToggleTools,
    NewSession,
    OpenSessions,
    OpenTree,
    OpenFork,
    PasteImage,
    Dequeue,
    QueueFollowUp(Seq<char>),
}

impl View for GlobalAction {
    type V = GlobalView;

    open spec fn view(&self) -> GlobalView {
        match self {
            GlobalAction::PassOn => GlobalView::PassOn,
            GlobalAction::Done => GlobalView::Done,
            GlobalAction::CancelLogin => GlobalView::CancelLogin,
            GlobalAction::Abort => GlobalView::Abort,
            GlobalAction::ClearPrompt => GlobalView::ClearPrompt,
            GlobalAction::ArmExit => GlobalView::ArmExit,
            GlobalAction::Quit => GlobalView::Quit,
            GlobalAction::Suspend => GlobalView::Suspend,
            GlobalAction::OpenModels => GlobalView::OpenModels,
            GlobalAction::CycleModelForward => GlobalView::CycleModelForward,
            GlobalAction::CycleModelBackward => GlobalView::CycleModelBackward,
            GlobalAction::CycleThinking => GlobalView::CycleThinking,
            GlobalAction::ToggleThinking => GlobalView::ToggleThinking,
            GlobalAction::ToggleTools => GlobalView::ToggleTools,
            GlobalAction::NewSession => GlobalView::NewSession,
            GlobalAction::OpenSessions => GlobalView::OpenSessions,
            GlobalAction::OpenTree => GlobalView::OpenTree,
            GlobalAction::OpenFork => GlobalView::OpenFork,
            GlobalAction::PasteImage => GlobalView::PasteImage,
            GlobalAction::Dequeue => GlobalView::Dequeue,
            GlobalAction::QueueFollowUp(s) => GlobalView::QueueFollowUp(s@),
        }
    }
}

/// An action, and what is said.
pub type GlobalStep = (GlobalView, StatusView);

/// The login is cancelled.
pub open spec fn cancel_login() -> GlobalStep {
    (GlobalView::CancelLogin, StatusView::Say("Cancelling login..."@))
}

/// The answer is broken off.
pub open spec fn abort() -> GlobalStep {
    (GlobalView::Abort, StatusView::Say("Abort requested."@))
}

/// What the key that clears leads to: it cancels what runs, else empties the prompt, and on an empty
/// prompt a second press within a second ends the program.
pub open spec fn clear_step(busy: Busy, prompt: Seq<char>, armed: bool) -> GlobalStep {
    if busy.auth {
        cancel_login()
    } else if busy.prompt {
        abort()
    } else if prompt.len() > 0 {
        (GlobalView::ClearPrompt, StatusView::Say("Cleared input."@))
    } else if armed {
        (GlobalView::Quit, StatusView::Keep)
    } else {
        (GlobalView::ArmExit, StatusView::Say("Press Ctrl+C again to exit."@))
    }
}

/// An action that has to wait while something runs.
pub open spec fn unless_working(busy: Busy, action: GlobalView, refusal: Seq<char>) -> GlobalStep {
    if busy.working() {
        (GlobalView::Done, StatusView::Say(refusal))
    } else {
        (action, StatusView::Keep)
    }
}

/// Why an overlay cannot be opened now.
pub open spec fn wait_message() -> Seq<char> {
    "Wait for the current operation or press Esc to cancel first."@
}

/// Why the model cannot be changed now.
pub open spec fn model_message() -> Seq<char> {
    "Model switching is unavailable while the agent is working."@
}

/// Why the thinking level cannot be changed now.
pub open spec fn thinking_message() -> Seq<char> {
    "Thinking level changes are unavailable while the agent is working."@
}

/// What a key press leads to.
pub open spec fn global_step(
    keys: KeybindingsManager,
    busy: Busy,
    prompt: Seq<char>,
    armed: bool,
    event: KeyEvent,
) -> GlobalStep {
    let pass = (GlobalView::PassOn, StatusView::Keep);
    let entered = text::trim(prompt);
    if keys.calls(event, AppAction::Clear) {
        clear_step(busy, prompt, armed)
    } else if keys.calls(event, AppAction::Suspend) {
        (GlobalView::Suspend, StatusView::Keep)
    } else if keys.calls(event, AppAction::Exit) && entered.len() == 0 {
        if busy.auth {
            cancel_login()
        } else {
            (GlobalView::Quit, StatusView::Keep)
        }
    } else if keys.calls(event, AppAction::Interrupt) && busy.working() {
        if busy.auth {
            cancel_login()
        } else {
            abort()
        }
    } else if keys.calls(event, AppAction::SelectModel) {
        unless_working(busy, GlobalView::OpenModels, wait_message())
    } else if keys.calls(event, AppAction::CycleModelForward) {
        unless_working(busy, GlobalView::CycleModelForward, model_message())
    } else if keys.calls(event, AppAction::CycleModelBackward) {
        unless_working(busy, GlobalView::CycleModelBackward, model_message())
    } else if keys.calls(event, AppAction::CycleThinkingLevel) {
        unless_working(busy, GlobalView::CycleThinking, thinking_message())
    } else if keys.calls(event, AppAction::ToggleThinking) {
        (GlobalView::ToggleThinking, StatusView::Keep)
    } else if keys.calls(event, AppAction::ExpandTools) {
        (GlobalView::ToggleTools, StatusView::Keep)
    } else {
        later_step(keys, busy, prompt, event)
    }
}

/// What a key press leads to that none of the first actions takes.
pub open spec fn later_step(
    keys: KeybindingsManager,
    busy: Busy,
    prompt: Seq<char>,
    event: KeyEvent,
) -> GlobalStep {
    let pass = (GlobalView::PassOn, StatusView::Keep);
    let entered = text::trim(prompt);
    if keys.calls(event, AppAction::NewSession) {
        unless_working(busy, GlobalView::NewSession, wait_message())
    } else if keys.calls(event, AppAction::Resume) {
        unless_working(busy, GlobalView::OpenSessions, wait_message())
    } else if keys.calls(event, AppAction::Tree) {
        unless_working(busy, GlobalView::OpenTree, wait_message())
    } else if keys.calls(event, AppAction::Fork) {
        unless_working(busy, GlobalView::OpenFork, wait_message())
    } else if keys.calls(event, AppAction::ExternalEditor) {
        if busy.working() {
            (GlobalView::Done, StatusView::Say(wait_message()))
        } else if busy.overlay {
            (
                GlobalView::Done,
                StatusView::Say("Close the current selector before opening the editor."@),
            )
        } else {
            pass
        }
    } else if keys.calls(event, AppAction::PasteImage) {
        if busy.overlay || busy.working() {
            (GlobalView::Done, StatusView::Keep)
        } else {
            (GlobalView::PasteImage, StatusView::Keep)
        }
    } else if keys.calls(event, AppAction::Dequeue) && busy.prompt {
        (GlobalView::Dequeue, StatusView::Keep)
    } else if keys.calls(event, AppAction::FollowUp) && busy.prompt {
        if entered.len() > 0 {
            (GlobalView::QueueFollowUp(entered), StatusView::Keep)
        } else {
            (GlobalView::Done, StatusView::Keep)
        }
    } else {
        pass
    }
}

fn guarded(busy: Busy, action: GlobalAction, refusal: &str) -> (r: (GlobalAction, Status))
    ensures
        (r.0@, r.1@) == unless_working(busy, action@, refusal@),
{
    if busy.auth || busy.prompt {
        (GlobalAction::Done, say(refusal))
    } else {
        (action, Status::Keep)
    }
}

fn clear_key(busy: Busy, prompt_text: &str, armed: bool) -> (r: (GlobalAction, Status))
    ensures
        (r.0@, r.1@) == clear_step(busy, prompt_text@, armed),
{
    if busy.auth {
        return (GlobalAction::CancelLogin, say("Cancelling login..."));
    }
    if busy.prompt {
        return (GlobalAction::Abort, say("Abort requested."));
    }
    if !prompt_text.is_empty() {
        return (GlobalAction::ClearPrompt, say("Cleared input."));
    }
    if armed {
        return (GlobalAction::Quit, Status::Keep);
    }
    (GlobalAction::ArmExit, say("Press Ctrl+C again to exit."))
}

fn later_key(keybindings: &KeybindingsManager, busy: Busy, prompt_text: &str, event: &KeyEvent) -> (r: (
    GlobalAction,
    Status,
))
    ensures
        (r.0@, r.1@) == later_step(*keybindings, busy, prompt_text@, *event),
{
    let wait = "Wait for the current operation or press Esc to cancel first.";
    if keybindings.matches(event, AppAction::NewSession) {
        return guarded(busy, GlobalAction::NewSession, wait);
    }
    if keybindings.matches(event, AppAction::Resume) {
        return guarded(busy, GlobalAction::OpenSessions, wait);
    }
    if keybindings.matches(event, AppAction::Tree) {
        return guarded(busy, GlobalAction::OpenTree, wait);
    }
    if keybindings.matches(event, AppAction::Fork) {
        return guarded(busy, GlobalAction::OpenFork, wait);
    }
    if keybindings.matches(event, AppAction::ExternalEditor) {
        if busy.auth || busy.prompt {
            return (GlobalAction::Done, say(wait));
        }
        if busy.overlay {
            return (
                GlobalAction::Done,
                say("Close the current selector before opening the editor."),
            );
        }
        return (GlobalAction::PassOn, Status::Keep);
    }
    if keybindings.matches(event, AppAction::PasteImage) {
        if busy.overlay || busy.auth || busy.prompt {
            return (GlobalAction::Done, Status::Keep);
        }
        return (GlobalAction::PasteImage, Status::Keep);
    }
    if busy.prompt && keybindings.matches(event, AppAction::Dequeue) {
        return (GlobalAction::Dequeue, Status::Keep);
    }
    if busy.prompt && keybindings.matches(event, AppAction::FollowUp) {
        let entered = trimmed(prompt_text);
        if entered.as_str().is_empty() {
            return (GlobalAction::Done, Status::Keep);
        }
        return (GlobalAction::QueueFollowUp(entered), Status::Keep);
    }
    (GlobalAction::PassOn, Status::Keep)
}

/// What a key press leads to that no overlay has taken, and what is said. `armed` says whether the
/// key that clears was pressed on an empty prompt within the last second.
pub fn handle_global_keybinding(
    keybindings: &KeybindingsManager,
    busy: Busy,
    prompt_text: &str,
    armed: bool,
    event: &KeyEvent,
) -> (r: (GlobalAction, Status))
    ensures
        (r.0@, r.1@) == global_step(*keybindings, busy, prompt_text@, armed, *event),
{
    if keybindings.matches(event, AppAction::Clear) {
        return clear_key(busy, prompt_text, armed);
    }
    if keybindings.matches(event, AppAction::Suspend) {
        return (GlobalAction::Suspend, Status::Keep);
    }
    if keybindings.matches(event, AppAction::Exit) && trimmed(prompt_text).as_str().is_empty() {
        if busy.auth {
            return (GlobalAction::CancelLogin, say("Cancelling login..."));
        }
        return (GlobalAction::Quit, Status::Keep);
    }
    if keybindings.matches(event, AppAction::Interrupt) && (busy.prompt || busy.auth) {
        if busy.auth {
            return (GlobalAction::CancelLogin, say("Cancelling login..."));
        }
        return (GlobalAction::Abort, say("Abort requested."));
    }
    let model = "Model switching is unavailable while the agent is working.";
    if keybindings.matches(event, AppAction::SelectModel) {
        return guarded(
            busy,
            GlobalAction::OpenModels,
            "Wait for the current operation or press Esc to cancel first.",
        );
    }
    if keybindings.matches(event, AppAction::CycleModelForward) {
        return guarded(busy, GlobalAction::CycleModelForward, model);
    }
    if keybindings.matches(event, AppAction::CycleModelBackward) {
        return guarded(busy, GlobalAction::CycleModelBackward, model);
    }
    if keybindings.matches(event, AppAction::CycleThinkingLevel) {
        return guarded(
            busy,
            GlobalAction::CycleThinking,
            "Thinking level changes are unavailable while the agent is working.",
        );
    }
    if keybindings.matches(event, AppAction::ToggleThinking) {
        return (GlobalAction::ToggleThinking, Status::Keep);
    }
    if keybindings.matches(event, AppAction::ExpandTools) {
        return (GlobalAction::ToggleTools, Status::Keep);
    }
    later_key(keybindings, busy, prompt_text, event)
}

/// Whether an action changes the session or its model.
pub open spec fn changes_session(action: GlobalView) -> bool {
    match action {
        GlobalView::OpenModels => true,
        GlobalView::CycleModelForward => true,
        GlobalView::CycleModelBackward => true,
        GlobalView::CycleThinking => true,
        GlobalView::NewSession => true,
        GlobalView::OpenSessions => true,
        GlobalView::OpenTree => true,
        GlobalView::OpenFork => true,
        _ => false,
    }
}

/// While a login or an answer is on its way, no key press changes the session or its model.
pub proof fn work_is_not_disturbed(
    keys: KeybindingsManager,
    busy: Busy,
    prompt: Seq<char>,
    armed: bool,
    event: KeyEvent,
)
    requires
        busy.working(),
    ensures
        !changes_session(global_step(keys, busy, prompt, armed, event).0),
{
}

/// No key press ends the program while text stands in the prompt.
pub proof fn text_is_not_lost(
    keys: KeybindingsManager,
    busy: Busy,
    prompt: Seq<char>,
    armed: bool,
    event: KeyEvent,
)
    requires
        text::trim(prompt).len() > 0,
    ensures
        !(global_step(keys, busy, prompt, armed, event).0 is Quit),
{
    reveal_with_fuel(text::trim_start, 1);
    if prompt.len() == 0 {
        assert(text::trim_start(prompt) =~= prompt);
    }
}

/// The key that clears never does anything but cancel, break off, empty the prompt or leave.
pub proof fn clear_cancels_first(
    keys: KeybindingsManager,
    busy: Busy,
    prompt: Seq<char>,
    armed: bool,
    event: KeyEvent,
)
    requires
        keys.calls(event, AppAction::Clear),
    ensures
        busy.auth ==> global_step(keys, busy, prompt, armed, event).0 is CancelLogin,
        !busy.auth && busy.prompt ==> global_step(keys, busy, prompt, armed, event).0 is Abort,
{
}

/// How the loop goes on after an action.
#[derive(Clone, Copy, Debug, PartialEq, Eq, Structural)]
pub enum GlobalKeyAction {
    PassOn,
    Continue,
    Suspend,
    Quit,
}

/// How the loop goes on after an action.
pub fn loop_action(action: &GlobalAction) -> (r: GlobalKeyAction)
    ensures
        r == (match action@ {
            GlobalView::PassOn => GlobalKeyAction::PassOn,
            GlobalView::Suspend => GlobalKeyAction::Suspend,
            GlobalView::Quit => GlobalKeyAction::Quit,
            _ => GlobalKeyAction::Continue,
        }),
{
    match action {
        GlobalAction::PassOn => GlobalKeyAction::PassOn,
        GlobalAction::Suspend => GlobalKeyAction::Suspend,
        GlobalAction::Quit => GlobalKeyAction::Quit,
        _ => GlobalKeyAction::Continue,
    }
}

/// What is said once the model has been changed.
pub open spec fn cycled(result: Option<(Seq<char>, Seq<char>)>) -> Seq<char> {
    match result {
        Some((provider, id)) => "Switched to "@ + provider + "/"@ + id,
        None => "No models available to cycle."@,
    }
}

/// What is said once the model has been changed.
pub fn cycle_model_status(result: Option<(&str, &str)>) -> (r: String)
    ensures
        r@ == cycled(
            match result {
                Some((provider, id)) => Some((provider@, id@)),
                None => None,
            },
        ),
{
    match result {
        Some((provider, id)) => cat4("Switched to ", provider, "/", id),
        None => copy_text("No models available to cycle."),
    }
}

/// What is said once the thinking level has been changed, or could not be.
pub open spec fn thinking_status(result: Result<Option<String>, String>) -> Seq<char> {
    match result {
        Ok(Some(level)) => "Thinking level: "@ + level@,
        Ok(None) => "Current model does not support thinking"@,
        Err(error) => if text::contains_text(error@, "does not support"@) {
            "Current model does not support thinking"@
        } else {
            error@
        },
    }
}

/// What is said once the thinking level has been changed, or could not be.
pub fn cycle_thinking_status(result: Result<Option<String>, String>) -> (r: String)
    ensures
        r@ == thinking_status(result),
{
    match result {
        Ok(Some(level)) => cat2("Thinking level: ", level.as_str()),
        Ok(None) => copy_text("Current model does not support thinking"),
        Err(error) => if contains(error.as_str(), "does not support") {
            copy_text("Current model does not support thinking")
        } else {
            error
        },
    }
}

/// Whether thinking is hidden from now on, and what is said.
pub fn toggle_thinking(hide_thinking: bool) -> (r: (bool, &'static str))
    ensures
        r.0 == !hide_thinking,
        r.1@ == (if hide_thinking {
            "Thinking blocks visible."@
        } else {
            "Thinking blocks hidden."@
        }),
{
    if hide_thinking {
        (false, "Thinking blocks visible.")
    } else {
        (true, "Thinking blocks hidden.")
    }
}

/// What a second press of escape on an empty prompt opens.
#[derive(Clone, Copy, Debug, PartialEq, Eq, Structural)]
pub enum DoubleEscapeAction {
    Tree,
    Fork,
    Nothing,
}

impl DoubleEscapeAction {
    /// The name of the action.
    pub open spec fn name(self) -> Seq<char> {
        match self {
            DoubleEscapeAction::Tree => "tree"@,
            DoubleEscapeAction::Fork => "fork"@,
            DoubleEscapeAction::Nothing => "none"@,
        }
    }

    /// The action that a setting names; the tree where it names none.
    pub open spec fn named(value: Option<Seq<char>>) -> DoubleEscapeAction {
        if value == Some("fork"@) {
            DoubleEscapeAction::Fork
        } else if value == Some("none"@) {
            DoubleEscapeAction::Nothing
        } else {
            DoubleEscapeAction::Tree
        }
    }

    /// The action that a setting names; the tree where it names none.
    pub fn from_settings(value: Option<&str>) -> (r: DoubleEscapeAction)
        ensures
            r == DoubleEscapeAction::named(chrome::opt_str(value)),
    {
        match value {
            Some(s) => if same(s, "fork") {
                DoubleEscapeAction::Fork
            } else if same(s, "none") {
                DoubleEscapeAction::Nothing
            } else {
                DoubleEscapeAction::Tree
            },
            None => DoubleEscapeAction::Tree,
        }
    }

    /// The name of the action.
    pub fn as_str(self) -> (r: &'static str)
        ensures
            r@ == self.name(),
    {
        match self {
            DoubleEscapeAction::Tree => "tree",
            DoubleEscapeAction::Fork => "fork",
            DoubleEscapeAction::Nothing => "none",
        }
    }
}

/// The name of each action names it.
pub proof fn double_escape_names_read_back(action: DoubleEscapeAction)
    ensures
        DoubleEscapeAction::named(Some(action.name())) == action,
{
    reveal_strlit("tree");
    reveal_strlit("fork");
    reveal_strlit("none");
    assert("tree"@[0] == 't');
    assert("fork"@[0] == 'f');
    assert("none"@[0] == 'n');
}

/// What a key press leads to that goes to the prompt.
#[derive(Clone, Copy, Debug, PartialEq, Eq, Structural)]
pub enum EscapeAction {
    /// It is no escape on an empty prompt.
    Other,
    /// It is the first one.
    Arm,
    OpenTree,
    OpenFork,
    Refuse,
}

/// What escape on an empty prompt leads to; `again` says whether it was pressed there within the last
/// half second.
pub open spec fn escape_step(
    event: KeyEvent,
    completing: bool,
    prompt: Seq<char>,
    again: bool,
    action: DoubleEscapeAction,
) -> (EscapeAction, StatusView) {
    if overlay::is_plain_escape(event) && !completing && text::trim(prompt).len() == 0 {
        if again {
            match action {
                DoubleEscapeAction::Tree => (EscapeAction::OpenTree, StatusView::Keep),
                DoubleEscapeAction::Fork => (EscapeAction::OpenFork, StatusView::Keep),
                DoubleEscapeAction::Nothing => (
                    EscapeAction::Refuse,
                    StatusView::Say("Double-escape action is disabled."@),
                ),
            }
        } else {
            (
                EscapeAction::Arm,
                StatusView::Say("Press Esc again to open "@ + action.name() + "."@),
            )
        }
    } else {
        (EscapeAction::Other, StatusView::Keep)
    }
}

/// What escape on an empty prompt leads to, and what is said.
pub fn empty_prompt_escape(
    event: &KeyEvent,
    completing: bool,
    prompt_text: &str,
    again: bool,
    action: DoubleEscapeAction,
) -> (r: (EscapeAction, Status))
    ensures
        (r.0, r.1@) == escape_step(*event, completing, prompt_text@, again, action),
{
    if !plain_escape(event) || completing || !trimmed(prompt_text).as_str().is_empty() {
        return (EscapeAction::Other, Status::Keep);
    }
    if again {
        return match action {
            DoubleEscapeAction::Tree => (EscapeAction::OpenTree, Status::Keep),
            DoubleEscapeAction::Fork => (EscapeAction::OpenFork, Status::Keep),
            DoubleEscapeAction::Nothing => (
                EscapeAction::Refuse,
                say("Double-escape action is disabled."),
            ),
        };
    }
    (EscapeAction::Arm, Status::Say(cat3("Press Esc again to open ", action.as_str(), ".")))
}

/// Where a key press goes while a session is being shared.
#[derive(Clone, Copy, Debug, PartialEq, Eq, Structural)]
pub enum ShareKey {
    /// The sharing is cancelled.
    Cancel,
    /// Nothing comes of it.
    Ignore,
    /// It is handled as ever.
    PassOn,
}

/// Where a key press goes while a session is being shared: escape cancels, and of the rest only
/// control and C is handled.
pub fn share_key(event: &KeyEvent) -> (r: ShareKey)
    ensures
        r == (if overlay::is_plain_escape(*event) {
            ShareKey::Cancel
        } else if overlay::is_ctrl(*event, 'c') {
            ShareKey::PassOn
        } else {
            ShareKey::Ignore
        }),
{
    if plain_escape(event) {
        return ShareKey::Cancel;
    }
    if matches_ctrl_char(event, 'c') {
        ShareKey::PassOn
    } else {
        ShareKey::Ignore
    }
}

/// Who gets a key press.
#[derive(Clone, Copy, Debug, PartialEq, Eq, Structural)]
pub enum KeyRoute {
    /// The one who shares.
    Share(ShareKey),
    /// The overlay, before any other.
    OverlayFirst,
    /// The actions of the whole program, and who follows them.
    Global,
}

/// Who gets a key press: while a session is shared, the one who shares, unless it is control and C;
/// then the overlay of scoped models; else the actions of the whole program.
pub fn route_key(sharing: bool, scoped_models_open: bool, event: &KeyEvent) -> (r: KeyRoute)
    ensures
        r == (if sharing && !overlay::is_ctrl(*event, 'c') {
            KeyRoute::Share(
                if overlay::is_plain_escape(*event) {
                    ShareKey::Cancel
                } else {
                    ShareKey::Ignore
                },
            )
        } else if scoped_models_open {
            KeyRoute::OverlayFirst
        } else {
            KeyRoute::Global
        }),
{
    if sharing {
        match share_key(event) {
            ShareKey::PassOn => {},
            other => {
                return KeyRoute::Share(other);
            },
        }
    }
    if scoped_models_open {
        KeyRoute::OverlayFirst
    } else {
        KeyRoute::Global
    }
}

/// What becomes of the time at which leaving was armed.
#[derive(Clone, Copy, Debug, PartialEq, Eq, Structural)]
pub enum Arming {
    Keep,
    Forget,
    Arm,
}

/// The key that clears arms leaving on an empty prompt and forgets it where it empties the prompt; it
/// leaves it alone while it cancels a login or breaks an answer off. Every other key forgets it.
pub open spec fn arming(
    keybindings: KeybindingsManager,
    busy: Busy,
    prompt_text: Seq<char>,
    armed: bool,
    event: KeyEvent,
) -> Arming {
    if !keybindings.calls(event, AppAction::Clear) {
        Arming::Forget
    } else if busy.auth || busy.prompt {
        Arming::Keep
    } else if prompt_text.len() > 0 {
        Arming::Forget
    } else if armed {
        Arming::Keep
    } else {
        Arming::Arm
    }
}

/// What becomes of the time at which leaving was armed.
pub fn arm_exit(
    keybindings: &KeybindingsManager,
    busy: Busy,
    prompt_text: &str,
    armed: bool,
    event: &KeyEvent,
) -> (r: Arming)
    ensures
        r == arming(*keybindings, busy, prompt_text@, armed, *event),
{
    if !keybindings.matches(event, AppAction::Clear) {
        Arming::Forget
    } else if busy.auth || busy.prompt {
        Arming::Keep
    } else if !prompt_text.is_empty() {
        Arming::Forget
    } else if armed {
        Arming::Keep
    } else {
        Arming::Arm
    }
}

/// Leaving is armed exactly where the key press is answered by asking for another one.
pub proof fn armed_where_asked(
    keybindings: KeybindingsManager,
    busy: Busy,
    prompt_text: Seq<char>,
    armed: bool,
    event: KeyEvent,
)
    ensures
        arming(keybindings, busy, prompt_text, armed, event) == Arming::Arm <==> global_step(
            keybindings,
            busy,
            prompt_text,
            armed,
            event,
        ).0 == GlobalView::ArmExit,
{
}

/// Whether a key press calls one action and no other.
pub open spec fn calls_alone(keys: KeybindingsManager, event: KeyEvent, action: AppAction) -> bool {
    forall|other: AppAction| #[trigger] keys.calls(event, other) <==> other == action
}

/// A key does what it is bound to wherever nothing is under way.
pub proof fn keys_do_their_action(
    keys: KeybindingsManager,
    prompt: Seq<char>,
    armed: bool,
    event: KeyEvent,
    action: AppAction,
    busy: Busy,
)
    requires
        calls_alone(keys, event, action),
        !busy.auth,
        !busy.prompt,
        !busy.overlay,
    ensures
        ({
            let done = global_step(keys, busy, prompt, armed, event).0;
            &&& action is Suspend ==> done is Suspend
            &&& action is Exit && text::trim(prompt).len() == 0 ==> done is Quit
            &&& action is Clear && prompt.len() > 0 ==> done is ClearPrompt
            &&& action is SelectModel ==> done is OpenModels
            &&& action is CycleModelForward ==> done is CycleModelForward
            &&& action is CycleModelBackward ==> done is CycleModelBackward
            &&& action is CycleThinkingLevel ==> done is CycleThinking
            &&& action is ToggleThinking ==> done is ToggleThinking
            &&& action is ExpandTools ==> done is ToggleTools
            &&& action is NewSession ==> done is NewSession
            &&& action is Resume ==> done is OpenSessions
            &&& action is Tree ==> done is OpenTree
            &&& action is Fork ==> done is OpenFork
            &&& action is PasteImage ==> done is PasteImage
            &&& action is Interrupt ==> done is PassOn
            &&& action is ExternalEditor ==> done is PassOn
        }),
{
    assert(keys.calls(event, action));
    let done = global_step(keys, busy, prompt, armed, event).0;
    assert(keys.calls(event, AppAction::Clear) <==> action is Clear);
    assert(keys.calls(event, AppAction::Suspend) <==> action is Suspend);
    assert(keys.calls(event, AppAction::Exit) <==> action is Exit);
    assert(keys.calls(event, AppAction::Interrupt) <==> action is Interrupt);
    assert(keys.calls(event, AppAction::SelectModel) <==> action is SelectModel);
    assert(keys.calls(event, AppAction::CycleModelForward) <==> action is CycleModelForward);
    assert(keys.calls(event, AppAction::CycleModelBackward) <==> action is CycleModelBackward);
    assert(keys.calls(event, AppAction::CycleThinkingLevel) <==> action is CycleThinkingLevel);
    assert(keys.calls(event, AppAction::ToggleThinking) <==> action is ToggleThinking);
    assert(keys.calls(event, AppAction::ExpandTools) <==> action is ExpandTools);
    assert(keys.calls(event, AppAction::NewSession) <==> action is NewSession);
    assert(keys.calls(event, AppAction::Resume) <==> action is Resume);
    assert(keys.calls(event, AppAction::Tree) <==> action is Tree);
    assert(keys.calls(event, AppAction::Fork) <==> action is Fork);
    assert(keys.calls(event, AppAction::ExternalEditor) <==> action is ExternalEditor);
    assert(keys.calls(event, AppAction::PasteImage) <==> action is PasteImage);
}

/// While an answer is written, it can be broken off, and what is entered can be queued and taken
/// back.
pub proof fn answers_can_be_followed_up(
    keys: KeybindingsManager,
    prompt: Seq<char>,
    armed: bool,
    event: KeyEvent,
    action: AppAction,
    busy: Busy,
)
    requires
        calls_alone(keys, event, action),
        !busy.auth,
        busy.prompt,
    ensures
        action is FollowUp && text::trim(prompt).len() > 0 ==> global_step(
            keys,
            busy,
            prompt,
            armed,
            event,
        ).0 == GlobalView::QueueFollowUp(text::trim(prompt)),
        action is Dequeue ==> global_step(keys, busy, prompt, armed, event).0
            == GlobalView::Dequeue,
        action is Interrupt || action is Clear ==> global_step(keys, busy, prompt, armed, event).0
            == GlobalView::Abort,
{
    assert(keys.calls(event, action));
    assert(keys.calls(event, AppAction::Clear) <==> action is Clear);
    assert(keys.calls(event, AppAction::Suspend) <==> action is Suspend);
    assert(keys.calls(event, AppAction::Exit) <==> action is Exit);
    assert(keys.calls(event, AppAction::Interrupt) <==> action is Interrupt);
    assert(keys.calls(event, AppAction::SelectModel) <==> action is SelectModel);
    assert(keys.calls(event, AppAction::CycleModelForward) <==> action is CycleModelForward);
    assert(keys.calls(event, AppAction::CycleModelBackward) <==> action is CycleModelBackward);
    assert(keys.calls(event, AppAction::CycleThinkingLevel) <==> action is CycleThinkingLevel);
    assert(keys.calls(event, AppAction::ToggleThinking) <==> action is ToggleThinking);
    assert(keys.calls(event, AppAction::ExpandTools) <==> action is ExpandTools);
    assert(keys.calls(event, AppAction::NewSession) <==> action is NewSession);
    assert(keys.calls(event, AppAction::Resume) <==> action is Resume);
    assert(keys.calls(event, AppAction::Tree) <==> action is Tree);
    assert(keys.calls(event, AppAction::Fork) <==> action is Fork);
    assert(keys.calls(event, AppAction::ExternalEditor) <==> action is ExternalEditor);
    assert(keys.calls(event, AppAction::PasteImage) <==> action is PasteImage);
    assert(keys.calls(event, AppAction::Dequeue) <==> action is Dequeue);
    assert(keys.calls(event, AppAction::FollowUp) <==> action is FollowUp);
}

/// Two escapes on an empty prompt open what the setting names; one alone opens nothing, and one on
/// a prompt that holds something is no such escape.
pub proof fn two_escapes_open_what_is_set(
    event: KeyEvent,
    prompt: Seq<char>,
    action: DoubleEscapeAction,
    again: bool,
)
    ensures
        overlay::is_plain_escape(event) && text::trim(prompt).len() == 0 ==> escape_step(
            event,
            false,
            prompt,
            true,
            action,
        ).0 == (match action {
            DoubleEscapeAction::Tree => EscapeAction::OpenTree,
            DoubleEscapeAction::Fork => EscapeAction::OpenFork,
            DoubleEscapeAction::Nothing => EscapeAction::Refuse,
        }),
        overlay::is_plain_escape(event) && text::trim(prompt).len() == 0 ==> escape_step(
            event,
            false,
            prompt,
            false,
            action,
        ).0 is Arm,
        !overlay::is_plain_escape(event) || text::trim(prompt).len() > 0 ==> escape_step(
            event,
            false,
            prompt,
            again,
            action,
        ).0 is Other,
        escape_step(event, true, prompt, again, action).0 is Other,
{
}

/// What came of changing the model or the level of thinking is told with its name; a model that
/// cannot think is said to be one, whichever way that was found out.
pub proof fn changes_are_told(provider: Seq<char>, id: Seq<char>, level: String, error: String)
    ensures
        text::has_suffix(cycled(Some((provider, id))), provider + seq!['/'] + id),
        text::has_suffix(thinking_status(Ok(Some(level))), level@),
        thinking_status(Ok(Some(level))) == "Thinking level: "@ + level@,
        text::contains_text(error@, "does not support"@) ==> thinking_status(Err(error))
            == thinking_status(Ok(None)),
        !text::contains_text(error@, "does not support"@) ==> thinking_status(Err(error)) == error@,
{
    reveal_strlit("/");
    assert("/"@ =~= seq!['/']);
    let told = cycled(Some((provider, id)));
    let end = provider + seq!['/'] + id;
    assert(told.skip(told.len() - end.len()) =~= end);
    let said = thinking_status(Ok(Some(level)));
    assert(said.skip(said.len() - level@.len()) =~= level@);
}

} // verus!
