//! What a prompt that is sent asks for, and what is said of it.
use vstd::prelude::*;
use crate::actions::DoubleEscapeAction;
use crate::json;
use crate::json::{bool_setting, string_setting, Json};
use crate::live::{QueuedMessage, QueuedMessageKind};
use crate::overlay::{say, Status, StatusView};
use crate::session::QueueMode;
use crate::text;
use crate::text::{begins_with, cat2, cat3, cat4, cat5, copy_text, decimal_text, join_texts, same, strip_prefix, trimmed};

verus! {

broadcast use crate::text::group_texts;

/// What a prompt asks for.
#[derive(Clone, Debug, PartialEq, Eq)]
pub enum Submission {
    Nothing,
    Quit,
    NewSession,
    SessionInfo,
    Resume,
    Settings,
    ScopedModels,
    Tree,
    Fork,
    Login,
    Logout,
    /// The model with a name, or the choice among all models.
    Model(Option<String>),
    Copy,
    Share,
    Reload,
    Changelog,
    Hotkeys,
    /// A shorter session, made by these instructions where there are any.
    Compact(Option<String>),
    /// The session as a document, at this place where one is given.
    Export(Option<String>),
    /// A name for the session.
    Name(Option<String>),
    /// A shell command, and whether it is kept from the model.
    Bash { command: String, excluded: bool },
    /// A message for the model.
    Prompt(String),
}

/// What a prompt asks for, as a mathematical value.
pub enum SubmissionView {
    Nothing,
    Quit,
    NewSession,
    SessionInfo,
    Resume,
    Settings,
    ScopedModels,
    Tree,
    Fork,
    Login,
    Logout,
    Model(Option<Seq<char>>),
    Copy,
    Share,
    Reload,
    Changelog,
    Hotkeys,
    Compact(Option<Seq<char>>),
    Export(Option<Seq<char>>),
    Name(Option<Seq<char>>),
    Bash { command: Seq<char>, excluded: bool },
    Prompt(Seq<char>),
}

impl View for Submission {
    type V = SubmissionView;

    open spec fn view(&self) -> SubmissionView {
        match self {
            Submission::Nothing => SubmissionView::Nothing,
            Submission::Quit => SubmissionView::Quit,
            Submission::NewSession => SubmissionView::NewSession,
            Submission::SessionInfo => SubmissionView::SessionInfo,
            Submission::Resume => SubmissionView::Resume,
            Submission::Settings => SubmissionView::Settings,
            Submission::ScopedModels => SubmissionView::ScopedModels,
            Submission::Tree => SubmissionView::Tree,
            Submission::Fork => SubmissionView::Fork,
            Submission::Login => SubmissionView::Login,
            Submission::Logout => SubmissionView::Logout,
            Submission::Model(filter) => SubmissionView::Model(text::opt_text(*filter)),
            Submission::Copy => SubmissionView::Copy,
            Submission::Share => SubmissionView::Share,
            Submission::Reload => SubmissionView::Reload,
            Submission::Changelog => SubmissionView::Changelog,
            Submission::Hotkeys => SubmissionView::Hotkeys,
            Submission::Compact(s) => SubmissionView::Compact(text::opt_text(*s)),
            Submission::Export(s) => SubmissionView::Export(text::opt_text(*s)),
            Submission::Name(s) => SubmissionView::Name(text::opt_text(*s)),
            Submission::Bash { command, excluded } => SubmissionView::Bash {
                command: command@,
                excluded: *excluded,
            },
            Submission::Prompt(s) => SubmissionView::Prompt(s@),
        }
    }
}

/// The commands that are a word alone.
pub open spec fn word_command(s: Seq<char>) -> Option<SubmissionView> {
    if s == "/quit"@ || s == "/exit"@ {
        Some(SubmissionView::Quit)
    } else if s == "/new"@ {
        Some(SubmissionView::NewSession)
    } else if s == "/session"@ {
        Some(SubmissionView::SessionInfo)
    } else if s == "/resume"@ {
        Some(SubmissionView::Resume)
    } else if s == "/settings"@ {
        Some(SubmissionView::Settings)
    } else if s == "/scoped-models"@ {
        Some(SubmissionView::ScopedModels)
    } else if s == "/tree"@ {
        Some(SubmissionView::Tree)
    } else if s == "/fork"@ {
        Some(SubmissionView::Fork)
    } else if s == "/login"@ {
        Some(SubmissionView::Login)
    } else if s == "/logout"@ {
        Some(SubmissionView::Logout)
    } else if s == "/copy"@ {
        Some(SubmissionView::Copy)
    } else if s == "/share"@ {
        Some(SubmissionView::Share)
    } else if s == "/reload"@ {
        Some(SubmissionView::Reload)
    } else if s == "/changelog"@ {
        Some(SubmissionView::Changelog)
    } else if s == "/hotkeys"@ {
        Some(SubmissionView::Hotkeys)
    } else {
        None
    }
}

/// Whether a prompt is a command, alone or with an argument after a space.
pub open spec fn calls_command(s: Seq<char>, name: Seq<char>) -> bool {
    s == name || text::has_prefix(s, name + " "@)
}

/// The argument of a command, where there is one that is not blank.
pub open spec fn argument(s: Seq<char>, name: Seq<char>) -> Option<Seq<char>> {
    let start = name + " "@;
    if text::has_prefix(s, start) {
        let rest = text::trim(s.skip(start.len() as int));
        if rest.len() > 0 {
            Some(rest)
        } else {
            None
        }
    } else {
        None
    }
}

/// What a prompt asks for: a command, a shell command after an exclamation mark, or else an answer.
pub open spec fn submission(value: Seq<char>) -> SubmissionView {
    let s = text::trim(value);
    if s.len() == 0 {
        SubmissionView::Nothing
    } else if word_command(s) is Some {
        word_command(s)->0
    } else if calls_command(s, "/model"@) {
        SubmissionView::Model(argument(s, "/model"@))
    } else if calls_command(s, "/compact"@) {
        SubmissionView::Compact(argument(s, "/compact"@))
    } else if calls_command(s, "/export"@) {
        SubmissionView::Export(argument(s, "/export"@))
    } else if text::has_prefix(s, "/name "@) {
        SubmissionView::Name(argument(s, "/name"@))
    } else if text::has_prefix(s, "!!"@) {
        SubmissionView::Bash { command: text::trim(s.skip("!!"@.len() as int)), excluded: true }
    } else if text::has_prefix(s, "!"@) {
        SubmissionView::Bash { command: text::trim(s.skip("!"@.len() as int)), excluded: false }
    } else {
        SubmissionView::Prompt(s)
    }
}

/// An optional submission, as a mathematical value.
pub open spec fn opt_submission(s: Option<Submission>) -> Option<SubmissionView> {
    match s {
        Some(x) => Some(x@),
        None => None,
    }
}

fn word_submission(s: &str) -> (r: Option<Submission>)
    ensures
        opt_submission(r) == word_command(s@),
{
    if same(s, "/quit") || same(s, "/exit") {
        Some(Submission::Quit)
    } else if same(s, "/new") {
        Some(Submission::NewSession)
    } else if same(s, "/session") {
        Some(Submission::SessionInfo)
    } else if same(s, "/resume") {
        Some(Submission::Resume)
    } else if same(s, "/settings") {
        Some(Submission::Settings)
    } else if same(s, "/scoped-models") {
        Some(Submission::ScopedModels)
    } else if same(s, "/tree") {
        Some(Submission::Tree)
    } else if same(s, "/fork") {
        Some(Submission::Fork)
    } else if same(s, "/login") {
        Some(Submission::Login)
    } else if same(s, "/logout") {
        Some(Submission::Logout)
    } else if same(s, "/copy") {
        Some(Submission::Copy)
    } else if same(s, "/share") {
        Some(Submission::Share)
    } else if same(s, "/reload") {
        Some(Submission::Reload)
    } else if same(s, "/changelog") {
        Some(Submission::Changelog)
    } else if same(s, "/hotkeys") {
        Some(Submission::Hotkeys)
    } else {
        None
    }
}

fn argument_of(s: &str, name: &str) -> (r: Option<String>)
    ensures
        text::opt_text(r) == argument(s@, name@),
{
    let start = cat2(name, " ");
    match strip_prefix(s, start.as_str()) {
        Some(rest) => {
            let value = trimmed(rest.as_str());
            if value.as_str().is_empty() {
                None
            } else {
                Some(value)
            }
        },
        None => None,
    }
}

fn calls(s: &str, name: &str) -> (r: bool)
    ensures
        r == calls_command(s@, name@),
{
    same(s, name) || begins_with(s, cat2(name, " ").as_str())
}

/// What a prompt asks for.
pub fn read_submission(value: &str) -> (r: Submission)
    ensures
        r@ == submission(value@),
{
    let s = trimmed(value);
    if s.as_str().is_empty() {
        return Submission::Nothing;
    }
    if let Some(found) = word_submission(s.as_str()) {
        return found;
    }
    if calls(s.as_str(), "/model") {
        return Submission::Model(argument_of(s.as_str(), "/model"));
    }
    if calls(s.as_str(), "/compact") {
        return Submission::Compact(argument_of(s.as_str(), "/compact"));
    }
    if calls(s.as_str(), "/export") {
        return Submission::Export(argument_of(s.as_str(), "/export"));
    }
    if begins_with(s.as_str(), "/name ") {
        return Submission::Name(argument_of(s.as_str(), "/name"));
    }
    if let Some(rest) = strip_prefix(s.as_str(), "!!") {
        return Submission::Bash { command: trimmed(rest.as_str()), excluded: true };
    }
    if let Some(rest) = strip_prefix(s.as_str(), "!") {
        return Submission::Bash { command: trimmed(rest.as_str()), excluded: false };
    }
    Submission::Prompt(s)
}

/// A prompt that neither begins with a slash nor with an exclamation mark goes to the model as it is,
/// without white space around it.
pub proof fn plain_text_goes_to_the_model(value: Seq<char>)
    requires
        text::trim(value).len() > 0,
        text::trim(value)[0] != '/',
        text::trim(value)[0] != '!',
    ensures
        submission(value) == SubmissionView::Prompt(text::trim(value)),
{
    reveal_strlit("/quit");
    reveal_strlit("/exit");
    reveal_strlit("/new");
    reveal_strlit("/session");
    reveal_strlit("/resume");
    reveal_strlit("/settings");
    reveal_strlit("/scoped-models");
    reveal_strlit("/tree");
    reveal_strlit("/fork");
    reveal_strlit("/login");
    reveal_strlit("/logout");
    reveal_strlit("/copy");
    reveal_strlit("/share");
    reveal_strlit("/reload");
    reveal_strlit("/changelog");
    reveal_strlit("/hotkeys");
    reveal_strlit("/model");
    reveal_strlit("/compact");
    reveal_strlit("/export");
    reveal_strlit("/name ");
    reveal_strlit("!!");
    reveal_strlit("!");
    let s = text::trim(value);
    first_char(s, "/model"@ + " "@);
    first_char(s, "/compact"@ + " "@);
    first_char(s, "/export"@ + " "@);
    first_char(s, "/name "@);
    first_char(s, "!!"@);
    first_char(s, "!"@);
}

proof fn first_char(s: Seq<char>, prefix: Seq<char>)
    requires
        prefix.len() > 0,
    ensures
        text::has_prefix(s, prefix) ==> s.len() > 0 && s[0] == prefix[0],
{
    if text::has_prefix(s, prefix) {
        assert(s.take(prefix.len() as int)[0] == s[0]);
    }
}

/// What is said once a command has been carried out.
pub open spec fn done(s: SubmissionView) -> StatusView {
    match s {
        SubmissionView::NewSession => StatusView::Say("Started a new session."@),
        SubmissionView::SessionInfo => StatusView::Say("Session Info added to the transcript."@),
        SubmissionView::Changelog => StatusView::Say("Changelog added to the transcript."@),
        SubmissionView::Hotkeys => StatusView::Say("Keyboard shortcuts added to the transcript."@),
        SubmissionView::Compact(_) => StatusView::Say("Compacted the current session."@),
        SubmissionView::Name(Some(name)) => StatusView::Say("Session name set to "@ + name + "."@),
        SubmissionView::Name(None) => StatusView::Say("Usage: /name <session name>"@),
        SubmissionView::Share => StatusView::Clear,
        SubmissionView::Bash { command, excluded } => StatusView::Clear,
        SubmissionView::Prompt(_) => StatusView::Clear,
        _ => StatusView::Keep,
    }
}

/// What is said once a command has been carried out.
pub fn submission_status(s: &Submission) -> (r: Status)
    ensures
        r@ == done(s@),
{
    match s {
        Submission::NewSession => say("Started a new session."),
        Submission::SessionInfo => say("Session Info added to the transcript."),
        Submission::Changelog => say("Changelog added to the transcript."),
        Submission::Hotkeys => say("Keyboard shortcuts added to the transcript."),
        Submission::Compact(_) => say("Compacted the current session."),
        Submission::Name(Some(name)) => Status::Say(
            cat3("Session name set to ", name.as_str(), "."),
        ),
        Submission::Name(None) => say("Usage: /name <session name>"),
        Submission::Share => Status::Clear,
        Submission::Bash { .. } => Status::Clear,
        Submission::Prompt(_) => Status::Clear,
        _ => Status::Keep,
    }
}

/// The last answer where it is worth copying, and what is said.
pub fn copy_status(last_answer: Option<&str>) -> (r: (bool, &'static str))
    ensures
        r.0 == (last_answer is Some && text::trim(last_answer->0@).len() > 0),
        r.1@ == (if r.0 {
            "Copied last agent message to clipboard"@
        } else {
            "No agent messages to copy yet."@
        }),
{
    let wanted = match last_answer {
        Some(s) => !trimmed(s).as_str().is_empty(),
        None => false,
    };
    if wanted {
        (true, "Copied last agent message to clipboard")
    } else {
        (false, "No agent messages to copy yet.")
    }
}

/// What is said once the session has been written down.
pub fn export_status(path: &str) -> (r: String)
    ensures
        r@ == "Session exported to: "@ + path@,
{
    cat2("Session exported to: ", path)
}

/// What is said once everything has been read again.
pub open spec fn reloaded(warnings: nat) -> Seq<char> {
    if warnings == 0 {
        "Reloaded extensions, skills, prompts, themes"@
    } else {
        "Reloaded with "@ + text::decimal(warnings)
            + " settings warning(s). Check your settings files."@
    }
}

/// What is said once everything has been read again.
pub fn reload_status(warnings: usize) -> (r: String)
    ensures
        r@ == reloaded(warnings as nat),
{
    if warnings == 0 {
        copy_text("Reloaded extensions, skills, prompts, themes")
    } else {
        cat3(
            "Reloaded with ",
            decimal_text(warnings as u64).as_str(),
            " settings warning(s). Check your settings files.",
        )
    }
}

/// The settings that the interface goes by.
#[derive(Clone, Copy, Debug, PartialEq, Eq, Structural)]
pub struct InterfaceSettings {
    pub hide_thinking: bool,
    pub show_images: bool,
    pub quiet_startup: bool,
    pub double_escape_action: DoubleEscapeAction,
    pub steering_mode: QueueMode,
    pub follow_up_mode: QueueMode,
    pub auto_compact: bool,
}

/// The truth value under a name, or another one where there is none.
pub open spec fn flag(settings: Json, path: Seq<Seq<char>>, default: bool) -> bool {
    match json::bool_in(json::at_path(settings, path)) {
        Some(b) => b,
        None => default,
    }
}

/// How queued messages are delivered by a setting: one at a time, unless it says all.
pub open spec fn queue_mode(value: Option<Seq<char>>) -> QueueMode {
    if value == Some("all"@) {
        QueueMode::All
    } else {
        QueueMode::OneAtATime
    }
}

/// The settings that the interface goes by.
pub open spec fn interface_settings(settings: Json) -> InterfaceSettings {
    InterfaceSettings {
        hide_thinking: flag(settings, seq!["hideThinkingBlock"@], false),
        show_images: flag(settings, seq!["terminal"@, "showImages"@], true),
        quiet_startup: flag(settings, seq!["quietStartup"@], false) || flag(
            settings,
            seq!["terminal"@, "quietStartup"@],
            false,
        ),
        double_escape_action: DoubleEscapeAction::named(
            json::text_in(json::at_path(settings, seq!["doubleEscapeAction"@])),
        ),
        steering_mode: queue_mode(json::text_in(json::at_path(settings, seq!["steeringMode"@]))),
        follow_up_mode: queue_mode(json::text_in(json::at_path(settings, seq!["followUpMode"@]))),
        auto_compact: flag(settings, seq!["compaction"@, "enabled"@], true),
    }
}

/// The truth value under one name.
pub fn flag_at(settings: &Json, name: &str, default: bool) -> (r: bool)
    ensures
        r == flag(*settings, seq![name@], default),
{
    let path: [&str; 1] = [name];
    assert(json::slices(path@) =~= seq![name@]);
    bool_setting(settings, path.as_slice(), default)
}

/// The truth value under two names.
pub fn flag_in(settings: &Json, outer: &str, name: &str, default: bool) -> (r: bool)
    ensures
        r == flag(*settings, seq![outer@, name@], default),
{
    let path: [&str; 2] = [outer, name];
    assert(json::slices(path@) =~= seq![outer@, name@]);
    bool_setting(settings, path.as_slice(), default)
}

/// The text under one name.
pub fn text_at(settings: &Json, name: &str) -> (r: Option<String>)
    ensures
        text::opt_text(r) == json::text_in(json::at_path(*settings, seq![name@])),
{
    let path: [&str; 1] = [name];
    assert(json::slices(path@) =~= seq![name@]);
    string_setting(settings, path.as_slice())
}

/// How queued messages are delivered by a setting.
pub fn queue_mode_setting(settings: &Json, name: &str) -> (r: QueueMode)
    ensures
        r == queue_mode(json::text_in(json::at_path(*settings, seq![name@]))),
{
    match text_at(settings, name) {
        Some(value) => if same(value.as_str(), "all") {
            QueueMode::All
        } else {
            QueueMode::OneAtATime
        },
        None => QueueMode::OneAtATime,
    }
}

/// The settings that the interface goes by.
pub fn read_interface_settings(settings: &Json) -> (r: InterfaceSettings)
    ensures
        r == interface_settings(*settings),
{
    let double_escape = text_at(settings, "doubleEscapeAction");
    let double_escape_action = match &double_escape {
        Some(value) => DoubleEscapeAction::from_settings(Some(value.as_str())),
        None => DoubleEscapeAction::from_settings(None),
    };
    InterfaceSettings {
        hide_thinking: flag_at(settings, "hideThinkingBlock", false),
        show_images: flag_in(settings, "terminal", "showImages", true),
        quiet_startup: flag_at(settings, "quietStartup", false) || flag_in(
            settings,
            "terminal",
            "quietStartup",
            false,
        ),
        double_escape_action,
        steering_mode: queue_mode_setting(settings, "steeringMode"),
        follow_up_mode: queue_mode_setting(settings, "followUpMode"),
        auto_compact: flag_in(settings, "compaction", "enabled", true),
    }
}

/// The name of a mode of delivery.
pub open spec fn queue_mode_name(mode: QueueMode) -> Seq<char> {
    match mode {
        QueueMode::All => "all"@,
        QueueMode::OneAtATime => "one-at-a-time"@,
    }
}

/// The name of a mode of delivery.
pub fn queue_mode_value(mode: QueueMode) -> (r: &'static str)
    ensures
        r@ == queue_mode_name(mode),
{
    match mode {
        QueueMode::All => "all",
        QueueMode::OneAtATime => "one-at-a-time",
    }
}

/// The name of each mode of delivery names it.
pub proof fn queue_mode_names_read_back(mode: QueueMode)
    ensures
        queue_mode(Some(queue_mode_name(mode))) == mode,
{
    reveal_strlit("all");
    reveal_strlit("one-at-a-time");
    assert("all"@.len() != "one-at-a-time"@.len());
}

/// The name of a truth value.
pub open spec fn bool_name(value: bool) -> Seq<char> {
    if value {
        "true"@
    } else {
        "false"@
    }
}

/// The name of a truth value.
pub fn bool_value(value: bool) -> (r: &'static str)
    ensures
        r@ == bool_name(value),
{
    if value {
        "true"
    } else {
        "false"
    }
}

/// The messages that are queued, as mathematical values.
pub open spec fn queue_view(messages: Seq<QueuedMessage>) -> Seq<(QueuedMessageKind, Seq<char>)> {
    Seq::new(messages.len(), |i: int| (messages[i].kind, messages[i].message@))
}

/// The name of a kind of queued message.
pub open spec fn kind_name(kind: QueuedMessageKind) -> Seq<char> {
    match kind {
        QueuedMessageKind::Steer => "steer"@,
        QueuedMessageKind::FollowUp => "follow-up"@,
    }
}

/// Queues a message, and says how many are queued then.
pub fn queue_message(pending: Vec<QueuedMessage>, kind: QueuedMessageKind, message: &str) -> (r: (
    Vec<QueuedMessage>,
    String,
))
    ensures
        queue_view(r.0@) == queue_view(pending@).push((kind, message@)),
        r.1@ == "Queued "@ + kind_name(kind) + " message ("@ + text::decimal(pending@.len() + 1)
            + " pending)."@,
{
    let ghost before = queue_view(pending@);
    let ghost n = pending@.len();
    let mut messages = pending;
    messages.push(QueuedMessage { kind, message: copy_text(message) });
    assert(queue_view(messages@) =~= before.push((kind, message@)));
    let count: usize = messages.len();
    assert(count == n + 1);
    let status = cat5(
        "Queued ",
        kind.label(),
        " message (",
        decimal_text(count as u64).as_str(),
        " pending).",
    );
    (messages, status)
}

/// The texts of the queued messages that were still queued.
pub open spec fn still_queued(messages: Seq<(QueuedMessageKind, Seq<char>)>, present: Seq<bool>) -> Seq<
    Seq<char>,
>
    decreases messages.len(),
{
    if messages.len() == 0 || present.len() != messages.len() {
        Seq::empty()
    } else {
        let before = still_queued(messages.drop_last(), present.drop_last());
        if present.last() {
            before.push(messages.last().1)
        } else {
            before
        }
    }
}

/// The texts of the queued messages that were still queued, one below the other, and how many there
/// are. `present` says of each message whether it was still queued.
pub fn restore_pending_messages(pending: &[QueuedMessage], present: &[bool]) -> (r: (String, usize))
    requires
        pending@.len() == present@.len(),
    ensures
        r.0@ == text::join(still_queued(queue_view(pending@), present@), "\n"@),
        r.1 == still_queued(queue_view(pending@), present@).len(),
{
    let ghost all = queue_view(pending@);
    let mut out: Vec<String> = Vec::new();
    let mut i: usize = 0;
    assert(all.take(0) =~= Seq::<(QueuedMessageKind, Seq<char>)>::empty());
    while i < pending.len()
        invariant
            0 <= i <= pending.len(),
            pending@.len() == present@.len(),
            all == queue_view(pending@),
            text::texts(out@) == still_queued(all.take(i as int), present@.take(i as int)),
        decreases pending.len() - i,
    {
        assert(all.take(i + 1).drop_last() =~= all.take(i as int));
        assert(present@.take(i + 1).drop_last() =~= present@.take(i as int));
        if present[i] {
            out.push(copy_text(pending[i].message.as_str()));
        }
        i += 1;
    }
    assert(all.take(i as int) =~= all);
    assert(present@.take(i as int) =~= present@);
    assert(text::texts(out@).len() == out@.len());
    (join_texts(out.as_slice(), "\n"), out.len())
}

/// What is said once queued messages have been put back.
pub open spec fn restored_note(start: Seq<char>, restored: nat) -> Seq<char> {
    if restored > 0 {
        start + " Restored "@ + text::decimal(restored) + " queued message(s)."@
    } else {
        start
    }
}

/// What is said once an answer has ended: nothing where it is complete; that it was broken off, or
/// why it failed, with how many queued messages were put back.
pub open spec fn ended(result: Result<bool, String>, restored: nat) -> StatusView {
    match result {
        Ok(aborted) => if aborted {
            StatusView::Say(restored_note("Request aborted."@, restored))
        } else {
            StatusView::Clear
        },
        Err(error) => StatusView::Say(restored_note(error@, restored)),
    }
}

fn note_restored(start: &str, restored: usize) -> (r: String)
    ensures
        r@ == restored_note(start@, restored as nat),
{
    if restored > 0 {
        cat4(start, " Restored ", decimal_text(restored as u64).as_str(), " queued message(s).")
    } else {
        copy_text(start)
    }
}

/// What is said once an answer has ended. `result` says whether it was broken off, or why it failed.
pub fn completion_status(result: Result<bool, String>, restored: usize) -> (r: Status)
    ensures
        r@ == ended(result, restored as nat),
{
    match result {
        Ok(aborted) => if aborted {
            Status::Say(note_restored("Request aborted.", restored))
        } else {
            Status::Clear
        },
        Err(error) => Status::Say(note_restored(error.as_str(), restored)),
    }
}

/// The letters by which the names of commands differ.
proof fn commands_differ()
    ensures
        "/quit"@.len() == 5,
        "/quit"@[0] == '/',
        "/quit"@[1] == 'q',
        "/quit"@[3] == 'i',
        "/exit"@.len() == 5,
        "/exit"@[0] == '/',
        "/exit"@[1] == 'e',
        "/exit"@[3] == 'i',
        "/new"@.len() == 4,
        "/new"@[0] == '/',
        "/new"@[1] == 'n',
        "/new"@[3] == 'w',
        "/session"@.len() == 8,
        "/session"@[0] == '/',
        "/session"@[1] == 's',
        "/session"@[3] == 's',
        "/resume"@.len() == 7,
        "/resume"@[0] == '/',
        "/resume"@[1] == 'r',
        "/resume"@[3] == 's',
        "/settings"@.len() == 9,
        "/settings"@[0] == '/',
        "/settings"@[1] == 's',
        "/settings"@[3] == 't',
        "/scoped-models"@.len() == 14,
        "/scoped-models"@[0] == '/',
        "/scoped-models"@[1] == 's',
        "/scoped-models"@[3] == 'o',
        "/tree"@.len() == 5,
        "/tree"@[0] == '/',
        "/tree"@[1] == 't',
        "/tree"@[3] == 'e',
        "/fork"@.len() == 5,
        "/fork"@[0] == '/',
        "/fork"@[1] == 'f',
        "/fork"@[3] == 'r',
        "/login"@.len() == 6,
        "/login"@[0] == '/',
        "/login"@[1] == 'l',
        "/login"@[3] == 'g',
        "/logout"@.len() == 7,
        "/logout"@[0] == '/',
        "/logout"@[1] == 'l',
        "/logout"@[3] == 'g',
        "/copy"@.len() == 5,
        "/copy"@[0] == '/',
        "/copy"@[1] == 'c',
        "/copy"@[3] == 'p',
        "/share"@.len() == 6,
        "/share"@[0] == '/',
        "/share"@[1] == 's',
        "/share"@[3] == 'a',
        "/reload"@.len() == 7,
        "/reload"@[0] == '/',
        "/reload"@[1] == 'r',
        "/reload"@[3] == 'l',
        "/changelog"@.len() == 10,
        "/changelog"@[0] == '/',
        "/changelog"@[1] == 'c',
        "/changelog"@[3] == 'a',
        "/hotkeys"@.len() == 8,
        "/hotkeys"@[0] == '/',
        "/hotkeys"@[1] == 'h',
        "/hotkeys"@[3] == 't',
        "/model"@.len() == 6,
        "/model"@[0] == '/',
        "/model"@[1] == 'm',
        "/model"@[3] == 'd',
        "/compact"@.len() == 8,
        "/compact"@[0] == '/',
        "/compact"@[1] == 'c',
        "/compact"@[3] == 'm',
        "/export"@.len() == 7,
        "/export"@[0] == '/',
        "/export"@[1] == 'e',
        "/export"@[3] == 'p',
{
    reveal_strlit("/quit");
    reveal_strlit("/exit");
    reveal_strlit("/new");
    reveal_strlit("/session");
    reveal_strlit("/resume");
    reveal_strlit("/settings");
    reveal_strlit("/scoped-models");
    reveal_strlit("/tree");
    reveal_strlit("/fork");
    reveal_strlit("/login");
    reveal_strlit("/logout");
    reveal_strlit("/copy");
    reveal_strlit("/share");
    reveal_strlit("/reload");
    reveal_strlit("/changelog");
    reveal_strlit("/hotkeys");
    reveal_strlit("/model");
    reveal_strlit("/compact");
    reveal_strlit("/export");
}

/// Each command that stands alone is understood, whatever white space is around it.
pub proof fn commands_are_understood(value: Seq<char>)
    ensures
        text::trim(value) == "/quit"@ ==> submission(value) == SubmissionView::Quit,
        text::trim(value) == "/exit"@ ==> submission(value) == SubmissionView::Quit,
        text::trim(value) == "/new"@ ==> submission(value) == SubmissionView::NewSession,
        text::trim(value) == "/session"@ ==> submission(value) == SubmissionView::SessionInfo,
        text::trim(value) == "/resume"@ ==> submission(value) == SubmissionView::Resume,
        text::trim(value) == "/settings"@ ==> submission(value) == SubmissionView::Settings,
        text::trim(value) == "/scoped-models"@ ==> submission(value) == SubmissionView::ScopedModels,
        text::trim(value) == "/tree"@ ==> submission(value) == SubmissionView::Tree,
        text::trim(value) == "/fork"@ ==> submission(value) == SubmissionView::Fork,
        text::trim(value) == "/login"@ ==> submission(value) == SubmissionView::Login,
        text::trim(value) == "/logout"@ ==> submission(value) == SubmissionView::Logout,
        text::trim(value) == "/copy"@ ==> submission(value) == SubmissionView::Copy,
        text::trim(value) == "/share"@ ==> submission(value) == SubmissionView::Share,
        text::trim(value) == "/reload"@ ==> submission(value) == SubmissionView::Reload,
        text::trim(value) == "/changelog"@ ==> submission(value) == SubmissionView::Changelog,
        text::trim(value) == "/hotkeys"@ ==> submission(value) == SubmissionView::Hotkeys,
{
    commands_differ();
}

proof fn spaced(name: Seq<char>, rest: Seq<char>)
    ensures
        text::has_prefix(name + seq![' '] + rest, name + " "@),
        (name + seq![' '] + rest).skip((name + " "@).len() as int) == rest,
        (name + seq![' '] + rest).len() == name.len() + 1 + rest.len(),
        (name + seq![' '] + rest)[name.len() as int] == ' ',
{
    reveal_strlit(" ");
    assert(" "@ =~= seq![' ']);
    let s = name + seq![' '] + rest;
    assert(s.take((name + " "@).len() as int) =~= name + " "@);
    assert(s.skip((name + " "@).len() as int) =~= rest);
}

/// A text that holds a space is none of the commands that stand alone.
proof fn spaced_is_no_word(s: Seq<char>, i: int)
    requires
        0 <= i < s.len(),
        s[i] == ' ',
    ensures
        word_command(s) is None,
{
    no_spaces_in_words();
    if word_command(s) is Some {
        assert(s.contains(' '));
    }
}

proof fn no_spaces_in_words()
    ensures
        !"/quit"@.contains(' '),
        !"/exit"@.contains(' '),
        !"/new"@.contains(' '),
        !"/session"@.contains(' '),
        !"/resume"@.contains(' '),
        !"/settings"@.contains(' '),
        !"/scoped-models"@.contains(' '),
        !"/tree"@.contains(' '),
        !"/fork"@.contains(' '),
        !"/login"@.contains(' '),
        !"/logout"@.contains(' '),
        !"/copy"@.contains(' '),
        !"/share"@.contains(' '),
        !"/reload"@.contains(' '),
        !"/changelog"@.contains(' '),
        !"/hotkeys"@.contains(' '),
{
    reveal_strlit("/quit");
    reveal_strlit("/exit");
    reveal_strlit("/new");
    reveal_strlit("/session");
    reveal_strlit("/resume");
    reveal_strlit("/settings");
    reveal_strlit("/scoped-models");
    reveal_strlit("/tree");
    reveal_strlit("/fork");
    reveal_strlit("/login");
    reveal_strlit("/logout");
    reveal_strlit("/copy");
    reveal_strlit("/share");
    reveal_strlit("/reload");
    reveal_strlit("/changelog");
    reveal_strlit("/hotkeys");
}

/// A command with text behind it is understood with that text: a model, instructions, a place or a
/// name.
pub proof fn commands_take_text(rest: Seq<char>)
    requires
        rest.len() > 0,
        !text::is_white(rest[0]),
        !text::is_white(rest.last()),
    ensures
        submission("/model"@ + seq![' '] + rest) == SubmissionView::Model(Some(rest)),
        submission("/compact"@ + seq![' '] + rest) == SubmissionView::Compact(Some(rest)),
        submission("/export"@ + seq![' '] + rest) == SubmissionView::Export(Some(rest)),
        submission("/name"@ + seq![' '] + rest) == SubmissionView::Name(Some(rest)),
{
    commands_differ();
    text::trim_keeps(rest);
    reveal_strlit("/name");
    reveal_strlit("/name ");
    reveal_strlit(" ");
    assert("/name "@ =~= "/name"@ + " "@);
    assert(!text::is_white('/'));
    {
        let s = "/model"@ + seq![' '] + rest;
        assert("/model"@[0] == '/');
        assert(s[0] == '/');
        assert(s.last() == rest.last());
        text::trim_keeps(s);
        spaced("/model"@, rest);
        spaced_is_no_word(s, 6);
        starts_differ(s, "/model"@);
    }
    {
        let s = "/compact"@ + seq![' '] + rest;
        assert("/compact"@[0] == '/');
        assert(s[0] == '/');
        assert(s.last() == rest.last());
        text::trim_keeps(s);
        spaced("/compact"@, rest);
        spaced_is_no_word(s, 8);
        starts_differ(s, "/compact"@);
    }
    {
        let s = "/export"@ + seq![' '] + rest;
        assert("/export"@[0] == '/');
        assert(s[0] == '/');
        assert(s.last() == rest.last());
        text::trim_keeps(s);
        spaced("/export"@, rest);
        spaced_is_no_word(s, 7);
        starts_differ(s, "/export"@);
    }
    {
        let s = "/name"@ + seq![' '] + rest;
        assert("/name"@[0] == '/');
        assert(s[0] == '/');
        assert(s.last() == rest.last());
        text::trim_keeps(s);
        spaced("/name"@, rest);
        spaced_is_no_word(s, 5);
        starts_differ(s, "/name"@);
    }
}

/// What begins with one command does not begin with another.
proof fn starts_differ(s: Seq<char>, name: Seq<char>)
    requires
        name == "/model"@ || name == "/compact"@ || name == "/export"@ || name == "/name"@,
        text::has_prefix(s, name + " "@),
    ensures
        name != "/model"@ ==> !calls_command(s, "/model"@),
        name != "/compact"@ ==> !calls_command(s, "/compact"@),
        name != "/export"@ ==> !calls_command(s, "/export"@),
        s != name,
{
    commands_differ();
    reveal_strlit("/model");
    reveal_strlit("/compact");
    reveal_strlit("/export");
    reveal_strlit("/name");
    reveal_strlit(" ");
    let start = name + " "@;
    assert(s[1] == start[1]) by {
        assert(s.take(start.len() as int)[1] == start[1]);
    }
    assert(start[1] == name[1]);
    assert("/model"@[1] == 'm' && "/compact"@[1] == 'c' && "/export"@[1] == 'e' && "/name"@[1]
        == 'n');
    if text::has_prefix(s, "/model"@ + " "@) {
        assert(s.take(("/model"@ + " "@).len() as int)[1] == ("/model"@ + " "@)[1]);
    }
    if text::has_prefix(s, "/compact"@ + " "@) {
        assert(s.take(("/compact"@ + " "@).len() as int)[1] == ("/compact"@ + " "@)[1]);
    }
    if text::has_prefix(s, "/export"@ + " "@) {
        assert(s.take(("/export"@ + " "@).len() as int)[1] == ("/export"@ + " "@)[1]);
    }
}

/// Without text behind them, the choice of a model, a shorter session and the session as a document
/// are asked for.
pub proof fn commands_need_no_text(value: Seq<char>)
    ensures
        text::trim(value) == "/model"@ ==> submission(value) == SubmissionView::Model(None),
        text::trim(value) == "/compact"@ ==> submission(value) == SubmissionView::Compact(None),
        text::trim(value) == "/export"@ ==> submission(value) == SubmissionView::Export(None),
{
    commands_differ();
    reveal_strlit(" ");
    reveal_strlit("/model");
    reveal_strlit("/compact");
    reveal_strlit("/export");
    assert("/model"@[1] == 'm' && "/compact"@[1] == 'c' && "/export"@[1] == 'e');
    let s = text::trim(value);
    second_char(s, "/model"@ + " "@);
    second_char(s, "/compact"@ + " "@);
    second_char(s, "/export"@ + " "@);
}

proof fn second_char(s: Seq<char>, prefix: Seq<char>)
    requires
        prefix.len() > 1,
    ensures
        text::has_prefix(s, prefix) ==> s.len() > 1 && s[1] == prefix[1],
{
    if text::has_prefix(s, prefix) {
        assert(s.take(prefix.len() as int)[1] == s[1]);
    }
}

/// One exclamation mark runs a shell command, and two run one that is kept from the model.
pub proof fn shell_commands_are_understood(command: Seq<char>)
    requires
        command.len() > 0,
        !text::is_white(command[0]),
        !text::is_white(command.last()),
    ensures
        command[0] != '!' ==> submission(seq!['!'] + command) == (SubmissionView::Bash {
            command,
            excluded: false,
        }),
        submission(seq!['!', '!'] + command) == (SubmissionView::Bash { command, excluded: true }),
{
    commands_differ();
    reveal_strlit("!");
    reveal_strlit("!!");
    reveal_strlit("/name ");
    reveal_strlit(" ");
    reveal_strlit("/model");
    reveal_strlit("/compact");
    reveal_strlit("/export");
    assert("!"@ =~= seq!['!']);
    assert("!!"@ =~= seq!['!', '!']);
    assert(!text::is_white('!'));
    text::trim_keeps(command);
    let one = seq!['!'] + command;
    let two = seq!['!', '!'] + command;
    assert(one[0] == '!' && two[0] == '!' && two[1] == '!');
    assert(one.last() == command.last() && two.last() == command.last());
    text::trim_keeps(one);
    text::trim_keeps(two);
    marked_is_no_command(one);
    marked_is_no_command(two);
    assert(one.take(1) =~= seq!['!']);
    assert(one.skip(1) =~= command);
    assert(two.take(2) =~= seq!['!', '!']);
    assert(two.skip(2) =~= command);
    if command[0] != '!' {
        if text::has_prefix(one, "!!"@) {
            assert(one.take(2)[1] == one[1]);
            assert(one[1] == command[0]);
        }
    }
}

proof fn marked_is_no_command(s: Seq<char>)
    requires
        s.len() > 0,
        s[0] == '!',
    ensures
        word_command(s) is None,
        !calls_command(s, "/model"@),
        !calls_command(s, "/compact"@),
        !calls_command(s, "/export"@),
        !text::has_prefix(s, "/name "@),
{
    commands_differ();
    reveal_strlit("/name ");
    reveal_strlit(" ");
    if text::has_prefix(s, "/model"@ + " "@) {
        assert(s.take(("/model"@ + " "@).len() as int)[0] == ("/model"@ + " "@)[0]);
    }
    if text::has_prefix(s, "/compact"@ + " "@) {
        assert(s.take(("/compact"@ + " "@).len() as int)[0] == ("/compact"@ + " "@)[0]);
    }
    if text::has_prefix(s, "/export"@ + " "@) {
        assert(s.take(("/export"@ + " "@).len() as int)[0] == ("/export"@ + " "@)[0]);
    }
    if text::has_prefix(s, "/name "@) {
        assert("/name "@[0] == '/');
        assert(s.take("/name "@.len() as int)[0] == "/name "@[0]);
    }
}

/// Of two runs of messages those that are still there come back from both, in order.
pub proof fn queued_messages_in_two(
    a: Seq<(QueuedMessageKind, Seq<char>)>,
    p: Seq<bool>,
    b: Seq<(QueuedMessageKind, Seq<char>)>,
    q: Seq<bool>,
)
    requires
        a.len() == p.len(),
        b.len() == q.len(),
    ensures
        still_queued(a + b, p + q) == still_queued(a, p) + still_queued(b, q),
    decreases b.len(),
{
    if b.len() == 0 {
        assert(a + b =~= a);
        assert(p + q =~= p);
        assert(still_queued(a, p) + still_queued(b, q) =~= still_queued(a, p));
    } else {
        queued_messages_in_two(a, p, b.drop_last(), q.drop_last());
        assert((a + b).drop_last() =~= a + b.drop_last());
        assert((p + q).drop_last() =~= p + q.drop_last());
        assert(still_queued(a + b, p + q) =~= still_queued(a, p) + still_queued(b, q));
    }
}

/// Where all messages are still there, all of them come back, and where none is, none.
pub proof fn queued_messages_come_back(
    messages: Seq<(QueuedMessageKind, Seq<char>)>,
    present: Seq<bool>,
)
    requires
        messages.len() == present.len(),
    ensures
        (forall|i: int| 0 <= i < present.len() ==> #[trigger] present[i]) ==> still_queued(
            messages,
            present,
        ) == Seq::new(messages.len(), |i: int| messages[i].1),
        (forall|i: int| 0 <= i < present.len() ==> !#[trigger] present[i]) ==> still_queued(
            messages,
            present,
        ).len() == 0,
    decreases messages.len(),
{
    if messages.len() > 0 {
        let front = messages.drop_last();
        let before = present.drop_last();
        assert(forall|i: int| 0 <= i < before.len() ==> before[i] == present[i]);
        assert(present[present.len() - 1] == present.last());
        queued_messages_come_back(front, before);
        if forall|i: int| 0 <= i < present.len() ==> #[trigger] present[i] {
            assert(still_queued(messages, present) =~= Seq::new(
                messages.len(),
                |i: int| messages[i].1,
            ));
        }
    }
}

/// The interface goes by what the settings say, each thing under its own name.
pub proof fn interface_goes_by_the_settings(settings: Json, b: bool)
    ensures
        json::bool_in(json::at_path(settings, seq!["hideThinkingBlock"@])) == Some(b)
            ==> interface_settings(settings).hide_thinking == b,
        json::bool_in(json::at_path(settings, seq!["terminal"@, "showImages"@])) == Some(b)
            ==> interface_settings(settings).show_images == b,
        json::bool_in(json::at_path(settings, seq!["compaction"@, "enabled"@])) == Some(b)
            ==> interface_settings(settings).auto_compact == b,
        json::bool_in(json::at_path(settings, seq!["quietStartup"@])) == Some(true)
            ==> interface_settings(settings).quiet_startup,
        json::bool_in(json::at_path(settings, seq!["terminal"@, "quietStartup"@])) == Some(true)
            ==> interface_settings(settings).quiet_startup,
        interface_settings(settings).steering_mode == QueueMode::All <==> json::text_in(
            json::at_path(settings, seq!["steeringMode"@]),
        ) == Some("all"@),
        interface_settings(settings).follow_up_mode == QueueMode::All <==> json::text_in(
            json::at_path(settings, seq!["followUpMode"@]),
        ) == Some("all"@),
        json::text_in(json::at_path(settings, seq!["doubleEscapeAction"@])) == Some("fork"@)
            ==> interface_settings(settings).double_escape_action == DoubleEscapeAction::Fork,
{
}

/// Where the settings say nothing, thinking and images are shown, the start is not quiet, messages
/// are delivered one at a time, and the context is compacted.
pub proof fn interface_has_its_usual_ways()
    ensures
        ({
            let usual = interface_settings(Json::Null);
            &&& !usual.hide_thinking
            &&& usual.show_images
            &&& !usual.quiet_startup
            &&& usual.double_escape_action == DoubleEscapeAction::Tree
            &&& usual.steering_mode == QueueMode::OneAtATime
            &&& usual.follow_up_mode == QueueMode::OneAtATime
            &&& usual.auto_compact
        }),
{
    let s = Json::Null;
    reveal_with_fuel(json::at_path, 3);
    assert(seq!["hideThinkingBlock"@].drop_last() =~= Seq::<Seq<char>>::empty());
    assert(seq!["quietStartup"@].drop_last() =~= Seq::<Seq<char>>::empty());
    assert(seq!["doubleEscapeAction"@].drop_last() =~= Seq::<Seq<char>>::empty());
    assert(seq!["steeringMode"@].drop_last() =~= Seq::<Seq<char>>::empty());
    assert(seq!["followUpMode"@].drop_last() =~= Seq::<Seq<char>>::empty());
    assert(seq!["terminal"@, "showImages"@].drop_last() =~= seq!["terminal"@]);
    assert(seq!["terminal"@, "quietStartup"@].drop_last() =~= seq!["terminal"@]);
    assert(seq!["terminal"@].drop_last() =~= Seq::<Seq<char>>::empty());
    assert(seq!["compaction"@, "enabled"@].drop_last() =~= seq!["compaction"@]);
    assert(seq!["compaction"@].drop_last() =~= Seq::<Seq<char>>::empty());
}

/// How many settings could not be read is told.
pub proof fn reloading_counts_warnings(warnings: nat)
    requires
        warnings > 0,
    ensures
        text::has_prefix(reloaded(warnings), "Reloaded with "@ + text::decimal(warnings)),
{
    let head = "Reloaded with "@ + text::decimal(warnings);
    assert(reloaded(warnings).take(head.len() as int) =~= head);
}

} // verus!
