//! What is offered to complete a prompt: commands and models.
use vstd::prelude::*;
use crate::editing::PromptAutocompleteKind;
use crate::models;
use crate::models::model_full_id;
use crate::overlay;
use crate::overlay::{ItemView, SelectItem};
use crate::session::ModelInfo;
use crate::submit;
use crate::text;
use crate::text::{cat2, cat3, copy_text};

verus! {

broadcast use crate::text::group_texts;

/// The title above what is offered.
pub fn completion_title(kind: PromptAutocompleteKind) -> (r: &'static str)
    ensures
        r@ == (match kind {
            PromptAutocompleteKind::SlashCommand => "Commands"@,
            PromptAutocompleteKind::ModelArgument => "Models"@,
            PromptAutocompleteKind::Path => "Paths"@,
            PromptAutocompleteKind::FileReference => "Files"@,
        }),
{
    match kind {
        PromptAutocompleteKind::SlashCommand => "Commands",
        PromptAutocompleteKind::ModelArgument => "Models",
        PromptAutocompleteKind::Path => "Paths",
        PromptAutocompleteKind::FileReference => "Files",
    }
}

/// A command as an item.
pub open spec fn command_item(name: Seq<char>, description: Seq<char>) -> ItemView {
    ItemView { value: name, label: name, description: Some(description) }
}

/// The commands that are always there.
pub open spec fn built_in_commands() -> Seq<ItemView> {
    seq![
        command_item("/settings"@, "Open settings menu"@),
        command_item("/model"@, "Select model"@),
        command_item("/scoped-models"@, "Choose the models to cycle through"@),
        command_item("/export"@, "Export session to an HTML file"@),
        command_item("/share"@, "Share session as a secret gist"@),
        command_item("/copy"@, "Copy last agent message to clipboard"@),
        command_item("/name"@, "Set session name"@),
        command_item("/session"@, "Show session info"@),
        command_item("/changelog"@, "Show changelog entries"@),
        command_item("/hotkeys"@, "Show keyboard shortcuts"@),
        command_item("/fork"@, "Branch from an earlier message"@),
        command_item("/tree"@, "Navigate session tree"@),
        command_item("/login"@, "Log in to a provider"@),
        command_item("/logout"@, "Log out of a provider"@),
        command_item("/new"@, "Start a new session"@),
        command_item("/compact"@, "Compact the current session"@),
        command_item("/resume"@, "Resume another session"@),
        command_item("/reload"@, "Reload extensions, skills, prompts, themes"@),
        command_item("/quit"@, "Quit"@),
    ]
}

fn offer_command(name: &str, description: &str) -> (r: SelectItem)
    ensures
        r@ == command_item(name@, description@),
{
    SelectItem {
        value: copy_text(name),
        label: copy_text(name),
        description: Some(copy_text(description)),
    }
}

fn offer_built_in_commands() -> (r: Vec<SelectItem>)
    ensures
        overlay::items(r@) == built_in_commands(),
{
    let mut list: Vec<SelectItem> = Vec::new();
    list.push(offer_command("/settings", "Open settings menu"));
    list.push(offer_command("/model", "Select model"));
    list.push(offer_command("/scoped-models", "Choose the models to cycle through"));
    list.push(offer_command("/export", "Export session to an HTML file"));
    list.push(offer_command("/share", "Share session as a secret gist"));
    list.push(offer_command("/copy", "Copy last agent message to clipboard"));
    list.push(offer_command("/name", "Set session name"));
    list.push(offer_command("/session", "Show session info"));
    list.push(offer_command("/changelog", "Show changelog entries"));
    list.push(offer_command("/hotkeys", "Show keyboard shortcuts"));
    list.push(offer_command("/fork", "Branch from an earlier message"));
    list.push(offer_command("/tree", "Navigate session tree"));
    list.push(offer_command("/login", "Log in to a provider"));
    list.push(offer_command("/logout", "Log out of a provider"));
    list.push(offer_command("/new", "Start a new session"));
    list.push(offer_command("/compact", "Compact the current session"));
    list.push(offer_command("/resume", "Resume another session"));
    list.push(offer_command("/reload", "Reload extensions, skills, prompts, themes"));
    list.push(offer_command("/quit", "Quit"));
    assert(overlay::items(list@) =~= built_in_commands());
    list
}

/// Where a command of a session comes from.
#[derive(Clone, Copy, Debug, PartialEq, Eq, Structural)]
pub enum CommandSource {
    Prompt,
    Skill,
}

/// A command of a session.
#[derive(Clone, Debug, PartialEq, Eq)]
pub struct SlashCommand {
    pub name: String,
    pub description: Option<String>,
    pub source: CommandSource,
}

/// What a source is called.
pub open spec fn source_name(source: CommandSource) -> Seq<char> {
    match source {
        CommandSource::Prompt => "Prompt template"@,
        CommandSource::Skill => "Skill"@,
    }
}

/// A command of a session as an item: with a slash before its name, and with its source before its
/// description.
pub open spec fn session_command(command: SlashCommand) -> ItemView {
    let origin = source_name(command.source);
    command_item(
        "/"@ + command.name@,
        match command.description {
            Some(description) => origin + " - "@ + description@,
            None => origin,
        },
    )
}

fn offer_session_command(command: &SlashCommand) -> (r: SelectItem)
    ensures
        r@ == session_command(*command),
{
    let origin = match command.source {
        CommandSource::Prompt => "Prompt template",
        CommandSource::Skill => "Skill",
    };
    let name = cat2("/", command.name.as_str());
    let description = match &command.description {
        Some(description) => cat3(origin, " - ", description.as_str()),
        None => copy_text(origin),
    };
    offer_command(name.as_str(), description.as_str())
}

/// The commands that are offered: those that are always there, then those of the session.
pub fn slash_command_items(commands: &[SlashCommand]) -> (r: Vec<SelectItem>)
    ensures
        overlay::items(r@) == built_in_commands() + Seq::new(
            commands@.len(),
            |i: int| session_command(commands@[i]),
        ),
{
    let mut list = offer_built_in_commands();
    let ghost start = list@;
    let mut i: usize = 0;
    while i < commands.len()
        invariant
            0 <= i <= commands.len(),
            overlay::items(start) == built_in_commands(),
            list@.len() == start.len() + i,
            forall|j: int| 0 <= j < start.len() ==> list@[j] == start[j],
            forall|j: int|
                0 <= j < i ==> (#[trigger] list@[start.len() + j])@ == session_command(commands@[j]),
        decreases commands.len() - i,
    {
        list.push(offer_session_command(&commands[i]));
        i += 1;
    }
    assert forall|j: int| 0 <= j < list@.len() implies #[trigger] overlay::items(list@)[j] == (
    built_in_commands() + Seq::new(commands@.len(), |k: int| session_command(commands@[k])))[j] by {
        if j < start.len() {
            assert(overlay::items(start)[j] == start[j]@);
        } else {
            assert(list@[start.len() + (j - start.len())]@ == session_command(
                commands@[j - start.len()],
            ));
        }
    }
    assert(overlay::items(start).len() == start.len());
    assert(overlay::items(list@) =~= built_in_commands() + Seq::new(
        commands@.len(),
        |k: int| session_command(commands@[k]),
    ));
    list
}

/// A model as an item.
pub open spec fn model_offer(m: models::ModelView) -> ItemView {
    ItemView { value: models::full_id(m), label: models::full_id(m), description: Some(m.name) }
}

/// The models that are offered.
pub fn model_completion_items(models: &[ModelInfo]) -> (r: Vec<SelectItem>)
    ensures
        overlay::items(r@) == Seq::new(
            models@.len(),
            |i: int| model_offer(models::model_view(models@[i])),
        ),
{
    let mut list: Vec<SelectItem> = Vec::new();
    let mut i: usize = 0;
    while i < models.len()
        invariant
            0 <= i <= models.len(),
            list@.len() == i,
            forall|j: int|
                0 <= j < i ==> (#[trigger] list@[j])@ == model_offer(
                    models::model_view(models@[j]),
                ),
        decreases models.len() - i,
    {
        list.push(
            SelectItem {
                value: model_full_id(&models[i]),
                label: model_full_id(&models[i]),
                description: Some(copy_text(models[i].name.as_str())),
            },
        );
        i += 1;
    }
    assert(overlay::items(list@) =~= Seq::new(
        models@.len(),
        |k: int| model_offer(models::model_view(models@[k])),
    ));
    list
}

proof fn command_stays(s: Seq<char>)
    requires
        s.len() > 1,
        s[0] == '/',
        !text::is_white(s.last()),
    ensures
        text::trim(s) == s,
{
    assert(!text::is_white('/'));
    text::trim_keeps(s);
}

/// Each command that is always offered is understood, but for the one that needs a name behind it:
/// it does not go to the model.
pub proof fn offered_commands_are_understood(i: int)
    requires
        0 <= i < built_in_commands().len(),
        built_in_commands()[i].value != "/name"@,
    ensures
        !(submit::submission(built_in_commands()[i].value) is Prompt),
{
    let s = built_in_commands()[i].value;
    reveal_strlit("/settings");
    reveal_strlit("/model");
    reveal_strlit("/scoped-models");
    reveal_strlit("/export");
    reveal_strlit("/share");
    reveal_strlit("/copy");
    reveal_strlit("/session");
    reveal_strlit("/changelog");
    reveal_strlit("/hotkeys");
    reveal_strlit("/fork");
    reveal_strlit("/tree");
    reveal_strlit("/login");
    reveal_strlit("/logout");
    reveal_strlit("/new");
    reveal_strlit("/compact");
    reveal_strlit("/resume");
    reveal_strlit("/reload");
    reveal_strlit("/quit");
    command_stays(s);
}

/// A command of the session is offered under its own name, and where it comes from is said before
/// what it does.
pub proof fn session_commands_are_offered(command: SlashCommand)
    ensures
        session_command(command).value == seq!['/'] + command.name@,
        session_command(command).label == seq!['/'] + command.name@,
        text::has_prefix(session_command(command).description->0, source_name(command.source)),
        command.description matches Some(description) ==> text::has_suffix(
            session_command(command).description->0,
            description@,
        ),
        command.source is Skill ==> text::has_prefix(
            session_command(command).description->0,
            "Skill"@,
        ),
        command.source is Prompt ==> text::has_prefix(
            session_command(command).description->0,
            "Prompt template"@,
        ),
{
    reveal_strlit("/");
    assert("/"@ =~= seq!['/']);
    let d = session_command(command).description->0;
    let origin = source_name(command.source);
    assert(d.take(origin.len() as int) =~= origin);
    if let Some(description) = command.description {
        assert(d.skip(d.len() - description@.len()) =~= description@);
    }
}

/// A model is offered under the identifier that it is chosen by.
pub proof fn models_are_offered(m: models::ModelView)
    ensures
        model_offer(m).value == m.provider + seq!['/'] + m.id,
        model_offer(m).label == model_offer(m).value,
        model_offer(m).description == Some(m.name),
{
    reveal_strlit("/");
    assert("/"@ =~= seq!['/']);
}

} // verus!
