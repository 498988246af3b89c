//! Usage and help texts.
use vstd::prelude::*;
use crate::commands::{PackageCommand, PluginsCommand};

verus! {

/// The general help.
pub const HELP_TEXT: &'static str = "pi-rust - AI coding assistant with read, bash, edit, write tools

Usage:
  pi-rust [options] [@files...] [messages...]

Commands:
  pi-rust install <source> [-l]     Install a package and add it to settings
  pi-rust remove <source> [-l]      Remove a package and its source from settings
  pi-rust update [source]           Update installed packages
  pi-rust list                      List installed packages
  pi-rust config                    Open the resource configuration view
  pi-rust plugins <command>         Manage plugin roots and inspect plugins

Options:
  --provider <name>                 Provider name
  --model <id>                      Model id
  --api-key <key>                   API key
  --system-prompt <text>            System prompt
  --append-system-prompt <text>     Text appended to the system prompt
  --mode <mode>                     Output mode: text, json or rpc
  --print, -p                       Process the prompt and exit
  --continue, -c                    Continue the previous session
  --resume, -r                      Select a session to resume
  --session <path>                  Use a session file
  --session-dir <dir>               Directory of session files
  --no-session                      Do not save the session
  --models <patterns>               Model patterns separated by commas
  --no-tools                        Disable all built-in tools
  --tools <tools>                   Tools separated by commas: read, bash, edit, write, grep, find, ls
  --thinking <level>                Thinking level: off, minimal, low, medium, high, xhigh
  --skill <path>                    Load a skill
  --no-skills, -ns                  Disable skills
  --prompt-template <path>          Load a prompt template
  --no-prompt-templates, -np        Disable prompt templates
  --theme <path>                    Load a theme
  --no-themes                       Disable themes
  --export <file>                   Export a session file to HTML and exit
  --list-models [search]            List available models
  --list-known-models [search]      List known models
  --verbose                         Show startup details
  --help, -h                        Show this help
  --version, -v                     Show the version number
";

/// The version of the program.
pub const VERSION_TEXT: &'static str = "0.1.0";

/// The general help.
pub fn render_help_text() -> (r: &'static str)
    ensures
        r@ == HELP_TEXT@,
{
    HELP_TEXT
}

/// The version of the program.
pub fn render_version_text() -> (r: &'static str)
    ensures
        r@ == VERSION_TEXT@,
{
    VERSION_TEXT
}

/// How a package command is called.
pub open spec fn package_usage(command: PackageCommand) -> Seq<char> {
    match command {
        PackageCommand::Install => "pi-rust install <source> [-l]"@,
        PackageCommand::Remove => "pi-rust remove <source> [-l]"@,
        PackageCommand::Update => "pi-rust update [source]"@,
        PackageCommand::List => "pi-rust list"@,
    }
}

/// How a package command is called.
pub fn render_package_command_usage(command: PackageCommand) -> (r: &'static str)
    ensures
        r@ == package_usage(command),
{
    match command {
        PackageCommand::Install => "pi-rust install <source> [-l]",
        PackageCommand::Remove => "pi-rust remove <source> [-l]",
        PackageCommand::Update => "pi-rust update [source]",
        PackageCommand::List => "pi-rust list",
    }
}

pub const INSTALL_HELP: &'static str = "Usage:\n  pi-rust install <source> [-l]\n\nInstall a package and add it to settings.\n\nOptions:\n  -l, --local    Install project-locally (.pi/settings.json)\n\nExamples:\n  pi-rust install npm:@foo/bar\n  pi-rust install git:github.com/user/repo\n  pi-rust install git:git@github.com:user/repo\n  pi-rust install https://github.com/user/repo\n  pi-rust install ssh://git@github.com/user/repo\n  pi-rust install ./local/path\n";

pub const REMOVE_HELP: &'static str = "Usage:\n  pi-rust remove <source> [-l]\n\nRemove a package and its source from settings.\n\nOptions:\n  -l, --local    Remove from project settings (.pi/settings.json)\n\nExample:\n  pi-rust remove npm:@foo/bar\n";

pub const UPDATE_HELP: &'static str = "Usage:\n  pi-rust update [source]\n\nUpdate installed packages.\nIf <source> is provided, only that package is updated.\n";

pub const LIST_HELP: &'static str = "Usage:\n  pi-rust list\n\nList installed packages from user and project settings.\n";

/// The help of a package command.
pub open spec fn package_help(command: PackageCommand) -> Seq<char> {
    match command {
        PackageCommand::Install => INSTALL_HELP@,
        PackageCommand::Remove => REMOVE_HELP@,
        PackageCommand::Update => UPDATE_HELP@,
        PackageCommand::List => LIST_HELP@,
    }
}

/// The help of a package command.
pub fn render_package_command_help(command: PackageCommand) -> (r: &'static str)
    ensures
        r@ == package_help(command),
{
    match command {
        PackageCommand::Install => INSTALL_HELP,
        PackageCommand::Remove => REMOVE_HELP,
        PackageCommand::Update => UPDATE_HELP,
        PackageCommand::List => LIST_HELP,
    }
}

/// How a plugins command is called.
pub open spec fn plugins_usage(command: PluginsCommand) -> Seq<char> {
    match command {
        PluginsCommand::List => "pi-rust plugins list"@,
        PluginsCommand::AddRoot => "pi-rust plugins add-root <path> [-l|--project]"@,
        PluginsCommand::RemoveRoot => "pi-rust plugins remove-root <path> [-l|--project]"@,
    }
}

/// How a plugins command is called.
pub fn render_plugins_command_usage(command: PluginsCommand) -> (r: &'static str)
    ensures
        r@ == plugins_usage(command),
{
    match command {
        PluginsCommand::List => "pi-rust plugins list",
        PluginsCommand::AddRoot => "pi-rust plugins add-root <path> [-l|--project]",
        PluginsCommand::RemoveRoot => "pi-rust plugins remove-root <path> [-l|--project]",
    }
}

pub const PLUGINS_LIST_HELP: &'static str = "Usage:\n  pi-rust plugins list\n\nList plugin runtime diagnostics from discovered plugins.\nUse --mode json for machine-readable diagnostics.\n";

pub const ADD_ROOT_HELP: &'static str = "Usage:\n  pi-rust plugins add-root <path> [-l|--project]\n\nAdd a plugin root to settings.\nUse -l, --project, or --local to store the root in project settings (.pi/settings.json).\n";

pub const REMOVE_ROOT_HELP: &'static str = "Usage:\n  pi-rust plugins remove-root <path> [-l|--project]\n\nRemove a plugin root from settings.\nUse -l, --project, or --local to target project settings (.pi/settings.json).\n";

pub const PLUGINS_HELP: &'static str = "Usage:\n  pi-rust plugins list\n  pi-rust plugins add-root <path> [-l|--project]\n  pi-rust plugins remove-root <path> [-l|--project]\n\nManage plugin discovery roots and inspect plugin runtime diagnostics.\n";

/// The help of a plugins command.
pub open spec fn plugins_help(command: PluginsCommand) -> Seq<char> {
    match command {
        PluginsCommand::List => PLUGINS_LIST_HELP@,
        PluginsCommand::AddRoot => ADD_ROOT_HELP@,
        PluginsCommand::RemoveRoot => REMOVE_ROOT_HELP@,
    }
}

/// The help of a plugins command.
pub fn render_plugins_command_help(command: PluginsCommand) -> (r: &'static str)
    ensures
        r@ == plugins_help(command),
{
    match command {
        PluginsCommand::List => PLUGINS_LIST_HELP,
        PluginsCommand::AddRoot => ADD_ROOT_HELP,
        PluginsCommand::RemoveRoot => REMOVE_ROOT_HELP,
    }
}

/// The help of the plugins commands as a group.
pub fn render_plugins_help_text() -> (r: &'static str)
    ensures
        r@ == PLUGINS_HELP@,
{
    PLUGINS_HELP
}

} // verus!
