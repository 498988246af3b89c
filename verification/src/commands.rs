//! Package and plugins commands: how they are read from the command line, and what answers them.
use vstd::prelude::*;
use crate::args;
use crate::args::{find_listing, find_setting, find_switch, search_like, Setting, Switch};
use crate::help;
use crate::help::{render_package_command_help, render_package_command_usage, render_plugins_command_help, render_plugins_command_usage, render_plugins_help_text};
use crate::text;
use crate::text::{begins_with, begins_with_char, cat3, cat5, copy_text, join_texts, same, trimmed_end};

verus! {

broadcast use crate::text::group_texts;

/// A command on packages.
#[derive(Clone, Copy, Debug, PartialEq, Eq, Structural)]
pub enum PackageCommand {
    Install,
    Remove,
    Update,
    List,
}

/// A command on plugins.
#[derive(Clone, Copy, Debug, PartialEq, Eq, Structural)]
pub enum PluginsCommand {
    List,
    AddRoot,
    RemoveRoot,
}

impl PackageCommand {
    /// The command's name.
    pub open spec fn name(self) -> Seq<char> {
        match self {
            PackageCommand::Install => "install"@,
            PackageCommand::Remove => "remove"@,
            PackageCommand::Update => "update"@,
            PackageCommand::List => "list"@,
        }
    }

    /// The command with a name.
    pub fn from_str(value: &str) -> (r: Option<PackageCommand>)
        ensures
            r == package_command_named(value@),
    {
        if same(value, "install") {
            Some(PackageCommand::Install)
        } else if same(value, "remove") {
            Some(PackageCommand::Remove)
        } else if same(value, "update") {
            Some(PackageCommand::Update)
        } else if same(value, "list") {
            Some(PackageCommand::List)
        } else {
            None
        }
    }

    /// The command's name.
    pub fn as_str(self) -> (r: &'static str)
        ensures
            r@ == self.name(),
    {
        match self {
            PackageCommand::Install => "install",
            PackageCommand::Remove => "remove",
            PackageCommand::Update => "update",
            PackageCommand::List => "list",
        }
    }
}

impl PluginsCommand {
    /// The command's name.
    pub open spec fn name(self) -> Seq<char> {
        match self {
            PluginsCommand::List => "list"@,
            PluginsCommand::AddRoot => "add-root"@,
            PluginsCommand::RemoveRoot => "remove-root"@,
        }
    }

    /// The command's name.
    pub fn as_str(self) -> (r: &'static str)
        ensures
            r@ == self.name(),
    {
        match self {
            PluginsCommand::List => "list",
            PluginsCommand::AddRoot => "add-root",
            PluginsCommand::RemoveRoot => "remove-root",
        }
    }
}

/// The package command with a name.
pub open spec fn package_command_named(name: Seq<char>) -> Option<PackageCommand> {
    if name == "install"@ {
        Some(PackageCommand::Install)
    } else if name == "remove"@ {
        Some(PackageCommand::Remove)
    } else if name == "update"@ {
        Some(PackageCommand::Update)
    } else if name == "list"@ {
        Some(PackageCommand::List)
    } else {
        None
    }
}

/// The name of a package command is read as that command.
pub proof fn package_command_round_trip(command: PackageCommand)
    ensures
        package_command_named(command.name()) == Some(command),
{
    if package_command_named(command.name()) is Some {
        package_names_differ(package_command_named(command.name())->0, command);
    }
}

/// Two package commands with the same name are the same command.
pub proof fn package_names_differ(a: PackageCommand, b: PackageCommand)
    requires
        a.name() == b.name(),
    ensures
        a == b,
{
    reveal_strlit("install");
    reveal_strlit("remove");
    reveal_strlit("update");
    reveal_strlit("list");
    assert("install"@[0] == 'i');
    assert("remove"@[0] == 'r');
    assert("update"@[0] == 'u');
    assert("list"@[0] == 'l');
}

/// How a run ended.
#[derive(Clone, Debug, PartialEq, Eq)]
pub enum RunResult {
    Completed { exit_code: i32, stdout: Option<String>, stderr: Option<String> },
}

/// How a run ended, as a mathematical value.
pub struct RunView {
    pub exit_code: int,
    pub stdout: Option<Seq<char>>,
    pub stderr: Option<Seq<char>>,
}

impl View for RunResult {
    type V = RunView;

    open spec fn view(&self) -> RunView {
        match self {
            RunResult::Completed { exit_code, stdout, stderr } => RunView {
                exit_code: *exit_code as int,
                stdout: text::opt_text(*stdout),
                stderr: text::opt_text(*stderr),
            },
        }
    }
}

/// A run that succeeds and prints `output`.
pub open spec fn printed(output: Seq<char>) -> RunView {
    RunView { exit_code: 0, stdout: Some(output), stderr: None }
}

/// A run that fails and reports `message`.
pub open spec fn refused(message: Seq<char>) -> RunView {
    RunView { exit_code: 1, stdout: None, stderr: Some(message) }
}

/// A run that succeeds and prints nothing.
pub open spec fn silent() -> RunView {
    RunView { exit_code: 0, stdout: None, stderr: None }
}

/// A run that succeeds and prints `output`.
pub fn print_result(output: String) -> (r: RunResult)
    ensures
        r@ == printed(output@),
{
    RunResult::Completed { exit_code: 0, stdout: Some(output), stderr: None }
}

/// A run that fails and reports `message`.
pub fn refuse_result(message: String) -> (r: RunResult)
    ensures
        r@ == refused(message@),
{
    RunResult::Completed { exit_code: 1, stdout: None, stderr: Some(message) }
}

/// A run that succeeds and prints nothing.
pub fn silent_result() -> (r: RunResult)
    ensures
        r@ == silent(),
{
    RunResult::Completed { exit_code: 0, stdout: None, stderr: None }
}

/// Why a run cannot go on.
#[derive(Clone, Debug, PartialEq, Eq)]
pub enum CliError {
    UnsupportedExtensions,
    PackageCommandNotImplemented(PackageCommand),
    TuiRequiresTerminal(&'static str),
    InteractiveFailed(String),
}

/// Why a run cannot go on, as a mathematical value.
pub enum CliErrorView {
    UnsupportedExtensions,
    PackageCommandNotImplemented(PackageCommand),
    TuiRequiresTerminal(Seq<char>),
    InteractiveFailed(Seq<char>),
}

impl View for CliError {
    type V = CliErrorView;

    open spec fn view(&self) -> CliErrorView {
        match self {
            CliError::UnsupportedExtensions => CliErrorView::UnsupportedExtensions,
            CliError::PackageCommandNotImplemented(command) =>
                CliErrorView::PackageCommandNotImplemented(*command),
            CliError::TuiRequiresTerminal(command) => CliErrorView::TuiRequiresTerminal(command@),
            CliError::InteractiveFailed(message) => CliErrorView::InteractiveFailed(message@),
        }
    }
}

impl CliError {
    /// What is told of the error.
    pub open spec fn description(self) -> Seq<char> {
        match self {
            CliError::UnsupportedExtensions =>
                "pi-rust v1 does not execute JS/TS extensions. Remove --extension/--no-extensions and any extension-only package resources."@,
            CliError::PackageCommandNotImplemented(command) => "pi-rust recognizes the \""@
                + command.name()
                + "\" package command, but package execution is not implemented yet."@,
            CliError::TuiRequiresTerminal(command) => command@
                + " requires an interactive terminal (TTY)."@,
            CliError::InteractiveFailed(message) => message@,
        }
    }

    /// What is told of the error.
    pub fn message(&self) -> (r: String)
        ensures
            r@ == self.description(),
    {
        match self {
            CliError::UnsupportedExtensions => copy_text(
                "pi-rust v1 does not execute JS/TS extensions. Remove --extension/--no-extensions and any extension-only package resources.",
            ),
            CliError::PackageCommandNotImplemented(command) => cat3(
                "pi-rust recognizes the \"",
                command.as_str(),
                "\" package command, but package execution is not implemented yet.",
            ),
            CliError::TuiRequiresTerminal(command) => text::cat2(
                command,
                " requires an interactive terminal (TTY).",
            ),
            CliError::InteractiveFailed(message) => copy_text(message.as_str()),
        }
    }
}

/// A package command as it was called.
#[derive(Clone, Debug, PartialEq, Eq)]
pub struct PackageCommandOptions {
    pub command: PackageCommand,
    pub source: Option<String>,
    pub local: bool,
    pub help: bool,
    pub invalid_option: Option<String>,
}

/// Whether an argument asks for help.
pub open spec fn asks_help(arg: Seq<char>) -> bool {
    arg == "-h"@ || arg == "--help"@
}

/// Whether an argument asks for project scope.
pub open spec fn asks_local(arg: Seq<char>) -> bool {
    arg == "-l"@ || arg == "--local"@
}

/// Whether a package command has a project scope.
pub open spec fn has_scope(command: PackageCommand) -> bool {
    command == PackageCommand::Install || command == PackageCommand::Remove
}

/// Whether a package command refuses an argument.
pub open spec fn package_refuses(command: PackageCommand, arg: Seq<char>) -> bool {
    &&& !asks_help(arg)
    &&& if asks_local(arg) {
        !has_scope(command)
    } else {
        text::starts_with_char(arg, '-')
    }
}

/// Whether an argument of a package command is a source.
pub open spec fn is_source(arg: Seq<char>) -> bool {
    !asks_help(arg) && !asks_local(arg) && !text::starts_with_char(arg, '-')
}

/// The first text for which `test` holds.
pub open spec fn first_where(list: Seq<Seq<char>>, test: spec_fn(Seq<char>) -> bool) -> Option<
    Seq<char>,
>
    decreases list.len(),
{
    if list.len() == 0 {
        None
    } else {
        match first_where(list.drop_last(), test) {
            Some(found) => Some(found),
            None => if test(list.last()) {
                Some(list.last())
            } else {
                None
            },
        }
    }
}

/// Whether `test` holds for some text.
pub open spec fn any_where(list: Seq<Seq<char>>, test: spec_fn(Seq<char>) -> bool) -> bool {
    exists|i: int| 0 <= i < list.len() && test(#[trigger] list[i])
}

/// `any_where` of a list that grew by one.
proof fn any_where_push(list: Seq<Seq<char>>, arg: Seq<char>, test: spec_fn(Seq<char>) -> bool)
    ensures
        any_where(list.push(arg), test) == (any_where(list, test) || test(arg)),
{
    let longer = list.push(arg);
    if any_where(list, test) {
        let i = choose|i: int| 0 <= i < list.len() && test(#[trigger] list[i]);
        assert(test(longer[i]));
    }
    if test(arg) {
        assert(test(longer[list.len() as int]));
    }
    if any_where(longer, test) && !test(arg) {
        let i = choose|i: int| 0 <= i < longer.len() && test(#[trigger] longer[i]);
        assert(test(list[i]));
    }
}

/// A package command as it was called, as a mathematical value.
pub struct PackageOptionsView {
    pub command: PackageCommand,
    pub source: Option<Seq<char>>,
    pub local: bool,
    pub help: bool,
    pub invalid_option: Option<Seq<char>>,
}

impl View for PackageCommandOptions {
    type V = PackageOptionsView;

    open spec fn view(&self) -> PackageOptionsView {
        PackageOptionsView {
            command: self.command,
            source: text::opt_text(self.source),
            local: self.local,
            help: self.help,
            invalid_option: text::opt_text(self.invalid_option),
        }
    }
}

/// What the arguments after a package command say: the first source and the first refused option
/// count.
pub open spec fn package_options(
    command: PackageCommand,
    rest: Seq<Seq<char>>,
) -> PackageOptionsView {
    PackageOptionsView {
        command,
        source: first_where(rest, |arg: Seq<char>| is_source(arg)),
        local: has_scope(command) && any_where(
            rest,
            |arg: Seq<char>| !asks_help(arg) && asks_local(arg),
        ),
        help: any_where(rest, |arg: Seq<char>| asks_help(arg)),
        invalid_option: first_where(rest, |arg: Seq<char>| package_refuses(command, arg)),
    }
}

/// What the arguments say of a package command, where the first one names one.
pub open spec fn package_call(args: Seq<Seq<char>>) -> Option<PackageOptionsView> {
    if args.len() == 0 {
        None
    } else {
        match package_command_named(args[0]) {
            Some(command) => Some(package_options(command, args.skip(1))),
            None => None,
        }
    }
}

/// Reads a package command, where the first argument names one.
pub fn parse_package_command(args: &[String]) -> (r: Option<PackageCommandOptions>)
    ensures
        match r {
            Some(options) => package_call(text::texts(args@)) == Some(options@),
            None => package_call(text::texts(args@)) is None,
        },
{
    if args.len() == 0 {
        return None;
    }
    let command = match PackageCommand::from_str(args[0].as_str()) {
        Some(command) => command,
        None => {
            return None;
        },
    };
    let ghost rest = text::texts(args@).skip(1);
    let mut options = PackageCommandOptions {
        command,
        source: None,
        local: false,
        help: false,
        invalid_option: None,
    };
    let mut i: usize = 1;
    assert(rest.take(0) =~= Seq::<Seq<char>>::empty());
    while i < args.len()
        invariant
            1 <= i <= args.len(),
            rest == text::texts(args@).skip(1),
            options@ == package_options(command, rest.take(i - 1)),
        decreases args.len() - i,
    {
        let arg = args[i].as_str();
        proof {
            assert(rest[i - 1] == arg@);
            assert(rest.take(i as int) =~= rest.take(i - 1).push(arg@));
            assert(rest.take(i as int).drop_last() =~= rest.take(i - 1));
            any_where_push(rest.take(i - 1), arg@, |arg: Seq<char>| asks_help(arg));
            any_where_push(
                rest.take(i - 1),
                arg@,
                |arg: Seq<char>| !asks_help(arg) && asks_local(arg),
            );
        }
        if same(arg, "-h") || same(arg, "--help") {
            options.help = true;
        } else if same(arg, "-l") || same(arg, "--local") {
            if matches!(command, PackageCommand::Install | PackageCommand::Remove) {
                options.local = true;
            } else if options.invalid_option.is_none() {
                options.invalid_option = Some(copy_text(arg));
            }
        } else if begins_with_char(arg, '-') {
            if options.invalid_option.is_none() {
                options.invalid_option = Some(copy_text(arg));
            }
        } else if options.source.is_none() {
            options.source = Some(copy_text(arg));
        }
        i += 1;
    }
    assert(rest.take(i - 1) =~= rest);
    Some(options)
}

/// What to do for a package command.
#[derive(Clone, Debug, PartialEq, Eq)]
pub enum PackageStep {
    Finish(RunResult),
    Install { source: String, project: bool },
    Remove { source: String, project: bool },
    Update { only: Option<String> },
    List,
}

/// What to do for a package command, as a mathematical value.
pub enum PackageStepView {
    Finish(RunView),
    Install { source: Seq<char>, project: bool },
    Remove { source: Seq<char>, project: bool },
    Update { only: Option<Seq<char>> },
    List,
}

impl View for PackageStep {
    type V = PackageStepView;

    open spec fn view(&self) -> PackageStepView {
        match self {
            PackageStep::Finish(result) => PackageStepView::Finish(result@),
            PackageStep::Install { source, project } => PackageStepView::Install {
                source: source@,
                project: *project,
            },
            PackageStep::Remove { source, project } => PackageStepView::Remove {
                source: source@,
                project: *project,
            },
            PackageStep::Update { only } => PackageStepView::Update { only: text::opt_text(*only) },
            PackageStep::List => PackageStepView::List,
        }
    }
}

/// The answer to an option that a command does not know.
pub open spec fn unknown_option(option: Seq<char>, command: Seq<char>, usage: Seq<char>) -> Seq<
    char,
> {
    "Unknown option "@ + option + " for \""@ + command + "\".\nUse \"pi-rust --help\" or \""@
        + usage + "\"."@
}

fn unknown_option_text(option: &str, command: &str, usage: &str) -> (r: String)
    ensures
        r@ == unknown_option(option@, command@, usage@),
{
    let mut out = cat5(
        "Unknown option ",
        option,
        " for \"",
        command,
        "\".\nUse \"pi-rust --help\" or \"",
    );
    out.append(usage);
    out.append("\".");
    out
}

/// What a package command leads to: its help, then the refusal of an unknown option, then the
/// refusal of a missing source, then the work itself.
pub open spec fn package_plan(options: PackageOptionsView) -> PackageStepView {
    let command = options.command;
    let source = options.source;
    if options.help {
        PackageStepView::Finish(printed(text::trim_end(help::package_help(command))))
    } else if options.invalid_option is Some {
        PackageStepView::Finish(
            refused(
                unknown_option(
                    options.invalid_option->0,
                    command.name(),
                    help::package_usage(command),
                ),
            ),
        )
    } else if has_scope(command) && source is None {
        PackageStepView::Finish(
            refused(
                "Missing "@ + command.name() + " source.\nUsage: "@ + help::package_usage(command),
            ),
        )
    } else {
        match command {
            PackageCommand::Install => PackageStepView::Install {
                source: source->0,
                project: options.local,
            },
            PackageCommand::Remove => PackageStepView::Remove {
                source: source->0,
                project: options.local,
            },
            PackageCommand::Update => PackageStepView::Update { only: source },
            PackageCommand::List => PackageStepView::List,
        }
    }
}

/// What to do for a package command.
pub fn run_package_command(options: &PackageCommandOptions) -> (r: PackageStep)
    ensures
        r@ == package_plan(options@),
{
    let command = options.command;
    if options.help {
        return PackageStep::Finish(
            print_result(trimmed_end(render_package_command_help(command))),
        );
    }
    if let Some(invalid_option) = &options.invalid_option {
        return PackageStep::Finish(
            refuse_result(
                unknown_option_text(
                    invalid_option.as_str(),
                    command.as_str(),
                    render_package_command_usage(command),
                ),
            ),
        );
    }
    match (command, &options.source) {
        (PackageCommand::Install, Some(source)) => PackageStep::Install {
            source: copy_text(source.as_str()),
            project: options.local,
        },
        (PackageCommand::Remove, Some(source)) => PackageStep::Remove {
            source: copy_text(source.as_str()),
            project: options.local,
        },
        (PackageCommand::Update, only) => PackageStep::Update { only: text::copy_opt(only) },
        (PackageCommand::List, _) => PackageStep::List,
        (_, None) => PackageStep::Finish(
            refuse_result(
                text::cat4(
                    "Missing ",
                    command.as_str(),
                    " source.\nUsage: ",
                    render_package_command_usage(command),
                ),
            ),
        ),
    }
}

fn error_result(error: &str) -> (r: RunResult)
    ensures
        r@ == refused("Error: "@ + error@),
{
    refuse_result(text::cat2("Error: ", error))
}

/// The answer to an installation: the source that was installed, or the error.
pub fn package_install_result(outcome: Result<String, String>) -> (r: RunResult)
    ensures
        r@ == (match outcome {
            Ok(source) => printed("Installing "@ + source@ + "...\nInstalled "@ + source@),
            Err(error) => refused("Error: "@ + error@),
        }),
{
    match outcome {
        Ok(source) => print_result(
            text::cat4("Installing ", source.as_str(), "...\nInstalled ", source.as_str()),
        ),
        Err(error) => error_result(error.as_str()),
    }
}

/// The answer to a removal: whether a package was removed, or the error.
pub fn package_remove_result(source: &str, outcome: Result<bool, String>) -> (r: RunResult)
    ensures
        r@ == (match outcome {
            Ok(true) => printed("Removing "@ + source@ + "...\nRemoved "@ + source@),
            Ok(false) => refused("No matching package found for "@ + source@),
            Err(error) => refused("Error: "@ + error@),
        }),
{
    match outcome {
        Ok(true) => print_result(text::cat4("Removing ", source, "...\nRemoved ", source)),
        Ok(false) => refuse_result(text::cat2("No matching package found for ", source)),
        Err(error) => error_result(error.as_str()),
    }
}

/// The answer to an update of one source or of all.
pub fn package_update_result(source: &Option<String>, outcome: Result<(), String>) -> (r: RunResult)
    ensures
        r@ == (match outcome {
            Ok(_) => printed(
                match *source {
                    Some(name) => "Updating "@ + name@ + "...\nUpdated "@ + name@,
                    None => "Updating packages...\nUpdated packages"@,
                },
            ),
            Err(error) => refused("Error: "@ + error@),
        }),
{
    match outcome {
        Ok(_) => match source {
            Some(name) => print_result(
                text::cat4("Updating ", name.as_str(), "...\nUpdated ", name.as_str()),
            ),
            None => print_result(copy_text("Updating packages...\nUpdated packages")),
        },
        Err(error) => error_result(error.as_str()),
    }
}

/// An installed package.
#[derive(Clone, Debug, PartialEq, Eq)]
pub struct ListedPackage {
    pub source: String,
    pub install_path: String,
}

/// The lines that list packages: the source, and under it the place.
pub open spec fn package_lines(packages: Seq<ListedPackage>) -> Seq<Seq<char>>
    decreases packages.len(),
{
    if packages.len() == 0 {
        Seq::empty()
    } else {
        package_lines(packages.drop_last()).push("  "@ + packages.last().source@).push(
            "    "@ + packages.last().install_path@,
        )
    }
}

fn push_package_lines(lines: &mut Vec<String>, packages: &[ListedPackage])
    ensures
        text::texts(final(lines)@) == text::texts(old(lines)@) + package_lines(packages@),
{
    let ghost before = text::texts(lines@);
    let mut i: usize = 0;
    assert(packages@.take(0) =~= Seq::<ListedPackage>::empty());
    while i < packages.len()
        invariant
            0 <= i <= packages.len(),
            text::texts(lines@) == before + package_lines(packages@.take(i as int)),
        decreases packages.len() - i,
    {
        assert(packages@.take(i + 1).drop_last() =~= packages@.take(i as int));
        lines.push(text::cat2("  ", packages[i].source.as_str()));
        lines.push(text::cat2("    ", packages[i].install_path.as_str()));
        i += 1;
    }
    assert(packages@.take(i as int) =~= packages@);
}

/// The listing of packages, user packages first.
pub open spec fn package_listing(
    user: Seq<ListedPackage>,
    project: Seq<ListedPackage>,
) -> Seq<char> {
    if user.len() == 0 && project.len() == 0 {
        "No packages installed."@
    } else {
        let first = if user.len() == 0 {
            Seq::empty()
        } else {
            seq!["User packages:"@] + package_lines(user)
        };
        let gap = if user.len() == 0 || project.len() == 0 {
            Seq::<Seq<char>>::empty()
        } else {
            seq![Seq::empty()]
        };
        let second = if project.len() == 0 {
            Seq::empty()
        } else {
            seq!["Project packages:"@] + package_lines(project)
        };
        text::join(first + gap + second, "\n"@)
    }
}

/// The answer to a request for the installed packages.
pub fn package_list_result(user: &[ListedPackage], project: &[ListedPackage]) -> (r:
    RunResult)
    ensures
        r@ == printed(package_listing(user@, project@)),
{
    if user.len() == 0 && project.len() == 0 {
        return print_result(copy_text("No packages installed."));
    }
    let mut lines: Vec<String> = Vec::new();
    let ghost mut first: Seq<Seq<char>> = Seq::empty();
    let ghost mut gap: Seq<Seq<char>> = Seq::empty();
    let ghost mut second: Seq<Seq<char>> = Seq::empty();
    if user.len() > 0 {
        lines.push(copy_text("User packages:"));
        push_package_lines(&mut lines, user);
        proof {
            first = seq!["User packages:"@] + package_lines(user@);
        }
        assert(text::texts(lines@) =~= first);
    }
    if project.len() > 0 {
        if lines.len() > 0 {
            lines.push(String::new());
            proof {
                gap = seq![Seq::empty()];
            }
        }
        lines.push(copy_text("Project packages:"));
        push_package_lines(&mut lines, project);
        proof {
            second = seq!["Project packages:"@] + package_lines(project@);
        }
    }
    assert(text::texts(lines@) =~= first + gap + second);
    print_result(join_texts(lines.as_slice(), "\n"))
}

/// A plugins command as it was called.
#[derive(Clone, Debug, PartialEq, Eq)]
pub struct PluginsCommandOptions {
    pub command: PluginsCommand,
    pub path: Option<String>,
    pub local: bool,
    pub help: bool,
    pub group_help: bool,
    pub invalid_option: Option<String>,
}

/// Whether an argument asks for project scope of a plugins command.
pub open spec fn asks_project(arg: Seq<char>) -> bool {
    arg == "-l"@ || arg == "--local"@ || arg == "--project"@
}

/// How many arguments at `i` belong to a global option, which a plugins command passes over.
pub open spec fn global_width(rest: Seq<Seq<char>>, i: int) -> int {
    let arg = rest[i];
    if asks_help(arg) || asks_project(arg) {
        0
    } else if args::setting_named(arg) is Some && args::setting_named(arg) != Some(
        Setting::Extension,
    ) {
        2
    } else if args::listing_named(arg) is Some {
        if i + 1 < rest.len() && args::is_search(rest[i + 1]) {
            2
        } else {
            1
        }
    } else if args::switch_named(arg) is Some && args::switch_named(arg) != Some(Switch::Help)
        && args::switch_named(arg) != Some(Switch::Version) {
        1
    } else {
        0
    }
}

/// The arguments from `i` on, without the global options and their values.
pub open spec fn own_words(rest: Seq<Seq<char>>, i: int) -> Seq<Seq<char>>
    decreases rest.len() + 1 - i,
{
    if i < 0 || i >= rest.len() {
        Seq::empty()
    } else if global_width(rest, i) > 0 {
        own_words(rest, i + global_width(rest, i))
    } else {
        seq![rest[i]] + own_words(rest, i + 1)
    }
}

/// The path and the first refused word among the words of a plugins command. Only the commands on
/// roots take a path; what comes after it is refused.
pub open spec fn path_and_refused(command: PluginsCommand, words: Seq<Seq<char>>) -> (
    Option<Seq<char>>,
    Option<Seq<char>>,
)
    decreases words.len(),
{
    if words.len() == 0 {
        (None, None)
    } else {
        let (path, refused) = path_and_refused(command, words.drop_last());
        let word = words.last();
        if asks_help(word) || asks_project(word) {
            (path, refused)
        } else if command != PluginsCommand::List && !text::has_prefix(word, "--"@) && path is None {
            (Some(word), refused)
        } else if refused is None {
            (path, Some(word))
        } else {
            (path, refused)
        }
    }
}

/// A plugins command as it was called, as a mathematical value.
pub struct PluginsOptionsView {
    pub command: PluginsCommand,
    pub path: Option<Seq<char>>,
    pub local: bool,
    pub help: bool,
    pub group_help: bool,
    pub invalid_option: Option<Seq<char>>,
}

impl View for PluginsCommandOptions {
    type V = PluginsOptionsView;

    open spec fn view(&self) -> PluginsOptionsView {
        PluginsOptionsView {
            command: self.command,
            path: text::opt_text(self.path),
            local: self.local,
            help: self.help,
            group_help: self.group_help,
            invalid_option: text::opt_text(self.invalid_option),
        }
    }
}

/// What a plugins command's own words say.
pub open spec fn plugins_options(command: PluginsCommand, words: Seq<Seq<char>>) -> PluginsOptionsView {
    PluginsOptionsView {
        command,
        path: path_and_refused(command, words).0,
        local: any_where(words, |arg: Seq<char>| !asks_help(arg) && asks_project(arg)),
        help: any_where(words, |arg: Seq<char>| asks_help(arg)),
        group_help: false,
        invalid_option: path_and_refused(command, words).1,
    }
}

/// A request for the help of the command group.
pub open spec fn group_help_call() -> PluginsOptionsView {
    PluginsOptionsView {
        command: PluginsCommand::List,
        path: None,
        local: false,
        help: true,
        group_help: true,
        invalid_option: None,
    }
}

impl PluginsCommandOptions {
    fn read_word(self, word: &str, words: Ghost<Seq<Seq<char>>>) -> (r: PluginsCommandOptions)
        requires
            self@ == plugins_options(self.command, words@),
        ensures
            r@ == plugins_options(self.command, words@.push(word@)),
    {
        proof {
            assert(words@.push(word@).drop_last() =~= words@);
            any_where_push(words@, word@, |arg: Seq<char>| asks_help(arg));
            any_where_push(words@, word@, |arg: Seq<char>| !asks_help(arg) && asks_project(arg));
        }
        let mut out = self;
        if same(word, "-h") || same(word, "--help") {
            out.help = true;
        } else if same(word, "-l") || same(word, "--local") || same(word, "--project") {
            out.local = true;
        } else if out.command != PluginsCommand::List && !begins_with(word, "--")
            && out.path.is_none() {
            out.path = Some(copy_text(word));
        } else if out.invalid_option.is_none() {
            out.invalid_option = Some(copy_text(word));
        }
        out
    }
}

fn own_word(word: &str) -> (r: bool)
    ensures
        r == (asks_help(word@) || asks_project(word@)),
{
    same(word, "-h") || same(word, "--help") || same(word, "-l") || same(word, "--local") || same(
        word,
        "--project",
    )
}

fn global_option_width(rest: &[String], i: usize) -> (r: usize)
    requires
        i < rest@.len(),
    ensures
        r == global_width(text::texts(rest@), i as int),
{
    let arg = rest[i].as_str();
    if own_word(arg) {
        return 0;
    }
    if let Some(setting) = find_setting(arg) {
        if setting != Setting::Extension {
            return 2;
        }
    }
    if find_listing(arg).is_some() {
        if i < rest.len() - 1 && search_like(rest[i + 1].as_str()) {
            return 2;
        }
        return 1;
    }
    match find_switch(arg) {
        Some(Switch::Help) => 0,
        Some(Switch::Version) => 0,
        Some(_) => 1,
        None => 0,
    }
}

/// The plugins command that a word names.
pub open spec fn plugins_command_named(word: Seq<char>) -> Option<PluginsCommand> {
    if word == "list"@ {
        Some(PluginsCommand::List)
    } else if word == "add-root"@ {
        Some(PluginsCommand::AddRoot)
    } else if word == "remove-root"@ {
        Some(PluginsCommand::RemoveRoot)
    } else {
        None
    }
}

fn find_plugins_command(word: &str) -> (r: Option<PluginsCommand>)
    ensures
        r == plugins_command_named(word@),
{
    if same(word, "list") {
        Some(PluginsCommand::List)
    } else if same(word, "add-root") {
        Some(PluginsCommand::AddRoot)
    } else if same(word, "remove-root") {
        Some(PluginsCommand::RemoveRoot)
    } else {
        None
    }
}

fn group_help_options() -> (r: PluginsCommandOptions)
    ensures
        r@ == group_help_call(),
{
    PluginsCommandOptions {
        command: PluginsCommand::List,
        path: None,
        local: false,
        help: true,
        group_help: true,
        invalid_option: None,
    }
}

/// Whether the words after `plugins` ask for the help of the command group.
pub open spec fn wants_group_help(args: Seq<Seq<char>>) -> bool {
    args.len() == 1 || asks_help(args[1]) || args[1] == "help"@
}

/// What the arguments say of a plugins command, where the first one is `plugins`.
pub open spec fn plugins_call(args: Seq<Seq<char>>) -> Option<PluginsOptionsView> {
    if args.len() == 0 || args[0] != "plugins"@ {
        None
    } else if wants_group_help(args) {
        Some(group_help_call())
    } else {
        match plugins_command_named(args[1]) {
            Some(command) => Some(plugins_options(command, own_words(args, 2))),
            None => Some(
                PluginsOptionsView {
                    command: PluginsCommand::List,
                    path: None,
                    local: false,
                    help: false,
                    group_help: false,
                    invalid_option: Some(args[1]),
                },
            ),
        }
    }
}

/// Reads a plugins command, where the first argument is `plugins`.
pub fn parse_plugins_command(args: &[String]) -> (r: Option<PluginsCommandOptions>)
    ensures
        match r {
            Some(options) => plugins_call(text::texts(args@)) == Some(options@),
            None => plugins_call(text::texts(args@)) is None,
        },
{
    let ghost all = text::texts(args@);
    if args.len() == 0 || !same(args[0].as_str(), "plugins") {
        return None;
    }
    if args.len() == 1 {
        return Some(group_help_options());
    }
    let word = args[1].as_str();
    if same(word, "-h") || same(word, "--help") || same(word, "help") {
        return Some(group_help_options());
    }
    let command = match find_plugins_command(word) {
        Some(command) => command,
        None => {
            return Some(
                PluginsCommandOptions {
                    command: PluginsCommand::List,
                    path: None,
                    local: false,
                    help: false,
                    group_help: false,
                    invalid_option: Some(copy_text(word)),
                },
            );
        },
    };
    let mut options = PluginsCommandOptions {
        command,
        path: None,
        local: false,
        help: false,
        group_help: false,
        invalid_option: None,
    };
    let ghost mut done: Seq<Seq<char>> = Seq::empty();
    let mut i: usize = 2;
    assert(done + own_words(all, 2) =~= own_words(all, 2));
    while i < args.len()
        invariant
            2 <= i <= args.len(),
            all == text::texts(args@),
            options@ == plugins_options(command, done),
            done + own_words(all, i as int) == own_words(all, 2),
        decreases args.len() - i,
    {
        let width: usize = global_option_width(args, i);
        if width == 0 {
            let ghost before = done;
            options = options.read_word(args[i].as_str(), Ghost(done));
            proof {
                done = done.push(all[i as int]);
                assert(done + own_words(all, i + 1) =~= before + (seq![all[i as int]] + own_words(
                    all,
                    i + 1,
                )));
            }
            i += 1;
        } else if width < args.len() - i {
            i += width;
        } else {
            assert(own_words(all, i + width) == own_words(all, all.len() as int));
            i = args.len();
        }
    }
    assert(done + own_words(all, i as int) =~= done);
    Some(options)
}

/// What to do for a plugins command.
#[derive(Debug, PartialEq, Eq)]
pub enum PluginsStep {
    Finish(RunResult),
    List,
    AddRoot(String, bool),
    RemoveRoot(String, bool),
}

/// What to do for a plugins command, as a mathematical value.
pub enum PluginsStepView {
    Finish(RunView),
    List,
    AddRoot(Seq<char>, bool),
    RemoveRoot(Seq<char>, bool),
}

impl View for PluginsStep {
    type V = PluginsStepView;

    open spec fn view(&self) -> PluginsStepView {
        match self {
            PluginsStep::Finish(result) => PluginsStepView::Finish(result@),
            PluginsStep::List => PluginsStepView::List,
            PluginsStep::AddRoot(path, project) => PluginsStepView::AddRoot(path@, *project),
            PluginsStep::RemoveRoot(path, project) => PluginsStepView::RemoveRoot(path@, *project),
        }
    }
}

/// What a plugins command leads to: the help of the group, then its own help, then the refusal of
/// an unknown option, then the refusal of a missing path, then the work itself.
pub open spec fn plugins_plan(options: PluginsOptionsView) -> PluginsStepView {
    let command = options.command;
    if options.group_help {
        PluginsStepView::Finish(printed(text::trim_end(help::PLUGINS_HELP@)))
    } else if options.help {
        PluginsStepView::Finish(printed(text::trim_end(help::plugins_help(command))))
    } else if options.invalid_option is Some {
        PluginsStepView::Finish(
            refused(
                unknown_option(
                    options.invalid_option->0,
                    "plugins "@ + command.name(),
                    help::plugins_usage(command),
                ),
            ),
        )
    } else if command == PluginsCommand::List {
        PluginsStepView::List
    } else if options.path is None {
        PluginsStepView::Finish(
            refused("Missing plugin root path.\nUsage: "@ + help::plugins_usage(command)),
        )
    } else if command == PluginsCommand::AddRoot {
        PluginsStepView::AddRoot(options.path->0, options.local)
    } else {
        PluginsStepView::RemoveRoot(options.path->0, options.local)
    }
}

/// What to do for a plugins command.
pub fn run_plugins_command(options: &PluginsCommandOptions) -> (r: PluginsStep)
    ensures
        r@ == plugins_plan(options@),
{
    let command = options.command;
    if options.group_help {
        return PluginsStep::Finish(print_result(trimmed_end(render_plugins_help_text())));
    }
    if options.help {
        return PluginsStep::Finish(
            print_result(trimmed_end(render_plugins_command_help(command))),
        );
    }
    if let Some(invalid_option) = &options.invalid_option {
        return PluginsStep::Finish(
            refuse_result(
                unknown_option_text(
                    invalid_option.as_str(),
                    text::cat2("plugins ", command.as_str()).as_str(),
                    render_plugins_command_usage(command),
                ),
            ),
        );
    }
    if command == PluginsCommand::List {
        return PluginsStep::List;
    }
    match &options.path {
        None => PluginsStep::Finish(
            refuse_result(
                text::cat2(
                    "Missing plugin root path.\nUsage: ",
                    render_plugins_command_usage(command),
                ),
            ),
        ),
        Some(path) => if command == PluginsCommand::AddRoot {
            PluginsStep::AddRoot(copy_text(path.as_str()), options.local)
        } else {
            PluginsStep::RemoveRoot(copy_text(path.as_str()), options.local)
        },
    }
}

/// `--local` and `--project` ask a plugins command for the same thing.
pub proof fn local_is_project_alias(command: PluginsCommand, before: Seq<Seq<char>>)
    ensures
        plugins_options(command, before.push("--local"@)) == plugins_options(
            command,
            before.push("--project"@),
        ),
{
    let local = before.push("--local"@);
    let project = before.push("--project"@);
    assert(local.drop_last() =~= before);
    assert(project.drop_last() =~= before);
    reveal_strlit("--local");
    reveal_strlit("--project");
    reveal_strlit("-h");
    reveal_strlit("--help");
    assert("--local"@.len() == 7);
    assert("--project"@.len() == 9);
    assert("-h"@.len() == 2);
    assert("--help"@.len() == 6);
    any_where_push(before, "--local"@, |arg: Seq<char>| asks_help(arg));
    any_where_push(before, "--project"@, |arg: Seq<char>| asks_help(arg));
    any_where_push(before, "--local"@, |arg: Seq<char>| !asks_help(arg) && asks_project(arg));
    any_where_push(before, "--project"@, |arg: Seq<char>| !asks_help(arg) && asks_project(arg));
}

/// What is found first in two runs of words is found in the first of them, or else in the second.
proof fn first_in_two(a: Seq<Seq<char>>, b: Seq<Seq<char>>, test: spec_fn(Seq<char>) -> bool)
    ensures
        first_where(a + b, test) == (if first_where(a, test) is Some {
            first_where(a, test)
        } else {
            first_where(b, test)
        }),
    decreases b.len(),
{
    if b.len() == 0 {
        assert(a + b =~= a);
    } else {
        first_in_two(a, b.drop_last(), test);
        assert((a + b).drop_last() =~= a + b.drop_last());
        assert((a + b).last() == b.last());
    }
}

proof fn any_in_two(a: Seq<Seq<char>>, b: Seq<Seq<char>>, test: spec_fn(Seq<char>) -> bool)
    ensures
        any_where(a + b, test) == (any_where(a, test) || any_where(b, test)),
{
    let whole = a + b;
    if any_where(a, test) {
        let i = choose|i: int| 0 <= i < a.len() && test(#[trigger] a[i]);
        assert(test(whole[i]));
    }
    if any_where(b, test) {
        let i = choose|i: int| 0 <= i < b.len() && test(#[trigger] b[i]);
        assert(test(whole[a.len() + i]));
    }
    if any_where(whole, test) {
        let i = choose|i: int| 0 <= i < whole.len() && test(#[trigger] whole[i]);
        if i < a.len() {
            assert(test(a[i]));
        } else {
            assert(test(b[i - a.len()]));
        }
    }
}

proof fn one_where(word: Seq<char>, test: spec_fn(Seq<char>) -> bool)
    ensures
        first_where(seq![word], test) == (if test(word) {
            Some(word)
        } else {
            None
        }),
        any_where(seq![word], test) == test(word),
{
    let one = seq![word];
    assert(one.drop_last() =~= Seq::<Seq<char>>::empty());
    assert(first_where(one.drop_last(), test) is None);
    assert(one.last() == word);
    if test(word) {
        assert(test(one[0]));
    }
}

/// The words behind a package command are read one by one: the first source and the first word that is
/// refused count, and help and project scope may stand anywhere.
pub proof fn package_words_in_two(
    command: PackageCommand,
    a: Seq<Seq<char>>,
    b: Seq<Seq<char>>,
)
    ensures
        ({
            let first = package_options(command, a);
            let second = package_options(command, b);
            let both = package_options(command, a + b);
            &&& both.command == command
            &&& both.source == (if first.source is Some {
                first.source
            } else {
                second.source
            })
            &&& both.local == (first.local || second.local)
            &&& both.help == (first.help || second.help)
            &&& both.invalid_option == (if first.invalid_option is Some {
                first.invalid_option
            } else {
                second.invalid_option
            })
        }),
{
    first_in_two(a, b, |arg: Seq<char>| is_source(arg));
    first_in_two(a, b, |arg: Seq<char>| package_refuses(command, arg));
    any_in_two(a, b, |arg: Seq<char>| !asks_help(arg) && asks_local(arg));
    any_in_two(a, b, |arg: Seq<char>| asks_help(arg));
}

/// A word behind a package command is its source where it does not start with a dash. Help and, where
/// packages are installed or removed, project scope are understood under two names each. Any other
/// word is refused.
pub proof fn package_words_are_read(command: PackageCommand, word: Seq<char>)
    ensures
        ({
            let read = package_options(command, seq![word]);
            let help = word == seq!['-', 'h'] || word == "--help"@;
            let local = word == seq!['-', 'l'] || word == "--local"@;
            let scoped = command == PackageCommand::Install || command == PackageCommand::Remove;
            let dashed = word.len() > 0 && word[0] == '-';
            &&& read.help == help
            &&& read.local == (local && scoped)
            &&& read.source == (if dashed {
                None
            } else {
                Some(word)
            })
            &&& read.invalid_option == (if dashed && !help && !(local && scoped) {
                Some(word)
            } else {
                None
            })
        }),
{
    reveal_strlit("-h");
    reveal_strlit("--help");
    reveal_strlit("-l");
    reveal_strlit("--local");
    assert("-h"@ =~= seq!['-', 'h']);
    assert("-l"@ =~= seq!['-', 'l']);
    assert("-h"@[1] == 'h' && "-l"@[1] == 'l');
    assert("--help"@.len() == 6 && "--help"@[0] == '-' && "--local"@.len() == 7 && "--local"@[0]
        == '-');
    one_where(word, |arg: Seq<char>| is_source(arg));
    one_where(word, |arg: Seq<char>| package_refuses(command, arg));
    one_where(word, |arg: Seq<char>| !asks_help(arg) && asks_local(arg));
    one_where(word, |arg: Seq<char>| asks_help(arg));
}

/// Without words nothing is asked of a package command.
pub proof fn no_package_words(command: PackageCommand)
    ensures
        package_options(command, Seq::empty()) == (PackageOptionsView {
            command,
            source: None,
            local: false,
            help: false,
            invalid_option: None,
        }),
{
}

/// Packages are installed and removed for the user, or for the project where that is asked for before
/// or behind the source.
pub proof fn packages_are_changed(source: Seq<char>)
    requires
        source.len() > 0 ==> source[0] != '-',
    ensures
        package_call(seq!["install"@, source]) matches Some(call) && package_plan(call) == (
        PackageStepView::Install { source, project: false }),
        package_call(seq!["install"@, source, "-l"@]) matches Some(call) && package_plan(call) == (
        PackageStepView::Install { source, project: true }),
        package_call(seq!["install"@, "--local"@, source]) matches Some(call) && package_plan(call)
            == (PackageStepView::Install { source, project: true }),
        package_call(seq!["remove"@, source]) matches Some(call) && package_plan(call) == (
        PackageStepView::Remove { source, project: false }),
        package_call(seq!["remove"@, source, "-l"@]) matches Some(call) && package_plan(call) == (
        PackageStepView::Remove { source, project: true }),
        package_call(seq!["update"@, source]) matches Some(call) && package_plan(call) == (
        PackageStepView::Update { only: Some(source) }),
        package_call(seq!["update"@]) matches Some(call) && package_plan(call) == (
        PackageStepView::Update { only: None }),
        package_call(seq!["list"@]) matches Some(call) && package_plan(call)
            == PackageStepView::List,
        package_call(seq!["install"@]) matches Some(call) && (package_plan(call) matches
            PackageStepView::Finish(result) && result.exit_code == 1),
        package_call(seq!["remove"@]) matches Some(call) && (package_plan(call) matches
            PackageStepView::Finish(result) && result.exit_code == 1),
{
    reveal_strlit("install");
    reveal_strlit("remove");
    reveal_strlit("update");
    reveal_strlit("list");
    reveal_strlit("-l");
    reveal_strlit("--local");
    assert("install"@[0] == 'i' && "remove"@[0] == 'r' && "update"@[0] == 'u' && "list"@[0] == 'l');
    assert("-l"@ =~= seq!['-', 'l']);
    assert("-l"@[0] == '-' && "--local"@[0] == '-');
    let none = Seq::<Seq<char>>::empty();
    called(PackageCommand::Install, source);
    called(PackageCommand::Remove, source);
    called(PackageCommand::Update, source);
    assert(seq!["install"@, source].skip(1) =~= seq![source]);
    assert(seq!["install"@, source, "-l"@].skip(1) =~= seq![source] + seq!["-l"@]);
    assert(seq!["install"@, "--local"@, source].skip(1) =~= seq!["--local"@] + seq![source]);
    assert(seq!["remove"@, source].skip(1) =~= seq![source]);
    assert(seq!["remove"@, source, "-l"@].skip(1) =~= seq![source] + seq!["-l"@]);
    assert(seq!["update"@, source].skip(1) =~= seq![source]);
    assert(seq!["update"@].skip(1) =~= none);
    assert(seq!["list"@].skip(1) =~= none);
    assert(seq!["install"@].skip(1) =~= none);
    assert(seq!["remove"@].skip(1) =~= none);
    no_package_words(PackageCommand::Install);
    no_package_words(PackageCommand::Remove);
    no_package_words(PackageCommand::Update);
    no_package_words(PackageCommand::List);
}

proof fn called(command: PackageCommand, source: Seq<char>)
    requires
        source.len() > 0 ==> source[0] != '-',
    ensures
        package_options(command, seq![source]) == (PackageOptionsView {
            command,
            source: Some(source),
            local: false,
            help: false,
            invalid_option: None,
        }),
        command == PackageCommand::Install || command == PackageCommand::Remove
            ==> package_options(command, seq![source] + seq!["-l"@]) == (PackageOptionsView {
            command,
            source: Some(source),
            local: true,
            help: false,
            invalid_option: None,
        }),
        command == PackageCommand::Install || command == PackageCommand::Remove
            ==> package_options(command, seq!["--local"@] + seq![source]) == (PackageOptionsView {
            command,
            source: Some(source),
            local: true,
            help: false,
            invalid_option: None,
        }),
{
    reveal_strlit("-l");
    reveal_strlit("-h");
    reveal_strlit("--help");
    reveal_strlit("--local");
    assert("-l"@ =~= seq!['-', 'l']);
    assert("--help"@.len() == 6 && "--help"@[0] == '-' && "--local"@.len() == 7 && "--local"@[0]
        == '-');
    assert("-l"@[0] == '-' && "-l"@[1] == 'l' && seq!['-', 'h'][1] == 'h' && seq!['-', 'h'][0]
        == '-');
    package_words_are_read(command, source);
    package_words_are_read(command, "-l"@);
    package_words_are_read(command, "--local"@);
    package_words_in_two(command, seq![source], seq!["-l"@]);
    package_words_in_two(command, seq!["--local"@], seq![source]);
}

/// Help is given for a package command wherever it is asked for, and then nothing is done.
pub proof fn package_help_wins(command: PackageCommand, a: Seq<Seq<char>>, b: Seq<Seq<char>>)
    ensures
        package_plan(package_options(command, a + seq!["--help"@] + b)) == PackageStepView::Finish(
            printed(text::trim_end(help::package_help(command))),
        ),
{
    package_words_are_read(command, "--help"@);
    package_words_in_two(command, a, seq!["--help"@]);
    package_words_in_two(command, a + seq!["--help"@], b);
}

/// A word that is refused ends a package command with an error that names it.
pub proof fn refused_words_are_named(command: PackageCommand, rest: Seq<Seq<char>>)
    requires
        package_options(command, rest).invalid_option is Some,
        !package_options(command, rest).help,
    ensures
        package_plan(package_options(command, rest)) matches PackageStepView::Finish(result)
            && result.exit_code == 1 && result.stdout is None && text::has_prefix(
            result.stderr->0,
            "Unknown option "@ + package_options(command, rest).invalid_option->0,
        ),
{
    let option = package_options(command, rest).invalid_option->0;
    let message = unknown_option(option, command.name(), help::package_usage(command));
    let start = "Unknown option "@ + option;
    assert(message.take(start.len() as int) =~= start);
}

/// Roots are added and removed for the user, or for the project where that is asked for.
pub proof fn plugin_roots_are_changed(path: Seq<char>)
    requires
        path.len() > 0,
        path[0] != '-',
    ensures
        plugins_call(seq!["plugins"@, "add-root"@, path]) matches Some(call) && plugins_plan(call)
            == PluginsStepView::AddRoot(path, false),
        plugins_call(seq!["plugins"@, "add-root"@, path, "--project"@]) matches Some(call)
            && plugins_plan(call) == PluginsStepView::AddRoot(path, true),
        plugins_call(seq!["plugins"@, "remove-root"@, path]) matches Some(call) && plugins_plan(
            call,
        ) == PluginsStepView::RemoveRoot(path, false),
        plugins_call(seq!["plugins"@, "remove-root"@, path, "--project"@]) matches Some(call)
            && plugins_plan(call) == PluginsStepView::RemoveRoot(path, true),
        plugins_call(seq!["plugins"@, "list"@]) matches Some(call) && plugins_plan(call)
            == PluginsStepView::List,
        plugins_call(seq!["plugins"@, "add-root"@]) matches Some(call) && (plugins_plan(call)
            matches PluginsStepView::Finish(result) && result.exit_code == 1),
{
    reveal_strlit("plugins");
    reveal_strlit("add-root");
    reveal_strlit("remove-root");
    reveal_strlit("list");
    reveal_strlit("help");
    reveal_strlit("-h");
    reveal_strlit("--help");
    reveal_strlit("-l");
    reveal_strlit("--local");
    reveal_strlit("--project");
    reveal_strlit("--");
    assert("add-root"@[0] == 'a' && "remove-root"@[0] == 'r' && "list"@[0] == 'l' && "help"@[0]
        == 'h');
    assert("-h"@[0] == '-' && "-h"@.len() == 2 && "--help"@[0] == '-' && "--help"@.len() == 6);
    assert("-l"@[0] == '-' && "-l"@.len() == 2 && "--local"@.len() == 7 && "--project"@.len() == 9);
    assert("--project"@[0] == '-' && "--local"@[0] == '-' && "--"@[0] == '-');
    let none = Seq::<Seq<char>>::empty();
    let short = seq!["plugins"@, "add-root"@, path];
    let long = seq!["plugins"@, "add-root"@, path, "--project"@];
    let short_remove = seq!["plugins"@, "remove-root"@, path];
    let long_remove = seq!["plugins"@, "remove-root"@, path, "--project"@];
    args::plain_words_name_nothing(path);
    assert(!text::has_prefix(path, "--"@)) by {
        if text::has_prefix(path, "--"@) {
            assert(path.take(2)[0] == path[0]);
        }
    }
    assert(own_words(short, 3) =~= none);
    assert(own_words(short, 2) =~= seq![path]);
    assert(own_words(short_remove, 3) =~= none);
    assert(own_words(short_remove, 2) =~= seq![path]);
    assert(own_words(long, 4) =~= none);
    assert(own_words(long, 3) =~= seq!["--project"@]);
    assert(own_words(long, 2) =~= seq![path, "--project"@]);
    assert(own_words(long_remove, 4) =~= none);
    assert(own_words(long_remove, 3) =~= seq!["--project"@]);
    assert(own_words(long_remove, 2) =~= seq![path, "--project"@]);
    root_words(PluginsCommand::AddRoot, path);
    root_words(PluginsCommand::RemoveRoot, path);
    assert(own_words(seq!["plugins"@, "list"@], 2) =~= none);
    assert(own_words(seq!["plugins"@, "add-root"@], 2) =~= none);
}

proof fn root_words(command: PluginsCommand, path: Seq<char>)
    requires
        path.len() > 0,
        path[0] != '-',
        command != PluginsCommand::List,
    ensures
        plugins_options(command, seq![path]) == (PluginsOptionsView {
            command,
            path: Some(path),
            local: false,
            help: false,
            group_help: false,
            invalid_option: None,
        }),
        plugins_options(command, seq![path, "--project"@]) == (PluginsOptionsView {
            command,
            path: Some(path),
            local: true,
            help: false,
            group_help: false,
            invalid_option: None,
        }),
{
    reveal_strlit("-h");
    reveal_strlit("--help");
    reveal_strlit("-l");
    reveal_strlit("--local");
    reveal_strlit("--project");
    reveal_strlit("--");
    assert("-h"@[0] == '-' && "-h"@.len() == 2 && "--help"@[0] == '-' && "--help"@.len() == 6);
    assert("-l"@[0] == '-' && "-l"@.len() == 2 && "--local"@.len() == 7 && "--project"@.len() == 9);
    assert("--project"@[0] == '-' && "--local"@[0] == '-' && "--"@[0] == '-');
    assert(!text::has_prefix(path, "--"@)) by {
        if text::has_prefix(path, "--"@) {
            assert(path.take(2)[0] == path[0]);
        }
    }
    let none = Seq::<Seq<char>>::empty();
    let one = seq![path];
    let two = seq![path, "--project"@];
    assert(one.drop_last() =~= none);
    assert(two.drop_last() =~= one);
    assert(path_and_refused(command, none) == (None::<Seq<char>>, None::<Seq<char>>));
    assert(path_and_refused(command, one) == (Some(path), None::<Seq<char>>));
    assert(path_and_refused(command, two) == (Some(path), None::<Seq<char>>));
    let local = |arg: Seq<char>| !asks_help(arg) && asks_project(arg);
    let helped = |arg: Seq<char>| asks_help(arg);
    one_where(path, local);
    one_where(path, helped);
    one_where("--project"@, local);
    one_where("--project"@, helped);
    any_in_two(one, seq!["--project"@], local);
    any_in_two(one, seq!["--project"@], helped);
    assert(one + seq!["--project"@] =~= two);
}

/// Each package is listed with its source and, on the next line, its place.
pub proof fn packages_are_listed(a: Seq<ListedPackage>, b: Seq<ListedPackage>)
    ensures
        package_lines(a + b) == package_lines(a) + package_lines(b),
        a.len() == 1 ==> package_lines(a) == seq!["  "@ + a[0].source@, "    "@ + a[0].install_path@],
        package_lines(a).len() == 2 * a.len(),
    decreases a.len() + b.len(),
{
    let none = Seq::<ListedPackage>::empty();
    if a.len() > 0 {
        packages_are_listed(a.drop_last(), none);
        if a.len() == 1 {
            assert(a.drop_last() =~= none);
            assert(package_lines(none) =~= Seq::<Seq<char>>::empty());
            assert(package_lines(a) =~= seq!["  "@ + a[0].source@, "    "@ + a[0].install_path@]);
        }
    }
    if b.len() == 0 {
        assert(a + b =~= a);
        assert(package_lines(a) + package_lines(b) =~= package_lines(a));
    } else {
        packages_are_listed(a, b.drop_last());
        assert((a + b).drop_last() =~= a + b.drop_last());
        assert((a + b).last() == b.last());
        assert(package_lines(a + b) =~= package_lines(a) + package_lines(b));
    }
}

/// The packages of the user are listed under their heading and those of the project under theirs,
/// each with what it was installed from and where it stands.
pub proof fn listed_packages_are_named(
    user: Seq<ListedPackage>,
    project: Seq<ListedPackage>,
    a: Seq<ListedPackage>,
    package: ListedPackage,
)
    ensures
        package_listing(Seq::empty(), Seq::empty()) == "No packages installed."@,
        user.len() > 0 ==> package_listing(user, Seq::empty()) == text::join(
            seq!["User packages:"@] + package_lines(user),
            "\n"@,
        ),
        project.len() > 0 ==> package_listing(Seq::empty(), project) == text::join(
            seq!["Project packages:"@] + package_lines(project),
            "\n"@,
        ),
        user.len() > 0 && project.len() > 0 ==> package_listing(user, project) == text::join(
            seq!["User packages:"@] + package_lines(user) + seq![
                Seq::empty(),
                "Project packages:"@,
            ] + package_lines(project),
            "\n"@,
        ),
        package_lines(a.push(package)) == package_lines(a) + seq![
            "  "@ + package.source@,
            "    "@ + package.install_path@,
        ],
{
    let none = Seq::<Seq<char>>::empty();
    let first = seq!["User packages:"@] + package_lines(user);
    let second = seq!["Project packages:"@] + package_lines(project);
    assert(first + none + none =~= first);
    assert(none + none + second =~= second);
    assert(first + seq![Seq::<char>::empty()] + second =~= first + seq![
        Seq::empty(),
        "Project packages:"@,
    ] + package_lines(project));
    assert(a.push(package).drop_last() =~= a);
    assert(package_lines(a.push(package)) =~= package_lines(a) + seq![
        "  "@ + package.source@,
        "    "@ + package.install_path@,
    ]);
}

} // verus!
