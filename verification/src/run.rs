//! What a run of the program does: the decisions between reading the command line and the work.
use vstd::prelude::*;
use crate::args;
use crate::args::{parse_args, Args, OutputMode};
use crate::commands;
use crate::commands::{parse_package_command, parse_plugins_command, print_result, run_package_command, run_plugins_command, CliError, PackageStep, PluginsStep, RunResult};
use crate::help;
use crate::help::{render_help_text, render_version_text};
use crate::text;
use crate::text::{cat2, cat4, copy_opt, copy_text, copy_texts, join_texts, same};

verus! {

broadcast use crate::text::group_texts;

/// What an agent session is asked for.
#[derive(Debug, PartialEq, Eq)]
pub struct Request {
    pub mode: OutputMode,
    pub messages: Vec<String>,
    pub continue_session: bool,
    pub provider: Option<String>,
    pub model: Option<String>,
    pub api_key: Option<String>,
    pub system_prompt: Option<String>,
    pub append_system_prompt: Option<String>,
    pub session: Option<String>,
    pub session_dir: Option<String>,
    pub thinking: Option<String>,
    pub models: Option<Vec<String>>,
    pub tools: Option<Vec<String>>,
    pub no_session: bool,
    pub no_tools: bool,
    pub no_skills: bool,
    pub no_prompt_templates: bool,
    pub no_themes: bool,
    pub skills: Vec<String>,
    pub prompt_templates: Vec<String>,
    pub themes: Vec<String>,
}

/// What an agent session is asked for, as a mathematical value.
pub struct RequestView {
    pub mode: OutputMode,
    pub messages: Seq<Seq<char>>,
    pub continue_session: bool,
    pub provider: Option<Seq<char>>,
    pub model: Option<Seq<char>>,
    pub api_key: Option<Seq<char>>,
    pub system_prompt: Option<Seq<char>>,
    pub append_system_prompt: Option<Seq<char>>,
    pub session: Option<Seq<char>>,
    pub session_dir: Option<Seq<char>>,
    pub thinking: Option<Seq<char>>,
    pub models: Option<Seq<Seq<char>>>,
    pub tools: Option<Seq<Seq<char>>>,
    pub no_session: bool,
    pub no_tools: bool,
    pub no_skills: bool,
    pub no_prompt_templates: bool,
    pub no_themes: bool,
    pub skills: Seq<Seq<char>>,
    pub prompt_templates: Seq<Seq<char>>,
    pub themes: Seq<Seq<char>>,
}

impl View for Request {
    type V = RequestView;

    open spec fn view(&self) -> RequestView {
        RequestView {
            mode: self.mode,
            messages: text::texts(self.messages@),
            continue_session: self.continue_session,
            provider: text::opt_text(self.provider),
            model: text::opt_text(self.model),
            api_key: text::opt_text(self.api_key),
            system_prompt: text::opt_text(self.system_prompt),
            append_system_prompt: text::opt_text(self.append_system_prompt),
            session: text::opt_text(self.session),
            session_dir: text::opt_text(self.session_dir),
            thinking: text::opt_text(self.thinking),
            models: args::opt_texts(self.models),
            tools: args::opt_texts(self.tools),
            no_session: self.no_session,
            no_tools: self.no_tools,
            no_skills: self.no_skills,
            no_prompt_templates: self.no_prompt_templates,
            no_themes: self.no_themes,
            skills: text::texts(self.skills@),
            prompt_templates: text::texts(self.prompt_templates@),
            themes: text::texts(self.themes@),
        }
    }
}

/// The request that a command line makes with given messages.
pub open spec fn request_of(
    asked: args::ArgsView,
    mode: OutputMode,
    messages: Seq<Seq<char>>,
    continue_session: bool,
) -> RequestView {
    RequestView {
        mode,
        messages,
        continue_session,
        provider: asked.provider,
        model: asked.model,
        api_key: asked.api_key,
        system_prompt: asked.system_prompt,
        append_system_prompt: asked.append_system_prompt,
        session: asked.session,
        session_dir: asked.session_dir,
        thinking: asked.thinking,
        models: asked.models,
        tools: asked.tools,
        no_session: asked.no_session,
        no_tools: asked.no_tools,
        no_skills: asked.no_skills,
        no_prompt_templates: asked.no_prompt_templates,
        no_themes: asked.no_themes,
        skills: asked.skills,
        prompt_templates: asked.prompt_templates,
        themes: asked.themes,
    }
}

fn copy_opt_texts(value: &Option<Vec<String>>) -> (r: Option<Vec<String>>)
    ensures
        args::opt_texts(r) == args::opt_texts(*value),
{
    match value {
        Some(list) => Some(copy_texts(list.as_slice())),
        None => None,
    }
}

fn build_request(
    parsed: &Args,
    mode: OutputMode,
    messages: Vec<String>,
    continue_session: bool,
) -> (r: Request)
    ensures
        r@ == request_of(parsed@, mode, text::texts(messages@), continue_session),
{
    Request {
        mode,
        messages,
        continue_session,
        provider: copy_opt(&parsed.provider),
        model: copy_opt(&parsed.model),
        api_key: copy_opt(&parsed.api_key),
        system_prompt: copy_opt(&parsed.system_prompt),
        append_system_prompt: copy_opt(&parsed.append_system_prompt),
        session: copy_opt(&parsed.session),
        session_dir: copy_opt(&parsed.session_dir),
        thinking: copy_opt(&parsed.thinking),
        models: copy_opt_texts(&parsed.models),
        tools: copy_opt_texts(&parsed.tools),
        no_session: parsed.no_session,
        no_tools: parsed.no_tools,
        no_skills: parsed.no_skills,
        no_prompt_templates: parsed.no_prompt_templates,
        no_themes: parsed.no_themes,
        skills: copy_texts(parsed.skills.as_slice()),
        prompt_templates: copy_texts(parsed.prompt_templates.as_slice()),
        themes: copy_texts(parsed.themes.as_slice()),
    }
}

/// The request of a run that is not interactive.
pub fn build_non_interactive_request(
    parsed: &Args,
    mode: OutputMode,
    messages: Vec<String>,
) -> (r: Request)
    ensures
        r@ == request_of(parsed@, mode, text::texts(messages@), parsed@.continue_session),
{
    build_request(parsed, mode, messages, parsed.continue_session)
}

/// What `shlex::try_join` makes of words: one line in which a shell reads the words back.
pub uninterp spec fn shell_joined(words: Seq<Seq<char>>) -> Option<Seq<char>>;

/// Whether a nul character stands in one of the words.
pub open spec fn any_nul(words: Seq<Seq<char>>) -> bool {
    exists|i: int| 0 <= i < words.len() && (#[trigger] words[i]).contains('\0')
}

/// `shlex::try_join` quotes the words that need it and puts one space between each two. It fails
/// where a word holds a nul character, and only there. What the quoted line is, is left to the
/// name `shell_joined`.
#[verifier::external_body]
fn shell_join(words: &[String]) -> (r: Option<String>)
    ensures
        text::opt_text(r) == shell_joined(text::texts(words@)),
        r is None == any_nul(text::texts(words@)),
{
    shlex::try_join(words.iter().map(|word| word.as_str())).ok()
}

/// The prompt that calls a plugin command: the arguments joined for a shell, or where that failed,
/// with spaces between them.
pub open spec fn plugin_prompt(
    name: Seq<char>,
    arguments: Seq<Seq<char>>,
    joined: Option<Seq<char>>,
) -> Seq<char> {
    if arguments.len() == 0 {
        "/"@ + name
    } else {
        "/"@ + name + " "@ + (match joined {
            Some(line) => line,
            None => text::join(arguments, " "@),
        })
    }
}

/// The prompt that calls a plugin command, given the arguments joined for a shell.
pub fn plugin_prompt_with(name: &str, arguments: &[String], joined: Option<String>) -> (r: String)
    ensures
        r@ == plugin_prompt(name@, text::texts(arguments@), text::opt_text(joined)),
{
    if arguments.len() == 0 {
        return cat2("/", name);
    }
    let line = match joined {
        Some(line) => line,
        None => join_texts(arguments, " "),
    };
    cat4("/", name, " ", line.as_str())
}

/// The prompt that calls a plugin command.
pub fn format_top_level_plugin_prompt(command_name: &str, command_args: &[String]) -> (r: String)
    ensures
        r@ == plugin_prompt(
            command_name@,
            text::texts(command_args@),
            shell_joined(text::texts(command_args@)),
        ),
{
    if command_args.len() == 0 {
        return cat2("/", command_name);
    }
    plugin_prompt_with(command_name, command_args, shell_join(command_args))
}

/// What to do next in a run.
#[derive(Debug, PartialEq, Eq)]
pub enum RunStep {
    Finish(RunResult),
    Package(PackageStep),
    ListPlugins { json: bool },
    AddPluginRoot { path: String, project: bool },
    RemovePluginRoot { path: String, project: bool },
    ListModels { search: Option<String> },
    ListKnownModels { search: Option<String> },
    Export { target: String, output: Option<String> },
    Configure,
    LookUpPlugin { command: String },
    Interactive { request: Request, resume: bool },
    NonInteractive { request: Request },
}

/// What to do next in a run, as a mathematical value.
pub enum RunStepView {
    Finish(commands::RunView),
    Package(commands::PackageStepView),
    ListPlugins { json: bool },
    AddPluginRoot { path: Seq<char>, project: bool },
    RemovePluginRoot { path: Seq<char>, project: bool },
    ListModels { search: Option<Seq<char>> },
    ListKnownModels { search: Option<Seq<char>> },
    Export { target: Seq<char>, output: Option<Seq<char>> },
    Configure,
    LookUpPlugin { command: Seq<char> },
    Interactive { request: RequestView, resume: bool },
    NonInteractive { request: RequestView },
}

impl View for RunStep {
    type V = RunStepView;

    open spec fn view(&self) -> RunStepView {
        match self {
            RunStep::Finish(result) => RunStepView::Finish(result@),
            RunStep::Package(step) => RunStepView::Package(step@),
            RunStep::ListPlugins { json } => RunStepView::ListPlugins { json: *json },
            RunStep::AddPluginRoot { path, project } => RunStepView::AddPluginRoot {
                path: path@,
                project: *project,
            },
            RunStep::RemovePluginRoot { path, project } => RunStepView::RemovePluginRoot {
                path: path@,
                project: *project,
            },
            RunStep::ListModels { search } => RunStepView::ListModels {
                search: text::opt_text(*search),
            },
            RunStep::ListKnownModels { search } => RunStepView::ListKnownModels {
                search: text::opt_text(*search),
            },
            RunStep::Export { target, output } => RunStepView::Export {
                target: target@,
                output: text::opt_text(*output),
            },
            RunStep::Configure => RunStepView::Configure,
            RunStep::LookUpPlugin { command } => RunStepView::LookUpPlugin { command: command@ },
            RunStep::Interactive { request, resume } => RunStepView::Interactive {
                request: request@,
                resume: *resume,
            },
            RunStep::NonInteractive { request } => RunStepView::NonInteractive {
                request: request@,
            },
        }
    }
}

/// The next step of a run, or the error that ends it.
pub type Planned = Result<RunStepView, commands::CliErrorView>;

/// The next step or the error behind a result.
pub open spec fn planned(r: Result<RunStep, CliError>) -> Planned {
    match r {
        Ok(step) => Ok(step@),
        Err(error) => Err(error@),
    }
}

/// The first place of a text in a sequence.
pub open spec fn place_of(list: Seq<Seq<char>>, word: Seq<char>) -> Option<int>
    decreases list.len(),
{
    if list.len() == 0 {
        None
    } else {
        match place_of(list.drop_last(), word) {
            Some(i) => Some(i),
            None => if list.last() == word {
                Some(list.len() - 1)
            } else {
                None
            },
        }
    }
}

fn find_word(list: &[String], word: &str) -> (r: Option<usize>)
    ensures
        match r {
            Some(i) => i < list@.len() && place_of(text::texts(list@), word@) == Some(i as int),
            None => place_of(text::texts(list@), word@) is None,
        },
{
    let ghost all = text::texts(list@);
    let mut found: Option<usize> = None;
    let mut i: usize = 0;
    assert(all.take(0) =~= Seq::<Seq<char>>::empty());
    while i < list.len()
        invariant
            0 <= i <= list.len(),
            all == text::texts(list@),
            match found {
                Some(k) => k < i && place_of(all.take(i as int), word@) == Some(k as int),
                None => place_of(all.take(i as int), word@) is None,
            },
        decreases list.len() - i,
    {
        assert(all.take(i + 1).drop_last() =~= all.take(i as int));
        if found.is_none() && same(list[i].as_str(), word) {
            found = Some(i);
        }
        i += 1;
    }
    assert(all.take(i as int) =~= all);
    found
}

/// What a plugins command on the command line leads to, where there is one. It stands anywhere,
/// as long as `plugins` is the first message; in RPC mode there is none.
pub open spec fn plugins_step(
    args: Seq<Seq<char>>,
    asked: args::ArgsView,
) -> Option<RunStepView> {
    if asked.mode == Some(OutputMode::Rpc) || asked.messages.len() == 0 || asked.messages[0]
        != "plugins"@ {
        None
    } else {
        match place_of(args, "plugins"@) {
            None => None,
            Some(start) => match commands::plugins_call(args.skip(start)) {
                None => None,
                Some(options) => Some(
                    match commands::plugins_plan(options) {
                        commands::PluginsStepView::Finish(result) => RunStepView::Finish(result),
                        commands::PluginsStepView::List => RunStepView::ListPlugins {
                            json: asked.mode == Some(OutputMode::Json),
                        },
                        commands::PluginsStepView::AddRoot(path, project) =>
                            RunStepView::AddPluginRoot { path, project },
                        commands::PluginsStepView::RemoveRoot(path, project) =>
                            RunStepView::RemovePluginRoot { path, project },
                    },
                ),
            },
        }
    }
}

/// What a plugins command on the command line leads to, where there is one.
pub fn maybe_run_plugins_command(args: &[String], parsed: &Args) -> (r: Option<RunStep>)
    ensures
        match r {
            Some(step) => plugins_step(text::texts(args@), parsed@) == Some(step@),
            None => plugins_step(text::texts(args@), parsed@) is None,
        },
{
    if parsed.mode.is_some() && parsed.mode.unwrap() == OutputMode::Rpc {
        return None;
    }
    if parsed.messages.len() == 0 || !same(parsed.messages[0].as_str(), "plugins") {
        return None;
    }
    let start: usize = match find_word(args, "plugins") {
        Some(start) => start,
        None => {
            return None;
        },
    };
    let tail = copy_texts(vstd::slice::slice_subrange(args, start, args.len()));
    assert(text::texts(tail@) =~= text::texts(args@).skip(start as int));
    let options = match parse_plugins_command(tail.as_slice()) {
        Some(options) => options,
        None => {
            return None;
        },
    };
    let step = match run_plugins_command(&options) {
        PluginsStep::Finish(result) => RunStep::Finish(result),
        PluginsStep::List => RunStep::ListPlugins {
            json: parsed.mode.is_some() && parsed.mode.unwrap() == OutputMode::Json,
        },
        PluginsStep::AddRoot(path, project) => RunStep::AddPluginRoot { path, project },
        PluginsStep::RemoveRoot(path, project) => RunStep::RemovePluginRoot { path, project },
    };
    Some(step)
}

/// The output mode of a run: text where none is asked for.
pub open spec fn run_mode(asked: args::ArgsView) -> OutputMode {
    match asked.mode {
        Some(mode) => mode,
        None => OutputMode::Text,
    }
}

/// What a run does once it is known whether the first message calls a plugin.
pub open spec fn plan_after_lookup(
    asked: args::ArgsView,
    terminal: bool,
    plugin_found: bool,
) -> Planned {
    let mode = run_mode(asked);
    if plugin_found && mode != OutputMode::Rpc && asked.messages.len() > 0 {
        let prompt = plugin_prompt(
            asked.messages[0],
            asked.messages.skip(1),
            shell_joined(asked.messages.skip(1)),
        );
        Ok(
            RunStepView::NonInteractive {
                request: request_of(asked, mode, seq![prompt], asked.continue_session),
            },
        )
    } else if !asked.print && asked.mode is None {
        if terminal {
            Ok(
                RunStepView::Interactive {
                    request: request_of(
                        asked,
                        OutputMode::Text,
                        asked.messages,
                        asked.continue_session || asked.resume,
                    ),
                    resume: asked.resume,
                },
            )
        } else {
            Err(commands::CliErrorView::TuiRequiresTerminal("Interactive mode"@))
        }
    } else if mode == OutputMode::Rpc {
        Err(commands::CliErrorView::InteractiveFailed("Use run_rpc_stdio for RPC execution."@))
    } else {
        Ok(
            RunStepView::NonInteractive {
                request: request_of(asked, mode, asked.messages, asked.continue_session),
            },
        )
    }
}

/// What a run does once it is known whether the first message calls a plugin that is not hidden.
pub fn run_after_plugin_lookup(parsed: &Args, terminal: bool, plugin_found: bool) -> (r: Result<
    RunStep,
    CliError,
>)
    ensures
        planned(r) == plan_after_lookup(parsed@, terminal, plugin_found),
{
    let mode = match parsed.mode {
        Some(mode) => mode,
        None => OutputMode::Text,
    };
    if plugin_found && mode != OutputMode::Rpc && parsed.messages.len() > 0 {
        let rest = vstd::slice::slice_subrange(
            parsed.messages.as_slice(),
            1,
            parsed.messages.len(),
        );
        let prompt = format_top_level_plugin_prompt(parsed.messages[0].as_str(), rest);
        assert(text::texts(rest@) =~= text::texts(parsed.messages@).skip(1));
        let mut messages: Vec<String> = Vec::new();
        messages.push(prompt);
        assert(text::texts(messages@) =~= seq![prompt@]);
        return Ok(
            RunStep::NonInteractive {
                request: build_non_interactive_request(parsed, mode, messages),
            },
        );
    }
    if !parsed.print && parsed.mode.is_none() {
        if !terminal {
            return Err(CliError::TuiRequiresTerminal("Interactive mode"));
        }
        return Ok(
            RunStep::Interactive {
                request: build_request(
                    parsed,
                    OutputMode::Text,
                    copy_texts(parsed.messages.as_slice()),
                    parsed.continue_session || parsed.resume,
                ),
                resume: parsed.resume,
            },
        );
    }
    if mode == OutputMode::Rpc {
        return Err(
            CliError::InteractiveFailed(copy_text("Use run_rpc_stdio for RPC execution.")),
        );
    }
    Ok(
        RunStep::NonInteractive {
            request: build_non_interactive_request(
                parsed,
                mode,
                copy_texts(parsed.messages.as_slice()),
            ),
        },
    )
}

/// What a run with given arguments does first. A package command comes before everything else.
/// Then: extensions are refused, the version is told, a plugins command is run, help is given,
/// models are listed, a session is exported, the configuration view is opened. Otherwise the first
/// message may call a plugin.
pub open spec fn plan(args: Seq<Seq<char>>, terminal: bool) -> Planned {
    let asked = args::asked_by(args, None);
    if let Some(options) = commands::package_call(args) {
        Ok(RunStepView::Package(commands::package_plan(options)))
    } else if asked.extensions.len() > 0 || asked.no_extensions {
        Err(commands::CliErrorView::UnsupportedExtensions)
    } else if asked.version {
        Ok(RunStepView::Finish(commands::printed(help::VERSION_TEXT@)))
    } else if let Some(step) = plugins_step(args, asked) {
        Ok(step)
    } else if asked.help {
        Ok(RunStepView::Finish(commands::printed(help::HELP_TEXT@)))
    } else if let Some(search) = asked.list_models {
        Ok(RunStepView::ListModels { search })
    } else if let Some(search) = asked.list_known_models {
        Ok(RunStepView::ListKnownModels { search })
    } else if let Some(target) = asked.export {
        Ok(
            RunStepView::Export {
                target,
                output: if asked.messages.len() > 0 {
                    Some(asked.messages[0])
                } else {
                    None
                },
            },
        )
    } else if args.len() > 0 && args[0] == "config"@ {
        if terminal {
            Ok(RunStepView::Configure)
        } else {
            Err(commands::CliErrorView::TuiRequiresTerminal("config"@))
        }
    } else if run_mode(asked) != OutputMode::Rpc && asked.messages.len() > 0 {
        Ok(RunStepView::LookUpPlugin { command: asked.messages[0] })
    } else {
        plan_after_lookup(asked, terminal, false)
    }
}

/// What a run with given arguments does first. `terminal` says whether both standard input and
/// standard output are terminals.
pub fn run_with_services(args: &[String], terminal: bool) -> (r: Result<RunStep, CliError>)
    ensures
        planned(r) == plan(text::texts(args@), terminal),
{
    if let Some(options) = parse_package_command(args) {
        return Ok(RunStep::Package(run_package_command(&options)));
    }
    let parsed = parse_args(args);
    if parsed.extensions.len() > 0 || parsed.no_extensions {
        return Err(CliError::UnsupportedExtensions);
    }
    if parsed.version {
        return Ok(RunStep::Finish(print_result(copy_text(render_version_text()))));
    }
    if let Some(step) = maybe_run_plugins_command(args, &parsed) {
        return Ok(step);
    }
    if parsed.help {
        return Ok(RunStep::Finish(print_result(copy_text(render_help_text()))));
    }
    if let Some(search) = &parsed.list_models {
        return Ok(RunStep::ListModels { search: copy_opt(search) });
    }
    if let Some(search) = &parsed.list_known_models {
        return Ok(RunStep::ListKnownModels { search: copy_opt(search) });
    }
    if let Some(target) = &parsed.export {
        let output = if parsed.messages.len() > 0 {
            Some(copy_text(parsed.messages[0].as_str()))
        } else {
            None
        };
        return Ok(RunStep::Export { target: copy_text(target.as_str()), output });
    }
    if args.len() > 0 && same(args[0].as_str(), "config") {
        if !terminal {
            return Err(CliError::TuiRequiresTerminal("config"));
        }
        return Ok(RunStep::Configure);
    }
    let rpc = parsed.mode.is_some() && parsed.mode.unwrap() == OutputMode::Rpc;
    if !rpc && parsed.messages.len() > 0 {
        return Ok(RunStep::LookUpPlugin { command: copy_text(parsed.messages[0].as_str()) });
    }
    run_after_plugin_lookup(&parsed, terminal, false)
}

/// The request of a run that speaks RPC, or what is told where extensions are asked for.
pub fn run_rpc_stdio_with_services(args: &[String]) -> (r: Result<Request, String>)
    ensures
        ({
            let asked = args::asked_by(text::texts(args@), None);
            match r {
                Ok(request) => {
                    &&& asked.extensions.len() == 0 && !asked.no_extensions
                    &&& request@ == request_of(
                        asked,
                        OutputMode::Rpc,
                        Seq::empty(),
                        asked.continue_session,
                    )
                },
                Err(message) => {
                    &&& asked.extensions.len() > 0 || asked.no_extensions
                    &&& message@ == CliError::UnsupportedExtensions.description()
                },
            }
        }),
{
    let parsed = parse_args(args);
    if parsed.extensions.len() > 0 || parsed.no_extensions {
        return Err(CliError::UnsupportedExtensions.message());
    }
    Ok(build_non_interactive_request(&parsed, OutputMode::Rpc, Vec::new()))
}

/// What an agent session printed before it ended.
#[derive(Debug, PartialEq, Eq)]
pub struct SessionOutput {
    pub exit_code: i32,
    pub stdout: Vec<String>,
    pub stderr: Vec<String>,
}

/// Lines as one text; nothing where there are none.
pub open spec fn joined_lines(lines: Seq<Seq<char>>) -> Option<Seq<char>> {
    if lines.len() == 0 {
        None
    } else {
        Some(text::join(lines, "\n"@))
    }
}

fn lines_output(lines: &[String]) -> (r: Option<String>)
    ensures
        text::opt_text(r) == joined_lines(text::texts(lines@)),
{
    if lines.len() == 0 {
        None
    } else {
        Some(join_texts(lines, "\n"))
    }
}

/// The result of a run that was not interactive: what the session printed, or its error.
pub fn non_interactive_result(outcome: Result<SessionOutput, String>) -> (r: RunResult)
    ensures
        r@ == (match outcome {
            Ok(output) => (commands::RunView {
                exit_code: output.exit_code as int,
                stdout: joined_lines(text::texts(output.stdout@)),
                stderr: joined_lines(text::texts(output.stderr@)),
            }),
            Err(error) => commands::refused(error@),
        }),
{
    match outcome {
        Ok(output) => RunResult::Completed {
            exit_code: output.exit_code,
            stdout: lines_output(output.stdout.as_slice()),
            stderr: lines_output(output.stderr.as_slice()),
        },
        Err(error) => commands::refuse_result(error),
    }
}

/// The result of an export: where the session was written, or the error.
pub fn export_result(outcome: Result<String, String>) -> (r: RunResult)
    ensures
        r@ == (match outcome {
            Ok(path) => commands::printed("Exported to: "@ + path@),
            Err(error) => commands::refused(error@),
        }),
{
    match outcome {
        Ok(path) => print_result(cat2("Exported to: ", path.as_str())),
        Err(error) => commands::refuse_result(error),
    }
}

/// A package command wins over everything else on the command line.
pub proof fn package_commands_come_first(args: Seq<Seq<char>>, terminal: bool)
    requires
        commands::package_call(args) is Some,
    ensures
        plan(args, terminal) == Ok::<RunStepView, commands::CliErrorView>(
            RunStepView::Package(commands::package_plan(commands::package_call(args)->0)),
        ),
{
}

/// The version is told even where help is asked for too.
pub proof fn version_beats_help(args: Seq<Seq<char>>, terminal: bool)
    requires
        commands::package_call(args) is None,
        args::asked_by(args, None).extensions.len() == 0,
        !args::asked_by(args, None).no_extensions,
        args::asked_by(args, None).version,
    ensures
        plan(args, terminal) == Ok::<RunStepView, commands::CliErrorView>(
            RunStepView::Finish(commands::printed(help::VERSION_TEXT@)),
        ),
{
}

/// Extensions are refused whatever else is asked for, unless a package command is called.
pub proof fn extensions_fail_fast(args: Seq<Seq<char>>, terminal: bool)
    requires
        commands::package_call(args) is None,
        args::asked_by(args, None).extensions.len() > 0 || args::asked_by(args, None).no_extensions,
    ensures
        plan(args, terminal) == Err::<RunStepView, commands::CliErrorView>(
            commands::CliErrorView::UnsupportedExtensions,
        ),
{
}

/// Without a terminal neither the configuration view nor an interactive session is started.
pub proof fn no_terminal_no_interface(args: Seq<Seq<char>>, plugin_found: bool)
    ensures
        plan(args, false) != Ok::<RunStepView, commands::CliErrorView>(RunStepView::Configure),
        !(plan(args, false) matches Ok(RunStepView::Interactive { .. })),
        !(plan_after_lookup(args::asked_by(args, None), false, plugin_found) matches Ok(
            RunStepView::Interactive { .. },
        )),
{
    let asked = args::asked_by(args, None);
    if plugins_step(args, asked) is Some {
    }
}

/// Whether a request is that of a command line: everything but the mode, the messages and whether a
/// session is continued is what was asked for.
pub open spec fn keeps_what_was_asked(request: RequestView, asked: args::ArgsView) -> bool {
    &&& request.provider == asked.provider
    &&& request.model == asked.model
    &&& request.api_key == asked.api_key
    &&& request.system_prompt == asked.system_prompt
    &&& request.append_system_prompt == asked.append_system_prompt
    &&& request.session == asked.session
    &&& request.session_dir == asked.session_dir
    &&& request.thinking == asked.thinking
    &&& request.models == asked.models
    &&& request.tools == asked.tools
    &&& request.no_session == asked.no_session
    &&& request.no_tools == asked.no_tools
    &&& request.no_skills == asked.no_skills
    &&& request.no_prompt_templates == asked.no_prompt_templates
    &&& request.no_themes == asked.no_themes
    &&& request.skills == asked.skills
    &&& request.prompt_templates == asked.prompt_templates
    &&& request.themes == asked.themes
}

/// The request of a run carries what the command line asked for, whatever kind of run it is.
pub proof fn requests_keep_what_was_asked(
    asked: args::ArgsView,
    terminal: bool,
    plugin_found: bool,
)
    ensures
        plan_after_lookup(asked, terminal, plugin_found) matches Ok(
            RunStepView::NonInteractive { request },
        ) ==> keeps_what_was_asked(request, asked) && request.continue_session
            == asked.continue_session,
        plan_after_lookup(asked, terminal, plugin_found) matches Ok(
            RunStepView::Interactive { request, resume },
        ) ==> keeps_what_was_asked(request, asked) && resume == asked.resume
            && request.continue_session == (asked.continue_session || asked.resume)
            && request.messages == asked.messages,
{
}

/// The request of a run that is not interactive carries the mode that was asked for, and text where
/// none was. Where JSON is asked for, the run is always of that kind.
pub proof fn requests_carry_the_mode(asked: args::ArgsView, terminal: bool, plugin_found: bool)
    ensures
        plan_after_lookup(asked, terminal, plugin_found) matches Ok(
            RunStepView::NonInteractive { request },
        ) ==> (asked.mode is Some ==> Some(request.mode) == asked.mode) && (asked.mode is None
            ==> request.mode == OutputMode::Text),
        asked.mode == Some(OutputMode::Json) || asked.mode == Some(OutputMode::Text) ==> (
        plan_after_lookup(asked, terminal, plugin_found) matches Ok(
            RunStepView::NonInteractive { .. },
        )),
        asked.mode == Some(OutputMode::Rpc) ==> plan_after_lookup(asked, terminal, plugin_found)
            is Err,
        asked.mode is None && asked.print ==> (plan_after_lookup(asked, terminal, plugin_found)
            matches Ok(RunStepView::NonInteractive { .. })),
        plan_after_lookup(asked, terminal, plugin_found) matches Ok(
            RunStepView::Interactive { request, .. },
        ) ==> request.mode == OutputMode::Text,
{
}

/// Without a mode and without printing, a run is interactive where there is a terminal, and refused
/// where there is none, unless the first message calls a plugin.
pub proof fn plain_runs_are_interactive(asked: args::ArgsView, terminal: bool, plugin_found: bool)
    requires
        asked.mode is None,
        !asked.print,
        !plugin_found || asked.messages.len() == 0,
    ensures
        terminal <==> (plan_after_lookup(asked, terminal, plugin_found) matches Ok(
            RunStepView::Interactive { .. },
        )),
        !terminal <==> plan_after_lookup(asked, terminal, plugin_found) == Err::<
            RunStepView,
            commands::CliErrorView,
        >(commands::CliErrorView::TuiRequiresTerminal("Interactive mode"@)),
{
}

/// The messages of a run that is not interactive are those of the command line. Where the first one
/// calls a plugin, they are one prompt that begins with a slash and its name, and ends with the other
/// messages as a shell would read them.
pub proof fn requests_carry_the_messages(
    asked: args::ArgsView,
    terminal: bool,
    plugin_found: bool,
)
    ensures
        !plugin_found ==> (plan_after_lookup(asked, terminal, plugin_found) matches Ok(
            RunStepView::NonInteractive { request },
        ) ==> request.messages == asked.messages),
        plugin_found && asked.messages.len() > 0 && asked.mode != Some(OutputMode::Rpc) ==> (
        plan_after_lookup(asked, terminal, plugin_found) matches Ok(
            RunStepView::NonInteractive { request },
        ) && request.messages.len() == 1 && text::has_prefix(
            request.messages[0],
            seq!['/'] + asked.messages[0],
        ) && (asked.messages.len() == 1 ==> request.messages[0] == seq!['/'] + asked.messages[0]) && (
        asked.messages.len() > 1 ==> request.messages[0] == seq!['/'] + asked.messages[0] + seq![' ']
            + (match shell_joined(asked.messages.skip(1)) {
            Some(line) => line,
            None => text::join(asked.messages.skip(1), seq![' ']),
        }))),
{
    reveal_strlit("/");
    reveal_strlit(" ");
    assert("/"@ =~= seq!['/']);
    assert(" "@ =~= seq![' ']);
    if asked.messages.len() > 0 {
        let rest = asked.messages.skip(1);
        let called = seq!['/'] + asked.messages[0];
        let prompt = plugin_prompt(asked.messages[0], rest, shell_joined(rest));
        assert(prompt.take(called.len() as int) =~= called);
    }
}

/// What a command line asks for with an output mode before it, is run in that mode.
pub proof fn modes_reach_the_request(
    rest: Seq<Seq<char>>,
    terminal: bool,
    plugin_found: bool,
)
    requires
        args::asked_by(rest, None).mode is None,
    ensures
        plan_after_lookup(
            args::asked_by(seq!["--mode"@, "json"@] + rest, None),
            terminal,
            plugin_found,
        ) matches Ok(RunStepView::NonInteractive { request }) && request.mode == OutputMode::Json,
        plan_after_lookup(
            args::asked_by(seq!["--mode"@, "text"@] + rest, None),
            terminal,
            plugin_found,
        ) matches Ok(RunStepView::NonInteractive { request }) && request.mode == OutputMode::Text,
        plan_after_lookup(
            args::asked_by(seq!["--mode"@, "rpc"@] + rest, None),
            terminal,
            plugin_found,
        ) is Err,
{
    args::modes_are_read(""@, rest, None);
}

/// Whether nothing on the command line asks for something else than a run with messages.
pub open spec fn plain_call(args: Seq<Seq<char>>) -> bool {
    let asked = args::asked_by(args, None);
    &&& commands::package_call(args) is None
    &&& asked.extensions.len() == 0 && !asked.no_extensions
    &&& !asked.version && !asked.help
    &&& asked.list_models is None && asked.list_known_models is None && asked.export is None
    &&& args.len() > 0 ==> args[0] != "config"@
    &&& asked.messages.len() > 0 ==> asked.messages[0] != "plugins"@
}

/// A run with messages first asks whether the first one calls a plugin, and goes on as it does after
/// that question where there are no messages, or where it speaks RPC.
pub proof fn messages_may_call_plugins(args: Seq<Seq<char>>, terminal: bool)
    requires
        plain_call(args),
    ensures
        ({
            let asked = args::asked_by(args, None);
            if asked.messages.len() > 0 && asked.mode != Some(OutputMode::Rpc) {
                plan(args, terminal) == Ok::<RunStepView, commands::CliErrorView>(
                    RunStepView::LookUpPlugin { command: asked.messages[0] },
                )
            } else {
                plan(args, terminal) == plan_after_lookup(asked, terminal, false)
            }
        }),
{
}

/// Help is given where it is asked for, unless extensions or the version are asked for too, or a
/// package or plugins command is called.
pub proof fn help_is_given(args: Seq<Seq<char>>, terminal: bool)
    requires
        commands::package_call(args) is None,
        args::asked_by(args, None).extensions.len() == 0,
        !args::asked_by(args, None).no_extensions,
        !args::asked_by(args, None).version,
        args::asked_by(args, None).messages.len() > 0 ==> args::asked_by(args, None).messages[0]
            != "plugins"@,
        args::asked_by(args, None).help,
    ensures
        plan(args, terminal) == Ok::<RunStepView, commands::CliErrorView>(
            RunStepView::Finish(commands::printed(help::HELP_TEXT@)),
        ),
{
}

/// Models are listed with the search that was given, a session is exported to the first message, and
/// the configuration view needs a terminal. They come in this order, after help.
pub proof fn listings_and_exports_are_run(args: Seq<Seq<char>>, terminal: bool)
    requires
        commands::package_call(args) is None,
        args::asked_by(args, None).extensions.len() == 0,
        !args::asked_by(args, None).no_extensions,
        !args::asked_by(args, None).version,
        !args::asked_by(args, None).help,
        args::asked_by(args, None).messages.len() > 0 ==> args::asked_by(args, None).messages[0]
            != "plugins"@,
    ensures
        ({
            let asked = args::asked_by(args, None);
            let done = plan(args, terminal);
            &&& asked.list_models matches Some(search) ==> (done matches Ok(
                RunStepView::ListModels { search: shown },
            ) && shown == search)
            &&& asked.list_models is None ==> (asked.list_known_models matches Some(search) ==> (
            done matches Ok(RunStepView::ListKnownModels { search: shown }) && shown == search))
            &&& asked.list_models is None && asked.list_known_models is None ==> (
            asked.export matches Some(session) ==> (done matches Ok(
                RunStepView::Export { target, output },
            ) && target == session && (asked.messages.len() == 0 <==> output is None) && (
            asked.messages.len() > 0 ==> output == Some(asked.messages[0]))))
            &&& asked.list_models is None && asked.list_known_models is None && asked.export is None
                && args.len() > 0 && args[0] == "config"@ ==> (terminal <==> done matches Ok(
                RunStepView::Configure,
            )) && (!terminal <==> done is Err)
        }),
{
}

/// A plugins command is told to list as JSON exactly where that mode is asked for, and is not run
/// where RPC is.
pub proof fn plugins_are_listed_in_the_mode(args: Seq<Seq<char>>, terminal: bool)
    ensures
        plan(args, terminal) matches Ok(RunStepView::ListPlugins { json }) ==> json == (
        args::asked_by(args, None).mode == Some(OutputMode::Json)),
        args::asked_by(args, None).mode == Some(OutputMode::Rpc) ==> plugins_step(
            args,
            args::asked_by(args, None),
        ) is None,
{
}

/// Lines of output are joined by line feeds, and no lines are no output.
pub proof fn output_lines_are_joined(line: Seq<char>, lines: Seq<Seq<char>>)
    ensures
        joined_lines(Seq::empty()) is None,
        joined_lines(seq![line]) == Some(line),
        lines.len() > 0 ==> joined_lines(lines.push(line)) == Some(
            joined_lines(lines)->0 + seq!['\n'] + line,
        ),
{
    reveal_strlit("\n");
    assert("\n"@ =~= seq!['\n']);
    assert(lines.push(line).drop_last() =~= lines);
}

} // verus!
