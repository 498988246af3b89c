use pi_rust_cli::args::{parse_args, parse_args_with_extension_flags, ExtensionFlagType, ExtensionFlagValue, FlagTable, OutputMode};
use pi_rust_cli::commands::{
    package_install_result, package_list_result, package_remove_result, package_update_result, parse_package_command,
    parse_plugins_command, run_package_command, run_plugins_command, CliError, ListedPackage, PackageCommand, PackageStep,
    PluginsCommand, PluginsStep, RunResult,
};
use pi_rust_cli::help::{
    render_help_text, render_package_command_help, render_package_command_usage, render_plugins_command_help,
    render_plugins_command_usage, render_plugins_help_text, render_version_text,
};
use pi_rust_cli::paths::{resolve_plugin_root, serialize_plugin_root};
use pi_rust_cli::plugins::{add_plugin_root, plugin_root_added_message, SettingsScope};
use pi_rust_cli::run::{
    build_non_interactive_request, export_result, format_top_level_plugin_prompt, non_interactive_result,
    plugin_prompt_with, run_after_plugin_lookup, run_rpc_stdio_with_services, run_with_services, RunStep, SessionOutput,
};

fn words(list: &[&str]) -> Vec<String> {
    list.iter().map(|word| word.to_string()).collect()
}

fn run(args: &[String]) -> Result<RunStep, CliError> {
    run_with_services(args, false)
}

fn finished(exit_code: i32, stdout: Option<&str>, stderr: Option<&str>) -> RunResult {
    RunResult::Completed {
        exit_code,
        stdout: stdout.map(|text| text.to_string()),
        stderr: stderr.map(|text| text.to_string()),
    }
}

#[test]
fn parses_core_cli_flags() {
    let args = vec![
        "--provider".to_string(),
        "openai".to_string(),
        "--model".to_string(),
        "gpt-5.1-codex".to_string(),
        "--models".to_string(),
        "sonnet:high,haiku:low".to_string(),
        "--tools".to_string(),
        "read,grep".to_string(),
        "@README.md".to_string(),
        "Review this".to_string(),
    ];
    let parsed = parse_args(&args);
    assert_eq!(parsed.provider.as_deref(), Some("openai"));
    assert_eq!(parsed.model.as_deref(), Some("gpt-5.1-codex"));
    assert_eq!(
        parsed.models,
        Some(vec!["sonnet:high".to_string(), "haiku:low".to_string()])
    );
    assert_eq!(
        parsed.tools,
        Some(vec!["read".to_string(), "grep".to_string()])
    );
    assert_eq!(parsed.file_args, vec!["README.md".to_string()]);
    assert_eq!(parsed.messages, vec!["Review this".to_string()]);
}

#[test]
fn help_returns_fixture_output() {
    let args = vec!["--help".to_string()];
    let result = run(&args).expect("help result");
    assert_eq!(
        result,
        RunStep::Finish(RunResult::Completed {
            exit_code: 0,
            stdout: Some(render_help_text().to_string()),
            stderr: None,
        })
    );
}

#[test]
fn extension_flags_fail_fast() {
    let args = vec!["--extension".to_string(), "./ext.ts".to_string()];
    let error = run(&args).expect_err("extension failure");
    assert_eq!(error, CliError::UnsupportedExtensions);
}

#[test]
fn plugins_help_includes_the_command_group() {
    let result = run(&["plugins".to_string(), "--help".to_string()]).expect("plugins help");
    assert_eq!(
        result,
        RunStep::Finish(RunResult::Completed {
            exit_code: 0,
            stdout: Some(render_plugins_help_text().trim_end().to_string()),
            stderr: None,
        })
    );
}

#[test]
fn version_takes_precedence_over_help() {
    let result = run(&["--help".to_string(), "--version".to_string()]).expect("version result");
    assert_eq!(
        result,
        RunStep::Finish(RunResult::Completed {
            exit_code: 0,
            stdout: Some(render_version_text().to_string()),
            stderr: None,
        })
    );
}

#[test]
fn list_models_only_consumes_search_when_next_arg_is_not_flag_or_file() {
    let parsed = parse_args(&["--list-models".to_string(), "sonnet".to_string()]);
    assert_eq!(parsed.list_models, Some(Some("sonnet".to_string())));

    let parsed = parse_args(&["--list-models".to_string(), "--verbose".to_string()]);
    assert_eq!(parsed.list_models, Some(None));
    assert!(parsed.verbose);

    let parsed = parse_args(&["--list-models".to_string(), "@prompt.md".to_string()]);
    assert_eq!(parsed.list_models, Some(None));
    assert_eq!(parsed.file_args, vec!["prompt.md".to_string()]);

    let parsed = parse_args(&["--list-known-models".to_string(), "codex".to_string()]);
    assert_eq!(parsed.list_known_models, Some(Some("codex".to_string())));

    let parsed = parse_args(&["--list-known-models".to_string(), "--verbose".to_string()]);
    assert_eq!(parsed.list_known_models, Some(None));
    assert!(parsed.verbose);
}

#[test]
fn models_preserve_empty_patterns_like_typescript() {
    let parsed = parse_args(&["--models".to_string(), ",sonnet,,haiku, ".to_string()]);
    assert_eq!(
        parsed.models,
        Some(vec![
            "".to_string(),
            "sonnet".to_string(),
            "".to_string(),
            "haiku".to_string(),
            "".to_string()
        ])
    );
}

#[test]
fn tools_drop_unknown_values() {
    let parsed = parse_args(&["--tools".to_string(), "read,,bogus,grep".to_string()]);
    assert_eq!(
        parsed.tools,
        Some(vec!["read".to_string(), "grep".to_string()])
    );
}

#[test]
fn invalid_thinking_levels_are_ignored() {
    let parsed = parse_args(&["--thinking".to_string(), "veryhigh".to_string()]);
    assert_eq!(parsed.thinking, None);

    let parsed = parse_args(&["--thinking".to_string(), "high".to_string()]);
    assert_eq!(parsed.thinking.as_deref(), Some("high"));
}

#[test]
fn extension_registered_flags_are_captured_on_second_pass() {
    let mut extension_flags = FlagTable::new();
    extension_flags.insert("plan".to_string(), ExtensionFlagType::Boolean);
    extension_flags.insert("profile".to_string(), ExtensionFlagType::String);

    let parsed = parse_args_with_extension_flags(
        &[
            "--plan".to_string(),
            "--profile".to_string(),
            "coder".to_string(),
            "hello".to_string(),
        ],
        Some(&extension_flags),
    );

    assert_eq!(
        parsed.unknown_flags.get("plan"),
        Some(&ExtensionFlagValue::Boolean(true))
    );
    assert_eq!(
        parsed.unknown_flags.get("profile"),
        Some(&ExtensionFlagValue::String("coder".to_string()))
    );
    assert_eq!(parsed.messages, vec!["hello".to_string()]);
}

#[test]
fn package_help_is_handled_before_global_args() {
    let result = run(&["install".to_string(), "--help".to_string()]).expect("package help");
    assert_eq!(
        result,
        RunStep::Package(PackageStep::Finish(RunResult::Completed {
            exit_code: 0,
            stdout: Some(
                render_package_command_help(PackageCommand::Install)
                    .trim_end()
                    .to_string()
            ),
            stderr: None,
        }))
    );
}

#[test]
fn package_validation_matches_typescript_shape() {
    let result = run(&["install".to_string(), "--bogus".to_string()]).expect("invalid option");
    assert_eq!(
        result,
        RunStep::Package(PackageStep::Finish(RunResult::Completed {
            exit_code: 1,
            stdout: None,
            stderr: Some(
                "Unknown option --bogus for \"install\".\nUse \"pi-rust --help\" or \"pi-rust install <source> [-l]\"."
                    .to_string()
            ),
        }))
    );

    let result = run(&["remove".to_string()]).expect("missing source");
    assert_eq!(
        result,
        RunStep::Package(PackageStep::Finish(RunResult::Completed {
            exit_code: 1,
            stdout: None,
            stderr: Some(
                "Missing remove source.\nUsage: pi-rust remove <source> [-l]".to_string()
            ),
        }))
    );
}

#[test]
fn tui_commands_require_a_terminal_in_tests() {
    let error = run(&["config".to_string()]).expect_err("config tty check");
    assert_eq!(error, CliError::TuiRequiresTerminal("config"));

    let error = run(&[]).expect_err("interactive tty check");
    assert_eq!(error, CliError::TuiRequiresTerminal("Interactive mode"));
}

#[test]
fn package_steps_and_results() {
    assert_eq!(
        run(&words(&["install", "./pkg", "--local"])),
        Ok(RunStep::Package(PackageStep::Install { source: "./pkg".to_string(), project: true }))
    );
    assert_eq!(
        package_install_result(Ok("./pkg".to_string())),
        finished(0, Some("Installing ./pkg...\nInstalled ./pkg"), None)
    );
    assert_eq!(
        package_remove_result("./pkg", Ok(true)),
        finished(0, Some("Removing ./pkg...\nRemoved ./pkg"), None)
    );
    let failed = package_remove_result("./pkg", Err("disk full".to_string()));
    assert_eq!(failed, finished(1, None, Some("Error: disk full")));
    let RunResult::Completed { exit_code, .. } = package_remove_result("./pkg", Ok(false));
    assert_eq!(exit_code, 1);
    let RunResult::Completed { exit_code, stdout, .. } = package_update_result(&None, Ok(()));
    assert_eq!((exit_code, stdout.is_some()), (0, true));

    let listed = ListedPackage { source: "../pkg".to_string(), install_path: "/work/pkg".to_string() };
    let RunResult::Completed { exit_code, stdout, stderr } = package_list_result(&[], &[listed]);
    assert_eq!(exit_code, 0);
    assert!(stderr.is_none());
    let shown = stdout.expect("packages");
    assert!(shown.contains("Project packages:"));
    assert!(shown.contains("../pkg"));
}

#[test]
fn package_words_read_back() {
    for command in [PackageCommand::Install, PackageCommand::Remove, PackageCommand::Update, PackageCommand::List] {
        assert_eq!(PackageCommand::from_str(command.as_str()), Some(command));
    }
    assert_eq!(PackageCommand::from_str("plugins"), None);
    let options = parse_package_command(&words(&["remove", "npm:a", "-l"])).expect("a package command");
    assert_eq!(options.command, PackageCommand::Remove);
    assert_eq!(options.source.as_deref(), Some("npm:a"));
    assert!(options.local);
    assert_eq!(run_package_command(&options), PackageStep::Remove { source: "npm:a".to_string(), project: true });
    assert!(parse_package_command(&words(&["chat"])).is_none());
}

#[test]
fn built_in_commands_come_before_plugins() {
    assert_eq!(
        run(&words(&["install", "--help"])).map(|step| matches!(step, RunStep::Package(PackageStep::Finish(_)))),
        Ok(true)
    );
    assert_eq!(
        run(&words(&["rewrite", "alpha beta", "gamma"])),
        Ok(RunStep::LookUpPlugin { command: "rewrite".to_string() })
    );
}

#[test]
fn plugin_commands_become_prompts() {
    let parsed = parse_args(&words(&["rewrite", "alpha beta", "gamma"]));
    match run_after_plugin_lookup(&parsed, false, true) {
        Ok(RunStep::NonInteractive { request }) => {
            assert_eq!(request.messages, words(&["/rewrite 'alpha beta' gamma"]));
            assert_eq!(request.mode, OutputMode::Text);
        }
        other => panic!("unexpected step: {other:?}"),
    }
    assert_eq!(format_top_level_plugin_prompt("list", &[]), "/list");
    assert_eq!(plugin_prompt_with("go", &words(&["a", "b"]), None), "/go a b");
}

#[test]
fn local_means_project_for_plugin_roots() {
    let project = run(&words(&["plugins", "add-root", "./plugins", "--project"]));
    let local = run(&words(&["plugins", "add-root", "./plugins", "--local"]));
    assert_eq!(project, Ok(RunStep::AddPluginRoot { path: "./plugins".to_string(), project: true }));
    assert_eq!(project, local);
    assert_eq!(
        run(&words(&["plugins", "remove-root", "./plugins"])),
        Ok(RunStep::RemovePluginRoot { path: "./plugins".to_string(), project: false })
    );
    assert_eq!(
        run(&words(&["plugins", "list", "--mode", "json"])),
        Ok(RunStep::ListPlugins { json: true })
    );
    let options = parse_plugins_command(&words(&["plugins", "add-root", "x"])).expect("plugins command");
    assert_eq!(options.command, PluginsCommand::AddRoot);
    assert_eq!(run_plugins_command(&options), PluginsStep::AddRoot("x".to_string(), false));
}

#[test]
fn plugins_add_root_keeps_local_as_project_alias() {
    let (path, project) = match run(&words(&["plugins", "add-root", "./plugins", "--local"])) {
        Ok(RunStep::AddPluginRoot { path, project }) => (path, project),
        other => panic!("unexpected step: {other:?}"),
    };
    assert!(project);
    let target = resolve_plugin_root("/t/workspace", &path);
    let stored = serialize_plugin_root("/t/workspace/.pi", &target);
    let roots = add_plugin_root(&[], &[], &target, &stored).expect("a new root");
    assert_eq!(
        plugin_root_added_message(&path, SettingsScope::Project),
        "Added plugin root ./plugins to project settings."
    );
    assert_eq!(roots, words(&["../plugins"]));
}

#[test]
fn built_in_package_commands_still_beat_same_named_plugins() {
    let result = run(&words(&["install", "--help"])).expect("package help");
    let help = render_package_command_help(PackageCommand::Install).trim_end().to_string();
    assert_eq!(result, RunStep::Package(PackageStep::Finish(finished(0, Some(&help), None))));
}

#[test]
fn errors_say_what_is_wrong() {
    assert!(CliError::UnsupportedExtensions.message().starts_with("pi-rust v1 does not execute JS/TS extensions."));
    assert_eq!(
        CliError::PackageCommandNotImplemented(PackageCommand::Update).message(),
        "pi-rust recognizes the \"update\" package command, but package execution is not implemented yet."
    );
    assert_eq!(
        CliError::TuiRequiresTerminal("config").message(),
        "config requires an interactive terminal (TTY)."
    );
    assert_eq!(CliError::InteractiveFailed("broken".to_string()).message(), "broken");
    assert_eq!(
        run(&words(&["--mode", "rpc"])),
        Err(CliError::InteractiveFailed("Use run_rpc_stdio for RPC execution.".to_string()))
    );
}

#[test]
fn requests_carry_the_arguments() {
    let parsed = parse_args(&words(&["-p", "hello", "--model", "m", "--no-tools"]));
    match run_after_plugin_lookup(&parsed, true, false) {
        Ok(RunStep::NonInteractive { request }) => {
            assert_eq!(request, build_non_interactive_request(&parsed, OutputMode::Text, words(&["hello"])));
            assert_eq!(request.model.as_deref(), Some("m"));
            assert!(request.no_tools);
        }
        other => panic!("unexpected step: {other:?}"),
    }
    match run_with_services(&[], true) {
        Ok(RunStep::Interactive { request, resume }) => {
            assert!(!resume);
            assert!(request.messages.is_empty());
        }
        other => panic!("unexpected step: {other:?}"),
    }
    assert!(run_rpc_stdio_with_services(&words(&["--mode", "rpc"])).is_ok());
}

#[test]
fn outcomes_become_results() {
    let output = SessionOutput { exit_code: 0, stdout: words(&["one", "two"]), stderr: Vec::new() };
    assert_eq!(non_interactive_result(Ok(output)), finished(0, Some("one\ntwo"), None));
    assert_eq!(non_interactive_result(Err("no model".to_string())), finished(1, None, Some("no model")));
    let RunResult::Completed { exit_code, stdout, .. } = export_result(Ok("/tmp/out.html".to_string()));
    assert_eq!(exit_code, 0);
    assert!(stdout.expect("export").contains("/tmp/out.html"));
}

#[test]
fn usages_name_their_commands() {
    assert_eq!(render_package_command_usage(PackageCommand::Install), "pi-rust install <source> [-l]");
    assert!(render_plugins_command_usage(PluginsCommand::AddRoot).contains("plugins add-root"));
    assert!(render_plugins_command_help(PluginsCommand::RemoveRoot).contains("plugins remove-root"));
    assert_eq!(render_version_text(), "0.1.0");
}
