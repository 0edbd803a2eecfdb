use hummingbird::cli::{parse_u32, Cli, CliError, Commands, ConfigAction, SessionAction, VERSION};

#[test]
fn cli_parses_run_subcommand() {
    let cli = Cli::try_parse_from(&["hummingbird", "run", "fix the bug"]).unwrap();
    match cli.command {
        Commands::Run { prompt, .. } => assert_eq!(prompt, "fix the bug"),
        _ => panic!("expected run"),
    }
}

#[test]
fn cli_parses_run_with_flags() {
    let cli = Cli::try_parse_from(&[
        "hummingbird",
        "run",
        "hello",
        "--model",
        "qwen3:30b",
        "--provider",
        "ollama",
        "--max-iterations",
        "5",
    ])
    .unwrap();
    match cli.command {
        Commands::Run { model, provider, max_iterations, .. } => {
            assert_eq!(model.as_deref(), Some("qwen3:30b"));
            assert_eq!(provider.as_deref(), Some("ollama"));
            assert_eq!(max_iterations, 5);
        }
        _ => panic!("expected run"),
    }
}

#[test]
fn cli_parses_session_list() {
    let cli = Cli::try_parse_from(&["hummingbird", "session", "list"]).unwrap();
    match cli.command {
        Commands::Session { action: SessionAction::List } => {}
        _ => panic!("expected session list"),
    }
}

#[test]
fn cli_parses_session_resume() {
    let cli = Cli::try_parse_from(&["hummingbird", "session", "resume", "abc123"]).unwrap();
    match cli.command {
        Commands::Session { action: SessionAction::Resume { id } } => {
            assert_eq!(id, "abc123");
        }
        _ => panic!("expected session resume"),
    }
}

#[test]
fn version_flag_defined() {
    let cmd = Cli::command();
    assert!(cmd.get_version().is_some());
}

#[test]
fn version_is_the_package_version() {
    let cmd = Cli::command();
    assert_eq!(cmd.get_version(), Some(VERSION));
    assert_eq!(cmd.name, "hummingbird");
}

#[test]
fn run_defaults_when_only_prompt() {
    let cli = Cli::try_parse_from(&["hb", "run", "task"]).unwrap();
    match cli.command {
        Commands::Run { prompt, model, provider, max_iterations, stream } => {
            assert_eq!(prompt, "task");
            assert_eq!(model, None);
            assert_eq!(provider, None);
            assert_eq!(max_iterations, 10);
            assert!(stream);
        }
        _ => panic!("expected run"),
    }
}

#[test]
fn option_value_forms_agree() {
    let forms: [&[&str]; 4] = [
        &["hb", "run", "p", "--model", "m1"],
        &["hb", "run", "p", "--model=m1"],
        &["hb", "run", "p", "-m", "m1"],
        &["hb", "run", "p", "-mm1"],
    ];
    for f in forms.iter() {
        match Cli::try_parse_from(f).unwrap().command {
            Commands::Run { model, .. } => assert_eq!(model.as_deref(), Some("m1")),
            _ => panic!("expected run"),
        }
    }
}

#[test]
fn short_options_and_stream_flag() {
    let cli = Cli::try_parse_from(&["hb", "run", "-p", "openai", "-s", "x"]).unwrap();
    match cli.command {
        Commands::Run { prompt, provider, stream, .. } => {
            assert_eq!(prompt, "x");
            assert_eq!(provider.as_deref(), Some("openai"));
            assert!(stream);
        }
        _ => panic!("expected run"),
    }
}

#[test]
fn double_dash_makes_option_like_words_arguments() {
    let cli = Cli::try_parse_from(&["hb", "run", "--", "--model"]).unwrap();
    match cli.command {
        Commands::Run { prompt, model, .. } => {
            assert_eq!(prompt, "--model");
            assert_eq!(model, None);
        }
        _ => panic!("expected run"),
    }
}

#[test]
fn missing_prompt_is_refused() {
    match Cli::try_parse_from(&["hb", "run"]) {
        Err(CliError::MissingRequired(what)) => assert_eq!(what, "<PROMPT>"),
        other => panic!("unexpected {:?}", other),
    }
}

#[test]
fn extra_argument_is_refused() {
    match Cli::try_parse_from(&["hb", "run", "a", "b"]) {
        Err(CliError::UnknownArgument(w)) => assert_eq!(w, "b"),
        other => panic!("unexpected {:?}", other),
    }
}

#[test]
fn invalid_iterations_are_refused() {
    match Cli::try_parse_from(&["hb", "run", "a", "--max-iterations", "many"]) {
        Err(CliError::InvalidValue(opt, v)) => {
            assert_eq!(opt, "--max-iterations");
            assert_eq!(v, "many");
        }
        other => panic!("unexpected {:?}", other),
    }
    assert!(matches!(
        Cli::try_parse_from(&["hb", "run", "a", "--max-iterations=4294967296"]),
        Err(CliError::InvalidValue(_, _))
    ));
}

#[test]
fn option_without_value_is_refused() {
    match Cli::try_parse_from(&["hb", "run", "a", "--model"]) {
        Err(CliError::MissingValue(o)) => assert_eq!(o, "--model"),
        other => panic!("unexpected {:?}", other),
    }
    match Cli::try_parse_from(&["hb", "run", "a", "--model", "-x"]) {
        Err(CliError::MissingValue(o)) => assert_eq!(o, "--model"),
        other => panic!("unexpected {:?}", other),
    }
}

#[test]
fn repeated_option_is_refused() {
    match Cli::try_parse_from(&["hb", "run", "a", "-m", "x", "--model", "y"]) {
        Err(CliError::Repeated(o)) => assert_eq!(o, "--model"),
        other => panic!("unexpected {:?}", other),
    }
}

#[test]
fn flag_with_value_is_refused() {
    match Cli::try_parse_from(&["hb", "run", "a", "--stream=false"]) {
        Err(CliError::UnexpectedValue(o)) => assert_eq!(o, "--stream"),
        other => panic!("unexpected {:?}", other),
    }
}

#[test]
fn unknown_option_is_refused() {
    match Cli::try_parse_from(&["hb", "run", "a", "--verbose"]) {
        Err(CliError::UnknownArgument(w)) => assert_eq!(w, "--verbose"),
        other => panic!("unexpected {:?}", other),
    }
}

#[test]
fn help_and_version_requests() {
    assert!(matches!(Cli::try_parse_from(&["hb", "--help"]), Err(CliError::DisplayHelp)));
    assert!(matches!(Cli::try_parse_from(&["hb", "-h"]), Err(CliError::DisplayHelp)));
    assert!(matches!(Cli::try_parse_from(&["hb", "help"]), Err(CliError::DisplayHelp)));
    assert!(matches!(Cli::try_parse_from(&["hb", "run", "x", "--help"]), Err(CliError::DisplayHelp)));
    assert!(matches!(Cli::try_parse_from(&["hb", "--version"]), Err(CliError::DisplayVersion)));
    assert!(matches!(Cli::try_parse_from(&["hb", "-V"]), Err(CliError::DisplayVersion)));
}

#[test]
fn missing_and_invalid_subcommands() {
    assert!(matches!(Cli::try_parse_from(&["hb"]), Err(CliError::MissingSubcommand)));
    match Cli::try_parse_from(&["hb", "launch"]) {
        Err(CliError::InvalidSubcommand(w)) => assert_eq!(w, "launch"),
        other => panic!("unexpected {:?}", other),
    }
    assert!(matches!(Cli::try_parse_from(&["hb", "session"]), Err(CliError::MissingSubcommand)));
    match Cli::try_parse_from(&["hb", "session", "resume"]) {
        Err(CliError::MissingRequired(w)) => assert_eq!(w, "<ID>"),
        other => panic!("unexpected {:?}", other),
    }
}

#[test]
fn chat_session_delete_config_init() {
    match Cli::try_parse_from(&["hb", "chat", "--session", "s1", "-m", "llama"]).unwrap().command {
        Commands::Chat { session, model } => {
            assert_eq!(session.as_deref(), Some("s1"));
            assert_eq!(model.as_deref(), Some("llama"));
        }
        _ => panic!("expected chat"),
    }
    match Cli::try_parse_from(&["hb", "session", "delete", "abc"]).unwrap().command {
        Commands::Session { action: SessionAction::Delete { id } } => assert_eq!(id, "abc"),
        _ => panic!("expected delete"),
    }
    match Cli::try_parse_from(&["hb", "config", "set", "model", "x"]).unwrap().command {
        Commands::Config { action: ConfigAction::SetValue { key, value } } => {
            assert_eq!(key, "model");
            assert_eq!(value, "x");
        }
        _ => panic!("expected config set"),
    }
    assert!(matches!(
        Cli::try_parse_from(&["hb", "config", "show"]).unwrap().command,
        Commands::Config { action: ConfigAction::Show }
    ));
    assert!(matches!(Cli::try_parse_from(&["hb", "init"]).unwrap().command, Commands::Init));
    match Cli::try_parse_from(&["hb", "config", "set", "model"]) {
        Err(CliError::MissingRequired(w)) => assert_eq!(w, "<VALUE>"),
        other => panic!("unexpected {:?}", other),
    }
}

#[test]
fn parses_u32_values() {
    assert_eq!(parse_u32("0"), Some(0));
    assert_eq!(parse_u32("42"), Some(42));
    assert_eq!(parse_u32("+7"), Some(7));
    assert_eq!(parse_u32("-0"), Some(0));
    assert_eq!(parse_u32("-1"), None);
    assert_eq!(parse_u32("4294967295"), Some(4294967295));
    assert_eq!(parse_u32("4294967296"), None);
    assert_eq!(parse_u32("99999999999999999999999"), None);
    assert_eq!(parse_u32(""), None);
    assert_eq!(parse_u32("+"), None);
    assert_eq!(parse_u32("12a"), None);
}

#[test]
fn refusal_messages() {
    let msg = |args: &[&str]| Cli::try_parse_from(args).unwrap_err().message();
    assert_eq!(msg(&["hb", "run", "a", "b"]), "unexpected argument 'b' found");
    assert_eq!(msg(&["hb", "launch"]), "unrecognized subcommand 'launch'");
    assert_eq!(msg(&["hb", "run", "a", "--model"]), "a value is required for '--model' but none was supplied");
    assert_eq!(msg(&["hb", "run", "a", "--max-iterations", "x"]), "invalid value 'x' for '--max-iterations'");
    assert_eq!(msg(&["hb", "run"]), "the following required arguments were not provided: <PROMPT>");
    assert_eq!(msg(&["hb"]), "'hummingbird' requires a subcommand but one was not provided");
    assert_eq!(msg(&["hb", "run", "a", "-s", "-s"]), "the argument '--stream' cannot be used multiple times");
    assert_eq!(msg(&["hb", "run", "a", "--stream=no"]), "unexpected value for '--stream' found; no more were expected");
    assert_eq!(msg(&["hb", "--help"]), "");
}

#[test]
fn refusals_come_in_the_order_of_the_words() {
    // the value is checked where the option stands, before the missing prompt is noticed
    assert!(matches!(
        Cli::try_parse_from(&["hb", "run", "--max-iterations", "x"]),
        Err(CliError::InvalidValue(_, _))
    ));
    // an extra argument is refused where it stands, before a later unknown option
    match Cli::try_parse_from(&["hb", "run", "a", "b", "--bogus"]) {
        Err(CliError::UnknownArgument(w)) => assert_eq!(w, "b"),
        other => panic!("unexpected {:?}", other),
    }
    match Cli::try_parse_from(&["hb", "chat", "extra"]) {
        Err(CliError::UnknownArgument(w)) => assert_eq!(w, "extra"),
        other => panic!("unexpected {:?}", other),
    }
    match Cli::try_parse_from(&["hb", "init", "now"]) {
        Err(CliError::UnknownArgument(w)) => assert_eq!(w, "now"),
        other => panic!("unexpected {:?}", other),
    }
}
