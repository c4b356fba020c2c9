use martijn_cli::args::ParseErrorKind;
use martijn_cli::azure_cli::AzureCommand;
use martijn_cli::cli::{parse_cli, Commands};
use martijn_cli::dummy::{command_output, parse_command, DummyCommand};

fn tokens(words: &[&str]) -> Vec<String> {
    words.iter().map(|w| String::from(*w)).collect()
}

#[test]
fn no_arguments_open_the_start_screen() {
    assert!(matches!(parse_cli(&tokens(&[])), Ok(None)));
}

#[test]
fn azure_without_a_command_shows_azure_help() {
    let error = parse_cli(&tokens(&["azure"])).expect_err("missing command should show help");
    assert_eq!(error.kind(), ParseErrorKind::DisplayHelpOnMissingArgumentOrSubcommand);
    assert!(error.render().contains("Usage: azure <COMMAND>"));
}

#[test]
fn azure_commands_are_parsed_below_the_program() {
    let parsed = parse_cli(&tokens(&["azure", "status"])).expect("command should parse");
    assert!(matches!(parsed, Some(Commands::Azure { command: AzureCommand::Status })));
}

#[test]
fn dummy_commands_are_parsed_below_the_program() {
    let parsed = parse_cli(&tokens(&["dummy", "echo", "a", "b"])).expect("command should parse");
    assert!(matches!(
        parsed,
        Some(Commands::Dummy { command: DummyCommand::Echo { text } }) if text == vec![String::from("a"), String::from("b")]
    ));
}

#[test]
fn unknown_top_level_command_is_rejected() {
    let error = parse_cli(&tokens(&["cloud"])).expect_err("unknown command should fail");
    assert_eq!(error.kind(), ParseErrorKind::InvalidSubcommand);
    assert_eq!(error.render(), "error: unrecognized subcommand 'cloud'");
}

#[test]
fn dummy_group_prints_pong_and_joined_echo_text() {
    let ping = parse_command(&tokens(&["ping"])).expect("ping should parse");
    assert_eq!(command_output(&ping), "pong");
    let echo = parse_command(&tokens(&["echo", "hello", "world"])).expect("echo should parse");
    assert_eq!(command_output(&echo), "hello world");
    let empty = parse_command(&tokens(&["echo"])).expect("echo should parse");
    assert_eq!(command_output(&empty), "");
}

#[test]
fn dummy_group_rejects_unknown_commands() {
    let error = parse_command(&tokens(&["unknown"])).expect_err("command should fail");
    assert!(error.render().contains("unrecognized subcommand"));
}
