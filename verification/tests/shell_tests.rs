use martijn_cli::args::ParseErrorKind;
use martijn_cli::azure_shell::{self, InventoryCommand, SnapshotCommand};
use martijn_cli::classic_azure_shell;
use martijn_cli::cli::split_shell_line;
use martijn_cli::dummy_shell::{self, DummyCommand};
use martijn_cli::login::LoginArguments;
use martijn_cli::root_shell::{self, RootCommand};

fn tokens(words: &[&str]) -> Vec<String> {
    words.iter().map(|w| String::from(*w)).collect()
}

// --- Azure shell -----------------------------------------------------------

#[test]
fn commands_parses_login_with_one_tenant() {
    let parsed_command =
        azure_shell::parse_command(&tokens(&["login", "my-tenant-id"])).expect("command should parse");
    assert!(matches!(
        parsed_command,
        azure_shell::AzureCommand::Login(LoginArguments {
            tenant: Some(tenant),
            service_principal: false,
            client_id: None,
            client_secret: None,
        }) if tenant == "my-tenant-id"
    ));
}

#[test]
fn commands_parses_bare_login_without_arguments() {
    let parsed_command = azure_shell::parse_command(&tokens(&["login"])).expect("command should parse");
    assert!(matches!(
        parsed_command,
        azure_shell::AzureCommand::Login(LoginArguments {
            tenant: None,
            service_principal: false,
            client_id: None,
            client_secret: None,
        })
    ));
}

#[test]
fn commands_parses_service_principal_login_with_flags() {
    let parsed_command = azure_shell::parse_command(&tokens(&[
        "login",
        "--service-principal",
        "--client-id",
        "client-id",
        "--client-secret",
        "secret-value",
        "tenant-id",
    ]))
    .expect("command should parse");
    assert!(matches!(
        parsed_command,
        azure_shell::AzureCommand::Login(LoginArguments {
            tenant: Some(tenant),
            service_principal: true,
            client_id: Some(client_id),
            client_secret: Some(client_secret),
        }) if tenant == "tenant-id" && client_id == "client-id" && client_secret == "secret-value"
    ));
}

#[test]
fn commands_rejects_service_principal_fields_without_service_principal_flag() {
    let error = azure_shell::parse_command(&tokens(&["login", "--client-id", "client-id"]))
        .expect_err("command should fail");
    assert!(error.render().contains("--service-principal"));
}

#[test]
fn commands_rejects_login_with_extra_arguments() {
    let error = azure_shell::parse_command(&tokens(&["login", "tenant-one", "tenant-two"]))
        .expect_err("command should fail");
    assert!(error.render().contains("unexpected argument"));
}

#[test]
fn commands_login_help_is_reported_as_display_help() {
    let error = azure_shell::parse_command(&tokens(&["login", "--help"]))
        .expect_err("help should be returned as a Clap display error");
    assert_eq!(error.kind(), ParseErrorKind::DisplayHelp);
}

#[test]
fn commands_login_help_lists_the_available_login_options() {
    let error = azure_shell::parse_command(&tokens(&["login", "--help"]))
        .expect_err("help should be returned as a Clap display error");
    let rendered_help = error.render();
    assert!(rendered_help.contains("--service-principal"));
    assert!(rendered_help.contains("--client-id"));
    assert!(rendered_help.contains("--client-secret"));
    assert!(rendered_help.contains("[TENANT]"));
}

#[test]
fn commands_parses_help_as_a_real_command() {
    let parsed_command = azure_shell::parse_command(&tokens(&["help"])).expect("command should parse");
    assert!(matches!(parsed_command, azure_shell::AzureCommand::Help));
}

#[test]
fn parses_inventory_generate_as_a_real_command() {
    let parsed_command =
        azure_shell::parse_command(&tokens(&["inventory", "generate"])).expect("command should parse");
    assert!(matches!(
        parsed_command,
        azure_shell::AzureCommand::Inventory(InventoryCommand::Generate)
    ));
}

#[test]
fn parses_inventory_list_as_a_real_command() {
    let parsed_command =
        azure_shell::parse_command(&tokens(&["inventory", "list"])).expect("command should parse");
    assert!(matches!(
        parsed_command,
        azure_shell::AzureCommand::Inventory(InventoryCommand::List)
    ));
}

#[test]
fn parses_inventory_ls_as_an_alias_for_list() {
    let parsed_command =
        azure_shell::parse_command(&tokens(&["inventory", "ls"])).expect("command should parse");
    assert!(matches!(
        parsed_command,
        azure_shell::AzureCommand::Inventory(InventoryCommand::List)
    ));
}

#[test]
fn parses_snapshot_generate_as_a_real_command() {
    let parsed_command =
        azure_shell::parse_command(&tokens(&["snapshot", "generate"])).expect("command should parse");
    assert!(matches!(
        parsed_command,
        azure_shell::AzureCommand::Snapshot(SnapshotCommand::Generate)
    ));
}

#[test]
fn commands_snapshot_without_a_subcommand_shows_snapshot_help() {
    let error = azure_shell::parse_command(&tokens(&["snapshot"]))
        .expect_err("missing subcommand should show help");
    let rendered_error = error.render();
    assert_eq!(error.kind(), ParseErrorKind::DisplayHelpOnMissingArgumentOrSubcommand);
    assert!(rendered_error.contains("Usage: azure snapshot <COMMAND>"));
    assert!(rendered_error.contains("generate"));
}

#[test]
fn commands_inventory_without_a_subcommand_shows_inventory_help() {
    let error = azure_shell::parse_command(&tokens(&["inventory"]))
        .expect_err("missing subcommand should show help");
    let rendered_error = error.render();
    assert_eq!(error.kind(), ParseErrorKind::DisplayHelpOnMissingArgumentOrSubcommand);
    assert!(rendered_error.contains("Usage: azure inventory <COMMAND>"));
    assert!(rendered_error.contains("generate"));
    assert!(rendered_error.contains("list"));
}

#[test]
fn inventory_list_help_is_reported_as_display_help() {
    let error = azure_shell::parse_command(&tokens(&["inventory", "list", "--help"]))
        .expect_err("help should be returned as a Clap display error");
    assert_eq!(error.kind(), ParseErrorKind::DisplayHelp);
}

#[test]
fn inventory_list_help_describes_saved_report_listing() {
    let error = azure_shell::parse_command(&tokens(&["inventory", "list", "--help"]))
        .expect_err("help should be returned as a Clap display error");
    assert!(error.render().contains("List saved Azure inventory reports"));
}

#[test]
fn quit_is_an_alias_for_exit() {
    let parsed_command = azure_shell::parse_command(&tokens(&["quit"])).expect("command should parse");
    assert!(matches!(parsed_command, azure_shell::AzureCommand::Exit));
}

// --- Session shell without help flag ------------------------------------------

#[test]
fn azure_parses_login_with_one_tenant() {
    let parsed_command = classic_azure_shell::parse_command(&tokens(&["login", "my-tenant-id"]))
        .expect("command should parse");
    assert!(matches!(
        parsed_command,
        classic_azure_shell::AzureCommand::Login(LoginArguments {
            tenant: Some(tenant),
            service_principal: false,
            client_id: None,
            client_secret: None,
        }) if tenant == "my-tenant-id"
    ));
}

#[test]
fn azure_parses_bare_login_without_arguments() {
    let parsed_command =
        classic_azure_shell::parse_command(&tokens(&["login"])).expect("command should parse");
    assert!(matches!(
        parsed_command,
        classic_azure_shell::AzureCommand::Login(LoginArguments {
            tenant: None,
            service_principal: false,
            client_id: None,
            client_secret: None,
        })
    ));
}

#[test]
fn azure_parses_service_principal_login_with_flags() {
    let parsed_command = classic_azure_shell::parse_command(&tokens(&[
        "login",
        "--service-principal",
        "--client-id",
        "client-id",
        "--client-secret",
        "secret-value",
        "tenant-id",
    ]))
    .expect("command should parse");
    assert!(matches!(
        parsed_command,
        classic_azure_shell::AzureCommand::Login(LoginArguments {
            tenant: Some(tenant),
            service_principal: true,
            client_id: Some(client_id),
            client_secret: Some(client_secret),
        }) if tenant == "tenant-id" && client_id == "client-id" && client_secret == "secret-value"
    ));
}

#[test]
fn azure_rejects_service_principal_fields_without_service_principal_flag() {
    let error = classic_azure_shell::parse_command(&tokens(&["login", "--client-id", "client-id"]))
        .expect_err("command should fail");
    assert!(error.render().contains("--service-principal"));
}

#[test]
fn azure_rejects_login_with_extra_arguments() {
    let error = classic_azure_shell::parse_command(&tokens(&["login", "tenant-one", "tenant-two"]))
        .expect_err("command should fail");
    assert!(error.render().contains("unexpected argument"));
}

#[test]
fn azure_parses_help_as_a_real_command() {
    let parsed_command =
        classic_azure_shell::parse_command(&tokens(&["help"])).expect("command should parse");
    assert!(matches!(parsed_command, classic_azure_shell::AzureCommand::Help));
}

#[test]
fn parses_inventory_as_a_real_command() {
    let parsed_command =
        classic_azure_shell::parse_command(&tokens(&["inventory"])).expect("command should parse");
    assert!(matches!(parsed_command, classic_azure_shell::AzureCommand::Inventory));
}

#[test]
fn rejects_inventory_with_extra_arguments() {
    let error = classic_azure_shell::parse_command(&tokens(&["inventory", "unexpected"]))
        .expect_err("command should fail");
    assert!(error.render().contains("unexpected argument"));
}

#[test]
fn session_shell_has_no_help_flag() {
    let error = classic_azure_shell::parse_command(&tokens(&["login", "--help"]))
        .expect_err("help flag should be unknown");
    assert_eq!(error.kind(), ParseErrorKind::UnknownArgument);
}

// --- Dummy shell -------------------------------------------------------------

#[test]
fn dummy_parses_ping_as_a_valid_command() {
    let command = dummy_shell::parse_command(&tokens(&["ping"])).expect("command should parse");
    assert!(matches!(command, DummyCommand::Ping));
}

#[test]
fn dummy_keeps_quoted_echo_text_together() {
    let command =
        dummy_shell::parse_command(&tokens(&["echo", "hello world"])).expect("command should parse");
    assert!(matches!(
        command,
        DummyCommand::Echo { text } if text == vec![String::from("hello world")]
    ));
}

#[test]
fn dummy_keeps_multiple_unquoted_echo_arguments() {
    let command =
        dummy_shell::parse_command(&tokens(&["echo", "hello", "world"])).expect("command should parse");
    assert!(matches!(
        command,
        DummyCommand::Echo { text } if text == vec![String::from("hello"), String::from("world")]
    ));
}

#[test]
fn dummy_rejects_unknown_commands() {
    let error = dummy_shell::parse_command(&tokens(&["unknown"])).expect_err("command should fail");
    assert!(error.render().contains("unrecognized subcommand"));
}

// --- Root shell --------------------------------------------------------------

#[test]
fn parses_the_azure_subcommand() {
    let command = root_shell::parse_command(&tokens(&["azure"])).expect("command should parse");
    assert!(matches!(command, RootCommand::Azure));
}

#[test]
fn rejects_unknown_subcommands() {
    let error = root_shell::parse_command(&tokens(&["unknown"])).expect_err("command should fail");
    assert!(error.render().contains("unrecognized subcommand"));
}

#[test]
fn root_parses_help_as_a_real_command() {
    let command = root_shell::parse_command(&tokens(&["help"])).expect("command should parse");
    assert!(matches!(command, RootCommand::Help));
}

// --- Shell lines -------------------------------------------------------------

#[test]
fn shell_line_keeps_quoted_words_together() {
    assert_eq!(
        split_shell_line("  echo \"hello world\"  'a b'c  "),
        vec![String::from("echo"), String::from("hello world"), String::from("a bc")]
    );
    assert_eq!(split_shell_line("   "), Vec::<String>::new());
    assert_eq!(split_shell_line("echo \"\""), vec![String::from("echo"), String::new()]);
}
