use martijn_cli::args::{ParseErrorKind, SaveArguments};
use martijn_cli::azure_cli::{
    parse_command, AzureCommand, InventoryCommand, InventoryGroupsCommand,
    InventoryResourcesCommand, ReportCommand, SnapshotCommand, SnapshotCreateCommand,
};
use martijn_cli::login::LoginArguments;

fn tokens(words: &[&str]) -> Vec<String> {
    words.iter().map(|w| String::from(*w)).collect()
}

#[test]
fn cli_parses_login_with_one_tenant() {
    let parsed_command = parse_command(&tokens(&["login", "my-tenant-id"])).expect("command should parse");
    assert!(matches!(
        parsed_command,
        AzureCommand::Login(LoginArguments {
            tenant: Some(tenant),
            service_principal: false,
            client_id: None,
            client_secret: None,
        }) if tenant == "my-tenant-id"
    ));
}

#[test]
fn cli_parses_bare_login_without_arguments() {
    let parsed_command = parse_command(&tokens(&["login"])).expect("command should parse");
    assert!(matches!(
        parsed_command,
        AzureCommand::Login(LoginArguments {
            tenant: None,
            service_principal: false,
            client_id: None,
            client_secret: None,
        })
    ));
}

#[test]
fn cli_parses_service_principal_login_with_flags() {
    let parsed_command = parse_command(&tokens(&[
        "login",
        "--service-principal",
        "--client-id",
        "client-id",
        "--client-secret",
        "secret-value",
        "tenant-id",
    ]))
    .expect("command should parse");
    assert!(matches!(
        parsed_command,
        AzureCommand::Login(LoginArguments {
            tenant: Some(tenant),
            service_principal: true,
            client_id: Some(client_id),
            client_secret: Some(client_secret),
        }) if tenant == "tenant-id" && client_id == "client-id" && client_secret == "secret-value"
    ));
}

#[test]
fn cli_rejects_service_principal_fields_without_service_principal_flag() {
    let error = parse_command(&tokens(&["login", "--client-id", "client-id"])).expect_err("command should fail");
    let rendered_error = error.render();
    assert!(rendered_error.contains("--service-principal"));
}

#[test]
fn cli_rejects_login_with_extra_arguments() {
    let error = parse_command(&tokens(&["login", "tenant-one", "tenant-two"])).expect_err("command should fail");
    let rendered_error = error.render();
    assert!(rendered_error.contains("unexpected argument"));
}

#[test]
fn cli_login_help_is_reported_as_display_help() {
    let error = parse_command(&tokens(&["login", "--help"]))
        .expect_err("help should be returned as a Clap display error");
    assert_eq!(error.kind(), ParseErrorKind::DisplayHelp);
}

#[test]
fn cli_login_help_lists_the_available_login_options() {
    let error = parse_command(&tokens(&["login", "--help"]))
        .expect_err("help should be returned as a Clap display error");
    let rendered_help = error.render();
    assert!(rendered_help.contains("--service-principal"));
    assert!(rendered_help.contains("--client-id"));
    assert!(rendered_help.contains("--client-secret"));
    assert!(rendered_help.contains("[TENANT]"));
}

#[test]
fn parses_inventory_resource_list_without_save() {
    let parsed_command = parse_command(&tokens(&["inventory", "resource", "list"])).expect("command should parse");
    assert!(matches!(
        parsed_command,
        AzureCommand::Inventory(InventoryCommand::Resources(InventoryResourcesCommand::List(
            SaveArguments { snapshot: None, save: None }
        )))
    ));
}

#[test]
fn parses_inventory_resource_list_with_snapshot_name() {
    let parsed_command = parse_command(&tokens(&[
        "inventory",
        "resource",
        "list",
        "--snapshot",
        "20260428-171547-fc400f1b",
    ]))
    .expect("command should parse");
    assert!(matches!(
        parsed_command,
        AzureCommand::Inventory(InventoryCommand::Resources(InventoryResourcesCommand::List(
            SaveArguments { snapshot: Some(snapshot), save: None }
        ))) if snapshot == "20260428-171547-fc400f1b"
    ));
}

#[test]
fn parses_inventory_resource_tree_with_bare_save() {
    let parsed_command =
        parse_command(&tokens(&["inventory", "resource", "tree", "--save"])).expect("command should parse");
    assert!(matches!(
        parsed_command,
        AzureCommand::Inventory(InventoryCommand::Resources(InventoryResourcesCommand::Tree(
            SaveArguments { snapshot: None, save: Some(name) }
        ))) if name.is_empty()
    ));
}

#[test]
fn parses_inventory_resource_tree_with_snapshot_and_save() {
    let parsed_command = parse_command(&tokens(&[
        "inventory",
        "resource",
        "tree",
        "--snapshot",
        "daily-snapshot",
        "--save",
        "daily tree",
    ]))
    .expect("command should parse");
    assert!(matches!(
        parsed_command,
        AzureCommand::Inventory(InventoryCommand::Resources(InventoryResourcesCommand::Tree(
            SaveArguments { snapshot: Some(snapshot), save: Some(name) }
        ))) if snapshot == "daily-snapshot" && name == "daily tree"
    ));
}

#[test]
fn parses_inventory_group_list_with_named_save() {
    let parsed_command = parse_command(&tokens(&["inventory", "group", "list", "--save", "daily report"]))
        .expect("command should parse");
    assert!(matches!(
        parsed_command,
        AzureCommand::Inventory(InventoryCommand::Groups(InventoryGroupsCommand::List(
            SaveArguments { snapshot: None, save: Some(name) }
        ))) if name == "daily report"
    ));
}

#[test]
fn parses_snapshot_create_resource_as_a_real_command() {
    let parsed_command = parse_command(&tokens(&["snapshot", "create", "resource"])).expect("command should parse");
    assert!(matches!(
        parsed_command,
        AzureCommand::Snapshot(SnapshotCommand::Create(SnapshotCreateCommand::Resources))
    ));
}

#[test]
fn parses_snapshot_create_group_as_a_real_command() {
    let parsed_command = parse_command(&tokens(&["snapshot", "create", "group"])).expect("command should parse");
    assert!(matches!(
        parsed_command,
        AzureCommand::Snapshot(SnapshotCommand::Create(SnapshotCreateCommand::Groups))
    ));
}

#[test]
fn parses_snapshot_create_all_as_a_real_command() {
    let parsed_command = parse_command(&tokens(&["snapshot", "create", "all"])).expect("command should parse");
    assert!(matches!(
        parsed_command,
        AzureCommand::Snapshot(SnapshotCommand::Create(SnapshotCreateCommand::All))
    ));
}

#[test]
fn parses_snapshot_list_as_a_real_command() {
    let parsed_command = parse_command(&tokens(&["snapshot", "list"])).expect("command should parse");
    assert!(matches!(parsed_command, AzureCommand::Snapshot(SnapshotCommand::List)));
}

#[test]
fn parses_snapshot_delete_with_name() {
    let parsed_command = parse_command(&tokens(&["snapshot", "delete", "daily"])).expect("command should parse");
    assert!(matches!(
        parsed_command,
        AzureCommand::Snapshot(SnapshotCommand::Delete { name }) if name == "daily"
    ));
}

#[test]
fn parses_report_commands() {
    let list_command = parse_command(&tokens(&["report", "list"])).expect("report list should parse");
    let show_command = parse_command(&tokens(&["report", "show", "daily"])).expect("report show should parse");
    let delete_command =
        parse_command(&tokens(&["report", "delete", "daily"])).expect("report delete should parse");
    assert!(matches!(list_command, AzureCommand::Report(ReportCommand::List)));
    assert!(matches!(
        show_command,
        AzureCommand::Report(ReportCommand::Show { name }) if name == "daily"
    ));
    assert!(matches!(
        delete_command,
        AzureCommand::Report(ReportCommand::Delete { name }) if name == "daily"
    ));
}

#[test]
fn cli_snapshot_without_a_subcommand_shows_snapshot_help() {
    let error = parse_command(&tokens(&["snapshot"])).expect_err("missing subcommand should show help");
    let rendered_error = error.render();
    assert_eq!(error.kind(), ParseErrorKind::DisplayHelpOnMissingArgumentOrSubcommand);
    assert!(rendered_error.contains("Usage: azure snapshot <COMMAND>"));
    assert!(rendered_error.contains("create"));
}

#[test]
fn cli_inventory_without_a_subcommand_shows_inventory_help() {
    let error = parse_command(&tokens(&["inventory"])).expect_err("missing subcommand should show help");
    let rendered_error = error.render();
    assert_eq!(error.kind(), ParseErrorKind::DisplayHelpOnMissingArgumentOrSubcommand);
    assert!(rendered_error.contains("Usage: azure inventory <COMMAND>"));
    assert!(rendered_error.contains("resource"));
    assert!(rendered_error.contains("group"));
}

#[test]
fn rejects_plural_resource_and_group_subcommands() {
    let inventory_resource_error = parse_command(&tokens(&["inventory", "resources", "list"]))
        .expect_err("plural inventory resource command should fail");
    let inventory_group_error = parse_command(&tokens(&["inventory", "groups", "list"]))
        .expect_err("plural inventory group command should fail");
    let snapshot_resource_error = parse_command(&tokens(&["snapshot", "create", "resources"]))
        .expect_err("plural snapshot resource command should fail");
    let snapshot_group_error = parse_command(&tokens(&["snapshot", "create", "groups"]))
        .expect_err("plural snapshot group command should fail");
    assert_eq!(inventory_resource_error.kind(), ParseErrorKind::InvalidSubcommand);
    assert_eq!(inventory_group_error.kind(), ParseErrorKind::InvalidSubcommand);
    assert_eq!(snapshot_resource_error.kind(), ParseErrorKind::InvalidSubcommand);
    assert_eq!(snapshot_group_error.kind(), ParseErrorKind::InvalidSubcommand);
}

#[test]
fn inventory_resource_list_help_is_reported_as_display_help() {
    let error = parse_command(&tokens(&["inventory", "resource", "list", "-h"]))
        .expect_err("help should be returned as a Clap display error");
    assert_eq!(error.kind(), ParseErrorKind::DisplayHelp);
}

#[test]
fn inventory_resource_list_help_describes_resource_listing() {
    let error = parse_command(&tokens(&["inventory", "resource", "list", "-h"]))
        .expect_err("help should be returned as a Clap display error");
    let rendered_help = error.render();
    assert!(rendered_help.contains("Print Azure resources as a compact list"));
}

#[test]
fn option_values_may_follow_an_equals_sign() {
    let parsed_command = parse_command(&tokens(&[
        "login",
        "--service-principal",
        "--client-id=abc",
        "--client-secret=def",
    ]))
    .expect("command should parse");
    assert!(matches!(
        parsed_command,
        AzureCommand::Login(LoginArguments {
            tenant: None,
            service_principal: true,
            client_id: Some(client_id),
            client_secret: Some(client_secret),
        }) if client_id == "abc" && client_secret == "def"
    ));
}

#[test]
fn missing_option_value_is_reported() {
    let error = parse_command(&tokens(&["inventory", "resource", "list", "--snapshot"]))
        .expect_err("missing value should fail");
    assert_eq!(error.kind(), ParseErrorKind::InvalidValue);
    assert_eq!(
        error.render(),
        "error: a value is required for '--snapshot <SNAPSHOT>' but none was supplied"
    );
}

#[test]
fn repeated_option_is_reported() {
    let error = parse_command(&tokens(&["inventory", "group", "list", "--save", "a", "--save", "b"]))
        .expect_err("repeated option should fail");
    assert_eq!(error.kind(), ParseErrorKind::ArgumentConflict);
}

#[test]
fn missing_report_name_is_reported() {
    let error = parse_command(&tokens(&["report", "show"])).expect_err("missing name should fail");
    assert_eq!(error.kind(), ParseErrorKind::MissingRequiredArgument);
    assert!(error.render().contains("<NAME>"));
}

#[test]
fn empty_command_line_requires_a_subcommand() {
    let error = parse_command(&tokens(&[])).expect_err("empty line should fail");
    assert_eq!(error.kind(), ParseErrorKind::MissingSubcommand);
}

#[test]
fn unknown_flag_is_an_unexpected_argument() {
    let error = parse_command(&tokens(&["--verbose"])).expect_err("unknown flag should fail");
    assert_eq!(error.kind(), ParseErrorKind::UnknownArgument);
    assert_eq!(error.render(), "error: unexpected argument '--verbose' found");
}
