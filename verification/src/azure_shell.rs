use vstd::prelude::*;

use crate::args::{
    check_no_more_arguments, error_view, help_error, help_error_of, is_flag, is_flag_token, is_help,
    is_help_token, login_parse, login_view, missing_subcommand, missing_subcommand_help,
    missing_subcommand_help_of, missing_subcommand_of, no_more_arguments, parse_login_arguments,
    token_views, unexpected_argument, unexpected_argument_of, unrecognized_subcommand,
    unrecognized_subcommand_of, LoginModel, ParseError, ParseErrorModel,
};
use crate::login::LoginArguments;
use crate::text::text_equal;

verus! {

/// The commands of the interactive Azure shell.
#[derive(Debug)]
pub enum AzureCommand {
    /// Login to Azure CLI as a user or service principal.
    Login(LoginArguments),
    /// Logout from Azure CLI and clear the cached account information.
    Logout,
    /// Show the current Azure login state.
    Status,
    /// Generate and list saved Azure inventory reports.
    Inventory(InventoryCommand),
    /// Generate JSON snapshots of Azure resources.
    Snapshot(SnapshotCommand),
    /// Show the Azure shell help message.
    Help,
    /// Close the current shell session (also `quit`).
    Exit,
}

/// The commands under `inventory`.
#[derive(Clone, Copy, PartialEq, Eq, Structural, Debug)]
pub enum InventoryCommand {
    /// Export a new Markdown inventory report.
    Generate,
    /// List saved Azure inventory reports (also `ls`).
    List,
}

/// The commands under `snapshot`.
#[derive(Clone, Copy, PartialEq, Eq, Structural, Debug)]
pub enum SnapshotCommand {
    /// Export a new JSON resource snapshot.
    Generate,
}

/// The model of an Azure shell command.
pub enum AzureShellModel {
    Login(LoginModel),
    Logout,
    Status,
    Inventory(InventoryCommand),
    Snapshot(SnapshotCommand),
    Help,
    Exit,
}

pub open spec fn command_view(c: AzureCommand) -> AzureShellModel {
    match c {
        AzureCommand::Login(a) => AzureShellModel::Login(login_view(a)),
        AzureCommand::Logout => AzureShellModel::Logout,
        AzureCommand::Status => AzureShellModel::Status,
        AzureCommand::Inventory(k) => AzureShellModel::Inventory(k),
        AzureCommand::Snapshot(k) => AzureShellModel::Snapshot(k),
        AzureCommand::Help => AzureShellModel::Help,
        AzureCommand::Exit => AzureShellModel::Exit,
    }
}

pub open spec fn outcome_view(r: Result<AzureCommand, ParseError>) -> Result<
    AzureShellModel,
    ParseErrorModel,
> {
    match r {
        Ok(c) => Ok(command_view(c)),
        Err(e) => Err(error_view(e)),
    }
}

pub const SHELL_HELP: &'static str = "Usage: azure <COMMAND>\n\nCommands:\n  login      Login to Azure CLI as a user or service principal\n  logout     Logout from Azure CLI and clear the cached account information\n  status     Show the current Azure login state\n  inventory  Generate and list saved Azure inventory reports\n  snapshot   Generate JSON snapshots of Azure resources\n  help       Show the Azure shell help message\n  exit       Close the current shell session [aliases: quit]\n\nOptions:\n  -h, --help  Print help\n";

pub const LOGIN_HELP: &'static str = "Login to Azure CLI as a user or service principal\n\nUsage: azure login [OPTIONS] [TENANT]\n\nArguments:\n  [TENANT]\n\nOptions:\n      --service-principal\n      --client-id <CLIENT_ID>\n      --client-secret <CLIENT_SECRET>\n  -h, --help                           Print help\n";

pub const LOGOUT_HELP: &'static str = "Logout from Azure CLI and clear the cached account information\n\nUsage: azure logout\n\nOptions:\n  -h, --help  Print help\n";

pub const STATUS_HELP: &'static str = "Show the current Azure login state\n\nUsage: azure status\n\nOptions:\n  -h, --help  Print help\n";

pub const INVENTORY_HELP: &'static str = "Generate and list saved Azure inventory reports\n\nUsage: azure inventory <COMMAND>\n\nCommands:\n  generate  Export a new Markdown inventory report\n  list      List saved Azure inventory reports [aliases: ls]\n\nOptions:\n  -h, --help  Print help\n";

pub const INVENTORY_GENERATE_HELP: &'static str = "Export a new Markdown inventory report\n\nUsage: azure inventory generate\n\nOptions:\n  -h, --help  Print help\n";

pub const INVENTORY_LIST_HELP: &'static str = "List saved Azure inventory reports\n\nUsage: azure inventory list\n\nOptions:\n  -h, --help  Print help\n";

pub const SNAPSHOT_HELP: &'static str = "Generate JSON snapshots of Azure resources\n\nUsage: azure snapshot <COMMAND>\n\nCommands:\n  generate  Export a new JSON resource snapshot\n\nOptions:\n  -h, --help  Print help\n";

pub const SNAPSHOT_GENERATE_HELP: &'static str = "Export a new JSON resource snapshot\n\nUsage: azure snapshot generate\n\nOptions:\n  -h, --help  Print help\n";

pub const HELP_HELP: &'static str = "Show the Azure shell help message\n\nUsage: azure help\n\nOptions:\n  -h, --help  Print help\n";

pub const EXIT_HELP: &'static str = "Close the current shell session\n\nUsage: azure exit\n\nOptions:\n  -h, --help  Print help\n";

/// A word where a subcommand was expected.
pub open spec fn unknown_word(t: Seq<char>) -> ParseErrorModel {
    if is_flag(t) {
        unexpected_argument(t)
    } else {
        unrecognized_subcommand(t)
    }
}

pub open spec fn leaf(ts: Seq<Seq<char>>, i: int, help: Seq<char>, c: AzureShellModel) -> Result<
    AzureShellModel,
    ParseErrorModel,
> {
    match no_more_arguments(ts, i, true, help) {
        Some(e) => Err(e),
        None => Ok(c),
    }
}

/// The command of one Azure shell line, or why it does not form one.
pub open spec fn shell_parse(ts: Seq<Seq<char>>) -> Result<AzureShellModel, ParseErrorModel> {
    if ts.len() == 0 {
        Err(missing_subcommand("azure"@))
    } else if is_help(ts[0]) {
        Err(help_error(SHELL_HELP@))
    } else if ts[0] == "login"@ {
        match login_parse(ts, 1, true, LOGIN_HELP@) {
            Ok(m) => Ok(AzureShellModel::Login(m)),
            Err(e) => Err(e),
        }
    } else if ts[0] == "logout"@ {
        leaf(ts, 1, LOGOUT_HELP@, AzureShellModel::Logout)
    } else if ts[0] == "status"@ {
        leaf(ts, 1, STATUS_HELP@, AzureShellModel::Status)
    } else if ts[0] == "inventory"@ {
        if ts.len() <= 1 {
            Err(missing_subcommand_help(INVENTORY_HELP@))
        } else if is_help(ts[1]) {
            Err(help_error(INVENTORY_HELP@))
        } else if ts[1] == "generate"@ {
            leaf(ts, 2, INVENTORY_GENERATE_HELP@, AzureShellModel::Inventory(InventoryCommand::Generate))
        } else if ts[1] == "list"@ || ts[1] == "ls"@ {
            leaf(ts, 2, INVENTORY_LIST_HELP@, AzureShellModel::Inventory(InventoryCommand::List))
        } else {
            Err(unknown_word(ts[1]))
        }
    } else if ts[0] == "snapshot"@ {
        if ts.len() <= 1 {
            Err(missing_subcommand_help(SNAPSHOT_HELP@))
        } else if is_help(ts[1]) {
            Err(help_error(SNAPSHOT_HELP@))
        } else if ts[1] == "generate"@ {
            leaf(ts, 2, SNAPSHOT_GENERATE_HELP@, AzureShellModel::Snapshot(SnapshotCommand::Generate))
        } else {
            Err(unknown_word(ts[1]))
        }
    } else if ts[0] == "help"@ {
        leaf(ts, 1, HELP_HELP@, AzureShellModel::Help)
    } else if ts[0] == "exit"@ || ts[0] == "quit"@ {
        leaf(ts, 1, EXIT_HELP@, AzureShellModel::Exit)
    } else {
        Err(unknown_word(ts[0]))
    }
}

fn unknown_word_of(t: &str) -> (r: ParseError)
    ensures
        error_view(r) == unknown_word(t@),
{
    if is_flag_token(t) {
        unexpected_argument_of(t)
    } else {
        unrecognized_subcommand_of(t)
    }
}

fn parse_leaf(tokens: &Vec<String>, i: usize, help: &str, c: AzureCommand) -> (r: Result<
    AzureCommand,
    ParseError,
>)
    ensures
        outcome_view(r) == leaf(token_views(tokens@), i as int, help@, command_view(c)),
{
    match check_no_more_arguments(tokens, i, true, help) {
        Some(e) => Err(e),
        None => Ok(c),
    }
}

/// Parses one tokenized Azure shell line into a command.
pub fn parse_command(tokens: &Vec<String>) -> (r: Result<AzureCommand, ParseError>)
    ensures
        outcome_view(r) == shell_parse(token_views(tokens@)),
{
    if tokens.len() == 0 {
        return Err(missing_subcommand_of("azure"));
    }
    let word = tokens[0].as_str();
    if is_help_token(word) {
        Err(help_error_of(SHELL_HELP))
    } else if text_equal(word, "login") {
        match parse_login_arguments(tokens, 1, true, LOGIN_HELP) {
            Ok(a) => Ok(AzureCommand::Login(a)),
            Err(e) => Err(e),
        }
    } else if text_equal(word, "logout") {
        parse_leaf(tokens, 1, LOGOUT_HELP, AzureCommand::Logout)
    } else if text_equal(word, "status") {
        parse_leaf(tokens, 1, STATUS_HELP, AzureCommand::Status)
    } else if text_equal(word, "inventory") {
        if tokens.len() <= 1 {
            return Err(missing_subcommand_help_of(INVENTORY_HELP));
        }
        let sub = tokens[1].as_str();
        if is_help_token(sub) {
            Err(help_error_of(INVENTORY_HELP))
        } else if text_equal(sub, "generate") {
            parse_leaf(tokens, 2, INVENTORY_GENERATE_HELP, AzureCommand::Inventory(InventoryCommand::Generate))
        } else if text_equal(sub, "list") || text_equal(sub, "ls") {
            parse_leaf(tokens, 2, INVENTORY_LIST_HELP, AzureCommand::Inventory(InventoryCommand::List))
        } else {
            Err(unknown_word_of(sub))
        }
    } else if text_equal(word, "snapshot") {
        if tokens.len() <= 1 {
            return Err(missing_subcommand_help_of(SNAPSHOT_HELP));
        }
        let sub = tokens[1].as_str();
        if is_help_token(sub) {
            Err(help_error_of(SNAPSHOT_HELP))
        } else if text_equal(sub, "generate") {
            parse_leaf(tokens, 2, SNAPSHOT_GENERATE_HELP, AzureCommand::Snapshot(SnapshotCommand::Generate))
        } else {
            Err(unknown_word_of(sub))
        }
    } else if text_equal(word, "help") {
        parse_leaf(tokens, 1, HELP_HELP, AzureCommand::Help)
    } else if text_equal(word, "exit") || text_equal(word, "quit") {
        parse_leaf(tokens, 1, EXIT_HELP, AzureCommand::Exit)
    } else {
        Err(unknown_word_of(word))
    }
}

/// Whether the line `ts` begins with a spelling of command `c`: its name, or
/// one of its aliases (`ls` for `inventory list`, `quit` for `exit`).
pub open spec fn spelled_as(ts: Seq<Seq<char>>, c: AzureShellModel) -> bool {
    match c {
        AzureShellModel::Login(_) => ts.len() >= 1 && ts[0] == "login"@,
        AzureShellModel::Logout => ts.len() >= 1 && ts[0] == "logout"@,
        AzureShellModel::Status => ts.len() >= 1 && ts[0] == "status"@,
        AzureShellModel::Inventory(InventoryCommand::Generate) => ts.len() >= 2 && ts[0]
            == "inventory"@ && ts[1] == "generate"@,
        AzureShellModel::Inventory(InventoryCommand::List) => ts.len() >= 2 && ts[0]
            == "inventory"@ && (ts[1] == "list"@ || ts[1] == "ls"@),
        AzureShellModel::Snapshot(SnapshotCommand::Generate) => ts.len() >= 2 && ts[0]
            == "snapshot"@ && ts[1] == "generate"@,
        AzureShellModel::Help => ts.len() >= 1 && ts[0] == "help"@,
        AzureShellModel::Exit => ts.len() >= 1 && (ts[0] == "exit"@ || ts[0] == "quit"@),
    }
}

/// The listed name of a command that takes no arguments.
pub open spec fn listed_words(c: AzureShellModel) -> Seq<Seq<char>> {
    match c {
        AzureShellModel::Login(_) => seq!["login"@],
        AzureShellModel::Logout => seq!["logout"@],
        AzureShellModel::Status => seq!["status"@],
        AzureShellModel::Inventory(InventoryCommand::Generate) => seq!["inventory"@, "generate"@],
        AzureShellModel::Inventory(InventoryCommand::List) => seq!["inventory"@, "list"@],
        AzureShellModel::Snapshot(SnapshotCommand::Generate) => seq!["snapshot"@, "generate"@],
        AzureShellModel::Help => seq!["help"@],
        AzureShellModel::Exit => seq!["exit"@],
    }
}

/// Every parsed shell command is one that the line spells, and the listed
/// name of each command without arguments, given alone, parses to that
/// command, as do the aliases `inventory ls` and `quit`.
pub proof fn law_shell_command_words(ts: Seq<Seq<char>>, c: AzureShellModel)
    ensures
        shell_parse(ts) matches Ok(p) ==> spelled_as(ts, p),
        !(c is Login) ==> shell_parse(listed_words(c)) == Ok::<AzureShellModel, ParseErrorModel>(c),
        shell_parse(seq!["inventory"@, "ls"@]) == Ok::<AzureShellModel, ParseErrorModel>(
            AzureShellModel::Inventory(InventoryCommand::List),
        ),
        shell_parse(seq!["quit"@]) == Ok::<AzureShellModel, ParseErrorModel>(AzureShellModel::Exit),
{
    reveal_strlit("login");
    reveal_strlit("logout");
    reveal_strlit("status");
    reveal_strlit("inventory");
    reveal_strlit("generate");
    reveal_strlit("list");
    reveal_strlit("ls");
    reveal_strlit("snapshot");
    reveal_strlit("help");
    reveal_strlit("exit");
    reveal_strlit("quit");
    reveal_strlit("-h");
    reveal_strlit("--help");
}

} // verus!
