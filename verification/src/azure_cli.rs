use vstd::prelude::*;

use crate::args::{
    check_no_more_arguments, error_view, help_error, help_error_of, is_flag, is_flag_token, is_help,
    is_help_token, login_parse, login_view, missing_subcommand, missing_subcommand_help,
    missing_subcommand_help_of, missing_subcommand_of, name_scan, no_more_arguments,
    parse_login_arguments, parse_required_name, parse_save_arguments, save_parse, save_view,
    token_views, unexpected_argument, unexpected_argument_of, unrecognized_subcommand,
    unrecognized_subcommand_of, LoginModel, ParseError, ParseErrorModel, SaveArguments, SaveModel,
};
use crate::login::LoginArguments;
use crate::text::text_equal;

verus! {

// ---------------------------------------------------------------------------
// Commands
// ---------------------------------------------------------------------------

/// The commands of `martijn azure`.
#[derive(Debug)]
pub enum AzureCommand {
    /// Login to Azure CLI as a user or service principal.
    Login(LoginArguments),
    /// Logout from Azure CLI and clear the cached account information.
    Logout,
    /// Show the current Azure login state.
    Status,
    /// Show Azure inventory data and optionally save Markdown reports.
    Inventory(InventoryCommand),
    /// Create, list, and delete JSON snapshots.
    Snapshot(SnapshotCommand),
    /// List, show, and delete saved inventory reports.
    Report(ReportCommand),
}

/// The commands under `inventory`.
#[derive(Debug)]
pub enum InventoryCommand {
    /// `resource`: work with Azure resource inventory.
    Resources(InventoryResourcesCommand),
    /// `group`: work with Azure resource-group inventory.
    Groups(InventoryGroupsCommand),
}

/// The commands under `inventory resource`.
#[derive(Debug)]
pub enum InventoryResourcesCommand {
    /// Print Azure resources as a compact list.
    List(SaveArguments),
    /// Print Azure resources grouped as a tree.
    Tree(SaveArguments),
}

/// The commands under `inventory group`.
#[derive(Debug)]
pub enum InventoryGroupsCommand {
    /// Print Azure resource groups as a compact list.
    List(SaveArguments),
}

/// The commands under `snapshot`.
#[derive(Debug)]
pub enum SnapshotCommand {
    /// Create a new JSON snapshot.
    Create(SnapshotCreateCommand),
    /// List saved Azure snapshots.
    List,
    /// Delete one saved Azure snapshot by file name or stem.
    Delete { name: String },
}

/// The commands under `snapshot create`.
#[derive(Clone, Copy, PartialEq, Eq, Structural, Debug)]
pub enum SnapshotCreateCommand {
    /// `resource`: create a resource snapshot.
    Resources,
    /// `group`: create a resource-group snapshot.
    Groups,
    /// Create both snapshots.
    All,
}

/// The commands under `report`.
#[derive(Debug)]
pub enum ReportCommand {
    /// List saved Azure inventory reports.
    List,
    /// Print one saved Azure inventory report.
    Show { name: String },
    /// Delete one saved Azure inventory report.
    Delete { name: String },
}

/// The model of an Azure command, one variant per leaf command.
pub enum AzureCommandModel {
    Login(LoginModel),
    Logout,
    Status,
    InventoryResourceList(SaveModel),
    InventoryResourceTree(SaveModel),
    InventoryGroupList(SaveModel),
    SnapshotCreate(SnapshotCreateCommand),
    SnapshotList,
    SnapshotDelete(Seq<char>),
    ReportList,
    ReportShow(Seq<char>),
    ReportDelete(Seq<char>),
}

pub open spec fn command_view(c: AzureCommand) -> AzureCommandModel {
    match c {
        AzureCommand::Login(a) => AzureCommandModel::Login(login_view(a)),
        AzureCommand::Logout => AzureCommandModel::Logout,
        AzureCommand::Status => AzureCommandModel::Status,
        AzureCommand::Inventory(InventoryCommand::Resources(InventoryResourcesCommand::List(a))) =>
            AzureCommandModel::InventoryResourceList(save_view(a)),
        AzureCommand::Inventory(InventoryCommand::Resources(InventoryResourcesCommand::Tree(a))) =>
            AzureCommandModel::InventoryResourceTree(save_view(a)),
        AzureCommand::Inventory(InventoryCommand::Groups(InventoryGroupsCommand::List(a))) =>
            AzureCommandModel::InventoryGroupList(save_view(a)),
        AzureCommand::Snapshot(SnapshotCommand::Create(k)) => AzureCommandModel::SnapshotCreate(k),
        AzureCommand::Snapshot(SnapshotCommand::List) => AzureCommandModel::SnapshotList,
        AzureCommand::Snapshot(SnapshotCommand::Delete { name }) => AzureCommandModel::SnapshotDelete(
            name@,
        ),
        AzureCommand::Report(ReportCommand::List) => AzureCommandModel::ReportList,
        AzureCommand::Report(ReportCommand::Show { name }) => AzureCommandModel::ReportShow(name@),
        AzureCommand::Report(ReportCommand::Delete { name }) => AzureCommandModel::ReportDelete(
            name@,
        ),
    }
}

pub open spec fn outcome_view(r: Result<AzureCommand, ParseError>) -> Result<
    AzureCommandModel,
    ParseErrorModel,
> {
    match r {
        Ok(c) => Ok(command_view(c)),
        Err(e) => Err(error_view(e)),
    }
}

// ---------------------------------------------------------------------------
// Help texts
// ---------------------------------------------------------------------------

pub const AZURE_HELP: &'static str = "Usage: azure <COMMAND>\n\nCommands:\n  login      Login to Azure CLI as a user or service principal\n  logout     Logout from Azure CLI and clear the cached account information\n  status     Show the current Azure login state\n  inventory  Show Azure inventory data and optionally save Markdown reports\n  snapshot   Create, list, and delete JSON snapshots\n  report     List, show, and delete saved inventory reports\n\nOptions:\n  -h, --help  Print help\n";

pub const LOGIN_HELP: &'static str = "Login to Azure CLI as a user or service principal\n\nUsage: azure login [OPTIONS] [TENANT]\n\nArguments:\n  [TENANT]\n\nOptions:\n      --service-principal\n      --client-id <CLIENT_ID>\n      --client-secret <CLIENT_SECRET>\n  -h, --help                           Print help\n";

pub const LOGOUT_HELP: &'static str = "Logout from Azure CLI and clear the cached account information\n\nUsage: azure logout\n\nOptions:\n  -h, --help  Print help\n";

pub const STATUS_HELP: &'static str = "Show the current Azure login state\n\nUsage: azure status\n\nOptions:\n  -h, --help  Print help\n";

pub const INVENTORY_HELP: &'static str = "Show Azure inventory data and optionally save Markdown reports\n\nUsage: azure inventory <COMMAND>\n\nCommands:\n  resource  Work with Azure resource inventory\n  group     Work with Azure resource-group inventory\n\nOptions:\n  -h, --help  Print help\n";

pub const INVENTORY_RESOURCE_HELP: &'static str = "Work with Azure resource inventory\n\nUsage: azure inventory resource <COMMAND>\n\nCommands:\n  list  Print Azure resources as a compact list\n  tree  Print Azure resources grouped as a tree\n\nOptions:\n  -h, --help  Print help\n";

pub const INVENTORY_GROUP_HELP: &'static str = "Work with Azure resource-group inventory\n\nUsage: azure inventory group <COMMAND>\n\nCommands:\n  list  Print Azure resource groups as a compact list\n\nOptions:\n  -h, --help  Print help\n";

pub const RESOURCE_LIST_HELP: &'static str = "Print Azure resources as a compact list\n\nUsage: azure inventory resource list [OPTIONS]\n\nOptions:\n      --snapshot <SNAPSHOT>\n      --save [<SAVE>]\n  -h, --help                 Print help\n";

pub const RESOURCE_TREE_HELP: &'static str = "Print Azure resources grouped as a tree\n\nUsage: azure inventory resource tree [OPTIONS]\n\nOptions:\n      --snapshot <SNAPSHOT>\n      --save [<SAVE>]\n  -h, --help                 Print help\n";

pub const GROUP_LIST_HELP: &'static str = "Print Azure resource groups as a compact list\n\nUsage: azure inventory group list [OPTIONS]\n\nOptions:\n      --snapshot <SNAPSHOT>\n      --save [<SAVE>]\n  -h, --help                 Print help\n";

pub const SNAPSHOT_HELP: &'static str = "Create, list, and delete JSON snapshots\n\nUsage: azure snapshot <COMMAND>\n\nCommands:\n  create  Create a new JSON snapshot\n  list    List saved Azure snapshots\n  delete  Delete one saved Azure snapshot by file name or stem\n\nOptions:\n  -h, --help  Print help\n";

pub const SNAPSHOT_CREATE_HELP: &'static str = "Create a new JSON snapshot\n\nUsage: azure snapshot create <COMMAND>\n\nCommands:\n  resource  Create a resource snapshot\n  group     Create a resource-group snapshot\n  all       Create both resource and resource-group snapshots\n\nOptions:\n  -h, --help  Print help\n";

pub const SNAPSHOT_CREATE_RESOURCE_HELP: &'static str = "Create a resource snapshot\n\nUsage: azure snapshot create resource\n\nOptions:\n  -h, --help  Print help\n";

pub const SNAPSHOT_CREATE_GROUP_HELP: &'static str = "Create a resource-group snapshot\n\nUsage: azure snapshot create group\n\nOptions:\n  -h, --help  Print help\n";

pub const SNAPSHOT_CREATE_ALL_HELP: &'static str = "Create both resource and resource-group snapshots\n\nUsage: azure snapshot create all\n\nOptions:\n  -h, --help  Print help\n";

pub const SNAPSHOT_LIST_HELP: &'static str = "List saved Azure snapshots\n\nUsage: azure snapshot list\n\nOptions:\n  -h, --help  Print help\n";

pub const SNAPSHOT_DELETE_HELP: &'static str = "Delete one saved Azure snapshot by file name or stem\n\nUsage: azure snapshot delete <NAME>\n\nArguments:\n  <NAME>\n\nOptions:\n  -h, --help  Print help\n";

pub const REPORT_HELP: &'static str = "List, show, and delete saved inventory reports\n\nUsage: azure report <COMMAND>\n\nCommands:\n  list    List saved Azure inventory reports\n  show    Print one saved Azure inventory report\n  delete  Delete one saved Azure inventory report\n\nOptions:\n  -h, --help  Print help\n";

pub const REPORT_LIST_HELP: &'static str = "List saved Azure inventory reports\n\nUsage: azure report list\n\nOptions:\n  -h, --help  Print help\n";

pub const REPORT_SHOW_HELP: &'static str = "Print one saved Azure inventory report\n\nUsage: azure report show <NAME>\n\nArguments:\n  <NAME>\n\nOptions:\n  -h, --help  Print help\n";

pub const REPORT_DELETE_HELP: &'static str = "Delete one saved Azure inventory report\n\nUsage: azure report delete <NAME>\n\nArguments:\n  <NAME>\n\nOptions:\n  -h, --help  Print help\n";

// ---------------------------------------------------------------------------
// Grammar
// ---------------------------------------------------------------------------

/// A word where a subcommand was expected: a flag is an unexpected
/// argument, anything else an unrecognized subcommand.
pub open spec fn unknown_word(t: Seq<char>) -> ParseErrorModel {
    if is_flag(t) {
        unexpected_argument(t)
    } else {
        unrecognized_subcommand(t)
    }
}

/// A leaf command that takes no arguments.
pub open spec fn leaf(ts: Seq<Seq<char>>, i: int, help: Seq<char>, c: AzureCommandModel) -> Result<
    AzureCommandModel,
    ParseErrorModel,
> {
    match no_more_arguments(ts, i, true, help) {
        Some(e) => Err(e),
        None => Ok(c),
    }
}

/// The start of a command group at `i`: its help when no subcommand
/// follows or help is asked for.
pub open spec fn group_start(ts: Seq<Seq<char>>, i: int, help: Seq<char>) -> Option<ParseErrorModel> {
    if i >= ts.len() {
        Some(missing_subcommand_help(help))
    } else if is_help(ts[i]) {
        Some(help_error(help))
    } else {
        None
    }
}

pub open spec fn with_save(
    r: Result<SaveModel, ParseErrorModel>,
    list: bool,
    tree: bool,
) -> Result<AzureCommandModel, ParseErrorModel> {
    match r {
        Ok(a) => Ok(
            if tree {
                AzureCommandModel::InventoryResourceTree(a)
            } else if list {
                AzureCommandModel::InventoryResourceList(a)
            } else {
                AzureCommandModel::InventoryGroupList(a)
            },
        ),
        Err(e) => Err(e),
    }
}

pub open spec fn inventory_parse(ts: Seq<Seq<char>>) -> Result<AzureCommandModel, ParseErrorModel> {
    match group_start(ts, 1, INVENTORY_HELP@) {
        Some(e) => Err(e),
        None => if ts[1] == "resource"@ {
            match group_start(ts, 2, INVENTORY_RESOURCE_HELP@) {
                Some(e) => Err(e),
                None => if ts[2] == "list"@ {
                    with_save(save_parse(ts, 3, RESOURCE_LIST_HELP@), true, false)
                } else if ts[2] == "tree"@ {
                    with_save(save_parse(ts, 3, RESOURCE_TREE_HELP@), false, true)
                } else {
                    Err(unknown_word(ts[2]))
                },
            }
        } else if ts[1] == "group"@ {
            match group_start(ts, 2, INVENTORY_GROUP_HELP@) {
                Some(e) => Err(e),
                None => if ts[2] == "list"@ {
                    with_save(save_parse(ts, 3, GROUP_LIST_HELP@), false, false)
                } else {
                    Err(unknown_word(ts[2]))
                },
            }
        } else {
            Err(unknown_word(ts[1]))
        },
    }
}

pub open spec fn with_name(r: Result<Seq<char>, ParseErrorModel>, snapshot: bool, show: bool) -> Result<
    AzureCommandModel,
    ParseErrorModel,
> {
    match r {
        Ok(n) => Ok(
            if snapshot {
                AzureCommandModel::SnapshotDelete(n)
            } else if show {
                AzureCommandModel::ReportShow(n)
            } else {
                AzureCommandModel::ReportDelete(n)
            },
        ),
        Err(e) => Err(e),
    }
}

pub open spec fn snapshot_parse(ts: Seq<Seq<char>>) -> Result<AzureCommandModel, ParseErrorModel> {
    match group_start(ts, 1, SNAPSHOT_HELP@) {
        Some(e) => Err(e),
        None => if ts[1] == "create"@ {
            match group_start(ts, 2, SNAPSHOT_CREATE_HELP@) {
                Some(e) => Err(e),
                None => if ts[2] == "resource"@ {
                    leaf(
                        ts,
                        3,
                        SNAPSHOT_CREATE_RESOURCE_HELP@,
                        AzureCommandModel::SnapshotCreate(SnapshotCreateCommand::Resources),
                    )
                } else if ts[2] == "group"@ {
                    leaf(
                        ts,
                        3,
                        SNAPSHOT_CREATE_GROUP_HELP@,
                        AzureCommandModel::SnapshotCreate(SnapshotCreateCommand::Groups),
                    )
                } else if ts[2] == "all"@ {
                    leaf(
                        ts,
                        3,
                        SNAPSHOT_CREATE_ALL_HELP@,
                        AzureCommandModel::SnapshotCreate(SnapshotCreateCommand::All),
                    )
                } else {
                    Err(unknown_word(ts[2]))
                },
            }
        } else if ts[1] == "list"@ {
            leaf(ts, 2, SNAPSHOT_LIST_HELP@, AzureCommandModel::SnapshotList)
        } else if ts[1] == "delete"@ {
            with_name(name_scan(ts, 2, None, SNAPSHOT_DELETE_HELP@), true, false)
        } else {
            Err(unknown_word(ts[1]))
        },
    }
}

pub open spec fn report_parse(ts: Seq<Seq<char>>) -> Result<AzureCommandModel, ParseErrorModel> {
    match group_start(ts, 1, REPORT_HELP@) {
        Some(e) => Err(e),
        None => if ts[1] == "list"@ {
            leaf(ts, 2, REPORT_LIST_HELP@, AzureCommandModel::ReportList)
        } else if ts[1] == "show"@ {
            with_name(name_scan(ts, 2, None, REPORT_SHOW_HELP@), false, true)
        } else if ts[1] == "delete"@ {
            with_name(name_scan(ts, 2, None, REPORT_DELETE_HELP@), false, false)
        } else {
            Err(unknown_word(ts[1]))
        },
    }
}

/// The command of `azure` tokens (the words after `azure`), or why they do
/// not form one.
pub open spec fn azure_parse(ts: Seq<Seq<char>>) -> Result<AzureCommandModel, ParseErrorModel> {
    if ts.len() == 0 {
        Err(missing_subcommand("azure"@))
    } else if is_help(ts[0]) {
        Err(help_error(AZURE_HELP@))
    } else if ts[0] == "login"@ {
        match login_parse(ts, 1, true, LOGIN_HELP@) {
            Ok(m) => Ok(AzureCommandModel::Login(m)),
            Err(e) => Err(e),
        }
    } else if ts[0] == "logout"@ {
        leaf(ts, 1, LOGOUT_HELP@, AzureCommandModel::Logout)
    } else if ts[0] == "status"@ {
        leaf(ts, 1, STATUS_HELP@, AzureCommandModel::Status)
    } else if ts[0] == "inventory"@ {
        inventory_parse(ts)
    } else if ts[0] == "snapshot"@ {
        snapshot_parse(ts)
    } else if ts[0] == "report"@ {
        report_parse(ts)
    } else {
        Err(unknown_word(ts[0]))
    }
}

// ---------------------------------------------------------------------------
// Parser
// ---------------------------------------------------------------------------

fn unknown_word_of(t: &str) -> (r: ParseError)
    ensures
        error_view(r) == unknown_word(t@),
{
    if is_flag_token(t) {
        unexpected_argument_of(t)
    } else {
        unrecognized_subcommand_of(t)
    }
}

fn check_group_start(tokens: &Vec<String>, i: usize, help: &str) -> (r: Option<ParseError>)
    ensures
        match r {
            Some(e) => group_start(token_views(tokens@), i as int, help@) == Some(error_view(e)),
            None => group_start(token_views(tokens@), i as int, help@) is None && i < tokens.len(),
        },
{
    if i >= tokens.len() {
        Some(missing_subcommand_help_of(help))
    } else if is_help_token(tokens[i].as_str()) {
        Some(help_error_of(help))
    } else {
        None
    }
}

fn parse_leaf(tokens: &Vec<String>, i: usize, help: &str, c: AzureCommand) -> (r: Result<
    AzureCommand,
    ParseError,
>)
    ensures
        outcome_view(r) == leaf(token_views(tokens@), i as int, help@, command_view(c)),
{
    match check_no_more_arguments(tokens, i, true, help) {
        Some(e) => Err(e),
        None => Ok(c),
    }
}

fn parse_inventory(tokens: &Vec<String>) -> (r: Result<AzureCommand, ParseError>)
    requires
        tokens.len() >= 1,
    ensures
        outcome_view(r) == inventory_parse(token_views(tokens@)),
{
    if let Some(e) = check_group_start(tokens, 1, INVENTORY_HELP) {
        return Err(e);
    }
    let word = tokens[1].as_str();
    if text_equal(word, "resource") {
        if let Some(e) = check_group_start(tokens, 2, INVENTORY_RESOURCE_HELP) {
            return Err(e);
        }
        let leaf_word = tokens[2].as_str();
        if text_equal(leaf_word, "list") {
            match parse_save_arguments(tokens, 3, RESOURCE_LIST_HELP) {
                Ok(a) => Ok(AzureCommand::Inventory(InventoryCommand::Resources(InventoryResourcesCommand::List(a)))),
                Err(e) => Err(e),
            }
        } else if text_equal(leaf_word, "tree") {
            match parse_save_arguments(tokens, 3, RESOURCE_TREE_HELP) {
                Ok(a) => Ok(AzureCommand::Inventory(InventoryCommand::Resources(InventoryResourcesCommand::Tree(a)))),
                Err(e) => Err(e),
            }
        } else {
            Err(unknown_word_of(leaf_word))
        }
    } else if text_equal(word, "group") {
        if let Some(e) = check_group_start(tokens, 2, INVENTORY_GROUP_HELP) {
            return Err(e);
        }
        let leaf_word = tokens[2].as_str();
        if text_equal(leaf_word, "list") {
            match parse_save_arguments(tokens, 3, GROUP_LIST_HELP) {
                Ok(a) => Ok(AzureCommand::Inventory(InventoryCommand::Groups(InventoryGroupsCommand::List(a)))),
                Err(e) => Err(e),
            }
        } else {
            Err(unknown_word_of(leaf_word))
        }
    } else {
        Err(unknown_word_of(word))
    }
}

fn parse_snapshot(tokens: &Vec<String>) -> (r: Result<AzureCommand, ParseError>)
    requires
        tokens.len() >= 1,
    ensures
        outcome_view(r) == snapshot_parse(token_views(tokens@)),
{
    if let Some(e) = check_group_start(tokens, 1, SNAPSHOT_HELP) {
        return Err(e);
    }
    let word = tokens[1].as_str();
    if text_equal(word, "create") {
        if let Some(e) = check_group_start(tokens, 2, SNAPSHOT_CREATE_HELP) {
            return Err(e);
        }
        let leaf_word = tokens[2].as_str();
        if text_equal(leaf_word, "resource") {
            parse_leaf(
                tokens,
                3,
                SNAPSHOT_CREATE_RESOURCE_HELP,
                AzureCommand::Snapshot(SnapshotCommand::Create(SnapshotCreateCommand::Resources)),
            )
        } else if text_equal(leaf_word, "group") {
            parse_leaf(
                tokens,
                3,
                SNAPSHOT_CREATE_GROUP_HELP,
                AzureCommand::Snapshot(SnapshotCommand::Create(SnapshotCreateCommand::Groups)),
            )
        } else if text_equal(leaf_word, "all") {
            parse_leaf(
                tokens,
                3,
                SNAPSHOT_CREATE_ALL_HELP,
                AzureCommand::Snapshot(SnapshotCommand::Create(SnapshotCreateCommand::All)),
            )
        } else {
            Err(unknown_word_of(leaf_word))
        }
    } else if text_equal(word, "list") {
        parse_leaf(tokens, 2, SNAPSHOT_LIST_HELP, AzureCommand::Snapshot(SnapshotCommand::List))
    } else if text_equal(word, "delete") {
        match parse_required_name(tokens, 2, SNAPSHOT_DELETE_HELP) {
            Ok(name) => Ok(AzureCommand::Snapshot(SnapshotCommand::Delete { name })),
            Err(e) => Err(e),
        }
    } else {
        Err(unknown_word_of(word))
    }
}

fn parse_report(tokens: &Vec<String>) -> (r: Result<AzureCommand, ParseError>)
    requires
        tokens.len() >= 1,
    ensures
        outcome_view(r) == report_parse(token_views(tokens@)),
{
    if let Some(e) = check_group_start(tokens, 1, REPORT_HELP) {
        return Err(e);
    }
    let word = tokens[1].as_str();
    if text_equal(word, "list") {
        parse_leaf(tokens, 2, REPORT_LIST_HELP, AzureCommand::Report(ReportCommand::List))
    } else if text_equal(word, "show") {
        match parse_required_name(tokens, 2, REPORT_SHOW_HELP) {
            Ok(name) => Ok(AzureCommand::Report(ReportCommand::Show { name })),
            Err(e) => Err(e),
        }
    } else if text_equal(word, "delete") {
        match parse_required_name(tokens, 2, REPORT_DELETE_HELP) {
            Ok(name) => Ok(AzureCommand::Report(ReportCommand::Delete { name })),
            Err(e) => Err(e),
        }
    } else {
        Err(unknown_word_of(word))
    }
}

/// Parses the words after `azure` into one command.
pub fn parse_command(tokens: &Vec<String>) -> (r: Result<AzureCommand, ParseError>)
    ensures
        outcome_view(r) == azure_parse(token_views(tokens@)),
{
    if tokens.len() == 0 {
        return Err(missing_subcommand_of("azure"));
    }
    let word = tokens[0].as_str();
    if is_help_token(word) {
        Err(help_error_of(AZURE_HELP))
    } else if text_equal(word, "login") {
        match parse_login_arguments(tokens, 1, true, LOGIN_HELP) {
            Ok(a) => Ok(AzureCommand::Login(a)),
            Err(e) => Err(e),
        }
    } else if text_equal(word, "logout") {
        parse_leaf(tokens, 1, LOGOUT_HELP, AzureCommand::Logout)
    } else if text_equal(word, "status") {
        parse_leaf(tokens, 1, STATUS_HELP, AzureCommand::Status)
    } else if text_equal(word, "inventory") {
        parse_inventory(tokens)
    } else if text_equal(word, "snapshot") {
        parse_snapshot(tokens)
    } else if text_equal(word, "report") {
        parse_report(tokens)
    } else {
        Err(unknown_word_of(word))
    }
}

/// The command words that name a command: `logout`, `inventory resource
/// list`, `snapshot create group`, and so on.
pub open spec fn command_words(c: AzureCommandModel) -> Seq<Seq<char>> {
    match c {
        AzureCommandModel::Login(_) => seq!["login"@],
        AzureCommandModel::Logout => seq!["logout"@],
        AzureCommandModel::Status => seq!["status"@],
        AzureCommandModel::InventoryResourceList(_) => seq!["inventory"@, "resource"@, "list"@],
        AzureCommandModel::InventoryResourceTree(_) => seq!["inventory"@, "resource"@, "tree"@],
        AzureCommandModel::InventoryGroupList(_) => seq!["inventory"@, "group"@, "list"@],
        AzureCommandModel::SnapshotCreate(SnapshotCreateCommand::Resources) => seq![
            "snapshot"@,
            "create"@,
            "resource"@,
        ],
        AzureCommandModel::SnapshotCreate(SnapshotCreateCommand::Groups) => seq![
            "snapshot"@,
            "create"@,
            "group"@,
        ],
        AzureCommandModel::SnapshotCreate(SnapshotCreateCommand::All) => seq![
            "snapshot"@,
            "create"@,
            "all"@,
        ],
        AzureCommandModel::SnapshotList => seq!["snapshot"@, "list"@],
        AzureCommandModel::SnapshotDelete(_) => seq!["snapshot"@, "delete"@],
        AzureCommandModel::ReportList => seq!["report"@, "list"@],
        AzureCommandModel::ReportShow(_) => seq!["report"@, "show"@],
        AzureCommandModel::ReportDelete(_) => seq!["report"@, "delete"@],
    }
}

/// Whether a command takes no arguments or options at all.
pub open spec fn takes_nothing(c: AzureCommandModel) -> bool {
    match c {
        AzureCommandModel::Logout | AzureCommandModel::Status | AzureCommandModel::SnapshotCreate(_)
        | AzureCommandModel::SnapshotList | AzureCommandModel::ReportList => true,
        _ => false,
    }
}

/// Every parsed command is the one its words name: the tokens start with
/// exactly the command words of the result (so `logout` never parses as
/// `status`), and the words of a command that takes nothing, given alone,
/// parse to that very command.
pub proof fn law_command_words(ts: Seq<Seq<char>>, c: AzureCommandModel)
    ensures
        azure_parse(ts) matches Ok(p) ==> command_words(p).len() <= ts.len() && ts.take(
            command_words(p).len() as int,
        ) == command_words(p),
        takes_nothing(c) ==> azure_parse(command_words(c)) == Ok::<AzureCommandModel, ParseErrorModel>(c),
{
    reveal_strlit("logout");
    reveal_strlit("status");
    reveal_strlit("login");
    reveal_strlit("inventory");
    reveal_strlit("snapshot");
    reveal_strlit("report");
    reveal_strlit("resource");
    reveal_strlit("group");
    reveal_strlit("list");
    reveal_strlit("tree");
    reveal_strlit("create");
    reveal_strlit("all");
    reveal_strlit("delete");
    reveal_strlit("show");
    reveal_strlit("-h");
    reveal_strlit("--help");
    if let Ok(p) = azure_parse(ts) {
        let w = command_words(p);
        assert(ts.take(w.len() as int) =~= w);
    }
    if takes_nothing(c) {
        let w = command_words(c);
        assert(!is_help(w[0]));
        if w.len() > 1 {
            assert(!is_help(w[1]));
        }
        if w.len() > 2 {
            assert(!is_help(w[2]));
        }
    }
}

} // verus!
