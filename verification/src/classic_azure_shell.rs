use vstd::prelude::*;

use crate::args::{
    check_no_more_arguments, error_view, is_flag, is_flag_token, login_parse, login_view,
    missing_subcommand, missing_subcommand_of, no_more_arguments, parse_login_arguments,
    token_views, unexpected_argument, unexpected_argument_of, unrecognized_subcommand,
    unrecognized_subcommand_of, LoginModel, ParseError, ParseErrorModel,
};
use crate::login::LoginArguments;
use crate::text::text_equal;

verus! {

/// The commands of the single-level Azure session shell, which has no help
/// flag: `help` is a command of its own.
#[derive(Debug)]
pub enum AzureCommand {
    Login(LoginArguments),
    Logout,
    Status,
    /// Generate one Markdown inventory report.
    Inventory,
    Help,
    /// Also `quit`.
    Exit,
}

/// The model of a session shell command.
pub enum ClassicShellModel {
    Login(LoginModel),
    Logout,
    Status,
    Inventory,
    Help,
    Exit,
}

pub open spec fn command_view(c: AzureCommand) -> ClassicShellModel {
    match c {
        AzureCommand::Login(a) => ClassicShellModel::Login(login_view(a)),
        AzureCommand::Logout => ClassicShellModel::Logout,
        AzureCommand::Status => ClassicShellModel::Status,
        AzureCommand::Inventory => ClassicShellModel::Inventory,
        AzureCommand::Help => ClassicShellModel::Help,
        AzureCommand::Exit => ClassicShellModel::Exit,
    }
}

pub open spec fn outcome_view(r: Result<AzureCommand, ParseError>) -> Result<
    ClassicShellModel,
    ParseErrorModel,
> {
    match r {
        Ok(c) => Ok(command_view(c)),
        Err(e) => Err(error_view(e)),
    }
}

pub open spec fn leaf(ts: Seq<Seq<char>>, c: ClassicShellModel) -> Result<ClassicShellModel, ParseErrorModel> {
    match no_more_arguments(ts, 1, false, Seq::empty()) {
        Some(e) => Err(e),
        None => Ok(c),
    }
}

/// The command of one session shell line, or why it does not form one.
pub open spec fn shell_parse(ts: Seq<Seq<char>>) -> Result<ClassicShellModel, ParseErrorModel> {
    if ts.len() == 0 {
        Err(missing_subcommand("azure"@))
    } else if ts[0] == "login"@ {
        match login_parse(ts, 1, false, Seq::empty()) {
            Ok(m) => Ok(ClassicShellModel::Login(m)),
            Err(e) => Err(e),
        }
    } else if ts[0] == "logout"@ {
        leaf(ts, ClassicShellModel::Logout)
    } else if ts[0] == "status"@ {
        leaf(ts, ClassicShellModel::Status)
    } else if ts[0] == "inventory"@ {
        leaf(ts, ClassicShellModel::Inventory)
    } else if ts[0] == "help"@ {
        leaf(ts, ClassicShellModel::Help)
    } else if ts[0] == "exit"@ || ts[0] == "quit"@ {
        leaf(ts, ClassicShellModel::Exit)
    } else if is_flag(ts[0]) {
        Err(unexpected_argument(ts[0]))
    } else {
        Err(unrecognized_subcommand(ts[0]))
    }
}

fn parse_leaf(tokens: &Vec<String>, c: AzureCommand) -> (r: Result<AzureCommand, ParseError>)
    ensures
        outcome_view(r) == leaf(token_views(tokens@), command_view(c)),
{
    match check_no_more_arguments(tokens, 1, false, "") {
        Some(e) => Err(e),
        None => Ok(c),
    }
}

/// Parses one tokenized session shell line into a command.
pub fn parse_command(tokens: &Vec<String>) -> (r: Result<AzureCommand, ParseError>)
    ensures
        outcome_view(r) == shell_parse(token_views(tokens@)),
{
    proof {
        reveal_strlit("");
        assert(""@ =~= Seq::<char>::empty());
    }
    if tokens.len() == 0 {
        return Err(missing_subcommand_of("azure"));
    }
    let word = tokens[0].as_str();
    if text_equal(word, "login") {
        match parse_login_arguments(tokens, 1, false, "") {
            Ok(a) => Ok(AzureCommand::Login(a)),
            Err(e) => Err(e),
        }
    } else if text_equal(word, "logout") {
        parse_leaf(tokens, AzureCommand::Logout)
    } else if text_equal(word, "status") {
        parse_leaf(tokens, AzureCommand::Status)
    } else if text_equal(word, "inventory") {
        parse_leaf(tokens, AzureCommand::Inventory)
    } else if text_equal(word, "help") {
        parse_leaf(tokens, AzureCommand::Help)
    } else if text_equal(word, "exit") || text_equal(word, "quit") {
        parse_leaf(tokens, AzureCommand::Exit)
    } else if is_flag_token(word) {
        Err(unexpected_argument_of(word))
    } else {
        Err(unrecognized_subcommand_of(word))
    }
}

/// Whether the line `ts` is command `c` alone: its name (or `quit` for
/// `exit`) with nothing after it, but for the arguments of `login`.
pub open spec fn spelled_as(ts: Seq<Seq<char>>, c: ClassicShellModel) -> bool {
    match c {
        ClassicShellModel::Login(_) => ts.len() >= 1 && ts[0] == "login"@,
        ClassicShellModel::Logout => ts == seq!["logout"@],
        ClassicShellModel::Status => ts == seq!["status"@],
        ClassicShellModel::Inventory => ts == seq!["inventory"@],
        ClassicShellModel::Help => ts == seq!["help"@],
        ClassicShellModel::Exit => ts == seq!["exit"@] || ts == seq!["quit"@],
    }
}

/// Every parsed session command is the one its single word names, and each
/// of those words alone parses to its command.
pub proof fn law_shell_command_words(ts: Seq<Seq<char>>)
    ensures
        shell_parse(ts) matches Ok(p) ==> spelled_as(ts, p),
        shell_parse(seq!["logout"@]) == Ok::<ClassicShellModel, ParseErrorModel>(ClassicShellModel::Logout),
        shell_parse(seq!["status"@]) == Ok::<ClassicShellModel, ParseErrorModel>(ClassicShellModel::Status),
        shell_parse(seq!["inventory"@]) == Ok::<ClassicShellModel, ParseErrorModel>(
            ClassicShellModel::Inventory,
        ),
        shell_parse(seq!["help"@]) == Ok::<ClassicShellModel, ParseErrorModel>(ClassicShellModel::Help),
        shell_parse(seq!["exit"@]) == Ok::<ClassicShellModel, ParseErrorModel>(ClassicShellModel::Exit),
        shell_parse(seq!["quit"@]) == Ok::<ClassicShellModel, ParseErrorModel>(ClassicShellModel::Exit),
{
    reveal_strlit("login");
    reveal_strlit("logout");
    reveal_strlit("status");
    reveal_strlit("inventory");
    reveal_strlit("help");
    reveal_strlit("exit");
    reveal_strlit("quit");
    assert("status"@[0] != "logout"@[0]);
    assert("exit"@[0] != "help"@[0]);
    assert("exit"@.len() != "login"@.len());
    if let Ok(p) = shell_parse(ts) {
        if !(p is Login) {
            assert(ts =~= seq![ts[0]]);
        }
    }
}

} // verus!
