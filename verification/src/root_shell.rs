use vstd::prelude::*;

use crate::args::{
    check_no_more_arguments, error_view, is_flag, is_flag_token, missing_subcommand,
    missing_subcommand_of, no_more_arguments, token_views, unexpected_argument,
    unexpected_argument_of, unrecognized_subcommand, unrecognized_subcommand_of, ParseError,
    ParseErrorModel,
};
use crate::text::text_equal;

verus! {

/// The commands of the root shell, which has no help flag.
#[derive(Clone, Copy, PartialEq, Eq, Structural, Debug)]
pub enum RootCommand {
    /// Open the Azure shell.
    Azure,
    /// Open the dummy shell.
    Dummy,
    /// Show the root shell help message.
    Help,
    /// Close the shell (also `quit`).
    Exit,
}

pub open spec fn outcome_view(r: Result<RootCommand, ParseError>) -> Result<RootCommand, ParseErrorModel> {
    match r {
        Ok(c) => Ok(c),
        Err(e) => Err(error_view(e)),
    }
}

pub const ROOT_SHELL_HELP: &'static str = "Usage: martijn <COMMAND>\n\nCommands:\n  azure  Open the Azure shell\n  dummy  Open the dummy shell\n  help   Show the root shell help message\n  exit   Close the shell [aliases: quit]\n";

pub open spec fn leaf(ts: Seq<Seq<char>>, c: RootCommand) -> Result<RootCommand, ParseErrorModel> {
    match no_more_arguments(ts, 1, false, Seq::empty()) {
        Some(e) => Err(e),
        None => Ok(c),
    }
}

/// The command of one root shell line, or why it does not form one.
pub open spec fn shell_parse(ts: Seq<Seq<char>>) -> Result<RootCommand, ParseErrorModel> {
    if ts.len() == 0 {
        Err(missing_subcommand("martijn"@))
    } else if ts[0] == "azure"@ {
        leaf(ts, RootCommand::Azure)
    } else if ts[0] == "dummy"@ {
        leaf(ts, RootCommand::Dummy)
    } else if ts[0] == "help"@ {
        leaf(ts, RootCommand::Help)
    } else if ts[0] == "exit"@ || ts[0] == "quit"@ {
        leaf(ts, RootCommand::Exit)
    } else if is_flag(ts[0]) {
        Err(unexpected_argument(ts[0]))
    } else {
        Err(unrecognized_subcommand(ts[0]))
    }
}

fn parse_leaf(tokens: &Vec<String>, c: RootCommand) -> (r: Result<RootCommand, ParseError>)
    ensures
        outcome_view(r) == leaf(token_views(tokens@), c),
{
    proof {
        reveal_strlit("");
        assert(""@ =~= Seq::<char>::empty());
    }
    match check_no_more_arguments(tokens, 1, false, "") {
        Some(e) => Err(e),
        None => Ok(c),
    }
}

/// Parses one tokenized root shell line into a command.
pub fn parse_command(tokens: &Vec<String>) -> (r: Result<RootCommand, ParseError>)
    ensures
        outcome_view(r) == shell_parse(token_views(tokens@)),
{
    if tokens.len() == 0 {
        return Err(missing_subcommand_of("martijn"));
    }
    let word = tokens[0].as_str();
    if text_equal(word, "azure") {
        parse_leaf(tokens, RootCommand::Azure)
    } else if text_equal(word, "dummy") {
        parse_leaf(tokens, RootCommand::Dummy)
    } else if text_equal(word, "help") {
        parse_leaf(tokens, RootCommand::Help)
    } else if text_equal(word, "exit") || text_equal(word, "quit") {
        parse_leaf(tokens, RootCommand::Exit)
    } else if is_flag_token(word) {
        Err(unexpected_argument_of(word))
    } else {
        Err(unrecognized_subcommand_of(word))
    }
}

/// Whether the line `ts` is command `c` alone: its name, or `quit` for
/// `exit`.
pub open spec fn spelled_as(ts: Seq<Seq<char>>, c: RootCommand) -> bool {
    match c {
        RootCommand::Azure => ts == seq!["azure"@],
        RootCommand::Dummy => ts == seq!["dummy"@],
        RootCommand::Help => ts == seq!["help"@],
        RootCommand::Exit => ts == seq!["exit"@] || ts == seq!["quit"@],
    }
}

/// Every parsed root shell command is the one its single word names, and
/// each of those words alone parses to its command.
pub proof fn law_shell_command_words(ts: Seq<Seq<char>>)
    ensures
        shell_parse(ts) matches Ok(p) ==> spelled_as(ts, p),
        shell_parse(seq!["azure"@]) == Ok::<RootCommand, ParseErrorModel>(RootCommand::Azure),
        shell_parse(seq!["dummy"@]) == Ok::<RootCommand, ParseErrorModel>(RootCommand::Dummy),
        shell_parse(seq!["help"@]) == Ok::<RootCommand, ParseErrorModel>(RootCommand::Help),
        shell_parse(seq!["exit"@]) == Ok::<RootCommand, ParseErrorModel>(RootCommand::Exit),
        shell_parse(seq!["quit"@]) == Ok::<RootCommand, ParseErrorModel>(RootCommand::Exit),
{
    reveal_strlit("azure");
    reveal_strlit("dummy");
    reveal_strlit("help");
    reveal_strlit("exit");
    reveal_strlit("quit");
    assert("dummy"@[0] != "azure"@[0]);
    assert("exit"@[0] != "help"@[0]);
    if let Ok(p) = shell_parse(ts) {
        assert(ts =~= seq![ts[0]]);
    }
}

} // verus!
