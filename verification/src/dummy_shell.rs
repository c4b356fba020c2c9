use vstd::prelude::*;

use crate::args::{
    check_no_more_arguments, error_view, is_flag, is_flag_token, missing_subcommand,
    missing_subcommand_of, no_more_arguments, parse_words, token_views, unexpected_argument,
    unexpected_argument_of, unrecognized_subcommand, unrecognized_subcommand_of, words_scan,
    ParseError, ParseErrorModel,
};
use crate::text::text_equal;

verus! {

/// The commands of the interactive dummy shell, which has no help flag.
#[derive(Debug)]
pub enum DummyCommand {
    /// Reply with `pong`.
    Ping,
    /// Print the provided text.
    Echo { text: Vec<String> },
    /// Show the dummy shell help message.
    Help,
    /// Close the current shell session (also `quit`).
    Exit,
}

/// The model of a dummy shell command.
pub enum DummyShellModel {
    Ping,
    Echo(Seq<Seq<char>>),
    Help,
    Exit,
}

pub open spec fn command_view(c: DummyCommand) -> DummyShellModel {
    match c {
        DummyCommand::Ping => DummyShellModel::Ping,
        DummyCommand::Echo { text } => DummyShellModel::Echo(token_views(text@)),
        DummyCommand::Help => DummyShellModel::Help,
        DummyCommand::Exit => DummyShellModel::Exit,
    }
}

pub open spec fn outcome_view(r: Result<DummyCommand, ParseError>) -> Result<
    DummyShellModel,
    ParseErrorModel,
> {
    match r {
        Ok(c) => Ok(command_view(c)),
        Err(e) => Err(error_view(e)),
    }
}

pub const DUMMY_SHELL_HELP: &'static str = "Usage: dummy <COMMAND>\n\nCommands:\n  ping  Reply with `pong`\n  echo  Print the provided text\n  help  Show the dummy shell help message\n  exit  Close the current shell session [aliases: quit]\n";

pub open spec fn leaf(ts: Seq<Seq<char>>, c: DummyShellModel) -> Result<DummyShellModel, ParseErrorModel> {
    match no_more_arguments(ts, 1, false, Seq::empty()) {
        Some(e) => Err(e),
        None => Ok(c),
    }
}

/// The command of one dummy shell line, or why it does not form one.
pub open spec fn shell_parse(ts: Seq<Seq<char>>) -> Result<DummyShellModel, ParseErrorModel> {
    if ts.len() == 0 {
        Err(missing_subcommand("dummy"@))
    } else if ts[0] == "ping"@ {
        leaf(ts, DummyShellModel::Ping)
    } else if ts[0] == "echo"@ {
        match words_scan(ts, 1, false, Seq::empty()) {
            Ok(w) => Ok(DummyShellModel::Echo(w)),
            Err(e) => Err(e),
        }
    } else if ts[0] == "help"@ {
        leaf(ts, DummyShellModel::Help)
    } else if ts[0] == "exit"@ || ts[0] == "quit"@ {
        leaf(ts, DummyShellModel::Exit)
    } else if is_flag(ts[0]) {
        Err(unexpected_argument(ts[0]))
    } else {
        Err(unrecognized_subcommand(ts[0]))
    }
}

fn parse_leaf(tokens: &Vec<String>, c: DummyCommand) -> (r: Result<DummyCommand, ParseError>)
    ensures
        outcome_view(r) == leaf(token_views(tokens@), command_view(c)),
{
    proof {
        reveal_strlit("");
        assert(""@ =~= Seq::<char>::empty());
    }
    match check_no_more_arguments(tokens, 1, false, "") {
        Some(e) => Err(e),
        None => Ok(c),
    }
}

/// Parses one tokenized dummy shell line into a command.
pub fn parse_command(tokens: &Vec<String>) -> (r: Result<DummyCommand, ParseError>)
    ensures
        outcome_view(r) == shell_parse(token_views(tokens@)),
{
    proof {
        reveal_strlit("");
        assert(""@ =~= Seq::<char>::empty());
    }
    if tokens.len() == 0 {
        return Err(missing_subcommand_of("dummy"));
    }
    let word = tokens[0].as_str();
    if text_equal(word, "ping") {
        parse_leaf(tokens, DummyCommand::Ping)
    } else if text_equal(word, "echo") {
        match parse_words(tokens, 1, false, "") {
            Ok(text) => Ok(DummyCommand::Echo { text }),
            Err(e) => Err(e),
        }
    } else if text_equal(word, "help") {
        parse_leaf(tokens, DummyCommand::Help)
    } else if text_equal(word, "exit") || text_equal(word, "quit") {
        parse_leaf(tokens, DummyCommand::Exit)
    } else if is_flag_token(word) {
        Err(unexpected_argument_of(word))
    } else {
        Err(unrecognized_subcommand_of(word))
    }
}

/// Whether the line `ts` is command `c`: its name alone (or `quit` for
/// `exit`), or `echo` followed by the echoed words.
pub open spec fn spelled_as(ts: Seq<Seq<char>>, c: DummyShellModel) -> bool {
    match c {
        DummyShellModel::Ping => ts == seq!["ping"@],
        DummyShellModel::Echo(w) => ts.len() >= 1 && ts[0] == "echo"@ && w == ts.skip(1),
        DummyShellModel::Help => ts == seq!["help"@],
        DummyShellModel::Exit => ts == seq!["exit"@] || ts == seq!["quit"@],
    }
}

/// Every parsed dummy shell command is the one the line spells, echoing
/// exactly the words after `echo`, and each command word alone parses to
/// its command.
pub proof fn law_shell_command_words(ts: Seq<Seq<char>>)
    ensures
        shell_parse(ts) matches Ok(p) ==> spelled_as(ts, p),
        shell_parse(seq!["ping"@]) == Ok::<DummyShellModel, ParseErrorModel>(DummyShellModel::Ping),
        shell_parse(seq!["echo"@]) == Ok::<DummyShellModel, ParseErrorModel>(
            DummyShellModel::Echo(Seq::empty()),
        ),
        shell_parse(seq!["help"@]) == Ok::<DummyShellModel, ParseErrorModel>(DummyShellModel::Help),
        shell_parse(seq!["exit"@]) == Ok::<DummyShellModel, ParseErrorModel>(DummyShellModel::Exit),
        shell_parse(seq!["quit"@]) == Ok::<DummyShellModel, ParseErrorModel>(DummyShellModel::Exit),
{
    reveal_strlit("ping");
    reveal_strlit("echo");
    reveal_strlit("help");
    reveal_strlit("exit");
    reveal_strlit("quit");
    assert("echo"@[0] != "ping"@[0]);
    assert("help"@[0] != "ping"@[0] && "help"@[0] != "echo"@[0]);
    assert("exit"@[0] != "ping"@[0] && "exit"@[1] != "echo"@[1] && "exit"@[0] != "help"@[0]);
    if ts.len() >= 1 {
        crate::args::lemma_words_scan_rest(ts, 1, false, Seq::empty());
        assert(ts.subrange(1, ts.len() as int) =~= ts.skip(1));
    }
    if let Ok(p) = shell_parse(ts) {
        if !(p is Echo) {
            assert(ts =~= seq![ts[0]]);
        }
    }
}

} // verus!
