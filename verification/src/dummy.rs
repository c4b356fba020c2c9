use vstd::prelude::*;

use crate::args::{
    check_no_more_arguments, error_view, help_error, help_error_of, is_flag, is_flag_token, is_help,
    is_help_token, missing_subcommand, missing_subcommand_of, no_more_arguments, parse_words,
    token_views, unexpected_argument, unexpected_argument_of, unrecognized_subcommand,
    unrecognized_subcommand_of, words_scan, ParseError, ParseErrorModel,
};
use crate::text::{join, join_texts, text_equal};

verus! {

/// The commands of `martijn dummy`.
#[derive(Debug)]
pub enum DummyCommand {
    /// Reply with `pong`.
    Ping,
    /// Print the provided text.
    Echo { text: Vec<String> },
}

/// The model of a dummy command.
pub enum DummyModel {
    Ping,
    Echo(Seq<Seq<char>>),
}

pub open spec fn command_view(c: DummyCommand) -> DummyModel {
    match c {
        DummyCommand::Ping => DummyModel::Ping,
        DummyCommand::Echo { text } => DummyModel::Echo(token_views(text@)),
    }
}

pub open spec fn outcome_view(r: Result<DummyCommand, ParseError>) -> Result<DummyModel, ParseErrorModel> {
    match r {
        Ok(c) => Ok(command_view(c)),
        Err(e) => Err(error_view(e)),
    }
}

pub const DUMMY_HELP: &'static str = "Usage: dummy <COMMAND>\n\nCommands:\n  ping  Reply with `pong`\n  echo  Print the provided text\n  help  Print this message or the help of the given subcommand(s)\n\nOptions:\n  -h, --help  Print help\n";

pub const PING_HELP: &'static str = "Reply with `pong`\n\nUsage: dummy ping\n\nOptions:\n  -h, --help  Print help\n";

pub const ECHO_HELP: &'static str = "Print the provided text\n\nUsage: dummy echo [TEXT]...\n\nArguments:\n  [TEXT]...\n\nOptions:\n  -h, --help  Print help\n";

/// The command of `dummy` tokens, or why they do not form one.
pub open spec fn dummy_parse(ts: Seq<Seq<char>>) -> Result<DummyModel, ParseErrorModel> {
    if ts.len() == 0 {
        Err(missing_subcommand("dummy"@))
    } else if is_help(ts[0]) {
        Err(help_error(DUMMY_HELP@))
    } else if ts[0] == "ping"@ {
        match no_more_arguments(ts, 1, true, PING_HELP@) {
            Some(e) => Err(e),
            None => Ok(DummyModel::Ping),
        }
    } else if ts[0] == "echo"@ {
        match words_scan(ts, 1, true, ECHO_HELP@) {
            Ok(w) => Ok(DummyModel::Echo(w)),
            Err(e) => Err(e),
        }
    } else if is_flag(ts[0]) {
        Err(unexpected_argument(ts[0]))
    } else {
        Err(unrecognized_subcommand(ts[0]))
    }
}

/// Parses the words after `dummy` into one command.
pub fn parse_command(tokens: &Vec<String>) -> (r: Result<DummyCommand, ParseError>)
    ensures
        outcome_view(r) == dummy_parse(token_views(tokens@)),
{
    if tokens.len() == 0 {
        return Err(missing_subcommand_of("dummy"));
    }
    let word = tokens[0].as_str();
    if is_help_token(word) {
        Err(help_error_of(DUMMY_HELP))
    } else if text_equal(word, "ping") {
        match check_no_more_arguments(tokens, 1, true, PING_HELP) {
            Some(e) => Err(e),
            None => Ok(DummyCommand::Ping),
        }
    } else if text_equal(word, "echo") {
        match parse_words(tokens, 1, true, ECHO_HELP) {
            Ok(text) => Ok(DummyCommand::Echo { text }),
            Err(e) => Err(e),
        }
    } else if is_flag_token(word) {
        Err(unexpected_argument_of(word))
    } else {
        Err(unrecognized_subcommand_of(word))
    }
}

/// What a dummy command prints: `pong`, or the echoed words joined by
/// spaces (an empty line for none).
pub open spec fn dummy_output(c: DummyModel) -> Seq<char> {
    match c {
        DummyModel::Ping => "pong"@,
        DummyModel::Echo(words) => join(words, " "@),
    }
}

/// The line that a dummy command prints.
pub fn command_output(command: &DummyCommand) -> (r: String)
    ensures
        r@ == dummy_output(command_view(*command)),
{
    match command {
        DummyCommand::Ping => String::from_str("pong"),
        DummyCommand::Echo { text } => join_texts(text, " "),
    }
}

/// Whether the words `ts` are command `c`: `ping` alone, or `echo` followed
/// by the echoed words.
pub open spec fn spelled_as(ts: Seq<Seq<char>>, c: DummyModel) -> bool {
    match c {
        DummyModel::Ping => ts == seq!["ping"@],
        DummyModel::Echo(w) => ts.len() >= 1 && ts[0] == "echo"@ && w == ts.skip(1),
    }
}

/// Every parsed dummy command is the one its words spell, echoing exactly
/// the words after `echo`; `ping` alone parses to `Ping`, and `ping` prints
/// `pong` while `echo` prints its words joined by single spaces.
pub proof fn law_dummy_command_words(ts: Seq<Seq<char>>)
    ensures
        dummy_parse(ts) matches Ok(p) ==> spelled_as(ts, p),
        dummy_parse(seq!["ping"@]) == Ok::<DummyModel, ParseErrorModel>(DummyModel::Ping),
        dummy_output(DummyModel::Ping) == "pong"@,
        dummy_output(DummyModel::Echo(ts)) == join(ts, " "@),
{
    reveal_strlit("ping");
    reveal_strlit("echo");
    reveal_strlit("-h");
    reveal_strlit("--help");
    if ts.len() >= 1 {
        crate::args::lemma_words_scan_rest(ts, 1, true, ECHO_HELP@);
        assert(ts.subrange(1, ts.len() as int) =~= ts.skip(1));
    }
    if let Ok(p) = dummy_parse(ts) {
        if p is Ping {
            assert(ts =~= seq![ts[0]]);
        }
    }
}

} // verus!
