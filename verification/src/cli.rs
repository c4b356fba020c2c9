use vstd::prelude::*;

use crate::args::{
    error_view, help_error, help_error_of, is_flag, is_flag_token, is_help, is_help_token,
    missing_subcommand_help, missing_subcommand_help_of, token_views, unexpected_argument,
    unexpected_argument_of, unrecognized_subcommand, unrecognized_subcommand_of, ParseError,
    ParseErrorModel,
};
use crate::azure_cli::{azure_parse, AzureCommand, AzureCommandModel, AZURE_HELP};
use crate::dummy::{dummy_parse, DummyCommand, DummyModel, DUMMY_HELP};
use crate::text::{char_is_whitespace, is_white_space, push_char, text_equal};

verus! {

/// The subcommands of `martijn`.
#[allow(inconsistent_fields)]
#[derive(Debug)]
pub enum Commands {
    /// Azure login, logout, status, inventory, snapshot and report commands.
    Azure { command: AzureCommand },
    /// A small example command group.
    Dummy { command: DummyCommand },
}

/// The model of a `martijn` command line.
pub enum CommandsModel {
    Azure(AzureCommandModel),
    Dummy(DummyModel),
}

pub open spec fn commands_view(c: Commands) -> CommandsModel {
    match c {
        Commands::Azure { command } => CommandsModel::Azure(crate::azure_cli::command_view(command)),
        Commands::Dummy { command } => CommandsModel::Dummy(crate::dummy::command_view(command)),
    }
}

pub open spec fn outcome_view(r: Result<Option<Commands>, ParseError>) -> Result<
    Option<CommandsModel>,
    ParseErrorModel,
> {
    match r {
        Ok(Some(c)) => Ok(Some(commands_view(c))),
        Ok(None) => Ok(None),
        Err(e) => Err(error_view(e)),
    }
}

pub const MARTIJN_HELP: &'static str = "A personal CLI workspace for automation, tooling, and future utilities created by Martijn Pannekoek\n\nUsage: martijn [COMMAND]\n\nCommands:\n  azure  Azure login, logout, status, inventory, and snapshot commands\n  dummy  A small example command group\n\nOptions:\n  -h, --help  Print help\n";

/// The command of a `martijn` command line (the words after the program
/// name): none for no words, which opens the start screen.
pub open spec fn cli_parse(ts: Seq<Seq<char>>) -> Result<Option<CommandsModel>, ParseErrorModel> {
    if ts.len() == 0 {
        Ok(None)
    } else if is_help(ts[0]) {
        Err(help_error(MARTIJN_HELP@))
    } else if ts[0] == "azure"@ {
        if ts.len() == 1 {
            Err(missing_subcommand_help(AZURE_HELP@))
        } else {
            match azure_parse(ts.skip(1)) {
                Ok(c) => Ok(Some(CommandsModel::Azure(c))),
                Err(e) => Err(e),
            }
        }
    } else if ts[0] == "dummy"@ {
        if ts.len() == 1 {
            Err(missing_subcommand_help(DUMMY_HELP@))
        } else {
            match dummy_parse(ts.skip(1)) {
                Ok(c) => Ok(Some(CommandsModel::Dummy(c))),
                Err(e) => Err(e),
            }
        }
    } else if is_flag(ts[0]) {
        Err(unexpected_argument(ts[0]))
    } else {
        Err(unrecognized_subcommand(ts[0]))
    }
}

fn rest_tokens(tokens: &Vec<String>) -> (r: Vec<String>)
    requires
        tokens.len() >= 1,
    ensures
        token_views(r@) == token_views(tokens@).skip(1),
{
    let mut out: Vec<String> = Vec::new();
    let mut i: usize = 1;
    while i < tokens.len()
        invariant
            1 <= i <= tokens.len(),
            token_views(out@) == token_views(tokens@).subrange(1, i as int),
        decreases tokens.len() - i,
    {
        let ghost before = token_views(out@);
        out.push(tokens[i].clone());
        assert(token_views(out@) =~= before.push(tokens@[i as int]@));
        assert(token_views(tokens@).subrange(1, i + 1) =~= token_views(tokens@).subrange(
            1,
            i as int,
        ).push(tokens@[i as int]@));
        i = i + 1;
    }
    assert(token_views(tokens@).subrange(1, tokens.len() as int) =~= token_views(tokens@).skip(1));
    out
}

/// Parses a `martijn` command line (without the program name).
pub fn parse_cli(tokens: &Vec<String>) -> (r: Result<Option<Commands>, ParseError>)
    ensures
        outcome_view(r) == cli_parse(token_views(tokens@)),
{
    if tokens.len() == 0 {
        return Ok(None);
    }
    let word = tokens[0].as_str();
    if is_help_token(word) {
        Err(help_error_of(MARTIJN_HELP))
    } else if text_equal(word, "azure") {
        if tokens.len() == 1 {
            return Err(missing_subcommand_help_of(AZURE_HELP));
        }
        let rest = rest_tokens(tokens);
        match crate::azure_cli::parse_command(&rest) {
            Ok(command) => Ok(Some(Commands::Azure { command })),
            Err(e) => Err(e),
        }
    } else if text_equal(word, "dummy") {
        if tokens.len() == 1 {
            return Err(missing_subcommand_help_of(DUMMY_HELP));
        }
        let rest = rest_tokens(tokens);
        match crate::dummy::parse_command(&rest) {
            Ok(command) => Ok(Some(Commands::Dummy { command })),
            Err(e) => Err(e),
        }
    } else if is_flag_token(word) {
        Err(unexpected_argument_of(word))
    } else {
        Err(unrecognized_subcommand_of(word))
    }
}

/// A `martijn` command line opens the start screen exactly when it is empty;
/// a parsed `azure` or `dummy` command is the one that the words after that
/// first word parse to on their own.
pub proof fn law_cli_dispatch(ts: Seq<Seq<char>>)
    ensures
        (cli_parse(ts) == Ok::<Option<CommandsModel>, ParseErrorModel>(None)) <==> ts.len() == 0,
        cli_parse(ts) matches Ok(Some(CommandsModel::Azure(c))) ==> ts.len() >= 2 && ts[0] == "azure"@
            && azure_parse(ts.skip(1)) == Ok::<AzureCommandModel, ParseErrorModel>(c),
        cli_parse(ts) matches Ok(Some(CommandsModel::Dummy(c))) ==> ts.len() >= 2 && ts[0] == "dummy"@
            && dummy_parse(ts.skip(1)) == Ok::<DummyModel, ParseErrorModel>(c),
        ts.len() >= 2 && ts[0] == "azure"@ ==> (azure_parse(ts.skip(1)) matches Ok(c) ==> cli_parse(ts)
            == Ok::<Option<CommandsModel>, ParseErrorModel>(Some(CommandsModel::Azure(c)))),
        ts.len() >= 2 && ts[0] == "dummy"@ ==> (dummy_parse(ts.skip(1)) matches Ok(c) ==> cli_parse(ts)
            == Ok::<Option<CommandsModel>, ParseErrorModel>(Some(CommandsModel::Dummy(c)))),
{
    reveal_strlit("azure");
    reveal_strlit("dummy");
    reveal_strlit("-h");
    reveal_strlit("--help");
    assert("dummy"@[0] != "azure"@[0]);
}

// ---------------------------------------------------------------------------
// Shell lines
// ---------------------------------------------------------------------------

/// The state of splitting a line into words: finished words, the word under
/// construction, and the open quote character.
pub struct SplitState {
    pub words: Seq<Seq<char>>,
    pub current: Option<Seq<char>>,
    pub quote: Option<char>,
}

pub open spec fn append_char(current: Option<Seq<char>>, c: char) -> Option<Seq<char>> {
    match current {
        Some(w) => Some(w.push(c)),
        None => Some(seq![c]),
    }
}

/// One step of splitting: inside quotes everything but the closing quote is
/// kept; outside, white space ends a word and a quote opens a quoted part.
pub open spec fn split_step(st: SplitState, c: char) -> SplitState {
    match st.quote {
        Some(q) => if c == q {
            SplitState { quote: None, ..st }
        } else {
            SplitState { current: append_char(st.current, c), ..st }
        },
        None => if is_white_space(c) {
            match st.current {
                Some(w) => SplitState { words: st.words.push(w), current: None, quote: None },
                None => st,
            }
        } else if c == '"' || c == '\'' {
            SplitState {
                current: Some(
                    match st.current {
                        Some(w) => w,
                        None => Seq::empty(),
                    },
                ),
                quote: Some(c),
                ..st
            }
        } else {
            SplitState { current: append_char(st.current, c), ..st }
        },
    }
}

pub open spec fn split_state(s: Seq<char>) -> SplitState
    decreases s.len(),
{
    if s.len() == 0 {
        SplitState { words: Seq::empty(), current: None, quote: None }
    } else {
        split_step(split_state(s.drop_last()), s.last())
    }
}

/// The words of a shell line: white space separates words, and single or
/// double quotes keep white space inside a word (an unclosed quote runs to
/// the end of the line).
pub open spec fn shell_words(s: Seq<char>) -> Seq<Seq<char>> {
    let st = split_state(s);
    match st.current {
        Some(w) => st.words.push(w),
        None => st.words,
    }
}

/// Splits one shell line into words.
pub fn split_shell_line(line: &str) -> (r: Vec<String>)
    ensures
        token_views(r@) == shell_words(line@),
{
    let cs = crate::text::chars_of(line);
    let mut words: Vec<String> = Vec::new();
    let mut current = String::new();
    let mut has_current = false;
    let mut quote: Option<char> = None;
    let mut i: usize = 0;
    assert(cs@.take(0) =~= Seq::<char>::empty());
    assert(token_views(words@) =~= Seq::<Seq<char>>::empty());
    while i < cs.len()
        invariant
            i <= cs.len(),
            cs@ == line@,
            !has_current ==> current@ == Seq::<char>::empty(),
            split_state(cs@.take(i as int)) == (SplitState {
                words: token_views(words@),
                current: if has_current {
                    Some(current@)
                } else {
                    None
                },
                quote,
            }),
        decreases cs.len() - i,
    {
        assert(cs@.take(i + 1).drop_last() =~= cs@.take(i as int));
        let c = cs[i];
        let ghost before = token_views(words@);
        match quote {
            Some(q) => {
                if c == q {
                    quote = None;
                } else {
                    push_char(&mut current, c);
                    has_current = true;
                }
            },
            None => {
                if char_is_whitespace(c) {
                    if has_current {
                        let mut word = String::new();
                        std::mem::swap(&mut word, &mut current);
                        words.push(word);
                        has_current = false;
                        assert(token_views(words@) =~= before.push(word@));
                    }
                } else if c == '"' || c == '\'' {
                    has_current = true;
                    quote = Some(c);
                } else {
                    push_char(&mut current, c);
                    has_current = true;
                }
            },
        }
        assert(split_state(cs@.take(i + 1)) == split_step(split_state(cs@.take(i as int)), c));
        i = i + 1;
    }
    assert(cs@.take(cs.len() as int) =~= cs@);
    if has_current {
        let ghost before = token_views(words@);
        words.push(current);
        assert(token_views(words@) =~= before.push(current@));
    }
    words
}

} // verus!
