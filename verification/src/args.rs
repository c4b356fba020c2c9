use vstd::prelude::*;

use crate::login::LoginArguments;
use crate::text::{chars_of, has_prefix, push_str, starts_with_chars, string_from_range, text_equal};

verus! {

// ---------------------------------------------------------------------------
// Parse errors
// ---------------------------------------------------------------------------

/// What kind of outcome stopped a command line from parsing into a command.
#[derive(Clone, Copy, PartialEq, Eq, Structural, Debug)]
pub enum ParseErrorKind {
    /// `-h` or `--help` asked for the help of a command.
    DisplayHelp,
    /// A command that needs a subcommand got none; its help is shown.
    DisplayHelpOnMissingArgumentOrSubcommand,
    /// A word is not a subcommand of the command.
    InvalidSubcommand,
    /// A word or flag is not accepted where it stands.
    UnknownArgument,
    /// A required argument was not given.
    MissingRequiredArgument,
    /// The top-level command got no subcommand.
    MissingSubcommand,
    /// An option that takes a value got none.
    InvalidValue,
    /// An option was given twice.
    ArgumentConflict,
}

/// Why a command line did not parse, with the text shown to the user.
#[derive(Debug)]
pub struct ParseError {
    pub kind: ParseErrorKind,
    pub message: String,
}

impl ParseError {
    /// The kind of the error.
    pub fn kind(&self) -> (r: ParseErrorKind)
        ensures
            r == self.kind,
    {
        self.kind
    }

    /// The rendered error or help text.
    pub fn render(&self) -> (r: String)
        ensures
            r@ == self.message@,
    {
        self.message.clone()
    }
}

/// The model of a parse error.
pub struct ParseErrorModel {
    pub kind: ParseErrorKind,
    pub message: Seq<char>,
}

pub open spec fn error_view(e: ParseError) -> ParseErrorModel {
    ParseErrorModel { kind: e.kind, message: e.message@ }
}

pub open spec fn help_error(help: Seq<char>) -> ParseErrorModel {
    ParseErrorModel { kind: ParseErrorKind::DisplayHelp, message: help }
}

pub open spec fn missing_subcommand_help(help: Seq<char>) -> ParseErrorModel {
    ParseErrorModel { kind: ParseErrorKind::DisplayHelpOnMissingArgumentOrSubcommand, message: help }
}

pub open spec fn unexpected_argument(token: Seq<char>) -> ParseErrorModel {
    ParseErrorModel {
        kind: ParseErrorKind::UnknownArgument,
        message: "error: unexpected argument '"@ + token + "' found"@,
    }
}

pub open spec fn unrecognized_subcommand(token: Seq<char>) -> ParseErrorModel {
    ParseErrorModel {
        kind: ParseErrorKind::InvalidSubcommand,
        message: "error: unrecognized subcommand '"@ + token + "'"@,
    }
}

pub open spec fn missing_subcommand(command: Seq<char>) -> ParseErrorModel {
    ParseErrorModel {
        kind: ParseErrorKind::MissingSubcommand,
        message: "error: '"@ + command + "' requires a subcommand but one was not provided"@,
    }
}

pub open spec fn missing_required(argument: Seq<char>) -> ParseErrorModel {
    ParseErrorModel {
        kind: ParseErrorKind::MissingRequiredArgument,
        message: "error: the following required arguments were not provided:\n  "@ + argument,
    }
}

pub open spec fn missing_value(argument: Seq<char>) -> ParseErrorModel {
    ParseErrorModel {
        kind: ParseErrorKind::InvalidValue,
        message: "error: a value is required for '"@ + argument + "' but none was supplied"@,
    }
}

pub open spec fn repeated_argument(argument: Seq<char>) -> ParseErrorModel {
    ParseErrorModel {
        kind: ParseErrorKind::ArgumentConflict,
        message: "error: the argument '"@ + argument + "' cannot be used multiple times"@,
    }
}

fn concat3(a: &str, b: &str, c: &str) -> (r: String)
    ensures
        r@ == a@ + b@ + c@,
{
    let mut s = String::from_str(a);
    push_str(&mut s, b);
    push_str(&mut s, c);
    s
}

pub fn help_error_of(help: &str) -> (r: ParseError)
    ensures
        error_view(r) == help_error(help@),
{
    ParseError { kind: ParseErrorKind::DisplayHelp, message: String::from_str(help) }
}

pub fn missing_subcommand_help_of(help: &str) -> (r: ParseError)
    ensures
        error_view(r) == missing_subcommand_help(help@),
{
    ParseError {
        kind: ParseErrorKind::DisplayHelpOnMissingArgumentOrSubcommand,
        message: String::from_str(help),
    }
}

pub fn unexpected_argument_of(token: &str) -> (r: ParseError)
    ensures
        error_view(r) == unexpected_argument(token@),
{
    ParseError {
        kind: ParseErrorKind::UnknownArgument,
        message: concat3("error: unexpected argument '", token, "' found"),
    }
}

pub fn unrecognized_subcommand_of(token: &str) -> (r: ParseError)
    ensures
        error_view(r) == unrecognized_subcommand(token@),
{
    ParseError {
        kind: ParseErrorKind::InvalidSubcommand,
        message: concat3("error: unrecognized subcommand '", token, "'"),
    }
}

pub fn missing_subcommand_of(command: &str) -> (r: ParseError)
    ensures
        error_view(r) == missing_subcommand(command@),
{
    ParseError {
        kind: ParseErrorKind::MissingSubcommand,
        message: concat3("error: '", command, "' requires a subcommand but one was not provided"),
    }
}

pub fn missing_required_of(argument: &str) -> (r: ParseError)
    ensures
        error_view(r) == missing_required(argument@),
{
    ParseError {
        kind: ParseErrorKind::MissingRequiredArgument,
        message: {
            let mut m = String::from_str("error: the following required arguments were not provided:\n  ");
            push_str(&mut m, argument);
            m
        },
    }
}

pub fn missing_value_of(argument: &str) -> (r: ParseError)
    ensures
        error_view(r) == missing_value(argument@),
{
    ParseError {
        kind: ParseErrorKind::InvalidValue,
        message: concat3("error: a value is required for '", argument, "' but none was supplied"),
    }
}

pub fn repeated_argument_of(argument: &str) -> (r: ParseError)
    ensures
        error_view(r) == repeated_argument(argument@),
{
    ParseError {
        kind: ParseErrorKind::ArgumentConflict,
        message: concat3("error: the argument '", argument, "' cannot be used multiple times"),
    }
}

// ---------------------------------------------------------------------------
// Tokens
// ---------------------------------------------------------------------------

/// The texts of the tokens.
pub open spec fn token_views(tokens: Seq<String>) -> Seq<Seq<char>> {
    tokens.map_values(|s: String| s@)
}

/// A token that asks for help.
pub open spec fn is_help(t: Seq<char>) -> bool {
    t == "-h"@ || t == "--help"@
}

/// A token that reads as a flag: a dash followed by something.
pub open spec fn is_flag(t: Seq<char>) -> bool {
    t.len() > 1 && t[0] == '-'
}

pub fn is_help_token(t: &str) -> (r: bool)
    ensures
        r == is_help(t@),
{
    text_equal(t, "-h") || text_equal(t, "--help")
}

pub fn is_flag_token(t: &str) -> (r: bool)
    ensures
        r == is_flag(t@),
{
    let cs = chars_of(t);
    cs.len() > 1 && cs[0] == '-'
}

/// The value written after `name=` in one token.
pub open spec fn inline_value(t: Seq<char>, name: Seq<char>) -> Option<Seq<char>> {
    if has_prefix(t, name + "="@) {
        Some(t.skip(name.len() as int + 1))
    } else {
        None
    }
}

pub fn inline_value_of(t: &str, name: &str) -> (r: Option<String>)
    ensures
        match r {
            Some(v) => inline_value(t@, name@) == Some(v@),
            None => inline_value(t@, name@) is None,
        },
{
    let mut prefix = String::from_str(name);
    push_str(&mut prefix, "=");
    let cs = chars_of(t);
    let ps = chars_of(prefix.as_str());
    proof {
        reveal_strlit("=");
    }
    if starts_with_chars(&cs, &ps) {
        let v = string_from_range(&cs, ps.len(), cs.len());
        assert(cs@.subrange(ps.len() as int, cs.len() as int) =~= t@.skip(name@.len() as int + 1));
        Some(v)
    } else {
        None
    }
}

/// No further argument may follow: the first one is help or unexpected.
pub open spec fn no_more_arguments(ts: Seq<Seq<char>>, i: int, help_flag: bool, help: Seq<char>) -> Option<
    ParseErrorModel,
> {
    if i >= ts.len() {
        None
    } else if help_flag && is_help(ts[i]) {
        Some(help_error(help))
    } else {
        Some(unexpected_argument(ts[i]))
    }
}

pub fn check_no_more_arguments(tokens: &Vec<String>, i: usize, help_flag: bool, help: &str) -> (r:
    Option<ParseError>)
    ensures
        match r {
            Some(e) => no_more_arguments(token_views(tokens@), i as int, help_flag, help@) == Some(
                error_view(e),
            ),
            None => no_more_arguments(token_views(tokens@), i as int, help_flag, help@) is None,
        },
{
    if i >= tokens.len() {
        None
    } else if help_flag && is_help_token(tokens[i].as_str()) {
        Some(help_error_of(help))
    } else {
        Some(unexpected_argument_of(tokens[i].as_str()))
    }
}

/// Scans for one required positional `<NAME>`.
pub open spec fn name_scan(ts: Seq<Seq<char>>, i: int, name: Option<Seq<char>>, help: Seq<char>) -> Result<
    Seq<char>,
    ParseErrorModel,
>
    decreases ts.len() - i,
{
    if i >= ts.len() {
        match name {
            Some(n) => Ok(n),
            None => Err(missing_required("<NAME>"@)),
        }
    } else if is_help(ts[i]) {
        Err(help_error(help))
    } else if is_flag(ts[i]) || name is Some {
        Err(unexpected_argument(ts[i]))
    } else {
        name_scan(ts, i + 1, Some(ts[i]), help)
    }
}

pub fn parse_required_name(tokens: &Vec<String>, start: usize, help: &str) -> (r: Result<String, ParseError>)
    ensures
        match r {
            Ok(n) => name_scan(token_views(tokens@), start as int, None, help@) == Ok::<
                Seq<char>,
                ParseErrorModel,
            >(n@),
            Err(e) => name_scan(token_views(tokens@), start as int, None, help@) == Err::<
                Seq<char>,
                ParseErrorModel,
            >(error_view(e)),
        },
{
    let ghost ts = token_views(tokens@);
    let mut name: Option<String> = None;
    let mut i = start;
    while i < tokens.len()
        invariant
            ts == token_views(tokens@),
            start <= i || i == start,
            name_scan(ts, start as int, None, help@) == name_scan(
                ts,
                i as int,
                match name {
                    Some(n) => Some(n@),
                    None => None,
                },
                help@,
            ),
        decreases tokens.len() - i,
    {
        let t = tokens[i].as_str();
        if is_help_token(t) {
            return Err(help_error_of(help));
        }
        if is_flag_token(t) || name.is_some() {
            return Err(unexpected_argument_of(t));
        }
        name = Some(tokens[i].clone());
        i = i + 1;
    }
    match name {
        Some(n) => Ok(n),
        None => Err(missing_required_of("<NAME>")),
    }
}

// ---------------------------------------------------------------------------
// Login arguments
// ---------------------------------------------------------------------------

/// The model of login arguments.
pub struct LoginModel {
    pub service_principal: bool,
    pub client_id: Option<Seq<char>>,
    pub client_secret: Option<Seq<char>>,
    pub tenant: Option<Seq<char>>,
}

pub open spec fn opt_view(o: Option<String>) -> Option<Seq<char>> {
    match o {
        Some(s) => Some(s@),
        None => None,
    }
}

pub open spec fn login_view(a: LoginArguments) -> LoginModel {
    LoginModel {
        service_principal: a.service_principal,
        client_id: opt_view(a.client_id),
        client_secret: opt_view(a.client_secret),
        tenant: opt_view(a.tenant),
    }
}

pub open spec fn empty_login() -> LoginModel {
    LoginModel { service_principal: false, client_id: None, client_secret: None, tenant: None }
}

/// The checks after all login tokens were read: a client ID or secret needs
/// `--service-principal`.
pub open spec fn login_finish(st: LoginModel) -> Result<LoginModel, ParseErrorModel> {
    if (st.client_id is Some || st.client_secret is Some) && !st.service_principal {
        Err(missing_required("--service-principal"@))
    } else {
        Ok(st)
    }
}

/// Reads login tokens from `i`: the `--service-principal` flag, the
/// `--client-id` and `--client-secret` options (value in the next token or
/// after `=`), and at most one positional tenant.
pub open spec fn login_scan(
    ts: Seq<Seq<char>>,
    i: int,
    st: LoginModel,
    help_flag: bool,
    help: Seq<char>,
) -> Result<
    LoginModel,
    ParseErrorModel,
>
    decreases ts.len() - i,
{
    if i >= ts.len() {
        login_finish(st)
    } else {
        let t = ts[i];
        if help_flag && is_help(t) {
            Err(help_error(help))
        } else if t == "--service-principal"@ {
            if st.service_principal {
                Err(repeated_argument("--service-principal"@))
            } else {
                login_scan(ts, i + 1, LoginModel { service_principal: true, ..st }, help_flag, help)
            }
        } else if t == "--client-id"@ || inline_value(t, "--client-id"@) is Some {
            let inline = inline_value(t, "--client-id"@);
            if inline is None && (i + 1 >= ts.len() || is_flag(ts[i + 1])) {
                Err(missing_value("--client-id <CLIENT_ID>"@))
            } else if st.client_id is Some {
                Err(repeated_argument("--client-id <CLIENT_ID>"@))
            } else {
                match inline {
                    Some(v) => login_scan(ts, i + 1, LoginModel { client_id: Some(v), ..st }, help_flag, help),
                    None => login_scan(
                        ts,
                        i + 2,
                        LoginModel { client_id: Some(ts[i + 1]), ..st },
                        help_flag,
                        help,
                    ),
                }
            }
        } else if t == "--client-secret"@ || inline_value(t, "--client-secret"@) is Some {
            let inline = inline_value(t, "--client-secret"@);
            if inline is None && (i + 1 >= ts.len() || is_flag(ts[i + 1])) {
                Err(missing_value("--client-secret <CLIENT_SECRET>"@))
            } else if st.client_secret is Some {
                Err(repeated_argument("--client-secret <CLIENT_SECRET>"@))
            } else {
                match inline {
                    Some(v) => login_scan(
                        ts,
                        i + 1,
                        LoginModel { client_secret: Some(v), ..st },
                        help_flag,
                        help,
                    ),
                    None => login_scan(
                        ts,
                        i + 2,
                        LoginModel { client_secret: Some(ts[i + 1]), ..st },
                        help_flag,
                        help,
                    ),
                }
            }
        } else if is_flag(t) || st.tenant is Some {
            Err(unexpected_argument(t))
        } else {
            login_scan(ts, i + 1, LoginModel { tenant: Some(t), ..st }, help_flag, help)
        }
    }
}

/// The login arguments of tokens `start..`, or why they do not parse.
pub open spec fn login_parse(ts: Seq<Seq<char>>, start: int, help_flag: bool, help: Seq<char>) -> Result<
    LoginModel,
    ParseErrorModel,
> {
    login_scan(ts, start, empty_login(), help_flag, help)
}

/// Parses the tokens after `login`.
pub fn parse_login_arguments(tokens: &Vec<String>, start: usize, help_flag: bool, help: &str) -> (r: Result<
    LoginArguments,
    ParseError,
>)
    ensures
        match r {
            Ok(a) => login_parse(token_views(tokens@), start as int, help_flag, help@) == Ok::<
                LoginModel,
                ParseErrorModel,
            >(login_view(a)),
            Err(e) => login_parse(token_views(tokens@), start as int, help_flag, help@) == Err::<
                LoginModel,
                ParseErrorModel,
            >(error_view(e)),
        },
{
    let ghost ts = token_views(tokens@);
    let mut args = LoginArguments {
        service_principal: false,
        client_id: None,
        client_secret: None,
        tenant: None,
    };
    let mut i = start;
    assert(login_view(args) == empty_login());
    while i < tokens.len()
        invariant
            ts == token_views(tokens@),
            login_parse(ts, start as int, help_flag, help@) == login_scan(
                ts,
                i as int,
                login_view(args),
                help_flag,
                help@,
            ),
        decreases tokens.len() - i,
    {
        let t = tokens[i].as_str();
        let ghost st = login_view(args);
        if help_flag && is_help_token(t) {
            return Err(help_error_of(help));
        }
        if text_equal(t, "--service-principal") {
            if args.service_principal {
                return Err(repeated_argument_of("--service-principal"));
            }
            args.service_principal = true;
            assert(login_view(args) == LoginModel { service_principal: true, ..st });
            i = i + 1;
            continue;
        }
        let inline_id = inline_value_of(t, "--client-id");
        if text_equal(t, "--client-id") || inline_id.is_some() {
            if inline_id.is_none() && (i + 1 >= tokens.len() || is_flag_token(tokens[i + 1].as_str())) {
                return Err(missing_value_of("--client-id <CLIENT_ID>"));
            }
            if args.client_id.is_some() {
                return Err(repeated_argument_of("--client-id <CLIENT_ID>"));
            }
            match inline_id {
                Some(v) => {
                    args.client_id = Some(v);
                    assert(login_view(args) == LoginModel { client_id: Some(v@), ..st });
                    i = i + 1;
                },
                None => {
                    args.client_id = Some(tokens[i + 1].clone());
                    assert(login_view(args) == LoginModel { client_id: Some(ts[i + 1]), ..st });
                    i = i + 2;
                },
            }
            continue;
        }
        let inline_secret = inline_value_of(t, "--client-secret");
        if text_equal(t, "--client-secret") || inline_secret.is_some() {
            if inline_secret.is_none() && (i + 1 >= tokens.len() || is_flag_token(
                tokens[i + 1].as_str(),
            )) {
                return Err(missing_value_of("--client-secret <CLIENT_SECRET>"));
            }
            if args.client_secret.is_some() {
                return Err(repeated_argument_of("--client-secret <CLIENT_SECRET>"));
            }
            match inline_secret {
                Some(v) => {
                    args.client_secret = Some(v);
                    assert(login_view(args) == LoginModel { client_secret: Some(v@), ..st });
                    i = i + 1;
                },
                None => {
                    args.client_secret = Some(tokens[i + 1].clone());
                    assert(login_view(args) == LoginModel { client_secret: Some(ts[i + 1]), ..st });
                    i = i + 2;
                },
            }
            continue;
        }
        if is_flag_token(t) || args.tenant.is_some() {
            return Err(unexpected_argument_of(t));
        }
        args.tenant = Some(tokens[i].clone());
        assert(login_view(args) == LoginModel { tenant: Some(ts[i as int]), ..st });
        i = i + 1;
    }
    if (args.client_id.is_some() || args.client_secret.is_some()) && !args.service_principal {
        return Err(missing_required_of("--service-principal"));
    }
    Ok(args)
}

// ---------------------------------------------------------------------------
// Save arguments
// ---------------------------------------------------------------------------

/// The `--snapshot` and `--save` options of the inventory commands.
#[derive(Debug)]
pub struct SaveArguments {
    /// A snapshot file name or stem to read instead of the newest one.
    pub snapshot: Option<String>,
    /// Present when the output is saved; empty for a generated name.
    pub save: Option<String>,
}

/// The model of save arguments.
pub struct SaveModel {
    pub snapshot: Option<Seq<char>>,
    pub save: Option<Seq<char>>,
}

pub open spec fn save_view(a: SaveArguments) -> SaveModel {
    SaveModel { snapshot: opt_view(a.snapshot), save: opt_view(a.save) }
}

/// Reads `--snapshot <SNAPSHOT>` and `--save [<SAVE>]` from `i` (a value
/// also after `=`); a bare `--save` saves under a generated name.
pub open spec fn save_scan(ts: Seq<Seq<char>>, i: int, st: SaveModel, help: Seq<char>) -> Result<
    SaveModel,
    ParseErrorModel,
>
    decreases ts.len() - i,
{
    if i >= ts.len() {
        Ok(st)
    } else {
        let t = ts[i];
        if is_help(t) {
            Err(help_error(help))
        } else if t == "--snapshot"@ || inline_value(t, "--snapshot"@) is Some {
            let inline = inline_value(t, "--snapshot"@);
            if inline is None && (i + 1 >= ts.len() || is_flag(ts[i + 1])) {
                Err(missing_value("--snapshot <SNAPSHOT>"@))
            } else if st.snapshot is Some {
                Err(repeated_argument("--snapshot <SNAPSHOT>"@))
            } else {
                match inline {
                    Some(v) => save_scan(ts, i + 1, SaveModel { snapshot: Some(v), ..st }, help),
                    None => save_scan(ts, i + 2, SaveModel { snapshot: Some(ts[i + 1]), ..st }, help),
                }
            }
        } else if t == "--save"@ || inline_value(t, "--save"@) is Some {
            if st.save is Some {
                Err(repeated_argument("--save [<SAVE>]"@))
            } else {
                match inline_value(t, "--save"@) {
                    Some(v) => save_scan(ts, i + 1, SaveModel { save: Some(v), ..st }, help),
                    None => if i + 1 < ts.len() && !is_flag(ts[i + 1]) {
                        save_scan(ts, i + 2, SaveModel { save: Some(ts[i + 1]), ..st }, help)
                    } else {
                        save_scan(ts, i + 1, SaveModel { save: Some(Seq::empty()), ..st }, help)
                    },
                }
            }
        } else {
            Err(unexpected_argument(t))
        }
    }
}

pub open spec fn save_parse(ts: Seq<Seq<char>>, start: int, help: Seq<char>) -> Result<
    SaveModel,
    ParseErrorModel,
> {
    save_scan(ts, start, SaveModel { snapshot: None, save: None }, help)
}

/// Parses the options of an inventory command.
pub fn parse_save_arguments(tokens: &Vec<String>, start: usize, help: &str) -> (r: Result<
    SaveArguments,
    ParseError,
>)
    ensures
        match r {
            Ok(a) => save_parse(token_views(tokens@), start as int, help@) == Ok::<
                SaveModel,
                ParseErrorModel,
            >(save_view(a)),
            Err(e) => save_parse(token_views(tokens@), start as int, help@) == Err::<
                SaveModel,
                ParseErrorModel,
            >(error_view(e)),
        },
{
    let ghost ts = token_views(tokens@);
    let mut args = SaveArguments { snapshot: None, save: None };
    let mut i = start;
    while i < tokens.len()
        invariant
            ts == token_views(tokens@),
            save_parse(ts, start as int, help@) == save_scan(ts, i as int, save_view(args), help@),
        decreases tokens.len() - i,
    {
        let t = tokens[i].as_str();
        let ghost st = save_view(args);
        if is_help_token(t) {
            return Err(help_error_of(help));
        }
        let inline_snapshot = inline_value_of(t, "--snapshot");
        if text_equal(t, "--snapshot") || inline_snapshot.is_some() {
            if inline_snapshot.is_none() && (i + 1 >= tokens.len() || is_flag_token(
                tokens[i + 1].as_str(),
            )) {
                return Err(missing_value_of("--snapshot <SNAPSHOT>"));
            }
            if args.snapshot.is_some() {
                return Err(repeated_argument_of("--snapshot <SNAPSHOT>"));
            }
            match inline_snapshot {
                Some(v) => {
                    args.snapshot = Some(v);
                    assert(save_view(args) == SaveModel { snapshot: Some(v@), ..st });
                    i = i + 1;
                },
                None => {
                    args.snapshot = Some(tokens[i + 1].clone());
                    assert(save_view(args) == SaveModel { snapshot: Some(ts[i + 1]), ..st });
                    i = i + 2;
                },
            }
            continue;
        }
        let inline_save = inline_value_of(t, "--save");
        if text_equal(t, "--save") || inline_save.is_some() {
            if args.save.is_some() {
                return Err(repeated_argument_of("--save [<SAVE>]"));
            }
            match inline_save {
                Some(v) => {
                    args.save = Some(v);
                    assert(save_view(args) == SaveModel { save: Some(v@), ..st });
                    i = i + 1;
                },
                None => {
                    if i + 1 < tokens.len() && !is_flag_token(tokens[i + 1].as_str()) {
                        args.save = Some(tokens[i + 1].clone());
                        assert(save_view(args) == SaveModel { save: Some(ts[i + 1]), ..st });
                        i = i + 2;
                    } else {
                        args.save = Some(String::new());
                        assert(save_view(args) == SaveModel { save: Some(Seq::empty()), ..st });
                        i = i + 1;
                    }
                },
            }
            continue;
        }
        return Err(unexpected_argument_of(t));
    }
    Ok(args)
}

// ---------------------------------------------------------------------------
// Free text
// ---------------------------------------------------------------------------

/// Reads all tokens from `i` as text words; a flag is unexpected (or asks
/// for help where the help flag exists).
pub open spec fn words_scan(ts: Seq<Seq<char>>, i: int, help_flag: bool, help: Seq<char>) -> Result<
    Seq<Seq<char>>,
    ParseErrorModel,
>
    decreases ts.len() - i,
{
    if i >= ts.len() {
        Ok(Seq::empty())
    } else if help_flag && is_help(ts[i]) {
        Err(help_error(help))
    } else if is_flag(ts[i]) {
        Err(unexpected_argument(ts[i]))
    } else {
        match words_scan(ts, i + 1, help_flag, help) {
            Ok(rest) => Ok(seq![ts[i]] + rest),
            Err(e) => Err(e),
        }
    }
}

/// Parses the remaining tokens as text words.
pub fn parse_words(tokens: &Vec<String>, start: usize, help_flag: bool, help: &str) -> (r: Result<
    Vec<String>,
    ParseError,
>)
    ensures
        match r {
            Ok(w) => words_scan(token_views(tokens@), start as int, help_flag, help@) == Ok::<
                Seq<Seq<char>>,
                ParseErrorModel,
            >(token_views(w@)),
            Err(e) => words_scan(token_views(tokens@), start as int, help_flag, help@) == Err::<
                Seq<Seq<char>>,
                ParseErrorModel,
            >(error_view(e)),
        },
    decreases tokens.len() - start,
{
    if start >= tokens.len() {
        let empty: Vec<String> = Vec::new();
        assert(token_views(empty@) =~= Seq::<Seq<char>>::empty());
        return Ok(empty);
    }
    let t = tokens[start].as_str();
    if help_flag && is_help_token(t) {
        return Err(help_error_of(help));
    }
    if is_flag_token(t) {
        return Err(unexpected_argument_of(t));
    }
    match parse_words(tokens, start + 1, help_flag, help) {
        Ok(rest) => {
            let mut words: Vec<String> = Vec::new();
            words.push(tokens[start].clone());
            let mut k: usize = 0;
            assert(token_views(words@) =~= seq![token_views(tokens@)[start as int]] + token_views(
                rest@,
            ).take(0));
            while k < rest.len()
                invariant
                    start < tokens.len(),
                    k <= rest.len(),
                    token_views(words@) == seq![token_views(tokens@)[start as int]] + token_views(
                        rest@,
                    ).take(k as int),
                decreases rest.len() - k,
            {
                let ghost before = token_views(words@);
                words.push(rest[k].clone());
                assert(token_views(words@) =~= before.push(rest@[k as int]@));
                assert(token_views(rest@).take(k + 1) =~= token_views(rest@).take(k as int).push(
                    rest@[k as int]@,
                ));
                assert(token_views(words@) =~= seq![token_views(tokens@)[start as int]] + token_views(
                    rest@,
                ).take(k + 1));
                k = k + 1;
            }
            assert(token_views(rest@).take(rest.len() as int) =~= token_views(rest@));
            Ok(words)
        },
        Err(e) => Err(e),
    }
}

/// Scanning words from position `i` gives, when it succeeds, exactly the
/// tokens from `i` on.
pub proof fn lemma_words_scan_rest(ts: Seq<Seq<char>>, i: int, help_flag: bool, help: Seq<char>)
    requires
        0 <= i <= ts.len(),
    ensures
        words_scan(ts, i, help_flag, help) matches Ok(w) ==> w == ts.subrange(i, ts.len() as int),
    decreases ts.len() - i,
{
    if i < ts.len() {
        lemma_words_scan_rest(ts, i + 1, help_flag, help);
        if let Ok(w) = words_scan(ts, i, help_flag, help) {
            assert(w =~= ts.subrange(i, ts.len() as int));
        }
    } else {
        assert(ts.subrange(i, ts.len() as int) =~= Seq::<Seq<char>>::empty());
    }
}

} // verus!
