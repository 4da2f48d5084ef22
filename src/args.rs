//! Command-line parsing: the subcommand, the clipboard and limit flags, and
//! the file, directory and pattern arguments.

use vstd::prelude::*;
use crate::text::{has_prefix, parse_usize, parse_usize_spec, same_text};

verus! {

/// Why a command line was refused.
#[derive(PartialEq, Eq, Structural, Clone, Copy, Debug)]
pub enum CliError {
    /// No subcommand follows the program name.
    NoCommand,
    /// The subcommand is neither `cat-llm` nor `llm-cat`.
    UnsupportedCommand,
    /// `-l` or `--limit` is the last token.
    MissingLimitValue,
    /// The value of `-l N`, `--limit N` or `--limit=N` is not an unsigned integer.
    InvalidLimitValue,
    /// The value of `-l=N` is not an unsigned integer.
    InvalidShortLimitValue,
}

impl CliError {
    /// The text reported to the user for this error.
    pub fn message(&self) -> (r: String)
        ensures
            r@ == cli_error_message(*self),
    {
        match self {
            CliError::NoCommand => String::from_str("No command found"),
            CliError::UnsupportedCommand => String::from_str("unsupported command"),
            CliError::MissingLimitValue => String::from_str("No argument passed to `--limit`."),
            CliError::InvalidLimitValue => String::from_str(
                "Invalid value passed to `--limit`. It must be an unsigned integer.",
            ),
            CliError::InvalidShortLimitValue => String::from_str(
                "Invalid value passed to `-l`. It must be an unsigned integer.",
            ),
        }
    }
}

/// The text reported to the user for each error.
pub open spec fn cli_error_message(e: CliError) -> Seq<char> {
    match e {
        CliError::NoCommand => "No command found"@,
        CliError::UnsupportedCommand => "unsupported command"@,
        CliError::MissingLimitValue => "No argument passed to `--limit`."@,
        CliError::InvalidLimitValue => "Invalid value passed to `--limit`. It must be an unsigned integer."@,
        CliError::InvalidShortLimitValue => "Invalid value passed to `-l`. It must be an unsigned integer."@,
    }
}

/// The options of one invocation.
pub struct CatLlmArgs {
    /// Send the payload to the clipboard rather than to standard output.
    pub clipboard: bool,
    /// Keep at most this many lines of each file.
    pub limit: Option<usize>,
    /// The file, directory and pattern arguments; after expansion, the files.
    pub filenames: Vec<String>,
}

/// What a `CatLlmArgs` holds, with each name as its characters.
pub struct ArgsModel {
    pub clipboard: bool,
    pub limit: Option<usize>,
    pub filenames: Seq<Seq<char>>,
}

/// The options before any token is read: no clipboard, no limit, no names.
pub open spec fn initial_args() -> ArgsModel {
    ArgsModel { clipboard: false, limit: None, filenames: Seq::empty() }
}

/// The characters of each string.
pub open spec fn texts_of(v: Seq<String>) -> Seq<Seq<char>> {
    v.map_values(|s: String| s@)
}

impl View for CatLlmArgs {
    type V = ArgsModel;

    open spec fn view(&self) -> ArgsModel {
        ArgsModel {
            clipboard: self.clipboard,
            limit: self.limit,
            filenames: texts_of(self.filenames@),
        }
    }
}

impl Default for CatLlmArgs {
    fn default() -> (r: Self)
        ensures
            r@ == initial_args(),
    {
        let r = CatLlmArgs { clipboard: false, limit: None, filenames: Vec::new() };
        assert(r@.filenames =~= Seq::<Seq<char>>::empty());
        r
    }
}

/// Reads the option tokens left to right, starting from the options `acc`.
/// A later limit overrides an earlier one; the first bad token decides the error.
pub open spec fn parse_tokens(toks: Seq<Seq<char>>, acc: ArgsModel) -> Result<ArgsModel, CliError>
    decreases toks.len(),
{
    if toks.len() == 0 {
        Ok(acc)
    } else {
        let t = toks[0];
        if t == "-cb"@ || t == "--clipboard"@ {
            parse_tokens(
                toks.drop_first(),
                ArgsModel { clipboard: true, limit: acc.limit, filenames: acc.filenames },
            )
        } else if t == "-l"@ || t == "--limit"@ {
            if toks.len() < 2 {
                Err(CliError::MissingLimitValue)
            } else {
                match parse_usize_spec(toks[1]) {
                    Some(n) => parse_tokens(
                        toks.skip(2),
                        ArgsModel { clipboard: acc.clipboard, limit: Some(n), filenames: acc.filenames },
                    ),
                    None => Err(CliError::InvalidLimitValue),
                }
            }
        } else if "-l="@.is_prefix_of(t) {
            match parse_usize_spec(t.skip("-l="@.len() as int)) {
                Some(n) => parse_tokens(
                    toks.drop_first(),
                    ArgsModel { clipboard: acc.clipboard, limit: Some(n), filenames: acc.filenames },
                ),
                None => Err(CliError::InvalidShortLimitValue),
            }
        } else if "--limit="@.is_prefix_of(t) {
            match parse_usize_spec(t.skip("--limit="@.len() as int)) {
                Some(n) => parse_tokens(
                    toks.drop_first(),
                    ArgsModel { clipboard: acc.clipboard, limit: Some(n), filenames: acc.filenames },
                ),
                None => Err(CliError::InvalidLimitValue),
            }
        } else {
            parse_tokens(
                toks.drop_first(),
                ArgsModel {
                    clipboard: acc.clipboard,
                    limit: acc.limit,
                    filenames: acc.filenames.push(t),
                },
            )
        }
    }
}

/// The tokens after the program name and the subcommand.
pub open spec fn option_tokens(args: Seq<Seq<char>>) -> Seq<Seq<char>> {
    if args.len() <= 2 {
        Seq::empty()
    } else {
        args.skip(2)
    }
}

/// The options that a whole argument vector (program name and subcommand first) gives.
pub open spec fn parse_args_spec(args: Seq<Seq<char>>) -> Result<ArgsModel, CliError> {
    parse_tokens(option_tokens(args), initial_args())
}

/// Whether `c` names the one supported command.
pub open spec fn is_supported_command(c: Seq<char>) -> bool {
    c == "cat-llm"@ || c == "llm-cat"@
}

/// What a whole command line gives: an error for a missing or unknown
/// subcommand, else the options after it.
pub open spec fn command_line_spec(args: Seq<Seq<char>>) -> Result<ArgsModel, CliError> {
    if args.len() <= 1 {
        Err(CliError::NoCommand)
    } else if !is_supported_command(args[1]) {
        Err(CliError::UnsupportedCommand)
    } else {
        parse_args_spec(args)
    }
}

/// The parse result with the options in their model.
pub open spec fn parsed_view(r: Result<CatLlmArgs, CliError>) -> Result<ArgsModel, CliError> {
    match r {
        Ok(a) => Ok(a@),
        Err(e) => Err(e),
    }
}

impl CatLlmArgs {
    /// Reads the options from a whole argument vector; the first two entries
    /// (program name and subcommand) are not read.
    pub fn from(cli_args: Vec<String>) -> (r: Result<Self, CliError>)
        ensures
            parsed_view(r) == parse_args_spec(texts_of(cli_args@)),
    {
        let ghost all = texts_of(cli_args@);
        let mut final_args = Self::default();
        let n = cli_args.len();
        if n <= 2 {
            return Ok(final_args);
        }
        let mut i: usize = 2;
        assert(option_tokens(all) =~= all.skip(2));
        while i < n
            invariant
                2 <= i <= n,
                n == cli_args.len(),
                all == texts_of(cli_args@),
                parse_args_spec(all) == parse_tokens(all.skip(i as int), final_args@),
            decreases n - i,
        {
            let ghost toks = all.skip(i as int);
            let ghost before = final_args@;
            assert(toks[0] == cli_args@[i as int]@);
            assert(toks.drop_first() =~= all.skip(i + 1));
            let tok: &str = cli_args[i].as_str();
            if same_text(tok, "-cb") || same_text(tok, "--clipboard") {
                final_args.clipboard = true;
                assert(final_args@.filenames == before.filenames);
            } else if same_text(tok, "-l") || same_text(tok, "--limit") {
                if i >= n - 1 {
                    return Err(CliError::MissingLimitValue);
                }
                assert(toks[1] == cli_args@[i + 1]@);
                assert(toks.skip(2) =~= all.skip(i + 2));
                match parse_usize(cli_args[i + 1].as_str()) {
                    Some(lim) => {
                        final_args.limit = Some(lim);
                        assert(final_args@.filenames == before.filenames);
                    },
                    None => {
                        return Err(CliError::InvalidLimitValue);
                    },
                }
                i = i + 1;
            } else if has_prefix(tok, "-l=") {
                let from = "-l=".unicode_len();
                let value = tok.substring_char(from, tok.unicode_len());
                assert(value@ =~= tok@.skip(from as int));
                match parse_usize(value) {
                    Some(lim) => {
                        final_args.limit = Some(lim);
                        assert(final_args@.filenames == before.filenames);
                    },
                    None => {
                        return Err(CliError::InvalidShortLimitValue);
                    },
                }
            } else if has_prefix(tok, "--limit=") {
                let from = "--limit=".unicode_len();
                let value = tok.substring_char(from, tok.unicode_len());
                assert(value@ =~= tok@.skip(from as int));
                match parse_usize(value) {
                    Some(lim) => {
                        final_args.limit = Some(lim);
                        assert(final_args@.filenames == before.filenames);
                    },
                    None => {
                        return Err(CliError::InvalidLimitValue);
                    },
                }
            } else {
                final_args.filenames.push(tok.to_owned());
                assert(final_args@.filenames =~= before.filenames.push(toks[0]));
            }
            i = i + 1;
        }
        assert(all.skip(n as int) =~= Seq::<Seq<char>>::empty());
        Ok(final_args)
    }
}

/// Reads a whole command line: checks the subcommand, then the options after it.
pub fn parse_command_line(args: Vec<String>) -> (r: Result<CatLlmArgs, CliError>)
    ensures
        parsed_view(r) == command_line_spec(texts_of(args@)),
{
    if args.len() <= 1 {
        return Err(CliError::NoCommand);
    }
    let command: &str = args[1].as_str();
    assert(texts_of(args@)[1] == args@[1]@);
    if !(same_text(command, "cat-llm") || same_text(command, "llm-cat")) {
        return Err(CliError::UnsupportedCommand);
    }
    CatLlmArgs::from(args)
}

} // verus!
