use vstd::prelude::*;

use crate::text::{lemma_split_on_nonempty, same_text, split, split_on, string_views};

verus! {

/// What a line typed at the prompt asks for.
#[derive(Debug, PartialEq)]
pub enum CommandType {
    Help,
    Build,
    Setup,
    Command(String),
    Unknown(String),
}

/// Why a line could not be classified.
#[derive(Debug, PartialEq)]
pub enum ReplError {
    /// The options of a `command` line could not be parsed (or asked for
    /// help); what the parser printed to standard output and to standard
    /// error, to be shown to the user.
    ParseCommand { stdout: Vec<u8>, stderr: Vec<u8> },
}

impl ReplError {
    /// The message that describes the error.
    pub fn message(&self) -> (res: String)
        ensures
            res@ == "parse command error"@,
    {
        match self {
            ReplError::ParseCommand { .. } => String::from_str("parse command error"),
        }
    }
}

/// Whether `name` is a long option name (`--` followed by at least one character).
pub open spec fn is_long_option(name: Seq<char>) -> bool {
    name.len() > 2 && name[0] == '-' && name[1] == '-'
}

/// What `argparse` gives for a string variable that starts out empty and
/// is bound to the single-value long option `option`, described by `help`,
/// after parsing `args` (`args[0]` being the program name): the final value
/// on success, or the exit code it reports on failure or after printing
/// help; then what it printed to standard output and to standard error.
pub uninterp spec fn argparse_store_option(args: Seq<Seq<char>>, option: Seq<char>, help: Seq<char>) -> (
    Result<Seq<char>, i32>,
    Seq<u8>,
    Seq<u8>,
);

/// A parse outcome seen as values.
pub open spec fn parsed_view(parsed: Result<String, i32>) -> Result<Seq<char>, i32> {
    match parsed {
        Ok(v) => Ok(v@),
        Err(c) => Err(c),
    }
}

/// `argparse::ArgumentParser::parse` with one string variable, initially
/// empty, stored by the long option `option` (described by `help`). What
/// the parser prints goes to two buffers, handed back beside the outcome.
/// The result is named by `argparse_store_option`.
#[verifier::external_body]
fn parse_store_option(args: Vec<String>, option: &str, help: &str) -> (res: (Result<String, i32>, Vec<u8>, Vec<u8>))
    requires
        is_long_option(option@),
    ensures
        argparse_store_option(string_views(args@), option@, help@) == (parsed_view(res.0), res.1@, res.2@),
{
    let mut value = String::new();
    let mut out: Vec<u8> = Vec::new();
    let mut err: Vec<u8> = Vec::new();
    let parsed = {
        let mut ap = argparse::ArgumentParser::new();
        ap.refer(&mut value).add_option(&[option], argparse::Store, help);
        ap.parse(args, &mut out, &mut err)
    };
    match parsed {
        Ok(()) => (Ok(value), out, err),
        Err(code) => (Err(code), out, err),
    }
}

/// The first word of a line: the text before its first space.
pub open spec fn first_word(line: Seq<char>) -> Seq<char> {
    split_on(line, ' ')[0]
}

/// The option that carries the input of a `command` line.
pub open spec fn input_option() -> Seq<char> {
    "--input"@
}

/// The description of that option.
pub open spec fn input_help() -> Seq<char> {
    "Output source"@
}

impl CommandType {
    /// Classifies a line by its first word: `help`, `build` and `setup`
    /// name their commands; `command` takes its `--input` option, parsed
    /// from the words of the line; any other line is unknown and kept whole.
    pub fn new(command: &str) -> (res: Result<CommandType, ReplError>)
        ensures
            first_word(command@) == "help"@ ==> res == Ok::<CommandType, ReplError>(CommandType::Help),
            first_word(command@) == "build"@ ==> res == Ok::<CommandType, ReplError>(CommandType::Build),
            first_word(command@) == "setup"@ ==> res == Ok::<CommandType, ReplError>(CommandType::Setup),
            first_word(command@) == "command"@ ==> Self::from_input_option_result(
                argparse_store_option(split_on(command@, ' '), input_option(), input_help()),
                res,
            ),
            first_word(command@) != "help"@ && first_word(command@) != "build"@
                && first_word(command@) != "setup"@ && first_word(command@) != "command"@
                ==> (res matches Ok(CommandType::Unknown(line)) && line@ == command@),
    {
        let words = split(command, ' ');
        proof {
            lemma_split_on_nonempty(command@, ' ');
            reveal_strlit("help");
            reveal_strlit("build");
            reveal_strlit("setup");
            reveal_strlit("command");
            assert("setup"@[0] != "build"@[0]);
        }
        let first = words[0].as_str();
        assert(first@ == first_word(command@));
        if same_text(first, "help") {
            Ok(CommandType::Help)
        } else if same_text(first, "build") {
            Ok(CommandType::Build)
        } else if same_text(first, "setup") {
            Ok(CommandType::Setup)
        } else if same_text(first, "command") {
            proof {
                reveal_strlit("--input");
                reveal_strlit("Output source");
            }
            let (parsed, stdout, stderr) = parse_store_option(words, "--input", "Output source");
            Self::from_input_option(parsed, stdout, stderr)
        } else {
            Ok(CommandType::Unknown(command.to_owned()))
        }
    }

    /// What a `command` line gives for the outcome of parsing its options
    /// and what the parser printed.
    pub open spec fn from_input_option_result(
        parsed: (Result<Seq<char>, i32>, Seq<u8>, Seq<u8>),
        res: Result<CommandType, ReplError>,
    ) -> bool {
        match parsed.0 {
            Ok(v) => (res matches Ok(CommandType::Command(input)) && input@ == v),
            Err(_) => (res matches Err(ReplError::ParseCommand { stdout, stderr }) && stdout@ == parsed.1
                && stderr@ == parsed.2),
        }
    }

    /// A `command` line whose options parsed gives its input; one whose
    /// options did not parse is an error carrying what the parser printed.
    pub fn from_input_option(parsed: Result<String, i32>, stdout: Vec<u8>, stderr: Vec<u8>) -> (res: Result<
        CommandType,
        ReplError,
    >)
        ensures
            Self::from_input_option_result((parsed_view(parsed), stdout@, stderr@), res),
    {
        match parsed {
            Ok(input) => Ok(CommandType::Command(input)),
            Err(_) => Err(ReplError::ParseCommand { stdout, stderr }),
        }
    }
}

} // verus!
