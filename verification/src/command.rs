//! The command language: one command per script line, parsed from
//! whitespace-separated tokens.

use vstd::prelude::*;
use crate::text::{join_spaces, tokenize, tokens_of};

verus! {

/// A decoded script command.
pub enum Command {
    /// `dir <path>`: change the working directory.
    ChangeDirectory { target: String },
    /// `mkdir <path>`: create the directory and all missing parents.
    MakeDirectory { name: String },
    /// `make <path>`: create an empty file, truncating an existing one.
    MakeFile { name: String },
    /// `print <text...>`: write the text to standard output.
    Print { text: String },
    /// `move <src> <dest>`: rename `src` to `dest`.
    Move { source: String, destination: String },
    /// `chmod <path>`: set the target's permissions to owner
    /// read/write/execute (forward only; has no inverse).
    SetExecutable { target: String },
    /// Any line whose first token is not a known command name; always an
    /// error report, never a silent no-op.
    Unknown { token: String },
}

/// The mathematical value of a [`Command`]: the same shape over `Seq<char>`.
pub enum CommandView {
    ChangeDirectory { target: Seq<char> },
    MakeDirectory { name: Seq<char> },
    MakeFile { name: Seq<char> },
    Print { text: Seq<char> },
    Move { source: Seq<char>, destination: Seq<char> },
    SetExecutable { target: Seq<char> },
    Unknown { token: Seq<char> },
}

impl View for Command {
    type V = CommandView;

    open spec fn view(&self) -> CommandView {
        match self {
            Command::ChangeDirectory { target } => CommandView::ChangeDirectory {
                target: target@,
            },
            Command::MakeDirectory { name } => CommandView::MakeDirectory { name: name@ },
            Command::MakeFile { name } => CommandView::MakeFile { name: name@ },
            Command::Print { text } => CommandView::Print { text: text@ },
            Command::Move { source, destination } => CommandView::Move {
                source: source@,
                destination: destination@,
            },
            Command::SetExecutable { target } => CommandView::SetExecutable { target: target@ },
            Command::Unknown { token } => CommandView::Unknown { token: token@ },
        }
    }
}

impl DeepView for Command {
    type V = CommandView;

    open spec fn deep_view(&self) -> CommandView {
        self.view()
    }
}

/// A malformed line: a known command name with too few arguments. Reported,
/// never fatal.
#[derive(Clone, Copy, Debug, PartialEq, Eq, Structural)]
pub enum ParseError {
    DirMissingArgument,
    MkdirMissingArgument,
    MakeMissingArgument,
    PrintMissingArgument,
    MoveMissingArguments,
    ChmodMissingArgument,
}

impl ParseError {
    /// The report text for this error.
    pub open spec fn spec_message(self) -> Seq<char> {
        match self {
            ParseError::DirMissingArgument => "dir requires a directory name"@,
            ParseError::MkdirMissingArgument => "mkdir requires a directory name"@,
            ParseError::MakeMissingArgument => "make requires a file name"@,
            ParseError::PrintMissingArgument => "print requires a string to print"@,
            ParseError::MoveMissingArguments => "move requires source and destination"@,
            ParseError::ChmodMissingArgument => "chmod requires a file name"@,
        }
    }

    /// Returns the report text for this error.
    pub fn message(&self) -> (r: &'static str)
        ensures
            r@ == self.spec_message(),
    {
        match self {
            ParseError::DirMissingArgument => "dir requires a directory name",
            ParseError::MkdirMissingArgument => "mkdir requires a directory name",
            ParseError::MakeMissingArgument => "make requires a file name",
            ParseError::PrintMissingArgument => "print requires a string to print",
            ParseError::MoveMissingArguments => "move requires source and destination",
            ParseError::ChmodMissingArgument => "chmod requires a file name",
        }
    }
}

/// What parsing one line yields: nothing (blank line), a command, or a
/// malformed-line error.
pub open spec fn spec_parse(toks: Seq<Seq<char>>) -> Option<Result<CommandView, ParseError>> {
    if toks.len() == 0 {
        None
    } else if toks[0] == "dir"@ {
        if toks.len() < 2 {
            Some(Err(ParseError::DirMissingArgument))
        } else {
            Some(Ok(CommandView::ChangeDirectory { target: toks[1] }))
        }
    } else if toks[0] == "mkdir"@ {
        if toks.len() < 2 {
            Some(Err(ParseError::MkdirMissingArgument))
        } else {
            Some(Ok(CommandView::MakeDirectory { name: toks[1] }))
        }
    } else if toks[0] == "make"@ {
        if toks.len() < 2 {
            Some(Err(ParseError::MakeMissingArgument))
        } else {
            Some(Ok(CommandView::MakeFile { name: toks[1] }))
        }
    } else if toks[0] == "print"@ {
        if toks.len() < 2 {
            Some(Err(ParseError::PrintMissingArgument))
        } else {
            Some(Ok(CommandView::Print {
                text: join_spaces(toks.subrange(1, toks.len() as int)),
            }))
        }
    } else if toks[0] == "move"@ {
        if toks.len() < 3 {
            Some(Err(ParseError::MoveMissingArguments))
        } else {
            Some(Ok(CommandView::Move { source: toks[1], destination: toks[2] }))
        }
    } else if toks[0] == "chmod"@ {
        if toks.len() < 2 {
            Some(Err(ParseError::ChmodMissingArgument))
        } else {
            Some(Ok(CommandView::SetExecutable { target: toks[1] }))
        }
    } else {
        Some(Ok(CommandView::Unknown { token: toks[0] }))
    }
}

/// The value of a parse result, for stating contracts.
pub open spec fn parsed_view(r: Option<Result<Command, ParseError>>) -> Option<
    Result<CommandView, ParseError>,
> {
    match r {
        None => None,
        Some(Ok(c)) => Some(Ok(c@)),
        Some(Err(e)) => Some(Err(e)),
    }
}

/// Parses a token list into a command. `None` for an empty list (a blank
/// line); an error for a known command name with too few arguments.
pub fn parse_tokens(toks: &Vec<String>) -> (r: Option<Result<Command, ParseError>>)
    ensures
        parsed_view(r) == spec_parse(toks.deep_view()),
{
    if toks.len() == 0 {
        return None;
    }
    let head = &toks[0];
    if *head == "dir".to_owned() {
        if toks.len() < 2 {
            Some(Err(ParseError::DirMissingArgument))
        } else {
            Some(Ok(Command::ChangeDirectory { target: toks[1].clone() }))
        }
    } else if *head == "mkdir".to_owned() {
        if toks.len() < 2 {
            Some(Err(ParseError::MkdirMissingArgument))
        } else {
            Some(Ok(Command::MakeDirectory { name: toks[1].clone() }))
        }
    } else if *head == "make".to_owned() {
        if toks.len() < 2 {
            Some(Err(ParseError::MakeMissingArgument))
        } else {
            Some(Ok(Command::MakeFile { name: toks[1].clone() }))
        }
    } else if *head == "print".to_owned() {
        if toks.len() < 2 {
            Some(Err(ParseError::PrintMissingArgument))
        } else {
            Some(Ok(Command::Print { text: join_rest(toks) }))
        }
    } else if *head == "move".to_owned() {
        if toks.len() < 3 {
            Some(Err(ParseError::MoveMissingArguments))
        } else {
            Some(Ok(Command::Move {
                source: toks[1].clone(),
                destination: toks[2].clone(),
            }))
        }
    } else if *head == "chmod".to_owned() {
        if toks.len() < 2 {
            Some(Err(ParseError::ChmodMissingArgument))
        } else {
            Some(Ok(Command::SetExecutable { target: toks[1].clone() }))
        }
    } else {
        Some(Ok(Command::Unknown { token: toks[0].clone() }))
    }
}

/// Rejoins all tokens after the command name with single spaces; the
/// reconstructed `print` message.
fn join_rest(toks: &Vec<String>) -> (r: String)
    requires
        toks@.len() >= 2,
    ensures
        r@ == join_spaces(toks.deep_view().subrange(1, toks.deep_view().len() as int)),
{
    let ghost all = toks.deep_view();
    let mut text = toks[1].clone();
    let mut k: usize = 2;
    proof {
        assert(all.subrange(1, 2) =~= seq![all[1]]);
    }
    while k < toks.len()
        invariant
            2 <= k <= toks@.len(),
            all == toks.deep_view(),
            all.len() == toks@.len(),
            text@ == join_spaces(all.subrange(1, k as int)),
        decreases toks@.len() - k,
    {
        text.append(" ");
        text.append(toks[k].as_str());
        proof {
            reveal_strlit(" ");
            assert(" "@ =~= seq![' ']);
            assert(all.subrange(1, k + 1 as int).drop_last() =~= all.subrange(1, k as int));
            assert(all.subrange(1, k + 1 as int).last() == all[k as int]);
        }
        k = k + 1;
    }
    proof {
        assert(all.subrange(1, k as int) =~= all.subrange(1, all.len() as int));
    }
    text
}

/// Parses one line of script text: splits it into tokens and decodes them.
pub fn parse_line(line: &str) -> (r: Option<Result<Command, ParseError>>)
    ensures
        parsed_view(r) == spec_parse(tokens_of(line@)),
{
    let toks = tokenize(line);
    parse_tokens(&toks)
}

} // verus!
