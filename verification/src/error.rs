//! What can be wrong with a TEI command.

use vstd::prelude::*;
use vstd::string::*;

use crate::number::decimal;
use crate::number::decimal_text;

verus! {

/// Why a TEI command line was refused.
#[derive(Debug, PartialEq, Eq)]
pub enum TeiError {
    /// The line holds no word.
    EmptyLine,
    /// The first word, which is given, is no command.
    UnknownCommand(String),
    /// `setoption` is not followed by `name`, a known option and `value`.
    InvalidSetOption,
    /// The value of `HalfKomi` is no number or no legal komi.
    InvalidKomi,
    /// The value of `MultiPV` is no number from 1 to 8.
    InvalidMultiPv,
    /// `teinewgame` names this size; zero stands for no number at all.
    UnsupportedSize(usize),
    /// `position` came before any `teinewgame`.
    PositionBeforeNewGame,
    /// `go` came before any `teinewgame`.
    GoBeforeNewGame,
    /// `go` came before any `position`.
    PositionNotSet,
    /// `position` is followed by neither `startpos` nor `tps`.
    ExpectedRoot,
    /// The TPS string was refused, for the reason given.
    InvalidTps(String),
    /// This word stands where `moves` was expected.
    ExpectedMoves(String),
    /// A move was refused, for the reason given.
    InvalidMove(String),
    /// `go` is followed by no known search mode.
    InvalidGo,
    /// `movetime` is followed by no number of milliseconds.
    InvalidMoveTime,
    /// A clock word is followed by no number of milliseconds.
    IncorrectGo,
    /// The search ran out of round numbers.
    RoundsSpent,
}

impl TeiError {
    /// What is reported of this error, where `line` is the line that caused it.
    pub open spec fn text(self, line: Seq<char>) -> Seq<char> {
        match self {
            TeiError::EmptyLine => "Empty command"@,
            TeiError::UnknownCommand(word) => "Unknown command \""@ + word@ + "\""@,
            TeiError::InvalidSetOption => "Invalid setoption string \""@ + line + "\""@,
            TeiError::InvalidKomi => "Invalid komi setting \""@ + line + "\""@,
            TeiError::InvalidMultiPv => "Invalid MultiPV setting \""@ + line + "\""@,
            TeiError::UnsupportedSize(size) => "Error: Unsupported size "@ + decimal(size as nat),
            TeiError::PositionBeforeNewGame =>
                "Received position without receiving teinewgame string"@,
            TeiError::GoBeforeNewGame =>
                "Error: Received go without receiving teinewgame string"@,
            TeiError::PositionNotSet => "position must be set before go"@,
            TeiError::ExpectedRoot => "Expected \"startpos\" or \"tps\" to specify position."@,
            TeiError::InvalidTps(reason) => "Invalid TPS: "@ + reason@,
            TeiError::ExpectedMoves(word) => "Expected \"moves\" in \""@ + line + "\", got \""@
                + word@ + "\"."@,
            TeiError::InvalidMove(reason) => "Invalid move: "@ + reason@,
            TeiError::InvalidGo => "Invalid go command \""@ + line + "\""@,
            TeiError::InvalidMoveTime => "Invalid movetime in \""@ + line + "\""@,
            TeiError::IncorrectGo => "Incorrect go command "@ + line,
            TeiError::RoundsSpent => "Search rounds spent"@,
        }
    }

    /// Writes down what is reported of this error.
    pub fn message(&self, line: &str) -> (message: String)
        ensures
            message@ == self.text(line@),
    {
        match self {
            TeiError::EmptyLine => "Empty command".to_owned(),
            TeiError::UnknownCommand(word) => quoted("Unknown command \"", word.as_str()),
            TeiError::InvalidSetOption => quoted("Invalid setoption string \"", line),
            TeiError::InvalidKomi => quoted("Invalid komi setting \"", line),
            TeiError::InvalidMultiPv => quoted("Invalid MultiPV setting \"", line),
            TeiError::UnsupportedSize(size) => {
                let number = decimal_text(*size as u128);
                "Error: Unsupported size ".to_owned().concat(number.as_str())
            },
            TeiError::PositionBeforeNewGame =>
                "Received position without receiving teinewgame string".to_owned(),
            TeiError::GoBeforeNewGame =>
                "Error: Received go without receiving teinewgame string".to_owned(),
            TeiError::PositionNotSet => "position must be set before go".to_owned(),
            TeiError::ExpectedRoot =>
                "Expected \"startpos\" or \"tps\" to specify position.".to_owned(),
            TeiError::InvalidTps(reason) => "Invalid TPS: ".to_owned().concat(reason.as_str()),
            TeiError::ExpectedMoves(word) => {
                let mut out = "Expected \"moves\" in \"".to_owned();
                out.append(line);
                out.append("\", got \"");
                out.append(word.as_str());
                out.append("\".");
                out
            },
            TeiError::InvalidMove(reason) => "Invalid move: ".to_owned().concat(reason.as_str()),
            TeiError::InvalidGo => quoted("Invalid go command \"", line),
            TeiError::InvalidMoveTime => quoted("Invalid movetime in \"", line),
            TeiError::IncorrectGo => "Incorrect go command ".to_owned().concat(line),
            TeiError::RoundsSpent => "Search rounds spent".to_owned(),
        }
    }
}

/// `start`, which opens a quotation, then `text` and the closing quotation mark.
fn quoted(start: &str, text: &str) -> (out: String)
    ensures
        out@ == start@ + text@ + "\""@,
{
    let mut out = start.to_owned();
    out.append(text);
    out.append("\"");
    out
}

} // verus!
