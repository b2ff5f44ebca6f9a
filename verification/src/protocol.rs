//! The lines of the TEI protocol: the handshake, the commands and the options.

use vstd::prelude::*;
use vstd::string::*;

use crate::error::TeiError;
use crate::number::parse_i8;
use crate::number::parse_usize;
use crate::number::signed_value;
use crate::number::unsigned_value;
use crate::number::within;
use crate::text::chars_of;
use crate::text::same_text;
use crate::text::split_words;
use crate::text::trim;
use crate::text::trimmed;
use crate::text::views;
use crate::text::words;

verus! {

// ---------------------------------------------------------------------------
// The handshake
// ---------------------------------------------------------------------------

/// Whether `line` opens the protocol.
pub fn is_handshake(line: &str) -> (yes: bool)
    ensures
        yes == (trim(line@) == "tei"@),
{
    let chars = chars_of(line);
    let word = trimmed(chars.as_slice());
    proof {
        reveal_strlit("tei");
        assert("tei"@ =~= seq!['t', 'e', 'i']);
        if word@.len() == 3 && word@[0] == 't' && word@[1] == 'e' && word@[2] == 'i' {
            assert(word@ =~= seq!['t', 'e', 'i']);
        }
    }
    word.len() == 3 && word[0] == 't' && word[1] == 'e' && word[2] == 'i'
}

/// The lines that answer the handshake.
pub fn greeting() -> (lines: Vec<&'static str>)
    ensures
        views(lines@) == seq![
            "id name Tiltak"@,
            "id author Morten Lohne"@,
            "option name HalfKomi type spin default 0 min -10 max 10"@,
            "option name MultiPV type spin default 1 min 1 max 8"@,
            "teiok"@,
        ],
{
    let mut lines: Vec<&'static str> = Vec::new();
    lines.push("id name Tiltak");
    lines.push("id author Morten Lohne");
    lines.push("option name HalfKomi type spin default 0 min -10 max 10");
    lines.push("option name MultiPV type spin default 1 min 1 max 8");
    lines.push("teiok");
    lines
}

// ---------------------------------------------------------------------------
// Commands
// ---------------------------------------------------------------------------

/// The commands of the protocol.
#[derive(Debug, Clone, Copy, PartialEq, Eq, Structural)]
pub enum Command {
    Quit,
    Stop,
    IsReady,
    SetOption,
    NewGame,
    Position,
    Go,
}

impl Command {
    /// The word that a line with this command starts with.
    pub open spec fn word(self) -> Seq<char> {
        match self {
            Command::Quit => "quit"@,
            Command::Stop => "stop"@,
            Command::IsReady => "isready"@,
            Command::SetOption => "setoption"@,
            Command::NewGame => "teinewgame"@,
            Command::Position => "position"@,
            Command::Go => "go"@,
        }
    }
}

/// Whether `word` starts a command.
pub open spec fn is_command_word(word: Seq<char>) -> bool {
    exists|command: Command| #[trigger] command.word() == word
}

/// No two commands start with the same word.
pub proof fn law_command_words_differ(a: Command, b: Command)
    requires
        a.word() == b.word(),
    ensures
        a == b,
{
    reveal_strlit("quit");
    reveal_strlit("stop");
    reveal_strlit("isready");
    reveal_strlit("setoption");
    reveal_strlit("teinewgame");
    reveal_strlit("position");
    reveal_strlit("go");
    assert("quit"@.len() == 4 && "stop"@.len() == 4 && "isready"@.len() == 7);
    assert("setoption"@.len() == 9 && "teinewgame"@.len() == 10 && "position"@.len() == 8);
    assert("go"@.len() == 2);
    assert("quit"@[0] != "stop"@[0]);
}

/// Reads which command `line` starts with.
pub fn parse_command(line: &str) -> (command: Result<Command, TeiError>)
    ensures
        match command {
            Ok(command) => words(line@).len() > 0 && words(line@)[0] == command.word(),
            Err(TeiError::EmptyLine) => words(line@).len() == 0,
            Err(TeiError::UnknownCommand(word)) => words(line@).len() > 0 && words(line@)[0]
                == word@ && !is_command_word(word@),
            Err(_) => false,
        },
{
    let list = split_words(line);
    if list.len() == 0 {
        return Err(TeiError::EmptyLine);
    }
    let word = list[0];
    assert(words(line@)[0] == word@);
    if same_text(word, "quit") {
        Ok(Command::Quit)
    } else if same_text(word, "stop") {
        Ok(Command::Stop)
    } else if same_text(word, "isready") {
        Ok(Command::IsReady)
    } else if same_text(word, "setoption") {
        Ok(Command::SetOption)
    } else if same_text(word, "teinewgame") {
        Ok(Command::NewGame)
    } else if same_text(word, "position") {
        Ok(Command::Position)
    } else if same_text(word, "go") {
        Ok(Command::Go)
    } else {
        assert(!is_command_word(word@));
        Err(TeiError::UnknownCommand(word.to_owned()))
    }
}

/// What happens to a running search before a command is carried out.
#[derive(Debug, Clone, Copy, PartialEq, Eq, Structural)]
pub struct WorkerOrders {
    /// The stop flag is raised.
    pub raise_stop: bool,
    /// The search is waited for.
    pub wait: bool,
    /// The stop flag is lowered again.
    pub lower_stop: bool,
}

impl Command {
    /// What happens to a running search before this command is carried out. `quit` and `stop`
    /// end it, the commands that change the position or start another search wait for it, and
    /// the others leave it alone. The flag stays up only when the program ends.
    pub open spec fn worker_orders_value(self) -> WorkerOrders {
        WorkerOrders {
            raise_stop: self == Command::Quit || self == Command::Stop,
            wait: self != Command::IsReady && self != Command::SetOption,
            lower_stop: self == Command::Stop,
        }
    }

    /// Says what happens to a running search before this command is carried out.
    pub fn worker_orders(&self) -> (orders: WorkerOrders)
        ensures
            orders == self.worker_orders_value(),
    {
        match self {
            Command::Quit => WorkerOrders { raise_stop: true, wait: true, lower_stop: false },
            Command::Stop => WorkerOrders { raise_stop: true, wait: true, lower_stop: true },
            Command::IsReady | Command::SetOption => WorkerOrders {
                raise_stop: false,
                wait: false,
                lower_stop: false,
            },
            Command::NewGame | Command::Position | Command::Go => WorkerOrders {
                raise_stop: false,
                wait: true,
                lower_stop: false,
            },
        }
    }
}

// ---------------------------------------------------------------------------
// Arguments
// ---------------------------------------------------------------------------

/// An option and its value.
#[derive(Debug, Clone, Copy, PartialEq, Eq, Structural)]
pub enum OptionValue {
    /// The komi, in half points.
    HalfKomi(i8),
    /// How many lines to report.
    MultiPv(usize),
}

/// What the words of a `setoption` command set. The first word is the command itself.
pub open spec fn option_value(list: Seq<Seq<char>>) -> Result<OptionValue, TeiError> {
    if list.len() < 4 || list[1] != "name"@ || (list[2] != "HalfKomi"@ && list[2] != "MultiPV"@)
        || list[3] != "value"@ {
        Err(TeiError::InvalidSetOption)
    } else {
        let value = if list.len() > 4 {
            list[4]
        } else {
            Seq::empty()
        };
        if list[2] == "HalfKomi"@ {
            match within(signed_value(value), i8::MIN as int, i8::MAX as int) {
                Some(n) => Ok(OptionValue::HalfKomi(n as i8)),
                None => Err(TeiError::InvalidKomi),
            }
        } else {
            match within(unsigned_value(value), 1, 8) {
                Some(n) => Ok(OptionValue::MultiPv(n as usize)),
                None => Err(TeiError::InvalidMultiPv),
            }
        }
    }
}

/// Reads a `setoption` command.
pub fn parse_option(line: &str) -> (option: Result<OptionValue, TeiError>)
    ensures
        option == option_value(words(line@)),
{
    let list = split_words(line);
    let ghost all = words(line@);
    if list.len() < 4 {
        return Err(TeiError::InvalidSetOption);
    }
    assert(all[1] == list@[1]@ && all[2] == list@[2]@ && all[3] == list@[3]@);
    let half_komi = same_text(list[2], "HalfKomi");
    if !same_text(list[1], "name") || (!half_komi && !same_text(list[2], "MultiPV"))
        || !same_text(list[3], "value") {
        return Err(TeiError::InvalidSetOption);
    }
    if list.len() == 4 {
        return if half_komi {
            Err(TeiError::InvalidKomi)
        } else {
            Err(TeiError::InvalidMultiPv)
        };
    }
    assert(all[4] == list@[4]@);
    if half_komi {
        match parse_i8(list[4]) {
            Some(n) => Ok(OptionValue::HalfKomi(n)),
            None => Err(TeiError::InvalidKomi),
        }
    } else {
        match parse_usize(list[4]) {
            Some(n) => if 1 <= n && n <= 8 {
                Ok(OptionValue::MultiPv(n))
            } else {
                Err(TeiError::InvalidMultiPv)
            },
            None => Err(TeiError::InvalidMultiPv),
        }
    }
}

/// The board sizes that games are played on.
pub open spec fn is_playable(size: usize) -> bool {
    4 <= size <= 7
}

/// The number behind `teinewgame`, if there is one that fits.
pub open spec fn named_size(list: Seq<Seq<char>>) -> Option<int> {
    if list.len() < 2 {
        None
    } else {
        within(unsigned_value(list[1]), 0, usize::MAX as int)
    }
}

/// The board size that the words of a `teinewgame` command name. The first word is the
/// command itself.
pub open spec fn new_game_value(list: Seq<Seq<char>>) -> Result<usize, TeiError> {
    match named_size(list) {
        Some(size) => if is_playable(size as usize) {
            Ok(size as usize)
        } else {
            Err(TeiError::UnsupportedSize(size as usize))
        },
        None => Err(TeiError::UnsupportedSize(0)),
    }
}

/// Reads a `teinewgame` command.
pub fn parse_new_game(line: &str) -> (size: Result<usize, TeiError>)
    ensures
        size == new_game_value(words(line@)),
{
    let list = split_words(line);
    if list.len() < 2 {
        return Err(TeiError::UnsupportedSize(0));
    }
    assert(words(line@)[1] == list@[1]@);
    match parse_usize(list[1]) {
        Some(size) => if 4 <= size && size <= 7 {
            Ok(size)
        } else {
            Err(TeiError::UnsupportedSize(size))
        },
        None => Err(TeiError::UnsupportedSize(0)),
    }
}

/// A command that raises the stop flag lowers it again, but for the one that ends the program,
/// and only after waiting for the search.
pub proof fn law_stop_flag_comes_down(command: Command)
    ensures
        command != Command::Quit ==> command.worker_orders_value().raise_stop
            == command.worker_orders_value().lower_stop,
        command.worker_orders_value().raise_stop ==> command.worker_orders_value().wait,
{
}

} // verus!
