//! What the lines of the protocol mean, said of their words.

use vstd::prelude::*;

use crate::error::TeiError;
use crate::go_command::clock_value;
use crate::go_command::go_value;
use crate::go_command::time_budget;
use crate::go_command::zero_clock;
use crate::go_command::Clock;
use crate::go_command::GoCommand;
use crate::go_command::Side;
use crate::number::decimal;
use crate::number::unsigned_value;
use crate::protocol::is_command_word;
use crate::protocol::Command;
use crate::settings::arena_slots_value;
use crate::settings::text_of;

verus! {

// ---------------------------------------------------------------------------
// Commands
// ---------------------------------------------------------------------------

/// Each command has its word, and there are no other words for commands.
pub proof fn law_commands_have_their_words(word: Seq<char>)
    ensures
        Command::Quit.word() == "quit"@,
        Command::Stop.word() == "stop"@,
        Command::IsReady.word() == "isready"@,
        Command::SetOption.word() == "setoption"@,
        Command::NewGame.word() == "teinewgame"@,
        Command::Position.word() == "position"@,
        Command::Go.word() == "go"@,
        is_command_word(word) <==> word == "quit"@ || word == "stop"@ || word == "isready"@ || word
            == "setoption"@ || word == "teinewgame"@ || word == "position"@ || word == "go"@,
{
    assert(word == "quit"@ ==> Command::Quit.word() == word);
    assert(word == "stop"@ ==> Command::Stop.word() == word);
    assert(word == "isready"@ ==> Command::IsReady.word() == word);
    assert(word == "setoption"@ ==> Command::SetOption.word() == word);
    assert(word == "teinewgame"@ ==> Command::NewGame.word() == word);
    assert(word == "position"@ ==> Command::Position.word() == word);
    assert(word == "go"@ ==> Command::Go.word() == word);
}

/// A running search is told to stop by `quit` and `stop` alone, it is waited for by every command
/// but `isready` and `setoption`, and only `stop` takes the order back.
pub proof fn law_running_search_is_treated_by_command(command: Command)
    ensures
        command.worker_orders_value().raise_stop <==> command is Quit || command is Stop,
        command.worker_orders_value().wait <==> command is Quit || command is Stop
            || command is NewGame || command is Position || command is Go,
        command.worker_orders_value().lower_stop <==> command is Stop,
{
}

// ---------------------------------------------------------------------------
// The `go` command
// ---------------------------------------------------------------------------

/// The time to think is a fifth of the side's own time and half its own increment: for each
/// millisecond on the clock 200 000 nanoseconds, and for each of the increment 500 000. The other
/// side's clock does not count.
pub proof fn law_budget_is_linear_in_the_own_clock(clock: Clock)
    ensures
        time_budget(clock, Side::White) == 200_000 * clock.white_time + 500_000 * clock.white_inc,
        time_budget(clock, Side::Black) == 200_000 * clock.black_time + 500_000 * clock.black_inc,
{
}

/// A `go` command needs a word that says how to search. `infinite` is one, whatever follows;
/// `movetime` is one with a number of milliseconds behind it; a clock word is one; there are no
/// others.
pub proof fn law_go_lines_mean_what_they_say(list: Seq<Seq<char>>, n: int)
    ensures
        list.len() < 2 ==> go_value(list) == Err::<GoCommand, TeiError>(TeiError::InvalidGo),
        list.len() >= 2 && list[1] == "infinite"@ <==> go_value(list) == Ok::<GoCommand, TeiError>(
            GoCommand::Infinite,
        ),
        list.len() >= 3 && list[1] == "movetime"@ && unsigned_value(list[2]) == Some(n) && 0 <= n
            <= u64::MAX ==> go_value(list) == Ok::<GoCommand, TeiError>(
            GoCommand::MoveTime(n as u64),
        ),
        go_value(list) matches Ok(GoCommand::MoveTime(k)) ==> list.len() >= 3 && list[1]
            == "movetime"@ && unsigned_value(list[2]) == Some(k as int),
        list.len() >= 2 && list[1] == "movetime"@ && (go_value(list) is Err) ==> go_value(list)
            == Err::<GoCommand, TeiError>(TeiError::InvalidMoveTime),
        go_value(list) matches Ok(GoCommand::Timed(_)) ==> list[1] == "wtime"@ || list[1]
            == "btime"@ || list[1] == "winc"@ || list[1] == "binc"@,
        list.len() >= 2 && (list[1] == "wtime"@ || list[1] == "btime"@ || list[1] == "winc"@
            || list[1] == "binc"@) ==> match go_value(list) {
            Ok(GoCommand::Timed(_)) => true,
            Ok(_) => false,
            Err(error) => error == TeiError::IncorrectGo,
        },
        list.len() >= 2 && list[1] != "infinite"@ && list[1] != "movetime"@ && list[1] != "wtime"@
            && list[1] != "btime"@ && list[1] != "winc"@ && list[1] != "binc"@ ==> go_value(list)
            == Err::<GoCommand, TeiError>(TeiError::InvalidGo),
{
    reveal_strlit("wtime");
    reveal_strlit("btime");
    reveal_strlit("winc");
    reveal_strlit("binc");
    reveal_strlit("movetime");
    reveal_strlit("infinite");
    assert("wtime"@.len() == 5 && "btime"@.len() == 5 && "winc"@.len() == 4 && "binc"@.len() == 4);
    assert("movetime"@.len() == 8 && "infinite"@.len() == 8);
    assert("movetime"@[0] == 'm' && "infinite"@[0] == 'i');
}

/// One step in reading the clocks. A clock word sets its own clock to the number behind it, and no
/// other; any other word is passed over; a clock word without a number of milliseconds behind it
/// spoils the line; and a line that is used up leaves the clocks as they are.
pub proof fn law_clock_words_set_their_own_clock(
    list: Seq<Seq<char>>,
    word: Seq<char>,
    value: Seq<char>,
    n: u64,
    clock: Clock,
)
    ensures
        clock_value(Seq::<Seq<char>>::empty(), clock) == Some(clock),
        unsigned_value(value) == Some(n as int) ==> {
            &&& clock_value(seq!["wtime"@, value] + list, clock) == clock_value(
                list,
                Clock {
                    white_time: n,
                    white_inc: clock.white_inc,
                    black_time: clock.black_time,
                    black_inc: clock.black_inc,
                },
            )
            &&& clock_value(seq!["winc"@, value] + list, clock) == clock_value(
                list,
                Clock {
                    white_time: clock.white_time,
                    white_inc: n,
                    black_time: clock.black_time,
                    black_inc: clock.black_inc,
                },
            )
            &&& clock_value(seq!["btime"@, value] + list, clock) == clock_value(
                list,
                Clock {
                    white_time: clock.white_time,
                    white_inc: clock.white_inc,
                    black_time: n,
                    black_inc: clock.black_inc,
                },
            )
            &&& clock_value(seq!["binc"@, value] + list, clock) == clock_value(
                list,
                Clock {
                    white_time: clock.white_time,
                    white_inc: clock.white_inc,
                    black_time: clock.black_time,
                    black_inc: n,
                },
            )
        },
        word != "wtime"@ && word != "winc"@ && word != "btime"@ && word != "binc"@ ==> clock_value(
            seq![word] + list,
            clock,
        ) == clock_value(list, clock),
        (word == "wtime"@ || word == "winc"@ || word == "btime"@ || word == "binc"@) ==> clock_value(
            seq![word],
            clock,
        ) is None,
        (word == "wtime"@ || word == "winc"@ || word == "btime"@ || word == "binc"@) && (
        unsigned_value(value) is None || unsigned_value(value)->0 > u64::MAX) ==> clock_value(
            seq![word, value] + list,
            clock,
        ) is None,
{
    reveal_strlit("wtime");
    reveal_strlit("btime");
    reveal_strlit("winc");
    reveal_strlit("binc");
    assert("wtime"@.len() == 5 && "btime"@.len() == 5 && "winc"@.len() == 4 && "binc"@.len() == 4);
    assert("wtime"@[0] == 'w' && "btime"@[0] == 'b' && "winc"@[0] == 'w' && "binc"@[0] == 'b');
    assert((seq!["wtime"@, value] + list).skip(2) =~= list);
    assert((seq!["winc"@, value] + list).skip(2) =~= list);
    assert((seq!["btime"@, value] + list).skip(2) =~= list);
    assert((seq!["binc"@, value] + list).skip(2) =~= list);
    assert((seq![word] + list).skip(1) =~= list);
    assert((seq![word, value] + list).skip(2) =~= list);
}

/// A `go` command that starts with a clock word asks for the clocks that its words set, from clocks
/// that show nothing.
pub proof fn law_timed_go_reads_all_its_words(list: Seq<Seq<char>>)
    requires
        list.len() >= 2,
        list[1] == "wtime"@ || list[1] == "btime"@ || list[1] == "winc"@ || list[1] == "binc"@,
    ensures
        zero_clock().white_time == 0 && zero_clock().white_inc == 0 && zero_clock().black_time == 0
            && zero_clock().black_inc == 0,
        go_value(list) == match clock_value(
            list.skip(1),
            Clock { white_time: 0, white_inc: 0, black_time: 0, black_inc: 0 },
        ) {
            Some(clock) => Ok::<GoCommand, TeiError>(GoCommand::Timed(clock)),
            None => Err::<GoCommand, TeiError>(TeiError::IncorrectGo),
        },
{
    reveal_strlit("wtime");
    reveal_strlit("btime");
    reveal_strlit("winc");
    reveal_strlit("binc");
    reveal_strlit("movetime");
    reveal_strlit("infinite");
    assert("wtime"@.len() == 5 && "btime"@.len() == 5 && "winc"@.len() == 4 && "binc"@.len() == 4);
    assert("movetime"@.len() == 8 && "infinite"@.len() == 8);
}

// ---------------------------------------------------------------------------
// Settings and errors
// ---------------------------------------------------------------------------

/// An arena size is a number of megabytes that fits in 32 bits, and each of them holds 65 536 slots
/// of 16 bytes, up to as many as 32 bits count. Anything else asks for no arena size.
pub proof fn law_megabytes_hold_their_slots(text: Seq<char>, mb: int)
    ensures
        65_536 * 16 == 1024 * 1024,
        text_of(None) is None,
        forall|given: &str| #[trigger] text_of(Some(given)) == Some(given@),
        arena_slots_value(None) is None,
        unsigned_value(text) == Some(mb) && 0 <= mb <= 65_535 ==> arena_slots_value(Some(text))
            == Some((65_536 * mb) as u32),
        unsigned_value(text) == Some(mb) && 65_536 <= mb <= u32::MAX ==> arena_slots_value(
            Some(text),
        ) == Some(u32::MAX),
        unsigned_value(text) == Some(mb) && mb > u32::MAX ==> arena_slots_value(Some(text)) is None,
        unsigned_value(text) is None ==> arena_slots_value(Some(text)) is None,
{
}

/// What is reported of a refused command: what was wrong, and the line, the word, the size or the
/// reason that it was wrong with.
pub proof fn law_errors_are_reported_in_words(
    line: Seq<char>,
    word: String,
    size: usize,
)
    ensures
        TeiError::EmptyLine.text(line) == "Empty command"@,
        TeiError::UnknownCommand(word).text(line) == "Unknown command \""@ + word@ + "\""@,
        TeiError::InvalidSetOption.text(line) == "Invalid setoption string \""@ + line + "\""@,
        TeiError::InvalidKomi.text(line) == "Invalid komi setting \""@ + line + "\""@,
        TeiError::InvalidMultiPv.text(line) == "Invalid MultiPV setting \""@ + line + "\""@,
        TeiError::UnsupportedSize(size).text(line) == "Error: Unsupported size "@ + decimal(
            size as nat,
        ),
        TeiError::PositionBeforeNewGame.text(line)
            == "Received position without receiving teinewgame string"@,
        TeiError::GoBeforeNewGame.text(line)
            == "Error: Received go without receiving teinewgame string"@,
        TeiError::PositionNotSet.text(line) == "position must be set before go"@,
        TeiError::ExpectedRoot.text(line)
            == "Expected \"startpos\" or \"tps\" to specify position."@,
        TeiError::InvalidTps(word).text(line) == "Invalid TPS: "@ + word@,
        TeiError::ExpectedMoves(word).text(line) == "Expected \"moves\" in \""@ + line
            + "\", got \""@ + word@ + "\"."@,
        TeiError::InvalidMove(word).text(line) == "Invalid move: "@ + word@,
        TeiError::InvalidGo.text(line) == "Invalid go command \""@ + line + "\""@,
        TeiError::InvalidMoveTime.text(line) == "Invalid movetime in \""@ + line + "\""@,
        TeiError::IncorrectGo.text(line) == "Incorrect go command "@ + line,
        TeiError::RoundsSpent.text(line) == "Search rounds spent"@,
{
}

} // verus!
