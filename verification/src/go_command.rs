//! The `go` command: how long to search.

use vstd::prelude::*;

use crate::error::TeiError;
use crate::number::decimal;
use crate::number::law_decimal_reads_back;
use crate::number::parse_u64;
use crate::number::unsigned_value;
use crate::number::within;
use crate::text::same_text;
use crate::text::split_words;
use crate::text::views;
use crate::text::words;

verus! {

/// The two players.
#[derive(Debug, Clone, Copy, PartialEq, Eq, Structural)]
pub enum Side {
    White,
    Black,
}

/// The players' clocks, in milliseconds.
#[derive(Debug, Clone, Copy, PartialEq, Eq, Structural)]
pub struct Clock {
    pub white_time: u64,
    pub white_inc: u64,
    pub black_time: u64,
    pub black_inc: u64,
}

/// How long to search.
#[derive(Debug, Clone, Copy, PartialEq, Eq, Structural)]
pub enum GoCommand {
    /// For about this many milliseconds.
    MoveTime(u64),
    /// Until told to stop.
    Infinite,
    /// For a share of the clock.
    Timed(Clock),
}

/// The words that set a clock.
pub open spec fn is_clock_word(word: Seq<char>) -> bool {
    word == "wtime"@ || word == "winc"@ || word == "btime"@ || word == "binc"@
}

/// `clock` after `word`, which sets a clock, has been given the value `millis`.
pub open spec fn clock_with(clock: Clock, word: Seq<char>, millis: u64) -> Clock {
    if word == "wtime"@ {
        Clock { white_time: millis, ..clock }
    } else if word == "winc"@ {
        Clock { white_inc: millis, ..clock }
    } else if word == "btime"@ {
        Clock { black_time: millis, ..clock }
    } else {
        Clock { black_inc: millis, ..clock }
    }
}

/// The number of milliseconds that `word` gives, if it is one that fits.
pub open spec fn millis_value(word: Seq<char>) -> Option<int> {
    within(unsigned_value(word), 0, u64::MAX as int)
}

/// What the words `list` make of `clock`: each clock word takes the word behind it as its
/// value, and later ones overrule earlier ones; other words are passed over. `None` if a
/// clock word has no number of milliseconds behind it.
pub open spec fn clock_value(list: Seq<Seq<char>>, clock: Clock) -> Option<Clock>
    decreases list.len(),
{
    if list.len() == 0 {
        Some(clock)
    } else if !is_clock_word(list[0]) {
        clock_value(list.skip(1), clock)
    } else if list.len() < 2 {
        None
    } else {
        match millis_value(list[1]) {
            Some(millis) => clock_value(list.skip(2), clock_with(clock, list[0], millis as u64)),
            None => None,
        }
    }
}

/// A clock on which nothing has been set.
pub open spec fn zero_clock() -> Clock {
    Clock { white_time: 0, white_inc: 0, black_time: 0, black_inc: 0 }
}

/// What the words of a `go` command ask for. The first word is the command itself.
pub open spec fn go_value(list: Seq<Seq<char>>) -> Result<GoCommand, TeiError> {
    if list.len() < 2 {
        Err(TeiError::InvalidGo)
    } else if list[1] == "movetime"@ {
        if list.len() < 3 {
            Err(TeiError::InvalidMoveTime)
        } else {
            match millis_value(list[2]) {
                Some(millis) => Ok(GoCommand::MoveTime(millis as u64)),
                None => Err(TeiError::InvalidMoveTime),
            }
        }
    } else if list[1] == "infinite"@ {
        Ok(GoCommand::Infinite)
    } else if is_clock_word(list[1]) {
        match clock_value(list.skip(1), zero_clock()) {
            Some(clock) => Ok(GoCommand::Timed(clock)),
            None => Err(TeiError::IncorrectGo),
        }
    } else {
        Err(TeiError::InvalidGo)
    }
}

/// Whether `word` sets a clock.
fn clock_word(word: &str) -> (yes: bool)
    ensures
        yes == is_clock_word(word@),
{
    same_text(word, "wtime") || same_text(word, "winc") || same_text(word, "btime") || same_text(
        word,
        "binc",
    )
}

/// Sets the clock that `word` names.
fn set_clock(clock: Clock, word: &str, millis: u64) -> (out: Clock)
    requires
        is_clock_word(word@),
    ensures
        out == clock_with(clock, word@, millis),
{
    if same_text(word, "wtime") {
        Clock { white_time: millis, ..clock }
    } else if same_text(word, "winc") {
        Clock { white_inc: millis, ..clock }
    } else if same_text(word, "btime") {
        Clock { black_time: millis, ..clock }
    } else {
        Clock { black_inc: millis, ..clock }
    }
}

/// Reads the clock settings from the words of `list` on from `from`.
fn read_clock(list: &[&str], from: usize) -> (clock: Option<Clock>)
    requires
        from <= list@.len(),
    ensures
        clock == clock_value(views(list@).skip(from as int), zero_clock()),
{
    let mut clock = Clock { white_time: 0, white_inc: 0, black_time: 0, black_inc: 0 };
    let mut i: usize = from;
    let ghost all = views(list@);
    while i < list.len()
        invariant
            all == views(list@),
            from <= i <= list@.len(),
            clock_value(all.skip(i as int), clock) == clock_value(
                all.skip(from as int),
                zero_clock(),
            ),
        decreases list.len() - i,
    {
        let ghost rest = all.skip(i as int);
        assert(rest[0] == list@[i as int]@);
        assert(rest.skip(1) =~= all.skip(i + 1));
        if !clock_word(list[i]) {
            i = i + 1;
        } else if i + 1 >= list.len() {
            return None;
        } else {
            assert(rest[1] == list@[i + 1]@);
            assert(rest.skip(2) =~= all.skip(i + 2));
            match parse_u64(list[i + 1]) {
                None => {
                    return None;
                },
                Some(millis) => {
                    clock = set_clock(clock, list[i], millis);
                    i = i + 2;
                },
            }
        }
    }
    Some(clock)
}

/// Reads a `go` command.
pub fn parse_go(line: &str) -> (command: Result<GoCommand, TeiError>)
    ensures
        command == go_value(words(line@)),
{
    let list = split_words(line);
    let ghost all = words(line@);
    if list.len() < 2 {
        return Err(TeiError::InvalidGo);
    }
    assert(all[1] == list@[1]@);
    if same_text(list[1], "movetime") {
        if list.len() < 3 {
            return Err(TeiError::InvalidMoveTime);
        }
        assert(all[2] == list@[2]@);
        match parse_u64(list[2]) {
            Some(millis) => Ok(GoCommand::MoveTime(millis)),
            None => Err(TeiError::InvalidMoveTime),
        }
    } else if same_text(list[1], "infinite") {
        Ok(GoCommand::Infinite)
    } else if clock_word(list[1]) {
        match read_clock(list.as_slice(), 1) {
            Some(clock) => Ok(GoCommand::Timed(clock)),
            None => Err(TeiError::IncorrectGo),
        }
    } else {
        Err(TeiError::InvalidGo)
    }
}

/// A fifth of the time left and half the increment of the side to move, in nanoseconds.
pub open spec fn time_budget(clock: Clock, side: Side) -> int {
    match side {
        Side::White => clock.white_time * 1_000_000 / 5 + clock.white_inc * 1_000_000 / 2,
        Side::Black => clock.black_time * 1_000_000 / 5 + clock.black_inc * 1_000_000 / 2,
    }
}

impl Clock {
    /// How long the side to move may think, in nanoseconds.
    pub fn max_time(&self, side: Side) -> (nanos: u128)
        ensures
            nanos == time_budget(*self, side),
            side is White ==> nanos == 200_000 * self.white_time + 500_000 * self.white_inc,
            side is Black ==> nanos == 200_000 * self.black_time + 500_000 * self.black_inc,
    {
        let (time, inc) = match side {
            Side::White => (self.white_time, self.white_inc),
            Side::Black => (self.black_time, self.black_inc),
        };
        (time as u128) * 1_000_000 / 5 + (inc as u128) * 1_000_000 / 2
    }
}

// ---------------------------------------------------------------------------
// Laws
// ---------------------------------------------------------------------------

/// Clock settings count in turn: those in front first, then the ones behind them, so that
/// later ones overrule earlier ones.
pub proof fn law_clock_settings_count_in_turn(
    first: Seq<Seq<char>>,
    second: Seq<Seq<char>>,
    clock: Clock,
)
    requires
        clock_value(first, clock) is Some,
    ensures
        clock_value(first + second, clock) == clock_value(second, clock_value(first, clock)->0),
    decreases first.len(),
{
    let all = first + second;
    if first.len() == 0 {
        assert(all =~= second);
    } else if !is_clock_word(first[0]) {
        assert(all.skip(1) =~= first.skip(1) + second);
        law_clock_settings_count_in_turn(first.skip(1), second, clock);
    } else {
        let millis = millis_value(first[1])->0;
        assert(all[1] == first[1]);
        assert(all.skip(2) =~= first.skip(2) + second);
        law_clock_settings_count_in_turn(
            first.skip(2),
            second,
            clock_with(clock, first[0], millis as u64),
        );
    }
}

/// One clock word and its value set that clock.
proof fn lemma_clock_setting(word: Seq<char>, millis: u64, clock: Clock)
    requires
        is_clock_word(word),
    ensures
        clock_value(seq![word, decimal(millis as nat)], clock) == Some(
            clock_with(clock, word, millis),
        ),
{
    let list = seq![word, decimal(millis as nat)];
    law_decimal_reads_back(millis as nat);
    assert(list.skip(2) =~= Seq::empty());
    assert(clock_value(list.skip(2), clock_with(clock, word, millis)) == Some(
        clock_with(clock, word, millis),
    ));
}

/// A `go` command that gives both clocks and both increments asks for just these.
pub proof fn law_clocks_are_read_back(clock: Clock)
    ensures
        go_value(
            seq![
                "go"@,
                "wtime"@,
                decimal(clock.white_time as nat),
                "btime"@,
                decimal(clock.black_time as nat),
                "winc"@,
                decimal(clock.white_inc as nat),
                "binc"@,
                decimal(clock.black_inc as nat),
            ],
        ) == Ok::<GoCommand, TeiError>(GoCommand::Timed(clock)),
{
    reveal_strlit("wtime");
    reveal_strlit("btime");
    reveal_strlit("winc");
    reveal_strlit("binc");
    reveal_strlit("movetime");
    reveal_strlit("infinite");
    assert("wtime"@.len() == 5 && "btime"@.len() == 5 && "winc"@.len() == 4 && "binc"@.len() == 4);
    assert("movetime"@.len() == 8 && "infinite"@.len() == 8);
    assert("wtime"@[0] == 'w' && "btime"@[0] == 'b' && "winc"@[0] == 'w' && "binc"@[0] == 'b');
    let a = seq!["wtime"@, decimal(clock.white_time as nat)];
    let b = seq!["btime"@, decimal(clock.black_time as nat)];
    let c = seq!["winc"@, decimal(clock.white_inc as nat)];
    let d = seq!["binc"@, decimal(clock.black_inc as nat)];
    let c1 = Clock { white_time: clock.white_time, ..zero_clock() };
    let c2 = Clock { black_time: clock.black_time, ..c1 };
    let c3 = Clock { white_inc: clock.white_inc, ..c2 };
    lemma_clock_setting("wtime"@, clock.white_time, zero_clock());
    lemma_clock_setting("btime"@, clock.black_time, c1);
    lemma_clock_setting("winc"@, clock.white_inc, c2);
    lemma_clock_setting("binc"@, clock.black_inc, c3);
    law_clock_settings_count_in_turn(a, b, zero_clock());
    law_clock_settings_count_in_turn(a + b, c, zero_clock());
    law_clock_settings_count_in_turn(a + b + c, d, zero_clock());
    let list = seq![
        "go"@,
        "wtime"@,
        decimal(clock.white_time as nat),
        "btime"@,
        decimal(clock.black_time as nat),
        "winc"@,
        decimal(clock.white_inc as nat),
        "binc"@,
        decimal(clock.black_inc as nat),
    ];
    assert(list.skip(1) =~= a + b + c + d);
}

/// A `go` command that gives a time for the move asks for just that time.
pub proof fn law_move_time_is_read_back(millis: u64)
    ensures
        go_value(seq!["go"@, "movetime"@, decimal(millis as nat)]) == Ok::<GoCommand, TeiError>(
            GoCommand::MoveTime(millis),
        ),
{
    law_decimal_reads_back(millis as nat);
}

} // verus!
