//! What a call of each function returns, said of its arguments and its result.
//!
//! The relations and values that these laws name are pinned down, over characters, fields and
//! calls of the engine, by the laws of the other files.

use vstd::prelude::*;
use vstd::std_specs::cmp::PartialEqSpec;

use crate::annotate::all_written;
use crate::annotate::annotate_ptn;
use crate::annotate::moves_of;
use crate::annotate::replace_threat;
use crate::annotate::threats_found;
use crate::annotate::with_threat;
use crate::annotate::write_games;
use crate::annotate::Annotator;
use crate::annotate::Game;
use crate::annotate::PtnMove;
use crate::annotate::Threat;
use crate::error::TeiError;
use crate::go_command::go_value;
use crate::go_command::parse_go;
use crate::go_command::Clock;
use crate::go_command::GoCommand;
use crate::go_command::Side;
use crate::number::decimal;
use crate::number::decimal_text;
use crate::number::parse_i8;
use crate::number::parse_u32;
use crate::number::parse_u64;
use crate::number::parse_usize;
use crate::number::signed_decimal;
use crate::number::signed_decimal_text;
use crate::number::signed_value;
use crate::number::unsigned_value;
use crate::outcome::outcomes_1;
use crate::outcome::outcomes_2;
use crate::outcome::outcomes_of_view;
use crate::position_string::PositionCalls;
use crate::protocol::greeting;
use crate::protocol::is_command_word;
use crate::protocol::is_handshake;
use crate::protocol::new_game_value;
use crate::protocol::option_value;
use crate::protocol::parse_command;
use crate::protocol::parse_new_game;
use crate::protocol::parse_option;
use crate::protocol::Command;
use crate::protocol::OptionValue;
use crate::protocol::WorkerOrders;
use crate::report::best_move_line;
use crate::report::info_line;
use crate::report::info_text;
use crate::report::measured;
use crate::report::measured_value;
use crate::report::nodes_this_go;
use crate::report::nodes_value;
use crate::report::reported_millis;
use crate::report::reported_value;
use crate::report::search_info;
use crate::report::search_progress;
use crate::report::Progress;
use crate::report::Variation;
use crate::search::batch_ends;
use crate::search::search_batch;
use crate::search::SearchCalls;
use crate::search::SearchEnd;
use crate::search_position::difference;
use crate::search_position::SearchPosition;
use crate::session::Action;
use crate::session::GoCalls;
use crate::session::GoJob;
use crate::session::Session;
use crate::settings::arena_slots_value;
use crate::settings::build_mcts_settings;
use crate::settings::text_of;
use crate::settings::MctsSettings;
use crate::size_tag::extract_size;
use crate::size_tag::size_value;
use crate::size_tag::ApiError;
use crate::text::join_words;
use crate::text::joined;
use crate::text::line_views;
use crate::text::lines;
use crate::text::same_text;
use crate::text::split_lines;
use crate::text::split_words;
use crate::text::trim;
use crate::text::views;
use crate::text::words;
use crate::threat::is_tak;
use crate::threat::is_tinue;
use crate::threat::supported;
use crate::threat::tinue_answered;
use crate::threat::tinue_value;
use crate::threat::tinue_verdict;
use crate::threat::ProofResult;
use crate::threat::Prover;
use crate::threat::Rules;

verus! {

/// What splitting a line gives are its words.
pub proof fn law_splitting_gives_the_words<'a>(line: &'a str, list: Vec<&'a str>)
    requires
        call_ensures(split_words, (line,), list),
    ensures
        views(list@) == words(line@),
{
}

/// What joining words gives are the words with single spaces between them.
pub proof fn law_joining_gives_the_joined_words(list: &[&str], text: String)
    requires
        call_ensures(join_words, (list,), text),
    ensures
        text@ == joined(views(list@)),
{
}

/// What splitting a text at its line ends gives are its lines.
pub proof fn law_splitting_at_line_ends_gives_the_lines(text: &str, list: Vec<Vec<char>>)
    requires
        call_ensures(split_lines, (text,), list),
    ensures
        line_views(list@) == lines(text@),
{
}

/// Two texts are the same if they have the same characters.
pub proof fn law_same_text_compares_characters(a: &str, b: &str, same: bool)
    requires
        call_ensures(same_text, (a, b), same),
    ensures
        same <==> a@ == b@,
{
}

/// A number is read as a `u64` if it is one, without a minus sign, and fits.
pub proof fn law_u64_is_read_if_it_fits(text: &str, value: Option<u64>)
    requires
        call_ensures(parse_u64, (text,), value),
    ensures
        value matches Some(n) ==> unsigned_value(text@) == Some(n as int),
        value is None ==> (unsigned_value(text@) matches Some(n) ==> n < 0 || n > u64::MAX),
{
}

/// A number is read as a `u32` if it is one, without a minus sign, and fits.
pub proof fn law_u32_is_read_if_it_fits(text: &str, value: Option<u32>)
    requires
        call_ensures(parse_u32, (text,), value),
    ensures
        value matches Some(n) ==> unsigned_value(text@) == Some(n as int),
        value is None ==> (unsigned_value(text@) matches Some(n) ==> n < 0 || n > u32::MAX),
{
}

/// A number is read as a `usize` if it is one, without a minus sign, and fits.
pub proof fn law_usize_is_read_if_it_fits(text: &str, value: Option<usize>)
    requires
        call_ensures(parse_usize, (text,), value),
    ensures
        value matches Some(n) ==> unsigned_value(text@) == Some(n as int),
        value is None ==> (unsigned_value(text@) matches Some(n) ==> n < 0 || n > usize::MAX),
{
}

/// A number is read as an `i8` if it is one, with or without a sign, and fits.
pub proof fn law_i8_is_read_if_it_fits(text: &str, value: Option<i8>)
    requires
        call_ensures(parse_i8, (text,), value),
    ensures
        value matches Some(n) ==> signed_value(text@) == Some(n as int),
        value is None ==> (signed_value(text@) matches Some(n) ==> n < -128 || n > 127),
{
}

/// A number is written in decimal notation.
pub proof fn law_number_is_written_in_decimal(n: u128, text: String)
    requires
        call_ensures(decimal_text, (n,), text),
    ensures
        text@ == decimal(n as nat),
{
}

/// A number with a sign is written in decimal notation.
pub proof fn law_signed_number_is_written_in_decimal(n: i64, text: String)
    requires
        call_ensures(signed_decimal_text, (n,), text),
    ensures
        text@ == signed_decimal(n as int),
{
}

/// The handshake is `tei`, white space around it aside.
pub proof fn law_handshake_is_the_one_word(line: &str, yes: bool)
    requires
        call_ensures(is_handshake, (line,), yes),
    ensures
        yes <==> trim(line@) == "tei"@,
{
}

/// The greeting names the engine, its author and its two options, and ends with `teiok`.
pub proof fn law_greeting_is_five_lines(lines: Vec<&'static str>)
    requires
        call_ensures(greeting, (), lines),
    ensures
        lines@.len() == 5,
        lines@[0]@ == "id name Tiltak"@,
        lines@[1]@ == "id author Morten Lohne"@,
        lines@[2]@ == "option name HalfKomi type spin default 0 min -10 max 10"@,
        lines@[3]@ == "option name MultiPV type spin default 1 min 1 max 8"@,
        lines@[4]@ == "teiok"@,
{
    let list = views(lines@);
    assert(list.len() == 5);
    assert(list[0] == lines@[0]@);
    assert(list[1] == lines@[1]@);
    assert(list[2] == lines@[2]@);
    assert(list[3] == lines@[3]@);
    assert(list[4] == lines@[4]@);
}

/// The first word of a line says which command it is. A line is refused only if it has no word, or
/// if its first word is no command, and that word is named.
pub proof fn law_first_word_is_the_command(line: &str, command: Result<Command, TeiError>)
    requires
        call_ensures(parse_command, (line,), command),
    ensures
        command matches Ok(c) ==> words(line@).len() > 0 && words(line@)[0] == c.word(),
        command is Err && words(line@).len() == 0
            ==> command == Err::<Command, TeiError>(TeiError::EmptyLine),
        command is Err && words(line@).len() > 0 ==> !is_command_word(
            words(line@)[0],
        ) && (command matches Err(TeiError::UnknownCommand(word)) && word@ == words(line@)[0]),
{
}

/// What an option line sets is read from its words.
pub proof fn law_option_is_read_from_the_words(line: &str, option: Result<OptionValue, TeiError>)
    requires
        call_ensures(parse_option, (line,), option),
    ensures
        option == option_value(words(line@)),
{
}

/// The size of a new game is read from the words of the line.
pub proof fn law_new_size_is_read_from_the_words(line: &str, size: Result<usize, TeiError>)
    requires
        call_ensures(parse_new_game, (line,), size),
    ensures
        size == new_game_value(words(line@)),
{
}

/// What is ordered of a running search is decided by the command.
pub proof fn law_orders_are_given_by_the_command(command: Command, orders: WorkerOrders)
    requires
        call_ensures(Command::worker_orders, (&command,), orders),
    ensures
        orders == command.worker_orders_value(),
{
}

/// What a `go` line asks for is read from its words.
pub proof fn law_go_is_read_from_the_words(line: &str, command: Result<GoCommand, TeiError>)
    requires
        call_ensures(parse_go, (line,), command),
    ensures
        command == go_value(words(line@)),
{
}

/// For a move there is a fifth of the own clock and half of the own increment, in nanoseconds. The
/// other clock makes no difference.
pub proof fn law_budget_is_a_fifth_of_the_clock(clock: Clock, side: Side, nanos: u128)
    requires
        call_ensures(Clock::max_time, (&clock, side), nanos),
    ensures
        side is White ==> 10 * nanos == 1_000_000 * (2 * clock.white_time + 5 * clock.white_inc),
        side is Black ==> 10 * nanos == 1_000_000 * (2 * clock.black_time + 5 * clock.black_inc),
{
}

/// What is reported of a refused line is the text of the error.
pub proof fn law_message_of_an_error(error: TeiError, line: &str, message: String)
    requires
        call_ensures(TeiError::message, (&error, line), message),
    ensures
        message@ == error.text(line@),
{
}

/// What is reported of a refused request is the text of the refusal.
pub proof fn law_message_of_a_refusal(error: ApiError, message: String)
    requires
        call_ensures(ApiError::message, (&error,), message),
    ensures
        message@ == error.text(),
{
}

/// The first flag sets rollouts, and so does the second. Only the second, alone, adds noise. The
/// size of the arena is read from its text.
pub proof fn law_settings_follow_the_flags(
    is_slatebot: bool,
    is_cobblebot: bool,
    arena_size_mb: Option<&str>,
    settings: MctsSettings,
)
    requires
        call_ensures(build_mcts_settings, (is_slatebot, is_cobblebot, arena_size_mb), settings),
    ensures
        settings.rollout_depth == if is_slatebot || is_cobblebot { Some(200u16) } else { None },
        settings.rollout_temperature_percent == if is_slatebot || is_cobblebot {
            Some(20u8)
        } else {
            None
        },
        settings.dirichlet_percent == if is_cobblebot && !is_slatebot { Some(25u8) } else { None },
        settings.arena_slots == arena_slots_value(text_of(arena_size_mb)),
{
}

/// The best move is announced behind the word `bestmove`.
pub proof fn law_best_move_is_announced(san: &str, line: String)
    requires
        call_ensures(best_move_line, (san,), line),
    ensures
        line@ == "bestmove "@ + san@,
{
}

/// The line of a report is the text of the report, with the number if there is one.
pub proof fn law_report_line_is_the_report(
    number: Option<usize>,
    progress: Progress,
    variation: Variation,
    line: String,
)
    requires
        call_ensures(info_line, (number, &progress, &variation), line),
    ensures
        number matches Some(n) ==> line@ == info_text(Some(n as int), progress, variation),
        number is None ==> line@ == info_text(None, progress, variation),
{
}

/// The time that a speed is measured over is the elapsed time, and a microsecond at least.
pub proof fn law_least_time_is_a_microsecond(elapsed: u128, nanos: u128)
    requires
        call_ensures(measured, (elapsed,), nanos),
    ensures
        elapsed >= 1_000 ==> nanos == elapsed,
        elapsed < 1_000 ==> nanos == 1_000,
{
}

/// The reported time is the time before and the elapsed time together, in whole milliseconds.
pub proof fn law_reported_time_is_the_sum(time_offset: u128, elapsed: u128, millis: u128)
    requires
        call_ensures(reported_millis, (time_offset, elapsed), millis),
    ensures
        elapsed >= 1_000 ==> 1_000_000 * millis <= time_offset + elapsed < 1_000_000 * (millis + 1),
        elapsed < 1_000 ==> 1_000_000 * millis <= time_offset + 1_000 < 1_000_000 * (millis + 1),
{
}

/// The nodes of this search are those that were not there when it started.
pub proof fn law_new_nodes_are_counted(total_visits: u32, visits_at_start: u32, nodes: u32)
    requires
        call_ensures(nodes_this_go, (total_visits, visits_at_start), nodes),
    ensures
        total_visits >= visits_at_start ==> visits_at_start + nodes == total_visits,
        total_visits < visits_at_start ==> nodes == 0,
{
}

/// The size that a game record names is read from its characters.
pub proof fn law_size_is_read_from_the_text(ptn: &str, size: Result<usize, ApiError>)
    requires
        call_ensures(extract_size, (ptn,), size),
    ensures
        size == size_value(ptn@),
{
}

/// The symbol of a threat is its mark.
pub proof fn law_symbol_is_the_mark(threat: Threat, symbol: &'static str)
    requires
        call_ensures(Threat::symbol, (&threat,), symbol),
    ensures
        symbol@ == threat.mark(),
{
}

/// Replacing the mark of a move takes out the old ones and puts the new one last.
pub proof fn law_marks_are_replaced(
    annotations: Vec<&'static str>,
    threat: Option<Threat>,
    out: Vec<&'static str>,
)
    requires
        call_ensures(replace_threat, (&annotations, threat), out),
    ensures
        views(out@) == with_threat(views(annotations@), threat),
{
}

/// Whether there is a road threat is said by the result of the proof, if there is one.
pub proof fn law_verdict_is_given_by_the_result(found: Option<ProofResult>, tinue: Option<bool>)
    requires
        call_ensures(tinue_verdict, (found,), tinue),
    ensures
        tinue == tinue_value(found),
{
}

/// The sizes from 4 to 6 are supported, and no others.
pub proof fn law_sizes_are_supported(size: usize, yes: bool)
    requires
        call_ensures(supported, (size,), yes),
    ensures
        yes <==> size == 4 || size == 5 || size == 6,
{
}

/// A report counts every node of the tree, and its depth is that of all of them. The speed is that
/// of the new nodes in the elapsed time.
pub proof fn law_progress_is_of_the_whole_tree<
    DepthOf: Fn(u32) -> u64,
    SpeedOf: Fn(u32, u128) -> String,
>(
    total_visits: u32,
    visits_at_start: u32,
    time_offset: u128,
    elapsed: u128,
    depth_of: DepthOf,
    speed_of: SpeedOf,
    progress: Progress,
)
    requires
        call_ensures(
            search_progress::<DepthOf, SpeedOf>,
            (total_visits, visits_at_start, time_offset, elapsed, &depth_of, &speed_of),
            progress,
        ),
    ensures
        progress.nodes == total_visits,
        progress.time_ms == reported_value(time_offset, elapsed),
        call_ensures(depth_of, (total_visits,), progress.depth),
        call_ensures(
            speed_of,
            (nodes_value(total_visits, visits_at_start), measured_value(elapsed)),
            progress.nps,
        ),
{
}

/// Where one line of play is asked for, it is the main line, and has no number.
pub proof fn law_one_line_is_reported_without_a_number<
    BestLines: Fn(usize) -> Vec<Variation>,
    MainLine: Fn() -> Variation,
>(
    multi_pv: usize,
    progress: Progress,
    best_lines: BestLines,
    main_line: MainLine,
    lines: Vec<String>,
)
    requires
        multi_pv <= 1,
        call_ensures(
            search_info::<BestLines, MainLine>,
            (multi_pv, &progress, &best_lines, &main_line),
            lines,
        ),
    ensures
        lines@.len() == 1,
        exists|variation: Variation| #[trigger] call_ensures(main_line, (), variation)
            && lines@[0]@ == info_text(None, progress, variation),
{
}

/// Where more lines of play are asked for, all that there are are reported, numbered from one.
pub proof fn law_more_lines_are_numbered_from_one<
    BestLines: Fn(usize) -> Vec<Variation>,
    MainLine: Fn() -> Variation,
>(
    multi_pv: usize,
    progress: Progress,
    best_lines: BestLines,
    main_line: MainLine,
    lines: Vec<String>,
)
    requires
        multi_pv > 1,
        call_ensures(
            search_info::<BestLines, MainLine>,
            (multi_pv, &progress, &best_lines, &main_line),
            lines,
        ),
    ensures
        exists|list: Vec<Variation>| #[trigger] call_ensures(best_lines, (multi_pv,), list)
            && lines@.len() == list@.len()
            && forall|i: int| 0 <= i < list@.len()
            ==> (#[trigger] lines@[i])@ == info_text(Some(i + 1), progress, list@[i]),
{
}

/// A batch is searched on the tree that is handed in, with no more selections than asked for.
pub proof fn law_batch_is_searched<T, Stopped: Fn(&T) -> bool, Select: Fn(T) -> (T, bool)>(
    tree: T,
    nodes: u64,
    stopped: Stopped,
    select: Select,
    end: (T, bool),
)
    requires
        call_ensures(search_batch::<T, Stopped, Select>, (tree, nodes, &stopped, &select), end),
    ensures
        batch_ends(outcomes_of_view(stopped), outcomes_1(select), nodes as nat, tree, end.0, end.1),
{
}

/// Rounds are searched on the tree that is handed in, up to the limit that is handed in.
pub proof fn law_rounds_are_searched<
    T,
    M,
    S,
    Stopped,
    Select,
    NodesIn,
    BestMove,
    Report,
    Now,
    TimeUp,
    SearchForTime,
>(
    calls: SearchCalls<Stopped, Select, NodesIn, BestMove, Report, Now, TimeUp, SearchForTime>,
    tree: T,
    limit: Option<u64>,
    started: S,
    end: Option<SearchEnd<T, M>>,
) where
    Stopped: Fn(&T) -> bool,
    Select: Fn(T) -> (T, bool),
    NodesIn: Fn(i32) -> u64,
    BestMove: Fn(&T) -> M,
    Report: Fn(&T, &S),
    Now: Fn() -> S,
    TimeUp: Fn(&S, u64, &T) -> bool,
    SearchForTime: Fn(T, u128, &S) -> (T, bool),

    requires
        call_ensures(
            SearchCalls::<
                Stopped,
                Select,
                NodesIn,
                BestMove,
                Report,
                Now,
                TimeUp,
                SearchForTime,
            >::search_rounds::<T, M, S>,
            (&calls, tree, limit, &started),
            end,
        ),
    ensures
        calls.search_ends(started, limit, tree, end),
{
}

/// A `go` line is refused for what is wrong with it. Otherwise the answer is the best move that the
/// search ended with, and the tree that it ended with is kept, unless its arena is exhausted.
pub proof fn law_go_answers_with_the_best_move<
    T,
    M,
    S,
    Stopped,
    Select,
    NodesIn,
    BestMove,
    Report,
    Now,
    TimeUp,
    SearchForTime,
>(
    calls: SearchCalls<Stopped, Select, NodesIn, BestMove, Report, Now, TimeUp, SearchForTime>,
    line: &str,
    side: Side,
    tree: T,
    end: Result<(M, Option<T>), TeiError>,
) where
    Stopped: Fn(&T) -> bool,
    Select: Fn(T) -> (T, bool),
    NodesIn: Fn(i32) -> u64,
    BestMove: Fn(&T) -> M,
    Report: Fn(&T, &S),
    Now: Fn() -> S,
    TimeUp: Fn(&S, u64, &T) -> bool,
    SearchForTime: Fn(T, u128, &S) -> (T, bool),

    requires
        call_ensures(
            SearchCalls::<
                Stopped,
                Select,
                NodesIn,
                BestMove,
                Report,
                Now,
                TimeUp,
                SearchForTime,
            >::run_go::<T, M, S>,
            (&calls, line, side, tree),
            end,
        ),
    ensures
        go_value(words(line@)) matches Err(error) ==> end == Err::<(M, Option<T>), TeiError>(error),
        go_value(words(line@)) matches Ok(command) ==> match end {
            Ok((best_move, Some(kept))) => calls.go_ends(
                command,
                side,
                tree,
                Some(SearchEnd { tree: kept, best_move, exhausted: false }),
            ),
            Ok((best_move, None)) => exists|dropped: T| #[trigger]
                calls.go_ends(
                    command,
                    side,
                    tree,
                    Some(SearchEnd { tree: dropped, best_move, exhausted: true }),
                ),
            Err(error) => error == TeiError::RoundsSpent && calls.go_ends(
                command,
                side,
                tree,
                None::<SearchEnd<T, M>>,
            ),
        },
{
}

/// The position of a line of play is the one that all its moves lead to.
pub proof fn law_position_is_where_the_moves_lead<P: Clone, M: Copy, DoMove: Fn(P, M) -> P>(
    line: SearchPosition<P, M>,
    do_move: DoMove,
    end: P,
)
    requires
        call_ensures(SearchPosition::<P, M>::position::<DoMove>, (&line, &do_move), end),
    ensures
        line.reaches(outcomes_2(do_move), end),
{
}

/// A copy of a line of play is a copy of all of it.
pub proof fn law_copy_is_of_the_whole_line<P: Clone, M: Copy>(
    line: SearchPosition<P, M>,
    copy: SearchPosition<P, M>,
)
    requires
        call_ensures(SearchPosition::<P, M>::clone, (&line,), copy),
    ensures
        line.copied(copy),
{
}

/// The moves by which one line of play goes on from another are its last moves, all those behind as
/// many as the other has. Where comparing does what it is specified to do, they are exactly those
/// that were played since.
pub proof fn law_difference_is_the_last_moves<'a, P: PartialEq, M: PartialEq>(
    earlier: SearchPosition<P, M>,
    current: &'a SearchPosition<P, M>,
    diff: Option<&'a [M]>,
)
    requires
        call_ensures(SearchPosition::<P, M>::move_difference, (&earlier, current), diff),
    ensures
        diff matches Some(moves)
            ==> earlier.moves@.len() <= current.moves@.len()
                    && moves@ == current.moves@.skip(earlier.moves@.len() as int),
        P::obeys_eq_spec() && M::obeys_eq_spec() ==> match diff {
            Some(moves) => difference(earlier, *current) == Some(moves@),
            None => difference(earlier, *current) is None,
        },
{
}

/// A position is read from the words of the line, on the board and with the komi that are handed
/// in.
pub proof fn law_position_is_read_from_the_words<
    P: Clone,
    M: Copy,
    K: Copy,
    StartPosition,
    FromTps,
    MoveFromSan,
    DoMove,
>(
    calls: PositionCalls<StartPosition, FromTps, MoveFromSan, DoMove>,
    line: &str,
    size: usize,
    komi: K,
    read: Result<SearchPosition<P, M>, TeiError>,
) where
    StartPosition: Fn(usize, K) -> P,
    FromTps: Fn(&str, usize, K) -> Result<P, String>,
    MoveFromSan: Fn(&P, &str) -> Result<M, String>,
    DoMove: Fn(P, M) -> P,

    requires
        call_ensures(
            PositionCalls::<StartPosition, FromTps, MoveFromSan, DoMove>::parse_position_string::<
                P,
                M,
                K,
            >,
            (&calls, line, size, komi),
            read,
        ),
    ensures
        calls.position_read(words(line@), size, komi, read),
{
}

/// A session starts with the komi that is handed in and one line of play, and with nothing else.
pub proof fn law_session_starts_with_nothing<K, P, M, T>(komi: K, session: Session<K, P, M, T>)
    requires
        call_ensures(Session::<K, P, M, T>::new, (komi,), session),
    ensures
        session.komi == komi,
        session.multi_pv == 1,
        session.size is None,
        session.position is None,
        session.last_searched is None,
        session.search_tree is None,
        session.cumulative_search_time == 0,
        !session.searching,
{
}

/// Waiting for a search takes its tree back and ends it.
pub proof fn law_waiting_takes_the_tree_back<K, P, M, T>(
    session: &mut Session<K, P, M, T>,
    waited: Option<(Option<T>, u128)>,
)
    requires
        call_ensures(Session::<K, P, M, T>::drain_worker, (session, waited), ()),
    ensures
        !final(session).searching,
        old(session).drained(waited, *final(session)),
        old(session).wf() ==> final(session).wf(),
{
}

/// An option line sets what its words say.
pub proof fn law_option_line_is_carried_out<K, P, M, T, FromHalfKomi: Fn(i8) -> Option<K>>(
    session: &mut Session<K, P, M, T>,
    line: &str,
    from_half_komi: FromHalfKomi,
    done: Result<(), TeiError>,
)
    requires
        call_ensures(
            Session::<K, P, M, T>::set_option::<FromHalfKomi>,
            (session, line, &from_half_komi),
            done,
        ),
    ensures
        final(session).wf(),
        old(session).option_set(words(line@), from_half_komi, *final(session), done),
{
}

/// A line that begins a game begins the game that its words say.
pub proof fn law_new_game_line_is_carried_out<K, P, M, T>(
    session: &mut Session<K, P, M, T>,
    line: &str,
    done: Result<(), TeiError>,
)
    requires
        call_ensures(Session::<K, P, M, T>::new_game, (session, line), done),
    ensures
        final(session).wf(),
        old(session).game_begun(words(line@), *final(session), done),
{
}

/// A position line sets the position that its words say.
pub proof fn law_position_line_is_carried_out<
    K: Copy,
    P: Clone,
    M: Copy,
    T,
    StartPosition,
    FromTps,
    MoveFromSan,
    DoMove,
>(
    session: &mut Session<K, P, M, T>,
    line: &str,
    calls: PositionCalls<StartPosition, FromTps, MoveFromSan, DoMove>,
    done: Result<(), TeiError>,
) where
    StartPosition: Fn(usize, K) -> P,
    FromTps: Fn(&str, usize, K) -> Result<P, String>,
    MoveFromSan: Fn(&P, &str) -> Result<M, String>,
    DoMove: Fn(P, M) -> P,

    requires
        call_ensures(
            Session::<K, P, M, T>::set_position::<StartPosition, FromTps, MoveFromSan, DoMove>,
            (session, line, &calls),
            done,
        ),
    ensures
        final(session).wf(),
        old(session).position_set(words(line@), calls, *final(session), done),
{
}

/// A search is prepared with the settings and the engine that are handed in.
pub proof fn law_search_is_prepared<
    K,
    P: Clone + PartialEq,
    M: Copy + PartialEq,
    T,
    NewTree,
    Reroot,
    DoMove,
>(
    session: &mut Session<K, P, M, T>,
    settings: MctsSettings,
    calls: GoCalls<NewTree, Reroot, DoMove>,
    job: Result<GoJob<P, T>, TeiError>,
) where
    NewTree: Fn(P, MctsSettings) -> T,
    Reroot: Fn(T, &[M]) -> Option<T>,
    DoMove: Fn(P, M) -> P,

    requires
        call_ensures(
            Session::<K, P, M, T>::prepare_go::<NewTree, Reroot, DoMove>,
            (session, settings, &calls),
            job,
        ),
    ensures
        final(session).wf(),
        old(session).search_prepared(settings, calls, *final(session), job),
{
}

/// A command is carried out with the words of its line.
pub proof fn law_command_is_carried_out<
    K: Copy,
    P: Clone + PartialEq,
    M: Copy + PartialEq,
    T,
    FromHalfKomi,
    StartPosition,
    FromTps,
    MoveFromSan,
    DoMove,
    NewTree,
    Reroot,
    PlayMove,
>(
    session: &mut Session<K, P, M, T>,
    command: Command,
    line: &str,
    settings: MctsSettings,
    from_half_komi: FromHalfKomi,
    position_calls: PositionCalls<StartPosition, FromTps, MoveFromSan, DoMove>,
    go_calls: GoCalls<NewTree, Reroot, PlayMove>,
    action: Result<Action<P, T>, TeiError>,
) where
    FromHalfKomi: Fn(i8) -> Option<K>,
    StartPosition: Fn(usize, K) -> P,
    FromTps: Fn(&str, usize, K) -> Result<P, String>,
    MoveFromSan: Fn(&P, &str) -> Result<M, String>,
    DoMove: Fn(P, M) -> P,
    NewTree: Fn(P, MctsSettings) -> T,
    Reroot: Fn(T, &[M]) -> Option<T>,
    PlayMove: Fn(P, M) -> P,

    requires
        call_ensures(
            Session::<K, P, M, T>::carry_out::<
                FromHalfKomi,
                StartPosition,
                FromTps,
                MoveFromSan,
                DoMove,
                NewTree,
                Reroot,
                PlayMove,
            >,
            (session, command, line, settings, &from_half_komi, &position_calls, &go_calls),
            action,
        ),
    ensures
        final(session).wf(),
        old(session).carried_out(
            command,
            words(line@),
            settings,
            from_half_komi,
            position_calls,
            go_calls,
            *final(session),
            action,
        ),
{
}

/// A proof is searched from the position that is handed in, with the nodes that are handed in.
pub proof fn law_proof_is_searched_from_the_position<P, Q, NewProof, Select, Outcome>(
    prover: Prover<NewProof, Select, Outcome>,
    position: P,
    nodes: u32,
    found: Option<ProofResult>,
) where
    NewProof: Fn(P) -> Q,
    Select: Fn(Q) -> Q,
    Outcome: Fn(&Q) -> Option<ProofResult>,

    requires
        call_ensures(
            Prover::<NewProof, Select, Outcome>::find_proof::<P, Q>,
            (&prover, position, nodes),
            found,
        ),
    ensures
        prover.proof_finds(nodes as nat, position, found),
{
}

/// Whether a position is in tak is asked of the rules.
pub proof fn law_tak_of_a_position<P, GameOver, NullMove, HasWinningMove>(
    rules: Rules<GameOver, NullMove, HasWinningMove>,
    position: P,
    tak: bool,
) where
    GameOver: Fn(&P) -> bool,
    NullMove: Fn(P) -> P,
    HasWinningMove: Fn(P) -> bool,

    requires
        call_ensures(
            Rules::<GameOver, NullMove, HasWinningMove>::is_tak_sized::<P>,
            (&rules, position),
            tak,
        ),
    ensures
        rules.tak_found(position, tak),
{
}

/// Whether a position is in tinue is asked of the rules and the prover.
pub proof fn law_tinue_of_a_position<
    P,
    Q,
    GameOver,
    NullMove,
    HasWinningMove,
    NewProof,
    Select,
    Outcome,
>(
    rules: Rules<GameOver, NullMove, HasWinningMove>,
    prover: Prover<NewProof, Select, Outcome>,
    position: P,
    max_nodes: u32,
    tinue: Option<bool>,
) where
    GameOver: Fn(&P) -> bool,
    NullMove: Fn(P) -> P,
    HasWinningMove: Fn(P) -> bool,
    NewProof: Fn(P) -> Q,
    Select: Fn(Q) -> Q,
    Outcome: Fn(&Q) -> Option<ProofResult>,

    requires
        call_ensures(
            Rules::<GameOver, NullMove, HasWinningMove>::is_tinue_sized::<
                P,
                Q,
                NewProof,
                Select,
                Outcome,
            >,
            (&rules, &prover, position, max_nodes),
            tinue,
        ),
    ensures
        rules.tinue_found::<P, Q, NewProof, Select, Outcome>(
            prover,
            max_nodes as nat,
            position,
            tinue,
        ),
{
}

/// Of a size that is not supported nothing is said but that. Otherwise the answer is the reason for
/// which the position could not be read, or whether the position that was read is in tak.
pub proof fn law_tak_is_answered_for_the_position_read<
    P,
    ParsePosition: Fn(&str, usize) -> Result<P, String>,
    GameOver,
    NullMove,
    HasWinningMove,
>(
    tps: &str,
    size: usize,
    parse_position: ParsePosition,
    rules: Rules<GameOver, NullMove, HasWinningMove>,
    tak: Result<bool, ApiError>,
) where
    GameOver: Fn(&P) -> bool,
    NullMove: Fn(P) -> P,
    HasWinningMove: Fn(P) -> bool,

    requires
        call_ensures(
            is_tak::<P, ParsePosition, GameOver, NullMove, HasWinningMove>,
            (tps, size, &parse_position, &rules),
            tak,
        ),
    ensures
        size != 4 && size != 5 && size != 6
            ==> tak == Err::<bool, ApiError>(ApiError::UnsupportedSize(size)),
        size == 4 || size == 5 || size == 6 ==> match tak {
            Err(ApiError::Refused(reason)) => call_ensures(
                parse_position,
                (tps, size),
                Err::<P, String>(reason),
            ),
            Err(_) => false,
            Ok(yes) => exists|position: P| #[trigger]
                call_ensures(parse_position, (tps, size), Ok::<P, String>(position))
                    && rules.tak_found(position, yes),
        },
{
}

/// Whether a position is in tinue is answered for the text, the size and the nodes that are handed
/// in.
pub proof fn law_tinue_is_answered<
    P,
    Q,
    ParsePosition,
    GameOver,
    NullMove,
    HasWinningMove,
    NewProof,
    Select,
    Outcome,
>(
    tps: &str,
    size: usize,
    max_nodes: u32,
    parse_position: ParsePosition,
    rules: Rules<GameOver, NullMove, HasWinningMove>,
    prover: Prover<NewProof, Select, Outcome>,
    tinue: Result<Option<bool>, ApiError>,
) where
    ParsePosition: Fn(&str, usize) -> Result<P, String>,
    GameOver: Fn(&P) -> bool,
    NullMove: Fn(P) -> P,
    HasWinningMove: Fn(P) -> bool,
    NewProof: Fn(P) -> Q,
    Select: Fn(Q) -> Q,
    Outcome: Fn(&Q) -> Option<ProofResult>,

    requires
        call_ensures(
            is_tinue::<
                P,
                Q,
                ParsePosition,
                GameOver,
                NullMove,
                HasWinningMove,
                NewProof,
                Select,
                Outcome,
            >,
            (tps, size, max_nodes, &parse_position, &rules, &prover),
            tinue,
        ),
    ensures
        tinue_answered::<
            P,
            Q,
            ParsePosition,
            GameOver,
            NullMove,
            HasWinningMove,
            NewProof,
            Select,
            Outcome,
        >(tps, size, max_nodes as nat, parse_position, rules, prover, tinue),
{
}

/// A threat is looked for in the position that is handed in, with the nodes that are handed in.
pub proof fn law_threat_is_looked_for<
    P: Clone,
    Q,
    GameOver,
    NullMove,
    HasWinningMove,
    NewProof,
    Select,
    Outcome,
    DoMove,
>(
    annotator: Annotator<GameOver, NullMove, HasWinningMove, NewProof, Select, Outcome, DoMove>,
    position: P,
    tinue_nodes: u32,
    threat: Option<Threat>,
) where
    GameOver: Fn(&P) -> bool,
    NullMove: Fn(P) -> P,
    HasWinningMove: Fn(P) -> bool,
    NewProof: Fn(P) -> Q,
    Select: Fn(Q) -> Q,
    Outcome: Fn(&Q) -> Option<ProofResult>,

    requires
        call_ensures(
            Annotator::<
                GameOver,
                NullMove,
                HasWinningMove,
                NewProof,
                Select,
                Outcome,
                DoMove,
            >::find_threat::<P, Q>,
            (&annotator, &position, tinue_nodes),
            threat,
        ),
    ensures
        annotator.threat_found::<P, Q>(tinue_nodes as nat, position, threat),
{
}

/// Threats are looked for after each move, in order, from a copy of the start position on.
pub proof fn law_threats_are_looked_for_along_the_moves<
    P: Clone,
    M: Copy,
    Q,
    GameOver,
    NullMove,
    HasWinningMove,
    NewProof,
    Select,
    Outcome,
    DoMove,
>(
    annotator: Annotator<GameOver, NullMove, HasWinningMove, NewProof, Select, Outcome, DoMove>,
    start_position: P,
    moves: Vec<PtnMove<M>>,
    tinue_nodes: u32,
    found: Vec<Option<Threat>>,
) where
    GameOver: Fn(&P) -> bool,
    NullMove: Fn(P) -> P,
    HasWinningMove: Fn(P) -> bool,
    NewProof: Fn(P) -> Q,
    Select: Fn(Q) -> Q,
    Outcome: Fn(&Q) -> Option<ProofResult>,
    DoMove: Fn(P, M) -> P,

    requires
        call_ensures(
            Annotator::<
                GameOver,
                NullMove,
                HasWinningMove,
                NewProof,
                Select,
                Outcome,
                DoMove,
            >::find_threats::<P, M, Q>,
            (&annotator, &start_position, &moves, tinue_nodes),
            found,
        ),
    ensures
        exists|start: P, end: P| cloned(start_position, start)
            && #[trigger] threats_found(
                   outcomes_2(annotator.do_move),
                   annotator.threats::<P, Q>(tinue_nodes as nat),
                   start,
                   moves_of(moves@),
                   found@,
                   end,
               ),
{
}

/// A game is annotated with the nodes that are handed in.
pub proof fn law_game_is_annotated<
    P: Clone,
    M: Copy,
    X,
    Q,
    GameOver,
    NullMove,
    HasWinningMove,
    NewProof,
    Select,
    Outcome,
    DoMove,
>(
    annotator: Annotator<GameOver, NullMove, HasWinningMove, NewProof, Select, Outcome, DoMove>,
    game: Game<P, M, X>,
    tinue_nodes: u32,
    annotated: Game<P, M, X>,
) where
    GameOver: Fn(&P) -> bool,
    NullMove: Fn(P) -> P,
    HasWinningMove: Fn(P) -> bool,
    NewProof: Fn(P) -> Q,
    Select: Fn(Q) -> Q,
    Outcome: Fn(&Q) -> Option<ProofResult>,
    DoMove: Fn(P, M) -> P,

    requires
        call_ensures(
            Annotator::<
                GameOver,
                NullMove,
                HasWinningMove,
                NewProof,
                Select,
                Outcome,
                DoMove,
            >::annotate_game::<P, M, X, Q>,
            (&annotator, game, tinue_nodes),
            annotated,
        ),
    ensures
        annotator.annotated::<P, M, X, Q>(tinue_nodes as nat, game, annotated),
{
}

/// Games are annotated one by one.
pub proof fn law_games_are_annotated<
    P: Clone,
    M: Copy,
    X,
    Q,
    GameOver,
    NullMove,
    HasWinningMove,
    NewProof,
    Select,
    Outcome,
    DoMove,
>(
    annotator: Annotator<GameOver, NullMove, HasWinningMove, NewProof, Select, Outcome, DoMove>,
    games: Vec<Game<P, M, X>>,
    tinue_nodes: u32,
    annotated: Vec<Game<P, M, X>>,
) where
    GameOver: Fn(&P) -> bool,
    NullMove: Fn(P) -> P,
    HasWinningMove: Fn(P) -> bool,
    NewProof: Fn(P) -> Q,
    Select: Fn(Q) -> Q,
    Outcome: Fn(&Q) -> Option<ProofResult>,
    DoMove: Fn(P, M) -> P,

    requires
        call_ensures(
            Annotator::<
                GameOver,
                NullMove,
                HasWinningMove,
                NewProof,
                Select,
                Outcome,
                DoMove,
            >::annotate_games::<P, M, X, Q>,
            (&annotator, games, tinue_nodes),
            annotated,
        ),
    ensures
        annotator.all_annotated::<P, M, X, Q>(tinue_nodes as nat, games@, annotated@),
{
}

/// Games are written as the engine writes them.
pub proof fn law_games_are_written<G, ToPtn: Fn(&G) -> Result<Vec<u8>, String>>(
    games: Vec<G>,
    to_ptn: ToPtn,
    text: Result<String, ApiError>,
)
    requires
        call_ensures(write_games::<G, ToPtn>, (&games, &to_ptn), text),
    ensures
        all_written(to_ptn, games@, text),
{
}

/// A record is annotated for the size and with the nodes that are handed in.
pub proof fn law_record_of_a_size_is_annotated<
    P: Clone,
    M: Copy,
    X,
    Q,
    GameOver,
    NullMove,
    HasWinningMove,
    NewProof,
    Select,
    Outcome,
    DoMove,
    ParsePtn,
    ToPtn,
>(
    annotator: Annotator<GameOver, NullMove, HasWinningMove, NewProof, Select, Outcome, DoMove>,
    ptn: &str,
    size: usize,
    tinue_nodes: u32,
    parse_ptn: ParsePtn,
    to_ptn: ToPtn,
    text: Result<String, ApiError>,
) where
    GameOver: Fn(&P) -> bool,
    NullMove: Fn(P) -> P,
    HasWinningMove: Fn(P) -> bool,
    NewProof: Fn(P) -> Q,
    Select: Fn(Q) -> Q,
    Outcome: Fn(&Q) -> Option<ProofResult>,
    DoMove: Fn(P, M) -> P,
    ParsePtn: Fn(&str, usize) -> Result<Vec<Game<P, M, X>>, String>,
    ToPtn: Fn(&Game<P, M, X>) -> Result<Vec<u8>, String>,

    requires
        call_ensures(
            Annotator::<
                GameOver,
                NullMove,
                HasWinningMove,
                NewProof,
                Select,
                Outcome,
                DoMove,
            >::annotate_sized::<P, M, X, Q, ParsePtn, ToPtn>,
            (&annotator, ptn, size, tinue_nodes, &parse_ptn, &to_ptn),
            text,
        ),
    ensures
        annotator.text_annotated::<P, M, X, Q, ParsePtn, ToPtn>(
            ptn,
            size,
            tinue_nodes as nat,
            parse_ptn,
            to_ptn,
            text,
        ),
{
}

/// A record is annotated for the size that it names.
pub proof fn law_record_is_annotated<
    P: Clone,
    M: Copy,
    X,
    Q,
    GameOver,
    NullMove,
    HasWinningMove,
    NewProof,
    Select,
    Outcome,
    DoMove,
    ParsePtn,
    ToPtn,
>(
    ptn: &str,
    tinue_nodes: Option<u32>,
    annotator: Annotator<GameOver, NullMove, HasWinningMove, NewProof, Select, Outcome, DoMove>,
    parse_ptn: ParsePtn,
    to_ptn: ToPtn,
    text: Result<String, ApiError>,
) where
    GameOver: Fn(&P) -> bool,
    NullMove: Fn(P) -> P,
    HasWinningMove: Fn(P) -> bool,
    NewProof: Fn(P) -> Q,
    Select: Fn(Q) -> Q,
    Outcome: Fn(&Q) -> Option<ProofResult>,
    DoMove: Fn(P, M) -> P,
    ParsePtn: Fn(&str, usize) -> Result<Vec<Game<P, M, X>>, String>,
    ToPtn: Fn(&Game<P, M, X>) -> Result<Vec<u8>, String>,

    requires
        call_ensures(
            annotate_ptn::<
                P,
                M,
                X,
                Q,
                GameOver,
                NullMove,
                HasWinningMove,
                NewProof,
                Select,
                Outcome,
                DoMove,
                ParsePtn,
                ToPtn,
            >,
            (ptn, tinue_nodes, &annotator, &parse_ptn, &to_ptn),
            text,
        ),
    ensures
        annotator.ptn_annotated::<P, M, X, Q, ParsePtn, ToPtn>(
            ptn,
            tinue_nodes,
            parse_ptn,
            to_ptn,
            text,
        ),
{
}

} // verus!
