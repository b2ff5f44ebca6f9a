//! What a search comes down to: the calls that it makes, selection by selection and round by
//! round.

use vstd::prelude::*;

use crate::go_command::GoCommand;
use crate::go_command::Side;
use crate::outcome::outcomes_1;
use crate::outcome::outcomes_of_view;
use crate::protocol_laws::law_budget_is_linear_in_the_own_clock;
use crate::search::batch_ends;
use crate::search::law_flag_is_read_before_each_selection;
use crate::search::round_start;
use crate::search::rounds_end;
use crate::search::SearchCalls;
use crate::search::SearchEnd;

verus! {

/// A batch expands one tree after the other, each after the flag was read as down on it, and none
/// after the arena was found exhausted. It makes as many selections as it was asked for, unless the
/// arena is exhausted, or the flag was read as up on the tree that it ends with.
pub proof fn law_batch_goes_selection_by_selection<
    T,
    Stopped: Fn(&T) -> bool,
    Select: Fn(T) -> (T, bool),
>(
    stopped: Stopped,
    select: Select,
    nodes: nat,
    start: T,
    end: T,
    exhausted: bool,
) -> (path: Seq<T>)
    requires
        batch_ends(
            outcomes_of_view(stopped),
            outcomes_1(select),
            nodes,
            start,
            end,
            exhausted,
        ),
    ensures
        path.len() <= nodes,
        path.len() == 0 ==> end == start && !exhausted,
        path.len() > 0 ==> path[0] == start && call_ensures(
            select,
            (path.last(),),
            (end, exhausted),
        ),
        forall|i: int|
            0 <= i < path.len() ==> call_ensures(stopped, (&#[trigger] path[i],), false),
        forall|i: int, j: int|
            0 <= i < j < path.len() && j == i + 1 ==> call_ensures(
                select,
                (#[trigger] path[i],),
                (#[trigger] path[j], false),
            ),
        path.len() < nodes ==> exhausted || call_ensures(stopped, (&end,), true),
{
    let stops = outcomes_of_view(stopped);
    let selects = outcomes_1(select);
    let path = law_flag_is_read_before_each_selection(
        stops,
        selects,
        nodes,
        start,
        end,
        exhausted,
    );
    assert forall|i: int| 0 <= i < path.len() implies call_ensures(
        stopped,
        (&#[trigger] path[i],),
        false,
    ) by {
        assert(stops(path[i], false));
    }
    assert forall|i: int, j: int| 0 <= i < j < path.len() && j == i + 1 implies call_ensures(
        select,
        (#[trigger] path[i],),
        (#[trigger] path[j], false),
    ) by {
        assert(selects(path[i], (path[j], false)));
    }
    path
}

/// A search that ends goes round by round. The rounds are numbered from zero, each searches a batch
/// of as many nodes as there are for its number, on the tree that the one before it left, and then
/// finds the best move and reports. After every round but the last, the arena was not exhausted,
/// the flag was read as down and, where there is a limit, the time was found not to be up; after
/// the last one, one of these was otherwise. The search ends with what the last round left.
pub proof fn law_search_goes_round_by_round<
    T,
    M,
    S,
    Stopped,
    Select,
    NodesIn,
    BestMove,
    Report,
    Now,
    TimeUp,
    SearchForTime,
>(
    calls: SearchCalls<
        Stopped,
        Select,
        NodesIn,
        BestMove,
        Report,
        Now,
        TimeUp,
        SearchForTime,
    >,
    started: S,
    limit: Option<u64>,
    start: T,
    end: SearchEnd<T, M>,
) -> (rounds: (Seq<SearchEnd<T, M>>, Seq<u64>)) where
    Stopped: Fn(&T) -> bool,
    Select: Fn(T) -> (T, bool),
    NodesIn: Fn(i32) -> u64,
    BestMove: Fn(&T) -> M,
    Report: Fn(&T, &S),
    TimeUp: Fn(&S, u64, &T) -> bool,

    requires
        calls.search_ends(started, limit, start, Some(end)),
    ensures
        0 < rounds.0.len() <= i32::MAX,
        rounds.1.len() == rounds.0.len(),
        rounds.0.last() == end,
        forall|i: int|
            0 <= i < rounds.0.len() ==> call_ensures(
                calls.nodes_in,
                (i as i32,),
                #[trigger] rounds.1[i],
            ),
        batch_ends(
            outcomes_of_view(calls.stopped),
            outcomes_1(calls.select),
            rounds.1[0] as nat,
            start,
            rounds.0[0].tree,
            rounds.0[0].exhausted,
        ),
        forall|i: int, j: int|
            0 <= i < j < rounds.0.len() && j == i + 1 ==> batch_ends(
                outcomes_of_view(calls.stopped),
                outcomes_1(calls.select),
                rounds.1[j] as nat,
                (#[trigger] rounds.0[i]).tree,
                (#[trigger] rounds.0[j]).tree,
                rounds.0[j].exhausted,
            ),
        forall|i: int|
            0 <= i < rounds.0.len() ==> call_ensures(
                calls.best_move,
                (&(#[trigger] rounds.0[i]).tree,),
                rounds.0[i].best_move,
            ) && call_ensures(calls.report, (&rounds.0[i].tree, &started), ()),
        forall|i: int|
            0 <= i < rounds.0.len() - 1 ==> !(#[trigger] rounds.0[i]).exhausted && call_ensures(
                calls.stopped,
                (&rounds.0[i].tree,),
                false,
            ),
        limit is Some ==> forall|i: int|
            0 <= i < rounds.0.len() - 1 ==> call_ensures(
                calls.time_up,
                (&started, limit->0, &(#[trigger] rounds.0[i]).tree),
                false,
            ),
        end.exhausted || call_ensures(calls.stopped, (&end.tree,), true) || (limit is Some
            && call_ensures(calls.time_up, (&started, limit->0, &end.tree), true)),
{
    let trace = calls.law_search_ends_with_its_last_round(started, limit, start, end);
    let runs = calls.runs::<T, M, S>(started);
    let stops = outcomes_of_view(calls.stopped);
    let selects = outcomes_1(calls.select);
    let counts = Seq::new(
        trace.len(),
        |i: int|
            choose|nodes: u64| #[trigger]
                call_ensures(calls.nodes_in, (i as i32,), nodes) && batch_ends(
                    stops,
                    selects,
                    nodes as nat,
                    round_start(start, trace, i),
                    trace[i].tree,
                    trace[i].exhausted,
                ),
    );
    assert forall|i: int| 0 <= i < trace.len() implies call_ensures(
        calls.nodes_in,
        (i as i32,),
        #[trigger] counts[i],
    ) && batch_ends(
        stops,
        selects,
        counts[i] as nat,
        round_start(start, trace, i),
        trace[i].tree,
        trace[i].exhausted,
    ) by {
        assert(runs((0 + i) as i32, round_start(start, trace, i), trace[i]));
        assert(calls.round_runs(started, i as i32, round_start(start, trace, i), trace[i]));
    }
    assert(call_ensures(calls.nodes_in, (0i32,), counts[0]));
    assert forall|i: int, j: int| 0 <= i < j < trace.len() && j == i + 1 implies batch_ends(
        stops,
        selects,
        counts[j] as nat,
        (#[trigger] trace[i]).tree,
        (#[trigger] trace[j]).tree,
        trace[j].exhausted,
    ) by {
        assert(round_start(start, trace, j) == trace[i].tree);
    }
    assert forall|i: int| 0 <= i < trace.len() implies call_ensures(
        calls.best_move,
        (&(#[trigger] trace[i]).tree,),
        trace[i].best_move,
    ) && call_ensures(calls.report, (&trace[i].tree, &started), ()) by {
        calls.law_first_round_that_is_over_is_the_last(started, limit, start, trace, i);
    }
    assert forall|i: int| 0 <= i < trace.len() - 1 implies !(#[trigger] trace[i]).exhausted
        && call_ensures(calls.stopped, (&trace[i].tree,), false) && (limit is Some
        ==> call_ensures(calls.time_up, (&started, limit->0, &trace[i].tree), false)) by {
        calls.law_first_round_that_is_over_is_the_last(started, limit, start, trace, i);
    }
    calls.law_first_round_that_is_over_is_the_last(
        started,
        limit,
        start,
        trace,
        trace.len() - 1,
    );
    (trace, counts)
}

/// The rounds behind a search whose round numbers run out.
proof fn lemma_rounds_run_out<T, M>(
    runs: spec_fn(i32, T, SearchEnd<T, M>) -> bool,
    over: spec_fn(SearchEnd<T, M>, bool) -> bool,
    round: i32,
    start: T,
) -> (trace: Seq<SearchEnd<T, M>>)
    requires
        rounds_end(runs, over, round, start, None),
    ensures
        trace.len() == i32::MAX - round,
        forall|i: int|
            0 <= i < trace.len() ==> runs(
                (round + i) as i32,
                #[trigger] round_start(start, trace, i),
                trace[i],
            ),
        forall|i: int| 0 <= i < trace.len() ==> over(#[trigger] trace[i], false),
    decreases i32::MAX - round,
{
    if round == i32::MAX {
        Seq::empty()
    } else {
        let now = choose|now: SearchEnd<T, M>| #[trigger]
            runs(round, start, now) && {
                ||| over(now, true) && None::<SearchEnd<T, M>> == Some(now)
                ||| over(now, false) && rounds_end(
                    runs,
                    over,
                    (round + 1) as i32,
                    now.tree,
                    None,
                )
            };
        let rest = lemma_rounds_run_out(runs, over, (round + 1) as i32, now.tree);
        let trace = seq![now] + rest;
        assert forall|i: int| 0 <= i < trace.len() implies runs(
            (round + i) as i32,
            #[trigger] round_start(start, trace, i),
            trace[i],
        ) by {
            if i > 0 {
                assert(trace[i] == rest[i - 1]);
                assert(round_start(now.tree, rest, i - 1) == round_start(start, trace, i));
            }
        }
        assert forall|i: int| 0 <= i < trace.len() implies over(#[trigger] trace[i], false) by {
            if i > 0 {
                assert(trace[i] == rest[i - 1]);
            }
        }
        trace
    }
}

/// A search has no end only if all the round numbers have been used, and none of the rounds was
/// found to be the last one.
pub proof fn law_search_gives_up_only_without_rounds<
    T,
    M,
    S,
    Stopped,
    Select,
    NodesIn,
    BestMove,
    Report,
    Now,
    TimeUp,
    SearchForTime,
>(
    calls: SearchCalls<
        Stopped,
        Select,
        NodesIn,
        BestMove,
        Report,
        Now,
        TimeUp,
        SearchForTime,
    >,
    started: S,
    limit: Option<u64>,
    start: T,
) -> (trace: Seq<SearchEnd<T, M>>) where
    Stopped: Fn(&T) -> bool,
    Select: Fn(T) -> (T, bool),
    NodesIn: Fn(i32) -> u64,
    BestMove: Fn(&T) -> M,
    Report: Fn(&T, &S),
    TimeUp: Fn(&S, u64, &T) -> bool,

    requires
        calls.search_ends(started, limit, start, None::<SearchEnd<T, M>>),
    ensures
        trace.len() == 2_147_483_647,
        forall|i: int|
            0 <= i < trace.len() ==> !(#[trigger] trace[i]).exhausted && call_ensures(
                calls.stopped,
                (&trace[i].tree,),
                false,
            ),
        limit is Some ==> forall|i: int|
            0 <= i < trace.len() ==> call_ensures(
                calls.time_up,
                (&started, limit->0, &(#[trigger] trace[i]).tree),
                false,
            ),
{
    let runs = calls.runs::<T, M, S>(started);
    let over = calls.over::<T, M, S>(started, limit);
    let trace = lemma_rounds_run_out(runs, over, 0, start);
    assert forall|i: int| 0 <= i < trace.len() implies !(#[trigger] trace[i]).exhausted
        && call_ensures(calls.stopped, (&trace[i].tree,), false) && (limit is Some
        ==> call_ensures(calls.time_up, (&started, limit->0, &trace[i].tree), false)) by {
        assert(over(trace[i], false));
        assert(calls.found_over(started, limit, trace[i], false));
    }
    trace
}

/// What a `go` command runs. With a time for the move, a search in rounds with that limit; without
/// an end, one without a limit; and with clocks, one search for the time that the clock of the side
/// to move allows, 200 000 nanoseconds for each millisecond left and 500 000 for each of the
/// increment. All of them count from the moment at which they were started.
pub proof fn law_go_runs_its_search<
    T,
    M,
    S,
    Stopped,
    Select,
    NodesIn,
    BestMove,
    Report,
    Now,
    TimeUp,
    SearchForTime,
>(
    calls: SearchCalls<
        Stopped,
        Select,
        NodesIn,
        BestMove,
        Report,
        Now,
        TimeUp,
        SearchForTime,
    >,
    command: GoCommand,
    side: Side,
    tree: T,
    end: Option<SearchEnd<T, M>>,
) -> (started: S) where
    Stopped: Fn(&T) -> bool,
    Select: Fn(T) -> (T, bool),
    NodesIn: Fn(i32) -> u64,
    BestMove: Fn(&T) -> M,
    Report: Fn(&T, &S),
    TimeUp: Fn(&S, u64, &T) -> bool,
    Now: Fn() -> S,
    SearchForTime: Fn(T, u128, &S) -> (T, bool),

    requires
        calls.go_ends::<T, M, S>(command, side, tree, end),
    ensures
        call_ensures(calls.now, (), started),
        command matches GoCommand::MoveTime(millis) ==> calls.search_ends(
            started,
            Some(millis),
            tree,
            end,
        ),
        command is Infinite ==> calls.search_ends(started, None, tree, end),
        command matches GoCommand::Timed(clock) ==> end is Some && call_ensures(
            calls.search_for_time,
            (
                tree,
                (if side is White {
                    200_000 * clock.white_time + 500_000 * clock.white_inc
                } else {
                    200_000 * clock.black_time + 500_000 * clock.black_inc
                }) as u128,
                &started,
            ),
            (end->0.tree, end->0.exhausted),
        ) && call_ensures(calls.best_move, (&end->0.tree,), end->0.best_move),
{
    if let GoCommand::Timed(clock) = command {
        law_budget_is_linear_in_the_own_clock(clock);
        choose|started: S| #[trigger]
            call_ensures(calls.now, (), started) && (end matches Some(e) && call_ensures(
                calls.search_for_time,
                (tree, crate::go_command::time_budget(clock, side) as u128, &started),
                (e.tree, e.exhausted),
            ) && call_ensures(calls.best_move, (&e.tree,), e.best_move))
    } else if let GoCommand::MoveTime(millis) = command {
        choose|started: S| #[trigger]
            call_ensures(calls.now, (), started) && calls.search_ends(
                started,
                Some(millis),
                tree,
                end,
            )
    } else {
        choose|started: S| #[trigger]
            call_ensures(calls.now, (), started) && calls.search_ends(started, None, tree, end)
    }
}

} // verus!
