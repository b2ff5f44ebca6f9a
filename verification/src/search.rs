//! Running a search: batches of nodes in growing rounds, or one search against the clock.
//!
//! The search tree, of type `T`, is moved through the calls that work on it. What the
//! engine, the clock and the stop flag do is handed in as functions.

use vstd::prelude::*;

use crate::error::TeiError;
use crate::go_command::go_value;
use crate::go_command::parse_go;
use crate::go_command::time_budget;
use crate::go_command::GoCommand;
use crate::go_command::Side;
use crate::outcome::outcomes_1;
use crate::outcome::outcomes_of_view;
use crate::text::words;

verus! {

/// Whether a batch of at most `nodes` selections, started on `start`, can end with `end`.
/// `stops` says what the stop flag can read as when the search has come to a given tree, and
/// `selects` what a selection can make of a tree, exhausting the arena or not.
///
/// Before each selection the flag is read, on the tree that is to be expanded, and a raised flag
/// ends the batch. A selection that finds the arena exhausted ends it too, and only then is
/// `exhausted` set.
pub open spec fn batch_ends<T>(
    stops: spec_fn(T, bool) -> bool,
    selects: spec_fn(T, (T, bool)) -> bool,
    nodes: nat,
    start: T,
    end: T,
    exhausted: bool,
) -> bool
    decreases nodes,
{
    if nodes == 0 {
        end == start && !exhausted
    } else {
        ||| stops(start, true) && end == start && !exhausted
        ||| stops(start, false) && selects(start, (end, true)) && exhausted
        ||| stops(start, false) && exists|next: T| #[trigger]
            selects(start, (next, false)) && batch_ends(
                stops,
                selects,
                (nodes - 1) as nat,
                next,
                end,
                exhausted,
            )
    }
}

/// Runs a batch of at most `nodes` selections, each after a reading of the stop flag. The result is
/// the tree, and whether the arena is exhausted.
pub fn search_batch<T, Stopped: Fn(&T) -> bool, Select: Fn(T) -> (T, bool)>(
    tree: T,
    nodes: u64,
    stopped: &Stopped,
    select: &Select,
) -> (end: (T, bool))
    requires
        forall|t: &T| call_requires(*stopped, (t,)),
        forall|t: T| call_requires(*select, (t,)),
    ensures
        batch_ends(
            outcomes_of_view(*stopped),
            outcomes_1(*select),
            nodes as nat,
            tree,
            end.0,
            end.1,
        ),
{
    let ghost stops = outcomes_of_view(*stopped);
    let ghost selects = outcomes_1(*select);
    let ghost start = tree;
    let mut current = tree;
    let mut left: u64 = nodes;
    while left > 0
        invariant
            forall|t: &T| call_requires(*stopped, (t,)),
            forall|t: T| call_requires(*select, (t,)),
            stops == outcomes_of_view(*stopped),
            selects == outcomes_1(*select),
            start == tree,
            forall|end: T, exhausted: bool|
                batch_ends(stops, selects, left as nat, current, end, exhausted) ==> #[trigger]
                batch_ends(stops, selects, nodes as nat, start, end, exhausted),
        decreases left,
    {
        let stop = stopped(&current);
        assert(stops(current, stop));
        if stop {
            assert(batch_ends(stops, selects, left as nat, current, current, false));
            return (current, false);
        }
        let ghost before = current;
        let (next, exhausted) = select(current);
        assert(selects(before, (next, exhausted)));
        if exhausted {
            assert(batch_ends(stops, selects, left as nat, before, next, true));
            return (next, true);
        }
        proof {
            assert forall|end: T, exhausted: bool|
                batch_ends(stops, selects, (left - 1) as nat, next, end, exhausted) implies
                #[trigger] batch_ends(stops, selects, nodes as nat, start, end, exhausted) by {
                assert(batch_ends(stops, selects, left as nat, before, end, exhausted));
            }
        }
        current = next;
        left = left - 1;
    }
    assert(batch_ends(stops, selects, 0, current, current, false));
    (current, false)
}

/// How a search ended.
pub struct SearchEnd<T, M> {
    /// The tree as the search left it.
    pub tree: T,
    /// The best move at the end.
    pub best_move: M,
    /// Whether the arena is exhausted.
    pub exhausted: bool,
}

/// Whether a search in rounds, from the round number `round` on, can end with `end`: the
/// first round after which the search is found to be over is the last one. There is no end if
/// the round numbers run out before.
///
/// `runs` says what a round of a given number can make of a tree, and `over` whether the
/// search can be found to be over, or not, after a round that has left a given end.
pub open spec fn rounds_end<T, M>(
    runs: spec_fn(i32, T, SearchEnd<T, M>) -> bool,
    over: spec_fn(SearchEnd<T, M>, bool) -> bool,
    round: i32,
    start: T,
    end: Option<SearchEnd<T, M>>,
) -> bool
    decreases i32::MAX - round,
{
    if round == i32::MAX {
        end is None
    } else {
        exists|now: SearchEnd<T, M>| #[trigger]
            runs(round, start, now) && {
                ||| over(now, true) && end == Some(now)
                ||| over(now, false) && rounds_end(
                    runs,
                    over,
                    (round + 1) as i32,
                    now.tree,
                    end,
                )
            }
    }
}

/// The calls out of a search, into the engine and its surroundings.
pub struct SearchCalls<Stopped, Select, NodesIn, BestMove, Report, Now, TimeUp, SearchForTime> {
    /// Reads the stop flag, when the search has come to a given tree.
    pub stopped: Stopped,
    /// Expands a tree by one node. The second result says whether the arena is exhausted.
    pub select: Select,
    /// How many nodes the round of a given number searches.
    pub nodes_in: NodesIn,
    /// The best move of a tree.
    pub best_move: BestMove,
    /// Reports on a tree, in a search that was started at a given moment.
    pub report: Report,
    /// The present moment.
    pub now: Now,
    /// Whether a search that was started at a given moment has used enough of a time limit in
    /// milliseconds, when it has come to a given tree.
    pub time_up: TimeUp,
    /// Expands a tree for a given number of nanoseconds, with reports that count from a given
    /// moment. The second result says whether the arena is exhausted.
    pub search_for_time: SearchForTime,
}

impl<Stopped, Select, NodesIn, BestMove, Report, Now, TimeUp, SearchForTime> SearchCalls<
    Stopped,
    Select,
    NodesIn,
    BestMove,
    Report,
    Now,
    TimeUp,
    SearchForTime,
> {
    /// Whether every call may be made with every argument.
    pub open spec fn callable<T, M, S>(self) -> bool where
        Stopped: Fn(&T) -> bool,
        Select: Fn(T) -> (T, bool),
        NodesIn: Fn(i32) -> u64,
        BestMove: Fn(&T) -> M,
        Report: Fn(&T, &S),
        Now: Fn() -> S,
        TimeUp: Fn(&S, u64, &T) -> bool,
        SearchForTime: Fn(T, u128, &S) -> (T, bool),
     {
        &&& forall|t: &T| call_requires(self.stopped, (t,))
        &&& forall|t: T| call_requires(self.select, (t,))
        &&& forall|i: i32| 0 <= i ==> call_requires(self.nodes_in, (i,))
        &&& forall|t: &T| call_requires(self.best_move, (t,))
        &&& forall|t: &T, s: &S| call_requires(self.report, (t, s))
        &&& call_requires(self.now, ())
        &&& forall|s: &S, l: u64, t: &T| call_requires(self.time_up, (s, l, t))
        &&& forall|t: T, n: u128, s: &S| call_requires(self.search_for_time, (t, n, s))
    }

    /// Whether the round number `round`, started on `start`, can leave `end` behind: a batch
    /// of as many nodes as the round asks for, then the best move, then a report.
    pub open spec fn round_runs<T, M, S>(
        self,
        started: S,
        round: i32,
        start: T,
        end: SearchEnd<T, M>,
    ) -> bool where
        Stopped: Fn(&T) -> bool,
        Select: Fn(T) -> (T, bool),
        NodesIn: Fn(i32) -> u64,
        BestMove: Fn(&T) -> M,
        Report: Fn(&T, &S),
     {
        &&& exists|nodes: u64| #[trigger]
            call_ensures(self.nodes_in, (round,), nodes) && batch_ends(
                outcomes_of_view(self.stopped),
                outcomes_1(self.select),
                nodes as nat,
                start,
                end.tree,
                end.exhausted,
            )
        &&& call_ensures(self.best_move, (&end.tree,), end.best_move)
        &&& call_ensures(self.report, (&end.tree, &started), ())
    }

    /// Whether the search can be found to be over, or not, after a round that has left `end`: it
    /// is over when the arena is exhausted, when the stop flag is up, or when there is a time
    /// limit and the time is up. The flag is read only if the arena is not exhausted, and the
    /// clock only if the flag is down, each on the tree that the round has left.
    pub open spec fn found_over<T, M, S>(
        self,
        started: S,
        limit: Option<u64>,
        end: SearchEnd<T, M>,
        over: bool,
    ) -> bool where Stopped: Fn(&T) -> bool, TimeUp: Fn(&S, u64, &T) -> bool {
        if end.exhausted {
            over
        } else {
            ||| call_ensures(self.stopped, (&end.tree,), true) && over
            ||| call_ensures(self.stopped, (&end.tree,), false) && match limit {
                Some(millis) => call_ensures(self.time_up, (&started, millis, &end.tree), over),
                None => !over,
            }
        }
    }

    /// Whether a search in rounds, started on `start`, can end with `end`.
    pub open spec fn search_ends<T, M, S>(
        self,
        started: S,
        limit: Option<u64>,
        start: T,
        end: Option<SearchEnd<T, M>>,
    ) -> bool where
        Stopped: Fn(&T) -> bool,
        Select: Fn(T) -> (T, bool),
        NodesIn: Fn(i32) -> u64,
        BestMove: Fn(&T) -> M,
        Report: Fn(&T, &S),
        TimeUp: Fn(&S, u64, &T) -> bool,
     {
        rounds_end(self.runs(started), self.over::<T, M, S>(started, limit), 0, start, end)
    }

    /// What the rounds of a search that was started at a given moment can make of a tree.
    pub open spec fn runs<T, M, S>(self, started: S) -> spec_fn(
        i32,
        T,
        SearchEnd<T, M>,
    ) -> bool where
        Stopped: Fn(&T) -> bool,
        Select: Fn(T) -> (T, bool),
        NodesIn: Fn(i32) -> u64,
        BestMove: Fn(&T) -> M,
        Report: Fn(&T, &S),
     {
        |round: i32, start: T, end: SearchEnd<T, M>| self.round_runs(started, round, start, end)
    }

    /// Whether a search that was started at a given moment can be found to be over, or not,
    /// after a round that has left a given end.
    pub open spec fn over<T, M, S>(self, started: S, limit: Option<u64>) -> spec_fn(
        SearchEnd<T, M>,
        bool,
    ) -> bool where Stopped: Fn(&T) -> bool, TimeUp: Fn(&S, u64, &T) -> bool {
        |end: SearchEnd<T, M>, over: bool| self.found_over(started, limit, end, over)
    }

    /// Searches in rounds until the arena is exhausted, the stop flag is up or the time is
    /// up, which is found out anew after each round. `limit` is the time limit in milliseconds,
    /// if there is one, and `started` the moment from which it counts.
    pub fn search_rounds<T, M, S>(&self, tree: T, limit: Option<u64>, started: &S) -> (end: Option<
        SearchEnd<T, M>,
    >) where
        Stopped: Fn(&T) -> bool,
        Select: Fn(T) -> (T, bool),
        NodesIn: Fn(i32) -> u64,
        BestMove: Fn(&T) -> M,
        Report: Fn(&T, &S),
        Now: Fn() -> S,
        TimeUp: Fn(&S, u64, &T) -> bool,
        SearchForTime: Fn(T, u128, &S) -> (T, bool),

        requires
            self.callable::<T, M, S>(),
        ensures
            self.search_ends(*started, limit, tree, end),
    {
        let ghost runs = self.runs::<T, M, S>(*started);
        let ghost over = self.over::<T, M, S>(*started, limit);
        let ghost start = tree;
        let mut current = tree;
        let mut round: i32 = 0;
        while round < i32::MAX
            invariant
                self.callable::<T, M, S>(),
                start == tree,
                0 <= round,
                runs == self.runs::<T, M, S>(*started),
                over == self.over::<T, M, S>(*started, limit),
                forall|end: Option<SearchEnd<T, M>>|
                    rounds_end(runs, over, round, current, end) ==> #[trigger] rounds_end(
                        runs,
                        over,
                        0,
                        start,
                        end,
                    ),
            decreases i32::MAX - round,
        {
            let ghost before = current;
            let nodes: u64 = (self.nodes_in)(round);
            let (next, exhausted) = search_batch(current, nodes, &self.stopped, &self.select);
            let best = (self.best_move)(&next);
            (self.report)(&next, started);
            let ghost now = SearchEnd { tree: next, best_move: best, exhausted };
            assert(self.round_runs(*started, round, before, now));
            assert(runs(round, before, now));
            let finished = exhausted || (self.stopped)(&next) || match limit {
                Some(millis) => (self.time_up)(started, millis, &next),
                None => false,
            };
            assert(self.found_over(*started, limit, now, finished));
            assert(over(now, finished));
            if finished {
                return Some(SearchEnd { tree: next, best_move: best, exhausted });
            }
            proof {
                assert forall|end: Option<SearchEnd<T, M>>|
                    rounds_end(runs, over, (round + 1) as i32, next, end) implies
                    #[trigger] rounds_end(runs, over, 0, start, end) by {
                    assert(rounds_end(runs, over, round, before, end));
                }
            }
            current = next;
            round = round + 1;
        }
        None
    }

    /// Whether the search that `command` asks for can end with `end`, where `side` is to
    /// move. A search against the clock is one call, with the side's time budget.
    pub open spec fn go_ends<T, M, S>(
        self,
        command: GoCommand,
        side: Side,
        tree: T,
        end: Option<SearchEnd<T, M>>,
    ) -> bool where
        Stopped: Fn(&T) -> bool,
        Select: Fn(T) -> (T, bool),
        NodesIn: Fn(i32) -> u64,
        BestMove: Fn(&T) -> M,
        Report: Fn(&T, &S),
        Now: Fn() -> S,
        TimeUp: Fn(&S, u64, &T) -> bool,
        SearchForTime: Fn(T, u128, &S) -> (T, bool),
     {
        exists|started: S| #[trigger]
            call_ensures(self.now, (), started) && match command {
                GoCommand::MoveTime(millis) => self.search_ends(
                    started,
                    Some(millis),
                    tree,
                    end,
                ),
                GoCommand::Infinite => self.search_ends(started, None, tree, end),
                GoCommand::Timed(clock) => end matches Some(e) && call_ensures(
                    self.search_for_time,
                    (tree, time_budget(clock, side) as u128, &started),
                    (e.tree, e.exhausted),
                ) && call_ensures(self.best_move, (&e.tree,), e.best_move),
            }
    }

    /// Carries out the `go` command of `line` on `tree`, where `side` is to move.
    ///
    /// The result is the best move and the tree. A tree whose arena is exhausted is not kept.
    pub fn run_go<T, M, S>(&self, line: &str, side: Side, tree: T) -> (end: Result<
        (M, Option<T>),
        TeiError,
    >) where
        Stopped: Fn(&T) -> bool,
        Select: Fn(T) -> (T, bool),
        NodesIn: Fn(i32) -> u64,
        BestMove: Fn(&T) -> M,
        Report: Fn(&T, &S),
        Now: Fn() -> S,
        TimeUp: Fn(&S, u64, &T) -> bool,
        SearchForTime: Fn(T, u128, &S) -> (T, bool),

        requires
            self.callable::<T, M, S>(),
        ensures
            match go_value(words(line@)) {
                Err(error) => end == Err::<(M, Option<T>), TeiError>(error),
                Ok(command) => match end {
                    Ok((best_move, Some(kept))) => self.go_ends(
                        command,
                        side,
                        tree,
                        Some(SearchEnd { tree: kept, best_move, exhausted: false }),
                    ),
                    Ok((best_move, None)) => exists|dropped: T| #[trigger]
                        self.go_ends(
                            command,
                            side,
                            tree,
                            Some(SearchEnd { tree: dropped, best_move, exhausted: true }),
                        ),
                    Err(error) => error == TeiError::RoundsSpent && self.go_ends(
                        command,
                        side,
                        tree,
                        None::<SearchEnd<T, M>>,
                    ),
                },
            },
    {
        let command = match parse_go(line) {
            Ok(command) => command,
            Err(error) => {
                return Err(error);
            },
        };
        let ghost start = tree;
        let started = (self.now)();
        let end: Option<SearchEnd<T, M>> = match command {
            GoCommand::MoveTime(millis) => self.search_rounds(tree, Some(millis), &started),
            GoCommand::Infinite => self.search_rounds(tree, None, &started),
            GoCommand::Timed(clock) => {
                let (after, exhausted) = (self.search_for_time)(
                    tree,
                    clock.max_time(side),
                    &started,
                );
                let best_move = (self.best_move)(&after);
                Some(SearchEnd { tree: after, best_move, exhausted })
            },
        };
        assert(call_ensures(self.now, (), started));
        assert(self.go_ends(command, side, start, end));
        match end {
            None => Err(TeiError::RoundsSpent),
            Some(SearchEnd { tree: after, best_move, exhausted }) => {
                if exhausted {
                    Ok((best_move, None))
                } else {
                    Ok((best_move, Some(after)))
                }
            },
        }
    }
}

/// Whether `end` can be what `nodes` selections, none of which finds the arena exhausted, make
/// of `start`.
pub open spec fn selected<T>(
    selects: spec_fn(T, (T, bool)) -> bool,
    nodes: nat,
    start: T,
    end: T,
) -> bool
    decreases nodes,
{
    if nodes == 0 {
        end == start
    } else {
        exists|next: T| #[trigger]
            selects(start, (next, false)) && selected(selects, (nodes - 1) as nat, next, end)
    }
}

// ---------------------------------------------------------------------------
// Laws
// ---------------------------------------------------------------------------

/// A batch that is not stopped and does not exhaust the arena searches exactly as many nodes
/// as it was asked to.
pub proof fn law_undisturbed_batch_is_complete<T>(
    stops: spec_fn(T, bool) -> bool,
    selects: spec_fn(T, (T, bool)) -> bool,
    nodes: nat,
    start: T,
    end: T,
)
    requires
        forall|t: T| !(#[trigger] stops(t, true)),
        batch_ends(stops, selects, nodes, start, end, false),
    ensures
        selected(selects, nodes, start, end),
    decreases nodes,
{
    if nodes > 0 {
        let next = choose|next: T| #[trigger]
            selects(start, (next, false)) && batch_ends(
                stops,
                selects,
                (nodes - 1) as nat,
                next,
                end,
                false,
            );
        law_undisturbed_batch_is_complete(stops, selects, (nodes - 1) as nat, next, end);
    }
}

/// Whether `end` can be what at most `nodes` selections make of `start`, the flag being down
/// before each of them. The trees that are expanded are `path`, in order.
pub open spec fn selected_along<T>(
    stops: spec_fn(T, bool) -> bool,
    selects: spec_fn(T, (T, bool)) -> bool,
    nodes: nat,
    path: Seq<T>,
    end: T,
    exhausted: bool,
) -> bool {
    &&& path.len() <= nodes
    &&& forall|i: int| 0 <= i < path.len() ==> stops(#[trigger] path[i], false)
    &&& forall|i: int, j: int|
        0 <= i < j < path.len() && j == i + 1 ==> selects(
            #[trigger] path[i],
            (#[trigger] path[j], false),
        )
    &&& path.len() > 0 ==> selects(path.last(), (end, exhausted))
}

/// Every selection of a batch was made after the flag had been read as down, on the tree that was
/// expanded. A batch that makes fewer selections than it was asked for either exhausted the arena
/// or read the flag as up on the tree that it ends with.
pub proof fn law_flag_is_read_before_each_selection<T>(
    stops: spec_fn(T, bool) -> bool,
    selects: spec_fn(T, (T, bool)) -> bool,
    nodes: nat,
    start: T,
    end: T,
    exhausted: bool,
) -> (path: Seq<T>)
    requires
        batch_ends(stops, selects, nodes, start, end, exhausted),
    ensures
        selected_along(stops, selects, nodes, path, end, exhausted),
        path.len() > 0 ==> path[0] == start,
        path.len() == 0 ==> end == start && !exhausted,
        path.len() < nodes ==> exhausted || stops(end, true),
    decreases nodes,
{
    if nodes == 0 {
        Seq::empty()
    } else if stops(start, true) && end == start && !exhausted {
        Seq::empty()
    } else if stops(start, false) && selects(start, (end, true)) && exhausted {
        seq![start]
    } else {
        let next = choose|next: T| #[trigger]
            selects(start, (next, false)) && batch_ends(
                stops,
                selects,
                (nodes - 1) as nat,
                next,
                end,
                exhausted,
            );
        let rest = law_flag_is_read_before_each_selection(
            stops,
            selects,
            (nodes - 1) as nat,
            next,
            end,
            exhausted,
        );
        let path = seq![start] + rest;
        assert forall|i: int| 0 <= i < path.len() implies stops(#[trigger] path[i], false) by {
            if i > 0 {
                assert(path[i] == rest[i - 1]);
            }
        }
        assert forall|i: int, j: int| 0 <= i < j < path.len() && j == i + 1 implies selects(
            #[trigger] path[i],
            (#[trigger] path[j], false),
        ) by {
            assert(path[j] == rest[j - 1]);
            if i > 0 {
                assert(path[i] == rest[i - 1]);
            }
        }
        if rest.len() > 0 {
            assert(path.last() == rest.last());
        }
        path
    }
}

/// If the stop flag is up on the tree that a batch starts with, the batch leaves the tree as it
/// is.
pub proof fn law_stopped_batch_does_nothing<T>(
    stops: spec_fn(T, bool) -> bool,
    selects: spec_fn(T, (T, bool)) -> bool,
    nodes: nat,
    start: T,
    end: T,
    exhausted: bool,
)
    requires
        !stops(start, false),
        batch_ends(stops, selects, nodes, start, end, exhausted),
    ensures
        end == start,
        !exhausted,
{
}

/// The tree that the round number `i` starts with, where `trace` are the ends that the rounds of
/// a search on `start` leave.
pub open spec fn round_start<T, M>(start: T, trace: Seq<SearchEnd<T, M>>, i: int) -> T {
    if i == 0 {
        start
    } else {
        trace[i - 1].tree
    }
}

/// Whether the rounds of a search, from the round number `round` on, can leave the ends `trace`
/// one after the other, the search being found to be over after the last one, and not before.
pub open spec fn rounds_leave<T, M>(
    runs: spec_fn(i32, T, SearchEnd<T, M>) -> bool,
    over: spec_fn(SearchEnd<T, M>, bool) -> bool,
    round: int,
    start: T,
    trace: Seq<SearchEnd<T, M>>,
) -> bool {
    &&& 0 < trace.len() <= i32::MAX - round
    &&& forall|i: int|
        0 <= i < trace.len() ==> runs(
            (round + i) as i32,
            #[trigger] round_start(start, trace, i),
            trace[i],
        )
    &&& forall|i: int| 0 <= i < trace.len() - 1 ==> over(#[trigger] trace[i], false)
    &&& over(trace.last(), true)
}

/// The rounds behind the end of a search.
proof fn lemma_rounds_leave<T, M>(
    runs: spec_fn(i32, T, SearchEnd<T, M>) -> bool,
    over: spec_fn(SearchEnd<T, M>, bool) -> bool,
    round: i32,
    start: T,
    end: SearchEnd<T, M>,
) -> (trace: Seq<SearchEnd<T, M>>)
    requires
        rounds_end(runs, over, round, start, Some(end)),
    ensures
        rounds_leave(runs, over, round as int, start, trace),
        trace.last() == end,
    decreases i32::MAX - round,
{
    let now = choose|now: SearchEnd<T, M>| #[trigger]
        runs(round, start, now) && {
            ||| over(now, true) && Some(end) == Some(now)
            ||| over(now, false) && rounds_end(
                runs,
                over,
                (round + 1) as i32,
                now.tree,
                Some(end),
            )
        };
    if over(now, true) && end == now {
        seq![now]
    } else {
        let rest = lemma_rounds_leave(runs, over, (round + 1) as i32, now.tree, end);
        let trace = seq![now] + rest;
        assert forall|i: int| 0 <= i < trace.len() implies runs(
            (round + i) as i32,
            #[trigger] round_start(start, trace, i),
            trace[i],
        ) by {
            if i > 0 {
                assert(trace[i] == rest[i - 1]);
                assert(round_start(now.tree, rest, i - 1) == round_start(start, trace, i));
            }
        }
        assert forall|i: int| 0 <= i < trace.len() - 1 implies over(#[trigger] trace[i], false) by {
            if i > 0 {
                assert(trace[i] == rest[i - 1]);
            }
        }
        assert(trace.last() == rest.last());
        trace
    }
}

impl<Stopped, Select, NodesIn, BestMove, Report, Now, TimeUp, SearchForTime> SearchCalls<
    Stopped,
    Select,
    NodesIn,
    BestMove,
    Report,
    Now,
    TimeUp,
    SearchForTime,
> {
    /// Whether the rounds of a search on `start` can leave the ends `trace` one after the other,
    /// the search being found to be over after the last one, and not before.
    pub open spec fn search_leaves<T, M, S>(
        self,
        started: S,
        limit: Option<u64>,
        start: T,
        trace: Seq<SearchEnd<T, M>>,
    ) -> bool where
        Stopped: Fn(&T) -> bool,
        Select: Fn(T) -> (T, bool),
        NodesIn: Fn(i32) -> u64,
        BestMove: Fn(&T) -> M,
        Report: Fn(&T, &S),
        TimeUp: Fn(&S, u64, &T) -> bool,
     {
        rounds_leave(
            self.runs::<T, M, S>(started),
            self.over::<T, M, S>(started, limit),
            0,
            start,
            trace,
        )
    }

    /// A search that ends has a last round, and ends with what that round leaves: the rounds leave
    /// one end after the other, each found not to be the last one but for the last.
    pub proof fn law_search_ends_with_its_last_round<T, M, S>(
        self,
        started: S,
        limit: Option<u64>,
        start: T,
        end: SearchEnd<T, M>,
    ) -> (trace: Seq<SearchEnd<T, M>>) where
        Stopped: Fn(&T) -> bool,
        Select: Fn(T) -> (T, bool),
        NodesIn: Fn(i32) -> u64,
        BestMove: Fn(&T) -> M,
        Report: Fn(&T, &S),
        TimeUp: Fn(&S, u64, &T) -> bool,

        requires
            self.search_ends(started, limit, start, Some(end)),
        ensures
            self.search_leaves(started, limit, start, trace),
            trace.last() == end,
    {
        lemma_rounds_leave(
            self.runs::<T, M, S>(started),
            self.over::<T, M, S>(started, limit),
            0,
            start,
            end,
        )
    }

    /// The first round after which the search is over is the last one. Every round leaves the best
    /// move of its tree and has reported on that tree. After a round that is not the last, the
    /// arena is not exhausted, the flag was read as down and, where there is a limit, the time was
    /// found not to be up, each on the tree that the round left. After the last round, the arena is
    /// exhausted, the flag was read as up, or there is a limit and the time was found to be up.
    pub proof fn law_first_round_that_is_over_is_the_last<T, M, S>(
        self,
        started: S,
        limit: Option<u64>,
        start: T,
        trace: Seq<SearchEnd<T, M>>,
        i: int,
    ) where
        Stopped: Fn(&T) -> bool,
        Select: Fn(T) -> (T, bool),
        NodesIn: Fn(i32) -> u64,
        BestMove: Fn(&T) -> M,
        Report: Fn(&T, &S),
        TimeUp: Fn(&S, u64, &T) -> bool,

        requires
            self.search_leaves(started, limit, start, trace),
            0 <= i < trace.len(),
        ensures
            call_ensures(self.best_move, (&trace[i].tree,), trace[i].best_move),
            call_ensures(self.report, (&trace[i].tree, &started), ()),
            i < trace.len() - 1 ==> {
                &&& !trace[i].exhausted
                &&& call_ensures(self.stopped, (&trace[i].tree,), false)
                &&& limit matches Some(millis) ==> call_ensures(
                    self.time_up,
                    (&started, millis, &trace[i].tree),
                    false,
                )
            },
            i == trace.len() - 1 ==> {
                ||| trace[i].exhausted
                ||| call_ensures(self.stopped, (&trace[i].tree,), true)
                ||| limit matches Some(millis) && call_ensures(
                    self.time_up,
                    (&started, millis, &trace[i].tree),
                    true,
                )
            },
    {
        assert(self.round_runs(
            started,
            (0 + i) as i32,
            round_start(start, trace, i),
            trace[i],
        ));
        if i < trace.len() - 1 {
            assert(self.found_over(started, limit, trace[i], false));
        } else {
            assert(self.found_over(started, limit, trace[i], true));
        }
    }

    /// Whether a search cannot be found to go on after a round that has left `end`: the arena is
    /// exhausted, the flag cannot read as down on the tree, or there is a limit and the time
    /// cannot be found not to be up on it.
    pub open spec fn cannot_go_on<T, M, S>(
        self,
        started: S,
        limit: Option<u64>,
        end: SearchEnd<T, M>,
    ) -> bool where Stopped: Fn(&T) -> bool, TimeUp: Fn(&S, u64, &T) -> bool {
        ||| end.exhausted
        ||| !call_ensures(self.stopped, (&end.tree,), false)
        ||| limit matches Some(millis) && !call_ensures(
            self.time_up,
            (&started, millis, &end.tree),
            false,
        )
    }

    /// A round after which the search cannot go on is the last one, however many rounds came
    /// before it. So a search that is stopped while it runs ends with the round that it is in.
    pub proof fn law_search_ends_when_stopped<T, M, S>(
        self,
        started: S,
        limit: Option<u64>,
        start: T,
        trace: Seq<SearchEnd<T, M>>,
        i: int,
    ) where
        Stopped: Fn(&T) -> bool,
        Select: Fn(T) -> (T, bool),
        NodesIn: Fn(i32) -> u64,
        BestMove: Fn(&T) -> M,
        Report: Fn(&T, &S),
        TimeUp: Fn(&S, u64, &T) -> bool,

        requires
            self.search_leaves(started, limit, start, trace),
            0 <= i < trace.len(),
            self.cannot_go_on(started, limit, trace[i]),
        ensures
            i == trace.len() - 1,
    {
        self.law_first_round_that_is_over_is_the_last(started, limit, start, trace, i);
    }

    /// If the flag is up on the tree that a search starts with, the search ends after its first
    /// round, with the tree as it is.
    pub proof fn law_stopped_search_ends<T, M, S>(
        self,
        started: S,
        limit: Option<u64>,
        start: T,
        end: Option<SearchEnd<T, M>>,
    ) where
        Stopped: Fn(&T) -> bool,
        Select: Fn(T) -> (T, bool),
        NodesIn: Fn(i32) -> u64,
        BestMove: Fn(&T) -> M,
        Report: Fn(&T, &S),
        TimeUp: Fn(&S, u64, &T) -> bool,

        requires
            !call_ensures(self.stopped, (&start,), false),
            self.search_ends(started, limit, start, end),
        ensures
            end is Some,
            end->0.tree == start,
            !end->0.exhausted,
            self.round_runs(started, 0, start, end->0),
    {
        let runs = self.runs::<T, M, S>(started);
        let over = self.over::<T, M, S>(started, limit);
        let now = choose|now: SearchEnd<T, M>| #[trigger]
            runs(0, start, now) && {
                ||| over(now, true) && end == Some(now)
                ||| over(now, false) && rounds_end(runs, over, 1, now.tree, end)
            };
        assert(self.round_runs(started, 0, start, now));
        let nodes = choose|nodes: u64| #[trigger]
            call_ensures(self.nodes_in, (0i32,), nodes) && batch_ends(
                outcomes_of_view(self.stopped),
                outcomes_1(self.select),
                nodes as nat,
                start,
                now.tree,
                now.exhausted,
            );
        assert(!outcomes_of_view(self.stopped)(start, false));
        law_stopped_batch_does_nothing(
            outcomes_of_view(self.stopped),
            outcomes_1(self.select),
            nodes as nat,
            start,
            now.tree,
            now.exhausted,
        );
        assert(!self.found_over(started, limit, now, false));
    }

    /// A search that nothing but the clock can end. If the flag never reads as up and the arena is
    /// never exhausted, every round is complete, the search has a time limit, and it ends with the
    /// first round after which the time is found to be up. So without a limit it does not end.
    pub proof fn law_undisturbed_search_ends_by_the_clock<T, M, S>(
        self,
        started: S,
        limit: Option<u64>,
        start: T,
        trace: Seq<SearchEnd<T, M>>,
        i: int,
    ) where
        Stopped: Fn(&T) -> bool,
        Select: Fn(T) -> (T, bool),
        NodesIn: Fn(i32) -> u64,
        BestMove: Fn(&T) -> M,
        Report: Fn(&T, &S),
        TimeUp: Fn(&S, u64, &T) -> bool,

        requires
            forall|t: &T| !(#[trigger] call_ensures(self.stopped, (t,), true)),
            forall|t: T, next: T| !(#[trigger] call_ensures(self.select, (t,), (next, true))),
            self.search_leaves(started, limit, start, trace),
            0 <= i < trace.len(),
        ensures
            limit is Some,
            !trace[i].exhausted,
            exists|nodes: u64| #[trigger]
                call_ensures(self.nodes_in, (i as i32,), nodes) && selected(
                    outcomes_1(self.select),
                    nodes as nat,
                    round_start(start, trace, i),
                    trace[i].tree,
                ),
            call_ensures(
                self.time_up,
                (&started, limit->0, &trace[i].tree),
                i == trace.len() - 1,
            ),
    {
        self.lemma_undisturbed_round(started, limit, start, trace, i);
        self.lemma_undisturbed_round(started, limit, start, trace, trace.len() - 1);
        self.law_first_round_that_is_over_is_the_last(started, limit, start, trace, i);
        self.law_first_round_that_is_over_is_the_last(
            started,
            limit,
            start,
            trace,
            trace.len() - 1,
        );
    }

    /// A round that is not disturbed is complete.
    proof fn lemma_undisturbed_round<T, M, S>(
        self,
        started: S,
        limit: Option<u64>,
        start: T,
        trace: Seq<SearchEnd<T, M>>,
        i: int,
    ) where
        Stopped: Fn(&T) -> bool,
        Select: Fn(T) -> (T, bool),
        NodesIn: Fn(i32) -> u64,
        BestMove: Fn(&T) -> M,
        Report: Fn(&T, &S),
        TimeUp: Fn(&S, u64, &T) -> bool,

        requires
            forall|t: &T| !(#[trigger] call_ensures(self.stopped, (t,), true)),
            forall|t: T, next: T| !(#[trigger] call_ensures(self.select, (t,), (next, true))),
            self.search_leaves(started, limit, start, trace),
            0 <= i < trace.len(),
        ensures
            !trace[i].exhausted,
            exists|nodes: u64| #[trigger]
                call_ensures(self.nodes_in, (i as i32,), nodes) && selected(
                    outcomes_1(self.select),
                    nodes as nat,
                    round_start(start, trace, i),
                    trace[i].tree,
                ),
    {
        let stops = outcomes_of_view(self.stopped);
        let selects = outcomes_1(self.select);
        let from = round_start(start, trace, i);
        let runs = self.runs::<T, M, S>(started);
        assert(runs((0 + i) as i32, from, trace[i]));
        let nodes = choose|nodes: u64| #[trigger]
            call_ensures(self.nodes_in, (i as i32,), nodes) && batch_ends(
                stops,
                selects,
                nodes as nat,
                from,
                trace[i].tree,
                trace[i].exhausted,
            );
        let path = law_flag_is_read_before_each_selection(
            stops,
            selects,
            nodes as nat,
            from,
            trace[i].tree,
            trace[i].exhausted,
        );
        assert(!trace[i].exhausted) by {
            if trace[i].exhausted {
                assert(selects(path.last(), (trace[i].tree, true)));
                assert(call_ensures(self.select, (path.last(),), (trace[i].tree, true)));
            }
        }
        assert forall|t: T| !(#[trigger] stops(t, true)) by {
            assert(!call_ensures(self.stopped, (&t,), true));
        }
        law_undisturbed_batch_is_complete(stops, selects, nodes as nat, from, trace[i].tree);
    }
}

} // verus!
