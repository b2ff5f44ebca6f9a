//! The state of a TEI session, from the first command to the last.
//!
//! `K` is the type of komi values, `P` that of positions, `M` that of moves and `T` that of
//! search trees. Lengths of time are in nanoseconds.

use vstd::prelude::*;
use vstd::std_specs::cmp::PartialEqSpec;

use crate::error::TeiError;
use crate::outcome::clones_are_equal;
use crate::outcome::outcomes_2;
use crate::position_string::PositionCalls;
use crate::protocol::is_playable;
use crate::protocol::new_game_value;
use crate::protocol::option_value;
use crate::protocol::parse_new_game;
use crate::protocol::parse_option;
use crate::protocol::Command;
use crate::protocol::OptionValue;
use crate::search_position::compares_values;
use crate::search_position::difference;
use crate::search_position::law_difference_completes;
use crate::search_position::law_difference_finds_continuations;
use crate::search_position::SearchPosition;
use crate::settings::MctsSettings;
use crate::text::words;

verus! {

/// The longest time that can be kept: the whole seconds that a `u64` can count, and all but
/// one nanosecond of another.
pub const MAX_NANOS: u128 = 18_446_744_073_709_551_615_999_999_999;

/// The state of a session.
pub struct Session<K, P, M, T> {
    /// The position to search next.
    pub position: Option<SearchPosition<P, M>>,
    /// The position that the last search was started on.
    pub last_searched: Option<SearchPosition<P, M>>,
    /// The tree that the last search left behind.
    pub search_tree: Option<T>,
    /// The board size.
    pub size: Option<usize>,
    /// The komi of positions to come.
    pub komi: K,
    /// How many lines to report.
    pub multi_pv: usize,
    /// How long the searches took that the tree has been carried through.
    pub cumulative_search_time: u128,
    /// Whether a search has been started and not been waited for.
    pub searching: bool,
}

/// What a search is started with.
pub struct GoJob<P, T> {
    /// The position to search.
    pub position: P,
    /// The tree to search with.
    pub tree: T,
    /// Whether the tree was carried over from an earlier search.
    pub reused: bool,
    /// How long the searches took that the tree was carried through.
    pub time_offset: u128,
}

/// What is left to do once the session has taken in a command.
pub enum Action<P, T> {
    /// Nothing.
    Nothing,
    /// This line is to be written.
    Answer(&'static str),
    /// A search is to be started.
    Search(GoJob<P, T>),
    /// The program is to end.
    Exit,
}

/// The calls that starting a search makes.
pub struct GoCalls<NewTree, Reroot, DoMove> {
    /// A new tree for a position.
    pub new_tree: NewTree,
    /// A tree below the root, some moves further on, if it can be had.
    pub reroot: Reroot,
    /// The position after a move.
    pub do_move: DoMove,
}

impl<K, P, M, T> Session<K, P, M, T> {
    /// What holds of every session. The board size is playable and the number of lines in
    /// range. A position needs a size, a search needs a position, and a tree comes from a
    /// search; without a search no time has been spent.
    pub open spec fn wf(self) -> bool {
        &&& self.size matches Some(size) ==> is_playable(size)
        &&& 1 <= self.multi_pv <= 8
        &&& self.position is Some ==> self.size is Some
        &&& self.last_searched is Some ==> self.position is Some
        &&& self.search_tree is Some || self.searching ==> self.last_searched is Some
        &&& self.last_searched is None ==> self.cumulative_search_time == 0
        &&& self.cumulative_search_time <= MAX_NANOS
    }

    /// A session in which nothing has happened.
    pub fn new(komi: K) -> (session: Self)
        ensures
            session.wf(),
            session == (Session::<K, P, M, T> {
                position: None,
                last_searched: None,
                search_tree: None,
                size: None,
                komi,
                multi_pv: 1,
                cumulative_search_time: 0,
                searching: false,
            }),
    {
        Session {
            position: None,
            last_searched: None,
            search_tree: None,
            size: None,
            komi,
            multi_pv: 1,
            cumulative_search_time: 0,
            searching: false,
        }
    }

    /// Whether `after` is this session with the search that has been waited for, if one was
    /// running, taken in: the tree that it left behind, and the time that it took.
    pub open spec fn drained(self, joined: Option<(Option<T>, u128)>, after: Self) -> bool {
        match joined {
            Some((tree, elapsed)) => after == (Session {
                search_tree: tree,
                cumulative_search_time: (self.cumulative_search_time + elapsed) as u128,
                searching: false,
                ..self
            }),
            None => after == self,
        }
    }

    /// Takes back the tree of the search that has been waited for, if one was running, and
    /// counts the time that it took.
    pub fn drain_worker(&mut self, joined: Option<(Option<T>, u128)>)
        requires
            joined is Some <==> old(self).searching,
            joined matches Some((_, elapsed)) ==> old(self).cumulative_search_time + elapsed
                <= MAX_NANOS,
        ensures
            old(self).wf() ==> final(self).wf(),
            !final(self).searching,
            old(self).drained(joined, *final(self)),
    {
        if let Some((tree, elapsed)) = joined {
            self.search_tree = tree;
            self.cumulative_search_time = self.cumulative_search_time + elapsed;
            self.searching = false;
        }
    }

    /// Whether a `setoption` command with the words `list` can turn this session into `after`,
    /// or be refused. A refused command changes nothing.
    pub open spec fn option_set<FromHalfKomi: Fn(i8) -> Option<K>>(
        self,
        list: Seq<Seq<char>>,
        from_half_komi: FromHalfKomi,
        after: Self,
        done: Result<(), TeiError>,
    ) -> bool {
        match option_value(list) {
            Err(error) => done == Err::<(), TeiError>(error) && after == self,
            Ok(OptionValue::MultiPv(n)) => done is Ok && after == (Session { multi_pv: n, ..self }),
            Ok(OptionValue::HalfKomi(n)) => match done {
                Ok(_) => call_ensures(from_half_komi, (n,), Some(after.komi)) && after == (Session {
                    komi: after.komi,
                    ..self
                }),
                Err(error) => error == TeiError::InvalidKomi && call_ensures(
                    from_half_komi,
                    (n,),
                    None,
                ) && after == self,
            },
        }
    }

    /// Carries out a `setoption` command. `from_half_komi` makes a komi of a number of half
    /// points, if it is a legal one.
    pub fn set_option<FromHalfKomi: Fn(i8) -> Option<K>>(
        &mut self,
        line: &str,
        from_half_komi: &FromHalfKomi,
    ) -> (done: Result<(), TeiError>)
        requires
            old(self).wf(),
            forall|n: i8| call_requires(*from_half_komi, (n,)),
        ensures
            final(self).wf(),
            old(self).option_set(words(line@), *from_half_komi, *final(self), done),
    {
        match parse_option(line) {
            Err(error) => Err(error),
            Ok(OptionValue::MultiPv(n)) => {
                self.multi_pv = n;
                Ok(())
            },
            Ok(OptionValue::HalfKomi(n)) => match from_half_komi(n) {
                Some(komi) => {
                    self.komi = komi;
                    Ok(())
                },
                None => Err(TeiError::InvalidKomi),
            },
        }
    }

    /// Whether a `teinewgame` command with the words `list` turns this session into `after`, or
    /// is refused. Everything but the komi and the number of lines is forgotten; a refused
    /// command changes nothing.
    pub open spec fn game_begun(
        self,
        list: Seq<Seq<char>>,
        after: Self,
        done: Result<(), TeiError>,
    ) -> bool {
        match new_game_value(list) {
            Err(error) => done == Err::<(), TeiError>(error) && after == self,
            Ok(size) => done is Ok && after == (Session {
                position: None,
                last_searched: None,
                search_tree: None,
                size: Some(size),
                cumulative_search_time: 0,
                ..self
            }),
        }
    }

    /// Carries out a `teinewgame` command: the board size is set, and everything that belongs
    /// to an earlier game is forgotten.
    pub fn new_game(&mut self, line: &str) -> (done: Result<(), TeiError>)
        requires
            old(self).wf(),
            !old(self).searching,
        ensures
            final(self).wf(),
            old(self).game_begun(words(line@), *final(self), done),
    {
        match parse_new_game(line) {
            Err(error) => Err(error),
            Ok(size) => {
                self.position = None;
                self.last_searched = None;
                self.search_tree = None;
                self.size = Some(size);
                self.cumulative_search_time = 0;
                Ok(())
            },
        }
    }

    /// Whether a `position` command with the words `list` can turn this session into `after`,
    /// or be refused. Nothing but the position changes; a refused command changes nothing.
    pub open spec fn position_set<StartPosition, FromTps, MoveFromSan, DoMove>(
        self,
        list: Seq<Seq<char>>,
        calls: PositionCalls<StartPosition, FromTps, MoveFromSan, DoMove>,
        after: Self,
        done: Result<(), TeiError>,
    ) -> bool where
        P: Clone,
        StartPosition: Fn(usize, K) -> P,
        FromTps: Fn(&str, usize, K) -> Result<P, String>,
        MoveFromSan: Fn(&P, &str) -> Result<M, String>,
        DoMove: Fn(P, M) -> P,
     {
        match (self.size, done) {
            (None, _) => done == Err::<(), TeiError>(TeiError::PositionBeforeNewGame) && after
                == self,
            (Some(size), Err(error)) => calls.position_read(
                list,
                size,
                self.komi,
                Err::<SearchPosition<P, M>, TeiError>(error),
            ) && after == self,
            (Some(size), Ok(_)) => after.position matches Some(position) && calls.position_read(
                list,
                size,
                self.komi,
                Ok(position),
            ) && after == (Session { position: Some(position), ..self }),
        }
    }

    /// Carries out a `position` command.
    pub fn set_position<StartPosition, FromTps, MoveFromSan, DoMove>(
        &mut self,
        line: &str,
        calls: &PositionCalls<StartPosition, FromTps, MoveFromSan, DoMove>,
    ) -> (done: Result<(), TeiError>) where
        K: Copy,
        P: Clone,
        M: Copy,
        StartPosition: Fn(usize, K) -> P,
        FromTps: Fn(&str, usize, K) -> Result<P, String>,
        MoveFromSan: Fn(&P, &str) -> Result<M, String>,
        DoMove: Fn(P, M) -> P,

        requires
            old(self).wf(),
            !old(self).searching,
            calls.callable::<P, M, K>(),
        ensures
            final(self).wf(),
            old(self).position_set(words(line@), *calls, *final(self), done),
    {
        match self.size {
            None => Err(TeiError::PositionBeforeNewGame),
            Some(size) => match calls.parse_position_string(line, size, self.komi) {
                Err(error) => Err(error),
                Ok(position) => {
                    self.position = Some(position);
                    Ok(())
                },
            },
        }
    }

    /// The moves by which the kept tree is to be carried over to `current`: those that lead
    /// there from the position it was built for, if there is a tree and such moves.
    pub open spec fn moves_to_carry(self, current: SearchPosition<P, M>) -> Option<Seq<M>> where
        P: PartialEq,
        M: PartialEq,
     {
        match (self.search_tree, self.last_searched) {
            (Some(_), Some(earlier)) => difference(earlier, current),
            _ => None,
        }
    }

    /// Whether `diff` can be found to be the moves by which the kept tree is to be carried
    /// over to `current`. Where comparing positions and moves does what it is specified to do,
    /// it is decided; in any case they are the last moves of `current`.
    pub open spec fn carry_found(self, current: SearchPosition<P, M>, diff: Option<Seq<M>>) -> bool where
        P: PartialEq,
        M: PartialEq,
     {
        &&& P::obeys_eq_spec() && M::obeys_eq_spec() ==> diff == self.moves_to_carry(current)
        &&& diff is Some ==> self.search_tree is Some && self.last_searched is Some && diff->0
            == current.moves@.skip(self.last_searched->0.moves@.len() as int)
    }

    /// Whether `tree` can be the tree that searching `current` is started with, carried over
    /// or not, where `diff` are the moves by which the kept tree is to be carried over. It is,
    /// if there are such moves and if that succeeds; otherwise there is a new tree for the
    /// position.
    pub open spec fn tree_made<NewTree, Reroot, DoMove>(
        self,
        current: SearchPosition<P, M>,
        diff: Option<Seq<M>>,
        settings: MctsSettings,
        calls: GoCalls<NewTree, Reroot, DoMove>,
        tree: T,
        reused: bool,
    ) -> bool where
        P: Clone,
        NewTree: Fn(P, MctsSettings) -> T,
        Reroot: Fn(T, &[M]) -> Option<T>,
        DoMove: Fn(P, M) -> P,
     {
        if reused {
            &&& diff is Some
            &&& calls.reroots(self.search_tree->0, diff->0, Some(tree))
        } else {
            &&& diff is Some ==> calls.reroots(self.search_tree->0, diff->0, None)
            &&& calls.new_tree_made(current, settings, tree)
        }
    }

    /// Whether starting a search can turn this session into `after` and give `job`, or be
    /// refused. A refused command changes nothing.
    ///
    /// The search gets the position that the moves lead to, and a tree. The time spent so far
    /// is kept with a tree that is carried over, and forgotten otherwise. From then on the
    /// position is the one that was searched last.
    pub open spec fn search_prepared<NewTree, Reroot, DoMove>(
        self,
        settings: MctsSettings,
        calls: GoCalls<NewTree, Reroot, DoMove>,
        after: Self,
        job: Result<GoJob<P, T>, TeiError>,
    ) -> bool where
        P: Clone + PartialEq,
        M: PartialEq,
        NewTree: Fn(P, MctsSettings) -> T,
        Reroot: Fn(T, &[M]) -> Option<T>,
        DoMove: Fn(P, M) -> P,
     {
        match (self.position, job) {
            (None, _) => job == Err::<GoJob<P, T>, TeiError>(
                if self.size is None {
                    TeiError::GoBeforeNewGame
                } else {
                    TeiError::PositionNotSet
                },
            ) && after == self,
            (Some(_), Err(_)) => false,
            (Some(current), Ok(job)) => {
                &&& exists|diff: Option<Seq<M>>| #[trigger]
                    self.carry_found(current, diff) && self.tree_made(
                        current,
                        diff,
                        settings,
                        calls,
                        job.tree,
                        job.reused,
                    )
                &&& current.reaches(outcomes_2(calls.do_move), job.position)
                &&& job.time_offset == if job.reused {
                    self.cumulative_search_time
                } else {
                    0
                }
                &&& after.last_searched is Some
                &&& current.copied(after.last_searched->0)
                &&& after == (Session {
                    last_searched: after.last_searched,
                    search_tree: None,
                    cumulative_search_time: job.time_offset,
                    searching: true,
                    ..self
                })
            },
        }
    }

    /// Carries out a `go` command up to the point where the search starts: a tree is carried
    /// over or made for the position, and the time spent so far is forgotten with the tree.
    pub fn prepare_go<NewTree, Reroot, DoMove>(
        &mut self,
        settings: MctsSettings,
        calls: &GoCalls<NewTree, Reroot, DoMove>,
    ) -> (job: Result<GoJob<P, T>, TeiError>) where
        P: Clone + PartialEq,
        M: Copy + PartialEq,
        NewTree: Fn(P, MctsSettings) -> T,
        Reroot: Fn(T, &[M]) -> Option<T>,
        DoMove: Fn(P, M) -> P,

        requires
            old(self).wf(),
            !old(self).searching,
            calls.callable::<P, M, T>(),
        ensures
            final(self).wf(),
            old(self).search_prepared(settings, *calls, *final(self), job),
    {
        if self.size.is_none() {
            return Err(TeiError::GoBeforeNewGame);
        }
        let current = match &self.position {
            None => {
                return Err(TeiError::PositionNotSet);
            },
            Some(position) => position,
        };
        let kept = self.search_tree.take();
        let earlier = self.last_searched.take();
        let ghost mut diff: Option<Seq<M>> = None;
        let mut carried: Option<T> = None;
        if let (Some(tree), Some(earlier)) = (kept, earlier) {
            if let Some(moves) = earlier.move_difference(current) {
                carried = (calls.reroot)(tree, moves);
                proof {
                    diff = Some(moves@);
                    assert(call_ensures(calls.reroot, (tree, moves), carried));
                    assert(calls.reroots(tree, moves@, carried));
                }
            }
        }
        assert(old(self).carry_found(*current, diff));
        let (tree, reused) = match carried {
            Some(tree) => (tree, true),
            None => {
                let root = current.position(&calls.do_move);
                assert(current.reaches(outcomes_2(calls.do_move), root));
                ((calls.new_tree)(root, settings), false)
            },
        };
        assert(old(self).tree_made(*current, diff, settings, *calls, tree, reused));
        if !reused {
            self.cumulative_search_time = 0;
        }
        let time_offset = self.cumulative_search_time;
        let position = current.position(&calls.do_move);
        self.last_searched = Some(current.clone());
        self.searching = true;
        Ok(GoJob { position, tree, reused, time_offset })
    }
}

impl<K, P, M, T> Session<K, P, M, T> {
    /// Whether the command `command`, with the words `list`, can turn this session into `after`
    /// and ask for `action`, or be refused.
    pub open spec fn carried_out<
        FromHalfKomi,
        StartPosition,
        FromTps,
        MoveFromSan,
        DoMove,
        NewTree,
        Reroot,
        PlayMove,
    >(
        self,
        command: Command,
        list: Seq<Seq<char>>,
        settings: MctsSettings,
        from_half_komi: FromHalfKomi,
        position_calls: PositionCalls<StartPosition, FromTps, MoveFromSan, DoMove>,
        go_calls: GoCalls<NewTree, Reroot, PlayMove>,
        after: Self,
        action: Result<Action<P, T>, TeiError>,
    ) -> bool where
        P: Clone + PartialEq,
        M: PartialEq,
        FromHalfKomi: Fn(i8) -> Option<K>,
        StartPosition: Fn(usize, K) -> P,
        FromTps: Fn(&str, usize, K) -> Result<P, String>,
        MoveFromSan: Fn(&P, &str) -> Result<M, String>,
        DoMove: Fn(P, M) -> P,
        NewTree: Fn(P, MctsSettings) -> T,
        Reroot: Fn(T, &[M]) -> Option<T>,
        PlayMove: Fn(P, M) -> P,
     {
        match command {
            Command::Quit => action == Ok::<Action<P, T>, TeiError>(Action::Exit) && after == self,
            Command::Stop => action == Ok::<Action<P, T>, TeiError>(Action::Nothing) && after
                == self,
            Command::IsReady => action matches Ok(Action::Answer(answer)) && answer@ == "readyok"@
                && after == self,
            Command::SetOption => self.option_set(list, from_half_komi, after, settled(action))
                && no_more(action),
            Command::NewGame => self.game_begun(list, after, settled(action)) && no_more(action),
            Command::Position => self.position_set(list, position_calls, after, settled(action))
                && no_more(action),
            Command::Go => match action {
                Ok(Action::Search(job)) => self.search_prepared(settings, go_calls, after, Ok(job)),
                Ok(_) => false,
                Err(error) => self.search_prepared(settings, go_calls, after, Err(error)),
            },
        }
    }

    /// Carries out the command `command` of `line`, once a search that it has to wait for has
    /// been waited for.
    pub fn carry_out<
        FromHalfKomi,
        StartPosition,
        FromTps,
        MoveFromSan,
        DoMove,
        NewTree,
        Reroot,
        PlayMove,
    >(
        &mut self,
        command: Command,
        line: &str,
        settings: MctsSettings,
        from_half_komi: &FromHalfKomi,
        position_calls: &PositionCalls<StartPosition, FromTps, MoveFromSan, DoMove>,
        go_calls: &GoCalls<NewTree, Reroot, PlayMove>,
    ) -> (action: Result<Action<P, T>, TeiError>) where
        K: Copy,
        P: Clone + PartialEq,
        M: Copy + PartialEq,
        FromHalfKomi: Fn(i8) -> Option<K>,
        StartPosition: Fn(usize, K) -> P,
        FromTps: Fn(&str, usize, K) -> Result<P, String>,
        MoveFromSan: Fn(&P, &str) -> Result<M, String>,
        DoMove: Fn(P, M) -> P,
        NewTree: Fn(P, MctsSettings) -> T,
        Reroot: Fn(T, &[M]) -> Option<T>,
        PlayMove: Fn(P, M) -> P,

        requires
            old(self).wf(),
            command.worker_orders_value().wait ==> !old(self).searching,
            forall|n: i8| call_requires(*from_half_komi, (n,)),
            position_calls.callable::<P, M, K>(),
            go_calls.callable::<P, M, T>(),
        ensures
            final(self).wf(),
            old(self).carried_out(
                command,
                words(line@),
                settings,
                *from_half_komi,
                *position_calls,
                *go_calls,
                *final(self),
                action,
            ),
    {
        match command {
            Command::Quit => Ok(Action::Exit),
            Command::Stop => Ok(Action::Nothing),
            Command::IsReady => Ok(Action::Answer("readyok")),
            Command::SetOption => match self.set_option(line, from_half_komi) {
                Ok(_) => Ok(Action::Nothing),
                Err(error) => Err(error),
            },
            Command::NewGame => match self.new_game(line) {
                Ok(_) => Ok(Action::Nothing),
                Err(error) => Err(error),
            },
            Command::Position => match self.set_position(line, position_calls) {
                Ok(_) => Ok(Action::Nothing),
                Err(error) => Err(error),
            },
            Command::Go => match self.prepare_go(settings, go_calls) {
                Ok(job) => Ok(Action::Search(job)),
                Err(error) => Err(error),
            },
        }
    }
}

/// Whether a command was carried out or refused, whatever is left to do.
pub open spec fn settled<P, T>(action: Result<Action<P, T>, TeiError>) -> Result<(), TeiError> {
    match action {
        Ok(_) => Ok(()),
        Err(error) => Err(error),
    }
}

/// Whether nothing is left to do.
pub open spec fn no_more<P, T>(action: Result<Action<P, T>, TeiError>) -> bool {
    action matches Ok(rest) ==> rest is Nothing
}

impl<NewTree, Reroot, DoMove> GoCalls<NewTree, Reroot, DoMove> {
    /// Whether every call may be made with every argument.
    pub open spec fn callable<P, M, T>(self) -> bool where
        NewTree: Fn(P, MctsSettings) -> T,
        Reroot: Fn(T, &[M]) -> Option<T>,
        DoMove: Fn(P, M) -> P,
     {
        &&& forall|p: P, s: MctsSettings| call_requires(self.new_tree, (p, s))
        &&& forall|t: T, m: &[M]| call_requires(self.reroot, (t, m))
        &&& forall|p: P, m: M| call_requires(self.do_move, (p, m))
    }

    /// Whether carrying `tree` over by the moves `diff` can give `carried`.
    pub open spec fn reroots<T, M>(self, tree: T, diff: Seq<M>, carried: Option<T>) -> bool where
        Reroot: Fn(T, &[M]) -> Option<T>,
     {
        exists|moves: &[M]|
            moves@ == diff && #[trigger] call_ensures(self.reroot, (tree, moves), carried)
    }

    /// Whether `tree` can be a new tree for `current`.
    pub open spec fn new_tree_made<P, M, T>(
        self,
        current: SearchPosition<P, M>,
        settings: MctsSettings,
        tree: T,
    ) -> bool where P: Clone, NewTree: Fn(P, MctsSettings) -> T, DoMove: Fn(P, M) -> P {
        exists|position: P| #[trigger]
            current.reaches(outcomes_2(self.do_move), position) && call_ensures(
                self.new_tree,
                (position, settings),
                tree,
            )
    }
}

// ---------------------------------------------------------------------------
// Laws
// ---------------------------------------------------------------------------

/// Time adds up as long as the tree is carried over. From one search to the next, the time
/// spent grows by what the search took if its tree was carried over, and starts again with what
/// the search took if it was not.
pub proof fn law_time_adds_up<K, P, M, T, NewTree, Reroot, DoMove>(
    before: Session<K, P, M, T>,
    settings: MctsSettings,
    calls: GoCalls<NewTree, Reroot, DoMove>,
    searching: Session<K, P, M, T>,
    job: GoJob<P, T>,
    tree: Option<T>,
    elapsed: u128,
    after: Session<K, P, M, T>,
) where
    P: Clone + PartialEq,
    M: PartialEq,
    NewTree: Fn(P, MctsSettings) -> T,
    Reroot: Fn(T, &[M]) -> Option<T>,
    DoMove: Fn(P, M) -> P,

    requires
        before.search_prepared(settings, calls, searching, Ok(job)),
        searching.drained(Some((tree, elapsed)), after),
        searching.cumulative_search_time + elapsed <= MAX_NANOS,
    ensures
        job.reused ==> after.cumulative_search_time == before.cumulative_search_time + elapsed,
        !job.reused ==> after.cumulative_search_time == elapsed,
{
}

/// A position that continues the one searched last gets the kept tree, offered with exactly
/// the moves that were played since; the same position gets it with none.
pub proof fn law_continuation_is_offered_the_tree<K, P: PartialEq, M: PartialEq, T>(
    session: Session<K, P, M, T>,
    earlier: SearchPosition<P, M>,
    current: SearchPosition<P, M>,
    moves: Seq<M>,
    diff: Option<Seq<M>>,
)
    requires
        compares_values::<P>(),
        compares_values::<M>(),
        P::obeys_eq_spec(),
        M::obeys_eq_spec(),
        session.search_tree is Some,
        session.last_searched == Some(earlier),
        current.root_position == earlier.root_position,
        current.moves@ == earlier.moves@ + moves,
        session.carry_found(current, diff),
    ensures
        diff == Some(moves),
{
    law_difference_finds_continuations(earlier, current, moves);
}

/// A position that does not continue the one searched last gets a new tree, and the time spent
/// so far is forgotten.
pub proof fn law_other_position_gets_a_new_tree<K, P, M, T, NewTree, Reroot, DoMove>(
    before: Session<K, P, M, T>,
    settings: MctsSettings,
    calls: GoCalls<NewTree, Reroot, DoMove>,
    earlier: SearchPosition<P, M>,
    current: SearchPosition<P, M>,
    after: Session<K, P, M, T>,
    job: GoJob<P, T>,
) where
    P: Clone + PartialEq,
    M: PartialEq,
    NewTree: Fn(P, MctsSettings) -> T,
    Reroot: Fn(T, &[M]) -> Option<T>,
    DoMove: Fn(P, M) -> P,

    requires
        compares_values::<P>(),
        compares_values::<M>(),
        P::obeys_eq_spec(),
        M::obeys_eq_spec(),
        before.last_searched == Some(earlier),
        before.position == Some(current),
        current.root_position != earlier.root_position || !earlier.moves@.is_prefix_of(
            current.moves@,
        ),
        before.search_prepared(settings, calls, after, Ok(job)),
    ensures
        !job.reused,
        job.time_offset == 0,
        calls.new_tree_made(current, settings, job.tree),
{
    law_difference_completes(earlier, current);
    if let Some(diff) = difference(earlier, current) {
        assert(earlier.moves@ =~= current.moves@.subrange(0, earlier.moves@.len() as int));
    }
    let diff = choose|diff: Option<Seq<M>>| #[trigger]
        before.carry_found(current, diff) && before.tree_made(
            current,
            diff,
            settings,
            calls,
            job.tree,
            job.reused,
        );
    assert(diff is None);
}

/// The first search after a new game gets a new tree.
pub proof fn law_new_game_forgets_the_tree<K, P, M, T, NewTree, Reroot, DoMove>(
    before: Session<K, P, M, T>,
    list: Seq<Seq<char>>,
    begun: Session<K, P, M, T>,
    position: SearchPosition<P, M>,
    settings: MctsSettings,
    calls: GoCalls<NewTree, Reroot, DoMove>,
    after: Session<K, P, M, T>,
    job: GoJob<P, T>,
) where
    P: Clone + PartialEq,
    M: PartialEq,
    NewTree: Fn(P, MctsSettings) -> T,
    Reroot: Fn(T, &[M]) -> Option<T>,
    DoMove: Fn(P, M) -> P,

    requires
        before.game_begun(list, begun, Ok(())),
        (Session { position: Some(position), ..begun }).search_prepared(
            settings,
            calls,
            after,
            Ok(job),
        ),
    ensures
        !job.reused,
        job.time_offset == 0,
        calls.new_tree_made(position, settings, job.tree),
{
}

/// A tree that the arena had no room left for is not searched again: if a search leaves no
/// tree behind, the next one starts with a new tree.
pub proof fn law_lost_tree_is_replaced<K, P, M, T, NewTree, Reroot, DoMove>(
    searching: Session<K, P, M, T>,
    elapsed: u128,
    drained: Session<K, P, M, T>,
    position: SearchPosition<P, M>,
    settings: MctsSettings,
    calls: GoCalls<NewTree, Reroot, DoMove>,
    after: Session<K, P, M, T>,
    job: GoJob<P, T>,
) where
    P: Clone + PartialEq,
    M: PartialEq,
    NewTree: Fn(P, MctsSettings) -> T,
    Reroot: Fn(T, &[M]) -> Option<T>,
    DoMove: Fn(P, M) -> P,

    requires
        searching.drained(Some((None, elapsed)), drained),
        (Session { position: Some(position), ..drained }).search_prepared(
            settings,
            calls,
            after,
            Ok(job),
        ),
    ensures
        !job.reused,
        job.time_offset == 0,
        calls.new_tree_made(position, settings, job.tree),
{
}

/// Two searches, the first one waited for in between. If the second position continues the
/// first, what the second search starts with depends on what the first one left behind. Without
/// a tree, there is a new one, and the time starts again. With a tree, it is carried over by
/// exactly the moves played since, and the time is kept; if that fails, there is a new one.
pub proof fn law_search_after_search<K, P, M, T, NewTree, Reroot, DoMove>(
    before: Session<K, P, M, T>,
    earlier: SearchPosition<P, M>,
    first_settings: MctsSettings,
    calls: GoCalls<NewTree, Reroot, DoMove>,
    searching: Session<K, P, M, T>,
    first: GoJob<P, T>,
    tree: Option<T>,
    elapsed: u128,
    drained: Session<K, P, M, T>,
    later: SearchPosition<P, M>,
    second_settings: MctsSettings,
    after: Session<K, P, M, T>,
    second: GoJob<P, T>,
) where
    P: Clone + PartialEq,
    M: PartialEq,
    NewTree: Fn(P, MctsSettings) -> T,
    Reroot: Fn(T, &[M]) -> Option<T>,
    DoMove: Fn(P, M) -> P,

    requires
        clones_are_equal::<P>(),
        compares_values::<P>(),
        compares_values::<M>(),
        P::obeys_eq_spec(),
        M::obeys_eq_spec(),
        before.position == Some(earlier),
        before.search_prepared(first_settings, calls, searching, Ok(first)),
        searching.drained(Some((tree, elapsed)), drained),
        later.root_position == earlier.root_position,
        earlier.moves@.is_prefix_of(later.moves@),
        (Session { position: Some(later), ..drained }).search_prepared(
            second_settings,
            calls,
            after,
            Ok(second),
        ),
    ensures
        second.reused ==> tree is Some && calls.reroots(
            tree->0,
            later.moves@.skip(earlier.moves@.len() as int),
            Some(second.tree),
        ) && second.time_offset == drained.cumulative_search_time,
        !second.reused ==> (tree is Some ==> calls.reroots(
            tree->0,
            later.moves@.skip(earlier.moves@.len() as int),
            None,
        )) && calls.new_tree_made(later, second_settings, second.tree) && second.time_offset == 0,
        after.cumulative_search_time == second.time_offset,
{
    let kept = searching.last_searched->0;
    assert(cloned(earlier.root_position, kept.root_position));
    let since = later.moves@.skip(earlier.moves@.len() as int);
    assert(later.moves@ =~= kept.moves@ + since);
    law_difference_finds_continuations(kept, later, since);
}

/// Taking in a search that has been waited for never makes the time spent fall, and doing so
/// once more, when no search is running, changes nothing.
pub proof fn law_draining_again_changes_nothing<K, P, M, T>(
    before: Session<K, P, M, T>,
    joined: Option<(Option<T>, u128)>,
    once: Session<K, P, M, T>,
    joined_again: Option<(Option<T>, u128)>,
    twice: Session<K, P, M, T>,
)
    requires
        joined is Some <==> before.searching,
        joined matches Some((_, elapsed)) ==> before.cumulative_search_time + elapsed <= MAX_NANOS,
        before.drained(joined, once),
        joined_again is Some <==> once.searching,
        once.drained(joined_again, twice),
    ensures
        !once.searching,
        joined is None ==> once == before,
        once.cumulative_search_time >= before.cumulative_search_time,
        twice == once,
{
}

/// Over any number of searches taken in, the time spent never falls.
pub proof fn law_time_never_falls_while_draining<K, P, M, T>(
    sessions: Seq<Session<K, P, M, T>>,
    joined: Seq<Option<(Option<T>, u128)>>,
)
    requires
        sessions.len() == joined.len() + 1,
        forall|i: int|
            0 <= i < joined.len() ==> #[trigger] sessions[i].drained(joined[i], sessions[i + 1]),
        forall|i: int|
            0 <= i < joined.len() ==> (#[trigger] joined[i] matches Some((_, elapsed))
                ==> sessions[i].cumulative_search_time + elapsed <= MAX_NANOS),
    ensures
        sessions.last().cumulative_search_time >= sessions[0].cumulative_search_time,
    decreases joined.len(),
{
    if joined.len() > 0 {
        let n = joined.len() - 1;
        let front = sessions.drop_last();
        let front_joined = joined.drop_last();
        assert forall|i: int| 0 <= i < front_joined.len() implies #[trigger] front[i].drained(
            front_joined[i],
            front[i + 1],
        ) by {
            assert(sessions[i].drained(joined[i], sessions[i + 1]));
        }
        assert forall|i: int| 0 <= i < front_joined.len() implies (
        #[trigger] front_joined[i] matches Some((_, elapsed)) ==> front[i].cumulative_search_time
            + elapsed <= MAX_NANOS) by {
            assert(front_joined[i] == joined[i]);
        }
        law_time_never_falls_while_draining(front, front_joined);
        assert(sessions[n].drained(joined[n], sessions[n + 1]));
        assert(joined[n] matches Some((_, elapsed)) ==> sessions[n].cumulative_search_time
            + elapsed <= MAX_NANOS);
    }
}

} // verus!
