//! What the commands make of a session, field by field, and what a search starts with.

use vstd::prelude::*;
use vstd::std_specs::cmp::PartialEqSpec;

use crate::error::TeiError;
use crate::number::signed_value;
use crate::number::unsigned_value;
use crate::outcome::outcomes_2;
use crate::position_string::PositionCalls;
use crate::protocol::option_value;
use crate::protocol::Command;
use crate::protocol::OptionValue;
use crate::search_position::law_difference_finds_continuations;
use crate::search_position::law_difference_is_what_was_played_since;
use crate::search_position::law_position_plays_every_move;
use crate::search_position::SearchPosition;
use crate::session::Action;
use crate::session::GoCalls;
use crate::session::GoJob;
use crate::session::Session;
use crate::settings::MctsSettings;

verus! {

// ---------------------------------------------------------------------------
// Starting a search
// ---------------------------------------------------------------------------

/// A tree that is not carried over is a new one, made for a position that is found by playing all
/// the moves of the current position, in order and however many there are, from a clone of its
/// root, and made with the settings given.
pub proof fn law_new_tree_is_for_the_whole_line<K, P, M, T, NewTree, Reroot, DoMove>(
    before: Session<K, P, M, T>,
    current: SearchPosition<P, M>,
    settings: MctsSettings,
    calls: GoCalls<NewTree, Reroot, DoMove>,
    after: Session<K, P, M, T>,
    job: GoJob<P, T>,
) -> (path: Seq<P>) where
    P: Clone + PartialEq,
    M: PartialEq,
    NewTree: Fn(P, MctsSettings) -> T,
    Reroot: Fn(T, &[M]) -> Option<T>,
    DoMove: Fn(P, M) -> P,

    requires
        before.position == Some(current),
        before.search_prepared(settings, calls, after, Ok(job)),
        !job.reused,
    ensures
        path.len() == current.moves@.len() + 1,
        cloned(current.root_position, path[0]),
        forall|i: int|
            0 <= i < current.moves@.len() ==> call_ensures(
                calls.do_move,
                (path[i], #[trigger] current.moves@[i]),
                path[i + 1],
            ),
        call_ensures(calls.new_tree, (path.last(), settings), job.tree),
{
    let position = choose|position: P| #[trigger]
        current.reaches(outcomes_2(calls.do_move), position) && call_ensures(
            calls.new_tree,
            (position, settings),
            job.tree,
        );
    law_position_plays_every_move(current, calls.do_move, position)
}

/// The position that is searched is found by playing all the moves of the current position, in
/// order, from a clone of its root.
pub proof fn law_whole_line_is_searched<K, P, M, T, NewTree, Reroot, DoMove>(
    before: Session<K, P, M, T>,
    current: SearchPosition<P, M>,
    settings: MctsSettings,
    calls: GoCalls<NewTree, Reroot, DoMove>,
    after: Session<K, P, M, T>,
    job: GoJob<P, T>,
) -> (path: Seq<P>) where
    P: Clone + PartialEq,
    M: PartialEq,
    NewTree: Fn(P, MctsSettings) -> T,
    Reroot: Fn(T, &[M]) -> Option<T>,
    DoMove: Fn(P, M) -> P,

    requires
        before.position == Some(current),
        before.search_prepared(settings, calls, after, Ok(job)),
    ensures
        path.len() == current.moves@.len() + 1,
        cloned(current.root_position, path[0]),
        forall|i: int|
            0 <= i < current.moves@.len() ==> call_ensures(
                calls.do_move,
                (path[i], #[trigger] current.moves@[i]),
                path[i + 1],
            ),
        path.last() == job.position,
{
    law_position_plays_every_move(current, calls.do_move, job.position)
}

/// Where moves lead to one position only and clones are equal, a new tree is made for the very
/// position that is searched.
pub proof fn law_new_tree_is_for_the_position_searched<K, P, M, T, NewTree, Reroot, DoMove>(
    before: Session<K, P, M, T>,
    current: SearchPosition<P, M>,
    settings: MctsSettings,
    calls: GoCalls<NewTree, Reroot, DoMove>,
    after: Session<K, P, M, T>,
    job: GoJob<P, T>,
) where
    P: Clone + PartialEq,
    M: PartialEq,
    NewTree: Fn(P, MctsSettings) -> T,
    Reroot: Fn(T, &[M]) -> Option<T>,
    DoMove: Fn(P, M) -> P,

    requires
        before.position == Some(current),
        before.search_prepared(settings, calls, after, Ok(job)),
        !job.reused,
        forall|p: P, copy: P| #[trigger] cloned(p, copy) ==> copy == p,
        forall|p: P, m: M, a: P, b: P| #[trigger]
            call_ensures(calls.do_move, (p, m), a) && #[trigger] call_ensures(
                calls.do_move,
                (p, m),
                b,
            ) ==> a == b,
    ensures
        call_ensures(calls.new_tree, (job.position, settings), job.tree),
{
    let a = law_new_tree_is_for_the_whole_line(before, current, settings, calls, after, job);
    let b = law_whole_line_is_searched(before, current, settings, calls, after, job);
    assert(a[0] == current.root_position && b[0] == current.root_position);
    lemma_paths_agree(current.moves@, calls.do_move, a, b, current.moves@.len() as int);
}

proof fn lemma_paths_agree<P, M, DoMove: Fn(P, M) -> P>(
    moves: Seq<M>,
    do_move: DoMove,
    a: Seq<P>,
    b: Seq<P>,
    n: int,
)
    requires
        a.len() == moves.len() + 1,
        b.len() == moves.len() + 1,
        a[0] == b[0],
        0 <= n <= moves.len(),
        forall|p: P, m: M, x: P, y: P| #[trigger]
            call_ensures(do_move, (p, m), x) && #[trigger] call_ensures(do_move, (p, m), y) ==> x
                == y,
        forall|i: int|
            0 <= i < moves.len() ==> call_ensures(do_move, (a[i], #[trigger] moves[i]), a[i + 1]),
        forall|i: int|
            0 <= i < moves.len() ==> call_ensures(do_move, (b[i], #[trigger] moves[i]), b[i + 1]),
    ensures
        a[n] == b[n],
    decreases n,
{
    if n > 0 {
        lemma_paths_agree(moves, do_move, a, b, n - 1);
        let m = moves[n - 1];
        assert(call_ensures(do_move, (a[n - 1], m), a[n]));
        assert(call_ensures(do_move, (b[n - 1], m), b[n]));
    }
}

/// A tree that is carried over is the kept one, rerooted by exactly the moves behind those of the
/// position that was searched last. There was a kept tree, and where comparing does what it is
/// specified to do, the current position has the same root and starts with the same moves.
pub proof fn law_carried_tree_is_rerooted_by_the_moves_since<
    K,
    P,
    M,
    T,
    NewTree,
    Reroot,
    DoMove,
>(
    before: Session<K, P, M, T>,
    current: SearchPosition<P, M>,
    settings: MctsSettings,
    calls: GoCalls<NewTree, Reroot, DoMove>,
    after: Session<K, P, M, T>,
    job: GoJob<P, T>,
) where
    P: Clone + PartialEq,
    M: PartialEq,
    NewTree: Fn(P, MctsSettings) -> T,
    Reroot: Fn(T, &[M]) -> Option<T>,
    DoMove: Fn(P, M) -> P,

    requires
        before.position == Some(current),
        before.search_prepared(settings, calls, after, Ok(job)),
        job.reused,
    ensures
        before.search_tree is Some,
        before.last_searched is Some,
        exists|since: &[M]|
            since@ == current.moves@.skip(before.last_searched->0.moves@.len() as int)
                && #[trigger] call_ensures(
                calls.reroot,
                (before.search_tree->0, since),
                Some(job.tree),
            ),
        P::obeys_eq_spec() && M::obeys_eq_spec() && (forall|a: P, b: P| #[trigger]
            a.eq_spec(&b) <==> a == b) && (forall|a: M, b: M| #[trigger] a.eq_spec(&b) <==> a == b)
            ==> current.root_position == before.last_searched->0.root_position
            && before.last_searched->0.moves@.len() <= current.moves@.len() && forall|i: int|
            0 <= i < before.last_searched->0.moves@.len()
                ==> #[trigger] before.last_searched->0.moves@[i] == current.moves@[i],
{
    if P::obeys_eq_spec() && M::obeys_eq_spec() && (forall|a: P, b: P| #[trigger]
        a.eq_spec(&b) <==> a == b) && (forall|a: M, b: M| #[trigger] a.eq_spec(&b) <==> a == b) {
        law_difference_is_what_was_played_since(before.last_searched->0, current);
    }
}

/// The kept tree is carried over whenever it can be: if the current position continues the one
/// that was searched last, and rerooting by the moves played since cannot fail, the tree is not
/// thrown away.
pub proof fn law_tree_is_not_thrown_away<K, P, M, T, NewTree, Reroot, DoMove>(
    before: Session<K, P, M, T>,
    current: SearchPosition<P, M>,
    settings: MctsSettings,
    calls: GoCalls<NewTree, Reroot, DoMove>,
    after: Session<K, P, M, T>,
    job: GoJob<P, T>,
    earlier: SearchPosition<P, M>,
    tree: T,
    since: Seq<M>,
) where
    P: Clone + PartialEq,
    M: PartialEq,
    NewTree: Fn(P, MctsSettings) -> T,
    Reroot: Fn(T, &[M]) -> Option<T>,
    DoMove: Fn(P, M) -> P,

    requires
        before.position == Some(current),
        before.search_prepared(settings, calls, after, Ok(job)),
        before.search_tree == Some(tree),
        before.last_searched == Some(earlier),
        current.root_position == earlier.root_position,
        current.moves@ == earlier.moves@ + since,
        P::obeys_eq_spec(),
        M::obeys_eq_spec(),
        forall|a: P, b: P| #[trigger] a.eq_spec(&b) <==> a == b,
        forall|a: M, b: M| #[trigger] a.eq_spec(&b) <==> a == b,
        forall|moves: &[M]|
            moves@ == since ==> !(#[trigger] call_ensures(calls.reroot, (tree, moves), None)),
    ensures
        job.reused,
        exists|moves: &[M]|
            moves@ == since && #[trigger] call_ensures(
                calls.reroot,
                (tree, moves),
                Some(job.tree),
            ),
        job.time_offset == before.cumulative_search_time,
{
    law_difference_finds_continuations(earlier, current, since);
}

/// What a search that is started changes in the session: the position is the one searched last,
/// the tree is handed out, the time spent is that of the tree, and a search is running. All else
/// stays.
pub proof fn law_started_search_changes_these_fields<K, P, M, T, NewTree, Reroot, DoMove>(
    before: Session<K, P, M, T>,
    current: SearchPosition<P, M>,
    settings: MctsSettings,
    calls: GoCalls<NewTree, Reroot, DoMove>,
    after: Session<K, P, M, T>,
    job: GoJob<P, T>,
) where
    P: Clone + PartialEq,
    M: PartialEq,
    NewTree: Fn(P, MctsSettings) -> T,
    Reroot: Fn(T, &[M]) -> Option<T>,
    DoMove: Fn(P, M) -> P,

    requires
        before.position == Some(current),
        before.search_prepared(settings, calls, after, Ok(job)),
    ensures
        job.reused ==> job.time_offset == before.cumulative_search_time,
        !job.reused ==> job.time_offset == 0,
        after.cumulative_search_time == job.time_offset,
        after.searching,
        after.search_tree is None,
        after.last_searched is Some,
        cloned(current.root_position, after.last_searched->0.root_position),
        after.last_searched->0.moves@ == current.moves@,
        after.position == before.position,
        after.size == before.size,
        after.komi == before.komi,
        after.multi_pv == before.multi_pv,
{
}

/// A search is refused exactly if there is no position, and says whether there was a game; a
/// refused search changes nothing.
pub proof fn law_search_needs_a_position<K, P, M, T, NewTree, Reroot, DoMove>(
    before: Session<K, P, M, T>,
    settings: MctsSettings,
    calls: GoCalls<NewTree, Reroot, DoMove>,
    after: Session<K, P, M, T>,
    job: Result<GoJob<P, T>, TeiError>,
) where
    P: Clone + PartialEq,
    M: PartialEq,
    NewTree: Fn(P, MctsSettings) -> T,
    Reroot: Fn(T, &[M]) -> Option<T>,
    DoMove: Fn(P, M) -> P,

    requires
        before.search_prepared(settings, calls, after, job),
    ensures
        job is Err <==> before.position is None,
        job is Err && before.size is None ==> job->Err_0 == TeiError::GoBeforeNewGame,
        job is Err && before.size is Some ==> job->Err_0 == TeiError::PositionNotSet,
        job is Err ==> after == before,
{
}

// ---------------------------------------------------------------------------
// Waiting for a search
// ---------------------------------------------------------------------------

/// A search that has been waited for gives the session its tree, or none, in place of what was
/// kept, and its time is added; nothing else changes, and nothing at all without a search.
pub proof fn law_waited_for_search_gives_tree_and_time<K, P, M, T>(
    before: Session<K, P, M, T>,
    joined: Option<(Option<T>, u128)>,
    after: Session<K, P, M, T>,
)
    requires
        before.drained(joined, after),
        joined matches Some((_, elapsed)) ==> before.cumulative_search_time + elapsed <= u128::MAX,
    ensures
        joined is None ==> after == before,
        joined matches Some((tree, elapsed)) ==> after.search_tree == tree
            && after.cumulative_search_time == before.cumulative_search_time + elapsed
            && !after.searching,
        after.position == before.position,
        after.last_searched == before.last_searched,
        after.size == before.size,
        after.komi == before.komi,
        after.multi_pv == before.multi_pv,
{
}

// ---------------------------------------------------------------------------
// Options and new games
// ---------------------------------------------------------------------------

/// The words of a `setoption` command, one behind the other: `name`, the option, `value`, and the
/// value. A line without these is refused, and so is a value that is no number in range: from 1 to
/// 8 for `MultiPV`, and from -128 to 127 for `HalfKomi`.
pub proof fn law_option_lines_mean_what_they_say(list: Seq<Seq<char>>, n: int)
    ensures
        list.len() < 4 || list[1] != "name"@ || list[3] != "value"@ || (list[2] != "HalfKomi"@
            && list[2] != "MultiPV"@) <==> option_value(list) == Err::<OptionValue, TeiError>(
            TeiError::InvalidSetOption,
        ),
        list.len() >= 5 && list[1] == "name"@ && list[2] == "MultiPV"@ && list[3] == "value"@
            && unsigned_value(list[4]) == Some(n) && 1 <= n <= 8 ==> option_value(list) == Ok::<
            OptionValue,
            TeiError,
        >(OptionValue::MultiPv(n as usize)),
        list.len() >= 5 && list[1] == "name"@ && list[2] == "HalfKomi"@ && list[3] == "value"@
            && signed_value(list[4]) == Some(n) && -128 <= n <= 127 ==> option_value(list) == Ok::<
            OptionValue,
            TeiError,
        >(OptionValue::HalfKomi(n as i8)),
        option_value(list) matches Ok(OptionValue::MultiPv(k)) ==> list.len() >= 5 && list[2]
            == "MultiPV"@ && unsigned_value(list[4]) == Some(k as int) && 1 <= k <= 8,
        option_value(list) matches Ok(OptionValue::HalfKomi(k)) ==> list.len() >= 5 && list[2]
            == "HalfKomi"@ && signed_value(list[4]) == Some(k as int),
        option_value(list) matches Err(error) ==> error == TeiError::InvalidSetOption || (error
            == TeiError::InvalidMultiPv && list[2] == "MultiPV"@) || (error == TeiError::InvalidKomi
            && list[2] == "HalfKomi"@),
{
    reveal_strlit("HalfKomi");
    reveal_strlit("MultiPV");
    assert("HalfKomi"@.len() == 8 && "MultiPV"@.len() == 7);
    assert(unsigned_value(Seq::<char>::empty()) is None);
    assert(signed_value(Seq::<char>::empty()) is None);
}

/// An option that is set changes its own field, to the value given, and no other; a refused one
/// changes nothing.
pub proof fn law_option_changes_its_own_field<K, P, M, T, FromHalfKomi: Fn(i8) -> Option<K>>(
    before: Session<K, P, M, T>,
    list: Seq<Seq<char>>,
    from_half_komi: FromHalfKomi,
    after: Session<K, P, M, T>,
    done: Result<(), TeiError>,
)
    requires
        before.option_set(list, from_half_komi, after, done),
    ensures
        done is Err ==> after == before,
        after.position == before.position,
        after.last_searched == before.last_searched,
        after.search_tree == before.search_tree,
        after.size == before.size,
        after.cumulative_search_time == before.cumulative_search_time,
        after.searching == before.searching,
        option_value(list) matches Err(error) ==> done == Err::<(), TeiError>(error),
        option_value(list) matches Ok(OptionValue::MultiPv(n)) ==> done is Ok && after.multi_pv == n
            && after.komi == before.komi,
        option_value(list) matches Ok(OptionValue::HalfKomi(n)) ==> after.multi_pv
            == before.multi_pv && match done {
            Ok(_) => call_ensures(from_half_komi, (n,), Some(after.komi)),
            Err(error) => error == TeiError::InvalidKomi && call_ensures(
                from_half_komi,
                (n,),
                None,
            ),
        },
{
}

/// A new game is begun exactly if the word behind the command is a number from 4 to 7. Then the
/// size is that number, position, tree and time are gone, and the options stay. Otherwise nothing
/// changes, and the number is named, or zero where there is none.
pub proof fn law_new_game_begins_with_its_size<K, P, M, T>(
    before: Session<K, P, M, T>,
    list: Seq<Seq<char>>,
    after: Session<K, P, M, T>,
    done: Result<(), TeiError>,
    n: int,
)
    requires
        before.game_begun(list, after, done),
    ensures
        done is Ok <==> list.len() >= 2 && (unsigned_value(list[1]) == Some(4int) || unsigned_value(
            list[1],
        ) == Some(5int) || unsigned_value(list[1]) == Some(6int) || unsigned_value(list[1]) == Some(
            7int,
        )),
        done is Ok ==> after.size is Some && unsigned_value(list[1]) == Some(after.size->0 as int)
            && after.position is None && after.last_searched is None && after.search_tree is None
            && after.cumulative_search_time == 0,
        done is Err ==> after == before,
        done is Err && list.len() >= 2 && unsigned_value(list[1]) == Some(n) && 0 <= n
            <= usize::MAX ==> done->Err_0 == TeiError::UnsupportedSize(n as usize),
        done is Err && (list.len() < 2 || unsigned_value(list[1]) is None) ==> done->Err_0
            == TeiError::UnsupportedSize(0),
        done is Err && list.len() >= 2 && unsigned_value(list[1]) == Some(n) && n > usize::MAX
            ==> done->Err_0 == TeiError::UnsupportedSize(0),
        after.komi == before.komi,
        after.multi_pv == before.multi_pv,
        after.searching == before.searching,
{
}

/// A `position` command needs a game, reads its words on the board size of the game and with the
/// komi that is set, and changes nothing but the position; a refused one changes nothing.
pub proof fn law_position_command_sets_the_position<
    K,
    P: Clone,
    M,
    T,
    StartPosition,
    FromTps,
    MoveFromSan,
    DoMove,
>(
    before: Session<K, P, M, T>,
    list: Seq<Seq<char>>,
    calls: PositionCalls<StartPosition, FromTps, MoveFromSan, DoMove>,
    after: Session<K, P, M, T>,
    done: Result<(), TeiError>,
) where
    StartPosition: Fn(usize, K) -> P,
    FromTps: Fn(&str, usize, K) -> Result<P, String>,
    MoveFromSan: Fn(&P, &str) -> Result<M, String>,
    DoMove: Fn(P, M) -> P,

    requires
        before.position_set(list, calls, after, done),
    ensures
        before.size is None ==> done == Err::<(), TeiError>(TeiError::PositionBeforeNewGame),
        done is Err ==> after == before,
        before.size is Some && done is Ok ==> after.position is Some && calls.position_read(
            list,
            before.size->0,
            before.komi,
            Ok(after.position->0),
        ),
        before.size is Some && done is Err ==> calls.position_read(
            list,
            before.size->0,
            before.komi,
            Err::<SearchPosition<P, M>, TeiError>(done->Err_0),
        ),
        after.last_searched == before.last_searched,
        after.search_tree == before.search_tree,
        after.size == before.size,
        after.komi == before.komi,
        after.multi_pv == before.multi_pv,
        after.cumulative_search_time == before.cumulative_search_time,
        after.searching == before.searching,
{
}

// ---------------------------------------------------------------------------
// All commands
// ---------------------------------------------------------------------------

/// Each command does its own thing. `quit` ends the program, `stop` leaves nothing to do,
/// `isready` is answered with `readyok`, and none of them changes the session; the others set an
/// option, begin a game, set the position or start a search, and no other command does.
pub proof fn law_commands_do_what_they_are_for<
    K,
    P,
    M,
    T,
    FromHalfKomi,
    StartPosition,
    FromTps,
    MoveFromSan,
    DoMove,
    NewTree,
    Reroot,
    PlayMove,
>(
    before: Session<K, P, M, T>,
    command: Command,
    list: Seq<Seq<char>>,
    settings: MctsSettings,
    from_half_komi: FromHalfKomi,
    position_calls: PositionCalls<StartPosition, FromTps, MoveFromSan, DoMove>,
    go_calls: GoCalls<NewTree, Reroot, PlayMove>,
    after: Session<K, P, M, T>,
    action: Result<Action<P, T>, TeiError>,
) where
    P: Clone + PartialEq,
    M: PartialEq,
    FromHalfKomi: Fn(i8) -> Option<K>,
    StartPosition: Fn(usize, K) -> P,
    FromTps: Fn(&str, usize, K) -> Result<P, String>,
    MoveFromSan: Fn(&P, &str) -> Result<M, String>,
    DoMove: Fn(P, M) -> P,
    NewTree: Fn(P, MctsSettings) -> T,
    Reroot: Fn(T, &[M]) -> Option<T>,
    PlayMove: Fn(P, M) -> P,

    requires
        before.carried_out(
            command,
            list,
            settings,
            from_half_komi,
            position_calls,
            go_calls,
            after,
            action,
        ),
    ensures
        command == Command::Quit || command == Command::Stop || command == Command::IsReady
            ==> after == before && action is Ok,
        action is Ok && action->Ok_0 is Exit <==> command == Command::Quit,
        action is Ok && action->Ok_0 is Answer <==> command == Command::IsReady,
        command == Command::IsReady ==> action->Ok_0->Answer_0@ == "readyok"@,
        action is Ok && action->Ok_0 is Search ==> command == Command::Go,
        command == Command::Go && action is Ok ==> action->Ok_0 is Search && before.search_prepared(
            settings,
            go_calls,
            after,
            Ok(action->Ok_0->Search_0),
        ),
        command == Command::Go && action is Err ==> before.search_prepared(
            settings,
            go_calls,
            after,
            Err::<GoJob<P, T>, TeiError>(action->Err_0),
        ),
        command == Command::SetOption && action is Ok ==> before.option_set(
            list,
            from_half_komi,
            after,
            Ok(()),
        ),
        command == Command::SetOption && action is Err ==> before.option_set(
            list,
            from_half_komi,
            after,
            Err::<(), TeiError>(action->Err_0),
        ),
        command == Command::NewGame && action is Ok ==> before.game_begun(list, after, Ok(())),
        command == Command::NewGame && action is Err ==> before.game_begun(
            list,
            after,
            Err::<(), TeiError>(action->Err_0),
        ),
        command == Command::Position && action is Ok ==> before.position_set(
            list,
            position_calls,
            after,
            Ok(()),
        ),
        command == Command::Position && action is Err ==> before.position_set(
            list,
            position_calls,
            after,
            Err::<(), TeiError>(action->Err_0),
        ),
{
}

/// What holds of every session, said of its fields. The size is from 4 to 7 and the number of lines
/// from 1 to 8. There is no position without a game, nothing was searched without a position, no
/// tree and no search without a position that was searched, and no time without one either; and the
/// time is no longer than `Duration` can hold.
pub proof fn law_sessions_keep_their_order<K, P, M, T>(session: Session<K, P, M, T>)
    ensures
        session.wf() <==> {
            &&& session.size matches Some(size) ==> size == 4 || size == 5 || size == 6 || size == 7
            &&& 1 <= session.multi_pv <= 8
            &&& session.size is None ==> session.position is None
            &&& session.position is None ==> session.last_searched is None
            &&& session.last_searched is None ==> session.search_tree is None
                && !session.searching && session.cumulative_search_time == 0
            &&& session.cumulative_search_time <= u64::MAX * 1_000_000_000 + 999_999_999
        },
{
}

} // verus!
