//! What the words of a `position` command mean, one by one.

use vstd::prelude::*;

use crate::error::TeiError;
use crate::outcome::outcomes_2;
use crate::position_string::moves_read;
use crate::position_string::moves_refused;
use crate::position_string::PositionCalls;
use crate::search_position::SearchPosition;
use crate::text::joined;
use crate::text_laws::law_three_words_are_joined;

verus! {

// ---------------------------------------------------------------------------
// The root
// ---------------------------------------------------------------------------

/// With `startpos` behind the command, the root is the start position on the board size given and
/// with the komi given, and the words behind it are read from there.
pub proof fn law_startpos_is_the_start_position<
    P: Clone,
    M,
    K,
    StartPosition,
    FromTps,
    MoveFromSan,
    DoMove,
>(
    calls: PositionCalls<StartPosition, FromTps, MoveFromSan, DoMove>,
    list: Seq<Seq<char>>,
    size: usize,
    komi: K,
    read: Result<SearchPosition<P, M>, TeiError>,
) -> (root: P) where
    StartPosition: Fn(usize, K) -> P,
    FromTps: Fn(&str, usize, K) -> Result<P, String>,
    MoveFromSan: Fn(&P, &str) -> Result<M, String>,
    DoMove: Fn(P, M) -> P,

    requires
        list.len() >= 2,
        list[1] == "startpos"@,
        calls.position_read(list, size, komi, read),
    ensures
        call_ensures(calls.start_position, (size, komi), root),
        calls.rest_read(root, list.subrange(2, list.len() as int), read),
{
    assert(list.skip(2) =~= list.subrange(2, list.len() as int));
    choose|root: P| #[trigger]
        call_ensures(calls.start_position, (size, komi), root) && calls.rest_read(
            root,
            list.skip(2),
            read,
        )
}

/// With `tps` behind the command, the root is what the next three words describe: these very words,
/// with single spaces between them, on the board size given and with the komi given. If that is
/// refused, so is the line, for the same reason; otherwise the words behind are read from there.
pub proof fn law_tps_is_the_next_three_words<
    P: Clone,
    M,
    K,
    StartPosition,
    FromTps,
    MoveFromSan,
    DoMove,
>(
    calls: PositionCalls<StartPosition, FromTps, MoveFromSan, DoMove>,
    command: Seq<char>,
    board: Seq<char>,
    player: Seq<char>,
    number: Seq<char>,
    rest: Seq<Seq<char>>,
    size: usize,
    komi: K,
    read: Result<SearchPosition<P, M>, TeiError>,
) -> (given: (&'static str, Result<P, String>)) where
    StartPosition: Fn(usize, K) -> P,
    FromTps: Fn(&str, usize, K) -> Result<P, String>,
    MoveFromSan: Fn(&P, &str) -> Result<M, String>,
    DoMove: Fn(P, M) -> P,

    requires
        calls.position_read(
            seq![command, "tps"@, board, player, number] + rest,
            size,
            komi,
            read,
        ),
    ensures
        given.0@ == board + seq![' '] + player + seq![' '] + number,
        call_ensures(calls.from_tps, (given.0, size, komi), given.1),
        given.1 matches Ok(root) ==> calls.rest_read(root, rest, read),
        given.1 matches Err(reason) ==> read == Err::<SearchPosition<P, M>, TeiError>(
            TeiError::InvalidTps(reason),
        ),
{
    reveal_strlit("tps");
    reveal_strlit("startpos");
    assert("tps"@.len() == 3 && "startpos"@.len() == 8);
    let list = seq![command, "tps"@, board, player, number] + rest;
    assert(list[1] == "tps"@);
    assert(list.subrange(2, 5) =~= seq![board, player, number]);
    assert(list.skip(5) =~= rest);
    law_three_words_are_joined(board, player, number);
    choose|tps: &'static str, found: Result<P, String>|
        tps@ == joined(list.subrange(2, 5)) && #[trigger] call_ensures(
            calls.from_tps,
            (tps, size, komi),
            found,
        ) && match found {
            Ok(root) => calls.rest_read(root, list.skip(5), read),
            Err(reason) => read == Err::<SearchPosition<P, M>, TeiError>(
                TeiError::InvalidTps(reason),
            ),
        }
}

/// If fewer than three words are left behind `tps`, the root is what these describe, with single
/// spaces between them, and nothing is left behind them.
pub proof fn law_short_tps_is_what_is_left<
    P: Clone,
    M,
    K,
    StartPosition,
    FromTps,
    MoveFromSan,
    DoMove,
>(
    calls: PositionCalls<StartPosition, FromTps, MoveFromSan, DoMove>,
    command: Seq<char>,
    left: Seq<Seq<char>>,
    size: usize,
    komi: K,
    read: Result<SearchPosition<P, M>, TeiError>,
) -> (given: (&'static str, Result<P, String>)) where
    StartPosition: Fn(usize, K) -> P,
    FromTps: Fn(&str, usize, K) -> Result<P, String>,
    MoveFromSan: Fn(&P, &str) -> Result<M, String>,
    DoMove: Fn(P, M) -> P,

    requires
        left.len() < 3,
        calls.position_read(seq![command, "tps"@] + left, size, komi, read),
    ensures
        left.len() == 0 ==> given.0@ == Seq::<char>::empty(),
        left.len() == 1 ==> given.0@ == left[0],
        left.len() == 2 ==> given.0@ == left[0] + seq![' '] + left[1],
        call_ensures(calls.from_tps, (given.0, size, komi), given.1),
        given.1 matches Ok(root) ==> calls.rest_read(root, Seq::empty(), read),
        given.1 matches Err(reason) ==> read == Err::<SearchPosition<P, M>, TeiError>(
            TeiError::InvalidTps(reason),
        ),
{
    reveal_strlit("tps");
    reveal_strlit("startpos");
    assert("tps"@.len() == 3 && "startpos"@.len() == 8);
    let list = seq![command, "tps"@] + left;
    assert(list[1] == "tps"@);
    let end = list.len() as int;
    assert(list.subrange(2, end) =~= left);
    assert(list.skip(end) =~= Seq::empty());
    if left.len() == 2 {
        assert(left.drop_last() =~= seq![left[0]]);
        assert(joined(seq![left[0]]) == left[0]);
    }
    choose|tps: &'static str, found: Result<P, String>|
        tps@ == joined(list.subrange(2, end)) && #[trigger] call_ensures(
            calls.from_tps,
            (tps, size, komi),
            found,
        ) && match found {
            Ok(root) => calls.rest_read(root, list.skip(end), read),
            Err(reason) => read == Err::<SearchPosition<P, M>, TeiError>(
                TeiError::InvalidTps(reason),
            ),
        }
}

/// A line with neither `startpos` nor `tps` behind the command is refused.
pub proof fn law_other_roots_are_refused<
    P: Clone,
    M,
    K,
    StartPosition,
    FromTps,
    MoveFromSan,
    DoMove,
>(
    calls: PositionCalls<StartPosition, FromTps, MoveFromSan, DoMove>,
    list: Seq<Seq<char>>,
    size: usize,
    komi: K,
    read: Result<SearchPosition<P, M>, TeiError>,
) where
    StartPosition: Fn(usize, K) -> P,
    FromTps: Fn(&str, usize, K) -> Result<P, String>,
    MoveFromSan: Fn(&P, &str) -> Result<M, String>,
    DoMove: Fn(P, M) -> P,

    requires
        list.len() < 2 || (list[1] != "startpos"@ && list[1] != "tps"@),
        calls.position_read(list, size, komi, read),
    ensures
        read == Err::<SearchPosition<P, M>, TeiError>(TeiError::ExpectedRoot),
{
}

// ---------------------------------------------------------------------------
// The moves
// ---------------------------------------------------------------------------

/// The positions and the texts behind a list of moves that is read.
proof fn lemma_read_path<P, M>(
    reads: spec_fn(P, Seq<char>, Result<M, String>) -> bool,
    step: spec_fn(P, M, P) -> bool,
    start: P,
    list: Seq<Seq<char>>,
    moves: Seq<M>,
    end: P,
) -> (path: Seq<P>)
    requires
        moves_read(reads, step, start, list, moves, end),
    ensures
        moves.len() == list.len(),
        path.len() == list.len() + 1,
        path[0] == start,
        path.last() == end,
        forall|i: int| 0 <= i < list.len() ==> reads(path[i], #[trigger] list[i], Ok(moves[i])),
        forall|i: int| 0 <= i < list.len() ==> step(path[i], #[trigger] moves[i], path[i + 1]),
    decreases list.len(),
{
    if list.len() == 0 {
        seq![start]
    } else {
        let before = choose|before: P|
            moves_read(reads, step, start, list.drop_last(), moves.drop_last(), before) && reads(
                before,
                list.last(),
                Ok(moves.last()),
            ) && #[trigger] step(before, moves.last(), end);
        let front = lemma_read_path(
            reads,
            step,
            start,
            list.drop_last(),
            moves.drop_last(),
            before,
        );
        let path = front.push(end);
        assert forall|i: int| 0 <= i < list.len() implies reads(
            path[i],
            #[trigger] list[i],
            Ok(moves[i]),
        ) by {
            assert(path[i] == front[i]);
            if i < list.len() - 1 {
                assert(list.drop_last()[i] == list[i]);
                assert(moves.drop_last()[i] == moves[i]);
            }
        }
        assert forall|i: int| 0 <= i < list.len() implies step(
            path[i],
            #[trigger] moves[i],
            path[i + 1],
        ) by {
            assert(path[i] == front[i]);
            if i < list.len() - 1 {
                assert(moves.drop_last()[i] == moves[i]);
                assert(path[i + 1] == front[i + 1]);
            }
        }
        path
    }
}

/// With nothing behind the root, the position is the root. What follows it has to be `moves`, and
/// the word that stands there instead is named.
pub proof fn law_moves_follow_the_root<P: Clone, M, StartPosition, FromTps, MoveFromSan, DoMove>(
    calls: PositionCalls<StartPosition, FromTps, MoveFromSan, DoMove>,
    root: P,
    rest: Seq<Seq<char>>,
    read: Result<SearchPosition<P, M>, TeiError>,
) where
    MoveFromSan: Fn(&P, &str) -> Result<M, String>,
    DoMove: Fn(P, M) -> P,

    requires
        calls.rest_read(root, rest, read),
    ensures
        rest.len() == 0 ==> read is Ok && read->Ok_0.root_position == root && read->Ok_0.moves@.len()
            == 0,
        rest.len() > 0 && rest[0] != "moves"@ ==> match read {
            Err(TeiError::ExpectedMoves(word)) => word@ == rest[0],
            _ => false,
        },
        rest.len() > 0 && rest[0] == "moves"@ ==> match read {
            Ok(position) => position.root_position == root,
            Err(TeiError::InvalidMove(_)) => true,
            Err(_) => false,
        },
{
}

/// Behind `moves`, each word is read as a move in the position that the moves before it lead to,
/// from a clone of the root on, and that move is played and kept. There is one move for each word,
/// in order.
pub proof fn law_each_word_is_read_where_it_is_played<
    P: Clone,
    M,
    StartPosition,
    FromTps,
    MoveFromSan,
    DoMove,
>(
    calls: PositionCalls<StartPosition, FromTps, MoveFromSan, DoMove>,
    root: P,
    list: Seq<Seq<char>>,
    position: SearchPosition<P, M>,
) -> (behind: (Seq<P>, Seq<&'static str>)) where
    MoveFromSan: Fn(&P, &str) -> Result<M, String>,
    DoMove: Fn(P, M) -> P,

    requires
        calls.rest_read(root, seq!["moves"@] + list, Ok(position)),
    ensures
        position.root_position == root,
        position.moves@.len() == list.len(),
        behind.0.len() == list.len() + 1,
        behind.1.len() == list.len(),
        cloned(root, behind.0[0]),
        forall|i: int|
            0 <= i < list.len() ==> (#[trigger] behind.1[i])@ == list[i] && call_ensures(
                calls.move_from_san,
                (&behind.0[i], behind.1[i]),
                Ok(position.moves@[i]),
            ),
        forall|i: int|
            0 <= i < list.len() ==> call_ensures(
                calls.do_move,
                (behind.0[i], #[trigger] position.moves@[i]),
                behind.0[i + 1],
            ),
{
    let all = seq!["moves"@] + list;
    assert(all[0] == "moves"@);
    assert(all.skip(1) =~= list);
    let reads = calls.reads::<P, M>();
    let step = outcomes_2(calls.do_move);
    let (start, end) = choose|start: P, end: P|
        cloned(root, start) && #[trigger] moves_read(
            reads,
            step,
            start,
            list,
            position.moves@,
            end,
        );
    let path = lemma_read_path(reads, step, start, list, position.moves@, end);
    let texts = Seq::new(
        list.len(),
        |i: int|
            choose|san: &'static str|
                san@ == list[i] && #[trigger] call_ensures(
                    calls.move_from_san,
                    (&path[i], san),
                    Ok(position.moves@[i]),
                ),
    );
    assert forall|i: int| 0 <= i < list.len() implies (#[trigger] texts[i])@ == list[i]
        && call_ensures(
        calls.move_from_san,
        (&path[i], texts[i]),
        Ok(position.moves@[i]),
    ) by {
        assert(reads(path[i], list[i], Ok(position.moves@[i])));
    }
    assert forall|i: int| 0 <= i < list.len() implies call_ensures(
        calls.do_move,
        (path[i], #[trigger] position.moves@[i]),
        path[i + 1],
    ) by {
        assert(step(path[i], position.moves@[i], path[i + 1]));
    }
    (path, texts)
}

/// A list of moves is refused at the first word that is no move in the position that the words
/// before it lead to, for the reason that there is for that word.
pub proof fn law_first_bad_word_is_refused<
    P: Clone,
    M,
    StartPosition,
    FromTps,
    MoveFromSan,
    DoMove,
>(
    calls: PositionCalls<StartPosition, FromTps, MoveFromSan, DoMove>,
    root: P,
    list: Seq<Seq<char>>,
    error: TeiError,
) -> (behind: (int, Seq<P>, Seq<M>, &'static str)) where
    MoveFromSan: Fn(&P, &str) -> Result<M, String>,
    DoMove: Fn(P, M) -> P,

    requires
        calls.rest_read(
            root,
            seq!["moves"@] + list,
            Err::<SearchPosition<P, M>, TeiError>(error),
        ),
    ensures
        error is InvalidMove,
        ({
            let (n, path, moves, bad) = behind;
            &&& 0 <= n < list.len()
            &&& path.len() == n + 1
            &&& moves.len() == n
            &&& cloned(root, path[0])
            &&& forall|i: int|
                0 <= i < n ==> calls.reads::<P, M>()(path[i], #[trigger] list[i], Ok(moves[i]))
            &&& forall|i: int|
                0 <= i < n ==> call_ensures(
                    calls.do_move,
                    (path[i], #[trigger] moves[i]),
                    path[i + 1],
                )
            &&& bad@ == list[n]
            &&& call_ensures(
                calls.move_from_san,
                (&path[n], bad),
                Err::<M, String>(error->InvalidMove_0),
            )
        }),
{
    let all = seq!["moves"@] + list;
    assert(all[0] == "moves"@);
    assert(all.skip(1) =~= list);
    let reads = calls.reads::<P, M>();
    let step = outcomes_2(calls.do_move);
    let reason = error->InvalidMove_0;
    assert(calls.line_refused::<P, M>(root, list, reason));
    let start = choose|start: P|
        cloned(root, start) && #[trigger] moves_refused(reads, step, start, list, reason);
    let (n, moves, here) = choose|n: int, moves: Seq<M>, before: P|
        0 <= n < list.len() && #[trigger] moves_read(
            reads,
            step,
            start,
            list.take(n),
            moves,
            before,
        ) && reads(before, list[n], Err(reason));
    let path = lemma_read_path(reads, step, start, list.take(n), moves, here);
    assert forall|i: int| 0 <= i < n implies reads(path[i], #[trigger] list[i], Ok(moves[i])) by {
        assert(list.take(n)[i] == list[i]);
    }
    assert forall|i: int| 0 <= i < n implies call_ensures(
        calls.do_move,
        (path[i], #[trigger] moves[i]),
        path[i + 1],
    ) by {
        assert(step(path[i], moves[i], path[i + 1]));
    }
    assert(reads(path[n], list[n], Err(reason)));
    let bad = choose|san: &'static str|
        san@ == list[n] && #[trigger] call_ensures(
            calls.move_from_san,
            (&path[n], san),
            Err::<M, String>(reason),
        );
    (n, path, moves, bad)
}

/// What a text is read as in a position is what the engine says of the text, by its characters.
pub proof fn law_texts_are_read_by_the_engine<
    P,
    M,
    StartPosition,
    FromTps,
    MoveFromSan,
    DoMove,
>(
    calls: PositionCalls<StartPosition, FromTps, MoveFromSan, DoMove>,
    position: P,
    text: Seq<char>,
    found: Result<M, String>,
) where MoveFromSan: Fn(&P, &str) -> Result<M, String>
    requires
        calls.reads::<P, M>()(position, text, found),
    ensures
        exists|san: &str|
            san@ == text && #[trigger] call_ensures(calls.move_from_san, (&position, san), found),
{
}

} // verus!
